//! The trading pairs enabled in a pairs configuration, sorted in string
//! order.
use vstd::prelude::*;
use vstd::relations::sorted_by;
use crate::text::{ascii_lower, chars_eq_str, chars_of, lower_chars, to_uppercase, upper_of};
use vstd::string::*;

verus! {

/// String order: lexicographic by code point, as `str`'s `Ord` compares
/// (UTF-8 preserves code point order byte by byte).
pub open spec fn lex_le(a: Seq<char>, b: Seq<char>) -> bool
    decreases a.len(),
{
    if a.len() == 0 {
        true
    } else if b.len() == 0 {
        false
    } else if a[0] != b[0] {
        (a[0] as int) < (b[0] as int)
    } else {
        lex_le(a.drop_first(), b.drop_first())
    }
}

/// Any two strings are ordered one way or the other.
pub proof fn lemma_lex_total(a: Seq<char>, b: Seq<char>)
    ensures
        lex_le(a, b) || lex_le(b, a),
    decreases a.len(),
{
    if a.len() > 0 && b.len() > 0 && a[0] == b[0] {
        lemma_lex_total(a.drop_first(), b.drop_first());
    }
}

/// The string order is transitive.
pub proof fn lemma_lex_trans(a: Seq<char>, b: Seq<char>, c: Seq<char>)
    requires
        lex_le(a, b),
        lex_le(b, c),
    ensures
        lex_le(a, c),
    decreases a.len(),
{
    if a.len() > 0 && b.len() > 0 && c.len() > 0 && a[0] == b[0] && b[0] == c[0] {
        lemma_lex_trans(a.drop_first(), b.drop_first(), c.drop_first());
    }
}

pub open spec fn lex_le_fn() -> spec_fn(Seq<char>, Seq<char>) -> bool {
    |a: Seq<char>, b: Seq<char>| lex_le(a, b)
}

fn lex_le_exec(a: &Vec<char>, b: &Vec<char>) -> (r: bool)
    ensures
        r == lex_le(a@, b@),
{
    let mut i: usize = 0;
    assert(a@.skip(0) == a@);
    assert(b@.skip(0) == b@);
    while i < a.len() && i < b.len() && a[i] == b[i]
        invariant
            i <= a.len(),
            i <= b.len(),
            lex_le(a@, b@) == lex_le(a@.skip(i as int), b@.skip(i as int)),
        decreases a.len() - i,
    {
        assert(a@.skip(i as int).drop_first() == a@.skip(i + 1));
        assert(b@.skip(i as int).drop_first() == b@.skip(i + 1));
        i = i + 1;
    }
    if i == a.len() {
        true
    } else if i == b.len() {
        false
    } else {
        a[i] < b[i]
    }
}

pub open spec fn views(v: Seq<String>) -> Seq<Seq<char>> {
    v.map_values(|s: String| s@)
}

proof fn lemma_insert_sorted(s: Seq<Seq<char>>, p: int, x: Seq<char>)
    requires
        0 <= p <= s.len(),
        sorted_by(s, lex_le_fn()),
        forall|j: int| 0 <= j < p ==> lex_le(#[trigger] s[j], x),
        p < s.len() ==> !lex_le(s[p], x),
    ensures
        sorted_by(s.insert(p, x), lex_le_fn()),
{
    let t = s.insert(p, x);
    if p < s.len() {
        lemma_lex_total(s[p], x);
    }
    assert forall|i: int, j: int| 0 <= i < j < t.len() implies #[trigger] lex_le_fn()(
        t[i],
        t[j],
    ) by {
        if j < p {
            assert(lex_le_fn()(s[i], s[j]));
        } else if j == p {
            assert(t[i] == s[i]);
        } else if i == p {
            assert(t[j] == s[j - 1]);
            if j - 1 > p {
                assert(lex_le_fn()(s[p], s[j - 1]));
                lemma_lex_trans(x, s[p], s[j - 1]);
            }
        } else if i < p {
            assert(lex_le_fn()(s[i], s[j - 1]));
        } else {
            assert(lex_le_fn()(s[i - 1], s[j - 1]));
        }
    }
}

/// The strings of `v` sorted in string order.
pub fn sort_strings(v: Vec<String>) -> (r: Vec<String>)
    ensures
        sorted_by(views(r@), lex_le_fn()),
        views(r@).to_multiset() == views(v@).to_multiset(),
{
    broadcast use vstd::seq_lib::group_to_multiset_ensures;

    let mut out: Vec<String> = Vec::new();
    let mut i: usize = 0;
    while i < v.len()
        invariant
            i <= v.len(),
            sorted_by(views(out@), lex_le_fn()),
            views(out@).to_multiset() == views(v@.take(i as int)).to_multiset(),
        decreases v.len() - i,
    {
        let x = v[i].clone();
        let xc = chars_of(x.as_str());
        let mut p: usize = 0;
        while p < out.len() && lex_le_exec(&chars_of(out[p].as_str()), &xc)
            invariant
                p <= out.len(),
                xc@ == x@,
                forall|j: int| 0 <= j < p ==> lex_le(#[trigger] views(out@)[j], x@),
            decreases out.len() - p,
        {
            p = p + 1;
        }
        let ghost before = views(out@);
        proof {
            lemma_insert_sorted(before, p as int, x@);
        }
        out.insert(p, x);
        proof {
            assert(views(out@) =~= before.insert(p as int, x@));
            vstd::seq_lib::to_multiset_insert(before, p as int, x@);
            assert(views(v@.take(i + 1)) =~= views(v@.take(i as int)).push(x@));
            vstd::seq_lib::to_multiset_build(views(v@.take(i as int)), x@);
            assert(views(v@.take(i + 1)).to_multiset() == views(v@.take(i as int)).to_multiset().insert(
                x@,
            ));
        }
        i = i + 1;
    }
    assert(v@.take(v.len() as int) =~= v@);
    out
}

// ── Enabled pairs of a configuration ────────────────────────────────────────

/// A configuration entry names a pair: a string key other than the
/// `global` and `profiles` sections (any case).
pub open spec fn is_pair_key(key: Seq<char>) -> bool {
    ascii_lower(key) != "global"@ && ascii_lower(key) != "profiles"@
}

/// A configuration entry's key as text (`None` when it is not a string)
/// and whether its section is enabled.
pub open spec fn flag_views(entries: Seq<(Option<String>, bool)>) -> Seq<(Option<Seq<char>>, bool)> {
    entries.map_values(
        |e: (Option<String>, bool)|
            (
                match e.0 {
                    Some(k) => Some(k@),
                    None => None,
                },
                e.1,
            ),
    )
}

/// The enabled pairs of the entries, uppercased, in entry order.
pub open spec fn enabled_pairs(entries: Seq<(Option<Seq<char>>, bool)>) -> Seq<Seq<char>>
    decreases entries.len(),
{
    if entries.len() == 0 {
        seq![]
    } else {
        let rest = enabled_pairs(entries.drop_last());
        let (key, enabled) = entries.last();
        match key {
            Some(k) => if enabled && is_pair_key(k) {
                rest.push(upper_of(k))
            } else {
                rest
            },
            None => rest,
        }
    }
}

/// The enabled pairs of a pairs configuration, uppercased and sorted, or
/// `None` when no pair is enabled. Each entry is a top-level key (`None`
/// when the key is not a string) and whether its section sets `enabled`.
pub fn enabled_config_pairs(entries: &Vec<(Option<String>, bool)>) -> (r: Option<Vec<String>>)
    ensures
        match r {
            None => enabled_pairs(flag_views(entries@)).len() == 0,
            Some(v) => {
                &&& enabled_pairs(flag_views(entries@)).len() > 0
                &&& sorted_by(views(v@), lex_le_fn())
                &&& views(v@).to_multiset() == enabled_pairs(flag_views(entries@)).to_multiset()
            },
        },
{
    let mut pairs: Vec<String> = Vec::new();
    let mut i: usize = 0;
    while i < entries.len()
        invariant
            i <= entries.len(),
            views(pairs@) == enabled_pairs(flag_views(entries@.take(i as int))),
        decreases entries.len() - i,
    {
        assert(flag_views(entries@.take(i + 1)).drop_last() =~= flag_views(entries@.take(i as int)));
        let (key, enabled) = &entries[i];
        match key {
            Some(k) => {
                let kl = lower_chars(&chars_of(k.as_str()));
                if *enabled && !chars_eq_str(&kl, "global") && !chars_eq_str(&kl, "profiles") {
                    let up = to_uppercase(k.as_str());
                    let ghost before = views(pairs@);
                    pairs.push(up);
                    assert(views(pairs@) =~= before.push(upper_of(k@)));
                }
            },
            None => {},
        }
        i = i + 1;
    }
    assert(entries@.take(entries.len() as int) =~= entries@);
    if pairs.len() == 0 {
        None
    } else {
        Some(sort_strings(pairs))
    }
}

// ── The pairs configuration text ───────────────────────────────────────────

/// A field of a top-level section: its key when the key is exactly a plain
/// YAML string, and its value when that value is a boolean.
pub struct YamlField {
    pub key: Option<String>,
    pub flag: Option<bool>,
}

/// A top-level entry of a YAML document: its key when it is a string, and
/// the fields of its value when that value is a mapping.
pub struct YamlEntry {
    pub key: Option<String>,
    pub fields: Option<Vec<YamlField>>,
}

pub open spec fn opt_text(o: Option<String>) -> Option<Seq<char>> {
    match o {
        Some(s) => Some(s@),
        None => None,
    }
}

pub open spec fn field_view(f: YamlField) -> (Option<Seq<char>>, Option<bool>) {
    (opt_text(f.key), f.flag)
}

pub open spec fn entry_view(e: YamlEntry) -> (
    Option<Seq<char>>,
    Option<Seq<(Option<Seq<char>>, Option<bool>)>>,
) {
    (
        opt_text(e.key),
        match e.fields {
            Some(v) => Some(v@.map_values(|f: YamlField| field_view(f))),
            None => None,
        },
    )
}

/// The top-level entries of the YAML document `raw`, in document order,
/// when it parses and its top level is a mapping: each key as text when it
/// is a string (tags removed), and, when the value is a mapping (tags
/// removed), its fields in order, each key as text when it is exactly a
/// plain string and each value when it is a boolean (tags removed).
pub uninterp spec fn yaml_top(raw: Seq<char>) -> Option<
    Seq<(Option<Seq<char>>, Option<Seq<(Option<Seq<char>>, Option<bool>)>>)>,
>;

/// Wraps `serde_yaml::from_str` into `serde_yaml::Value`, read back through
/// `as_mapping`, `as_str` and `as_bool`: the top-level entries of the
/// document, `None` when it does not parse or its top level is not a
/// mapping. What the entries are is left to the name `yaml_top`.
#[verifier::external_body]
fn parse_yaml_top(raw: &str) -> (r: Option<Vec<YamlEntry>>)
    ensures
        match r {
            Some(v) => yaml_top(raw@) == Some(v@.map_values(|e: YamlEntry| entry_view(e))),
            None => yaml_top(raw@) is None,
        },
{
    let doc: serde_yaml::Value = serde_yaml::from_str(raw).ok()?;
    Some(doc.as_mapping()?.iter().map(|(k, v)| YamlEntry {
        key: k.as_str().map(String::from),
        fields: v.as_mapping().map(|m| m.iter().map(|(fk, fv)| YamlField {
            key: match fk {
                serde_yaml::Value::String(t) => Some(t.clone()),
                _ => None,
            },
            flag: fv.as_bool(),
        }).collect()),
    }).collect())
}

/// The value of the first field keyed `enabled`, when there is one.
pub open spec fn enabled_field(fields: Seq<(Option<Seq<char>>, Option<bool>)>) -> Option<Option<bool>>
    decreases fields.len(),
{
    if fields.len() == 0 {
        None
    } else if fields[0].0 == Some("enabled"@) {
        Some(fields[0].1)
    } else {
        enabled_field(fields.drop_first())
    }
}

/// A section is enabled when its value is a mapping whose `enabled` field
/// is the boolean `true`.
pub open spec fn section_enabled(fields: Option<Seq<(Option<Seq<char>>, Option<bool>)>>) -> bool {
    match fields {
        Some(f) => enabled_field(f) == Some(Some(true)),
        None => false,
    }
}

/// Each top-level entry's key and whether its section is enabled.
pub open spec fn config_flags(
    top: Seq<(Option<Seq<char>>, Option<Seq<(Option<Seq<char>>, Option<bool>)>>)>,
) -> Seq<(Option<Seq<char>>, bool)> {
    top.map_values(
        |e: (Option<Seq<char>>, Option<Seq<(Option<Seq<char>>, Option<bool>)>>)|
            (e.0, section_enabled(e.1)),
    )
}

fn fields_enabled(fields: &Vec<YamlField>) -> (r: bool)
    ensures
        r == (enabled_field(fields@.map_values(|f: YamlField| field_view(f))) == Some(
            Some(true),
        )),
{
    let ghost all = fields@.map_values(|f: YamlField| field_view(f));
    let mut i: usize = 0;
    assert(all.skip(0) == all);
    while i < fields.len()
        invariant
            i <= fields.len(),
            all == fields@.map_values(|f: YamlField| field_view(f)),
            enabled_field(all) == enabled_field(all.skip(i as int)),
        decreases fields.len() - i,
    {
        assert(all.skip(i as int)[0] == field_view(fields@[i as int]));
        assert(all.skip(i as int).drop_first() == all.skip(i + 1));
        let f = &fields[i];
        let hit = match &f.key {
            Some(k) => chars_eq_str(&chars_of(k.as_str()), "enabled"),
            None => false,
        };
        if hit {
            return match f.flag {
                Some(b) => b,
                None => false,
            };
        }
        i = i + 1;
    }
    assert(all.skip(i as int).len() == 0);
    false
}

/// The enabled trading pairs of a pairs configuration text: the top-level
/// keys other than `global` and `profiles` whose section sets
/// `enabled: true`, uppercased and sorted; `None` when the text is not a
/// YAML mapping or enables no pair.
pub fn pairs_from_config_text(raw: &str) -> (r: Option<Vec<String>>)
    ensures
        match yaml_top(raw@) {
            None => r is None,
            Some(top) => match r {
                None => enabled_pairs(config_flags(top)).len() == 0,
                Some(v) => {
                    &&& enabled_pairs(config_flags(top)).len() > 0
                    &&& sorted_by(views(v@), lex_le_fn())
                    &&& views(v@).to_multiset() == enabled_pairs(config_flags(top)).to_multiset()
                },
            },
        },
{
    let top = match parse_yaml_top(raw) {
        Some(t) => t,
        None => return None,
    };
    let ghost tv = top@.map_values(|e: YamlEntry| entry_view(e));
    let mut flags: Vec<(Option<String>, bool)> = Vec::new();
    let mut i: usize = 0;
    while i < top.len()
        invariant
            i <= top.len(),
            tv == top@.map_values(|e: YamlEntry| entry_view(e)),
            flag_views(flags@) == config_flags(tv).take(i as int),
        decreases top.len() - i,
    {
        let e = &top[i];
        let key = match &e.key {
            Some(k) => Some(k.clone()),
            None => None,
        };
        let on = match &e.fields {
            Some(fs) => fields_enabled(fs),
            None => false,
        };
        let ghost before = flags@;
        flags.push((key, on));
        assert(flags@ == before.push((key, on)));
        assert(config_flags(tv).take(i + 1) == config_flags(tv).take(i as int).push(
            config_flags(tv)[i as int],
        ));
        assert(flag_views(flags@) =~= flag_views(before).push(config_flags(tv)[i as int]));
        i = i + 1;
    }
    assert(config_flags(tv).take(top.len() as int) =~= config_flags(tv));
    enabled_config_pairs(&flags)
}

} // verus!
