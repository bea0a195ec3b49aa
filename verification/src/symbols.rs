//! Symbol handling across venues: OKX instrument ids, operator-supplied
//! symbols, venue availability, and the 4H swing-candle feed (request URL,
//! collected symbols, chronological de-duplicated series).
use vstd::prelude::*;
use vstd::string::*;
use crate::numeric::{decimal_digits, format_u128};
use crate::text::{
    chars_eq_str, chars_of, ends_with, ends_with_exec, string_from_chars, to_uppercase, trim,
    trim_chars, upper_of, all_ascii, ascii_upper, is_ws, trim_start, trim_end, lemma_trim_keeps_ascii,
    lemma_ascii_upper_idempotent, no_ascii_lower,
};

verus! {

/// The symbol without a trailing `USDT`, when it has one.
pub open spec fn okx_base(s: Seq<char>) -> Seq<char> {
    if ends_with(s, "USDT"@) {
        s.subrange(0, s.len() - 4)
    } else {
        s
    }
}

/// OKX perpetual id: `BASE-USDT-SWAP`.
pub fn okx_inst_id(symbol: &str) -> (r: String)
    ensures
        r@ == okx_base(symbol@) + "-USDT-SWAP"@,
{
    let c = chars_of(symbol);
    let q = chars_of("USDT");
    proof {
        reveal_strlit("USDT");
    }
    let mut base: Vec<char> = Vec::new();
    let end = if ends_with_exec(&c, &q) {
        c.len() - 4
    } else {
        c.len()
    };
    for i in 0..end
        invariant
            end <= c@.len(),
            base@ == c@.take(i as int),
    {
        base.push(c[i]);
        assert(c@.take(i + 1) == c@.take(i as int).push(c@[i as int]));
    }
    assert(base@ == okx_base(symbol@));
    let mut r = string_from_chars(&base);
    r.append("-USDT-SWAP");
    r
}

pub open spec fn is_ascii_alnum(c: char) -> bool {
    ('0' <= c && c <= '9') || ('A' <= c && c <= 'Z') || ('a' <= c && c <= 'z')
}

/// An operator-supplied symbol, trimmed and uppercased, accepted when it is
/// ASCII alphanumeric, at least 5 long and quoted in USDT.
pub open spec fn normalized_symbol_spec(raw: Seq<char>) -> Option<Seq<char>> {
    let up = upper_of(trim(raw));
    if up.len() >= 5 && ends_with(up, "USDT"@) && (forall|i: int|
        0 <= i < up.len() ==> is_ascii_alnum(#[trigger] up[i])) {
        Some(up)
    } else {
        None
    }
}

pub fn normalize_symbol(raw: &str) -> (r: Option<String>)
    ensures
        match r {
            Some(s) => normalized_symbol_spec(raw@) == Some(s@),
            None => normalized_symbol_spec(raw@).is_none(),
        },
        r matches Some(s) ==> normalized_symbol_spec(s@) == Some(s@),
{
    let c = chars_of(raw);
    let t = trim_chars(&c);
    let ts = string_from_chars(&t);
    let up = to_uppercase(ts.as_str());
    let u = chars_of(up.as_str());
    let q = chars_of("USDT");
    assert(up@ == upper_of(trim(raw@)));
    for i in 0..u.len()
        invariant
            u@ == up@,
            up@ == upper_of(trim(raw@)),
            forall|j: int| 0 <= j < i ==> is_ascii_alnum(#[trigger] u@[j]),
    {
        let ch = u[i];
        if !(('0' <= ch && ch <= '9') || ('A' <= ch && ch <= 'Z') || ('a' <= ch && ch <= 'z')) {
            assert(!is_ascii_alnum(u@[i as int]));
            return None;
        }
    }
    if u.len() >= 5 && ends_with_exec(&u, &q) {
        proof {
            lemma_accepted_symbol_is_fixed(up@);
        }
        Some(up)
    } else {
        None
    }
}

/// What normalisation accepts: a symbol of at least five characters, quoted
/// in USDT (its last four characters are `USDT`), made only of ASCII
/// letters and digits, and equal to the trimmed input uppercased.
pub proof fn law_normalized_symbol_is_usdt_quoted(raw: Seq<char>)
    ensures
        normalized_symbol_spec(raw) matches Some(s) ==> {
            &&& s.len() >= 5
            &&& s.subrange(s.len() - 4, s.len() as int) == seq!['U', 'S', 'D', 'T']
            &&& forall|i: int|
                0 <= i < s.len() ==> ('0' <= #[trigger] s[i] <= '9' || 'A' <= s[i] <= 'Z' || 'a'
                    <= s[i] <= 'z')
            &&& s == upper_of(trim(raw))
        },
{
    reveal_strlit("USDT");
    assert("USDT"@ =~= seq!['U', 'S', 'D', 'T']);
}

/// An ASCII alphanumeric symbol without lowercase letters is left as it is
/// by trimming and uppercasing.
proof fn lemma_accepted_symbol_is_fixed(s: Seq<char>)
    requires
        no_ascii_lower(s),
        forall|i: int| 0 <= i < s.len() ==> is_ascii_alnum(#[trigger] s[i]),
    ensures
        trim(s) == s,
        upper_of(s) == s,
{
    if s.len() > 0 {
        assert(is_ascii_alnum(s[0]));
        assert(is_ascii_alnum(s.last()));
        assert(!is_ws(s[0]));
        assert(!is_ws(s.last()));
    }
    assert(trim_start(s) == s);
    assert(trim_end(s) == s);
    assert forall|i: int| 0 <= i < s.len() implies (#[trigger] s[i] as u32) < 128 by {
        assert(is_ascii_alnum(s[i]));
    }
    assert forall|i: int| 0 <= i < s.len() implies #[trigger] ascii_upper(s)[i] == s[i] by {
        assert(!('a' <= s[i] && s[i] <= 'z'));
    }
    assert(ascii_upper(s) =~= s);
}

/// Normalising an ASCII symbol is idempotent: a symbol that normalisation
/// accepts is accepted again as it is, unchanged.
pub proof fn law_normalize_symbol_idempotent(raw: Seq<char>)
    requires
        all_ascii(raw),
    ensures
        match normalized_symbol_spec(raw) {
            Some(s) => normalized_symbol_spec(s) == Some(s),
            None => true,
        },
{
    if let Some(s) = normalized_symbol_spec(raw) {
        let t = trim(raw);
        lemma_trim_keeps_ascii(raw);
        lemma_ascii_upper_idempotent(t);
        assert(s == ascii_upper(t));
        assert(!is_ws(s[0]));
        assert(!is_ws(s.last()));
        assert(trim_start(s) == s);
        assert(trim_end(s) == s);
        assert(trim(s) == s);
        assert(upper_of(s) == ascii_upper(s));
    }
}

/// Whether a symbol is listed on each venue that the consensus polls.
#[derive(Debug, Clone, Copy, PartialEq, Eq, Structural)]
pub struct SymbolAvailability {
    pub bybit: bool,
    pub binance: bool,
    pub okx: bool,
}

impl SymbolAvailability {
    pub fn available_on_all(&self) -> (r: bool)
        ensures
            r == (self.bybit && self.binance && self.okx),
    {
        self.bybit && self.binance && self.okx
    }

    /// Names of the venues the symbol is missing from, in venue order.
    pub fn missing(&self) -> (r: Vec<&'static str>)
        ensures
            r@.map_values(|s: &str| s@) == (if self.bybit {
                Seq::<Seq<char>>::empty()
            } else {
                seq!["bybit"@]
            }) + (if self.binance {
                Seq::<Seq<char>>::empty()
            } else {
                seq!["binance"@]
            }) + (if self.okx {
                Seq::<Seq<char>>::empty()
            } else {
                seq!["okx"@]
            }),
    {
        let mut m: Vec<&'static str> = Vec::new();
        if !self.bybit {
            m.push("bybit");
        }
        if !self.binance {
            m.push("binance");
        }
        if !self.okx {
            m.push("okx");
        }
        assert(m@.map_values(|s: &str| s@) =~= (if self.bybit {
            Seq::<Seq<char>>::empty()
        } else {
            seq!["bybit"@]
        }) + (if self.binance {
            Seq::<Seq<char>>::empty()
        } else {
            seq!["binance"@]
        }) + (if self.okx {
            Seq::<Seq<char>>::empty()
        } else {
            seq!["okx"@]
        }));
        m
    }
}

/// 4H candles requested per symbol: enough for the 200-period average plus
/// room for the structural low.
pub const SWING_CANDLE_LIMIT: usize = 300;

/// Bybit interval code of 4H candles, in minutes.
pub const SWING_INTERVAL: &'static str = "240";

/// Seconds between swing collections.
pub const SWING_POLL_SECS: u64 = 300;

/// Collected even when not traded: it is the macro filter.
pub const MACRO_SYMBOL: &'static str = "BTCUSDT";

/// Fewest candles a series needs before it is published.
pub const MIN_SWING_CANDLES: usize = 200;

/// Bybit 4H kline URL for a symbol.
pub fn swing_kline_url(base_url: &str, symbol: &str) -> (r: String)
    ensures
        r@ == base_url@ + "/v5/market/kline?category=linear&symbol="@ + symbol@ + "&interval="@
            + "240"@ + "&limit="@ + decimal_digits(300),
{
    let mut r = String::from_str(base_url);
    r.append("/v5/market/kline?category=linear&symbol=");
    r.append(symbol);
    r.append("&interval=");
    r.append(SWING_INTERVAL);
    r.append("&limit=");
    let digits = format_u128(SWING_CANDLE_LIMIT as u128);
    let d = string_from_chars(&digits);
    r.append(d.as_str());
    r
}

/// Symbols whose swing candles are collected: the configured ones, plus
/// BTC at the end when it is not among them.
pub fn swing_targets(symbols: &Vec<String>) -> (r: Vec<String>)
    ensures
        ({
            let s = symbols@.map_values(|x: String| x@);
            r@.map_values(|x: String| x@) == if s.contains("BTCUSDT"@) {
                s
            } else {
                s.push("BTCUSDT"@)
            }
        }),
{
    let ghost s = symbols@.map_values(|x: String| x@);
    let mut out: Vec<String> = Vec::new();
    let mut has_macro = false;
    for i in 0..symbols.len()
        invariant
            s == symbols@.map_values(|x: String| x@),
            out@.map_values(|x: String| x@) == s.take(i as int),
            has_macro == s.take(i as int).contains("BTCUSDT"@),
    {
        let c = chars_of(symbols[i].as_str());
        let is_macro = chars_eq_str(&c, MACRO_SYMBOL);
        out.push(symbols[i].clone());
        proof {
            assert(s.take(i + 1) == s.take(i as int).push(s[i as int]));
            assert(out@.map_values(|x: String| x@) =~= s.take(i + 1));
            if is_macro {
                assert(s.take(i + 1)[i as int] == "BTCUSDT"@);
            }
            if s.take(i + 1).contains("BTCUSDT"@) && !is_macro {
                let j = choose|j: int| 0 <= j < i + 1 && #[trigger] s.take(i + 1)[j] == "BTCUSDT"@;
                assert(s.take(i as int)[j] == "BTCUSDT"@);
            }
        }
        has_macro = has_macro || is_macro;
    }
    assert(s.take(symbols@.len() as int) == s);
    if !has_macro {
        out.push(String::from_str(MACRO_SYMBOL));
    }
    out
}

/// The rows whose key differs from `k` before position `i`.
pub open spec fn first_with_key<T>(rows: Seq<(i64, T)>, i: int) -> bool {
    0 <= i < rows.len() && forall|j: int| 0 <= j < i ==> rows[j].0 != rows[i].0
}

/// `x` is the first row of `rows` with its timestamp.
pub open spec fn from_first<T>(rows: Seq<(i64, T)>, x: (i64, T)) -> bool {
    exists|i: int| first_with_key(rows, i) && rows[i] == x
}

pub open spec fn strictly_increasing<T>(s: Seq<(i64, T)>) -> bool {
    forall|a: int, b: int| 0 <= a < b < s.len() ==> s[a].0 < s[b].0
}

pub open spec fn has_key<T>(s: Seq<(i64, T)>, k: i64) -> bool {
    exists|j: int| 0 <= j < s.len() && s[j].0 == k
}

/// Orders rows by their timestamp key and keeps, for each timestamp, the
/// row that came first.
pub fn order_by_open_time<T>(rows: Vec<(i64, T)>) -> (r: Vec<(i64, T)>)
    ensures
        strictly_increasing(r@),
        forall|j: int| 0 <= j < r@.len() ==> from_first(rows@, #[trigger] r@[j]),
        forall|i: int| 0 <= i < rows@.len() ==> has_key(r@, #[trigger] rows@[i].0),
{
    let ghost orig = rows@;
    let mut rows = rows;
    let mut out: Vec<(i64, T)> = Vec::new();
    let n = rows.len();
    let mut done: usize = 0;
    while done < n
        invariant
            n == orig.len(),
            done <= n,
            rows@ == orig.skip(done as int),
            strictly_increasing(out@),
            forall|j: int| 0 <= j < out@.len() ==> from_first(orig, #[trigger] out@[j]),
            forall|i: int| 0 <= i < done ==> has_key(out@, #[trigger] orig[i].0),
        decreases n - done,
    {
        assert(rows@.len() > 0);
        let row = rows.remove(0);
        assert(row == orig[done as int]);
        assert(rows@ == orig.skip(done + 1));
        let k = row.0;
        let mut p: usize = 0;
        while p < out.len() && out[p].0 < k
            invariant
                p <= out@.len(),
                forall|j: int| 0 <= j < p ==> out@[j].0 < k,
            decreases out@.len() - p,
        {
            p = p + 1;
        }
        let ghost before = out@;
        if p < out.len() && out[p].0 == k {
            proof {
                assert forall|i: int| 0 <= i < done + 1 implies has_key(out@, #[trigger] orig[i].0) by {
                    if i == done {
                        assert(out@[p as int].0 == orig[i].0);
                    }
                }
            }
        } else {
            proof {
                assert forall|i: int| 0 <= i < done implies orig[i].0 != k by {
                    if orig[i].0 == k {
                        let j = choose|j: int| 0 <= j < out@.len() && out@[j].0 == orig[i].0;
                        if j < p {
                        } else {
                            assert(out@[p as int].0 <= out@[j].0);
                        }
                    }
                }
                assert(first_with_key(orig, done as int));
            }
            out.insert(p, row);
            proof {
                assert forall|a: int, b: int| 0 <= a < b < out@.len() implies out@[a].0 < out@[b].0 by {
                    if b < p {
                        assert(out@[a] == before[a]);
                        assert(out@[b] == before[b]);
                    } else if b == p {
                        assert(out@[a] == before[a]);
                    } else if a < p {
                        assert(out@[a] == before[a]);
                        assert(out@[b] == before[b - 1]);
                        assert(before[b - 1].0 >= before[p as int].0 || b - 1 == p);
                    } else if a == p {
                        assert(out@[b] == before[b - 1]);
                    } else {
                        assert(out@[a] == before[a - 1]);
                        assert(out@[b] == before[b - 1]);
                    }
                }
                assert forall|j: int| 0 <= j < out@.len() implies from_first(orig, #[trigger] out@[j]) by {
                    if j < p {
                        assert(out@[j] == before[j]);
                    } else if j == p {
                        assert(out@[j] == orig[done as int]);
                    } else {
                        assert(out@[j] == before[j - 1]);
                    }
                }
                assert forall|i: int| 0 <= i < done + 1 implies has_key(out@, #[trigger] orig[i].0) by {
                    if i == done {
                        assert(out@[p as int].0 == orig[i].0);
                    } else {
                        let j = choose|j: int| 0 <= j < before.len() && before[j].0 == orig[i].0;
                        if j < p {
                            assert(out@[j] == before[j]);
                        } else {
                            assert(out@[j + 1] == before[j]);
                        }
                    }
                }
            }
        }
        done = done + 1;
    }
    out
}

} // verus!
