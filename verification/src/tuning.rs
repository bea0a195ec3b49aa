//! The canonical tuning grid swept by the analyst: fully qualified override
//! paths, each axis classified as an edge (alpha) or a sizing (exposure)
//! change.
use vstd::prelude::*;
use vstd::string::*;

verus! {

#[derive(Debug, Clone, Copy, PartialEq, Eq, Structural)]
pub enum VariantClass {
    /// Changes entry/exit structure (filters, trailing): a change of edge.
    Alpha,
    /// Only scales position size; never a tuning recommendation.
    Exposure,
}

/// One axis of the grid.
pub struct GridAxis {
    pub label: &'static str,
    /// Full dotted path from the profile root.
    pub path: &'static str,
    pub class: VariantClass,
    pub values: Vec<&'static str>,
}

pub open spec fn axis_view(a: GridAxis) -> (Seq<char>, Seq<char>, VariantClass, Seq<Seq<char>>) {
    (a.label@, a.path@, a.class, a.values@.map_values(|v: &str| v@))
}

/// The grid, axis by axis.
pub open spec fn grid_spec() -> Seq<(Seq<char>, Seq<char>, VariantClass, Seq<Seq<char>>)> {
    seq![
        (
            "trailing activate_after_profit_pct"@,
            "mode_profiles.PAPER.trailing_stop.activate_after_profit_pct"@,
            VariantClass::Alpha,
            seq!["0.001"@, "0.0015"@, "0.002"@],
        ),
        (
            "trailing initial_trail_pct"@,
            "mode_profiles.PAPER.trailing_stop.initial_trail_pct"@,
            VariantClass::Alpha,
            seq!["0.0004"@, "0.0006"@, "0.0008"@],
        ),
        (
            "min_trend_score_short"@,
            "mode_profiles.PAPER.min_trend_score_short"@,
            VariantClass::Alpha,
            seq!["0.5"@, "0.55"@, "0.6"@],
        ),
        (
            "min_adx"@,
            "mode_profiles.PAPER.min_adx"@,
            VariantClass::Alpha,
            seq!["18"@, "20"@, "22"@, "25"@],
        ),
        (
            "risk.max_position_wallet_pct"@,
            "mode_profiles.PAPER.risk.max_position_wallet_pct"@,
            VariantClass::Exposure,
            seq!["0.06"@, "0.08"@, "0.16"@],
        ),
    ]
}

fn axis(
    label: &'static str,
    path: &'static str,
    class: VariantClass,
    values: Vec<&'static str>,
) -> (r: GridAxis)
    ensures
        r.label == label,
        r.path == path,
        r.class == class,
        r.values == values,
{
    GridAxis { label, path, class, values }
}

fn values3(a: &'static str, b: &'static str, c: &'static str) -> (r: Vec<&'static str>)
    ensures
        r@.map_values(|v: &str| v@) == seq![a@, b@, c@],
{
    let mut r: Vec<&'static str> = Vec::new();
    r.push(a);
    r.push(b);
    r.push(c);
    assert(r@.map_values(|v: &str| v@) =~= seq![a@, b@, c@]);
    r
}

fn values4(a: &'static str, b: &'static str, c: &'static str, d: &'static str) -> (r: Vec<
    &'static str,
>)
    ensures
        r@.map_values(|v: &str| v@) == seq![a@, b@, c@, d@],
{
    let mut r: Vec<&'static str> = Vec::new();
    r.push(a);
    r.push(b);
    r.push(c);
    r.push(d);
    assert(r@.map_values(|v: &str| v@) =~= seq![a@, b@, c@, d@]);
    r
}

/// The canonical grid.
pub fn grid() -> (r: Vec<GridAxis>)
    ensures
        r@.map_values(|a: GridAxis| axis_view(a)) == grid_spec(),
{
    let mut g: Vec<GridAxis> = Vec::new();
    g.push(
        axis(
            "trailing activate_after_profit_pct",
            "mode_profiles.PAPER.trailing_stop.activate_after_profit_pct",
            VariantClass::Alpha,
            values3("0.001", "0.0015", "0.002"),
        ),
    );
    g.push(
        axis(
            "trailing initial_trail_pct",
            "mode_profiles.PAPER.trailing_stop.initial_trail_pct",
            VariantClass::Alpha,
            values3("0.0004", "0.0006", "0.0008"),
        ),
    );
    g.push(
        axis(
            "min_trend_score_short",
            "mode_profiles.PAPER.min_trend_score_short",
            VariantClass::Alpha,
            values3("0.5", "0.55", "0.6"),
        ),
    );
    g.push(
        axis(
            "min_adx",
            "mode_profiles.PAPER.min_adx",
            VariantClass::Alpha,
            values4("18", "20", "22", "25"),
        ),
    );
    g.push(
        axis(
            "risk.max_position_wallet_pct",
            "mode_profiles.PAPER.risk.max_position_wallet_pct",
            VariantClass::Exposure,
            values3("0.06", "0.08", "0.16"),
        ),
    );
    assert(g@.map_values(|a: GridAxis| axis_view(a)) =~= grid_spec());
    g
}

/// One `(path, value)` override per grid value, axis by axis.
pub open spec fn overrides_of(
    axes: Seq<(Seq<char>, Seq<char>, VariantClass, Seq<Seq<char>>)>,
) -> Seq<(Seq<char>, Seq<char>)>
    decreases axes.len(),
{
    if axes.len() == 0 {
        Seq::empty()
    } else {
        let a = axes.last();
        overrides_of(axes.drop_last()) + a.3.map_values(|v: Seq<char>| (a.1, v))
    }
}

/// The override sets swept, one single-override set per grid value, in
/// grid order.
pub fn grid_overrides() -> (r: Vec<Vec<(String, String)>>)
    ensures
        r@.map_values(
            |set: Vec<(String, String)>| set@.map_values(|p: (String, String)| (p.0@, p.1@)),
        ) == overrides_of(grid_spec()).map_values(
            |p: (Seq<char>, Seq<char>)| seq![p],
        ),
{
    let g = grid();
    let ghost gs = grid_spec();
    let mut out: Vec<Vec<(String, String)>> = Vec::new();
    for i in 0..g.len()
        invariant
            g@.map_values(|a: GridAxis| axis_view(a)) == gs,
            gs == grid_spec(),
            out@.map_values(
                |set: Vec<(String, String)>| set@.map_values(|p: (String, String)| (p.0@, p.1@)),
            ) == overrides_of(gs.take(i as int)).map_values(
                |p: (Seq<char>, Seq<char>)| seq![p],
            ),
    {
        let ax = &g[i];
        let ghost a = gs[i as int];
        assert(axis_view(g@[i as int]) == a);
        assert(gs.take(i + 1).drop_last() == gs.take(i as int));
        let ghost base = out@.map_values(
            |set: Vec<(String, String)>| set@.map_values(|p: (String, String)| (p.0@, p.1@)),
        );
        for j in 0..ax.values.len()
            invariant
                a == axis_view(*ax),
                out@.map_values(
                    |set: Vec<(String, String)>| set@.map_values(
                        |p: (String, String)| (p.0@, p.1@),
                    ),
                ) == base + a.3.take(j as int).map_values(|v: Seq<char>| (a.1, v)).map_values(
                    |p: (Seq<char>, Seq<char>)| seq![p],
                ),
        {
            let mut set: Vec<(String, String)> = Vec::new();
            let pth = String::from_str(ax.path);
            let val = String::from_str(ax.values[j]);
            assert(pth@ == a.1);
            assert(val@ == a.3[j as int]);
            set.push((pth, val));
            let ghost sv = set@.map_values(|p: (String, String)| (p.0@, p.1@));
            assert(sv =~= seq![(a.1, a.3[j as int])]);
            let ghost before = out@;
            out.push(set);
            assert(out@ == before.push(set));
            assert(out@.map_values(
                |set: Vec<(String, String)>| set@.map_values(|p: (String, String)| (p.0@, p.1@)),
            ) =~= before.map_values(
                |set: Vec<(String, String)>| set@.map_values(|p: (String, String)| (p.0@, p.1@)),
            ).push(sv));
            assert(a.3.take(j + 1) == a.3.take(j as int).push(a.3[j as int]));
            assert(a.3.take(j + 1).map_values(|v: Seq<char>| (a.1, v)).map_values(
                |p: (Seq<char>, Seq<char>)| seq![p],
            ) =~= a.3.take(j as int).map_values(|v: Seq<char>| (a.1, v)).map_values(
                |p: (Seq<char>, Seq<char>)| seq![p],
            ).push(seq![(a.1, a.3[j as int])]));
            assert(out@.map_values(
                |set: Vec<(String, String)>| set@.map_values(|p: (String, String)| (p.0@, p.1@)),
            ) =~= base + a.3.take(j + 1).map_values(|v: Seq<char>| (a.1, v)).map_values(
                |p: (Seq<char>, Seq<char>)| seq![p],
            ));
        }
        assert(a.3.take(a.3.len() as int) == a.3);
        assert(overrides_of(gs.take(i + 1)) == overrides_of(gs.take(i as int)) + a.3.map_values(
            |v: Seq<char>| (a.1, v),
        ));
        assert(out@.map_values(
            |set: Vec<(String, String)>| set@.map_values(|p: (String, String)| (p.0@, p.1@)),
        ) =~= overrides_of(gs.take(i + 1)).map_values(|p: (Seq<char>, Seq<char>)| seq![p]));
    }
    assert(gs.take(g@.len() as int) == gs);
    out
}

/// The grid sweeps sixteen values, and every override path is fully
/// qualified from the profile root (`mode_profiles.PAPER.`), so none can be
/// silently truncated to a no-op.
pub proof fn law_grid_paths_fully_qualified()
    ensures
        overrides_of(grid_spec()).len() == 16,
        forall|i: int|
            0 <= i < overrides_of(grid_spec()).len() ==> crate::text::starts_with(
                #[trigger] overrides_of(grid_spec())[i].0,
                "mode_profiles.PAPER."@,
            ),
{
    reveal_with_fuel(overrides_of, 6);
    let p = "mode_profiles.PAPER."@;
    let p1 = "mode_profiles.PAPER.trailing_stop.activate_after_profit_pct"@;
    let p2 = "mode_profiles.PAPER.trailing_stop.initial_trail_pct"@;
    let p3 = "mode_profiles.PAPER.min_trend_score_short"@;
    let p4 = "mode_profiles.PAPER.min_adx"@;
    let p5 = "mode_profiles.PAPER.risk.max_position_wallet_pct"@;
    reveal_strlit("mode_profiles.PAPER.");
    reveal_strlit("mode_profiles.PAPER.trailing_stop.activate_after_profit_pct");
    reveal_strlit("mode_profiles.PAPER.trailing_stop.initial_trail_pct");
    reveal_strlit("mode_profiles.PAPER.min_trend_score_short");
    reveal_strlit("mode_profiles.PAPER.min_adx");
    reveal_strlit("mode_profiles.PAPER.risk.max_position_wallet_pct");
    assert(p1.subrange(0, 20) =~= p);
    assert(p2.subrange(0, 20) =~= p);
    assert(p3.subrange(0, 20) =~= p);
    assert(p4.subrange(0, 20) =~= p);
    assert(p5.subrange(0, 20) =~= p);
    let g = grid_spec();
    let o = overrides_of(g);
    assert(g.len() == 5);
    assert forall|i: int| 0 <= i < o.len() implies crate::text::starts_with(#[trigger] o[i].0, p) by {
        assert(o[i].0 == p1 || o[i].0 == p2 || o[i].0 == p3 || o[i].0 == p4 || o[i].0 == p5);
    }
}

/// Only the sizing axis is classified as exposure; the trailing axes are
/// alpha.
pub proof fn law_sizing_is_exposure_trailing_is_alpha()
    ensures
        forall|i: int|
            0 <= i < grid_spec().len() ==> ((#[trigger] grid_spec()[i]).2 == VariantClass::Exposure
                <==> grid_spec()[i].1 == "mode_profiles.PAPER.risk.max_position_wallet_pct"@),
        grid_spec()[0].2 == VariantClass::Alpha,
        grid_spec()[1].2 == VariantClass::Alpha,
{
    reveal_strlit("mode_profiles.PAPER.trailing_stop.activate_after_profit_pct");
    reveal_strlit("mode_profiles.PAPER.trailing_stop.initial_trail_pct");
    reveal_strlit("mode_profiles.PAPER.min_trend_score_short");
    reveal_strlit("mode_profiles.PAPER.min_adx");
    reveal_strlit("mode_profiles.PAPER.risk.max_position_wallet_pct");
    let g = grid_spec();
    assert(g[0].1.len() != g[4].1.len());
    assert(g[1].1.len() != g[4].1.len());
    assert(g[2].1.len() != g[4].1.len());
    assert(g[3].1.len() != g[4].1.len());
}

} // verus!
