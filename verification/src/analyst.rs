//! Analyst rules that do not depend on arithmetic over prices: the verdicts
//! on thesis quality and symbol risk (from the comparisons a caller made on
//! the snapshot), the investigation request defaults, and the substitution
//! pool of a tuning run.
use vstd::prelude::*;
use vstd::string::*;

verus! {

/// Hours looked back when a request gives no positive lookback.
pub const DEFAULT_INVESTIGATE_HOURS: i64 = 168;

/// The brief used when a request gives no question.
pub const DEFAULT_INVESTIGATE_QUESTION: &'static str =
    "Find the single highest-impact config change to improve net PnL. Use the diagnostics, then prove it with a backtest sweep.";

/// An investigation request.
pub struct InvestigateRequest {
    /// What to investigate.
    pub question: Option<String>,
    /// Lookback for the diagnostics tool's default, in hours.
    pub hours: Option<i64>,
}

pub open spec fn lookback_spec(hours: Option<i64>) -> i64 {
    match hours {
        Some(h) => if h > 0 {
            h
        } else {
            DEFAULT_INVESTIGATE_HOURS
        },
        None => DEFAULT_INVESTIGATE_HOURS,
    }
}

impl InvestigateRequest {
    /// The requested lookback, or the default when none or a non-positive
    /// one is given.
    pub fn lookback_hours(&self) -> (r: i64)
        ensures
            r == lookback_spec(self.hours),
    {
        match self.hours {
            Some(h) => if h > 0 {
                h
            } else {
                DEFAULT_INVESTIGATE_HOURS
            },
            None => DEFAULT_INVESTIGATE_HOURS,
        }
    }

    /// The question asked, or the default brief.
    pub fn question_or_default(&self) -> (r: String)
        ensures
            r@ == (match self.question {
                Some(q) => q@,
                None => DEFAULT_INVESTIGATE_QUESTION@,
            }),
    {
        match &self.question {
            Some(q) => q.clone(),
            None => String::from_str(DEFAULT_INVESTIGATE_QUESTION),
        }
    }
}

/// The comparisons on a snapshot's thesis metrics that the verdict reads.
#[derive(Debug, Clone, Copy, PartialEq, Eq, Structural)]
pub struct ThesisSignals {
    /// The average long PnL is at or below -0.20 %.
    pub long_fragile: bool,
    /// At least a quarter of the closes were positive.
    pub profit_protective: bool,
    /// The average short PnL is at least the average long PnL.
    pub short_not_worse: bool,
    pub no_alignment_hits: i64,
    pub health_threshold_hits: i64,
}

/// Verdict on how well the trade theses hold up.
pub struct ThesisQualityResult {
    pub severity: String,
    pub reason: String,
    pub recommendation: String,
}

/// Severity, reason and recommendation, by the first rule that applies: a
/// fragile long side with alignment failures at least as frequent as
/// threshold exits fails; a quarter of positive closes passes; threshold
/// exits outnumbering alignment failures warn; shorts doing no worse than
/// longs warn; otherwise the thesis passes as stable.
pub open spec fn thesis_quality_spec(s: ThesisSignals) -> (Seq<char>, Seq<char>, Seq<char>) {
    if s.long_fragile && s.no_alignment_hits >= s.health_threshold_hits {
        ("fail"@, "thesis_quality_long_fragile"@, "harden_long_invalidation_inputs"@)
    } else if s.profit_protective {
        ("pass"@, "thesis_quality_profit_protective"@, "preserve_trailing_capture"@)
    } else if s.health_threshold_hits > s.no_alignment_hits {
        ("warn"@, "thesis_quality_threshold_driven"@, "review_health_threshold_balance"@)
    } else if s.short_not_worse {
        ("warn"@, "thesis_quality_directionally_asymmetric"@, "review_long_side_guard"@)
    } else {
        ("pass"@, "thesis_quality_stable"@, "keep_current_thesis_policy"@)
    }
}

/// How the thesis verdict depends on the signals: it fails, as a fragile
/// long side, exactly when the long side is fragile and alignment failures
/// are at least as frequent as threshold exits; when that is not so, a
/// quarter of positive closes passes it as profit-protective, and
/// otherwise threshold exits outnumbering alignment failures make it a
/// threshold-driven warning, whatever the long side does.
pub proof fn law_thesis_verdict(s: ThesisSignals)
    ensures
        ({
            let (severity, reason, recommendation) = thesis_quality_spec(s);
            &&& (severity == "fail"@) <==> (s.long_fragile && s.no_alignment_hits
                >= s.health_threshold_hits)
            &&& (reason == "thesis_quality_long_fragile"@) <==> (s.long_fragile
                && s.no_alignment_hits >= s.health_threshold_hits)
            &&& s.health_threshold_hits > s.no_alignment_hits && !s.profit_protective ==> (
                severity,
                reason,
                recommendation,
            ) == ("warn"@, "thesis_quality_threshold_driven"@, "review_health_threshold_balance"@)
            &&& s.health_threshold_hits > s.no_alignment_hits && s.profit_protective ==> (
                severity,
                reason,
                recommendation,
            ) == ("pass"@, "thesis_quality_profit_protective"@, "preserve_trailing_capture"@)
            &&& !s.long_fragile && s.profit_protective ==> severity == "pass"@
            &&& !s.profit_protective && s.no_alignment_hits >= s.health_threshold_hits
                && !s.long_fragile && s.short_not_worse ==> (severity, reason, recommendation) == (
                "warn"@,
                "thesis_quality_directionally_asymmetric"@,
                "review_long_side_guard"@,
            )
            &&& !s.profit_protective && s.no_alignment_hits >= s.health_threshold_hits
                && !s.long_fragile && !s.short_not_worse ==> (severity, reason, recommendation)
                == ("pass"@, "thesis_quality_stable"@, "keep_current_thesis_policy"@)
        }),
{
    reveal_strlit("fail");
    reveal_strlit("pass");
    reveal_strlit("warn");
    reveal_strlit("thesis_quality_long_fragile");
    reveal_strlit("thesis_quality_profit_protective");
    reveal_strlit("thesis_quality_threshold_driven");
    reveal_strlit("thesis_quality_directionally_asymmetric");
    reveal_strlit("thesis_quality_stable");
    assert("fail"@[0] != "pass"@[0]);
    assert("fail"@[0] != "warn"@[0]);
    assert("thesis_quality_long_fragile"@[15] != "thesis_quality_profit_protective"@[15]);
    assert("thesis_quality_long_fragile"@[15] != "thesis_quality_threshold_driven"@[15]);
    assert("thesis_quality_long_fragile"@[15] != "thesis_quality_directionally_asymmetric"@[15]);
    assert("thesis_quality_long_fragile"@[15] != "thesis_quality_stable"@[15]);
}

fn thesis_result(severity: &str, reason: &str, recommendation: &str) -> (r: ThesisQualityResult)
    ensures
        r.severity@ == severity@,
        r.reason@ == reason@,
        r.recommendation@ == recommendation@,
{
    ThesisQualityResult {
        severity: String::from_str(severity),
        reason: String::from_str(reason),
        recommendation: String::from_str(recommendation),
    }
}

/// Judges the thesis metrics.
pub fn evaluate_thesis_quality(s: &ThesisSignals) -> (r: ThesisQualityResult)
    ensures
        (r.severity@, r.reason@, r.recommendation@) == thesis_quality_spec(*s),
{
    if s.long_fragile && s.no_alignment_hits >= s.health_threshold_hits {
        thesis_result("fail", "thesis_quality_long_fragile", "harden_long_invalidation_inputs")
    } else if s.profit_protective {
        thesis_result("pass", "thesis_quality_profit_protective", "preserve_trailing_capture")
    } else if s.health_threshold_hits > s.no_alignment_hits {
        thesis_result("warn", "thesis_quality_threshold_driven", "review_health_threshold_balance")
    } else if s.short_not_worse {
        thesis_result("warn", "thesis_quality_directionally_asymmetric", "review_long_side_guard")
    } else {
        thesis_result("pass", "thesis_quality_stable", "keep_current_thesis_policy")
    }
}

/// Where the worst symbol's realized PnL falls.
#[derive(Debug, Clone, Copy, PartialEq, Eq, Structural)]
pub enum LossBand {
    /// At or below -0.30 USDT.
    Heavy,
    /// Below zero, above -0.30 USDT.
    Light,
    /// Zero or above.
    NoLoss,
}

/// Verdict on the worst-performing symbol.
pub struct SymbolRiskResult {
    pub severity: String,
    pub reason: String,
    pub symbol: String,
}

pub open spec fn symbol_risk_spec(band: LossBand) -> (Seq<char>, Seq<char>) {
    match band {
        LossBand::Heavy => ("fail"@, "symbol_risk_high"@),
        LossBand::Light => ("warn"@, "symbol_risk_elevated"@),
        LossBand::NoLoss => ("pass"@, "symbol_risk_stable"@),
    }
}

/// Judges the worst symbol by the band its loss falls in.
pub fn evaluate_symbol_risk(worst_symbol: &str, band: LossBand) -> (r: SymbolRiskResult)
    ensures
        (r.severity@, r.reason@) == symbol_risk_spec(band),
        r.symbol@ == worst_symbol@,
{
    let (severity, reason) = match band {
        LossBand::Heavy => ("fail", "symbol_risk_high"),
        LossBand::Light => ("warn", "symbol_risk_elevated"),
        LossBand::NoLoss => ("pass", "symbol_risk_stable"),
    };
    SymbolRiskResult {
        severity: String::from_str(severity),
        reason: String::from_str(reason),
        symbol: String::from_str(worst_symbol),
    }
}

/// A proposed symbol swap: the symbol to drop, why, and the disabled
/// symbols that could replace it (untested candidates, not backtested
/// results).
pub struct Substitution {
    pub drop_candidate: Option<String>,
    pub drop_reason: Option<String>,
    pub pool: Vec<String>,
}

/// The disabled symbols of a universe, in the universe's order.
pub open spec fn disabled_symbols(universe: Seq<(String, bool)>) -> Seq<Seq<char>>
    decreases universe.len(),
{
    if universe.len() == 0 {
        seq![]
    } else {
        let rest = disabled_symbols(universe.drop_last());
        if universe.last().1 {
            rest
        } else {
            rest.push(universe.last().0@)
        }
    }
}

/// The substitution pool: every symbol of the universe that is disabled.
pub fn substitution_pool(universe: &Vec<(String, bool)>) -> (r: Vec<String>)
    ensures
        r@.map_values(|s: String| s@) == disabled_symbols(universe@),
{
    let mut pool: Vec<String> = Vec::new();
    let mut i: usize = 0;
    while i < universe.len()
        invariant
            i <= universe.len(),
            pool@.map_values(|s: String| s@) == disabled_symbols(universe@.take(i as int)),
        decreases universe.len() - i,
    {
        let ghost before = pool@;
        assert(universe@.take(i as int + 1).drop_last() == universe@.take(i as int));
        if !universe[i].1 {
            pool.push(universe[i].0.clone());
            assert(pool@ == before.push(universe@[i as int].0));
            assert(pool@.map_values(|s: String| s@) == before.map_values(|s: String| s@).push(
                universe@[i as int].0@,
            ));
        }
        i = i + 1;
    }
    assert(universe@.take(universe.len() as int) == universe@);
    pool
}

/// The entry filter that blocked the most entries.
#[derive(Debug, Clone, Copy, PartialEq, Eq, Structural)]
pub enum EntryGate {
    Consensus,
    Volume,
    Macd,
}

/// Which filter blocked the most entries; on a tie consensus comes first,
/// then volume.
pub open spec fn dominant_gate_spec(consensus: i64, volume: i64, macd: i64) -> EntryGate {
    if consensus >= volume && consensus >= macd {
        EntryGate::Consensus
    } else if volume >= macd {
        EntryGate::Volume
    } else {
        EntryGate::Macd
    }
}

pub fn dominant_entry_gate(consensus: i64, volume: i64, macd: i64) -> (r: EntryGate)
    ensures
        r == dominant_gate_spec(consensus, volume, macd),
{
    if consensus >= volume && consensus >= macd {
        EntryGate::Consensus
    } else if volume >= macd {
        EntryGate::Volume
    } else {
        EntryGate::Macd
    }
}

/// The dominant filter is one that blocked the most entries: its count is
/// at least each of the others. On a tie consensus wins, and volume wins
/// over MACD.
pub proof fn law_dominant_gate_blocked_most(consensus: i64, volume: i64, macd: i64)
    ensures
        ({
            let g = dominant_gate_spec(consensus, volume, macd);
            let top = match g {
                EntryGate::Consensus => consensus,
                EntryGate::Volume => volume,
                EntryGate::Macd => macd,
            };
            &&& top >= consensus && top >= volume && top >= macd
            &&& (g == EntryGate::Consensus) <==> (consensus >= volume && consensus >= macd)
            &&& g == EntryGate::Macd ==> macd > volume && macd > consensus
        }),
{
}

impl EntryGate {
    /// The filter's name as the analyst shows it.
    pub fn label(self) -> (r: &'static str)
        ensures
            r@ == (match self {
                EntryGate::Consensus => "consensus"@,
                EntryGate::Volume => "volume"@,
                EntryGate::Macd => "macd"@,
            }),
    {
        match self {
            EntryGate::Consensus => "consensus",
            EntryGate::Volume => "volume",
            EntryGate::Macd => "macd",
        }
    }

    /// The reason given for entry pressure that this filter dominates.
    pub fn reason(self) -> (r: &'static str)
        ensures
            r@ == (match self {
                EntryGate::Consensus => "entry_pressure_consensus"@,
                EntryGate::Volume => "entry_pressure_volume"@,
                EntryGate::Macd => "entry_pressure_macd"@,
            }),
    {
        match self {
            EntryGate::Consensus => "entry_pressure_consensus",
            EntryGate::Volume => "entry_pressure_volume",
            EntryGate::Macd => "entry_pressure_macd",
        }
    }
}

/// The dominant filter is one with the most blocks.
pub proof fn law_dominant_gate_has_most_blocks(consensus: i64, volume: i64, macd: i64)
    ensures
        ({
            let most = match dominant_gate_spec(consensus, volume, macd) {
                EntryGate::Consensus => consensus,
                EntryGate::Volume => volume,
                EntryGate::Macd => macd,
            };
            most >= consensus && most >= volume && most >= macd
        }),
{
}

} // verus!
