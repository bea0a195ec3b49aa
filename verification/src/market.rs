//! The market-data service's own rules: its settings, the routing of its
//! health endpoint, and what a collection cycle publishes.
use vstd::prelude::*;
use crate::agent::{parse_usize, parse_usize_spec};
use crate::numeric::{parse_i64, parse_i64_spec};
use crate::text::{chars_of, starts_with, starts_with_exec};

verus! {

/// Fewest evaluated predictions an exchange needs before its score
/// weights the consensus: the setting when it parses, else 20, and never
/// less than 1.
pub fn analytics_min_evaluated(raw: Option<&str>) -> (r: i64)
    ensures
        ({
            let v: i64 = match raw {
                Some(s) => match parse_i64_spec(s@) {
                    Some(n) => n,
                    None => 20,
                },
                None => 20,
            };
            r == if v < 1 {
                1
            } else {
                v
            }
        }),
{
    let v: i64 = match raw {
        Some(s) => match parse_i64(s) {
            Some(n) => n,
            None => 20,
        },
        None => 20,
    };
    if v < 1 {
        1
    } else {
        v
    }
}

/// Exchanges that must answer for a consensus signal: the setting when it
/// parses, else 2, clamped to 1..=3.
pub fn min_exchanges(raw: Option<&str>) -> (r: usize)
    ensures
        ({
            let v: usize = match raw {
                Some(s) => match parse_usize_spec(s@) {
                    Some(n) => n,
                    None => 2,
                },
                None => 2,
            };
            r == if v < 1 {
                1
            } else if v > 3 {
                3
            } else {
                v
            }
        }),
{
    let v: usize = match raw {
        Some(s) => match parse_usize(s) {
            Some(n) => n,
            None => 2,
        },
        None => 2,
    };
    if v < 1 {
        1
    } else if v > 3 {
        3
    } else {
        v
    }
}

/// What the health endpoint answers.
#[derive(Debug, Clone, Copy, PartialEq, Eq, Structural)]
pub enum HealthRoute {
    /// The latest published signals.
    LatestSignals,
    /// Liveness and the count of dropped signals.
    Health,
    NotFound,
}

pub open spec fn health_route_spec(request: Seq<char>) -> HealthRoute {
    if starts_with(request, "GET /latest-signals"@) || starts_with(
        request,
        "GET /latest_signals"@,
    ) {
        HealthRoute::LatestSignals
    } else if starts_with(request, "GET /health"@) {
        HealthRoute::Health
    } else {
        HealthRoute::NotFound
    }
}

/// Routes a raw HTTP request by its request line.
pub fn route_health_request(request: &str) -> (r: HealthRoute)
    ensures
        r == health_route_spec(request@),
{
    let c = chars_of(request);
    if starts_with_exec(&c, &chars_of("GET /latest-signals")) || starts_with_exec(
        &c,
        &chars_of("GET /latest_signals"),
    ) {
        HealthRoute::LatestSignals
    } else if starts_with_exec(&c, &chars_of("GET /health")) {
        HealthRoute::Health
    } else {
        HealthRoute::NotFound
    }
}

/// What a collection cycle does with the signals it produced.
#[derive(Debug, Clone, Copy, PartialEq, Eq, Structural)]
pub enum PublishPlan {
    /// No symbol produced a valid signal: clear the latest signals and
    /// publish nothing.
    SkipCycle,
    /// Publish what was produced; `skipped` symbols are missing from it.
    Publish { skipped: usize },
}

/// The plan for a cycle that expected `expected` symbols and produced
/// valid signals for `produced` of them.
pub fn publish_plan(expected: usize, produced: usize) -> (r: PublishPlan)
    ensures
        r == (if produced == 0 {
            PublishPlan::SkipCycle
        } else {
            PublishPlan::Publish {
                skipped: if expected > produced {
                    (expected - produced) as usize
                } else {
                    0
                },
            }
        }),
{
    if produced == 0 {
        PublishPlan::SkipCycle
    } else {
        PublishPlan::Publish {
            skipped: if expected > produced {
                expected - produced
            } else {
                0
            },
        }
    }
}

/// Where a collection cycle stands. `valid` counts the symbols whose signal
/// came back valid so far; `index` is the symbol (or, while publishing, the
/// valid signal) awaited.
#[derive(Debug, Clone, Copy, PartialEq, Eq, Structural)]
pub enum CycleStage {
    AwaitBtc,
    AwaitSymbol { index: usize, valid: usize },
    AwaitPublish { index: usize, valid: usize },
    Done,
}

/// How one symbol's signal came back: built and valid, built but refused by
/// its own validation (a dropped signal), or not built at all.
#[derive(Debug, Clone, Copy, PartialEq, Eq, Structural)]
pub enum SymbolFetch {
    Valid,
    Invalid,
    Failed,
}

/// How publishing one signal went: sent, refused by the event's validation
/// (a dropped signal), not encodable, or not accepted by the stream.
#[derive(Debug, Clone, Copy, PartialEq, Eq, Structural)]
pub enum PublishResult {
    Sent,
    Invalid,
    EncodeFailed,
    SendFailed,
}

#[derive(Debug, Clone, Copy, PartialEq, Eq, Structural)]
pub enum CycleEvent {
    /// The BTC context signal was built (`true`) or not.
    Btc(bool),
    Symbol(SymbolFetch),
    Publish(PublishResult),
}

/// What the service does next in a cycle.
#[derive(Debug, Clone, Copy, PartialEq, Eq, Structural)]
pub enum CycleCommand {
    /// Build the BTC context signal.
    FetchBtc,
    /// No BTC context: clear the latest signals, wait, start over.
    ClearAndWait,
    /// Build, stabilise, put in BTC context and validate the signal of
    /// symbol `index` of the universe.
    FetchSymbol(usize),
    /// No symbol gave a valid signal: clear the latest signals and publish
    /// nothing; `skipped` symbols were missing.
    ClearLatest { skipped: usize },
    /// Make the cycle's valid signals the latest ones and publish the first;
    /// `skipped` symbols were missing.
    StoreAndPublishFirst { skipped: usize },
    /// Publish valid signal `index`.
    Publish(usize),
    /// A signal could not be encoded: the service stops with that error.
    Abort,
    /// The cycle is over: wait, start the next.
    EndCycle,
}

/// Stages that a cycle over `expected` symbols can reach.
pub open spec fn cycle_stage_wf(expected: usize, stage: CycleStage) -> bool {
    match stage {
        CycleStage::AwaitSymbol { index, valid } => valid <= index < expected,
        CycleStage::AwaitPublish { index, valid } => index < valid <= expected,
        _ => true,
    }
}

/// The command a stage waits on.
pub open spec fn cycle_pending(expected: usize, stage: CycleStage) -> CycleCommand {
    match stage {
        CycleStage::AwaitBtc => CycleCommand::FetchBtc,
        CycleStage::AwaitSymbol { index, .. } => CycleCommand::FetchSymbol(index),
        CycleStage::AwaitPublish { index, valid } => if index == 0 {
            CycleCommand::StoreAndPublishFirst { skipped: (expected - valid) as usize }
        } else {
            CycleCommand::Publish(index)
        },
        CycleStage::Done => CycleCommand::EndCycle,
    }
}

/// After the last symbol: skip the cycle when nothing was valid, else store
/// and publish.
pub open spec fn after_symbols(expected: usize, valid: usize) -> (CycleStage, CycleCommand) {
    if valid == 0 {
        (CycleStage::Done, CycleCommand::ClearLatest { skipped: expected })
    } else {
        (
            CycleStage::AwaitPublish { index: 0, valid },
            CycleCommand::StoreAndPublishFirst { skipped: (expected - valid) as usize },
        )
    }
}

/// One step of a cycle over `expected` symbols. An event that the stage
/// does not wait for leaves it as it is and repeats its command.
pub open spec fn cycle_step_spec(expected: usize, stage: CycleStage, ev: CycleEvent) -> (
    CycleStage,
    CycleCommand,
) {
    match (stage, ev) {
        (CycleStage::AwaitBtc, CycleEvent::Btc(false)) => (
            CycleStage::Done,
            CycleCommand::ClearAndWait,
        ),
        (CycleStage::AwaitBtc, CycleEvent::Btc(true)) => if expected == 0 {
            after_symbols(expected, 0)
        } else {
            (CycleStage::AwaitSymbol { index: 0, valid: 0 }, CycleCommand::FetchSymbol(0))
        },
        (CycleStage::AwaitSymbol { index, valid }, CycleEvent::Symbol(f)) => {
            let v2: usize = if f == SymbolFetch::Valid {
                (valid + 1) as usize
            } else {
                valid
            };
            if index + 1 < expected {
                (
                    CycleStage::AwaitSymbol { index: (index + 1) as usize, valid: v2 },
                    CycleCommand::FetchSymbol((index + 1) as usize),
                )
            } else {
                after_symbols(expected, v2)
            }
        },
        (CycleStage::AwaitPublish { index, valid }, CycleEvent::Publish(p)) => match p {
            PublishResult::Sent | PublishResult::Invalid => if index + 1 < valid {
                (
                    CycleStage::AwaitPublish { index: (index + 1) as usize, valid },
                    CycleCommand::Publish((index + 1) as usize),
                )
            } else {
                (CycleStage::Done, CycleCommand::EndCycle)
            },
            PublishResult::SendFailed => (CycleStage::Done, CycleCommand::EndCycle),
            PublishResult::EncodeFailed => (CycleStage::Done, CycleCommand::Abort),
        },
        (CycleStage::Done, _) => (CycleStage::Done, CycleCommand::EndCycle),
        _ => (stage, cycle_pending(expected, stage)),
    }
}

/// Starts a cycle: the BTC context comes first.
pub fn cycle_begin() -> (r: (CycleStage, CycleCommand))
    ensures
        r == (CycleStage::AwaitBtc, CycleCommand::FetchBtc),
{
    (CycleStage::AwaitBtc, CycleCommand::FetchBtc)
}

fn after_symbols_exec(expected: usize, valid: usize) -> (r: (CycleStage, CycleCommand))
    requires
        valid <= expected,
    ensures
        r == after_symbols(expected, valid),
        cycle_stage_wf(expected, r.0),
{
    if valid == 0 {
        (CycleStage::Done, CycleCommand::ClearLatest { skipped: expected })
    } else {
        (
            CycleStage::AwaitPublish { index: 0, valid },
            CycleCommand::StoreAndPublishFirst { skipped: expected - valid },
        )
    }
}

/// One step of a collection cycle over `expected` symbols.
pub fn cycle_step(expected: usize, stage: CycleStage, ev: CycleEvent) -> (r: (
    CycleStage,
    CycleCommand,
))
    requires
        cycle_stage_wf(expected, stage),
    ensures
        r == cycle_step_spec(expected, stage, ev),
        cycle_stage_wf(expected, r.0),
{
    match (stage, ev) {
        (CycleStage::AwaitBtc, CycleEvent::Btc(false)) => (
            CycleStage::Done,
            CycleCommand::ClearAndWait,
        ),
        (CycleStage::AwaitBtc, CycleEvent::Btc(true)) => if expected == 0 {
            after_symbols_exec(expected, 0)
        } else {
            (CycleStage::AwaitSymbol { index: 0, valid: 0 }, CycleCommand::FetchSymbol(0))
        },
        (CycleStage::AwaitSymbol { index, valid }, CycleEvent::Symbol(f)) => {
            let v2: usize = match f {
                SymbolFetch::Valid => valid + 1,
                _ => valid,
            };
            if index + 1 < expected {
                (
                    CycleStage::AwaitSymbol { index: index + 1, valid: v2 },
                    CycleCommand::FetchSymbol(index + 1),
                )
            } else {
                after_symbols_exec(expected, v2)
            }
        },
        (CycleStage::AwaitPublish { index, valid }, CycleEvent::Publish(p)) => match p {
            PublishResult::Sent | PublishResult::Invalid => if index + 1 < valid {
                (
                    CycleStage::AwaitPublish { index: index + 1, valid },
                    CycleCommand::Publish(index + 1),
                )
            } else {
                (CycleStage::Done, CycleCommand::EndCycle)
            },
            PublishResult::SendFailed => (CycleStage::Done, CycleCommand::EndCycle),
            PublishResult::EncodeFailed => (CycleStage::Done, CycleCommand::Abort),
        },
        (CycleStage::Done, _) => (CycleStage::Done, CycleCommand::EndCycle),
        (CycleStage::AwaitBtc, _) => (stage, CycleCommand::FetchBtc),
        (CycleStage::AwaitSymbol { index, .. }, _) => (stage, CycleCommand::FetchSymbol(index)),
        (CycleStage::AwaitPublish { index, valid }, _) => if index == 0 {
            (stage, CycleCommand::StoreAndPublishFirst { skipped: expected - valid })
        } else {
            (stage, CycleCommand::Publish(index))
        },
    }
}

/// The stage reached and the commands issued after feeding `events` to a
/// cycle over `expected` symbols started with `cycle_begin`: command `k`
/// answers event `k - 1`.
pub open spec fn cycle_run(expected: usize, events: Seq<CycleEvent>) -> (
    CycleStage,
    Seq<CycleCommand>,
)
    decreases events.len(),
{
    if events.len() == 0 {
        (CycleStage::AwaitBtc, seq![CycleCommand::FetchBtc])
    } else {
        let (s, cs) = cycle_run(expected, events.drop_last());
        let (s2, c2) = cycle_step_spec(expected, s, events.last());
        (s2, cs.push(c2))
    }
}

/// The command publishes a signal.
pub open spec fn publishes(c: CycleCommand) -> bool {
    c is StoreAndPublishFirst || c is Publish
}

proof fn lemma_cycle_run_len(expected: usize, events: Seq<CycleEvent>)
    ensures
        cycle_run(expected, events).1.len() == events.len() + 1,
    decreases events.len(),
{
    if events.len() > 0 {
        lemma_cycle_run_len(expected, events.drop_last());
    }
}

/// Running a prefix of the events gives the prefix of the commands.
proof fn lemma_cycle_run_prefix(expected: usize, events: Seq<CycleEvent>, m: int)
    requires
        0 <= m <= events.len(),
    ensures
        cycle_run(expected, events.take(m)).1 == cycle_run(expected, events).1.take(m + 1),
    decreases events.len(),
{
    lemma_cycle_run_len(expected, events);
    if m == events.len() {
        assert(events.take(m) == events);
    } else {
        let e = events.drop_last();
        lemma_cycle_run_prefix(expected, e, m);
        assert(e.take(m) == events.take(m));
        lemma_cycle_run_len(expected, e);
    }
}

/// Once a cycle is done, it stays done and only ends.
proof fn lemma_cycle_done_absorbs(expected: usize, events: Seq<CycleEvent>, m: int)
    requires
        0 <= m <= events.len(),
        cycle_run(expected, events.take(m)).0 == CycleStage::Done,
    ensures
        cycle_run(expected, events).0 == CycleStage::Done,
        forall|k: int|
            m < k < cycle_run(expected, events).1.len() ==> #[trigger] cycle_run(
                expected,
                events,
            ).1[k] == CycleCommand::EndCycle,
    decreases events.len(),
{
    lemma_cycle_run_len(expected, events);
    if m == events.len() {
        assert(events.take(m) == events);
    } else {
        let e = events.drop_last();
        assert(e.take(m) == events.take(m));
        lemma_cycle_done_absorbs(expected, e, m);
        lemma_cycle_run_len(expected, e);
    }
}

/// When the BTC context cannot be built, the cycle clears the latest
/// signals, fetches no symbol and publishes nothing: every later command
/// only ends the cycle.
pub proof fn law_btc_failure_skips_cycle(expected: usize, events: Seq<CycleEvent>)
    requires
        events.len() >= 1,
        events[0] == CycleEvent::Btc(false),
    ensures
        cycle_run(expected, events).0 == CycleStage::Done,
        cycle_run(expected, events).1[1] == CycleCommand::ClearAndWait,
        forall|k: int|
            1 < k < cycle_run(expected, events).1.len() ==> #[trigger] cycle_run(
                expected,
                events,
            ).1[k] == CycleCommand::EndCycle,
{
    let first = events.take(1);
    assert(first.drop_last() == Seq::<CycleEvent>::empty());
    assert(first.last() == CycleEvent::Btc(false));
    let base = cycle_run(expected, first.drop_last());
    assert(base == (CycleStage::AwaitBtc, seq![CycleCommand::FetchBtc]));
    assert(cycle_run(expected, first) == (
        CycleStage::Done,
        seq![CycleCommand::FetchBtc].push(CycleCommand::ClearAndWait),
    ));
    lemma_cycle_done_absorbs(expected, events, 1);
    lemma_cycle_run_prefix(expected, events, 1);
    lemma_cycle_run_len(expected, events);
    assert(cycle_run(expected, first).1[1] == CycleCommand::ClearAndWait);
    assert(cycle_run(expected, events).1.take(2)[1] == cycle_run(expected, events).1[1]);
}

/// A cycle in which no symbol's signal comes back valid publishes nothing.
pub proof fn law_nothing_published_without_valid_signal(expected: usize, events: Seq<CycleEvent>)
    requires
        forall|i: int| 0 <= i < events.len() ==> events[i] != CycleEvent::Symbol(SymbolFetch::Valid),
    ensures
        forall|k: int|
            0 <= k < cycle_run(expected, events).1.len() ==> !publishes(
                #[trigger] cycle_run(expected, events).1[k],
            ),
        !(cycle_run(expected, events).0 is AwaitPublish),
        cycle_run(expected, events).0 matches CycleStage::AwaitSymbol { valid, .. } ==> valid == 0,
    decreases events.len(),
{
    lemma_cycle_run_len(expected, events);
    if events.len() > 0 {
        let e = events.drop_last();
        assert forall|i: int| 0 <= i < e.len() implies e[i] != CycleEvent::Symbol(
            SymbolFetch::Valid,
        ) by {
            assert(e[i] == events[i]);
        }
        law_nothing_published_without_valid_signal(expected, e);
        assert(events.last() == events[events.len() - 1]);
        let cs = cycle_run(expected, e).1;
        assert forall|k: int| 0 <= k < cycle_run(expected, events).1.len() implies !publishes(
            #[trigger] cycle_run(expected, events).1[k],
        ) by {
            if k < cs.len() {
                assert(cycle_run(expected, events).1[k] == cs[k]);
            }
        }
    }
}

/// Publishing stops at the first signal that cannot be sent or encoded:
/// nothing is published after it.
pub proof fn law_failed_publish_stops_publishing(
    expected: usize,
    events: Seq<CycleEvent>,
    j: int,
)
    requires
        0 <= j < events.len(),
        cycle_run(expected, events.take(j)).0 is AwaitPublish,
        events[j] == CycleEvent::Publish(PublishResult::SendFailed) || events[j]
            == CycleEvent::Publish(PublishResult::EncodeFailed),
    ensures
        forall|k: int|
            j < k < cycle_run(expected, events).1.len() ==> !publishes(
                #[trigger] cycle_run(expected, events).1[k],
            ),
{
    let pre = events.take(j + 1);
    assert(pre.drop_last() == events.take(j));
    assert(pre.last() == events[j]);
    assert(cycle_run(expected, pre).0 == CycleStage::Done);
    lemma_cycle_done_absorbs(expected, events, j + 1);
    lemma_cycle_run_prefix(expected, events, j + 1);
    lemma_cycle_run_len(expected, events.take(j));
    lemma_cycle_run_len(expected, events);
    lemma_cycle_run_len(expected, pre);
    let c = cycle_step_spec(expected, cycle_run(expected, events.take(j)).0, events[j]).1;
    assert(cycle_run(expected, pre).1 == cycle_run(expected, events.take(j)).1.push(c));
    assert(cycle_run(expected, pre).1[j + 1] == c);
    assert(cycle_run(expected, events).1.take(j + 2)[j + 1] == cycle_run(expected, events).1[j + 1]);
    assert(!publishes(cycle_run(expected, events).1[j + 1]));
}

} // verus!
