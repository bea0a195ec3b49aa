//! Reconciliation of one symbol and position side: the local book is
//! compared with the exchange and the drift is recorded, corrected locally,
//! or corrected by an order on the exchange, as the policy allows.
//!
//! Quantities are measured by the caller; this module decides from what the
//! measurements show and from what each command reports back.
use vstd::prelude::*;
use crate::gate::PositionSide;

verus! {

/// Which corrections the configuration permits.
#[derive(Debug, Clone, Copy, PartialEq, Eq, Structural)]
pub struct ReconcilePolicy {
    /// Corrective exchange orders are enabled.
    pub auto_fix: bool,
    /// The executor trades on mainnet.
    pub mainnet: bool,
    /// Local-only corrections are enabled.
    pub reduce_fix: bool,
}

/// What the measured quantities show.
#[derive(Debug, Clone, Copy, PartialEq, Eq, Structural)]
pub struct DriftReading {
    /// The local and exchange quantities agree within the tolerance.
    pub within_tolerance: bool,
    /// The difference is larger than the largest correction allowed.
    pub exceeds_max_correction: bool,
    /// The exchange holds more than the local book.
    pub exchange_above_local: bool,
    /// The exchange holds less than the local book.
    pub exchange_below_local: bool,
    /// The local book holds more than the exchange, beyond the tolerance.
    pub local_above_exchange: bool,
}

/// Everything fixed for one reconciliation of a symbol and side.
#[derive(Debug, Clone, Copy, PartialEq, Eq, Structural)]
pub struct ReconcileContext {
    pub side: PositionSide,
    pub policy: ReconcilePolicy,
    pub reading: DriftReading,
}

/// Which local quantity the recorded event carries.
#[derive(Debug, Clone, Copy, PartialEq, Eq, Structural)]
pub enum RecordedLocal {
    /// The quantity measured at the start.
    Measured,
    /// The quantity the local reduction found before it reduced.
    BeforeReduce,
}

/// Which difference the recorded event carries.
#[derive(Debug, Clone, Copy, PartialEq, Eq, Structural)]
pub enum RecordedDiff {
    /// The difference measured at the start.
    Measured,
    /// The distance from the quantity before the local reduction to the
    /// exchange quantity.
    BeforeReduceToExchange,
}

/// The reconciliation event to record.
#[derive(Debug, Clone, Copy, PartialEq, Eq, Structural)]
pub struct ReconcileRecord {
    pub fix_applied: bool,
    pub local: RecordedLocal,
    pub diff: RecordedDiff,
}

/// What the service must do next.
#[derive(Debug, Clone, Copy, PartialEq, Eq, Structural)]
pub enum ReconcileCommand {
    /// Consume one automatic fix from the daily budget.
    CheckDailyLimit,
    /// Send a corrective order: an entry when `increase`, else a close.
    SubmitFix { increase: bool },
    /// Reduce the local open trades down to the exchange quantity.
    ReduceLocal,
    /// Record the event; the reconciliation is over.
    Record(ReconcileRecord),
    /// Nothing more to do.
    Idle,
}

/// What the last command reported.
#[derive(Debug, Clone, Copy, PartialEq, Eq, Structural)]
pub enum ReconcileEvent {
    DailyLimit(bool),
    /// Whether the corrective order was accepted.
    FixOrder(bool),
    /// Whether the local reduction succeeded.
    LocalReduced(bool),
}

#[derive(Debug, Clone, Copy, PartialEq, Eq, Structural)]
pub enum ReconcileStage {
    AwaitDailyLimit,
    AwaitFixOrder,
    AwaitAutoReduce,
    AwaitManualReduce,
    Done,
}

pub open spec fn not_applied() -> ReconcileCommand {
    ReconcileCommand::Record(
        ReconcileRecord {
            fix_applied: false,
            local: RecordedLocal::Measured,
            diff: RecordedDiff::Measured,
        },
    )
}

pub open spec fn auto_allowed(p: ReconcilePolicy) -> bool {
    p.auto_fix && p.mainnet
}

pub open spec fn pending_spec(stage: ReconcileStage) -> ReconcileCommand {
    match stage {
        ReconcileStage::AwaitDailyLimit => ReconcileCommand::CheckDailyLimit,
        ReconcileStage::AwaitFixOrder => ReconcileCommand::Idle,
        ReconcileStage::AwaitAutoReduce => ReconcileCommand::ReduceLocal,
        ReconcileStage::AwaitManualReduce => ReconcileCommand::ReduceLocal,
        ReconcileStage::Done => ReconcileCommand::Idle,
    }
}

/// First step: agreement ends at once; with automatic fixes on mainnet a
/// too-large difference is only recorded and any other goes to the daily
/// budget; otherwise a local-only fix reduces a local excess, and anything
/// else is recorded as detected.
pub open spec fn begin_spec(ctx: ReconcileContext) -> (ReconcileStage, ReconcileCommand) {
    if ctx.reading.within_tolerance {
        (ReconcileStage::Done, ReconcileCommand::Idle)
    } else if auto_allowed(ctx.policy) {
        if ctx.reading.exceeds_max_correction {
            (ReconcileStage::Done, not_applied())
        } else {
            (ReconcileStage::AwaitDailyLimit, ReconcileCommand::CheckDailyLimit)
        }
    } else if ctx.policy.reduce_fix && ctx.reading.local_above_exchange {
        (ReconcileStage::AwaitManualReduce, ReconcileCommand::ReduceLocal)
    } else {
        (ReconcileStage::Done, not_applied())
    }
}

/// Later steps. An event that does not answer the stage's command leaves
/// the stage unchanged.
pub open spec fn step_spec(ctx: ReconcileContext, stage: ReconcileStage, ev: ReconcileEvent) -> (
    ReconcileStage,
    ReconcileCommand,
) {
    match (stage, ev) {
        (ReconcileStage::AwaitDailyLimit, ReconcileEvent::DailyLimit(allowed)) => {
            if allowed {
                (
                    ReconcileStage::AwaitFixOrder,
                    ReconcileCommand::SubmitFix { increase: ctx.reading.exchange_above_local },
                )
            } else {
                (ReconcileStage::Done, not_applied())
            }
        },
        (ReconcileStage::AwaitFixOrder, ReconcileEvent::FixOrder(ok)) => {
            if !ok {
                (ReconcileStage::Done, not_applied())
            } else if ctx.reading.exchange_below_local {
                (ReconcileStage::AwaitAutoReduce, ReconcileCommand::ReduceLocal)
            } else {
                (
                    ReconcileStage::Done,
                    ReconcileCommand::Record(
                        ReconcileRecord {
                            fix_applied: true,
                            local: RecordedLocal::Measured,
                            diff: RecordedDiff::Measured,
                        },
                    ),
                )
            }
        },
        (ReconcileStage::AwaitAutoReduce, ReconcileEvent::LocalReduced(ok)) => {
            if ok {
                (
                    ReconcileStage::Done,
                    ReconcileCommand::Record(
                        ReconcileRecord {
                            fix_applied: true,
                            local: RecordedLocal::BeforeReduce,
                            diff: RecordedDiff::Measured,
                        },
                    ),
                )
            } else {
                (ReconcileStage::Done, ReconcileCommand::Idle)
            }
        },
        (ReconcileStage::AwaitManualReduce, ReconcileEvent::LocalReduced(ok)) => {
            if ok {
                (
                    ReconcileStage::Done,
                    ReconcileCommand::Record(
                        ReconcileRecord {
                            fix_applied: true,
                            local: RecordedLocal::BeforeReduce,
                            diff: RecordedDiff::BeforeReduceToExchange,
                        },
                    ),
                )
            } else {
                (ReconcileStage::Done, ReconcileCommand::Idle)
            }
        },
        (ReconcileStage::Done, _) => (ReconcileStage::Done, ReconcileCommand::Idle),
        _ => (stage, pending_spec(stage)),
    }
}

fn not_applied_record() -> (r: ReconcileCommand)
    ensures
        r == not_applied(),
{
    ReconcileCommand::Record(
        ReconcileRecord {
            fix_applied: false,
            local: RecordedLocal::Measured,
            diff: RecordedDiff::Measured,
        },
    )
}

/// Starts the reconciliation of one symbol and side.
pub fn reconcile_begin(ctx: &ReconcileContext) -> (r: (ReconcileStage, ReconcileCommand))
    ensures
        r == begin_spec(*ctx),
{
    if ctx.reading.within_tolerance {
        (ReconcileStage::Done, ReconcileCommand::Idle)
    } else if ctx.policy.auto_fix && ctx.policy.mainnet {
        if ctx.reading.exceeds_max_correction {
            (ReconcileStage::Done, not_applied_record())
        } else {
            (ReconcileStage::AwaitDailyLimit, ReconcileCommand::CheckDailyLimit)
        }
    } else if ctx.policy.reduce_fix && ctx.reading.local_above_exchange {
        (ReconcileStage::AwaitManualReduce, ReconcileCommand::ReduceLocal)
    } else {
        (ReconcileStage::Done, not_applied_record())
    }
}

/// Advances the reconciliation with what the last command reported.
pub fn reconcile_step(ctx: &ReconcileContext, stage: ReconcileStage, ev: ReconcileEvent) -> (r: (
    ReconcileStage,
    ReconcileCommand,
))
    ensures
        r == step_spec(*ctx, stage, ev),
{
    match (stage, ev) {
        (ReconcileStage::AwaitDailyLimit, ReconcileEvent::DailyLimit(allowed)) => {
            if allowed {
                (
                    ReconcileStage::AwaitFixOrder,
                    ReconcileCommand::SubmitFix { increase: ctx.reading.exchange_above_local },
                )
            } else {
                (ReconcileStage::Done, not_applied_record())
            }
        },
        (ReconcileStage::AwaitFixOrder, ReconcileEvent::FixOrder(ok)) => {
            if !ok {
                (ReconcileStage::Done, not_applied_record())
            } else if ctx.reading.exchange_below_local {
                (ReconcileStage::AwaitAutoReduce, ReconcileCommand::ReduceLocal)
            } else {
                (
                    ReconcileStage::Done,
                    ReconcileCommand::Record(
                        ReconcileRecord {
                            fix_applied: true,
                            local: RecordedLocal::Measured,
                            diff: RecordedDiff::Measured,
                        },
                    ),
                )
            }
        },
        (ReconcileStage::AwaitAutoReduce, ReconcileEvent::LocalReduced(ok)) => {
            if ok {
                (
                    ReconcileStage::Done,
                    ReconcileCommand::Record(
                        ReconcileRecord {
                            fix_applied: true,
                            local: RecordedLocal::BeforeReduce,
                            diff: RecordedDiff::Measured,
                        },
                    ),
                )
            } else {
                (ReconcileStage::Done, ReconcileCommand::Idle)
            }
        },
        (ReconcileStage::AwaitManualReduce, ReconcileEvent::LocalReduced(ok)) => {
            if ok {
                (
                    ReconcileStage::Done,
                    ReconcileCommand::Record(
                        ReconcileRecord {
                            fix_applied: true,
                            local: RecordedLocal::BeforeReduce,
                            diff: RecordedDiff::BeforeReduceToExchange,
                        },
                    ),
                )
            } else {
                (ReconcileStage::Done, ReconcileCommand::Idle)
            }
        },
        (ReconcileStage::Done, _) => (ReconcileStage::Done, ReconcileCommand::Idle),
        (ReconcileStage::AwaitDailyLimit, _) => (stage, ReconcileCommand::CheckDailyLimit),
        (ReconcileStage::AwaitFixOrder, _) => (stage, ReconcileCommand::Idle),
        (ReconcileStage::AwaitAutoReduce, _) => (stage, ReconcileCommand::ReduceLocal),
        (ReconcileStage::AwaitManualReduce, _) => (stage, ReconcileCommand::ReduceLocal),
    }
}

/// The action of a corrective order: an entry on the side when the
/// exchange holds more than the book, a close otherwise.
pub fn reconciliation_action(side: PositionSide, increase: bool) -> (r: &'static str)
    ensures
        r@ == (match (side, increase) {
            (PositionSide::Long, true) => "ENTER_LONG"@,
            (PositionSide::Short, true) => "ENTER_SHORT"@,
            (PositionSide::Long, false) => "CLOSE_LONG"@,
            (PositionSide::Short, false) => "CLOSE_SHORT"@,
        }),
{
    match (side, increase) {
        (PositionSide::Long, true) => "ENTER_LONG",
        (PositionSide::Short, true) => "ENTER_SHORT",
        (PositionSide::Long, false) => "CLOSE_LONG",
        (PositionSide::Short, false) => "CLOSE_SHORT",
    }
}

/// The stage reached and the commands issued after feeding `events` to a
/// reconciliation started with `reconcile_begin`.
pub open spec fn run(ctx: ReconcileContext, events: Seq<ReconcileEvent>) -> (
    ReconcileStage,
    Seq<ReconcileCommand>,
)
    decreases events.len(),
{
    if events.len() == 0 {
        let (s, c) = begin_spec(ctx);
        (s, seq![c])
    } else {
        let (s, cs) = run(ctx, events.drop_last());
        let (s2, c2) = step_spec(ctx, s, events.last());
        (s2, cs.push(c2))
    }
}

/// Conditions under which an automatic fix may go ahead.
pub open spec fn fix_permitted(ctx: ReconcileContext, events: Seq<ReconcileEvent>) -> bool {
    &&& !ctx.reading.within_tolerance
    &&& auto_allowed(ctx.policy)
    &&& !ctx.reading.exceeds_max_correction
    &&& events.contains(ReconcileEvent::DailyLimit(true))
}

/// The event says a fix was applied.
pub open spec fn is_applied_record(c: ReconcileCommand) -> bool {
    c matches ReconcileCommand::Record(rec) && rec.fix_applied
}

/// How a fix came to be applied: an accepted corrective order, or a
/// successful local-only reduction of a local excess.
pub open spec fn fix_succeeded(ctx: ReconcileContext, events: Seq<ReconcileEvent>) -> bool {
    ||| fix_permitted(ctx, events) && events.contains(ReconcileEvent::FixOrder(true))
    ||| !auto_allowed(ctx.policy) && ctx.policy.reduce_fix && ctx.reading.local_above_exchange
        && !ctx.reading.within_tolerance && events.contains(ReconcileEvent::LocalReduced(true))
}

pub open spec fn run_inv(ctx: ReconcileContext, events: Seq<ReconcileEvent>, s: ReconcileStage) -> bool {
    &&& s is AwaitDailyLimit ==> !ctx.reading.within_tolerance && auto_allowed(ctx.policy)
        && !ctx.reading.exceeds_max_correction
    &&& (s is AwaitFixOrder || s is AwaitAutoReduce) ==> fix_permitted(ctx, events)
    &&& s is AwaitAutoReduce ==> events.contains(ReconcileEvent::FixOrder(true))
    &&& s is AwaitManualReduce ==> !auto_allowed(ctx.policy) && ctx.policy.reduce_fix
        && ctx.reading.local_above_exchange && !ctx.reading.within_tolerance
}

proof fn lemma_contains_push(events: Seq<ReconcileEvent>, e: ReconcileEvent)
    ensures
        events.push(e).contains(e),
        forall|x: ReconcileEvent| events.contains(x) ==> #[trigger] events.push(e).contains(x),
{
    assert(events.push(e)[events.len() as int] == e);
    assert forall|x: ReconcileEvent| events.contains(x) implies #[trigger] events.push(
        e,
    ).contains(x) by {
        let j = choose|j: int| 0 <= j < events.len() && events[j] == x;
        assert(events.push(e)[j] == x);
    }
}

proof fn lemma_run_inv(ctx: ReconcileContext, events: Seq<ReconcileEvent>)
    ensures
        run_inv(ctx, events, run(ctx, events).0),
        forall|i: int|
            0 <= i < run(ctx, events).1.len() && (#[trigger] run(ctx, events).1[i]) is SubmitFix
                ==> fix_permitted(ctx, events),
        forall|i: int|
            0 <= i < run(ctx, events).1.len() && is_applied_record(#[trigger] run(ctx, events).1[i])
                ==> fix_succeeded(ctx, events),
    decreases events.len(),
{
    if events.len() > 0 {
        let prev = events.drop_last();
        let e = events.last();
        lemma_run_inv(ctx, prev);
        lemma_contains_push(prev, e);
        assert(events == prev.push(e));
        let (s, cs) = run(ctx, prev);
        let (s2, c2) = step_spec(ctx, s, e);
        assert(run(ctx, events) == (s2, cs.push(c2)));
        assert forall|i: int|
            0 <= i < run(ctx, events).1.len() && (#[trigger] run(ctx, events).1[i]) is SubmitFix
                implies fix_permitted(ctx, events) by {
            if i < cs.len() {
                assert(cs[i] is SubmitFix);
            }
        }
        assert forall|i: int|
            0 <= i < run(ctx, events).1.len() && is_applied_record(
                #[trigger] run(ctx, events).1[i],
            ) implies fix_succeeded(ctx, events) by {
            if i < cs.len() {
                assert(is_applied_record(cs[i]));
            }
        }
    }
}

/// Quantities that agree within the tolerance are neither recorded nor
/// corrected.
pub proof fn law_agreement_needs_nothing(ctx: ReconcileContext)
    requires
        ctx.reading.within_tolerance,
    ensures
        begin_spec(ctx) == (ReconcileStage::Done, ReconcileCommand::Idle),
{
}

/// With neither automatic fixes on mainnet nor local-only fixes, a drift is
/// only recorded as detected.
pub proof fn law_no_fix_policy_only_records(ctx: ReconcileContext, events: Seq<ReconcileEvent>)
    requires
        !ctx.reading.within_tolerance,
        !auto_allowed(ctx.policy),
        !ctx.policy.reduce_fix,
    ensures
        run(ctx, events).1[0] == not_applied(),
        forall|i: int| 1 <= i < run(ctx, events).1.len() ==> #[trigger] run(ctx, events).1[i]
            == ReconcileCommand::Idle,
    decreases events.len(),
{
    if events.len() > 0 {
        law_no_fix_policy_only_records(ctx, events.drop_last());
        let (s, cs) = run(ctx, events.drop_last());
        assert(s == ReconcileStage::Done) by {
            lemma_done_stays(ctx, events.drop_last());
        }
        assert forall|i: int| 1 <= i < run(ctx, events).1.len() implies #[trigger] run(
            ctx,
            events,
        ).1[i] == ReconcileCommand::Idle by {
            if i < cs.len() {
                assert(cs[i] == ReconcileCommand::Idle);
            }
        }
    }
}

proof fn lemma_done_stays(ctx: ReconcileContext, events: Seq<ReconcileEvent>)
    requires
        begin_spec(ctx).0 == ReconcileStage::Done,
    ensures
        run(ctx, events).0 == ReconcileStage::Done,
        run(ctx, events).1.len() == events.len() + 1,
    decreases events.len(),
{
    if events.len() > 0 {
        lemma_done_stays(ctx, events.drop_last());
    }
}

/// A corrective order is sent only when automatic fixes are on, the mode is
/// mainnet, the quantities disagree, the difference is within the largest
/// correction allowed, and the daily budget allowed the fix.
pub proof fn law_fix_order_only_when_permitted(
    ctx: ReconcileContext,
    events: Seq<ReconcileEvent>,
    i: int,
)
    requires
        0 <= i < run(ctx, events).1.len(),
        run(ctx, events).1[i] is SubmitFix,
    ensures
        fix_permitted(ctx, events),
{
    lemma_run_inv(ctx, events);
}

/// A fix is recorded as applied only after the corrective order was
/// accepted, or after a local-only reduction of a local excess succeeded.
pub proof fn law_applied_only_after_success(
    ctx: ReconcileContext,
    events: Seq<ReconcileEvent>,
    i: int,
)
    requires
        0 <= i < run(ctx, events).1.len(),
        is_applied_record(run(ctx, events).1[i]),
    ensures
        fix_succeeded(ctx, events),
{
    lemma_run_inv(ctx, events);
}

} // verus!
