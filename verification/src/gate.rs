//! The executor's decision flow for one strategy decision, as a state
//! machine: the service performs each command (a database query, an
//! exchange call, a fill) and feeds back what came of it; the machine
//! decides what happens next and which audit status the decision ends with.
use vstd::prelude::*;
use vstd::string::*;
use crate::executor::{is_close_spec, side_of_action};
use crate::text::{chars_eq_str, chars_of};

verus! {

#[derive(Debug, Clone, Copy, PartialEq, Eq, Structural)]
pub enum PositionSide {
    Long,
    Short,
}

/// What a decision's action asks for.
#[derive(Debug, Clone, Copy, PartialEq, Eq, Structural)]
pub enum ActionKind {
    Hold,
    Unsupported,
    Enter(PositionSide),
    Close(PositionSide),
}

pub open spec fn action_kind_spec(a: Seq<char>) -> ActionKind {
    if a == "HOLD"@ {
        ActionKind::Hold
    } else if a == "ENTER_LONG"@ {
        ActionKind::Enter(PositionSide::Long)
    } else if a == "ENTER_SHORT"@ {
        ActionKind::Enter(PositionSide::Short)
    } else if a == "CLOSE_LONG"@ {
        ActionKind::Close(PositionSide::Long)
    } else if a == "CLOSE_SHORT"@ {
        ActionKind::Close(PositionSide::Short)
    } else {
        ActionKind::Unsupported
    }
}

/// Classifies an action string. Every action other than HOLD that has an
/// order side is an entry or a close.
pub fn classify_action(action: &str) -> (r: ActionKind)
    ensures
        r == action_kind_spec(action@),
        r == ActionKind::Unsupported <==> (action@ != "HOLD"@ && side_of_action(action@).is_none()),
        (r is Close) <==> is_close_spec(action@),
{
    let a = chars_of(action);
    proof {
        reveal_strlit("HOLD");
        reveal_strlit("ENTER_LONG");
        reveal_strlit("ENTER_SHORT");
        reveal_strlit("CLOSE_LONG");
        reveal_strlit("CLOSE_SHORT");
        assert("ENTER_LONG"@[0] != "CLOSE_LONG"@[0]);
        assert("ENTER_SHORT"@[0] != "CLOSE_SHORT"@[0]);
    }
    if chars_eq_str(&a, "HOLD") {
        ActionKind::Hold
    } else if chars_eq_str(&a, "ENTER_LONG") {
        ActionKind::Enter(PositionSide::Long)
    } else if chars_eq_str(&a, "ENTER_SHORT") {
        ActionKind::Enter(PositionSide::Short)
    } else if chars_eq_str(&a, "CLOSE_LONG") {
        ActionKind::Close(PositionSide::Long)
    } else if chars_eq_str(&a, "CLOSE_SHORT") {
        ActionKind::Close(PositionSide::Short)
    } else {
        ActionKind::Unsupported
    }
}

/// Audit status recorded for a decision.
#[derive(Debug, Clone, Copy, PartialEq, Eq, Structural)]
pub enum AuditStatus {
    IgnoredHold,
    Error,
    BlockedExecutorDisabled,
    BlockedKillSwitch,
    BlockedSymbolAllowlist,
    PaperClose,
    PaperClosePartial,
    PaperCloseQtyExceedsOpen,
    PaperCloseNoLocalOpen,
    PaperCloseNoPersist,
    PaperOpenBlockedExistingOpen,
    PaperOpenBlockedOppositeOpen,
    PaperOpenGuardError,
    PaperOpenBlockedMaxOpenPositions,
    PaperOpenBlockedConstraints,
    PaperOpenBlockedConstraintsUnavailable,
    PaperOpenBlockedInsufficientMargin,
    PaperOpenNoPersist,
    PaperOpen,
    Submitted,
    SubmittedClose,
    SubmittedClosePartial,
    SubmittedCloseQtyExceedsOpen,
    SubmittedCloseNoLocalOpen,
    SubmittedCloseNoPersist,
    SubmittedNoPersist,
    SubmittedTrailingNotSet,
}

impl AuditStatus {
    pub open spec fn label(self) -> Seq<char> {
        match self {
            AuditStatus::IgnoredHold => "ignored_hold"@,
            AuditStatus::Error => "error"@,
            AuditStatus::BlockedExecutorDisabled => "blocked_executor_disabled"@,
            AuditStatus::BlockedKillSwitch => "blocked_kill_switch"@,
            AuditStatus::BlockedSymbolAllowlist => "blocked_symbol_allowlist"@,
            AuditStatus::PaperClose => "paper_close"@,
            AuditStatus::PaperClosePartial => "paper_close_partial"@,
            AuditStatus::PaperCloseQtyExceedsOpen => "paper_close_qty_exceeds_open"@,
            AuditStatus::PaperCloseNoLocalOpen => "paper_close_no_local_open"@,
            AuditStatus::PaperCloseNoPersist => "paper_close_no_persist"@,
            AuditStatus::PaperOpenBlockedExistingOpen => "paper_open_blocked_existing_open"@,
            AuditStatus::PaperOpenBlockedOppositeOpen => "paper_open_blocked_opposite_open"@,
            AuditStatus::PaperOpenGuardError => "paper_open_guard_error"@,
            AuditStatus::PaperOpenBlockedMaxOpenPositions => "paper_open_blocked_max_open_positions"@,
            AuditStatus::PaperOpenBlockedConstraints => "paper_open_blocked_constraints"@,
            AuditStatus::PaperOpenBlockedConstraintsUnavailable => "paper_open_blocked_constraints_unavailable"@,
            AuditStatus::PaperOpenBlockedInsufficientMargin => "paper_open_blocked_insufficient_margin"@,
            AuditStatus::PaperOpenNoPersist => "paper_open_no_persist"@,
            AuditStatus::PaperOpen => "paper_open"@,
            AuditStatus::Submitted => "submitted"@,
            AuditStatus::SubmittedClose => "submitted_close"@,
            AuditStatus::SubmittedClosePartial => "submitted_close_partial"@,
            AuditStatus::SubmittedCloseQtyExceedsOpen => "submitted_close_qty_exceeds_open"@,
            AuditStatus::SubmittedCloseNoLocalOpen => "submitted_close_no_local_open"@,
            AuditStatus::SubmittedCloseNoPersist => "submitted_close_no_persist"@,
            AuditStatus::SubmittedNoPersist => "submitted_no_persist"@,
            AuditStatus::SubmittedTrailingNotSet => "submitted_trailing_not_set"@,
        }
    }

    /// The label stored in the audit table.
    pub fn as_str(self) -> (r: &'static str)
        ensures
            r@ == self.label(),
    {
        match self {
            AuditStatus::IgnoredHold => "ignored_hold",
            AuditStatus::Error => "error",
            AuditStatus::BlockedExecutorDisabled => "blocked_executor_disabled",
            AuditStatus::BlockedKillSwitch => "blocked_kill_switch",
            AuditStatus::BlockedSymbolAllowlist => "blocked_symbol_allowlist",
            AuditStatus::PaperClose => "paper_close",
            AuditStatus::PaperClosePartial => "paper_close_partial",
            AuditStatus::PaperCloseQtyExceedsOpen => "paper_close_qty_exceeds_open",
            AuditStatus::PaperCloseNoLocalOpen => "paper_close_no_local_open",
            AuditStatus::PaperCloseNoPersist => "paper_close_no_persist",
            AuditStatus::PaperOpenBlockedExistingOpen => "paper_open_blocked_existing_open",
            AuditStatus::PaperOpenBlockedOppositeOpen => "paper_open_blocked_opposite_open",
            AuditStatus::PaperOpenGuardError => "paper_open_guard_error",
            AuditStatus::PaperOpenBlockedMaxOpenPositions => "paper_open_blocked_max_open_positions",
            AuditStatus::PaperOpenBlockedConstraints => "paper_open_blocked_constraints",
            AuditStatus::PaperOpenBlockedConstraintsUnavailable =>
                "paper_open_blocked_constraints_unavailable",
            AuditStatus::PaperOpenBlockedInsufficientMargin =>
                "paper_open_blocked_insufficient_margin",
            AuditStatus::PaperOpenNoPersist => "paper_open_no_persist",
            AuditStatus::PaperOpen => "paper_open",
            AuditStatus::Submitted => "submitted",
            AuditStatus::SubmittedClose => "submitted_close",
            AuditStatus::SubmittedClosePartial => "submitted_close_partial",
            AuditStatus::SubmittedCloseQtyExceedsOpen => "submitted_close_qty_exceeds_open",
            AuditStatus::SubmittedCloseNoLocalOpen => "submitted_close_no_local_open",
            AuditStatus::SubmittedCloseNoPersist => "submitted_close_no_persist",
            AuditStatus::SubmittedNoPersist => "submitted_no_persist",
            AuditStatus::SubmittedTrailingNotSet => "submitted_trailing_not_set",
        }
    }
}

/// Which order id the audit row carries.
#[derive(Debug, Clone, PartialEq, Eq)]
pub enum OrderRef {
    NoOrder,
    /// `paper-<event id>`.
    Paper,
    Live(String),
}

/// The error text the audit row carries.
#[derive(Debug, Clone, PartialEq, Eq)]
pub enum ErrorNote {
    NoError,
    UnsupportedAction,
    PaperGuardQueryFailed,
    PaperMaxOpenGuardQueryFailed,
    SymbolConstraintsUnavailable,
    ConstraintRejected(String),
    InsufficientMargin(String),
    MarginQueryFailed,
    MissingCredentials,
    SubmitFailed(String),
}

/// The audit row a decision ends with.
#[derive(Debug, Clone, PartialEq, Eq)]
pub struct Outcome {
    pub status: AuditStatus,
    pub order: OrderRef,
    pub error: ErrorNote,
}

/// How the local book took a close.
#[derive(Debug, Clone, Copy, PartialEq, Eq, Structural)]
pub enum CloseOutcome {
    Closed,
    Partial,
    QtyExceedsOpen,
    NoLocalOpen,
    /// The close could not be reconciled (database error).
    Failed,
}

/// Result of checking a paper entry against the symbol's exchange rules.
#[derive(Debug, Clone, PartialEq, Eq)]
pub enum ConstraintsOutcome {
    Unavailable,
    Rejected(String),
    Accepted,
}

/// Result of checking the margin a paper entry needs.
#[derive(Debug, Clone, PartialEq, Eq)]
pub enum MarginOutcome {
    QueryFailed,
    Insufficient(String),
    Sufficient,
}

/// What the service reports back after a command.
#[derive(Debug, PartialEq, Eq)]
pub enum DecisionEvent {
    Controls { executor_enabled: bool, kill_switch_enabled: bool },
    CloseReconciled(CloseOutcome),
    /// `None` when the query failed; otherwise the side of the open
    /// position on the symbol, if any.
    OpenSide(Option<Option<PositionSide>>),
    /// `None` when the query failed.
    OpenCount(Option<i64>),
    Constraints(ConstraintsOutcome),
    Margin(MarginOutcome),
    Persisted(bool),
    /// The exchange order id, or the submission error.
    Submitted(Result<String, String>),
    TrailingSet(bool),
}

/// What the service must do next.
#[derive(Debug, Clone, PartialEq, Eq)]
pub enum DecisionCommand {
    FetchControls,
    ReconcilePaperClose,
    QueryOpenSide,
    CountOpenTrades,
    CheckConstraints,
    CheckMargin,
    FillAndPersistPaperEntry,
    SubmitOrder,
    ReconcileLiveClose,
    PersistLiveEntry,
    SetTrailingStop,
    Finish(Outcome),
    Idle,
}

#[derive(Debug, Clone, PartialEq, Eq)]
pub enum DecisionStage {
    AwaitControls,
    AwaitPaperClose,
    AwaitOpenSide,
    AwaitOpenCount,
    AwaitConstraints,
    AwaitMargin,
    AwaitPaperPersist,
    AwaitSubmit,
    AwaitLiveClose { order_id: String },
    AwaitLivePersist { order_id: String },
    AwaitTrailing { order_id: String, persisted: bool },
    Done,
}

/// What is fixed for the whole decision.
#[derive(Debug, Clone, Copy, PartialEq, Eq, Structural)]
pub struct DecisionContext {
    pub kind: ActionKind,
    pub live_orders_enabled: bool,
    pub symbol_allowed_live: bool,
    pub has_credentials: bool,
    pub max_open_positions: i64,
}

pub open spec fn finish(status: AuditStatus, order: OrderRef, error: ErrorNote) -> DecisionCommand {
    DecisionCommand::Finish(Outcome { status, order, error })
}

pub open spec fn is_close_kind(k: ActionKind) -> bool {
    k is Close
}

/// The command a stage is waiting on (re-issued when an unrelated event
/// arrives).
pub open spec fn pending_spec(stage: DecisionStage) -> DecisionCommand {
    match stage {
        DecisionStage::AwaitControls => DecisionCommand::FetchControls,
        DecisionStage::AwaitPaperClose => DecisionCommand::ReconcilePaperClose,
        DecisionStage::AwaitOpenSide => DecisionCommand::QueryOpenSide,
        DecisionStage::AwaitOpenCount => DecisionCommand::CountOpenTrades,
        DecisionStage::AwaitConstraints => DecisionCommand::CheckConstraints,
        DecisionStage::AwaitMargin => DecisionCommand::CheckMargin,
        DecisionStage::AwaitPaperPersist => DecisionCommand::FillAndPersistPaperEntry,
        DecisionStage::AwaitSubmit => DecisionCommand::SubmitOrder,
        DecisionStage::AwaitLiveClose { .. } => DecisionCommand::ReconcileLiveClose,
        DecisionStage::AwaitLivePersist { .. } => DecisionCommand::PersistLiveEntry,
        DecisionStage::AwaitTrailing { .. } => DecisionCommand::SetTrailingStop,
        DecisionStage::Done => DecisionCommand::Idle,
    }
}

/// First step: HOLD is recorded and ignored, an action without an order side
/// is an error, anything else waits on the operator controls.
pub open spec fn begin_spec(ctx: DecisionContext) -> (DecisionStage, DecisionCommand) {
    match ctx.kind {
        ActionKind::Hold => (
            DecisionStage::Done,
            finish(AuditStatus::IgnoredHold, OrderRef::NoOrder, ErrorNote::NoError),
        ),
        ActionKind::Unsupported => (
            DecisionStage::Done,
            finish(AuditStatus::Error, OrderRef::NoOrder, ErrorNote::UnsupportedAction),
        ),
        _ => (DecisionStage::AwaitControls, DecisionCommand::FetchControls),
    }
}

pub open spec fn paper_close_status(o: CloseOutcome) -> AuditStatus {
    match o {
        CloseOutcome::Closed => AuditStatus::PaperClose,
        CloseOutcome::Partial => AuditStatus::PaperClosePartial,
        CloseOutcome::QtyExceedsOpen => AuditStatus::PaperCloseQtyExceedsOpen,
        CloseOutcome::NoLocalOpen => AuditStatus::PaperCloseNoLocalOpen,
        CloseOutcome::Failed => AuditStatus::PaperCloseNoPersist,
    }
}

pub open spec fn live_close_status(o: CloseOutcome) -> AuditStatus {
    match o {
        CloseOutcome::Closed => AuditStatus::SubmittedClose,
        CloseOutcome::Partial => AuditStatus::SubmittedClosePartial,
        CloseOutcome::QtyExceedsOpen => AuditStatus::SubmittedCloseQtyExceedsOpen,
        CloseOutcome::NoLocalOpen => AuditStatus::SubmittedCloseNoLocalOpen,
        CloseOutcome::Failed => AuditStatus::SubmittedCloseNoPersist,
    }
}

/// After the controls: disabled executor and kill switch block entries
/// only; the allowlist blocks live orders; paper closes reconcile locally,
/// paper entries go through the guards, live orders need credentials.
pub open spec fn after_controls(ctx: DecisionContext, enabled: bool, kill: bool) -> (
    DecisionStage,
    DecisionCommand,
) {
    let close = is_close_kind(ctx.kind);
    if !enabled && !close {
        (
            DecisionStage::Done,
            finish(AuditStatus::BlockedExecutorDisabled, OrderRef::NoOrder, ErrorNote::NoError),
        )
    } else if kill && !close {
        (
            DecisionStage::Done,
            finish(AuditStatus::BlockedKillSwitch, OrderRef::NoOrder, ErrorNote::NoError),
        )
    } else if ctx.live_orders_enabled && !ctx.symbol_allowed_live {
        (
            DecisionStage::Done,
            finish(AuditStatus::BlockedSymbolAllowlist, OrderRef::NoOrder, ErrorNote::NoError),
        )
    } else if !ctx.live_orders_enabled {
        if close {
            (DecisionStage::AwaitPaperClose, DecisionCommand::ReconcilePaperClose)
        } else {
            (DecisionStage::AwaitOpenSide, DecisionCommand::QueryOpenSide)
        }
    } else if !ctx.has_credentials {
        (
            DecisionStage::Done,
            finish(AuditStatus::Error, OrderRef::NoOrder, ErrorNote::MissingCredentials),
        )
    } else {
        (DecisionStage::AwaitSubmit, DecisionCommand::SubmitOrder)
    }
}

pub open spec fn requested_side(k: ActionKind) -> PositionSide {
    match k {
        ActionKind::Enter(s) => s,
        ActionKind::Close(s) => s,
        _ => PositionSide::Long,
    }
}

pub open spec fn step_spec(ctx: DecisionContext, stage: DecisionStage, ev: DecisionEvent) -> (
    DecisionStage,
    DecisionCommand,
) {
    let stay = (stage, pending_spec(stage));
    match stage {
        DecisionStage::AwaitControls => match ev {
            DecisionEvent::Controls { executor_enabled, kill_switch_enabled } => after_controls(
                ctx,
                executor_enabled,
                kill_switch_enabled,
            ),
            _ => stay,
        },
        DecisionStage::AwaitPaperClose => match ev {
            DecisionEvent::CloseReconciled(o) => (
                DecisionStage::Done,
                finish(paper_close_status(o), OrderRef::Paper, ErrorNote::NoError),
            ),
            _ => stay,
        },
        DecisionStage::AwaitOpenSide => match ev {
            DecisionEvent::OpenSide(r) => match r {
                None => (
                    DecisionStage::Done,
                    finish(
                        AuditStatus::PaperOpenGuardError,
                        OrderRef::Paper,
                        ErrorNote::PaperGuardQueryFailed,
                    ),
                ),
                Some(Some(existing)) => (
                    DecisionStage::Done,
                    finish(
                        if existing == requested_side(ctx.kind) {
                            AuditStatus::PaperOpenBlockedExistingOpen
                        } else {
                            AuditStatus::PaperOpenBlockedOppositeOpen
                        },
                        OrderRef::Paper,
                        ErrorNote::NoError,
                    ),
                ),
                Some(None) => (DecisionStage::AwaitOpenCount, DecisionCommand::CountOpenTrades),
            },
            _ => stay,
        },
        DecisionStage::AwaitOpenCount => match ev {
            DecisionEvent::OpenCount(r) => match r {
                None => (
                    DecisionStage::Done,
                    finish(
                        AuditStatus::PaperOpenGuardError,
                        OrderRef::Paper,
                        ErrorNote::PaperMaxOpenGuardQueryFailed,
                    ),
                ),
                Some(n) => if n >= ctx.max_open_positions {
                    (
                        DecisionStage::Done,
                        finish(
                            AuditStatus::PaperOpenBlockedMaxOpenPositions,
                            OrderRef::Paper,
                            ErrorNote::NoError,
                        ),
                    )
                } else {
                    (DecisionStage::AwaitConstraints, DecisionCommand::CheckConstraints)
                },
            },
            _ => stay,
        },
        DecisionStage::AwaitConstraints => match ev {
            DecisionEvent::Constraints(c) => match c {
                ConstraintsOutcome::Unavailable => (
                    DecisionStage::Done,
                    finish(
                        AuditStatus::PaperOpenBlockedConstraintsUnavailable,
                        OrderRef::Paper,
                        ErrorNote::SymbolConstraintsUnavailable,
                    ),
                ),
                ConstraintsOutcome::Rejected(msg) => (
                    DecisionStage::Done,
                    finish(
                        AuditStatus::PaperOpenBlockedConstraints,
                        OrderRef::Paper,
                        ErrorNote::ConstraintRejected(msg),
                    ),
                ),
                ConstraintsOutcome::Accepted => (
                    DecisionStage::AwaitMargin,
                    DecisionCommand::CheckMargin,
                ),
            },
            _ => stay,
        },
        DecisionStage::AwaitMargin => match ev {
            DecisionEvent::Margin(m) => match m {
                MarginOutcome::QueryFailed => (
                    DecisionStage::Done,
                    finish(
                        AuditStatus::PaperOpenGuardError,
                        OrderRef::Paper,
                        ErrorNote::MarginQueryFailed,
                    ),
                ),
                MarginOutcome::Insufficient(msg) => (
                    DecisionStage::Done,
                    finish(
                        AuditStatus::PaperOpenBlockedInsufficientMargin,
                        OrderRef::Paper,
                        ErrorNote::InsufficientMargin(msg),
                    ),
                ),
                MarginOutcome::Sufficient => (
                    DecisionStage::AwaitPaperPersist,
                    DecisionCommand::FillAndPersistPaperEntry,
                ),
            },
            _ => stay,
        },
        DecisionStage::AwaitPaperPersist => match ev {
            DecisionEvent::Persisted(ok) => (
                DecisionStage::Done,
                finish(
                    if ok {
                        AuditStatus::PaperOpen
                    } else {
                        AuditStatus::PaperOpenNoPersist
                    },
                    OrderRef::Paper,
                    ErrorNote::NoError,
                ),
            ),
            _ => stay,
        },
        DecisionStage::AwaitSubmit => match ev {
            DecisionEvent::Submitted(r) => match r {
                Ok(order_id) => if is_close_kind(ctx.kind) {
                    (
                        DecisionStage::AwaitLiveClose { order_id },
                        DecisionCommand::ReconcileLiveClose,
                    )
                } else {
                    (
                        DecisionStage::AwaitLivePersist { order_id },
                        DecisionCommand::PersistLiveEntry,
                    )
                },
                Err(msg) => (
                    DecisionStage::Done,
                    finish(AuditStatus::Error, OrderRef::NoOrder, ErrorNote::SubmitFailed(msg)),
                ),
            },
            _ => stay,
        },
        DecisionStage::AwaitLiveClose { order_id } => match ev {
            DecisionEvent::CloseReconciled(o) => (
                DecisionStage::Done,
                finish(live_close_status(o), OrderRef::Live(order_id), ErrorNote::NoError),
            ),
            _ => stay,
        },
        DecisionStage::AwaitLivePersist { order_id } => match ev {
            DecisionEvent::Persisted(ok) => (
                DecisionStage::AwaitTrailing { order_id, persisted: ok },
                DecisionCommand::SetTrailingStop,
            ),
            _ => stay,
        },
        DecisionStage::AwaitTrailing { order_id, persisted } => match ev {
            DecisionEvent::TrailingSet(ok) => (
                DecisionStage::Done,
                finish(
                    if !persisted {
                        AuditStatus::SubmittedNoPersist
                    } else if !ok {
                        AuditStatus::SubmittedTrailingNotSet
                    } else {
                        AuditStatus::Submitted
                    },
                    OrderRef::Live(order_id),
                    ErrorNote::NoError,
                ),
            ),
            _ => stay,
        },
        DecisionStage::Done => stay,
    }
}

fn fin(status: AuditStatus, order: OrderRef, error: ErrorNote) -> (r: DecisionCommand)
    ensures
        r == finish(status, order, error),
{
    DecisionCommand::Finish(Outcome { status, order, error })
}

/// The command a stage waits on.
pub fn pending(stage: &DecisionStage) -> (r: DecisionCommand)
    ensures
        r == pending_spec(*stage),
{
    match stage {
        DecisionStage::AwaitControls => DecisionCommand::FetchControls,
        DecisionStage::AwaitPaperClose => DecisionCommand::ReconcilePaperClose,
        DecisionStage::AwaitOpenSide => DecisionCommand::QueryOpenSide,
        DecisionStage::AwaitOpenCount => DecisionCommand::CountOpenTrades,
        DecisionStage::AwaitConstraints => DecisionCommand::CheckConstraints,
        DecisionStage::AwaitMargin => DecisionCommand::CheckMargin,
        DecisionStage::AwaitPaperPersist => DecisionCommand::FillAndPersistPaperEntry,
        DecisionStage::AwaitSubmit => DecisionCommand::SubmitOrder,
        DecisionStage::AwaitLiveClose { .. } => DecisionCommand::ReconcileLiveClose,
        DecisionStage::AwaitLivePersist { .. } => DecisionCommand::PersistLiveEntry,
        DecisionStage::AwaitTrailing { .. } => DecisionCommand::SetTrailingStop,
        DecisionStage::Done => DecisionCommand::Idle,
    }
}

/// Starts the flow for a decision.
pub fn begin(ctx: &DecisionContext) -> (r: (DecisionStage, DecisionCommand))
    ensures
        r == begin_spec(*ctx),
{
    match ctx.kind {
        ActionKind::Hold => (
            DecisionStage::Done,
            fin(AuditStatus::IgnoredHold, OrderRef::NoOrder, ErrorNote::NoError),
        ),
        ActionKind::Unsupported => (
            DecisionStage::Done,
            fin(AuditStatus::Error, OrderRef::NoOrder, ErrorNote::UnsupportedAction),
        ),
        _ => (DecisionStage::AwaitControls, DecisionCommand::FetchControls),
    }
}

fn close_kind(k: ActionKind) -> (r: bool)
    ensures
        r == is_close_kind(k),
{
    match k {
        ActionKind::Close(_) => true,
        _ => false,
    }
}

fn side_eq(a: PositionSide, b: PositionSide) -> (r: bool)
    ensures
        r == (a == b),
{
    match (a, b) {
        (PositionSide::Long, PositionSide::Long) => true,
        (PositionSide::Short, PositionSide::Short) => true,
        _ => false,
    }
}

fn requested(k: ActionKind) -> (r: PositionSide)
    ensures
        r == requested_side(k),
{
    match k {
        ActionKind::Enter(s) => s,
        ActionKind::Close(s) => s,
        _ => PositionSide::Long,
    }
}

fn controls_step(ctx: &DecisionContext, enabled: bool, kill: bool) -> (r: (
    DecisionStage,
    DecisionCommand,
))
    ensures
        r == after_controls(*ctx, enabled, kill),
{
    let close = close_kind(ctx.kind);
    if !enabled && !close {
        (
            DecisionStage::Done,
            fin(AuditStatus::BlockedExecutorDisabled, OrderRef::NoOrder, ErrorNote::NoError),
        )
    } else if kill && !close {
        (
            DecisionStage::Done,
            fin(AuditStatus::BlockedKillSwitch, OrderRef::NoOrder, ErrorNote::NoError),
        )
    } else if ctx.live_orders_enabled && !ctx.symbol_allowed_live {
        (
            DecisionStage::Done,
            fin(AuditStatus::BlockedSymbolAllowlist, OrderRef::NoOrder, ErrorNote::NoError),
        )
    } else if !ctx.live_orders_enabled {
        if close {
            (DecisionStage::AwaitPaperClose, DecisionCommand::ReconcilePaperClose)
        } else {
            (DecisionStage::AwaitOpenSide, DecisionCommand::QueryOpenSide)
        }
    } else if !ctx.has_credentials {
        (
            DecisionStage::Done,
            fin(AuditStatus::Error, OrderRef::NoOrder, ErrorNote::MissingCredentials),
        )
    } else {
        (DecisionStage::AwaitSubmit, DecisionCommand::SubmitOrder)
    }
}

fn paper_close(o: CloseOutcome) -> (r: AuditStatus)
    ensures
        r == paper_close_status(o),
{
    match o {
        CloseOutcome::Closed => AuditStatus::PaperClose,
        CloseOutcome::Partial => AuditStatus::PaperClosePartial,
        CloseOutcome::QtyExceedsOpen => AuditStatus::PaperCloseQtyExceedsOpen,
        CloseOutcome::NoLocalOpen => AuditStatus::PaperCloseNoLocalOpen,
        CloseOutcome::Failed => AuditStatus::PaperCloseNoPersist,
    }
}

fn live_close(o: CloseOutcome) -> (r: AuditStatus)
    ensures
        r == live_close_status(o),
{
    match o {
        CloseOutcome::Closed => AuditStatus::SubmittedClose,
        CloseOutcome::Partial => AuditStatus::SubmittedClosePartial,
        CloseOutcome::QtyExceedsOpen => AuditStatus::SubmittedCloseQtyExceedsOpen,
        CloseOutcome::NoLocalOpen => AuditStatus::SubmittedCloseNoLocalOpen,
        CloseOutcome::Failed => AuditStatus::SubmittedCloseNoPersist,
    }
}

/// Advances the flow with what the last command produced. An event that
/// does not answer the stage's pending command leaves the stage as it is
/// and asks for that command again.
pub fn step(ctx: &DecisionContext, stage: DecisionStage, ev: DecisionEvent) -> (r: (
    DecisionStage,
    DecisionCommand,
))
    ensures
        r == step_spec(*ctx, stage, ev),
{
    match stage {
        DecisionStage::AwaitControls => match ev {
            DecisionEvent::Controls { executor_enabled, kill_switch_enabled } => controls_step(
                ctx,
                executor_enabled,
                kill_switch_enabled,
            ),
            _ => (DecisionStage::AwaitControls, DecisionCommand::FetchControls),
        },
        DecisionStage::AwaitPaperClose => match ev {
            DecisionEvent::CloseReconciled(o) => (
                DecisionStage::Done,
                fin(paper_close(o), OrderRef::Paper, ErrorNote::NoError),
            ),
            _ => (DecisionStage::AwaitPaperClose, DecisionCommand::ReconcilePaperClose),
        },
        DecisionStage::AwaitOpenSide => match ev {
            DecisionEvent::OpenSide(r) => match r {
                None => (
                    DecisionStage::Done,
                    fin(
                        AuditStatus::PaperOpenGuardError,
                        OrderRef::Paper,
                        ErrorNote::PaperGuardQueryFailed,
                    ),
                ),
                Some(Some(existing)) => {
                    let status = if side_eq(existing, requested(ctx.kind)) {
                        AuditStatus::PaperOpenBlockedExistingOpen
                    } else {
                        AuditStatus::PaperOpenBlockedOppositeOpen
                    };
                    (DecisionStage::Done, fin(status, OrderRef::Paper, ErrorNote::NoError))
                },
                Some(None) => (DecisionStage::AwaitOpenCount, DecisionCommand::CountOpenTrades),
            },
            _ => (DecisionStage::AwaitOpenSide, DecisionCommand::QueryOpenSide),
        },
        DecisionStage::AwaitOpenCount => match ev {
            DecisionEvent::OpenCount(r) => match r {
                None => (
                    DecisionStage::Done,
                    fin(
                        AuditStatus::PaperOpenGuardError,
                        OrderRef::Paper,
                        ErrorNote::PaperMaxOpenGuardQueryFailed,
                    ),
                ),
                Some(n) => if n >= ctx.max_open_positions {
                    (
                        DecisionStage::Done,
                        fin(
                            AuditStatus::PaperOpenBlockedMaxOpenPositions,
                            OrderRef::Paper,
                            ErrorNote::NoError,
                        ),
                    )
                } else {
                    (DecisionStage::AwaitConstraints, DecisionCommand::CheckConstraints)
                },
            },
            _ => (DecisionStage::AwaitOpenCount, DecisionCommand::CountOpenTrades),
        },
        DecisionStage::AwaitConstraints => match ev {
            DecisionEvent::Constraints(c) => match c {
                ConstraintsOutcome::Unavailable => (
                    DecisionStage::Done,
                    fin(
                        AuditStatus::PaperOpenBlockedConstraintsUnavailable,
                        OrderRef::Paper,
                        ErrorNote::SymbolConstraintsUnavailable,
                    ),
                ),
                ConstraintsOutcome::Rejected(msg) => (
                    DecisionStage::Done,
                    fin(
                        AuditStatus::PaperOpenBlockedConstraints,
                        OrderRef::Paper,
                        ErrorNote::ConstraintRejected(msg),
                    ),
                ),
                ConstraintsOutcome::Accepted => (
                    DecisionStage::AwaitMargin,
                    DecisionCommand::CheckMargin,
                ),
            },
            _ => (DecisionStage::AwaitConstraints, DecisionCommand::CheckConstraints),
        },
        DecisionStage::AwaitMargin => match ev {
            DecisionEvent::Margin(m) => match m {
                MarginOutcome::QueryFailed => (
                    DecisionStage::Done,
                    fin(
                        AuditStatus::PaperOpenGuardError,
                        OrderRef::Paper,
                        ErrorNote::MarginQueryFailed,
                    ),
                ),
                MarginOutcome::Insufficient(msg) => (
                    DecisionStage::Done,
                    fin(
                        AuditStatus::PaperOpenBlockedInsufficientMargin,
                        OrderRef::Paper,
                        ErrorNote::InsufficientMargin(msg),
                    ),
                ),
                MarginOutcome::Sufficient => (
                    DecisionStage::AwaitPaperPersist,
                    DecisionCommand::FillAndPersistPaperEntry,
                ),
            },
            _ => (DecisionStage::AwaitMargin, DecisionCommand::CheckMargin),
        },
        DecisionStage::AwaitPaperPersist => match ev {
            DecisionEvent::Persisted(ok) => {
                let status = if ok {
                    AuditStatus::PaperOpen
                } else {
                    AuditStatus::PaperOpenNoPersist
                };
                (DecisionStage::Done, fin(status, OrderRef::Paper, ErrorNote::NoError))
            },
            _ => (DecisionStage::AwaitPaperPersist, DecisionCommand::FillAndPersistPaperEntry),
        },
        DecisionStage::AwaitSubmit => match ev {
            DecisionEvent::Submitted(r) => match r {
                Ok(order_id) => if close_kind(ctx.kind) {
                    (
                        DecisionStage::AwaitLiveClose { order_id },
                        DecisionCommand::ReconcileLiveClose,
                    )
                } else {
                    (
                        DecisionStage::AwaitLivePersist { order_id },
                        DecisionCommand::PersistLiveEntry,
                    )
                },
                Err(msg) => (
                    DecisionStage::Done,
                    fin(AuditStatus::Error, OrderRef::NoOrder, ErrorNote::SubmitFailed(msg)),
                ),
            },
            _ => (DecisionStage::AwaitSubmit, DecisionCommand::SubmitOrder),
        },
        DecisionStage::AwaitLiveClose { order_id } => match ev {
            DecisionEvent::CloseReconciled(o) => (
                DecisionStage::Done,
                fin(live_close(o), OrderRef::Live(order_id), ErrorNote::NoError),
            ),
            _ => (DecisionStage::AwaitLiveClose { order_id }, DecisionCommand::ReconcileLiveClose),
        },
        DecisionStage::AwaitLivePersist { order_id } => match ev {
            DecisionEvent::Persisted(ok) => (
                DecisionStage::AwaitTrailing { order_id, persisted: ok },
                DecisionCommand::SetTrailingStop,
            ),
            _ => (DecisionStage::AwaitLivePersist { order_id }, DecisionCommand::PersistLiveEntry),
        },
        DecisionStage::AwaitTrailing { order_id, persisted } => match ev {
            DecisionEvent::TrailingSet(ok) => {
                let status = if !persisted {
                    AuditStatus::SubmittedNoPersist
                } else if !ok {
                    AuditStatus::SubmittedTrailingNotSet
                } else {
                    AuditStatus::Submitted
                };
                (DecisionStage::Done, fin(status, OrderRef::Live(order_id), ErrorNote::NoError))
            },
            _ => (
                DecisionStage::AwaitTrailing { order_id, persisted },
                DecisionCommand::SetTrailingStop,
            ),
        },
        DecisionStage::Done => (DecisionStage::Done, DecisionCommand::Idle),
    }
}

/// The stage reached and the commands issued after feeding `events`, one
/// by one, to a flow started with `begin`.
pub open spec fn run(ctx: DecisionContext, events: Seq<DecisionEvent>) -> (
    DecisionStage,
    Seq<DecisionCommand>,
)
    decreases events.len(),
{
    if events.len() == 0 {
        let (s, c) = begin_spec(ctx);
        (s, seq![c])
    } else {
        let (s, cs) = run(ctx, events.drop_last());
        let (s2, c2) = step_spec(ctx, s, events.last());
        (s2, cs.push(c2))
    }
}

/// A HOLD decision is recorded as ignored at once.
pub proof fn law_hold_is_ignored(ctx: DecisionContext)
    requires
        ctx.kind == ActionKind::Hold,
    ensures
        begin_spec(ctx) == (
            DecisionStage::Done,
            finish(AuditStatus::IgnoredHold, OrderRef::NoOrder, ErrorNote::NoError),
        ),
{
}

/// Closing a position is never blocked by the executor switch or the kill
/// switch.
pub proof fn law_close_passes_operator_controls(ctx: DecisionContext, enabled: bool, kill: bool)
    requires
        ctx.kind is Close,
    ensures
        after_controls(ctx, enabled, kill).1 != finish(
            AuditStatus::BlockedExecutorDisabled,
            OrderRef::NoOrder,
            ErrorNote::NoError,
        ),
        after_controls(ctx, enabled, kill).1 != finish(
            AuditStatus::BlockedKillSwitch,
            OrderRef::NoOrder,
            ErrorNote::NoError,
        ),
{
}

/// The events report `n` open trades.
pub open spec fn saw_count(events: Seq<DecisionEvent>, n: i64) -> bool {
    events.contains(DecisionEvent::OpenCount(Some(n)))
}

/// Guards that a paper entry passed, as the events show them.
pub open spec fn entry_guards_passed(ctx: DecisionContext, events: Seq<DecisionEvent>) -> bool {
    &&& events.contains(DecisionEvent::OpenSide(Some(None)))
    &&& exists|n: i64|
        n < ctx.max_open_positions && #[trigger] saw_count(events, n)
    &&& events.contains(DecisionEvent::Constraints(ConstraintsOutcome::Accepted))
    &&& events.contains(DecisionEvent::Margin(MarginOutcome::Sufficient))
}

pub open spec fn is_live_stage(s: DecisionStage) -> bool {
    s is AwaitSubmit || s is AwaitLiveClose || s is AwaitLivePersist || s is AwaitTrailing
}

pub open spec fn is_paper_entry_stage(s: DecisionStage) -> bool {
    s is AwaitOpenSide || s is AwaitOpenCount || s is AwaitConstraints || s is AwaitMargin
        || s is AwaitPaperPersist
}

/// What the events so far must contain, for the stage that a run reached.
pub open spec fn run_inv(ctx: DecisionContext, events: Seq<DecisionEvent>, s: DecisionStage) -> bool {
    &&& (s is AwaitOpenCount || s is AwaitConstraints || s is AwaitMargin || s is AwaitPaperPersist)
        ==> events.contains(DecisionEvent::OpenSide(Some(None)))
    &&& (s is AwaitConstraints || s is AwaitMargin || s is AwaitPaperPersist) ==> exists|n: i64|
        n < ctx.max_open_positions && #[trigger] saw_count(events, n)
    &&& (s is AwaitMargin || s is AwaitPaperPersist) ==> events.contains(
        DecisionEvent::Constraints(ConstraintsOutcome::Accepted),
    )
    &&& s is AwaitPaperPersist ==> events.contains(DecisionEvent::Margin(MarginOutcome::Sufficient))
    &&& is_live_stage(s) ==> ctx.live_orders_enabled && ctx.symbol_allowed_live
        && ctx.has_credentials
    &&& is_paper_entry_stage(s) ==> !ctx.live_orders_enabled && ctx.kind is Enter
    &&& s is AwaitControls ==> (ctx.kind is Enter || ctx.kind is Close)
}

pub proof fn lemma_run_inv(ctx: DecisionContext, events: Seq<DecisionEvent>)
    ensures
        run_inv(ctx, events, run(ctx, events).0),
        forall|i: int|
            0 <= i < run(ctx, events).1.len() && run(ctx, events).1[i]
                == DecisionCommand::FillAndPersistPaperEntry ==> entry_guards_passed(ctx, events),
        forall|i: int|
            0 <= i < run(ctx, events).1.len() && #[trigger] run(ctx, events).1[i]
                == DecisionCommand::SubmitOrder ==> ctx.live_orders_enabled && ctx.symbol_allowed_live
                && ctx.has_credentials,
    decreases events.len(),
{
    if events.len() > 0 {
        let prev = events.drop_last();
        let e = events.last();
        lemma_run_inv(ctx, prev);
        let (s, cs) = run(ctx, prev);
        assert(events == prev.push(e));
        assert forall|x: DecisionEvent| prev.contains(x) implies events.contains(x) by {
            let j = choose|j: int| 0 <= j < prev.len() && prev[j] == x;
            assert(events[j] == x);
        }
        assert(events.contains(e)) by {
            assert(events[events.len() - 1] == e);
        }
        let (s2, c2) = step_spec(ctx, s, e);
        assert(run(ctx, events) == (s2, cs.push(c2)));
        if s is AwaitOpenCount || s is AwaitConstraints || s is AwaitMargin || s is AwaitPaperPersist {
            assert(events.contains(DecisionEvent::OpenSide(Some(None))));
        }
        if s is AwaitConstraints || s is AwaitMargin || s is AwaitPaperPersist {
            let n = choose|n: i64|
                n < ctx.max_open_positions && #[trigger] saw_count(prev, n);
            assert(saw_count(events, n));
        }
        if s is AwaitOpenCount {
            if let DecisionEvent::OpenCount(Some(n)) = e {
                if n < ctx.max_open_positions {
                    assert(saw_count(events, n));
                }
            }
        }
        assert forall|i: int|
            0 <= i < run(ctx, events).1.len() && run(ctx, events).1[i]
                == DecisionCommand::FillAndPersistPaperEntry implies entry_guards_passed(
            ctx,
            events,
        ) by {
            if i < cs.len() {
                assert(cs[i] == DecisionCommand::FillAndPersistPaperEntry);
                let n = choose|n: i64|
                    n < ctx.max_open_positions && #[trigger] saw_count(prev, n);
                assert(saw_count(events, n));
            } else {
                if s is AwaitPaperPersist {
                    let n = choose|n: i64|
                        n < ctx.max_open_positions && #[trigger] saw_count(prev, n);
                    assert(saw_count(events, n));
                } else {
                    assert(s is AwaitMargin);
                    let n = choose|n: i64|
                        n < ctx.max_open_positions && #[trigger] saw_count(prev, n);
                    assert(saw_count(events, n));
                }
            }
        }
        assert forall|i: int|
            0 <= i < run(ctx, events).1.len() && #[trigger] run(ctx, events).1[i]
                == DecisionCommand::SubmitOrder implies ctx.live_orders_enabled
            && ctx.symbol_allowed_live && ctx.has_credentials by {
            if i < cs.len() {
                assert(cs[i] == DecisionCommand::SubmitOrder);
            }
        }
    }
}

/// A paper entry is filled and persisted only after the symbol was found
/// free of open positions, the open-position count was under the limit,
/// the exchange constraints accepted the quantity and the margin sufficed.
pub proof fn law_paper_entry_persisted_only_after_guards(
    ctx: DecisionContext,
    events: Seq<DecisionEvent>,
    i: int,
)
    requires
        0 <= i < run(ctx, events).1.len(),
        run(ctx, events).1[i] == DecisionCommand::FillAndPersistPaperEntry,
    ensures
        entry_guards_passed(ctx, events),
{
    lemma_run_inv(ctx, events);
}

/// An order reaches the exchange only in live mode, for an allowed symbol,
/// with credentials.
pub proof fn law_orders_only_when_live(ctx: DecisionContext, events: Seq<DecisionEvent>, i: int)
    requires
        0 <= i < run(ctx, events).1.len(),
        run(ctx, events).1[i] == DecisionCommand::SubmitOrder,
    ensures
        ctx.live_orders_enabled,
        ctx.symbol_allowed_live,
        ctx.has_credentials,
{
    lemma_run_inv(ctx, events);
}

/// The flow that the events after a blocked entry's controls see: finished,
/// issuing nothing.
proof fn lemma_blocked_entry_stays_done(
    ctx: DecisionContext,
    enabled: bool,
    kill: bool,
    rest: Seq<DecisionEvent>,
)
    requires
        ctx.kind is Enter,
        !enabled || kill,
    ensures
        run(ctx, seq![DecisionEvent::Controls { executor_enabled: enabled, kill_switch_enabled: kill }] + rest).0
            == DecisionStage::Done,
        run(ctx, seq![DecisionEvent::Controls { executor_enabled: enabled, kill_switch_enabled: kill }] + rest).1
            == seq![DecisionCommand::FetchControls, after_controls(ctx, enabled, kill).1]
            + Seq::new(rest.len(), |i: int| DecisionCommand::Idle),
    decreases rest.len(),
{
    let c = DecisionEvent::Controls { executor_enabled: enabled, kill_switch_enabled: kill };
    let ev = seq![c] + rest;
    if rest.len() == 0 {
        assert(ev == seq![c]);
        assert(ev.drop_last() =~= Seq::<DecisionEvent>::empty());
        assert(run(ctx, ev.drop_last()).1 =~= seq![DecisionCommand::FetchControls]);
        assert(run(ctx, ev).1 =~= seq![DecisionCommand::FetchControls, after_controls(
            ctx,
            enabled,
            kill,
        ).1] + Seq::new(0, |i: int| DecisionCommand::Idle));
    } else {
        lemma_blocked_entry_stays_done(ctx, enabled, kill, rest.drop_last());
        assert(ev.drop_last() =~= seq![c] + rest.drop_last());
        assert(run(ctx, ev).1 =~= seq![DecisionCommand::FetchControls, after_controls(
            ctx,
            enabled,
            kill,
        ).1] + Seq::new(rest.len(), |i: int| DecisionCommand::Idle));
    }
}

/// With the executor switched off or the kill switch on, an entry is
/// refused: it never reaches the exchange or the paper book, whatever is
/// reported afterwards.
pub proof fn law_blocked_entry_never_trades(
    ctx: DecisionContext,
    enabled: bool,
    kill: bool,
    rest: Seq<DecisionEvent>,
    i: int,
)
    requires
        ctx.kind is Enter,
        !enabled || kill,
        0 <= i < run(
            ctx,
            seq![DecisionEvent::Controls { executor_enabled: enabled, kill_switch_enabled: kill }]
                + rest,
        ).1.len(),
    ensures
        ({
            let cmd = run(
                ctx,
                seq![DecisionEvent::Controls { executor_enabled: enabled, kill_switch_enabled: kill }]
                    + rest,
            ).1[i];
            &&& cmd != DecisionCommand::SubmitOrder
            &&& cmd != DecisionCommand::FillAndPersistPaperEntry
        }),
{
    lemma_blocked_entry_stays_done(ctx, enabled, kill, rest);
    let cs = seq![DecisionCommand::FetchControls, after_controls(ctx, enabled, kill).1] + Seq::new(
        rest.len(),
        |j: int| DecisionCommand::Idle,
    );
    if i >= 2 {
        assert(cs[i] == DecisionCommand::Idle);
    } else if i == 1 {
        assert(cs[1] == after_controls(ctx, enabled, kill).1);
    } else {
        assert(cs[0] == DecisionCommand::FetchControls);
    }
}

/// A live close whose order the exchange accepts goes on to reconcile the
/// local close, and is audited with the order id and the status of that
/// reconciliation (`submitted_close` when it closed fully); a live entry
/// whose order is accepted is persisted as a new trade instead.
pub proof fn law_accepted_live_order_next_step(
    ctx: DecisionContext,
    order_id: String,
    o: CloseOutcome,
)
    ensures
        ctx.kind is Close ==> step_spec(
            ctx,
            DecisionStage::AwaitSubmit,
            DecisionEvent::Submitted(Ok(order_id)),
        ) == (DecisionStage::AwaitLiveClose { order_id }, DecisionCommand::ReconcileLiveClose),
        !(ctx.kind is Close) ==> step_spec(
            ctx,
            DecisionStage::AwaitSubmit,
            DecisionEvent::Submitted(Ok(order_id)),
        ) == (DecisionStage::AwaitLivePersist { order_id }, DecisionCommand::PersistLiveEntry),
        step_spec(
            ctx,
            DecisionStage::AwaitLiveClose { order_id },
            DecisionEvent::CloseReconciled(o),
        ) == (
            DecisionStage::Done,
            DecisionCommand::Finish(
                Outcome {
                    status: match o {
                        CloseOutcome::Closed => AuditStatus::SubmittedClose,
                        CloseOutcome::Partial => AuditStatus::SubmittedClosePartial,
                        CloseOutcome::QtyExceedsOpen => AuditStatus::SubmittedCloseQtyExceedsOpen,
                        CloseOutcome::NoLocalOpen => AuditStatus::SubmittedCloseNoLocalOpen,
                        CloseOutcome::Failed => AuditStatus::SubmittedCloseNoPersist,
                    },
                    order: OrderRef::Live(order_id),
                    error: ErrorNote::NoError,
                },
            ),
        ),
{
}

/// The stage a closing decision can never be in.
pub open spec fn entry_only_stage(s: DecisionStage) -> bool {
    s is AwaitLivePersist || s is AwaitTrailing || s is AwaitOpenSide || s is AwaitOpenCount
        || s is AwaitConstraints || s is AwaitMargin || s is AwaitPaperPersist
}

/// A command that only an entry issues.
pub open spec fn entry_only_command(c: DecisionCommand) -> bool {
    c == DecisionCommand::PersistLiveEntry || c == DecisionCommand::SetTrailingStop
        || c == DecisionCommand::FillAndPersistPaperEntry || c == DecisionCommand::QueryOpenSide
}

proof fn lemma_close_run(ctx: DecisionContext, events: Seq<DecisionEvent>)
    requires
        ctx.kind is Close,
    ensures
        !entry_only_stage(run(ctx, events).0),
        forall|i: int|
            0 <= i < run(ctx, events).1.len() ==> !entry_only_command(
                #[trigger] run(ctx, events).1[i],
            ),
    decreases events.len(),
{
    if events.len() > 0 {
        let prev = events.drop_last();
        lemma_close_run(ctx, prev);
        let (s, cs) = run(ctx, prev);
        let (s2, c2) = step_spec(ctx, s, events.last());
        assert(run(ctx, events) == (s2, cs.push(c2)));
        assert forall|i: int| 0 <= i < run(ctx, events).1.len() implies !entry_only_command(
            #[trigger] run(ctx, events).1[i],
        ) by {
            if i < cs.len() {
                assert(run(ctx, events).1[i] == cs[i]);
            }
        }
    }
}

/// A decision to close a position never persists a new trade, never sets
/// a trailing stop and never runs the entry guards, whatever the services
/// report: in live mode an accepted close order is reconciled against the
/// local open trade.
pub proof fn law_close_never_acts_as_entry(ctx: DecisionContext, events: Seq<DecisionEvent>, i: int)
    requires
        ctx.kind is Close,
        0 <= i < run(ctx, events).1.len(),
    ensures
        run(ctx, events).1[i] != DecisionCommand::PersistLiveEntry,
        run(ctx, events).1[i] != DecisionCommand::SetTrailingStop,
        run(ctx, events).1[i] != DecisionCommand::FillAndPersistPaperEntry,
{
    lemma_close_run(ctx, events);
}

/// Where the operator controls send a decision: a disabled executor or the
/// kill switch stop entries (never closes); in live mode a symbol off the
/// allowlist is blocked and missing credentials are an error; a paper close
/// reconciles the local book, a paper entry runs the guards, and a live
/// order is submitted.
pub proof fn law_routing_after_controls(ctx: DecisionContext, enabled: bool, kill: bool)
    requires
        ctx.kind is Enter || ctx.kind is Close,
    ensures
        ({
            let r = after_controls(ctx, enabled, kill);
            let close = ctx.kind is Close;
            let blocked_entry = !close && (!enabled || kill);
            &&& !close && !enabled ==> r == (
                DecisionStage::Done,
                DecisionCommand::Finish(
                    Outcome {
                        status: AuditStatus::BlockedExecutorDisabled,
                        order: OrderRef::NoOrder,
                        error: ErrorNote::NoError,
                    },
                ),
            )
            &&& !close && enabled && kill ==> r == (
                DecisionStage::Done,
                DecisionCommand::Finish(
                    Outcome {
                        status: AuditStatus::BlockedKillSwitch,
                        order: OrderRef::NoOrder,
                        error: ErrorNote::NoError,
                    },
                ),
            )
            &&& !blocked_entry && ctx.live_orders_enabled && !ctx.symbol_allowed_live ==> r == (
                DecisionStage::Done,
                DecisionCommand::Finish(
                    Outcome {
                        status: AuditStatus::BlockedSymbolAllowlist,
                        order: OrderRef::NoOrder,
                        error: ErrorNote::NoError,
                    },
                ),
            )
            &&& !blocked_entry && !ctx.live_orders_enabled && close ==> r == (
                DecisionStage::AwaitPaperClose,
                DecisionCommand::ReconcilePaperClose,
            )
            &&& !blocked_entry && !ctx.live_orders_enabled && !close ==> r == (
                DecisionStage::AwaitOpenSide,
                DecisionCommand::QueryOpenSide,
            )
            &&& !blocked_entry && ctx.live_orders_enabled && ctx.symbol_allowed_live
                && !ctx.has_credentials ==> r == (
                DecisionStage::Done,
                DecisionCommand::Finish(
                    Outcome {
                        status: AuditStatus::Error,
                        order: OrderRef::NoOrder,
                        error: ErrorNote::MissingCredentials,
                    },
                ),
            )
            &&& !blocked_entry && ctx.live_orders_enabled && ctx.symbol_allowed_live
                && ctx.has_credentials ==> r == (DecisionStage::AwaitSubmit, DecisionCommand::SubmitOrder)
        }),
{
}

/// A paper close is audited with the paper order and the status of the
/// local reconciliation (`paper_close` when it closed fully); a live entry
/// ends `submitted` only when it was persisted and its trailing stop set.
pub proof fn law_close_and_entry_outcomes(
    ctx: DecisionContext,
    o: CloseOutcome,
    order_id: String,
    persisted: bool,
    trailing_ok: bool,
)
    ensures
        step_spec(ctx, DecisionStage::AwaitPaperClose, DecisionEvent::CloseReconciled(o)) == (
            DecisionStage::Done,
            DecisionCommand::Finish(
                Outcome {
                    status: match o {
                        CloseOutcome::Closed => AuditStatus::PaperClose,
                        CloseOutcome::Partial => AuditStatus::PaperClosePartial,
                        CloseOutcome::QtyExceedsOpen => AuditStatus::PaperCloseQtyExceedsOpen,
                        CloseOutcome::NoLocalOpen => AuditStatus::PaperCloseNoLocalOpen,
                        CloseOutcome::Failed => AuditStatus::PaperCloseNoPersist,
                    },
                    order: OrderRef::Paper,
                    error: ErrorNote::NoError,
                },
            ),
        ),
        step_spec(
            ctx,
            DecisionStage::AwaitLivePersist { order_id },
            DecisionEvent::Persisted(persisted),
        ) == (
            DecisionStage::AwaitTrailing { order_id, persisted },
            DecisionCommand::SetTrailingStop,
        ),
        step_spec(
            ctx,
            DecisionStage::AwaitTrailing { order_id, persisted },
            DecisionEvent::TrailingSet(trailing_ok),
        ) == (
            DecisionStage::Done,
            DecisionCommand::Finish(
                Outcome {
                    status: if !persisted {
                        AuditStatus::SubmittedNoPersist
                    } else if !trailing_ok {
                        AuditStatus::SubmittedTrailingNotSet
                    } else {
                        AuditStatus::Submitted
                    },
                    order: OrderRef::Live(order_id),
                    error: ErrorNote::NoError,
                },
            ),
        ),
{
}

} // verus!
