use vipertrade::agent::{
    llm_endpoint, parse_usize, provider_model, agent_begin, agent_step, is_known_tool, select_tool_calls, tool_call_candidates, tool_call_id,
    AgentCommand, AgentEnd, AgentEvent, AgentStage,
};
use vipertrade::gate::{
    begin, classify_action, pending, step, ActionKind, AuditStatus, CloseOutcome,
    ConstraintsOutcome, DecisionCommand, DecisionContext, DecisionEvent, DecisionStage, ErrorNote,
    MarginOutcome, OrderRef, Outcome, PositionSide,
};
use vipertrade::recon::{
    reconcile_begin, reconcile_step, reconciliation_action, DriftReading, ReconcileCommand,
    ReconcileContext, ReconcileEvent, ReconcilePolicy, ReconcileRecord, ReconcileStage,
    RecordedDiff, RecordedLocal,
};

fn ctx(action: &str, live: bool) -> DecisionContext {
    DecisionContext {
        kind: classify_action(action),
        live_orders_enabled: live,
        symbol_allowed_live: true,
        has_credentials: true,
        max_open_positions: 3,
    }
}

fn finish(status: AuditStatus, order: OrderRef, error: ErrorNote) -> DecisionCommand {
    DecisionCommand::Finish(Outcome { status, order, error })
}

#[test]
fn actions_are_classified() {
    assert_eq!(classify_action("HOLD"), ActionKind::Hold);
    assert_eq!(classify_action("ENTER_LONG"), ActionKind::Enter(PositionSide::Long));
    assert_eq!(classify_action("CLOSE_SHORT"), ActionKind::Close(PositionSide::Short));
    assert_eq!(classify_action("enter_long"), ActionKind::Unsupported);
    assert_eq!(classify_action("BUY"), ActionKind::Unsupported);
}

#[test]
fn handle_decision_hold_is_ignored() {
    let (stage, cmd) = begin(&ctx("HOLD", false));
    assert_eq!(stage, DecisionStage::Done);
    assert_eq!(cmd, finish(AuditStatus::IgnoredHold, OrderRef::NoOrder, ErrorNote::NoError));
    assert_eq!(AuditStatus::IgnoredHold.as_str(), "ignored_hold");
}

#[test]
fn handle_decision_invalid_action_rejected() {
    let (stage, cmd) = begin(&ctx("YOLO", false));
    assert_eq!(stage, DecisionStage::Done);
    assert_eq!(cmd, finish(AuditStatus::Error, OrderRef::NoOrder, ErrorNote::UnsupportedAction));
}

#[test]
fn paper_entry_passes_every_guard_before_persisting() {
    let c = ctx("ENTER_LONG", false);
    let (s, cmd) = begin(&c);
    assert_eq!(cmd, DecisionCommand::FetchControls);
    let (s, cmd) = step(&c, s, DecisionEvent::Controls { executor_enabled: true, kill_switch_enabled: false });
    assert_eq!(cmd, DecisionCommand::QueryOpenSide);
    let (s, cmd) = step(&c, s, DecisionEvent::OpenSide(Some(None)));
    assert_eq!(cmd, DecisionCommand::CountOpenTrades);
    let (s, cmd) = step(&c, s, DecisionEvent::OpenCount(Some(2)));
    assert_eq!(cmd, DecisionCommand::CheckConstraints);
    let (s, cmd) = step(&c, s, DecisionEvent::Constraints(ConstraintsOutcome::Accepted));
    assert_eq!(cmd, DecisionCommand::CheckMargin);
    let (s, cmd) = step(&c, s, DecisionEvent::Margin(MarginOutcome::Sufficient));
    assert_eq!(cmd, DecisionCommand::FillAndPersistPaperEntry);
    let (s, cmd) = step(&c, s, DecisionEvent::Persisted(true));
    assert_eq!(s, DecisionStage::Done);
    assert_eq!(cmd, finish(AuditStatus::PaperOpen, OrderRef::Paper, ErrorNote::NoError));
    assert_eq!(AuditStatus::PaperOpen.as_str(), "paper_open");
}

#[test]
fn paper_guard_duplicate_symbol_blocks_entry() {
    let c = ctx("ENTER_LONG", false);
    let (s, _) = begin(&c);
    let (s, _) = step(&c, s, DecisionEvent::Controls { executor_enabled: true, kill_switch_enabled: false });
    let (_, cmd) = step(&c, s.clone(), DecisionEvent::OpenSide(Some(Some(PositionSide::Long))));
    assert_eq!(
        cmd,
        finish(AuditStatus::PaperOpenBlockedExistingOpen, OrderRef::Paper, ErrorNote::NoError)
    );
    let (_, cmd) = step(&c, s, DecisionEvent::OpenSide(Some(Some(PositionSide::Short))));
    assert_eq!(
        cmd,
        finish(AuditStatus::PaperOpenBlockedOppositeOpen, OrderRef::Paper, ErrorNote::NoError)
    );
}

#[test]
fn paper_guard_max_positions_respected() {
    let c = ctx("ENTER_SHORT", false);
    let (s, _) = begin(&c);
    let (s, _) = step(&c, s, DecisionEvent::Controls { executor_enabled: true, kill_switch_enabled: false });
    let (s, _) = step(&c, s, DecisionEvent::OpenSide(Some(None)));
    let (s, cmd) = step(&c, s, DecisionEvent::OpenCount(Some(3)));
    assert_eq!(s, DecisionStage::Done);
    assert_eq!(
        cmd,
        finish(AuditStatus::PaperOpenBlockedMaxOpenPositions, OrderRef::Paper, ErrorNote::NoError)
    );
    assert_eq!(
        AuditStatus::PaperOpenBlockedMaxOpenPositions.as_str(),
        "paper_open_blocked_max_open_positions"
    );
}

#[test]
fn kill_switch_blocks_entries_but_not_closes() {
    let entry = ctx("ENTER_LONG", false);
    let (s, _) = begin(&entry);
    let (_, cmd) = step(&entry, s, DecisionEvent::Controls { executor_enabled: true, kill_switch_enabled: true });
    assert_eq!(cmd, finish(AuditStatus::BlockedKillSwitch, OrderRef::NoOrder, ErrorNote::NoError));
    let close = ctx("CLOSE_LONG", false);
    let (s, _) = begin(&close);
    let (s, cmd) = step(&close, s, DecisionEvent::Controls { executor_enabled: false, kill_switch_enabled: true });
    assert_eq!(cmd, DecisionCommand::ReconcilePaperClose);
    let (_, cmd) = step(&close, s, DecisionEvent::CloseReconciled(CloseOutcome::Partial));
    assert_eq!(cmd, finish(AuditStatus::PaperClosePartial, OrderRef::Paper, ErrorNote::NoError));
}

#[test]
fn live_entry_submits_then_persists_and_sets_trailing() {
    let c = ctx("ENTER_LONG", true);
    let (s, _) = begin(&c);
    let (s, cmd) = step(&c, s, DecisionEvent::Controls { executor_enabled: true, kill_switch_enabled: false });
    assert_eq!(cmd, DecisionCommand::SubmitOrder);
    let (s, cmd) = step(&c, s, DecisionEvent::Submitted(Ok("oid-1".to_string())));
    assert_eq!(cmd, DecisionCommand::PersistLiveEntry);
    let (s, cmd) = step(&c, s, DecisionEvent::Persisted(true));
    assert_eq!(cmd, DecisionCommand::SetTrailingStop);
    let (s, cmd) = step(&c, s, DecisionEvent::TrailingSet(true));
    assert_eq!(s, DecisionStage::Done);
    assert_eq!(
        cmd,
        finish(AuditStatus::Submitted, OrderRef::Live("oid-1".to_string()), ErrorNote::NoError)
    );
}

#[test]
fn live_order_blocked_by_allowlist_or_missing_credentials() {
    let mut c = ctx("ENTER_LONG", true);
    c.symbol_allowed_live = false;
    let (s, _) = begin(&c);
    let (_, cmd) = step(&c, s, DecisionEvent::Controls { executor_enabled: true, kill_switch_enabled: false });
    assert_eq!(cmd, finish(AuditStatus::BlockedSymbolAllowlist, OrderRef::NoOrder, ErrorNote::NoError));
    let mut c2 = ctx("ENTER_LONG", true);
    c2.has_credentials = false;
    let (s, _) = begin(&c2);
    let (_, cmd) = step(&c2, s, DecisionEvent::Controls { executor_enabled: true, kill_switch_enabled: false });
    assert_eq!(cmd, finish(AuditStatus::Error, OrderRef::NoOrder, ErrorNote::MissingCredentials));
}

#[test]
fn unrelated_event_repeats_the_pending_command() {
    let c = ctx("ENTER_LONG", false);
    let (s, _) = begin(&c);
    let (s2, cmd) = step(&c, s.clone(), DecisionEvent::Persisted(true));
    assert_eq!(s2, s);
    assert_eq!(cmd, pending(&s));
    assert_eq!(cmd, DecisionCommand::FetchControls);
}

fn recon_ctx(auto: bool, mainnet: bool, reduce: bool, reading: DriftReading) -> ReconcileContext {
    ReconcileContext {
        side: PositionSide::Long,
        policy: ReconcilePolicy { auto_fix: auto, mainnet, reduce_fix: reduce },
        reading,
    }
}

fn drift(exchange_above: bool) -> DriftReading {
    DriftReading {
        within_tolerance: false,
        exceeds_max_correction: false,
        exchange_above_local: exchange_above,
        exchange_below_local: !exchange_above,
        local_above_exchange: !exchange_above,
    }
}

const NOT_APPLIED: ReconcileCommand = ReconcileCommand::Record(ReconcileRecord {
    fix_applied: false,
    local: RecordedLocal::Measured,
    diff: RecordedDiff::Measured,
});

#[test]
fn reconciliation_in_tolerance_does_nothing() {
    let mut r = drift(true);
    r.within_tolerance = true;
    let (s, cmd) = reconcile_begin(&recon_ctx(true, true, true, r));
    assert_eq!(s, ReconcileStage::Done);
    assert_eq!(cmd, ReconcileCommand::Idle);
}

#[test]
fn reconciliation_auto_fix_increases_via_order() {
    let c = recon_ctx(true, true, false, drift(true));
    let (s, cmd) = reconcile_begin(&c);
    assert_eq!(cmd, ReconcileCommand::CheckDailyLimit);
    let (s, cmd) = reconcile_step(&c, s, ReconcileEvent::DailyLimit(true));
    assert_eq!(cmd, ReconcileCommand::SubmitFix { increase: true });
    assert_eq!(reconciliation_action(PositionSide::Long, true), "ENTER_LONG");
    let (s, cmd) = reconcile_step(&c, s, ReconcileEvent::FixOrder(true));
    assert_eq!(s, ReconcileStage::Done);
    assert_eq!(
        cmd,
        ReconcileCommand::Record(ReconcileRecord {
            fix_applied: true,
            local: RecordedLocal::Measured,
            diff: RecordedDiff::Measured,
        })
    );
}

#[test]
fn reconciliation_auto_fix_decrease_reduces_local_after_order() {
    let c = recon_ctx(true, true, false, drift(false));
    let (s, _) = reconcile_begin(&c);
    let (s, cmd) = reconcile_step(&c, s, ReconcileEvent::DailyLimit(true));
    assert_eq!(cmd, ReconcileCommand::SubmitFix { increase: false });
    assert_eq!(reconciliation_action(PositionSide::Short, false), "CLOSE_SHORT");
    let (s, cmd) = reconcile_step(&c, s, ReconcileEvent::FixOrder(true));
    assert_eq!(cmd, ReconcileCommand::ReduceLocal);
    let (s2, cmd) = reconcile_step(&c, s, ReconcileEvent::LocalReduced(true));
    assert_eq!(s2, ReconcileStage::Done);
    assert_eq!(
        cmd,
        ReconcileCommand::Record(ReconcileRecord {
            fix_applied: true,
            local: RecordedLocal::BeforeReduce,
            diff: RecordedDiff::Measured,
        })
    );
    let (_, failed) = reconcile_step(&c, s, ReconcileEvent::LocalReduced(false));
    assert_eq!(failed, ReconcileCommand::Idle);
}

#[test]
fn reconciliation_refusals_are_recorded_unapplied() {
    let mut big = drift(true);
    big.exceeds_max_correction = true;
    let (_, cmd) = reconcile_begin(&recon_ctx(true, true, false, big));
    assert_eq!(cmd, NOT_APPLIED);
    let c = recon_ctx(true, true, false, drift(true));
    let (s, _) = reconcile_begin(&c);
    let (_, cmd) = reconcile_step(&c, s, ReconcileEvent::DailyLimit(false));
    assert_eq!(cmd, NOT_APPLIED);
    let (s, _) = reconcile_begin(&c);
    let (s, _) = reconcile_step(&c, s, ReconcileEvent::DailyLimit(true));
    let (_, cmd) = reconcile_step(&c, s, ReconcileEvent::FixOrder(false));
    assert_eq!(cmd, NOT_APPLIED);
}

#[test]
fn reconciliation_auto_fix_needs_mainnet() {
    let (_, cmd) = reconcile_begin(&recon_ctx(true, false, false, drift(true)));
    assert_eq!(cmd, NOT_APPLIED);
}

#[test]
fn reconciliation_reduce_fix_only_lowers_local() {
    let c = recon_ctx(false, false, true, drift(false));
    let (s, cmd) = reconcile_begin(&c);
    assert_eq!(cmd, ReconcileCommand::ReduceLocal);
    let (_, cmd) = reconcile_step(&c, s, ReconcileEvent::LocalReduced(true));
    assert_eq!(
        cmd,
        ReconcileCommand::Record(ReconcileRecord {
            fix_applied: true,
            local: RecordedLocal::BeforeReduce,
            diff: RecordedDiff::BeforeReduceToExchange,
        })
    );
    let (_, cmd) = reconcile_begin(&recon_ctx(false, false, true, drift(true)));
    assert_eq!(cmd, NOT_APPLIED);
}

#[test]
fn agent_loop_runs_tools_until_recommendation() {
    let (st, cmd) = agent_begin(3);
    assert_eq!(cmd, AgentCommand::CallModel);
    assert_eq!(st.iterations, 1);
    let (st, cmd) = agent_step(3, st, AgentEvent::Replied { tool_calls: 2 });
    assert_eq!(cmd, AgentCommand::DispatchTools);
    let (st, cmd) = agent_step(3, st, AgentEvent::ToolsDone { recommended: false, sweeps: 1 });
    assert_eq!(cmd, AgentCommand::CallModel);
    assert_eq!((st.iterations, st.sweeps_run), (2, 1));
    let (st, _) = agent_step(3, st, AgentEvent::Replied { tool_calls: 1 });
    let (st, cmd) = agent_step(3, st, AgentEvent::ToolsDone { recommended: true, sweeps: 0 });
    assert_eq!(cmd, AgentCommand::Finish(AgentEnd::Recommended));
    assert_eq!(st.stage, AgentStage::Done);
    let (_, cmd) = agent_step(3, st, AgentEvent::NoChoice);
    assert_eq!(cmd, AgentCommand::Idle);
}

#[test]
fn agent_loop_respects_turn_budget_and_failures() {
    let (st, cmd) = agent_begin(0);
    assert_eq!(cmd, AgentCommand::Finish(AgentEnd::OutOfTurns));
    assert_eq!(st.iterations, 0);
    let (st, _) = agent_begin(1);
    let (st, _) = agent_step(1, st, AgentEvent::Replied { tool_calls: 1 });
    let (st, cmd) = agent_step(1, st, AgentEvent::ToolsDone { recommended: false, sweeps: 2 });
    assert_eq!(cmd, AgentCommand::Finish(AgentEnd::OutOfTurns));
    assert_eq!((st.iterations, st.sweeps_run), (1, 2));
    let (st, _) = agent_begin(5);
    let (_, cmd) = agent_step(5, st, AgentEvent::ModelFailed);
    assert_eq!(cmd, AgentCommand::Finish(AgentEnd::LlmFailed));
    let (_, cmd) = agent_step(5, st, AgentEvent::Replied { tool_calls: 0 });
    assert_eq!(cmd, AgentCommand::Finish(AgentEnd::FinalAnswer));
}

#[test]
fn tool_call_text_candidates() {
    let c = tool_call_candidates("  ```json\n{\"name\": \"run_backtest_sweep\"}\n```  ");
    assert_eq!(c, vec!["{\"name\": \"run_backtest_sweep\"}", "{\"name\": \"run_backtest_sweep\"}"]);
    let c2 = tool_call_candidates("I will call {\"name\":\"x\"} now");
    assert_eq!(c2, vec!["I will call {\"name\":\"x\"} now", "{\"name\":\"x\"}"]);
    let c3 = tool_call_candidates("} no object {");
    assert_eq!(c3, vec!["} no object {"]);
    let c4 = tool_call_candidates("```\nplain\n```");
    assert_eq!(c4, vec!["plain"]);
}

#[test]
fn tool_names_and_ids() {
    assert!(is_known_tool("get_trade_diagnostics"));
    assert!(is_known_tool("run_backtest_sweep"));
    assert!(is_known_tool("propose_config_change"));
    assert!(!is_known_tool("rm_rf"));
    assert_eq!(tool_call_id("run_backtest_sweep"), "call_run_backtest_sweep");
}

#[test]
fn structured_tool_calls_win_over_text() {
    assert_eq!(select_tool_calls(Some(vec![1, 2]), Some(9)), Some(vec![1, 2]));
    assert_eq!(select_tool_calls(Some(vec![]), Some(9)), Some(vec![9]));
    assert_eq!(select_tool_calls(None, Some(9)), Some(vec![9]));
    assert_eq!(select_tool_calls::<u8>(None, None), None);
    assert_eq!(select_tool_calls::<u8>(Some(vec![]), None), None);
}

#[test]
fn llm_endpoint_defaults_by_provider() {
    let local = llm_endpoint(None, None, None, None, Some("gk"), None);
    assert_eq!(local.base_url, "http://localhost:11434/v1");
    assert_eq!(local.model, "qwen2.5-coder:7b");
    assert_eq!(local.api_key, None);
    assert_eq!(local.max_iters, 6);
    let groq = llm_endpoint(Some("groq"), None, None, None, Some("gk"), Some("3"));
    assert_eq!(groq.base_url, "https://api.groq.com/openai/v1");
    assert_eq!(groq.model, "llama-3.3-70b-versatile");
    assert_eq!(groq.api_key, Some("gk".to_string()));
    assert_eq!(groq.max_iters, 3);
    let custom = llm_endpoint(Some("Groq"), Some("http://h"), Some("m"), Some("k"), None, Some("x"));
    assert_eq!(custom.base_url, "http://h");
    assert_eq!(custom.model, "m");
    assert_eq!(custom.api_key, Some("k".to_string()));
    assert_eq!(custom.max_iters, 6);
    assert_eq!(provider_model("m", "http://h"), "m (http://h)");
    assert_eq!(parse_usize("12"), Some(12));
    assert_eq!(parse_usize("-1"), None);
}
