//! The investigation agent: the turn loop that alternates model calls and
//! tool dispatch, the choice of the tool calls a reply carries, and the
//! recovery of a tool call that a model wrote as plain text.
use vstd::prelude::*;
use vstd::string::*;
use crate::config::ostr;
use crate::numeric::{parse_u64, parse_u64_spec};
use crate::text::{
    chars_eq_str, chars_of, ends_with, ends_with_exec, starts_with, starts_with_exec,
    string_from_chars, trim, trim_chars,
};

verus! {

// ── Tool names ──────────────────────────────────────────────────────────────

pub open spec fn is_known_tool_spec(name: Seq<char>) -> bool {
    name == "get_trade_diagnostics"@ || name == "run_backtest_sweep"@ || name
        == "propose_config_change"@
}

/// Whether `name` is one of the agent's tools.
pub fn is_known_tool(name: &str) -> (r: bool)
    ensures
        r == is_known_tool_spec(name@),
{
    let n = chars_of(name);
    chars_eq_str(&n, "get_trade_diagnostics") || chars_eq_str(&n, "run_backtest_sweep")
        || chars_eq_str(&n, "propose_config_change")
}

/// The id given to a tool call recovered from text: `call_` and the name.
pub fn tool_call_id(name: &str) -> (r: String)
    ensures
        r@ == "call_"@ + name@,
{
    let mut r = String::from_str("call_");
    r.append(name);
    r
}

// ── Recovering a tool call written as text ──────────────────────────────────

/// Drops a closing fence, if there is one.
pub open spec fn strip_closing_fence(s: Seq<char>) -> Seq<char> {
    if ends_with(s, "```"@) {
        s.subrange(0, s.len() - "```"@.len())
    } else {
        s
    }
}

/// Drops a ```` ```json ```` or ```` ``` ```` fence around the text.
pub open spec fn strip_fence(t: Seq<char>) -> Seq<char> {
    if starts_with(t, "```json"@) {
        strip_closing_fence(t.skip("```json"@.len() as int))
    } else if starts_with(t, "```"@) {
        strip_closing_fence(t.skip("```"@.len() as int))
    } else {
        t
    }
}

/// The content, trimmed, unfenced and trimmed again.
pub open spec fn unfenced(content: Seq<char>) -> Seq<char> {
    trim(strip_fence(trim(content)))
}

/// From the first `{` to the last `}`, when the last comes after the first.
pub open spec fn braced_span(u: Seq<char>) -> Option<Seq<char>> {
    match (u.index_of_first('{'), u.index_of_last('}')) {
        (Some(a), Some(b)) => if b > a {
            Some(u.subrange(a, b + 1))
        } else {
            None
        },
        _ => None,
    }
}

/// The texts tried as a JSON tool call, in order: the unfenced content,
/// then its braced span if it has one.
pub open spec fn candidates_spec(content: Seq<char>) -> Seq<Seq<char>> {
    let u = unfenced(content);
    match braced_span(u) {
        Some(b) => seq![u, b],
        None => seq![u],
    }
}

/// The candidates for a tool call written as text: first the unfenced
/// content; then, exactly when some `{` comes before some `}`, the span
/// that starts at the first `{` (none before it) and ends at the last `}`
/// (none after it).
pub proof fn law_tool_call_candidates(content: Seq<char>)
    ensures
        ({
            let u = unfenced(content);
            let c = candidates_spec(content);
            &&& c.len() == 1 || c.len() == 2
            &&& c[0] == u
            &&& c.len() == 2 <==> exists|i: int, j: int|
                0 <= i < j < u.len() && u[i] == '{' && u[j] == '}'
            &&& c.len() == 2 ==> exists|a: int, b: int|
                {
                    &&& 0 <= a < b < u.len()
                    &&& u[a] == '{'
                    &&& u[b] == '}'
                    &&& (forall|k: int| 0 <= k < a ==> u[k] != '{')
                    &&& (forall|k: int| b < k < u.len() ==> u[k] != '}')
                    &&& c[1] == u.subrange(a, b + 1)
                }
        }),
{
    let u = unfenced(content);
    u.index_of_first_ensures('{');
    u.index_of_last_ensures('}');
    if exists|i: int, j: int| 0 <= i < j < u.len() && u[i] == '{' && u[j] == '}' {
        let (i, j) = choose|i: int, j: int| 0 <= i < j < u.len() && u[i] == '{' && u[j] == '}';
        assert(u.contains('{'));
        assert(u.contains('}'));
    }
    if let Some(a) = u.index_of_first('{') {
        if let Some(b) = u.index_of_last('}') {
            assert(u[a] == '{' && u[b] == '}');
        }
    }
}

fn slice_chars(s: &Vec<char>, start: usize, end: usize) -> (r: Vec<char>)
    requires
        start <= end <= s.len(),
    ensures
        r@ == s@.subrange(start as int, end as int),
{
    let mut r: Vec<char> = Vec::new();
    let mut k: usize = start;
    while k < end
        invariant
            start <= k <= end <= s.len(),
            r@ == s@.subrange(start as int, k as int),
        decreases end - k,
    {
        r.push(s[k]);
        assert(s@.subrange(start as int, k + 1) == s@.subrange(start as int, k as int).push(
            s@[k as int],
        ));
        k = k + 1;
    }
    r
}

fn strip_closing_fence_exec(s: Vec<char>) -> (r: Vec<char>)
    ensures
        r@ == strip_closing_fence(s@),
{
    let fence = chars_of("```");
    if ends_with_exec(&s, &fence) {
        slice_chars(&s, 0, s.len() - fence.len())
    } else {
        s
    }
}

fn unfence(content: &str) -> (r: Vec<char>)
    ensures
        r@ == unfenced(content@),
{
    let t = trim_chars(&chars_of(content));
    let json_fence = chars_of("```json");
    let fence = chars_of("```");
    let stripped = if starts_with_exec(&t, &json_fence) {
        strip_closing_fence_exec(slice_chars(&t, json_fence.len(), t.len()))
    } else if starts_with_exec(&t, &fence) {
        strip_closing_fence_exec(slice_chars(&t, fence.len(), t.len()))
    } else {
        t
    };
    trim_chars(&stripped)
}

fn first_index_of(s: &Vec<char>, c: char) -> (r: Option<usize>)
    ensures
        match r {
            Some(i) => s@.index_of_first(c) == Some(i as int),
            None => s@.index_of_first(c) is None,
        },
{
    let mut i: usize = 0;
    while i < s.len()
        invariant
            i <= s.len(),
            forall|j: int| 0 <= j < i ==> s@[j] != c,
        decreases s.len() - i,
    {
        if s[i] == c {
            proof {
                s@.index_of_first_ensures(c);
                assert(s@.contains(c)) by {
                    assert(s@[i as int] == c);
                }
            }
            return Some(i);
        }
        i = i + 1;
    }
    proof {
        s@.index_of_first_ensures(c);
    }
    None
}

fn last_index_of(s: &Vec<char>, c: char) -> (r: Option<usize>)
    ensures
        match r {
            Some(i) => s@.index_of_last(c) == Some(i as int),
            None => s@.index_of_last(c) is None,
        },
{
    let mut i: usize = s.len();
    while i > 0
        invariant
            i <= s.len(),
            forall|j: int| i <= j < s.len() ==> s@[j] != c,
        decreases i,
    {
        if s[i - 1] == c {
            proof {
                s@.index_of_last_ensures(c);
                assert(s@.contains(c)) by {
                    assert(s@[i - 1] == c);
                }
            }
            return Some(i - 1);
        }
        i = i - 1;
    }
    proof {
        s@.index_of_last_ensures(c);
    }
    None
}

/// The texts to try, in order, when a model wrote its tool call as plain
/// content: the content without whitespace and code fence, then the part
/// of it from the first `{` to the last `}`.
pub fn tool_call_candidates(content: &str) -> (r: Vec<String>)
    ensures
        r@.map_values(|s: String| s@) == candidates_spec(content@),
{
    let u = unfence(content);
    let mut r: Vec<String> = Vec::new();
    r.push(string_from_chars(&u));
    let open = first_index_of(&u, '{');
    let close = last_index_of(&u, '}');
    match (open, close) {
        (Some(a), Some(b)) => {
            if b > a {
                proof {
                    u@.index_of_last_ensures('}');
                }
                let span = slice_chars(&u, a, b + 1);
                r.push(string_from_chars(&span));
            }
        },
        _ => {},
    }
    assert(r@.map_values(|s: String| s@) =~= candidates_spec(content@));
    r
}

/// The tool calls of a reply: the structured ones when there are any,
/// else the one recovered from the text, if any.
pub fn select_tool_calls<T>(structured: Option<Vec<T>>, from_text: Option<T>) -> (r: Option<
    Vec<T>,
>)
    ensures
        match structured {
            Some(v) if v.len() > 0 => r == Some(v),
            _ => match from_text {
                Some(t) => r matches Some(w) && w@ == seq![t],
                None => r is None,
            },
        },
{
    match structured {
        Some(v) => {
            if v.len() > 0 {
                return Some(v);
            }
        },
        None => {},
    }
    match from_text {
        Some(t) => {
            let mut w: Vec<T> = Vec::new();
            w.push(t);
            Some(w)
        },
        None => None,
    }
}

// ── The turn loop ───────────────────────────────────────────────────────────

/// How an investigation ended.
#[derive(Debug, Clone, Copy, PartialEq, Eq, Structural)]
pub enum AgentEnd {
    /// The model call failed; the request answers with a gateway error.
    LlmFailed,
    /// The model returned no choice.
    NoChoice,
    /// The model answered without tool calls.
    FinalAnswer,
    /// A configuration change was proposed.
    Recommended,
    /// The turn budget ran out.
    OutOfTurns,
}

/// What the service must do next.
#[derive(Debug, Clone, Copy, PartialEq, Eq, Structural)]
pub enum AgentCommand {
    CallModel,
    /// Run every tool call of the last reply, in order.
    DispatchTools,
    Finish(AgentEnd),
    Idle,
}

/// What the last command produced.
#[derive(Debug, Clone, Copy, PartialEq, Eq, Structural)]
pub enum AgentEvent {
    ModelFailed,
    NoChoice,
    /// A reply carrying this many tool calls.
    Replied { tool_calls: usize },
    /// The tools ran; `sweeps` backtest sweeps were started and a change
    /// was proposed if `recommended`.
    ToolsDone { recommended: bool, sweeps: usize },
}

#[derive(Debug, Clone, Copy, PartialEq, Eq, Structural)]
pub enum AgentStage {
    AwaitReply,
    AwaitTools,
    Done,
}

/// The loop's state: where it is, the turns taken and the sweeps started.
#[derive(Debug, Clone, Copy, PartialEq, Eq, Structural)]
pub struct AgentState {
    pub stage: AgentStage,
    pub iterations: usize,
    pub sweeps_run: usize,
}

pub open spec fn agent_begin_spec(max_iters: usize) -> (AgentState, AgentCommand) {
    if max_iters == 0 {
        (
            AgentState { stage: AgentStage::Done, iterations: 0, sweeps_run: 0 },
            AgentCommand::Finish(AgentEnd::OutOfTurns),
        )
    } else {
        (
            AgentState { stage: AgentStage::AwaitReply, iterations: 1, sweeps_run: 0 },
            AgentCommand::CallModel,
        )
    }
}

pub open spec fn done_with(st: AgentState, end: AgentEnd) -> (AgentState, AgentCommand) {
    (AgentState { stage: AgentStage::Done, ..st }, AgentCommand::Finish(end))
}

pub open spec fn agent_step_spec(max_iters: usize, st: AgentState, ev: AgentEvent) -> (
    AgentState,
    AgentCommand,
) {
    match (st.stage, ev) {
        (AgentStage::AwaitReply, AgentEvent::ModelFailed) => done_with(st, AgentEnd::LlmFailed),
        (AgentStage::AwaitReply, AgentEvent::NoChoice) => done_with(st, AgentEnd::NoChoice),
        (AgentStage::AwaitReply, AgentEvent::Replied { tool_calls }) => {
            if tool_calls == 0 {
                done_with(st, AgentEnd::FinalAnswer)
            } else {
                (AgentState { stage: AgentStage::AwaitTools, ..st }, AgentCommand::DispatchTools)
            }
        },
        (AgentStage::AwaitTools, AgentEvent::ToolsDone { recommended, sweeps }) => {
            let st2 = AgentState { sweeps_run: (st.sweeps_run + sweeps) as usize, ..st };
            if recommended {
                done_with(st2, AgentEnd::Recommended)
            } else if st.iterations < max_iters {
                (
                    AgentState {
                        stage: AgentStage::AwaitReply,
                        iterations: (st.iterations + 1) as usize,
                        ..st2
                    },
                    AgentCommand::CallModel,
                )
            } else {
                done_with(st2, AgentEnd::OutOfTurns)
            }
        },
        (AgentStage::Done, _) => (st, AgentCommand::Idle),
        (AgentStage::AwaitReply, _) => (st, AgentCommand::Idle),
        (AgentStage::AwaitTools, _) => (st, AgentCommand::Idle),
    }
}

/// The loop's invariant: at least one turn is taken while it runs, and never
/// more than the budget.
pub open spec fn agent_wf(max_iters: usize, st: AgentState) -> bool {
    &&& st.iterations <= max_iters
    &&& st.stage !is Done ==> st.iterations >= 1
}

/// Starts an investigation with a budget of `max_iters` model turns.
pub fn agent_begin(max_iters: usize) -> (r: (AgentState, AgentCommand))
    ensures
        r == agent_begin_spec(max_iters),
        agent_wf(max_iters, r.0),
{
    if max_iters == 0 {
        (
            AgentState { stage: AgentStage::Done, iterations: 0, sweeps_run: 0 },
            AgentCommand::Finish(AgentEnd::OutOfTurns),
        )
    } else {
        (
            AgentState { stage: AgentStage::AwaitReply, iterations: 1, sweeps_run: 0 },
            AgentCommand::CallModel,
        )
    }
}

/// Advances the investigation with what the last command produced.
pub fn agent_step(max_iters: usize, st: AgentState, ev: AgentEvent) -> (r: (
    AgentState,
    AgentCommand,
))
    requires
        agent_wf(max_iters, st),
        ev matches AgentEvent::ToolsDone { sweeps, .. } ==> st.sweeps_run + sweeps <= usize::MAX,
    ensures
        r == agent_step_spec(max_iters, st, ev),
        agent_wf(max_iters, r.0),
{
    match (st.stage, ev) {
        (AgentStage::AwaitReply, AgentEvent::ModelFailed) => (
            AgentState { stage: AgentStage::Done, ..st },
            AgentCommand::Finish(AgentEnd::LlmFailed),
        ),
        (AgentStage::AwaitReply, AgentEvent::NoChoice) => (
            AgentState { stage: AgentStage::Done, ..st },
            AgentCommand::Finish(AgentEnd::NoChoice),
        ),
        (AgentStage::AwaitReply, AgentEvent::Replied { tool_calls }) => {
            if tool_calls == 0 {
                (
                    AgentState { stage: AgentStage::Done, ..st },
                    AgentCommand::Finish(AgentEnd::FinalAnswer),
                )
            } else {
                (AgentState { stage: AgentStage::AwaitTools, ..st }, AgentCommand::DispatchTools)
            }
        },
        (AgentStage::AwaitTools, AgentEvent::ToolsDone { recommended, sweeps }) => {
            let st2 = AgentState { sweeps_run: st.sweeps_run + sweeps, ..st };
            if recommended {
                (
                    AgentState { stage: AgentStage::Done, ..st2 },
                    AgentCommand::Finish(AgentEnd::Recommended),
                )
            } else if st.iterations < max_iters {
                (
                    AgentState {
                        stage: AgentStage::AwaitReply,
                        iterations: st.iterations + 1,
                        ..st2
                    },
                    AgentCommand::CallModel,
                )
            } else {
                (
                    AgentState { stage: AgentStage::Done, ..st2 },
                    AgentCommand::Finish(AgentEnd::OutOfTurns),
                )
            }
        },
        (AgentStage::Done, _) => (st, AgentCommand::Idle),
        (AgentStage::AwaitReply, _) => (st, AgentCommand::Idle),
        (AgentStage::AwaitTools, _) => (st, AgentCommand::Idle),
    }
}

/// Every step keeps the turn count within the budget: the model is never
/// called more than `max_iters` times.
pub proof fn law_turns_within_budget(max_iters: usize, st: AgentState, ev: AgentEvent)
    requires
        agent_wf(max_iters, st),
    ensures
        agent_wf(max_iters, agent_step_spec(max_iters, st, ev).0),
        agent_step_spec(max_iters, st, ev).1 == AgentCommand::CallModel ==> agent_step_spec(
            max_iters,
            st,
            ev,
        ).0.iterations == st.iterations + 1,
{
}

/// A proposed configuration change ends the investigation: once the tools
/// report one, the model is not called again.
pub proof fn law_recommendation_is_terminal(max_iters: usize, st: AgentState, sweeps: usize)
    requires
        st.stage == AgentStage::AwaitTools,
    ensures
        agent_step_spec(max_iters, st, AgentEvent::ToolsDone { recommended: true, sweeps }) == done_with(
            AgentState { sweeps_run: (st.sweeps_run + sweeps) as usize, ..st },
            AgentEnd::Recommended,
        ),
{
}

/// A finished investigation stays finished.
pub proof fn law_done_is_final(max_iters: usize, st: AgentState, ev: AgentEvent)
    requires
        st.stage == AgentStage::Done,
    ensures
        agent_step_spec(max_iters, st, ev) == (st, AgentCommand::Idle),
{
}

// ── Model endpoint settings ─────────────────────────────────────────────────

/// Where the agent sends its model calls.
pub struct LlmEndpoint {
    pub base_url: String,
    pub model: String,
    pub api_key: Option<String>,
    /// Turn budget of one investigation.
    pub max_iters: usize,
}

pub open spec fn parse_usize_spec(raw: Seq<char>) -> Option<usize> {
    match parse_u64_spec(raw) {
        Some(v) => if v <= usize::MAX {
            Some(v as usize)
        } else {
            None
        },
        None => None,
    }
}

/// `str::parse::<usize>`.
pub fn parse_usize(raw: &str) -> (r: Option<usize>)
    ensures
        r == parse_usize_spec(raw@),
{
    match parse_u64(raw) {
        Some(v) => if v as u128 <= usize::MAX as u128 {
            Some(v as usize)
        } else {
            None
        },
        None => None,
    }
}

pub open spec fn ostr_view(o: Option<&str>) -> Option<Seq<char>> {
    match o {
        Some(s) => Some(s@),
        None => None,
    }
}

pub open spec fn or_str(o: Option<&str>, d: Seq<char>) -> Seq<char> {
    match o {
        Some(s) => s@,
        None => d,
    }
}

/// The settings of the model endpoint: provider `groq` (exactly) selects
/// Groq's endpoint and model and its key; any other provider, or none,
/// selects a local Ollama. Explicit base URL, model and key override the
/// provider's; the turn budget is 6 unless a valid count is given.
pub fn llm_endpoint(
    provider: Option<&str>,
    base_url: Option<&str>,
    model: Option<&str>,
    api_key: Option<&str>,
    groq_api_key: Option<&str>,
    max_iters: Option<&str>,
) -> (r: LlmEndpoint)
    ensures
        ({
            let groq = provider matches Some(p) && p@ == "groq"@;
            &&& r.base_url@ == or_str(
                base_url,
                if groq {
                    "https://api.groq.com/openai/v1"@
                } else {
                    "http://localhost:11434/v1"@
                },
            )
            &&& r.model@ == or_str(
                model,
                if groq {
                    "llama-3.3-70b-versatile"@
                } else {
                    "qwen2.5-coder:7b"@
                },
            )
            &&& ostr(r.api_key) == (match api_key {
                Some(k) => Some(k@),
                None => if groq {
                    ostr_view(groq_api_key)
                } else {
                    None
                },
            })
            &&& r.max_iters == (match max_iters {
                Some(v) => match parse_usize_spec(v@) {
                    Some(n) => n,
                    None => 6,
                },
                None => 6,
            })
        }),
{
    let groq = match provider {
        Some(p) => {
            let c = chars_of(p);
            chars_eq_str(&c, "groq")
        },
        None => false,
    };
    let (default_base, default_model) = if groq {
        ("https://api.groq.com/openai/v1", "llama-3.3-70b-versatile")
    } else {
        ("http://localhost:11434/v1", "qwen2.5-coder:7b")
    };
    let base = match base_url {
        Some(b) => String::from_str(b),
        None => String::from_str(default_base),
    };
    let m = match model {
        Some(x) => String::from_str(x),
        None => String::from_str(default_model),
    };
    let key = match api_key {
        Some(k) => Some(String::from_str(k)),
        None => if groq {
            match groq_api_key {
                Some(g) => Some(String::from_str(g)),
                None => None,
            }
        } else {
            None
        },
    };
    let iters = match max_iters {
        Some(v) => match parse_usize(v) {
            Some(n) => n,
            None => 6,
        },
        None => 6,
    };
    LlmEndpoint { base_url: base, model: m, api_key: key, max_iters: iters }
}

/// `model (base_url)`, as reported with an investigation.
pub fn provider_model(model: &str, base_url: &str) -> (r: String)
    ensures
        r@ == model@ + " ("@ + base_url@ + ")"@,
{
    let mut r = String::from_str(model);
    r.append(" (");
    r.append(base_url);
    r.append(")");
    r
}

} // verus!
