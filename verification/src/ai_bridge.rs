//! Requests to the automation bridge, the conversation context it keeps,
//! its counters, and its errors.
use vstd::prelude::*;
use vstd::string::StringExecFns;
use crate::execution_manager::ExecutionPriority;
use crate::text::{decimal, from_chars, lowercase, push_decimal, push_str, split_words, to_chars, to_lowercase, trim, trim_chars, words_of};
use crate::keyed::string_views;

verus! {

/// What a request asks the bridge to do.
#[derive(Debug, Clone, Copy, PartialEq, Eq, Structural)]
pub enum AutomationIntent {
    Execute,
    Query,
    Clarify,
    Confirm,
    Cancel,
    Status,
    Unknown,
}

/// What the bridge can do.
#[derive(Debug, Clone, Copy, PartialEq, Eq, Structural)]
pub enum AutomationCapability {
    NaturalLanguage,
    MultiStep,
    Cancellation,
    Clarification,
    ContextAware,
    PriorityScheduling,
}

/// What a conversation has established so far.
#[derive(Debug)]
pub struct AutomationContext {
    pub active_goal: Option<String>,
    pub last_intent: Option<String>,
    pub execution_count: u64,
    pub previous_goals: Vec<String>,
    pub user_preferences: Vec<(String, String)>,
}

impl AutomationContext {
    /// A context with nothing established.
    pub fn new() -> (c: Self)
        ensures
            c.active_goal is None,
            c.last_intent is None,
            c.execution_count == 0,
            c.previous_goals@.len() == 0,
            c.user_preferences@.len() == 0,
    {
        AutomationContext {
            active_goal: None,
            last_intent: None,
            execution_count: 0,
            previous_goals: Vec::new(),
            user_preferences: Vec::new(),
        }
    }
}

impl Default for AutomationContext {
    fn default() -> (c: Self)
        ensures
            c.active_goal is None,
            c.last_intent is None,
            c.execution_count == 0,
            c.previous_goals@.len() == 0,
            c.user_preferences@.len() == 0,
    {
        AutomationContext::new()
    }
}

/// A request in natural language.
#[derive(Debug)]
pub struct AutomationRequest {
    pub text: String,
    pub session_id: Option<String>,
    pub context: Option<AutomationContext>,
    pub priority: Option<ExecutionPriority>,
}

impl AutomationRequest {
    pub fn new(text: &str) -> (r: Self)
        ensures
            r.text@ == text@,
            r.session_id is None,
            r.context is None,
            r.priority is None,
    {
        AutomationRequest { text: String::from_str(text), session_id: None, context: None, priority: None }
    }

    pub fn with_session(self, session_id: &str) -> (r: Self)
        ensures
            r.text == self.text,
            r.session_id matches Some(s) && s@ == session_id@,
            r.context == self.context,
            r.priority == self.priority,
    {
        let mut r = self;
        r.session_id = Some(String::from_str(session_id));
        r
    }

    pub fn with_context(self, ctx: AutomationContext) -> (r: Self)
        ensures
            r == (AutomationRequest { context: Some(ctx), ..self }),
    {
        let mut r = self;
        r.context = Some(ctx);
        r
    }

    pub fn with_priority(self, priority: ExecutionPriority) -> (r: Self)
        ensures
            r == (AutomationRequest { priority: Some(priority), ..self }),
    {
        let mut r = self;
        r.priority = Some(priority);
        r
    }
}

/// Counts of what the bridge handled.
#[derive(Debug, Clone, Copy, PartialEq, Eq, Structural)]
pub struct AutomationMetrics {
    pub total_requests: u64,
    pub successful_executions: u64,
    pub failed_executions: u64,
    pub clarifications_requested: u64,
    pub cancelled_requests: u64,
    pub average_processing_time_ms: u64,
    pub peak_sessions: u64,
}

pub open spec fn zero_bridge_metrics() -> AutomationMetrics {
    AutomationMetrics {
        total_requests: 0,
        successful_executions: 0,
        failed_executions: 0,
        clarifications_requested: 0,
        cancelled_requests: 0,
        average_processing_time_ms: 0,
        peak_sessions: 0,
    }
}

impl Default for AutomationMetrics {
    fn default() -> (m: Self)
        ensures
            m == zero_bridge_metrics(),
    {
        AutomationMetrics {
            total_requests: 0,
            successful_executions: 0,
            failed_executions: 0,
            clarifications_requested: 0,
            cancelled_requests: 0,
            average_processing_time_ms: 0,
            peak_sessions: 0,
        }
    }
}

impl AutomationMetrics {
    pub fn record_request(&mut self)
        requires
            old(self).total_requests < u64::MAX,
        ensures
            *final(self) == (AutomationMetrics { total_requests: (old(self).total_requests + 1) as u64, ..*old(self) }),
    {
        self.total_requests = self.total_requests + 1;
    }

    pub fn record_success(&mut self)
        requires
            old(self).successful_executions < u64::MAX,
        ensures
            *final(self) == (AutomationMetrics {
                successful_executions: (old(self).successful_executions + 1) as u64,
                ..*old(self)
            }),
    {
        self.successful_executions = self.successful_executions + 1;
    }

    pub fn record_failure(&mut self)
        requires
            old(self).failed_executions < u64::MAX,
        ensures
            *final(self) == (AutomationMetrics { failed_executions: (old(self).failed_executions + 1) as u64, ..*old(self) }),
    {
        self.failed_executions = self.failed_executions + 1;
    }

    pub fn record_clarification(&mut self)
        requires
            old(self).clarifications_requested < u64::MAX,
        ensures
            *final(self) == (AutomationMetrics {
                clarifications_requested: (old(self).clarifications_requested + 1) as u64,
                ..*old(self)
            }),
    {
        self.clarifications_requested = self.clarifications_requested + 1;
    }

    pub fn record_cancellation(&mut self)
        requires
            old(self).cancelled_requests < u64::MAX,
        ensures
            *final(self) == (AutomationMetrics { cancelled_requests: (old(self).cancelled_requests + 1) as u64, ..*old(self) }),
    {
        self.cancelled_requests = self.cancelled_requests + 1;
    }
}

/// What can go wrong in the bridge.
#[derive(Debug)]
pub enum BridgeError {
    InvalidRequest(String),
    UnknownIntent(String),
    ExecutionFailed(String),
    SessionNotFound(String),
    ContextExpired(String),
    Internal(String),
}

pub open spec fn bridge_error_text(e: BridgeError) -> Seq<char> {
    match e {
        BridgeError::InvalidRequest(m) => "invalid request: "@ + m@,
        BridgeError::UnknownIntent(m) => "unknown intent: "@ + m@,
        BridgeError::ExecutionFailed(m) => "execution failed: "@ + m@,
        BridgeError::SessionNotFound(id) => "session not found: "@ + id@,
        BridgeError::ContextExpired(m) => "context expired: "@ + m@,
        BridgeError::Internal(m) => "internal error: "@ + m@,
    }
}

impl BridgeError {
    /// How the error reads.
    pub fn display_text(&self) -> (r: String)
        ensures
            r@ == bridge_error_text(*self),
    {
        let mut s = String::new();
        let (prefix, m) = match self {
            BridgeError::InvalidRequest(m) => ("invalid request: ", m),
            BridgeError::UnknownIntent(m) => ("unknown intent: ", m),
            BridgeError::ExecutionFailed(m) => ("execution failed: ", m),
            BridgeError::SessionNotFound(m) => ("session not found: ", m),
            BridgeError::ContextExpired(m) => ("context expired: ", m),
            BridgeError::Internal(m) => ("internal error: ", m),
        };
        push_str(&mut s, prefix);
        push_str(&mut s, m.as_str());
        proof {
            assert(Seq::<char>::empty() + bridge_error_text(*self) =~= bridge_error_text(*self));
        }
        s
    }
}


/// What the bridge decided about a request. A status carries its progress
/// in whole percent.
#[derive(Debug)]
pub enum AutomationDecision {
    Execute { execution_id: String, goal: String },
    Clarify { question: String, options: Vec<String> },
    Confirm { goal: String, stakes: String },
    Query { answer: String },
    Status { execution_id: String, status: String, progress_percent: u32 },
    Cancelled { execution_id: String },
    Error { message: String },
    Unknown { message: String },
}

/// The bridge's answer to a request.
#[derive(Debug)]
pub struct AutomationResponse {
    pub success: bool,
    pub decision: AutomationDecision,
    pub execution_id: Option<String>,
    pub message: String,
    pub suggestions: Vec<String>,
}

impl AutomationResponse {
    /// A successful answer with this decision.
    pub fn success(decision: AutomationDecision, message: &str) -> (r: Self)
        ensures
            r.success,
            r.decision == decision,
            r.execution_id is None,
            r.message@ == message@,
            r.suggestions@.len() == 0,
    {
        AutomationResponse { success: true, decision, execution_id: None, message: String::from_str(message), suggestions: Vec::new() }
    }

    /// A failed answer whose decision is the error itself.
    pub fn error(msg: &str) -> (r: Self)
        ensures
            !r.success,
            r.decision matches AutomationDecision::Error { message } && message@ == msg@,
            r.execution_id is None,
            r.message@ == msg@,
            r.suggestions@.len() == 0,
    {
        AutomationResponse {
            success: false,
            decision: AutomationDecision::Error { message: String::from_str(msg) },
            execution_id: None,
            message: String::from_str(msg),
            suggestions: Vec::new(),
        }
    }

    pub fn with_execution_id(self, id: &str) -> (r: Self)
        ensures
            r.success == self.success,
            r.decision == self.decision,
            r.execution_id matches Some(x) && x@ == id@,
            r.message == self.message,
            r.suggestions == self.suggestions,
    {
        let mut r = self;
        r.execution_id = Some(String::from_str(id));
        r
    }

    pub fn with_suggestion(self, suggestion: &str) -> (r: Self)
        ensures
            r.success == self.success,
            r.decision == self.decision,
            r.execution_id == self.execution_id,
            r.message == self.message,
            string_views(r.suggestions@) == string_views(self.suggestions@).push(suggestion@),
    {
        let mut r = self;
        r.suggestions.push(String::from_str(suggestion));
        proof {
            assert(string_views(r.suggestions@) =~= string_views(self.suggestions@).push(suggestion@));
        }
        r
    }
}

/// A request and the answer it got.
#[derive(Debug)]
pub struct SessionEntry {
    pub request: String,
    pub response: AutomationResponse,
    pub timestamp: i64,
}

/// A conversation with the bridge: what was asked and answered, what it
/// established, and the executions it started.
#[derive(Debug)]
pub struct AutomationSession {
    pub id: String,
    pub history: Vec<SessionEntry>,
    pub context: AutomationContext,
    pub active_executions: Vec<(String, AutomationDecision)>,
    pub created_at: i64,
    pub updated_at: i64,
}

/// The executions other than `id`, in order.
pub open spec fn without_execution(s: Seq<(String, AutomationDecision)>, id: Seq<char>) -> Seq<(String, AutomationDecision)>
    decreases s.len(),
{
    if s.len() == 0 {
        s
    } else if s.last().0@ == id {
        without_execution(s.drop_last(), id)
    } else {
        without_execution(s.drop_last(), id).push(s.last())
    }
}

/// The goal an execute decision is for.
pub open spec fn executed_goal(d: AutomationDecision) -> Option<Seq<char>> {
    match d {
        AutomationDecision::Execute { goal, .. } => Some(goal@),
        _ => None,
    }
}

impl AutomationSession {
    /// A new conversation started at `now`.
    pub fn new_at(id: &str, now: i64) -> (s: Self)
        ensures
            s.id@ == id@,
            s.history@.len() == 0,
            s.context.active_goal is None && s.context.last_intent is None,
            s.context.execution_count == 0,
            s.context.previous_goals@.len() == 0 && s.context.user_preferences@.len() == 0,
            s.active_executions@.len() == 0,
            s.created_at == now,
            s.updated_at == now,
    {
        AutomationSession {
            id: String::from_str(id),
            history: Vec::new(),
            context: AutomationContext::new(),
            active_executions: Vec::new(),
            created_at: now,
            updated_at: now,
        }
    }

    /// A new conversation started now.
    pub fn new(id: &str) -> (s: Self)
        ensures
            s.id@ == id@,
            s.history@.len() == 0,
            s.context.execution_count == 0,
            s.active_executions@.len() == 0,
            s.created_at == s.updated_at,
    {
        AutomationSession::new_at(id, crate::clock::now_millis())
    }

    /// Records a request and its answer at `now`; an execute decision also
    /// becomes the last intent and joins the previous goals.
    pub fn add_entry_at(&mut self, request: String, response: AutomationResponse, now: i64)
        requires
            old(self).context.execution_count < u64::MAX,
        ensures
            final(self).history@.len() == old(self).history@.len() + 1,
            final(self).history@.drop_last() == old(self).history@,
            final(self).history@.last().request == request,
            final(self).history@.last().response == response,
            final(self).history@.last().timestamp == now,
            final(self).updated_at == now,
            final(self).context.execution_count == old(self).context.execution_count + 1,
            final(self).context.active_goal == old(self).context.active_goal,
            final(self).context.user_preferences == old(self).context.user_preferences,
            match executed_goal(response.decision) {
                Some(g) => string_views(final(self).context.previous_goals@) == string_views(old(self).context.previous_goals@).push(g)
                    && (final(self).context.last_intent matches Some(li) && li@ == g),
                None => final(self).context.previous_goals == old(self).context.previous_goals
                    && final(self).context.last_intent == old(self).context.last_intent,
            },
            final(self).id == old(self).id,
            final(self).created_at == old(self).created_at,
            final(self).active_executions == old(self).active_executions,
    {
        let goal = match &response.decision {
            AutomationDecision::Execute { goal, .. } => Some(String::from_str(goal.as_str())),
            _ => None,
        };
        self.history.push(SessionEntry { request, response, timestamp: now });
        self.updated_at = now;
        self.context.execution_count = self.context.execution_count + 1;
        if let Some(g) = goal {
            let ghost before = string_views(self.context.previous_goals@);
            let g2 = String::from_str(g.as_str());
            self.context.previous_goals.push(g);
            self.context.last_intent = Some(g2);
            proof {
                assert(string_views(self.context.previous_goals@) =~= before.push(g2@));
            }
        }
    }

    /// Records a request and its answer now.
    pub fn add_entry(&mut self, request: String, response: AutomationResponse)
        requires
            old(self).context.execution_count < u64::MAX,
        ensures
            final(self).history@.len() == old(self).history@.len() + 1,
            final(self).history@.last().request == request,
            final(self).history@.last().response == response,
            final(self).context.execution_count == old(self).context.execution_count + 1,
    {
        let now = crate::clock::now_millis();
        self.add_entry_at(request, response, now);
    }

    /// Forgets the history and the context, as of `now`.
    pub fn clear_history_at(&mut self, now: i64)
        ensures
            final(self).history@.len() == 0,
            final(self).context.active_goal is None && final(self).context.last_intent is None,
            final(self).context.execution_count == 0,
            final(self).context.previous_goals@.len() == 0 && final(self).context.user_preferences@.len() == 0,
            final(self).updated_at == now,
            final(self).id == old(self).id,
            final(self).created_at == old(self).created_at,
            final(self).active_executions == old(self).active_executions,
    {
        self.history.clear();
        self.context = AutomationContext::new();
        self.updated_at = now;
    }

    /// Forgets the history and the context.
    pub fn clear_history(&mut self)
        ensures
            final(self).history@.len() == 0,
            final(self).context.execution_count == 0,
            final(self).id == old(self).id,
    {
        let now = crate::clock::now_millis();
        self.clear_history_at(now);
    }

    /// Records that an execution of `goal` started under `execution_id`,
    /// replacing an earlier record under the same id.
    pub fn track_execution(&mut self, execution_id: &str, goal: &str)
        ensures
            final(self).active_executions@.drop_last() == without_execution(old(self).active_executions@, execution_id@),
            final(self).active_executions@.len() > 0,
            final(self).active_executions@.last().0@ == execution_id@,
            final(self).active_executions@.last().1 matches AutomationDecision::Execute { execution_id: x, goal: g }
                && x@ == execution_id@ && g@ == goal@,
            final(self).history == old(self).history,
            final(self).context == old(self).context,
            final(self).id == old(self).id,
    {
        let ghost src = self.active_executions@;
        let mut kept: Vec<(String, AutomationDecision)> = Vec::new();
        let mut rest: Vec<(String, AutomationDecision)> = Vec::new();
        std::mem::swap(&mut rest, &mut self.active_executions);
        let ghost k: int = 0;
        assert(src.take(0) =~= Seq::<(String, AutomationDecision)>::empty());
        assert(src.skip(0) =~= src);
        while rest.len() > 0
            invariant
                0 <= k <= src.len(),
                rest@ == src.skip(k),
                kept@ == without_execution(src.take(k), execution_id@),
            decreases rest@.len(),
        {
            let e = rest.remove(0);
            proof {
                assert(e == src[k]);
                assert(src.take(k + 1).drop_last() =~= src.take(k));
                assert(src.take(k + 1).last() == e);
                assert(rest@ =~= src.skip(k + 1));
            }
            if !crate::text::str_eq(e.0.as_str(), execution_id) {
                kept.push(e);
            }
            proof {
                k = k + 1;
            }
        }
        assert(k == src.len());
        assert(src.take(k) =~= src);
        kept.push((
            String::from_str(execution_id),
            AutomationDecision::Execute { execution_id: String::from_str(execution_id), goal: String::from_str(goal) },
        ));
        self.active_executions = kept;
    }
}


/// The first word of a text.
pub open spec fn first_word(s: Seq<char>) -> Option<Seq<char>> {
    if words_of(s).len() > 0 { Some(words_of(s)[0]) } else { None }
}

/// The hints offered when a request is not understood, by its first word.
pub open spec fn clarify_options(w: Option<Seq<char>>) -> Seq<Seq<char>> {
    let general = seq!["Try rephrasing your request"@, "I can open apps, search, click, type, scroll, and more"@];
    match w {
        Some(x) => if x == "open"@ || x == "launch"@ || x == "start"@ {
            seq!["Try specifying the application name, e.g. 'open chrome'"@]
        } else if x == "search"@ || x == "find"@ {
            seq!["Try specifying what to search for, e.g. 'search for weather'"@]
        } else if x == "click"@ || x == "tap"@ || x == "press"@ {
            seq!["Try specifying what to click, e.g. 'click the submit button'"@]
        } else if x == "type"@ || x == "enter"@ {
            seq!["Try specifying what to type, e.g. 'type hello world'"@]
        } else {
            general
        },
        None => general,
    }
}

fn one_hint(h: &str) -> (r: Vec<String>)
    ensures
        string_views(r@) == seq![h@],
{
    let r = vec![String::from_str(h)];
    assert(string_views(r@) =~= seq![h@]);
    r
}

fn hints_for(w: Option<&str>) -> (r: Vec<String>)
    ensures
        string_views(r@) == clarify_options(match w { Some(x) => Some(x@), None => None }),
{
    let is = |a: &str, b: &str| -> (e: bool)
        ensures
            e == (a@ == b@),
    { crate::text::str_eq(a, b) };
    match w {
        Some(x) => {
            if is(x, "open") || is(x, "launch") || is(x, "start") {
                return one_hint("Try specifying the application name, e.g. 'open chrome'");
            } else if is(x, "search") || is(x, "find") {
                return one_hint("Try specifying what to search for, e.g. 'search for weather'");
            } else if is(x, "click") || is(x, "tap") || is(x, "press") {
                return one_hint("Try specifying what to click, e.g. 'click the submit button'");
            } else if is(x, "type") || is(x, "enter") {
                return one_hint("Try specifying what to type, e.g. 'type hello world'");
            }
        },
        None => {},
    }
    let r = vec![
        String::from_str("Try rephrasing your request"),
        String::from_str("I can open apps, search, click, type, scroll, and more"),
    ];
    assert(string_views(r@) =~= seq!["Try rephrasing your request"@, "I can open apps, search, click, type, scroll, and more"@]);
    r
}

/// `r` is a failed answer whose message and error decision are `msg`.
pub open spec fn error_answer(r: AutomationResponse, msg: Seq<char>) -> bool {
    &&& !r.success
    &&& r.message@ == msg
    &&& r.decision matches AutomationDecision::Error { message } && message@ == msg
    &&& r.execution_id is None
    &&& r.suggestions@.len() == 0
}

/// `r` answers a request `text` from which no intent could be read: with
/// clarification enabled, a question back with hints chosen by the request's
/// first word; otherwise an error.
pub open spec fn clarification_answer(r: AutomationResponse, text: Seq<char>, enable_clarification: bool) -> bool {
    if enable_clarification {
        &&& r.success
        &&& r.message@ == "clarification needed"@
        &&& r.execution_id is None
        &&& r.decision matches AutomationDecision::Clarify { question, options }
            && question@ == "I'm not sure what you mean by '"@ + text + "'. Could you be more specific?"@
            && string_views(options@) == clarify_options(first_word(lowercase(text)))
        &&& string_views(r.suggestions@) == seq!["Try: 'open chrome'"@, "Try: 'search for weather'"@]
    } else {
        error_answer(r, "unrecognized request: "@ + text)
    }
}

/// `r` asks for a request to be put another way, as when parsing gave no
/// intent at all.
pub open spec fn unclear_answer(r: AutomationResponse) -> bool {
    &&& r.success
    &&& r.message@ == "unclear request"@
    &&& r.decision matches AutomationDecision::Clarify { question, options }
        && question@ == "I couldn't understand your request. Could you rephrase it?"@ && options@.len() == 0
    &&& r.execution_id is None
    &&& r.suggestions@.len() == 0
}

/// `r` answers the submission of goal `goal` of `estimated_steps` steps:
/// an execute decision under the id it got, or the submission error.
pub open spec fn submission_answer(r: AutomationResponse, goal: Seq<char>, estimated_steps: usize, submitted: Result<String, String>) -> bool {
    match submitted {
        Ok(id) => r.success && (r.execution_id matches Some(x) && x@ == id@)
            && (r.decision matches AutomationDecision::Execute { execution_id, goal: g }
                && execution_id@ == id@ && g@ == goal)
            && r.message@ == "executing: "@ + goal + " ("@ + decimal(estimated_steps as nat) + " step(s))"@
            && r.suggestions@.len() == 0,
        Err(e) => error_answer(r, "submission failed: "@ + e@),
    }
}

/// The answer to a request no intent could be read from: with clarification
/// enabled, a question back with hints chosen by the request's first word;
/// otherwise an error.
pub fn clarification_for(text: &str, enable_clarification: bool) -> (r: AutomationResponse)
    ensures
        clarification_answer(r, text@, enable_clarification),
{
    if !enable_clarification {
        let mut m = String::new();
        push_str(&mut m, "unrecognized request: ");
        push_str(&mut m, text);
        assert(m@ =~= "unrecognized request: "@ + text@);
        return AutomationResponse::error(m.as_str());
    }
    let low = to_lowercase(text);
    let cs = to_chars(low.as_str());
    let ws = split_words(cs.as_slice());
    let first = if ws.len() > 0 { Some(from_chars(ws[0].as_slice())) } else { None };
    proof {
        if ws@.len() > 0 {
            assert(ws@.map_values(|v: Vec<char>| v@)[0] == ws@[0]@);
        }
    }
    let options = match &first {
        Some(w) => hints_for(Some(w.as_str())),
        None => hints_for(None),
    };
    let mut q = String::new();
    push_str(&mut q, "I'm not sure what you mean by '");
    push_str(&mut q, text);
    push_str(&mut q, "'. Could you be more specific?");
    assert(q@ =~= "I'm not sure what you mean by '"@ + text@ + "'. Could you be more specific?"@);
    let r = AutomationResponse::success(AutomationDecision::Clarify { question: q, options }, "clarification needed");
    let r = r.with_suggestion("Try: 'open chrome'");
    let r = r.with_suggestion("Try: 'search for weather'");
    assert(string_views(r.suggestions@) =~= seq!["Try: 'open chrome'"@, "Try: 'search for weather'"@]);
    r
}

/// The text of a request without surrounding white space; an empty request
/// is refused.
pub fn request_text(request: &AutomationRequest) -> (r: Result<String, BridgeError>)
    ensures
        match r {
            Ok(t) => t@ == trim(request.text@) && t@.len() > 0,
            Err(e) => trim(request.text@).len() == 0
                && (e matches BridgeError::InvalidRequest(m) && m@ == "request text cannot be empty"@),
        },
{
    let cs = to_chars(request.text.as_str());
    let t = trim_chars(cs.as_slice());
    if t.len() == 0 {
        Err(BridgeError::InvalidRequest(String::from_str("request text cannot be empty")))
    } else {
        Ok(from_chars(t.as_slice()))
    }
}

/// The answer when parsing gave no intent at all.
pub fn unclear_response() -> (r: AutomationResponse)
    ensures
        unclear_answer(r),
{
    AutomationResponse::success(
        AutomationDecision::Clarify {
            question: String::from_str("I couldn't understand your request. Could you rephrase it?"),
            options: Vec::new(),
        },
        "unclear request",
    )
}

fn error_with(prefix: &str, detail: &str) -> (r: AutomationResponse)
    ensures
        error_answer(r, prefix@ + detail@),
{
    let mut m = String::new();
    push_str(&mut m, prefix);
    push_str(&mut m, detail);
    assert(m@ =~= prefix@ + detail@);
    AutomationResponse::error(m.as_str())
}

/// The answer when no registered goal matches the request.
pub fn no_goal_response(text: &str) -> (r: AutomationResponse)
    ensures
        error_answer(r, "could not find a matching goal for '"@ + text@ + "'"@),
{
    let mut m = String::new();
    push_str(&mut m, "could not find a matching goal for '");
    push_str(&mut m, text);
    push_str(&mut m, "'");
    assert(m@ =~= "could not find a matching goal for '"@ + text@ + "'"@);
    AutomationResponse::error(m.as_str())
}

/// The answer when planning the goal failed.
pub fn planning_failed_response(error: &str) -> (r: AutomationResponse)
    ensures
        error_answer(r, "planning failed: "@ + error@),
{
    error_with("planning failed: ", error)
}

/// The answer once the planned goal was handed to the execution manager:
/// an execute decision under the id it got, or the submission error.
pub fn submission_response(goal: &str, estimated_steps: usize, submitted: Result<String, String>) -> (r: AutomationResponse)
    ensures
        submission_answer(r, goal@, estimated_steps, submitted),
{
    match submitted {
        Ok(id) => {
            let mut m = String::new();
            push_str(&mut m, "executing: ");
            push_str(&mut m, goal);
            push_str(&mut m, " (");
            push_decimal(&mut m, estimated_steps as u64);
            push_str(&mut m, " step(s))");
            assert(m@ =~= "executing: "@ + goal@ + " ("@ + decimal(estimated_steps as nat) + " step(s))"@);
            let d = AutomationDecision::Execute { execution_id: String::from_str(id.as_str()), goal: String::from_str(goal) };
            let r = AutomationResponse::success(d, m.as_str());
            assert(r.message@ == m@);
            r.with_execution_id(id.as_str())
        },
        Err(e) => error_with("submission failed: ", e.as_str()),
    }
}

/// The answer to a cancellation: cancelled, or why not.
pub fn cancellation_response(execution_id: &str, result: Result<(), String>) -> (r: AutomationResponse)
    ensures
        match result {
            Ok(()) => r.success && r.message@ == "cancelled execution "@ + execution_id@
                && (r.decision matches AutomationDecision::Cancelled { execution_id: x } && x@ == execution_id@),
            Err(e) => !r.success && r.message@ == "cancellation failed: "@ + e@
                && (r.decision matches AutomationDecision::Error { message } && message@ == r.message@),
        },
{
    match result {
        Ok(()) => {
            let mut m = String::new();
            push_str(&mut m, "cancelled execution ");
            push_str(&mut m, execution_id);
            assert(m@ =~= "cancelled execution "@ + execution_id@);
            let r = AutomationResponse::success(AutomationDecision::Cancelled { execution_id: String::from_str(execution_id) }, m.as_str());
            assert(r.message@ == m@);
            r
        },
        Err(e) => error_with("cancellation failed: ", e.as_str()),
    }
}

/// What the bridge can do.
pub fn capabilities() -> (r: Vec<AutomationCapability>)
    ensures
        r@ == seq![
            AutomationCapability::NaturalLanguage,
            AutomationCapability::MultiStep,
            AutomationCapability::Cancellation,
            AutomationCapability::Clarification,
            AutomationCapability::ContextAware,
            AutomationCapability::PriorityScheduling,
        ],
{
    let r = vec![
        AutomationCapability::NaturalLanguage,
        AutomationCapability::MultiStep,
        AutomationCapability::Cancellation,
        AutomationCapability::Clarification,
        AutomationCapability::ContextAware,
        AutomationCapability::PriorityScheduling,
    ];
    assert(r@ =~= seq![
        AutomationCapability::NaturalLanguage,
        AutomationCapability::MultiStep,
        AutomationCapability::Cancellation,
        AutomationCapability::Clarification,
        AutomationCapability::ContextAware,
        AutomationCapability::PriorityScheduling,
    ]);
    r
}

impl AutomationMetrics {
    /// Takes in a request that took `elapsed_ms`: a clarification is
    /// counted, the average time moves halfway towards it (or becomes it, at
    /// first), and the peak number of sessions rises to `session_count`.
    pub fn observe(&mut self, elapsed_ms: u64, clarification: bool, session_count: u64)
        requires
            clarification ==> old(self).clarifications_requested < u64::MAX,
            old(self).average_processing_time_ms + elapsed_ms <= u64::MAX,
        ensures
            final(self).clarifications_requested == old(self).clarifications_requested + if clarification { 1u64 } else { 0u64 },
            final(self).average_processing_time_ms == if old(self).average_processing_time_ms == 0 {
                elapsed_ms as int
            } else {
                (old(self).average_processing_time_ms + elapsed_ms) / 2
            },
            final(self).peak_sessions == if session_count > old(self).peak_sessions { session_count } else { old(self).peak_sessions },
            final(self).total_requests == old(self).total_requests,
            final(self).successful_executions == old(self).successful_executions,
            final(self).failed_executions == old(self).failed_executions,
            final(self).cancelled_requests == old(self).cancelled_requests,
    {
        if clarification {
            self.clarifications_requested = self.clarifications_requested + 1;
        }
        if self.average_processing_time_ms == 0 {
            self.average_processing_time_ms = elapsed_ms;
        } else {
            self.average_processing_time_ms = (self.average_processing_time_ms + elapsed_ms) / 2;
        }
        if session_count > self.peak_sessions {
            self.peak_sessions = session_count;
        }
    }
}


/// How far a request got through the bridge, with what the steps outside
/// the library (parsing, goal matching, planning, submission) answered.
#[derive(Debug)]
pub enum RequestStage {
    /// The parser could not tell the request's intent.
    Unrecognized,
    /// The parser found no intent in it.
    NoIntent,
    /// No registered goal matched its intent.
    NoGoal,
    /// Planning the matched goal failed with this error.
    PlanningFailed(String),
    /// The planned goal, of `estimated_steps` steps, was submitted for
    /// execution with this result: its execution id, or the error.
    Submitted { goal: String, estimated_steps: usize, result: Result<String, String> },
}

/// A counter one higher, staying at its maximum.
pub open spec fn count_up(x: u64) -> u64 {
    if x == u64::MAX { x } else { (x + 1) as u64 }
}

/// The counters after taking in a request that took `elapsed_ms` while
/// `session_count` sessions were open: a clarification is counted, the
/// average time moves halfway towards it (or becomes it, at first), and the
/// peak number of sessions rises to `session_count`.
pub open spec fn observed(m: AutomationMetrics, elapsed_ms: u64, clarification: bool, session_count: u64) -> AutomationMetrics {
    AutomationMetrics {
        clarifications_requested: if clarification { count_up(m.clarifications_requested) } else { m.clarifications_requested },
        average_processing_time_ms: if m.average_processing_time_ms == 0 {
            elapsed_ms
        } else {
            ((m.average_processing_time_ms + elapsed_ms) / 2) as u64
        },
        peak_sessions: if session_count > m.peak_sessions { session_count } else { m.peak_sessions },
        ..m
    }
}

/// The counters after a request ended at `stage`: an unrecognized request
/// counts as a clarification and is timed as one (so it counts twice among
/// the clarifications); a request with no intent counts as a clarification;
/// a request with no goal, failed planning or a failed submission counts as
/// a failure; a submitted one counts as a success and is timed.
pub open spec fn metrics_after_stage(m: AutomationMetrics, stage: RequestStage, elapsed_ms: u64, session_count: u64) -> AutomationMetrics {
    match stage {
        RequestStage::Unrecognized => observed(
            AutomationMetrics { clarifications_requested: count_up(m.clarifications_requested), ..m },
            elapsed_ms,
            true,
            session_count,
        ),
        RequestStage::NoIntent => AutomationMetrics { clarifications_requested: count_up(m.clarifications_requested), ..m },
        RequestStage::Submitted { result: Ok(_), .. } => observed(
            AutomationMetrics { successful_executions: count_up(m.successful_executions), ..m },
            elapsed_ms,
            false,
            session_count,
        ),
        _ => AutomationMetrics { failed_executions: count_up(m.failed_executions), ..m },
    }
}

/// `r` is the answer to request `text` that ended at `stage`.
pub open spec fn stage_answer(r: AutomationResponse, text: Seq<char>, enable_clarification: bool, stage: RequestStage) -> bool {
    match stage {
        RequestStage::Unrecognized => clarification_answer(r, text, enable_clarification),
        RequestStage::NoIntent => unclear_answer(r),
        RequestStage::NoGoal => error_answer(r, "could not find a matching goal for '"@ + text + "'"@),
        RequestStage::PlanningFailed(e) => error_answer(r, "planning failed: "@ + e@),
        RequestStage::Submitted { goal, estimated_steps, result } => submission_answer(r, goal@, estimated_steps, result),
    }
}

fn count_up_exec(x: u64) -> (r: u64)
    ensures
        r == count_up(x),
{
    if x == u64::MAX { x } else { x + 1 }
}

/// Concludes a request `text` that ended at `stage`, after `elapsed_ms`,
/// with `session_count` sessions open: the answer to give, and the counters
/// updated. A counter at its maximum stays there.
pub fn conclude_request(
    metrics: &mut AutomationMetrics,
    text: &str,
    enable_clarification: bool,
    stage: RequestStage,
    elapsed_ms: u64,
    session_count: u64,
) -> (r: AutomationResponse)
    ensures
        stage_answer(r, text@, enable_clarification, stage),
        *final(metrics) == metrics_after_stage(*old(metrics), stage, elapsed_ms, session_count),
{
    let unrecognized = match &stage {
        RequestStage::Unrecognized => true,
        _ => false,
    };
    let clarify = match &stage {
        RequestStage::Unrecognized => true,
        RequestStage::NoIntent => true,
        _ => false,
    };
    if clarify {
        metrics.clarifications_requested = count_up_exec(metrics.clarifications_requested);
    }
    let timed = match &stage {
        RequestStage::Unrecognized => true,
        RequestStage::Submitted { result: Ok(_), .. } => true,
        _ => false,
    };
    let failed = match &stage {
        RequestStage::NoGoal => true,
        RequestStage::PlanningFailed(_) => true,
        RequestStage::Submitted { result: Err(_), .. } => true,
        _ => false,
    };
    if failed {
        metrics.failed_executions = count_up_exec(metrics.failed_executions);
    }
    let response = match stage {
        RequestStage::Unrecognized => clarification_for(text, enable_clarification),
        RequestStage::NoIntent => unclear_response(),
        RequestStage::NoGoal => no_goal_response(text),
        RequestStage::PlanningFailed(e) => planning_failed_response(e.as_str()),
        RequestStage::Submitted { goal, estimated_steps, result } => {
            if result.is_ok() {
                metrics.successful_executions = count_up_exec(metrics.successful_executions);
            }
            submission_response(goal.as_str(), estimated_steps, result)
        },
    };
    if timed {
        if unrecognized {
            metrics.clarifications_requested = count_up_exec(metrics.clarifications_requested);
        }
        let avg = metrics.average_processing_time_ms;
        metrics.average_processing_time_ms = if avg == 0 {
            elapsed_ms
        } else {
            avg / 2 + elapsed_ms / 2 + (avg % 2 + elapsed_ms % 2) / 2
        };
        if session_count > metrics.peak_sessions {
            metrics.peak_sessions = session_count;
        }
    }
    response
}

} // verus!
