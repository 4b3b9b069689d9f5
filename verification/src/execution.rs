//! What running a workflow step gave, and which executor handles an action.
use vstd::prelude::*;
use vstd::string::StringExecFns;
use crate::action::{param_i32, param_u64, ActionResult, ActionType, InputInjectionParams};
use crate::condition::{context_get, ctx_get, ConditionResult};
use crate::consent_gate::ConsentDecision;
use crate::events::AutomationEventPayload;
use crate::history::{run_status, run_status_of, ExecutionStatus};
use crate::keyed::string_views;
use crate::text::{
    decimal, eq_ignore_ascii_case, from_chars, has_sub, lowercase, push_decimal, push_str, split_chars,
    split_on, str_contains, str_eq,
    str_eq_ignore_ascii_case, to_chars, to_lowercase, trim, trim_chars,
};

verus! {

/// The result of one workflow step.
#[derive(Debug)]
pub struct StepOutcome {
    pub step_id: String,
    pub step_index: usize,
    pub success: bool,
    pub message: String,
    pub data: Option<String>,
}

/// The name of an action's kind.
pub open spec fn kind_name(a: ActionType) -> Seq<char> {
    match a {
        ActionType::Speak { .. } => "speak"@,
        ActionType::Notify { .. } => "notify"@,
        ActionType::OpenApp { .. } => "open_app"@,
        ActionType::LaunchActivity { .. } => "launch_activity"@,
        ActionType::Clipboard { .. } => "clipboard"@,
        ActionType::CreateMemory { .. } => "create_memory"@,
        ActionType::SearchMemory { .. } => "search_memory"@,
        ActionType::RunAI { .. } => "run_ai"@,
        ActionType::CaptureVoice { .. } => "capture_voice"@,
        ActionType::AnalyzeImage { .. } => "analyze_image"@,
        ActionType::DeviceControl { .. } => "device_control"@,
        ActionType::PluginInvocation { .. } => "plugin"@,
        ActionType::Wait { .. } => "wait"@,
        ActionType::SubWorkflow { .. } => "sub_workflow"@,
        ActionType::InputInjection(..) => "input_injection"@,
        ActionType::ClickScreenElement { .. } => "click_screen_element"@,
        ActionType::TypeIntoScreenElement { .. } => "type_into_screen_element"@,
        ActionType::ClickScreenText { .. } => "click_screen_text"@,
        ActionType::DragScreenElements { .. } => "drag_screen_elements"@,
        ActionType::SwipeScreenElements { .. } => "swipe_screen_elements"@,
    }
}

/// The name of an action's kind, as events report it.
pub fn action_kind_name(action: &ActionType) -> (r: &'static str)
    ensures
        r@ == kind_name(*action),
{
    match action {
        ActionType::Speak { .. } => "speak",
        ActionType::Notify { .. } => "notify",
        ActionType::OpenApp { .. } => "open_app",
        ActionType::LaunchActivity { .. } => "launch_activity",
        ActionType::Clipboard { .. } => "clipboard",
        ActionType::CreateMemory { .. } => "create_memory",
        ActionType::SearchMemory { .. } => "search_memory",
        ActionType::RunAI { .. } => "run_ai",
        ActionType::CaptureVoice { .. } => "capture_voice",
        ActionType::AnalyzeImage { .. } => "analyze_image",
        ActionType::DeviceControl { .. } => "device_control",
        ActionType::PluginInvocation { .. } => "plugin",
        ActionType::Wait { .. } => "wait",
        ActionType::SubWorkflow { .. } => "sub_workflow",
        ActionType::InputInjection(..) => "input_injection",
        ActionType::ClickScreenElement { .. } => "click_screen_element",
        ActionType::TypeIntoScreenElement { .. } => "type_into_screen_element",
        ActionType::ClickScreenText { .. } => "click_screen_text",
        ActionType::DragScreenElements { .. } => "drag_screen_elements",
        ActionType::SwipeScreenElements { .. } => "swipe_screen_elements",
    }
}

/// The executor registered for an action kind.
pub open spec fn executor_for(kind: Seq<char>) -> Seq<char> {
    if kind == "click_screen_element"@ || kind == "click_screen_text"@ {
        "click"@
    } else if kind == "type_into_screen_element"@ {
        "type"@
    } else if kind == "drag_screen_elements"@ {
        "drag"@
    } else if kind == "swipe_screen_elements"@ {
        "swipe"@
    } else {
        "default"@
    }
}

/// The name of the executor that handles an action kind.
pub fn named_executor_for(action_kind: &str) -> (r: &'static str)
    ensures
        r@ == executor_for(action_kind@),
{
    if crate::text::str_eq(action_kind, "click_screen_element") || crate::text::str_eq(action_kind, "click_screen_text") {
        "click"
    } else if crate::text::str_eq(action_kind, "type_into_screen_element") {
        "type"
    } else if crate::text::str_eq(action_kind, "drag_screen_elements") {
        "drag"
    } else if crate::text::str_eq(action_kind, "swipe_screen_elements") {
        "swipe"
    } else {
        "default"
    }
}


/// A mouse button.
#[derive(Debug, Clone, Copy, PartialEq, Eq, Structural)]
pub enum MouseButton {
    Left,
    Right,
    Middle,
}

/// A modifier key held with a key press.
#[derive(Debug, Clone, Copy, PartialEq, Eq, Structural)]
pub enum Modifier {
    Ctrl,
    Alt,
    Shift,
    Win,
    Meta,
}

/// A point on screen.
#[derive(Debug, Clone, Copy, PartialEq, Eq, Structural)]
pub struct ScreenPoint {
    pub x: i32,
    pub y: i32,
}

/// An input action ready for an input engine. A pinch's scale is a
/// fractional number and is read from the parameters by whoever runs it.
#[derive(Debug)]
pub enum InputCommand {
    Click { point: ScreenPoint, button: MouseButton, count: u32 },
    Move { point: ScreenPoint, absolute: bool },
    Drag { from: ScreenPoint, to: ScreenPoint, button: MouseButton },
    Scroll { delta_x: i32, delta_y: i32 },
    TypeText { text: String },
    KeyPress { key: String, modifiers: Vec<Modifier> },
    KeyRelease { key: String },
    Hotkey { keys: Vec<String> },
    Tap { point: ScreenPoint },
    DoubleTap { point: ScreenPoint },
    LongPress { point: ScreenPoint, duration_ms: u64 },
    Swipe { from: ScreenPoint, to: ScreenPoint, duration_ms: u64 },
    Pinch { center: ScreenPoint, duration_ms: u64 },
    Wait { duration_ms: u64 },
}

/// The button a parameter names: right or middle, in any ASCII case, else left.
pub open spec fn mouse_button_of(b: Option<Seq<char>>) -> MouseButton {
    match b {
        Some(s) => if eq_ignore_ascii_case(s, "right"@) {
            MouseButton::Right
        } else if eq_ignore_ascii_case(s, "middle"@) {
            MouseButton::Middle
        } else {
            MouseButton::Left
        },
        None => MouseButton::Left,
    }
}

/// The modifier a lower-case name stands for; an unknown name is Ctrl.
pub open spec fn modifier_named(w: Seq<char>) -> Modifier {
    if w == "ctrl"@ || w == "control"@ {
        Modifier::Ctrl
    } else if w == "alt"@ {
        Modifier::Alt
    } else if w == "shift"@ {
        Modifier::Shift
    } else if w == "win"@ || w == "windows"@ || w == "super"@ {
        Modifier::Win
    } else if w == "meta"@ || w == "cmd"@ || w == "command"@ {
        Modifier::Meta
    } else {
        Modifier::Ctrl
    }
}

/// The modifiers of a comma-separated list, each trimmed and lower-cased.
pub open spec fn modifiers_of(raw: Option<Seq<char>>) -> Seq<Modifier> {
    match raw {
        Some(s) => split_on(s, ',').map_values(|p: Seq<char>| modifier_named(lowercase(trim(p)))),
        None => Seq::empty(),
    }
}

/// The keys of a comma-separated list, each trimmed.
pub open spec fn hotkey_keys(raw: Seq<char>) -> Seq<Seq<char>> {
    split_on(raw, ',').map_values(|p: Seq<char>| trim(p))
}

/// A text parameter, empty when absent.
pub open spec fn param_text(ps: Seq<(String, String)>, key: Seq<char>) -> Seq<char> {
    match ctx_get(ps, key) {
        Some(v) => v,
        None => Seq::empty(),
    }
}

/// The point of two coordinate parameters, each 0 when absent.
pub open spec fn point_of(ps: Seq<(String, String)>, kx: Seq<char>, ky: Seq<char>) -> ScreenPoint {
    ScreenPoint { x: param_i32(ps, kx, 0), y: param_i32(ps, ky, 0) }
}

/// The command an input action type and its parameters call for, or the
/// error for an action type no engine knows.
pub open spec fn command_for(kind: Seq<char>, ps: Seq<(String, String)>, r: Result<InputCommand, String>) -> bool {
    let xy = point_of(ps, "x"@, "y"@);
    let from = point_of(ps, "from_x"@, "from_y"@);
    let to = point_of(ps, "to_x"@, "to_y"@);
    let button = mouse_button_of(ctx_get(ps, "button"@));
    if kind == "click"@ {
        r matches Ok(InputCommand::Click { point, button: b, count })
            && point == xy && b == button && count == param_i32(ps, "count"@, 1) as u32
    } else if kind == "double_click"@ {
        r matches Ok(InputCommand::Click { point, button: b, count }) && point == xy && b == button && count == 2
    } else if kind == "right_click"@ {
        r matches Ok(InputCommand::Click { point, button: b, count })
            && point == xy && b == MouseButton::Right && count == 1
    } else if kind == "move"@ {
        r matches Ok(InputCommand::Move { point, absolute }) && point == xy && absolute
    } else if kind == "drag"@ {
        r matches Ok(InputCommand::Drag { from: f, to: t, button: b }) && f == from && t == to && b == button
    } else if kind == "scroll"@ {
        r matches Ok(InputCommand::Scroll { delta_x, delta_y })
            && delta_x == param_i32(ps, "delta_x"@, 0) && delta_y == param_i32(ps, "delta_y"@, 0)
    } else if kind == "type"@ {
        r matches Ok(InputCommand::TypeText { text }) && text@ == param_text(ps, "text"@)
    } else if kind == "key_press"@ {
        r matches Ok(InputCommand::KeyPress { key, modifiers })
            && key@ == param_text(ps, "key"@) && modifiers@ == modifiers_of(ctx_get(ps, "modifiers"@))
    } else if kind == "key_release"@ {
        r matches Ok(InputCommand::KeyRelease { key }) && key@ == param_text(ps, "key"@)
    } else if kind == "hotkey"@ {
        r matches Ok(InputCommand::Hotkey { keys }) && string_views(keys@) == hotkey_keys(param_text(ps, "keys"@))
    } else if kind == "tap"@ {
        r matches Ok(InputCommand::Tap { point }) && point == xy
    } else if kind == "double_tap"@ {
        r matches Ok(InputCommand::DoubleTap { point }) && point == xy
    } else if kind == "long_press"@ {
        r matches Ok(InputCommand::LongPress { point, duration_ms })
            && point == xy && duration_ms == param_u64(ps, "duration_ms"@, 500)
    } else if kind == "swipe"@ {
        r matches Ok(InputCommand::Swipe { from: f, to: t, duration_ms })
            && f == from && t == to && duration_ms == param_u64(ps, "duration_ms"@, 200)
    } else if kind == "pinch"@ {
        r matches Ok(InputCommand::Pinch { center, duration_ms })
            && center == xy && duration_ms == param_u64(ps, "duration_ms"@, 300)
    } else if kind == "back"@ || kind == "home"@ || kind == "recents"@ {
        r matches Ok(InputCommand::KeyPress { key, modifiers }) && key@ == kind && modifiers@.len() == 0
    } else if kind == "wait"@ {
        r matches Ok(InputCommand::Wait { duration_ms }) && duration_ms == param_u64(ps, "duration_ms"@, 1000)
    } else {
        r matches Err(m) && m@ == "unsupported input action: "@ + kind
    }
}

fn button_param(ps: &[(String, String)]) -> (b: MouseButton)
    ensures
        b == mouse_button_of(ctx_get(ps@, "button"@)),
{
    match context_get(ps, "button") {
        Some(v) => {
            if str_eq_ignore_ascii_case(v.as_str(), "right") {
                MouseButton::Right
            } else if str_eq_ignore_ascii_case(v.as_str(), "middle") {
                MouseButton::Middle
            } else {
                MouseButton::Left
            }
        },
        None => MouseButton::Left,
    }
}

fn text_param(ps: &[(String, String)], key: &str) -> (t: String)
    ensures
        t@ == param_text(ps@, key@),
{
    match context_get(ps, key) {
        Some(v) => String::from_str(v.as_str()),
        None => String::new(),
    }
}

fn modifier_from(w: &str) -> (m: Modifier)
    ensures
        m == modifier_named(w@),
{
    if str_eq(w, "ctrl") || str_eq(w, "control") {
        Modifier::Ctrl
    } else if str_eq(w, "alt") {
        Modifier::Alt
    } else if str_eq(w, "shift") {
        Modifier::Shift
    } else if str_eq(w, "win") || str_eq(w, "windows") || str_eq(w, "super") {
        Modifier::Win
    } else if str_eq(w, "meta") || str_eq(w, "cmd") || str_eq(w, "command") {
        Modifier::Meta
    } else {
        Modifier::Ctrl
    }
}

fn modifiers_param(ps: &[(String, String)]) -> (r: Vec<Modifier>)
    ensures
        r@ == modifiers_of(ctx_get(ps@, "modifiers"@)),
{
    match context_get(ps, "modifiers") {
        None => Vec::new(),
        Some(raw) => {
            let cs = to_chars(raw.as_str());
            let pieces = split_chars(cs.as_slice(), ',');
            let ghost spec_pieces = split_on(raw@, ',');
            let mut out: Vec<Modifier> = Vec::new();
            let mut i: usize = 0;
            while i < pieces.len()
                invariant
                    pieces@.map_values(|v: Vec<char>| v@) == spec_pieces,
                    i <= pieces@.len(),
                    out@ == spec_pieces.take(i as int).map_values(
                        |p: Seq<char>| modifier_named(lowercase(trim(p))),
                    ),
                decreases pieces.len() - i,
            {
                let t = trim_chars(pieces[i].as_slice());
                let ts = from_chars(t.as_slice());
                let low = to_lowercase(ts.as_str());
                let m = modifier_from(low.as_str());
                proof {
                    assert(spec_pieces[i as int] == pieces@[i as int]@);
                }
                out.push(m);
                assert(out@ =~= spec_pieces.take(i + 1).map_values(
                    |p: Seq<char>| modifier_named(lowercase(trim(p))),
                ));
                i = i + 1;
            }
            assert(spec_pieces.take(pieces@.len() as int) =~= spec_pieces);
            out
        },
    }
}

fn hotkey_param(ps: &[(String, String)]) -> (r: Vec<String>)
    ensures
        string_views(r@) == hotkey_keys(param_text(ps@, "keys"@)),
{
    let raw = text_param(ps, "keys");
    let cs = to_chars(raw.as_str());
    let pieces = split_chars(cs.as_slice(), ',');
    let ghost spec_pieces = split_on(raw@, ',');
    let mut out: Vec<String> = Vec::new();
    let mut i: usize = 0;
    while i < pieces.len()
        invariant
            pieces@.map_values(|v: Vec<char>| v@) == spec_pieces,
            i <= pieces@.len(),
            string_views(out@) == spec_pieces.take(i as int).map_values(|p: Seq<char>| trim(p)),
        decreases pieces.len() - i,
    {
        let t = trim_chars(pieces[i].as_slice());
        let ts = from_chars(t.as_slice());
        proof {
            assert(spec_pieces[i as int] == pieces@[i as int]@);
        }
        let ghost before = out@;
        out.push(ts);
        assert(string_views(out@) =~= string_views(before).push(trim(spec_pieces[i as int])));
        assert(spec_pieces.take(i + 1).map_values(|p: Seq<char>| trim(p)) =~= spec_pieces.take(
            i as int,
        ).map_values(|p: Seq<char>| trim(p)).push(trim(spec_pieces[i as int])));
        i = i + 1;
    }
    assert(spec_pieces.take(pieces@.len() as int) =~= spec_pieces);
    out
}

fn point_param(params: &InputInjectionParams, kx: &str, ky: &str) -> (p: ScreenPoint)
    ensures
        p == point_of(params.params@, kx@, ky@),
{
    ScreenPoint { x: params.get_i32(kx, 0), y: params.get_i32(ky, 0) }
}

/// The input command for an injection's action type and parameters; an
/// action type no engine knows is an error that names it.
pub fn input_command_for(params: &InputInjectionParams) -> (r: Result<InputCommand, String>)
    ensures
        command_for(params.action_type@, params.params@, r),
{
    let kind = params.action_type.as_str();
    let ps = params.params.as_slice();
    if str_eq(kind, "click") {
        let count = params.get_i32("count", 1);
        Ok(InputCommand::Click { point: point_param(params, "x", "y"), button: button_param(ps), count: count as u32 })
    } else if str_eq(kind, "double_click") {
        Ok(InputCommand::Click { point: point_param(params, "x", "y"), button: button_param(ps), count: 2 })
    } else if str_eq(kind, "right_click") {
        Ok(InputCommand::Click { point: point_param(params, "x", "y"), button: MouseButton::Right, count: 1 })
    } else if str_eq(kind, "move") {
        Ok(InputCommand::Move { point: point_param(params, "x", "y"), absolute: true })
    } else if str_eq(kind, "drag") {
        Ok(InputCommand::Drag {
            from: point_param(params, "from_x", "from_y"),
            to: point_param(params, "to_x", "to_y"),
            button: button_param(ps),
        })
    } else if str_eq(kind, "scroll") {
        Ok(InputCommand::Scroll { delta_x: params.get_i32("delta_x", 0), delta_y: params.get_i32("delta_y", 0) })
    } else if str_eq(kind, "type") {
        Ok(InputCommand::TypeText { text: text_param(ps, "text") })
    } else if str_eq(kind, "key_press") {
        Ok(InputCommand::KeyPress { key: text_param(ps, "key"), modifiers: modifiers_param(ps) })
    } else if str_eq(kind, "key_release") {
        Ok(InputCommand::KeyRelease { key: text_param(ps, "key") })
    } else if str_eq(kind, "hotkey") {
        Ok(InputCommand::Hotkey { keys: hotkey_param(ps) })
    } else if str_eq(kind, "tap") {
        Ok(InputCommand::Tap { point: point_param(params, "x", "y") })
    } else if str_eq(kind, "double_tap") {
        Ok(InputCommand::DoubleTap { point: point_param(params, "x", "y") })
    } else if str_eq(kind, "long_press") {
        Ok(InputCommand::LongPress { point: point_param(params, "x", "y"), duration_ms: params.get_u64("duration_ms", 500) })
    } else if str_eq(kind, "swipe") {
        Ok(InputCommand::Swipe {
            from: point_param(params, "from_x", "from_y"),
            to: point_param(params, "to_x", "to_y"),
            duration_ms: params.get_u64("duration_ms", 200),
        })
    } else if str_eq(kind, "pinch") {
        Ok(InputCommand::Pinch { center: point_param(params, "x", "y"), duration_ms: params.get_u64("duration_ms", 300) })
    } else if str_eq(kind, "back") || str_eq(kind, "home") || str_eq(kind, "recents") {
        Ok(InputCommand::KeyPress { key: String::from_str(kind), modifiers: Vec::new() })
    } else if str_eq(kind, "wait") {
        Ok(InputCommand::Wait { duration_ms: params.get_u64("duration_ms", 1000) })
    } else {
        let mut m = String::new();
        push_str(&mut m, "unsupported input action: ");
        push_str(&mut m, kind);
        proof {
            assert(m@ =~= "unsupported input action: "@ + kind@) by {
                assert(Seq::<char>::empty() + "unsupported input action: "@ =~= "unsupported input action: "@);
            }
        }
        Err(m)
    }
}


/// The retries and the timeout a step runs under.
#[derive(Debug, Clone, Copy, PartialEq, Eq, Structural)]
pub struct StepLimits {
    /// Retries after the first attempt: the larger of the step's and the workflow's.
    pub max_retries: u32,
    /// The step's own timeout, or the configured one when the step has none.
    pub timeout_ms: u64,
}

/// The limits of a step from its own settings and those of its workflow and
/// of the engine.
pub fn step_limits(step_retries: u32, workflow_retries: u32, step_timeout_ms: u64, configured_timeout_ms: u64) -> (l: StepLimits)
    ensures
        l.max_retries == if step_retries >= workflow_retries { step_retries } else { workflow_retries },
        l.timeout_ms == if step_timeout_ms > 0 { step_timeout_ms } else { configured_timeout_ms },
{
    StepLimits {
        max_retries: if step_retries >= workflow_retries { step_retries } else { workflow_retries },
        timeout_ms: if step_timeout_ms > 0 { step_timeout_ms } else { configured_timeout_ms },
    }
}

/// The pause before an attempt after the first: the base delay doubled per
/// attempt, at most five times, and never more than ten seconds.
pub open spec fn retry_pause(base: u64, attempt: u32) -> int {
    let factor: int = if attempt == 0 { 1 } else if attempt == 1 { 2 } else if attempt == 2 { 4 } else if attempt == 3 { 8 } else if attempt == 4 { 16 } else { 32 };
    if base * factor < 10_000 { base * factor } else { 10_000 }
}

/// The pause, in milliseconds, before attempt number `attempt`.
pub fn retry_delay_ms(base: u64, attempt: u32) -> (d: u64)
    requires
        base <= u64::MAX / 32,
    ensures
        d == retry_pause(base, attempt),
{
    let shift: u32 = if attempt < 5 { attempt } else { 5 };
    let factor: u64 = if shift == 0 { 1 } else if shift == 1 { 2 } else if shift == 2 { 4 } else if shift == 3 { 8 } else if shift == 4 { 16 } else { 32 };
    let d = base * factor;
    if d < 10_000 { d } else { 10_000 }
}

/// A step that does not run: passed over because its condition is not met,
/// or stopped because consent was refused or has to be asked for. The
/// second part is the error to report, if any.
pub open spec fn gate_result(
    step_id: Seq<char>,
    index: usize,
    condition: Option<(bool, Seq<char>)>,
    consent: Option<ConsentDecision>,
) -> Option<(bool, Seq<char>, Option<Seq<char>>)> {
    match condition {
        Some((false, reason)) => Some((true, "condition not met: "@ + reason, None)),
        _ => match consent {
            Some(ConsentDecision::Blocked { reason }) => Some((
                false,
                "blocked by consent: "@ + reason@,
                Some("step "@ + decimal(index as nat) + " blocked by consent: "@ + reason@),
            )),
            Some(ConsentDecision::RequiresPrompt { description, .. }) => Some((
                false,
                "requires user consent: "@ + description@,
                Some("step "@ + decimal(index as nat) + " requires user consent: "@ + description@),
            )),
            _ => None,
        },
    }
}

/// Whether a step is passed over or stopped before its action runs, given
/// what its condition (if it has one) and the consent gate (if there is one)
/// answered; `None` when the action may run.
pub fn step_gate(
    step_id: &str,
    index: usize,
    condition: Option<&ConditionResult>,
    consent: Option<&ConsentDecision>,
) -> (r: Option<(StepOutcome, Option<String>)>)
    ensures
        match gate_result(
            step_id@,
            index,
            match condition { Some(c) => Some((c.matched, c.reason@)), None => None },
            match consent { Some(d) => Some(*d), None => None },
        ) {
            None => r is None,
            Some((ok, msg, err)) => r matches Some((o, e)) && o.step_id@ == step_id@ && o.step_index == index
                && o.success == ok && o.message@ == msg && o.data is None
                && match (e, err) {
                    (None, None) => true,
                    (Some(x), Some(y)) => x@ == y,
                    _ => false,
                },
        },
{
    if let Some(c) = condition {
        if !c.matched {
            let mut m = String::new();
            push_str(&mut m, "condition not met: ");
            push_str(&mut m, c.reason.as_str());
            assert(m@ =~= "condition not met: "@ + c.reason@);
            return Some((StepOutcome { step_id: String::from_str(step_id), step_index: index, success: true, message: m, data: None }, None));
        }
    }
    match consent {
        Some(ConsentDecision::Blocked { reason }) => {
            let mut m = String::new();
            push_str(&mut m, "blocked by consent: ");
            push_str(&mut m, reason.as_str());
            let mut e = String::new();
            push_str(&mut e, "step ");
            push_decimal(&mut e, index as u64);
            push_str(&mut e, " blocked by consent: ");
            push_str(&mut e, reason.as_str());
            assert(m@ =~= "blocked by consent: "@ + reason@);
            assert(e@ =~= "step "@ + decimal(index as nat) + " blocked by consent: "@ + reason@);
            Some((StepOutcome { step_id: String::from_str(step_id), step_index: index, success: false, message: m, data: None }, Some(e)))
        },
        Some(ConsentDecision::RequiresPrompt { description, .. }) => {
            let mut m = String::new();
            push_str(&mut m, "requires user consent: ");
            push_str(&mut m, description.as_str());
            let mut e = String::new();
            push_str(&mut e, "step ");
            push_decimal(&mut e, index as u64);
            push_str(&mut e, " requires user consent: ");
            push_str(&mut e, description.as_str());
            assert(m@ =~= "requires user consent: "@ + description@);
            assert(e@ =~= "step "@ + decimal(index as nat) + " requires user consent: "@ + description@);
            Some((StepOutcome { step_id: String::from_str(step_id), step_index: index, success: false, message: m, data: None }, Some(e)))
        },
        _ => None,
    }
}

/// What follows one attempt at a step's action.
#[derive(Debug)]
pub enum AttemptVerdict {
    /// The step succeeded.
    Done(StepOutcome),
    /// Try again, after the retry pause.
    Retry,
    /// The step failed for good; the error is the one to report.
    Failed { outcome: StepOutcome, error: String },
}

/// An action error that says it ran out of time.
pub open spec fn is_timeout_error(m: Seq<char>) -> bool {
    has_sub(m, "timed out"@) || has_sub(m, "timeout"@)
}

/// The message of a step that succeeded on attempt `attempt`.
pub open spec fn success_message(m: Seq<char>, attempt: u32) -> Seq<char> {
    if attempt > 0 { m + " (retry "@ + decimal(attempt as nat) + ")"@ } else { m }
}

/// What follows attempt number `attempt` (0 for the first) of a step's
/// action, given what the action gave: success ends the step; a failure
/// is retried while retries are left and the error does not speak of a
/// timeout, and otherwise ends the step as failed.
pub fn attempt_verdict(
    step_id: &str,
    index: usize,
    attempt: u32,
    limits: StepLimits,
    result: ActionResult,
) -> (v: AttemptVerdict)
    requires
        attempt <= limits.max_retries,
    ensures
        result.success ==> (v matches AttemptVerdict::Done(o) && o.step_id@ == step_id@ && o.step_index == index
            && o.success && o.message@ == success_message(result.message@, attempt) && o.data == result.data),
        !result.success && attempt < limits.max_retries && !is_timeout_error(result.message@) ==> v is Retry,
        !result.success && (attempt == limits.max_retries || is_timeout_error(result.message@)) ==> (v matches
            AttemptVerdict::Failed { outcome, error } && outcome.step_id@ == step_id@ && outcome.step_index == index
            && !outcome.success && outcome.data is None
            && outcome.message@ == "failed after "@ + decimal(limits.max_retries as nat) + " retries: "@ + result.message@
            && error@ == "step "@ + decimal(index as nat) + " failed after "@ + decimal(limits.max_retries as nat)
                + " retries within "@ + decimal(limits.timeout_ms as nat) + "ms: "@ + result.message@),
{
    if result.success {
        let mut m = result.message;
        if attempt > 0 {
            let ghost m0 = m@;
            push_str(&mut m, " (retry ");
            push_decimal(&mut m, attempt as u64);
            push_str(&mut m, ")");
            assert(m@ =~= m0 + " (retry "@ + decimal(attempt as nat) + ")"@);
        }
        return AttemptVerdict::Done(StepOutcome { step_id: String::from_str(step_id), step_index: index, success: true, message: m, data: result.data });
    }
    let timed_out = str_contains(result.message.as_str(), "timed out") || str_contains(result.message.as_str(), "timeout");
    if attempt < limits.max_retries && !timed_out {
        return AttemptVerdict::Retry;
    }
    let mut m = String::new();
    push_str(&mut m, "failed after ");
    push_decimal(&mut m, limits.max_retries as u64);
    push_str(&mut m, " retries: ");
    push_str(&mut m, result.message.as_str());
    let mut e = String::new();
    push_str(&mut e, "step ");
    push_decimal(&mut e, index as u64);
    push_str(&mut e, " failed after ");
    push_decimal(&mut e, limits.max_retries as u64);
    push_str(&mut e, " retries within ");
    push_decimal(&mut e, limits.timeout_ms);
    push_str(&mut e, "ms: ");
    push_str(&mut e, result.message.as_str());
    assert(m@ =~= "failed after "@ + decimal(limits.max_retries as nat) + " retries: "@ + result.message@);
    assert(e@ =~= "step "@ + decimal(index as nat) + " failed after "@ + decimal(limits.max_retries as nat)
        + " retries within "@ + decimal(limits.timeout_ms as nat) + "ms: "@ + result.message@);
    AttemptVerdict::Failed {
        outcome: StepOutcome { step_id: String::from_str(step_id), step_index: index, success: false, message: m, data: None },
        error: e,
    }
}

/// The number of outcomes that succeeded.
pub open spec fn count_succeeded(s: Seq<StepOutcome>) -> nat
    decreases s.len(),
{
    if s.len() == 0 {
        0
    } else {
        count_succeeded(s.drop_last()) + if s.last().success { 1nat } else { 0nat }
    }
}

proof fn lemma_count_succeeded_bound(s: Seq<StepOutcome>)
    ensures
        count_succeeded(s) <= s.len(),
    decreases s.len(),
{
    if s.len() > 0 {
        lemma_count_succeeded_bound(s.drop_last());
    }
}

/// The steps of a workflow run that succeeded and that failed, and the
/// status the run ends with.
pub fn workflow_tally(outcomes: &[StepOutcome]) -> (r: (usize, usize, ExecutionStatus))
    ensures
        r.0 == count_succeeded(outcomes@),
        r.0 + r.1 == outcomes@.len(),
        r.2 == run_status(r.0 as nat, r.1 as nat),
{
    let mut ok: usize = 0;
    let mut i: usize = 0;
    while i < outcomes.len()
        invariant
            i <= outcomes.len(),
            ok == count_succeeded(outcomes@.take(i as int)),
            ok <= i,
        decreases outcomes.len() - i,
    {
        assert(outcomes@.take(i + 1).drop_last() =~= outcomes@.take(i as int));
        if outcomes[i].success {
            ok = ok + 1;
        }
        i = i + 1;
    }
    assert(outcomes@.take(outcomes.len() as int) =~= outcomes@);
    let failed = outcomes.len() - ok;
    (ok, failed, run_status_of(ok, failed))
}

/// The event that ends a workflow run: failed when no step succeeded and
/// some failed, completed otherwise.
pub fn workflow_finished_event(
    workflow_id: &str,
    execution_id: &str,
    succeeded: usize,
    failed: usize,
    duration_ms: i64,
) -> (e: AutomationEventPayload)
    ensures
        run_status(succeeded as nat, failed as nat) is Failed ==> (e matches AutomationEventPayload::WorkflowFailed {
            workflow_id: w, execution_id: x, error } && w@ == workflow_id@ && x@ == execution_id@
            && error@ == decimal(failed as nat) + " steps failed"@),
        !(run_status(succeeded as nat, failed as nat) is Failed) ==> (e matches AutomationEventPayload::WorkflowCompleted {
            workflow_id: w, execution_id: x, steps_succeeded, steps_failed, duration_ms: d }
            && w@ == workflow_id@ && x@ == execution_id@ && steps_succeeded == succeeded && steps_failed == failed
            && d == duration_ms),
{
    if failed > 0 && succeeded == 0 {
        let mut m = String::new();
        push_decimal(&mut m, failed as u64);
        push_str(&mut m, " steps failed");
        assert(m@ =~= decimal(failed as nat) + " steps failed"@);
        AutomationEventPayload::WorkflowFailed {
            workflow_id: String::from_str(workflow_id),
            execution_id: String::from_str(execution_id),
            error: m,
        }
    } else {
        AutomationEventPayload::WorkflowCompleted {
            workflow_id: String::from_str(workflow_id),
            execution_id: String::from_str(execution_id),
            steps_succeeded: succeeded,
            steps_failed: failed,
            duration_ms,
        }
    }
}


/// Each modifier is named by its own words and by no other: "alt" gives Alt,
/// "shift" Shift, "win", "windows" or "super" Win, "meta", "cmd" or
/// "command" Meta, and "ctrl" or "control" Ctrl; any other word falls back
/// to Ctrl.
pub proof fn law_modifier_names(w: Seq<char>)
    ensures
        (modifier_named(w) == Modifier::Alt) == (w == "alt"@),
        (modifier_named(w) == Modifier::Shift) == (w == "shift"@),
        (modifier_named(w) == Modifier::Win) == (w == "win"@ || w == "windows"@ || w == "super"@),
        (modifier_named(w) == Modifier::Meta) == (w == "meta"@ || w == "cmd"@ || w == "command"@),
        (w == "ctrl"@ || w == "control"@) ==> modifier_named(w) == Modifier::Ctrl,
{
    reveal_strlit("ctrl");
    reveal_strlit("control");
    reveal_strlit("alt");
    reveal_strlit("shift");
    reveal_strlit("win");
    reveal_strlit("windows");
    reveal_strlit("super");
    reveal_strlit("meta");
    reveal_strlit("cmd");
    reveal_strlit("command");
    assert("ctrl"@.len() == 4 && "ctrl"@[0] == 'c' && "ctrl"@[1] == 't' && "ctrl"@[2] == 'r');
    assert("control"@.len() == 7 && "control"@[0] == 'c' && "control"@[1] == 'o' && "control"@[2] == 'n');
    assert("alt"@.len() == 3 && "alt"@[0] == 'a' && "alt"@[1] == 'l' && "alt"@[2] == 't');
    assert("shift"@.len() == 5 && "shift"@[0] == 's' && "shift"@[1] == 'h' && "shift"@[2] == 'i');
    assert("win"@.len() == 3 && "win"@[0] == 'w' && "win"@[1] == 'i' && "win"@[2] == 'n');
    assert("windows"@.len() == 7 && "windows"@[0] == 'w' && "windows"@[1] == 'i' && "windows"@[2] == 'n');
    assert("super"@.len() == 5 && "super"@[0] == 's' && "super"@[1] == 'u' && "super"@[2] == 'p');
    assert("meta"@.len() == 4 && "meta"@[0] == 'm' && "meta"@[1] == 'e' && "meta"@[2] == 't');
    assert("cmd"@.len() == 3 && "cmd"@[0] == 'c' && "cmd"@[1] == 'm' && "cmd"@[2] == 'd');
    assert("command"@.len() == 7 && "command"@[0] == 'c' && "command"@[1] == 'o' && "command"@[2] == 'm');
}

} // verus!
