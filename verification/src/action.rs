//! Actions that a workflow step can perform, and the default way of carrying
//! them out.
use vstd::prelude::*;
use vstd::string::StringExecFns;
use crate::text::{debug_quoted, decimal, push_decimal, push_str, to_chars};
use crate::condition::{ctx_get, context_get};

verus! {

/// Parameters for injecting an input action (click, type, swipe, ...).
#[derive(Debug)]
pub struct InputInjectionParams {
    /// One of click, double_click, right_click, type, key_press, key_release,
    /// hotkey, scroll, tap, double_tap, long_press, swipe, pinch, move, drag,
    /// back, home, recents, wait.
    pub action_type: String,
    /// Key-value parameters (x, y, button, text, key, keys, duration_ms, ...).
    pub params: Vec<(String, String)>,
}

pub open spec fn is_digit(c: char) -> bool {
    '0' <= c && c <= '9'
}

pub open spec fn all_digits(s: Seq<char>) -> bool {
    forall|i: int| 0 <= i < s.len() ==> is_digit(#[trigger] s[i])
}

/// The value of a string of decimal digits.
pub open spec fn digits_value(s: Seq<char>) -> nat
    decreases s.len(),
{
    if s.len() == 0 {
        0
    } else {
        digits_value(s.drop_last()) * 10 + ((s.last() as u32) - ('0' as u32)) as nat
    }
}

/// What `str::parse` gives for an integer: an optional sign (`-` only when
/// `signed`), then one or more ASCII digits.
pub open spec fn parse_integer(s: Seq<char>, signed: bool) -> Option<int> {
    if s.len() > 0 && s[0] == '-' && signed {
        let d = s.drop_first();
        if d.len() > 0 && all_digits(d) { Some(-(digits_value(d) as int)) } else { None }
    } else if s.len() > 0 && s[0] == '+' {
        let d = s.drop_first();
        if d.len() > 0 && all_digits(d) { Some(digits_value(d) as int) } else { None }
    } else if s.len() > 0 && all_digits(s) {
        Some(digits_value(s) as int)
    } else {
        None
    }
}

/// `str::parse::<i32>`: the integer, when it is well formed and in range.
pub open spec fn parse_i32(s: Seq<char>) -> Option<i32> {
    match parse_integer(s, true) {
        Some(v) => if i32::MIN <= v <= i32::MAX { Some(v as i32) } else { None },
        None => None,
    }
}

/// `str::parse::<u64>`: the integer, when it is well formed and in range.
pub open spec fn parse_u64(s: Seq<char>) -> Option<u64> {
    match parse_integer(s, false) {
        Some(v) => if 0 <= v <= u64::MAX { Some(v as u64) } else { None },
        None => None,
    }
}

pub open spec fn cap(v: nat, c: nat) -> nat {
    if v < c { v } else { c }
}

/// The value of the digits `v[start..]`, capped at `c`, if all are digits.
fn capped_digits(v: &[char], start: usize, c: u128) -> (r: Option<u128>)
    requires
        start <= v.len(),
        0 < c < 0x1_0000_0000_0000_0000_0000u128,
    ensures
        match r {
            Some(x) => all_digits(v@.skip(start as int)) && x == cap(
                digits_value(v@.skip(start as int)),
                c as nat,
            ),
            None => !all_digits(v@.skip(start as int)),
        },
{
    let mut acc: u128 = 0;
    let mut i = start;
    assert(v@.skip(start as int).take(0) =~= Seq::<char>::empty());
    while i < v.len()
        invariant
            start <= i <= v.len(),
            0 < c < 0x1_0000_0000_0000_0000_0000u128,
            acc <= c,
            all_digits(v@.subrange(start as int, i as int)),
            acc == cap(digits_value(v@.subrange(start as int, i as int)), c as nat),
        decreases v.len() - i,
    {
        let ch = v[i];
        if !('0' <= ch && ch <= '9') {
            assert(v@.skip(start as int)[i - start] == ch);
            return None;
        }
        let d = (ch as u32 - '0' as u32) as u128;
        let ghost prefix = v@.subrange(start as int, i + 1);
        assert(prefix.drop_last() =~= v@.subrange(start as int, i as int));
        assert(prefix.last() == ch);
        let next = acc * 10 + d;
        acc = if next < c { next } else { c };
        proof {
            let pv = digits_value(v@.subrange(start as int, i as int));
            assert(digits_value(prefix) == pv * 10 + d);
            if pv >= c {
                assert(pv * 10 + d >= c) by (nonlinear_arith)
                    requires pv >= c, d >= 0;
            }
            assert forall|j: int| 0 <= j < prefix.len() implies is_digit(#[trigger] prefix[j]) by {
                if j < prefix.len() - 1 {
                    assert(prefix[j] == v@.subrange(start as int, i as int)[j]);
                }
            }
        }
        i = i + 1;
    }
    assert(v@.subrange(start as int, v.len() as int) =~= v@.skip(start as int));
    Some(acc)
}

/// `str::parse::<i32>`, written out.
pub fn parse_i32_text(s: &str) -> (r: Option<i32>)
    ensures
        r == parse_i32(s@),
{
    let v = to_chars(s);
    if v.len() == 0 {
        return None;
    }
    let neg = v[0] == '-';
    let start: usize = if v[0] == '-' || v[0] == '+' { 1 } else { 0 };
    if start == 1 && v.len() == 1 {
        return None;
    }
    assert(v@.skip(1) =~= v@.drop_first());
    assert(v@.skip(0) =~= v@);
    match capped_digits(v.as_slice(), start, 0x1_0000_0000u128) {
        None => None,
        Some(m) => {
            if neg {
                if m <= 0x8000_0000u128 {
                    Some((0 - (m as i64)) as i32)
                } else {
                    None
                }
            } else if m <= 0x7fff_ffffu128 {
                Some(m as i32)
            } else {
                None
            }
        },
    }
}

/// `str::parse::<u64>`, written out.
pub fn parse_u64_text(s: &str) -> (r: Option<u64>)
    ensures
        r == parse_u64(s@),
{
    let v = to_chars(s);
    if v.len() == 0 || v[0] == '-' {
        return None;
    }
    let start: usize = if v[0] == '+' { 1 } else { 0 };
    if start == 1 && v.len() == 1 {
        return None;
    }
    assert(v@.skip(1) =~= v@.drop_first());
    assert(v@.skip(0) =~= v@);
    match capped_digits(v.as_slice(), start, 0x1_0000_0000_0000_0000u128) {
        None => None,
        Some(m) => {
            if m <= 0xffff_ffff_ffff_ffffu128 {
                Some(m as u64)
            } else {
                None
            }
        },
    }
}

/// The parameter `key` as an `i32`, or `default` when absent or not a number.
pub open spec fn param_i32(ps: Seq<(String, String)>, key: Seq<char>, default: i32) -> i32 {
    match ctx_get(ps, key) {
        Some(v) => match parse_i32(v) {
            Some(n) => n,
            None => default,
        },
        None => default,
    }
}

/// The parameter `key` as a `u64`, or `default` when absent or not a number.
pub open spec fn param_u64(ps: Seq<(String, String)>, key: Seq<char>, default: u64) -> u64 {
    match ctx_get(ps, key) {
        Some(v) => match parse_u64(v) {
            Some(n) => n,
            None => default,
        },
        None => default,
    }
}

impl InputInjectionParams {
    /// The parameter `key` as an `i32`, or `default` when absent or not a number.
    pub fn get_i32(&self, key: &str, default: i32) -> (r: i32)
        ensures
            r == param_i32(self.params@, key@, default),
    {
        match context_get(self.params.as_slice(), key) {
            Some(v) => match parse_i32_text(v.as_str()) {
                Some(n) => n,
                None => default,
            },
            None => default,
        }
    }

    /// The parameter `key` as a `u64`, or `default` when absent or not a number.
    pub fn get_u64(&self, key: &str, default: u64) -> (r: u64)
        ensures
            r == param_u64(self.params@, key@, default),
    {
        match context_get(self.params.as_slice(), key) {
            Some(v) => match parse_u64_text(v.as_str()) {
                Some(n) => n,
                None => default,
            },
            None => default,
        }
    }
}


#[derive(Debug, Clone, Copy, PartialEq, Eq, Structural)]
pub enum NotifyPriority {
    Low,
    Normal,
    High,
    Critical,
}

#[derive(Debug, Clone, Copy, PartialEq, Eq, Structural)]
pub enum ClipboardAction {
    Copy,
    Paste,
    Clear,
}

#[derive(Debug, Clone, PartialEq, Eq)]
pub enum DeviceControl {
    SetBrightness(u32),
    SetVolume(u32),
    ToggleWiFi(bool),
    ToggleBluetooth(bool),
    ToggleDND(bool),
    LockScreen,
    PowerSave(bool),
    SetProfile(String),
}

/// What a workflow step does.
#[derive(Debug)]
pub enum ActionType {
    Speak { text: String },
    Notify { title: String, body: String, priority: NotifyPriority },
    OpenApp { app_id: String, data: Option<String> },
    LaunchActivity { package: String, activity: String, data: Option<String> },
    Clipboard { action: ClipboardAction, text: Option<String> },
    CreateMemory {
        title: String,
        content: String,
        category: String,
        tags: Vec<String>,
        importance: i32,
    },
    SearchMemory { query: String, max_results: usize },
    RunAI { prompt: String, session_id: Option<String> },
    CaptureVoice { duration_secs: Option<u64> },
    AnalyzeImage { image_path: String, analysis_type: String },
    DeviceControl { control: DeviceControl },
    PluginInvocation { plugin_id: String, method: String, parameters: Vec<(String, String)> },
    Wait { duration_ms: u64 },
    SubWorkflow { workflow_id: String },
    InputInjection(InputInjectionParams),
    ClickScreenElement { query: String },
    TypeIntoScreenElement { query: String, text: String },
    ClickScreenText { text: String },
    DragScreenElements { from_query: String, to_query: String },
    SwipeScreenElements { from_query: String, to_query: String },
}

/// The outcome of carrying out an action.
#[derive(Debug)]
pub struct ActionResult {
    pub success: bool,
    pub message: String,
    pub data: Option<String>,
}

impl ActionResult {
    pub fn success(message: String) -> (r: Self)
        ensures
            r.success,
            r.message@ == message@,
            r.data is None,
    {
        ActionResult { success: true, message, data: None }
    }

    pub fn success_with_data(message: String, data: String) -> (r: Self)
        ensures
            r.success,
            r.message@ == message@,
            r.data is Some && r.data->0@ == data@,
    {
        ActionResult { success: true, message, data: Some(data) }
    }

    pub fn failure(message: String) -> (r: Self)
        ensures
            !r.success,
            r.message@ == message@,
            r.data is None,
    {
        ActionResult { success: false, message, data: None }
    }
}

/// Number of bytes of the UTF-8 encoding of a character.
pub open spec fn utf8_width(c: char) -> nat {
    let u = c as u32;
    if u < 0x80 { 1 } else if u < 0x800 { 2 } else if u < 0x10000 { 3 } else { 4 }
}

/// Number of bytes of the UTF-8 encoding of a character sequence.
pub open spec fn utf8_len(s: Seq<char>) -> nat
    decreases s.len(),
{
    if s.len() == 0 { 0 } else { utf8_width(s[0]) + utf8_len(s.drop_first()) }
}

/// The longest prefix of `s` whose encoding fits in `n` bytes.
pub open spec fn byte_prefix(s: Seq<char>, n: nat) -> Seq<char>
    decreases s.len(),
{
    if s.len() == 0 || utf8_width(s[0]) > n {
        Seq::empty()
    } else {
        seq![s[0]] + byte_prefix(s.drop_first(), (n - utf8_width(s[0])) as nat)
    }
}

/// Cutting `s` after its first `n` bytes falls on a character boundary
/// (or `s` is no longer than that), so the cut does not panic.
pub open spec fn cut_ok(s: Seq<char>, n: nat) -> bool {
    utf8_len(s) <= n || utf8_len(byte_prefix(s, n)) == n
}

fn width_of(c: char) -> (w: usize)
    ensures
        w == utf8_width(c),
{
    let u = c as u32;
    if u < 0x80 { 1 } else if u < 0x800 { 2 } else if u < 0x10000 { 3 } else { 4 }
}

/// The longest prefix of `s` whose encoding fits in `n` bytes.
fn prefix_within_bytes(s: &str, n: usize) -> (r: String)
    ensures
        r@ == byte_prefix(s@, n as nat),
{
    let v = to_chars(s);
    let mut out: Vec<char> = Vec::new();
    let mut left = n;
    let mut i: usize = 0;
    assert(v@.skip(0) =~= v@);
    while i < v.len() && width_of(v[i]) <= left
        invariant
            i <= v.len(),
            left <= n,
            byte_prefix(v@, n as nat) == out@ + byte_prefix(v@.skip(i as int), left as nat),
        decreases v.len() - i,
    {
        let ghost rest = v@.skip(i as int);
        assert(rest.drop_first() =~= v@.skip(i + 1));
        assert(rest[0] == v@[i as int]);
        let w = width_of(v[i]);
        out.push(v[i]);
        left = left - w;
        assert(out@ + byte_prefix(v@.skip(i + 1), left as nat) =~= out@.drop_last() + (seq![
            v@[i as int],
        ] + byte_prefix(v@.skip(i + 1), left as nat)));
        i = i + 1;
    }
    assert(out@ + byte_prefix(v@.skip(i as int), left as nat) =~= out@);
    crate::text::from_chars(out.as_slice())
}

pub open spec fn clipboard_text(a: ClipboardAction) -> Seq<char> {
    match a {
        ClipboardAction::Copy => "Copy"@,
        ClipboardAction::Paste => "Paste"@,
        ClipboardAction::Clear => "Clear"@,
    }
}

pub open spec fn flag_text(b: bool) -> Seq<char> {
    if b { "true"@ } else { "false"@ }
}

/// How `{:?}` renders a device control.
pub open spec fn device_text(c: DeviceControl) -> Seq<char> {
    match c {
        DeviceControl::SetBrightness(n) => "SetBrightness("@ + decimal(n as nat) + ")"@,
        DeviceControl::SetVolume(n) => "SetVolume("@ + decimal(n as nat) + ")"@,
        DeviceControl::ToggleWiFi(b) => "ToggleWiFi("@ + flag_text(b) + ")"@,
        DeviceControl::ToggleBluetooth(b) => "ToggleBluetooth("@ + flag_text(b) + ")"@,
        DeviceControl::ToggleDND(b) => "ToggleDND("@ + flag_text(b) + ")"@,
        DeviceControl::LockScreen => "LockScreen"@,
        DeviceControl::PowerSave(b) => "PowerSave("@ + flag_text(b) + ")"@,
        DeviceControl::SetProfile(p) => "SetProfile("@ + debug_quoted(p@) + ")"@,
    }
}

fn push_flag(s: &mut String, b: bool)
    ensures
        final(s)@ == old(s)@ + flag_text(b),
{
    if b {
        push_str(s, "true");
    } else {
        push_str(s, "false");
    }
}

/// Appends how `{:?}` renders a device control.
pub fn push_device_text(s: &mut String, c: &DeviceControl)
    ensures
        final(s)@ == old(s)@ + device_text(*c),
{
    match c {
        DeviceControl::SetBrightness(n) => {
            push_str(s, "SetBrightness(");
            push_decimal(s, *n as u64);
            push_str(s, ")");
        },
        DeviceControl::SetVolume(n) => {
            push_str(s, "SetVolume(");
            push_decimal(s, *n as u64);
            push_str(s, ")");
        },
        DeviceControl::ToggleWiFi(b) => {
            push_str(s, "ToggleWiFi(");
            push_flag(s, *b);
            push_str(s, ")");
        },
        DeviceControl::ToggleBluetooth(b) => {
            push_str(s, "ToggleBluetooth(");
            push_flag(s, *b);
            push_str(s, ")");
        },
        DeviceControl::ToggleDND(b) => {
            push_str(s, "ToggleDND(");
            push_flag(s, *b);
            push_str(s, ")");
        },
        DeviceControl::LockScreen => {
            push_str(s, "LockScreen");
        },
        DeviceControl::PowerSave(b) => {
            push_str(s, "PowerSave(");
            push_flag(s, *b);
            push_str(s, ")");
        },
        DeviceControl::SetProfile(p) => {
            push_str(s, "SetProfile(");
            let q = crate::text::debug_str(p.as_str());
            push_str(s, q.as_str());
            push_str(s, ")");
        },
    }
}

/// Whether the default executor can run the action without panicking.
pub open spec fn runnable(a: ActionType) -> bool {
    match a {
        ActionType::RunAI { prompt, .. } => cut_ok(prompt@, 50),
        _ => true,
    }
}

/// The (success, message) pair the default executor reports for an action.
pub open spec fn default_outcome(a: ActionType) -> (bool, Seq<char>) {
    match a {
        ActionType::Speak { text } => (true, "speak: "@ + text@),
        ActionType::Notify { title, body, .. } => (true, "notify: "@ + title@ + " - "@ + body@),
        ActionType::OpenApp { app_id, .. } => (true, "open app: "@ + app_id@),
        ActionType::LaunchActivity { package, activity, .. } => (
            true,
            "launch "@ + package@ + "/"@ + activity@,
        ),
        ActionType::Clipboard { action, .. } => (true, "clipboard: "@ + clipboard_text(action)),
        ActionType::CreateMemory { title, category, .. } => (
            true,
            "memory created: '"@ + title@ + "' in "@ + category@,
        ),
        ActionType::SearchMemory { query, max_results } => (
            true,
            "search '"@ + query@ + "' (max "@ + decimal(max_results as nat) + ")"@,
        ),
        ActionType::RunAI { prompt, .. } => (true, "ai inference: "@ + byte_prefix(prompt@, 50)),
        ActionType::CaptureVoice { duration_secs } => (
            true,
            "voice capture: "@ + match duration_secs {
                Some(d) => decimal(d as nat) + "s"@,
                None => "unlimited"@,
            },
        ),
        ActionType::AnalyzeImage { image_path, analysis_type } => (
            true,
            "analyze "@ + analysis_type@ + ": "@ + image_path@,
        ),
        ActionType::DeviceControl { control } => (true, "device control: "@ + device_text(control)),
        ActionType::PluginInvocation { plugin_id, method, .. } => (
            true,
            "plugin "@ + plugin_id@ + "."@ + method@,
        ),
        ActionType::Wait { duration_ms } => (true, "waited "@ + decimal(duration_ms as nat) + "ms"@),
        ActionType::SubWorkflow { workflow_id } => (true, "sub-workflow: "@ + workflow_id@),
        ActionType::InputInjection(p) => (
            false,
            "input injection requires InputEngine: "@ + p.action_type@ + " with "@ + decimal(
                p.params.len() as nat,
            ) + " params"@,
        ),
        ActionType::ClickScreenElement { query } => (
            false,
            "click screen '"@ + query@ + "' requires ScreenAwareExecutor"@,
        ),
        ActionType::TypeIntoScreenElement { query, .. } => (
            false,
            "type into screen element '"@ + query@ + "' requires ScreenAwareExecutor"@,
        ),
        ActionType::ClickScreenText { text } => (
            false,
            "click screen text '"@ + text@ + "' requires ScreenAwareExecutor"@,
        ),
        ActionType::DragScreenElements { from_query, to_query } => (
            false,
            "drag '"@ + from_query@ + "' -> '"@ + to_query@ + "' requires ScreenAwareExecutor"@,
        ),
        ActionType::SwipeScreenElements { from_query, to_query } => (
            false,
            "swipe '"@ + from_query@ + "' -> '"@ + to_query@ + "' requires ScreenAwareExecutor"@,
        ),
    }
}

/// Carries out actions by describing them; actions that need the screen or
/// the input engine fail with a message that says so.
pub struct DefaultActionExecutor;

/// Something that carries out actions.
pub trait ActionExecutor {
    /// The result of carrying out `action`.
    fn execute(&self, action: &ActionType) -> (r: ActionResult)
        requires
            runnable(*action),
    ;

    /// The executor's name.
    fn kind(&self) -> &'static str;
}

impl ActionExecutor for DefaultActionExecutor {
    /// The result of the action. A `Wait` is reported here; the pause itself
    /// is the caller's to make.
    fn execute(&self, action: &ActionType) -> (r: ActionResult)
        ensures
            r.success == default_outcome(*action).0,
            r.message@ == default_outcome(*action).1,
            r.data is None,
    {
        let mut m = String::new();
        let ok: bool;
        match action {
            ActionType::Speak { text } => {
                push_str(&mut m, "speak: ");
                push_str(&mut m, text.as_str());
                ok = true;
            },
            ActionType::Notify { title, body, .. } => {
                push_str(&mut m, "notify: ");
                push_str(&mut m, title.as_str());
                push_str(&mut m, " - ");
                push_str(&mut m, body.as_str());
                ok = true;
            },
            ActionType::OpenApp { app_id, .. } => {
                push_str(&mut m, "open app: ");
                push_str(&mut m, app_id.as_str());
                ok = true;
            },
            ActionType::LaunchActivity { package, activity, .. } => {
                push_str(&mut m, "launch ");
                push_str(&mut m, package.as_str());
                push_str(&mut m, "/");
                push_str(&mut m, activity.as_str());
                ok = true;
            },
            ActionType::Clipboard { action: a, .. } => {
                push_str(&mut m, "clipboard: ");
                push_str(
                    &mut m,
                    match a {
                        ClipboardAction::Copy => "Copy",
                        ClipboardAction::Paste => "Paste",
                        ClipboardAction::Clear => "Clear",
                    },
                );
                ok = true;
            },
            ActionType::CreateMemory { title, category, .. } => {
                push_str(&mut m, "memory created: '");
                push_str(&mut m, title.as_str());
                push_str(&mut m, "' in ");
                push_str(&mut m, category.as_str());
                ok = true;
            },
            ActionType::SearchMemory { query, max_results } => {
                push_str(&mut m, "search '");
                push_str(&mut m, query.as_str());
                push_str(&mut m, "' (max ");
                push_decimal(&mut m, *max_results as u64);
                push_str(&mut m, ")");
                ok = true;
            },
            ActionType::RunAI { prompt, .. } => {
                push_str(&mut m, "ai inference: ");
                let cut = prefix_within_bytes(prompt.as_str(), 50);
                push_str(&mut m, cut.as_str());
                ok = true;
            },
            ActionType::CaptureVoice { duration_secs } => {
                push_str(&mut m, "voice capture: ");
                match duration_secs {
                    Some(d) => {
                        push_decimal(&mut m, *d);
                        push_str(&mut m, "s");
                    },
                    None => push_str(&mut m, "unlimited"),
                }
                ok = true;
            },
            ActionType::AnalyzeImage { image_path, analysis_type } => {
                push_str(&mut m, "analyze ");
                push_str(&mut m, analysis_type.as_str());
                push_str(&mut m, ": ");
                push_str(&mut m, image_path.as_str());
                ok = true;
            },
            ActionType::DeviceControl { control } => {
                push_str(&mut m, "device control: ");
                push_device_text(&mut m, control);
                ok = true;
            },
            ActionType::PluginInvocation { plugin_id, method, .. } => {
                push_str(&mut m, "plugin ");
                push_str(&mut m, plugin_id.as_str());
                push_str(&mut m, ".");
                push_str(&mut m, method.as_str());
                ok = true;
            },
            ActionType::Wait { duration_ms } => {
                push_str(&mut m, "waited ");
                push_decimal(&mut m, *duration_ms);
                push_str(&mut m, "ms");
                ok = true;
            },
            ActionType::SubWorkflow { workflow_id } => {
                push_str(&mut m, "sub-workflow: ");
                push_str(&mut m, workflow_id.as_str());
                ok = true;
            },
            ActionType::InputInjection(p) => {
                push_str(&mut m, "input injection requires InputEngine: ");
                push_str(&mut m, p.action_type.as_str());
                push_str(&mut m, " with ");
                push_decimal(&mut m, p.params.len() as u64);
                push_str(&mut m, " params");
                ok = false;
            },
            ActionType::ClickScreenElement { query } => {
                push_str(&mut m, "click screen '");
                push_str(&mut m, query.as_str());
                push_str(&mut m, "' requires ScreenAwareExecutor");
                ok = false;
            },
            ActionType::TypeIntoScreenElement { query, .. } => {
                push_str(&mut m, "type into screen element '");
                push_str(&mut m, query.as_str());
                push_str(&mut m, "' requires ScreenAwareExecutor");
                ok = false;
            },
            ActionType::ClickScreenText { text } => {
                push_str(&mut m, "click screen text '");
                push_str(&mut m, text.as_str());
                push_str(&mut m, "' requires ScreenAwareExecutor");
                ok = false;
            },
            ActionType::DragScreenElements { from_query, to_query } => {
                push_str(&mut m, "drag '");
                push_str(&mut m, from_query.as_str());
                push_str(&mut m, "' -> '");
                push_str(&mut m, to_query.as_str());
                push_str(&mut m, "' requires ScreenAwareExecutor");
                ok = false;
            },
            ActionType::SwipeScreenElements { from_query, to_query } => {
                push_str(&mut m, "swipe '");
                push_str(&mut m, from_query.as_str());
                push_str(&mut m, "' -> '");
                push_str(&mut m, to_query.as_str());
                push_str(&mut m, "' requires ScreenAwareExecutor");
                ok = false;
            },
        }
        ActionResult { success: ok, message: m, data: None }
    }

    fn kind(&self) -> (r: &'static str)
        ensures
            r@ == "default"@,
    {
        "default"
    }
}

} // verus!
