//! What must hold before a planned step runs, derived from its action.
use vstd::prelude::*;
use vstd::string::StringExecFns;
use crate::action::{ActionType, DeviceControl};
use crate::planner::ExecutionStep;
use crate::text::{decimal, push_decimal};

verus! {

/// A check made before a step runs.
#[derive(Debug)]
pub enum Precondition {
    /// The screen shows this text.
    ScreenContains(String),
    /// This application is not running yet.
    AppNotRunning(String),
    /// A device setting reads this value.
    DeviceState { field: String, expected: String },
    /// Nothing needs checking.
    NoPrecondition,
}

/// What a precondition says, as plain values.
pub enum PreconditionView {
    ScreenContains(Seq<char>),
    AppNotRunning(Seq<char>),
    DeviceState(Seq<char>, Seq<char>),
    NoPrecondition,
}

pub open spec fn precondition_view(p: Precondition) -> PreconditionView {
    match p {
        Precondition::ScreenContains(q) => PreconditionView::ScreenContains(q@),
        Precondition::AppNotRunning(a) => PreconditionView::AppNotRunning(a@),
        Precondition::DeviceState { field, expected } => PreconditionView::DeviceState(field@, expected@),
        Precondition::NoPrecondition => PreconditionView::NoPrecondition,
    }
}

pub open spec fn preconditions_view(s: Seq<Precondition>) -> Seq<PreconditionView> {
    s.map_values(|p: Precondition| precondition_view(p))
}

pub open spec fn on_off(b: bool) -> Seq<char> {
    if b { "enabled"@ } else { "disabled"@ }
}

/// The device check for a device control: the setting it changes and the
/// value it sets.
pub open spec fn device_precondition(c: DeviceControl) -> PreconditionView {
    match c {
        DeviceControl::SetBrightness(v) => PreconditionView::DeviceState("brightness"@, decimal(v as nat)),
        DeviceControl::SetVolume(v) => PreconditionView::DeviceState("volume"@, decimal(v as nat)),
        DeviceControl::ToggleWiFi(b) => PreconditionView::DeviceState("wifi"@, on_off(b)),
        DeviceControl::ToggleBluetooth(b) => PreconditionView::DeviceState("bluetooth"@, on_off(b)),
        DeviceControl::ToggleDND(b) => PreconditionView::DeviceState("dnd"@, on_off(b)),
        DeviceControl::LockScreen => PreconditionView::NoPrecondition,
        DeviceControl::PowerSave(b) => PreconditionView::DeviceState("power_save"@, on_off(b)),
        DeviceControl::SetProfile(p) => PreconditionView::DeviceState("profile"@, p@),
    }
}

/// The checks for a step's action: the text a screen action looks for, the
/// application an open or launch starts, the setting a device control
/// changes; none for other actions.
pub open spec fn step_preconditions(a: ActionType) -> Seq<PreconditionView> {
    match a {
        ActionType::DeviceControl { control } => seq![device_precondition(control)],
        ActionType::ClickScreenElement { query } => seq![PreconditionView::ScreenContains(query@)],
        ActionType::ClickScreenText { text } => seq![PreconditionView::ScreenContains(text@)],
        ActionType::TypeIntoScreenElement { query, .. } => seq![PreconditionView::ScreenContains(query@)],
        ActionType::DragScreenElements { from_query, .. } => seq![PreconditionView::ScreenContains(from_query@)],
        ActionType::SwipeScreenElements { from_query, .. } => seq![PreconditionView::ScreenContains(from_query@)],
        ActionType::OpenApp { app_id, .. } => seq![PreconditionView::AppNotRunning(app_id@)],
        ActionType::LaunchActivity { package, .. } => seq![PreconditionView::AppNotRunning(package@)],
        _ => Seq::empty(),
    }
}

fn text_of(s: &str) -> (r: String)
    ensures
        r@ == s@,
{
    String::from_str(s)
}

fn on_off_text(b: bool) -> (r: String)
    ensures
        r@ == on_off(b),
{
    if b {
        text_of("enabled")
    } else {
        text_of("disabled")
    }
}

fn number_text(v: u32) -> (r: String)
    ensures
        r@ == decimal(v as nat),
{
    let mut s = String::new();
    push_decimal(&mut s, v as u64);
    proof {
        assert(Seq::<char>::empty() + decimal(v as nat) =~= decimal(v as nat));
    }
    s
}

/// Turns planned steps into steps ready for closed-loop execution.
#[derive(Debug)]
pub struct ExecutionPlanAdapter;

impl ExecutionPlanAdapter {
    /// The checks to make before `step` runs.
    pub fn derive_preconditions(step: &ExecutionStep) -> (r: Vec<Precondition>)
        ensures
            preconditions_view(r@) == step_preconditions(step.action),
    {
        let r = match &step.action {
            ActionType::DeviceControl { control } => Self::device_control_preconditions(control),
            ActionType::ClickScreenElement { query } => vec![Precondition::ScreenContains(query.clone())],
            ActionType::ClickScreenText { text } => vec![Precondition::ScreenContains(text.clone())],
            ActionType::TypeIntoScreenElement { query, .. } => vec![Precondition::ScreenContains(query.clone())],
            ActionType::DragScreenElements { from_query, .. } => vec![Precondition::ScreenContains(from_query.clone())],
            ActionType::SwipeScreenElements { from_query, .. } => vec![Precondition::ScreenContains(from_query.clone())],
            ActionType::OpenApp { app_id, .. } => vec![Precondition::AppNotRunning(app_id.clone())],
            ActionType::LaunchActivity { package, .. } => vec![Precondition::AppNotRunning(package.clone())],
            _ => Vec::new(),
        };
        proof {
            assert(preconditions_view(r@) =~= step_preconditions(step.action));
        }
        r
    }

    /// The check for a device control: the setting it changes and the value
    /// it sets, or none for locking the screen.
    fn device_control_preconditions(control: &DeviceControl) -> (r: Vec<Precondition>)
        ensures
            preconditions_view(r@) == seq![device_precondition(*control)],
    {
        let p = match control {
            DeviceControl::SetBrightness(v) => Precondition::DeviceState {
                field: text_of("brightness"),
                expected: number_text(*v),
            },
            DeviceControl::SetVolume(v) => Precondition::DeviceState {
                field: text_of("volume"),
                expected: number_text(*v),
            },
            DeviceControl::ToggleWiFi(b) => Precondition::DeviceState { field: text_of("wifi"), expected: on_off_text(*b) },
            DeviceControl::ToggleBluetooth(b) => Precondition::DeviceState {
                field: text_of("bluetooth"),
                expected: on_off_text(*b),
            },
            DeviceControl::ToggleDND(b) => Precondition::DeviceState { field: text_of("dnd"), expected: on_off_text(*b) },
            DeviceControl::LockScreen => Precondition::NoPrecondition,
            DeviceControl::PowerSave(b) => Precondition::DeviceState {
                field: text_of("power_save"),
                expected: on_off_text(*b),
            },
            DeviceControl::SetProfile(profile) => Precondition::DeviceState {
                field: text_of("profile"),
                expected: profile.clone(),
            },
        };
        let r = vec![p];
        proof {
            assert(preconditions_view(r@) =~= seq![device_precondition(*control)]);
        }
        r
    }
}

impl Default for ExecutionPlanAdapter {
    fn default() -> (a: Self) {
        ExecutionPlanAdapter
    }
}

} // verus!
