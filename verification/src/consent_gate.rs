//! Stakes of actions and the consent decision taken before running one.
use vstd::prelude::*;
use vstd::string::StringExecFns;
use crate::action::ActionType;
use crate::text::str_eq;

verus! {

#[derive(Debug, Clone, Copy, PartialEq, Eq, Structural)]
pub enum ActionStakes {
    Low,
    Medium,
    High,
}

#[derive(Debug, Clone, Copy, PartialEq, Eq, Structural)]
pub enum Reversibility {
    Reversible,
    Irreversible,
}

/// How much an action risks, whether it can be undone, and what it is.
#[derive(Debug)]
pub struct ActionClassification {
    pub stakes: ActionStakes,
    pub reversibility: Reversibility,
    pub description: String,
}

/// (stakes, reversibility, description) of each kind of action.
pub open spec fn classification_of(a: ActionType) -> (ActionStakes, Reversibility, Seq<char>) {
    match a {
        ActionType::Speak { .. } => (ActionStakes::Low, Reversibility::Reversible, "speak text"@),
        ActionType::Notify { .. } => (ActionStakes::Low, Reversibility::Reversible, "show notification"@),
        ActionType::OpenApp { .. } => (ActionStakes::Medium, Reversibility::Reversible, "open application"@),
        ActionType::LaunchActivity { .. } => (ActionStakes::Medium, Reversibility::Reversible, "launch activity"@),
        ActionType::Clipboard { .. } => (ActionStakes::Medium, Reversibility::Irreversible, "clipboard operation"@),
        ActionType::CreateMemory { .. } => (ActionStakes::Low, Reversibility::Reversible, "create memory"@),
        ActionType::SearchMemory { .. } => (ActionStakes::Low, Reversibility::Reversible, "search memory"@),
        ActionType::RunAI { .. } => (ActionStakes::Medium, Reversibility::Irreversible, "run AI inference"@),
        ActionType::CaptureVoice { .. } => (ActionStakes::Medium, Reversibility::Irreversible, "capture voice audio"@),
        ActionType::AnalyzeImage { .. } => (ActionStakes::Medium, Reversibility::Reversible, "analyze image"@),
        ActionType::DeviceControl { .. } => (ActionStakes::High, Reversibility::Irreversible, "device control"@),
        ActionType::PluginInvocation { .. } => (ActionStakes::High, Reversibility::Irreversible, "plugin invocation"@),
        ActionType::Wait { .. } => (ActionStakes::Low, Reversibility::Reversible, "wait"@),
        ActionType::SubWorkflow { .. } => (ActionStakes::Medium, Reversibility::Reversible, "execute sub-workflow"@),
        ActionType::InputInjection(_) => (ActionStakes::High, Reversibility::Irreversible, "inject input"@),
        ActionType::ClickScreenElement { .. } => (ActionStakes::High, Reversibility::Irreversible, "click screen element"@),
        ActionType::TypeIntoScreenElement { .. } => (ActionStakes::High, Reversibility::Irreversible, "type into screen element"@),
        ActionType::ClickScreenText { .. } => (ActionStakes::High, Reversibility::Irreversible, "click text on screen"@),
        ActionType::DragScreenElements { .. } => (ActionStakes::High, Reversibility::Irreversible, "drag screen elements"@),
        ActionType::SwipeScreenElements { .. } => (ActionStakes::High, Reversibility::Irreversible, "swipe screen elements"@),
    }
}

pub struct ActionClassifier;

fn classified(stakes: ActionStakes, reversibility: Reversibility, d: &str) -> (r: ActionClassification)
    ensures
        r.stakes == stakes,
        r.reversibility == reversibility,
        r.description@ == d@,
{
    ActionClassification { stakes, reversibility, description: String::from_str(d) }
}

impl ActionClassifier {
    /// Classifies an action by its kind.
    pub fn classify(action: &ActionType) -> (r: ActionClassification)
        ensures
            r.stakes == classification_of(*action).0,
            r.reversibility == classification_of(*action).1,
            r.description@ == classification_of(*action).2,
    {
        match action {
            ActionType::Speak { .. } => classified(ActionStakes::Low, Reversibility::Reversible, "speak text"),
            ActionType::Notify { .. } => classified(ActionStakes::Low, Reversibility::Reversible, "show notification"),
            ActionType::OpenApp { .. } => classified(ActionStakes::Medium, Reversibility::Reversible, "open application"),
            ActionType::LaunchActivity { .. } => classified(ActionStakes::Medium, Reversibility::Reversible, "launch activity"),
            ActionType::Clipboard { .. } => classified(ActionStakes::Medium, Reversibility::Irreversible, "clipboard operation"),
            ActionType::CreateMemory { .. } => classified(ActionStakes::Low, Reversibility::Reversible, "create memory"),
            ActionType::SearchMemory { .. } => classified(ActionStakes::Low, Reversibility::Reversible, "search memory"),
            ActionType::RunAI { .. } => classified(ActionStakes::Medium, Reversibility::Irreversible, "run AI inference"),
            ActionType::CaptureVoice { .. } => classified(ActionStakes::Medium, Reversibility::Irreversible, "capture voice audio"),
            ActionType::AnalyzeImage { .. } => classified(ActionStakes::Medium, Reversibility::Reversible, "analyze image"),
            ActionType::DeviceControl { .. } => classified(ActionStakes::High, Reversibility::Irreversible, "device control"),
            ActionType::PluginInvocation { .. } => classified(ActionStakes::High, Reversibility::Irreversible, "plugin invocation"),
            ActionType::Wait { .. } => classified(ActionStakes::Low, Reversibility::Reversible, "wait"),
            ActionType::SubWorkflow { .. } => classified(ActionStakes::Medium, Reversibility::Reversible, "execute sub-workflow"),
            ActionType::InputInjection(_) => classified(ActionStakes::High, Reversibility::Irreversible, "inject input"),
            ActionType::ClickScreenElement { .. } => classified(ActionStakes::High, Reversibility::Irreversible, "click screen element"),
            ActionType::TypeIntoScreenElement { .. } => classified(ActionStakes::High, Reversibility::Irreversible, "type into screen element"),
            ActionType::ClickScreenText { .. } => classified(ActionStakes::High, Reversibility::Irreversible, "click text on screen"),
            ActionType::DragScreenElements { .. } => classified(ActionStakes::High, Reversibility::Irreversible, "drag screen elements"),
            ActionType::SwipeScreenElements { .. } => classified(ActionStakes::High, Reversibility::Irreversible, "swipe screen elements"),
        }
    }
}

/// What the consent manager answered for the action's kind of request.
#[derive(Debug, Clone, Copy, PartialEq, Eq, Structural)]
pub enum ConsentResolution {
    Granted,
    Denied,
    RequiresPrompt,
}

#[derive(Debug)]
pub enum ConsentDecision {
    Allowed,
    Blocked { reason: String },
    RequiresPrompt { stakes: ActionStakes, description: String },
}

/// The autonomy levels that relax prompting.
pub open spec fn level_of(autonomy: Seq<char>) -> int {
    if autonomy == "autonomous"@ { 2 } else if autonomy == "moderate"@ { 1 } else { 0 }
}

/// Whether an unresolved request may go ahead without prompting, at the
/// given autonomy level, for an action of this classification.
pub open spec fn allowed_without_prompt(level: int, stakes: ActionStakes, rev: Reversibility) -> bool {
    if level == 2 {
        stakes == ActionStakes::Low || (stakes == ActionStakes::Medium && rev == Reversibility::Reversible)
    } else if level == 1 {
        stakes == ActionStakes::Low && rev == Reversibility::Reversible
    } else {
        false
    }
}

/// The decision for an action, given what the consent manager answered.
pub open spec fn decision_spec(res: ConsentResolution, a: ActionType, autonomy: Seq<char>) -> ConsentKind {
    let c = classification_of(a);
    match res {
        ConsentResolution::Granted => ConsentKind::Allowed,
        ConsentResolution::Denied => ConsentKind::Blocked,
        ConsentResolution::RequiresPrompt => if allowed_without_prompt(level_of(autonomy), c.0, c.1) {
            ConsentKind::Allowed
        } else {
            ConsentKind::Prompt
        },
    }
}

pub enum ConsentKind {
    Allowed,
    Blocked,
    Prompt,
}

pub open spec fn kind_of(d: ConsentDecision) -> ConsentKind {
    match d {
        ConsentDecision::Allowed => ConsentKind::Allowed,
        ConsentDecision::Blocked { .. } => ConsentKind::Blocked,
        ConsentDecision::RequiresPrompt { .. } => ConsentKind::Prompt,
    }
}

/// Decides whether an action may run, from the consent manager's answer and
/// the autonomy level ("autonomous", "moderate", anything else is
/// conservative). A prompt names the action's stakes and description.
pub fn decide_consent(resolution: ConsentResolution, action: &ActionType, autonomy_level: &str) -> (r:
    ConsentDecision)
    ensures
        kind_of(r) == decision_spec(resolution, *action, autonomy_level@),
        r matches ConsentDecision::Blocked { reason } ==> reason@
            == "user has denied this type of action"@,
        r matches ConsentDecision::RequiresPrompt { stakes, description } ==> stakes
            == classification_of(*action).0 && description@ == classification_of(*action).2,
{
    let classification = ActionClassifier::classify(action);
    match resolution {
        ConsentResolution::Granted => ConsentDecision::Allowed,
        ConsentResolution::Denied => ConsentDecision::Blocked {
            reason: String::from_str("user has denied this type of action"),
        },
        ConsentResolution::RequiresPrompt => {
            let level: u8 = if str_eq(autonomy_level, "autonomous") {
                2
            } else if str_eq(autonomy_level, "moderate") {
                1
            } else {
                0
            };
            let allowed = if level == 2 {
                match classification.stakes {
                    ActionStakes::Low => true,
                    ActionStakes::Medium => classification.reversibility == Reversibility::Reversible,
                    ActionStakes::High => false,
                }
            } else if level == 1 {
                match classification.stakes {
                    ActionStakes::Low => classification.reversibility == Reversibility::Reversible,
                    _ => false,
                }
            } else {
                false
            };
            if allowed {
                ConsentDecision::Allowed
            } else {
                ConsentDecision::RequiresPrompt {
                    stakes: classification.stakes,
                    description: classification.description,
                }
            }
        },
    }
}

/// Raising the autonomy level never turns an allowed action into a prompt.
pub proof fn law_autonomy_monotone(a: ActionType, lower: Seq<char>, higher: Seq<char>)
    requires
        level_of(lower) <= level_of(higher),
        decision_spec(ConsentResolution::RequiresPrompt, a, lower) is Allowed,
    ensures
        decision_spec(ConsentResolution::RequiresPrompt, a, higher) is Allowed,
{
}

/// A high-stakes action never runs without an explicit grant, and an action
/// is blocked exactly when the user denied it.
pub proof fn law_high_stakes_need_grant(res: ConsentResolution, a: ActionType, autonomy: Seq<char>)
    ensures
        classification_of(a).0 == ActionStakes::High && decision_spec(res, a, autonomy) is Allowed
            ==> res == ConsentResolution::Granted,
        decision_spec(res, a, autonomy) is Blocked <==> res == ConsentResolution::Denied,
{
}


/// Whatever the autonomy level, an unresolved request for an action that
/// cannot be undone and is not of low stakes is put to the user: it is never
/// let through without asking.
pub proof fn law_irreversible_needs_prompt(a: ActionType, autonomy: Seq<char>)
    requires
        classification_of(a).1 == Reversibility::Irreversible,
        classification_of(a).0 != ActionStakes::Low,
    ensures
        decision_spec(ConsentResolution::RequiresPrompt, a, autonomy) is Prompt,
{
}

/// At an autonomy level other than "autonomous" and "moderate", every
/// unresolved request is put to the user.
pub proof fn law_conservative_always_prompts(a: ActionType, autonomy: Seq<char>)
    requires
        autonomy != "autonomous"@,
        autonomy != "moderate"@,
    ensures
        decision_spec(ConsentResolution::RequiresPrompt, a, autonomy) is Prompt,
{
}

/// At the "moderate" level an unresolved request goes ahead exactly when the
/// action is of low stakes and can be undone.
pub proof fn law_moderate_allows_only_low_reversible(a: ActionType)
    ensures
        decision_spec(ConsentResolution::RequiresPrompt, a, "moderate"@) is Allowed
            <==> (classification_of(a).0 == ActionStakes::Low && classification_of(a).1 == Reversibility::Reversible),
{
    reveal_strlit("moderate");
    reveal_strlit("autonomous");
    assert("moderate"@.len() != "autonomous"@.len());
}

/// At the "autonomous" level an unresolved request goes ahead exactly when
/// the action is of low stakes, or of medium stakes and can be undone; a
/// high-stakes action is always put to the user.
pub proof fn law_autonomous_allows(a: ActionType)
    ensures
        decision_spec(ConsentResolution::RequiresPrompt, a, "autonomous"@) is Allowed
            <==> (classification_of(a).0 == ActionStakes::Low
                || (classification_of(a).0 == ActionStakes::Medium && classification_of(a).1 == Reversibility::Reversible)),
{
}

} // verus!
