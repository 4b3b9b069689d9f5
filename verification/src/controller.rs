//! Driving an application through what is on screen: the checks, outcomes
//! and search steps of a controller that reads the screen and injects input.
//! The screen and input engines themselves are the caller's; this module
//! decides what to do with what they report.
use vstd::prelude::*;
use crate::action::ActionResult;
use crate::text::{decimal, has_sub, push_decimal, push_str, str_contains};

verus! {

broadcast use vstd::string::group_string_axioms;

/// One step of navigating an application by what is on screen.
#[derive(Debug)]
pub enum NavigationStep {
    ClickText(String),
    TypeText { target: String, text: String },
    Wait(u64),
}

/// Why an operation cannot start, given which engines are configured: the
/// screen engine is checked before the input engine.
pub open spec fn missing_engine_text(has_screen: bool, has_input: bool) -> Option<Seq<char>> {
    if !has_screen {
        Some("screen engine not configured"@)
    } else if !has_input {
        Some("input engine not configured"@)
    } else {
        None
    }
}

/// The error an operation that needs both engines fails with, if one of them
/// is not configured.
pub fn missing_engine(has_screen: bool, has_input: bool) -> (r: Option<String>)
    ensures
        match (r, missing_engine_text(has_screen, has_input)) {
            (Some(e), Some(t)) => e@ == t,
            (None, None) => true,
            _ => false,
        },
{
    if !has_screen {
        Some("screen engine not configured".to_string())
    } else if !has_input {
        Some("input engine not configured".to_string())
    } else {
        None
    }
}

/// The outcome of clicking the text `target` found on screen, given whether
/// the click succeeded and the detail reported for it.
pub fn click_outcome(target: &str, success: bool, detail: &str) -> (r: Result<ActionResult, String>)
    ensures
        success ==> r is Ok && r->Ok_0.success && r->Ok_0.data is None
            && r->Ok_0.message@ == "clicked '"@ + target@ + "'"@,
        !success ==> r is Err && r->Err_0@ == "click failed: "@ + detail@,
{
    if success {
        let mut m = String::new();
        push_str(&mut m, "clicked '");
        push_str(&mut m, target);
        push_str(&mut m, "'");
        Ok(ActionResult::success(m))
    } else {
        let mut m = String::new();
        push_str(&mut m, "click failed: ");
        push_str(&mut m, detail);
        Err(m)
    }
}

/// The outcome of typing `text` into the element found for `target`, given
/// whether the typing succeeded and the detail reported for it.
pub fn type_outcome(target: &str, text: &str, success: bool, detail: &str) -> (r: Result<ActionResult, String>)
    ensures
        success ==> r is Ok && r->Ok_0.success && r->Ok_0.data is None
            && r->Ok_0.message@ == "typed '"@ + text@ + "' into '"@ + target@ + "'"@,
        !success ==> r is Err && r->Err_0@ == "type failed: "@ + detail@,
{
    if success {
        let mut m = String::new();
        push_str(&mut m, "typed '");
        push_str(&mut m, text);
        push_str(&mut m, "' into '");
        push_str(&mut m, target);
        push_str(&mut m, "'");
        Ok(ActionResult::success(m))
    } else {
        let mut m = String::new();
        push_str(&mut m, "type failed: ");
        push_str(&mut m, detail);
        Err(m)
    }
}

/// Opening an application by name first tries to click its name on screen,
/// which needs both engines; otherwise the plain open-app action is used.
pub fn open_app_tries_click(has_screen: bool, has_input: bool) -> (r: bool)
    ensures
        r == (has_screen && has_input),
{
    has_screen && has_input
}

/// What a search by scrolling does next.
#[derive(Debug)]
pub enum ScrollAction {
    /// Capture the screen and read its text.
    Look,
    /// Click the target text on the screen just read.
    Click,
    /// Scroll down by one step, then look again.
    Scroll,
    /// The search is over with this outcome.
    Done(Result<ActionResult, String>),
}

/// A search for a text on screen that scrolls down until the text shows, at
/// most `max_scrolls` looks in all.
pub struct ScrollSearch {
    pub target: String,
    pub max_scrolls: u32,
    /// The look under way, counted from zero.
    pub attempt: u32,
}

/// The message of a search that found and clicked `target` on look `attempt`.
pub open spec fn scroll_found_text(target: Seq<char>, attempt: u32) -> Seq<char> {
    "found and clicked '"@ + target + "' after scroll "@ + decimal(attempt as nat)
}

/// The error of a search that gave up after `max_scrolls` looks.
pub open spec fn scroll_missed_text(target: Seq<char>, max_scrolls: u32) -> Seq<char> {
    "target '"@ + target + "' not found after "@ + decimal(max_scrolls as nat) + " scroll attempts"@
}

/// The action is the end of the search with the given error.
pub open spec fn gives_up(a: ScrollAction, e: Seq<char>) -> bool {
    a matches ScrollAction::Done(Err(m)) && m@ == e
}

/// The action is the end of the search with a success that says `m`.
pub open spec fn found_done(a: ScrollAction, m: Seq<char>) -> bool {
    a matches ScrollAction::Done(Ok(res)) && res.success && res.data is None && res.message@ == m
}

/// What follows a look that led to no click: another look after a scroll
/// while looks are left, else the end of the search.
pub open spec fn after_miss_spec(s: ScrollSearch, a: ScrollAction) -> bool {
    if s.attempt + 1 < s.max_scrolls {
        a is Scroll
    } else {
        gives_up(a, scroll_missed_text(s.target@, s.max_scrolls))
    }
}

impl ScrollSearch {
    /// A search for `target` with at most `max_scrolls` looks, and its first
    /// action: a look, or the end of the search when no look is allowed.
    pub fn start(target: String, max_scrolls: u32) -> (r: (Self, ScrollAction))
        ensures
            r.0.target@ == target@,
            r.0.max_scrolls == max_scrolls,
            r.0.attempt == 0,
            max_scrolls > 0 ==> r.1 is Look,
            max_scrolls == 0 ==> gives_up(r.1, scroll_missed_text(target@, 0)),
    {
        let s = ScrollSearch { target, max_scrolls, attempt: 0 };
        if max_scrolls == 0 {
            let e = s.missed();
            (s, ScrollAction::Done(Err(e)))
        } else {
            (s, ScrollAction::Look)
        }
    }

    fn missed(&self) -> (e: String)
        ensures
            e@ == scroll_missed_text(self.target@, self.max_scrolls),
    {
        let mut m = String::new();
        push_str(&mut m, "target '");
        push_str(&mut m, self.target.as_str());
        push_str(&mut m, "' not found after ");
        push_decimal(&mut m, self.max_scrolls as u64);
        push_str(&mut m, " scroll attempts");
        m
    }

    fn after_miss(&self) -> (a: ScrollAction)
        ensures
            after_miss_spec(*self, a),
    {
        if (self.attempt as u64) + 1 < self.max_scrolls as u64 {
            ScrollAction::Scroll
        } else {
            ScrollAction::Done(Err(self.missed()))
        }
    }

    /// The next action after reading `seen` on the screen: click when the
    /// target shows in it, else as after a miss.
    pub fn on_looked(&self, seen: &str) -> (a: ScrollAction)
        ensures
            has_sub(seen@, self.target@) ==> a is Click,
            !has_sub(seen@, self.target@) ==> after_miss_spec(*self, a),
    {
        if str_contains(seen, self.target.as_str()) {
            ScrollAction::Click
        } else {
            self.after_miss()
        }
    }

    /// The next action after clicking the target: the end of the search when
    /// the click succeeded, else as after a miss.
    pub fn on_clicked(&self, success: bool) -> (a: ScrollAction)
        ensures
            success ==> found_done(a, scroll_found_text(self.target@, self.attempt)),
            !success ==> after_miss_spec(*self, a),
    {
        if success {
            let mut m = String::new();
            push_str(&mut m, "found and clicked '");
            push_str(&mut m, self.target.as_str());
            push_str(&mut m, "' after scroll ");
            push_decimal(&mut m, self.attempt as u64);
            ScrollAction::Done(Ok(ActionResult::success(m)))
        } else {
            self.after_miss()
        }
    }

    /// After a scroll, the next look begins.
    pub fn on_scrolled(&mut self) -> (a: ScrollAction)
        requires
            old(self).attempt + 1 < old(self).max_scrolls,
        ensures
            final(self).target@ == old(self).target@,
            final(self).max_scrolls == old(self).max_scrolls,
            final(self).attempt == old(self).attempt + 1,
            a is Look,
    {
        self.attempt = self.attempt + 1;
        ScrollAction::Look
    }
}

/// A search scrolls only while looks are left: after a scroll the look under
/// way is still one that `max_scrolls` allows, so a search never looks more
/// than `max_scrolls` times.
pub proof fn law_scroll_stays_within_limit(s: ScrollSearch, a: ScrollAction)
    requires
        s.attempt < s.max_scrolls,
        after_miss_spec(s, a),
        a is Scroll,
    ensures
        s.attempt + 1 < s.max_scrolls,
{
}

/// The error of navigation step `i` that failed with `e`.
pub open spec fn navigation_failure_text(i: nat, step: NavigationStep, e: Seq<char>) -> Seq<char> {
    match step {
        NavigationStep::ClickText(text) => "navigation step "@ + decimal(i) + " (click '"@ + text@ + "') failed: "@ + e,
        NavigationStep::TypeText { target, .. } => "navigation step "@ + decimal(i) + " (type into '"@ + target@ + "') failed: "@ + e,
        NavigationStep::Wait(_) => Seq::empty(),
    }
}

/// The error a navigation ends with when step `i`, a click or a typing, fails
/// with `e`. A wait does not fail.
pub fn navigation_failure(i: usize, step: &NavigationStep, e: &str) -> (r: String)
    requires
        !(step is Wait),
    ensures
        r@ == navigation_failure_text(i as nat, *step, e@),
{
    let mut m = String::new();
    push_str(&mut m, "navigation step ");
    push_decimal(&mut m, i as u64);
    match step {
        NavigationStep::ClickText(text) => {
            push_str(&mut m, " (click '");
            push_str(&mut m, text.as_str());
        },
        NavigationStep::TypeText { target, .. } => {
            push_str(&mut m, " (type into '");
            push_str(&mut m, target.as_str());
        },
        NavigationStep::Wait(_) => {},
    }
    push_str(&mut m, "') failed: ");
    push_str(&mut m, e);
    m
}

/// The result of a navigation whose `n` steps all succeeded.
pub fn navigation_done(n: usize) -> (r: ActionResult)
    ensures
        r.success,
        r.data is None,
        r.message@ == "completed "@ + decimal(n as nat) + " navigation step(s)"@,
{
    let mut m = String::new();
    push_str(&mut m, "completed ");
    push_decimal(&mut m, n as u64);
    push_str(&mut m, " navigation step(s)");
    ActionResult::success(m)
}

} // verus!
