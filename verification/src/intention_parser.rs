//! The kinds of intent the parser knows, their parameters and context, and
//! the text handling done before matching: normalising an input and telling
//! whether it asks for several actions.
use vstd::prelude::*;
use vstd::string::StringExecFns;
use crate::intent_rules::{device_rule, first_hit, hit, opt_intent, read_device, read_intent, single_rule};
use crate::text::has_prefix;
use crate::text::{
    copy_chars, from_chars, has_sub, is_whitespace, is_ws, lowercase, push_str, split_by, split_str, split_words,
    to_chars, to_lowercase, trim, trim_chars, words_of,
};

verus! {

/// The type of intent parsed from natural language.
#[derive(Debug, Clone, Copy, PartialEq, Eq, Structural)]
pub enum IntentType {
    OpenApplication,
    CloseApplication,
    Search,
    Navigate,
    Click,
    Type,
    Scroll,
    Drag,
    Swipe,
    Wait,
    Speak,
    DeviceControl,
    BrowserAction,
    FileAction,
    SystemAction,
    MultiStepGoal,
    Unknown,
}

/// A single parameter extracted from the input.
#[derive(Debug)]
pub struct IntentParameter {
    pub key: String,
    pub value: String,
}

impl IntentParameter {
    pub fn new(key: &str, value: &str) -> (p: Self)
        ensures
            p.key@ == key@,
            p.value@ == value@,
    {
        IntentParameter { key: String::from_str(key), value: String::from_str(value) }
    }
}

/// An intent read from a command: its type, what it acts on, its
/// parameters, how sure the parser is (in hundredths) and why, and the text
/// it was read from.
#[derive(Debug)]
pub struct ParsedIntent {
    pub intent_type: IntentType,
    pub target: Option<String>,
    pub parameters: Vec<IntentParameter>,
    pub confidence_percent: u32,
    pub reasoning: String,
    pub original_text: String,
}

/// A parsed intent as values.
#[verifier::ext_equal]
pub struct IntentView {
    pub kind: IntentType,
    pub target: Option<Seq<char>>,
    pub params: Seq<(Seq<char>, Seq<char>)>,
    pub percent: u32,
    pub reasoning: Seq<char>,
    pub text: Seq<char>,
}

/// Parameters as key-value pairs of text.
pub open spec fn param_pairs(ps: Seq<IntentParameter>) -> Seq<(Seq<char>, Seq<char>)> {
    ps.map_values(|p: IntentParameter| (p.key@, p.value@))
}

impl View for ParsedIntent {
    type V = IntentView;

    open spec fn view(&self) -> IntentView {
        IntentView {
            kind: self.intent_type,
            target: match self.target {
                Some(t) => Some(t@),
                None => None,
            },
            params: param_pairs(self.parameters@),
            percent: self.confidence_percent,
            reasoning: self.reasoning@,
            text: self.original_text@,
        }
    }
}

/// What parsing a command gave: one intent, several steps, or nothing
/// recognised, with the reason.
#[derive(Debug)]
pub enum ParseOutcome {
    Single(ParsedIntent),
    Multi(Vec<ParsedIntent>),
    Unknown(String),
}

/// Where an input came from and when.
#[derive(Debug)]
pub struct IntentContext {
    pub source: String,
    pub timestamp: i64,
    pub application_state: Option<String>,
}

impl IntentContext {
    /// A context for this source, stamped with the current time.
    pub fn new(source: &str) -> (c: Self)
        ensures
            c.source@ == source@,
            c.application_state is None,
    {
        IntentContext { source: String::from_str(source), timestamp: crate::clock::now_millis(), application_state: None }
    }

    pub fn with_timestamp(self, ts: i64) -> (c: Self)
        ensures
            c == (IntentContext { timestamp: ts, ..self }),
    {
        let mut c = self;
        c.timestamp = ts;
        c
    }

    pub fn with_application_state(self, state: &str) -> (c: Self)
        ensures
            c.source == self.source,
            c.timestamp == self.timestamp,
            c.application_state matches Some(s) && s@ == state@,
    {
        let mut c = self;
        c.application_state = Some(String::from_str(state));
        c
    }
}

/// `s` with each run of white space made one space character; the input
/// is taken to have no white space at its ends.
pub open spec fn squeeze(s: Seq<char>) -> Seq<char>
    decreases s.len(),
{
    if s.len() == 0 {
        s
    } else if is_ws(s.last()) {
        if s.len() >= 2 && is_ws(s[s.len() - 2]) {
            squeeze(s.drop_last())
        } else {
            squeeze(s.drop_last()).push(' ')
        }
    } else {
        squeeze(s.drop_last()).push(s.last())
    }
}

/// The words of `s` joined by single spaces.
pub open spec fn collapse_ws(s: Seq<char>) -> Seq<char> {
    squeeze(trim(s))
}

/// The form inputs are matched in: words joined by single spaces, lower
/// case.
pub open spec fn normalized(s: Seq<char>) -> Seq<char> {
    if trim(s).len() == 0 {
        Seq::empty()
    } else {
        lowercase(collapse_ws(s))
    }
}

/// The entries of `supported_intents`: a name and what it covers.
pub open spec fn supported_entry(i: int) -> (Seq<char>, Seq<char>) {
    if i == 0 {
        ("open_application"@, "Open, launch, start, or run an application"@)
    } else if i == 1 {
        ("close_application"@, "Close, quit, exit, or terminate an application"@)
    } else if i == 2 {
        ("search"@, "Search, find, look for, or query information"@)
    } else if i == 3 {
        ("navigate"@, "Go to a URL, navigate, or open a web address"@)
    } else if i == 4 {
        ("click"@, "Click, tap, press, select, or choose an element"@)
    } else if i == 5 {
        ("type"@, "Type, enter, input, or write text"@)
    } else if i == 6 {
        ("scroll"@, "Scroll up, down, or to a position"@)
    } else if i == 7 {
        ("drag"@, "Drag an element from one position to another"@)
    } else if i == 8 {
        ("swipe"@, "Swipe in a direction"@)
    } else if i == 9 {
        ("wait"@, "Wait, pause, sleep, or delay for a duration"@)
    } else if i == 10 {
        ("speak"@, "Speak, say, tell, or announce text"@)
    } else if i == 11 {
        ("device_control"@, "Control device settings: brightness, volume, wifi, bluetooth, DND, lock, power"@)
    } else if i == 12 {
        ("browser_action"@, "Browser-related actions: search on Google, open in browser"@)
    } else if i == 13 {
        ("file_action"@, "File operations: open, save, create, delete, rename files"@)
    } else if i == 14 {
        ("system_action"@, "System operations: shutdown, restart, sleep, hibernate"@)
    } else {
        ("multi_step_goal"@, "Compound goals with multiple steps connected by 'and' or 'then'"@)
    }
}

/// The keywords of each action group, without their trailing spaces, as
/// they are looked for when counting actions.
pub open spec fn action_keywords(g: int) -> Seq<Seq<char>> {
    if g == 0 {
        seq!["open"@, "launch"@, "start"@, "run"@, "load"@]
    } else if g == 1 {
        seq!["close"@, "quit"@, "exit"@, "terminate"@, "kill"@]
    } else if g == 2 {
        seq!["search"@, "find"@, "look for"@, "look up"@, "query"@]
    } else if g == 3 {
        seq!["go to"@, "navigate"@, "open url"@, "goto"@]
    } else if g == 4 {
        seq!["click"@, "tap"@, "press"@, "select"@, "choose"@]
    } else if g == 5 {
        seq!["type"@, "enter"@, "input"@, "write"@]
    } else if g == 6 {
        seq!["scroll"@, "scroll up"@, "scroll down"@, "scroll to"@]
    } else if g == 7 {
        seq!["drag"@]
    } else if g == 8 {
        seq!["swipe"@]
    } else if g == 9 {
        seq!["wait"@, "pause"@, "sleep"@, "delay"@]
    } else if g == 10 {
        seq!["speak"@, "say"@, "tell"@, "announce"@]
    } else if g == 11 {
        seq!["brightness"@, "dim"@, "dimmer"@, "volume"@, "sound"@, "mute"@, "wifi"@, "wi-fi"@, "bluetooth"@,
            "dnd"@, "do not disturb"@, "lock"@, "power save"@, "power saving"@]
    } else if g == 12 {
        seq!["browser"@, "google"@, "search on"@, "open in browser"@, "bing"@, "youtube"@]
    } else if g == 13 {
        seq!["open file"@, "save file"@, "create file"@, "delete file"@, "rename file"@, "copy file"@, "move file"@,
            "new file"@]
    } else {
        seq!["shutdown"@, "restart"@, "reboot"@, "sleep"@, "hibernate"@, "log off"@]
    }
}

/// Some keyword of group `g` occurs in `s`.
pub open spec fn group_hit(s: Seq<char>, g: int) -> bool {
    exists|k: int| 0 <= k < action_keywords(g).len() && has_sub(s, #[trigger] action_keywords(g)[k])
}

/// How many of the first `n` action groups have a keyword in `s`.
pub open spec fn groups_hit(s: Seq<char>, n: int) -> nat
    decreases n,
{
    if n <= 0 {
        0
    } else {
        groups_hit(s, n - 1) + if group_hit(s, n - 1) { 1nat } else { 0nat }
    }
}

/// The connectors that can join two actions.
pub open spec fn has_connector(s: Seq<char>) -> bool {
    has_sub(s, " and "@) || has_sub(s, " then "@) || has_sub(s, ", and "@) || has_sub(s, "; "@)
}

pub(crate) fn action_keywords_of(g: usize) -> (r: Vec<&'static str>)
    requires
        g < 15,
    ensures
        r@.len() == action_keywords(g as int).len(),
        forall|k: int| 0 <= k < r@.len() ==> #[trigger] r@[k]@ == action_keywords(g as int)[k],
{
    proof {
        reveal_strlit("open");
    }
    if g == 0 {
        vec!["open", "launch", "start", "run", "load"]
    } else if g == 1 {
        vec!["close", "quit", "exit", "terminate", "kill"]
    } else if g == 2 {
        vec!["search", "find", "look for", "look up", "query"]
    } else if g == 3 {
        vec!["go to", "navigate", "open url", "goto"]
    } else if g == 4 {
        vec!["click", "tap", "press", "select", "choose"]
    } else if g == 5 {
        vec!["type", "enter", "input", "write"]
    } else if g == 6 {
        vec!["scroll", "scroll up", "scroll down", "scroll to"]
    } else if g == 7 {
        vec!["drag"]
    } else if g == 8 {
        vec!["swipe"]
    } else if g == 9 {
        vec!["wait", "pause", "sleep", "delay"]
    } else if g == 10 {
        vec!["speak", "say", "tell", "announce"]
    } else if g == 11 {
        vec!["brightness", "dim", "dimmer", "volume", "sound", "mute", "wifi", "wi-fi", "bluetooth", "dnd",
            "do not disturb", "lock", "power save", "power saving"]
    } else if g == 12 {
        vec!["browser", "google", "search on", "open in browser", "bing", "youtube"]
    } else if g == 13 {
        vec!["open file", "save file", "create file", "delete file", "rename file", "copy file", "move file",
            "new file"]
    } else {
        vec!["shutdown", "restart", "reboot", "sleep", "hibernate", "log off"]
    }
}

/// Rule-based natural language intent parser.
#[derive(Debug)]
pub struct IntentParser {
    _private: (),
}

impl IntentParser {
    pub fn new() -> (p: Self) {
        IntentParser { _private: () }
    }

    /// The input trimmed, with its words joined by single spaces, in lower
    /// case; empty when the input is only white space.
    pub fn normalize(&self, text: &str) -> (r: String)
        ensures
            r@ == normalized(text@),
    {
        let cs = to_chars(text);
        let t = trim_chars(cs.as_slice());
        if t.len() == 0 {
            return String::new();
        }
        let mut out = String::new();
        let n = t.len();
        let mut i: usize = 0;
        while i < n
            invariant
                n == t@.len(),
                i <= n,
                out@ == squeeze(t@.take(i as int)),
            decreases n - i,
        {
            proof {
                assert(t@.take(i + 1).drop_last() =~= t@.take(i as int));
            }
            let c = t[i];
            if is_whitespace(c) {
                if i == 0 || !is_whitespace(t[i - 1]) {
                    crate::text::push_char(&mut out, ' ');
                }
            } else {
                crate::text::push_char(&mut out, c);
            }
            i = i + 1;
        }
        proof {
            assert(t@.take(n as int) =~= t@);
        }
        to_lowercase(out.as_str())
    }

    /// The intent types the parser supports, with what each covers.
    pub fn supported_intents(&self) -> (r: Vec<(&'static str, &'static str)>)
        ensures
            r@.len() == 16,
            forall|i: int| 0 <= i < 16 ==> (#[trigger] r@[i]).0@ == supported_entry(i).0 && r@[i].1@ == supported_entry(i).1,
    {
        vec![
            ("open_application", "Open, launch, start, or run an application"),
            ("close_application", "Close, quit, exit, or terminate an application"),
            ("search", "Search, find, look for, or query information"),
            ("navigate", "Go to a URL, navigate, or open a web address"),
            ("click", "Click, tap, press, select, or choose an element"),
            ("type", "Type, enter, input, or write text"),
            ("scroll", "Scroll up, down, or to a position"),
            ("drag", "Drag an element from one position to another"),
            ("swipe", "Swipe in a direction"),
            ("wait", "Wait, pause, sleep, or delay for a duration"),
            ("speak", "Speak, say, tell, or announce text"),
            ("device_control", "Control device settings: brightness, volume, wifi, bluetooth, DND, lock, power"),
            ("browser_action", "Browser-related actions: search on Google, open in browser"),
            ("file_action", "File operations: open, save, create, delete, rename files"),
            ("system_action", "System operations: shutdown, restart, sleep, hibernate"),
            ("multi_step_goal", "Compound goals with multiple steps connected by 'and' or 'then'"),
        ]
    }

    /// How many action groups have a keyword in the lower-cased text.
    pub fn count_actions(&self, text: &str) -> (n: usize)
        ensures
            n == groups_hit(lowercase(text@), 15),
    {
        let lower = to_lowercase(text);
        let mut count: usize = 0;
        let mut g: usize = 0;
        while g < 15
            invariant
                g <= 15,
                lower@ == lowercase(text@),
                count == groups_hit(lower@, g as int),
                count <= g,
            decreases 15 - g,
        {
            let kws = action_keywords_of(g);
            let m = kws.len();
            let mut k: usize = 0;
            let mut hit = false;
            while k < m
                invariant
                    g < 15,
                    m == kws@.len(),
                    m == action_keywords(g as int).len(),
                    forall|q: int| 0 <= q < m ==> #[trigger] kws@[q]@ == action_keywords(g as int)[q],
                    k <= m,
                    hit == exists|q: int| 0 <= q < k && has_sub(lower@, #[trigger] action_keywords(g as int)[q]),
                decreases m - k,
            {
                if !hit {
                    if crate::text::str_contains(lower.as_str(), kws[k]) {
                        hit = true;
                    }
                }
                proof {
                    assert(kws@[k as int]@ == action_keywords(g as int)[k as int]);
                }
                k = k + 1;
            }
            proof {
                assert(hit == group_hit(lower@, g as int));
            }
            if hit {
                count = count + 1;
            }
            g = g + 1;
        }
        count
    }

    /// Whether the text joins two or more actions with a connector.
    pub fn is_multi_step(&self, text: &str) -> (r: bool)
        ensures
            r == (has_connector(text@) && groups_hit(lowercase(text@), 15) > 1),
    {
        let connected = crate::text::str_contains(text, " and ") || crate::text::str_contains(text, " then ")
            || crate::text::str_contains(text, ", and ") || crate::text::str_contains(text, "; ");
        connected && self.count_actions(text) > 1
    }
}

impl Default for IntentParser {
    fn default() -> (p: Self) {
        IntentParser::new()
    }
}


/// The words that join two steps of a command.
pub open spec fn is_connector(w: Seq<char>) -> bool {
    w == "and"@ || w == "then"@ || w == "&"@ || w == "subsequently"@ || w == "afterwards"@
}

/// A word that begins a new step: it starts with a keyword of opening,
/// closing, searching, clicking, typing or scrolling.
pub open spec fn starts_action(w: Seq<char>) -> bool {
    hit(w, 0, true) is Some || hit(w, 1, true) is Some || hit(w, 2, true) is Some || hit(w, 4, true) is Some
        || hit(w, 5, true) is Some || hit(w, 6, true) is Some
}

/// `a`, a space, and `b`.
pub open spec fn spaced(a: Seq<char>, b: Seq<char>) -> Seq<char> {
    a + seq![' '] + b
}

/// The steps gathered from the words `ws[i..]`, given the steps `parts`
/// found so far and the step `cur` being built: a connector that comes
/// after some text and before a word that begins a new step closes the
/// step; any other word joins the current step.
pub open spec fn gather(ws: Seq<Seq<char>>, i: int, parts: Seq<Seq<char>>, cur: Seq<char>) -> (Seq<Seq<char>>, Seq<char>)
    decreases ws.len() - i,
{
    if i < 0 || i >= ws.len() {
        (parts, cur)
    } else if is_connector(ws[i]) && cur.len() > 0 {
        if i + 1 < ws.len() && starts_action(ws[i + 1]) {
            gather(ws, i + 1, parts.push(trim(cur)), Seq::empty())
        } else {
            gather(ws, i + 1, parts, spaced(cur, ws[i]))
        }
    } else {
        gather(ws, i + 1, parts, if cur.len() > 0 { spaced(cur, ws[i]) } else { ws[i] })
    }
}

/// The steps of a command split at connectors, before the finer split.
pub open spec fn coarse_steps(t: Seq<char>) -> Seq<Seq<char>> {
    let (parts, cur) = gather(words_of(t), 0, Seq::empty(), Seq::empty());
    if trim(cur).len() > 0 { parts.push(trim(cur)) } else { parts }
}

/// A piece, trimmed, unless it is blank.
pub open spec fn kept(s: Seq<char>) -> Seq<Seq<char>> {
    if trim(s).len() > 0 { seq![trim(s)] } else { Seq::empty() }
}

/// A step split further at ", and ".
pub open spec fn split_and(sub: Seq<char>) -> Seq<Seq<char>> {
    split_str(sub, ", and "@).map_values(|x: Seq<char>| kept(x)).flatten()
}

/// A step split further at "; " and then at ", and ".
pub open spec fn split_part(part: Seq<char>) -> Seq<Seq<char>> {
    split_str(part, "; "@).map_values(|x: Seq<char>| split_and(x)).flatten()
}

/// The steps of a multi-step command: split at connectors, then at "; "
/// and ", and ", blank pieces dropped; the coarse steps when that leaves
/// nothing.
pub open spec fn steps_of(t: Seq<char>) -> Seq<Seq<char>> {
    let fine = coarse_steps(t).map_values(|p: Seq<char>| split_part(p)).flatten();
    if fine.len() > 0 { fine } else { coarse_steps(t) }
}

/// The intents read from the non-empty steps, in order, leaving out steps
/// no rule applies to.
pub open spec fn step_intents(parts: Seq<Seq<char>>) -> Seq<IntentView>
    decreases parts.len(),
{
    if parts.len() == 0 {
        Seq::empty()
    } else {
        let prev = step_intents(parts.drop_last());
        let p = parts.last();
        if p.len() == 0 {
            prev
        } else {
            match single_rule(p) {
                Some(i) => prev.push(i),
                None => prev,
            }
        }
    }
}

/// A parse outcome as values.
pub enum OutcomeView {
    Single(IntentView),
    Multi(Seq<IntentView>),
    Unknown(Seq<char>),
}

/// The view of a parse outcome.
pub open spec fn outcome_view(o: ParseOutcome) -> OutcomeView {
    match o {
        ParseOutcome::Single(i) => OutcomeView::Single(i@),
        ParseOutcome::Multi(v) => OutcomeView::Multi(v@.map_values(|i: ParsedIntent| i@)),
        ParseOutcome::Unknown(m) => OutcomeView::Unknown(m@),
    }
}

/// What a single command reads as.
pub open spec fn single_outcome(t: Seq<char>) -> OutcomeView {
    match single_rule(t) {
        Some(i) => OutcomeView::Single(i),
        None => OutcomeView::Unknown("unrecognized input: "@ + t),
    }
}

/// What parsing `text` gives: nothing for blank input; for a command that
/// joins several actions, the intents of its steps (one intent when only one
/// step is understood); otherwise the intent of the whole command.
pub open spec fn parse_spec(text: Seq<char>) -> OutcomeView {
    let n = normalized(text);
    if n.len() == 0 {
        OutcomeView::Unknown("empty input"@)
    } else if has_connector(n) && groups_hit(lowercase(n), 15) > 1 {
        let found = step_intents(steps_of(n));
        if found.len() == 0 {
            OutcomeView::Unknown("could not parse any step in: "@ + text)
        } else if found.len() == 1 {
            OutcomeView::Single(found[0])
        } else {
            OutcomeView::Multi(found)
        }
    } else {
        single_outcome(n)
    }
}

fn is_connector_word(w: &str) -> (r: bool)
    ensures
        r == is_connector(w@),
{
    crate::text::str_eq(w, "and") || crate::text::str_eq(w, "then") || crate::text::str_eq(w, "&")
        || crate::text::str_eq(w, "subsequently") || crate::text::str_eq(w, "afterwards")
}

fn starts_action_word(w: &str) -> (r: bool)
    ensures
        r == starts_action(w@),
{
    first_hit(w, 0, true).is_some() || first_hit(w, 1, true).is_some() || first_hit(w, 2, true).is_some()
        || first_hit(w, 4, true).is_some() || first_hit(w, 5, true).is_some() || first_hit(w, 6, true).is_some()
}

fn append_spaced(cur: &mut Vec<char>, w: &[char])
    ensures
        final(cur)@ == spaced(old(cur)@, w@),
{
    cur.push(' ');
    let mut i: usize = 0;
    let ghost base = cur@;
    while i < w.len()
        invariant
            i <= w@.len(),
            cur@ == base + w@.take(i as int),
        decreases w.len() - i,
    {
        cur.push(w[i]);
        assert(w@.take(i + 1) =~= w@.take(i as int).push(w@[i as int]));
        i = i + 1;
    }
    assert(w@.take(w@.len() as int) =~= w@);
}

/// The steps of a command split at connectors.
fn coarse_split(t: &[char]) -> (r: Vec<Vec<char>>)
    ensures
        r@.map_values(|v: Vec<char>| v@) == coarse_steps(t@),
{
    let words = split_words(t);
    let ghost ws = words@.map_values(|v: Vec<char>| v@);
    let mut parts: Vec<Vec<char>> = Vec::new();
    let mut cur: Vec<char> = Vec::new();
    let mut i: usize = 0;
    assert(parts@.map_values(|v: Vec<char>| v@) =~= Seq::<Seq<char>>::empty());
    assert(cur@ =~= Seq::<char>::empty());
    while i < words.len()
        invariant
            ws == words@.map_values(|v: Vec<char>| v@),
            ws == words_of(t@),
            i <= words@.len(),
            gather(ws, 0, Seq::empty(), Seq::empty()) == gather(ws, i as int, parts@.map_values(|v: Vec<char>| v@), cur@),
        decreases words.len() - i,
    {
        let w = words[i].as_slice();
        assert(ws[i as int] == w@);
        let ws_str = from_chars(w);
        let ghost parts0 = parts@.map_values(|v: Vec<char>| v@);
        let ghost cur0 = cur@;
        if is_connector_word(ws_str.as_str()) && cur.len() > 0 {
            let mut new_step = false;
            if i + 1 < words.len() {
                let next = from_chars(words[i + 1].as_slice());
                assert(ws[i + 1] == words@[i + 1]@);
                new_step = starts_action_word(next.as_str());
            }
            if new_step {
                let piece = trim_chars(cur.as_slice());
                parts.push(piece);
                cur = Vec::new();
                assert(parts@.map_values(|v: Vec<char>| v@) =~= parts0.push(trim(cur0)));
            } else {
                append_spaced(&mut cur, w);
            }
        } else {
            if cur.len() > 0 {
                append_spaced(&mut cur, w);
            } else {
                cur = copy_chars(w);
            }
        }
        i = i + 1;
    }
    let ghost parts0 = parts@.map_values(|v: Vec<char>| v@);
    let tail = trim_chars(cur.as_slice());
    if tail.len() > 0 {
        parts.push(tail);
        assert(parts@.map_values(|v: Vec<char>| v@) =~= parts0.push(trim(cur@)));
    }
    parts
}


fn keep_piece(s: &[char], out: &mut Vec<Vec<char>>)
    ensures
        final(out)@.map_values(|v: Vec<char>| v@) == old(out)@.map_values(|v: Vec<char>| v@) + kept(s@),
{
    let ghost before = out@.map_values(|v: Vec<char>| v@);
    let t = trim_chars(s);
    if t.len() > 0 {
        out.push(t);
        assert(out@.map_values(|v: Vec<char>| v@) =~= before + kept(s@));
    } else {
        assert(before + kept(s@) =~= before);
    }
}

fn split_and_into(sub: &[char], out: &mut Vec<Vec<char>>)
    ensures
        final(out)@.map_values(|v: Vec<char>| v@) == old(out)@.map_values(|v: Vec<char>| v@) + split_and(sub@),
{
    let sep = to_chars(", and ");
    proof {
        reveal_strlit(", and ");
    }
    let pieces = split_by(sub, sep.as_slice());
    let ghost pv = pieces@.map_values(|v: Vec<char>| v@);
    let ghost base = out@.map_values(|v: Vec<char>| v@);
    let mut j: usize = 0;
    assert(pv.take(0).map_values(|x: Seq<char>| kept(x)).flatten() =~= Seq::<Seq<char>>::empty());
    assert(base + Seq::<Seq<char>>::empty() =~= base);
    while j < pieces.len()
        invariant
            pv == pieces@.map_values(|v: Vec<char>| v@),
            pv == split_str(sub@, ", and "@),
            j <= pieces@.len(),
            out@.map_values(|v: Vec<char>| v@) == base + pv.take(j as int).map_values(|x: Seq<char>| kept(x)).flatten(),
        decreases pieces.len() - j,
    {
        keep_piece(pieces[j].as_slice(), out);
        proof {
            let m = pv.take(j as int).map_values(|x: Seq<char>| kept(x));
            assert(pv.take(j + 1).map_values(|x: Seq<char>| kept(x)) =~= m.push(kept(pv[j as int])));
            m.lemma_flatten_push(kept(pv[j as int]));
            assert(pieces@[j as int]@ == pv[j as int]);
        }
        j = j + 1;
    }
    assert(pv.take(pieces@.len() as int) =~= pv);
}

fn split_part_into(part: &[char], out: &mut Vec<Vec<char>>)
    ensures
        final(out)@.map_values(|v: Vec<char>| v@) == old(out)@.map_values(|v: Vec<char>| v@) + split_part(part@),
{
    let sep = to_chars("; ");
    proof {
        reveal_strlit("; ");
    }
    let pieces = split_by(part, sep.as_slice());
    let ghost pv = pieces@.map_values(|v: Vec<char>| v@);
    let ghost base = out@.map_values(|v: Vec<char>| v@);
    let mut j: usize = 0;
    assert(pv.take(0).map_values(|x: Seq<char>| split_and(x)).flatten() =~= Seq::<Seq<char>>::empty());
    assert(base + Seq::<Seq<char>>::empty() =~= base);
    while j < pieces.len()
        invariant
            pv == pieces@.map_values(|v: Vec<char>| v@),
            pv == split_str(part@, "; "@),
            j <= pieces@.len(),
            out@.map_values(|v: Vec<char>| v@) == base + pv.take(j as int).map_values(|x: Seq<char>| split_and(x)).flatten(),
        decreases pieces.len() - j,
    {
        let ghost mid = out@.map_values(|v: Vec<char>| v@);
        split_and_into(pieces[j].as_slice(), out);
        proof {
            let m = pv.take(j as int).map_values(|x: Seq<char>| split_and(x));
            assert(pv.take(j + 1).map_values(|x: Seq<char>| split_and(x)) =~= m.push(split_and(pv[j as int])));
            m.lemma_flatten_push(split_and(pv[j as int]));
            assert(pieces@[j as int]@ == pv[j as int]);
            assert(mid + split_and(pv[j as int]) == base + (m.flatten() + split_and(pv[j as int])));
        }
        j = j + 1;
    }
    assert(pv.take(pieces@.len() as int) =~= pv);
}

/// The steps of a multi-step command.
fn split_steps(t: &[char]) -> (r: Vec<Vec<char>>)
    ensures
        r@.map_values(|v: Vec<char>| v@) == steps_of(t@),
{
    let coarse = coarse_split(t);
    let ghost cv = coarse@.map_values(|v: Vec<char>| v@);
    let mut fine: Vec<Vec<char>> = Vec::new();
    let mut j: usize = 0;
    assert(cv.take(0).map_values(|p: Seq<char>| split_part(p)).flatten() =~= Seq::<Seq<char>>::empty());
    assert(fine@.map_values(|v: Vec<char>| v@) =~= Seq::<Seq<char>>::empty());
    while j < coarse.len()
        invariant
            cv == coarse@.map_values(|v: Vec<char>| v@),
            cv == coarse_steps(t@),
            j <= coarse@.len(),
            fine@.map_values(|v: Vec<char>| v@) == cv.take(j as int).map_values(|p: Seq<char>| split_part(p)).flatten(),
        decreases coarse.len() - j,
    {
        split_part_into(coarse[j].as_slice(), &mut fine);
        proof {
            let m = cv.take(j as int).map_values(|p: Seq<char>| split_part(p));
            assert(cv.take(j + 1).map_values(|p: Seq<char>| split_part(p)) =~= m.push(split_part(cv[j as int])));
            m.lemma_flatten_push(split_part(cv[j as int]));
            assert(coarse@[j as int]@ == cv[j as int]);
        }
        j = j + 1;
    }
    assert(cv.take(coarse@.len() as int) =~= cv);
    if fine.len() > 0 { fine } else { coarse }
}

/// The intents of the non-empty steps that some rule reads.
fn intents_of_steps(parts: &Vec<Vec<char>>) -> (r: Vec<ParsedIntent>)
    ensures
        r@.map_values(|i: ParsedIntent| i@) == step_intents(parts@.map_values(|v: Vec<char>| v@)),
{
    let ghost pv = parts@.map_values(|v: Vec<char>| v@);
    let mut out: Vec<ParsedIntent> = Vec::new();
    let mut i: usize = 0;
    assert(pv.take(0) =~= Seq::<Seq<char>>::empty());
    assert(out@.map_values(|x: ParsedIntent| x@) =~= Seq::<IntentView>::empty());
    while i < parts.len()
        invariant
            pv == parts@.map_values(|v: Vec<char>| v@),
            i <= parts@.len(),
            out@.map_values(|x: ParsedIntent| x@) == step_intents(pv.take(i as int)),
        decreases parts.len() - i,
    {
        assert(pv.take(i + 1).drop_last() =~= pv.take(i as int));
        assert(pv.take(i + 1).last() == parts@[i as int]@);
        if parts[i].len() > 0 {
            let text = from_chars(parts[i].as_slice());
            match read_intent(text.as_str()) {
                Some(intent) => {
                    let ghost before = out@.map_values(|x: ParsedIntent| x@);
                    out.push(intent);
                    assert(out@.map_values(|x: ParsedIntent| x@) =~= before.push(intent@));
                },
                None => {},
            }
        }
        i = i + 1;
    }
    assert(pv.take(parts@.len() as int) =~= pv);
    out
}

impl IntentParser {
    /// What a single command reads as, by the first rule that applies.
    pub fn parse_single(&self, text: &str) -> (r: ParseOutcome)
        ensures
            outcome_view(r) == single_outcome(text@),
    {
        match read_intent(text) {
            Some(i) => ParseOutcome::Single(i),
            None => {
                let mut m = String::new();
                push_str(&mut m, "unrecognized input: ");
                push_str(&mut m, text);
                assert(m@ =~= "unrecognized input: "@ + text@);
                ParseOutcome::Unknown(m)
            },
        }
    }

    /// What a command reads as: nothing for blank input; the intents of its
    /// steps when it joins several actions; else the intent of the whole
    /// command.
    pub fn parse(&self, text: &str) -> (r: ParseOutcome)
        ensures
            outcome_view(r) == parse_spec(text@),
    {
        let n = self.normalize(text);
        let nc = to_chars(n.as_str());
        if nc.len() == 0 {
            return ParseOutcome::Unknown(String::from_str("empty input"));
        }
        if self.is_multi_step(n.as_str()) {
            let steps = split_steps(nc.as_slice());
            let mut found = intents_of_steps(&steps);
            if found.len() == 0 {
                let mut m = String::new();
                push_str(&mut m, "could not parse any step in: ");
                push_str(&mut m, text);
                assert(m@ =~= "could not parse any step in: "@ + text@);
                return ParseOutcome::Unknown(m);
            }
            if found.len() == 1 {
                let only = found.remove(0);
                return ParseOutcome::Single(only);
            }
            proof {
                assert(found@.map_values(|i: ParsedIntent| i@) == step_intents(steps_of(n@)));
            }
            return ParseOutcome::Multi(found);
        }
        self.parse_single(n.as_str())
    }

    /// Each command parsed, in order.
    pub fn parse_many(&self, texts: &[&str]) -> (r: Vec<ParseOutcome>)
        ensures
            r@.len() == texts@.len(),
            forall|i: int| 0 <= i < texts@.len() ==> outcome_view(#[trigger] r@[i]) == parse_spec(texts@[i]@),
    {
        let mut out: Vec<ParseOutcome> = Vec::new();
        let mut i: usize = 0;
        while i < texts.len()
            invariant
                i <= texts@.len(),
                out@.len() == i,
                forall|k: int| 0 <= k < i ==> outcome_view(#[trigger] out@[k]) == parse_spec(texts@[k]@),
            decreases texts.len() - i,
        {
            let o = self.parse(texts[i]);
            out.push(o);
            i = i + 1;
        }
        out
    }
}


/// The intent names scored by keyword, with the action group of each.
pub open spec fn scored_name(i: int) -> (Seq<char>, int) {
    if i == 0 { ("open_application"@, 0) }
    else if i == 1 { ("close_application"@, 1) }
    else if i == 2 { ("search"@, 2) }
    else if i == 3 { ("navigate"@, 3) }
    else if i == 4 { ("click"@, 4) }
    else if i == 5 { ("type"@, 5) }
    else if i == 6 { ("scroll"@, 6) }
    else if i == 7 { ("drag"@, 7) }
    else if i == 8 { ("swipe"@, 8) }
    else if i == 9 { ("wait"@, 9) }
    else if i == 10 { ("speak"@, 10) }
    else if i == 11 { ("browser_action"@, 12) }
    else if i == 12 { ("file_action"@, 13) }
    else { ("system_action"@, 14) }
}

/// The keyword scores of the first `i` scored names: 90 when the text
/// starts with the group's first keyword, 60 when it only holds one of its
/// keywords.
pub open spec fn keyword_scores(n: Seq<char>, i: int) -> Seq<(Seq<char>, u32)>
    decreases i,
{
    if i <= 0 {
        Seq::empty()
    } else {
        let prev = keyword_scores(n, i - 1);
        let (name, g) = scored_name(i - 1);
        if hit(n, g, false) is Some {
            prev.push((name, if has_prefix(n, action_keywords(g)[0]) { 90u32 } else { 60u32 }))
        } else {
            prev
        }
    }
}

/// How likely each intent is for a command, in hundredths: the device
/// setting it names, each intent a keyword points at, and multi-step when it
/// joins actions; "unknown" at 100 when nothing applies or the command is
/// blank.
pub open spec fn confidence_spec(text: Seq<char>) -> Seq<(Seq<char>, u32)> {
    let n = normalized(text);
    if n.len() == 0 {
        seq![("unknown"@, 100u32)]
    } else {
        let dev = match device_rule(n) {
            Some(v) => seq![("device_control"@, v.percent)],
            None => Seq::empty(),
        };
        let multi = if has_connector(n) && groups_hit(lowercase(n), 15) > 1 {
            seq![("multi_step_goal"@, 85u32)]
        } else {
            Seq::empty()
        };
        let all = dev + keyword_scores(n, 14) + multi;
        if all.len() == 0 { seq![("unknown"@, 100u32)] } else { all }
    }
}

fn scored_name_exec(i: usize) -> (r: (&'static str, usize))
    requires
        i < 14,
    ensures
        r.0@ == scored_name(i as int).0,
        r.1 == scored_name(i as int).1,
        r.1 < 15,
{
    if i == 0 { ("open_application", 0) }
    else if i == 1 { ("close_application", 1) }
    else if i == 2 { ("search", 2) }
    else if i == 3 { ("navigate", 3) }
    else if i == 4 { ("click", 4) }
    else if i == 5 { ("type", 5) }
    else if i == 6 { ("scroll", 6) }
    else if i == 7 { ("drag", 7) }
    else if i == 8 { ("swipe", 8) }
    else if i == 9 { ("wait", 9) }
    else if i == 10 { ("speak", 10) }
    else if i == 11 { ("browser_action", 12) }
    else if i == 12 { ("file_action", 13) }
    else { ("system_action", 14) }
}

/// Scores as names and numbers.
pub open spec fn score_views(s: Seq<(String, u32)>) -> Seq<(Seq<char>, u32)> {
    s.map_values(|p: (String, u32)| (p.0@, p.1))
}

impl IntentParser {
    /// How likely each intent is for a command, in hundredths.
    pub fn confidence(&self, text: &str) -> (r: Vec<(String, u32)>)
        ensures
            score_views(r@) == confidence_spec(text@),
    {
        let n = self.normalize(text);
        let nc = to_chars(n.as_str());
        let mut out: Vec<(String, u32)> = Vec::new();
        if nc.len() == 0 {
            out.push((String::from_str("unknown"), 100));
            assert(score_views(out@) =~= seq![("unknown"@, 100u32)]);
            return out;
        }
        match read_device(n.as_str()) {
            Some(p) => {
                out.push((String::from_str("device_control"), p));
            },
            None => {},
        }
        let ghost dev = score_views(out@);
        assert(dev == match device_rule(n@) {
            Some(v) => seq![("device_control"@, v.percent)],
            None => Seq::<(Seq<char>, u32)>::empty(),
        }) by {
            assert(score_views(out@) =~= match device_rule(n@) {
                Some(v) => seq![("device_control"@, v.percent)],
                None => Seq::<(Seq<char>, u32)>::empty(),
            });
        }
        let mut i: usize = 0;
        assert(dev + keyword_scores(n@, 0) =~= dev);
        while i < 14
            invariant
                i <= 14,
                score_views(out@) == dev + keyword_scores(n@, i as int),
            decreases 14 - i,
        {
            let (name, g) = scored_name_exec(i);
            if first_hit(n.as_str(), g, false).is_some() {
                let kws = action_keywords_of(g);
                assert(kws@[0]@ == action_keywords(g as int)[0]);
                let score: u32 = if crate::text::str_starts_with(n.as_str(), kws[0]) { 90 } else { 60 };
                let ghost before = score_views(out@);
                out.push((String::from_str(name), score));
                assert(score_views(out@) =~= before.push((name@, score)));
            }
            i = i + 1;
        }
        if self.is_multi_step(n.as_str()) {
            let ghost before = score_views(out@);
            out.push((String::from_str("multi_step_goal"), 85));
            assert(score_views(out@) =~= before + seq![("multi_step_goal"@, 85u32)]);
        } else {
            assert(score_views(out@) =~= score_views(out@) + Seq::<(Seq<char>, u32)>::empty());
        }
        if out.len() == 0 {
            out.push((String::from_str("unknown"), 100));
            assert(score_views(out@) =~= seq![("unknown"@, 100u32)]);
        }
        out
    }
}


impl ParseOutcome {
    /// The intents of the outcome, in order: one, several, or none.
    pub fn intents(&self) -> (r: Vec<&ParsedIntent>)
        ensures
            match self {
                ParseOutcome::Single(i) => r@.len() == 1 && r@[0] == i,
                ParseOutcome::Multi(v) => r@.len() == v@.len() && forall|k: int| 0 <= k < v@.len() ==> r@[k] == v@[k],
                ParseOutcome::Unknown(_) => r@.len() == 0,
            },
    {
        let mut out: Vec<&ParsedIntent> = Vec::new();
        match self {
            ParseOutcome::Single(i) => {
                out.push(i);
            },
            ParseOutcome::Multi(v) => {
                let mut k: usize = 0;
                while k < v.len()
                    invariant
                        k <= v@.len(),
                        out@.len() == k,
                        forall|j: int| 0 <= j < k ==> out@[j] == v@[j],
                    decreases v.len() - k,
                {
                    out.push(&v[k]);
                    k = k + 1;
                }
            },
            ParseOutcome::Unknown(_) => {},
        }
        out
    }

    /// Whether nothing was recognised.
    pub fn is_unknown(&self) -> (r: bool)
        ensures
            r == (self is Unknown),
    {
        match self {
            ParseOutcome::Unknown(_) => true,
            _ => false,
        }
    }
}


/// Every intent the rules read from a command is held with a confidence
/// between 75 and 95 hundredths.
pub proof fn law_rule_confidence_bounds(t: Seq<char>)
    ensures
        single_rule(t) matches Some(v) ==> 75 <= v.percent <= 95,
{
}

proof fn lemma_step_intents_bounds(parts: Seq<Seq<char>>)
    ensures
        forall|i: int| 0 <= i < step_intents(parts).len() ==> 75 <= #[trigger] step_intents(parts)[i].percent <= 95,
    decreases parts.len(),
{
    if parts.len() > 0 {
        lemma_step_intents_bounds(parts.drop_last());
        law_rule_confidence_bounds(parts.last());
    }
}

/// Whatever a command parses to, each intent in it has a confidence between
/// 75 and 95 hundredths.
pub proof fn law_parse_confidence_bounds(text: Seq<char>)
    ensures
        parse_spec(text) matches OutcomeView::Single(v) ==> 75 <= v.percent <= 95,
        parse_spec(text) matches OutcomeView::Multi(vs) ==> forall|i: int| 0 <= i < vs.len() ==> 75 <= #[trigger] vs[i].percent <= 95,
{
    let n = normalized(text);
    lemma_step_intents_bounds(steps_of(n));
    law_rule_confidence_bounds(n);
}


} // verus!
