//! Goal definitions: what a goal is called, which intents it serves, which
//! parameters it needs, and the template that turns parameters into a
//! planner goal; the built-in set; and the registry that holds them.
use vstd::prelude::*;
use vstd::string::StringExecFns;
use crate::intention_parser::{IntentParameter, IntentType};
use crate::keyed::{pair_map, string_views, unique_keys};
use crate::planner::Goal;
use crate::text::{has_sub, lowercase, occurs_at, push_str, str_contains, str_eq, to_lowercase};

verus! {

/// Category assigned to a goal definition.
#[derive(Debug, Clone, Copy, PartialEq, Eq, Structural, Hash)]
pub enum GoalCategory {
    Application,
    Browser,
    Device,
    System,
    File,
    Navigation,
    Communication,
    Search,
    Automation,
    Custom,
}

/// Capability required by a goal definition.
#[derive(Debug, Clone, Copy, PartialEq, Eq, Structural, Hash)]
pub enum GoalCapability {
    ScreenRequired,
    InputRequired,
    NetworkRequired,
    MemoryRequired,
    AIRequired,
    DeviceRequired,
}

/// `s` with every occurrence of `p`, scanned from the left without overlap,
/// replaced by `t`.
pub open spec fn replaced(s: Seq<char>, p: Seq<char>, t: Seq<char>) -> Seq<char>
    decreases s.len(),
{
    if p.len() == 0 || s.len() == 0 {
        s
    } else if p.len() <= s.len() && s.take(p.len() as int) == p {
        t + replaced(s.skip(p.len() as int), p, t)
    } else {
        seq![s[0]] + replaced(s.skip(1), p, t)
    }
}

/// `s` with every occurrence of `p` replaced by `t`, as `str::replace` does
/// for a non-empty pattern.
pub fn replace_all(s: &str, p: &str, t: &str) -> (r: String)
    requires
        p@.len() > 0,
    ensures
        r@ == replaced(s@, p@, t@),
{
    let sc = crate::text::to_chars(s);
    let pc = crate::text::to_chars(p);
    let mut out = String::new();
    let n = sc.len();
    let m = pc.len();
    let mut i: usize = 0;
    proof {
        assert(sc@.skip(0) =~= sc@);
    }
    while i < n
        invariant
            n == sc@.len(),
            m == pc@.len(),
            m > 0,
            sc@ == s@,
            pc@ == p@,
            i <= n,
            out@ + replaced(sc@.skip(i as int), p@, t@) == replaced(s@, p@, t@),
        decreases n - i,
    {
        let ghost rest = sc@.skip(i as int);
        if crate::text::occurs_at_exec(sc.as_slice(), pc.as_slice(), i) {
            proof {
                assert(rest.take(m as int) =~= sc@.subrange(i as int, i + m));
                assert(rest.skip(m as int) =~= sc@.skip(i + m));
                assert(out@ + t@ + replaced(sc@.skip(i + m), p@, t@) =~= out@ + replaced(rest, p@, t@));
            }
            push_str(&mut out, t);
            i = i + m;
        } else {
            proof {
                if m <= rest.len() {
                    assert(rest.take(m as int) =~= sc@.subrange(i as int, i + m));
                }
                assert(rest.skip(1) =~= sc@.skip(i + 1));
                assert(rest[0] == sc@[i as int]);
                assert(out@.push(sc@[i as int]) + replaced(sc@.skip(i + 1), p@, t@) =~= out@ + replaced(rest, p@, t@));
            }
            crate::text::push_char(&mut out, sc[i]);
            i = i + 1;
        }
    }
    proof {
        assert(sc@.skip(n as int) =~= Seq::<char>::empty());
        assert(out@ + Seq::<char>::empty() =~= out@);
    }
    out
}

/// Template for turning resolved parameters into a planner goal.
#[derive(Debug)]
pub struct GoalTemplate {
    /// Text with `{key}` placeholders, such as "open {application}".
    pub description_template: String,
    /// Parameter keys copied into the goal's context.
    pub context_keys: Vec<String>,
}

/// The placeholder for a key: the key in braces.
pub open spec fn placeholder(k: Seq<char>) -> Seq<char> {
    seq!['{'] + k + seq!['}']
}

/// The template with each parameter's placeholder replaced by its value,
/// parameter by parameter in order.
pub open spec fn filled_text(t: Seq<char>, params: Seq<(String, String)>) -> Seq<char>
    decreases params.len(),
{
    if params.len() == 0 {
        t
    } else {
        replaced(filled_text(t, params.drop_last()), placeholder(params.last().0@), params.last().1@)
    }
}

/// The context a template copies: each of its keys that has a value.
pub open spec fn copied_context(keys: Seq<String>, params: Map<Seq<char>, Seq<char>>) -> Map<Seq<char>, Seq<char>>
    decreases keys.len(),
{
    if keys.len() == 0 {
        Map::empty()
    } else {
        let k = keys.last()@;
        let m = copied_context(keys.drop_last(), params);
        if params.contains_key(k) { m.insert(k, params[k]) } else { m }
    }
}

/// The strings of a list of literals.
pub open spec fn str_views(s: Seq<&str>) -> Seq<Seq<char>> {
    s.map_values(|x: &str| x@)
}

/// Owned copies of a list of literals.
pub fn to_strings(v: &Vec<&str>) -> (r: Vec<String>)
    ensures
        string_views(r@) == str_views(v@),
{
    let mut r: Vec<String> = Vec::new();
    let n = v.len();
    let mut i: usize = 0;
    while i < n
        invariant
            n == v@.len(),
            i <= n,
            string_views(r@) == str_views(v@.take(i as int)),
        decreases n - i,
    {
        let ghost before = r@;
        let x = String::from_str(v[i]);
        r.push(x);
        proof {
            assert(r@ == before.push(x));
            assert(string_views(r@) =~= string_views(before).push(x@));
            assert(v@.take(i + 1) =~= v@.take(i as int).push(v@[i as int]));
            assert(str_views(v@.take(i + 1)) =~= str_views(v@.take(i as int)).push(v@[i as int]@));
        }
        i = i + 1;
    }
    proof {
        assert(v@.take(n as int) =~= v@);
    }
    r
}

impl GoalTemplate {
    pub fn new(description_template: &str) -> (t: Self)
        ensures
            t.description_template@ == description_template@,
            t.context_keys@.len() == 0,
    {
        GoalTemplate { description_template: String::from_str(description_template), context_keys: Vec::new() }
    }

    pub fn with_context_keys(self, keys: Vec<&str>) -> (t: Self)
        ensures
            t.description_template == self.description_template,
            string_views(t.context_keys@) == str_views(keys@),
    {
        let mut t = self;
        t.context_keys = to_strings(&keys);
        t
    }

    /// The planner goal for these parameters: every placeholder of a given
    /// parameter replaced by its value, and the template's context keys
    /// that have a value copied into the goal's context. A placeholder with
    /// no parameter stays as it is.
    pub fn fill(&self, params: &Vec<(String, String)>) -> (g: Goal)
        requires
            unique_keys(params@),
        ensures
            g.description@ == filled_text(self.description_template@, params@),
            pair_map(g.context@) == copied_context(self.context_keys@, pair_map(params@)),
    {
        let mut description = self.description_template.clone();
        let n = params.len();
        let mut i: usize = 0;
        while i < n
            invariant
                n == params@.len(),
                i <= n,
                description@ == filled_text(self.description_template@, params@.take(i as int)),
            decreases n - i,
        {
            let mut p = String::new();
            push_str(&mut p, "{");
            push_str(&mut p, params[i].0.as_str());
            push_str(&mut p, "}");
            proof {
                reveal_strlit("{");
                reveal_strlit("}");
                assert(params@.take(i + 1).drop_last() =~= params@.take(i as int));
                assert(p@ =~= placeholder(params@[i as int].0@));
            }
            description = replace_all(description.as_str(), p.as_str(), params[i].1.as_str());
            i = i + 1;
        }
        proof {
            assert(params@.take(n as int) =~= params@);
        }
        let mut goal = Goal::new(description.as_str());
        let m = self.context_keys.len();
        let mut k: usize = 0;
        proof {
            assert(pair_map(goal.context@) =~= Map::<Seq<char>, Seq<char>>::empty());
        }
        while k < m
            invariant
                m == self.context_keys@.len(),
                k <= m,
                goal.description@ == description@,
                pair_map(goal.context@) == copied_context(self.context_keys@.take(k as int), pair_map(params@)),
            decreases m - k,
        {
            proof {
                assert(self.context_keys@.take(k + 1).drop_last() =~= self.context_keys@.take(k as int));
            }
            match crate::keyed::get_pair(params.as_slice(), self.context_keys[k].as_str()) {
                Some(v) => {
                    goal = goal.with_context(self.context_keys[k].clone(), v.clone());
                },
                None => {},
            }
            k = k + 1;
        }
        proof {
            assert(self.context_keys@.take(m as int) =~= self.context_keys@);
        }
        goal
    }
}

/// Metadata attached to a goal definition.
#[derive(Debug)]
pub struct GoalMetadata {
    pub author: Option<String>,
    pub tags: Vec<String>,
    pub notes: Option<String>,
}

impl GoalMetadata {
    pub fn new() -> (m: Self)
        ensures
            m.author is None,
            m.tags@.len() == 0,
            m.notes is None,
    {
        GoalMetadata { author: None, tags: Vec::new(), notes: None }
    }

    pub fn with_author(self, author: &str) -> (m: Self)
        ensures
            m.author matches Some(a) && a@ == author@,
            m.tags == self.tags,
            m.notes == self.notes,
    {
        let mut m = self;
        m.author = Some(String::from_str(author));
        m
    }

    pub fn with_tag(self, tag: &str) -> (m: Self)
        ensures
            m.author == self.author,
            string_views(m.tags@) == string_views(self.tags@).push(tag@),
            m.notes == self.notes,
    {
        let mut m = self;
        m.tags.push(String::from_str(tag));
        proof {
            assert(string_views(m.tags@) =~= string_views(self.tags@).push(tag@));
        }
        m
    }

    pub fn with_notes(self, notes: &str) -> (m: Self)
        ensures
            m.author == self.author,
            m.tags == self.tags,
            m.notes matches Some(n) && n@ == notes@,
    {
        let mut m = self;
        m.notes = Some(String::from_str(notes));
        m
    }
}

impl Default for GoalMetadata {
    fn default() -> (m: Self)
        ensures
            m.author is None,
            m.tags@.len() == 0,
            m.notes is None,
    {
        GoalMetadata::new()
    }
}

/// A complete goal definition stored in the registry.
#[derive(Debug)]
pub struct GoalDefinition {
    pub id: String,
    pub name: String,
    pub description: String,
    pub category: GoalCategory,
    pub supported_intents: Vec<IntentType>,
    pub required_parameters: Vec<String>,
    pub optional_parameters: Vec<String>,
    pub required_capabilities: Vec<GoalCapability>,
    pub planner_template: GoalTemplate,
    pub metadata: GoalMetadata,
    pub version: String,
    pub enabled: bool,
    pub aliases: Vec<String>,
    pub synonyms: Vec<String>,
}

/// Every required parameter has a value.
pub open spec fn has_all(required: Seq<String>, params: Map<Seq<char>, Seq<char>>) -> bool {
    forall|i: int| 0 <= i < required.len() ==> params.contains_key(#[trigger] required[i]@)
}

impl GoalDefinition {
    /// A definition with no parameters, capabilities, aliases or synonyms,
    /// version "1.0.0", enabled.
    pub fn new(
        id: &str,
        name: &str,
        category: GoalCategory,
        supported_intents: Vec<IntentType>,
        template: GoalTemplate,
    ) -> (d: Self)
        ensures
            d.id@ == id@,
            d.name@ == name@,
            d.description@.len() == 0,
            d.category == category,
            d.supported_intents == supported_intents,
            d.required_parameters@.len() == 0,
            d.optional_parameters@.len() == 0,
            d.required_capabilities@.len() == 0,
            d.planner_template == template,
            d.metadata.author is None && d.metadata.tags@.len() == 0 && d.metadata.notes is None,
            d.version@ == "1.0.0"@,
            d.enabled,
            d.aliases@.len() == 0,
            d.synonyms@.len() == 0,
    {
        proof {
            reveal_strlit("1.0.0");
        }
        GoalDefinition {
            id: String::from_str(id),
            name: String::from_str(name),
            description: String::new(),
            category,
            supported_intents,
            required_parameters: Vec::new(),
            optional_parameters: Vec::new(),
            required_capabilities: Vec::new(),
            planner_template: template,
            metadata: GoalMetadata::new(),
            version: String::from_str("1.0.0"),
            enabled: true,
            aliases: Vec::new(),
            synonyms: Vec::new(),
        }
    }

    pub fn with_description(self, desc: &str) -> (d: Self)
        ensures
            d.description@ == desc@,
            d == (GoalDefinition { description: d.description, ..self }),
    {
        let mut d = self;
        d.description = String::from_str(desc);
        d
    }

    pub fn with_required_parameters(self, params: Vec<&str>) -> (d: Self)
        ensures
            string_views(d.required_parameters@) == str_views(params@),
            d == (GoalDefinition { required_parameters: d.required_parameters, ..self }),
    {
        let mut d = self;
        d.required_parameters = to_strings(&params);
        d
    }

    pub fn with_optional_parameters(self, params: Vec<&str>) -> (d: Self)
        ensures
            string_views(d.optional_parameters@) == str_views(params@),
            d == (GoalDefinition { optional_parameters: d.optional_parameters, ..self }),
    {
        let mut d = self;
        d.optional_parameters = to_strings(&params);
        d
    }

    pub fn with_capabilities(self, caps: Vec<GoalCapability>) -> (d: Self)
        ensures
            d == (GoalDefinition { required_capabilities: caps, ..self }),
    {
        let mut d = self;
        d.required_capabilities = caps;
        d
    }

    pub fn with_alias(self, alias: &str) -> (d: Self)
        ensures
            string_views(d.aliases@) == string_views(self.aliases@).push(alias@),
            d == (GoalDefinition { aliases: d.aliases, ..self }),
    {
        let mut d = self;
        d.aliases.push(String::from_str(alias));
        proof {
            assert(string_views(d.aliases@) =~= string_views(self.aliases@).push(alias@));
        }
        d
    }

    pub fn with_synonym(self, synonym: &str) -> (d: Self)
        ensures
            string_views(d.synonyms@) == string_views(self.synonyms@).push(synonym@),
            d == (GoalDefinition { synonyms: d.synonyms, ..self }),
    {
        let mut d = self;
        d.synonyms.push(String::from_str(synonym));
        proof {
            assert(string_views(d.synonyms@) =~= string_views(self.synonyms@).push(synonym@));
        }
        d
    }

    pub fn with_metadata(self, meta: GoalMetadata) -> (d: Self)
        ensures
            d == (GoalDefinition { metadata: meta, ..self }),
    {
        let mut d = self;
        d.metadata = meta;
        d
    }

    pub fn with_version(self, version: &str) -> (d: Self)
        ensures
            d.version@ == version@,
            d == (GoalDefinition { version: d.version, ..self }),
    {
        let mut d = self;
        d.version = String::from_str(version);
        d
    }

    pub fn disabled(self) -> (d: Self)
        ensures
            d == (GoalDefinition { enabled: false, ..self }),
    {
        let mut d = self;
        d.enabled = false;
        d
    }

    /// Whether every required parameter has a value among `params`.
    pub fn has_required_parameters(&self, params: &Vec<(String, String)>) -> (r: bool)
        ensures
            r == has_all(self.required_parameters@, pair_map(params@)),
    {
        let n = self.required_parameters.len();
        let mut i: usize = 0;
        while i < n
            invariant
                n == self.required_parameters@.len(),
                i <= n,
                forall|j: int| 0 <= j < i ==> pair_map(params@).contains_key(#[trigger] self.required_parameters@[j]@),
            decreases n - i,
        {
            match crate::keyed::get_pair(params.as_slice(), self.required_parameters[i].as_str()) {
                Some(_) => {},
                None => {
                    return false;
                },
            }
            i = i + 1;
        }
        true
    }
}

/// Statistics about the registry state.
#[derive(Debug)]
pub struct GoalRegistryStatistics {
    pub total_goals: usize,
    pub enabled_goals: usize,
    pub disabled_goals: usize,
    pub total_aliases: usize,
    pub total_synonyms: usize,
    pub categories: Vec<(String, usize)>,
    pub custom_goals: usize,
    pub builtin_goals: usize,
}

impl Default for GoalRegistryStatistics {
    fn default() -> (s: Self)
        ensures
            s.total_goals == 0 && s.enabled_goals == 0 && s.disabled_goals == 0,
            s.total_aliases == 0 && s.total_synonyms == 0,
            s.categories@.len() == 0,
            s.custom_goals == 0 && s.builtin_goals == 0,
    {
        GoalRegistryStatistics {
            total_goals: 0,
            enabled_goals: 0,
            disabled_goals: 0,
            total_aliases: 0,
            total_synonyms: 0,
            categories: Vec::new(),
            custom_goals: 0,
            builtin_goals: 0,
        }
    }
}

/// The resolver that matches intents by confidence.
#[derive(Debug)]
pub struct DefaultGoalResolver;

/// The built-in definitions, by position: id, name, category, template,
/// required and optional parameters, aliases and synonyms.
pub open spec fn builtin_entry(i: int) -> (Seq<char>, Seq<char>, GoalCategory, Seq<char>, Seq<Seq<char>>, Seq<Seq<char>>, Seq<Seq<char>>, Seq<Seq<char>>) {
    if i == 0 {
        ("builtin.open_app"@, "Open Application"@, GoalCategory::Application, "open {application}"@, seq!["application"@], Seq::empty(), seq!["launch"@, "start app"@], seq!["run"@, "execute"@])
    } else if i == 1 {
        ("builtin.close_app"@, "Close Application"@, GoalCategory::Application, "close {application}"@, seq!["application"@], Seq::empty(), seq!["quit"@, "exit app"@], seq!["terminate"@, "kill"@])
    } else if i == 2 {
        ("builtin.search_web"@, "Search Web"@, GoalCategory::Search, "search {query} on the web"@, seq!["query"@], Seq::empty(), seq!["google"@, "web search"@], seq!["internet search"@])
    } else if i == 3 {
        ("builtin.search_local"@, "Search Local"@, GoalCategory::Search, "search local files for {query}"@, seq!["query"@], Seq::empty(), seq!["local search"@, "find file"@], Seq::empty())
    } else if i == 4 {
        ("builtin.click_element"@, "Click Element"@, GoalCategory::Automation, "click {target}"@, seq!["target"@], Seq::empty(), seq!["tap"@, "press"@], seq!["select"@, "choose"@])
    } else if i == 5 {
        ("builtin.type_text"@, "Type Text"@, GoalCategory::Automation, "type {text}"@, seq!["text"@], Seq::empty(), seq!["enter text"@, "input"@], seq!["write"@])
    } else if i == 6 {
        ("builtin.scroll_page"@, "Scroll Page"@, GoalCategory::Automation, "scroll {direction}"@, seq!["direction"@], Seq::empty(), seq!["scroll down"@, "scroll up"@], seq!["pan"@])
    } else if i == 7 {
        ("builtin.drag_element"@, "Drag Element"@, GoalCategory::Automation, "drag from {from} to {to}"@, Seq::empty(), seq!["from"@, "to"@], seq!["drag and drop"@], Seq::empty())
    } else if i == 8 {
        ("builtin.swipe_element"@, "Swipe Element"@, GoalCategory::Automation, "swipe {direction}"@, seq!["direction"@], Seq::empty(), seq!["slide"@], Seq::empty())
    } else if i == 9 {
        ("builtin.change_brightness"@, "Change Brightness"@, GoalCategory::Device, "set brightness to {value}"@, Seq::empty(), seq!["value"@], seq!["brightness"@, "dim screen"@], seq!["screen brightness"@])
    } else if i == 10 {
        ("builtin.change_volume"@, "Change Volume"@, GoalCategory::Device, "set volume to {value}"@, Seq::empty(), seq!["value"@], seq!["volume"@, "sound"@], seq!["audio"@])
    } else if i == 11 {
        ("builtin.open_settings"@, "Open Settings"@, GoalCategory::Application, "open settings"@, Seq::empty(), Seq::empty(), seq!["settings"@, "preferences"@], seq!["system settings"@])
    } else if i == 12 {
        ("builtin.lock_device"@, "Lock Device"@, GoalCategory::Device, "lock device"@, Seq::empty(), Seq::empty(), seq!["lock screen"@, "lock"@], Seq::empty())
    } else if i == 13 {
        ("builtin.shutdown"@, "Shutdown"@, GoalCategory::System, "shutdown system"@, Seq::empty(), Seq::empty(), seq!["power off"@, "shut down"@], Seq::empty())
    } else if i == 14 {
        ("builtin.restart"@, "Restart"@, GoalCategory::System, "restart system"@, Seq::empty(), Seq::empty(), seq!["reboot"@, "reload"@], Seq::empty())
    } else if i == 15 {
        ("builtin.sleep"@, "Sleep"@, GoalCategory::System, "put system to sleep"@, Seq::empty(), Seq::empty(), seq!["suspend"@, "standby"@], Seq::empty())
    } else if i == 16 {
        ("builtin.browser_search"@, "Browser Search"@, GoalCategory::Browser, "search {query} on {engine}"@, seq!["query"@], seq!["engine"@], seq!["online search"@, "internet search"@], Seq::empty())
    } else {
        ("builtin.open_url"@, "Open URL"@, GoalCategory::Navigation, "go to {url}"@, seq!["url"@], Seq::empty(), seq!["navigate"@, "go to"@], seq!["visit"@])
    }
}

/// The rest of the built-in definitions, by position: the intents each
/// serves, its description, the capabilities it needs and the keys its
/// template copies into the goal's context.
pub open spec fn builtin_details(i: int) -> (Seq<IntentType>, Seq<char>, Seq<GoalCapability>, Seq<Seq<char>>) {
    if i == 0 {
        (seq![IntentType::OpenApplication], "Open or launch a desktop or mobile application"@, seq![GoalCapability::ScreenRequired], seq!["application"@])
    } else if i == 1 {
        (seq![IntentType::CloseApplication], "Close or quit a running application"@, seq![GoalCapability::ScreenRequired], seq!["application"@])
    } else if i == 2 {
        (seq![IntentType::Search, IntentType::BrowserAction], "Search the internet using the default search engine"@, seq![GoalCapability::NetworkRequired], seq!["query"@])
    } else if i == 3 {
        (seq![IntentType::Search], "Search local files, documents, and memories"@, seq![GoalCapability::MemoryRequired], seq!["query"@])
    } else if i == 4 {
        (seq![IntentType::Click], "Click or tap a screen element by text or query"@, seq![GoalCapability::ScreenRequired, GoalCapability::InputRequired], seq!["target"@])
    } else if i == 5 {
        (seq![IntentType::Type], "Type or enter text into the active input field"@, seq![GoalCapability::ScreenRequired, GoalCapability::InputRequired], seq!["text"@])
    } else if i == 6 {
        (seq![IntentType::Scroll], "Scroll the active page or view in a direction"@, seq![GoalCapability::ScreenRequired, GoalCapability::InputRequired], seq!["direction"@])
    } else if i == 7 {
        (seq![IntentType::Drag], "Drag a UI element from one position to another"@, seq![GoalCapability::ScreenRequired, GoalCapability::InputRequired], seq!["from"@, "to"@])
    } else if i == 8 {
        (seq![IntentType::Swipe], "Swipe in a direction across the screen"@, seq![GoalCapability::ScreenRequired, GoalCapability::InputRequired], seq!["direction"@])
    } else if i == 9 {
        (seq![IntentType::DeviceControl], "Adjust the screen brightness level"@, seq![GoalCapability::DeviceRequired], seq!["value"@])
    } else if i == 10 {
        (seq![IntentType::DeviceControl], "Adjust the system volume level"@, seq![GoalCapability::DeviceRequired], seq!["value"@])
    } else if i == 11 {
        (seq![IntentType::OpenApplication], "Open the system settings or preferences application"@, seq![GoalCapability::ScreenRequired], Seq::empty())
    } else if i == 12 {
        (seq![IntentType::DeviceControl], "Lock the device screen"@, seq![GoalCapability::DeviceRequired], Seq::empty())
    } else if i == 13 {
        (seq![IntentType::SystemAction], "Shut down the computer or device"@, seq![GoalCapability::DeviceRequired], Seq::empty())
    } else if i == 14 {
        (seq![IntentType::SystemAction], "Restart or reboot the computer or device"@, seq![GoalCapability::DeviceRequired], Seq::empty())
    } else if i == 15 {
        (seq![IntentType::SystemAction], "Put the computer or device into sleep mode"@, seq![GoalCapability::DeviceRequired], Seq::empty())
    } else if i == 16 {
        (seq![IntentType::BrowserAction, IntentType::Search], "Search a specific search engine or website from the browser"@, seq![GoalCapability::NetworkRequired], seq!["query"@, "engine"@])
    } else {
        (seq![IntentType::Navigate], "Open a specific URL or web address in the browser"@, seq![GoalCapability::NetworkRequired, GoalCapability::ScreenRequired], seq!["url"@])
    }
}

/// `d` is the built-in definition at position `i`.
pub open spec fn builtin_matches(d: GoalDefinition, i: int) -> bool {
    let e = builtin_entry(i);
    &&& d.id@ == e.0
    &&& d.name@ == e.1
    &&& d.category == e.2
    &&& d.planner_template.description_template@ == e.3
    &&& string_views(d.required_parameters@) == e.4
    &&& string_views(d.optional_parameters@) == e.5
    &&& string_views(d.aliases@) == e.6
    &&& string_views(d.synonyms@) == e.7
    &&& d.enabled
    &&& d.version@ == "1.0.0"@
    &&& d.supported_intents@ == builtin_details(i).0
    &&& d.description@ == builtin_details(i).1
    &&& d.required_capabilities@ == builtin_details(i).2
    &&& string_views(d.planner_template.context_keys@) == builtin_details(i).3
    &&& d.metadata.author is None && d.metadata.tags@.len() == 0 && d.metadata.notes is None
}


/// The alias table after the definitions of `s` were registered in order.
pub open spec fn alias_table(s: Seq<GoalDefinition>) -> Map<Seq<char>, Seq<char>>
    decreases s.len(),
{
    if s.len() == 0 {
        Map::empty()
    } else {
        with_aliases(alias_table(s.drop_last()), s.last().aliases@, s.last().id@)
    }
}

proof fn lemma_with_aliases_keys(m: Map<Seq<char>, Seq<char>>, a: Seq<String>, id: Seq<char>, x: Seq<char>)
    requires
        with_aliases(m, a, id).contains_key(x),
    ensures
        m.contains_key(x) || exists|j: int| 0 <= j < a.len() && #[trigger] a[j]@ == x,
    decreases a.len(),
{
    if a.len() > 0 {
        if x == a.last()@ {
            assert(a[a.len() - 1]@ == x);
        } else {
            lemma_with_aliases_keys(m, a.drop_last(), id, x);
            if !m.contains_key(x) {
                let j = choose|j: int| 0 <= j < a.drop_last().len() && #[trigger] a.drop_last()[j]@ == x;
                assert(a[j]@ == x);
            }
        }
    }
}

proof fn lemma_alias_table_keys(s: Seq<GoalDefinition>, x: Seq<char>)
    requires
        alias_table(s).contains_key(x),
    ensures
        exists|i: int, j: int| 0 <= i < s.len() && 0 <= j < s[i].aliases@.len() && #[trigger] s[i].aliases@[j]@ == x,
    decreases s.len(),
{
    if s.len() > 0 {
        let t = s.drop_last();
        lemma_with_aliases_keys(alias_table(t), s.last().aliases@, s.last().id@, x);
        if alias_table(t).contains_key(x) {
            lemma_alias_table_keys(t, x);
            let (i, j) = choose|i: int, j: int| 0 <= i < t.len() && 0 <= j < t[i].aliases@.len() && #[trigger] t[i].aliases@[j]@ == x;
            assert(s[i] == t[i]);
        } else {
            let j = choose|j: int| 0 <= j < s.last().aliases@.len() && #[trigger] s.last().aliases@[j]@ == x;
            assert(s[s.len() - 1].aliases@[j]@ == x);
        }
    }
}

proof fn lemma_none_taken(m: Map<Seq<char>, Seq<char>>, a: Seq<String>)
    requires
        forall|j: int| 0 <= j < a.len() ==> !m.contains_key(#[trigger] a[j]@),
    ensures
        first_taken_alias(m, a) is None,
    decreases a.len(),
{
    if a.len() > 0 {
        lemma_none_taken(m, a.drop_last());
        assert(a.last() == a[a.len() - 1]);
    }
}

/// What tells the built-in ids and aliases apart: each one's length, and
/// where lengths agree, a character at which they differ.
proof fn lemma_builtin_literals()
    ensures
        "brightness"@.len() == 10 && "brightness"@[0] == 'b',
        "builtin.browser_search"@.len() == 22,
        "builtin.change_brightness"@.len() == 25,
        "builtin.change_volume"@.len() == 21 && "builtin.change_volume"@[9] == 'h',
        "builtin.click_element"@.len() == 21 && "builtin.click_element"@[9] == 'l',
        "builtin.close_app"@.len() == 17 && "builtin.close_app"@[8] == 'c',
        "builtin.drag_element"@.len() == 20 && "builtin.drag_element"@[8] == 'd',
        "builtin.lock_device"@.len() == 19 && "builtin.lock_device"@[8] == 'l',
        "builtin.open_app"@.len() == 16 && "builtin.open_app"@[13] == 'a',
        "builtin.open_settings"@.len() == 21 && "builtin.open_settings"@[9] == 'p',
        "builtin.open_url"@.len() == 16 && "builtin.open_url"@[13] == 'u',
        "builtin.restart"@.len() == 15 && "builtin.restart"@[0] == 'b',
        "builtin.scroll_page"@.len() == 19 && "builtin.scroll_page"@[8] == 's',
        "builtin.search_local"@.len() == 20 && "builtin.search_local"@[8] == 's',
        "builtin.search_web"@.len() == 18,
        "builtin.shutdown"@.len() == 16 && "builtin.shutdown"@[13] == 'o',
        "builtin.sleep"@.len() == 13 && "builtin.sleep"@[0] == 'b',
        "builtin.swipe_element"@.len() == 21 && "builtin.swipe_element"@[9] == 'w',
        "builtin.type_text"@.len() == 17 && "builtin.type_text"@[8] == 't',
        "dim screen"@.len() == 10 && "dim screen"@[0] == 'd',
        "drag and drop"@.len() == 13 && "drag and drop"@[0] == 'd',
        "enter text"@.len() == 10 && "enter text"@[0] == 'e',
        "exit app"@.len() == 8 && "exit app"@[0] == 'e',
        "find file"@.len() == 9 && "find file"@[1] == 'i',
        "go to"@.len() == 5 && "go to"@[2] == ' ',
        "google"@.len() == 6 && "google"@[4] == 'l',
        "input"@.len() == 5 && "input"@[2] == 'p',
        "internet search"@.len() == 15 && "internet search"@[0] == 'i',
        "launch"@.len() == 6 && "launch"@[4] == 'c',
        "local search"@.len() == 12,
        "lock"@.len() == 4 && "lock"@[0] == 'l',
        "lock screen"@.len() == 11 && "lock screen"@[0] == 'l',
        "navigate"@.len() == 8 && "navigate"@[0] == 'n',
        "online search"@.len() == 13 && "online search"@[0] == 'o',
        "power off"@.len() == 9 && "power off"@[1] == 'o',
        "preferences"@.len() == 11 && "preferences"@[0] == 'p',
        "press"@.len() == 5 && "press"@[2] == 'e',
        "quit"@.len() == 4 && "quit"@[0] == 'q',
        "reboot"@.len() == 6 && "reboot"@[4] == 'o',
        "reload"@.len() == 6 && "reload"@[4] == 'a',
        "scroll down"@.len() == 11 && "scroll down"@[0] == 's',
        "scroll up"@.len() == 9 && "scroll up"@[1] == 'c',
        "settings"@.len() == 8 && "settings"@[0] == 's',
        "shut down"@.len() == 9 && "shut down"@[1] == 'h',
        "slide"@.len() == 5 && "slide"@[2] == 'i',
        "sound"@.len() == 5 && "sound"@[2] == 'u',
        "standby"@.len() == 7 && "standby"@[1] == 't',
        "start app"@.len() == 9 && "start app"@[1] == 't',
        "suspend"@.len() == 7 && "suspend"@[1] == 'u',
        "tap"@.len() == 3,
        "volume"@.len() == 6 && "volume"@[4] == 'm',
        "web search"@.len() == 10 && "web search"@[0] == 'w',
{
    reveal_strlit("brightness");
    reveal_strlit("builtin.browser_search");
    reveal_strlit("builtin.change_brightness");
    reveal_strlit("builtin.change_volume");
    reveal_strlit("builtin.click_element");
    reveal_strlit("builtin.close_app");
    reveal_strlit("builtin.drag_element");
    reveal_strlit("builtin.lock_device");
    reveal_strlit("builtin.open_app");
    reveal_strlit("builtin.open_settings");
    reveal_strlit("builtin.open_url");
    reveal_strlit("builtin.restart");
    reveal_strlit("builtin.scroll_page");
    reveal_strlit("builtin.search_local");
    reveal_strlit("builtin.search_web");
    reveal_strlit("builtin.shutdown");
    reveal_strlit("builtin.sleep");
    reveal_strlit("builtin.swipe_element");
    reveal_strlit("builtin.type_text");
    reveal_strlit("dim screen");
    reveal_strlit("drag and drop");
    reveal_strlit("enter text");
    reveal_strlit("exit app");
    reveal_strlit("find file");
    reveal_strlit("go to");
    reveal_strlit("google");
    reveal_strlit("input");
    reveal_strlit("internet search");
    reveal_strlit("launch");
    reveal_strlit("local search");
    reveal_strlit("lock");
    reveal_strlit("lock screen");
    reveal_strlit("navigate");
    reveal_strlit("online search");
    reveal_strlit("power off");
    reveal_strlit("preferences");
    reveal_strlit("press");
    reveal_strlit("quit");
    reveal_strlit("reboot");
    reveal_strlit("reload");
    reveal_strlit("scroll down");
    reveal_strlit("scroll up");
    reveal_strlit("settings");
    reveal_strlit("shut down");
    reveal_strlit("slide");
    reveal_strlit("sound");
    reveal_strlit("standby");
    reveal_strlit("start app");
    reveal_strlit("suspend");
    reveal_strlit("tap");
    reveal_strlit("volume");
    reveal_strlit("web search");
}

/// The built-in at position `k` has an id and aliases that no earlier
/// built-in has.
proof fn lemma_builtin_fresh(k: int)
    requires
        0 <= k < 18,
    ensures
        forall|i: int| 0 <= i < k ==> #[trigger] builtin_entry(i).0 != builtin_entry(k).0,
        forall|i: int, x: int, y: int|
            0 <= i < k && 0 <= x < builtin_entry(i).6.len() && 0 <= y < builtin_entry(k).6.len()
                ==> #[trigger] builtin_entry(i).6[x] != #[trigger] builtin_entry(k).6[y],
{
    lemma_builtin_literals();
}


proof fn lemma_with_aliases_has(m: Map<Seq<char>, Seq<char>>, a: Seq<String>, id: Seq<char>, j: int)
    requires
        0 <= j < a.len(),
    ensures
        with_aliases(m, a, id).contains_key(a[j]@),
        with_aliases(m, a, id)[a[j]@] == id,
    decreases a.len(),
{
    if j < a.len() - 1 {
        lemma_with_aliases_has(m, a.drop_last(), id, j);
        assert(a.drop_last()[j] == a[j]);
    }
}

proof fn lemma_with_aliases_keeps(m: Map<Seq<char>, Seq<char>>, a: Seq<String>, id: Seq<char>, y: Seq<char>)
    requires
        forall|j: int| 0 <= j < a.len() ==> #[trigger] a[j]@ != y,
    ensures
        with_aliases(m, a, id).contains_key(y) == m.contains_key(y),
        m.contains_key(y) ==> with_aliases(m, a, id)[y] == m[y],
    decreases a.len(),
{
    if a.len() > 0 {
        assert(a.last() == a[a.len() - 1]);
        lemma_with_aliases_keeps(m, a.drop_last(), id, y);
    }
}

proof fn lemma_alias_kept_from(s: Seq<GoalDefinition>, i: int, x: int, n: int)
    requires
        0 <= i < n <= 18,
        s.len() == 18,
        forall|k: int| 0 <= k < 18 ==> builtin_matches(#[trigger] s[k], k),
        0 <= x < builtin_entry(i).6.len(),
        alias_table(s.take(n)).contains_key(builtin_entry(i).6[x]),
        alias_table(s.take(n))[builtin_entry(i).6[x]] == builtin_entry(i).0,
    ensures
        alias_table(s.take(18)).contains_key(builtin_entry(i).6[x]),
        alias_table(s.take(18))[builtin_entry(i).6[x]] == builtin_entry(i).0,
    decreases 18 - n,
{
    if n < 18 {
        let y = builtin_entry(i).6[x];
        lemma_builtin_fresh(n);
        assert(builtin_matches(s[n], n));
        assert forall|j: int| 0 <= j < s[n].aliases@.len() implies #[trigger] s[n].aliases@[j]@ != y by {
            assert(string_views(s[n].aliases@)[j] == s[n].aliases@[j]@);
            assert(builtin_entry(i).6[x] != builtin_entry(n).6[j]);
        }
        assert(s.take(n + 1).drop_last() =~= s.take(n));
        assert(s.take(n + 1).last() == s[n]);
        lemma_with_aliases_keeps(alias_table(s.take(n)), s[n].aliases@, s[n].id@, y);
        lemma_alias_kept_from(s, i, x, n + 1);
    }
}

/// In a registry holding the built-ins, registered in order, every alias of
/// a built-in leads to that built-in's id: no later built-in takes it over.
pub proof fn law_builtin_aliases_lead_home(s: Seq<GoalDefinition>, i: int, x: int)
    requires
        s.len() == 18,
        forall|k: int| 0 <= k < 18 ==> builtin_matches(#[trigger] s[k], k),
        0 <= i < 18,
        0 <= x < builtin_entry(i).6.len(),
    ensures
        alias_table(s).contains_key(builtin_entry(i).6[x]),
        alias_table(s)[builtin_entry(i).6[x]] == builtin_entry(i).0,
{
    let y = builtin_entry(i).6[x];
    assert(builtin_matches(s[i], i));
    assert(string_views(s[i].aliases@)[x] == s[i].aliases@[x]@);
    assert(s.take(i + 1).drop_last() =~= s.take(i));
    assert(s.take(i + 1).last() == s[i]);
    lemma_with_aliases_has(alias_table(s.take(i)), s[i].aliases@, s[i].id@, x);
    lemma_alias_kept_from(s, i, x, i + 1);
    assert(s.take(18) =~= s);
}


/// How a definition matches an intent's target before any partial scoring:
/// every required parameter is given; the registry's alias table sends the
/// target to it; one of its own aliases and the target contain one another;
/// one of its synonyms is contained in the target; or none of these.
#[derive(Debug, Clone, Copy, PartialEq, Eq, Structural)]
pub enum MatchKind {
    Exact,
    TableAlias,
    TextAlias,
    Synonym,
    Unmatched,
}

/// The id that the first entry of the alias table under `key` points at.
pub open spec fn table_target(table: Seq<(String, String)>, key: Seq<char>) -> Option<Seq<char>>
    decreases table.len(),
{
    if table.len() == 0 {
        None
    } else if table[0].0@ == key {
        Some(table[0].1@)
    } else {
        table_target(table.drop_first(), key)
    }
}

/// One of `aliases`, lower-cased, and the lower-cased target `t` contain
/// one another.
pub open spec fn text_alias_match(aliases: Seq<String>, t: Seq<char>) -> bool {
    exists|k: int| 0 <= k < aliases.len()
        && (has_sub(t, lowercase(#[trigger] aliases[k]@)) || has_sub(lowercase(aliases[k]@), t))
}

/// One of `synonyms`, lower-cased, is contained in the lower-cased target `t`.
pub open spec fn synonym_match(synonyms: Seq<String>, t: Seq<char>) -> bool {
    exists|k: int| 0 <= k < synonyms.len() && has_sub(t, lowercase(#[trigger] synonyms[k]@))
}

/// The target as text, if any.
pub open spec fn target_view(target: Option<&str>) -> Option<Seq<char>> {
    match target {
        Some(t) => Some(t@),
        None => None,
    }
}

/// How `def` matches an intent with this target, given the parameters built
/// for it and the registry's alias table.
pub open spec fn match_kind(
    def: GoalDefinition,
    target: Option<Seq<char>>,
    params: Seq<(String, String)>,
    table: Seq<(String, String)>,
    enable_aliases: bool,
    enable_synonyms: bool,
) -> MatchKind {
    if has_all(def.required_parameters@, pair_map(params)) {
        MatchKind::Exact
    } else {
        match target {
            None => MatchKind::Unmatched,
            Some(t) => {
                let lt = lowercase(t);
                if enable_aliases && table_target(table, lt) == Some(def.id@) {
                    MatchKind::TableAlias
                } else if enable_aliases && text_alias_match(def.aliases@, lt) {
                    MatchKind::TextAlias
                } else if enable_synonyms && synonym_match(def.synonyms@, lt) {
                    MatchKind::Synonym
                } else {
                    MatchKind::Unmatched
                }
            },
        }
    }
}

/// The boost, in thousandths, that a target earns a definition by its name:
/// 40 when the lower-cased name contains the lower-cased target, else 20
/// when the description does, else 0.
pub open spec fn name_boost(def: GoalDefinition, target: Option<Seq<char>>) -> u32 {
    match target {
        None => 0,
        Some(t) => {
            let lt = lowercase(t);
            if has_sub(lowercase(def.name@), lt) {
                40
            } else if has_sub(lowercase(def.description@), lt) {
                20
            } else {
                0
            }
        },
    }
}

/// The boost, in thousandths, that a target earns a definition whose target
/// parameter is a required one other than "target": 10, else 0.
pub open spec fn param_boost(def: GoalDefinition, target: Option<Seq<char>>) -> u32 {
    if target is Some && param_key(def) != "target"@
        && exists|k: int| 0 <= k < def.required_parameters@.len() && #[trigger] def.required_parameters@[k]@ == param_key(def) {
        10
    } else {
        0
    }
}

fn table_lookup<'a>(table: &'a [(String, String)], key: &str) -> (r: Option<&'a String>)
    ensures
        match r {
            Some(id) => table_target(table@, key@) == Some(id@),
            None => table_target(table@, key@) is None,
        },
{
    let n = table.len();
    let mut i: usize = 0;
    proof {
        assert(table@.skip(0) =~= table@);
    }
    while i < n
        invariant
            n == table@.len(),
            i <= n,
            table_target(table@, key@) == table_target(table@.skip(i as int), key@),
        decreases n - i,
    {
        proof {
            assert(table@.skip(i as int)[0] == table@[i as int]);
            assert(table@.skip(i as int).drop_first() =~= table@.skip(i + 1));
        }
        if str_eq(table[i].0.as_str(), key) {
            return Some(&table[i].1);
        }
        i = i + 1;
    }
    None
}

fn any_text_alias(aliases: &Vec<String>, t: &str) -> (r: bool)
    ensures
        r == text_alias_match(aliases@, t@),
{
    let n = aliases.len();
    let mut k: usize = 0;
    while k < n
        invariant
            n == aliases@.len(),
            k <= n,
            forall|j: int| 0 <= j < k ==> !(has_sub(t@, lowercase(#[trigger] aliases@[j]@)) || has_sub(lowercase(aliases@[j]@), t@)),
        decreases n - k,
    {
        let a = to_lowercase(aliases[k].as_str());
        if str_contains(t, a.as_str()) || str_contains(a.as_str(), t) {
            return true;
        }
        k = k + 1;
    }
    false
}

fn any_synonym(synonyms: &Vec<String>, t: &str) -> (r: bool)
    ensures
        r == synonym_match(synonyms@, t@),
{
    let n = synonyms.len();
    let mut k: usize = 0;
    while k < n
        invariant
            n == synonyms@.len(),
            k <= n,
            forall|j: int| 0 <= j < k ==> !has_sub(t@, lowercase(#[trigger] synonyms@[j]@)),
        decreases n - k,
    {
        let syn = to_lowercase(synonyms[k].as_str());
        if str_contains(t, syn.as_str()) {
            return true;
        }
        k = k + 1;
    }
    false
}

/// How `def` matches an intent with this target, given the parameters built
/// for it and the registry's alias table.
pub fn classify_match(
    def: &GoalDefinition,
    target: Option<&str>,
    params: &Vec<(String, String)>,
    table: &[(String, String)],
    enable_aliases: bool,
    enable_synonyms: bool,
) -> (k: MatchKind)
    ensures
        k == match_kind(*def, target_view(target), params@, table@, enable_aliases, enable_synonyms),
{
    if def.has_required_parameters(params) {
        return MatchKind::Exact;
    }
    let t = match target {
        Some(t) => t,
        None => return MatchKind::Unmatched,
    };
    let lt = to_lowercase(t);
    if enable_aliases {
        match table_lookup(table, lt.as_str()) {
            Some(id) => {
                if str_eq(id.as_str(), def.id.as_str()) {
                    return MatchKind::TableAlias;
                }
            },
            None => {},
        }
        if any_text_alias(&def.aliases, lt.as_str()) {
            return MatchKind::TextAlias;
        }
    }
    if enable_synonyms && any_synonym(&def.synonyms, lt.as_str()) {
        return MatchKind::Synonym;
    }
    MatchKind::Unmatched
}

/// The boost, in thousandths, that a target earns `def` by its name.
pub fn name_boost_of(def: &GoalDefinition, target: Option<&str>) -> (b: u32)
    ensures
        b == name_boost(*def, target_view(target)),
{
    match target {
        None => 0,
        Some(t) => {
            let lt = to_lowercase(t);
            let n = to_lowercase(def.name.as_str());
            if str_contains(n.as_str(), lt.as_str()) {
                40
            } else {
                let d = to_lowercase(def.description.as_str());
                if str_contains(d.as_str(), lt.as_str()) {
                    20
                } else {
                    0
                }
            }
        },
    }
}

/// The boost, in thousandths, that a target earns `def` by its target
/// parameter.
pub fn param_boost_of(def: &GoalDefinition, target: Option<&str>) -> (b: u32)
    ensures
        b == param_boost(*def, target_view(target)),
{
    if target.is_none() {
        return 0;
    }
    let key = guess_param_key(def);
    proof {
        reveal_strlit("target");
    }
    if str_eq(key.as_str(), "target") {
        return 0;
    }
    let n = def.required_parameters.len();
    let mut k: usize = 0;
    while k < n
        invariant
            n == def.required_parameters@.len(),
            k <= n,
            key@ == param_key(*def),
            param_key(*def) != "target"@,
            target is Some,
            forall|j: int| 0 <= j < k ==> #[trigger] def.required_parameters@[j]@ != param_key(*def),
        decreases n - k,
    {
        if str_eq(def.required_parameters[k].as_str(), key.as_str()) {
            assert(def.required_parameters@[k as int]@ == param_key(*def));
            return 10;
        }
        k = k + 1;
    }
    0
}

/// The goals every registry made with `with_builtins` starts with.
#[verifier::spinoff_prover]
#[verifier::rlimit(60)]
pub fn builtin_goals() -> (r: Vec<GoalDefinition>)
    ensures
        r@.len() == 18,
        forall|i: int| 0 <= i < 18 ==> builtin_matches(#[trigger] r@[i], i),
{
    let mut r: Vec<GoalDefinition> = Vec::new();
    let d = GoalDefinition::new(
        "builtin.open_app",
        "Open Application",
        GoalCategory::Application,
        vec![IntentType::OpenApplication],
        GoalTemplate::new("open {application}").with_context_keys(vec!["application"]),
        )
        .with_description("Open or launch a desktop or mobile application")
        .with_required_parameters(vec!["application"])
        .with_capabilities(vec![GoalCapability::ScreenRequired])
        .with_alias("launch")
        .with_alias("start app")
        .with_synonym("run")
        .with_synonym("execute")
        .with_version("1.0.0");
    proof {
        reveal_strlit("1.0.0");
        assert(string_views(d.required_parameters@) =~= builtin_entry(0).4);
        assert(string_views(d.optional_parameters@) =~= builtin_entry(0).5);
        assert(string_views(d.aliases@) =~= builtin_entry(0).6);
        assert(string_views(d.synonyms@) =~= builtin_entry(0).7);
        assert(d.supported_intents@ =~= builtin_details(0).0);
        assert(d.required_capabilities@ =~= builtin_details(0).2);
        assert(string_views(d.planner_template.context_keys@) =~= builtin_details(0).3);
        assert(builtin_matches(d, 0));
    }
    let ghost before = r@;
    r.push(d);
    proof {
        assert forall|i: int| 0 <= i < r@.len() implies builtin_matches(#[trigger] r@[i], i) by {
            if i < before.len() {
                assert(r@[i] == before[i]);
            }
        }
    }
    let d = GoalDefinition::new(
        "builtin.close_app",
        "Close Application",
        GoalCategory::Application,
        vec![IntentType::CloseApplication],
        GoalTemplate::new("close {application}").with_context_keys(vec!["application"]),
        )
        .with_description("Close or quit a running application")
        .with_required_parameters(vec!["application"])
        .with_capabilities(vec![GoalCapability::ScreenRequired])
        .with_alias("quit")
        .with_alias("exit app")
        .with_synonym("terminate")
        .with_synonym("kill");
    proof {
        reveal_strlit("1.0.0");
        assert(string_views(d.required_parameters@) =~= builtin_entry(1).4);
        assert(string_views(d.optional_parameters@) =~= builtin_entry(1).5);
        assert(string_views(d.aliases@) =~= builtin_entry(1).6);
        assert(string_views(d.synonyms@) =~= builtin_entry(1).7);
        assert(d.supported_intents@ =~= builtin_details(1).0);
        assert(d.required_capabilities@ =~= builtin_details(1).2);
        assert(string_views(d.planner_template.context_keys@) =~= builtin_details(1).3);
        assert(builtin_matches(d, 1));
    }
    let ghost before = r@;
    r.push(d);
    proof {
        assert forall|i: int| 0 <= i < r@.len() implies builtin_matches(#[trigger] r@[i], i) by {
            if i < before.len() {
                assert(r@[i] == before[i]);
            }
        }
    }
    let d = GoalDefinition::new(
        "builtin.search_web",
        "Search Web",
        GoalCategory::Search,
        vec![IntentType::Search, IntentType::BrowserAction],
        GoalTemplate::new("search {query} on the web").with_context_keys(vec!["query"]),
        )
        .with_description("Search the internet using the default search engine")
        .with_required_parameters(vec!["query"])
        .with_capabilities(vec![GoalCapability::NetworkRequired])
        .with_alias("google")
        .with_alias("web search")
        .with_synonym("internet search");
    proof {
        reveal_strlit("1.0.0");
        assert(string_views(d.required_parameters@) =~= builtin_entry(2).4);
        assert(string_views(d.optional_parameters@) =~= builtin_entry(2).5);
        assert(string_views(d.aliases@) =~= builtin_entry(2).6);
        assert(string_views(d.synonyms@) =~= builtin_entry(2).7);
        assert(d.supported_intents@ =~= builtin_details(2).0);
        assert(d.required_capabilities@ =~= builtin_details(2).2);
        assert(string_views(d.planner_template.context_keys@) =~= builtin_details(2).3);
        assert(builtin_matches(d, 2));
    }
    let ghost before = r@;
    r.push(d);
    proof {
        assert forall|i: int| 0 <= i < r@.len() implies builtin_matches(#[trigger] r@[i], i) by {
            if i < before.len() {
                assert(r@[i] == before[i]);
            }
        }
    }
    let d = GoalDefinition::new(
        "builtin.search_local",
        "Search Local",
        GoalCategory::Search,
        vec![IntentType::Search],
        GoalTemplate::new("search local files for {query}").with_context_keys(vec!["query"]),
        )
        .with_description("Search local files, documents, and memories")
        .with_required_parameters(vec!["query"])
        .with_capabilities(vec![GoalCapability::MemoryRequired])
        .with_alias("local search")
        .with_alias("find file");
    proof {
        reveal_strlit("1.0.0");
        assert(string_views(d.required_parameters@) =~= builtin_entry(3).4);
        assert(string_views(d.optional_parameters@) =~= builtin_entry(3).5);
        assert(string_views(d.aliases@) =~= builtin_entry(3).6);
        assert(string_views(d.synonyms@) =~= builtin_entry(3).7);
        assert(d.supported_intents@ =~= builtin_details(3).0);
        assert(d.required_capabilities@ =~= builtin_details(3).2);
        assert(string_views(d.planner_template.context_keys@) =~= builtin_details(3).3);
        assert(builtin_matches(d, 3));
    }
    let ghost before = r@;
    r.push(d);
    proof {
        assert forall|i: int| 0 <= i < r@.len() implies builtin_matches(#[trigger] r@[i], i) by {
            if i < before.len() {
                assert(r@[i] == before[i]);
            }
        }
    }
    let d = GoalDefinition::new(
        "builtin.click_element",
        "Click Element",
        GoalCategory::Automation,
        vec![IntentType::Click],
        GoalTemplate::new("click {target}").with_context_keys(vec!["target"]),
        )
        .with_description("Click or tap a screen element by text or query")
        .with_required_parameters(vec!["target"])
        .with_capabilities(vec![
        GoalCapability::ScreenRequired,
        GoalCapability::InputRequired,
        ])
        .with_alias("tap")
        .with_alias("press")
        .with_synonym("select")
        .with_synonym("choose");
    proof {
        reveal_strlit("1.0.0");
        assert(string_views(d.required_parameters@) =~= builtin_entry(4).4);
        assert(string_views(d.optional_parameters@) =~= builtin_entry(4).5);
        assert(string_views(d.aliases@) =~= builtin_entry(4).6);
        assert(string_views(d.synonyms@) =~= builtin_entry(4).7);
        assert(d.supported_intents@ =~= builtin_details(4).0);
        assert(d.required_capabilities@ =~= builtin_details(4).2);
        assert(string_views(d.planner_template.context_keys@) =~= builtin_details(4).3);
        assert(builtin_matches(d, 4));
    }
    let ghost before = r@;
    r.push(d);
    proof {
        assert forall|i: int| 0 <= i < r@.len() implies builtin_matches(#[trigger] r@[i], i) by {
            if i < before.len() {
                assert(r@[i] == before[i]);
            }
        }
    }
    let d = GoalDefinition::new(
        "builtin.type_text",
        "Type Text",
        GoalCategory::Automation,
        vec![IntentType::Type],
        GoalTemplate::new("type {text}").with_context_keys(vec!["text"]),
        )
        .with_description("Type or enter text into the active input field")
        .with_required_parameters(vec!["text"])
        .with_capabilities(vec![
        GoalCapability::ScreenRequired,
        GoalCapability::InputRequired,
        ])
        .with_alias("enter text")
        .with_alias("input")
        .with_synonym("write");
    proof {
        reveal_strlit("1.0.0");
        assert(string_views(d.required_parameters@) =~= builtin_entry(5).4);
        assert(string_views(d.optional_parameters@) =~= builtin_entry(5).5);
        assert(string_views(d.aliases@) =~= builtin_entry(5).6);
        assert(string_views(d.synonyms@) =~= builtin_entry(5).7);
        assert(d.supported_intents@ =~= builtin_details(5).0);
        assert(d.required_capabilities@ =~= builtin_details(5).2);
        assert(string_views(d.planner_template.context_keys@) =~= builtin_details(5).3);
        assert(builtin_matches(d, 5));
    }
    let ghost before = r@;
    r.push(d);
    proof {
        assert forall|i: int| 0 <= i < r@.len() implies builtin_matches(#[trigger] r@[i], i) by {
            if i < before.len() {
                assert(r@[i] == before[i]);
            }
        }
    }
    let d = GoalDefinition::new(
        "builtin.scroll_page",
        "Scroll Page",
        GoalCategory::Automation,
        vec![IntentType::Scroll],
        GoalTemplate::new("scroll {direction}").with_context_keys(vec!["direction"]),
        )
        .with_description("Scroll the active page or view in a direction")
        .with_required_parameters(vec!["direction"])
        .with_capabilities(vec![
        GoalCapability::ScreenRequired,
        GoalCapability::InputRequired,
        ])
        .with_alias("scroll down")
        .with_alias("scroll up")
        .with_synonym("pan");
    proof {
        reveal_strlit("1.0.0");
        assert(string_views(d.required_parameters@) =~= builtin_entry(6).4);
        assert(string_views(d.optional_parameters@) =~= builtin_entry(6).5);
        assert(string_views(d.aliases@) =~= builtin_entry(6).6);
        assert(string_views(d.synonyms@) =~= builtin_entry(6).7);
        assert(d.supported_intents@ =~= builtin_details(6).0);
        assert(d.required_capabilities@ =~= builtin_details(6).2);
        assert(string_views(d.planner_template.context_keys@) =~= builtin_details(6).3);
        assert(builtin_matches(d, 6));
    }
    let ghost before = r@;
    r.push(d);
    proof {
        assert forall|i: int| 0 <= i < r@.len() implies builtin_matches(#[trigger] r@[i], i) by {
            if i < before.len() {
                assert(r@[i] == before[i]);
            }
        }
    }
    let d = GoalDefinition::new(
        "builtin.drag_element",
        "Drag Element",
        GoalCategory::Automation,
        vec![IntentType::Drag],
        GoalTemplate::new("drag from {from} to {to}").with_context_keys(vec!["from", "to"]),
        )
        .with_description("Drag a UI element from one position to another")
        .with_optional_parameters(vec!["from", "to"])
        .with_capabilities(vec![
        GoalCapability::ScreenRequired,
        GoalCapability::InputRequired,
        ])
        .with_alias("drag and drop");
    proof {
        reveal_strlit("1.0.0");
        assert(string_views(d.required_parameters@) =~= builtin_entry(7).4);
        assert(string_views(d.optional_parameters@) =~= builtin_entry(7).5);
        assert(string_views(d.aliases@) =~= builtin_entry(7).6);
        assert(string_views(d.synonyms@) =~= builtin_entry(7).7);
        assert(d.supported_intents@ =~= builtin_details(7).0);
        assert(d.required_capabilities@ =~= builtin_details(7).2);
        assert(string_views(d.planner_template.context_keys@) =~= builtin_details(7).3);
        assert(builtin_matches(d, 7));
    }
    let ghost before = r@;
    r.push(d);
    proof {
        assert forall|i: int| 0 <= i < r@.len() implies builtin_matches(#[trigger] r@[i], i) by {
            if i < before.len() {
                assert(r@[i] == before[i]);
            }
        }
    }
    let d = GoalDefinition::new(
        "builtin.swipe_element",
        "Swipe Element",
        GoalCategory::Automation,
        vec![IntentType::Swipe],
        GoalTemplate::new("swipe {direction}").with_context_keys(vec!["direction"]),
        )
        .with_description("Swipe in a direction across the screen")
        .with_required_parameters(vec!["direction"])
        .with_capabilities(vec![
        GoalCapability::ScreenRequired,
        GoalCapability::InputRequired,
        ])
        .with_alias("slide");
    proof {
        reveal_strlit("1.0.0");
        assert(string_views(d.required_parameters@) =~= builtin_entry(8).4);
        assert(string_views(d.optional_parameters@) =~= builtin_entry(8).5);
        assert(string_views(d.aliases@) =~= builtin_entry(8).6);
        assert(string_views(d.synonyms@) =~= builtin_entry(8).7);
        assert(d.supported_intents@ =~= builtin_details(8).0);
        assert(d.required_capabilities@ =~= builtin_details(8).2);
        assert(string_views(d.planner_template.context_keys@) =~= builtin_details(8).3);
        assert(builtin_matches(d, 8));
    }
    let ghost before = r@;
    r.push(d);
    proof {
        assert forall|i: int| 0 <= i < r@.len() implies builtin_matches(#[trigger] r@[i], i) by {
            if i < before.len() {
                assert(r@[i] == before[i]);
            }
        }
    }
    let d = GoalDefinition::new(
        "builtin.change_brightness",
        "Change Brightness",
        GoalCategory::Device,
        vec![IntentType::DeviceControl],
        GoalTemplate::new("set brightness to {value}").with_context_keys(vec!["value"]),
        )
        .with_description("Adjust the screen brightness level")
        .with_optional_parameters(vec!["value"])
        .with_capabilities(vec![GoalCapability::DeviceRequired])
        .with_alias("brightness")
        .with_alias("dim screen")
        .with_synonym("screen brightness");
    proof {
        reveal_strlit("1.0.0");
        assert(string_views(d.required_parameters@) =~= builtin_entry(9).4);
        assert(string_views(d.optional_parameters@) =~= builtin_entry(9).5);
        assert(string_views(d.aliases@) =~= builtin_entry(9).6);
        assert(string_views(d.synonyms@) =~= builtin_entry(9).7);
        assert(d.supported_intents@ =~= builtin_details(9).0);
        assert(d.required_capabilities@ =~= builtin_details(9).2);
        assert(string_views(d.planner_template.context_keys@) =~= builtin_details(9).3);
        assert(builtin_matches(d, 9));
    }
    let ghost before = r@;
    r.push(d);
    proof {
        assert forall|i: int| 0 <= i < r@.len() implies builtin_matches(#[trigger] r@[i], i) by {
            if i < before.len() {
                assert(r@[i] == before[i]);
            }
        }
    }
    let d = GoalDefinition::new(
        "builtin.change_volume",
        "Change Volume",
        GoalCategory::Device,
        vec![IntentType::DeviceControl],
        GoalTemplate::new("set volume to {value}").with_context_keys(vec!["value"]),
        )
        .with_description("Adjust the system volume level")
        .with_optional_parameters(vec!["value"])
        .with_capabilities(vec![GoalCapability::DeviceRequired])
        .with_alias("volume")
        .with_alias("sound")
        .with_synonym("audio");
    proof {
        reveal_strlit("1.0.0");
        assert(string_views(d.required_parameters@) =~= builtin_entry(10).4);
        assert(string_views(d.optional_parameters@) =~= builtin_entry(10).5);
        assert(string_views(d.aliases@) =~= builtin_entry(10).6);
        assert(string_views(d.synonyms@) =~= builtin_entry(10).7);
        assert(d.supported_intents@ =~= builtin_details(10).0);
        assert(d.required_capabilities@ =~= builtin_details(10).2);
        assert(string_views(d.planner_template.context_keys@) =~= builtin_details(10).3);
        assert(builtin_matches(d, 10));
    }
    let ghost before = r@;
    r.push(d);
    proof {
        assert forall|i: int| 0 <= i < r@.len() implies builtin_matches(#[trigger] r@[i], i) by {
            if i < before.len() {
                assert(r@[i] == before[i]);
            }
        }
    }
    let d = GoalDefinition::new(
        "builtin.open_settings",
        "Open Settings",
        GoalCategory::Application,
        vec![IntentType::OpenApplication],
        GoalTemplate::new("open settings"),
        )
        .with_description("Open the system settings or preferences application")
        .with_capabilities(vec![GoalCapability::ScreenRequired])
        .with_alias("settings")
        .with_alias("preferences")
        .with_synonym("system settings");
    proof {
        reveal_strlit("1.0.0");
        assert(string_views(d.required_parameters@) =~= builtin_entry(11).4);
        assert(string_views(d.optional_parameters@) =~= builtin_entry(11).5);
        assert(string_views(d.aliases@) =~= builtin_entry(11).6);
        assert(string_views(d.synonyms@) =~= builtin_entry(11).7);
        assert(d.supported_intents@ =~= builtin_details(11).0);
        assert(d.required_capabilities@ =~= builtin_details(11).2);
        assert(string_views(d.planner_template.context_keys@) =~= builtin_details(11).3);
        assert(builtin_matches(d, 11));
    }
    let ghost before = r@;
    r.push(d);
    proof {
        assert forall|i: int| 0 <= i < r@.len() implies builtin_matches(#[trigger] r@[i], i) by {
            if i < before.len() {
                assert(r@[i] == before[i]);
            }
        }
    }
    let d = GoalDefinition::new(
        "builtin.lock_device",
        "Lock Device",
        GoalCategory::Device,
        vec![IntentType::DeviceControl],
        GoalTemplate::new("lock device"),
        )
        .with_description("Lock the device screen")
        .with_capabilities(vec![GoalCapability::DeviceRequired])
        .with_alias("lock screen")
        .with_alias("lock");
    proof {
        reveal_strlit("1.0.0");
        assert(string_views(d.required_parameters@) =~= builtin_entry(12).4);
        assert(string_views(d.optional_parameters@) =~= builtin_entry(12).5);
        assert(string_views(d.aliases@) =~= builtin_entry(12).6);
        assert(string_views(d.synonyms@) =~= builtin_entry(12).7);
        assert(d.supported_intents@ =~= builtin_details(12).0);
        assert(d.required_capabilities@ =~= builtin_details(12).2);
        assert(string_views(d.planner_template.context_keys@) =~= builtin_details(12).3);
        assert(builtin_matches(d, 12));
    }
    let ghost before = r@;
    r.push(d);
    proof {
        assert forall|i: int| 0 <= i < r@.len() implies builtin_matches(#[trigger] r@[i], i) by {
            if i < before.len() {
                assert(r@[i] == before[i]);
            }
        }
    }
    let d = GoalDefinition::new(
        "builtin.shutdown",
        "Shutdown",
        GoalCategory::System,
        vec![IntentType::SystemAction],
        GoalTemplate::new("shutdown system"),
        )
        .with_description("Shut down the computer or device")
        .with_capabilities(vec![GoalCapability::DeviceRequired])
        .with_alias("power off")
        .with_alias("shut down");
    proof {
        reveal_strlit("1.0.0");
        assert(string_views(d.required_parameters@) =~= builtin_entry(13).4);
        assert(string_views(d.optional_parameters@) =~= builtin_entry(13).5);
        assert(string_views(d.aliases@) =~= builtin_entry(13).6);
        assert(string_views(d.synonyms@) =~= builtin_entry(13).7);
        assert(d.supported_intents@ =~= builtin_details(13).0);
        assert(d.required_capabilities@ =~= builtin_details(13).2);
        assert(string_views(d.planner_template.context_keys@) =~= builtin_details(13).3);
        assert(builtin_matches(d, 13));
    }
    let ghost before = r@;
    r.push(d);
    proof {
        assert forall|i: int| 0 <= i < r@.len() implies builtin_matches(#[trigger] r@[i], i) by {
            if i < before.len() {
                assert(r@[i] == before[i]);
            }
        }
    }
    let d = GoalDefinition::new(
        "builtin.restart",
        "Restart",
        GoalCategory::System,
        vec![IntentType::SystemAction],
        GoalTemplate::new("restart system"),
        )
        .with_description("Restart or reboot the computer or device")
        .with_capabilities(vec![GoalCapability::DeviceRequired])
        .with_alias("reboot")
        .with_alias("reload");
    proof {
        reveal_strlit("1.0.0");
        assert(string_views(d.required_parameters@) =~= builtin_entry(14).4);
        assert(string_views(d.optional_parameters@) =~= builtin_entry(14).5);
        assert(string_views(d.aliases@) =~= builtin_entry(14).6);
        assert(string_views(d.synonyms@) =~= builtin_entry(14).7);
        assert(d.supported_intents@ =~= builtin_details(14).0);
        assert(d.required_capabilities@ =~= builtin_details(14).2);
        assert(string_views(d.planner_template.context_keys@) =~= builtin_details(14).3);
        assert(builtin_matches(d, 14));
    }
    let ghost before = r@;
    r.push(d);
    proof {
        assert forall|i: int| 0 <= i < r@.len() implies builtin_matches(#[trigger] r@[i], i) by {
            if i < before.len() {
                assert(r@[i] == before[i]);
            }
        }
    }
    let d = GoalDefinition::new(
        "builtin.sleep",
        "Sleep",
        GoalCategory::System,
        vec![IntentType::SystemAction],
        GoalTemplate::new("put system to sleep"),
        )
        .with_description("Put the computer or device into sleep mode")
        .with_capabilities(vec![GoalCapability::DeviceRequired])
        .with_alias("suspend")
        .with_alias("standby");
    proof {
        reveal_strlit("1.0.0");
        assert(string_views(d.required_parameters@) =~= builtin_entry(15).4);
        assert(string_views(d.optional_parameters@) =~= builtin_entry(15).5);
        assert(string_views(d.aliases@) =~= builtin_entry(15).6);
        assert(string_views(d.synonyms@) =~= builtin_entry(15).7);
        assert(d.supported_intents@ =~= builtin_details(15).0);
        assert(d.required_capabilities@ =~= builtin_details(15).2);
        assert(string_views(d.planner_template.context_keys@) =~= builtin_details(15).3);
        assert(builtin_matches(d, 15));
    }
    let ghost before = r@;
    r.push(d);
    proof {
        assert forall|i: int| 0 <= i < r@.len() implies builtin_matches(#[trigger] r@[i], i) by {
            if i < before.len() {
                assert(r@[i] == before[i]);
            }
        }
    }
    let d = GoalDefinition::new(
        "builtin.browser_search",
        "Browser Search",
        GoalCategory::Browser,
        vec![IntentType::BrowserAction, IntentType::Search],
        GoalTemplate::new("search {query} on {engine}")
        .with_context_keys(vec!["query", "engine"]),
        )
        .with_description("Search a specific search engine or website from the browser")
        .with_required_parameters(vec!["query"])
        .with_optional_parameters(vec!["engine"])
        .with_capabilities(vec![GoalCapability::NetworkRequired])
        .with_alias("online search")
        .with_alias("internet search");
    proof {
        reveal_strlit("1.0.0");
        assert(string_views(d.required_parameters@) =~= builtin_entry(16).4);
        assert(string_views(d.optional_parameters@) =~= builtin_entry(16).5);
        assert(string_views(d.aliases@) =~= builtin_entry(16).6);
        assert(string_views(d.synonyms@) =~= builtin_entry(16).7);
        assert(d.supported_intents@ =~= builtin_details(16).0);
        assert(d.required_capabilities@ =~= builtin_details(16).2);
        assert(string_views(d.planner_template.context_keys@) =~= builtin_details(16).3);
        assert(builtin_matches(d, 16));
    }
    let ghost before = r@;
    r.push(d);
    proof {
        assert forall|i: int| 0 <= i < r@.len() implies builtin_matches(#[trigger] r@[i], i) by {
            if i < before.len() {
                assert(r@[i] == before[i]);
            }
        }
    }
    let d = GoalDefinition::new(
        "builtin.open_url",
        "Open URL",
        GoalCategory::Navigation,
        vec![IntentType::Navigate],
        GoalTemplate::new("go to {url}").with_context_keys(vec!["url"]),
        )
        .with_description("Open a specific URL or web address in the browser")
        .with_required_parameters(vec!["url"])
        .with_capabilities(vec![
        GoalCapability::NetworkRequired,
        GoalCapability::ScreenRequired,
        ])
        .with_alias("navigate")
        .with_alias("go to")
        .with_synonym("visit");
    proof {
        reveal_strlit("1.0.0");
        assert(string_views(d.required_parameters@) =~= builtin_entry(17).4);
        assert(string_views(d.optional_parameters@) =~= builtin_entry(17).5);
        assert(string_views(d.aliases@) =~= builtin_entry(17).6);
        assert(string_views(d.synonyms@) =~= builtin_entry(17).7);
        assert(d.supported_intents@ =~= builtin_details(17).0);
        assert(d.required_capabilities@ =~= builtin_details(17).2);
        assert(string_views(d.planner_template.context_keys@) =~= builtin_details(17).3);
        assert(builtin_matches(d, 17));
    }
    let ghost before = r@;
    r.push(d);
    proof {
        assert forall|i: int| 0 <= i < r@.len() implies builtin_matches(#[trigger] r@[i], i) by {
            if i < before.len() {
                assert(r@[i] == before[i]);
            }
        }
    }
    r
}

/// `k` is among the required or optional parameters.
pub open spec fn lists_param(def: GoalDefinition, k: Seq<char>) -> bool {
    (exists|i: int| 0 <= i < def.required_parameters@.len() && #[trigger] def.required_parameters@[i]@ == k)
        || (exists|i: int| 0 <= i < def.optional_parameters@.len() && #[trigger] def.optional_parameters@[i]@ == k)
}

/// The parameter an intent's target fills for this definition.
pub open spec fn param_key(def: GoalDefinition) -> Seq<char> {
    if lists_param(def, "application"@) {
        "application"@
    } else if lists_param(def, "query"@) {
        "query"@
    } else if lists_param(def, "target"@) {
        "target"@
    } else if lists_param(def, "text"@) {
        "text"@
    } else if lists_param(def, "url"@) {
        "url"@
    } else if lists_param(def, "direction"@) {
        "direction"@
    } else if lists_param(def, "value"@) {
        "value"@
    } else if def.required_parameters@.len() > 0 {
        def.required_parameters@[0]@
    } else {
        "target"@
    }
}

fn lists_str(v: &Vec<String>, k: &str) -> (r: bool)
    ensures
        r == exists|i: int| 0 <= i < v@.len() && #[trigger] v@[i]@ == k@,
{
    let n = v.len();
    let mut i: usize = 0;
    while i < n
        invariant
            n == v@.len(),
            i <= n,
            forall|j: int| 0 <= j < i ==> #[trigger] v@[j]@ != k@,
        decreases n - i,
    {
        if crate::text::str_eq(v[i].as_str(), k) {
            return true;
        }
        i = i + 1;
    }
    false
}

fn lists_param_exec(def: &GoalDefinition, k: &str) -> (r: bool)
    ensures
        r == lists_param(*def, k@),
{
    lists_str(&def.required_parameters, k) || lists_str(&def.optional_parameters, k)
}

/// The parameter an intent's target fills for this definition: the first
/// of application, query, target, text, url, direction and value that it
/// lists, else its first required parameter, else "target".
pub fn guess_param_key(def: &GoalDefinition) -> (r: String)
    ensures
        r@ == param_key(*def),
{
    proof {
        reveal_strlit("application");
        reveal_strlit("query");
        reveal_strlit("target");
        reveal_strlit("text");
        reveal_strlit("url");
        reveal_strlit("direction");
        reveal_strlit("value");
    }
    if lists_param_exec(def, "application") {
        String::from_str("application")
    } else if lists_param_exec(def, "query") {
        String::from_str("query")
    } else if lists_param_exec(def, "target") {
        String::from_str("target")
    } else if lists_param_exec(def, "text") {
        String::from_str("text")
    } else if lists_param_exec(def, "url") {
        String::from_str("url")
    } else if lists_param_exec(def, "direction") {
        String::from_str("direction")
    } else if lists_param_exec(def, "value") {
        String::from_str("value")
    } else if def.required_parameters.len() > 0 {
        def.required_parameters[0].clone()
    } else {
        String::from_str("target")
    }
}

/// The parameters of an intent for a definition: the target under the
/// definition's target key, then each intent parameter whose key is not yet
/// taken.
pub open spec fn intent_params(key: Seq<char>, target: Option<Seq<char>>, ps: Seq<IntentParameter>) -> Map<Seq<char>, Seq<char>>
    decreases ps.len(),
{
    if ps.len() == 0 {
        match target {
            Some(t) => Map::empty().insert(key, t),
            None => Map::empty(),
        }
    } else {
        let m = intent_params(key, target, ps.drop_last());
        let p = ps.last();
        if m.contains_key(p.key@) { m } else { m.insert(p.key@, p.value@) }
    }
}

/// The parameters an intent gives a definition.
pub fn build_parameters(def: &GoalDefinition, target: Option<&str>, parameters: &Vec<IntentParameter>) -> (r: Vec<(String, String)>)
    ensures
        unique_keys(r@),
        pair_map(r@) == intent_params(param_key(*def), match target { Some(t) => Some(t@), None => None }, parameters@),
{
    let mut r: Vec<(String, String)> = Vec::new();
    let ghost tv = match target { Some(t) => Some(t@), None => None };
    proof {
        assert(pair_map(r@) =~= Map::<Seq<char>, Seq<char>>::empty());
    }
    match target {
        Some(t) => {
            let k = guess_param_key(def);
            crate::keyed::put_pair(&mut r, k, String::from_str(t));
            proof {
                assert(pair_map(r@) =~= intent_params(param_key(*def), tv, parameters@.take(0)));
            }
        },
        None => {
            proof {
                assert(pair_map(r@) =~= intent_params(param_key(*def), tv, parameters@.take(0)));
            }
        },
    }
    let n = parameters.len();
    let mut i: usize = 0;
    while i < n
        invariant
            n == parameters@.len(),
            i <= n,
            unique_keys(r@),
            pair_map(r@) == intent_params(param_key(*def), tv, parameters@.take(i as int)),
        decreases n - i,
    {
        proof {
            assert(parameters@.take(i + 1).drop_last() =~= parameters@.take(i as int));
        }
        let p = &parameters[i];
        let present = crate::keyed::get_pair(r.as_slice(), p.key.as_str()).is_some();
        if !present {
            crate::keyed::put_pair(&mut r, p.key.clone(), p.value.clone());
        }
        i = i + 1;
    }
    proof {
        assert(parameters@.take(n as int) =~= parameters@);
    }
    r
}

/// No two definitions share an id.
pub open spec fn def_ids_unique(s: Seq<GoalDefinition>) -> bool {
    forall|i: int, j: int| 0 <= i < j < s.len() ==> s[i].id@ != s[j].id@
}

/// Some definition has this id.
pub open spec fn has_def(s: Seq<GoalDefinition>, id: Seq<char>) -> bool {
    exists|i: int| 0 <= i < s.len() && #[trigger] s[i].id@ == id
}

/// The alias map after a definition's aliases were pointed at its id.
pub open spec fn with_aliases(m: Map<Seq<char>, Seq<char>>, aliases: Seq<String>, id: Seq<char>) -> Map<Seq<char>, Seq<char>>
    decreases aliases.len(),
{
    if aliases.len() == 0 {
        m
    } else {
        with_aliases(m, aliases.drop_last(), id).insert(aliases.last()@, id)
    }
}

/// The first of the definition's aliases that is already taken, if any.
pub open spec fn first_taken_alias(m: Map<Seq<char>, Seq<char>>, aliases: Seq<String>) -> Option<Seq<char>>
    decreases aliases.len(),
{
    if aliases.len() == 0 {
        None
    } else {
        match first_taken_alias(m, aliases.drop_last()) {
            Some(a) => Some(a),
            None => if m.contains_key(aliases.last()@) { Some(aliases.last()@) } else { None },
        }
    }
}

/// Alias entries that do not point at `id`.
pub open spec fn not_pointing_at(id: Seq<char>) -> spec_fn((String, String)) -> bool {
    |p: (String, String)| p.1@ != id
}

/// Goal definitions by id, and aliases pointing at ids.
#[derive(Debug)]
pub struct GoalRegistry {
    goals: Vec<GoalDefinition>,
    aliases: Vec<(String, String)>,
    max_registered_goals: usize,
}

impl GoalRegistry {
    pub closed spec fn goals_v(&self) -> Seq<GoalDefinition> {
        self.goals@
    }

    pub closed spec fn aliases_v(&self) -> Seq<(String, String)> {
        self.aliases@
    }

    pub closed spec fn max_v(&self) -> usize {
        self.max_registered_goals
    }

    pub open spec fn wf(&self) -> bool {
        def_ids_unique(self.goals_v()) && unique_keys(self.aliases_v())
    }

    /// An empty registry that holds at most `max_registered_goals`.
    pub fn new(max_registered_goals: usize) -> (r: Self)
        ensures
            r.wf(),
            r.goals_v().len() == 0,
            r.aliases_v().len() == 0,
            r.max_v() == max_registered_goals,
    {
        GoalRegistry { goals: Vec::new(), aliases: Vec::new(), max_registered_goals }
    }

    fn find(&self, id: &str) -> (r: Option<usize>)
        requires
            self.wf(),
        ensures
            match r {
                Some(i) => i < self.goals_v().len() && self.goals_v()[i as int].id@ == id@,
                None => !has_def(self.goals_v(), id@),
            },
    {
        let n = self.goals.len();
        let mut i: usize = 0;
        while i < n
            invariant
                n == self.goals@.len(),
                i <= n,
                forall|j: int| 0 <= j < i ==> #[trigger] self.goals@[j].id@ != id@,
            decreases n - i,
        {
            if crate::text::str_eq(self.goals[i].id.as_str(), id) {
                return Some(i);
            }
            i = i + 1;
        }
        None
    }

    /// Whether a definition has this id.
    pub fn contains(&self, id: &str) -> (r: bool)
        requires
            self.wf(),
        ensures
            r == has_def(self.goals_v(), id@),
    {
        self.find(id).is_some()
    }

    /// The definition with this id.
    pub fn get(&self, id: &str) -> (r: Option<&GoalDefinition>)
        requires
            self.wf(),
        ensures
            match r {
                Some(d) => has_def(self.goals_v(), id@) && d.id@ == id@
                    && exists|i: int| 0 <= i < self.goals_v().len() && self.goals_v()[i] == *d,
                None => !has_def(self.goals_v(), id@),
            },
    {
        match self.find(id) {
            Some(i) => Some(&self.goals[i]),
            None => None,
        }
    }

    /// All definitions.
    pub fn list(&self) -> (r: &[GoalDefinition])
        ensures
            r@ == self.goals_v(),
    {
        self.goals.as_slice()
    }

    /// The alias table: alias, then the id it points at.
    pub fn aliases(&self) -> (r: &[(String, String)])
        ensures
            r@ == self.aliases_v(),
    {
        self.aliases.as_slice()
    }

    /// Adds a definition, unless the registry is full, its id is taken, or
    /// one of its aliases is taken; its aliases then point at its id.
    pub fn register(&mut self, def: GoalDefinition) -> (r: Result<(), String>)
        requires
            old(self).wf(),
        ensures
            final(self).wf(),
            final(self).max_v() == old(self).max_v(),
            old(self).goals_v().len() >= old(self).max_v() ==> {
                &&& r is Err
                &&& r->Err_0@ == "registry full (max "@ + crate::text::decimal(old(self).max_v() as nat) + ")"@
                &&& *final(self) == *old(self)
            },
            old(self).goals_v().len() < old(self).max_v() && has_def(old(self).goals_v(), def.id@) ==> {
                &&& r is Err
                &&& r->Err_0@ == "goal '"@ + def.id@ + "' already registered"@
                &&& *final(self) == *old(self)
            },
            old(self).goals_v().len() < old(self).max_v() && !has_def(old(self).goals_v(), def.id@) ==> {
                match first_taken_alias(pair_map(old(self).aliases_v()), def.aliases@) {
                    Some(a) => {
                        &&& r is Err
                        &&& r->Err_0@ == "alias '"@ + a + "' already registered"@
                        &&& *final(self) == *old(self)
                    },
                    None => {
                        &&& r is Ok
                        &&& final(self).goals_v() == old(self).goals_v().push(def)
                        &&& pair_map(final(self).aliases_v()) == with_aliases(pair_map(old(self).aliases_v()), def.aliases@, def.id@)
                    },
                }
            },
    {
        if self.goals.len() >= self.max_registered_goals {
            let mut m = String::new();
            push_str(&mut m, "registry full (max ");
            crate::text::push_decimal(&mut m, self.max_registered_goals as u64);
            push_str(&mut m, ")");
            return Err(m);
        }
        if self.find(def.id.as_str()).is_some() {
            let mut m = String::new();
            push_str(&mut m, "goal '");
            push_str(&mut m, def.id.as_str());
            push_str(&mut m, "' already registered");
            return Err(m);
        }
        let n = def.aliases.len();
        let mut i: usize = 0;
        while i < n
            invariant
                n == def.aliases@.len(),
                i <= n,
                *self == *old(self),
                self.wf(),
                old(self).goals_v().len() < old(self).max_v(),
                !has_def(old(self).goals_v(), def.id@),
                first_taken_alias(pair_map(self.aliases@), def.aliases@.take(i as int)) is None,
            decreases n - i,
        {
            proof {
                assert(def.aliases@.take(i + 1).drop_last() =~= def.aliases@.take(i as int));
            }
            if crate::keyed::get_pair(self.aliases.as_slice(), def.aliases[i].as_str()).is_some() {
                let mut m = String::new();
                push_str(&mut m, "alias '");
                push_str(&mut m, def.aliases[i].as_str());
                push_str(&mut m, "' already registered");
                proof {
                    lemma_first_taken_prefix(pair_map(self.aliases@), def.aliases@, i as int + 1);
                }
                return Err(m);
            }
            i = i + 1;
        }
        proof {
            assert(def.aliases@.take(n as int) =~= def.aliases@);
        }
        let ghost a0 = pair_map(self.aliases@);
        let mut k: usize = 0;
        while k < n
            invariant
                n == def.aliases@.len(),
                k <= n,
                self.goals == old(self).goals,
                self.max_registered_goals == old(self).max_registered_goals,
                def_ids_unique(self.goals@),
                !has_def(self.goals@, def.id@),
                unique_keys(self.aliases@),
                pair_map(self.aliases@) == with_aliases(a0, def.aliases@.take(k as int), def.id@),
            decreases n - k,
        {
            proof {
                assert(def.aliases@.take(k + 1).drop_last() =~= def.aliases@.take(k as int));
            }
            crate::keyed::put_pair(&mut self.aliases, def.aliases[k].clone(), def.id.clone());
            k = k + 1;
        }
        proof {
            assert(def.aliases@.take(n as int) =~= def.aliases@);
            assert forall|a: int, b: int| 0 <= a < b < self.goals@.push(def).len()
                implies self.goals@.push(def)[a].id@ != self.goals@.push(def)[b].id@ by {
                assert(self.goals@.push(def)[a] == self.goals@[a]);
                if b < self.goals@.len() {
                    assert(self.goals@.push(def)[b] == self.goals@[b]);
                }
            }
        }
        self.goals.push(def);
        Ok(())
    }

    /// Removes the definition with this id and every alias pointing at it.
    pub fn unregister(&mut self, id: &str) -> (r: Result<GoalDefinition, String>)
        requires
            old(self).wf(),
        ensures
            final(self).wf(),
            final(self).max_v() == old(self).max_v(),
            !has_def(old(self).goals_v(), id@) ==> {
                &&& r is Err
                &&& r->Err_0@ == "goal '"@ + id@ + "' not found"@
                &&& *final(self) == *old(self)
            },
            has_def(old(self).goals_v(), id@) ==> exists|i: int| {
                &&& 0 <= i < old(self).goals_v().len()
                &&& #[trigger] old(self).goals_v()[i].id@ == id@
                &&& r == Ok::<GoalDefinition, String>(old(self).goals_v()[i])
                &&& final(self).goals_v() == old(self).goals_v().remove(i)
                &&& final(self).aliases_v() == old(self).aliases_v().filter(not_pointing_at(id@))
            },
    {
        let i = match self.find(id) {
            Some(i) => i,
            None => {
                let mut m = String::new();
                push_str(&mut m, "goal '");
                push_str(&mut m, id);
                push_str(&mut m, "' not found");
                return Err(m);
            },
        };
        let ghost g0 = self.goals@;
        let def = self.goals.remove(i);
        proof {
            assert forall|a: int, b: int| 0 <= a < b < self.goals@.len() implies self.goals@[a].id@ != self.goals@[b].id@ by {
                let a2 = if a < i { a } else { a + 1 };
                let b2 = if b < i { b } else { b + 1 };
                assert(self.goals@[a] == g0[a2] && self.goals@[b] == g0[b2]);
            }
        }
        let ghost al = self.aliases@;
        let mut kept: Vec<(String, String)> = Vec::new();
        let n = self.aliases.len();
        let mut k: usize = 0;
        while k < n
            invariant
                n == al.len(),
                al == self.aliases@,
                k <= n,
                kept@ == al.take(k as int).filter(not_pointing_at(id@)),
            decreases n - k,
        {
            proof {
                assert(al.take(k + 1).drop_last() =~= al.take(k as int));
                reveal(Seq::filter);
            }
            if !crate::text::str_eq(self.aliases[k].1.as_str(), id) {
                kept.push((self.aliases[k].0.clone(), self.aliases[k].1.clone()));
            }
            k = k + 1;
        }
        proof {
            assert(al.take(n as int) =~= al);
            lemma_filter_keeps_unique(al, id@);
        }
        self.aliases = kept;
        Ok(def)
    }

    /// The definitions of this category.
    pub fn list_by_category(&self, category: GoalCategory) -> (r: Vec<&GoalDefinition>)
        ensures
            r@.map_values(|d: &GoalDefinition| *d) == self.goals_v().filter(|d: GoalDefinition| d.category == category),
    {
        let mut out: Vec<&GoalDefinition> = Vec::new();
        let n = self.goals.len();
        let mut i: usize = 0;
        while i < n
            invariant
                n == self.goals@.len(),
                i <= n,
                out@.map_values(|d: &GoalDefinition| *d) == self.goals@.take(i as int).filter(|d: GoalDefinition| d.category == category),
            decreases n - i,
        {
            proof {
                assert(self.goals@.take(i + 1).drop_last() =~= self.goals@.take(i as int));
                reveal(Seq::filter);
            }
            if self.goals[i].category == category {
                out.push(&self.goals[i]);
                proof {
                    assert(out@.map_values(|d: &GoalDefinition| *d) =~= self.goals@.take(i + 1).filter(|d: GoalDefinition| d.category == category));
                }
            }
            i = i + 1;
        }
        proof {
            assert(self.goals@.take(n as int) =~= self.goals@);
        }
        out
    }

    /// Removes every definition and alias.
    pub fn clear(&mut self)
        ensures
            final(self).wf(),
            final(self).goals_v().len() == 0,
            final(self).aliases_v().len() == 0,
            final(self).max_v() == old(self).max_v(),
    {
        self.goals.clear();
        self.aliases.clear();
    }

    /// A registry of at most 500 definitions with the built-in ones
    /// registered, in order, with their aliases.
    pub fn with_builtins() -> (r: Self)
        ensures
            r.wf(),
            r.max_v() == 500,
            r.goals_v().len() == 18,
            forall|i: int| 0 <= i < 18 ==> builtin_matches(#[trigger] r.goals_v()[i], i),
            pair_map(r.aliases_v()) == alias_table(r.goals_v()),
    {
        let mut reg = GoalRegistry::new(500);
        let mut defs = builtin_goals();
        let ghost orig = defs@;
        let ghost mut k: int = 0;
        proof {
            assert(orig.take(0) =~= Seq::<GoalDefinition>::empty());
            assert(orig.skip(0) =~= orig);
        }
        while defs.len() > 0
            invariant
                reg.wf(),
                reg.max_v() == 500,
                orig.len() == 18,
                forall|i: int| 0 <= i < 18 ==> builtin_matches(#[trigger] orig[i], i),
                0 <= k <= 18,
                k + defs@.len() == 18,
                defs@ == orig.skip(k),
                reg.goals_v() == orig.take(k),
                pair_map(reg.aliases_v()) == alias_table(orig.take(k)),
            decreases defs.len(),
        {
            let d = defs.remove(0);
            proof {
                assert(d == orig[k]);
                assert(defs@ =~= orig.skip(k + 1));
                lemma_builtin_fresh(k);
                assert(builtin_matches(orig[k], k));
                assert forall|i: int| 0 <= i < reg.goals_v().len() implies #[trigger] reg.goals_v()[i].id@ != d.id@ by {
                    assert(reg.goals_v()[i] == orig[i]);
                    assert(builtin_matches(orig[i], i));
                }
                assert(!has_def(reg.goals_v(), d.id@));
                assert forall|j: int| 0 <= j < d.aliases@.len() implies !pair_map(reg.aliases_v()).contains_key(
                    #[trigger] d.aliases@[j]@,
                ) by {
                    if pair_map(reg.aliases_v()).contains_key(d.aliases@[j]@) {
                        let p = orig.take(k);
                        lemma_alias_table_keys(p, d.aliases@[j]@);
                        let (i, x) = choose|i: int, x: int|
                            0 <= i < p.len() && 0 <= x < p[i].aliases@.len() && #[trigger] p[i].aliases@[x]@ == d.aliases@[j]@;
                        assert(p[i] == orig[i]);
                        assert(builtin_matches(orig[i], i));
                        assert(string_views(orig[i].aliases@)[x] == orig[i].aliases@[x]@);
                        assert(string_views(d.aliases@)[j] == d.aliases@[j]@);
                        assert(builtin_entry(i).6[x] != builtin_entry(k).6[j]);
                    }
                }
                lemma_none_taken(pair_map(reg.aliases_v()), d.aliases@);
            }
            let res = reg.register(d);
            proof {
                assert(res is Ok);
                assert(orig.take(k + 1) =~= orig.take(k).push(orig[k]));
                assert(orig.take(k + 1).drop_last() =~= orig.take(k));
                k = k + 1;
            }
        }
        proof {
            assert(orig.take(18) =~= orig);
        }
        reg
    }
}

proof fn lemma_first_taken_prefix(m: Map<Seq<char>, Seq<char>>, aliases: Seq<String>, k: int)
    requires
        1 <= k <= aliases.len(),
        first_taken_alias(m, aliases.take(k - 1)) is None,
        m.contains_key(aliases[k - 1]@),
    ensures
        first_taken_alias(m, aliases) == Some(aliases[k - 1]@),
    decreases aliases.len() - k,
{
    assert(aliases.take(k).drop_last() =~= aliases.take(k - 1));
    assert(aliases.take(k).last() == aliases[k - 1]);
    assert(first_taken_alias(m, aliases.take(k)) == Some(aliases[k - 1]@));
    lemma_first_taken_prefix_ext(m, aliases, k, aliases.len() as int);
    assert(aliases.take(aliases.len() as int) =~= aliases);
}

proof fn lemma_first_taken_prefix_ext(m: Map<Seq<char>, Seq<char>>, aliases: Seq<String>, k: int, j: int)
    requires
        1 <= k <= j <= aliases.len(),
        first_taken_alias(m, aliases.take(k)) == Some(aliases[k - 1]@),
    ensures
        first_taken_alias(m, aliases.take(j)) == Some(aliases[k - 1]@),
    decreases j - k,
{
    if j > k {
        lemma_first_taken_prefix_ext(m, aliases, k, j - 1);
        assert(aliases.take(j).drop_last() =~= aliases.take(j - 1));
    }
}

proof fn lemma_filter_keeps_unique(s: Seq<(String, String)>, id: Seq<char>)
    requires
        unique_keys(s),
    ensures
        unique_keys(s.filter(not_pointing_at(id))),
    decreases s.len(),
{
    reveal(Seq::filter);
    if s.len() > 0 {
        let d = s.drop_last();
        assert forall|a: int, b: int| 0 <= a < b < d.len() implies d[a].0@ != d[b].0@ by {
            assert(d[a] == s[a] && d[b] == s[b]);
        }
        lemma_filter_keeps_unique(d, id);
        let f = d.filter(not_pointing_at(id));
        if s.last().1@ != id {
            let t = f.push(s.last());
            assert forall|a: int, b: int| 0 <= a < b < t.len() implies t[a].0@ != t[b].0@ by {
                if b == f.len() {
                    assert(t[a] == f[a]);
                    assert(f.contains(f[a]));
                    d.lemma_filter_contains_rev(not_pointing_at(id), f[a]);
                    let w = choose|w: int| 0 <= w < d.len() && d[w] == f[a];
                    assert(s[w] == d[w]);
                } else {
                    assert(t[a] == f[a] && t[b] == f[b]);
                }
            }
        }
    }
}

/// The per-category counts: for each category in declaration order that
/// has definitions, its name and how many.
pub open spec fn category_entries(s: Seq<GoalDefinition>, c: int) -> Seq<(Seq<char>, nat)>
    decreases c,
{
    if c <= 0 {
        Seq::empty()
    } else {
        let r = category_entries(s, c - 1);
        let n = count_category(s, category_at(c - 1));
        if n > 0 { r.push((category_name(category_at(c - 1)), n)) } else { r }
    }
}

/// What a list of category counts says.
pub open spec fn category_views(v: Seq<(String, usize)>) -> Seq<(Seq<char>, nat)> {
    v.map_values(|p: (String, usize)| (p.0@, p.1 as nat))
}

/// How `{:?}` renders a category.
pub open spec fn category_name(c: GoalCategory) -> Seq<char> {
    match c {
        GoalCategory::Application => "Application"@,
        GoalCategory::Browser => "Browser"@,
        GoalCategory::Device => "Device"@,
        GoalCategory::System => "System"@,
        GoalCategory::File => "File"@,
        GoalCategory::Navigation => "Navigation"@,
        GoalCategory::Communication => "Communication"@,
        GoalCategory::Search => "Search"@,
        GoalCategory::Automation => "Automation"@,
        GoalCategory::Custom => "Custom"@,
    }
}

/// The categories in declaration order.
pub open spec fn category_at(i: int) -> GoalCategory {
    if i == 0 {
        GoalCategory::Application
    } else if i == 1 {
        GoalCategory::Browser
    } else if i == 2 {
        GoalCategory::Device
    } else if i == 3 {
        GoalCategory::System
    } else if i == 4 {
        GoalCategory::File
    } else if i == 5 {
        GoalCategory::Navigation
    } else if i == 6 {
        GoalCategory::Communication
    } else if i == 7 {
        GoalCategory::Search
    } else if i == 8 {
        GoalCategory::Automation
    } else {
        GoalCategory::Custom
    }
}

fn category_index(c: GoalCategory) -> (i: usize)
    ensures
        i < 10,
        category_at(i as int) == c,
{
    match c {
        GoalCategory::Application => 0,
        GoalCategory::Browser => 1,
        GoalCategory::Device => 2,
        GoalCategory::System => 3,
        GoalCategory::File => 4,
        GoalCategory::Navigation => 5,
        GoalCategory::Communication => 6,
        GoalCategory::Search => 7,
        GoalCategory::Automation => 8,
        GoalCategory::Custom => 9,
    }
}

fn category_name_text(c: GoalCategory) -> (r: String)
    ensures
        r@ == category_name(c),
{
    let mut s = String::new();
    match c {
        GoalCategory::Application => push_str(&mut s, "Application"),
        GoalCategory::Browser => push_str(&mut s, "Browser"),
        GoalCategory::Device => push_str(&mut s, "Device"),
        GoalCategory::System => push_str(&mut s, "System"),
        GoalCategory::File => push_str(&mut s, "File"),
        GoalCategory::Navigation => push_str(&mut s, "Navigation"),
        GoalCategory::Communication => push_str(&mut s, "Communication"),
        GoalCategory::Search => push_str(&mut s, "Search"),
        GoalCategory::Automation => push_str(&mut s, "Automation"),
        GoalCategory::Custom => push_str(&mut s, "Custom"),
    }
    proof {
        assert(Seq::<char>::empty() + category_name(c) =~= category_name(c));
    }
    s
}

pub open spec fn count_enabled(s: Seq<GoalDefinition>) -> nat
    decreases s.len(),
{
    if s.len() == 0 { 0 } else { count_enabled(s.drop_last()) + if s.last().enabled { 1nat } else { 0nat } }
}

pub open spec fn count_category(s: Seq<GoalDefinition>, c: GoalCategory) -> nat
    decreases s.len(),
{
    if s.len() == 0 { 0 } else { count_category(s.drop_last(), c) + if s.last().category == c { 1nat } else { 0nat } }
}

pub open spec fn sum_aliases(s: Seq<GoalDefinition>) -> nat
    decreases s.len(),
{
    if s.len() == 0 { 0 } else { sum_aliases(s.drop_last()) + s.last().aliases@.len() }
}

pub open spec fn sum_synonyms(s: Seq<GoalDefinition>) -> nat
    decreases s.len(),
{
    if s.len() == 0 { 0 } else { sum_synonyms(s.drop_last()) + s.last().synonyms@.len() }
}

proof fn lemma_counts_le_len(s: Seq<GoalDefinition>, c: GoalCategory)
    ensures
        count_enabled(s) <= s.len(),
        count_category(s, c) <= s.len(),
    decreases s.len(),
{
    if s.len() > 0 {
        lemma_counts_le_len(s.drop_last(), c);
    }
}

impl GoalRegistry {
    /// How many definitions there are, enabled and not, how many aliases
    /// and synonyms they carry, how many there are per category (named as
    /// `{:?}` shows the category, in declaration order, categories with none
    /// left out), and how many are custom rather than built in.
    pub fn statistics(&self) -> (st: GoalRegistryStatistics)
        requires
            sum_aliases(self.goals_v()) <= usize::MAX,
            sum_synonyms(self.goals_v()) <= usize::MAX,
        ensures
            st.total_goals == self.goals_v().len(),
            st.enabled_goals == count_enabled(self.goals_v()),
            st.disabled_goals == self.goals_v().len() - count_enabled(self.goals_v()),
            st.total_aliases == sum_aliases(self.goals_v()),
            st.total_synonyms == sum_synonyms(self.goals_v()),
            st.custom_goals == count_category(self.goals_v(), GoalCategory::Custom),
            st.builtin_goals == self.goals_v().len() - count_category(self.goals_v(), GoalCategory::Custom),
            category_views(st.categories@) == category_entries(self.goals_v(), 10),
    {
        let g = &self.goals;
        let n = g.len();
        let mut enabled: usize = 0;
        let mut aliases: usize = 0;
        let mut synonyms: usize = 0;
        let mut counts: Vec<usize> = vec![0, 0, 0, 0, 0, 0, 0, 0, 0, 0];
        let mut i: usize = 0;
        while i < n
            invariant
                n == g@.len(),
                g@ == self.goals_v(),
                i <= n,
                sum_aliases(g@) <= usize::MAX,
                sum_synonyms(g@) <= usize::MAX,
                enabled == count_enabled(g@.take(i as int)),
                enabled <= i,
                aliases == sum_aliases(g@.take(i as int)),
                synonyms == sum_synonyms(g@.take(i as int)),
                counts@.len() == 10,
                forall|c: int| 0 <= c < 10 ==> #[trigger] counts@[c] == count_category(g@.take(i as int), category_at(c)),
                forall|c: int| 0 <= c < 10 ==> #[trigger] counts@[c] <= i,
            decreases n - i,
        {
            proof {
                assert(g@.take(i + 1).drop_last() =~= g@.take(i as int));
                lemma_sums_prefix(g@, i + 1);
            }
            let d = &g[i];
            if d.enabled {
                enabled = enabled + 1;
            }
            aliases = aliases + d.aliases.len();
            synonyms = synonyms + d.synonyms.len();
            let c = category_index(d.category);
            let v = counts[c];
            counts.set(c, v + 1);
            i = i + 1;
        }
        proof {
            assert(g@.take(n as int) =~= g@);
        }
        let mut cats: Vec<(String, usize)> = Vec::new();
        let mut c: usize = 0;
        while c < 10
            invariant
                c <= 10,
                counts@.len() == 10,
                forall|q: int| 0 <= q < 10 ==> #[trigger] counts@[q] == count_category(self.goals_v(), category_at(q)),
                category_views(cats@) == category_entries(self.goals_v(), c as int),
            decreases 10 - c,
        {
            let cat = if c == 0 {
                GoalCategory::Application
            } else if c == 1 {
                GoalCategory::Browser
            } else if c == 2 {
                GoalCategory::Device
            } else if c == 3 {
                GoalCategory::System
            } else if c == 4 {
                GoalCategory::File
            } else if c == 5 {
                GoalCategory::Navigation
            } else if c == 6 {
                GoalCategory::Communication
            } else if c == 7 {
                GoalCategory::Search
            } else if c == 8 {
                GoalCategory::Automation
            } else {
                GoalCategory::Custom
            };
            assert(cat == category_at(c as int));
            if counts[c] > 0 {
                let ghost before = cats@;
                let name = category_name_text(cat);
                cats.push((name, counts[c]));
                proof {
                    assert(category_views(cats@) =~= category_views(before).push((name@, counts[c as int] as nat)));
                }
            }
            c = c + 1;
        }
        let custom = counts[9];
        proof {
            lemma_counts_le_len(self.goals_v(), GoalCategory::Custom);
        }
        GoalRegistryStatistics {
            total_goals: n,
            enabled_goals: enabled,
            disabled_goals: n - enabled,
            total_aliases: aliases,
            total_synonyms: synonyms,
            categories: cats,
            custom_goals: custom,
            builtin_goals: n - custom,
        }
    }
}

proof fn lemma_sums_prefix(s: Seq<GoalDefinition>, k: int)
    requires
        0 <= k <= s.len(),
    ensures
        sum_aliases(s.take(k)) <= sum_aliases(s),
        sum_synonyms(s.take(k)) <= sum_synonyms(s),
    decreases s.len(),
{
    if k < s.len() {
        assert(s.drop_last().take(k) =~= s.take(k));
        lemma_sums_prefix(s.drop_last(), k);
    } else {
        assert(s.take(k) =~= s);
    }
}

/// A registered definition is found by its id.
pub proof fn law_registered_is_found(s: Seq<GoalDefinition>, d: GoalDefinition)
    ensures
        has_def(s.push(d), d.id@),
{
    assert(s.push(d)[s.len() as int].id@ == d.id@);
}

/// With ids unique, unregistering a definition leaves none with its id.
pub proof fn law_unregistered_is_gone(s: Seq<GoalDefinition>, i: int)
    requires
        def_ids_unique(s),
        0 <= i < s.len(),
    ensures
        !has_def(s.remove(i), s[i].id@),
{
    let t = s.remove(i);
    assert forall|j: int| 0 <= j < t.len() implies t[j].id@ != s[i].id@ by {
        if j < i {
            assert(t[j] == s[j]);
        } else {
            assert(t[j] == s[j + 1]);
        }
    }
}

/// Registering a new definition and unregistering it gives back the
/// definitions as they were.
pub proof fn law_register_unregister_roundtrip(s: Seq<GoalDefinition>, d: GoalDefinition)
    requires
        def_ids_unique(s),
        !has_def(s, d.id@),
    ensures
        def_ids_unique(s.push(d)),
        s.push(d).remove(s.len() as int) == s,
{
    assert forall|i: int, j: int| 0 <= i < j < s.push(d).len() implies s.push(d)[i].id@ != s.push(d)[j].id@ by {
        if j == s.len() {
            assert(s[i].id@ != d.id@);
        }
    }
    assert(s.push(d).remove(s.len() as int) =~= s);
}

} // verus!
