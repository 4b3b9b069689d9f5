use automation::goal_registry::{classify_match, name_boost_of, param_boost_of, MatchKind};
use automation::goal_registry::{
    build_parameters, guess_param_key, replace_all, GoalCapability, GoalCategory, GoalDefinition, GoalMetadata,
    GoalRegistry, GoalTemplate,
};
use automation::intention_parser::{IntentParameter, IntentType};

fn params(pairs: &[(&str, &str)]) -> Vec<(String, String)> {
    pairs.iter().map(|(k, v)| (k.to_string(), v.to_string())).collect()
}

fn simple(id: &str) -> GoalDefinition {
    GoalDefinition::new(id, "Test", GoalCategory::Custom, vec![IntentType::Speak], GoalTemplate::new("say {text}"))
}

#[test]
fn test_has_required_parameters() {
    let def = GoalDefinition::new(
        "test",
        "Test",
        GoalCategory::Custom,
        vec![IntentType::Click],
        GoalTemplate::new("click {target}"),
    )
    .with_required_parameters(vec!["target"]);

    let mut p: Vec<(String, String)> = Vec::new();
    assert!(!def.has_required_parameters(&p));
    p.push(("target".to_string(), "button".to_string()));
    assert!(def.has_required_parameters(&p));
}

#[test]
fn test_goal_template_fill_multiple() {
    let template = GoalTemplate::new("search {query} on {engine}").with_context_keys(vec!["query", "engine"]);
    let p = params(&[("query", "rust"), ("engine", "google")]);
    let goal = template.fill(&p);
    assert_eq!(goal.description, "search rust on google");
}

#[test]
fn test_goal_template_fill_missing_param() {
    let template = GoalTemplate::new("open {application}").with_context_keys(vec!["application"]);
    let p: Vec<(String, String)> = Vec::new();
    let goal = template.fill(&p);
    assert_eq!(goal.description, "open {application}");
}

#[test]
fn test_goal_metadata_builder() {
    let meta = GoalMetadata::new()
        .with_author("tester")
        .with_tag("important")
        .with_tag("urgent")
        .with_notes("this is a note");
    assert_eq!(meta.author.unwrap(), "tester");
    assert_eq!(meta.tags.len(), 2);
    assert_eq!(meta.notes.unwrap(), "this is a note");
}

#[test]
fn test_goal_template_fill_copies_context_keys() {
    let template = GoalTemplate::new("open {application}").with_context_keys(vec!["application"]);
    let p = params(&[("application", "chrome"), ("other", "x")]);
    let goal = template.fill(&p);
    assert_eq!(goal.description, "open chrome");
    assert_eq!(goal.context, vec![("application".to_string(), "chrome".to_string())]);
}

#[test]
fn test_goal_template_fill_repeated_placeholder() {
    let template = GoalTemplate::new("{x} and {x}");
    let goal = template.fill(&params(&[("x", "y")]));
    assert_eq!(goal.description, "y and y");
}

#[test]
fn test_replace_all_exact() {
    assert_eq!(replace_all("a-b-c", "-", "+"), "a+b+c");
    assert_eq!(replace_all("aaa", "aa", "b"), "ba");
    assert_eq!(replace_all("abc", "x", "y"), "abc");
}

#[test]
fn test_goal_definition_builder() {
    let def = GoalDefinition::new(
        "test.builder",
        "Builder Test",
        GoalCategory::Communication,
        vec![IntentType::Speak],
        GoalTemplate::new("say {text}"),
    )
    .with_description("A test goal")
    .with_required_parameters(vec!["text"])
    .with_capabilities(vec![GoalCapability::AIRequired])
    .with_alias("test_alias")
    .with_synonym("syn")
    .with_version("2.0.0")
    .with_metadata(GoalMetadata::new().with_author("test").with_tag("test_tag"));

    assert_eq!(def.category, GoalCategory::Communication);
    assert_eq!(def.version, "2.0.0");
    assert_eq!(def.aliases.len(), 1);
    assert_eq!(def.synonyms.len(), 1);
    assert_eq!(def.metadata.author.unwrap(), "test");
    assert!(def.metadata.tags.contains(&"test_tag".to_string()));
}

#[test]
fn test_definition_defaults() {
    let def = simple("d");
    assert_eq!(def.version, "1.0.0");
    assert!(def.enabled);
    assert!(!def.disabled().enabled);
}

#[test]
fn test_supported_intents_field() {
    let def = GoalDefinition::new(
        "test.si",
        "SI Test",
        GoalCategory::Custom,
        vec![IntentType::Search, IntentType::BrowserAction],
        GoalTemplate::new("search {query}"),
    );
    assert!(def.supported_intents.contains(&IntentType::Search));
    assert!(def.supported_intents.contains(&IntentType::BrowserAction));
    assert!(!def.supported_intents.contains(&IntentType::Click));
}

#[test]
fn test_register_and_contains() {
    let mut reg = GoalRegistry::new(500);
    assert!(reg.register(simple("custom.g1")).is_ok());
    assert!(reg.contains("custom.g1"));
    assert_eq!(reg.list().len(), 1);
}

#[test]
fn test_duplicate_registration_rejected() {
    let mut reg = GoalRegistry::new(500);
    assert!(reg.register(simple("dup")).is_ok());
    assert!(reg.register(simple("dup")).is_err());
    assert_eq!(reg.list().len(), 1);
}

#[test]
fn test_registry_full_rejected() {
    let mut reg = GoalRegistry::new(1);
    assert!(reg.register(simple("a")).is_ok());
    assert!(reg.register(simple("b")).is_err());
    assert!(!reg.contains("b"));
}

#[test]
fn test_unregister_goal() {
    let mut reg = GoalRegistry::new(500);
    reg.register(simple("custom.g1")).unwrap();
    assert!(reg.contains("custom.g1"));
    let removed = reg.unregister("custom.g1");
    assert!(removed.is_ok());
    assert_eq!(removed.unwrap().id, "custom.g1");
    assert!(!reg.contains("custom.g1"));
}

#[test]
fn test_unregister_nonexistent_fails() {
    let mut reg = GoalRegistry::with_builtins();
    assert!(reg.unregister("nonexistent").is_err());
}

#[test]
fn test_duplicate_aliases_rejected() {
    let mut reg = GoalRegistry::new(500);
    let def1 = GoalDefinition::new(
        "g1",
        "Goal One",
        GoalCategory::Custom,
        vec![IntentType::Click],
        GoalTemplate::new("click {target}"),
    )
    .with_alias("shared_alias");
    assert!(reg.register(def1).is_ok());
    let def2 = GoalDefinition::new(
        "g2",
        "Goal Two",
        GoalCategory::Custom,
        vec![IntentType::Type],
        GoalTemplate::new("type {text}"),
    )
    .with_alias("shared_alias");
    assert!(reg.register(def2).is_err());
    assert!(!reg.contains("g2"));
}

#[test]
fn test_unregister_frees_alias() {
    let mut reg = GoalRegistry::new(500);
    reg.register(simple("g1").with_alias("al")).unwrap();
    assert_eq!(reg.aliases().len(), 1);
    reg.unregister("g1").unwrap();
    assert_eq!(reg.aliases().len(), 0);
    assert!(reg.register(simple("g2").with_alias("al")).is_ok());
}

#[test]
fn test_list_by_category() {
    let reg = GoalRegistry::with_builtins();
    let device_goals = reg.list_by_category(GoalCategory::Device);
    assert!(device_goals.len() >= 3);
    assert!(device_goals.iter().all(|g| g.category == GoalCategory::Device));
}

#[test]
fn test_get_goal_by_id() {
    let reg = GoalRegistry::with_builtins();
    let def = reg.get("builtin.open_app");
    assert!(def.is_some());
    assert_eq!(def.unwrap().name, "Open Application");
}

#[test]
fn test_get_nonexistent() {
    let reg = GoalRegistry::with_builtins();
    assert!(reg.get("nonexistent").is_none());
}

#[test]
fn test_clear_registry() {
    let mut reg = GoalRegistry::with_builtins();
    assert!(reg.list().len() > 0);
    reg.clear();
    assert_eq!(reg.list().len(), 0);
    assert_eq!(reg.aliases().len(), 0);
}

#[test]
fn test_statistics_counts() {
    let mut reg = GoalRegistry::new(500);
    reg.register(simple("a").with_alias("x").with_synonym("s")).unwrap();
    reg.register(simple("b").disabled()).unwrap();
    let st = reg.statistics();
    assert_eq!(st.total_goals, 2);
    assert_eq!(st.enabled_goals, 1);
    assert_eq!(st.disabled_goals, 1);
    assert_eq!(st.total_aliases, 1);
    assert_eq!(st.total_synonyms, 1);
    assert_eq!(st.custom_goals, 2);
    assert_eq!(st.builtin_goals, 0);
}

#[test]
fn test_builtins_registered() {
    let reg = GoalRegistry::with_builtins();
    let st = reg.statistics();
    assert_eq!(st.total_goals, st.builtin_goals);
    assert!(st.total_goals > 5);
    assert!(reg.contains("builtin.open_settings"));
}

#[test]
fn test_guess_param_key_open_app() {
    let reg = GoalRegistry::with_builtins();
    let def = reg.get("builtin.open_app").unwrap();
    assert_eq!(guess_param_key(def), "application");
}

#[test]
fn test_build_parameters_target_and_params() {
    let reg = GoalRegistry::with_builtins();
    let def = reg.get("builtin.open_app").unwrap();
    let extra = vec![IntentParameter::new("mode", "fast")];
    let built = build_parameters(def, Some("chrome"), &extra);
    assert!(built.contains(&("application".to_string(), "chrome".to_string())));
    assert!(built.contains(&("mode".to_string(), "fast".to_string())));
    assert_eq!(built.len(), 2);
}

#[test]
fn test_builtin_goals_registered() {
    let reg = GoalRegistry::with_builtins();
    let goals = reg.list();
    assert_eq!(goals.len(), 18, "expected 18 built-in goals, got {}", goals.len());
}

#[test]
fn test_builtin_goals_have_unique_ids() {
    let reg = GoalRegistry::with_builtins();
    let goals = reg.list();
    let ids: std::collections::HashSet<&str> = goals.iter().map(|g| g.id.as_str()).collect();
    assert_eq!(ids.len(), goals.len());
}

#[test]
fn test_contains_builtin() {
    let reg = GoalRegistry::with_builtins();
    assert!(reg.contains("builtin.open_app"));
    assert!(reg.contains("builtin.close_app"));
    assert!(reg.contains("builtin.search_web"));
    assert!(reg.contains("builtin.lock_device"));
}

#[test]
fn test_register_custom_goal() {
    let mut reg = GoalRegistry::new(500);
    let def = GoalDefinition::new(
        "custom.test",
        "Test Goal",
        GoalCategory::Custom,
        vec![IntentType::Speak],
        GoalTemplate::new("say {text}"),
    );
    assert!(reg.register(def).is_ok());
    assert!(reg.contains("custom.test"));
}

#[test]
fn test_register_duplicate_id_fails() {
    let mut reg = GoalRegistry::new(500);
    let def = GoalDefinition::new(
        "dup",
        "First",
        GoalCategory::Custom,
        vec![IntentType::Click],
        GoalTemplate::new("click {target}"),
    );
    assert!(reg.register(def).is_ok());
    let def2 = GoalDefinition::new(
        "dup",
        "Second",
        GoalCategory::Custom,
        vec![IntentType::Click],
        GoalTemplate::new("click {target}"),
    );
    assert!(reg.register(def2).is_err());
}

#[test]
fn test_goal_definition_capabilities() {
    let def = GoalDefinition::new(
        "test",
        "Test",
        GoalCategory::Automation,
        vec![IntentType::Click],
        GoalTemplate::new("click {target}"),
    )
    .with_capabilities(vec![GoalCapability::ScreenRequired, GoalCapability::InputRequired]);
    assert_eq!(def.required_capabilities.len(), 2);
    assert!(def.required_capabilities.contains(&GoalCapability::ScreenRequired));
}

#[test]
fn test_statistics_builtins() {
    let reg = GoalRegistry::with_builtins();
    let stats = reg.statistics();
    assert_eq!(stats.total_goals, 18);
    assert_eq!(stats.enabled_goals, 18);
    assert_eq!(stats.disabled_goals, 0);
    assert!(stats.total_aliases > 0);
    assert!(stats.total_synonyms > 0);
    assert!(stats.builtin_goals > 0);
    assert_eq!(stats.custom_goals, 0);
}

#[test]
fn test_statistics_custom_goals() {
    let mut reg = GoalRegistry::new(500);
    let def = GoalDefinition::new(
        "custom.c1",
        "Custom One",
        GoalCategory::Custom,
        vec![IntentType::Speak],
        GoalTemplate::new("say {text}"),
    );
    reg.register(def).unwrap();
    let stats = reg.statistics();
    assert_eq!(stats.total_goals, 1);
    assert_eq!(stats.custom_goals, 1);
}

#[test]
fn test_statistics_disabled() {
    let mut reg = GoalRegistry::new(500);
    let d1 = GoalDefinition::new("g1", "G1", GoalCategory::Custom, vec![IntentType::Click], GoalTemplate::new("click"));
    let d2 = GoalDefinition::new("g2", "G2", GoalCategory::Custom, vec![IntentType::Type], GoalTemplate::new("type"))
        .disabled();
    reg.register(d1).unwrap();
    reg.register(d2).unwrap();
    let stats = reg.statistics();
    assert_eq!(stats.enabled_goals, 1);
    assert_eq!(stats.disabled_goals, 1);
}

#[test]
fn test_goal_template_fill() {
    let template = GoalTemplate::new("open {application}").with_context_keys(vec!["application"]);
    let p = params(&[("application", "chrome")]);
    let goal = template.fill(&p);
    assert_eq!(goal.description, "open chrome");
    let value = goal.context.iter().find(|(k, _)| k == "application").map(|(_, v)| v.clone());
    assert_eq!(value.unwrap(), "chrome");
}

#[test]
fn test_empty_registry_stats() {
    let reg = GoalRegistry::new(500);
    let stats = reg.statistics();
    assert_eq!(stats.total_goals, 0);
    assert_eq!(stats.enabled_goals, 0);
    assert_eq!(stats.disabled_goals, 0);
}

#[test]
fn test_with_builtins_registers_details_and_aliases() {
    let reg = GoalRegistry::with_builtins();
    assert_eq!(reg.list().len(), 18);
    let open = &reg.list()[0];
    assert_eq!(open.description, "Open or launch a desktop or mobile application");
    assert_eq!(open.supported_intents, vec![IntentType::OpenApplication]);
    assert_eq!(open.planner_template.context_keys, vec!["application".to_string()]);
    assert_eq!(reg.aliases().len(), 34);
    assert!(reg.aliases().iter().any(|(a, id)| a == "reboot" && id == "builtin.restart"));
    assert!(reg.aliases().iter().any(|(a, id)| a == "launch" && id == "builtin.open_app"));
}

#[test]
fn test_classify_match_kinds_and_boosts() {
    let reg = GoalRegistry::with_builtins();
    let open = &reg.list()[0];
    let none: Vec<(String, String)> = Vec::new();
    let given = params(&[("application", "chrome")]);
    assert_eq!(classify_match(open, Some("chrome"), &given, reg.aliases(), true, true), MatchKind::Exact);
    assert_eq!(classify_match(open, Some("Launch"), &none, reg.aliases(), true, true), MatchKind::TableAlias);
    assert_eq!(classify_match(open, Some("please start app now"), &none, reg.aliases(), true, true), MatchKind::TextAlias);
    assert_eq!(classify_match(open, Some("Run it"), &none, reg.aliases(), false, true), MatchKind::Synonym);
    assert_eq!(classify_match(open, Some("Run it"), &none, reg.aliases(), false, false), MatchKind::Unmatched);
    assert_eq!(classify_match(open, None, &none, reg.aliases(), true, true), MatchKind::Unmatched);
    assert_eq!(name_boost_of(open, Some("Open")), 40);
    assert_eq!(name_boost_of(open, Some("desktop")), 20);
    assert_eq!(name_boost_of(open, Some("zzz")), 0);
    assert_eq!(name_boost_of(open, None), 0);
    assert_eq!(param_boost_of(open, Some("x")), 10);
    assert_eq!(param_boost_of(open, None), 0);
}
