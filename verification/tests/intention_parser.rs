use automation::intention_parser::{IntentContext, IntentParameter, IntentParser, IntentType, ParseOutcome};

fn parser() -> IntentParser {
    IntentParser::new()
}

#[test]
fn test_normalize_lowercase() {
    let p = parser();
    assert_eq!(p.normalize("OPEN CHROME"), "open chrome");
}

#[test]
fn test_normalize_collapse_whitespace() {
    let p = parser();
    assert_eq!(p.normalize("open    chrome"), "open chrome");
}

#[test]
fn test_normalize_empty() {
    let p = parser();
    assert_eq!(p.normalize(""), "");
    assert_eq!(p.normalize("  "), "");
}

#[test]
fn test_supported_intents_count() {
    let p = parser();
    let intents = p.supported_intents();
    assert_eq!(intents.len(), 16);
}

#[test]
fn test_intent_context_builder() {
    let ctx = IntentContext::new("voice").with_timestamp(1000).with_application_state("chrome");
    assert_eq!(ctx.source, "voice");
    assert_eq!(ctx.timestamp, 1000);
    assert_eq!(ctx.application_state.as_deref(), Some("chrome"));
}

#[test]
fn test_normalize_trims_and_mixes() {
    let p = parser();
    assert_eq!(p.normalize("  Open \t  Chrome  "), "open chrome");
}

#[test]
fn test_supported_intents_first_and_last() {
    let intents = parser().supported_intents();
    assert_eq!(intents[0].0, "open_application");
    assert_eq!(intents[15].0, "multi_step_goal");
}

#[test]
fn test_count_actions_two_groups() {
    let p = parser();
    assert_eq!(p.count_actions("open chrome and search rust"), 2);
    assert_eq!(p.count_actions("hello there"), 0);
}

#[test]
fn test_is_multi_step() {
    let p = parser();
    assert!(p.is_multi_step("open chrome and search rust"));
    assert!(!p.is_multi_step("open chrome"));
    assert!(!p.is_multi_step("open chrome search rust"));
}

#[test]
fn test_intent_parameter_new() {
    let param = IntentParameter::new("query", "rust");
    assert_eq!(param.key, "query");
    assert_eq!(param.value, "rust");
}

#[test]
fn test_open_application() {
    let p = parser();
    let result = p.parse("open chrome");
    match result {
        ParseOutcome::Single(intent) => {
            assert_eq!(intent.intent_type, IntentType::OpenApplication);
            assert_eq!(intent.target.as_deref(), Some("chrome"));
            assert!(intent.confidence_percent >= 80);
        }
        _ => panic!("expected Single intent"),
    }
}

#[test]
fn test_open_application_synonyms() {
    let p = parser();
    for text in &["launch firefox", "start terminal", "run notepad"] {
        match p.parse(text) {
            ParseOutcome::Single(intent) => {
                assert_eq!(
                    intent.intent_type,
                    IntentType::OpenApplication,
                    "failed for: {}",
                    text
                );
            }
            _ => panic!("expected Single intent for: {}", text),
        }
    }
}

#[test]
fn test_close_application() {
    let p = parser();
    let result = p.parse("close chrome");
    match result {
        ParseOutcome::Single(intent) => {
            assert_eq!(intent.intent_type, IntentType::CloseApplication);
            assert_eq!(intent.target.as_deref(), Some("chrome"));
        }
        _ => panic!("expected Single intent"),
    }
}

#[test]
fn test_close_application_synonyms() {
    let p = parser();
    for text in &["quit vscode", "exit terminal", "kill notepad"] {
        match p.parse(text) {
            ParseOutcome::Single(intent) => {
                assert_eq!(
                    intent.intent_type,
                    IntentType::CloseApplication,
                    "failed for: {}",
                    text
                );
            }
            _ => panic!("expected Single intent for: {}", text),
        }
    }
}

#[test]
fn test_search_intent() {
    let p = parser();
    let result = p.parse("search rust programming");
    match result {
        ParseOutcome::Single(intent) => {
            assert_eq!(intent.intent_type, IntentType::Search);
            assert_eq!(intent.target.as_deref(), Some("rust programming"));
        }
        _ => panic!("expected Single intent"),
    }
}

#[test]
fn test_search_synonyms() {
    let p = parser();
    for text in &["find recipes", "look for hotels", "look up weather"] {
        match p.parse(text) {
            ParseOutcome::Single(intent) => {
                assert_eq!(
                    intent.intent_type,
                    IntentType::Search,
                    "failed for: {}",
                    text
                );
            }
            _ => panic!("expected Single intent for: {}", text),
        }
    }
}

#[test]
fn test_navigate_intent() {
    let p = parser();
    let result = p.parse("go to github.com");
    match result {
        ParseOutcome::Single(intent) => {
            assert_eq!(intent.intent_type, IntentType::Navigate);
            assert_eq!(intent.target.as_deref(), Some("github.com"));
        }
        _ => panic!("expected Single intent"),
    }
}

#[test]
fn test_click_intent() {
    let p = parser();
    let result = p.parse("click submit");
    match result {
        ParseOutcome::Single(intent) => {
            assert_eq!(intent.intent_type, IntentType::Click);
            assert_eq!(intent.target.as_deref(), Some("submit"));
        }
        _ => panic!("expected Single intent"),
    }
}

#[test]
fn test_click_synonyms() {
    let p = parser();
    for text in &["tap button", "press enter", "select option"] {
        match p.parse(text) {
            ParseOutcome::Single(intent) => {
                assert_eq!(
                    intent.intent_type,
                    IntentType::Click,
                    "failed for: {}",
                    text
                );
            }
            _ => panic!("expected Single intent for: {}", text),
        }
    }
}

#[test]
fn test_type_intent() {
    let p = parser();
    let result = p.parse("type hello world");
    match result {
        ParseOutcome::Single(intent) => {
            assert_eq!(intent.intent_type, IntentType::Type);
            assert_eq!(intent.target.as_deref(), Some("hello world"));
        }
        _ => panic!("expected Single intent"),
    }
}

#[test]
fn test_type_synonyms() {
    let p = parser();
    for text in &["enter password", "input text", "write code"] {
        match p.parse(text) {
            ParseOutcome::Single(intent) => {
                assert_eq!(intent.intent_type, IntentType::Type, "failed for: {}", text);
            }
            _ => panic!("expected Single intent for: {}", text),
        }
    }
}

#[test]
fn test_scroll_intent() {
    let p = parser();
    let result = p.parse("scroll down");
    match result {
        ParseOutcome::Single(intent) => {
            assert_eq!(intent.intent_type, IntentType::Scroll);
            let dir = intent.parameters.iter().find(|p| p.key == "direction");
            assert!(dir.is_some());
            assert_eq!(dir.unwrap().value, "down");
        }
        _ => panic!("expected Single intent"),
    }
}

#[test]
fn test_drag_intent() {
    let p = parser();
    let result = p.parse("drag from left to right");
    match result {
        ParseOutcome::Single(intent) => {
            assert_eq!(intent.intent_type, IntentType::Drag);
            let from = intent.parameters.iter().find(|p| p.key == "from");
            assert!(from.is_some());
            assert_eq!(from.unwrap().value, "left");
            let to = intent.parameters.iter().find(|p| p.key == "to");
            assert!(to.is_some());
            assert_eq!(to.unwrap().value, "right");
        }
        _ => panic!("expected Single intent"),
    }
}

#[test]
fn test_swipe_intent() {
    let p = parser();
    let result = p.parse("swipe left");
    match result {
        ParseOutcome::Single(intent) => {
            assert_eq!(intent.intent_type, IntentType::Swipe);
            let dir = intent.parameters.iter().find(|p| p.key == "direction");
            assert!(dir.is_some());
            assert_eq!(dir.unwrap().value, "left");
        }
        _ => panic!("expected Single intent"),
    }
}

#[test]
fn test_wait_intent() {
    let p = parser();
    let result = p.parse("wait for 5 seconds");
    match result {
        ParseOutcome::Single(intent) => {
            assert_eq!(intent.intent_type, IntentType::Wait);
            let dur = intent.parameters.iter().find(|p| p.key == "duration");
            assert!(dur.is_some());
            assert_eq!(dur.unwrap().value, "5");
        }
        _ => panic!("expected Single intent"),
    }
}

#[test]
fn test_wait_synonyms() {
    let p = parser();
    for text in &["pause 2 seconds", "sleep 3"] {
        match p.parse(text) {
            ParseOutcome::Single(intent) => {
                assert_eq!(intent.intent_type, IntentType::Wait, "failed for: {}", text);
            }
            _ => panic!("expected Single intent for: {}", text),
        }
    }
}

#[test]
fn test_speak_intent() {
    let p = parser();
    let result = p.parse("speak hello world");
    match result {
        ParseOutcome::Single(intent) => {
            assert_eq!(intent.intent_type, IntentType::Speak);
            assert_eq!(intent.target.as_deref(), Some("hello world"));
        }
        _ => panic!("expected Single intent"),
    }
}

#[test]
fn test_speak_synonyms() {
    let p = parser();
    for text in &["say hello", "tell time", "announce reminder"] {
        match p.parse(text) {
            ParseOutcome::Single(intent) => {
                assert_eq!(
                    intent.intent_type,
                    IntentType::Speak,
                    "failed for: {}",
                    text
                );
            }
            _ => panic!("expected Single intent for: {}", text),
        }
    }
}

#[test]
fn test_device_control_brightness() {
    let p = parser();
    let result = p.parse("set brightness to 75");
    match result {
        ParseOutcome::Single(intent) => {
            assert_eq!(intent.intent_type, IntentType::DeviceControl);
            assert_eq!(intent.target.as_deref(), Some("brightness"));
            let val = intent.parameters.iter().find(|p| p.key == "value");
            assert!(val.is_some());
            assert_eq!(val.unwrap().value, "75");
        }
        _ => panic!("expected Single intent"),
    }
}

#[test]
fn test_device_control_dim() {
    let p = parser();
    let result = p.parse("dim the screen");
    match result {
        ParseOutcome::Single(intent) => {
            assert_eq!(intent.intent_type, IntentType::DeviceControl);
            assert_eq!(intent.target.as_deref(), Some("brightness"));
        }
        _ => panic!("expected Single intent"),
    }
}

#[test]
fn test_device_control_volume() {
    let p = parser();
    let result = p.parse("set volume to 50");
    match result {
        ParseOutcome::Single(intent) => {
            assert_eq!(intent.intent_type, IntentType::DeviceControl);
            assert_eq!(intent.target.as_deref(), Some("volume"));
            let val = intent.parameters.iter().find(|p| p.key == "value");
            assert!(val.is_some());
            assert_eq!(val.unwrap().value, "50");
        }
        _ => panic!("expected Single intent"),
    }
}

#[test]
fn test_device_control_mute() {
    let p = parser();
    let result = p.parse("mute device");
    match result {
        ParseOutcome::Single(intent) => {
            assert_eq!(intent.intent_type, IntentType::DeviceControl);
            assert_eq!(intent.target.as_deref(), Some("volume"));
        }
        _ => panic!("expected Single intent"),
    }
}

#[test]
fn test_device_control_wifi() {
    let p = parser();
    let result = p.parse("enable wifi");
    match result {
        ParseOutcome::Single(intent) => {
            assert_eq!(intent.intent_type, IntentType::DeviceControl);
            assert_eq!(intent.target.as_deref(), Some("wifi"));
            let enabled = intent.parameters.iter().find(|p| p.key == "enabled");
            assert!(enabled.is_some());
            assert_eq!(enabled.unwrap().value, "true");
        }
        _ => panic!("expected Single intent"),
    }
}

#[test]
fn test_device_control_bluetooth_off() {
    let p = parser();
    let result = p.parse("turn off bluetooth");
    match result {
        ParseOutcome::Single(intent) => {
            assert_eq!(intent.intent_type, IntentType::DeviceControl);
            assert_eq!(intent.target.as_deref(), Some("bluetooth"));
            let enabled = intent.parameters.iter().find(|p| p.key == "enabled");
            assert!(enabled.is_some());
            assert_eq!(enabled.unwrap().value, "false");
        }
        _ => panic!("expected Single intent"),
    }
}

#[test]
fn test_device_control_dnd() {
    let p = parser();
    let result = p.parse("enable do not disturb");
    match result {
        ParseOutcome::Single(intent) => {
            assert_eq!(intent.intent_type, IntentType::DeviceControl);
            assert_eq!(intent.target.as_deref(), Some("dnd"));
        }
        _ => panic!("expected Single intent"),
    }
}

#[test]
fn test_device_control_lock() {
    let p = parser();
    let result = p.parse("lock device");
    match result {
        ParseOutcome::Single(intent) => {
            assert_eq!(intent.intent_type, IntentType::DeviceControl);
            assert_eq!(intent.target.as_deref(), Some("lock"));
        }
        _ => panic!("expected Single intent"),
    }
}

#[test]
fn test_browser_action_search_on() {
    let p = parser();
    let result = p.parse("search rust on google");
    match result {
        ParseOutcome::Single(intent) => {
            assert_eq!(intent.intent_type, IntentType::BrowserAction);
            let engine = intent.parameters.iter().find(|p| p.key == "engine");
            assert!(engine.is_some());
            assert_eq!(engine.unwrap().value, "google");
        }
        _ => panic!("expected Single intent"),
    }
}

#[test]
fn test_browser_action_youtube() {
    let p = parser();
    let result = p.parse("search tutorials on youtube");
    match result {
        ParseOutcome::Single(intent) => {
            assert_eq!(intent.intent_type, IntentType::BrowserAction);
        }
        _ => panic!("expected Single intent"),
    }
}

#[test]
fn test_file_action_open() {
    let p = parser();
    let result = p.parse("open file report.pdf");
    match result {
        ParseOutcome::Single(intent) => {
            assert_eq!(intent.intent_type, IntentType::FileAction);
            let op = intent.parameters.iter().find(|p| p.key == "operation");
            assert!(op.is_some());
            assert_eq!(op.unwrap().value, "open");
        }
        _ => panic!("expected Single intent"),
    }
}

#[test]
fn test_system_action_shutdown() {
    let p = parser();
    let result = p.parse("shutdown computer");
    match result {
        ParseOutcome::Single(intent) => {
            assert_eq!(intent.intent_type, IntentType::SystemAction);
            let action = intent.parameters.iter().find(|p| p.key == "action");
            assert!(action.is_some());
            assert_eq!(action.unwrap().value, "shutdown");
        }
        _ => panic!("expected Single intent"),
    }
}

#[test]
fn test_system_action_restart() {
    let p = parser();
    let result = p.parse("restart system");
    match result {
        ParseOutcome::Single(intent) => {
            assert_eq!(intent.intent_type, IntentType::SystemAction);
            let action = intent.parameters.iter().find(|p| p.key == "action");
            assert!(action.is_some());
            assert_eq!(action.unwrap().value, "restart");
        }
        _ => panic!("expected Single intent"),
    }
}

#[test]
fn test_multi_step_with_and() {
    let p = parser();
    let result = p.parse("open chrome and search rust");
    match result {
        ParseOutcome::Multi(intents) => {
            assert_eq!(intents.len(), 2);
            assert_eq!(intents[0].intent_type, IntentType::OpenApplication);
            assert_eq!(intents[1].intent_type, IntentType::Search);
        }
        ParseOutcome::Single(i) => {
            // If the parser consolidated, it should be MultiStepGoal
            assert_eq!(
                i.intent_type,
                IntentType::MultiStepGoal,
                "expected MultiStepGoal, got {:?}",
                i.intent_type
            );
        }
        _ => panic!("expected Multi or Single(MultiStepGoal)"),
    }
}

#[test]
fn test_multi_step_with_then() {
    let p = parser();
    let result = p.parse("open settings then click network");
    match result {
        ParseOutcome::Multi(intents) => {
            assert!(intents.len() >= 2);
            assert_eq!(intents[0].intent_type, IntentType::OpenApplication);
            assert_eq!(intents[1].intent_type, IntentType::Click);
        }
        ParseOutcome::Single(i) => {
            assert_eq!(i.intent_type, IntentType::MultiStepGoal);
        }
        _ => panic!("expected multi-step result"),
    }
}

#[test]
fn test_unknown_intent() {
    let p = parser();
    let result = p.parse("purple elephant dancing");
    match result {
        ParseOutcome::Unknown(_) => {} // expected
        _ => panic!("expected Unknown for gibberish"),
    }
}

#[test]
fn test_empty_input() {
    let p = parser();
    let result = p.parse("");
    assert!(result.is_unknown());
}

#[test]
fn test_whitespace_input() {
    let p = parser();
    let result = p.parse("   ");
    assert!(result.is_unknown());
}

#[test]
fn test_malformed_input() {
    let p = parser();
    let result = p.parse("open");
    match result {
        ParseOutcome::Single(intent) => {
            // "open" alone should still resolve as OpenApplication with default target
            assert_eq!(intent.intent_type, IntentType::OpenApplication);
            assert!(intent.confidence_percent >= 80);
        }
        _ => panic!("expected Single intent for 'open'"),
    }
}

#[test]
fn test_parameter_extraction_click_quoted() {
    let p = parser();
    let result = p.parse("click 'submit button'");
    match result {
        ParseOutcome::Single(intent) => {
            assert_eq!(intent.intent_type, IntentType::Click);
            let target = intent.parameters.iter().find(|p| p.key == "target");
            assert!(target.is_some());
            assert_eq!(target.unwrap().value, "submit button");
        }
        _ => panic!("expected Single intent"),
    }
}

#[test]
fn test_parameter_extraction_type_quoted() {
    let p = parser();
    let result = p.parse("type 'hello world'");
    match result {
        ParseOutcome::Single(intent) => {
            assert_eq!(intent.intent_type, IntentType::Type);
            let text = intent.parameters.iter().find(|p| p.key == "text");
            assert!(text.is_some());
            assert_eq!(text.unwrap().value, "hello world");
        }
        _ => panic!("expected Single intent"),
    }
}

#[test]
fn test_parameter_brightness_value() {
    let p = parser();
    let result = p.parse("set brightness to 75");
    match result {
        ParseOutcome::Single(intent) => {
            assert_eq!(intent.intent_type, IntentType::DeviceControl);
            let val = intent.parameters.iter().find(|p| p.key == "value");
            assert!(val.is_some());
            assert_eq!(val.unwrap().value, "75");
        }
        _ => panic!("expected Single intent"),
    }
}

#[test]
fn test_unicode_input() {
    let p = parser();
    let result = p.parse("ouvrir chrome");
    // French "ouvrir" is not in our English patterns — should be unknown
    assert!(result.is_unknown());
}

#[test]
fn test_unicode_mixed() {
    let p = parser();
    let result = p.parse("open chrome 打开浏览器");
    match result {
        ParseOutcome::Single(intent) => {
            // "open" prefix should still match
            assert_eq!(intent.intent_type, IntentType::OpenApplication);
        }
        _ => panic!("expected Single intent"),
    }
}

#[test]
fn test_parse_many_multiple() {
    let p = parser();
    let results = p.parse_many(&["open chrome", "close notepad", "garbage"]);
    assert_eq!(results.len(), 3);
    match &results[0] {
        ParseOutcome::Single(i) => assert_eq!(i.intent_type, IntentType::OpenApplication),
        _ => panic!("expected Single"),
    }
    match &results[1] {
        ParseOutcome::Single(i) => assert_eq!(i.intent_type, IntentType::CloseApplication),
        _ => panic!("expected Single"),
    }
    assert!(results[2].is_unknown());
}


#[test]
fn test_confidence_best_for_exact_open() {
    let p = parser();
    let scores = p.confidence("open chrome");
    let open_score = scores.iter().find(|(n, _)| n == "open_application").map(|(_, s)| *s).unwrap_or(0);
    assert!(open_score > 0, "expected non-zero open_application confidence");
    assert_eq!(open_score, 90);
}

#[test]
fn test_confidence_blank_and_unknown() {
    let p = parser();
    assert_eq!(p.confidence("   "), vec![("unknown".to_string(), 100)]);
    assert_eq!(p.confidence("xyzzy"), vec![("unknown".to_string(), 100)]);
}

#[test]
fn test_confidence_device_and_multi() {
    let p = parser();
    let scores = p.confidence("set brightness to 40");
    assert_eq!(scores[0], ("device_control".to_string(), 95));
    let multi = p.confidence("open chrome and search rust");
    assert!(multi.contains(&("multi_step_goal".to_string(), 85)));
    assert!(multi.contains(&("search".to_string(), 60)));
}

#[test]
fn test_parse_outcome_intents_and_unknown() {
    let p = parser();
    let single = p.parse("open chrome");
    assert_eq!(single.intents().len(), 1);
    assert!(!single.is_unknown());
    let unknown = p.parse("");
    assert!(unknown.intents().is_empty());
    assert!(unknown.is_unknown());
    match unknown {
        ParseOutcome::Unknown(m) => assert_eq!(m, "empty input"),
        _ => panic!("expected Unknown"),
    }
}

#[test]
fn test_parse_single_exact_fields() {
    let p = parser();
    match p.parse_single("open chrome") {
        ParseOutcome::Single(i) => {
            assert_eq!(i.intent_type, IntentType::OpenApplication);
            assert_eq!(i.confidence_percent, 90);
            assert_eq!(i.reasoning, "open app keyword match");
            assert_eq!(i.original_text, "open chrome");
            assert_eq!(i.parameters.len(), 1);
            assert_eq!(i.parameters[0].key, "application");
            assert_eq!(i.parameters[0].value, "chrome");
        }
        _ => panic!("expected Single"),
    }
    match p.parse_single("gibberish") {
        ParseOutcome::Unknown(m) => assert_eq!(m, "unrecognized input: gibberish"),
        _ => panic!("expected Unknown"),
    }
}

#[test]
fn test_volume_capped_and_defaults() {
    let p = parser();
    match p.parse("volume up") {
        ParseOutcome::Single(i) => {
            assert_eq!(i.target.as_deref(), Some("volume"));
            assert_eq!(i.parameters[0].value, "70");
        }
        _ => panic!("expected Single"),
    }
    match p.parse("turn wifi off") {
        ParseOutcome::Single(i) => {
            assert_eq!(i.target.as_deref(), Some("wifi"));
            assert_eq!(i.parameters[0].key, "enabled");
            assert_eq!(i.parameters[0].value, "false");
        }
        _ => panic!("expected Single"),
    }
}

#[test]
fn test_file_and_system_actions() {
    let p = parser();
    match p.parse("delete file 'notes.txt'") {
        ParseOutcome::Single(i) => {
            assert_eq!(i.intent_type, IntentType::FileAction);
            assert_eq!(i.parameters[0].value, "delete");
            assert_eq!(i.parameters[1].value, "notes.txt");
        }
        _ => panic!("expected Single"),
    }
    match p.parse("reboot now") {
        ParseOutcome::Single(i) => {
            assert_eq!(i.intent_type, IntentType::SystemAction);
            assert_eq!(i.target.as_deref(), Some("restart"));
        }
        _ => panic!("expected Single"),
    }
}

#[test]
fn test_every_parsed_confidence_in_bounds() {
    let p = parser();
    let commands = [
        "open chrome",
        "close notepad",
        "search rust",
        "go to github.com",
        "click ok",
        "type hello",
        "scroll down",
        "drag file",
        "swipe up",
        "wait 3 seconds",
        "say hi",
        "set brightness to 40",
        "turn bluetooth on",
        "open in browser news",
        "copy file a.txt",
        "hibernate",
        "open chrome and search rust then click login",
    ];
    for c in commands.iter() {
        for intent in p.parse(c).intents() {
            assert!(intent.confidence_percent >= 75 && intent.confidence_percent <= 95, "{}", c);
        }
    }
}
