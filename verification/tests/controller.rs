use automation::controller::{
    click_outcome, missing_engine, navigation_done, navigation_failure, open_app_tries_click, type_outcome,
    NavigationStep, ScrollAction, ScrollSearch,
};

#[test]
fn test_missing_engine_reports_screen_first() {
    assert_eq!(missing_engine(false, false).unwrap(), "screen engine not configured");
    assert_eq!(missing_engine(false, true).unwrap(), "screen engine not configured");
    assert_eq!(missing_engine(true, false).unwrap(), "input engine not configured");
    assert!(missing_engine(true, true).is_none());
}

#[test]
fn test_click_and_type_outcomes() {
    let ok = click_outcome("OK", true, "").unwrap();
    assert!(ok.success);
    assert_eq!(ok.message, "clicked 'OK'");
    assert_eq!(click_outcome("OK", false, "not visible").unwrap_err(), "click failed: not visible");
    let typed = type_outcome("Search", "rust", true, "").unwrap();
    assert_eq!(typed.message, "typed 'rust' into 'Search'");
    assert_eq!(type_outcome("Search", "rust", false, "no field").unwrap_err(), "type failed: no field");
}

#[test]
fn test_open_app_click_needs_both_engines() {
    assert!(open_app_tries_click(true, true));
    assert!(!open_app_tries_click(true, false));
    assert!(!open_app_tries_click(false, true));
}

#[test]
fn test_scroll_search_without_looks_gives_up() {
    let (_, first) = ScrollSearch::start("Settings".to_string(), 0);
    match first {
        ScrollAction::Done(Err(e)) => assert_eq!(e, "target 'Settings' not found after 0 scroll attempts"),
        other => panic!("unexpected {:?}", other),
    }
}

#[test]
fn test_scroll_search_finds_after_scrolls() {
    let (mut s, first) = ScrollSearch::start("Settings".to_string(), 3);
    assert!(matches!(first, ScrollAction::Look));
    assert!(matches!(s.on_looked("Home Mail"), ScrollAction::Scroll));
    assert!(matches!(s.on_scrolled(), ScrollAction::Look));
    assert!(matches!(s.on_looked("Photos Settings"), ScrollAction::Click));
    match s.on_clicked(true) {
        ScrollAction::Done(Ok(r)) => {
            assert!(r.success);
            assert_eq!(r.message, "found and clicked 'Settings' after scroll 1");
        }
        other => panic!("unexpected {:?}", other),
    }
}

#[test]
fn test_scroll_search_gives_up_on_last_look() {
    let (mut s, _) = ScrollSearch::start("Settings".to_string(), 2);
    assert!(matches!(s.on_looked("nothing here"), ScrollAction::Scroll));
    assert!(matches!(s.on_scrolled(), ScrollAction::Look));
    assert!(matches!(s.on_looked("Settings"), ScrollAction::Click));
    match s.on_clicked(false) {
        ScrollAction::Done(Err(e)) => assert_eq!(e, "target 'Settings' not found after 2 scroll attempts"),
        other => panic!("unexpected {:?}", other),
    }
}

#[test]
fn test_navigation_messages() {
    let click = NavigationStep::ClickText("File".to_string());
    assert_eq!(navigation_failure(0, &click, "gone"), "navigation step 0 (click 'File') failed: gone");
    let typing = NavigationStep::TypeText { target: "Name".to_string(), text: "x".to_string() };
    assert_eq!(navigation_failure(12, &typing, "busy"), "navigation step 12 (type into 'Name') failed: busy");
    let done = navigation_done(0);
    assert!(done.success);
    assert_eq!(done.message, "completed 0 navigation step(s)");
    assert_eq!(navigation_done(3).message, "completed 3 navigation step(s)");
}
