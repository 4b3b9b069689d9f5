use automation::condition::{ComparisonOp, Condition, ConditionResult, DefaultConditionEvaluator};

fn ctx_of(pairs: &[(&str, &str)]) -> Vec<(String, String)> {
    pairs.iter().map(|(k, v)| (k.to_string(), v.to_string())).collect()
}

fn evaluate(c: &Condition, ctx: &Vec<(String, String)>) -> ConditionResult {
    let evaluator = DefaultConditionEvaluator;
    evaluator.evaluate(c, ctx)
}

#[test]
fn test_true() {
    let r = evaluate(&Condition::True, &Vec::new());
    assert!(r.matched);
}

#[test]
fn test_false() {
    let r = evaluate(&Condition::False, &Vec::new());
    assert!(!r.matched);
}

#[test]
fn test_comparison_eq() {
    let ctx = ctx_of(&[("key", "val")]);
    let r = evaluate(
        &Condition::Comparison { field: "key".into(), operator: ComparisonOp::Eq, value: "val".into() },
        &ctx,
    );
    assert!(r.matched);
}

#[test]
fn test_comparison_ne() {
    let ctx = ctx_of(&[("key", "val")]);
    let r = evaluate(
        &Condition::Comparison { field: "key".into(), operator: ComparisonOp::Neq, value: "other".into() },
        &ctx,
    );
    assert!(r.matched);
}

#[test]
fn test_contains() {
    let ctx = ctx_of(&[("key", "hello world")]);
    let r = evaluate(&Condition::Contains { field: "key".into(), value: "world".into() }, &ctx);
    assert!(r.matched);
}

#[test]
fn test_regex() {
    let ctx = ctx_of(&[("key", "abc123")]);
    let r = evaluate(&Condition::Regex { field: "key".into(), pattern: "^[a-z]+\\d+$".into() }, &ctx);
    assert!(r.matched);
}

#[test]
fn test_and_both_true() {
    let r = evaluate(&Condition::And(vec![Condition::True, Condition::True]), &Vec::new());
    assert!(r.matched);
}

#[test]
fn test_and_one_false() {
    let r = evaluate(&Condition::And(vec![Condition::True, Condition::False]), &Vec::new());
    assert!(!r.matched);
}

#[test]
fn test_or_both_false() {
    let r = evaluate(&Condition::Or(vec![Condition::False, Condition::False]), &Vec::new());
    assert!(!r.matched);
}

#[test]
fn test_or_one_true() {
    let r = evaluate(&Condition::Or(vec![Condition::False, Condition::True]), &Vec::new());
    assert!(r.matched);
}

#[test]
fn test_not() {
    let r = evaluate(&Condition::Not(Box::new(Condition::False)), &Vec::new());
    assert!(r.matched);
}

#[test]
fn test_context_check() {
    let ctx = ctx_of(&[("key", "present")]);
    let r = evaluate(&Condition::ContextCheck { key: "key".into(), exists: true }, &ctx);
    assert!(r.matched);
}

#[test]
fn test_permission_check() {
    let ctx = ctx_of(&[("permissions", "test admin")]);
    let r = evaluate(&Condition::PermissionCheck { permission: "test".into() }, &ctx);
    assert!(r.matched);
}

// ---- further cases

#[test]
fn condition_empty_and_or() {
    assert!(evaluate(&Condition::And(vec![]), &Vec::new()).matched);
    assert!(!evaluate(&Condition::Or(vec![]), &Vec::new()).matched);
}

#[test]
fn condition_missing_field_does_not_match() {
    let r = evaluate(
        &Condition::Comparison { field: "nope".into(), operator: ComparisonOp::Eq, value: "x".into() },
        &Vec::new(),
    );
    assert!(!r.matched);
    let r = evaluate(&Condition::ContextCheck { key: "nope".into(), exists: false }, &Vec::new());
    assert!(r.matched);
}

#[test]
fn condition_regex_rejects_non_matching() {
    let ctx = ctx_of(&[("key", "ABC")]);
    let r = evaluate(&Condition::Regex { field: "key".into(), pattern: "^[a-z]+$".into() }, &ctx);
    assert!(!r.matched);
}

#[test]
fn condition_double_negation() {
    let c = Condition::Not(Box::new(Condition::Not(Box::new(Condition::True))));
    assert!(evaluate(&c, &Vec::new()).matched);
}

#[test]
fn condition_get_field() {
    let ev = DefaultConditionEvaluator;
    let ctx = ctx_of(&[("a", "1")]);
    assert_eq!(ev.get_field("a", &ctx), Some("1".to_string()));
    assert_eq!(ev.get_field("b", &ctx), None);
}
