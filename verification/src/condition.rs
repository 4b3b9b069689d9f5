//! Boolean conditions over a string context, and their evaluation.
use vstd::prelude::*;
use crate::text::{str_eq, has_sub, seq_lt, str_contains, str_lt, push_str};
use vstd::string::StringExecFns;

verus! {

#[derive(Debug, Clone, Copy, PartialEq, Eq, Structural)]
pub enum ComparisonOp {
    Eq,
    Neq,
    Gt,
    Gte,
    Lt,
    Lte,
}

/// A condition over the fields of an evaluation context.
#[derive(Debug)]
pub enum Condition {
    And(Vec<Condition>),
    Or(Vec<Condition>),
    Not(Box<Condition>),
    Comparison { field: String, operator: ComparisonOp, value: String },
    Regex { field: String, pattern: String },
    Contains { field: String, value: String },
    DateCompare { field: String, operator: ComparisonOp, value: String },
    PermissionCheck { permission: String },
    ContextCheck { key: String, exists: bool },
    True,
    False,
}

/// The outcome of evaluating a condition, with the reason for it.
#[derive(Debug)]
pub struct ConditionResult {
    pub matched: bool,
    pub reason: String,
}

impl ConditionResult {
    pub fn matched(reason: String) -> (r: Self)
        ensures
            r.matched,
            r.reason@ == reason@,
    {
        ConditionResult { matched: true, reason }
    }

    pub fn not_matched(reason: String) -> (r: Self)
        ensures
            !r.matched,
            r.reason@ == reason@,
    {
        ConditionResult { matched: false, reason }
    }
}

/// The value a context gives for `key`: that of the first entry with that key.
pub open spec fn ctx_get(ctx: Seq<(String, String)>, key: Seq<char>) -> Option<Seq<char>>
    decreases ctx.len(),
{
    if ctx.len() == 0 {
        None
    } else if ctx[0].0@ == key {
        Some(ctx[0].1@)
    } else {
        ctx_get(ctx.drop_first(), key)
    }
}

/// Looks `key` up in the context.
pub fn context_get<'a>(ctx: &'a [(String, String)], key: &str) -> (r: Option<&'a String>)
    ensures
        match r {
            Some(v) => ctx_get(ctx@, key@) == Some(v@),
            None => ctx_get(ctx@, key@) is None,
        },
{
    let mut i: usize = 0;
    assert(ctx@.skip(0) =~= ctx@);
    while i < ctx.len()
        invariant
            i <= ctx.len(),
            ctx_get(ctx@, key@) == ctx_get(ctx@.skip(i as int), key@),
        decreases ctx.len() - i,
    {
        if str_eq(ctx[i].0.as_str(), key) {
            return Some(&ctx[i].1);
        }
        assert(ctx@.skip(i as int).drop_first() =~= ctx@.skip(i + 1));
        i = i + 1;
    }
    None
}

/// Whether `a op b` holds in the code-point order of strings.
pub open spec fn compare(op: ComparisonOp, a: Seq<char>, b: Seq<char>) -> bool {
    match op {
        ComparisonOp::Eq => a == b,
        ComparisonOp::Neq => a != b,
        ComparisonOp::Gt => seq_lt(b, a),
        ComparisonOp::Gte => !seq_lt(a, b),
        ComparisonOp::Lt => seq_lt(a, b),
        ComparisonOp::Lte => !seq_lt(b, a),
    }
}

pub open spec fn op_text(op: ComparisonOp) -> Seq<char> {
    match op {
        ComparisonOp::Eq => "=="@,
        ComparisonOp::Neq => "!="@,
        ComparisonOp::Gt => ">"@,
        ComparisonOp::Gte => ">="@,
        ComparisonOp::Lt => "<"@,
        ComparisonOp::Lte => "<="@,
    }
}

/// The symbol of a comparison operator.
pub fn format_op(op: &ComparisonOp) -> (r: &'static str)
    ensures
        r@ == op_text(*op),
{
    match op {
        ComparisonOp::Eq => "==",
        ComparisonOp::Neq => "!=",
        ComparisonOp::Gt => ">",
        ComparisonOp::Gte => ">=",
        ComparisonOp::Lt => "<",
        ComparisonOp::Lte => "<=",
    }
}

fn compare_exec(op: &ComparisonOp, a: &String, b: &String) -> (r: bool)
    ensures
        r == compare(*op, a@, b@),
{
    match op {
        ComparisonOp::Eq => a.eq(b),
        ComparisonOp::Neq => !a.eq(b),
        ComparisonOp::Gt => str_lt(b.as_str(), a.as_str()),
        ComparisonOp::Gte => !str_lt(a.as_str(), b.as_str()),
        ComparisonOp::Lt => str_lt(a.as_str(), b.as_str()),
        ComparisonOp::Lte => !str_lt(b.as_str(), a.as_str()),
    }
}

/// What `regex::Regex::new` gives for a pattern: success, or its error text.
pub uninterp spec fn regex_compile(pattern: Seq<char>) -> Result<(), Seq<char>>;

/// What `regex::Regex::is_match` answers for the regex compiled from `pattern`.
pub uninterp spec fn regex_is_match(pattern: Seq<char>, text: Seq<char>) -> bool;

/// Compiles `pattern` with `regex::Regex::new` and, when that succeeds, asks
/// `Regex::is_match` about `text`; a compile error is handed back as its
/// display text. Both results are named above as functions of the
/// arguments; nothing is claimed about which patterns compile or match.
#[verifier::external_body]
fn regex_match(pattern: &str, text: &str) -> (r: Result<bool, String>)
    ensures
        r is Ok <==> regex_compile(pattern@) is Ok,
        r is Ok ==> r->Ok_0 == regex_is_match(pattern@, text@),
        r is Err ==> regex_compile(pattern@) == Err::<(), Seq<char>>(r->Err_0@),
{
    match regex::Regex::new(pattern) {
        Ok(re) => Ok(re.is_match(text)),
        Err(e) => Err(e.to_string()),
    }
}

pub open spec fn bool_text(b: bool) -> Seq<char> {
    if b { "true"@ } else { "false"@ }
}

pub open spec fn join(parts: Seq<Seq<char>>, sep: Seq<char>) -> Seq<char>
    decreases parts.len(),
{
    if parts.len() == 0 {
        Seq::empty()
    } else if parts.len() == 1 {
        parts[0]
    } else {
        join(parts.drop_last(), sep) + sep + parts.last()
    }
}

pub open spec fn not_found(field: Seq<char>) -> Seq<char> {
    "field '"@ + field + "' not found"@
}

/// The (matched, reason) pair that evaluating a condition gives.
pub open spec fn eval(c: Condition, ctx: Seq<(String, String)>) -> (bool, Seq<char>)
    decreases c, 1int,
{
    match c {
        Condition::And(cs) => eval_and(cs@, ctx),
        Condition::Or(cs) => match or_first(cs@, ctx) {
            Some(r) => (true, r),
            None => (false, "no OR conditions matched: "@ + join(or_reasons(cs@, ctx), "; "@)),
        },
        Condition::Not(inner) => {
            let r = eval(*inner, ctx);
            if r.0 {
                (false, "NOT condition negated: "@ + r.1)
            } else {
                (true, "NOT condition passed"@)
            }
        },
        Condition::Comparison { field, operator, value } => match ctx_get(ctx, field@) {
            None => (false, not_found(field@)),
            Some(actual) => if compare(operator, actual, value@) {
                (true, field@ + " "@ + op_text(operator) + " "@ + value@)
            } else {
                (false, field@ + " is '"@ + actual + "', expected "@ + op_text(operator) + " "@
                    + value@)
            },
        },
        Condition::Regex { field, pattern } => match ctx_get(ctx, field@) {
            None => (false, not_found(field@)),
            Some(actual) => match regex_compile(pattern@) {
                Ok(_) => if regex_is_match(pattern@, actual) {
                    (true, "'"@ + actual + "' matches /"@ + pattern@ + "/"@)
                } else {
                    (false, "'"@ + actual + "' does not match /"@ + pattern@ + "/"@)
                },
                Err(e) => (false, "invalid regex '"@ + pattern@ + "': "@ + e),
            },
        },
        Condition::Contains { field, value } => match ctx_get(ctx, field@) {
            None => (false, not_found(field@)),
            Some(actual) => if has_sub(actual, value@) {
                (true, "'"@ + field@ + "' contains '"@ + value@ + "'"@)
            } else {
                (false, "'"@ + actual + "' does not contain '"@ + value@ + "'"@)
            },
        },
        Condition::DateCompare { field, operator, value } => match ctx_get(ctx, field@) {
            None => (false, not_found(field@)),
            Some(actual) => if compare(operator, actual, value@) {
                (true, "date "@ + field@ + " "@ + op_text(operator) + " "@ + value@)
            } else {
                (false, "date "@ + field@ + " is '"@ + actual + "'"@)
            },
        },
        Condition::PermissionCheck { permission } => {
            let granted = match ctx_get(ctx, "permissions"@) {
                Some(p) => has_sub(p, permission@),
                None => false,
            };
            if granted {
                (true, "permission '"@ + permission@ + "' granted"@)
            } else {
                (false, "permission '"@ + permission@ + "' not granted"@)
            }
        },
        Condition::ContextCheck { key, exists } => {
            let has = ctx_get(ctx, key@) is Some;
            if has == exists {
                (true, "context key '"@ + key@ + (if exists { "' exists"@ } else {
                    "' not exists"@
                }))
            } else {
                (false, "context key '"@ + key@ + "' exist="@ + bool_text(has))
            }
        },
        Condition::True => (true, "always true"@),
        Condition::False => (false, "always false"@),
    }
}

/// An AND list: the reason of its first unmatched member, else success.
pub open spec fn eval_and(cs: Seq<Condition>, ctx: Seq<(String, String)>) -> (bool, Seq<char>)
    decreases cs, 0int,
{
    if cs.len() == 0 {
        (true, "all AND conditions matched"@)
    } else {
        let r = eval(cs[0], ctx);
        if !r.0 {
            (false, r.1)
        } else {
            eval_and(cs.subrange(1, cs.len() as int), ctx)
        }
    }
}

/// An OR list: the reason of its first matched member, if any.
pub open spec fn or_first(cs: Seq<Condition>, ctx: Seq<(String, String)>) -> Option<Seq<char>>
    decreases cs, 0int,
{
    if cs.len() == 0 {
        None
    } else {
        let r = eval(cs[0], ctx);
        if r.0 {
            Some(r.1)
        } else {
            or_first(cs.subrange(1, cs.len() as int), ctx)
        }
    }
}

/// The reasons of all members of an OR list, in order.
pub open spec fn or_reasons(cs: Seq<Condition>, ctx: Seq<(String, String)>) -> Seq<Seq<char>>
    decreases cs, 0int,
{
    if cs.len() == 0 {
        Seq::empty()
    } else {
        seq![eval(cs[0], ctx).1] + or_reasons(cs.subrange(1, cs.len() as int), ctx)
    }
}


/// Joins strings with a separator.
pub fn join_strings(parts: &Vec<String>, sep: &str) -> (r: String)
    ensures
        r@ == join(parts@.map_values(|p: String| p@), sep@),
{
    let ghost views = parts@.map_values(|p: String| p@);
    let mut s = String::new();
    let mut i: usize = 0;
    while i < parts.len()
        invariant
            i <= parts.len(),
            views == parts@.map_values(|p: String| p@),
            s@ == join(views.take(i as int), sep@),
        decreases parts.len() - i,
    {
        if i > 0 {
            push_str(&mut s, sep);
        }
        push_str(&mut s, parts[i].as_str());
        proof {
            let t = views.take(i + 1);
            assert(t.drop_last() =~= views.take(i as int));
            assert(t.last() == parts@[i as int]@);
            if i == 0 {
                assert(s@ =~= t[0]);
            }
        }
        i = i + 1;
    }
    assert(views.take(parts.len() as int) =~= views);
    s
}

/// Evaluates conditions against a context of string fields.
pub struct DefaultConditionEvaluator;

impl DefaultConditionEvaluator {
    /// The value of `field` in the context, if present.
    pub fn get_field(&self, field: &str, context: &[(String, String)]) -> (r: Option<String>)
        ensures
            match r {
                Some(v) => ctx_get(context@, field@) == Some(v@),
                None => ctx_get(context@, field@) is None,
            },
    {
        match context_get(context, field) {
            Some(v) => Some(v.clone()),
            None => None,
        }
    }

    /// Evaluates a condition: whether it matched, and why.
    pub fn evaluate(&self, condition: &Condition, context: &[(String, String)]) -> (r:
        ConditionResult)
        ensures
            r.matched == eval(*condition, context@).0,
            r.reason@ == eval(*condition, context@).1,
        decreases condition,
    {
        match condition {
            Condition::And(conditions) => {
                let mut i: usize = 0;
                assert(conditions@.subrange(0, conditions@.len() as int) =~= conditions@);
                while i < conditions.len()
                    invariant
                        i <= conditions.len(),
                        eval(*condition, context@) == eval_and(
                            conditions@.subrange(i as int, conditions@.len() as int),
                            context@,
                        ),
                        *condition == Condition::And(*conditions),
                    decreases conditions.len() - i,
                {
                    let r = self.evaluate(&conditions[i], context);
                    let ghost rest = conditions@.subrange(i as int, conditions@.len() as int);
                    assert(rest[0] == conditions@[i as int]);
                    assert(rest.subrange(1, rest.len() as int) =~= conditions@.subrange(
                        i + 1,
                        conditions@.len() as int,
                    ));
                    if !r.matched {
                        return ConditionResult::not_matched(r.reason);
                    }
                    i = i + 1;
                }
                ConditionResult::matched(String::from_str("all AND conditions matched"))
            },
            Condition::Or(conditions) => {
                let mut reasons: Vec<String> = Vec::new();
                let mut i: usize = 0;
                assert(conditions@.subrange(0, conditions@.len() as int) =~= conditions@);
                while i < conditions.len()
                    invariant
                        i <= conditions.len(),
                        *condition == Condition::Or(*conditions),
                        or_first(conditions@, context@) == or_first(
                            conditions@.subrange(i as int, conditions@.len() as int),
                            context@,
                        ),
                        or_reasons(conditions@, context@) == reasons@.map_values(
                            |p: String| p@,
                        ) + or_reasons(
                            conditions@.subrange(i as int, conditions@.len() as int),
                            context@,
                        ),
                    decreases conditions.len() - i,
                {
                    assert(decreases_to!(*condition => condition->Or_0));
                    assert(condition->Or_0 == *conditions);
                    assert(decreases_to!(*conditions => conditions@));
                    assert(decreases_to!(conditions@ => conditions@[i as int]));
                    let r = self.evaluate(&conditions[i], context);
                    let ghost rest = conditions@.subrange(i as int, conditions@.len() as int);
                    let ghost old_reasons = reasons@.map_values(|p: String| p@);
                    assert(rest[0] == conditions@[i as int]);
                    assert(rest.subrange(1, rest.len() as int) =~= conditions@.subrange(
                        i + 1,
                        conditions@.len() as int,
                    ));
                    if r.matched {
                        return ConditionResult::matched(r.reason);
                    }
                    reasons.push(r.reason);
                    assert(reasons@.map_values(|p: String| p@) =~= old_reasons.push(
                        eval(conditions@[i as int], context@).1,
                    ));
                    i = i + 1;
                }
                let ghost tail = conditions@.subrange(i as int, conditions@.len() as int);
                assert(tail.len() == 0);
                assert(or_first(tail, context@) is None);
                assert(or_first(conditions@, context@) is None);
                assert(reasons@.map_values(|p: String| p@) + or_reasons(tail, context@)
                    =~= reasons@.map_values(|p: String| p@));
                let joined = join_strings(&reasons, "; ");
                let mut msg = String::from_str("no OR conditions matched: ");
                push_str(&mut msg, joined.as_str());
                ConditionResult::not_matched(msg)
            },
            Condition::Not(inner) => {
                let r = self.evaluate(inner, context);
                if r.matched {
                    let mut msg = String::from_str("NOT condition negated: ");
                    push_str(&mut msg, r.reason.as_str());
                    ConditionResult::not_matched(msg)
                } else {
                    ConditionResult::matched(String::from_str("NOT condition passed"))
                }
            },
            Condition::Comparison { field, operator, value } => {
                let actual = match self.get_field(field.as_str(), context) {
                    Some(v) => v,
                    None => return ConditionResult::not_matched(field_not_found(field)),
                };
                if compare_exec(operator, &actual, value) {
                    let mut msg = field.clone();
                    push_str(&mut msg, " ");
                    push_str(&mut msg, format_op(operator));
                    push_str(&mut msg, " ");
                    push_str(&mut msg, value.as_str());
                    ConditionResult::matched(msg)
                } else {
                    let mut msg = field.clone();
                    push_str(&mut msg, " is '");
                    push_str(&mut msg, actual.as_str());
                    push_str(&mut msg, "', expected ");
                    push_str(&mut msg, format_op(operator));
                    push_str(&mut msg, " ");
                    push_str(&mut msg, value.as_str());
                    ConditionResult::not_matched(msg)
                }
            },
            Condition::Regex { field, pattern } => {
                let actual = match self.get_field(field.as_str(), context) {
                    Some(v) => v,
                    None => return ConditionResult::not_matched(field_not_found(field)),
                };
                match regex_match(pattern.as_str(), actual.as_str()) {
                    Ok(true) => {
                        let mut msg = String::from_str("'");
                        push_str(&mut msg, actual.as_str());
                        push_str(&mut msg, "' matches /");
                        push_str(&mut msg, pattern.as_str());
                        push_str(&mut msg, "/");
                        ConditionResult::matched(msg)
                    },
                    Ok(false) => {
                        let mut msg = String::from_str("'");
                        push_str(&mut msg, actual.as_str());
                        push_str(&mut msg, "' does not match /");
                        push_str(&mut msg, pattern.as_str());
                        push_str(&mut msg, "/");
                        ConditionResult::not_matched(msg)
                    },
                    Err(e) => {
                        let mut msg = String::from_str("invalid regex '");
                        push_str(&mut msg, pattern.as_str());
                        push_str(&mut msg, "': ");
                        push_str(&mut msg, e.as_str());
                        ConditionResult::not_matched(msg)
                    },
                }
            },
            Condition::Contains { field, value } => {
                let actual = match self.get_field(field.as_str(), context) {
                    Some(v) => v,
                    None => return ConditionResult::not_matched(field_not_found(field)),
                };
                if str_contains(actual.as_str(), value.as_str()) {
                    let mut msg = String::from_str("'");
                    push_str(&mut msg, field.as_str());
                    push_str(&mut msg, "' contains '");
                    push_str(&mut msg, value.as_str());
                    push_str(&mut msg, "'");
                    ConditionResult::matched(msg)
                } else {
                    let mut msg = String::from_str("'");
                    push_str(&mut msg, actual.as_str());
                    push_str(&mut msg, "' does not contain '");
                    push_str(&mut msg, value.as_str());
                    push_str(&mut msg, "'");
                    ConditionResult::not_matched(msg)
                }
            },
            Condition::DateCompare { field, operator, value } => {
                let actual = match self.get_field(field.as_str(), context) {
                    Some(v) => v,
                    None => return ConditionResult::not_matched(field_not_found(field)),
                };
                if compare_exec(operator, &actual, value) {
                    let mut msg = String::from_str("date ");
                    push_str(&mut msg, field.as_str());
                    push_str(&mut msg, " ");
                    push_str(&mut msg, format_op(operator));
                    push_str(&mut msg, " ");
                    push_str(&mut msg, value.as_str());
                    ConditionResult::matched(msg)
                } else {
                    let mut msg = String::from_str("date ");
                    push_str(&mut msg, field.as_str());
                    push_str(&mut msg, " is '");
                    push_str(&mut msg, actual.as_str());
                    push_str(&mut msg, "'");
                    ConditionResult::not_matched(msg)
                }
            },
            Condition::PermissionCheck { permission } => {
                let granted = match context_get(context, "permissions") {
                    Some(p) => str_contains(p.as_str(), permission.as_str()),
                    None => false,
                };
                if granted {
                    let mut msg = String::from_str("permission '");
                    push_str(&mut msg, permission.as_str());
                    push_str(&mut msg, "' granted");
                    ConditionResult::matched(msg)
                } else {
                    let mut msg = String::from_str("permission '");
                    push_str(&mut msg, permission.as_str());
                    push_str(&mut msg, "' not granted");
                    ConditionResult::not_matched(msg)
                }
            },
            Condition::ContextCheck { key, exists } => {
                let has = context_get(context, key.as_str()).is_some();
                if has == *exists {
                    let mut msg = String::from_str("context key '");
                    push_str(&mut msg, key.as_str());
                    if *exists {
                        push_str(&mut msg, "' exists");
                    } else {
                        push_str(&mut msg, "' not exists");
                    }
                    ConditionResult::matched(msg)
                } else {
                    let mut msg = String::from_str("context key '");
                    push_str(&mut msg, key.as_str());
                    push_str(&mut msg, "' exist=");
                    push_str(&mut msg, if has { "true" } else { "false" });
                    ConditionResult::not_matched(msg)
                }
            },
            Condition::True => ConditionResult::matched(String::from_str("always true")),
            Condition::False => ConditionResult::not_matched(String::from_str("always false")),
        }
    }
}

/// An AND list matches exactly when every member matches.
pub proof fn law_and_matches_iff_all(cs: Seq<Condition>, ctx: Seq<(String, String)>)
    ensures
        eval_and(cs, ctx).0 <==> forall|i: int| 0 <= i < cs.len() ==> #[trigger] eval(cs[i], ctx).0,
    decreases cs.len(),
{
    if cs.len() > 0 {
        let rest = cs.subrange(1, cs.len() as int);
        law_and_matches_iff_all(rest, ctx);
        if eval(cs[0], ctx).0 {
            assert forall|i: int| 0 <= i < cs.len() && eval_and(cs, ctx).0 implies #[trigger] eval(
                cs[i],
                ctx,
            ).0 by {
                if i > 0 {
                    assert(cs[i] == rest[i - 1]);
                }
            }
            if forall|i: int| 0 <= i < cs.len() ==> #[trigger] eval(cs[i], ctx).0 {
                assert forall|i: int| 0 <= i < rest.len() implies #[trigger] eval(rest[i], ctx).0 by {
                    assert(rest[i] == cs[i + 1]);
                }
            }
        }
    }
}

/// An OR list matches exactly when some member matches.
pub proof fn law_or_matches_iff_any(cs: Seq<Condition>, ctx: Seq<(String, String)>)
    ensures
        or_first(cs, ctx) is Some <==> exists|i: int| 0 <= i < cs.len() && #[trigger] eval(cs[i], ctx).0,
    decreases cs.len(),
{
    if cs.len() > 0 {
        let rest = cs.subrange(1, cs.len() as int);
        law_or_matches_iff_any(rest, ctx);
        if eval(cs[0], ctx).0 {
            assert(0 <= 0 < cs.len() && eval(cs[0], ctx).0);
        }
        if exists|i: int| 0 <= i < rest.len() && #[trigger] eval(rest[i], ctx).0 {
            let i = choose|i: int| 0 <= i < rest.len() && #[trigger] eval(rest[i], ctx).0;
            assert(rest[i] == cs[i + 1]);
        }
        if exists|i: int| 0 <= i < cs.len() && #[trigger] eval(cs[i], ctx).0 {
            let i = choose|i: int| 0 <= i < cs.len() && #[trigger] eval(cs[i], ctx).0;
            if i > 0 {
                assert(rest[i - 1] == cs[i]);
            }
        }
    }
}

/// Negating twice gives back the original verdict.
pub proof fn law_double_negation(c: Condition, ctx: Seq<(String, String)>)
    ensures
        eval(Condition::Not(Box::new(Condition::Not(Box::new(c)))), ctx).0 == eval(c, ctx).0,
{
    let inner = Condition::Not(Box::new(c));
    assert(eval(inner, ctx).0 == !eval(c, ctx).0);
}

/// An empty AND list matches; an empty OR list does not.
pub proof fn law_empty_lists(ctx: Seq<(String, String)>)
    ensures
        eval_and(Seq::empty(), ctx).0,
        or_first(Seq::empty(), ctx) is None,
{
}

fn field_not_found(field: &String) -> (r: String)
    ensures
        r@ == not_found(field@),
{
    let mut msg = String::from_str("field '");
    push_str(&mut msg, field.as_str());
    push_str(&mut msg, "' not found");
    msg
}


/// The string comparisons agree with one another on every pair of strings:
/// `>` is `<` with the sides swapped, `>` and `<` never hold together, no
/// string is below itself, `>=` is `>` or equal, `<=` is `<` or equal, and
/// `!=` is the negation of `==`, which is equality of the strings.
pub proof fn law_comparisons_agree(a: Seq<char>, b: Seq<char>)
    ensures
        compare(ComparisonOp::Gt, a, b) == compare(ComparisonOp::Lt, b, a),
        !(compare(ComparisonOp::Gt, a, b) && compare(ComparisonOp::Lt, a, b)),
        !compare(ComparisonOp::Lt, a, a),
        compare(ComparisonOp::Gte, a, b) == (compare(ComparisonOp::Gt, a, b) || a == b),
        compare(ComparisonOp::Lte, a, b) == (compare(ComparisonOp::Lt, a, b) || a == b),
        compare(ComparisonOp::Eq, a, b) == (a == b),
        compare(ComparisonOp::Neq, a, b) == (a != b),
{
    crate::text::lemma_seq_lt_irreflexive(a);
    crate::text::lemma_seq_lt_irreflexive(b);
    crate::text::lemma_seq_lt_total(a, b);
    if seq_lt(a, b) && seq_lt(b, a) {
        crate::text::lemma_seq_lt_transitive(a, b, a);
    }
}

/// Strings are ordered by their first differing character, and a proper
/// prefix comes first: then `a < b`, `b > a`, and not `a > b`.
pub proof fn law_less_by_first_difference(a: Seq<char>, b: Seq<char>, i: int)
    requires
        0 <= i <= a.len(),
        i <= b.len(),
        a.take(i) == b.take(i),
        (i < a.len() && i < b.len() && (a[i] as int) < (b[i] as int)) || (i == a.len() && i < b.len()),
    ensures
        compare(ComparisonOp::Lt, a, b),
        compare(ComparisonOp::Gt, b, a),
        !compare(ComparisonOp::Gt, a, b),
    decreases i,
{
    if i > 0 {
        assert(a[0] == a.take(i)[0] && b[0] == b.take(i)[0]);
        assert(a.drop_first().take(i - 1) =~= a.take(i).drop_first());
        assert(b.drop_first().take(i - 1) =~= b.take(i).drop_first());
        if i < a.len() && i < b.len() {
            assert(a.drop_first()[i - 1] == a[i] && b.drop_first()[i - 1] == b[i]);
        }
        law_less_by_first_difference(a.drop_first(), b.drop_first(), i - 1);
    }
    law_comparisons_agree(a, b);
}

} // verus!
