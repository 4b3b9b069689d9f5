//! The rules that read an intent out of a command. Commands arrive
//! normalized, so in lower case; keywords are lower-case too, and the rules
//! match the text as it is.
use vstd::prelude::*;
use vstd::string::StringExecFns;
use crate::action::{digits_value, is_digit};
use crate::intention_parser::{
    action_keywords, action_keywords_of, param_pairs, IntentParameter, IntentType, IntentView, ParsedIntent,
};
use crate::text::{
    contains_chars, copy_chars, decimal, find_first, first_at, from_chars, has_prefix, has_sub, split_words,
    str_contains, str_starts_with, strip_end_punct, strip_end_punct_chars, to_chars, trim, trim_chars,
    u64_text, words_of,
};

verus! {

// ── Pieces of text ──

/// The characters that end a clause.
pub open spec fn is_stop(c: char) -> bool {
    c == '!' || c == '?' || c == ';'
}

/// The position of the first clause end in `s`, or its length.
pub open spec fn first_stop(s: Seq<char>) -> int
    decreases s.len(),
{
    if s.len() == 0 {
        0
    } else if is_stop(s[0]) {
        0
    } else {
        1 + first_stop(s.drop_first())
    }
}

proof fn lemma_first_stop_bound(s: Seq<char>)
    ensures
        0 <= first_stop(s) <= s.len(),
    decreases s.len(),
{
    if s.len() > 0 && !is_stop(s[0]) {
        lemma_first_stop_bound(s.drop_first());
    }
}

/// The clause after the first occurrence of `key`: the rest of the text,
/// trimmed, up to its first '!', '?' or ';', trimmed again. `None` when the
/// key does not occur or nothing follows it.
pub open spec fn clause_after(t: Seq<char>, key: Seq<char>) -> Option<Seq<char>> {
    match first_at(t, key) {
        None => None,
        Some(pos) => {
            let after = trim(t.skip(pos + key.len()));
            if after.len() == 0 {
                None
            } else {
                Some(trim(after.take(first_stop(after))))
            }
        },
    }
}

/// What follows `key` (as `extract_after` reads it): the clause, when it is
/// not empty.
pub open spec fn text_after(t: Seq<char>, key: Seq<char>) -> Option<Seq<char>> {
    match clause_after(t, key) {
        Some(c) => if c.len() > 0 { Some(c) } else { None },
        None => None,
    }
}

/// What an action keyword acts on: the clause after the keyword (trimmed),
/// without trailing full stops and commas, when that is not empty.
pub open spec fn action_target(t: Seq<char>, key: Seq<char>) -> Option<Seq<char>> {
    match clause_after(t, trim(key)) {
        Some(c) => if strip_end_punct(c).len() > 0 { Some(strip_end_punct(c)) } else { None },
        None => None,
    }
}

/// The text between the first two occurrences of the quote `q`.
pub open spec fn quoted_by(t: Seq<char>, q: char) -> Option<Seq<char>> {
    match first_at(t, seq![q]) {
        Some(st) => {
            let rem = t.skip(st + 1);
            match first_at(rem, seq![q]) {
                Some(e) => Some(rem.take(e)),
                None => None,
            }
        },
        None => None,
    }
}

/// The first text in single quotes, else the first in double quotes.
pub open spec fn quoted(t: Seq<char>) -> Option<Seq<char>> {
    match quoted_by(t, '\'') {
        Some(x) => Some(x),
        None => quoted_by(t, '"'),
    }
}

/// The first of two choices that is present.
pub open spec fn either(a: Option<Seq<char>>, b: Option<Seq<char>>) -> Option<Seq<char>> {
    match a {
        Some(x) => Some(x),
        None => b,
    }
}

/// A choice, or a fallback.
pub open spec fn or_text(a: Option<Seq<char>>, d: Seq<char>) -> Seq<char> {
    match a {
        Some(x) => x,
        None => d,
    }
}

/// The ASCII digits of `w`, in order.
pub open spec fn digits_only(w: Seq<char>) -> Seq<char>
    decreases w.len(),
{
    if w.len() == 0 {
        w
    } else if is_digit(w.last()) {
        digits_only(w.drop_last()).push(w.last())
    } else {
        digits_only(w.drop_last())
    }
}

/// The number a word stands for once its non-digits are dropped, when
/// there are digits and the number fits in a `u32`.
pub open spec fn word_number(w: Seq<char>) -> Option<u32> {
    let d = digits_only(w);
    if d.len() > 0 && digits_value(d) <= u32::MAX {
        Some(digits_value(d) as u32)
    } else {
        None
    }
}

/// The number of the first word of `ws` that has one (at most 1000 when
/// `capped`).
pub open spec fn first_number(ws: Seq<Seq<char>>, capped: bool) -> Option<u32>
    decreases ws.len(),
{
    if ws.len() == 0 {
        None
    } else {
        match word_number(ws[0]) {
            Some(n) => if !capped || n <= 1000 {
                Some(n)
            } else {
                first_number(ws.drop_first(), capped)
            },
            None => first_number(ws.drop_first(), capped),
        }
    }
}

/// The first number in the words after `key`, else the first number of at
/// most 1000 anywhere in the text.
pub open spec fn number_after(t: Seq<char>, key: Seq<char>) -> Option<u32> {
    let near = match first_at(t, key) {
        Some(pos) => first_number(words_of(t.skip(pos + key.len())), false),
        None => None,
    };
    match near {
        Some(n) => Some(n),
        None => first_number(words_of(t), true),
    }
}

fn is_stop_char(c: char) -> (r: bool)
    ensures
        r == is_stop(c),
{
    c == '!' || c == '?' || c == ';'
}

fn first_stop_exec(s: &[char]) -> (r: usize)
    ensures
        r == first_stop(s@),
        r <= s@.len(),
{
    let mut i: usize = 0;
    assert(s@.skip(0) =~= s@);
    while i < s.len() && !is_stop_char(s[i])
        invariant
            i <= s.len(),
            first_stop(s@) == i + first_stop(s@.skip(i as int)),
        decreases s.len() - i,
    {
        assert(s@.skip(i as int).drop_first() =~= s@.skip(i + 1));
        i = i + 1;
    }
    i
}

fn take_chars(s: &[char], n: usize) -> (r: Vec<char>)
    requires
        n <= s@.len(),
    ensures
        r@ == s@.take(n as int),
{
    let mut r: Vec<char> = Vec::new();
    let mut i: usize = 0;
    while i < n
        invariant
            i <= n <= s@.len(),
            r@ == s@.take(i as int),
        decreases n - i,
    {
        r.push(s[i]);
        assert(s@.take(i + 1) =~= s@.take(i as int).push(s@[i as int]));
        i = i + 1;
    }
    r
}

fn skip_chars(s: &[char], n: usize) -> (r: Vec<char>)
    requires
        n <= s@.len(),
    ensures
        r@ == s@.skip(n as int),
{
    let mut r: Vec<char> = Vec::new();
    let mut i: usize = n;
    let total = s.len();
    while i < total
        invariant
            total == s@.len(),
            n <= i <= total,
            r@ == s@.subrange(n as int, i as int),
        decreases total - i,
    {
        r.push(s[i]);
        assert(s@.subrange(n as int, i + 1) =~= s@.subrange(n as int, i as int).push(s@[i as int]));
        i = i + 1;
    }
    assert(s@.subrange(n as int, total as int) =~= s@.skip(n as int));
    r
}

fn clause_after_exec(t: &[char], key: &[char]) -> (r: Option<Vec<char>>)
    ensures
        match r {
            Some(c) => clause_after(t@, key@) == Some(c@),
            None => clause_after(t@, key@) is None,
        },
{
    match find_first(t, key) {
        None => None,
        Some(pos) => {
            let kl = key.len();
            let tl = t.len();
            assert(kl == key@.len() && tl == t@.len());
            let rest = skip_chars(t, pos + kl);
            let after = trim_chars(rest.as_slice());
            if after.len() == 0 {
                return None;
            }
            let end = first_stop_exec(after.as_slice());
            let head = take_chars(after.as_slice(), end);
            Some(trim_chars(head.as_slice()))
        },
    }
}

/// What follows `key`, as `extract_after` reads it.
fn extract_after(t: &[char], key: &str) -> (r: Option<Vec<char>>)
    ensures
        match r {
            Some(c) => text_after(t@, key@) == Some(c@),
            None => text_after(t@, key@) is None,
        },
{
    let k = to_chars(key);
    match clause_after_exec(t, k.as_slice()) {
        Some(c) => if c.len() > 0 { Some(c) } else { None },
        None => None,
    }
}

/// What an action keyword acts on.
fn extract_action_target(t: &[char], key: &str) -> (r: Option<Vec<char>>)
    ensures
        match r {
            Some(c) => action_target(t@, key@) == Some(c@),
            None => action_target(t@, key@) is None,
        },
{
    let k0 = to_chars(key);
    let k = trim_chars(k0.as_slice());
    match clause_after_exec(t, k.as_slice()) {
        Some(c) => {
            let s = strip_end_punct_chars(c.as_slice());
            if s.len() > 0 { Some(s) } else { None }
        },
        None => None,
    }
}

fn quoted_by_exec(t: &[char], q: char) -> (r: Option<Vec<char>>)
    ensures
        match r {
            Some(c) => quoted_by(t@, q) == Some(c@),
            None => quoted_by(t@, q) is None,
        },
{
    let qs: Vec<char> = vec![q];
    assert(qs@ =~= seq![q]);
    match find_first(t, qs.as_slice()) {
        None => None,
        Some(st) => {
            let tl = t.len();
            assert(tl == t@.len() && st + 1 <= t@.len());
            let rem = skip_chars(t, st + 1);
            match find_first(rem.as_slice(), qs.as_slice()) {
                None => None,
                Some(e) => {
                    assert(e + 1 <= rem@.len());
                    Some(take_chars(rem.as_slice(), e))
                },
            }
        },
    }
}

/// The first quoted text.
fn extract_quoted(t: &[char]) -> (r: Option<Vec<char>>)
    ensures
        match r {
            Some(c) => quoted(t@) == Some(c@),
            None => quoted(t@) is None,
        },
{
    match quoted_by_exec(t, '\'') {
        Some(x) => Some(x),
        None => quoted_by_exec(t, '"'),
    }
}

fn digits_of(w: &[char]) -> (r: Vec<char>)
    ensures
        r@ == digits_only(w@),
{
    let mut r: Vec<char> = Vec::new();
    let mut i: usize = 0;
    assert(w@.take(0) =~= Seq::<char>::empty());
    while i < w.len()
        invariant
            i <= w.len(),
            r@ == digits_only(w@.take(i as int)),
        decreases w.len() - i,
    {
        assert(w@.take(i + 1).drop_last() =~= w@.take(i as int));
        let c = w[i];
        if '0' <= c && c <= '9' {
            r.push(c);
        }
        i = i + 1;
    }
    assert(w@.take(w.len() as int) =~= w@);
    r
}

proof fn lemma_digits_only_digits(w: Seq<char>)
    ensures
        forall|i: int| 0 <= i < digits_only(w).len() ==> is_digit(#[trigger] digits_only(w)[i]),
    decreases w.len(),
{
    if w.len() > 0 {
        lemma_digits_only_digits(w.drop_last());
        let p = digits_only(w.drop_last());
        assert forall|i: int| 0 <= i < digits_only(w).len() implies is_digit(#[trigger] digits_only(w)[i]) by {
            if is_digit(w.last()) {
                if i < p.len() {
                    assert(digits_only(w)[i] == p[i]);
                }
            }
        }
    }
}

/// The number of a word, when its digits make one that fits in a `u32`.
fn word_number_exec(w: &[char]) -> (r: Option<u32>)
    ensures
        r == word_number(w@),
{
    let d = digits_of(w);
    if d.len() == 0 {
        return None;
    }
    proof {
        lemma_digits_only_digits(w@);
    }
    let mut acc: u64 = 0;
    let mut i: usize = 0;
    assert(d@.take(0) =~= Seq::<char>::empty());
    while i < d.len()
        invariant
            d@ == digits_only(w@),
            forall|k: int| 0 <= k < d@.len() ==> is_digit(#[trigger] d@[k]),
            i <= d.len(),
            acc <= u32::MAX,
            acc == digits_value(d@.take(i as int)),
        decreases d.len() - i,
    {
        let c = d[i];
        assert(is_digit(d@[i as int]));
        let v = (c as u32 - '0' as u32) as u64;
        let next = acc * 10 + v;
        let ghost pre = d@.take(i + 1);
        assert(pre.drop_last() =~= d@.take(i as int));
        assert(pre.last() == c);
        assert(digits_value(pre) == acc * 10 + v);
        if next > 0xffff_ffffu64 {
            proof {
                lemma_digits_value_grows(d@, i + 1);
            }
            return None;
        }
        acc = next;
        i = i + 1;
    }
    assert(d@.take(d.len() as int) =~= d@);
    Some(acc as u32)
}

proof fn lemma_digits_value_grows(d: Seq<char>, n: int)
    requires
        0 <= n <= d.len(),
    ensures
        digits_value(d) >= digits_value(d.take(n)),
    decreases d.len() - n,
{
    if n < d.len() {
        lemma_digits_value_grows(d, n + 1);
        let p = d.take(n + 1);
        assert(p.drop_last() =~= d.take(n));
        assert(digits_value(p) == digits_value(d.take(n)) * 10 + ((p.last() as u32) - ('0' as u32)) as nat);
    } else {
        assert(d.take(n) =~= d);
    }
}

fn first_number_exec(ws: &Vec<Vec<char>>, capped: bool) -> (r: Option<u32>)
    ensures
        r == first_number(ws@.map_values(|v: Vec<char>| v@), capped),
{
    let ghost all = ws@.map_values(|v: Vec<char>| v@);
    let mut i: usize = 0;
    assert(all.skip(0) =~= all);
    while i < ws.len()
        invariant
            all == ws@.map_values(|v: Vec<char>| v@),
            i <= ws@.len(),
            first_number(all, capped) == first_number(all.skip(i as int), capped),
        decreases ws.len() - i,
    {
        assert(all.skip(i as int)[0] == ws@[i as int]@);
        assert(all.skip(i as int).drop_first() =~= all.skip(i + 1));
        match word_number_exec(ws[i].as_slice()) {
            Some(n) => {
                if !capped || n <= 1000 {
                    return Some(n);
                }
            },
            None => {},
        }
        i = i + 1;
    }
    None
}

/// The first number after `key`, else the first small number anywhere.
fn extract_number(t: &[char], key: &str) -> (r: Option<u32>)
    ensures
        r == number_after(t@, key@),
{
    let k = to_chars(key);
    let near = match find_first(t, k.as_slice()) {
        Some(pos) => {
            let kl = k.len();
            let tl = t.len();
            assert(kl == k@.len() && tl == t@.len());
            let rest = skip_chars(t, pos + kl);
            let ws = split_words(rest.as_slice());
            first_number_exec(&ws, false)
        },
        None => None,
    };
    match near {
        Some(n) => Some(n),
        None => {
            let ws = split_words(t);
            first_number_exec(&ws, true)
        },
    }
}


// ── The rules ──

/// `s` without trailing full stops, commas and exclamation marks.
pub open spec fn strip_end_marks(s: Seq<char>) -> Seq<char>
    decreases s.len(),
{
    if s.len() > 0 && (s.last() == '.' || s.last() == ',' || s.last() == '!') {
        strip_end_marks(s.drop_last())
    } else {
        s
    }
}

/// The first keyword of `kws` from position `k` on that starts `t` (when
/// `prefix_only`) or occurs in it.
pub open spec fn hit_from(t: Seq<char>, kws: Seq<Seq<char>>, k: int, prefix_only: bool) -> Option<int>
    decreases kws.len() - k,
{
    if k < 0 || k >= kws.len() {
        None
    } else if (if prefix_only { has_prefix(t, kws[k]) } else { has_sub(t, kws[k]) }) {
        Some(k)
    } else {
        hit_from(t, kws, k + 1, prefix_only)
    }
}

/// The first keyword of action group `g` that `t` starts with or holds.
pub open spec fn hit(t: Seq<char>, g: int, prefix_only: bool) -> Option<int> {
    hit_from(t, action_keywords(g), 0, prefix_only)
}

/// An intent read from `t`.
pub open spec fn read(
    kind: IntentType,
    t: Seq<char>,
    target: Option<Seq<char>>,
    params: Seq<(Seq<char>, Seq<char>)>,
    percent: u32,
    why: Seq<char>,
) -> IntentView {
    IntentView { kind, target, params, percent, reasoning: why, text: t }
}

/// A number as text.
pub open spec fn num_text(n: u32) -> Seq<char> {
    decimal(n as nat)
}

/// A truth value as text.
pub open spec fn bool_word(b: bool) -> Seq<char> {
    if b { "true"@ } else { "false"@ }
}

/// The first number present.
pub open spec fn either_num(a: Option<u32>, b: Option<u32>) -> Option<u32> {
    match a {
        Some(n) => Some(n),
        None => b,
    }
}

/// Whether a toggle is meant on: it is unless the text says off or disable.
pub open spec fn switched_on(t: Seq<char>) -> bool {
    !has_sub(t, "off"@) && !has_sub(t, "disable"@)
}

/// A device-control intent for a setting.
pub open spec fn device(t: Seq<char>, target: Seq<char>, params: Seq<(Seq<char>, Seq<char>)>, percent: u32) -> IntentView {
    read(IntentType::DeviceControl, t, Some(target), params, percent, "device control keyword match"@)
}

/// A setting to a value.
pub open spec fn value_param(n: u32) -> Seq<(Seq<char>, Seq<char>)> {
    seq![("value"@, num_text(n))]
}

/// A switch turned on or off.
pub open spec fn enabled_param(b: bool) -> Seq<(Seq<char>, Seq<char>)> {
    seq![("enabled"@, bool_word(b))]
}

/// The device setting a command speaks of: brightness, volume, mute, Wi-Fi,
/// Bluetooth, do-not-disturb, the lock screen or power saving, in that order
/// of precedence, with the value or switch it asks for.
pub open spec fn device_rule(t: Seq<char>) -> Option<IntentView> {
    if has_sub(t, "brightness"@) || has_sub(t, "dim"@) || has_sub(t, "dimmer"@) {
        if has_sub(t, "max"@) || has_sub(t, "full"@) {
            Some(device(t, "brightness"@, value_param(100), 95))
        } else if has_sub(t, "min"@) || has_sub(t, "lowest"@) {
            Some(device(t, "brightness"@, value_param(0), 95))
        } else {
            match either_num(number_after(t, "brightness"@), number_after(t, "to"@)) {
                Some(n) => Some(device(t, "brightness"@, value_param(n), 95)),
                None => Some(device(t, "brightness"@, Seq::empty(), 80)),
            }
        }
    } else if has_sub(t, "volume"@) || has_sub(t, "sound"@) {
        if has_sub(t, "up"@) || has_sub(t, "increase"@) || has_sub(t, "higher"@) {
            let n = match number_after(t, "to"@) { Some(n) => n, None => 70u32 };
            Some(device(t, "volume"@, value_param(if n < 100 { n } else { 100u32 }), 90))
        } else if has_sub(t, "down"@) || has_sub(t, "decrease"@) || has_sub(t, "lower"@) {
            let n = match number_after(t, "to"@) { Some(n) => n, None => 30u32 };
            Some(device(t, "volume"@, value_param(if n < 100 { n } else { 100u32 }), 90))
        } else {
            match either_num(number_after(t, "volume"@), number_after(t, "to"@)) {
                Some(n) => Some(device(t, "volume"@, value_param(n), 95)),
                None => Some(device(t, "volume"@, Seq::empty(), 85)),
            }
        }
    } else if has_sub(t, "mute"@) {
        Some(device(t, "volume"@, value_param(0), 95))
    } else if has_sub(t, "wifi"@) || has_sub(t, "wi-fi"@) {
        Some(device(t, "wifi"@, enabled_param(switched_on(t)), 90))
    } else if has_sub(t, "bluetooth"@) {
        Some(device(t, "bluetooth"@, enabled_param(switched_on(t)), 90))
    } else if has_sub(t, "dnd"@) || has_sub(t, "do not disturb"@) {
        Some(device(t, "dnd"@, enabled_param(switched_on(t)), 90))
    } else if has_sub(t, "lock"@) {
        Some(device(t, "lock"@, Seq::empty(), 90))
    } else if has_sub(t, "power save"@) || has_sub(t, "power saving"@) {
        Some(device(t, "power_save"@, enabled_param(switched_on(t)), 85))
    } else {
        None
    }
}

/// An intent whose one parameter, under `key`, is also its target.
pub open spec fn targeted(kind: IntentType, t: Seq<char>, key: Seq<char>, value: Seq<char>, percent: u32, why: Seq<char>) -> IntentView {
    read(kind, t, Some(value), seq![(key, value)], percent, why)
}

/// A command that starts with an opening keyword: what it opens, else
/// "application".
pub open spec fn open_app_rule(t: Seq<char>) -> Option<IntentView> {
    match hit(t, 0, true) {
        Some(k) => {
            let app = or_text(action_target(t, action_keywords(0)[k]), "application"@);
            Some(targeted(IntentType::OpenApplication, t, "application"@, app, 90, "open app keyword match"@))
        },
        None => None,
    }
}

/// A command with a closing keyword: what it closes, else "application".
pub open spec fn close_app_rule(t: Seq<char>) -> Option<IntentView> {
    match hit(t, 1, false) {
        Some(k) => {
            let app = or_text(action_target(t, action_keywords(1)[k]), "application"@);
            Some(targeted(IntentType::CloseApplication, t, "application"@, app, 90, "close app keyword match"@))
        },
        None => None,
    }
}

/// The quoted text, else what the keyword acts on, else a fallback.
pub open spec fn subject(t: Seq<char>, key: Seq<char>, fallback: Seq<char>) -> Seq<char> {
    or_text(either(quoted(t), action_target(t, key)), fallback)
}

/// A command with a search keyword: the query.
pub open spec fn search_rule(t: Seq<char>) -> Option<IntentView> {
    match hit(t, 2, false) {
        Some(k) => Some(targeted(IntentType::Search, t, "query"@, subject(t, action_keywords(2)[k], "search query"@), 90, "search keyword match"@)),
        None => None,
    }
}

/// A command with a navigation keyword: the destination, given as a URL
/// when it has a dot and no space.
pub open spec fn navigate_rule(t: Seq<char>) -> Option<IntentView> {
    match hit(t, 3, false) {
        Some(k) => {
            let dest = or_text(action_target(t, action_keywords(3)[k]), "destination"@);
            let key = if has_sub(dest, "."@) && !has_sub(dest, " "@) { "url"@ } else { "destination"@ };
            Some(targeted(IntentType::Navigate, t, key, dest, 85, "navigate keyword match"@))
        },
        None => None,
    }
}

/// A command with a click keyword: what to click.
pub open spec fn click_rule(t: Seq<char>) -> Option<IntentView> {
    match hit(t, 4, false) {
        Some(k) => Some(targeted(IntentType::Click, t, "target"@, subject(t, action_keywords(4)[k], "element"@), 85, "click keyword match"@)),
        None => None,
    }
}

/// A command with a typing keyword: the text to type.
pub open spec fn type_rule(t: Seq<char>) -> Option<IntentView> {
    match hit(t, 5, false) {
        Some(k) => Some(targeted(IntentType::Type, t, "text"@, subject(t, action_keywords(5)[k], "text"@), 85, "type keyword match"@)),
        None => None,
    }
}

/// A scrolling command: its direction, and what to scroll to when it says.
pub open spec fn scroll_rule(t: Seq<char>) -> Option<IntentView> {
    match hit(t, 6, false) {
        Some(_) => {
            let dir = if has_sub(t, "up"@) {
                "up"@
            } else if has_sub(t, "down"@) {
                "down"@
            } else if has_sub(t, "to"@) {
                or_text(either(action_target(t, "scroll to"@), action_target(t, "scroll"@)), "down"@)
            } else {
                "down"@
            };
            let tgt = either(action_target(t, "scroll to"@), action_target(t, "to"@));
            let params = match tgt {
                Some(x) => seq![("direction"@, dir), ("target"@, x)],
                None => seq![("direction"@, dir)],
            };
            Some(read(IntentType::Scroll, t, tgt, params, 80, "scroll keyword match"@))
        },
        None => None,
    }
}

/// A dragging command: from where to where, or what to drag.
pub open spec fn drag_rule(t: Seq<char>) -> Option<IntentView> {
    if has_sub(t, "drag"@) {
        let why = "drag keyword match"@;
        match text_after(t, "from"@) {
            Some(ff) => match first_at(ff, " to "@) {
                Some(tp) => {
                    let from_val = trim(ff.take(tp));
                    let to_val = strip_end_marks(trim(ff.skip(tp + 4)));
                    let params = if to_val.len() > 0 {
                        seq![("from"@, from_val), ("to"@, to_val)]
                    } else {
                        seq![("from"@, from_val)]
                    };
                    Some(read(IntentType::Drag, t, None, params, 75, why))
                },
                None => Some(read(IntentType::Drag, t, None, seq![("from"@, ff)], 75, why)),
            },
            None => match action_target(t, "drag"@) {
                Some(x) => Some(read(IntentType::Drag, t, Some(x), seq![("target"@, x)], 75, why)),
                None => Some(read(IntentType::Drag, t, None, Seq::empty(), 75, why)),
            },
        }
    } else {
        None
    }
}

/// A swiping command: its direction, right by default.
pub open spec fn swipe_rule(t: Seq<char>) -> Option<IntentView> {
    if has_sub(t, "swipe"@) || has_sub(t, "slide"@) {
        let dir = if has_sub(t, "left"@) {
            "left"@
        } else if has_sub(t, "right"@) {
            "right"@
        } else if has_sub(t, "up"@) {
            "up"@
        } else if has_sub(t, "down"@) {
            "down"@
        } else {
            "right"@
        };
        Some(read(IntentType::Swipe, t, None, seq![("direction"@, dir)], 80, "swipe keyword match"@))
    } else {
        None
    }
}

/// How long a waiting command asks to wait: the first number after "for",
/// "wait", "seconds" or "sec", else 1.
pub open spec fn wait_amount(t: Seq<char>) -> u32 {
    match either_num(
        either_num(number_after(t, "for"@), number_after(t, "wait"@)),
        either_num(number_after(t, "seconds"@), number_after(t, "sec"@)),
    ) {
        Some(n) => n,
        None => 1,
    }
}

/// The unit a waiting command speaks in.
pub open spec fn wait_unit(t: Seq<char>) -> Seq<char> {
    if has_sub(t, "ms"@) || has_sub(t, "millisecond"@) {
        "ms"@
    } else if has_sub(t, "min"@) || has_sub(t, "minute"@) {
        "minutes"@
    } else {
        "seconds"@
    }
}

/// A waiting command: how long, and in what unit.
pub open spec fn wait_rule(t: Seq<char>) -> Option<IntentView> {
    match hit(t, 9, false) {
        Some(_) => {
            let d = num_text(wait_amount(t));
            let u = wait_unit(t);
            Some(read(IntentType::Wait, t, Some(d + u), seq![("duration"@, d), ("unit"@, u)], 85, "wait keyword match"@))
        },
        None => None,
    }
}

/// A speaking command: what to say.
pub open spec fn speak_rule(t: Seq<char>) -> Option<IntentView> {
    match hit(t, 10, false) {
        Some(k) => Some(targeted(IntentType::Speak, t, "text"@, subject(t, action_keywords(10)[k], "message"@), 85, "speak keyword match"@)),
        None => None,
    }
}

/// The search engine a command names.
pub open spec fn engine_of(t: Seq<char>) -> Seq<char> {
    if has_sub(t, "google"@) {
        "google"@
    } else if has_sub(t, "bing"@) {
        "bing"@
    } else if has_sub(t, "youtube"@) {
        "youtube"@
    } else if has_sub(t, "duckduckgo"@) {
        "duckduckgo"@
    } else {
        "browser"@
    }
}

/// A browser command: a search on a named engine, or a query for the
/// browser.
pub open spec fn browser_rule(t: Seq<char>) -> Option<IntentView> {
    if has_sub(t, "search"@) && (has_sub(t, "on "@) || has_sub(t, "using "@)) {
        let q = subject(t, "search"@, "query"@);
        Some(read(IntentType::BrowserAction, t, Some(q), seq![("query"@, q), ("engine"@, engine_of(t))], 85, "browser search keyword match"@))
    } else {
        match hit(t, 12, false) {
            Some(k) => Some(targeted(IntentType::BrowserAction, t, "query"@, subject(t, action_keywords(12)[k], "query"@), 75, "browser keyword match"@)),
            None => None,
        }
    }
}

/// The file operation of each file keyword.
pub open spec fn file_op(k: int) -> Seq<char> {
    if k == 0 {
        "open"@
    } else if k == 1 || k == 2 || k == 7 {
        "create"@
    } else if k == 3 {
        "delete"@
    } else if k == 4 {
        "rename"@
    } else if k == 5 {
        "copy"@
    } else if k == 6 {
        "move"@
    } else {
        "open"@
    }
}

/// A file command: the operation and the path.
pub open spec fn file_rule(t: Seq<char>) -> Option<IntentView> {
    match hit(t, 13, false) {
        Some(k) => {
            let path = subject(t, action_keywords(13)[k], "file"@);
            Some(read(IntentType::FileAction, t, Some(path), seq![("operation"@, file_op(k)), ("path"@, path)], 80, "file action keyword match"@))
        },
        None => None,
    }
}

/// The system action a command names.
pub open spec fn system_action_of(t: Seq<char>) -> Seq<char> {
    if has_sub(t, "shutdown"@) || has_sub(t, "power off"@) {
        "shutdown"@
    } else if has_sub(t, "restart"@) || has_sub(t, "reboot"@) {
        "restart"@
    } else if has_sub(t, "sleep"@) {
        "sleep"@
    } else if has_sub(t, "hibernate"@) {
        "hibernate"@
    } else if has_sub(t, "log off"@) || has_sub(t, "sign out"@) || has_sub(t, "logout"@) {
        "logoff"@
    } else {
        "shutdown"@
    }
}

/// A system command: the action.
pub open spec fn system_rule(t: Seq<char>) -> Option<IntentView> {
    match hit(t, 14, false) {
        Some(_) => Some(targeted(IntentType::SystemAction, t, "action"@, system_action_of(t), 85, "system action keyword match"@)),
        None => None,
    }
}

/// The intent of a single command: device control first, then files,
/// opening, closing, the browser, search, navigation, clicking, typing,
/// scrolling, dragging, swiping, waiting, speaking and system actions, the
/// first rule that applies.
pub open spec fn single_rule(t: Seq<char>) -> Option<IntentView> {
    if device_rule(t) is Some { device_rule(t) }
    else if file_rule(t) is Some { file_rule(t) }
    else if open_app_rule(t) is Some { open_app_rule(t) }
    else if close_app_rule(t) is Some { close_app_rule(t) }
    else if browser_rule(t) is Some { browser_rule(t) }
    else if search_rule(t) is Some { search_rule(t) }
    else if navigate_rule(t) is Some { navigate_rule(t) }
    else if click_rule(t) is Some { click_rule(t) }
    else if type_rule(t) is Some { type_rule(t) }
    else if scroll_rule(t) is Some { scroll_rule(t) }
    else if drag_rule(t) is Some { drag_rule(t) }
    else if swipe_rule(t) is Some { swipe_rule(t) }
    else if wait_rule(t) is Some { wait_rule(t) }
    else if speak_rule(t) is Some { speak_rule(t) }
    else { system_rule(t) }
}

/// The view of an optional intent.
pub open spec fn opt_intent(r: Option<ParsedIntent>) -> Option<IntentView> {
    match r {
        Some(i) => Some(i@),
        None => None,
    }
}

/// The view of optional characters.
pub open spec fn opt_chars(r: Option<Vec<char>>) -> Option<Seq<char>> {
    match r {
        Some(v) => Some(v@),
        None => None,
    }
}


// ── Reading intents ──

fn strip_end_marks_chars(s: &[char]) -> (r: Vec<char>)
    ensures
        r@ == strip_end_marks(s@),
{
    let mut n = s.len();
    assert(s@.take(n as int) =~= s@);
    while n > 0 && (s[n - 1] == '.' || s[n - 1] == ',' || s[n - 1] == '!')
        invariant
            n <= s.len(),
            strip_end_marks(s@) == strip_end_marks(s@.take(n as int)),
        decreases n,
    {
        assert(s@.take(n as int).drop_last() =~= s@.take(n - 1));
        n = n - 1;
    }
    take_chars(s, n)
}

/// The first keyword of action group `g` that `t` starts with (when
/// `prefix_only`) or holds, with its position.
pub(crate) fn first_hit(t: &str, g: usize, prefix_only: bool) -> (r: Option<(usize, &'static str)>)
    requires
        g < 15,
    ensures
        match r {
            Some((k, kw)) => hit(t@, g as int, prefix_only) == Some(k as int) && 0 <= k < action_keywords(g as int).len()
                && kw@ == action_keywords(g as int)[k as int],
            None => hit(t@, g as int, prefix_only) is None,
        },
{
    let kws = action_keywords_of(g);
    let mut k: usize = 0;
    while k < kws.len()
        invariant
            g < 15,
            kws@.len() == action_keywords(g as int).len(),
            forall|q: int| 0 <= q < kws@.len() ==> #[trigger] kws@[q]@ == action_keywords(g as int)[q],
            k <= kws@.len(),
            hit(t@, g as int, prefix_only) == hit_from(t@, action_keywords(g as int), k as int, prefix_only),
        decreases kws.len() - k,
    {
        assert(kws@[k as int]@ == action_keywords(g as int)[k as int]);
        let m = if prefix_only { str_starts_with(t, kws[k]) } else { str_contains(t, kws[k]) };
        if m {
            return Some((k, kws[k]));
        }
        k = k + 1;
    }
    None
}

fn param(key: &str, value: &[char]) -> (p: IntentParameter)
    ensures
        p.key@ == key@,
        p.value@ == value@,
{
    IntentParameter { key: String::from_str(key), value: from_chars(value) }
}

fn params1(k: &str, v: &[char]) -> (r: Vec<IntentParameter>)
    ensures
        param_pairs(r@) == seq![(k@, v@)],
{
    let r = vec![param(k, v)];
    assert(param_pairs(r@) =~= seq![(k@, v@)]);
    r
}

fn params2(k1: &str, v1: &[char], k2: &str, v2: &[char]) -> (r: Vec<IntentParameter>)
    ensures
        param_pairs(r@) == seq![(k1@, v1@), (k2@, v2@)],
{
    let r = vec![param(k1, v1), param(k2, v2)];
    assert(param_pairs(r@) =~= seq![(k1@, v1@), (k2@, v2@)]);
    r
}

fn build(kind: IntentType, t: &[char], target: Option<Vec<char>>, params: Vec<IntentParameter>, percent: u32, why: &str) -> (r: ParsedIntent)
    ensures
        r@ == read(kind, t@, opt_chars(target), param_pairs(params@), percent, why@),
{
    let tgt = match target {
        Some(v) => Some(from_chars(v.as_slice())),
        None => None,
    };
    ParsedIntent {
        intent_type: kind,
        target: tgt,
        parameters: params,
        confidence_percent: percent,
        reasoning: String::from_str(why),
        original_text: from_chars(t),
    }
}

fn build_targeted(kind: IntentType, t: &[char], key: &str, value: Vec<char>, percent: u32, why: &str) -> (r: ParsedIntent)
    ensures
        r@ == targeted(kind, t@, key@, value@, percent, why@),
{
    let ps = params1(key, value.as_slice());
    build(kind, t, Some(value), ps, percent, why)
}

fn or_chars(a: Option<Vec<char>>, d: &str) -> (r: Vec<char>)
    ensures
        r@ == or_text(opt_chars(a), d@),
{
    match a {
        Some(x) => x,
        None => to_chars(d),
    }
}

fn either_chars(a: Option<Vec<char>>, b: Option<Vec<char>>) -> (r: Option<Vec<char>>)
    ensures
        opt_chars(r) == either(opt_chars(a), opt_chars(b)),
{
    match a {
        Some(x) => Some(x),
        None => b,
    }
}

fn subject_of(t: &[char], key: &str, fallback: &str) -> (r: Vec<char>)
    ensures
        r@ == subject(t@, key@, fallback@),
{
    let q = extract_quoted(t);
    let a = extract_action_target(t, key);
    or_chars(either_chars(q, a), fallback)
}

fn number_text(n: u32) -> (r: Vec<char>)
    ensures
        r@ == num_text(n),
{
    let s = u64_text(n as u64);
    to_chars(s.as_str())
}

fn value_params(n: u32) -> (r: Vec<IntentParameter>)
    ensures
        param_pairs(r@) == value_param(n),
{
    let v = number_text(n);
    params1("value", v.as_slice())
}

fn enabled_params(b: bool) -> (r: Vec<IntentParameter>)
    ensures
        param_pairs(r@) == enabled_param(b),
{
    let v = if b { to_chars("true") } else { to_chars("false") };
    params1("enabled", v.as_slice())
}

fn either_number(a: Option<u32>, b: Option<u32>) -> (r: Option<u32>)
    ensures
        r == either_num(a, b),
{
    match a {
        Some(n) => Some(n),
        None => b,
    }
}

fn device_intent(t: &str, tc: &[char]) -> (r: Option<ParsedIntent>)
    requires
        tc@ == t@,
    ensures
        opt_intent(r) == device_rule(t@),
{
    let why = "device control keyword match";
    let dc = IntentType::DeviceControl;
    if str_contains(t, "brightness") || str_contains(t, "dim") || str_contains(t, "dimmer") {
        let tgt = to_chars("brightness");
        if str_contains(t, "max") || str_contains(t, "full") {
            Some(build(dc, tc, Some(tgt), value_params(100), 95, why))
        } else if str_contains(t, "min") || str_contains(t, "lowest") {
            Some(build(dc, tc, Some(tgt), value_params(0), 95, why))
        } else {
            match either_number(extract_number(tc, "brightness"), extract_number(tc, "to")) {
                Some(n) => Some(build(dc, tc, Some(tgt), value_params(n), 95, why)),
                None => Some(build(dc, tc, Some(tgt), Vec::new(), 80, why)),
            }
        }
    } else if str_contains(t, "volume") || str_contains(t, "sound") {
        let tgt = to_chars("volume");
        if str_contains(t, "up") || str_contains(t, "increase") || str_contains(t, "higher") {
            let n = match extract_number(tc, "to") { Some(n) => n, None => 70 };
            Some(build(dc, tc, Some(tgt), value_params(if n < 100 { n } else { 100 }), 90, why))
        } else if str_contains(t, "down") || str_contains(t, "decrease") || str_contains(t, "lower") {
            let n = match extract_number(tc, "to") { Some(n) => n, None => 30 };
            Some(build(dc, tc, Some(tgt), value_params(if n < 100 { n } else { 100 }), 90, why))
        } else {
            match either_number(extract_number(tc, "volume"), extract_number(tc, "to")) {
                Some(n) => Some(build(dc, tc, Some(tgt), value_params(n), 95, why)),
                None => Some(build(dc, tc, Some(tgt), Vec::new(), 85, why)),
            }
        }
    } else if str_contains(t, "mute") {
        Some(build(dc, tc, Some(to_chars("volume")), value_params(0), 95, why))
    } else if str_contains(t, "wifi") || str_contains(t, "wi-fi") {
        let on = !str_contains(t, "off") && !str_contains(t, "disable");
        Some(build(dc, tc, Some(to_chars("wifi")), enabled_params(on), 90, why))
    } else if str_contains(t, "bluetooth") {
        let on = !str_contains(t, "off") && !str_contains(t, "disable");
        Some(build(dc, tc, Some(to_chars("bluetooth")), enabled_params(on), 90, why))
    } else if str_contains(t, "dnd") || str_contains(t, "do not disturb") {
        let on = !str_contains(t, "off") && !str_contains(t, "disable");
        Some(build(dc, tc, Some(to_chars("dnd")), enabled_params(on), 90, why))
    } else if str_contains(t, "lock") {
        Some(build(dc, tc, Some(to_chars("lock")), Vec::new(), 90, why))
    } else if str_contains(t, "power save") || str_contains(t, "power saving") {
        let on = !str_contains(t, "off") && !str_contains(t, "disable");
        Some(build(dc, tc, Some(to_chars("power_save")), enabled_params(on), 85, why))
    } else {
        None
    }
}

fn open_app_intent(t: &str, tc: &[char]) -> (r: Option<ParsedIntent>)
    requires
        tc@ == t@,
    ensures
        opt_intent(r) == open_app_rule(t@),
{
    match first_hit(t, 0, true) {
        Some((_, kw)) => {
            let app = or_chars(extract_action_target(tc, kw), "application");
            Some(build_targeted(IntentType::OpenApplication, tc, "application", app, 90, "open app keyword match"))
        },
        None => None,
    }
}

fn close_app_intent(t: &str, tc: &[char]) -> (r: Option<ParsedIntent>)
    requires
        tc@ == t@,
    ensures
        opt_intent(r) == close_app_rule(t@),
{
    match first_hit(t, 1, false) {
        Some((_, kw)) => {
            let app = or_chars(extract_action_target(tc, kw), "application");
            Some(build_targeted(IntentType::CloseApplication, tc, "application", app, 90, "close app keyword match"))
        },
        None => None,
    }
}

fn search_intent(t: &str, tc: &[char]) -> (r: Option<ParsedIntent>)
    requires
        tc@ == t@,
    ensures
        opt_intent(r) == search_rule(t@),
{
    match first_hit(t, 2, false) {
        Some((_, kw)) => {
            let q = subject_of(tc, kw, "search query");
            Some(build_targeted(IntentType::Search, tc, "query", q, 90, "search keyword match"))
        },
        None => None,
    }
}

fn navigate_intent(t: &str, tc: &[char]) -> (r: Option<ParsedIntent>)
    requires
        tc@ == t@,
    ensures
        opt_intent(r) == navigate_rule(t@),
{
    match first_hit(t, 3, false) {
        Some((_, kw)) => {
            let dest = or_chars(extract_action_target(tc, kw), "destination");
            let dot = to_chars(".");
            let space = to_chars(" ");
            let is_url = contains_chars(dest.as_slice(), dot.as_slice()) && !contains_chars(dest.as_slice(), space.as_slice());
            let key = if is_url { "url" } else { "destination" };
            Some(build_targeted(IntentType::Navigate, tc, key, dest, 85, "navigate keyword match"))
        },
        None => None,
    }
}

fn click_intent(t: &str, tc: &[char]) -> (r: Option<ParsedIntent>)
    requires
        tc@ == t@,
    ensures
        opt_intent(r) == click_rule(t@),
{
    match first_hit(t, 4, false) {
        Some((_, kw)) => {
            let x = subject_of(tc, kw, "element");
            Some(build_targeted(IntentType::Click, tc, "target", x, 85, "click keyword match"))
        },
        None => None,
    }
}

fn type_intent(t: &str, tc: &[char]) -> (r: Option<ParsedIntent>)
    requires
        tc@ == t@,
    ensures
        opt_intent(r) == type_rule(t@),
{
    match first_hit(t, 5, false) {
        Some((_, kw)) => {
            let x = subject_of(tc, kw, "text");
            Some(build_targeted(IntentType::Type, tc, "text", x, 85, "type keyword match"))
        },
        None => None,
    }
}

fn scroll_intent(t: &str, tc: &[char]) -> (r: Option<ParsedIntent>)
    requires
        tc@ == t@,
    ensures
        opt_intent(r) == scroll_rule(t@),
{
    match first_hit(t, 6, false) {
        Some(_) => {
            let dir = if str_contains(t, "up") {
                to_chars("up")
            } else if str_contains(t, "down") {
                to_chars("down")
            } else if str_contains(t, "to") {
                or_chars(either_chars(extract_action_target(tc, "scroll to"), extract_action_target(tc, "scroll")), "down")
            } else {
                to_chars("down")
            };
            let tgt = either_chars(extract_action_target(tc, "scroll to"), extract_action_target(tc, "to"));
            match tgt {
                Some(x) => {
                    let ps = params2("direction", dir.as_slice(), "target", x.as_slice());
                    Some(build(IntentType::Scroll, tc, Some(x), ps, 80, "scroll keyword match"))
                },
                None => {
                    let ps = params1("direction", dir.as_slice());
                    Some(build(IntentType::Scroll, tc, None, ps, 80, "scroll keyword match"))
                },
            }
        },
        None => None,
    }
}

fn drag_intent(t: &str, tc: &[char]) -> (r: Option<ParsedIntent>)
    requires
        tc@ == t@,
    ensures
        opt_intent(r) == drag_rule(t@),
{
    if !str_contains(t, "drag") {
        return None;
    }
    let why = "drag keyword match";
    match extract_after(tc, "from") {
        Some(ff) => {
            let sep = to_chars(" to ");
            proof {
                reveal_strlit(" to ");
            }
            match find_first(ff.as_slice(), sep.as_slice()) {
                Some(tp) => {
                    let fl = ff.len();
                    assert(fl == ff@.len() && tp + 4 <= ff@.len());
                    let head = take_chars(ff.as_slice(), tp);
                    let from_val = trim_chars(head.as_slice());
                    let tail = skip_chars(ff.as_slice(), tp + 4);
                    let tt = trim_chars(tail.as_slice());
                    let to_val = strip_end_marks_chars(tt.as_slice());
                    if to_val.len() > 0 {
                        let ps = params2("from", from_val.as_slice(), "to", to_val.as_slice());
                        Some(build(IntentType::Drag, tc, None, ps, 75, why))
                    } else {
                        let ps = params1("from", from_val.as_slice());
                        Some(build(IntentType::Drag, tc, None, ps, 75, why))
                    }
                },
                None => {
                    let ps = params1("from", ff.as_slice());
                    Some(build(IntentType::Drag, tc, None, ps, 75, why))
                },
            }
        },
        None => match extract_action_target(tc, "drag") {
            Some(x) => {
                let ps = params1("target", x.as_slice());
                Some(build(IntentType::Drag, tc, Some(x), ps, 75, why))
            },
            None => Some(build(IntentType::Drag, tc, None, Vec::new(), 75, why)),
        },
    }
}

fn swipe_intent(t: &str, tc: &[char]) -> (r: Option<ParsedIntent>)
    requires
        tc@ == t@,
    ensures
        opt_intent(r) == swipe_rule(t@),
{
    if !(str_contains(t, "swipe") || str_contains(t, "slide")) {
        return None;
    }
    let dir = if str_contains(t, "left") {
        to_chars("left")
    } else if str_contains(t, "right") {
        to_chars("right")
    } else if str_contains(t, "up") {
        to_chars("up")
    } else if str_contains(t, "down") {
        to_chars("down")
    } else {
        to_chars("right")
    };
    let ps = params1("direction", dir.as_slice());
    Some(build(IntentType::Swipe, tc, None, ps, 80, "swipe keyword match"))
}

fn wait_intent(t: &str, tc: &[char]) -> (r: Option<ParsedIntent>)
    requires
        tc@ == t@,
    ensures
        opt_intent(r) == wait_rule(t@),
{
    match first_hit(t, 9, false) {
        Some(_) => {
            let a = either_number(extract_number(tc, "for"), extract_number(tc, "wait"));
            let b = either_number(extract_number(tc, "seconds"), extract_number(tc, "sec"));
            let amount = match either_number(a, b) {
                Some(n) => n,
                None => 1,
            };
            let unit = if str_contains(t, "ms") || str_contains(t, "millisecond") {
                to_chars("ms")
            } else if str_contains(t, "min") || str_contains(t, "minute") {
                to_chars("minutes")
            } else {
                to_chars("seconds")
            };
            let d = number_text(amount);
            let mut label = copy_chars(d.as_slice());
            let mut i: usize = 0;
            while i < unit.len()
                invariant
                    i <= unit@.len(),
                    label@ == d@ + unit@.take(i as int),
                decreases unit.len() - i,
            {
                label.push(unit[i]);
                assert(unit@.take(i + 1) =~= unit@.take(i as int).push(unit@[i as int]));
                i = i + 1;
            }
            assert(unit@.take(unit@.len() as int) =~= unit@);
            let ps = params2("duration", d.as_slice(), "unit", unit.as_slice());
            Some(build(IntentType::Wait, tc, Some(label), ps, 85, "wait keyword match"))
        },
        None => None,
    }
}

fn speak_intent(t: &str, tc: &[char]) -> (r: Option<ParsedIntent>)
    requires
        tc@ == t@,
    ensures
        opt_intent(r) == speak_rule(t@),
{
    match first_hit(t, 10, false) {
        Some((_, kw)) => {
            let x = subject_of(tc, kw, "message");
            Some(build_targeted(IntentType::Speak, tc, "text", x, 85, "speak keyword match"))
        },
        None => None,
    }
}

fn engine_name(t: &str) -> (r: Vec<char>)
    ensures
        r@ == engine_of(t@),
{
    if str_contains(t, "google") {
        to_chars("google")
    } else if str_contains(t, "bing") {
        to_chars("bing")
    } else if str_contains(t, "youtube") {
        to_chars("youtube")
    } else if str_contains(t, "duckduckgo") {
        to_chars("duckduckgo")
    } else {
        to_chars("browser")
    }
}

fn browser_intent(t: &str, tc: &[char]) -> (r: Option<ParsedIntent>)
    requires
        tc@ == t@,
    ensures
        opt_intent(r) == browser_rule(t@),
{
    if str_contains(t, "search") && (str_contains(t, "on ") || str_contains(t, "using ")) {
        let q = subject_of(tc, "search", "query");
        let e = engine_name(t);
        let ps = params2("query", q.as_slice(), "engine", e.as_slice());
        return Some(build(IntentType::BrowserAction, tc, Some(q), ps, 85, "browser search keyword match"));
    }
    match first_hit(t, 12, false) {
        Some((_, kw)) => {
            let q = subject_of(tc, kw, "query");
            Some(build_targeted(IntentType::BrowserAction, tc, "query", q, 75, "browser keyword match"))
        },
        None => None,
    }
}

fn file_op_name(k: usize) -> (r: Vec<char>)
    ensures
        r@ == file_op(k as int),
{
    if k == 0 {
        to_chars("open")
    } else if k == 1 || k == 2 || k == 7 {
        to_chars("create")
    } else if k == 3 {
        to_chars("delete")
    } else if k == 4 {
        to_chars("rename")
    } else if k == 5 {
        to_chars("copy")
    } else if k == 6 {
        to_chars("move")
    } else {
        to_chars("open")
    }
}

fn file_intent(t: &str, tc: &[char]) -> (r: Option<ParsedIntent>)
    requires
        tc@ == t@,
    ensures
        opt_intent(r) == file_rule(t@),
{
    match first_hit(t, 13, false) {
        Some((k, kw)) => {
            let path = subject_of(tc, kw, "file");
            let op = file_op_name(k);
            let ps = params2("operation", op.as_slice(), "path", path.as_slice());
            Some(build(IntentType::FileAction, tc, Some(path), ps, 80, "file action keyword match"))
        },
        None => None,
    }
}

fn system_action_name(t: &str) -> (r: Vec<char>)
    ensures
        r@ == system_action_of(t@),
{
    if str_contains(t, "shutdown") || str_contains(t, "power off") {
        to_chars("shutdown")
    } else if str_contains(t, "restart") || str_contains(t, "reboot") {
        to_chars("restart")
    } else if str_contains(t, "sleep") {
        to_chars("sleep")
    } else if str_contains(t, "hibernate") {
        to_chars("hibernate")
    } else if str_contains(t, "log off") || str_contains(t, "sign out") || str_contains(t, "logout") {
        to_chars("logoff")
    } else {
        to_chars("shutdown")
    }
}

fn system_intent(t: &str, tc: &[char]) -> (r: Option<ParsedIntent>)
    requires
        tc@ == t@,
    ensures
        opt_intent(r) == system_rule(t@),
{
    match first_hit(t, 14, false) {
        Some(_) => {
            let a = system_action_name(t);
            Some(build_targeted(IntentType::SystemAction, tc, "action", a, 85, "system action keyword match"))
        },
        None => None,
    }
}

/// The intent of a single command, by the first rule that applies.
pub fn read_intent(t: &str) -> (r: Option<ParsedIntent>)
    ensures
        opt_intent(r) == single_rule(t@),
{
    let tc = to_chars(t);
    let c = tc.as_slice();
    let r = device_intent(t, c);
    if r.is_some() {
        return r;
    }
    let r = file_intent(t, c);
    if r.is_some() {
        return r;
    }
    let r = open_app_intent(t, c);
    if r.is_some() {
        return r;
    }
    let r = close_app_intent(t, c);
    if r.is_some() {
        return r;
    }
    let r = browser_intent(t, c);
    if r.is_some() {
        return r;
    }
    let r = search_intent(t, c);
    if r.is_some() {
        return r;
    }
    let r = navigate_intent(t, c);
    if r.is_some() {
        return r;
    }
    let r = click_intent(t, c);
    if r.is_some() {
        return r;
    }
    let r = type_intent(t, c);
    if r.is_some() {
        return r;
    }
    let r = scroll_intent(t, c);
    if r.is_some() {
        return r;
    }
    let r = drag_intent(t, c);
    if r.is_some() {
        return r;
    }
    let r = swipe_intent(t, c);
    if r.is_some() {
        return r;
    }
    let r = wait_intent(t, c);
    if r.is_some() {
        return r;
    }
    let r = speak_intent(t, c);
    if r.is_some() {
        return r;
    }
    system_intent(t, c)
}


/// How sure the device rule is of a command, when it applies.
pub fn read_device(t: &str) -> (r: Option<u32>)
    ensures
        match r {
            Some(p) => device_rule(t@) matches Some(v) && v.percent == p,
            None => device_rule(t@) is None,
        },
{
    let tc = to_chars(t);
    match device_intent(t, tc.as_slice()) {
        Some(i) => Some(i.confidence_percent),
        None => None,
    }
}


/// The system action of a command asking to log off — "log off", "sign out"
/// or "logout" — that names no shutdown, power-off, restart, reboot, sleep
/// or hibernation is "logoff".
pub proof fn law_log_off_is_logoff(t: Seq<char>)
    requires
        has_sub(t, "log off"@) || has_sub(t, "sign out"@) || has_sub(t, "logout"@),
        !has_sub(t, "shutdown"@),
        !has_sub(t, "power off"@),
        !has_sub(t, "restart"@),
        !has_sub(t, "reboot"@),
        !has_sub(t, "sleep"@),
        !has_sub(t, "hibernate"@),
    ensures
        system_action_of(t) == "logoff"@,
{
}

/// A system action is named in the command: "restart" only for a restart
/// or reboot, "sleep" and "hibernate" only when said, "logoff" only for a
/// log-off, and "shutdown" only for a shutdown or power-off, or when the
/// command names no other action.
pub proof fn law_system_action_is_named(t: Seq<char>)
    ensures
        system_action_of(t) == "restart"@ ==> has_sub(t, "restart"@) || has_sub(t, "reboot"@),
        system_action_of(t) == "sleep"@ ==> has_sub(t, "sleep"@),
        system_action_of(t) == "hibernate"@ ==> has_sub(t, "hibernate"@),
        system_action_of(t) == "logoff"@ ==> has_sub(t, "log off"@) || has_sub(t, "sign out"@) || has_sub(t, "logout"@),
        system_action_of(t) == "shutdown"@ ==> has_sub(t, "shutdown"@) || has_sub(t, "power off"@) || !(
            has_sub(t, "restart"@) || has_sub(t, "reboot"@) || has_sub(t, "sleep"@) || has_sub(t, "hibernate"@)
                || has_sub(t, "log off"@) || has_sub(t, "sign out"@) || has_sub(t, "logout"@)),
{
    reveal_strlit("shutdown");
    reveal_strlit("restart");
    reveal_strlit("sleep");
    reveal_strlit("hibernate");
    reveal_strlit("logoff");
    assert("shutdown"@.len() == 8 && "restart"@.len() == 7 && "sleep"@.len() == 5);
    assert("hibernate"@.len() == 9 && "logoff"@.len() == 6);
}

} // verus!
