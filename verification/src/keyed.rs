//! String-keyed values held as a list of pairs, read as a map in which a
//! later pair for a key shadows an earlier one.
use vstd::prelude::*;

verus! {

/// The map that a list of pairs stands for: the last pair for a key wins.
pub open spec fn pair_map(s: Seq<(String, String)>) -> Map<Seq<char>, Seq<char>>
    decreases s.len(),
{
    if s.len() == 0 {
        Map::empty()
    } else {
        pair_map(s.drop_last()).insert(s.last().0@, s.last().1@)
    }
}

/// No key occurs twice.
pub open spec fn unique_keys(s: Seq<(String, String)>) -> bool {
    forall|i: int, j: int| 0 <= i < j < s.len() ==> s[i].0@ != s[j].0@
}

/// The keys of the map are the keys of the pairs.
pub proof fn lemma_pair_map_keys(s: Seq<(String, String)>, k: Seq<char>)
    ensures
        pair_map(s).contains_key(k) <==> exists|i: int| 0 <= i < s.len() && s[i].0@ == k,
    decreases s.len(),
{
    if s.len() > 0 {
        lemma_pair_map_keys(s.drop_last(), k);
        if pair_map(s).contains_key(k) && s.last().0@ != k {
            let i = choose|i: int| 0 <= i < s.len() - 1 && s.drop_last()[i].0@ == k;
            assert(s[i].0@ == k);
        }
        if exists|i: int| 0 <= i < s.len() && s[i].0@ == k {
            let i = choose|i: int| 0 <= i < s.len() && s[i].0@ == k;
            if i < s.len() - 1 {
                assert(s.drop_last()[i].0@ == k);
            }
        }
    }
}

/// Overwriting the last pair for a key sets that key in the map.
proof fn lemma_update_last(s: Seq<(String, String)>, i: int, p: (String, String))
    requires
        0 <= i < s.len(),
        s[i].0@ == p.0@,
        forall|j: int| i < j < s.len() ==> s[j].0@ != p.0@,
    ensures
        pair_map(s.update(i, p)) == pair_map(s).insert(p.0@, p.1@),
    decreases s.len(),
{
    let u = s.update(i, p);
    if i == s.len() - 1 {
        assert(u.drop_last() =~= s.drop_last());
        assert(pair_map(u) =~= pair_map(s).insert(p.0@, p.1@));
    } else {
        assert(u.drop_last() =~= s.drop_last().update(i, p));
        lemma_update_last(s.drop_last(), i, p);
        assert(pair_map(u) =~= pair_map(s).insert(p.0@, p.1@));
    }
}

/// Set `key` to `value`: the pair for `key` is overwritten in place, or a new
/// pair is appended when there is none.
pub fn put_pair(v: &mut Vec<(String, String)>, key: String, value: String)
    ensures
        pair_map(final(v)@) == pair_map(old(v)@).insert(key@, value@),
        unique_keys(old(v)@) ==> unique_keys(final(v)@),
        final(v)@.len() == old(v)@.len() + (if pair_map(old(v)@).contains_key(key@) { 0int } else { 1int }),
        (exists|i: int| 0 <= i < old(v)@.len() && old(v)@[i].0@ == key@) ==> final(v)@.len() == old(v)@.len(),
{
    let n = v.len();
    let mut i = n;
    while i > 0
        invariant
            i <= n,
            n == v.len(),
            *v == *old(v),
            forall|j: int| i <= j < n ==> v@[j].0@ != key@,
        decreases i,
    {
        let same = crate::text::str_eq(v[i - 1].0.as_str(), key.as_str());
        if same {
            proof {
                lemma_update_last(v@, (i - 1) as int, (key, value));
                lemma_pair_map_keys(v@, key@);
            }
            v.set(i - 1, (key, value));
            proof {
                assert forall|a: int, b: int| 0 <= a < b < final(v)@.len() && unique_keys(old(v)@)
                    implies final(v)@[a].0@ != final(v)@[b].0@ by {
                    assert(old(v)@[a].0@ != old(v)@[b].0@);
                }
            }
            return;
        }
        i = i - 1;
    }
    proof {
        lemma_pair_map_keys(v@, key@);
        assert(v@.push((key, value)).drop_last() =~= v@);
    }
    v.push((key, value));
}

/// The value of `key`, read as the map does: from the last pair for it.
pub fn get_pair<'a>(v: &'a [(String, String)], key: &str) -> (r: Option<&'a String>)
    ensures
        match r {
            Some(x) => pair_map(v@).contains_key(key@) && pair_map(v@)[key@] == x@,
            None => !pair_map(v@).contains_key(key@),
        },
{
    let n = v.len();
    let mut i = n;
    proof {
        assert(v@.take(n as int) =~= v@);
    }
    while i > 0
        invariant
            i <= n,
            n == v.len(),
            pair_map(v@).contains_key(key@) == pair_map(v@.take(i as int)).contains_key(key@),
            pair_map(v@).contains_key(key@) ==> pair_map(v@)[key@] == pair_map(v@.take(i as int))[key@],
        decreases i,
    {
        proof {
            let t = v@.take(i as int);
            assert(t.drop_last() =~= v@.take(i - 1));
        }
        if crate::text::str_eq(v[i - 1].0.as_str(), key) {
            return Some(&v[i - 1].1);
        }
        i = i - 1;
    }
    None
}

/// What a list of strings reads.
pub open spec fn string_views(s: Seq<String>) -> Seq<Seq<char>> {
    s.map_values(|x: String| x@)
}

/// Some id in the list reads `id`.
pub open spec fn id_listed(ids: Seq<String>, id: Seq<char>) -> bool {
    exists|k: int| 0 <= k < ids.len() && ids[k]@ == id
}

/// Whether `id` is in the list.
pub fn listed(ids: &[String], id: &str) -> (r: bool)
    ensures
        r == id_listed(ids@, id@),
{
    let n = ids.len();
    let mut k: usize = 0;
    while k < n
        invariant
            n == ids@.len(),
            k <= n,
            forall|q: int| 0 <= q < k ==> ids@[q]@ != id@,
        decreases n - k,
    {
        if crate::text::str_eq(ids[k].as_str(), id) {
            return true;
        }
        k = k + 1;
    }
    false
}

} // verus!
