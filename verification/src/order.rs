//! Lexicographic order of strings (as `String`'s `Ord` compares them: UTF-8
//! byte order, which is code-point order) and the stable sorts built on it.

use vstd::prelude::*;

use crate::text::{chars_of, lowercase, to_lowercase};
use crate::types::AppInfo;

verus! {

broadcast use vstd::seq_lib::group_to_multiset_ensures;

/// `a` sorts strictly before `b`.
pub open spec fn lex_lt(a: Seq<char>, b: Seq<char>) -> bool
    decreases a.len(),
{
    if a.len() == 0 {
        b.len() > 0
    } else if b.len() == 0 {
        false
    } else if a[0] != b[0] {
        a[0] < b[0]
    } else {
        lex_lt(a.drop_first(), b.drop_first())
    }
}

/// `a` sorts before or equal to `b`.
pub open spec fn lex_le(a: Seq<char>, b: Seq<char>) -> bool {
    a == b || lex_lt(a, b)
}

/// `lex_lt` is irreflexive.
pub proof fn lemma_lex_lt_irreflexive(a: Seq<char>)
    ensures
        !lex_lt(a, a),
    decreases a.len(),
{
    if a.len() > 0 {
        lemma_lex_lt_irreflexive(a.drop_first());
    }
}

/// `lex_lt` is transitive.
pub proof fn lemma_lex_lt_transitive(a: Seq<char>, b: Seq<char>, c: Seq<char>)
    requires
        lex_lt(a, b),
        lex_lt(b, c),
    ensures
        lex_lt(a, c),
    decreases a.len(),
{
    if a.len() > 0 && b.len() > 0 && c.len() > 0 {
        if a[0] == b[0] && b[0] == c[0] {
            lemma_lex_lt_transitive(a.drop_first(), b.drop_first(), c.drop_first());
        }
    }
}

/// Exactly one of `a < b`, `a == b`, `b < a`.
pub proof fn lemma_lex_total(a: Seq<char>, b: Seq<char>)
    ensures
        lex_lt(a, b) || a == b || lex_lt(b, a),
        !(lex_lt(a, b) && lex_lt(b, a)),
    decreases a.len(),
{
    if a.len() == 0 {
        if b.len() == 0 {
            assert(a =~= b);
        }
    } else if b.len() > 0 {
        if a[0] == b[0] {
            lemma_lex_total(a.drop_first(), b.drop_first());
            if a.drop_first() == b.drop_first() {
                assert forall|i: int| 0 <= i < a.len() implies a[i] == b[i] by {
                    if i > 0 {
                        assert(a[i] == a.drop_first()[i - 1]);
                        assert(b[i] == b.drop_first()[i - 1]);
                    }
                }
                assert(a =~= b);
            }
        }
    }
}

/// `lex_le` is transitive.
pub proof fn lemma_lex_le_transitive(a: Seq<char>, b: Seq<char>, c: Seq<char>)
    requires
        lex_le(a, b),
        lex_le(b, c),
    ensures
        lex_le(a, c),
{
    if a != b && b != c {
        lemma_lex_lt_transitive(a, b, c);
    }
}

/// Does `a` sort strictly before `b`?
pub fn lex_less(a: &Vec<char>, b: &Vec<char>) -> (r: bool)
    ensures
        r == lex_lt(a@, b@),
{
    let mut i: usize = 0;
    assert(a@.skip(0) =~= a@ && b@.skip(0) =~= b@);
    while i < a.len() && i < b.len() && a[i] == b[i]
        invariant
            i <= a.len(),
            i <= b.len(),
            forall|j: int| 0 <= j < i ==> a@[j] == b@[j],
            lex_lt(a@, b@) == lex_lt(a@.skip(i as int), b@.skip(i as int)),
        decreases a.len() - i,
    {
        proof {
            let sa = a@.skip(i as int);
            let sb = b@.skip(i as int);
            assert(sa.drop_first() =~= a@.skip(i + 1));
            assert(sb.drop_first() =~= b@.skip(i + 1));
        }
        i = i + 1;
    }
    let ghost sa = a@.skip(i as int);
    let ghost sb = b@.skip(i as int);
    if i == a.len() {
        assert(sa.len() == 0);
        i < b.len()
    } else if i == b.len() {
        assert(sb.len() == 0 && sa.len() > 0);
        false
    } else {
        assert(sa.len() > 0 && sb.len() > 0 && sa[0] != sb[0]);
        assert(sa[0] == a@[i as int] && sb[0] == b@[i as int]);
        a[i] < b[i]
    }
}

/// Every earlier element sorts before or equal to every later one.
pub open spec fn sorted_by(keys: Seq<Seq<char>>) -> bool {
    forall|i: int, j: int| 0 <= i < j < keys.len() ==> lex_le(#[trigger] keys[i], #[trigger] keys[j])
}

/// The views of a list of strings.
pub open spec fn key_views(v: Seq<String>) -> Seq<Seq<char>> {
    v.map_values(|s: String| s@)
}

/// Sort strings in ascending order (`slice::sort` on `String`s).
pub fn sort_strings(v: Vec<String>) -> (r: Vec<String>)
    ensures
        r@.to_multiset() == v@.to_multiset(),
        sorted_by(key_views(r@)),
{
    let mut out: Vec<String> = Vec::new();
    let mut keys: Vec<Vec<char>> = Vec::new();
    let mut rest = v;
    let ghost orig = rest@;
    // Work from the back so elements are moved out without copying.
    while rest.len() > 0
        invariant
            out@.len() == keys@.len(),
            forall|k: int| 0 <= k < keys@.len() ==> #[trigger] keys@[k]@ == out@[k]@,
            sorted_by(key_views(out@)),
            out@.to_multiset().add(rest@.to_multiset()) == orig.to_multiset(),
        decreases rest.len(),
    {
        let ghost rest0 = rest@;
        let s = rest.pop().unwrap();
        proof {
            assert(rest0 =~= rest@.push(s));
        }
        let kv = chars_of(s.as_str());
        // position: after every key <= kv
        let mut pos: usize = 0;
        while pos < keys.len() && !lex_less(&kv, &keys[pos])
            invariant
                pos <= keys@.len(),
                out@.len() == keys@.len(),
                forall|k: int| 0 <= k < keys@.len() ==> #[trigger] keys@[k]@ == out@[k]@,
                sorted_by(key_views(out@)),
                forall|k: int| 0 <= k < pos ==> !lex_lt(kv@, #[trigger] keys@[k]@),
            decreases keys@.len() - pos,
        {
            pos = pos + 1;
        }
        let ghost old_out = out@;
        proof {
            assert forall|k: int| 0 <= k < pos implies lex_le(#[trigger] old_out[k]@, kv@) by {
                lemma_lex_total(kv@, keys@[k]@);
            }
            assert forall|k: int| pos <= k < old_out.len() implies lex_lt(kv@, #[trigger] old_out[k]@) by {
                if k > pos {
                    assert(key_views(old_out)[pos as int] == keys@[pos as int]@);
                    assert(key_views(old_out)[k] == keys@[k]@);
                    assert(lex_le(keys@[pos as int]@, keys@[k]@));
                    assert(lex_lt(kv@, keys@[pos as int]@));
                    if keys@[pos as int]@ != keys@[k]@ {
                        lemma_lex_lt_transitive(kv@, keys@[pos as int]@, keys@[k]@);
                    }
                } else {
                    assert(lex_lt(kv@, keys@[pos as int]@));
                }
            }
        }
        keys.insert(pos, kv);
        out.insert(pos, s);
        proof {
            let no = out@;
            assert(no =~= old_out.insert(pos as int, s));
            assert forall|k: int| 0 <= k < keys@.len() implies #[trigger] keys@[k]@ == out@[k]@ by {
                if k < pos {
                } else if k > pos {
                    assert(out@[k] == old_out[k - 1]);
                }
            }
            assert forall|i: int, j: int| 0 <= i < j < no.len() implies lex_le(#[trigger] key_views(no)[i], #[trigger] key_views(no)[j]) by {
                let ki = key_views(no)[i];
                let kj = key_views(no)[j];
                if j < pos {
                    assert(ki == key_views(old_out)[i] && kj == key_views(old_out)[j]);
                } else if j == pos {
                    assert(ki == old_out[i]@);
                } else if i < pos {
                    assert(ki == old_out[i]@);
                    assert(kj == old_out[j - 1]@);
                    assert(lex_le(old_out[i]@, s@));
                    assert(lex_lt(s@, old_out[j - 1]@));
                    lemma_lex_le_transitive(ki, s@, kj);
                } else if i == pos {
                    assert(kj == old_out[j - 1]@);
                } else {
                    assert(ki == key_views(old_out)[i - 1] && kj == key_views(old_out)[j - 1]);
                }
            }
            vstd::seq_lib::to_multiset_insert(old_out, pos as int, s);
            assert(rest0.to_multiset() == rest@.to_multiset().insert(s));
        }
    }
    out
}

/// Sort key of an application row: its lowercased name.
pub open spec fn app_key(a: AppInfo) -> Seq<char> {
    lowercase(a.name@)
}

/// Sort application rows by lowercased name, keeping the order of rows with
/// equal keys (`sort_by_key` is stable).
pub fn sort_apps(apps: Vec<AppInfo>) -> (r: Vec<AppInfo>)
    ensures
        r@.to_multiset() == apps@.to_multiset(),
        forall|i: int, j: int| 0 <= i < j < r@.len() ==> lex_le(#[trigger] app_key(r@[i]), #[trigger] app_key(r@[j])),
{
    let mut out: Vec<AppInfo> = Vec::new();
    let mut keys: Vec<Vec<char>> = Vec::new();
    let mut rest: Vec<AppInfo> = Vec::new();
    let ghost orig = apps@;
    // reverse so that popping yields the rows in the order they were given
    let mut src = apps;
    while src.len() > 0
        invariant
            rest@.to_multiset().add(src@.to_multiset()) == orig.to_multiset(),
        decreases src.len(),
    {
        let ghost s0 = src@;
        let a = src.pop().unwrap();
        proof {
            assert(s0 =~= src@.push(a));
        }
        let ghost r0 = rest@;
        rest.push(a);
        proof {
            assert(rest@ =~= r0.push(a));
        }
    }
    while rest.len() > 0
        invariant
            out@.len() == keys@.len(),
            forall|k: int| 0 <= k < keys@.len() ==> #[trigger] keys@[k]@ == app_key(out@[k]),
            forall|i: int, j: int| 0 <= i < j < out@.len() ==> lex_le(#[trigger] app_key(out@[i]), #[trigger] app_key(out@[j])),
            out@.to_multiset().add(rest@.to_multiset()) == orig.to_multiset(),
        decreases rest.len(),
    {
        let ghost rest0 = rest@;
        let a = rest.pop().unwrap();
        proof {
            assert(rest0 =~= rest@.push(a));
        }
        let lk = to_lowercase(a.name.as_str());
        let kv = chars_of(lk.as_str());
        let mut pos: usize = 0;
        while pos < keys.len() && !lex_less(&kv, &keys[pos])
            invariant
                pos <= keys@.len(),
                out@.len() == keys@.len(),
                forall|k: int| 0 <= k < keys@.len() ==> #[trigger] keys@[k]@ == app_key(out@[k]),
                forall|i: int, j: int| 0 <= i < j < out@.len() ==> lex_le(#[trigger] app_key(out@[i]), #[trigger] app_key(out@[j])),
                forall|k: int| 0 <= k < pos ==> !lex_lt(kv@, #[trigger] keys@[k]@),
            decreases keys@.len() - pos,
        {
            pos = pos + 1;
        }
        let ghost old_out = out@;
        proof {
            assert forall|k: int| 0 <= k < pos implies lex_le(app_key(#[trigger] old_out[k]), kv@) by {
                lemma_lex_total(kv@, keys@[k]@);
            }
            assert forall|k: int| pos <= k < old_out.len() implies lex_lt(kv@, app_key(#[trigger] old_out[k])) by {
                if k > pos {
                    assert(lex_le(app_key(old_out[pos as int]), app_key(old_out[k])));
                    assert(lex_lt(kv@, keys@[pos as int]@));
                    if app_key(old_out[pos as int]) != app_key(old_out[k]) {
                        lemma_lex_lt_transitive(kv@, app_key(old_out[pos as int]), app_key(old_out[k]));
                    }
                } else {
                    assert(lex_lt(kv@, keys@[pos as int]@));
                }
            }
        }
        keys.insert(pos, kv);
        out.insert(pos, a);
        proof {
            let no = out@;
            assert(no =~= old_out.insert(pos as int, a));
            assert forall|k: int| 0 <= k < keys@.len() implies #[trigger] keys@[k]@ == app_key(out@[k]) by {
                if k < pos {
                } else if k > pos {
                    assert(out@[k] == old_out[k - 1]);
                }
            }
            assert forall|i: int, j: int| 0 <= i < j < no.len() implies lex_le(#[trigger] app_key(no[i]), #[trigger] app_key(no[j])) by {
                if j < pos {
                    assert(no[i] == old_out[i] && no[j] == old_out[j]);
                } else if j == pos {
                    assert(no[i] == old_out[i]);
                } else if i < pos {
                    assert(no[i] == old_out[i]);
                    assert(no[j] == old_out[j - 1]);
                    lemma_lex_le_transitive(app_key(no[i]), kv@, app_key(no[j]));
                } else if i == pos {
                    assert(no[j] == old_out[j - 1]);
                } else {
                    assert(no[i] == old_out[i - 1] && no[j] == old_out[j - 1]);
                }
            }
            vstd::seq_lib::to_multiset_insert(old_out, pos as int, a);
        }
    }
    out
}

// ── maps ordered by string key (the shape of a `BTreeMap<String, _>`) ──

/// Keys strictly increase along the entries (so none occurs twice).
pub open spec fn keys_ordered<V>(m: Seq<(String, V)>) -> bool {
    forall|i: int, j: int| 0 <= i < j < m.len() ==> lex_lt(#[trigger] m[i].0@, #[trigger] m[j].0@)
}

/// Some entry has key `k`.
pub open spec fn has_key<V>(m: Seq<(String, V)>, k: Seq<char>) -> bool {
    exists|i: int| 0 <= i < m.len() && #[trigger] m[i].0@ == k
}

/// Where key `k` is or would go in an ordered map: the first position whose
/// key does not sort before `k`, and whether that key is `k`.
pub fn locate<V>(m: &Vec<(String, V)>, k: &Vec<char>) -> (r: (usize, bool))
    requires
        keys_ordered(m@),
    ensures
        r.0 <= m@.len(),
        forall|i: int| 0 <= i < r.0 ==> lex_lt(#[trigger] m@[i].0@, k@),
        r.1 == (r.0 < m@.len() && m@[r.0 as int].0@ == k@),
        !r.1 && r.0 < m@.len() ==> lex_lt(k@, m@[r.0 as int].0@),
        r.1 == has_key(m@, k@),
{
    let mut pos: usize = 0;
    while pos < m.len() && lex_less(&chars_of(m[pos].0.as_str()), k)
        invariant
            pos <= m@.len(),
            forall|i: int| 0 <= i < pos ==> lex_lt(#[trigger] m@[i].0@, k@),
        decreases m@.len() - pos,
    {
        pos = pos + 1;
    }
    let found = pos < m.len() && crate::text::eq_chars(&chars_of(m[pos].0.as_str()), k);
    proof {
        if pos < m@.len() {
            lemma_lex_total(m@[pos as int].0@, k@);
        }
        if !found {
            assert forall|i: int| 0 <= i < m@.len() implies #[trigger] m@[i].0@ != k@ by {
                if i < pos {
                    lemma_lex_lt_irreflexive(k@);
                } else if i > pos {
                    lemma_lex_lt_transitive(k@, m@[pos as int].0@, m@[i].0@);
                    lemma_lex_lt_irreflexive(k@);
                }
            }
        } else {
            assert(m@[pos as int].0@ == k@);
        }
    }
    (pos, found)
}

/// How many entries of `keys` equal `k`.
pub open spec fn count_of(keys: Seq<Seq<char>>, k: Seq<char>) -> nat
    decreases keys.len(),
{
    if keys.len() == 0 {
        0
    } else {
        count_of(keys.drop_last(), k) + if keys.last() == k { 1nat } else { 0nat }
    }
}

proof fn lemma_count_bound(keys: Seq<Seq<char>>, k: Seq<char>)
    ensures
        count_of(keys, k) <= keys.len(),
    decreases keys.len(),
{
    if keys.len() > 0 {
        lemma_count_bound(keys.drop_last(), k);
    }
}

/// Sum of the counts of a counting map.
pub open spec fn count_total(m: Seq<(String, u32)>) -> int
    decreases m.len(),
{
    if m.len() == 0 {
        0
    } else {
        count_total(m.drop_last()) + m.last().1
    }
}

proof fn lemma_count_total_update(m: Seq<(String, u32)>, p: int, x: (String, u32))
    requires
        0 <= p < m.len(),
    ensures
        count_total(m.update(p, x)) == count_total(m) - m[p].1 + x.1,
    decreases m.len(),
{
    let u = m.update(p, x);
    if p == m.len() - 1 {
        assert(u.drop_last() =~= m.drop_last());
    } else {
        assert(u.drop_last() =~= m.drop_last().update(p, x));
        lemma_count_total_update(m.drop_last(), p, x);
    }
}

proof fn lemma_count_total_insert(m: Seq<(String, u32)>, p: int, x: (String, u32))
    requires
        0 <= p <= m.len(),
    ensures
        count_total(m.insert(p, x)) == count_total(m) + x.1,
    decreases m.len(),
{
    let u = m.insert(p, x);
    if p == m.len() {
        assert(u.drop_last() =~= m);
    } else {
        assert(u.drop_last() =~= m.drop_last().insert(p, x));
        lemma_count_total_insert(m.drop_last(), p, x);
    }
}

/// Count the occurrences of each key: one entry per distinct key, ordered by
/// key, carrying the number of times it occurs (`BTreeMap` counting with
/// `*entry(k).or_insert(0) += 1`).
pub fn count_keys(keys: &Vec<String>) -> (r: Vec<(String, u32)>)
    requires
        keys@.len() <= u32::MAX,
    ensures
        keys_ordered(r@),
        forall|i: int| 0 <= i < r@.len() ==> #[trigger] r@[i].1 == count_of(crate::text::views(keys@), r@[i].0@),
        forall|k: Seq<char>| has_key(r@, k) <==> count_of(crate::text::views(keys@), k) > 0,
        count_total(r@) == keys@.len(),
{
    let ghost all = crate::text::views(keys@);
    let mut r: Vec<(String, u32)> = Vec::new();
    let mut n: usize = 0;
    while n < keys.len()
        invariant
            n <= keys@.len(),
            keys@.len() <= u32::MAX,
            all == crate::text::views(keys@),
            keys_ordered(r@),
            forall|i: int| 0 <= i < r@.len() ==> #[trigger] r@[i].1 == count_of(all.take(n as int), r@[i].0@),
            forall|k: Seq<char>| has_key(r@, k) <==> count_of(all.take(n as int), k) > 0,
            count_total(r@) == n,
        decreases keys.len() - n,
    {
        let ghost pre = all.take(n as int);
        let ghost nxt = all.take(n + 1);
        let ghost r0 = r@;
        assert(nxt.drop_last() =~= pre);
        let kk = chars_of(keys[n].as_str());
        assert(nxt.last() == kk@);
        assert forall|k: Seq<char>| #[trigger] count_of(nxt, k) == count_of(pre, k) + if k == kk@ { 1nat } else { 0nat } by {}
        let (pos, found) = locate(&r, &kk);
        if found {
            let c = r[pos].1;
            proof {
                lemma_count_bound(pre, kk@);
                assert(c == count_of(pre, kk@));
            }
            let key = r[pos].0.clone();
            r.set(pos, (key, c + 1));
            proof {
                lemma_count_total_update(r0, pos as int, r@[pos as int]);
                assert(r@ =~= r0.update(pos as int, r@[pos as int]));
                assert forall|i: int, j: int| 0 <= i < j < r@.len() implies lex_lt(#[trigger] r@[i].0@, #[trigger] r@[j].0@) by {
                    assert(r@[i].0@ == r0[i].0@ && r@[j].0@ == r0[j].0@);
                }
                assert forall|i: int| 0 <= i < r@.len() implies #[trigger] r@[i].1 == count_of(nxt, r@[i].0@) by {
                    if i != pos {
                        assert(r@[i] == r0[i]);
                        if r0[i].0@ == kk@ {
                            if i < pos {
                                lemma_lex_lt_irreflexive(kk@);
                            } else {
                                lemma_lex_lt_irreflexive(kk@);
                            }
                        }
                    }
                }
                assert forall|k: Seq<char>| has_key(r@, k) <==> count_of(nxt, k) > 0 by {
                    if has_key(r@, k) {
                        let i = choose|i: int| 0 <= i < r@.len() && #[trigger] r@[i].0@ == k;
                        assert(r0[i].0@ == k);
                    }
                    if has_key(r0, k) {
                        let i = choose|i: int| 0 <= i < r0.len() && #[trigger] r0[i].0@ == k;
                        assert(r@[i].0@ == k);
                    }
                }
            }
        } else {
            let key = string_of_chars(&kk);
            r.insert(pos, (key, 1));
            proof {
                assert(r@ =~= r0.insert(pos as int, (key, 1u32)));
                lemma_count_total_insert(r0, pos as int, (key, 1u32));
                assert(!has_key(r0, kk@));
                assert(count_of(pre, kk@) == 0);
                assert forall|i: int, j: int| 0 <= i < j < r@.len() implies lex_lt(#[trigger] r@[i].0@, #[trigger] r@[j].0@) by {
                    if j < pos {
                        assert(r@[i] == r0[i] && r@[j] == r0[j]);
                    } else if j == pos {
                        assert(r@[i] == r0[i]);
                    } else if i < pos {
                        assert(r@[i] == r0[i] && r@[j] == r0[j - 1]);
                        if j - 1 > pos {
                            lemma_lex_lt_transitive(kk@, r0[pos as int].0@, r0[j - 1].0@);
                        }
                        lemma_lex_lt_transitive(r0[i].0@, kk@, r0[j - 1].0@);
                    } else if i == pos {
                        assert(r@[j] == r0[j - 1]);
                        if j - 1 > pos {
                            lemma_lex_lt_transitive(kk@, r0[pos as int].0@, r0[j - 1].0@);
                        }
                    } else {
                        assert(r@[i] == r0[i - 1] && r@[j] == r0[j - 1]);
                    }
                }
                assert forall|i: int| 0 <= i < r@.len() implies #[trigger] r@[i].1 == count_of(nxt, r@[i].0@) by {
                    if i < pos {
                        assert(r@[i] == r0[i]);
                        if r0[i].0@ == kk@ {
                            lemma_lex_lt_irreflexive(kk@);
                        }
                    } else if i > pos {
                        assert(r@[i] == r0[i - 1]);
                        if r0[i - 1].0@ == kk@ {
                            assert(has_key(r0, kk@));
                        }
                    }
                }
                assert forall|k: Seq<char>| has_key(r@, k) <==> count_of(nxt, k) > 0 by {
                    if has_key(r@, k) {
                        let i = choose|i: int| 0 <= i < r@.len() && #[trigger] r@[i].0@ == k;
                        if i < pos {
                            assert(r0[i].0@ == k);
                        } else if i > pos {
                            assert(r0[i - 1].0@ == k);
                        }
                    }
                    if has_key(r0, k) {
                        let i = choose|i: int| 0 <= i < r0.len() && #[trigger] r0[i].0@ == k;
                        if i < pos {
                            assert(r@[i].0@ == k);
                        } else {
                            assert(r@[i + 1].0@ == k);
                        }
                    }
                    if k == kk@ {
                        assert(r@[pos as int].0@ == k);
                    }
                }
            }
        }
        n = n + 1;
    }
    assert(all.take(keys@.len() as int) =~= all);
    r
}

/// A string holding the characters of `v`.
fn string_of_chars(v: &Vec<char>) -> (s: String)
    ensures
        s@ == v@,
{
    crate::text::string_of(v)
}

/// The value of the last entry with key `k`, if any.
pub open spec fn last_value(entries: Seq<(Seq<char>, bool)>, k: Seq<char>) -> Option<bool>
    decreases entries.len(),
{
    if entries.len() == 0 {
        None
    } else if entries.last().0 == k {
        Some(entries.last().1)
    } else {
        last_value(entries.drop_last(), k)
    }
}

/// Plain view of flag entries.
pub open spec fn flag_views(entries: Seq<(String, bool)>) -> Seq<(Seq<char>, bool)> {
    entries.map_values(|e: (String, bool)| (e.0@, e.1))
}

/// Collect flag entries into a map ordered by key where a later entry for a
/// key replaces an earlier one (`BTreeMap::insert` in order).
pub fn ordered_flags(entries: &Vec<(String, bool)>) -> (r: Vec<(String, bool)>)
    ensures
        keys_ordered(r@),
        forall|i: int| 0 <= i < r@.len() ==> last_value(flag_views(entries@), #[trigger] r@[i].0@) == Some(r@[i].1),
        forall|k: Seq<char>| has_key(r@, k) <==> last_value(flag_views(entries@), k) is Some,
{
    let ghost all = flag_views(entries@);
    let mut r: Vec<(String, bool)> = Vec::new();
    let mut n: usize = 0;
    while n < entries.len()
        invariant
            n <= entries@.len(),
            all == flag_views(entries@),
            keys_ordered(r@),
            forall|i: int| 0 <= i < r@.len() ==> last_value(all.take(n as int), #[trigger] r@[i].0@) == Some(r@[i].1),
            forall|k: Seq<char>| has_key(r@, k) <==> last_value(all.take(n as int), k) is Some,
        decreases entries.len() - n,
    {
        let ghost pre = all.take(n as int);
        let ghost nxt = all.take(n + 1);
        let ghost r0 = r@;
        assert(nxt.drop_last() =~= pre);
        let kk = chars_of(entries[n].0.as_str());
        let v = entries[n].1;
        assert(nxt.last() == (kk@, v));
        assert forall|k: Seq<char>| #[trigger] last_value(nxt, k) == if k == kk@ { Some(v) } else { last_value(pre, k) } by {}
        let (pos, found) = locate(&r, &kk);
        if found {
            let key = r[pos].0.clone();
            r.set(pos, (key, v));
            proof {
                assert forall|i: int, j: int| 0 <= i < j < r@.len() implies lex_lt(#[trigger] r@[i].0@, #[trigger] r@[j].0@) by {
                    assert(r@[i].0@ == r0[i].0@ && r@[j].0@ == r0[j].0@);
                }
                assert forall|i: int| 0 <= i < r@.len() implies last_value(nxt, #[trigger] r@[i].0@) == Some(r@[i].1) by {
                    if i != pos {
                        assert(r@[i] == r0[i]);
                        if r0[i].0@ == kk@ {
                            lemma_lex_lt_irreflexive(kk@);
                        }
                    }
                }
                assert forall|k: Seq<char>| has_key(r@, k) <==> last_value(nxt, k) is Some by {
                    if has_key(r@, k) {
                        let i = choose|i: int| 0 <= i < r@.len() && #[trigger] r@[i].0@ == k;
                        assert(r0[i].0@ == k);
                    }
                    if has_key(r0, k) {
                        let i = choose|i: int| 0 <= i < r0.len() && #[trigger] r0[i].0@ == k;
                        assert(r@[i].0@ == k);
                    }
                }
            }
        } else {
            let key = string_of_chars(&kk);
            r.insert(pos, (key, v));
            proof {
                assert(r@ =~= r0.insert(pos as int, (key, v)));
                assert(!has_key(r0, kk@));
                assert forall|i: int, j: int| 0 <= i < j < r@.len() implies lex_lt(#[trigger] r@[i].0@, #[trigger] r@[j].0@) by {
                    if j < pos {
                        assert(r@[i] == r0[i] && r@[j] == r0[j]);
                    } else if j == pos {
                        assert(r@[i] == r0[i]);
                    } else if i < pos {
                        assert(r@[i] == r0[i] && r@[j] == r0[j - 1]);
                        if j - 1 > pos {
                            lemma_lex_lt_transitive(kk@, r0[pos as int].0@, r0[j - 1].0@);
                        }
                        lemma_lex_lt_transitive(r0[i].0@, kk@, r0[j - 1].0@);
                    } else if i == pos {
                        assert(r@[j] == r0[j - 1]);
                        if j - 1 > pos {
                            lemma_lex_lt_transitive(kk@, r0[pos as int].0@, r0[j - 1].0@);
                        }
                    } else {
                        assert(r@[i] == r0[i - 1] && r@[j] == r0[j - 1]);
                    }
                }
                assert forall|i: int| 0 <= i < r@.len() implies last_value(nxt, #[trigger] r@[i].0@) == Some(r@[i].1) by {
                    if i < pos {
                        assert(r@[i] == r0[i]);
                        if r0[i].0@ == kk@ {
                            lemma_lex_lt_irreflexive(kk@);
                        }
                    } else if i > pos {
                        assert(r@[i] == r0[i - 1]);
                        if r0[i - 1].0@ == kk@ {
                            assert(has_key(r0, kk@));
                        }
                    }
                }
                assert forall|k: Seq<char>| has_key(r@, k) <==> last_value(nxt, k) is Some by {
                    if has_key(r@, k) {
                        let i = choose|i: int| 0 <= i < r@.len() && #[trigger] r@[i].0@ == k;
                        if i < pos {
                            assert(r0[i].0@ == k);
                        } else if i > pos {
                            assert(r0[i - 1].0@ == k);
                        }
                    }
                    if has_key(r0, k) {
                        let i = choose|i: int| 0 <= i < r0.len() && #[trigger] r0[i].0@ == k;
                        if i < pos {
                            assert(r@[i].0@ == k);
                        } else {
                            assert(r@[i + 1].0@ == k);
                        }
                    }
                    if k == kk@ {
                        assert(r@[pos as int].0@ == k);
                    }
                }
            }
        }
        n = n + 1;
    }
    assert(all.take(entries@.len() as int) =~= all);
    r
}

} // verus!
