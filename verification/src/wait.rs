//! Wait / poll helpers for multi-step agent workflows.
//!
//! The polling loops alternate a tree read with a sleep; the decisions live
//! here as step functions (state + observation → next state + action) and the
//! caller performs the reads and sleeps. All waits respect a hard timeout,
//! clamped to at most 120 s.

use vstd::prelude::*;

use crate::error::{message_of, HarnessError};
use crate::find::opt_text;
use crate::text::{decimal, owned, push_char, push_decimal, push_str, views};
use crate::types::{A11yNode, ElementHit, FindQuery, SnapshotOpts};
use crate::walk::SnapshotStats;

verus! {

/// Longest wait an agent may ask for.
pub const MAX_TIMEOUT_MS: u64 = 120_000;

/// Wait used when the agent gives none.
pub const DEFAULT_TIMEOUT_MS: u64 = 10_000;

/// Poll interval used when the agent gives none.
pub const DEFAULT_POLL_MS: u64 = 200;

/// `v` clamped into `[lo, hi]`.
pub open spec fn clamp(v: int, lo: int, hi: int) -> int {
    if v < lo {
        lo
    } else if v > hi {
        hi
    } else {
        v
    }
}

/// An optional value, or its default.
pub open spec fn or_default(v: Option<u64>, d: u64) -> int {
    match v {
        Some(x) => x as int,
        None => d as int,
    }
}

/// Timeout in force: the requested (or default 10 s) clamped to 1 ms ..= 120 s.
pub fn clamp_timeout(ms: Option<u64>) -> (r: u64)
    ensures
        r == clamp(or_default(ms, DEFAULT_TIMEOUT_MS), 1, MAX_TIMEOUT_MS as int),
{
    let v = match ms {
        Some(x) => x,
        None => DEFAULT_TIMEOUT_MS,
    };
    if v < 1 {
        1
    } else if v > MAX_TIMEOUT_MS {
        MAX_TIMEOUT_MS
    } else {
        v
    }
}

/// Poll interval in force: the requested (or default 200 ms) clamped to 50 ms ..= 5 s.
pub fn clamp_poll(ms: Option<u64>) -> (r: u64)
    ensures
        r == clamp(or_default(ms, DEFAULT_POLL_MS), 50, 5_000),
{
    let v = match ms {
        Some(x) => x,
        None => DEFAULT_POLL_MS,
    };
    if v < 50 {
        50
    } else if v > 5_000 {
        5_000
    } else {
        v
    }
}

/// Required stability window: the requested (or default 400 ms) clamped to 100 ms ..= 10 s.
pub fn clamp_stable(ms: Option<u64>) -> (r: u64)
    ensures
        r == clamp(or_default(ms, 400), 100, 10_000),
{
    let v = match ms {
        Some(x) => x,
        None => 400,
    };
    if v < 100 {
        100
    } else if v > 10_000 {
        10_000
    } else {
        v
    }
}

/// Result of a simple timed wait.
#[derive(Debug, Clone, PartialEq, Eq)]
pub struct WaitResult {
    pub ok: bool,
    pub waited_ms: u64,
    pub detail: String,
}

impl WaitResult {
    /// The result of sleeping `ms` milliseconds: ok, with `slept {ms}ms`.
    pub fn slept(ms: u64) -> (r: WaitResult)
        ensures
            r.ok,
            r.waited_ms == ms,
            r.detail@ == "slept "@ + decimal(ms as nat) + "ms"@,
    {
        let mut detail = owned("slept ");
        push_decimal(&mut detail, ms);
        push_str(&mut detail, "ms");
        WaitResult { ok: true, waited_ms: ms, detail }
    }
}

/// Result of waiting for an element.
#[derive(Debug, Clone, PartialEq)]
pub struct WaitForElementResult {
    pub ok: bool,
    pub waited_ms: u64,
    pub polls: u32,
    pub hit: Option<ElementHit>,
    pub detail: String,
}

/// Result of waiting for tree stability.
#[derive(Debug, Clone, PartialEq, Eq)]
pub struct WaitForStableResult {
    pub ok: bool,
    pub waited_ms: u64,
    pub polls: u32,
    /// Fingerprint of the last observed tree (role+name path count).
    pub fingerprint: String,
    pub detail: String,
}

// ── wait for an element ────────────────────────────────────────────────

/// State of a wait for an element.
pub struct ElementWait {
    /// Polls made so far.
    pub polls: u32,
    /// Timeout in force (ms).
    pub timeout_ms: u64,
    /// Sleep between polls (ms).
    pub poll_ms: u64,
    /// The query to poll with (`max_results` 0 replaced by 5).
    pub query: FindQuery,
}

/// What the caller does next in a wait.
pub enum WaitAction<T> {
    /// Stop with this result.
    Finish(T),
    /// Sleep this many milliseconds, then poll again.
    SleepThenPoll(u64),
}

/// Begin waiting for an element.
pub fn start_wait_for_element(query: FindQuery, timeout_ms: Option<u64>, poll_ms: Option<u64>) -> (s: ElementWait)
    ensures
        s.polls == 0,
        s.timeout_ms == clamp(or_default(timeout_ms, DEFAULT_TIMEOUT_MS), 1, MAX_TIMEOUT_MS as int),
        s.poll_ms == clamp(or_default(poll_ms, DEFAULT_POLL_MS), 50, 5_000),
        s.query.role == query.role,
        s.query.name == query.name,
        s.query.name_exact == query.name_exact,
        s.query.text == query.text,
        s.query.state == query.state,
        s.query.description == query.description,
        s.query.max_results == if query.max_results == 0 { 5 } else { query.max_results },
{
    let mut q = query;
    if q.max_results == 0 {
        q.max_results = 5;
    }
    ElementWait { polls: 0, timeout_ms: clamp_timeout(timeout_ms), poll_ms: clamp_poll(poll_ms), query: q }
}

/// Detail of a found element.
pub open spec fn found_detail(polls: nat) -> Seq<char> {
    "element found after "@ + decimal(polls) + " poll(s)"@
}

/// Detail of an element wait that timed out.
pub open spec fn element_timeout_detail(waited: nat, polls: nat) -> Seq<char> {
    "timeout after "@ + decimal(waited) + "ms ("@ + decimal(polls) + " polls) — element not found; re-snapshot"@
}

/// One poll of a wait for an element: `found` is what the search returned
/// and `elapsed_ms` the time since the wait began. Hits finish the wait; a
/// policy block is passed on; no hit (or any other error, e.g. the window
/// does not exist yet) polls again until the timeout.
pub fn wait_for_element_step(state: &mut ElementWait, found: Result<Vec<ElementHit>, HarnessError>, elapsed_ms: u64) -> (a: WaitAction<Result<WaitForElementResult, HarnessError>>)
    requires
        old(state).polls < u32::MAX,
    ensures
        final(state).polls == old(state).polls + 1,
        final(state).timeout_ms == old(state).timeout_ms,
        final(state).poll_ms == old(state).poll_ms,
        final(state).query == old(state).query,
        match found {
            Ok(hits) if hits@.len() > 0 => a matches WaitAction::Finish(Ok(r)) && r.ok && r.waited_ms
                == elapsed_ms && r.polls == final(state).polls && r.hit == Some(hits@[0]) && r.detail@
                == found_detail(final(state).polls as nat),
            Err(HarnessError::PolicyBlocked(m)) => a matches WaitAction::Finish(Err(HarnessError::PolicyBlocked(m2))) && m2 == m,
            _ => if elapsed_ms >= old(state).timeout_ms {
                a matches WaitAction::Finish(Ok(r)) && !r.ok && r.waited_ms == elapsed_ms && r.polls
                    == final(state).polls && r.hit is None && r.detail@ == element_timeout_detail(
                    elapsed_ms as nat,
                    final(state).polls as nat,
                )
            } else {
                a matches WaitAction::SleepThenPoll(ms) && ms == old(state).poll_ms
            },
        },
{
    state.polls = state.polls + 1;
    let polls = state.polls;
    match found {
        Ok(hits) => {
            if hits.len() > 0 {
                let mut hits = hits;
                let first = hits.swap_remove(0);
                let mut detail = owned("element found after ");
                push_decimal(&mut detail, polls as u64);
                push_str(&mut detail, " poll(s)");
                return WaitAction::Finish(
                    Ok(WaitForElementResult { ok: true, waited_ms: elapsed_ms, polls, hit: Some(first), detail }),
                );
            }
        },
        Err(HarnessError::PolicyBlocked(m)) => {
            return WaitAction::Finish(Err(HarnessError::PolicyBlocked(m)));
        },
        Err(_) => {},
    }
    if elapsed_ms >= state.timeout_ms {
        let mut detail = owned("timeout after ");
        push_decimal(&mut detail, elapsed_ms);
        push_str(&mut detail, "ms (");
        push_decimal(&mut detail, polls as u64);
        push_str(&mut detail, " polls) — element not found; re-snapshot");
        return WaitAction::Finish(
            Ok(WaitForElementResult { ok: false, waited_ms: elapsed_ms, polls, hit: None, detail }),
        );
    }
    WaitAction::SleepThenPoll(state.poll_ms)
}

/// Convert a failed wait into a hard error when the agent needs fail-fast.
pub fn require_element(result: WaitForElementResult) -> (r: Result<ElementHit, HarnessError>)
    ensures
        result.ok ==> match result.hit {
            Some(h) => r == Ok::<ElementHit, HarnessError>(h),
            None => r matches Err(HarnessError::Other(m)) && m@ == "ok but no hit"@,
        },
        !result.ok ==> (r matches Err(HarnessError::NotFound(m)) && m == result.detail),
{
    if result.ok {
        match result.hit {
            Some(h) => Ok(h),
            None => Err(HarnessError::Other(owned("ok but no hit"))),
        }
    } else {
        Err(HarnessError::NotFound(result.detail))
    }
}

// ── tree fingerprint ───────────────────────────────────────────────────

/// Fingerprint entry of one node: `{depth}:{role}:{name}`.
pub open spec fn fp_entry(node: A11yNode, depth: nat) -> Seq<char> {
    decimal(depth) + seq![':'] + node.role@ + seq![':'] + opt_text(node.name)
}

/// Fingerprint entries of a subtree in pre-order.
pub open spec fn fp_tree(node: A11yNode, depth: nat) -> Seq<Seq<char>>
    decreases node, 1int,
{
    seq![fp_entry(node, depth)] + fp_forest(node.children@, depth + 1)
}

/// Fingerprint entries of a forest, tree after tree.
pub open spec fn fp_forest(kids: Seq<A11yNode>, depth: nat) -> Seq<Seq<char>>
    decreases kids, 0int,
{
    if kids.len() == 0 {
        Seq::empty()
    } else {
        fp_tree(kids[0], depth) + fp_forest(kids.drop_first(), depth)
    }
}

/// At most the first `max` entries.
pub open spec fn take_at_most(s: Seq<Seq<char>>, max: int) -> Seq<Seq<char>> {
    if s.len() <= max {
        s
    } else {
        s.take(max)
    }
}

/// `parts` joined with `sep` between consecutive parts.
pub open spec fn join_with(parts: Seq<Seq<char>>, sep: Seq<char>) -> Seq<char>
    decreases parts.len(),
{
    if parts.len() == 0 {
        Seq::empty()
    } else if parts.len() == 1 {
        parts[0]
    } else {
        join_with(parts.drop_last(), sep) + sep + parts.last()
    }
}

/// How many entries a fingerprint keeps.
pub open spec fn fp_cap() -> int {
    64
}

/// Compact fingerprint of a tree: `n={nodes}|` then the first 64 pre-order
/// entries `{depth}:{role}:{name}` joined by `;`.
pub open spec fn fingerprint_of(tree: A11yNode, nodes: nat) -> Seq<char> {
    "n="@ + decimal(nodes) + seq!['|'] + join_with(take_at_most(fp_tree(tree, 0), fp_cap()), seq![';'])
}

proof fn lemma_fp_forest_concat(a: Seq<A11yNode>, b: Seq<A11yNode>, depth: nat)
    ensures
        fp_forest(a + b, depth) == fp_forest(a, depth) + fp_forest(b, depth),
    decreases a.len(),
{
    if a.len() == 0 {
        assert(a + b =~= b);
        assert(fp_forest(a + b, depth) =~= fp_forest(a, depth) + fp_forest(b, depth));
    } else {
        assert((a + b).drop_first() =~= a.drop_first() + b);
        assert((a + b)[0] == a[0]);
        lemma_fp_forest_concat(a.drop_first(), b, depth);
        assert(fp_forest(a + b, depth) =~= fp_forest(a, depth) + fp_forest(b, depth));
    }
}

proof fn lemma_fp_forest_single(t: A11yNode, depth: nat)
    ensures
        fp_forest(seq![t], depth) == fp_tree(t, depth),
{
    assert(seq![t].drop_first() =~= Seq::<A11yNode>::empty());
    assert(fp_forest(Seq::<A11yNode>::empty(), depth) =~= Seq::<Seq<char>>::empty());
    assert(fp_forest(seq![t], depth) =~= fp_tree(t, depth));
}

/// Capped append: `take_at_most(take_at_most(a + b) + c) == take_at_most(a + b + c)`.
proof fn lemma_cap_compose(a: Seq<Seq<char>>, b: Seq<Seq<char>>, max: int)
    requires
        a.len() <= max,
    ensures
        take_at_most(a + b, max) == take_at_most(a, max) + take_at_most(b, max - a.len()),
{
    if (a + b).len() <= max {
    } else {
        assert((a + b).take(max) =~= a + b.take(max - a.len()));
    }
}

/// Collects fingerprint entries of `node` (at `depth`) until `out` holds `max` entries.
fn walk_fp(node: &A11yNode, out: &mut Vec<String>, depth: u32, max: usize)
    requires
        old(out)@.len() <= max,
        depth <= old(out)@.len(),
        max <= 64,
    ensures
        views(final(out)@) == views(old(out)@) + take_at_most(
            fp_tree(*node, depth as nat),
            max - old(out)@.len(),
        ),
    decreases node,
{
    let ghost o0 = views(out@);
    if out.len() >= max {
        assert(take_at_most(fp_tree(*node, depth as nat), 0) =~= Seq::<Seq<char>>::empty());
        assert(views(out@) =~= o0 + Seq::<Seq<char>>::empty());
        return;
    }
    let mut e = String::new();
    push_decimal(&mut e, depth as u64);
    push_char(&mut e, ':');
    push_str(&mut e, node.role.as_str());
    push_char(&mut e, ':');
    match &node.name {
        Some(n) => push_str(&mut e, n.as_str()),
        None => {},
    }
    assert(e@ =~= fp_entry(*node, depth as nat));
    out.push(e);
    assert(views(out@) =~= o0.push(fp_entry(*node, depth as nat)));
    let ghost o1 = views(out@);
    let mut i: usize = 0;
    while i < node.children.len()
        invariant
            i <= node.children.len(),
            o1.len() <= max,
            o1 == o0.push(fp_entry(*node, depth as nat)),
            depth + 1 <= o1.len(),
            max <= 64,
            views(out@).len() <= max,
            views(out@) == o1 + take_at_most(
                fp_forest(node.children@.take(i as int), depth as nat + 1),
                max - o1.len(),
            ),
        decreases node.children.len() - i,
    {
        let ghost om = views(out@);
        let child = &node.children[i];
        assert(decreases_to!(node => node.children));
        walk_fp(child, out, depth + 1, max);
        proof {
            let a = node.children@.take(i as int);
            let b = seq![node.children@[i as int]];
            let d1 = depth as nat + 1;
            lemma_fp_forest_concat(a, b, d1);
            lemma_fp_forest_single(node.children@[i as int], d1);
            assert(node.children@.take(i + 1) =~= a + b);
            let fa = fp_forest(a, d1);
            let fb = fp_forest(b, d1);
            let room = max - o1.len();
            let ta = take_at_most(fa, room);
            if fa.len() <= room {
                lemma_cap_compose(fa, fb, room);
                assert(views(out@) =~= o1 + take_at_most(fa + fb, room));
            } else {
                assert(om.len() == max);
                assert(take_at_most(fb, max - om.len()) =~= Seq::<Seq<char>>::empty());
                assert(take_at_most(fa + fb, room) =~= take_at_most(fa, room));
                assert(views(out@) =~= o1 + take_at_most(fa + fb, room));
            }
        }
        i = i + 1;
    }
    proof {
        assert(node.children@.take(i as int) =~= node.children@);
        let f = fp_forest(node.children@, depth as nat + 1);
        let t = fp_tree(*node, depth as nat);
        assert(t == seq![fp_entry(*node, depth as nat)] + f);
        let room0 = max - o0.len();
        lemma_cap_compose(seq![fp_entry(*node, depth as nat)], f, room0);
        assert(views(out@) =~= o0 + take_at_most(t, room0));
    }
}

/// Joins strings with a separator.
pub(crate) fn join_strings(parts: &Vec<String>, sep: char) -> (r: String)
    ensures
        r@ == join_with(views(parts@), seq![sep]),
{
    let mut r = String::new();
    let mut i: usize = 0;
    while i < parts.len()
        invariant
            i <= parts.len(),
            r@ == join_with(views(parts@.take(i as int)), seq![sep]),
        decreases parts.len() - i,
    {
        let ghost pre = views(parts@.take(i as int));
        if i > 0 {
            push_char(&mut r, sep);
        }
        push_str(&mut r, parts[i].as_str());
        proof {
            let now = views(parts@.take(i + 1));
            assert(now =~= pre.push(parts@[i as int]@));
            assert(now.drop_last() =~= pre);
            if i == 0 {
                assert(r@ =~= join_with(now, seq![sep]));
            } else {
                assert(r@ =~= join_with(now, seq![sep]));
            }
        }
        i = i + 1;
    }
    assert(parts@.take(i as int) =~= parts@);
    r
}

/// Compact fingerprint for stability comparison: `n={nodes}|` then the first
/// 64 pre-order entries `{depth}:{role}:{name}` joined by `;`.
pub fn fingerprint_tree(tree: &A11yNode, nodes: u32) -> (r: String)
    ensures
        r@ == fingerprint_of(*tree, nodes as nat),
{
    let mut parts: Vec<String> = Vec::new();
    assert(views(parts@) =~= Seq::<Seq<char>>::empty());
    walk_fp(tree, &mut parts, 0, 64);
    assert(views(parts@) =~= take_at_most(fp_tree(*tree, 0), 64));
    let mut r = owned("n=");
    push_decimal(&mut r, nodes as u64);
    push_char(&mut r, '|');
    let j = join_strings(&parts, ';');
    push_str(&mut r, j.as_str());
    r
}

// ── wait for a stable tree ─────────────────────────────────────────────

/// State of a wait for tree stability.
pub struct StableWait {
    /// Polls made so far.
    pub polls: u32,
    /// Timeout in force (ms).
    pub timeout_ms: u64,
    /// Sleep between polls (ms).
    pub poll_ms: u64,
    /// How long the fingerprint must stay unchanged (ms).
    pub need_stable_ms: u64,
    /// Last fingerprint observed.
    pub last_fp: Option<String>,
    /// When (ms since start) the last fingerprint was first seen.
    pub stable_since_ms: Option<u64>,
}

/// Begin waiting for a stable tree.
pub fn start_wait_for_stable(timeout_ms: Option<u64>, poll_ms: Option<u64>, stable_for_ms: Option<u64>) -> (s: StableWait)
    ensures
        s.polls == 0,
        s.timeout_ms == clamp(or_default(timeout_ms, DEFAULT_TIMEOUT_MS), 1, MAX_TIMEOUT_MS as int),
        s.poll_ms == clamp(or_default(poll_ms, DEFAULT_POLL_MS), 50, 5_000),
        s.need_stable_ms == clamp(or_default(stable_for_ms, 400), 100, 10_000),
        s.last_fp is None,
        s.stable_since_ms is None,
{
    StableWait {
        polls: 0,
        timeout_ms: clamp_timeout(timeout_ms),
        poll_ms: clamp_poll(poll_ms),
        need_stable_ms: clamp_stable(stable_for_ms),
        last_fp: None,
        stable_since_ms: None,
    }
}

/// Detail of a stable tree.
pub open spec fn stable_detail(need: nat, polls: nat) -> Seq<char> {
    "stable for ≥"@ + decimal(need) + "ms after "@ + decimal(polls) + " poll(s)"@
}

/// Detail of a stability wait that timed out.
pub open spec fn unstable_detail(waited: nat, need: nat) -> Seq<char> {
    "timeout after "@ + decimal(waited) + "ms — tree did not stay stable for "@ + decimal(need) + "ms"@
}

/// Detail of a wait for stability that timed out on an error: the error's
/// text after a fixed prefix.
pub fn stable_error_detail(reason: &str) -> (r: String)
    ensures
        r@ == "timeout; last error: "@ + reason@,
{
    let mut detail = owned("timeout; last error: ");
    push_str(&mut detail, reason);
    detail
}

/// One poll of a wait for stability: `snap` is what the snapshot returned and
/// `now_ms` the time since the wait began. The wait succeeds once the same
/// fingerprint has been seen for `need_stable_ms`; a policy block is passed
/// on; other errors reset the comparison; the timeout ends the wait.
pub fn wait_for_stable_step(state: &mut StableWait, snap: Result<(A11yNode, SnapshotStats), HarnessError>, now_ms: u64) -> (a: WaitAction<Result<WaitForStableResult, HarnessError>>)
    requires
        old(state).polls < u32::MAX,
    ensures
        final(state).polls == old(state).polls + 1,
        final(state).timeout_ms == old(state).timeout_ms,
        final(state).poll_ms == old(state).poll_ms,
        final(state).need_stable_ms == old(state).need_stable_ms,
        match snap {
            Err(HarnessError::PolicyBlocked(m)) => a matches WaitAction::Finish(Err(HarnessError::PolicyBlocked(m2))) && m2 == m,
            Err(e) => final(state).last_fp is None && final(state).stable_since_ms is None && if now_ms
                >= old(state).timeout_ms {
                a matches WaitAction::Finish(Ok(r)) && !r.ok && r.waited_ms == now_ms && r.polls
                    == final(state).polls && r.fingerprint@.len() == 0 && crate::text::starts_with(
                    r.detail@,
                    "timeout; last error: "@,
                ) && (message_of(e) matches Some(t) ==> r.detail@ == "timeout; last error: "@ + t)
            } else {
                a matches WaitAction::SleepThenPoll(ms) && ms == old(state).poll_ms
            },
            Ok((tree, stats)) => {
                let fp = fingerprint_of(tree, stats.nodes_emitted as nat);
                let same = old(state).last_fp matches Some(prev) && prev@ == fp;
                let since: int = if same {
                    match old(state).stable_since_ms {
                        Some(s) => s as int,
                        None => now_ms as int,
                    }
                } else {
                    now_ms as int
                };
                &&& final(state).last_fp matches Some(l) && l@ == fp
                &&& final(state).stable_since_ms == Some(since as u64)
                &&& if same && now_ms - since >= old(state).need_stable_ms {
                    a matches WaitAction::Finish(Ok(r)) && r.ok && r.waited_ms == now_ms && r.polls
                        == final(state).polls && r.fingerprint@ == fp && r.detail@ == stable_detail(
                        old(state).need_stable_ms as nat,
                        final(state).polls as nat,
                    )
                } else if now_ms >= old(state).timeout_ms {
                    a matches WaitAction::Finish(Ok(r)) && !r.ok && r.waited_ms == now_ms && r.polls
                        == final(state).polls && r.fingerprint@ == fp && r.detail@ == unstable_detail(
                        now_ms as nat,
                        old(state).need_stable_ms as nat,
                    )
                } else {
                    a matches WaitAction::SleepThenPoll(ms) && ms == old(state).poll_ms
                }
            },
        },
{
    state.polls = state.polls + 1;
    let polls = state.polls;
    match snap {
        Err(HarnessError::PolicyBlocked(m)) => {
            WaitAction::Finish(Err(HarnessError::PolicyBlocked(m)))
        },
        Err(e) => {
            state.last_fp = None;
            state.stable_since_ms = None;
            if now_ms >= state.timeout_ms {
                let t = e.message();
                let detail = stable_error_detail(t.as_str());
                assert(detail@.take("timeout; last error: "@.len() as int) =~= "timeout; last error: "@);
                return WaitAction::Finish(
                    Ok(WaitForStableResult { ok: false, waited_ms: now_ms, polls, fingerprint: String::new(), detail }),
                );
            }
            WaitAction::SleepThenPoll(state.poll_ms)
        },
        Ok((tree, stats)) => {
            let fp = fingerprint_tree(&tree, stats.nodes_emitted);
            let same = match &state.last_fp {
                Some(prev) => crate::text::str_eq(prev.as_str(), fp.as_str()),
                None => false,
            };
            let since: u64 = if same {
                match state.stable_since_ms {
                    Some(s) => s,
                    None => now_ms,
                }
            } else {
                now_ms
            };
            state.last_fp = Some(fp.clone());
            state.stable_since_ms = Some(since);
            if same && now_ms >= since && now_ms - since >= state.need_stable_ms {
                let mut detail = owned("stable for ≥");
                push_decimal(&mut detail, state.need_stable_ms);
                push_str(&mut detail, "ms after ");
                push_decimal(&mut detail, polls as u64);
                push_str(&mut detail, " poll(s)");
                return WaitAction::Finish(
                    Ok(WaitForStableResult { ok: true, waited_ms: now_ms, polls, fingerprint: fp, detail }),
                );
            }
            if now_ms >= state.timeout_ms {
                let mut detail = owned("timeout after ");
                push_decimal(&mut detail, now_ms);
                push_str(&mut detail, "ms — tree did not stay stable for ");
                push_decimal(&mut detail, state.need_stable_ms);
                push_str(&mut detail, "ms");
                return WaitAction::Finish(
                    Ok(WaitForStableResult { ok: false, waited_ms: now_ms, polls, fingerprint: fp, detail }),
                );
            }
            WaitAction::SleepThenPoll(state.poll_ms)
        },
    }
}

/// Walk budget of each poll of an element wait: depth 12, 400 nodes, bounds and actions.
pub fn element_wait_opts() -> (r: SnapshotOpts)
    ensures
        r == (SnapshotOpts { max_depth: 12, max_nodes: 400, include_bounds: true, include_actions: true }),
{
    SnapshotOpts { max_depth: 12, max_nodes: 400, include_bounds: true, include_actions: true }
}

/// Walk budget of each poll of a stability wait: depth 8, 250 nodes, no bounds or actions.
pub fn stable_wait_opts() -> (r: SnapshotOpts)
    ensures
        r == (SnapshotOpts { max_depth: 8, max_nodes: 250, include_bounds: false, include_actions: false }),
{
    SnapshotOpts { max_depth: 8, max_nodes: 250, include_bounds: false, include_actions: false }
}

} // verus!
