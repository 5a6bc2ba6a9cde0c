//! Pure find / match over compact [`A11yNode`] trees.
//!
//! No I/O: the selector semantics are stated here and proved of the code.

use vstd::prelude::*;

use crate::text::{
    ascii_lower, chars_of, clone_opt, clone_strings, contains, contains_chars, debug_quoted, debug_str,
    eq_ci_chars, eq_ignore_ascii_case, lemma_contains_concat, lowercase, push_char, push_str, to_lowercase, views,
};
use crate::types::{A11yNode, ElementHit, FindQuery};

verus! {

/// The text of an optional string (`""` when absent).
pub open spec fn opt_text(o: Option<String>) -> Seq<char> {
    match o {
        Some(s) => s@,
        None => Seq::empty(),
    }
}

/// Case-insensitive substring test: the empty needle matches everything,
/// otherwise the lowercased needle occurs in the lowercased haystack.
pub open spec fn contains_ci(hay: Seq<char>, needle: Seq<char>) -> bool {
    needle.len() == 0 || contains(lowercase(hay), lowercase(needle))
}

/// The text searched by a `text` filter, lowercased: name, value and
/// description joined by newlines. Each field is lowercased apart; this is
/// the lowercase of the joined text, since a newline is neither cased nor
/// case-ignorable and so ends the context of a final sigma.
pub open spec fn search_text(node: A11yNode) -> Seq<char> {
    lowercase(opt_text(node.name)) + seq!['\n'] + lowercase(opt_text(node.value)) + seq!['\n'] + lowercase(
        opt_text(node.description),
    )
}

/// Does the node carry a state equal (ASCII case-insensitively) to `st`?
pub open spec fn has_state_ci(node: A11yNode, st: Seq<char>) -> bool {
    exists|i: int| 0 <= i < node.states.len() && #[trigger] eq_ignore_ascii_case(node.states@[i]@, st)
}

/// Selector semantics for one node (children ignored): every filter that is
/// set must hold.
pub open spec fn node_matches(node: A11yNode, q: FindQuery) -> bool {
    &&& (q.role matches Some(r) ==> eq_ignore_ascii_case(node.role@, r@))
    &&& (q.name matches Some(n) ==> if q.name_exact {
        eq_ignore_ascii_case(opt_text(node.name), n@)
    } else {
        contains_ci(opt_text(node.name), n@)
    })
    &&& (q.text matches Some(t) ==> t@.len() == 0 || contains(search_text(node), lowercase(t@)))
    &&& (q.state matches Some(st) ==> has_state_ci(node, st@))
    &&& (q.description matches Some(d) ==> contains_ci(opt_text(node.description), d@))
}

/// Breadcrumb for one node: `role:"name"` (name in `Debug` quoting) when the
/// name is non-empty, else the role alone.
pub open spec fn crumb_of(node: A11yNode) -> Seq<char> {
    match node.name {
        Some(n) => if n@.len() > 0 {
            node.role@ + seq![':'] + debug_quoted(n@)
        } else {
            node.role@
        },
        None => node.role@,
    }
}

/// Matching nodes of a subtree in depth-first pre-order, each with the
/// breadcrumb path from the root (`path` is the path of the parent).
pub open spec fn tree_hits(node: A11yNode, path: Seq<Seq<char>>, q: FindQuery) -> Seq<
    (A11yNode, Seq<Seq<char>>),
>
    decreases node, 1int,
{
    let p = path.push(crumb_of(node));
    let own = if node_matches(node, q) {
        seq![(node, p)]
    } else {
        Seq::empty()
    };
    own + forest_hits(node.children@, p, q)
}

/// [`tree_hits`] of each tree of a forest, concatenated in order.
pub open spec fn forest_hits(kids: Seq<A11yNode>, path: Seq<Seq<char>>, q: FindQuery) -> Seq<
    (A11yNode, Seq<Seq<char>>),
>
    decreases kids, 0int,
{
    if kids.len() == 0 {
        Seq::empty()
    } else {
        tree_hits(kids[0], path, q) + forest_hits(kids.drop_first(), path, q)
    }
}

/// `h` reports node `n` reached along breadcrumb `path`.
pub open spec fn hit_is(h: ElementHit, n: A11yNode, path: Seq<Seq<char>>) -> bool {
    &&& h.id == n.id
    &&& h.role == n.role
    &&& h.name == n.name
    &&& h.description == n.description
    &&& h.value == n.value
    &&& h.states@ == n.states@
    &&& h.actions@ == n.actions@
    &&& h.bounds == n.bounds
    &&& views(h.path@) == path
}

/// `new` is `old` followed by as many of `hits` as fit under the cap `max`.
pub open spec fn extends_capped(
    old: Seq<ElementHit>,
    new: Seq<ElementHit>,
    hits: Seq<(A11yNode, Seq<Seq<char>>)>,
    max: int,
) -> bool {
    &&& new.len() == if old.len() + hits.len() <= max {
        (old.len() + hits.len()) as int
    } else {
        max
    }
    &&& forall|i: int| 0 <= i < old.len() ==> new[i] == old[i]
    &&& forall|i: int|
        old.len() <= i < new.len() ==> hit_is(
            #[trigger] new[i],
            hits[i - old.len()].0,
            hits[i - old.len()].1,
        )
}

/// The cap actually applied for a query (`0` means 25).
pub open spec fn result_cap(q: FindQuery) -> int {
    if q.max_results == 0 {
        25
    } else {
        q.max_results as int
    }
}

/// Capping composes: extending by `h1` then by `h2` extends by `h1 + h2`.
proof fn lemma_extends_compose(
    o: Seq<ElementHit>,
    m: Seq<ElementHit>,
    f: Seq<ElementHit>,
    h1: Seq<(A11yNode, Seq<Seq<char>>)>,
    h2: Seq<(A11yNode, Seq<Seq<char>>)>,
    max: int,
)
    requires
        o.len() <= max,
        extends_capped(o, m, h1, max),
        extends_capped(m, f, h2, max),
    ensures
        extends_capped(o, f, h1 + h2, max),
{
    let h = h1 + h2;
    assert forall|i: int| o.len() <= i < f.len() implies hit_is(
        #[trigger] f[i],
        h[i - o.len()].0,
        h[i - o.len()].1,
    ) by {
        if i < m.len() {
            assert(f[i] == m[i]);
            assert(h[i - o.len()] == h1[i - o.len()]);
        } else {
            assert(m.len() == o.len() + h1.len());
            assert(h[i - o.len()] == h2[i - m.len()]);
        }
    }
}

/// Hits of a concatenated forest are the concatenated hits.
proof fn lemma_forest_hits_concat(a: Seq<A11yNode>, b: Seq<A11yNode>, path: Seq<Seq<char>>, q: FindQuery)
    ensures
        forest_hits(a + b, path, q) == forest_hits(a, path, q) + forest_hits(b, path, q),
    decreases a.len(),
{
    if a.len() == 0 {
        assert(a + b =~= b);
        assert(forest_hits(a, path, q) =~= Seq::<(A11yNode, Seq<Seq<char>>)>::empty());
        assert(forest_hits(a + b, path, q) =~= forest_hits(a, path, q) + forest_hits(b, path, q));
    } else {
        assert((a + b).drop_first() =~= a.drop_first() + b);
        assert((a + b)[0] == a[0]);
        lemma_forest_hits_concat(a.drop_first(), b, path, q);
        assert(forest_hits(a + b, path, q) =~= forest_hits(a, path, q) + forest_hits(b, path, q));
    }
}

/// Hits of a one-tree forest are the hits of the tree.
proof fn lemma_forest_hits_single(t: A11yNode, path: Seq<Seq<char>>, q: FindQuery)
    ensures
        forest_hits(seq![t], path, q) == tree_hits(t, path, q),
{
    assert(seq![t].drop_first() =~= Seq::<A11yNode>::empty());
    assert(forest_hits(Seq::<A11yNode>::empty(), path, q) =~= Seq::<(A11yNode, Seq<Seq<char>>)>::empty());
    assert(forest_hits(seq![t], path, q) =~= tree_hits(t, path, q));
}

// ── executable matchers ────────────────────────────────────────────────

/// ASCII case-insensitive string equality (`eq_ignore_ascii_case`).
pub fn eq_ci(a: &str, b: &str) -> (r: bool)
    ensures
        r == eq_ignore_ascii_case(a@, b@),
{
    let va = chars_of(a);
    let vb = chars_of(b);
    eq_ci_chars(&va, &vb)
}

/// Case-insensitive substring test (see [`contains_ci`]).
pub fn contains_ci_str(hay: &str, needle: &str) -> (r: bool)
    ensures
        r == contains_ci(hay@, needle@),
{
    if needle.is_empty() {
        return true;
    }
    let h = to_lowercase(hay);
    let n = to_lowercase(needle);
    let hv = chars_of(h.as_str());
    let nv = chars_of(n.as_str());
    contains_chars(&hv, &nv)
}

/// The text of an optional string.
fn opt_string(o: &Option<String>) -> (r: String)
    ensures
        r@ == opt_text(*o),
{
    match o {
        Some(s) => s.clone(),
        None => String::new(),
    }
}

/// Does this node match the query? (children ignored; an empty query matches everything)
pub fn matches_query(node: &A11yNode, q: &FindQuery) -> (r: bool)
    ensures
        r == node_matches(*node, *q),
{
    if let Some(role) = &q.role {
        if !eq_ci(node.role.as_str(), role.as_str()) {
            return false;
        }
    }
    if let Some(name) = &q.name {
        let n = opt_string(&node.name);
        if q.name_exact {
            if !eq_ci(n.as_str(), name.as_str()) {
                return false;
            }
        } else if !contains_ci_str(n.as_str(), name.as_str()) {
            return false;
        }
    }
    if let Some(text) = &q.text {
        if !text.as_str().is_empty() {
            let n = opt_string(&node.name);
            let mut hay = to_lowercase(n.as_str());
            push_char(&mut hay, '\n');
            let v = opt_string(&node.value);
            let lv = to_lowercase(v.as_str());
            push_str(&mut hay, lv.as_str());
            push_char(&mut hay, '\n');
            let d = opt_string(&node.description);
            let ld = to_lowercase(d.as_str());
            push_str(&mut hay, ld.as_str());
            assert(hay@ =~= search_text(*node));
            let lt = to_lowercase(text.as_str());
            let hv = chars_of(hay.as_str());
            let tv = chars_of(lt.as_str());
            if !contains_chars(&hv, &tv) {
                return false;
            }
        }
    }
    if let Some(state) = &q.state {
        let mut found = false;
        let mut i: usize = 0;
        while i < node.states.len()
            invariant
                i <= node.states.len(),
                found == exists|j: int|
                    0 <= j < i && #[trigger] eq_ignore_ascii_case(node.states@[j]@, state@),
            decreases node.states.len() - i,
        {
            if eq_ci(node.states[i].as_str(), state.as_str()) {
                found = true;
            }
            i = i + 1;
        }
        if !found {
            return false;
        }
    }
    if let Some(desc) = &q.description {
        let d = opt_string(&node.description);
        if !contains_ci_str(d.as_str(), desc.as_str()) {
            return false;
        }
    }
    true
}

/// Breadcrumb segment for one node (`role:"name"` or `role`).
fn crumb(node: &A11yNode) -> (r: String)
    ensures
        r@ == crumb_of(*node),
{
    match &node.name {
        Some(n) => {
            if n.as_str().is_empty() {
                node.role.clone()
            } else {
                let mut s = node.role.clone();
                push_char(&mut s, ':');
                let q = debug_str(n.as_str());
                push_str(&mut s, q.as_str());
                assert(s@ =~= crumb_of(*node));
                s
            }
        },
        None => node.role.clone(),
    }
}

/// The hit reporting `node` along `path`.
fn make_hit(node: &A11yNode, path: &Vec<String>) -> (h: ElementHit)
    ensures
        hit_is(h, *node, views(path@)),
{
    let h = ElementHit {
        id: clone_opt(&node.id),
        role: node.role.clone(),
        name: clone_opt(&node.name),
        description: clone_opt(&node.description),
        value: clone_opt(&node.value),
        states: clone_strings(&node.states),
        actions: clone_strings(&node.actions),
        bounds: node.bounds,
        path: clone_strings(path),
    };
    h
}

/// Depth-first walk: appends hits of `node` (path = breadcrumbs of its
/// ancestors) until `out` holds `max` hits.
fn walk(node: &A11yNode, q: &FindQuery, path: &mut Vec<String>, out: &mut Vec<ElementHit>, max: usize)
    requires
        old(out).len() <= max,
    ensures
        views(final(path)@) == views(old(path)@),
        extends_capped(old(out)@, final(out)@, tree_hits(*node, views(old(path)@), *q), max as int),
    decreases node,
{
    let ghost p0 = views(path@);
    let ghost hits = tree_hits(*node, p0, *q);
    if out.len() >= max {
        return;
    }
    let c = crumb(node);
    path.push(c);
    let ghost p1 = views(path@);
    assert(p1 =~= p0.push(crumb_of(*node)));
    let ghost own: Seq<(A11yNode, Seq<Seq<char>>)> = if node_matches(*node, *q) {
        seq![(*node, p1)]
    } else {
        Seq::empty()
    };
    let ghost o0 = out@;
    if matches_query(node, q) {
        let h = make_hit(node, path);
        out.push(h);
    }
    assert(extends_capped(o0, out@, own, max as int));
    let ghost o1 = out@;
    let mut i: usize = 0;
    while i < node.children.len()
        invariant
            i <= node.children.len(),
            out@.len() <= max,
            views(path@) == p1,
            p1 == p0.push(crumb_of(*node)),
            o1.len() <= max,
            extends_capped(o1, out@, forest_hits(node.children@.take(i as int), p1, *q), max as int),
        ensures
            i <= node.children.len(),
            i < node.children.len() ==> out@.len() >= max,
            p1 == p0.push(crumb_of(*node)),
            o1.len() <= max,
            out@.len() <= max,
            views(path@) == p1,
            extends_capped(o1, out@, forest_hits(node.children@.take(i as int), p1, *q), max as int),
        decreases node.children.len() - i,
    {
        if out.len() >= max {
            break;
        }
        let ghost om = out@;
        let child = &node.children[i];
        assert(decreases_to!(node => node.children));
        walk(child, q, path, out, max);
        proof {
            let a = node.children@.take(i as int);
            let b = seq![node.children@[i as int]];
            lemma_forest_hits_concat(a, b, p1, *q);
            lemma_forest_hits_single(node.children@[i as int], p1, *q);
            assert(node.children@.take(i + 1) =~= a + b);
            lemma_extends_compose(o1, om, out@, forest_hits(a, p1, *q), forest_hits(b, p1, *q), max as int);
        }
        i = i + 1;
    }
    proof {
        let kids = node.children@;
        let done = forest_hits(kids.take(i as int), p1, *q);
        if i < kids.len() {
            // stopped at the cap: the rest adds nothing
            let rest = forest_hits(kids.skip(i as int), p1, *q);
            lemma_forest_hits_concat(kids.take(i as int), kids.skip(i as int), p1, *q);
            assert(kids.take(i as int) + kids.skip(i as int) =~= kids);
            assert(out@.len() == max);
            assert(extends_capped(o1, out@, done + rest, max as int));
        } else {
            assert(kids.take(i as int) =~= kids);
        }
        lemma_extends_compose(o0, o1, out@, own, forest_hits(kids, p1, *q), max as int);
        assert(own + forest_hits(kids, p1, *q) == hits);
    }
    let ghost pre = path@;
    path.pop();
    assert(views(path@) =~= p0) by {
        assert forall|j: int| 0 <= j < path@.len() implies views(path@)[j] == p0[j] by {
            assert(path@[j] == pre[j]);
            assert(views(pre)[j] == p1[j]);
        }
    }
}

/// Depth-first find over a compact tree. Pure; no AT-SPI. Returns the first
/// `max_results` matching nodes (25 when `max_results` is 0) in pre-order,
/// each with its breadcrumb path from the root.
pub fn find_in_tree(root: &A11yNode, q: &FindQuery) -> (r: Vec<ElementHit>)
    ensures
        extends_capped(Seq::empty(), r@, tree_hits(*root, Seq::empty(), *q), result_cap(*q)),
{
    let max: usize = if q.max_results == 0 {
        25
    } else {
        q.max_results as usize
    };
    let mut out: Vec<ElementHit> = Vec::new();
    let mut path: Vec<String> = Vec::new();
    assert(views(path@) =~= Seq::<Seq<char>>::empty());
    walk(root, q, &mut path, &mut out, max);
    out
}

// ── laws ───────────────────────────────────────────────────────────────

/// The empty query (all filters unset) matches every node.
pub proof fn lemma_empty_query_matches_all(node: A11yNode, q: FindQuery)
    requires
        q.role is None,
        q.name is None,
        q.text is None,
        q.state is None,
        q.description is None,
    ensures
        node_matches(node, q),
{
}

/// A text filter looks at the name, the value and the description: a node
/// passes a query whose only filter is text `t` when `t` is empty or occurs,
/// ignoring case, in any one of the three.
pub proof fn lemma_text_filter_fields(node: A11yNode, q: FindQuery)
    requires
        q.role is None,
        q.name is None,
        q.state is None,
        q.description is None,
        q.text matches Some(t) && (t@.len() == 0
            || contains(lowercase(opt_text(node.name)), lowercase(t@))
            || contains(lowercase(opt_text(node.value)), lowercase(t@))
            || contains(lowercase(opt_text(node.description)), lowercase(t@))),
    ensures
        node_matches(node, q),
{
    let t = q.text->Some_0;
    let x = lowercase(t@);
    let ln = lowercase(opt_text(node.name));
    let lv = lowercase(opt_text(node.value));
    let ld = lowercase(opt_text(node.description));
    let nl = seq!['\n'];
    lemma_contains_concat(ln, nl, x);
    lemma_contains_concat(ln + nl, lv, x);
    lemma_contains_concat(ln + nl + lv, nl, x);
    lemma_contains_concat(ln + nl + lv + nl, ld, x);
    assert(search_text(node) == ln + nl + lv + nl + ld);
}

/// Each filter alone: a role filter passes exactly the nodes whose role
/// equals it letter for letter up to ASCII case; an exact name filter
/// passes exactly the nodes whose name has that form; a substring name
/// filter passes the nodes whose name contains it ignoring case (an empty
/// one passes all); a state filter needs a state equal to it up to ASCII
/// case, so a node without states never passes; a description filter
/// passes the nodes whose description contains it ignoring case.
pub proof fn lemma_single_filters(node: A11yNode, q: FindQuery)
    requires
        q.text is None,
    ensures
        q.name is None && q.state is None && q.description is None ==> (q.role matches Some(r) ==> (node_matches(node, q)
            <==> (node.role@.len() == r@.len() && forall|i: int| 0 <= i < r@.len() ==> #[trigger] ascii_lower(node.role@[i]) == ascii_lower(r@[i])))),
        q.role is None && q.state is None && q.description is None ==> (q.name matches Some(n) ==> (q.name_exact ==> (node_matches(node, q)
            <==> (opt_text(node.name).len() == n@.len() && forall|i: int| 0 <= i < n@.len() ==> #[trigger] ascii_lower(opt_text(node.name)[i]) == ascii_lower(n@[i]))))),
        q.role is None && q.state is None && q.description is None ==> (q.name matches Some(n) ==> (!q.name_exact ==> (node_matches(node, q)
            <==> (n@.len() == 0 || contains(lowercase(opt_text(node.name)), lowercase(n@)))))),
        q.state is Some && node.states@.len() == 0 ==> !node_matches(node, q),
        q.role is None && q.name is None && q.state is None ==> (q.description matches Some(d) ==> (node_matches(node, q)
            <==> (d@.len() == 0 || contains(lowercase(opt_text(node.description)), lowercase(d@))))),
        q.role matches Some(r) && node.role@.len() != r@.len() ==> !node_matches(node, q),
{
}

/// Every reported hit satisfies the query, and there are never more hits
/// than the cap.
pub proof fn lemma_hits_match_and_are_capped(root: A11yNode, q: FindQuery, r: Seq<ElementHit>)
    requires
        extends_capped(Seq::empty(), r, tree_hits(root, Seq::empty(), q), result_cap(q)),
    ensures
        r.len() <= result_cap(q),
        forall|i: int| 0 <= i < r.len() ==> node_matches(#[trigger] tree_hits(root, Seq::empty(), q)[i].0, q),
{
    lemma_tree_hits_match(root, Seq::empty(), q);
}

/// Every entry of [`tree_hits`] is a matching node.
pub proof fn lemma_tree_hits_match(node: A11yNode, path: Seq<Seq<char>>, q: FindQuery)
    ensures
        forall|i: int| 0 <= i < tree_hits(node, path, q).len() ==> node_matches(#[trigger] tree_hits(node, path, q)[i].0, q),
    decreases node, 1int,
{
    let p = path.push(crumb_of(node));
    lemma_forest_hits_match(node.children@, p, q);
    let own: Seq<(A11yNode, Seq<Seq<char>>)> = if node_matches(node, q) {
        seq![(node, p)]
    } else {
        Seq::empty()
    };
    let rest = forest_hits(node.children@, p, q);
    assert(tree_hits(node, path, q) == own + rest);
    assert forall|i: int| 0 <= i < tree_hits(node, path, q).len() implies node_matches(
        #[trigger] tree_hits(node, path, q)[i].0,
        q,
    ) by {
        if i < own.len() {
            assert(tree_hits(node, path, q)[i] == own[i]);
        } else {
            assert(tree_hits(node, path, q)[i] == rest[i - own.len()]);
        }
    }
}

/// Every entry of [`forest_hits`] is a matching node.
pub proof fn lemma_forest_hits_match(kids: Seq<A11yNode>, path: Seq<Seq<char>>, q: FindQuery)
    ensures
        forall|i: int| 0 <= i < forest_hits(kids, path, q).len() ==> node_matches(#[trigger] forest_hits(kids, path, q)[i].0, q),
    decreases kids, 0int,
{
    if kids.len() > 0 {
        lemma_tree_hits_match(kids[0], path, q);
        lemma_forest_hits_match(kids.drop_first(), path, q);
        let a = tree_hits(kids[0], path, q);
        let b = forest_hits(kids.drop_first(), path, q);
        assert(forest_hits(kids, path, q) == a + b);
        assert forall|i: int| 0 <= i < forest_hits(kids, path, q).len() implies node_matches(
            #[trigger] forest_hits(kids, path, q)[i].0,
            q,
        ) by {
            if i < a.len() {
                assert(forest_hits(kids, path, q)[i] == a[i]);
            } else {
                assert(forest_hits(kids, path, q)[i] == b[i - a.len()]);
            }
        }
    }
}

} // verus!
