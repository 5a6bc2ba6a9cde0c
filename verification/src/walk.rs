//! Helpers of the live tree walk: snapshot statistics, node field cleanup and
//! the walk budget.

use vstd::prelude::*;

use crate::find::eq_ci;
use crate::id::{encode_id, id_of};
use crate::text::{clone_opt, clone_strings, eq_ignore_ascii_case, owned, trim};
use crate::types::{A11yNode, Bounds, SnapshotOpts};

verus! {

/// Stats returned alongside a snapshot for agent debugging.
#[derive(Debug, Clone, Default, PartialEq, Eq)]
pub struct SnapshotStats {
    pub nodes_emitted: u32,
    pub nodes_visited: u32,
    pub truncated: bool,
    pub max_depth_hit: bool,
}

/// A window counts as focused when one of its states is `active` or
/// `focused` (ASCII case-insensitive).
pub open spec fn active_or_focused(states: Seq<String>) -> bool {
    exists|i: int|
        0 <= i < states.len() && (eq_ignore_ascii_case(#[trigger] states[i]@, "active"@)
            || eq_ignore_ascii_case(states[i]@, "focused"@))
}

/// Does any state read `active` or `focused`?
pub fn is_active_or_focused(states: &Vec<String>) -> (r: bool)
    ensures
        r == active_or_focused(states@),
{
    let mut i: usize = 0;
    while i < states.len()
        invariant
            i <= states.len(),
            forall|j: int|
                0 <= j < i ==> !(eq_ignore_ascii_case(#[trigger] states@[j]@, "active"@)
                    || eq_ignore_ascii_case(states@[j]@, "focused"@)),
        decreases states.len() - i,
    {
        if eq_ci(states[i].as_str(), "active") || eq_ci(states[i].as_str(), "focused") {
            return true;
        }
        i = i + 1;
    }
    false
}

/// A trimmed string, or nothing when it is absent or blank.
pub fn nonempty(s: Option<String>) -> (r: Option<String>)
    ensures
        match s {
            Some(t) => if trim(t@).len() == 0 {
                r is None
            } else {
                r matches Some(u) && u@ == trim(t@)
            },
            None => r is None,
        },
{
    match s {
        Some(t) => {
            let v = crate::text::chars_of(t.as_str());
            let tv = crate::text::trim_chars(&v);
            if tv.len() == 0 {
                None
            } else {
                Some(crate::text::string_of(&tv))
            }
        },
        None => None,
    }
}

/// Screen extents `(x, y, w, h)` as bounds; negative sizes mean "unknown".
pub fn bounds_from_extents(x: i32, y: i32, w: i32, h: i32) -> (r: Option<Bounds>)
    ensures
        (w < 0 || h < 0) ==> r is None,
        (w >= 0 && h >= 0) ==> r == Some(Bounds { x, y, width: w as u32, height: h as u32 }),
{
    if w < 0 || h < 0 {
        return None;
    }
    Some(Bounds { x, y, width: w as u32, height: h as u32 })
}

/// Walk options for a search: at least 400 nodes and depth 10.
pub fn search_opts(opts: SnapshotOpts) -> (r: SnapshotOpts)
    ensures
        r.max_nodes == if opts.max_nodes < 400 { 400 } else { opts.max_nodes },
        r.max_depth == if opts.max_depth < 10 { 10 } else { opts.max_depth },
        r.include_bounds == opts.include_bounds,
        r.include_actions == opts.include_actions,
{
    let mut o = opts;
    if o.max_nodes < 400 {
        o.max_nodes = 400;
    }
    if o.max_depth < 10 {
        o.max_depth = 10;
    }
    o
}


// ── the breadth-first walk under a node budget ─────────────────────────

/// A queued object: its id and its depth below the walk's root.
pub struct WalkFrame {
    pub id: String,
    pub depth: u32,
}

/// What the bus reported for one object (everything but its children).
pub struct NodeData {
    pub role: String,
    pub name: Option<String>,
    pub description: Option<String>,
    pub value: Option<String>,
    pub states: Vec<String>,
    pub actions: Vec<String>,
    pub bounds: Option<Bounds>,
}

/// The next thing the walk needs from the bus.
pub enum WalkStep {
    /// Read the object `id`. When `list_children` holds, also list its
    /// children; when `count_children` holds, report whether it has any.
    /// Its actions and extents are wanted when `read_actions` and
    /// `read_bounds` hold.
    Visit { id: String, depth: u32, list_children: bool, count_children: bool, read_actions: bool, read_bounds: bool },
    /// The walk is over: call [`TreeWalk::finish`].
    Done,
}

/// A breadth-first walk from one root under a depth limit and a node budget.
/// Objects are visited in the order they were queued; each visited object is
/// either unreachable (skipped) or emitted with the ids of its queued children.
pub struct TreeWalk {
    frames: Vec<WalkFrame>,
    nodes: Vec<Option<NodeData>>,
    child_lists: Vec<Vec<usize>>,
    stats: SnapshotStats,
    budget: u32,
    max_depth: u32,
    with_actions: bool,
    with_bounds: bool,
    root_id: String,
}

/// The ids that a visited object queues, from its child references in order:
/// a null reference (`None`) or one with an empty bus name is passed over;
/// the walk stops listing (and reports truncation) as soon as the queue would
/// outgrow the budget, that is when no `room` is left before a reference.
pub open spec fn queued_children(refs: Seq<Option<(Seq<char>, Seq<char>)>>, room: int) -> (Seq<Seq<char>>, bool)
    decreases refs.len(),
{
    if refs.len() == 0 {
        (Seq::empty(), false)
    } else if room <= 0 {
        (Seq::empty(), true)
    } else {
        match refs[0] {
            Some((bus, path)) => if bus.len() > 0 {
                let rest = queued_children(refs.drop_first(), room - 1);
                (seq![id_of(bus, path)] + rest.0, rest.1)
            } else {
                queued_children(refs.drop_first(), room)
            },
            None => queued_children(refs.drop_first(), room),
        }
    }
}

/// Plain views of child references.
pub open spec fn ref_views(refs: Seq<Option<(String, String)>>) -> Seq<Option<(Seq<char>, Seq<char>)>> {
    refs.map_values(|r: Option<(String, String)>| match r {
        Some((b, p)) => Some((b@, p@)),
        None => None,
    })
}

/// The node built for arena slot `idx`: the reported fields, the queued id,
/// and as children the nodes built for those of its queued children that were
/// visited and reachable, in queue order.
pub closed spec fn built(r: A11yNode, w: TreeWalk, idx: int) -> bool
    decreases w.arena().len() - idx, 1int, 0int,
{
    if 0 <= idx < w.nodes@.len() && w.nodes@.len() == w.child_lists@.len() && w.nodes@[idx] is Some {
        let d = w.nodes@[idx]->Some_0;
        &&& r.id == Some(w.frames@[idx].id)
        &&& r.role == d.role
        &&& r.name == d.name
        &&& r.description == d.description
        &&& r.value == d.value
        &&& r.states@ == d.states@
        &&& r.actions@ == d.actions@
        &&& r.bounds == d.bounds
        &&& built_kids(r.children@, w, idx, w.child_lists@[idx]@)
    } else {
        false
    }
}

/// `rs` are the nodes built for the entries of `cs` that lie after `parent`
/// and were visited and reachable.
pub closed spec fn built_kids(rs: Seq<A11yNode>, w: TreeWalk, parent: int, cs: Seq<usize>) -> bool
    decreases w.arena().len() - parent, 0int, cs.len(),
{
    if cs.len() == 0 {
        rs.len() == 0
    } else {
        let c = cs.last() as int;
        if parent < c < w.nodes@.len() && w.nodes@[c] is Some {
            &&& rs.len() > 0
            &&& built(rs.last(), w, c)
            &&& built_kids(rs.drop_last(), w, parent, cs.drop_last())
        } else {
            built_kids(rs, w, parent, cs.drop_last())
        }
    }
}

/// `d` is what the walk keeps of `data`: everything, except the action names
/// and extents when they are not wanted.
pub open spec fn kept(d: NodeData, data: NodeData, actions: bool, bounds: bool) -> bool {
    &&& d.role == data.role
    &&& d.name == data.name
    &&& d.description == data.description
    &&& d.value == data.value
    &&& d.states@ == data.states@
    &&& d.actions@ == if actions { data.actions@ } else { Seq::empty() }
    &&& d.bounds == if bounds { data.bounds } else { None }
}

/// A snapshot honours `opts`: no more nodes visited, emitted or in the tree
/// than `max_nodes` (at least one), no deeper than `max_depth` below the
/// root, and no action names or extents that were not asked for.
pub open spec fn within_opts(t: A11yNode, s: SnapshotStats, opts: SnapshotOpts) -> bool {
    let b: int = if opts.max_nodes == 0 { 1 } else { opts.max_nodes as int };
    &&& s.nodes_emitted <= s.nodes_visited <= b
    &&& node_count(t) <= b
    &&& tree_height(t) <= opts.max_depth
    &&& trimmed(t, opts.include_actions, opts.include_bounds)
}

/// The node reported when the root itself could not be read.
pub open spec fn unknown_root(r: A11yNode, root: Seq<char>) -> bool {
    &&& r.id matches Some(i) && i@ == root
    &&& r.role@ == "unknown"@
    &&& r.name is None && r.description is None && r.value is None
    &&& r.states@.len() == 0 && r.actions@.len() == 0
    &&& r.bounds is None && r.children@.len() == 0
}

/// The child lists laid end to end.
pub closed spec fn flat(ls: Seq<Vec<usize>>) -> Seq<usize>
    decreases ls.len(),
{
    if ls.len() == 0 {
        Seq::empty()
    } else {
        flat(ls.drop_last()) + ls.last()@
    }
}

impl TreeWalk {
    /// Well-formedness: one child list per visited slot, every recorded child
    /// lies after its parent and inside the queue, one level below it, and
    /// every queued object but the root is the child of exactly one slot (the
    /// child lists laid end to end are the queue positions after the root, in
    /// order); the queue never outgrows the budget, the counters agree with
    /// the arena, the root has depth zero and the others lie within the depth
    /// limit.
    pub closed spec fn wf(self) -> bool {
        &&& self.nodes@.len() == self.child_lists@.len()
        &&& self.nodes@.len() <= self.frames@.len()
        &&& 1 <= self.frames@.len()
        &&& 1 <= self.budget
        &&& self.frames@.len() <= self.budget
        &&& self.stats.nodes_visited == self.nodes@.len()
        &&& self.stats.nodes_emitted <= self.stats.nodes_visited
        &&& forall|k: int, j: int|
            0 <= k < self.child_lists@.len() && 0 <= j < self.child_lists@[k]@.len() ==> k < #[trigger] self.child_lists@[k]@[j] < self.frames@.len()
        &&& forall|k: int| 0 <= k < self.frames@.len() ==> #[trigger] self.frames@[k].depth <= self.max_depth || k == 0
        &&& self.frames@[0].depth == 0
        &&& forall|k: int| 0 <= k < self.nodes@.len() ==> (#[trigger] self.nodes@[k] matches Some(d) ==> (!self.with_actions ==> d.actions@.len() == 0) && (!self.with_bounds ==> d.bounds is None))
        &&& forall|k: int, j: int|
            0 <= k < self.child_lists@.len() && 0 <= j < self.child_lists@[k]@.len() ==> self.frames@[#[trigger] self.child_lists@[k]@[j] as int].depth == self.frames@[k].depth + 1
        &&& flat(self.child_lists@) == Seq::new((self.frames@.len() - 1) as nat, |j: int| (j + 1) as usize)
    }

    /// The queue, root first.
    pub closed spec fn queue(self) -> Seq<WalkFrame> {
        self.frames@
    }

    /// What each visited slot holds (`None`: unreachable).
    pub closed spec fn arena(self) -> Seq<Option<NodeData>> {
        self.nodes@
    }

    /// The queue positions of the children recorded for each visited slot.
    pub closed spec fn child_slots(self) -> Seq<Seq<usize>> {
        self.child_lists@.map_values(|v: Vec<usize>| v@)
    }

    /// Counters so far.
    pub closed spec fn counters(self) -> SnapshotStats {
        self.stats
    }

    /// Node budget (at least one).
    pub closed spec fn node_budget(self) -> u32 {
        self.budget
    }

    /// Depth limit.
    pub closed spec fn depth_limit(self) -> u32 {
        self.max_depth
    }

    /// The walk was started with `opts` and keeps its budget, depth limit and
    /// field choices.
    pub open spec fn made_for(self, opts: SnapshotOpts) -> bool {
        &&& self.node_budget() == if opts.max_nodes == 0 { 1 } else { opts.max_nodes }
        &&& self.depth_limit() == opts.max_depth
        &&& self.reads_actions() == opts.include_actions
        &&& self.reads_bounds() == opts.include_bounds
    }

    /// Whether action names are kept.
    pub closed spec fn reads_actions(self) -> bool {
        self.with_actions
    }

    /// Whether extents are kept.
    pub closed spec fn reads_bounds(self) -> bool {
        self.with_bounds
    }

    /// Id of the walk's root.
    pub closed spec fn root(self) -> Seq<char> {
        self.root_id@
    }

    /// The walk still has an object to visit: the queue is not exhausted, the
    /// budget is not spent and the visit counter has room.
    pub closed spec fn active(self) -> bool {
        &&& self.nodes@.len() < self.frames@.len()
        &&& self.stats.nodes_emitted < self.budget
        &&& self.stats.nodes_visited < u32::MAX
    }

    /// Start a walk at `root_id` with the depth limit and node budget of
    /// `opts` (a budget of zero counts as one).
    pub fn new(root_id: String, opts: &SnapshotOpts) -> (w: TreeWalk)
        ensures
            w.queue().len() == 1,
            w.queue()[0].id@ == root_id@,
            w.queue()[0].depth == 0,
            w.arena().len() == 0,
            w.counters() == (SnapshotStats { nodes_emitted: 0, nodes_visited: 0, truncated: false, max_depth_hit: false }),
            w.node_budget() == if opts.max_nodes == 0 { 1 } else { opts.max_nodes },
            w.depth_limit() == opts.max_depth,
            w.reads_actions() == opts.include_actions,
            w.reads_bounds() == opts.include_bounds,
            w.made_for(*opts),
            w.root() == root_id@,
            w.wf(),
    {
        let budget: u32 = if opts.max_nodes == 0 { 1 } else { opts.max_nodes };
        let first = WalkFrame { id: owned(root_id.as_str()), depth: 0 };
        let mut frames: Vec<WalkFrame> = Vec::new();
        frames.push(first);
        proof {
            assert(frames@[0].id@ == root_id@);
        }
        let w = TreeWalk {
            frames,
            nodes: Vec::new(),
            child_lists: Vec::new(),
            stats: SnapshotStats { nodes_emitted: 0, nodes_visited: 0, truncated: false, max_depth_hit: false },
            budget,
            max_depth: opts.max_depth,
            with_actions: opts.include_actions,
            with_bounds: opts.include_bounds,
            root_id,
        };
        proof {
            assert(flat(w.child_lists@) =~= Seq::new((w.frames@.len() - 1) as nat, |j: int| (j + 1) as usize));
        }
        w
    }

    /// What to read next.
    pub fn step(&self) -> (r: WalkStep)
        requires
            self.wf(),
        ensures
            !self.active() ==> r is Done,
            self.active() ==> match r {
                WalkStep::Visit { id, depth, list_children, count_children, read_actions, read_bounds } => {
                    let f = self.queue()[self.arena().len() as int];
                    &&& read_actions == self.reads_actions()
                    &&& read_bounds == self.reads_bounds()
                    &&& id@ == f.id@
                    &&& depth == f.depth
                    &&& list_children == (f.depth < self.depth_limit() && self.counters().nodes_emitted + 1 < self.node_budget())
                    &&& count_children == (f.depth >= self.depth_limit())
                },
                WalkStep::Done => false,
            },
    {
        let i = self.nodes.len();
        if i >= self.frames.len() || self.stats.nodes_emitted >= self.budget || self.stats.nodes_visited == u32::MAX {
            return WalkStep::Done;
        }
        let f = &self.frames[i];
        WalkStep::Visit {
            id: owned(f.id.as_str()),
            depth: f.depth,
            list_children: f.depth < self.max_depth && self.stats.nodes_emitted + 1 < self.budget,
            count_children: f.depth >= self.max_depth,
            read_actions: self.with_actions,
            read_bounds: self.with_bounds,
        }
    }

    /// The object handed out by [`TreeWalk::step`] could not be read: record
    /// an empty slot. Does nothing when the walk is not active.
    pub fn skip(&mut self)
        requires
            old(self).wf(),
        ensures
            final(self).wf(),
            forall|o: SnapshotOpts| old(self).made_for(o) ==> final(self).made_for(o),
            !old(self).active() ==> *final(self) == *old(self),
            old(self).active() ==> {
                &&& final(self).queue() == old(self).queue()
                &&& final(self).arena() == old(self).arena().push(None)
                &&& final(self).child_slots() == old(self).child_slots().push(Seq::empty())
                &&& final(self).counters() == (SnapshotStats { nodes_visited: (old(self).counters().nodes_visited + 1) as u32, ..old(self).counters() })
                &&& final(self).node_budget() == old(self).node_budget()
                &&& final(self).depth_limit() == old(self).depth_limit()
                &&& final(self).reads_actions() == old(self).reads_actions()
                &&& final(self).reads_bounds() == old(self).reads_bounds()
                &&& final(self).root() == old(self).root()
            },
    {
        let i = self.nodes.len();
        if i >= self.frames.len() || self.stats.nodes_emitted >= self.budget || self.stats.nodes_visited == u32::MAX {
            return;
        }
        let ghost cl0 = self.child_lists@;
        self.nodes.push(None);
        self.child_lists.push(Vec::new());
        self.stats.nodes_visited = self.stats.nodes_visited + 1;
        proof {
            let lists = self.child_lists@;
            assert forall|k: int, j: int|
                0 <= k < lists.len() && 0 <= j < lists[k]@.len() implies k < #[trigger] lists[k]@[j] < self.frames@.len() by {
                if k < cl0.len() {
                    assert(lists[k] == cl0[k]);
                }
            }
            assert forall|k: int, j: int|
                0 <= k < lists.len() && 0 <= j < lists[k]@.len() implies self.frames@[#[trigger] lists[k]@[j] as int].depth == self.frames@[k].depth + 1 by {
                if k < cl0.len() {
                    assert(lists[k] == cl0[k]);
                }
            }
            assert(lists.drop_last() =~= cl0);
            assert(flat(lists) =~= flat(cl0));
            assert(self.child_slots() =~= old(self).child_slots().push(Seq::empty()));
        }
    }

    /// Whether the object now being visited gets its children listed.
    pub open spec fn lists_children(self) -> bool {
        let f = self.queue()[self.arena().len() as int];
        f.depth < self.depth_limit() && self.counters().nodes_emitted + 1 < self.node_budget()
    }

    /// How many more objects the queue may take: every queued object is
    /// visited, so the queue stays within the budget.
    pub open spec fn room(self) -> int {
        self.node_budget() - self.queue().len()
    }

    /// The object handed out by [`TreeWalk::step`] was read: record `data`,
    /// queue its children from `children` (the child references in order,
    /// `None` for a null one; `None` as a whole when they were not listed or
    /// could not be), and, for an object at the depth limit, note whether it
    /// has children (`has_children`). Does nothing when the walk is not active.
    pub fn emit(&mut self, data: NodeData, children: Option<Vec<Option<(String, String)>>>, has_children: bool)
        requires
            old(self).wf(),
        ensures
            final(self).wf(),
            forall|o: SnapshotOpts| old(self).made_for(o) ==> final(self).made_for(o),
            !old(self).active() ==> *final(self) == *old(self),
            old(self).active() ==> {
                let o = *old(self);
                let n = *final(self);
                let f = o.queue()[o.arena().len() as int];
                let q = match children {
                    Some(refs) => if o.lists_children() {
                        queued_children(ref_views(refs@), o.room())
                    } else {
                        (Seq::<Seq<char>>::empty(), false)
                    },
                    None => (Seq::<Seq<char>>::empty(), false),
                };
                &&& queued_onto(o.queue(), n.queue(), q.0, f.depth + 1)
                &&& n.arena().len() == o.arena().len() + 1
                &&& n.arena().drop_last() == o.arena()
                &&& n.arena().last() matches Some(d) && kept(d, data, o.reads_actions(), o.reads_bounds())
                &&& n.child_slots() == o.child_slots().push(Seq::new(q.0.len(), |j: int| (o.queue().len() + j) as usize))
                &&& n.counters().nodes_emitted == o.counters().nodes_emitted + 1
                &&& n.counters().nodes_visited == o.counters().nodes_visited + 1
                &&& n.counters().truncated == (o.counters().truncated || q.1)
                &&& n.counters().max_depth_hit == (o.counters().max_depth_hit || (f.depth >= o.depth_limit() && has_children))
                &&& n.node_budget() == o.node_budget()
                &&& n.depth_limit() == o.depth_limit()
                &&& n.reads_actions() == o.reads_actions()
                &&& n.reads_bounds() == o.reads_bounds()
                &&& n.root() == o.root()
            },
    {
        let i = self.nodes.len();
        if i >= self.frames.len() || self.stats.nodes_emitted >= self.budget || self.stats.nodes_visited == u32::MAX {
            return;
        }
        let ghost o = *self;
        let ghost f0 = self.frames@;
        let depth = self.frames[i].depth;
        let listing = depth < self.max_depth && self.stats.nodes_emitted + 1 < self.budget;
        let mut kids: Vec<usize> = Vec::new();
        let mut cut = false;
        let ghost mut added: Seq<Seq<char>> = Seq::empty();
        let ghost mut expect: (Seq<Seq<char>>, bool) = (Seq::empty(), false);
        if listing {
            if let Some(refs) = children {
                let ghost rv = ref_views(refs@);
                proof {
                    expect = queued_children(rv, o.room());
                    assert(rv.skip(0) =~= rv);
                    assert(rv.len() == refs@.len());
                }
                let mut j: usize = 0;
                while j < refs.len()
                    invariant_except_break
                        j <= refs.len(),
                        rv == ref_views(refs@),
                        rv.len() == refs@.len(),
                        f0 == o.frames@,
                        i < f0.len(),
                        i == self.nodes@.len(),
                        self.nodes == o.nodes,
                        self.child_lists == o.child_lists,
                        self.stats == o.stats,
                        self.budget == o.budget,
                        self.max_depth == o.max_depth,
                        self.with_actions == o.with_actions,
                        self.with_bounds == o.with_bounds,
                        self.root_id == o.root_id,
                        depth < self.max_depth,
                        self.stats.nodes_emitted < self.budget,
                        self.frames@.len() <= self.budget,
                        queued_onto(f0, self.frames@, added, depth + 1),
                        kids@ == Seq::new(added.len(), |k: int| (f0.len() + k) as usize),
                        !cut,
                        expect == (added + queued_children(rv.skip(j as int), o.room() - added.len()).0,
                            queued_children(rv.skip(j as int), o.room() - added.len()).1),
                    ensures
                        i < f0.len(),
                        i == self.nodes@.len(),
                        self.nodes == o.nodes,
                        self.child_lists == o.child_lists,
                        self.stats == o.stats,
                        self.budget == o.budget,
                        self.max_depth == o.max_depth,
                        self.with_actions == o.with_actions,
                        self.with_bounds == o.with_bounds,
                        self.root_id == o.root_id,
                        depth < self.max_depth,
                        self.frames@.len() <= self.budget,
                        queued_onto(f0, self.frames@, added, depth + 1),
                        kids@ == Seq::new(added.len(), |k: int| (f0.len() + k) as usize),
                        expect == (added, cut),
                    decreases refs.len() - j,
                {
                    assert(j < refs.len());
                    let ghost rest = rv.skip(j as int);
                    let ghost room = o.room() - added.len();
                    assert(rest[0] == rv[j as int]);
                    assert(rest.drop_first() =~= rv.skip(j + 1));
                    assert(o.room() == o.budget - f0.len());
                    assert(self.frames@.len() == f0.len() + added.len());
                    if self.frames.len() >= self.budget as usize {
                        cut = true;
                        assert(room <= 0);
                        assert(expect == (added, true));
                        break;
                    }
                    assert(room > 0);
                    match &refs[j] {
                        Some((bus, path)) => {
                            assert(rv[j as int] == Some((bus@, path@)));
                            if !bus.as_str().is_empty() {
                                let id = encode_id(bus.as_str(), path.as_str());
                                let at = self.frames.len();
                                self.frames.push(WalkFrame { id, depth: depth + 1 });
                                kids.push(at);
                                proof {
                                    let a0 = added;
                                    added = added.push(id_of(bus@, path@));
                                    assert(added =~= a0 + seq![id_of(bus@, path@)]);
                                    assert(seq![id_of(bus@, path@)] + queued_children(rest.drop_first(), room - 1).0
                                        == queued_children(rest, room).0);
                                    assert(a0 + queued_children(rest, room).0 =~= added + queued_children(rest.drop_first(), room - 1).0);
                                    assert(kids@ =~= Seq::new(added.len(), |k: int| (f0.len() + k) as usize));
                                }
                            }
                        },
                        None => {},
                    }
                    j = j + 1;
                }
            }
        }
        proof {
            if !listing || !(children is Some) {
                assert(kids@ =~= Seq::new(added.len(), |j: int| (f0.len() + j) as usize));
                assert(self.frames@ == f0);
                assert(queued_onto(f0, self.frames@, added, depth + 1));
            }
        }
        let NodeData { role, name, description, value, states, actions, bounds } = data;
        let actions = if self.with_actions { actions } else { Vec::new() };
        let bounds = if self.with_bounds { bounds } else { None };
        let ghost n0 = self.nodes@;
        let nd = NodeData { role, name, description, value, states, actions, bounds };
        assert(!self.with_actions ==> nd.actions@.len() == 0);
        assert(!self.with_bounds ==> nd.bounds is None);
        assert(kept(nd, data, self.with_actions, self.with_bounds));
        self.nodes.push(Some(nd));
        proof {
            assert(self.nodes@.drop_last() =~= n0);
            assert(self.nodes@.last() == Some(nd));
            assert forall|k: int| 0 <= k < self.nodes@.len() implies (#[trigger] self.nodes@[k] matches Some(d) ==> (!self.with_actions ==> d.actions@.len() == 0) && (!self.with_bounds ==> d.bounds is None)) by {
                if k < n0.len() {
                    assert(self.nodes@[k] == n0[k]);
                    assert(o.nodes@[k] == n0[k]);
                }
            }
        }
        let ghost cl0 = self.child_lists@;
        self.child_lists.push(kids);
        self.stats.nodes_emitted = self.stats.nodes_emitted + 1;
        self.stats.nodes_visited = self.stats.nodes_visited + 1;
        if cut {
            self.stats.truncated = true;
        }
        if depth >= self.max_depth && has_children {
            self.stats.max_depth_hit = true;
        }
        proof {
            let lists = self.child_lists@;
            assert forall|k: int, j: int|
                0 <= k < lists.len() && 0 <= j < lists[k]@.len() implies k < #[trigger] lists[k]@[j] < self.frames@.len() by {
                if k < cl0.len() {
                    assert(lists[k] == cl0[k]);
                } else {
                    assert(lists[k] == kids);
                    assert(f0.len() + j < self.frames.len());
                    assert(kids@[j] == (f0.len() + j) as usize);
                }
            }
            assert forall|k: int| 0 <= k < self.frames@.len() implies #[trigger] self.frames@[k].depth <= self.max_depth || k == 0 by {
                if k >= f0.len() {
                    let jj = k - f0.len();
                    assert(self.frames@[f0.len() + jj].depth == depth + 1);
                } else {
                    assert(self.frames@[k] == f0[k]);
                }
            }
            let ks = Seq::new(added.len(), |j: int| (f0.len() + j) as usize);
            assert(self.child_lists@ == cl0.push(kids));
            assert forall|k: int, j: int|
                0 <= k < lists.len() && 0 <= j < lists[k]@.len() implies self.frames@[#[trigger] lists[k]@[j] as int].depth == self.frames@[k].depth + 1 by {
                if k < cl0.len() {
                    assert(lists[k] == cl0[k]);
                    assert(cl0[k]@[j] < f0.len());
                    assert(self.frames@[cl0[k]@[j] as int] == f0[cl0[k]@[j] as int]);
                    assert(self.frames@[k] == f0[k]);
                } else {
                    assert(lists[k] == kids);
                    assert(kids@[j] == (f0.len() + j) as usize);
                    assert(self.frames@[f0.len() + j].depth == depth + 1);
                    assert(self.frames@[k] == f0[k]);
                }
            }
            assert(self.frames@[0] == f0[0]);
            assert(lists.drop_last() =~= cl0);
            assert(flat(lists) == flat(cl0) + kids@);
            assert(flat(lists) =~= Seq::new((self.frames@.len() - 1) as nat, |j: int| (j + 1) as usize));
            assert forall|k: int| 0 <= k < self.child_slots().len() implies #[trigger] self.child_slots()[k] == o.child_slots().push(ks)[k] by {
                if k < cl0.len() {
                    assert(self.child_lists@[k] == cl0[k]);
                }
            }
            assert(self.child_slots() =~= o.child_slots().push(ks));
        }
    }
}

// ── size and height of the finished tree ──────────────────────────────

/// Number of nodes in a tree.
pub open spec fn node_count(n: A11yNode) -> nat
    decreases n, 1int,
{
    1 + forest_count(n.children@)
}

/// Number of nodes in a forest.
pub open spec fn forest_count(ns: Seq<A11yNode>) -> nat
    decreases ns, 0int,
{
    if ns.len() == 0 {
        0
    } else {
        forest_count(ns.drop_last()) + node_count(ns.last())
    }
}

/// Height of a tree: the number of edges on its longest downward path (a
/// childless root has height zero).
pub open spec fn tree_height(n: A11yNode) -> nat
    decreases n, 1int,
{
    forest_height(n.children@)
}

/// Height of a forest seen from its parent: one more than its tallest tree,
/// zero when empty.
pub open spec fn forest_height(ns: Seq<A11yNode>) -> nat
    decreases ns, 0int,
{
    if ns.len() == 0 {
        0
    } else {
        let h = 1 + tree_height(ns.last());
        let t = forest_height(ns.drop_last());
        if h > t { h } else { t }
    }
}

proof fn lemma_built_height(r: A11yNode, w: TreeWalk, idx: int)
    requires
        w.wf(),
        built(r, w, idx),
    ensures
        w.frames@[idx].depth + tree_height(r) <= w.max_depth,
    decreases w.nodes@.len() - idx, 1int, 0int,
{
    lemma_built_kids_height(r.children@, w, idx, w.child_lists@[idx]@);
}

proof fn lemma_built_kids_height(rs: Seq<A11yNode>, w: TreeWalk, parent: int, cs: Seq<usize>)
    requires
        w.wf(),
        built_kids(rs, w, parent, cs),
        0 <= parent < w.nodes@.len(),
        forall|j: int| 0 <= j < cs.len() ==> w.frames@[#[trigger] cs[j] as int].depth == w.frames@[parent].depth + 1,
    ensures
        w.frames@[parent].depth + forest_height(rs) <= w.max_depth || rs.len() == 0,
    decreases w.nodes@.len() - parent, 0int, cs.len(),
{
    if cs.len() > 0 {
        let c = cs.last() as int;
        assert(w.frames@[cs[cs.len() - 1] as int].depth == w.frames@[parent].depth + 1);
        if parent < c < w.nodes@.len() && w.nodes@[c] is Some {
            lemma_built_height(rs.last(), w, c);
            lemma_built_kids_height(rs.drop_last(), w, parent, cs.drop_last());
            assert(w.frames@[c].depth <= w.max_depth || c == 0);
        } else {
            lemma_built_kids_height(rs, w, parent, cs.drop_last());
        }
    }
}

/// No node of the tree carries action names unless `actions`, nor extents
/// unless `bounds`.
pub open spec fn trimmed(n: A11yNode, actions: bool, bounds: bool) -> bool
    decreases n, 1int,
{
    &&& (!actions ==> n.actions@.len() == 0)
    &&& (!bounds ==> n.bounds is None)
    &&& forest_trimmed(n.children@, actions, bounds)
}

/// Every tree of the forest is [`trimmed`].
pub open spec fn forest_trimmed(ns: Seq<A11yNode>, actions: bool, bounds: bool) -> bool
    decreases ns, 0int,
{
    ns.len() == 0 || (forest_trimmed(ns.drop_last(), actions, bounds) && trimmed(ns.last(), actions, bounds))
}

proof fn lemma_built_trimmed(r: A11yNode, w: TreeWalk, idx: int)
    requires
        w.wf(),
        built(r, w, idx),
    ensures
        trimmed(r, w.with_actions, w.with_bounds),
    decreases w.nodes@.len() - idx, 1int, 0int,
{
    assert(w.nodes@[idx] matches Some(d) ==> (!w.with_actions ==> d.actions@.len() == 0) && (!w.with_bounds ==> d.bounds is None));
    lemma_built_kids_trimmed(r.children@, w, idx, w.child_lists@[idx]@);
}

proof fn lemma_built_kids_trimmed(rs: Seq<A11yNode>, w: TreeWalk, parent: int, cs: Seq<usize>)
    requires
        w.wf(),
        built_kids(rs, w, parent, cs),
        0 <= parent,
    ensures
        forest_trimmed(rs, w.with_actions, w.with_bounds),
    decreases w.nodes@.len() - parent, 0int, cs.len(),
{
    if cs.len() > 0 {
        let c = cs.last() as int;
        if parent < c < w.nodes@.len() && w.nodes@[c] is Some {
            lemma_built_trimmed(rs.last(), w, c);
            lemma_built_kids_trimmed(rs.drop_last(), w, parent, cs.drop_last());
        } else {
            lemma_built_kids_trimmed(rs, w, parent, cs.drop_last());
        }
    }
}

/// Nodes the tree built at slot `k` holds.
closed spec fn slot_size(w: TreeWalk, k: int) -> nat
    decreases w.nodes@.len() - k, 1int, 0int,
{
    if 0 <= k < w.nodes@.len() && w.nodes@.len() == w.child_lists@.len() && w.nodes@[k] is Some {
        1 + kids_size(w, k, w.child_lists@[k]@)
    } else {
        0
    }
}

/// Nodes the trees built for the entries of `cs` below `parent` hold.
closed spec fn kids_size(w: TreeWalk, parent: int, cs: Seq<usize>) -> nat
    decreases w.nodes@.len() - parent, 0int, cs.len(),
{
    if cs.len() == 0 {
        0
    } else {
        let c = cs.last() as int;
        kids_size(w, parent, cs.drop_last()) + if parent < c < w.nodes@.len() { slot_size(w, c) } else { 0 }
    }
}

proof fn lemma_built_count(r: A11yNode, w: TreeWalk, idx: int)
    requires
        built(r, w, idx),
        0 <= idx,
    ensures
        node_count(r) == slot_size(w, idx),
    decreases w.nodes@.len() - idx, 1int, 0int,
{
    lemma_built_kids_count(r.children@, w, idx, w.child_lists@[idx]@);
}

proof fn lemma_built_kids_count(rs: Seq<A11yNode>, w: TreeWalk, parent: int, cs: Seq<usize>)
    requires
        built_kids(rs, w, parent, cs),
        0 <= parent,
        w.nodes@.len() == w.child_lists@.len(),
    ensures
        forest_count(rs) == kids_size(w, parent, cs),
    decreases w.nodes@.len() - parent, 0int, cs.len(),
{
    if cs.len() > 0 {
        let c = cs.last() as int;
        if parent < c < w.nodes@.len() && w.nodes@[c] is Some {
            lemma_built_count(rs.last(), w, c);
            lemma_built_kids_count(rs.drop_last(), w, parent, cs.drop_last());
        } else {
            lemma_built_kids_count(rs, w, parent, cs.drop_last());
            if parent < c < w.nodes@.len() {
                assert(slot_size(w, c) == 0);
            }
        }
    }
}

/// Nodes the trees built at slots `a..b` hold together.
closed spec fn range_size(w: TreeWalk, a: int, b: int) -> nat
    decreases b - a,
{
    if b <= a {
        0
    } else {
        range_size(w, a, b - 1) + slot_size(w, b - 1)
    }
}

/// Queue position of the first child recorded for slot `k` (or where it
/// would be): one past the children of the slots before it.
closed spec fn start(w: TreeWalk, k: int) -> int {
    1 + flat(w.child_lists@.take(k)).len() as int
}

proof fn lemma_flat_prefix(ls: Seq<Vec<usize>>, m: int)
    requires
        0 <= m <= ls.len(),
    ensures
        flat(ls.take(m)).len() <= flat(ls).len(),
        forall|i: int| 0 <= i < flat(ls.take(m)).len() ==> #[trigger] flat(ls.take(m))[i] == flat(ls)[i],
        m < ls.len() ==> flat(ls.take(m + 1)) == flat(ls.take(m)) + ls[m]@,
    decreases ls.len(),
{
    if m < ls.len() {
        assert(ls.take(m + 1).drop_last() =~= ls.take(m));
        assert(ls.take(m + 1).last() == ls[m]);
    }
    if m == ls.len() {
        assert(ls.take(m) =~= ls);
    } else {
        let d = ls.drop_last();
        assert(d.take(m) =~= ls.take(m));
        lemma_flat_prefix(d, m);
    }
}

/// The children of slot `k` are the queue positions `start(k) ..
/// start(k + 1)`, and the starts never decrease.
proof fn lemma_segment(w: TreeWalk, k: int)
    requires
        w.wf(),
        0 <= k < w.nodes@.len(),
    ensures
        start(w, k + 1) == start(w, k) + w.child_lists@[k]@.len(),
        forall|j: int| 0 <= j < w.child_lists@[k]@.len() ==> #[trigger] w.child_lists@[k]@[j] == start(w, k) + j,
        start(w, k) <= start(w, k + 1) <= w.frames@.len(),
{
    let ls = w.child_lists@;
    lemma_flat_prefix(ls, k);
    lemma_flat_prefix(ls, k + 1);
    let pre = flat(ls.take(k));
    assert forall|j: int| 0 <= j < ls[k]@.len() implies #[trigger] ls[k]@[j] == start(w, k) + j by {
        assert(flat(ls.take(k + 1))[pre.len() + j] == ls[k]@[j]);
        assert(flat(ls)[pre.len() + j] == (pre.len() + j + 1) as usize);
    }
}

proof fn lemma_start_mono(w: TreeWalk, i: int, j: int)
    requires
        w.wf(),
        0 <= i <= j <= w.nodes@.len(),
    ensures
        start(w, i) <= start(w, j) <= w.frames@.len(),
    decreases j - i,
{
    if i < j {
        lemma_start_mono(w, i, j - 1);
        lemma_segment(w, j - 1);
    } else {
        lemma_flat_prefix(w.child_lists@, j);
    }
}

proof fn lemma_range_split(w: TreeWalk, a: int, m: int, b: int)
    requires
        a <= m <= b,
    ensures
        range_size(w, a, b) == range_size(w, a, m) + range_size(w, m, b),
    decreases b - m,
{
    if m < b {
        lemma_range_split(w, a, m, b - 1);
    }
}

proof fn lemma_range_past_arena(w: TreeWalk, a: int, b: int)
    requires
        w.nodes@.len() <= a,
    ensures
        range_size(w, a, b) == 0,
    decreases b - a,
{
    if a < b {
        lemma_range_past_arena(w, a, b - 1);
    }
}

/// The children of a slot, when they are the positions `s .. s + len`,
/// hold as many nodes as those positions.
proof fn lemma_kids_range(w: TreeWalk, parent: int, cs: Seq<usize>, s: int)
    requires
        cs.len() > 0 ==> parent < s,
        forall|j: int| 0 <= j < cs.len() ==> #[trigger] cs[j] == s + j,
    ensures
        kids_size(w, parent, cs) == range_size(w, s, s + cs.len()),
    decreases cs.len(),
{
    if cs.len() > 0 {
        let d = cs.drop_last();
        assert forall|j: int| 0 <= j < d.len() implies #[trigger] d[j] == s + j by {
            assert(d[j] == cs[j]);
        }
        lemma_kids_range(w, parent, d, s);
        assert(cs.last() == s + cs.len() - 1);
        if s + cs.len() - 1 >= w.nodes@.len() {
            assert(slot_size(w, s + cs.len() - 1) == 0);
        }
    }
}

/// Slots `a..b` hold at most their own count plus what their children hold.
proof fn lemma_range_children(w: TreeWalk, a: int, b: int)
    requires
        w.wf(),
        0 <= a <= b <= w.nodes@.len(),
    ensures
        range_size(w, a, b) <= (b - a) + range_size(w, start(w, a), start(w, b)),
    decreases b - a,
{
    if a < b {
        lemma_range_children(w, a, b - 1);
        let k = b - 1;
        lemma_segment(w, k);
        lemma_start_mono(w, a, k);
        let cs = w.child_lists@[k]@;
        if cs.len() > 0 {
            assert(k < cs[0]);
            assert(cs[0] == start(w, k) + 0);
        }
        lemma_kids_range(w, k, cs, start(w, k));
        lemma_range_split(w, start(w, a), start(w, k), start(w, b));
    }
}

/// A level of slots `a..b` whose parents all lie before `a` holds at most
/// as many nodes as there are queue positions from `a` on.
proof fn lemma_level_size(w: TreeWalk, a: int, b: int)
    requires
        w.wf(),
        0 <= a <= b <= w.nodes@.len(),
        b <= start(w, a),
    ensures
        range_size(w, a, b) <= w.frames@.len() - a,
    decreases w.frames@.len() - a,
{
    if a < b {
        let n = w.nodes@.len() as int;
        lemma_range_children(w, a, b);
        lemma_start_mono(w, a, b);
        let a2 = start(w, a);
        let e = start(w, b);
        if a2 >= n {
            lemma_range_past_arena(w, a2, e);
        } else {
            let b2 = if e < n { e } else { n };
            lemma_range_split(w, a2, b2, e);
            if e >= n {
                lemma_range_past_arena(w, b2, e);
            }
            lemma_start_mono(w, b, a2);
            lemma_level_size(w, a2, b2);
        }
    }
}

/// The tree built at the root holds no more nodes than were queued.
proof fn lemma_root_size(r: A11yNode, w: TreeWalk)
    requires
        w.wf(),
        built(r, w, 0),
    ensures
        node_count(r) <= w.frames@.len(),
{
    lemma_built_count(r, w, 0);
    assert(w.child_lists@.take(0) =~= Seq::<Vec<usize>>::empty());
    assert(start(w, 0) == 1);
    lemma_level_size(w, 0, 1);
    assert(range_size(w, 0, 0) == 0);
    assert(range_size(w, 0, 1) == slot_size(w, 0));
}

impl TreeWalk {
    /// The node for visited slot `idx`, with its reachable children below it.
    fn build(&self, idx: usize) -> (r: A11yNode)
        requires
            self.wf(),
            idx < self.nodes@.len(),
            self.nodes@[idx as int] is Some,
        ensures
            built(r, *self, idx as int),
        decreases self.nodes@.len() - idx,
    {
        let list = &self.child_lists[idx];
        let mut kids: Vec<A11yNode> = Vec::new();
        let mut j: usize = 0;
        assert(list@.take(0) =~= Seq::<usize>::empty());
        while j < list.len()
            invariant
                self.wf(),
                idx < self.nodes@.len(),
                list == self.child_lists@[idx as int],
                j <= list@.len(),
                built_kids(kids@, *self, idx as int, list@.take(j as int)),
            decreases list.len() - j,
        {
            let c = list[j];
            assert(idx < c < self.frames@.len());
            let ghost k0 = kids@;
            if c < self.nodes.len() {
                match &self.nodes[c] {
                    Some(_) => {
                        let k = self.build(c);
                        kids.push(k);
                    },
                    None => {},
                }
            }
            proof {
                let cs = list@.take(j + 1);
                assert(cs.drop_last() =~= list@.take(j as int));
                assert(cs.last() == c);
                if c < self.nodes@.len() && self.nodes@[c as int] is Some {
                    assert(kids@.drop_last() =~= k0);
                }
            }
            j = j + 1;
        }
        assert(list@.take(list@.len() as int) =~= list@);
        let d = match &self.nodes[idx] {
            Some(d) => d,
            None => {
                assert(false);
                return A11yNode {
                    id: None,
                    role: String::new(),
                    name: None,
                    description: None,
                    value: None,
                    states: Vec::new(),
                    actions: Vec::new(),
                    bounds: None,
                    children: Vec::new(),
                };
            },
        };
        A11yNode {
            id: Some(self.frames[idx].id.clone()),
            role: d.role.clone(),
            name: clone_opt(&d.name),
            description: clone_opt(&d.description),
            value: clone_opt(&d.value),
            states: clone_strings(&d.states),
            actions: clone_strings(&d.actions),
            bounds: d.bounds,
            children: kids,
        }
    }

    /// End the walk: the root's node with its visited subtree (or an
    /// `unknown` node carrying the root id when the root could not be read),
    /// and the counters, marked truncated when queued objects were left
    /// unvisited. The tree never has more nodes than the budget nor more
    /// levels below the root than the depth limit, and carries no action
    /// names or extents that were not asked for; no more objects were
    /// visited than the budget allows.
    pub fn finish(self) -> (r: (A11yNode, SnapshotStats))
        requires
            self.wf(),
        ensures
            (self.arena().len() > 0 && self.arena()[0] is Some) ==> built(r.0, self, 0),
            !(self.arena().len() > 0 && self.arena()[0] is Some) ==> unknown_root(r.0, self.root()),
            r.1 == (SnapshotStats {
                truncated: self.counters().truncated || self.arena().len() < self.queue().len(),
                ..self.counters()
            }),
            r.1.nodes_emitted <= r.1.nodes_visited,
            r.1.nodes_visited <= self.node_budget(),
            node_count(r.0) <= self.node_budget(),
            tree_height(r.0) <= self.depth_limit(),
            trimmed(r.0, self.reads_actions(), self.reads_bounds()),
            forall|o: SnapshotOpts| self.made_for(o) ==> within_opts(r.0, r.1, o),
    {
        let root = if self.nodes.len() > 0 && self.nodes[0].is_some() {
            self.build(0)
        } else {
            let unknown = owned("unknown");
            proof {
                reveal_strlit("unknown");
            }
            A11yNode {
                id: Some(owned(self.root_id.as_str())),
                role: unknown,
                name: None,
                description: None,
                value: None,
                states: Vec::new(),
                actions: Vec::new(),
                bounds: None,
                children: Vec::new(),
            }
        };
        proof {
            if self.nodes@.len() > 0 && self.nodes@[0] is Some {
                lemma_root_size(root, self);
                lemma_built_height(root, self, 0);
                lemma_built_trimmed(root, self, 0);
            } else {
                assert(root.children@ =~= Seq::<A11yNode>::empty());
                assert(forest_count(root.children@) == 0);
            }
        }
        let mut stats = self.stats;
        if self.nodes.len() < self.frames.len() {
            stats.truncated = true;
        }
        (root, stats)
    }
}

// ── the bounded search for a focused descendant ────────────────────────

/// Objects a focus search reads at most.
pub const FOCUS_SCAN_BUDGET: u32 = 80;

/// Depth below the window past which a focus search does not descend.
pub const FOCUS_SCAN_MAX_DEPTH: u32 = 8;

/// A depth-first search below a window for an object in the `focused` state,
/// reading at most [`FOCUS_SCAN_BUDGET`] objects and descending at most
/// [`FOCUS_SCAN_MAX_DEPTH`] levels. The pending objects form a stack: the
/// last child queued is read next.
pub struct FocusScan {
    stack: Vec<(String, u32)>,
    budget: u32,
    found: bool,
}

/// The ids pushed for child references: every non-null one, in order.
pub open spec fn pushed_children(refs: Seq<Option<(String, String)>>, depth: int) -> Seq<(Seq<char>, int)>
    decreases refs.len(),
{
    if refs.len() == 0 {
        Seq::empty()
    } else {
        let rest = pushed_children(refs.drop_last(), depth);
        match refs.last() {
            Some((b, p)) => rest.push((id_of(b@, p@), depth)),
            None => rest,
        }
    }
}

/// Plain view of a stack of `(id, depth)` entries.
pub open spec fn stack_view(s: Seq<(String, u32)>) -> Seq<(Seq<char>, int)> {
    s.map_values(|e: (String, u32)| (e.0@, e.1 as int))
}

impl FocusScan {
    /// Pending objects, the next one last.
    pub closed spec fn pending(self) -> Seq<(Seq<char>, int)> {
        stack_view(self.stack@)
    }

    /// Reads left.
    pub closed spec fn reads_left(self) -> u32 {
        self.budget
    }

    /// Whether a focused object was seen.
    pub closed spec fn seen(self) -> bool {
        self.found
    }

    /// Start below the window `window_id`.
    pub fn new(window_id: &str) -> (r: FocusScan)
        ensures
            r.pending() == seq![(window_id@, 0int)],
            r.reads_left() == FOCUS_SCAN_BUDGET,
            !r.seen(),
    {
        let mut stack: Vec<(String, u32)> = Vec::new();
        stack.push((owned(window_id), 0));
        let r = FocusScan { stack, budget: FOCUS_SCAN_BUDGET, found: false };
        assert(r.pending() =~= seq![(window_id@, 0int)]);
        r
    }

    /// The next object to read, taken off the stack; `None` when the search
    /// is over (a focused object was seen, nothing is pending, or the read
    /// budget is spent — then the stack is dropped).
    pub fn next(&mut self) -> (r: Option<(String, u32)>)
        ensures
            old(self).seen() ==> r is None && *final(self) == *old(self),
            !old(self).seen() && old(self).pending().len() == 0 ==> r is None && *final(self) == *old(self),
            !old(self).seen() && old(self).pending().len() > 0 && old(self).reads_left() == 0 ==>
                r is None && final(self).pending().len() == 0 && !final(self).seen() && final(self).reads_left() == 0,
            !old(self).seen() && old(self).pending().len() > 0 && old(self).reads_left() > 0 ==> {
                &&& r matches Some(e) && (e.0@, e.1 as int) == old(self).pending().last()
                &&& final(self).pending() == old(self).pending().drop_last()
                &&& final(self).reads_left() == old(self).reads_left() - 1
                &&& !final(self).seen()
            },
    {
        if self.found {
            return None;
        }
        if self.stack.len() == 0 {
            return None;
        }
        if self.budget == 0 {
            self.stack = Vec::new();
            assert(self.pending() =~= Seq::<(Seq<char>, int)>::empty());
            return None;
        }
        let ghost s0 = self.stack@;
        let e = self.stack.pop().unwrap();
        self.budget = self.budget - 1;
        proof {
            assert(s0 =~= self.stack@.push(e));
            assert(stack_view(self.stack@) =~= stack_view(s0).drop_last());
        }
        Some(e)
    }

    /// Report what was read of the object `next` handed out at `depth`:
    /// whether it is focused, and its child references (`None` for a null
    /// one or one without a bus name; `None` as a whole when they could not be
    /// listed). Children are pushed only below the depth limit and while
    /// reads are left.
    pub fn report(&mut self, depth: u32, focused: bool, children: Option<Vec<Option<(String, String)>>>)
        ensures
            final(self).reads_left() == old(self).reads_left(),
            focused ==> final(self).seen() && final(self).pending() == old(self).pending(),
            !focused ==> final(self).seen() == old(self).seen(),
            !focused ==> final(self).pending() == match children {
                Some(refs) => if depth < FOCUS_SCAN_MAX_DEPTH && old(self).reads_left() > 0 {
                    old(self).pending() + pushed_children(refs@, depth + 1)
                } else {
                    old(self).pending()
                },
                None => old(self).pending(),
            },
    {
        if focused {
            self.found = true;
            return;
        }
        if depth >= FOCUS_SCAN_MAX_DEPTH || self.budget == 0 {
            return;
        }
        if let Some(refs) = children {
            let ghost p0 = stack_view(self.stack@);
            let mut j: usize = 0;
            while j < refs.len()
                invariant
                    j <= refs.len(),
                    depth < FOCUS_SCAN_MAX_DEPTH,
                    self.budget == old(self).budget,
                    self.found == old(self).found,
                    p0 == old(self).pending(),
                    stack_view(self.stack@) == p0 + pushed_children(refs@.take(j as int), depth + 1),
                decreases refs.len() - j,
            {
                let ghost before = self.stack@;
                match &refs[j] {
                    Some((bus, path)) => {
                        let id = encode_id(bus.as_str(), path.as_str());
                        self.stack.push((id, depth + 1));
                        proof {
                            assert(self.stack@ == before.push((id, (depth + 1) as u32)));
                            assert(stack_view(self.stack@) =~= stack_view(before).push((id_of(bus@, path@), depth + 1)));
                        }
                    },
                    None => {},
                }
                proof {
                    let t = refs@.take(j + 1);
                    assert(t.drop_last() =~= refs@.take(j as int));
                    assert(t.last() == refs@[j as int]);
                    assert(stack_view(self.stack@) =~= p0 + pushed_children(t, depth + 1));
                }
                j = j + 1;
            }
            assert(refs@.take(refs@.len() as int) =~= refs@);
        }
    }

    /// Whether the search saw a focused object.
    pub fn saw_focus(&self) -> (r: bool)
        ensures
            r == self.seen(),
    {
        self.found
    }
}

/// `new_q` is `old_q` followed by frames with the ids `ids`, all at `depth`.
pub open spec fn queued_onto(old_q: Seq<WalkFrame>, new_q: Seq<WalkFrame>, ids: Seq<Seq<char>>, depth: int) -> bool {
    &&& new_q.len() == old_q.len() + ids.len()
    &&& forall|k: int| 0 <= k < old_q.len() ==> #[trigger] new_q[k] == old_q[k]
    &&& forall|j: int| 0 <= j < ids.len() ==> (#[trigger] new_q[old_q.len() + j]).id@ == ids[j] && new_q[old_q.len() + j].depth == depth
}

} // verus!
