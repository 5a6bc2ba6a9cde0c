//! The MCP tool catalog: each tool's name, description, arguments and the
//! annotations a host's policy engine reads (read-only, destructive, open
//! world). The MCP face renders it as `tools/list` JSON.

use vstd::prelude::*;

use crate::text::owned;

verus! {

/// JSON type of a tool argument.
#[derive(Debug, Clone, Copy, PartialEq, Eq)]
pub enum ArgKind {
    Text,
    Integer,
    Flag,
}

/// One argument of a tool's input schema.
#[derive(Debug, Clone, PartialEq, Eq)]
pub struct ArgSpec {
    pub name: String,
    pub kind: ArgKind,
    /// Description shown to the caller, when there is one.
    pub note: Option<String>,
    /// Least value an integer argument accepts, when bounded.
    pub minimum: Option<u32>,
}

/// One tool of the catalog.
#[derive(Debug, Clone, PartialEq, Eq)]
pub struct ToolSpec {
    pub name: String,
    pub description: String,
    /// Arguments, in schema order; no other argument is accepted.
    pub args: Vec<ArgSpec>,
    pub read_only: bool,
    pub destructive: bool,
    pub open_world: bool,
}

/// An argument as plain values: name, kind, note, minimum.
pub open spec fn arg_view(a: ArgSpec) -> (Seq<char>, ArgKind, Option<Seq<char>>, Option<u32>) {
    (a.name@, a.kind, match a.note { Some(n) => Some(n@), None => None }, a.minimum)
}

/// The arguments that name a target window or application.
pub open spec fn target_arg_views() -> Seq<(Seq<char>, ArgKind, Option<Seq<char>>, Option<u32>)> {
    seq![
        ("id"@, ArgKind::Text, None, None),
        ("name"@, ArgKind::Text, None, None),
        ("pid"@, ArgKind::Integer, None, None),
        ("frontmost"@, ArgKind::Flag, None, None),
    ]
}

/// The arguments of `snapshot`.
pub open spec fn snapshot_arg_views() -> Seq<(Seq<char>, ArgKind, Option<Seq<char>>, Option<u32>)> {
    seq![
        ("id"@, ArgKind::Text, Some("{bus}|{path} element/window id"@), None),
        ("name"@, ArgKind::Text, Some("window title or app name substring"@), None),
        ("pid"@, ArgKind::Integer, None, None),
        ("frontmost"@, ArgKind::Flag, None, None),
        ("max_depth"@, ArgKind::Integer, None, Some(0u32)),
        ("max_nodes"@, ArgKind::Integer, None, Some(1u32)),
    ]
}

/// The arguments of `find_elements`.
pub open spec fn find_arg_views() -> Seq<(Seq<char>, ArgKind, Option<Seq<char>>, Option<u32>)> {
    seq![
        ("id"@, ArgKind::Text, None, None),
        ("name"@, ArgKind::Text, Some("window/app target substring"@), None),
        ("pid"@, ArgKind::Integer, None, None),
        ("frontmost"@, ArgKind::Flag, None, None),
        ("role"@, ArgKind::Text, None, None),
        ("element_name"@, ArgKind::Text, Some("accessible name filter"@), None),
        ("name_exact"@, ArgKind::Flag, None, None),
        ("text"@, ArgKind::Text, None, None),
        ("state"@, ArgKind::Text, None, None),
        ("max_results"@, ArgKind::Integer, None, Some(1u32)),
    ]
}

/// The catalog's tool names, in `tools/list` order.
pub open spec fn catalog_names() -> Seq<Seq<char>> {
    seq![
        "doctor"@,
        "list_apps"@,
        "list_windows"@,
        "frontmost"@,
        "activate"@,
        "snapshot"@,
        "find_elements"@,
        "focused_element"@,
    ]
}

/// The catalog's descriptions, in the same order.
pub open spec fn catalog_descriptions() -> Seq<Seq<char>> {
    seq![
        "Structured readiness report: session, AT-SPI, input/capture status, recommendations. Read-only. Run before GUI work."@,
        "List AT-SPI application roots (name, pid, toolkit, window_count, id). Read-only."@,
        "List top-level windows/frames (title, app, pid, focused, bounds, id). Read-only."@,
        "Best-effort frontmost/focused window. Read-only. May NotFound on compositors that under-report active state."@,
        "Focus/raise a window via AT-SPI GrabFocus. Mutating. Target by id, name substring, pid, or frontmost."@,
        "Compact accessibility tree of a window/app. Read-only. Prefer this over screenshots. Optional max_depth (default 6), max_nodes (default 200)."@,
        "Find elements under a target by role/name/text/state. Read-only. Prefer over pixel search."@,
        "Details of the focused accessible under a target (default frontmost). Read-only."@,
    ]
}

/// The arguments of the tool named `n`: none for the discovery tools.
pub open spec fn catalog_args(n: Seq<char>) -> Seq<(Seq<char>, ArgKind, Option<Seq<char>>, Option<u32>)> {
    if n == "activate"@ || n == "focused_element"@ {
        target_arg_views()
    } else if n == "snapshot"@ {
        snapshot_arg_views()
    } else if n == "find_elements"@ {
        find_arg_views()
    } else {
        Seq::empty()
    }
}

fn arg(name: &str, kind: ArgKind, note: Option<&str>, minimum: Option<u32>) -> (r: ArgSpec)
    ensures
        arg_view(r) == (name@, kind, match note { Some(n) => Some(n@), None => None::<Seq<char>> }, minimum),
{
    ArgSpec {
        name: owned(name),
        kind,
        note: match note {
            Some(n) => Some(owned(n)),
            None => None,
        },
        minimum,
    }
}

fn target_args() -> (r: Vec<ArgSpec>)
    ensures
        r@.map_values(|a: ArgSpec| arg_view(a)) == target_arg_views(),
{
    let v = vec![
        arg("id", ArgKind::Text, None, None),
        arg("name", ArgKind::Text, None, None),
        arg("pid", ArgKind::Integer, None, None),
        arg("frontmost", ArgKind::Flag, None, None),
    ];
    assert(v@.map_values(|a: ArgSpec| arg_view(a)) =~= target_arg_views());
    v
}

fn snapshot_args() -> (r: Vec<ArgSpec>)
    ensures
        r@.map_values(|a: ArgSpec| arg_view(a)) == snapshot_arg_views(),
{
    let v = vec![
        arg("id", ArgKind::Text, Some("{bus}|{path} element/window id"), None),
        arg("name", ArgKind::Text, Some("window title or app name substring"), None),
        arg("pid", ArgKind::Integer, None, None),
        arg("frontmost", ArgKind::Flag, None, None),
        arg("max_depth", ArgKind::Integer, None, Some(0)),
        arg("max_nodes", ArgKind::Integer, None, Some(1)),
    ];
    assert(v@.map_values(|a: ArgSpec| arg_view(a)) =~= snapshot_arg_views());
    v
}

fn find_args() -> (r: Vec<ArgSpec>)
    ensures
        r@.map_values(|a: ArgSpec| arg_view(a)) == find_arg_views(),
{
    let v = vec![
        arg("id", ArgKind::Text, None, None),
        arg("name", ArgKind::Text, Some("window/app target substring"), None),
        arg("pid", ArgKind::Integer, None, None),
        arg("frontmost", ArgKind::Flag, None, None),
        arg("role", ArgKind::Text, None, None),
        arg("element_name", ArgKind::Text, Some("accessible name filter"), None),
        arg("name_exact", ArgKind::Flag, None, None),
        arg("text", ArgKind::Text, None, None),
        arg("state", ArgKind::Text, None, None),
        arg("max_results", ArgKind::Integer, None, Some(1)),
    ];
    assert(v@.map_values(|a: ArgSpec| arg_view(a)) =~= find_arg_views());
    v
}

fn tool_spec(name: &str, description: &str, args: Vec<ArgSpec>, read_only: bool) -> (r: ToolSpec)
    ensures
        r.name@ == name@,
        r.description@ == description@,
        r.args@ == args@,
        r.read_only == read_only,
        !r.destructive,
        !r.open_world,
{
    ToolSpec { name: owned(name), description: owned(description), args, read_only, destructive: false, open_world: false }
}

/// The tools served over MCP, in `tools/list` order. Every tool but
/// `activate` is read-only; none is destructive or reaches the open world.
pub fn tool_catalog() -> (r: Vec<ToolSpec>)
    ensures
        r@.len() == 8,
        r@.map_values(|t: ToolSpec| t.name@) == catalog_names(),
        r@.map_values(|t: ToolSpec| t.description@) == catalog_descriptions(),
        forall|i: int| 0 <= i < 8 ==> (#[trigger] r@[i]).read_only == (r@[i].name@ != "activate"@) && !r@[i].destructive && !r@[i].open_world,
        forall|i: int| 0 <= i < 8 ==> (#[trigger] r@[i]).args@.map_values(|a: ArgSpec| arg_view(a)) == catalog_args(r@[i].name@),
{
    let r = vec![
        tool_spec(
            "doctor",
            "Structured readiness report: session, AT-SPI, input/capture status, recommendations. Read-only. Run before GUI work.",
            Vec::new(),
            true,
        ),
        tool_spec("list_apps", "List AT-SPI application roots (name, pid, toolkit, window_count, id). Read-only.", Vec::new(), true),
        tool_spec("list_windows", "List top-level windows/frames (title, app, pid, focused, bounds, id). Read-only.", Vec::new(), true),
        tool_spec(
            "frontmost",
            "Best-effort frontmost/focused window. Read-only. May NotFound on compositors that under-report active state.",
            Vec::new(),
            true,
        ),
        tool_spec(
            "activate",
            "Focus/raise a window via AT-SPI GrabFocus. Mutating. Target by id, name substring, pid, or frontmost.",
            target_args(),
            false,
        ),
        tool_spec(
            "snapshot",
            "Compact accessibility tree of a window/app. Read-only. Prefer this over screenshots. Optional max_depth (default 6), max_nodes (default 200).",
            snapshot_args(),
            true,
        ),
        tool_spec(
            "find_elements",
            "Find elements under a target by role/name/text/state. Read-only. Prefer over pixel search.",
            find_args(),
            true,
        ),
        tool_spec(
            "focused_element",
            "Details of the focused accessible under a target (default frontmost). Read-only.",
            target_args(),
            true,
        ),
    ];
    proof {
        reveal_strlit("doctor");
        reveal_strlit("list_apps");
        reveal_strlit("list_windows");
        reveal_strlit("frontmost");
        reveal_strlit("activate");
        reveal_strlit("snapshot");
        reveal_strlit("find_elements");
        reveal_strlit("focused_element");
        assert(r@.map_values(|t: ToolSpec| t.name@) =~= catalog_names());
        assert(r@.map_values(|t: ToolSpec| t.description@) =~= catalog_descriptions());
        // the names differ in length or first letter
        assert("doctor"@.len() == 6);
        assert("list_apps"@.len() == 9 && "list_apps"@[0] == 'l');
        assert("list_windows"@.len() == 12);
        assert("frontmost"@.len() == 9 && "frontmost"@[0] == 'f');
        assert("activate"@.len() == 8 && "activate"@[0] == 'a');
        assert("snapshot"@.len() == 8 && "snapshot"@[0] == 's');
        assert("find_elements"@.len() == 13);
        assert("focused_element"@.len() == 15);
        assert forall|i: int| 0 <= i < 8 implies (#[trigger] r@[i]).read_only == (r@[i].name@ != "activate"@) && !r@[i].destructive && !r@[i].open_world
            && r@[i].args@.map_values(|a: ArgSpec| arg_view(a)) == catalog_args(r@[i].name@) by {
            if i == 0 {} else if i == 1 {} else if i == 2 {} else if i == 3 {} else if i == 4 {} else if i == 5 {} else if i == 6 {} else {}
        }
    }
    r
}

} // verus!
