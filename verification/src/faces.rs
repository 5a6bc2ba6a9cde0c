//! Decisions of the command-line and MCP faces: target selection from flags
//! and arguments, request routing, reply classification, and the plain-text
//! renderings of the command line. Argument parsing, JSON and the streams
//! stay with the faces themselves.

use vstd::prelude::*;

use crate::error::{message_of, HarnessError};
use crate::text::{bool_text, debug_quoted, debug_str, decimal, owned, push_bool, push_count, push_str, starts_with, str_eq, trim, trim_str};
use crate::types::{A11yNode, FindQuery, SnapshotOpts, TargetRef, WindowInfo};
use crate::wait::join_with;
use crate::walk::SnapshotStats;

verus! {

// ── targets ────────────────────────────────────────────────────────────

/// How many selectors were given.
pub open spec fn selector_count(id: bool, name: bool, pid: bool, frontmost: bool) -> int {
    (if id { 1int } else { 0 }) + (if name { 1int } else { 0 }) + (if pid { 1int } else { 0 }) + (if frontmost { 1int } else { 0 })
}

/// The target named by the command-line selectors `--id`, `--name`, `--pid`
/// and `--frontmost`: exactly one must be given.
pub fn target_from_flags(id: Option<String>, name: Option<String>, pid: Option<u32>, frontmost: bool) -> (r: Result<TargetRef, String>)
    ensures
        selector_count(id is Some, name is Some, pid is Some, frontmost) > 1
            ==> (r matches Err(m) && m@ == "specify only one of --id / --name / --pid / --frontmost"@),
        selector_count(id is Some, name is Some, pid is Some, frontmost) == 0
            ==> (r matches Err(m) && m@ == "need a target: --id, --name, --pid, or --frontmost"@),
        selector_count(id is Some, name is Some, pid is Some, frontmost) == 1 ==> match (id, name, pid) {
            (Some(i), _, _) => r == Ok::<TargetRef, String>(TargetRef::Id(i)),
            (_, Some(n), _) => r == Ok::<TargetRef, String>(TargetRef::Name(n)),
            (_, _, Some(p)) => r == Ok::<TargetRef, String>(TargetRef::Pid(p)),
            _ => r == Ok::<TargetRef, String>(TargetRef::Frontmost),
        },
{
    let set: u8 = (if id.is_some() { 1u8 } else { 0 }) + (if name.is_some() { 1u8 } else { 0 })
        + (if pid.is_some() { 1u8 } else { 0 }) + (if frontmost { 1u8 } else { 0 });
    if set > 1 {
        return Err(owned("specify only one of --id / --name / --pid / --frontmost"));
    }
    if let Some(i) = id {
        return Ok(TargetRef::Id(i));
    }
    if let Some(n) = name {
        return Ok(TargetRef::Name(n));
    }
    if let Some(p) = pid {
        return Ok(TargetRef::Pid(p));
    }
    if frontmost {
        return Ok(TargetRef::Frontmost);
    }
    Err(owned("need a target: --id, --name, --pid, or --frontmost"))
}

/// An optional target from the selectors: none when no selector was given.
pub fn optional_target(id: Option<String>, name: Option<String>, pid: Option<u32>, frontmost: bool) -> (r: Result<Option<TargetRef>, String>)
    ensures
        selector_count(id is Some, name is Some, pid is Some, frontmost) == 0 ==> r matches Ok(None),
        selector_count(id is Some, name is Some, pid is Some, frontmost) > 1
            ==> (r matches Err(m) && m@ == "specify only one of --id / --name / --pid / --frontmost"@),
        selector_count(id is Some, name is Some, pid is Some, frontmost) == 1 ==> match (id, name, pid) {
            (Some(i), _, _) => r == Ok::<Option<TargetRef>, String>(Some(TargetRef::Id(i))),
            (_, Some(n), _) => r == Ok::<Option<TargetRef>, String>(Some(TargetRef::Name(n))),
            (_, _, Some(p)) => r == Ok::<Option<TargetRef>, String>(Some(TargetRef::Pid(p))),
            _ => r == Ok::<Option<TargetRef>, String>(Some(TargetRef::Frontmost)),
        },
{
    if id.is_none() && name.is_none() && pid.is_none() && !frontmost {
        return Ok(None);
    }
    match target_from_flags(id, name, pid, frontmost) {
        Ok(t) => Ok(Some(t)),
        Err(e) => Err(e),
    }
}

/// A string argument, kept only when non-empty.
pub fn str_arg(v: Option<String>) -> (r: Option<String>)
    ensures
        r == match v {
            Some(s) => if s@.len() > 0 { Some(s) } else { None },
            None => None,
        },
{
    match v {
        Some(s) => if s.as_str().is_empty() {
            None
        } else {
            Some(s)
        },
        None => None,
    }
}

/// The target named by MCP tool arguments (string ids and names count only
/// when non-empty; a pid is cut to 32 bits): at most one selector may be
/// given, and none means the frontmost window.
pub fn target_from_args(id: Option<String>, name: Option<String>, pid: Option<u64>, frontmost: Option<bool>) -> (r: Result<TargetRef, String>)
    ensures
        ({
            let i = match id { Some(s) => if s@.len() > 0 { Some(s) } else { None }, None => None };
            let n = match name { Some(s) => if s@.len() > 0 { Some(s) } else { None }, None => None };
            let f = frontmost == Some(true);
            let c = selector_count(i is Some, n is Some, pid is Some, f);
            &&& c > 1 ==> (r matches Err(m) && m@ == "specify only one of id/name/pid/frontmost"@)
            &&& c <= 1 ==> match (i, n, pid) {
                (Some(x), _, _) => r == Ok::<TargetRef, String>(TargetRef::Id(x)),
                (_, Some(x), _) => r == Ok::<TargetRef, String>(TargetRef::Name(x)),
                (_, _, Some(p)) => r == Ok::<TargetRef, String>(TargetRef::Pid(p as u32)),
                _ => r == Ok::<TargetRef, String>(TargetRef::Frontmost),
            }
        }),
{
    let id = str_arg(id);
    let name = str_arg(name);
    let pid: Option<u32> = match pid {
        Some(p) => Some(#[verifier::truncate] (p as u32)),
        None => None,
    };
    let frontmost = match frontmost {
        Some(b) => b,
        None => false,
    };
    let set: u8 = (if id.is_some() { 1u8 } else { 0 }) + (if name.is_some() { 1u8 } else { 0 })
        + (if pid.is_some() { 1u8 } else { 0 }) + (if frontmost { 1u8 } else { 0 });
    if set > 1 {
        return Err(owned("specify only one of id/name/pid/frontmost"));
    }
    if let Some(i) = id {
        return Ok(TargetRef::Id(i));
    }
    if let Some(n) = name {
        return Ok(TargetRef::Name(n));
    }
    if let Some(p) = pid {
        return Ok(TargetRef::Pid(p));
    }
    if frontmost || set == 0 {
        return Ok(TargetRef::Frontmost);
    }
    Err(owned("need a target: id, name, pid, or frontmost"))
}

/// Snapshot options from MCP arguments: depth 6 and 200 nodes unless given
/// (given values are cut to 32 bits), bounds and actions included.
pub fn mcp_snapshot_opts(max_depth: Option<u64>, max_nodes: Option<u64>) -> (r: SnapshotOpts)
    ensures
        r.max_depth == match max_depth { Some(d) => d as u32, None => 6u32 },
        r.max_nodes == match max_nodes { Some(n) => n as u32, None => 200u32 },
        r.include_bounds && r.include_actions,
{
    let d: u64 = match max_depth {
        Some(d) => d,
        None => 6,
    };
    let n: u64 = match max_nodes {
        Some(n) => n,
        None => 200,
    };
    SnapshotOpts {
        max_depth: #[verifier::truncate] (d as u32),
        max_nodes: #[verifier::truncate] (n as u32),
        include_bounds: true,
        include_actions: true,
    }
}

/// Search query from MCP arguments: empty strings count as absent, no
/// description filter, at most 25 results unless given (cut to 32 bits).
pub fn mcp_find_query(
    role: Option<String>,
    element_name: Option<String>,
    name_exact: Option<bool>,
    text: Option<String>,
    state: Option<String>,
    max_results: Option<u64>,
) -> (r: FindQuery)
    ensures
        r.role == match role { Some(s) => if s@.len() > 0 { Some(s) } else { None }, None => None },
        r.name == match element_name { Some(s) => if s@.len() > 0 { Some(s) } else { None }, None => None },
        r.name_exact == (name_exact == Some(true)),
        r.text == match text { Some(s) => if s@.len() > 0 { Some(s) } else { None }, None => None },
        r.state == match state { Some(s) => if s@.len() > 0 { Some(s) } else { None }, None => None },
        r.description is None,
        r.max_results == match max_results { Some(m) => m as u32, None => 25u32 },
{
    let m: u64 = match max_results {
        Some(m) => m,
        None => 25,
    };
    FindQuery {
        role: str_arg(role),
        name: str_arg(element_name),
        name_exact: match name_exact {
            Some(b) => b,
            None => false,
        },
        text: str_arg(text),
        state: str_arg(state),
        description: None,
        max_results: #[verifier::truncate] (m as u32),
    }
}

/// The text of an error as the faces print it.
pub fn err_str(e: &HarnessError) -> (r: String)
    ensures
        message_of(*e) matches Some(t) ==> r@ == t,
{
    e.message()
}

// ── MCP requests ───────────────────────────────────────────────────────

/// Largest request frame read, in bytes.
pub const MAX_FRAME_BYTES: usize = 33554432;

/// What to do with one input line.
pub enum Frame {
    /// Longer than [`MAX_FRAME_BYTES`]: dropped.
    TooLarge,
    /// Only whitespace: skipped.
    Blank,
    /// A request to parse: the line without surrounding whitespace.
    Request(String),
}

/// Classify one input line by its length in bytes and its content.
pub fn frame_of(line: &str) -> (r: Frame)
    ensures
        line.len() > MAX_FRAME_BYTES ==> r is TooLarge,
        line.len() <= MAX_FRAME_BYTES && trim(line@).len() == 0 ==> r is Blank,
        line.len() <= MAX_FRAME_BYTES && trim(line@).len() > 0 ==> (r matches Frame::Request(t) && t@ == trim(line@)),
{
    if line.len() > MAX_FRAME_BYTES {
        return Frame::TooLarge;
    }
    let t = trim_str(line);
    if t.as_str().is_empty() {
        Frame::Blank
    } else {
        Frame::Request(t)
    }
}

/// Where a JSON-RPC request goes.
#[derive(Debug, Clone, Copy, PartialEq, Eq)]
pub enum Route {
    /// A notification (no id, or a `notifications/` method): no reply.
    Ignore,
    Initialize,
    Ping,
    ToolsList,
    ToolsCall,
    /// Any other method.
    Unknown,
}

/// Route a request by its method and whether it carries an id.
pub fn route_method(method: &str, has_id: bool) -> (r: Route)
    ensures
        (!has_id || starts_with(method@, "notifications/"@)) ==> r == Route::Ignore,
        has_id && !starts_with(method@, "notifications/"@) ==> r == if method@ == "initialize"@ {
            Route::Initialize
        } else if method@ == "ping"@ {
            Route::Ping
        } else if method@ == "tools/list"@ {
            Route::ToolsList
        } else if method@ == "tools/call"@ {
            Route::ToolsCall
        } else {
            Route::Unknown
        },
{
    let m = crate::text::chars_of(method);
    let p = crate::text::chars_of("notifications/");
    if !has_id || crate::text::starts_with_chars(&m, &p) {
        return Route::Ignore;
    }
    if str_eq(method, "initialize") {
        Route::Initialize
    } else if str_eq(method, "ping") {
        Route::Ping
    } else if str_eq(method, "tools/list") {
        Route::ToolsList
    } else if str_eq(method, "tools/call") {
        Route::ToolsCall
    } else {
        Route::Unknown
    }
}

/// Message for a method that is not served.
pub fn method_not_found(method: &str) -> (r: String)
    ensures
        r@ == "method not found: "@ + method@,
{
    let mut r = owned("method not found: ");
    push_str(&mut r, method);
    r
}

/// How a failed request is answered.
pub enum Failure {
    /// A JSON-RPC error object.
    RpcError { code: i32, message: String },
    /// A tool result flagged `isError`, carrying the message as text.
    ToolError(String),
}

/// A failure message becomes a JSON-RPC "method not found" error (code
/// -32601) when it says so, and a tool error otherwise.
pub fn failure_reply(msg: String) -> (r: Failure)
    ensures
        starts_with(msg@, "method not found"@) ==> (r matches Failure::RpcError { code, message } && code == -32601 && message == msg),
        !starts_with(msg@, "method not found"@) ==> r == Failure::ToolError(msg),
{
    let v = crate::text::chars_of(msg.as_str());
    let p = crate::text::chars_of("method not found");
    if crate::text::starts_with_chars(&v, &p) {
        Failure::RpcError { code: -32601, message: msg }
    } else {
        Failure::ToolError(msg)
    }
}

/// The answer to a frame that is not valid JSON (code -32700).
pub fn parse_error_reply(error: &str) -> (r: Failure)
    ensures
        r matches Failure::RpcError { code, message } && code == -32700 && message@ == "parse error: "@ + error@,
{
    let mut m = owned("parse error: ");
    push_str(&mut m, error);
    Failure::RpcError { code: -32700, message: m }
}

/// The tools served over MCP.
#[derive(Debug, Clone, Copy, PartialEq, Eq)]
pub enum Tool {
    Doctor,
    ListApps,
    ListWindows,
    Frontmost,
    Activate,
    Snapshot,
    FindElements,
    FocusedElement,
}

/// Message for an unknown tool.
pub open spec fn unknown_tool_message(name: Seq<char>) -> Seq<char> {
    "unknown tool '"@ + name + "' — see tools/list (S1 surface: doctor, list_*, frontmost, activate, snapshot, find_elements, focused_element)"@
}

/// The tool served under a name, if any.
pub open spec fn tool_named(n: Seq<char>) -> Option<Tool> {
    if n == "doctor"@ {
        Some(Tool::Doctor)
    } else if n == "list_apps"@ {
        Some(Tool::ListApps)
    } else if n == "list_windows"@ {
        Some(Tool::ListWindows)
    } else if n == "frontmost"@ {
        Some(Tool::Frontmost)
    } else if n == "activate"@ {
        Some(Tool::Activate)
    } else if n == "snapshot"@ {
        Some(Tool::Snapshot)
    } else if n == "find_elements"@ {
        Some(Tool::FindElements)
    } else if n == "focused_element"@ {
        Some(Tool::FocusedElement)
    } else {
        None
    }
}

/// The tool a `tools/call` names (`None`: the name is missing); an unknown
/// name is an error.
pub fn tool_of(name: Option<&str>) -> (r: Result<Tool, String>)
    ensures
        name is None ==> (r matches Err(m) && m@ == "tools/call missing params.name"@),
        name matches Some(n) ==> match tool_named(n@) {
            Some(t) => r == Ok::<Tool, String>(t),
            None => r matches Err(m) && m@ == unknown_tool_message(n@),
        },
{
    let n = match name {
        Some(n) => n,
        None => return Err(owned("tools/call missing params.name")),
    };
    if str_eq(n, "doctor") {
        Ok(Tool::Doctor)
    } else if str_eq(n, "list_apps") {
        Ok(Tool::ListApps)
    } else if str_eq(n, "list_windows") {
        Ok(Tool::ListWindows)
    } else if str_eq(n, "frontmost") {
        Ok(Tool::Frontmost)
    } else if str_eq(n, "activate") {
        Ok(Tool::Activate)
    } else if str_eq(n, "snapshot") {
        Ok(Tool::Snapshot)
    } else if str_eq(n, "find_elements") {
        Ok(Tool::FindElements)
    } else if str_eq(n, "focused_element") {
        Ok(Tool::FocusedElement)
    } else {
        let mut m = owned("unknown tool '");
        push_str(&mut m, n);
        push_str(&mut m, "' — see tools/list (S1 surface: doctor, list_*, frontmost, activate, snapshot, find_elements, focused_element)");
        Err(m)
    }
}

// ── command-line renderings ────────────────────────────────────────────

/// One line of the window listing: focus mark, app, title, id.
pub open spec fn window_text(w: WindowInfo) -> Seq<char> {
    (if w.focused { "*"@ } else { " "@ }) + " ["@ + match w.app_name { Some(a) => a@, None => "?"@ } + "] "@
        + (if w.title@.len() == 0 { "(no title)"@ } else { w.title@ }) + "  ("@ + w.id@ + ")"@
}

/// One line of the window listing.
pub fn window_line(w: &WindowInfo) -> (r: String)
    ensures
        r@ == window_text(*w),
{
    let mut r = owned(if w.focused { "*" } else { " " });
    push_str(&mut r, " [");
    match &w.app_name {
        Some(a) => push_str(&mut r, a.as_str()),
        None => push_str(&mut r, "?"),
    }
    push_str(&mut r, "] ");
    if w.title.as_str().is_empty() {
        push_str(&mut r, "(no title)");
    } else {
        push_str(&mut r, w.title.as_str());
    }
    push_str(&mut r, "  (");
    push_str(&mut r, w.id.as_str());
    push_str(&mut r, ")");
    assert(r@ =~= window_text(*w));
    r
}

/// Closing line of the window listing.
pub fn window_count_line(n: usize) -> (r: String)
    ensures
        r@ == decimal(n as nat) + " window(s)"@,
{
    let mut r = String::new();
    push_count(&mut r, n);
    push_str(&mut r, " window(s)");
    assert(r@ =~= decimal(n as nat) + " window(s)"@);
    r
}

/// Heading line of a printed snapshot.
pub fn snapshot_header(stats: &SnapshotStats) -> (r: String)
    ensures
        r@ == "nodes="@ + decimal(stats.nodes_emitted as nat) + " truncated="@ + bool_text(stats.truncated)
            + " max_depth_hit="@ + bool_text(stats.max_depth_hit),
{
    let mut r = owned("nodes=");
    push_count(&mut r, stats.nodes_emitted as usize);
    push_str(&mut r, " truncated=");
    push_bool(&mut r, stats.truncated);
    push_str(&mut r, " max_depth_hit=");
    push_bool(&mut r, stats.max_depth_hit);
    assert(r@ =~= "nodes="@ + decimal(stats.nodes_emitted as nat) + " truncated="@ + bool_text(stats.truncated)
        + " max_depth_hit="@ + bool_text(stats.max_depth_hit));
    r
}

/// `n` copies of two spaces.
pub open spec fn pad(n: nat) -> Seq<char>
    decreases n,
{
    if n == 0 {
        Seq::empty()
    } else {
        pad((n - 1) as nat) + "  "@
    }
}

/// The line of one node in the printed tree: indentation, role, the name in
/// quotes when present, the states in brackets when there are any.
pub open spec fn node_text(node: A11yNode, indent: nat) -> Seq<char> {
    pad(indent) + node.role@ + match node.name {
        Some(n) => " "@ + debug_quoted(n@),
        None => Seq::empty(),
    } + if node.states@.len() == 0 {
        Seq::<char>::empty()
    } else {
        " ["@ + join_with(crate::text::views(node.states@), ","@) + "]"@
    }
}

/// The printed tree: a node's line, then its children's lines one level deeper.
pub open spec fn tree_text(node: A11yNode, indent: nat) -> Seq<Seq<char>>
    decreases node, 1int,
{
    seq![node_text(node, indent)] + forest_text(node.children@, indent + 1)
}

/// The printed lines of a list of sibling trees.
pub open spec fn forest_text(kids: Seq<A11yNode>, indent: nat) -> Seq<Seq<char>>
    decreases kids, 0int,
{
    if kids.len() == 0 {
        Seq::empty()
    } else {
        forest_text(kids.drop_last(), indent) + tree_text(kids.last(), indent)
    }
}

/// The line of one node, after the indentation `prefix`.
fn node_line(node: &A11yNode, prefix: &str, Ghost(indent): Ghost<nat>) -> (r: String)
    requires
        prefix@ == pad(indent),
    ensures
        r@ == node_text(*node, indent),
{
    let mut r = owned(prefix);
    push_str(&mut r, node.role.as_str());
    match &node.name {
        Some(n) => {
            push_str(&mut r, " ");
            let q = debug_str(n.as_str());
            push_str(&mut r, q.as_str());
        },
        None => {},
    }
    if node.states.len() > 0 {
        push_str(&mut r, " [");
        let j = comma_free_join(&node.states);
        push_str(&mut r, j.as_str());
        push_str(&mut r, "]");
    }
    assert(r@ =~= node_text(*node, indent));
    r
}

/// States joined with `,`.
fn comma_free_join(v: &Vec<String>) -> (r: String)
    ensures
        r@ == join_with(crate::text::views(v@), ","@),
{
    proof {
        reveal_strlit(",");
        assert(","@ =~= seq![',']);
    }
    crate::wait::join_strings(v, ',')
}

/// Appends the lines of `node` and its descendants, indented by `prefix`.
fn push_tree_lines(node: &A11yNode, prefix: &str, Ghost(indent): Ghost<nat>, out: &mut Vec<String>)
    requires
        prefix@ == pad(indent),
    ensures
        crate::text::views(final(out)@) == crate::text::views(old(out)@) + tree_text(*node, indent),
    decreases node,
{
    let ghost o0 = crate::text::views(out@);
    out.push(node_line(node, prefix, Ghost(indent)));
    assert(crate::text::views(out@) =~= o0 + seq![node_text(*node, indent)]);
    let ghost o1 = crate::text::views(out@);
    let mut deeper = owned(prefix);
    push_str(&mut deeper, "  ");
    assert(deeper@ == pad(indent + 1));
    let mut i: usize = 0;
    while i < node.children.len()
        invariant
            i <= node.children@.len(),
            deeper@ == pad(indent + 1),
            crate::text::views(out@) == o1 + forest_text(node.children@.take(i as int), indent + 1),
        decreases node.children.len() - i,
    {
        let c = &node.children[i];
        assert(node.children@.take(i + 1).drop_last() =~= node.children@.take(i as int));
        push_tree_lines(c, deeper.as_str(), Ghost(indent + 1), out);
        i = i + 1;
    }
    assert(node.children@.take(node.children@.len() as int) =~= node.children@);
    assert(crate::text::views(out@) =~= o0 + tree_text(*node, indent));
}

/// The printed tree of a snapshot, one line per node, children indented by
/// two more spaces than their parent.
pub fn tree_lines(node: &A11yNode) -> (r: Vec<String>)
    ensures
        crate::text::views(r@) == tree_text(*node, 0),
{
    let mut out: Vec<String> = Vec::new();
    proof {
        reveal_strlit("");
        assert(""@ =~= pad(0));
    }
    push_tree_lines(node, "", Ghost(0nat), &mut out);
    assert(crate::text::views(out@) =~= tree_text(*node, 0));
    out
}

} // verus!
