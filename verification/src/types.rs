//! Shared agent-facing types (the values that CLI / MCP faces render).

use vstd::prelude::*;

use crate::text::clone_opt;

verus! {

/// Whether a tool mutates the desktop. Faces and host policy engines use this annotation.
#[derive(Debug, Clone, Copy, PartialEq, Eq)]
pub enum MutationClass {
    /// Read-only perception / diagnostics.
    ReadOnly,
    /// Changes focus, pointer, or application state but is reversible / low risk.
    Mutating,
    /// High-risk: send/post/pay/delete/credentials/security settings.
    Destructive,
}

/// Session display server kind, as reported by `doctor`.
#[derive(Debug, Clone, Copy, PartialEq, Eq)]
pub enum SessionKind {
    X11,
    Wayland,
    Unknown,
}

/// Capability probe result for one backend surface.
#[derive(Debug, Clone, PartialEq, Eq)]
pub struct Capability {
    pub name: String,
    pub available: bool,
    pub detail: Option<String>,
}

/// Running application root (AT-SPI application role).
#[derive(Debug, Clone, PartialEq)]
pub struct AppInfo {
    /// Stable-ish id: `{bus_name}|{object_path}` for the application root.
    pub id: String,
    pub name: String,
    pub pid: Option<u32>,
    pub toolkit: Option<String>,
    pub window_count: u32,
}

/// Compact window descriptor used by discovery tools.
#[derive(Debug, Clone, PartialEq)]
pub struct WindowInfo {
    /// `{bus_name}|{object_path}` of the top-level frame/window.
    pub id: String,
    pub title: String,
    pub app_name: Option<String>,
    pub pid: Option<u32>,
    /// True if the window reports `active` and/or `focused` state.
    pub focused: bool,
    pub bounds: Option<Bounds>,
    /// Always true for windows discovered via AT-SPI.
    pub a11y_root: bool,
    pub role: Option<String>,
}

/// Screen-space rectangle in physical pixels (origin top-left of the display).
#[derive(Debug, Clone, Copy, PartialEq)]
pub struct Bounds {
    pub x: i32,
    pub y: i32,
    pub width: u32,
    pub height: u32,
}

/// One node in a compact accessibility snapshot.
#[derive(Debug, PartialEq)]
pub struct A11yNode {
    /// `{bus}|{path}` when known (live snapshots); pure fixtures may omit.
    pub id: Option<String>,
    pub role: String,
    pub name: Option<String>,
    pub description: Option<String>,
    pub value: Option<String>,
    pub states: Vec<String>,
    pub actions: Vec<String>,
    pub bounds: Option<Bounds>,
    pub children: Vec<A11yNode>,
}

/// Options for a compact a11y tree snapshot.
#[derive(Debug, Clone, PartialEq, Eq)]
pub struct SnapshotOpts {
    /// Max tree depth from the root (0 = root only). Default 6.
    pub max_depth: u32,
    /// Hard cap on nodes visited/emitted. Default 200.
    pub max_nodes: u32,
    /// Include Component extents when available. Default true.
    pub include_bounds: bool,
    /// Include Action interface names when available. Default true.
    pub include_actions: bool,
}

/// Default snapshot depth.
pub fn default_max_depth() -> (r: u32)
    ensures
        r == 6,
{
    6
}

/// Default snapshot node budget.
pub fn default_max_nodes() -> (r: u32)
    ensures
        r == 200,
{
    200
}

/// Default for boolean snapshot flags.
pub fn default_true() -> (r: bool)
    ensures
        r,
{
    true
}

/// Default cap on find results when a query is read from JSON.
pub fn default_max_results() -> (r: u32)
    ensures
        r == 25,
{
    25
}

impl Default for SnapshotOpts {
    fn default() -> (r: Self)
        ensures
            r.max_depth == 6,
            r.max_nodes == 200,
            r.include_bounds,
            r.include_actions,
    {
        SnapshotOpts {
            max_depth: default_max_depth(),
            max_nodes: default_max_nodes(),
            include_bounds: true,
            include_actions: true,
        }
    }
}

/// Semantic selector for `find_elements` (pure or live).
#[derive(Debug, Clone, PartialEq, Eq)]
pub struct FindQuery {
    /// Case-insensitive role name (e.g. `button`, `frame`).
    pub role: Option<String>,
    /// Substring match on accessible name (case-insensitive) unless `name_exact`.
    pub name: Option<String>,
    /// When true with `name`, require exact case-insensitive equality.
    pub name_exact: bool,
    /// Substring match against name, value, or description.
    pub text: Option<String>,
    /// Required state (e.g. `focused`, `enabled`) — case-insensitive.
    pub state: Option<String>,
    /// Substring match on description.
    pub description: Option<String>,
    /// Cap results (0 means the default of 25).
    pub max_results: u32,
}

impl Default for FindQuery {
    fn default() -> (r: Self)
        ensures
            r.role is None,
            r.name is None,
            !r.name_exact,
            r.text is None,
            r.state is None,
            r.description is None,
            r.max_results == 0,
    {
        FindQuery {
            role: None,
            name: None,
            name_exact: false,
            text: None,
            state: None,
            description: None,
            max_results: 0,
        }
    }
}

/// One hit from `find_elements`.
#[derive(Debug, Clone, PartialEq)]
pub struct ElementHit {
    pub id: Option<String>,
    pub role: String,
    pub name: Option<String>,
    pub description: Option<String>,
    pub value: Option<String>,
    pub states: Vec<String>,
    pub actions: Vec<String>,
    pub bounds: Option<Bounds>,
    /// Human-readable breadcrumb (`role:"name"` segments from root).
    pub path: Vec<String>,
}

/// Result of `activate` (focus/raise).
#[derive(Debug, Clone, PartialEq, Eq)]
pub struct ActivateResult {
    pub ok: bool,
    pub id: String,
    pub title: Option<String>,
    pub detail: String,
}

/// Result of an element action (`do_action`, `type_into`, `set_value`).
#[derive(Debug, Clone, PartialEq, Eq)]
pub struct ActionResult {
    pub ok: bool,
    pub id: String,
    pub action: Option<String>,
    pub detail: String,
}

/// Result of a screenshot.
#[derive(Debug, Clone, PartialEq)]
pub struct ScreenshotResult {
    pub path: String,
    pub scope: String,
    pub backend: String,
    pub bytes: u64,
    pub bounds: Option<Bounds>,
}

/// Real-input backend.
#[derive(Debug, Clone, Copy, PartialEq, Eq)]
pub enum InputBackendKind {
    Ydotool,
    Xdotool,
    Wtype,
    Absent,
}

/// How to resolve a window/app target for snapshot/activate.
#[derive(Debug, Clone, PartialEq, Eq)]
pub enum TargetRef {
    /// Exact `{bus}|{path}` id.
    Id(String),
    /// Case-insensitive substring of window title or app name.
    Name(String),
    /// Process id.
    Pid(u32),
    /// Currently frontmost / focused window (best effort).
    Frontmost,
}

impl WindowInfo {
    /// A field-by-field copy.
    pub fn duplicate(&self) -> (r: WindowInfo)
        ensures
            r == *self,
    {
        WindowInfo {
            id: self.id.clone(),
            title: self.title.clone(),
            app_name: clone_opt(&self.app_name),
            pid: self.pid,
            focused: self.focused,
            bounds: self.bounds,
            a11y_root: self.a11y_root,
            role: clone_opt(&self.role),
        }
    }
}

impl Capability {
    /// A field-by-field copy.
    pub fn duplicate(&self) -> (r: Capability)
        ensures
            r == *self,
    {
        Capability {
            name: self.name.clone(),
            available: self.available,
            detail: clone_opt(&self.detail),
        }
    }
}

} // verus!
