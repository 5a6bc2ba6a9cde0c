//! Compositor / desktop field matrix report: session identity, backend
//! probes and live accessibility exercises, assembled into one report per
//! session. The caller reads the environment and the bus; the decisions and
//! the report text are made here.

use vstd::prelude::*;

use crate::doctor::DoctorReport;
use crate::find::opt_text;
use crate::input::comma_join;
use crate::order::{count_keys, count_total, count_of, flag_views, has_key, keys_ordered, last_value, ordered_flags, sort_strings, key_views, sorted_by};
use crate::selftest::{failed_steps, StepView};
use crate::text::{
    bool_text, chars_of, contains, debug_quoted, debug_str, decimal, ends_with, ends_with_chars, lowercase, owned, push_bool,
    push_count, push_str, str_contains, to_lowercase,
};
use crate::tree::{is_shell_chrome, shell_chrome};
use crate::types::{ActivateResult, AppInfo, Capability, FindQuery, ScreenshotResult, SnapshotOpts, TargetRef, WindowInfo};
use crate::wait::{join_strings, join_with};

verus! {

/// One named check in the field report.
#[derive(Debug, Clone, PartialEq)]
pub struct FieldCheck {
    pub name: String,
    pub ok: bool,
    pub skipped: bool,
    pub detail: String,
}

/// Host / session identity for the matrix row.
#[derive(Debug, Clone, PartialEq, Eq)]
pub struct SessionIdentity {
    pub session_type: String,
    pub desktop: Option<String>,
    pub desktop_session: Option<String>,
    pub wayland_display: Option<String>,
    pub display: Option<String>,
    /// Best-effort family: gnome | plasma | hyprland | sway | i3 | unknown.
    pub family: String,
    /// Detected helper binaries, ordered by name, one entry per name.
    pub helpers: Vec<(String, bool)>,
    /// Installed wayland/x11 session desktop files (names only), sorted.
    pub session_files: Vec<String>,
}

/// Full field matrix report for one live session.
#[derive(Debug, Clone, PartialEq)]
pub struct FieldReport {
    pub ok: bool,
    pub identity: SessionIdentity,
    pub checks: Vec<FieldCheck>,
    /// Toolkit histogram from the application roots, ordered by toolkit name.
    pub toolkits: Vec<(String, u32)>,
    pub app_count: u32,
    pub window_count: u32,
    pub summary: String,
    /// Local timestamp of the run.
    pub captured_at: String,
}

// ── desktop family ─────────────────────────────────────────────────────

/// The text the family is read from: both variables lowercased, joined by a space.
pub open spec fn family_blob(desktop: Option<&str>, session: Option<&str>) -> Seq<char> {
    lowercase(match desktop { Some(d) => d@, None => Seq::empty() }) + " "@
        + lowercase(match session { Some(s) => s@, None => Seq::empty() })
}

/// The family named by a blob, by the first keyword found; a desktop with
/// none of the keywords is `unknown`.
pub open spec fn family_of(blob: Seq<char>) -> Seq<char> {
    if contains(blob, "hypr"@) {
        "hyprland"@
    } else if contains(blob, "plasma"@) || contains(blob, "kde"@) {
        "plasma"@
    } else if contains(blob, "sway"@) {
        "sway"@
    } else if contains(blob, "i3"@) {
        "i3"@
    } else if contains(blob, "gnome"@) || contains(blob, "ubuntu"@) {
        "gnome"@
    } else {
        "unknown"@
    }
}

/// The six family labels.
pub open spec fn family_label(f: Seq<char>) -> bool {
    f == "gnome"@ || f == "plasma"@ || f == "hyprland"@ || f == "sway"@ || f == "i3"@ || f == "unknown"@
}

/// Map the desktop variables to a coarse family label.
pub fn classify_family(desktop: Option<&str>, session: Option<&str>) -> (r: String)
    ensures
        r@ == family_of(family_blob(desktop, session)),
        family_label(r@),
{
    let d = match desktop {
        Some(d) => to_lowercase(d),
        None => to_lowercase(""),
    };
    let s = match session {
        Some(s) => to_lowercase(s),
        None => to_lowercase(""),
    };
    proof {
        reveal_strlit("");
        assert(""@ =~= Seq::<char>::empty());
    }
    let mut blob = d;
    push_str(&mut blob, " ");
    push_str(&mut blob, s.as_str());
    assert(blob@ =~= family_blob(desktop, session));
    let b = blob.as_str();
    if str_contains(b, "hypr") {
        owned("hyprland")
    } else if str_contains(b, "plasma") || str_contains(b, "kde") {
        owned("plasma")
    } else if str_contains(b, "sway") {
        owned("sway")
    } else if str_contains(b, "i3") {
        owned("i3")
    } else if str_contains(b, "gnome") || str_contains(b, "ubuntu") {
        owned("gnome")
    } else {
        owned("unknown")
    }
}

// ── choosing a window to exercise ──────────────────────────────────────

/// Windows passed over by the field checks: shell chrome, or untitled.
pub open spec fn field_shell(w: WindowInfo) -> bool {
    shell_chrome(w) || w.title@.len() == 0
}

/// The text a window's preference is read from: app name and title,
/// lowercased.
pub open spec fn pref_blob(w: WindowInfo) -> Seq<char> {
    lowercase(opt_text(w.app_name) + " "@ + w.title@)
}

/// Preference of a window for the snapshot and search checks: rich
/// accessibility UIs first, terminals last.
pub open spec fn preference(w: WindowInfo) -> int {
    let b = pref_blob(w);
    if contains(b, "calculator"@) || contains(b, "geany"@) || contains(b, "gedit"@) {
        3
    } else if contains(b, "nautilus"@) || contains(b, "settings"@) || contains(b, "control"@) {
        2
    } else if contains(b, "ptyxis"@) || contains(b, "terminal"@) || contains(b, "konsole"@) || contains(b, "alacritty"@) {
        0
    } else {
        1
    }
}

/// Window `i` is the earliest of the most preferred candidates.
pub open spec fn best_candidate(ws: Seq<WindowInfo>, i: int) -> bool {
    &&& 0 <= i < ws.len()
    &&& !field_shell(ws[i])
    &&& forall|j: int| 0 <= j < ws.len() && !field_shell(#[trigger] ws[j]) ==> preference(ws[j]) <= preference(ws[i])
    &&& forall|j: int| 0 <= j < i && !field_shell(#[trigger] ws[j]) ==> preference(ws[j]) < preference(ws[i])
}

/// Preference of one window.
fn preference_of(w: &WindowInfo) -> (r: u8)
    ensures
        r as int == preference(*w),
{
    let mut blob = match &w.app_name {
        Some(a) => owned(a.as_str()),
        None => String::new(),
    };
    push_str(&mut blob, " ");
    push_str(&mut blob, w.title.as_str());
    assert(blob@ =~= opt_text(w.app_name) + " "@ + w.title@);
    let b = to_lowercase(blob.as_str());
    let t = b.as_str();
    if str_contains(t, "calculator") || str_contains(t, "geany") || str_contains(t, "gedit") {
        3
    } else if str_contains(t, "nautilus") || str_contains(t, "settings") || str_contains(t, "control") {
        2
    } else if str_contains(t, "ptyxis") || str_contains(t, "terminal") || str_contains(t, "konsole") || str_contains(t, "alacritty") {
        0
    } else {
        1
    }
}

/// The window for the deeper checks: among the windows that are neither
/// shell chrome nor untitled, the earliest of the most preferred; nothing when
/// the list is missing or has no such window.
pub fn pick_target(windows: Option<&Vec<WindowInfo>>) -> (r: Option<TargetRef>)
    ensures
        windows is None ==> r is None,
        windows matches Some(ws) ==> match r {
            Some(TargetRef::Id(id)) => exists|i: int| #[trigger] best_candidate(ws@, i) && id == ws@[i].id,
            None => forall|j: int| 0 <= j < ws@.len() ==> field_shell(#[trigger] ws@[j]),
            _ => false,
        },
{
    let wins = match windows {
        Some(w) => w,
        None => return None,
    };
    let mut best: Option<(usize, u8)> = None;
    let mut i: usize = 0;
    while i < wins.len()
        invariant
            i <= wins@.len(),
            windows == Some(wins),
            match best {
                None => forall|j: int| 0 <= j < i ==> field_shell(#[trigger] wins@[j]),
                Some((b, p)) => {
                    &&& b < i
                    &&& !field_shell(wins@[b as int])
                    &&& p as int == preference(wins@[b as int])
                    &&& forall|j: int| 0 <= j < i && !field_shell(#[trigger] wins@[j]) ==> preference(wins@[j]) <= p
                    &&& forall|j: int| 0 <= j < b && !field_shell(#[trigger] wins@[j]) ==> preference(wins@[j]) < p
                },
            },
        decreases wins.len() - i,
    {
        let w = &wins[i];
        let shell = is_shell_chrome(w) || w.title.as_str().is_empty();
        proof {
            reveal_strlit("");
        }
        assert(shell == field_shell(wins@[i as int]));
        if !shell {
            let p = preference_of(w);
            match best {
                None => {
                    best = Some((i, p));
                },
                Some((_, bp)) => {
                    if p > bp {
                        best = Some((i, p));
                    }
                },
            }
        }
        i = i + 1;
    }
    match best {
        None => None,
        Some((b, _)) => {
            let id = wins[b].id.clone();
            assert(best_candidate(wins@, b as int));
            let r = Some(TargetRef::Id(id));
            assert(match windows {
                Some(ws) => match r {
                    Some(TargetRef::Id(x)) => exists|k: int| #[trigger] best_candidate(ws@, k) && x == ws@[k].id,
                    None => forall|j: int| 0 <= j < ws@.len() ==> field_shell(#[trigger] ws@[j]),
                    _ => false,
                },
                None => true,
            });
            r
        },
    }
}

/// Snapshot budget of the field checks: depth 4, 60 nodes, bounds and actions.
pub fn field_snapshot_opts() -> (r: SnapshotOpts)
    ensures
        r == (SnapshotOpts { max_depth: 4, max_nodes: 60, include_bounds: true, include_actions: true }),
{
    SnapshotOpts { max_depth: 4, max_nodes: 60, include_bounds: true, include_actions: true }
}

/// The button search of the field checks: up to three elements of role `button`.
pub fn field_button_query() -> (r: FindQuery)
    ensures
        r.role matches Some(x) && x@ == "button"@,
        r.name is None && !r.name_exact && r.text is None && r.state is None && r.description is None,
        r.max_results == 3,
{
    FindQuery {
        role: Some(owned("button")),
        name: None,
        name_exact: false,
        text: None,
        state: None,
        description: None,
        max_results: 3,
    }
}

// ── session identity ───────────────────────────────────────────────────

/// Helper binaries whose presence the report records, in probing order.
pub fn helper_names() -> (r: Vec<String>)
    ensures
        crate::text::views(r@) == seq![
            "hyprctl"@, "swaymsg"@, "i3-msg"@, "kdotool"@, "qdbus"@, "qdbus6"@, "grim"@,
            "slurp"@, "ydotool"@, "xdotool"@, "wtype"@, "gnome-screenshot"@, "gtk-launch"@, "gio"@,
        ],
{
    let mut r: Vec<String> = Vec::new();
    r.push(owned("hyprctl"));
    r.push(owned("swaymsg"));
    r.push(owned("i3-msg"));
    r.push(owned("kdotool"));
    r.push(owned("qdbus"));
    r.push(owned("qdbus6"));
    r.push(owned("grim"));
    r.push(owned("slurp"));
    r.push(owned("ydotool"));
    r.push(owned("xdotool"));
    r.push(owned("wtype"));
    r.push(owned("gnome-screenshot"));
    r.push(owned("gtk-launch"));
    r.push(owned("gio"));
    assert(crate::text::views(r@) =~= seq![
        "hyprctl"@, "swaymsg"@, "i3-msg"@, "kdotool"@, "qdbus"@, "qdbus6"@, "grim"@,
        "slurp"@, "ydotool"@, "xdotool"@, "wtype"@, "gnome-screenshot"@, "gtk-launch"@, "gio"@,
    ]);
    r
}

/// What the environment and file system showed about the session.
pub struct IdentityProbe {
    /// `XDG_SESSION_TYPE`, when set (and valid Unicode).
    pub xdg_session_type: Option<String>,
    /// `WAYLAND_DISPLAY` is set at all.
    pub wayland_set: bool,
    /// `DISPLAY` is set at all.
    pub display_set: bool,
    /// `XDG_CURRENT_DESKTOP`, when set.
    pub xdg_current_desktop: Option<String>,
    /// `DESKTOP_SESSION`, when set.
    pub desktop_session: Option<String>,
    /// `WAYLAND_DISPLAY`, when set.
    pub wayland_display: Option<String>,
    /// `DISPLAY`, when set.
    pub display: Option<String>,
    /// For each helper name probed, whether it was found on `PATH`.
    pub helpers: Vec<(String, bool)>,
    /// File names found in the wayland / x11 session directories.
    pub session_entries: Vec<String>,
}

/// A value kept only when non-empty.
pub open spec fn keep_nonempty(v: Option<String>) -> Option<String> {
    match v {
        Some(s) => if s@.len() > 0 { Some(s) } else { None },
        None => None,
    }
}

/// The session type: `XDG_SESSION_TYPE`, else from the display variables.
pub open spec fn session_type_of(p: IdentityProbe) -> Seq<char> {
    match p.xdg_session_type {
        Some(t) => t@,
        None => if p.wayland_set {
            "wayland"@
        } else if p.display_set {
            "x11"@
        } else {
            "unknown"@
        },
    }
}

/// Optional string as `Option<&str>` view for the family rule.
pub open spec fn opt_str_view(o: Option<String>) -> Option<Seq<char>> {
    match o {
        Some(s) => Some(s@),
        None => None,
    }
}

/// The family of the kept desktop variables.
pub open spec fn family_of_vars(desktop: Option<String>, session: Option<String>) -> Seq<char> {
    family_of(lowercase(opt_text(desktop)) + " "@ + lowercase(opt_text(session)))
}

fn opt_clone_nonempty(v: &Option<String>) -> (r: Option<String>)
    ensures
        r == keep_nonempty(*v),
{
    match v {
        Some(s) => if s.as_str().is_empty() {
            None
        } else {
            Some(s.clone())
        },
        None => None,
    }
}

/// Session identity from the probe: session type, non-empty desktop
/// variables, family, helpers ordered by name, and the `.desktop` session
/// files sorted.
pub fn identity_from(p: IdentityProbe) -> (r: SessionIdentity)
    ensures
        r.session_type@ == session_type_of(p),
        r.desktop == keep_nonempty(p.xdg_current_desktop),
        r.desktop_session == keep_nonempty(p.desktop_session),
        r.wayland_display == p.wayland_display,
        r.display == p.display,
        r.family@ == family_of_vars(r.desktop, r.desktop_session),
        keys_ordered(r.helpers@),
        forall|i: int| 0 <= i < r.helpers@.len() ==> last_value(flag_views(p.helpers@), #[trigger] r.helpers@[i].0@) == Some(r.helpers@[i].1),
        forall|k: Seq<char>| has_key(r.helpers@, k) <==> last_value(flag_views(p.helpers@), k) is Some,
        sorted_by(key_views(r.session_files@)),
        r.session_files@.to_multiset() == p.session_entries@.filter(|f: String| ends_with(f@, ".desktop"@)).to_multiset(),
{
    let ghost p0 = p;
    let session_type = match &p.xdg_session_type {
        Some(t) => t.clone(),
        None => if p.wayland_set {
            owned("wayland")
        } else if p.display_set {
            owned("x11")
        } else {
            owned("unknown")
        },
    };
    let desktop = opt_clone_nonempty(&p.xdg_current_desktop);
    let desktop_session = opt_clone_nonempty(&p.desktop_session);
    let family = {
        let d: Option<&str> = match &desktop {
            Some(x) => Some(x.as_str()),
            None => None,
        };
        let ss: Option<&str> = match &desktop_session {
            Some(x) => Some(x.as_str()),
            None => None,
        };
        let f = classify_family(d, ss);
        assert(family_blob(d, ss) == lowercase(opt_text(desktop)) + " "@ + lowercase(opt_text(desktop_session)));
        f
    };
    let helpers = ordered_flags(&p.helpers);
    let files = desktop_files(&p.session_entries);
    let session_files = sort_strings(files);
    SessionIdentity {
        session_type,
        desktop,
        desktop_session,
        wayland_display: p.wayland_display,
        display: p.display,
        family,
        helpers,
        session_files,
    }
}

/// The entries ending in `.desktop`, in order.
fn desktop_files(entries: &Vec<String>) -> (r: Vec<String>)
    ensures
        r@ == entries@.filter(|f: String| ends_with(f@, ".desktop"@)),
{
    let ghost pred = |f: String| ends_with(f@, ".desktop"@);
    let suffix = chars_of(".desktop");
    let mut r: Vec<String> = Vec::new();
    let mut i: usize = 0;
    while i < entries.len()
        invariant
            i <= entries@.len(),
            suffix@ == ".desktop"@,
            pred == (|f: String| ends_with(f@, ".desktop"@)),
            r@ == entries@.take(i as int).filter(pred),
        decreases entries.len() - i,
    {
        let ghost pre = entries@.take(i as int);
        let ghost nxt = entries@.take(i + 1);
        assert(nxt.drop_last() =~= pre);
        proof {
            reveal(Seq::filter);
        }
        let name = chars_of(entries[i].as_str());
        if ends_with_chars(&name, &suffix) {
            r.push(entries[i].clone());
        }
        assert(r@ =~= nxt.filter(pred));
        i = i + 1;
    }
    assert(entries@.take(entries@.len() as int) =~= entries@);
    r
}

// ── renderings ─────────────────────────────────────────────────────────

/// `Debug` text of a map: `{k: v, ...}` from the rendered entries.
pub open spec fn braced(parts: Seq<Seq<char>>) -> Seq<char> {
    "{"@ + comma_join(parts) + "}"@
}

/// `Debug` text of a string-to-count map.
pub open spec fn count_map_text(m: Seq<(String, u32)>) -> Seq<char> {
    braced(m.map_values(|e: (String, u32)| debug_quoted(e.0@) + ": "@ + decimal(e.1 as nat)))
}

/// `Debug` text of a string-to-flag map.
pub open spec fn flag_map_text(m: Seq<(String, bool)>) -> Seq<char> {
    braced(m.map_values(|e: (String, bool)| debug_quoted(e.0@) + ": "@ + bool_text(e.1)))
}

/// `Debug` text of an optional string.
pub open spec fn debug_opt(o: Option<String>) -> Seq<char> {
    match o {
        Some(s) => "Some("@ + debug_quoted(s@) + ")"@,
        None => "None"@,
    }
}

/// Renders `{k: v, ...}` from already rendered entries.
fn braced_exec(parts: &Vec<String>) -> (r: String)
    ensures
        r@ == braced(crate::text::views(parts@)),
{
    let mut r = owned("{");
    let mut i: usize = 0;
    while i < parts.len()
        invariant
            i <= parts@.len(),
            r@ == "{"@ + comma_join(crate::text::views(parts@.take(i as int))),
        decreases parts.len() - i,
    {
        let ghost pre = crate::text::views(parts@.take(i as int));
        let ghost nxt = crate::text::views(parts@.take(i + 1));
        assert(nxt =~= pre.push(parts@[i as int]@));
        assert(nxt.drop_last() =~= pre);
        if i > 0 {
            push_str(&mut r, ", ");
        }
        push_str(&mut r, parts[i].as_str());
        proof {
            if i == 0 {
                assert(comma_join(nxt) == nxt[0]);
            }
            assert(r@ =~= "{"@ + comma_join(nxt));
        }
        i = i + 1;
    }
    assert(parts@.take(parts@.len() as int) =~= parts@);
    push_str(&mut r, "}");
    assert(r@ =~= braced(crate::text::views(parts@)));
    r
}

/// `Debug` rendering of a string-to-count map.
pub fn count_map_debug(m: &Vec<(String, u32)>) -> (r: String)
    ensures
        r@ == count_map_text(m@),
{
    let mut parts: Vec<String> = Vec::new();
    let mut i: usize = 0;
    while i < m.len()
        invariant
            i <= m@.len(),
            parts@.len() == i,
            forall|j: int| 0 <= j < i ==> #[trigger] parts@[j]@ == debug_quoted(m@[j].0@) + ": "@ + decimal(m@[j].1 as nat),
        decreases m.len() - i,
    {
        let mut e = debug_str(m[i].0.as_str());
        push_str(&mut e, ": ");
        push_count(&mut e, m[i].1 as usize);
        assert(e@ =~= debug_quoted(m@[i as int].0@) + ": "@ + decimal(m@[i as int].1 as nat));
        parts.push(e);
        i = i + 1;
    }
    assert(crate::text::views(parts@) =~= m@.map_values(|e: (String, u32)| debug_quoted(e.0@) + ": "@ + decimal(e.1 as nat)));
    braced_exec(&parts)
}

/// `Debug` rendering of a string-to-flag map.
pub fn flag_map_debug(m: &Vec<(String, bool)>) -> (r: String)
    ensures
        r@ == flag_map_text(m@),
{
    let mut parts: Vec<String> = Vec::new();
    let mut i: usize = 0;
    while i < m.len()
        invariant
            i <= m@.len(),
            parts@.len() == i,
            forall|j: int| 0 <= j < i ==> #[trigger] parts@[j]@ == debug_quoted(m@[j].0@) + ": "@ + bool_text(m@[j].1),
        decreases m.len() - i,
    {
        let mut e = debug_str(m[i].0.as_str());
        push_str(&mut e, ": ");
        push_bool(&mut e, m[i].1);
        assert(e@ =~= debug_quoted(m@[i as int].0@) + ": "@ + bool_text(m@[i as int].1));
        parts.push(e);
        i = i + 1;
    }
    assert(crate::text::views(parts@) =~= m@.map_values(|e: (String, bool)| debug_quoted(e.0@) + ": "@ + bool_text(e.1)));
    braced_exec(&parts)
}

/// `Debug` rendering of an optional string.
fn debug_opt_exec(o: &Option<String>) -> (r: String)
    ensures
        r@ == debug_opt(*o),
{
    match o {
        Some(s) => {
            let mut r = owned("Some(");
            let q = debug_str(s.as_str());
            push_str(&mut r, q.as_str());
            push_str(&mut r, ")");
            assert(r@ =~= "Some("@ + debug_quoted(s@) + ")"@);
            r
        },
        None => owned("None"),
    }
}

/// Toolkit key of an application root: its toolkit name lowercased, or `unknown`.
pub open spec fn toolkit_key(a: AppInfo) -> Seq<char> {
    match a.toolkit {
        Some(t) => lowercase(t@),
        None => lowercase("unknown"@),
    }
}

/// The toolkit histogram of application roots: one entry per toolkit key,
/// ordered by key, with the number of roots carrying it.
pub fn toolkit_histogram(apps: &Vec<AppInfo>) -> (r: Vec<(String, u32)>)
    requires
        apps@.len() <= u32::MAX,
    ensures
        keys_ordered(r@),
        forall|i: int| 0 <= i < r@.len() ==> #[trigger] r@[i].1 == count_of(apps@.map_values(|a: AppInfo| toolkit_key(a)), r@[i].0@),
        forall|k: Seq<char>| has_key(r@, k) <==> count_of(apps@.map_values(|a: AppInfo| toolkit_key(a)), k) > 0,
        count_total(r@) == apps@.len(),
{
    let mut keys: Vec<String> = Vec::new();
    let mut i: usize = 0;
    while i < apps.len()
        invariant
            i <= apps@.len(),
            keys@.len() == i,
            forall|j: int| 0 <= j < i ==> #[trigger] keys@[j]@ == toolkit_key(apps@[j]),
        decreases apps.len() - i,
    {
        let k = match &apps[i].toolkit {
            Some(t) => to_lowercase(t.as_str()),
            None => to_lowercase("unknown"),
        };
        keys.push(k);
        i = i + 1;
    }
    assert(crate::text::views(keys@) =~= apps@.map_values(|a: AppInfo| toolkit_key(a)));
    count_keys(&keys)
}

// ── assembling the report ─────────────────────────────────────────────

/// What the snapshot of the chosen window showed, with the button search.
pub struct SnapshotSummary {
    pub role: String,
    pub nodes: u32,
    pub truncated: bool,
    pub max_depth_hit: bool,
    /// Names of the buttons found, or the search's error message.
    pub buttons: Result<Vec<Option<String>>, String>,
}

/// Outcomes of the checks that need a bus connection.
pub struct FieldConnected {
    /// Application roots, or the error message.
    pub apps: Result<Vec<AppInfo>, String>,
    /// Windows, or the error message.
    pub windows: Result<Vec<WindowInfo>, String>,
    /// Focus request on the chosen window (`None`: no window was chosen).
    pub activate: Option<Result<ActivateResult, String>>,
    /// Snapshot of the chosen window (`None`: no window was chosen).
    pub snapshot: Option<Result<SnapshotSummary, String>>,
    /// Screenshot, or the error message.
    pub screenshot: Result<ScreenshotResult, String>,
}

/// Outcomes of a field run.
pub struct FieldRun {
    pub capture: Capability,
    pub input: Capability,
    /// The bus checks, or the connection error message.
    pub connect: Result<FieldConnected, String>,
    pub confirm_mutate: bool,
}

/// `chrono::Local::now().to_rfc3339()`: the local time with its offset. It
/// depends on the clock and the time zone, so nothing is stated of it.
#[verifier::external_body]
fn local_rfc3339() -> String {
    chrono::Local::now().to_rfc3339()
}

/// Plain view of a check (in the order name, ok, detail, skipped).
pub open spec fn check_view(c: FieldCheck) -> StepView {
    (c.name@, c.ok, c.detail@, c.skipped)
}

/// An activation error that the matrix counts as an honest protocol answer.
pub open spec fn grab_expected(m: Seq<char>) -> bool {
    contains(m, "NotSupported"@) || contains(m, "not supported"@) || contains(m, "GrabFocus"@)
}

/// Windows flagged focused.
pub open spec fn focused_count(ws: Seq<WindowInfo>) -> nat
    decreases ws.len(),
{
    if ws.len() == 0 {
        0
    } else {
        focused_count(ws.drop_last()) + if ws.last().focused { 1nat } else { 0nat }
    }
}

/// The activation check.
pub open spec fn activate_check(a: Option<Result<ActivateResult, String>>) -> StepView {
    match a {
        None => ("activate_grab_focus"@, true, "no non-shell window"@, true),
        Some(Ok(r)) => ("activate_grab_focus"@, true,
            "GrabFocus returned "@ + bool_text(r.ok) + " on "@ + debug_opt(r.title) + " — "@ + r.detail@, false),
        Some(Err(m)) => ("activate_grab_focus"@, grab_expected(m@),
            if grab_expected(m@) { "honest fail (expected on some Wayland apps): "@ + m@ } else { m@ }, false),
    }
}

/// The snapshot check and, after a snapshot, the button search check.
pub open spec fn snapshot_checks(o: Option<Result<SnapshotSummary, String>>) -> Seq<StepView> {
    match o {
        None => seq![("snapshot"@, true, "no non-shell window"@, true)],
        Some(Err(m)) => seq![("snapshot"@, false, m@, false)],
        Some(Ok(s)) => seq![
            ("snapshot"@, s.nodes > 0, "role="@ + s.role@ + " nodes="@ + decimal(s.nodes as nat) + " truncated="@
                + bool_text(s.truncated) + " max_depth_hit="@ + bool_text(s.max_depth_hit), false),
            match s.buttons {
                Ok(names) => ("find_button"@, true,
                    if names.len() == 0 {
                        "no buttons in tree (ok for some apps)"@
                    } else {
                        decimal(names.len() as nat) + " button(s); first="@ + debug_opt(names@[0])
                    }, names.len() == 0),
                Err(m) => ("find_button"@, false, m@, false),
            },
        ],
    }
}

/// The screenshot check.
pub open spec fn screenshot_check(o: Result<ScreenshotResult, String>) -> StepView {
    match o {
        Ok(r) => ("screenshot"@, r.bytes > 0, "backend="@ + r.backend@ + " scope="@ + r.scope@ + " bytes="@
            + decimal(r.bytes as nat) + " path="@ + r.path@, false),
        Err(m) => ("screenshot"@, false, m@, false),
    }
}

/// The application listing check; `toolkits` is the histogram shown.
pub open spec fn apps_check(o: Result<Vec<AppInfo>, String>, toolkits: Seq<(String, u32)>) -> StepView {
    match o {
        Ok(a) => ("list_apps"@, (a.len() as u32) > 0, decimal((a.len() as u32) as nat) + " apps; toolkits="@
            + count_map_text(toolkits), false),
        Err(m) => ("list_apps"@, false, m@, false),
    }
}

/// The window listing check.
pub open spec fn windows_check(o: Result<Vec<WindowInfo>, String>) -> StepView {
    match o {
        Ok(w) => ("list_windows"@, true, decimal((w.len() as u32) as nat) + " windows; focused_flag="@
            + decimal(focused_count(w@)), false),
        Err(m) => ("list_windows"@, false, m@, false),
    }
}

/// The checks run over a bus connection; `toolkits` is the histogram shown
/// with the application count.
pub open spec fn connected_checks(c: FieldConnected, toolkits: Seq<(String, u32)>) -> Seq<StepView> {
    seq![
        ("atspi_connect"@, true, "connected"@, false),
        apps_check(c.apps, toolkits),
        windows_check(c.windows),
        activate_check(c.activate),
    ] + snapshot_checks(c.snapshot) + seq![screenshot_check(c.screenshot)]
}

/// Every check of a run, in order.
pub open spec fn field_checks(d: DoctorReport, id: SessionIdentity, run: FieldRun, toolkits: Seq<(String, u32)>) -> Seq<StepView> {
    seq![
        ("doctor"@, d.ok, d.summary@, false),
        ("capture_probe"@, run.capture.available, opt_text(run.capture.detail), false),
        ("input_probe"@, run.input.available, opt_text(run.input.detail), !run.input.available),
    ] + match run.connect {
        Ok(c) => connected_checks(c, toolkits),
        Err(m) => seq![("atspi_connect"@, false, m@, false)],
    } + seq![("compositor_helpers"@, true, flag_map_text(id.helpers@), false)] + if run.confirm_mutate {
        seq![("mutate_note"@, true, "confirm_mutate set — use selftest --confirm for mouse wiggle"@, true)]
    } else {
        Seq::empty()
    }
}

/// The summary line of a field run.
pub open spec fn field_summary(v: Seq<StepView>, id: SessionIdentity, apps: u32, windows: u32, toolkits: Seq<(String, u32)>) -> Seq<char> {
    if failed_steps(v).len() == 0 {
        "field ok on "@ + id.family@ + " ("@ + match id.desktop { Some(d) => d@, None => "?"@ } + ") — apps="@
            + decimal(apps as nat) + " windows="@ + decimal(windows as nat) + " toolkits="@ + count_map_text(toolkits)
    } else {
        "field FAILED on "@ + id.family@ + ": "@ + comma_join(failed_steps(v))
    }
}

/// A check from its parts.
fn mk(name: &str, ok: bool, detail: String, skipped: bool) -> (r: FieldCheck)
    ensures
        check_view(r) == (name@, ok, detail@, skipped),
{
    FieldCheck { name: owned(name), ok, detail, skipped }
}

/// Detail of a probe check.
fn opt_detail(o: &Option<String>) -> (r: String)
    ensures
        r@ == opt_text(*o),
{
    match o {
        Some(s) => s.clone(),
        None => String::new(),
    }
}

/// Windows flagged focused.
fn count_focused(ws: &Vec<WindowInfo>) -> (r: usize)
    ensures
        r == focused_count(ws@),
{
    let mut n: usize = 0;
    let mut i: usize = 0;
    while i < ws.len()
        invariant
            i <= ws@.len(),
            n == focused_count(ws@.take(i as int)),
            n <= i,
        decreases ws.len() - i,
    {
        assert(ws@.take(i + 1).drop_last() =~= ws@.take(i as int));
        if ws[i].focused {
            n = n + 1;
        }
        i = i + 1;
    }
    assert(ws@.take(ws@.len() as int) =~= ws@);
    n
}

/// The activation check.
fn push_activate(checks: &mut Vec<FieldCheck>, a: Option<Result<ActivateResult, String>>)
    ensures
        final(checks)@.map_values(|c: FieldCheck| check_view(c)) == old(checks)@.map_values(|c: FieldCheck| check_view(c)).push(activate_check(a)),
{
    let ghost before = checks@.map_values(|c: FieldCheck| check_view(c));
    let ghost a0 = a;
    match a {
        None => {
            checks.push(mk("activate_grab_focus", true, owned("no non-shell window"), true));
        },
        Some(Ok(r)) => {
            let mut d = owned("GrabFocus returned ");
            push_bool(&mut d, r.ok);
            push_str(&mut d, " on ");
            let t = debug_opt_exec(&r.title);
            push_str(&mut d, t.as_str());
            push_str(&mut d, " — ");
            push_str(&mut d, r.detail.as_str());
            assert(d@ =~= "GrabFocus returned "@ + bool_text(r.ok) + " on "@ + debug_opt(r.title) + " — "@ + r.detail@);
            checks.push(mk("activate_grab_focus", true, d, false));
        },
        Some(Err(m)) => {
            let expected = str_contains(m.as_str(), "NotSupported") || str_contains(m.as_str(), "not supported")
                || str_contains(m.as_str(), "GrabFocus");
            let d = if expected {
                let mut d = owned("honest fail (expected on some Wayland apps): ");
                push_str(&mut d, m.as_str());
                d
            } else {
                m
            };
            checks.push(mk("activate_grab_focus", expected, d, false));
        },
    }
    assert(checks@.map_values(|c: FieldCheck| check_view(c)) =~= before.push(activate_check(a0)));
}

/// The snapshot checks.
fn push_snapshot(checks: &mut Vec<FieldCheck>, o: Option<Result<SnapshotSummary, String>>)
    ensures
        final(checks)@.map_values(|c: FieldCheck| check_view(c)) == old(checks)@.map_values(|c: FieldCheck| check_view(c)) + snapshot_checks(o),
{
    let ghost before = checks@.map_values(|c: FieldCheck| check_view(c));
    let ghost o0 = o;
    match o {
        None => {
            checks.push(mk("snapshot", true, owned("no non-shell window"), true));
        },
        Some(Err(m)) => {
            checks.push(mk("snapshot", false, m, false));
        },
        Some(Ok(s)) => {
            let mut d = owned("role=");
            push_str(&mut d, s.role.as_str());
            push_str(&mut d, " nodes=");
            push_count(&mut d, s.nodes as usize);
            push_str(&mut d, " truncated=");
            push_bool(&mut d, s.truncated);
            push_str(&mut d, " max_depth_hit=");
            push_bool(&mut d, s.max_depth_hit);
            assert(d@ =~= "role="@ + s.role@ + " nodes="@ + decimal(s.nodes as nat) + " truncated="@
                + bool_text(s.truncated) + " max_depth_hit="@ + bool_text(s.max_depth_hit));
            checks.push(mk("snapshot", s.nodes > 0, d, false));
            match s.buttons {
                Ok(names) => {
                    if names.len() == 0 {
                        checks.push(mk("find_button", true, owned("no buttons in tree (ok for some apps)"), true));
                    } else {
                        let mut d = String::new();
                        push_count(&mut d, names.len());
                        push_str(&mut d, " button(s); first=");
                        let f = debug_opt_exec(&names[0]);
                        push_str(&mut d, f.as_str());
                        assert(d@ =~= decimal(names.len() as nat) + " button(s); first="@ + debug_opt(names@[0]));
                        checks.push(mk("find_button", true, d, false));
                    }
                },
                Err(m) => {
                    checks.push(mk("find_button", false, m, false));
                },
            }
        },
    }
    assert(checks@.map_values(|c: FieldCheck| check_view(c)) =~= before + snapshot_checks(o0));
}

/// The screenshot check.
fn screenshot_check_exec(o: Result<ScreenshotResult, String>) -> (r: FieldCheck)
    ensures
        check_view(r) == screenshot_check(o),
{
    match o {
        Ok(r) => {
            let mut d = owned("backend=");
            push_str(&mut d, r.backend.as_str());
            push_str(&mut d, " scope=");
            push_str(&mut d, r.scope.as_str());
            push_str(&mut d, " bytes=");
            crate::text::push_decimal(&mut d, r.bytes);
            push_str(&mut d, " path=");
            push_str(&mut d, r.path.as_str());
            assert(d@ =~= "backend="@ + r.backend@ + " scope="@ + r.scope@ + " bytes="@ + decimal(r.bytes as nat) + " path="@ + r.path@);
            mk("screenshot", r.bytes > 0, d, false)
        },
        Err(m) => mk("screenshot", false, m, false),
    }
}

/// Names of failed checks joined with `", "`.
fn failed_names(checks: &Vec<FieldCheck>) -> (r: (String, bool))
    ensures
        r.0@ == comma_join(failed_steps(checks@.map_values(|c: FieldCheck| check_view(c)))),
        r.1 == (failed_steps(checks@.map_values(|c: FieldCheck| check_view(c))).len() == 0),
{
    let ghost all = checks@.map_values(|c: FieldCheck| check_view(c));
    let mut names = String::new();
    let mut none_failed = true;
    let mut i: usize = 0;
    while i < checks.len()
        invariant
            i <= checks@.len(),
            all == checks@.map_values(|c: FieldCheck| check_view(c)),
            names@ == comma_join(failed_steps(all.take(i as int))),
            none_failed == (failed_steps(all.take(i as int)).len() == 0),
        decreases checks.len() - i,
    {
        let ghost pre = all.take(i as int);
        let ghost nxt = all.take(i + 1);
        assert(nxt.drop_last() =~= pre);
        assert(nxt.last() == check_view(checks@[i as int]));
        let c = &checks[i];
        if !c.ok && !c.skipped {
            if !none_failed {
                push_str(&mut names, ", ");
            }
            push_str(&mut names, c.name.as_str());
            none_failed = false;
            proof {
                let f = failed_steps(pre);
                assert(failed_steps(nxt) == f.push(c.name@));
                assert(f.push(c.name@).drop_last() =~= f);
                if f.len() == 0 {
                    assert(comma_join(f.push(c.name@)) == f.push(c.name@)[0]);
                }
            }
        }
        i = i + 1;
    }
    assert(all.take(checks@.len() as int) =~= all);
    (names, none_failed)
}

/// The field report of a run: the checks in order (doctor, probes, bus
/// checks or the connection failure, compositor helpers, and the mutate note
/// when asked), the toolkit histogram and counts from the listings, passed
/// when no check failed unskipped, with the summary line, stamped with the
/// local time.
pub fn assemble_field(doctor: &DoctorReport, identity: SessionIdentity, run: FieldRun) -> (r: FieldReport)
    requires
        run.connect matches Ok(c) ==> (c.apps matches Ok(a) ==> a@.len() <= u32::MAX),
    ensures
        r.checks@.map_values(|c: FieldCheck| check_view(c)) == field_checks(*doctor, identity, run, r.toolkits@),
        r.ok == (failed_steps(field_checks(*doctor, identity, run, r.toolkits@)).len() == 0),
        run.connect matches Ok(c) ==> match c.apps {
            Ok(a) => {
                &&& keys_ordered(r.toolkits@)
                &&& forall|i: int| 0 <= i < r.toolkits@.len() ==> #[trigger] r.toolkits@[i].1
                    == count_of(a@.map_values(|x: AppInfo| toolkit_key(x)), r.toolkits@[i].0@)
                &&& forall|k: Seq<char>| has_key(r.toolkits@, k) <==> count_of(a@.map_values(|x: AppInfo| toolkit_key(x)), k) > 0
                &&& r.app_count == a.len() as u32
            },
            Err(_) => r.toolkits@.len() == 0 && r.app_count == 0,
        },
        run.connect matches Ok(c) ==> match c.windows {
            Ok(w) => r.window_count == w.len() as u32,
            Err(_) => r.window_count == 0,
        },
        run.connect is Err ==> r.toolkits@.len() == 0 && r.app_count == 0 && r.window_count == 0,
        r.summary@ == field_summary(field_checks(*doctor, identity, run, r.toolkits@), identity, r.app_count, r.window_count, r.toolkits@),
        r.identity == identity,
        count_total(r.toolkits@) == r.app_count,
{
    let ghost run0 = run;
    let ghost id0 = identity;
    let mut checks: Vec<FieldCheck> = Vec::new();
    checks.push(mk("doctor", doctor.ok, doctor.summary.clone(), false));
    checks.push(mk("capture_probe", run.capture.available, opt_detail(&run.capture.detail), false));
    checks.push(mk("input_probe", run.input.available, opt_detail(&run.input.detail), !run.input.available));
    let ghost head = checks@.map_values(|c: FieldCheck| check_view(c));
    assert(head =~= seq![
        ("doctor"@, doctor.ok, doctor.summary@, false),
        ("capture_probe"@, run0.capture.available, opt_text(run0.capture.detail), false),
        ("input_probe"@, run0.input.available, opt_text(run0.input.detail), !run0.input.available),
    ]);
    let mut toolkits: Vec<(String, u32)> = Vec::new();
    let mut app_count: u32 = 0;
    let mut window_count: u32 = 0;
    match run.connect {
        Ok(c) => {
            checks.push(mk("atspi_connect", true, owned("connected"), false));
            let ghost s1 = checks@.map_values(|c: FieldCheck| check_view(c));
            assert(s1 =~= head.push(("atspi_connect"@, true, "connected"@, false)));
            match &c.apps {
                Ok(apps) => {
                    toolkits = toolkit_histogram(apps);
                    app_count = #[verifier::truncate] (apps.len() as u32);
                    let mut d = String::new();
                    push_count(&mut d, app_count as usize);
                    push_str(&mut d, " apps; toolkits=");
                    let t = count_map_debug(&toolkits);
                    push_str(&mut d, t.as_str());
                    assert(d@ =~= decimal((apps.len() as u32) as nat) + " apps; toolkits="@ + count_map_text(toolkits@));
                    checks.push(mk("list_apps", app_count > 0, d, false));
                },
                Err(m) => {
                    checks.push(mk("list_apps", false, m.clone(), false));
                },
            }
            let ghost s2 = checks@.map_values(|c: FieldCheck| check_view(c));
            assert(s2 =~= s1.push(apps_check(c.apps, toolkits@)));
            match &c.windows {
                Ok(wins) => {
                    window_count = #[verifier::truncate] (wins.len() as u32);
                    let focused = count_focused(wins);
                    let mut d = String::new();
                    push_count(&mut d, window_count as usize);
                    push_str(&mut d, " windows; focused_flag=");
                    push_count(&mut d, focused);
                    assert(d@ =~= decimal((wins.len() as u32) as nat) + " windows; focused_flag="@ + decimal(focused_count(wins@)));
                    checks.push(mk("list_windows", true, d, false));
                },
                Err(m) => {
                    checks.push(mk("list_windows", false, m.clone(), false));
                },
            }
            let ghost s3 = checks@.map_values(|c: FieldCheck| check_view(c));
            assert(s3 =~= s2.push(windows_check(c.windows)));
            let ghost cg = c;
            push_activate(&mut checks, c.activate);
            push_snapshot(&mut checks, c.snapshot);
            let ghost s5 = checks@.map_values(|c: FieldCheck| check_view(c));
            checks.push(screenshot_check_exec(c.screenshot));
            proof {
                let cv = checks@.map_values(|c: FieldCheck| check_view(c));
                assert(cv =~= s5.push(screenshot_check(cg.screenshot)));
                assert(cv =~= head + connected_checks(cg, toolkits@));
            }
        },
        Err(m) => {
            checks.push(mk("atspi_connect", false, m, false));
        },
    }
    let ghost before_tail = checks@.map_values(|c: FieldCheck| check_view(c));
    assert(before_tail =~= head + match run0.connect {
        Ok(c) => connected_checks(c, toolkits@),
        Err(m) => seq![("atspi_connect"@, false, m@, false)],
    });
    let h = flag_map_debug(&identity.helpers);
    checks.push(mk("compositor_helpers", true, h, false));
    let ghost s6 = checks@.map_values(|c: FieldCheck| check_view(c));
    assert(s6 =~= before_tail.push(("compositor_helpers"@, true, flag_map_text(id0.helpers@), false)));
    if run.confirm_mutate {
        checks.push(mk("mutate_note", true, owned("confirm_mutate set — use selftest --confirm for mouse wiggle"), true));
    }
    proof {
        let cv = checks@.map_values(|c: FieldCheck| check_view(c));
        let tail: Seq<StepView> = if run0.confirm_mutate {
            seq![("mutate_note"@, true, "confirm_mutate set — use selftest --confirm for mouse wiggle"@, true)]
        } else {
            Seq::empty()
        };
        assert(cv =~= s6 + tail);
        assert(cv =~= field_checks(*doctor, id0, run0, toolkits@));
    }
    let (failed, ok) = failed_names(&checks);
    let summary = if ok {
        let mut s = owned("field ok on ");
        push_str(&mut s, identity.family.as_str());
        push_str(&mut s, " (");
        match &identity.desktop {
            Some(d) => push_str(&mut s, d.as_str()),
            None => push_str(&mut s, "?"),
        }
        push_str(&mut s, ") — apps=");
        push_count(&mut s, app_count as usize);
        push_str(&mut s, " windows=");
        push_count(&mut s, window_count as usize);
        push_str(&mut s, " toolkits=");
        let t = count_map_debug(&toolkits);
        push_str(&mut s, t.as_str());
        s
    } else {
        let mut s = owned("field FAILED on ");
        push_str(&mut s, identity.family.as_str());
        push_str(&mut s, ": ");
        push_str(&mut s, failed.as_str());
        s
    };
    FieldReport {
        ok,
        identity,
        checks,
        toolkits,
        app_count,
        window_count,
        summary,
        captured_at: local_rfc3339(),
    }
}

// ── markdown row for the field matrix document ─────────────────────────

/// Mark of a check in the markdown row.
pub open spec fn check_mark(c: FieldCheck) -> Seq<char> {
    if c.skipped {
        "skip"@
    } else if c.ok {
        "ok"@
    } else {
        "FAIL"@
    }
}

/// Line of one check.
pub open spec fn check_line(c: FieldCheck) -> Seq<char> {
    "  - `"@ + c.name@ + "` **"@ + check_mark(c) + "** — "@ + c.detail@
}

/// The lines of the markdown row.
pub open spec fn markdown_lines(r: FieldReport) -> Seq<Seq<char>> {
    seq![
        "### "@ + r.identity.family@ + " — "@ + match r.identity.desktop { Some(d) => d@, None => "?"@ } + " ("@
            + r.identity.session_type@ + ")"@,
        "- **Captured:** "@ + r.captured_at@,
        "- **Result:** "@ + if r.ok { "PASS"@ } else { "FAIL"@ },
        "- **Apps / windows:** "@ + decimal(r.app_count as nat) + " / "@ + decimal(r.window_count as nat),
        "- **Toolkits:** `"@ + count_map_text(r.toolkits@) + "`"@,
        "- **Checks:**"@,
    ] + r.checks@.map_values(|c: FieldCheck| check_line(c)) + seq!["- **Summary:** "@ + r.summary@]
}

/// Markdown row of a report for the field matrix document: a heading with
/// family, desktop and session type, then capture time, result, counts,
/// toolkits, one line per check and the summary, joined by newlines.
pub fn markdown_summary(report: &FieldReport) -> (r: String)
    ensures
        r@ == join_with(markdown_lines(*report), seq!['\n']),
{
    let mut lines: Vec<String> = Vec::new();
    let mut l1 = owned("### ");
    push_str(&mut l1, report.identity.family.as_str());
    push_str(&mut l1, " — ");
    match &report.identity.desktop {
        Some(d) => push_str(&mut l1, d.as_str()),
        None => push_str(&mut l1, "?"),
    }
    push_str(&mut l1, " (");
    push_str(&mut l1, report.identity.session_type.as_str());
    push_str(&mut l1, ")");
    lines.push(l1);
    let mut l2 = owned("- **Captured:** ");
    push_str(&mut l2, report.captured_at.as_str());
    lines.push(l2);
    let mut l3 = owned("- **Result:** ");
    push_str(&mut l3, if report.ok { "PASS" } else { "FAIL" });
    lines.push(l3);
    let mut l4 = owned("- **Apps / windows:** ");
    push_count(&mut l4, report.app_count as usize);
    push_str(&mut l4, " / ");
    push_count(&mut l4, report.window_count as usize);
    lines.push(l4);
    let mut l5 = owned("- **Toolkits:** `");
    let t = count_map_debug(&report.toolkits);
    push_str(&mut l5, t.as_str());
    push_str(&mut l5, "`");
    lines.push(l5);
    lines.push(owned("- **Checks:**"));
    let ghost head = crate::text::views(lines@);
    assert(head =~= markdown_lines(*report).take(6));
    let mut i: usize = 0;
    while i < report.checks.len()
        invariant
            i <= report.checks@.len(),
            lines@.len() == 6 + i,
            forall|j: int| 0 <= j < 6 ==> #[trigger] lines@[j]@ == head[j],
            forall|j: int| 0 <= j < i ==> #[trigger] lines@[6 + j]@ == check_line(report.checks@[j]),
        decreases report.checks.len() - i,
    {
        let c = &report.checks[i];
        let mut l = owned("  - `");
        push_str(&mut l, c.name.as_str());
        push_str(&mut l, "` **");
        push_str(&mut l, if c.skipped {
            "skip"
        } else if c.ok {
            "ok"
        } else {
            "FAIL"
        });
        push_str(&mut l, "** — ");
        push_str(&mut l, c.detail.as_str());
        assert(l@ =~= check_line(*c));
        lines.push(l);
        i = i + 1;
    }
    let mut last = owned("- **Summary:** ");
    push_str(&mut last, report.summary.as_str());
    lines.push(last);
    proof {
        let ml = markdown_lines(*report);
        let n = report.checks@.len();
        let mapped = report.checks@.map_values(|c: FieldCheck| check_line(c));
        assert(ml.len() == 7 + n);
        assert(crate::text::views(lines@).len() == ml.len());
        assert forall|k: int| 0 <= k < ml.len() implies #[trigger] crate::text::views(lines@)[k] == ml[k] by {
            if k < 6 {
                assert(ml[k] == head[k]);
            } else if k < 6 + n {
                let j = k - 6;
                assert(lines@[6 + j]@ == check_line(report.checks@[j]));
                assert(ml[k] == mapped[j]);
            } else {
                assert(ml[k] == "- **Summary:** "@ + report.summary@);
            }
        }
        assert(crate::text::views(lines@) =~= ml);
    }
    join_strings(&lines, '\n')
}

} // verus!
