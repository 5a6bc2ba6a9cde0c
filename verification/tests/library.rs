use apex_commander::action::{action_result, no_actions_result, replace_text_error, select_action, type_into_result};
use apex_commander::audit::{audit_warning, new_event, override_not_writable, override_write_failed, record_after, require_writable};
use apex_commander::capture::{
    backend_name, capture_bounds, capture_capability, capture_plan, crop_rect, from_hex, is_request_response, percent_decode,
    portal_request_path, portal_response, portal_token, screenshot_result, shot_audit_detail, shot_file_name, uri_to_path,
    CaptureBackend, CaptureProbe,
};
use apex_commander::doctor::{atspi_capability, run_doctor, AtspiProbe, DoctorProbes, DoctorReport};
use apex_commander::wait::stable_error_detail;
use apex_commander::error::HarnessError;
use apex_commander::faces::{
    failure_reply, frame_of, mcp_find_query, mcp_snapshot_opts, optional_target, parse_error_reply, route_method,
    snapshot_header, str_arg, target_from_args, target_from_flags, tool_of, tree_lines, window_count_line, window_line, Failure,
    Frame, Route, Tool,
};
use apex_commander::field::{
    assemble_field, classify_family, count_map_debug, flag_map_debug, helper_names, identity_from, pick_target,
    toolkit_histogram, FieldConnected, FieldRun, IdentityProbe, SnapshotSummary,
};
use apex_commander::id::parse_element_id;
use apex_commander::order::{count_keys, ordered_flags, sort_apps, sort_strings};
use apex_commander::policy::{decide, gate_window, GuardDecision, SensitiveConfig, WindowLookup};
use apex_commander::selftest::{
    assemble_selftest, wiggle_skip, ConnectedRun, SelftestOpts, SelftestRun, SnapshotOutcome, WiggleOutcome,
};
use apex_commander::tree::{activate_result, needs_app_lookup, proxy_id_for};
use apex_commander::types::{A11yNode, ActivateResult, AppInfo, Bounds, Capability, MutationClass, SessionKind, TargetRef, WindowInfo};
use apex_commander::walk::{FocusScan, NodeData, SnapshotStats, TreeWalk, WalkStep};
use apex_commander::types::SnapshotOpts;
use apex_commander::tree::frontmost_fallback;
use apex_commander::catalog::{tool_catalog, ArgKind};
use apex_commander::audit::override_event;
use apex_commander::policy::{OverrideRecord, OverrideTarget};
use apex_commander::input::typed_report;
use apex_commander::types::InputBackendKind;

fn window(id: &str, title: &str, app: Option<&str>, focused: bool) -> WindowInfo {
    WindowInfo {
        id: id.to_string(),
        title: title.to_string(),
        app_name: app.map(|s| s.to_string()),
        pid: None,
        focused,
        bounds: None,
        a11y_root: true,
        role: None,
    }
}

fn app(name: &str, toolkit: Option<&str>) -> AppInfo {
    AppInfo { id: format!(":1.1|/{name}"), name: name.to_string(), pid: None, toolkit: toolkit.map(|s| s.to_string()), window_count: 1 }
}

fn data(role: &str) -> NodeData {
    NodeData { role: role.into(), name: None, description: None, value: None, states: vec![], actions: vec![], bounds: None }
}

fn doctor(ok: bool) -> DoctorReport {
    DoctorReport {
        ok,
        session: SessionKind::Wayland,
        desktop: None,
        capabilities: vec![],
        recommendations: vec![],
        summary: "doc".into(),
    }
}

fn names(v: &[&str]) -> Vec<String> {
    v.iter().map(|s| s.to_string()).collect()
}

// ── walk ────────────────────────────────────────────────────────────

#[test]
fn walk_builds_tree_in_queue_order() {
    let opts = SnapshotOpts { max_depth: 6, max_nodes: 10, include_bounds: true, include_actions: true };
    let mut w = TreeWalk::new(":1.1|/root".into(), &opts);
    match w.step() {
        WalkStep::Visit { id, depth, list_children, count_children, .. } => {
            assert_eq!(id, ":1.1|/root");
            assert_eq!(depth, 0);
            assert!(list_children);
            assert!(!count_children);
        }
        WalkStep::Done => panic!("root not visited"),
    }
    w.emit(
        data("frame"),
        Some(vec![Some((":1.1".into(), "/a".into())), None, Some((String::new(), "/x".into())), Some((":1.1".into(), "/b".into()))]),
        false,
    );
    match w.step() {
        WalkStep::Visit { id, depth, .. } => {
            assert_eq!(id, ":1.1|/a");
            assert_eq!(depth, 1);
        }
        WalkStep::Done => panic!("child not visited"),
    }
    w.skip();
    w.emit(data("button"), Some(vec![]), false);
    assert!(matches!(w.step(), WalkStep::Done));
    let (tree, stats) = w.finish();
    assert_eq!(tree.role, "frame");
    assert_eq!(tree.id.as_deref(), Some(":1.1|/root"));
    assert_eq!(tree.children.len(), 1);
    assert_eq!(tree.children[0].role, "button");
    assert_eq!(tree.children[0].id.as_deref(), Some(":1.1|/b"));
    assert_eq!(stats, SnapshotStats { nodes_emitted: 2, nodes_visited: 3, truncated: false, max_depth_hit: false });
}

#[test]
fn walk_respects_budget_and_marks_truncation() {
    let opts = SnapshotOpts { max_depth: 6, max_nodes: 2, include_bounds: false, include_actions: false };
    let mut w = TreeWalk::new("r|/r".into(), &opts);
    w.emit(data("frame"), Some(vec![Some(("b".into(), "/1".into())), Some(("b".into(), "/2".into())), Some(("b".into(), "/3".into()))]), false);
    w.emit(data("a"), None, false);
    assert!(matches!(w.step(), WalkStep::Done));
    let (tree, stats) = w.finish();
    assert_eq!(stats.nodes_emitted, 2);
    assert!(stats.truncated);
    assert_eq!(tree.children.len(), 1);
}

#[test]
fn walk_unreadable_root_gives_unknown_node() {
    let mut w = TreeWalk::new("bus|/gone".into(), &SnapshotOpts::default());
    w.skip();
    let (tree, stats) = w.finish();
    assert_eq!(tree.role, "unknown");
    assert_eq!(tree.id.as_deref(), Some("bus|/gone"));
    assert!(tree.children.is_empty());
    assert_eq!(stats.nodes_visited, 1);
    assert_eq!(stats.nodes_emitted, 0);
}

#[test]
fn walk_notes_depth_limit() {
    let opts = SnapshotOpts { max_depth: 0, max_nodes: 5, include_bounds: false, include_actions: false };
    let mut w = TreeWalk::new("r|/r".into(), &opts);
    match w.step() {
        WalkStep::Visit { list_children, count_children, .. } => {
            assert!(!list_children);
            assert!(count_children);
        }
        WalkStep::Done => panic!(),
    }
    w.emit(data("frame"), None, true);
    let (_, stats) = w.finish();
    assert!(stats.max_depth_hit);
}

#[test]
fn focus_scan_reads_depth_first_and_stops_on_focus() {
    let mut s = FocusScan::new("w|/1");
    let (id, depth) = s.next().unwrap();
    assert_eq!((id.as_str(), depth), ("w|/1", 0));
    s.report(0, false, Some(vec![Some(("w".into(), "/2".into())), Some(("w".into(), "/3".into()))]));
    let (id, _) = s.next().unwrap();
    assert_eq!(id, "w|/3");
    s.report(1, true, None);
    assert!(s.next().is_none());
    assert!(s.saw_focus());
}

#[test]
fn focus_scan_gives_up_after_budget() {
    let mut s = FocusScan::new("w|/1");
    let mut reads = 0;
    while let Some((_, depth)) = s.next() {
        reads += 1;
        s.report(depth, false, Some(vec![Some(("w".into(), "/x".into()))]));
    }
    assert_eq!(reads, 9);
    assert!(!s.saw_focus());
}

// ── order and maps ─────────────────────────────────────────────────

#[test]
fn sort_strings_orders_bytewise() {
    assert_eq!(sort_strings(names(&["b", "a", "B", "aa"])), names(&["B", "a", "aa", "b"]));
}

#[test]
fn sort_apps_by_lowercased_name_keeps_ties() {
    let apps = vec![app("beta", None), app("Alpha", None), app("alpha", Some("gtk"))];
    let sorted = sort_apps(apps);
    let got: Vec<_> = sorted.iter().map(|a| a.name.as_str()).collect();
    assert_eq!(got, vec!["Alpha", "alpha", "beta"]);
}

#[test]
fn count_keys_counts_each_key_once() {
    let r = count_keys(&names(&["qt", "gtk", "qt", "clutter"]));
    assert_eq!(r, vec![("clutter".to_string(), 1), ("gtk".to_string(), 1), ("qt".to_string(), 2)]);
}

#[test]
fn ordered_flags_last_entry_wins() {
    let r = ordered_flags(&vec![("grim".into(), false), ("gio".into(), true), ("grim".into(), true)]);
    assert_eq!(r, vec![("gio".to_string(), true), ("grim".to_string(), true)]);
}

#[test]
fn toolkit_histogram_lowercases_and_defaults_unknown() {
    let r = toolkit_histogram(&vec![app("a", Some("GTK")), app("b", None), app("c", Some("gtk"))]);
    assert_eq!(r, vec![("gtk".to_string(), 2), ("unknown".to_string(), 1)]);
    assert_eq!(count_map_debug(&r), "{\"gtk\": 2, \"unknown\": 1}");
    assert_eq!(count_map_debug(&vec![]), "{}");
}

#[test]
fn flag_map_debug_renders_like_a_map() {
    assert_eq!(flag_map_debug(&vec![("gio".into(), true), ("grim".into(), false)]), "{\"gio\": true, \"grim\": false}");
}

// ── field ──────────────────────────────────────────────────────────

#[test]
fn classify_unlisted_desktops_as_unknown() {
    assert_eq!(classify_family(None, None), "unknown");
    assert_eq!(classify_family(Some("Weird"), None), "unknown");
    assert_eq!(classify_family(Some("XFCE"), None), "unknown");
    assert_eq!(classify_family(Some("sway"), None), "sway");
    assert_eq!(classify_family(Some("i3"), None), "i3");
}

#[test]
fn pick_target_prefers_rich_apps_and_skips_shell() {
    let wins = vec![
        window("t", "Terminal", Some("ptyxis"), true),
        window("s", "Main stage", Some("gnome-shell"), true),
        window("u", "", Some("geany"), false),
        window("c", "Calculator", Some("gnome-calculator"), false),
        window("g", "notes", Some("gedit"), false),
    ];
    assert_eq!(pick_target(Some(&wins)), Some(TargetRef::Id("c".into())));
    assert_eq!(pick_target(Some(&vec![window("s", "Main stage", None, true)])), None);
    assert_eq!(pick_target(None), None);
}

#[test]
fn identity_from_probe() {
    let helpers = helper_names().into_iter().map(|h| (h.clone(), h == "grim")).collect();
    let id = identity_from(IdentityProbe {
        xdg_session_type: None,
        wayland_set: false,
        display_set: true,
        xdg_current_desktop: Some("".into()),
        desktop_session: Some("plasma".into()),
        wayland_display: None,
        display: Some(":0".into()),
        helpers,
        session_entries: names(&["z.desktop", "README", "a.desktop"]),
    });
    assert_eq!(id.session_type, "x11");
    assert_eq!(id.desktop, None);
    assert_eq!(id.family, "plasma");
    assert_eq!(id.helpers.len(), 14);
    assert_eq!(id.helpers[0], ("gio".to_string(), false));
    assert!(id.helpers.iter().any(|(k, v)| k == "grim" && *v));
    assert_eq!(id.session_files, names(&["a.desktop", "z.desktop"]));
}

fn identity() -> apex_commander::field::SessionIdentity {
    identity_from(IdentityProbe {
        xdg_session_type: Some("wayland".into()),
        wayland_set: true,
        display_set: false,
        xdg_current_desktop: Some("GNOME".into()),
        desktop_session: None,
        wayland_display: Some("wayland-0".into()),
        display: None,
        helpers: vec![("grim".into(), true)],
        session_entries: vec![],
    })
}

fn cap(name: &str, available: bool) -> Capability {
    Capability { name: name.into(), available, detail: Some(format!("{name} detail")) }
}

#[test]
fn field_report_all_checks_pass() {
    let run = FieldRun {
        capture: cap("capture", true),
        input: cap("input", false),
        connect: Ok(FieldConnected {
            apps: Ok(vec![app("a", Some("gtk")), app("b", Some("qt"))]),
            windows: Ok(vec![window("w", "Editor", Some("geany"), true)]),
            activate: Some(Err("org.freedesktop.DBus.Error.NotSupported".into())),
            snapshot: Some(Ok(SnapshotSummary {
                role: "frame".into(),
                nodes: 7,
                truncated: false,
                max_depth_hit: true,
                buttons: Ok(vec![Some("OK".into())]),
            })),
            screenshot: Ok(apex_commander::types::ScreenshotResult {
                path: "/tmp/s.png".into(),
                scope: "window".into(),
                backend: "grim".into(),
                bytes: 10,
                bounds: None,
            }),
        }),
        confirm_mutate: false,
    };
    let r = assemble_field(&doctor(true), identity(), run);
    assert!(r.ok);
    assert_eq!(r.app_count, 2);
    assert_eq!(r.window_count, 1);
    let names: Vec<_> = r.checks.iter().map(|c| c.name.as_str()).collect();
    assert_eq!(
        names,
        vec!["doctor", "capture_probe", "input_probe", "atspi_connect", "list_apps", "list_windows", "activate_grab_focus", "snapshot", "find_button", "screenshot", "compositor_helpers"]
    );
    assert!(r.checks[2].skipped);
    assert_eq!(r.checks[4].detail, "2 apps; toolkits={\"gtk\": 1, \"qt\": 1}");
    assert_eq!(r.checks[5].detail, "1 windows; focused_flag=1");
    assert_eq!(r.checks[6].detail, "honest fail (expected on some Wayland apps): org.freedesktop.DBus.Error.NotSupported");
    assert_eq!(r.checks[7].detail, "role=frame nodes=7 truncated=false max_depth_hit=true");
    assert_eq!(r.checks[8].detail, "1 button(s); first=Some(\"OK\")");
    assert_eq!(r.checks[9].detail, "backend=grim scope=window bytes=10 path=/tmp/s.png");
    assert_eq!(r.checks[10].detail, "{\"grim\": true}");
    assert_eq!(r.summary, "field ok on gnome (GNOME) — apps=2 windows=1 toolkits={\"gtk\": 1, \"qt\": 1}");
    assert!(!r.captured_at.is_empty());
}

#[test]
fn field_report_failure_lists_failed_checks() {
    let run = FieldRun {
        capture: cap("capture", false),
        input: cap("input", true),
        connect: Err("no bus".into()),
        confirm_mutate: true,
    };
    let r = assemble_field(&doctor(false), identity(), run);
    assert!(!r.ok);
    assert_eq!(r.summary, "field FAILED on gnome: doctor, capture_probe, atspi_connect");
    assert_eq!(r.checks.last().unwrap().name, "mutate_note");
    assert!(r.toolkits.is_empty());
    assert_eq!(r.app_count, 0);
}

// ── selftest ───────────────────────────────────────────────────────

#[test]
fn selftest_report_ok() {
    let run = SelftestRun {
        connect: Ok(ConnectedRun {
            apps: Ok(3),
            windows: Ok(2),
            snapshot: SnapshotOutcome::Taken { role: "frame".into(), nodes: 5, truncated: true, find: Ok(1) },
        }),
        wiggle: WiggleOutcome::NotConfirmed,
    };
    let r = assemble_selftest(doctor(true), run);
    assert!(r.ok);
    assert_eq!(r.steps.len(), 7);
    assert_eq!(r.steps[2].detail, "3 application root(s)");
    assert_eq!(r.steps[4].detail, "role=frame nodes=5 truncated=true");
    assert_eq!(r.steps[5].detail, "1 hit(s)");
    assert_eq!(r.summary, "selftest ok — 7 step(s) (1 skipped)");
}

#[test]
fn selftest_report_failed() {
    let run = SelftestRun { connect: Err("bus down".into()), wiggle: WiggleOutcome::Failed("no uinput".into()) };
    let r = assemble_selftest(doctor(true), run);
    assert!(!r.ok);
    assert_eq!(r.summary, "selftest FAILED: atspi_connect, mouse_wiggle");
    let r = assemble_selftest(
        doctor(true),
        SelftestRun {
            connect: Ok(ConnectedRun { apps: Ok(0), windows: Err("x".into()), snapshot: SnapshotOutcome::NoTarget }),
            wiggle: WiggleOutcome::NoBackend,
        },
    );
    assert_eq!(r.summary, "selftest FAILED: list_apps, list_windows");
}

#[test]
fn wiggle_needs_confirmation_and_backend() {
    let mut o = SelftestOpts::default();
    assert!(matches!(wiggle_skip(&o, true), Some(WiggleOutcome::NotConfirmed)));
    o.confirm_mutate = true;
    assert!(matches!(wiggle_skip(&o, false), Some(WiggleOutcome::NoBackend)));
    assert!(wiggle_skip(&o, true).is_none());
}

// ── capture ────────────────────────────────────────────────────────

#[test]
fn capture_capability_lists_backends() {
    let c = capture_capability(CaptureProbe::Found { portal: true, shell: false, gnome_screenshot: false, grim: true });
    assert!(c.available);
    assert_eq!(c.detail.as_deref(), Some("backends: xdg-desktop-portal, grim"));
    let c = capture_capability(CaptureProbe::Found { portal: false, shell: false, gnome_screenshot: false, grim: false });
    assert!(!c.available);
    let c = capture_capability(CaptureProbe::NoBus("x".into()));
    assert_eq!(c.detail.as_deref(), Some("no session bus: x"));
}

#[test]
fn capture_plan_order() {
    assert_eq!(capture_plan(false, true), vec![CaptureBackend::Portal, CaptureBackend::Shell, CaptureBackend::Grim]);
    assert_eq!(backend_name(CaptureBackend::GnomeScreenshotCli), "gnome-screenshot-cli");
}

#[test]
fn percent_decoding() {
    assert_eq!(from_hex(b'a'), Some(10));
    assert_eq!(from_hex(b'G'), None);
    assert_eq!(percent_decode("/tmp/a%20b"), "/tmp/a b");
    assert_eq!(percent_decode("/plain/path"), "/plain/path");
    assert_eq!(percent_decode("50%"), "50%");
    assert_eq!(percent_decode("%zz1"), "%zz1");
    assert_eq!(uri_to_path("file:///home/u/Pictures/Screenshot%20x.png").unwrap(), "/home/u/Pictures/Screenshot x.png");
    match uri_to_path("http://x") {
        Err(HarnessError::Other(m)) => assert_eq!(m, "unexpected portal uri: http://x"),
        _ => panic!("expected error"),
    }
}

#[test]
fn portal_request_and_response() {
    assert_eq!(portal_request_path(":1.42", "adh1"), "/org/freedesktop/portal/desktop/request/1_42/adh1");
    let t = portal_token();
    assert_eq!(t.len(), 35);
    assert!(t.starts_with("adh"));
    assert!(t[3..].chars().all(|c| c.is_ascii_hexdigit() && !c.is_ascii_uppercase()));
    assert!(is_request_response(true, Some("org.freedesktop.portal.Request"), Some("Response"), "/h", "/r", "/h"));
    assert!(!is_request_response(false, Some("org.freedesktop.portal.Request"), Some("Response"), "/h", "/r", "/h"));
    match portal_response(1, None) {
        Err(HarnessError::Unavailable(m)) => assert_eq!(m, "portal screenshot cancelled or failed (response code 1)"),
        _ => panic!(),
    }
    match portal_response(0, None) {
        Err(HarnessError::Unavailable(m)) => assert_eq!(m, "portal Response missing uri"),
        _ => panic!(),
    }
    assert_eq!(portal_response(0, Some(Ok("file:///a".into()))).unwrap(), "/a");
}

#[test]
fn crop_rectangle() {
    let b = Bounds { x: -5, y: 10, width: 500, height: 20 };
    assert_eq!(crop_rect(b, 100, 100).unwrap(), (0, 10, 100, 20));
    match crop_rect(Bounds { x: 200, y: 0, width: 5, height: 5 }, 100, 100) {
        Err(HarnessError::Other(m)) => assert_eq!(m, "crop origin (200,0) outside image 100x100"),
        _ => panic!(),
    }
    match crop_rect(Bounds { x: 0, y: 0, width: 0, height: 5 }, 100, 100) {
        Err(HarnessError::Other(m)) => assert_eq!(m, "zero-sized crop"),
        _ => panic!(),
    }
}

#[test]
fn screenshot_records() {
    let name = shot_file_name();
    assert!(name.starts_with("shot-") && name.ends_with(".png") && name.len() > 9);
    let r = screenshot_result("/p".into(), "grim".into(), Some(Bounds { x: 0, y: 0, width: 1, height: 1 }), true, 3);
    assert_eq!(r.scope, "window+full_fallback");
    let r = screenshot_result("/p".into(), "grim".into(), None, true, 3);
    assert_eq!(r.scope, "display");
    assert_eq!(shot_audit_detail(42), "42 bytes");
    match capture_bounds(false, "w1", None) {
        Err(HarnessError::Unavailable(m)) => assert_eq!(m, "window w1 has no bounds"),
        _ => panic!(),
    }
}

// ── actions ────────────────────────────────────────────────────────

#[test]
fn action_selection() {
    let acts = names(&["Expand", "Press", "Click"]);
    assert_eq!(select_action(&acts, None, None).unwrap(), Some(1));
    assert_eq!(select_action(&acts, Some("click"), None).unwrap(), Some(2));
    assert_eq!(select_action(&acts, Some("click"), Some(0)).unwrap(), Some(0));
    assert_eq!(select_action(&names(&["Expand"]), None, None).unwrap(), Some(0));
    assert_eq!(select_action(&vec![], Some("x"), Some(9)).unwrap(), None);
    match select_action(&acts, None, Some(3)) {
        Err(HarnessError::NotFound(m)) => assert_eq!(m, "action index 3 out of range 0..3"),
        _ => panic!(),
    }
    match select_action(&acts, Some("jump"), None) {
        Err(HarnessError::NotFound(m)) => assert_eq!(m, "action \"jump\" not found; available: Expand, Press, Click"),
        _ => panic!(),
    }
}

#[test]
fn action_results() {
    let r = action_result("e", 2, "Click", true);
    assert_eq!(r.detail, "DoAction(2=Click) returned true");
    assert!(!no_actions_result("e").ok);
    let a = type_into_result("e", "secret", true, true);
    let b = type_into_result("e", "abcdef", true, true);
    assert_eq!(a.detail, "appended 6 char(s) via EditableText");
    assert_eq!(a.detail, b.detail);
    assert_eq!(type_into_result("e", "x", false, false).detail, "EditableText returned false");
    match replace_text_error("a", "b") {
        HarnessError::Other(m) => assert_eq!(m, "SetTextContents failed (a); InsertText also failed: b"),
        _ => panic!(),
    }
}

// ── faces ──────────────────────────────────────────────────────────

#[test]
fn cli_targets() {
    assert_eq!(target_from_flags(Some("i".into()), None, None, false).unwrap(), TargetRef::Id("i".into()));
    assert_eq!(target_from_flags(None, None, None, true).unwrap(), TargetRef::Frontmost);
    assert_eq!(target_from_flags(None, None, None, false).unwrap_err(), "need a target: --id, --name, --pid, or --frontmost");
    assert_eq!(
        target_from_flags(Some("i".into()), None, Some(3), false).unwrap_err(),
        "specify only one of --id / --name / --pid / --frontmost"
    );
    assert_eq!(optional_target(None, None, None, false).unwrap(), None);
    assert_eq!(optional_target(None, None, Some(7), false).unwrap(), Some(TargetRef::Pid(7)));
}

#[test]
fn mcp_targets_default_to_frontmost() {
    assert_eq!(target_from_args(None, Some(String::new()), None, None).unwrap(), TargetRef::Frontmost);
    assert_eq!(target_from_args(None, Some("Calc".into()), None, Some(false)).unwrap(), TargetRef::Name("Calc".into()));
    assert_eq!(target_from_args(None, None, Some((1u64 << 32) + 5), None).unwrap(), TargetRef::Pid(5));
    assert_eq!(target_from_args(Some("i".into()), None, None, Some(true)).unwrap_err(), "specify only one of id/name/pid/frontmost");
    assert_eq!(str_arg(Some(String::new())), None);
}

#[test]
fn mcp_options_and_queries() {
    let o = mcp_snapshot_opts(None, Some(7));
    assert_eq!((o.max_depth, o.max_nodes), (6, 7));
    let q = mcp_find_query(Some("button".into()), Some(String::new()), None, None, None, None);
    assert_eq!(q.role.as_deref(), Some("button"));
    assert_eq!(q.name, None);
    assert_eq!(q.max_results, 25);
}

#[test]
fn mcp_routing() {
    assert_eq!(route_method("tools/call", true), Route::ToolsCall);
    assert_eq!(route_method("tools/call", false), Route::Ignore);
    assert_eq!(route_method("notifications/initialized", true), Route::Ignore);
    assert_eq!(route_method("bogus", true), Route::Unknown);
    assert_eq!(tool_of(Some("snapshot")).unwrap(), Tool::Snapshot);
    assert_eq!(tool_of(None).unwrap_err(), "tools/call missing params.name");
    assert!(tool_of(Some("nope")).unwrap_err().starts_with("unknown tool 'nope'"));
    assert!(matches!(failure_reply("method not found: x".into()), Failure::RpcError { code: -32601, .. }));
    assert!(matches!(failure_reply("boom".into()), Failure::ToolError(_)));
    assert!(matches!(parse_error_reply("eof"), Failure::RpcError { code: -32700, .. }));
    assert!(matches!(frame_of("  \n"), Frame::Blank));
    match frame_of(" {\"a\":1}\n") {
        Frame::Request(t) => assert_eq!(t, "{\"a\":1}"),
        _ => panic!(),
    }
}

#[test]
fn cli_renderings() {
    assert_eq!(window_line(&window("w|/1", "", None, true)), "* [?] (no title)  (w|/1)");
    assert_eq!(window_count_line(2), "2 window(s)");
    let s = SnapshotStats { nodes_emitted: 3, nodes_visited: 4, truncated: false, max_depth_hit: true };
    assert_eq!(snapshot_header(&s), "nodes=3 truncated=false max_depth_hit=true");
    let mut root = A11yNode {
        id: None,
        role: "frame".into(),
        name: Some("Demo".into()),
        description: None,
        value: None,
        states: vec!["active".into(), "showing".into()],
        actions: vec![],
        bounds: None,
        children: vec![],
    };
    root.children.push(A11yNode {
        id: None,
        role: "button".into(),
        name: None,
        description: None,
        value: None,
        states: vec![],
        actions: vec![],
        bounds: None,
        children: vec![],
    });
    assert_eq!(tree_lines(&root), names(&["frame \"Demo\" [active,showing]", "  button"]));
}

// ── tree, policy, ids, doctor, audit ───────────────────────────────

#[test]
fn activate_and_proxy_resolution() {
    let a: ActivateResult = activate_result("w".into(), String::new(), false);
    assert_eq!(a.title, None);
    assert_eq!(a.detail, "GrabFocus returned false — window may not accept focus");
    let t = TargetRef::Name("calc".into());
    let err: Result<WindowInfo, HarnessError> = Err(HarnessError::NotFound("none".into()));
    assert!(needs_app_lookup(&t, &err));
    let r = proxy_id_for(&t, Some(err), Some(Ok(app("calc", None)))).unwrap();
    assert_eq!(r, ":1.1|/calc");
    assert_eq!(proxy_id_for(&TargetRef::Id("x|/y".into()), None, None).unwrap(), "x|/y");
}

#[test]
fn gate_fails_closed_without_session() {
    let cfg = SensitiveConfig::default();
    match gate_window(WindowLookup::NoSession, "mouse_move", &cfg) {
        Err(HarnessError::Unavailable(m)) => assert!(m.contains("mouse_move")),
        _ => panic!(),
    }
    assert!(gate_window(WindowLookup::Frontmost(Ok(window("w", "Editor", Some("geany"), true))), "key", &cfg).unwrap().is_none());
    let allow = SensitiveConfig { allow_override: true, ..SensitiveConfig::default() };
    let rec = gate_window(WindowLookup::Target(Ok(window("w", "Vault", Some("bitwarden"), true))), "key", &allow).unwrap().unwrap();
    assert_eq!(rec.detail, "allow_override matched pattern \"bitwarden\"");
    match decide(Some("bitwarden"), "Vault", &SensitiveConfig::default()) {
        GuardDecision::Block { hit } => assert_eq!(hit.pattern, "bitwarden"),
        _ => panic!(),
    }
}

#[test]
fn element_ids_parse() {
    assert_eq!(parse_element_id(":1.2|/a").unwrap(), (":1.2".to_string(), "/a".to_string()));
    match parse_element_id("junk") {
        Err(HarnessError::Other(m)) => assert_eq!(m, "invalid element id 'junk' — expected '{bus}|{object_path}'"),
        _ => panic!(),
    }
}

#[test]
fn atspi_capability_texts() {
    assert_eq!(atspi_capability(AtspiProbe::Roots(4)).detail.as_deref(), Some("bus live · 4 application root(s)"));
    assert!(atspi_capability(AtspiProbe::ChildrenFailed("e".into())).available);
    assert!(!atspi_capability(AtspiProbe::Failed("e".into())).available);
}

#[test]
fn audit_helpers() {
    let e = new_event("key", MutationClass::Mutating, None, false, "");
    assert_eq!(e.result, "error");
    assert!(e.detail.is_none());
    assert!(!e.ts.is_empty());
    let err = std::io::Error::other("disk gone");
    match require_writable(Err(err.to_string())) {
        Err(HarnessError::Other(m)) => assert_eq!(m, "audit log not writable: disk gone"),
        _ => panic!(),
    }
    assert_eq!(record_after("done", Ok(())), "done");
    assert_eq!(record_after("done", Err(std::io::Error::other("x").to_string())), "done; WARNING audit log write failed: x");
    assert_eq!(audit_warning("moved", "disk full"), "moved; WARNING audit log write failed: disk full");
    match override_write_failed("read-only file system") {
        HarnessError::Other(m) => assert_eq!(m, "audit log write failed (override refused): read-only file system"),
        _ => panic!(),
    }
    match override_not_writable("no such file") {
        HarnessError::Other(m) => assert_eq!(m, "audit log not writable (override refused): no such file"),
        _ => panic!(),
    }
}

// ── review additions: documented orders, caps and catalog ─────────────

#[test]
fn frontmost_prefers_any_focused_window_over_focused_descendant() {
    let ws = vec![
        window("c", "Main stage", Some("gnome-shell"), true),
        window("e", "Editor", Some("geany"), false),
    ];
    let w = frontmost_fallback(&ws, &vec![false, true]).unwrap();
    assert_eq!(w.id, "c");
    let ws2 = vec![window("c", "Main stage", Some("gnome-shell"), false), window("e", "Editor", Some("geany"), false)];
    let w2 = frontmost_fallback(&ws2, &vec![false, true]).unwrap();
    assert_eq!(w2.id, "e");
    assert!(w2.focused);
    assert!(matches!(frontmost_fallback(&ws2, &vec![false, false]), Err(HarnessError::NotFound(_))));
}

#[test]
fn walk_never_visits_more_than_the_budget() {
    let opts = SnapshotOpts { max_depth: 6, max_nodes: 2, include_bounds: false, include_actions: false };
    let mut w = TreeWalk::new("r|/r".into(), &opts);
    w.emit(data("frame"), Some(vec![Some(("b".into(), "/1".into())), Some(("b".into(), "/2".into()))]), false);
    while let WalkStep::Visit { .. } = w.step() {
        w.skip();
    }
    let (tree, stats) = w.finish();
    assert_eq!(stats.nodes_visited, 2);
    assert_eq!(stats.nodes_emitted, 1);
    assert!(stats.truncated);
    assert!(tree.children.is_empty());
}

#[test]
fn unknown_tool_is_an_error() {
    assert_eq!(
        tool_of(Some("bogus")).unwrap_err(),
        "unknown tool 'bogus' — see tools/list (S1 surface: doctor, list_*, frontmost, activate, snapshot, find_elements, focused_element)"
    );
    assert_eq!(tool_of(Some("activate")).unwrap(), Tool::Activate);
}

#[test]
fn tool_catalog_annotations() {
    let c = tool_catalog();
    let names: Vec<_> = c.iter().map(|t| t.name.as_str()).collect();
    assert_eq!(
        names,
        vec!["doctor", "list_apps", "list_windows", "frontmost", "activate", "snapshot", "find_elements", "focused_element"]
    );
    for t in &c {
        assert_eq!(t.read_only, t.name != "activate");
        assert!(!t.destructive && !t.open_world);
    }
    let snap = &c[5];
    let args: Vec<_> = snap.args.iter().map(|a| (a.name.as_str(), a.kind, a.minimum)).collect();
    assert_eq!(
        args,
        vec![
            ("id", ArgKind::Text, None),
            ("name", ArgKind::Text, None),
            ("pid", ArgKind::Integer, None),
            ("frontmost", ArgKind::Flag, None),
            ("max_depth", ArgKind::Integer, Some(0)),
            ("max_nodes", ArgKind::Integer, Some(1)),
        ]
    );
    assert_eq!(c[6].args[5].note.as_deref(), Some("accessible name filter"));
    assert!(c[0].args.is_empty());
    assert_eq!(c[4].args.len(), 4);
}

#[test]
fn override_event_fields() {
    let rec = OverrideRecord {
        tool: "type_into".into(),
        pattern: "bitwarden".into(),
        target: OverrideTarget::Name("Bitwarden".into()),
        detail: "allow_override matched pattern \"bitwarden\"".into(),
    };
    let e = override_event(&rec, None);
    assert_eq!(e.tool, "policy_override");
    assert_eq!(e.mutation, MutationClass::Mutating);
    assert_eq!(e.result, "ok");
    assert_eq!(e.detail.as_deref(), Some("allow_override matched pattern \"bitwarden\""));
}

#[test]
fn typed_report_depends_on_length_only() {
    let a = typed_report(InputBackendKind::Wtype, "hunter2");
    let b = typed_report(InputBackendKind::Wtype, "passwd!");
    assert_eq!((a.backend.as_str(), a.chars, a.detail.as_str()), ("Wtype", 7, "Wtype typed 7 char(s)"));
    assert_eq!((a.backend, a.chars, a.detail), (b.backend, b.chars, b.detail));
    assert_eq!(typed_report(InputBackendKind::Ydotool, "héé").chars, 3);
}

#[test]
fn toolkit_counts_sum_to_app_count() {
    let apps = vec![app("a", Some("GTK")), app("b", None), app("c", Some("gtk")), app("d", Some("Qt"))];
    let h = toolkit_histogram(&apps);
    assert_eq!(h, vec![("gtk".to_string(), 2), ("qt".to_string(), 1), ("unknown".to_string(), 1)]);
    assert_eq!(h.iter().map(|(_, n)| *n as usize).sum::<usize>(), apps.len());
}

#[test]
fn walk_drops_unrequested_actions_and_bounds() {
    let opts = SnapshotOpts { max_depth: 2, max_nodes: 5, include_bounds: false, include_actions: false };
    let mut w = TreeWalk::new("r|/r".into(), &opts);
    match w.step() {
        WalkStep::Visit { read_actions, read_bounds, .. } => assert!(!read_actions && !read_bounds),
        WalkStep::Done => panic!(),
    }
    let mut d = data("frame");
    d.actions = vec!["Click".into()];
    d.bounds = Some(Bounds { x: 0, y: 0, width: 1, height: 1 });
    w.emit(d, Some(vec![]), false);
    let (tree, _) = w.finish();
    assert!(tree.actions.is_empty());
    assert!(tree.bounds.is_none());
}

#[test]
fn doctor_names_its_capabilities() {
    let probes = DoctorProbes {
        wayland_display: true,
        display: false,
        xdg_current_desktop: Some("GNOME".into()),
        desktop_session: None,
        atspi: Capability { name: "bus".into(), available: true, detail: Some("connected".into()) },
        input: Capability { name: "tools".into(), available: false, detail: None },
        capture: Capability { name: "shots".into(), available: true, detail: Some("grim".into()) },
        config_path: "/c".into(),
        audit_path: "/a".into(),
        audit_writable: true,
    };
    let r = run_doctor(probes, &SensitiveConfig::load(None));
    let names: Vec<_> = r.capabilities.iter().map(|c| c.name.as_str()).collect();
    assert_eq!(names, vec!["session_detect", "atspi", "input", "capture", "policy", "audit", "window_backend", "element_actions"]);
    assert!(r.ok);
    assert_eq!(r.capabilities[1].detail.as_deref(), Some("connected"));
    assert!(!r.capabilities[2].available);
}

#[test]
fn stable_wait_error_detail_carries_reason() {
    assert_eq!(stable_error_detail("io: broken pipe"), "timeout; last error: io: broken pipe");
}
