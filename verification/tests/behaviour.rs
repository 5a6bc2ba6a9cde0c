use apex_commander::audit::typed_chars_detail;
use apex_commander::error::HarnessError;
use apex_commander::field::{classify_family, markdown_summary, FieldCheck, FieldReport, SessionIdentity};
use apex_commander::find::find_in_tree;
use apex_commander::id::{decode_id, encode_id, id_on_bus};
use apex_commander::launch::{is_desktop_id, looks_dangerous};
use apex_commander::paths::state_dir;
use apex_commander::policy::{decide, enforce_classified, enforce_window, guard_window, match_sensitive, GuardDecision, SensitiveConfig};
use apex_commander::selftest::resolve_selftest_target;
use apex_commander::types::{A11yNode, FindQuery, SnapshotOpts, TargetRef, WindowInfo};
use apex_commander::wait::{clamp_timeout, fingerprint_tree, DEFAULT_TIMEOUT_MS, MAX_TIMEOUT_MS};

fn leaf(id: Option<&str>, role: &str, name: Option<&str>, description: Option<&str>, value: Option<&str>, states: &[&str], actions: &[&str]) -> A11yNode {
    A11yNode {
        id: id.map(|s| s.to_string()),
        role: role.to_string(),
        name: name.map(|s| s.to_string()),
        description: description.map(|s| s.to_string()),
        value: value.map(|s| s.to_string()),
        states: states.iter().map(|s| s.to_string()).collect(),
        actions: actions.iter().map(|s| s.to_string()).collect(),
        bounds: None,
        children: vec![],
    }
}

fn sample_tree() -> A11yNode {
    let mut root = leaf(Some(":1.1|/root"), "frame", Some("Demo"), None, None, &["showing"], &[]);
    root.children = vec![
        leaf(Some(":1.1|/btn"), "button", Some("OK"), Some("Confirm dialog"), None, &["enabled", "focusable"], &["click"]),
        leaf(Some(":1.1|/entry"), "text", Some("Name"), None, Some("Ada"), &["editable", "focused"], &[]),
    ];
    root
}

#[test]
fn find_by_role_and_name() {
    let tree = sample_tree();
    let hits = find_in_tree(
        &tree,
        &FindQuery { role: Some("button".into()), name: Some("ok".into()), ..Default::default() },
    );
    assert_eq!(hits.len(), 1);
    assert_eq!(hits[0].name.as_deref(), Some("OK"));
    assert_eq!(hits[0].id.as_deref(), Some(":1.1|/btn"));
    assert!(hits[0].path.iter().any(|p| p.contains("button")));
}

#[test]
fn find_by_state_focused() {
    let tree = sample_tree();
    let hits = find_in_tree(&tree, &FindQuery { state: Some("focused".into()), ..Default::default() });
    assert_eq!(hits.len(), 1);
    assert_eq!(hits[0].role, "text");
}

#[test]
fn find_by_text_matches_value() {
    let tree = sample_tree();
    let hits = find_in_tree(&tree, &FindQuery { text: Some("Ada".into()), ..Default::default() });
    assert_eq!(hits.len(), 1);
    assert_eq!(hits[0].value.as_deref(), Some("Ada"));
}

#[test]
fn name_exact_rejects_substring() {
    let tree = sample_tree();
    let hits = find_in_tree(
        &tree,
        &FindQuery { name: Some("O".into()), name_exact: true, ..Default::default() },
    );
    assert!(hits.is_empty());
}

#[test]
fn max_results_caps() {
    let tree = sample_tree();
    let hits = find_in_tree(&tree, &FindQuery { max_results: 1, ..Default::default() });
    assert_eq!(hits.len(), 1);
}

#[test]
fn id_roundtrip() {
    let id = encode_id(":1.9", "/org/a11y/atspi/accessible/root");
    assert_eq!(id, ":1.9|/org/a11y/atspi/accessible/root");
    let (b, p) = decode_id(&id).unwrap();
    assert_eq!(b, ":1.9");
    assert_eq!(p, "/org/a11y/atspi/accessible/root");
}

#[test]
fn id_rejects_bad() {
    assert!(decode_id("nope").is_none());
    assert!(decode_id("|/path").is_none());
    assert!(decode_id("bus|notapath").is_none());
}

#[test]
fn bus_match() {
    let id = encode_id(":1.9", "/org/a11y/atspi/accessible/1");
    assert!(id_on_bus(&id, ":1.9"));
    assert!(!id_on_bus(&id, ":1.10"));
    assert!(!id_on_bus("not-an-id", ":1.9"));
}

#[test]
fn typed_detail_has_no_secrets() {
    let d = typed_chars_detail("Ydotool", 12);
    assert_eq!(d, "Ydotool typed 12 char(s)");
    assert!(!d.contains("secret"));
}

#[test]
fn desktop_id_detection() {
    assert!(is_desktop_id("org.gnome.Calculator"));
    assert!(is_desktop_id("org.gnome.Calculator.desktop"));
    assert!(!is_desktop_id("/usr/bin/foo"));
    assert!(!is_desktop_id("gnome-calculator"));
    assert!(!is_desktop_id("foo bar"));
}

#[test]
fn rejects_metacharacters() {
    assert!(looks_dangerous("foo;rm -rf /"));
    assert!(looks_dangerous("$(evil)"));
    assert!(!looks_dangerous("org.gnome.Calculator"));
    assert!(!looks_dangerous("/usr/bin/gnome-calculator"));
}

fn window(id: &str, title: &str, app: Option<&str>, focused: bool) -> WindowInfo {
    WindowInfo {
        id: id.to_string(),
        title: title.to_string(),
        app_name: app.map(|s| s.to_string()),
        pid: None,
        focused,
        bounds: None,
        a11y_root: true,
        role: None,
    }
}

fn bitwarden() -> WindowInfo {
    window(":1.9|/org/a11y/atspi/accessible/1", "Bitwarden", Some("bitwarden"), false)
}

#[test]
fn policy_blocks_password_manager_title() {
    let cfg = SensitiveConfig::default();
    let hit = match_sensitive(Some("1Password"), "Vault", &cfg);
    assert!(hit.is_some());
    assert_eq!(hit.unwrap().pattern, "1password");
}

#[test]
fn policy_allows_normal_app() {
    let cfg = SensitiveConfig::default();
    assert!(match_sensitive(Some("geany"), "PRD.md", &cfg).is_none());
    assert!(matches!(decide(Some("geany"), "PRD.md", &cfg), GuardDecision::Allow));
}

#[test]
fn element_id_is_not_a_sensitive_name() {
    let cfg = SensitiveConfig::default();
    assert!(match_sensitive(None, ":1.11|/org/a11y/atspi/accessible/943", &cfg).is_none());
}

#[test]
fn policy_replace_defaults_only_custom() {
    let cfg = SensitiveConfig { deny_substrings: vec!["only-this".into()], replace_defaults: true, allow_override: false };
    assert!(match_sensitive(Some("1Password"), "Vault", &cfg).is_none());
    assert!(match_sensitive(None, "only-this-window", &cfg).is_some());
}

#[test]
fn decide_override_vs_block() {
    let mut cfg = SensitiveConfig::default();
    assert!(matches!(decide(Some("bitwarden"), "Vault", &cfg), GuardDecision::Block { .. }));
    cfg.allow_override = true;
    assert!(matches!(decide(Some("bitwarden"), "Vault", &cfg), GuardDecision::AllowOverride { .. }));
}

#[test]
fn policy_guard_window_errors() {
    let cfg = SensitiveConfig::default();
    assert!(enforce_window(&bitwarden(), "do_action", &cfg).is_err());
    let w = window("x", "Bitwarden", Some("bitwarden"), false);
    assert!(guard_window(&w, &cfg).is_err());
}

#[test]
fn empty_classification_fails_closed() {
    let cfg = SensitiveConfig::default();
    let err = enforce_classified(&vec![], "do_action", &cfg).unwrap_err();
    assert!(matches!(err, HarnessError::Unavailable(_)));
}

#[test]
fn resolve_skips_shell() {
    let wins = vec![
        window("a", "Main stage", Some("gnome-shell"), true),
        window("b", "Editor", Some("geany"), false),
    ];
    let t = resolve_selftest_target(None, Some(&wins)).unwrap();
    assert_eq!(t, TargetRef::Id("b".into()));
}

fn fp_sample() -> A11yNode {
    let mut root = leaf(None, "frame", Some("A"), None, None, &[], &[]);
    root.children = vec![leaf(None, "button", Some("OK"), None, None, &[], &[])];
    root
}

#[test]
fn fingerprint_stable_for_same_tree() {
    let t = fp_sample();
    let a = fingerprint_tree(&t, 2);
    let b = fingerprint_tree(&t, 2);
    assert_eq!(a, b);
    assert!(a.contains("button"));
}

#[test]
fn fingerprint_changes_with_name() {
    let mut t = fp_sample();
    let a = fingerprint_tree(&t, 2);
    t.children[0].name = Some("Cancel".into());
    let b = fingerprint_tree(&t, 2);
    assert_ne!(a, b);
}

#[test]
fn clamp_timeout_bounds() {
    assert_eq!(clamp_timeout(Some(0)), 1);
    assert_eq!(clamp_timeout(Some(999_999)), MAX_TIMEOUT_MS);
    assert_eq!(clamp_timeout(None), DEFAULT_TIMEOUT_MS);
}

#[test]
fn classify_gnome_ubuntu() {
    assert_eq!(classify_family(Some("ubuntu:GNOME"), Some("ubuntu")), "gnome");
}

#[test]
fn classify_plasma() {
    assert_eq!(classify_family(Some("KDE"), Some("plasma")), "plasma");
    assert_eq!(classify_family(Some("plasma"), Some("plasmawayland")), "plasma");
}

#[test]
fn classify_hyprland() {
    assert_eq!(classify_family(Some("Hyprland"), Some("hyprland")), "hyprland");
}

#[test]
fn markdown_contains_family() {
    let r = FieldReport {
        ok: true,
        identity: SessionIdentity {
            session_type: "wayland".into(),
            desktop: Some("ubuntu:GNOME".into()),
            desktop_session: Some("ubuntu".into()),
            wayland_display: Some("wayland-0".into()),
            display: Some(":0".into()),
            family: "gnome".into(),
            helpers: vec![],
            session_files: vec!["ubuntu.desktop".into()],
        },
        checks: vec![FieldCheck { name: "doctor".into(), ok: true, skipped: false, detail: "ok".into() }],
        toolkits: vec![("gtk".into(), 3)],
        app_count: 3,
        window_count: 5,
        summary: "field ok".into(),
        captured_at: "now".into(),
    };
    let md = markdown_summary(&r);
    assert!(md.contains("gnome"));
    assert!(md.contains("PASS"));
}

#[test]
fn state_dir_is_absolute_or_relative_nonempty() {
    let p = state_dir(None);
    assert!(!p.is_empty());
}

#[test]
fn snapshot_opts_defaults() {
    let o = SnapshotOpts::default();
    assert_eq!(o.max_depth, 6);
    assert_eq!(o.max_nodes, 200);
    assert!(o.include_bounds);
}
