//! Environment readiness report.
//!
//! Agents and humans run `doctor` before any GUI action. The probes (session
//! variables, AT-SPI, input tools, capture backends, audit log) are read by
//! the caller; the report is assembled here.

use vstd::prelude::*;

use crate::policy::{config_patterns, SensitiveConfig};
use crate::text::{bool_text, decimal, owned, push_decimal, push_str};
use crate::types::{Capability, SessionKind};

verus! {

/// Full readiness report produced by [`run_doctor`].
#[derive(Debug, Clone, PartialEq)]
pub struct DoctorReport {
    pub ok: bool,
    pub session: SessionKind,
    pub desktop: Option<String>,
    pub capabilities: Vec<Capability>,
    pub recommendations: Vec<String>,
    /// Human-readable summary line (also useful when JSON is not wanted).
    pub summary: String,
}

/// What the environment probes found.
pub struct DoctorProbes {
    /// `WAYLAND_DISPLAY` is set.
    pub wayland_display: bool,
    /// `DISPLAY` is set.
    pub display: bool,
    /// `XDG_CURRENT_DESKTOP`, when set.
    pub xdg_current_desktop: Option<String>,
    /// `DESKTOP_SESSION`, when set.
    pub desktop_session: Option<String>,
    /// AT-SPI bus probe.
    pub atspi: Capability,
    /// Input tool probe.
    pub input: Capability,
    /// Capture backend probe.
    pub capture: Capability,
    /// Path of the sensitive-app config file.
    pub config_path: String,
    /// Path of the audit log.
    pub audit_path: String,
    /// The audit log could be opened for appending.
    pub audit_writable: bool,
}

/// Session kind from the display variables: Wayland wins over X11.
pub open spec fn session_of(wayland: bool, display: bool) -> SessionKind {
    if wayland {
        SessionKind::Wayland
    } else if display {
        SessionKind::X11
    } else {
        SessionKind::Unknown
    }
}

/// Session kind from the display variables.
pub fn detect_session(wayland_display: bool, display: bool) -> (r: SessionKind)
    ensures
        r == session_of(wayland_display, display),
{
    if wayland_display {
        SessionKind::Wayland
    } else if display {
        SessionKind::X11
    } else {
        SessionKind::Unknown
    }
}

/// A value that is set and non-empty.
pub open spec fn set_nonempty(v: Option<String>) -> bool {
    v matches Some(s) && s@.len() > 0
}

/// Desktop name: `XDG_CURRENT_DESKTOP`, else `DESKTOP_SESSION`, ignoring empty values.
pub fn detect_desktop(xdg_current_desktop: Option<String>, desktop_session: Option<String>) -> (r: Option<String>)
    ensures
        set_nonempty(xdg_current_desktop) ==> r == xdg_current_desktop,
        !set_nonempty(xdg_current_desktop) && set_nonempty(desktop_session) ==> r == desktop_session,
        !set_nonempty(xdg_current_desktop) && !set_nonempty(desktop_session) ==> r is None,
{
    if let Some(x) = &xdg_current_desktop {
        if !x.as_str().is_empty() {
            return xdg_current_desktop;
        }
    }
    if let Some(d) = &desktop_session {
        if !d.as_str().is_empty() {
            return desktop_session;
        }
    }
    None
}

/// `Debug` name of a session kind.
pub open spec fn session_debug(k: SessionKind) -> Seq<char> {
    match k {
        SessionKind::X11 => "X11"@,
        SessionKind::Wayland => "Wayland"@,
        SessionKind::Unknown => "Unknown"@,
    }
}

/// Lowercase `Debug` name of a session kind.
pub open spec fn session_lower(k: SessionKind) -> Seq<char> {
    match k {
        SessionKind::X11 => "x11"@,
        SessionKind::Wayland => "wayland"@,
        SessionKind::Unknown => "unknown"@,
    }
}

/// A capability as plain values.
pub open spec fn cap_view(c: Capability) -> (Seq<char>, bool, Option<Seq<char>>) {
    (
        c.name@,
        c.available,
        match c.detail {
            Some(d) => Some(d@),
            None => None,
        },
    )
}

/// A probe's finding reported under `name`.
pub open spec fn named(name: Seq<char>, c: Capability) -> (Seq<char>, bool, Option<Seq<char>>) {
    (name, c.available, match c.detail {
        Some(d) => Some(d@),
        None => None,
    })
}

/// Detail of the session capability.
pub open spec fn session_detail(k: SessionKind) -> Seq<char> {
    if k is Unknown {
        "neither WAYLAND_DISPLAY nor DISPLAY set — headless or missing session env"@
    } else {
        session_lower(k)
    }
}

/// Detail of the policy capability.
pub open spec fn policy_detail(n: nat, allow_override: bool, path: Seq<char>) -> Seq<char> {
    "denylist "@ + decimal(n) + " pattern(s); allow_override="@ + bool_text(allow_override)
        + "; config="@ + path
}

/// Detail of the audit capability.
pub open spec fn audit_detail(path: Seq<char>, writable: bool) -> Seq<char> {
    path + if writable {
        " (writable)"@
    } else {
        " (not writable — mutations will refuse)"@
    }
}

/// The capability rows of a report, in order.
pub open spec fn doctor_capabilities(p: DoctorProbes, cfg: SensitiveConfig) -> Seq<(Seq<char>, bool, Option<Seq<char>>)> {
    let k = session_of(p.wayland_display, p.display);
    let atspi_ok = p.atspi.available;
    seq![
        ("session_detect"@, !(k is Unknown), Some(session_detail(k))),
        named("atspi"@, p.atspi),
        named("input"@, p.input),
        named("capture"@, p.capture),
        ("policy"@, true, Some(policy_detail(config_patterns(cfg).len(), cfg.allow_override, p.config_path@))),
        ("audit"@, p.audit_writable, Some(audit_detail(p.audit_path@, p.audit_writable))),
        ("window_backend"@, atspi_ok, Some(if atspi_ok { "via AT-SPI application/frame roots"@ } else { "depends on AT-SPI"@ })),
        ("element_actions"@, atspi_ok, Some(if atspi_ok { "do_action / type_into / set_value via AT-SPI"@ } else { "requires AT-SPI"@ })),
    ]
}

/// Recommendation without a session.
pub open spec fn rec_no_session() -> Seq<char> {
    "Run inside a graphical session (or export DISPLAY / WAYLAND_DISPLAY)."@
}

/// Recommendation without AT-SPI.
pub open spec fn rec_no_atspi() -> Seq<char> {
    "AT-SPI bus unreachable — ensure at-spi2-core is installed and an AT is enabled (this harness sets session IsEnabled on connect)."@
}

/// Recommendation with AT-SPI.
pub open spec fn rec_atspi() -> Seq<char> {
    "Prefer do_action / type_into over coordinate clicks; snapshot before find."@
}

/// Recommendation without input tools.
pub open spec fn rec_no_input() -> Seq<char> {
    "No ydotool/xdotool/wtype — coordinate input unavailable; AT-SPI hands still work."@
}

/// Recommendation without capture.
pub open spec fn rec_no_capture() -> Seq<char> {
    "No screenshot backend — install xdg-desktop-portal and/or grim."@
}

/// The recommendations of a report, in order.
pub open spec fn doctor_recommendations(p: DoctorProbes) -> Seq<Seq<char>> {
    let k = session_of(p.wayland_display, p.display);
    (if k is Unknown { seq![rec_no_session()] } else { Seq::empty() })
        + seq![if p.atspi.available { rec_atspi() } else { rec_no_atspi() }]
        + (if p.input.available { Seq::empty() } else { seq![rec_no_input()] })
        + (if p.capture.available { Seq::empty() } else { seq![rec_no_capture()] })
}

/// `ok` or `no`.
pub open spec fn ok_no(b: bool) -> Seq<char> {
    if b {
        "ok"@
    } else {
        "no"@
    }
}

/// The summary line of a report.
pub open spec fn doctor_summary(p: DoctorProbes, desktop: Option<String>) -> Seq<char> {
    let k = session_of(p.wayland_display, p.display);
    if !(k is Unknown) && p.atspi.available {
        "session="@ + session_debug(k) + " desktop="@ + (match desktop {
            Some(d) => d@,
            None => "unknown"@,
        }) + " — AT-SPI hands+eyes ready; capture="@ + ok_no(p.capture.available) + " input="@
            + ok_no(p.input.available)
    } else if k is Unknown {
        "no graphical session detected — cannot drive a desktop from here"@
    } else {
        "graphical session present but AT-SPI unavailable — see capabilities"@
    }
}

fn renamed(name: &str, probe: Capability) -> (c: Capability)
    ensures
        cap_view(c) == named(name@, probe),
{
    Capability { name: owned(name), available: probe.available, detail: probe.detail }
}

fn cap(name: &str, available: bool, detail: String) -> (c: Capability)
    ensures
        c.name@ == name@,
        c.available == available,
        c.detail == Some(detail),
{
    Capability { name: owned(name), available, detail: Some(detail) }
}

/// Assemble the readiness report: ready for GUI work when there is a
/// graphical session and AT-SPI (capture and input are bonuses). The
/// capabilities are, in order: session_detect, atspi, input, capture,
/// policy, audit, window_backend, element_actions.
pub fn run_doctor(probes: DoctorProbes, cfg: &SensitiveConfig) -> (r: DoctorReport)
    ensures
        r.session == session_of(probes.wayland_display, probes.display),
        set_nonempty(probes.xdg_current_desktop) ==> r.desktop == probes.xdg_current_desktop,
        !set_nonempty(probes.xdg_current_desktop) && set_nonempty(probes.desktop_session)
            ==> r.desktop == probes.desktop_session,
        !set_nonempty(probes.xdg_current_desktop) && !set_nonempty(probes.desktop_session)
            ==> r.desktop is None,
        r.capabilities@.map_values(|c: Capability| cap_view(c)) == doctor_capabilities(probes, *cfg),
        r.capabilities@.map_values(|c: Capability| c.name@) == seq![
            "session_detect"@, "atspi"@, "input"@, "capture"@, "policy"@, "audit"@, "window_backend"@, "element_actions"@,
        ],
        crate::text::views(r.recommendations@) == doctor_recommendations(probes),
        r.ok == (!(r.session is Unknown) && probes.atspi.available),
        r.summary@ == doctor_summary(probes, r.desktop),
{
    let ghost p = probes;
    let session = detect_session(probes.wayland_display, probes.display);
    let desktop = detect_desktop(probes.xdg_current_desktop, probes.desktop_session);
    let session_ok = match session {
        SessionKind::Unknown => false,
        _ => true,
    };
    let atspi_ok = probes.atspi.available;
    let input_ok = probes.input.available;
    let capture_ok = probes.capture.available;

    let session_detail = match session {
        SessionKind::X11 => owned("x11"),
        SessionKind::Wayland => owned("wayland"),
        SessionKind::Unknown => owned("neither WAYLAND_DISPLAY nor DISPLAY set — headless or missing session env"),
    };
    let pats = cfg.patterns();
    let mut policy = owned("denylist ");
    push_decimal(&mut policy, pats.len() as u64);
    push_str(&mut policy, " pattern(s); allow_override=");
    push_str(&mut policy, if cfg.allow_override { "true" } else { "false" });
    push_str(&mut policy, "; config=");
    push_str(&mut policy, probes.config_path.as_str());
    proof {
        assert(crate::text::views(pats@).len() == pats@.len());
    }
    let mut audit = probes.audit_path.clone();
    push_str(&mut audit, if probes.audit_writable { " (writable)" } else { " (not writable — mutations will refuse)" });

    let mut capabilities: Vec<Capability> = Vec::new();
    capabilities.push(cap("session_detect", session_ok, session_detail));
    capabilities.push(renamed("atspi", probes.atspi));
    capabilities.push(renamed("input", probes.input));
    capabilities.push(renamed("capture", probes.capture));
    capabilities.push(cap("policy", true, policy));
    capabilities.push(cap("audit", probes.audit_writable, audit));
    capabilities.push(cap(
        "window_backend",
        atspi_ok,
        owned(if atspi_ok { "via AT-SPI application/frame roots" } else { "depends on AT-SPI" }),
    ));
    capabilities.push(cap(
        "element_actions",
        atspi_ok,
        owned(if atspi_ok { "do_action / type_into / set_value via AT-SPI" } else { "requires AT-SPI" }),
    ));
    assert(capabilities@.map_values(|c: Capability| cap_view(c)) =~= doctor_capabilities(p, *cfg));

    let mut recommendations: Vec<String> = Vec::new();
    if !session_ok {
        recommendations.push(owned("Run inside a graphical session (or export DISPLAY / WAYLAND_DISPLAY)."));
    }
    if !atspi_ok {
        recommendations.push(owned("AT-SPI bus unreachable — ensure at-spi2-core is installed and an AT is enabled (this harness sets session IsEnabled on connect)."));
    } else {
        recommendations.push(owned("Prefer do_action / type_into over coordinate clicks; snapshot before find."));
    }
    if !input_ok {
        recommendations.push(owned("No ydotool/xdotool/wtype — coordinate input unavailable; AT-SPI hands still work."));
    }
    if !capture_ok {
        recommendations.push(owned("No screenshot backend — install xdg-desktop-portal and/or grim."));
    }
    assert(crate::text::views(recommendations@) =~= doctor_recommendations(p));

    let ok = session_ok && atspi_ok;
    let summary = if ok {
        let mut s = owned("session=");
        push_str(&mut s, match session {
            SessionKind::X11 => "X11",
            SessionKind::Wayland => "Wayland",
            SessionKind::Unknown => "Unknown",
        });
        push_str(&mut s, " desktop=");
        match &desktop {
            Some(d) => push_str(&mut s, d.as_str()),
            None => push_str(&mut s, "unknown"),
        }
        push_str(&mut s, " — AT-SPI hands+eyes ready; capture=");
        push_str(&mut s, if capture_ok { "ok" } else { "no" });
        push_str(&mut s, " input=");
        push_str(&mut s, if input_ok { "ok" } else { "no" });
        s
    } else if !session_ok {
        owned("no graphical session detected — cannot drive a desktop from here")
    } else {
        owned("graphical session present but AT-SPI unavailable — see capabilities")
    };
    DoctorReport { ok, session, desktop, capabilities, recommendations, summary }
}

/// What the accessibility bus probe found.
pub enum AtspiProbe {
    /// No session could be opened, or its registry root not reached: the message.
    Failed(String),
    /// Connected, but listing the application roots failed: the error text.
    ChildrenFailed(String),
    /// Connected, with this many application roots.
    Roots(usize),
}

/// The accessibility capability from the probe: available once connected.
pub fn atspi_capability(p: AtspiProbe) -> (c: Capability)
    ensures
        c.name@ == "atspi"@,
        match p {
            AtspiProbe::Failed(m) => !c.available && (c.detail matches Some(d) && d@ == m@),
            AtspiProbe::ChildrenFailed(e) => c.available && (c.detail matches Some(d)
                && d@ == "connected but get_children failed: "@ + e@),
            AtspiProbe::Roots(n) => c.available && (c.detail matches Some(d)
                && d@ == "bus live · "@ + decimal(n as nat) + " application root(s)"@),
        },
{
    match p {
        AtspiProbe::Failed(m) => Capability { name: owned("atspi"), available: false, detail: Some(m) },
        AtspiProbe::ChildrenFailed(e) => {
            let mut d = owned("connected but get_children failed: ");
            push_str(&mut d, e.as_str());
            Capability { name: owned("atspi"), available: true, detail: Some(d) }
        },
        AtspiProbe::Roots(n) => {
            let mut d = owned("bus live · ");
            push_decimal(&mut d, n as u64);
            push_str(&mut d, " application root(s)");
            assert(d@ =~= "bus live · "@ + decimal(n as nat) + " application root(s)"@);
            Capability { name: owned("atspi"), available: true, detail: Some(d) }
        },
    }
}

} // verus!
