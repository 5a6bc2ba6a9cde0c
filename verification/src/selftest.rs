//! Structured readiness and smoke suite for agents and humans.
//!
//! The default run is non-destructive: doctor, discovery, snapshot. The one
//! mutating step (a small pointer move) needs `confirm_mutate`. The caller
//! performs the bus calls and hands their outcomes to [`assemble_selftest`].

use vstd::prelude::*;

use crate::doctor::DoctorReport;
use crate::input::comma_join;
use crate::text::{bool_text, decimal, owned, push_bool, push_count, push_str};
use crate::tree::{is_shell_chrome, shell_chrome};
use crate::types::{FindQuery, SnapshotOpts, TargetRef, WindowInfo};

verus! {

/// One step in the selftest report.
#[derive(Debug, Clone, PartialEq)]
pub struct SelftestStep {
    pub name: String,
    pub ok: bool,
    pub detail: String,
    /// When true, the step was skipped (headless / no backend / no confirm).
    pub skipped: bool,
}

/// Full selftest report, machine-readable.
#[derive(Debug, Clone, PartialEq)]
pub struct SelftestReport {
    pub ok: bool,
    pub steps: Vec<SelftestStep>,
    pub doctor: Option<DoctorReport>,
    pub summary: String,
}

/// Options of a selftest run.
#[derive(Debug, Clone)]
pub struct SelftestOpts {
    /// Allow mutating steps (pointer wiggle; never types secrets).
    pub confirm_mutate: bool,
    /// Preferred app/window name for the snapshot (default: first non-shell window, or skip).
    pub target_name: Option<String>,
}

impl Default for SelftestOpts {
    fn default() -> (r: Self)
        ensures
            !r.confirm_mutate,
            r.target_name is None,
    {
        SelftestOpts { confirm_mutate: false, target_name: None }
    }
}

/// How the snapshot step went.
pub enum SnapshotOutcome {
    /// No window to snapshot.
    NoTarget,
    /// The snapshot failed with this message.
    Failed(String),
    /// The snapshot was taken: root role, nodes emitted, truncation, and the
    /// outcome of the follow-up search (hits found, or the error message).
    Taken { role: String, nodes: u32, truncated: bool, find: Result<usize, String> },
}

/// How the pointer wiggle went.
pub enum WiggleOutcome {
    /// Not asked for.
    NotConfirmed,
    /// Asked for, but no input backend is available.
    NoBackend,
    /// Done; the first move reported this.
    Moved(String),
    /// The move failed with this message.
    Failed(String),
}

/// Outcomes of the steps that need an accessibility bus connection.
pub struct ConnectedRun {
    /// Application roots listed, or the error message.
    pub apps: Result<usize, String>,
    /// Windows listed, or the error message.
    pub windows: Result<usize, String>,
    pub snapshot: SnapshotOutcome,
}

/// Outcomes of a whole run after the doctor step.
pub struct SelftestRun {
    /// The bus connection's steps, or the connection error message.
    pub connect: Result<ConnectedRun, String>,
    pub wiggle: WiggleOutcome,
}

/// A step as plain values: name, ok, detail, skipped.
pub type StepView = (Seq<char>, bool, Seq<char>, bool);

/// Plain view of a step.
pub open spec fn step_view(s: SelftestStep) -> StepView {
    (s.name@, s.ok, s.detail@, s.skipped)
}

/// A failed, not skipped, step carrying an error message.
pub open spec fn err_step(name: Seq<char>, m: Seq<char>) -> StepView {
    (name, false, m, false)
}

/// The steps of the snapshot stage.
pub open spec fn snapshot_steps(o: SnapshotOutcome) -> Seq<StepView> {
    match o {
        SnapshotOutcome::NoTarget => seq![("snapshot"@, true, "no non-shell window to snapshot — skipped"@, true)],
        SnapshotOutcome::Failed(m) => seq![err_step("snapshot"@, m@)],
        SnapshotOutcome::Taken { role, nodes, truncated, find } => seq![
            ("snapshot"@, nodes > 0, "role="@ + role@ + " nodes="@ + decimal(nodes as nat) + " truncated="@ + bool_text(truncated), false),
            match find {
                Ok(n) => ("find_elements"@, n > 0, decimal(n as nat) + " hit(s)"@, false),
                Err(m) => err_step("find_elements"@, m@),
            },
        ],
    }
}

/// The steps run over a bus connection.
pub open spec fn connected_steps(c: ConnectedRun) -> Seq<StepView> {
    seq![
        ("atspi_connect"@, true, "connected"@, false),
        match c.apps {
            Ok(n) => ("list_apps"@, n > 0, decimal(n as nat) + " application root(s)"@, false),
            Err(m) => err_step("list_apps"@, m@),
        },
        match c.windows {
            Ok(n) => ("list_windows"@, true, decimal(n as nat) + " window(s)"@, false),
            Err(m) => err_step("list_windows"@, m@),
        },
    ] + snapshot_steps(c.snapshot)
}

/// The pointer wiggle step.
pub open spec fn wiggle_step(w: WiggleOutcome) -> StepView {
    match w {
        WiggleOutcome::NotConfirmed => ("mouse_wiggle"@, true, "skipped — pass confirm_mutate / --confirm to enable"@, true),
        WiggleOutcome::NoBackend => ("mouse_wiggle"@, true, "no input backend — skipped (AT-SPI hands still OK)"@, true),
        WiggleOutcome::Moved(d) => ("mouse_wiggle"@, true, d@, false),
        WiggleOutcome::Failed(m) => err_step("mouse_wiggle"@, m@),
    }
}

/// Every step of a run, in order.
pub open spec fn selftest_steps(d: DoctorReport, run: SelftestRun) -> Seq<StepView> {
    seq![("doctor"@, d.ok, d.summary@, false)] + match run.connect {
        Ok(c) => connected_steps(c),
        Err(m) => seq![err_step("atspi_connect"@, m@)],
    } + seq![wiggle_step(run.wiggle)]
}

/// Names of the steps that failed and were not skipped, in order.
pub open spec fn failed_steps(v: Seq<StepView>) -> Seq<Seq<char>>
    decreases v.len(),
{
    if v.len() == 0 {
        Seq::empty()
    } else {
        let r = failed_steps(v.drop_last());
        if !v.last().1 && !v.last().3 {
            r.push(v.last().0)
        } else {
            r
        }
    }
}

/// How many steps were skipped.
pub open spec fn skipped_steps(v: Seq<StepView>) -> nat
    decreases v.len(),
{
    if v.len() == 0 {
        0
    } else {
        skipped_steps(v.drop_last()) + if v.last().3 { 1nat } else { 0nat }
    }
}

/// The run passed: no step failed unskipped and the doctor was ok.
pub open spec fn selftest_ok(v: Seq<StepView>, doctor_ok: bool) -> bool {
    failed_steps(v).len() == 0 && doctor_ok
}

/// The summary line of a run.
pub open spec fn selftest_summary(v: Seq<StepView>, doctor_ok: bool) -> Seq<char> {
    if selftest_ok(v, doctor_ok) {
        "selftest ok — "@ + decimal(v.len()) + " step(s) ("@ + decimal(skipped_steps(v)) + " skipped)"@
    } else {
        "selftest FAILED: "@ + comma_join(failed_steps(v))
    }
}

/// Window `i` is the first one that is not shell chrome.
pub open spec fn first_outside_chrome(ws: Seq<WindowInfo>, i: int) -> bool {
    &&& 0 <= i < ws.len()
    &&& !shell_chrome(ws[i])
    &&& forall|j: int| 0 <= j < i ==> shell_chrome(#[trigger] ws[j])
}

/// What to snapshot: the preferred name when one was given, else the first
/// window that is not shell chrome; nothing when the window list is missing
/// or holds only shell chrome.
pub fn resolve_selftest_target(preferred: Option<&str>, windows: Option<&Vec<WindowInfo>>) -> (r: Option<TargetRef>)
    ensures
        preferred matches Some(n) ==> r matches Some(TargetRef::Name(m)) && m@ == n@,
        preferred is None ==> match windows {
            None => r is None,
            Some(ws) => match r {
                Some(TargetRef::Id(id)) => exists|i: int| #[trigger] first_outside_chrome(ws@, i) && id == ws@[i].id,
                None => forall|j: int| 0 <= j < ws@.len() ==> shell_chrome(#[trigger] ws@[j]),
                _ => false,
            },
        },
{
    if let Some(name) = preferred {
        return Some(TargetRef::Name(owned(name)));
    }
    let wins = match windows {
        Some(w) => w,
        None => return None,
    };
    let mut i: usize = 0;
    while i < wins.len()
        invariant
            i <= wins@.len(),
            preferred is None,
            windows == Some(wins),
            forall|j: int| 0 <= j < i ==> shell_chrome(#[trigger] wins@[j]),
        decreases wins.len() - i,
    {
        if !is_shell_chrome(&wins[i]) {
            let id = wins[i].id.clone();
            assert(id == wins@[i as int].id);
            assert(!shell_chrome(wins@[i as int]));
            assert(first_outside_chrome(wins@, i as int));
            let r = Some(TargetRef::Id(id));
            assert(match windows {
                None => r is None,
                Some(ws) => match r {
                    Some(TargetRef::Id(x)) => exists|k: int| #[trigger] first_outside_chrome(ws@, k) && x == ws@[k].id,
                    None => forall|j: int| 0 <= j < ws@.len() ==> shell_chrome(#[trigger] ws@[j]),
                    _ => false,
                },
            });
            return r;
        }
        i = i + 1;
    }
    None
}

/// Snapshot budget of the selftest: depth 3, 40 nodes, bounds and actions.
pub fn selftest_snapshot_opts() -> (r: SnapshotOpts)
    ensures
        r == (SnapshotOpts { max_depth: 3, max_nodes: 40, include_bounds: true, include_actions: true }),
{
    SnapshotOpts { max_depth: 3, max_nodes: 40, include_bounds: true, include_actions: true }
}

/// The follow-up search: one element with the snapshot root's role.
pub fn selftest_find_query(role: String) -> (r: FindQuery)
    ensures
        r.role == Some(role),
        r.name is None && !r.name_exact && r.text is None && r.state is None && r.description is None,
        r.max_results == 1,
{
    FindQuery { role: Some(role), name: None, name_exact: false, text: None, state: None, description: None, max_results: 1 }
}

/// Whether the pointer wiggle is skipped, and how: `None` means perform it.
pub fn wiggle_skip(opts: &SelftestOpts, input_available: bool) -> (r: Option<WiggleOutcome>)
    ensures
        !opts.confirm_mutate ==> r matches Some(WiggleOutcome::NotConfirmed),
        opts.confirm_mutate && !input_available ==> r matches Some(WiggleOutcome::NoBackend),
        opts.confirm_mutate && input_available ==> r is None,
{
    if !opts.confirm_mutate {
        Some(WiggleOutcome::NotConfirmed)
    } else if !input_available {
        Some(WiggleOutcome::NoBackend)
    } else {
        None
    }
}

/// The two pointer positions of the wiggle: first, then second.
pub fn wiggle_points() -> (r: ((i32, i32), (i32, i32)))
    ensures
        r == ((200i32, 200i32), (220i32, 220i32)),
{
    ((200, 200), (220, 220))
}

/// A step from its parts.
fn mk(name: &str, ok: bool, detail: String, skipped: bool) -> (r: SelftestStep)
    ensures
        step_view(r) == (name@, ok, detail@, skipped),
{
    SelftestStep { name: owned(name), ok, detail, skipped }
}

/// `count` followed by `suffix`.
fn counted(n: usize, suffix: &str) -> (r: String)
    ensures
        r@ == decimal(n as nat) + suffix@,
{
    let mut s = String::new();
    push_count(&mut s, n);
    push_str(&mut s, suffix);
    assert(s@ =~= decimal(n as nat) + suffix@);
    s
}

/// The steps of the snapshot stage.
fn push_snapshot_steps(steps: &mut Vec<SelftestStep>, o: SnapshotOutcome)
    ensures
        final(steps)@.map_values(|s: SelftestStep| step_view(s))
            == old(steps)@.map_values(|s: SelftestStep| step_view(s)) + snapshot_steps(o),
{
    let ghost before = steps@.map_values(|s: SelftestStep| step_view(s));
    let ghost og = o;
    match o {
        SnapshotOutcome::NoTarget => {
            steps.push(mk("snapshot", true, owned("no non-shell window to snapshot — skipped"), true));
        },
        SnapshotOutcome::Failed(m) => {
            steps.push(mk("snapshot", false, m, false));
        },
        SnapshotOutcome::Taken { role, nodes, truncated, find } => {
            let mut d = owned("role=");
            push_str(&mut d, role.as_str());
            push_str(&mut d, " nodes=");
            push_count(&mut d, nodes as usize);
            push_str(&mut d, " truncated=");
            push_bool(&mut d, truncated);
            assert(d@ =~= "role="@ + role@ + " nodes="@ + decimal(nodes as nat) + " truncated="@ + bool_text(truncated));
            steps.push(mk("snapshot", nodes > 0, d, false));
            match find {
                Ok(n) => {
                    steps.push(mk("find_elements", n > 0, counted(n, " hit(s)"), false));
                },
                Err(m) => {
                    steps.push(mk("find_elements", false, m, false));
                },
            }
        },
    }
    assert(steps@.map_values(|s: SelftestStep| step_view(s)) =~= before + snapshot_steps(og));
}

/// Names of failed steps joined with `", "`, and the number of skipped steps.
fn tally(steps: &Vec<SelftestStep>) -> (r: (String, usize, bool))
    ensures
        r.0@ == comma_join(failed_steps(steps@.map_values(|s: SelftestStep| step_view(s)))),
        r.1 == skipped_steps(steps@.map_values(|s: SelftestStep| step_view(s))),
        r.2 == (failed_steps(steps@.map_values(|s: SelftestStep| step_view(s))).len() == 0),
{
    let ghost all = steps@.map_values(|s: SelftestStep| step_view(s));
    let mut names = String::new();
    let mut skipped: usize = 0;
    let mut none_failed = true;
    let mut i: usize = 0;
    while i < steps.len()
        invariant
            i <= steps@.len(),
            all == steps@.map_values(|s: SelftestStep| step_view(s)),
            names@ == comma_join(failed_steps(all.take(i as int))),
            skipped == skipped_steps(all.take(i as int)),
            skipped <= i,
            none_failed == (failed_steps(all.take(i as int)).len() == 0),
        decreases steps.len() - i,
    {
        let ghost pre = all.take(i as int);
        let ghost nxt = all.take(i + 1);
        assert(nxt.drop_last() =~= pre);
        assert(nxt.last() == step_view(steps@[i as int]));
        let s = &steps[i];
        if !s.ok && !s.skipped {
            if !none_failed {
                push_str(&mut names, ", ");
            }
            push_str(&mut names, s.name.as_str());
            none_failed = false;
            proof {
                let f = failed_steps(pre);
                assert(failed_steps(nxt) == f.push(s.name@));
                assert(f.push(s.name@).drop_last() =~= f);
                if f.len() == 0 {
                    assert(comma_join(f.push(s.name@)) == f.push(s.name@)[0]);
                }
            }
        }
        if s.skipped {
            skipped = skipped + 1;
        }
        i = i + 1;
    }
    assert(all.take(steps@.len() as int) =~= all);
    (names, skipped, none_failed)
}

/// The report of a run: the doctor step, the bus steps (or the connection
/// failure), the wiggle step; passed when no step failed unskipped and the
/// doctor was ok; with the summary line and the doctor report.
pub fn assemble_selftest(doctor: DoctorReport, run: SelftestRun) -> (r: SelftestReport)
    ensures
        r.steps@.map_values(|s: SelftestStep| step_view(s)) == selftest_steps(doctor, run),
        r.ok == selftest_ok(selftest_steps(doctor, run), doctor.ok),
        r.summary@ == selftest_summary(selftest_steps(doctor, run), doctor.ok),
        r.doctor == Some(doctor),
{
    let ghost d0 = doctor;
    let ghost run0 = run;
    let mut steps: Vec<SelftestStep> = Vec::new();
    steps.push(mk("doctor", doctor.ok, doctor.summary.clone(), false));
    let ghost first = steps@.map_values(|s: SelftestStep| step_view(s));
    assert(first =~= seq![("doctor"@, d0.ok, d0.summary@, false)]);
    match run.connect {
        Ok(c) => {
            steps.push(mk("atspi_connect", true, owned("connected"), false));
            match c.apps {
                Ok(n) => {
                    steps.push(mk("list_apps", n > 0, counted(n, " application root(s)"), false));
                },
                Err(m) => {
                    steps.push(mk("list_apps", false, m, false));
                },
            }
            match c.windows {
                Ok(n) => {
                    steps.push(mk("list_windows", true, counted(n, " window(s)"), false));
                },
                Err(m) => {
                    steps.push(mk("list_windows", false, m, false));
                },
            }
            let ghost mid = steps@.map_values(|s: SelftestStep| step_view(s));
            push_snapshot_steps(&mut steps, c.snapshot);
        },
        Err(m) => {
            steps.push(mk("atspi_connect", false, m, false));
        },
    }
    let ghost before_wiggle = steps@.map_values(|s: SelftestStep| step_view(s));
    match run.wiggle {
        WiggleOutcome::NotConfirmed => {
            steps.push(mk("mouse_wiggle", true, owned("skipped — pass confirm_mutate / --confirm to enable"), true));
        },
        WiggleOutcome::NoBackend => {
            steps.push(mk("mouse_wiggle", true, owned("no input backend — skipped (AT-SPI hands still OK)"), true));
        },
        WiggleOutcome::Moved(d) => {
            steps.push(mk("mouse_wiggle", true, d, false));
        },
        WiggleOutcome::Failed(m) => {
            steps.push(mk("mouse_wiggle", false, m, false));
        },
    }
    assert(steps@.map_values(|s: SelftestStep| step_view(s)) =~= before_wiggle.push(wiggle_step(run0.wiggle)));
    assert(steps@.map_values(|s: SelftestStep| step_view(s)) =~= selftest_steps(d0, run0));
    let (failed, skipped, none_failed) = tally(&steps);
    let ok = none_failed && doctor.ok;
    let summary = if ok {
        let mut s = owned("selftest ok — ");
        push_count(&mut s, steps.len());
        push_str(&mut s, " step(s) (");
        push_count(&mut s, skipped);
        push_str(&mut s, " skipped)");
        s
    } else {
        let mut s = owned("selftest FAILED: ");
        push_str(&mut s, failed.as_str());
        s
    };
    SelftestReport { ok, steps, doctor: Some(doctor), summary }
}

} // verus!
