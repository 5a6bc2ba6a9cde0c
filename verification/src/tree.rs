//! Target resolution over discovered windows and applications: which window
//! an id / name / pid / "frontmost" means, and the order of application rows.
//! The AT-SPI reads that produce the lists are the caller's.

use vstd::prelude::*;

use crate::error::HarnessError;
use crate::text::{first_index, lemma_first_index_at, chars_of, contains, contains_chars, decimal, lowercase, owned, push_char, push_decimal, push_str, starts_with, starts_with_chars, str_eq, to_lowercase};
use crate::types::{ActivateResult, AppInfo, ElementHit, FindQuery, SnapshotOpts, TargetRef, WindowInfo};

verus! {

// ── shell chrome ───────────────────────────────────────────────────────

/// GNOME Shell surfaces that report focus without being useful targets:
/// app `gnome-shell` or `gjs`, title `Main stage`, or a title starting with
/// `Desktop Icons`.
pub open spec fn shell_chrome(w: WindowInfo) -> bool {
    (w.app_name matches Some(a) && (a@ == "gnome-shell"@ || a@ == "gjs"@)) || w.title@
        == "Main stage"@ || starts_with(w.title@, "Desktop Icons"@)
}

/// Is this window shell chrome?
pub fn is_shell_chrome(w: &WindowInfo) -> (r: bool)
    ensures
        r == shell_chrome(*w),
{
    let app = match &w.app_name {
        Some(a) => str_eq(a.as_str(), "gnome-shell") || str_eq(a.as_str(), "gjs"),
        None => false,
    };
    let t = chars_of(w.title.as_str());
    let di = chars_of("Desktop Icons");
    app || str_eq(w.title.as_str(), "Main stage") || starts_with_chars(&t, &di)
}

// ── filtering ──────────────────────────────────────────────────────────

/// The windows satisfying `p`, in order.
pub open spec fn keep(ws: Seq<WindowInfo>, p: spec_fn(WindowInfo) -> bool) -> Seq<WindowInfo>
    decreases ws.len(),
{
    if ws.len() == 0 {
        Seq::empty()
    } else if p(ws.last()) {
        keep(ws.drop_last(), p).push(ws.last())
    } else {
        keep(ws.drop_last(), p)
    }
}

/// Copies of the windows satisfying `p`.
fn keep_exec(ws: &Vec<WindowInfo>, p: Ghost<spec_fn(WindowInfo) -> bool>, flags: &Vec<bool>) -> (r: Vec<WindowInfo>)
    requires
        flags@.len() == ws@.len(),
        forall|i: int| 0 <= i < ws@.len() ==> flags@[i] == (p@)(#[trigger] ws@[i]),
    ensures
        r@ == keep(ws@, p@),
{
    let mut out: Vec<WindowInfo> = Vec::new();
    let mut i: usize = 0;
    while i < ws.len()
        invariant
            i <= ws.len(),
            flags@.len() == ws@.len(),
            forall|k: int| 0 <= k < ws@.len() ==> flags@[k] == (p@)(#[trigger] ws@[k]),
            out@ == keep(ws@.take(i as int), p@),
        decreases ws.len() - i,
    {
        let ghost pre = ws@.take(i as int);
        assert(ws@.take(i + 1).drop_last() =~= pre);
        assert(ws@.take(i + 1).last() == ws@[i as int]);
        if flags[i] {
            out.push(ws[i].duplicate());
        }
        i = i + 1;
    }
    assert(ws@.take(i as int) =~= ws@);
    out
}

/// Window title or app name contains the (lowercased) needle, case-insensitively.
pub open spec fn name_hits(w: WindowInfo, needle: Seq<char>) -> bool {
    contains(lowercase(w.title@), needle) || (w.app_name matches Some(a) && contains(
        lowercase(a@),
        needle,
    ))
}

/// Predicate form of [`name_hits`].
pub open spec fn name_pred(needle: Seq<char>) -> spec_fn(WindowInfo) -> bool {
    |w: WindowInfo| name_hits(w, needle)
}

/// Predicate: the window belongs to process `pid`.
pub open spec fn pid_pred(pid: u32) -> spec_fn(WindowInfo) -> bool {
    |w: WindowInfo| w.pid == Some(pid)
}

/// Predicate: the window is not shell chrome.
pub open spec fn app_pred() -> spec_fn(WindowInfo) -> bool {
    |w: WindowInfo| !shell_chrome(w)
}

/// Every kept window satisfies `p`.
proof fn lemma_keep_sound(ws: Seq<WindowInfo>, p: spec_fn(WindowInfo) -> bool)
    ensures
        forall|k: int| 0 <= k < keep(ws, p).len() ==> p(#[trigger] keep(ws, p)[k]),
    decreases ws.len(),
{
    if ws.len() > 0 {
        lemma_keep_sound(ws.drop_last(), p);
        let k0 = keep(ws.drop_last(), p);
        if p(ws.last()) {
            assert forall|k: int| 0 <= k < keep(ws, p).len() implies p(#[trigger] keep(ws, p)[k]) by {
                if k < k0.len() {
                    assert(keep(ws, p)[k] == k0[k]);
                }
            }
        }
    }
}

/// A window that satisfies `p` is kept.
proof fn lemma_keep_contains(ws: Seq<WindowInfo>, p: spec_fn(WindowInfo) -> bool, i: int)
    requires
        0 <= i < ws.len(),
        p(ws[i]),
    ensures
        keep(ws, p).contains(ws[i]),
    decreases ws.len(),
{
    if i == ws.len() - 1 {
        let k = keep(ws.drop_last(), p);
        assert(keep(ws, p) == k.push(ws.last()));
        assert(keep(ws, p)[k.len() as int] == ws[i]);
    } else {
        let d = ws.drop_last();
        assert(d[i] == ws[i]);
        lemma_keep_contains(d, p, i);
        let k = keep(d, p);
        let j = choose|j: int| 0 <= j < k.len() && k[j] == ws[i];
        if p(ws.last()) {
            assert(keep(ws, p) == k.push(ws.last()));
            assert(keep(ws, p)[j] == ws[i]);
        }
    }
}

/// A name target looks at both the title and the app name: every window
/// whose title or app name contains the name (ignoring case) is among the
/// windows the name matches, whatever the other field holds, and every
/// window it matches contains the name in one of the two.
pub proof fn lemma_name_target_reads_title_and_app(ws: Seq<WindowInfo>, name: Seq<char>, i: int)
    requires
        0 <= i < ws.len(),
        contains(lowercase(ws[i].title@), lowercase(name)) || (ws[i].app_name matches Some(a) && contains(lowercase(a@), lowercase(name))),
    ensures
        keep(ws, name_pred(lowercase(name))).contains(ws[i]),
        forall|k: int| 0 <= k < keep(ws, name_pred(lowercase(name))).len() ==> {
            let w = #[trigger] keep(ws, name_pred(lowercase(name)))[k];
            contains(lowercase(w.title@), lowercase(name)) || (w.app_name matches Some(a) && contains(lowercase(a@), lowercase(name)))
        },
{
    lemma_keep_contains(ws, name_pred(lowercase(name)), i);
    lemma_keep_sound(ws, name_pred(lowercase(name)));
    assert forall|k: int| 0 <= k < keep(ws, name_pred(lowercase(name))).len() implies {
        let w = #[trigger] keep(ws, name_pred(lowercase(name)))[k];
        contains(lowercase(w.title@), lowercase(name)) || (w.app_name matches Some(a) && contains(lowercase(a@), lowercase(name)))
    } by {
        assert((name_pred(lowercase(name)))(keep(ws, name_pred(lowercase(name)))[k]));
    }
}

fn name_flags(ws: &Vec<WindowInfo>, needle: &Vec<char>) -> (r: Vec<bool>)
    ensures
        r@.len() == ws@.len(),
        forall|i: int| 0 <= i < ws@.len() ==> r@[i] == name_hits(#[trigger] ws@[i], needle@),
{
    let mut r: Vec<bool> = Vec::new();
    let mut i: usize = 0;
    while i < ws.len()
        invariant
            i <= ws.len(),
            r@.len() == i,
            forall|k: int| 0 <= k < i ==> r@[k] == name_hits(#[trigger] ws@[k], needle@),
        decreases ws.len() - i,
    {
        let w = &ws[i];
        let t = to_lowercase(w.title.as_str());
        let tv = chars_of(t.as_str());
        let mut hit = contains_chars(&tv, needle);
        if !hit {
            if let Some(a) = &w.app_name {
                let al = to_lowercase(a.as_str());
                let av = chars_of(al.as_str());
                hit = contains_chars(&av, needle);
            }
        }
        r.push(hit);
        i = i + 1;
    }
    r
}

fn pid_flags(ws: &Vec<WindowInfo>, pid: u32) -> (r: Vec<bool>)
    ensures
        r@.len() == ws@.len(),
        forall|i: int| 0 <= i < ws@.len() ==> r@[i] == (#[trigger] ws@[i].pid == Some(pid)),
{
    let mut r: Vec<bool> = Vec::new();
    let mut i: usize = 0;
    while i < ws.len()
        invariant
            i <= ws.len(),
            r@.len() == i,
            forall|k: int| 0 <= k < i ==> r@[k] == (#[trigger] ws@[k].pid == Some(pid)),
        decreases ws.len() - i,
    {
        let hit = match ws[i].pid {
            Some(p) => p == pid,
            None => false,
        };
        r.push(hit);
        i = i + 1;
    }
    r
}

// ── messages ───────────────────────────────────────────────────────────

/// `'{title}' ({id})`.
pub open spec fn titled_id(w: WindowInfo) -> Seq<char> {
    seq!['\''] + w.title@ + "' ("@ + w.id@ + seq![')']
}

/// `'{title}'`.
pub open spec fn titled(w: WindowInfo) -> Seq<char> {
    seq!['\''] + w.title@ + seq!['\'']
}

/// The first (up to) five windows rendered by `f`, joined with `", "`.
pub open spec fn first_five(ws: Seq<WindowInfo>, f: spec_fn(WindowInfo) -> Seq<char>) -> Seq<char> {
    crate::input::comma_join(
        (if ws.len() <= 5 { ws } else { ws.take(5) }).map_values(|w: WindowInfo| f(w)),
    )
}

fn first_five_exec(ws: &Vec<WindowInfo>, with_id: bool) -> (r: String)
    ensures
        r@ == first_five(ws@, if with_id { |w: WindowInfo| titled_id(w) } else { |w: WindowInfo| titled(w) }),
{
    let ghost f: spec_fn(WindowInfo) -> Seq<char> = if with_id { |w: WindowInfo| titled_id(w) } else { |w: WindowInfo| titled(w) };
    let n: usize = if ws.len() <= 5 { ws.len() } else { 5 };
    let ghost shown = if ws@.len() <= 5 { ws@ } else { ws@.take(5) };
    let mut r = String::new();
    let mut i: usize = 0;
    while i < n
        invariant
            i <= n,
            n == shown.len(),
            n <= ws@.len(),
            forall|k: int| 0 <= k < n ==> shown[k] == ws@[k],
            f == (if with_id { |w: WindowInfo| titled_id(w) } else { |w: WindowInfo| titled(w) }),
            r@ == crate::input::comma_join(shown.take(i as int).map_values(|w: WindowInfo| f(w))),
        decreases n - i,
    {
        let ghost pre = shown.take(i as int).map_values(|w: WindowInfo| f(w));
        if i > 0 {
            push_str(&mut r, ", ");
        }
        let w = &ws[i];
        push_char(&mut r, '\'');
        push_str(&mut r, w.title.as_str());
        if with_id {
            push_str(&mut r, "' (");
            push_str(&mut r, w.id.as_str());
            push_char(&mut r, ')');
        } else {
            push_char(&mut r, '\'');
        }
        proof {
            let now = shown.take(i + 1).map_values(|w: WindowInfo| f(w));
            assert(now =~= pre.push(f(ws@[i as int])));
            assert(now.drop_last() =~= pre);
            assert(r@ =~= crate::input::comma_join(now));
        }
        i = i + 1;
    }
    assert(shown.take(n as int) =~= shown);
    r
}

// ── resolution ─────────────────────────────────────────────────────────

/// Predicate: the window has this id.
pub open spec fn id_pred(id: Seq<char>) -> spec_fn(WindowInfo) -> bool {
    |w: WindowInfo| w.id@ == id
}

/// An id target resolves to a listed window carrying exactly that id, the
/// first such window; it is never missed when some window has it.
pub proof fn lemma_id_target_finds_listed(ws: Seq<WindowInfo>, id: Seq<char>, j: int)
    requires
        0 <= j < ws.len(),
        ws[j].id@ == id,
    ensures
        first_index(ws, id_pred(id)) matches Some(k) && k <= j && ws[k].id@ == id
            && forall|i: int| 0 <= i < k ==> #[trigger] ws[i].id@ != id,
{
    crate::text::lemma_first_index(ws, id_pred(id));
    assert((id_pred(id))(ws[j]));
    match first_index(ws, id_pred(id)) {
        Some(k) => {
            assert((id_pred(id))(ws[k]));
            assert forall|i: int| 0 <= i < k implies #[trigger] ws[i].id@ != id by {
                assert(!(id_pred(id))(ws[i]));
            }
            if k > j {
                assert(!(id_pred(id))(ws[j]));
            }
        },
        None => {
            assert(!(id_pred(id))(ws[j]));
        },
    }
}

/// A pid target only ever considers windows of that process: every window
/// it matches has that pid, and every window with that pid is matched.
pub proof fn lemma_pid_target_windows(ws: Seq<WindowInfo>, pid: u32)
    ensures
        forall|k: int| 0 <= k < keep(ws, pid_pred(pid)).len() ==> (#[trigger] keep(ws, pid_pred(pid))[k]).pid == Some(pid),
        forall|i: int| 0 <= i < ws.len() && (#[trigger] ws[i]).pid == Some(pid) ==> keep(ws, pid_pred(pid)).contains(ws[i]),
{
    lemma_keep_sound(ws, pid_pred(pid));
    assert forall|i: int| 0 <= i < ws.len() && (#[trigger] ws[i]).pid == Some(pid) implies keep(ws, pid_pred(pid)).contains(ws[i]) by {
        lemma_keep_contains(ws, pid_pred(pid), i);
    }
    assert forall|k: int| 0 <= k < keep(ws, pid_pred(pid)).len() implies (#[trigger] keep(ws, pid_pred(pid))[k]).pid == Some(pid) by {
        assert((pid_pred(pid))(keep(ws, pid_pred(pid))[k]));
    }
}

/// Resolve an id, name or pid target against the window list (the caller
/// handles `Frontmost` with [`frontmost_focused`] / [`frontmost_fallback`]):
/// an id must be listed; a name (case-insensitive substring of title or app
/// name) or a pid must single out one window — for a pid, a focused window
/// among several wins.
pub fn resolve_window_in(windows: &Vec<WindowInfo>, target: &TargetRef) -> (r: Result<WindowInfo, HarnessError>)
    requires
        !(target is Frontmost),
    ensures
        match *target {
            TargetRef::Id(id) => match r {
                Ok(w) => first_index(windows@, id_pred(id@)) matches Some(k) && w == windows@[k],
                Err(e) => (forall|j: int| 0 <= j < windows@.len() ==> #[trigger] windows@[j].id@ != id@)
                    && (e matches HarnessError::NotFound(m) && m@ == "window id not found: "@ + id@),
            },
            TargetRef::Name(name) => {
                let ms = keep(windows@, name_pred(lowercase(name@)));
                if ms.len() == 0 {
                    r matches Err(HarnessError::NotFound(m)) && m@ == "no window matching name '"@ + name@ + seq!['\'']
                } else if ms.len() == 1 {
                    r == Ok::<WindowInfo, HarnessError>(ms[0])
                } else {
                    r matches Err(HarnessError::Ambiguous(m)) && m@ == decimal(ms.len()) + " windows match '"@ + name@ + "': "@
                        + first_five(ms, |w: WindowInfo| titled_id(w))
                }
            },
            TargetRef::Pid(pid) => {
                let ms = keep(windows@, pid_pred(pid));
                if ms.len() == 0 {
                    r matches Err(HarnessError::NotFound(m)) && m@ == "no window for pid "@ + decimal(pid as nat)
                } else if ms.len() == 1 {
                    r == Ok::<WindowInfo, HarnessError>(ms[0])
                } else {
                    match r {
                        Ok(w) => exists|k: int| 0 <= k < ms.len() && ms[k].focused && w == ms[k] && forall|j: int| 0 <= j < k ==> !(#[trigger] ms[j]).focused,
                        Err(e) => (forall|j: int| 0 <= j < ms.len() ==> !(#[trigger] ms[j]).focused)
                            && (e matches HarnessError::Ambiguous(m) && m@ == decimal(ms.len()) + " windows for pid "@
                            + decimal(pid as nat) + ": "@ + first_five(ms, |w: WindowInfo| titled(w))),
                    }
                }
            },
            TargetRef::Frontmost => true,
        },
{
    match target {
        TargetRef::Id(id) => {
            let mut i: usize = 0;
            while i < windows.len()
                invariant
                    i <= windows.len(),
                    *target == TargetRef::Id(*id),
                    forall|j: int| 0 <= j < i ==> #[trigger] windows@[j].id@ != id@,
                decreases windows.len() - i,
            {
                if str_eq(windows[i].id.as_str(), id.as_str()) {
                    let w = windows[i].duplicate();
                    proof {
                        lemma_first_index_at(windows@, id_pred(id@), i as int);
                    }
                    return Ok(w);
                }
                i = i + 1;
            }
            let mut m = owned("window id not found: ");
            push_str(&mut m, id.as_str());
            Err(HarnessError::NotFound(m))
        },
        TargetRef::Name(name) => {
            let needle_s = to_lowercase(name.as_str());
            let needle = chars_of(needle_s.as_str());
            let flags = name_flags(windows, &needle);
            let ms = keep_exec(windows, Ghost(name_pred(lowercase(name@))), &flags);
            if ms.len() == 0 {
                let mut m = owned("no window matching name '");
                push_str(&mut m, name.as_str());
                push_char(&mut m, '\'');
                Err(HarnessError::NotFound(m))
            } else if ms.len() == 1 {
                let mut ms = ms;
                Ok(ms.swap_remove(0))
            } else {
                let mut m = String::new();
                push_decimal(&mut m, ms.len() as u64);
                push_str(&mut m, " windows match '");
                push_str(&mut m, name.as_str());
                push_str(&mut m, "': ");
                let t = first_five_exec(&ms, true);
                push_str(&mut m, t.as_str());
                Err(HarnessError::Ambiguous(m))
            }
        },
        TargetRef::Pid(pid) => {
            let flags = pid_flags(windows, *pid);
            let ms = keep_exec(windows, Ghost(pid_pred(*pid)), &flags);
            if ms.len() == 0 {
                let mut m = owned("no window for pid ");
                push_decimal(&mut m, *pid as u64);
                Err(HarnessError::NotFound(m))
            } else if ms.len() == 1 {
                let mut ms = ms;
                Ok(ms.swap_remove(0))
            } else {
                let mut i: usize = 0;
                while i < ms.len()
                    invariant
                        i <= ms.len(),
                        *target == TargetRef::Pid(*pid),
                        ms@ == keep(windows@, pid_pred(*pid)),
                        ms@.len() > 1,
                        forall|j: int| 0 <= j < i ==> !(#[trigger] ms@[j]).focused,
                    decreases ms.len() - i,
                {
                    if ms[i].focused {
                        let w = ms[i].duplicate();
                        assert(0 <= i < ms@.len() && ms@[i as int].focused && w == ms@[i as int]);
                        return Ok(w);
                    }
                    i = i + 1;
                }
                let mut m = String::new();
                push_decimal(&mut m, ms.len() as u64);
                push_str(&mut m, " windows for pid ");
                push_decimal(&mut m, *pid as u64);
                push_str(&mut m, ": ");
                let t = first_five_exec(&ms, false);
                push_str(&mut m, t.as_str());
                Err(HarnessError::Ambiguous(m))
            }
        },
        TargetRef::Frontmost => Err(HarnessError::Other(String::new())),
    }
}

// ── frontmost ──────────────────────────────────────────────────────────

/// Index of the first focused window that is not shell chrome.
pub fn frontmost_focused(windows: &Vec<WindowInfo>) -> (r: Option<usize>)
    ensures
        match r {
            Some(k) => k < windows@.len() && windows@[k as int].focused && !shell_chrome(windows@[k as int])
                && forall|j: int| 0 <= j < k ==> !(#[trigger] windows@[j].focused && !shell_chrome(windows@[j])),
            None => forall|j: int| 0 <= j < windows@.len() ==> !(#[trigger] windows@[j].focused && !shell_chrome(windows@[j])),
        },
{
    let mut i: usize = 0;
    while i < windows.len()
        invariant
            i <= windows.len(),
            forall|j: int| 0 <= j < i ==> !(#[trigger] windows@[j].focused && !shell_chrome(windows@[j])),
        decreases windows.len() - i,
    {
        if windows[i].focused && !is_shell_chrome(&windows[i]) {
            return Some(i);
        }
        i = i + 1;
    }
    None
}

/// `w` marked focused.
pub open spec fn as_focused(w: WindowInfo) -> WindowInfo {
    WindowInfo { focused: true, ..w }
}

/// Message when no window looks frontmost.
pub open spec fn no_frontmost_message() -> Seq<char> {
    "no active/focused window reported by AT-SPI (Wayland/GNOME often under-reports; try list_windows)"@
}

/// The frontmost window when no non-chrome window reports focus:
/// `focused_desc[i]` tells whether window `i` has a focused descendant
/// (only read for non-chrome windows). Any focused window (shell chrome)
/// comes first; else the first non-chrome window with a focused descendant
/// (marked focused); else none.
pub fn frontmost_fallback(windows: &Vec<WindowInfo>, focused_desc: &Vec<bool>) -> (r: Result<WindowInfo, HarnessError>)
    requires
        focused_desc@.len() == windows@.len(),
    ensures
        match r {
            Ok(w) => (exists|k: int| 0 <= k < windows@.len() && windows@[k].focused
                && (forall|j: int| 0 <= j < k ==> !(#[trigger] windows@[j]).focused) && w == windows@[k])
                || ((forall|j: int| 0 <= j < windows@.len() ==> !(#[trigger] windows@[j]).focused)
                && exists|k: int| 0 <= k < windows@.len() && !shell_chrome(windows@[k]) && focused_desc@[k]
                && (forall|j: int| 0 <= j < k ==> !(!shell_chrome(#[trigger] windows@[j]) && focused_desc@[j]))
                && w == as_focused(windows@[k])),
            Err(e) => (forall|j: int| 0 <= j < windows@.len() ==> !(!shell_chrome(#[trigger] windows@[j]) && focused_desc@[j]))
                && (forall|j: int| 0 <= j < windows@.len() ==> !(#[trigger] windows@[j]).focused)
                && (e matches HarnessError::NotFound(m) && m@ == no_frontmost_message()),
        },
{
    let mut k: usize = 0;
    while k < windows.len()
        invariant
            k <= windows.len(),
            forall|j: int| 0 <= j < k ==> !(#[trigger] windows@[j]).focused,
        decreases windows.len() - k,
    {
        if windows[k].focused {
            let w = windows[k].duplicate();
            assert(0 <= k < windows@.len() && windows@[k as int].focused && w == windows@[k as int]);
            return Ok(w);
        }
        k = k + 1;
    }
    let mut i: usize = 0;
    while i < windows.len()
        invariant
            i <= windows.len(),
            focused_desc@.len() == windows@.len(),
            forall|j: int| 0 <= j < windows@.len() ==> !(#[trigger] windows@[j]).focused,
            forall|j: int| 0 <= j < i ==> !(!shell_chrome(#[trigger] windows@[j]) && focused_desc@[j]),
        decreases windows.len() - i,
    {
        if !is_shell_chrome(&windows[i]) && focused_desc[i] {
            let mut w = windows[i].duplicate();
            w.focused = true;
            assert(w == as_focused(windows@[i as int]));
            return Ok(w);
        }
        i = i + 1;
    }
    Err(HarnessError::NotFound(owned("no active/focused window reported by AT-SPI (Wayland/GNOME often under-reports; try list_windows)")))
}

// ── applications ───────────────────────────────────────────────────────

/// Resolve an application by a case-insensitive substring of its name:
/// exactly one must match.
pub fn resolve_app_by_name(apps: &Vec<AppInfo>, name: &str) -> (r: Result<usize, HarnessError>)
    ensures
        ({
            let needle = lowercase(name@);
            let n = apps@.filter(|a: AppInfo| contains(lowercase(a.name@), needle)).len();
            if n == 0 {
                r matches Err(HarnessError::NotFound(m)) && m@ == "no app matching '"@ + name@ + seq!['\'']
            } else if n == 1 {
                r matches Ok(k) && k < apps@.len() && contains(lowercase(apps@[k as int].name@), needle)
            } else {
                r matches Err(HarnessError::Ambiguous(m)) && m@ == decimal(n) + " apps match '"@ + name@ + seq!['\'']
            }
        }),
{
    let needle_s = to_lowercase(name);
    let needle = chars_of(needle_s.as_str());
    let ghost p = |a: AppInfo| contains(lowercase(a.name@), needle@);
    let mut count: usize = 0;
    let mut first: usize = 0;
    let mut i: usize = 0;
    while i < apps.len()
        invariant
            i <= apps.len(),
            needle@ == lowercase(name@),
            p == (|a: AppInfo| contains(lowercase(a.name@), needle@)),
            count as int == apps@.take(i as int).filter(p).len(),
            count <= i,
            count > 0 ==> first < i && contains(lowercase(apps@[first as int].name@), needle@),
        decreases apps.len() - i,
    {
        let lname = to_lowercase(apps[i].name.as_str());
        let lv = chars_of(lname.as_str());
        let hit = contains_chars(&lv, &needle);
        proof {
            let s = apps@.take(i + 1);
            assert(s.drop_last() =~= apps@.take(i as int));
            reveal_with_fuel(Seq::filter, 1);
            assert(s.filter(p) == if p(s.last()) { s.drop_last().filter(p).push(s.last()) } else { s.drop_last().filter(p) });
        }
        if hit {
            if count == 0 {
                first = i;
            }
            count = count + 1;
        }
        i = i + 1;
    }
    assert(apps@.take(i as int) =~= apps@);
    if count == 0 {
        let mut m = owned("no app matching '");
        push_str(&mut m, name);
        push_char(&mut m, '\'');
        Err(HarnessError::NotFound(m))
    } else if count == 1 {
        Ok(first)
    } else {
        let mut m = String::new();
        push_decimal(&mut m, count as u64);
        push_str(&mut m, " apps match '");
        push_str(&mut m, name);
        push_char(&mut m, '\'');
        Err(HarnessError::Ambiguous(m))
    }
}

/// The focused element of a target: the first hit of a `focused` search.
pub fn first_focused_hit(hits: Vec<ElementHit>) -> (r: Result<ElementHit, HarnessError>)
    ensures
        hits@.len() > 0 ==> r == Ok::<ElementHit, HarnessError>(hits@[0]),
        hits@.len() == 0 ==> (r matches Err(HarnessError::NotFound(m)) && m@ == "no focused element in target tree"@),
{
    if hits.len() == 0 {
        return Err(HarnessError::NotFound(owned("no focused element in target tree")));
    }
    let mut hits = hits;
    Ok(hits.swap_remove(0))
}

/// The search for the focused element: one in state `focused`, at most five hits.
pub fn focused_query() -> (r: FindQuery)
    ensures
        r.state matches Some(st) && st@ == "focused"@,
        r.role is None && r.name is None && !r.name_exact && r.text is None && r.description is None,
        r.max_results == 5,
{
    FindQuery {
        role: None,
        name: None,
        name_exact: false,
        text: None,
        state: Some(owned("focused")),
        description: None,
        max_results: 5,
    }
}

/// Walk budget of the focused-element search: depth 12, 500 nodes, bounds and actions.
pub fn focused_opts() -> (r: SnapshotOpts)
    ensures
        r == (SnapshotOpts { max_depth: 12, max_nodes: 500, include_bounds: true, include_actions: true }),
{
    SnapshotOpts { max_depth: 12, max_nodes: 500, include_bounds: true, include_actions: true }
}

/// Result of a focus request on a window that answered `ok`: an empty title
/// is reported as none.
pub fn activate_result(window_id: String, title: String, ok: bool) -> (r: ActivateResult)
    ensures
        r.ok == ok,
        r.id == window_id,
        title@.len() == 0 ==> r.title is None,
        title@.len() > 0 ==> r.title == Some(title),
        r.detail@ == if ok { "GrabFocus returned true"@ } else { "GrabFocus returned false — window may not accept focus"@ },
{
    let empty = title.as_str().is_empty();
    ActivateResult {
        ok,
        id: window_id,
        title: if empty { None } else { Some(title) },
        detail: if ok { owned("GrabFocus returned true") } else { owned("GrabFocus returned false — window may not accept focus") },
    }
}

/// After a failed window lookup, a name target is looked up among the
/// application roots.
pub fn needs_app_lookup(target: &TargetRef, window: &Result<WindowInfo, HarnessError>) -> (r: bool)
    ensures
        r == (target is Name && window is Err),
{
    match (target, window) {
        (TargetRef::Name(_), Err(_)) => true,
        _ => false,
    }
}

/// The object a snapshot of `target` starts from: an id target names it;
/// otherwise the window it resolves to; failing that, for a name, the
/// application root found by name (`app`); else the window lookup's error.
pub fn proxy_id_for(target: &TargetRef, window: Option<Result<WindowInfo, HarnessError>>, app: Option<Result<AppInfo, HarnessError>>) -> (r: Result<String, HarnessError>)
    requires
        !(target is Id) ==> window is Some,
    ensures
        target matches TargetRef::Id(i) ==> r == Ok::<String, HarnessError>(*i),
        !(target is Id) ==> match window {
            Some(Ok(w)) => r == Ok::<String, HarnessError>(w.id),
            Some(Err(e)) => match app {
                Some(Ok(a)) if target is Name => r == Ok::<String, HarnessError>(a.id),
                _ => r == Err::<String, HarnessError>(e),
            },
            None => false,
        },
{
    if let TargetRef::Id(i) = target {
        return Ok(i.clone());
    }
    match window {
        Some(Ok(w)) => Ok(w.id),
        Some(Err(e)) => {
            let by_name = match target {
                TargetRef::Name(_) => true,
                _ => false,
            };
            match app {
                Some(Ok(a)) => if by_name {
                    Ok(a.id)
                } else {
                    Err(e)
                },
                _ => Err(e),
            }
        },
        None => Err(HarnessError::Other(String::new())),
    }
}

} // verus!
