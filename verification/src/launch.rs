//! Launch applications by desktop-entry id or executable path.
//!
//! Safety: sensitive denylist + refuse obvious shell metacharacters.
//! Desktop ids (`org.gnome.Calculator`) are preferred over raw paths. The
//! spawn itself and the file lookups are the caller's.

use vstd::prelude::*;

use crate::error::HarnessError;
use crate::paths::{join, path_join};
use crate::text::{chars_of, debug_quoted, debug_str, ends_with, ends_with_chars, has_char, owned, push_str, trim, trim_str, views};

verus! {

/// Result of a launch attempt.
#[derive(Debug, Clone, PartialEq, Eq)]
pub struct LaunchResult {
    pub ok: bool,
    /// What was launched (desktop id or path).
    pub target: String,
    /// Backend used (`gtk-launch`, `gio`, `exec`).
    pub backend: String,
    pub pid: Option<u32>,
    pub detail: String,
}

/// A desktop-entry id: ends in `.desktop`, or a reverse-DNS name (has a
/// `.`, no `/` or `\`). Bare `PATH` names go through exec.
pub open spec fn desktop_id(s: Seq<char>) -> bool {
    ends_with(s, ".desktop"@) || (!s.contains('/') && !s.contains('\\') && s.contains('.'))
}

/// Is `spec` a desktop-entry id?
pub fn is_desktop_id(spec: &str) -> (r: bool)
    ensures
        r == desktop_id(spec@),
{
    let v = chars_of(spec);
    let suffix = chars_of(".desktop");
    if ends_with_chars(&v, &suffix) {
        return true;
    }
    !has_char(&v, '/') && !has_char(&v, '\\') && has_char(&v, '.')
}

/// Characters refused in launch targets.
pub open spec fn shell_meta(c: char) -> bool {
    c == ';' || c == '|' || c == '&' || c == '`' || c == '$' || c == '\n' || c == '\r' || c == '>'
        || c == '<' || c == '(' || c == ')'
}

/// Does the target hold a shell metacharacter?
pub open spec fn dangerous(s: Seq<char>) -> bool {
    exists|i: int| 0 <= i < s.len() && #[trigger] shell_meta(s[i])
}

/// Does `spec` hold a shell metacharacter (`; | & ` $ \n \r > < ( )`)?
pub fn looks_dangerous(spec: &str) -> (r: bool)
    ensures
        r == dangerous(spec@),
{
    let v = chars_of(spec);
    let mut i: usize = 0;
    while i < v.len()
        invariant
            i <= v.len(),
            v@ == spec@,
            forall|j: int| 0 <= j < i ==> !#[trigger] shell_meta(v@[j]),
        decreases v.len() - i,
    {
        let c = v[i];
        if c == ';' || c == '|' || c == '&' || c == '`' || c == '$' || c == '\n' || c == '\r' || c
            == '>' || c == '<' || c == '(' || c == ')' {
            assert(shell_meta(spec@[i as int]));
            return true;
        }
        i = i + 1;
    }
    false
}

/// The launch target after trimming; an empty target is refused.
pub fn check_launch_target(spec: &str) -> (r: Result<String, HarnessError>)
    ensures
        trim(spec@).len() == 0 ==> (r matches Err(HarnessError::Other(m)) && m@ == "launch target is empty"@),
        trim(spec@).len() > 0 ==> (r matches Ok(t) && t@ == trim(spec@)),
{
    let t = trim_str(spec);
    if t.as_str().is_empty() {
        return Err(HarnessError::Other(owned("launch target is empty")));
    }
    Ok(t)
}

/// The file name of a desktop entry: `id`, with `.desktop` added unless present.
pub open spec fn desktop_file_name(id: Seq<char>) -> Seq<char> {
    if ends_with(id, ".desktop"@) {
        id
    } else {
        id + ".desktop"@
    }
}

/// Where a desktop entry is looked for, in order: `$XDG_DATA_HOME/applications`,
/// `$HOME/.local/share/applications`, `/usr/share/applications`,
/// `/usr/local/share/applications`.
pub open spec fn desktop_file_candidates_of(id: Seq<char>, xdg_data_home: Option<Seq<char>>, home: Option<Seq<char>>) -> Seq<Seq<char>> {
    let name = desktop_file_name(id);
    (match xdg_data_home {
        Some(d) => seq![path_join(path_join(d, "applications"@), name)],
        None => Seq::empty(),
    }) + (match home {
        Some(h) => seq![path_join(path_join(h, ".local/share/applications"@), name)],
        None => Seq::empty(),
    }) + seq![
        path_join("/usr/share/applications"@, name),
        path_join("/usr/local/share/applications"@, name),
    ]
}

/// The candidate paths of a desktop entry (see [`desktop_file_candidates_of`]).
pub fn desktop_file_candidates(id: &str, xdg_data_home: Option<&str>, home: Option<&str>) -> (r: Vec<String>)
    ensures
        views(r@) == desktop_file_candidates_of(
            id@,
            match xdg_data_home {
                Some(d) => Some(d@),
                None => None,
            },
            match home {
                Some(h) => Some(h@),
                None => None,
            },
        ),
{
    let v = chars_of(id);
    let suffix = chars_of(".desktop");
    let name = if ends_with_chars(&v, &suffix) {
        owned(id)
    } else {
        let mut n = owned(id);
        push_str(&mut n, ".desktop");
        n
    };
    let mut out: Vec<String> = Vec::new();
    if let Some(d) = xdg_data_home {
        let dir = join(d, "applications");
        out.push(join(dir.as_str(), name.as_str()));
    }
    if let Some(h) = home {
        let dir = join(h, ".local/share/applications");
        out.push(join(dir.as_str(), name.as_str()));
    }
    out.push(join("/usr/share/applications", name.as_str()));
    out.push(join("/usr/local/share/applications", name.as_str()));
    proof {
        let want = desktop_file_candidates_of(
            id@,
            match xdg_data_home {
                Some(d) => Some(d@),
                None => None,
            },
            match home {
                Some(h) => Some(h@),
                None => None,
            },
        );
        assert(views(out@) =~= want);
    }
    out
}

/// How a launch is carried out.
#[derive(Debug, Clone, PartialEq, Eq)]
pub struct LaunchCommand {
    /// Program to spawn (detached).
    pub program: String,
    /// Its arguments.
    pub args: Vec<String>,
    /// Backend name reported (`gtk-launch`, `gio`, `exec`).
    pub backend: String,
}

/// What the caller found on the system for a launch.
pub struct LaunchEnv {
    /// `gtk-launch` is on `PATH`.
    pub has_gtk_launch: bool,
    /// `gio` is on `PATH`.
    pub has_gio: bool,
    /// The first desktop-entry candidate that is a file, if any.
    pub desktop_file: Option<String>,
    /// The target exists as a file-system path.
    pub path_exists: bool,
}

/// The desktop id with a trailing `.desktop` removed.
pub open spec fn strip_desktop(s: Seq<char>) -> Seq<char> {
    if ends_with(s, ".desktop"@) {
        s.take(s.len() - 8)
    } else {
        s
    }
}

/// Message of a refused launch target.
pub open spec fn meta_message(spec: Seq<char>) -> Seq<char> {
    "refusing launch target with shell metacharacters: "@ + debug_quoted(spec)
}

/// Decide how to launch a (trimmed, policy-checked) target: refuse shell
/// metacharacters; a desktop id goes through `gtk-launch`, else `gio launch`
/// with its desktop file; anything else is executed directly (a path must exist).
pub fn plan_launch(spec: &str, env: &LaunchEnv) -> (r: Result<LaunchCommand, HarnessError>)
    ensures
        dangerous(spec@) ==> (r matches Err(HarnessError::PolicyBlocked(m)) && m@ == meta_message(spec@)),
        !dangerous(spec@) && desktop_id(spec@) ==> {
            let id = strip_desktop(spec@);
            if env.has_gtk_launch {
                r matches Ok(c) && c.program@ == "gtk-launch"@ && views(c.args@) == seq![id]
                    && c.backend@ == "gtk-launch"@
            } else if env.has_gio {
                match env.desktop_file {
                    Some(p) => r matches Ok(c) && c.program@ == "gio"@ && views(c.args@) == seq![
                        "launch"@,
                        p@,
                    ] && c.backend@ == "gio"@,
                    None => r matches Err(HarnessError::NotFound(m)) && m@ == "desktop entry "@ + id
                        + ".desktop not found in XDG applications dirs"@,
                }
            } else {
                r matches Err(HarnessError::Unavailable(m)) && m@
                    == "neither gtk-launch nor gio available to launch desktop entry"@
            }
        },
        !dangerous(spec@) && !desktop_id(spec@) ==> if spec@.contains('/') && !env.path_exists {
            r matches Err(HarnessError::NotFound(m)) && m@ == "executable not found: "@ + spec@
        } else {
            r matches Ok(c) && c.program@ == spec@ && c.args@.len() == 0 && c.backend@ == "exec"@
        },
{
    if looks_dangerous(spec) {
        let mut m = owned("refusing launch target with shell metacharacters: ");
        let q = debug_str(spec);
        push_str(&mut m, q.as_str());
        return Err(HarnessError::PolicyBlocked(m));
    }
    let v = chars_of(spec);
    if is_desktop_id(spec) {
        let suffix = chars_of(".desktop");
        let id = if ends_with_chars(&v, &suffix) {
            proof {
                reveal_strlit(".desktop");
            }
            crate::text::string_of(&crate::text::slice_chars(&v, 0, v.len() - 8))
        } else {
            owned(spec)
        };
        proof {
            reveal_strlit(".desktop");
            assert(id@ =~= strip_desktop(spec@));
        }
        if env.has_gtk_launch {
            let mut args: Vec<String> = Vec::new();
            args.push(id);
            assert(views(args@) =~= seq![strip_desktop(spec@)]);
            return Ok(LaunchCommand { program: owned("gtk-launch"), args, backend: owned("gtk-launch") });
        }
        if env.has_gio {
            match &env.desktop_file {
                Some(p) => {
                    let mut args: Vec<String> = Vec::new();
                    args.push(owned("launch"));
                    args.push(p.clone());
                    assert(views(args@) =~= seq!["launch"@, p@]);
                    return Ok(LaunchCommand { program: owned("gio"), args, backend: owned("gio") });
                },
                None => {
                    let mut m = owned("desktop entry ");
                    push_str(&mut m, id.as_str());
                    push_str(&mut m, ".desktop not found in XDG applications dirs");
                    return Err(HarnessError::NotFound(m));
                },
            }
        }
        return Err(HarnessError::Unavailable(owned("neither gtk-launch nor gio available to launch desktop entry")));
    }
    if has_char(&v, '/') && !env.path_exists {
        let mut m = owned("executable not found: ");
        push_str(&mut m, spec);
        return Err(HarnessError::NotFound(m));
    }
    Ok(LaunchCommand { program: owned(spec), args: Vec::new(), backend: owned("exec") })
}

/// Detail of a detached spawn: `spawned via {backend} (not waited)`.
pub fn spawned_detail(backend: &str) -> (r: String)
    ensures
        r@ == "spawned via "@ + backend@ + " (not waited)"@,
{
    let mut r = owned("spawned via ");
    push_str(&mut r, backend);
    push_str(&mut r, " (not waited)");
    r
}

} // verus!
