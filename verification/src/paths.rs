//! State / config locations.

use vstd::prelude::*;

use crate::text::{owned, push_char, push_str};

verus! {

/// `Path::join` on Unix: an absolute `name` replaces `base`; otherwise a `/`
/// separates them unless `base` is empty or already ends in `/`.
pub open spec fn path_join(base: Seq<char>, name: Seq<char>) -> Seq<char> {
    if name.len() > 0 && name[0] == '/' {
        name
    } else if base.len() == 0 {
        name
    } else if base.last() == '/' {
        base + name
    } else {
        base + seq!['/'] + name
    }
}

/// Joins a file or directory name onto a directory path.
pub fn join(base: &str, name: &str) -> (r: String)
    ensures
        r@ == path_join(base@, name@),
{
    let b = crate::text::chars_of(base);
    let n = crate::text::chars_of(name);
    if n.len() > 0 && n[0] == '/' {
        return owned(name);
    }
    if b.len() == 0 {
        return owned(name);
    }
    let mut r = owned(base);
    if b[b.len() - 1] != '/' {
        push_char(&mut r, '/');
    }
    push_str(&mut r, name);
    assert(r@ =~= path_join(base@, name@));
    r
}

/// The per-user data directory for this tool (`directories::ProjectDirs`
/// for `com.buckster123.apex-commander`), when a home directory is known.
/// Which directory depends on the environment; the crate's source builds it
/// by joining the project name onto a base directory, so it is not empty.
#[verifier::external_body]
fn project_data_dir() -> (r: Option<String>)
    ensures
        r matches Some(d) ==> d@.len() > 0,
{
    directories::ProjectDirs::from("com", "buckster123", "apex-commander")
        .map(|d| d.data_local_dir().to_string_lossy().into_owned())
}

/// The per-user config directory for this tool (`directories::ProjectDirs`),
/// when a home directory is known. Which directory depends on the
/// environment; the crate's source builds it by joining the project name onto
/// a base directory, so it is not empty.
#[verifier::external_body]
fn project_config_dir() -> (r: Option<String>)
    ensures
        r matches Some(d) ==> d@.len() > 0,
{
    directories::ProjectDirs::from("com", "buckster123", "apex-commander")
        .map(|d| d.config_dir().to_string_lossy().into_owned())
}

/// Picks a directory: a non-empty override wins, then the per-user
/// directory, then `./{fallback}`.
fn pick_dir(env_override: Option<String>, project: Option<String>, fallback: &str) -> (r: String)
    requires
        project matches Some(d) ==> d@.len() > 0,
    ensures
        r@.len() > 0,
        match env_override {
            Some(p) if p@.len() > 0 => r == p,
            _ => match project {
                Some(d) => r == d,
                None => r@ == "./"@ + fallback@,
            },
        },
{
    if let Some(p) = env_override {
        if !p.as_str().is_empty() {
            return p;
        }
    }
    match project {
        Some(d) => d,
        None => {
            let mut r = owned(".");
            push_char(&mut r, '/');
            push_str(&mut r, fallback);
            proof {
                reveal_strlit(".");
            }
            assert(r@ =~= "./"@ + fallback@) by {
                reveal_strlit("./");
            }
            r
        },
    }
}

/// State root: the `APEX_COMMANDER_STATE_DIR` value when set and non-empty,
/// else the per-user data directory, else `./apex-commander-state`.
pub fn state_dir(env_override: Option<String>) -> (r: String)
    ensures
        match env_override {
            Some(p) => p@.len() > 0 ==> r == p,
            None => true,
        },
        r@.len() > 0,
{
    pick_dir(env_override, project_data_dir(), "apex-commander-state")
}

/// Config root: the `APEX_COMMANDER_CONFIG_DIR` value when set and
/// non-empty, else the per-user config directory, else `./apex-commander-config`.
pub fn config_dir(env_override: Option<String>) -> (r: String)
    ensures
        match env_override {
            Some(p) => p@.len() > 0 ==> r == p,
            None => true,
        },
        r@.len() > 0,
{
    pick_dir(env_override, project_config_dir(), "apex-commander-config")
}

/// Audit JSONL path under a state directory.
pub fn audit_log_path(state_dir: &str) -> (r: String)
    ensures
        r@ == path_join(state_dir@, "audit.jsonl"@),
{
    join(state_dir, "audit.jsonl")
}

/// Screenshot drop directory under a state directory.
pub fn screenshots_dir(state_dir: &str) -> (r: String)
    ensures
        r@ == path_join(state_dir@, "screenshots"@),
{
    join(state_dir, "screenshots")
}

} // verus!
