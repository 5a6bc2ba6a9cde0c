//! Sensitive-app denylist and mutation policy.
//!
//! Matches **window title + app name**, never AT-SPI element ids. An
//! `allow_override` match proceeds only after an audit line is written: the
//! functions here hand that line back as an [`OverrideRecord`] and the caller
//! writes it before the mutation. Callers fail closed when the target cannot
//! be classified ([`unclassified`]).

use vstd::prelude::*;

use crate::error::HarnessError;
use crate::text::{
    chars_of, clone_opt, contains, contains_chars, debug_quoted, debug_str, lowercase, owned,
    push_char, push_str, to_lowercase, views,
};
use crate::types::WindowInfo;

verus! {

// ── configuration ──────────────────────────────────────────────────────

/// Built-in sensitive name/title substrings (case-insensitive).
pub open spec fn default_patterns() -> Seq<Seq<char>> {
    seq![
        "1password"@,
        "bitwarden"@,
        "keepass"@,
        "keepassxc"@,
        "lastpass"@,
        "gnome-keyring"@,
        "seahorse"@,
        "kwallet"@,
        "password"@,
        "credentials"@,
        "secret service"@,
        "authy"@,
        "2fa"@,
    ]
}

/// The built-in denylist, in order.
pub fn default_deny_substrings() -> (r: Vec<String>)
    ensures
        views(r@) == default_patterns(),
{
    let mut r: Vec<String> = Vec::new();
    r.push(owned("1password"));
    r.push(owned("bitwarden"));
    r.push(owned("keepass"));
    r.push(owned("keepassxc"));
    r.push(owned("lastpass"));
    r.push(owned("gnome-keyring"));
    r.push(owned("seahorse"));
    r.push(owned("kwallet"));
    r.push(owned("password"));
    r.push(owned("credentials"));
    r.push(owned("secret service"));
    r.push(owned("authy"));
    r.push(owned("2fa"));
    assert(views(r@) =~= default_patterns());
    r
}

/// Loaded denylist configuration.
#[derive(Debug, Clone, PartialEq, Eq)]
pub struct SensitiveConfig {
    /// Extra substrings to block (merged with defaults unless `replace_defaults`).
    pub deny_substrings: Vec<String>,
    /// When true, only `deny_substrings` apply (no built-in list).
    pub replace_defaults: bool,
    /// Allow tools to proceed despite a match (each such match is audited).
    pub allow_override: bool,
}

impl Default for SensitiveConfig {
    fn default() -> (r: Self)
        ensures
            r.deny_substrings@.len() == 0,
            !r.replace_defaults,
            !r.allow_override,
    {
        SensitiveConfig { deny_substrings: Vec::new(), replace_defaults: false, allow_override: false }
    }
}

/// Patterns in effect: the built-in list (unless replaced) followed by the extra ones.
pub open spec fn config_patterns(cfg: SensitiveConfig) -> Seq<Seq<char>> {
    (if cfg.replace_defaults {
        Seq::empty()
    } else {
        default_patterns()
    }) + views(cfg.deny_substrings@)
}

impl SensitiveConfig {
    /// The configuration in effect: what the config file held, or the defaults
    /// when there is no readable file.
    pub fn load(from_file: Option<SensitiveConfig>) -> (r: SensitiveConfig)
        ensures
            match from_file {
                Some(c) => r == c,
                None => r.deny_substrings@.len() == 0 && !r.replace_defaults && !r.allow_override,
            },
    {
        match from_file {
            Some(c) => c,
            None => SensitiveConfig::default(),
        }
    }

    /// Patterns effective for matching.
    pub fn patterns(&self) -> (r: Vec<String>)
        ensures
            views(r@) == config_patterns(*self),
    {
        let mut out: Vec<String> = if self.replace_defaults {
            Vec::new()
        } else {
            default_deny_substrings()
        };
        let ghost base = views(out@);
        let mut i: usize = 0;
        while i < self.deny_substrings.len()
            invariant
                i <= self.deny_substrings.len(),
                views(out@) == base + views(self.deny_substrings@.take(i as int)),
            decreases self.deny_substrings.len() - i,
        {
            let ghost old_out = out@;
            let s = self.deny_substrings[i].clone();
            out.push(s);
            proof {
                let d = self.deny_substrings@;
                assert(views(out@) =~= views(old_out).push(s@));
                assert(d.take(i + 1) =~= d.take(i as int).push(d[i as int]));
                assert(views(d.take(i + 1)) =~= views(d.take(i as int)).push(d[i as int]@));
            }
            i = i + 1;
            assert(views(out@) =~= base + views(self.deny_substrings@.take(i as int)));
        }
        assert(self.deny_substrings@.take(i as int) =~= self.deny_substrings@);
        assert(views(out@) =~= config_patterns(*self));
        out
    }
}

// ── config file body ───────────────────────────────────────────────────

/// What a config file body holds.
#[derive(Debug, PartialEq, Eq)]
pub enum ConfigBody {
    /// The body is a JSON object (first non-blank character `{`); decode it as JSON.
    Json,
    /// The line format, already read.
    Lines(SensitiveConfig),
}

/// A configuration as plain values: (extra patterns, replace_defaults, allow_override).
pub type ConfigModel = (Seq<Seq<char>>, bool, bool);

/// The effect of one trimmed line of the line format: blank lines, `#`
/// comments and `[section]` headers are ignored; `deny=x` adds `x` (trimmed,
/// quotes stripped); `replace_defaults=true` / `allow_override=true` set the
/// flags; a line without `=` is itself a pattern; other `k=v` lines are ignored.
pub open spec fn apply_line(c: ConfigModel, line: Seq<char>) -> ConfigModel {
    if line.len() == 0 || line[0] == '#' || line[0] == '[' {
        c
    } else if crate::text::starts_with(line, "deny="@) {
        (c.0.push(crate::text::trim_quotes(crate::text::trim(line.skip(5)))), c.1, c.2)
    } else if line == "replace_defaults=true"@ {
        (c.0, true, c.2)
    } else if line == "allow_override=true"@ {
        (c.0, c.1, true)
    } else if !line.contains('=') {
        (c.0.push(line), c.1, c.2)
    } else {
        c
    }
}

/// Splitting on `\n` as a scan: the finished lines and the line in progress.
pub open spec fn scan_lines(s: Seq<char>) -> (Seq<Seq<char>>, Seq<char>)
    decreases s.len(),
{
    if s.len() == 0 {
        (Seq::empty(), Seq::empty())
    } else {
        let prev = scan_lines(s.drop_last());
        if s.last() == '\n' {
            (prev.0.push(prev.1), Seq::empty())
        } else {
            (prev.0, prev.1.push(s.last()))
        }
    }
}

/// The `\n`-separated lines of `s` (the last one may be empty).
pub open spec fn split_lines(s: Seq<char>) -> Seq<Seq<char>> {
    scan_lines(s).0.push(scan_lines(s).1)
}

/// The configuration after the given lines (each trimmed first), in order.
pub open spec fn config_after(lines: Seq<Seq<char>>) -> ConfigModel
    decreases lines.len(),
{
    if lines.len() == 0 {
        (Seq::empty(), false, false)
    } else {
        apply_line(config_after(lines.drop_last()), crate::text::trim(lines.last()))
    }
}

/// The plain values of a configuration.
pub open spec fn model_of(cfg: SensitiveConfig) -> ConfigModel {
    (views(cfg.deny_substrings@), cfg.replace_defaults, cfg.allow_override)
}

/// The line format read from a whole body.
pub open spec fn parse_body_lines(body: Seq<char>) -> ConfigModel {
    config_after(split_lines(body))
}

/// Applies one raw line to a configuration under construction.
fn apply_raw_line(cfg: &mut SensitiveConfig, raw: &Vec<char>)
    ensures
        model_of(*final(cfg)) == apply_line(model_of(*old(cfg)), crate::text::trim(raw@)),
{
    let line = crate::text::trim_chars(raw);
    if line.len() == 0 || line[0] == '#' || line[0] == '[' {
        return;
    }
    let deny = chars_of("deny=");
    if crate::text::starts_with_chars(&line, &deny) {
        proof {
            reveal_strlit("deny=");
        }
        let rest = crate::text::slice_chars(&line, 5, line.len());
        assert(rest@ =~= line@.skip(5));
        let t = crate::text::trim_chars(&rest);
        let q = crate::text::trim_quote_chars(&t);
        let ghost before = views(cfg.deny_substrings@);
        cfg.deny_substrings.push(crate::text::string_of(&q));
        assert(views(cfg.deny_substrings@) =~= before.push(q@));
        return;
    }
    let rd = chars_of("replace_defaults=true");
    if crate::text::eq_chars(&line, &rd) {
        cfg.replace_defaults = true;
        return;
    }
    let ao = chars_of("allow_override=true");
    if crate::text::eq_chars(&line, &ao) {
        cfg.allow_override = true;
        return;
    }
    if !crate::text::has_char(&line, '=') {
        let ghost before = views(cfg.deny_substrings@);
        cfg.deny_substrings.push(crate::text::string_of(&line));
        assert(views(cfg.deny_substrings@) =~= before.push(line@));
    }
}

/// Reads a config file body: JSON when its first non-blank character is
/// `{`, else the line format (see [`apply_line`]).
pub fn parse_config_body(body: &str) -> (r: ConfigBody)
    ensures
        match r {
            ConfigBody::Json => crate::text::starts_with(crate::text::trim_start(body@), seq!['{']),
            ConfigBody::Lines(cfg) => !crate::text::starts_with(
                crate::text::trim_start(body@),
                seq!['{'],
            ) && model_of(cfg) == parse_body_lines(body@),
        },
{
    let v = chars_of(body);
    let ts = crate::text::trim_start_chars(&v);
    if ts.len() > 0 && ts[0] == '{' {
        assert(ts@.take(1) =~= seq!['{']);
        return ConfigBody::Json;
    }
    proof {
        if crate::text::starts_with(ts@, seq!['{']) {
            assert(ts@.take(1)[0] == ts@[0]);
        }
    }
    let mut cfg = SensitiveConfig::default();
    assert(model_of(cfg) =~= config_after(Seq::<Seq<char>>::empty()));
    let mut cur: Vec<char> = Vec::new();
    let mut i: usize = 0;
    while i < v.len()
        invariant
            i <= v.len(),
            v@ == body@,
            scan_lines(v@.take(i as int)).1 == cur@,
            model_of(cfg) == config_after(scan_lines(v@.take(i as int)).0),
        decreases v.len() - i,
    {
        let ghost pre = v@.take(i as int);
        assert(v@.take(i + 1).drop_last() =~= pre);
        if v[i] == '\n' {
            apply_raw_line(&mut cfg, &cur);
            proof {
                let lines = scan_lines(pre).0.push(cur@);
                assert(lines.drop_last() =~= scan_lines(pre).0);
            }
            cur = Vec::new();
            assert(cur@ =~= Seq::<char>::empty());
        } else {
            cur.push(v[i]);
        }
        i = i + 1;
    }
    apply_raw_line(&mut cfg, &cur);
    proof {
        assert(v@.take(i as int) =~= body@);
        let lines = split_lines(body@);
        assert(lines.drop_last() =~= scan_lines(body@).0);
    }
    ConfigBody::Lines(cfg)
}

// ── matching ───────────────────────────────────────────────────────────

/// The text a denylist is matched against: lowercase of `app + " " + title`.
pub open spec fn haystack_of(app: Seq<char>, title: Seq<char>) -> Seq<char> {
    lowercase(app + seq![' '] + title)
}

/// A non-empty pattern hits when its lowercase occurs in the haystack.
pub open spec fn pattern_hits(p: Seq<char>, hay: Seq<char>) -> bool {
    p.len() > 0 && contains(hay, lowercase(p))
}

/// Index of the first pattern that hits.
pub open spec fn first_hit(pats: Seq<Seq<char>>, hay: Seq<char>) -> Option<int>
    decreases pats.len(),
{
    if pats.len() == 0 {
        None
    } else if pattern_hits(pats[0], hay) {
        Some(0)
    } else {
        match first_hit(pats.drop_first(), hay) {
            Some(i) => Some(i + 1),
            None => None,
        }
    }
}

/// [`first_hit`] is the first pattern that hits.
pub proof fn lemma_first_hit(pats: Seq<Seq<char>>, hay: Seq<char>)
    ensures
        match first_hit(pats, hay) {
            Some(k) => 0 <= k < pats.len() && pattern_hits(pats[k], hay) && forall|j: int|
                0 <= j < k ==> !pattern_hits(#[trigger] pats[j], hay),
            None => forall|j: int| 0 <= j < pats.len() ==> !pattern_hits(#[trigger] pats[j], hay),
        },
    decreases pats.len(),
{
    if pats.len() > 0 && !pattern_hits(pats[0], hay) {
        let t = pats.drop_first();
        lemma_first_hit(t, hay);
        match first_hit(t, hay) {
            Some(k) => {
                assert forall|j: int| 0 <= j < k + 1 implies !pattern_hits(#[trigger] pats[j], hay) by {
                    if j > 0 {
                        assert(pats[j] == t[j - 1]);
                    }
                }
            },
            None => {
                assert forall|j: int| 0 <= j < pats.len() implies !pattern_hits(#[trigger] pats[j], hay) by {
                    if j > 0 {
                        assert(pats[j] == t[j - 1]);
                    }
                }
            },
        }
    }
}

/// The first hit is determined by being first.
proof fn lemma_first_hit_at(pats: Seq<Seq<char>>, hay: Seq<char>, k: int)
    requires
        0 <= k < pats.len(),
        pattern_hits(pats[k], hay),
        forall|j: int| 0 <= j < k ==> !pattern_hits(#[trigger] pats[j], hay),
    ensures
        first_hit(pats, hay) == Some(k),
{
    lemma_first_hit(pats, hay);
    match first_hit(pats, hay) {
        Some(k2) => {
            if k2 < k {
                assert(!pattern_hits(pats[k2], hay));
            } else if k < k2 {
                assert(!pattern_hits(pats[k], hay));
            }
        },
        None => {
            assert(!pattern_hits(pats[k], hay));
        },
    }
}

/// The matched (pattern, haystack) for an app name and title, if any.
pub open spec fn sensitive_match(app: Seq<char>, title: Seq<char>, cfg: SensitiveConfig) -> Option<
    (Seq<char>, Seq<char>),
> {
    let pats = config_patterns(cfg);
    let hay = haystack_of(app, title);
    match first_hit(pats, hay) {
        Some(i) => Some((pats[i], hay)),
        None => None,
    }
}

/// The text of an optional app name (`""` when absent).
pub open spec fn app_text(app: Option<&str>) -> Seq<char> {
    match app {
        Some(a) => a@,
        None => Seq::empty(),
    }
}

/// Match result for a window/app name.
#[derive(Debug, Clone, PartialEq, Eq)]
pub struct SensitiveHit {
    pub pattern: String,
    pub haystack: String,
}

/// Check app name + window title against the denylist: the first effective
/// pattern (non-empty) whose lowercase occurs in the lowercased `"{app} {title}"`.
pub fn match_sensitive(app_name: Option<&str>, title: &str, cfg: &SensitiveConfig) -> (r: Option<
    SensitiveHit,
>)
    ensures
        match r {
            Some(h) => sensitive_match(app_text(app_name), title@, *cfg) == Some(
                (h.pattern@, h.haystack@),
            ),
            None => sensitive_match(app_text(app_name), title@, *cfg) is None,
        },
{
    let mut joined = match app_name {
        Some(a) => owned(a),
        None => String::new(),
    };
    push_char(&mut joined, ' ');
    push_str(&mut joined, title);
    assert(joined@ =~= app_text(app_name) + seq![' '] + title@);
    let hay = to_lowercase(joined.as_str());
    let hv = chars_of(hay.as_str());
    let pats = cfg.patterns();
    let ghost ps = views(pats@);
    let mut i: usize = 0;
    while i < pats.len()
        invariant
            i <= pats.len(),
            ps == views(pats@),
            ps == config_patterns(*cfg),
            hv@ == hay@,
            hay@ == haystack_of(app_text(app_name), title@),
            forall|j: int| 0 <= j < i ==> !pattern_hits(#[trigger] ps[j], hay@),
        decreases pats.len() - i,
    {
        let p = &pats[i];
        assert(ps[i as int] == p@);
        if !p.as_str().is_empty() {
            let pl = to_lowercase(p.as_str());
            let pv = chars_of(pl.as_str());
            if contains_chars(&hv, &pv) {
                proof {
                    lemma_first_hit_at(ps, hay@, i as int);
                }
                return Some(SensitiveHit { pattern: p.clone(), haystack: hay });
            }
        }
        i = i + 1;
    }
    proof {
        lemma_first_hit(ps, hay@);
        match first_hit(ps, hay@) {
            Some(k) => {
                assert(!pattern_hits(ps[k], hay@));
            },
            None => {},
        }
    }
    None
}

/// Outcome of a denylist check (pure).
#[derive(Debug, Clone, PartialEq, Eq)]
pub enum GuardDecision {
    Allow,
    AllowOverride { hit: SensitiveHit },
    Block { hit: SensitiveHit },
}

/// The decision for a match result: allow without a match; with a match,
/// proceed under override when `allow_override`, else block.
pub open spec fn decision_is(d: GuardDecision, m: Option<(Seq<char>, Seq<char>)>, allow_override: bool) -> bool {
    match m {
        None => d is Allow,
        Some((p, hay)) => match d {
            GuardDecision::AllowOverride { hit } => allow_override && hit.pattern@ == p
                && hit.haystack@ == hay,
            GuardDecision::Block { hit } => !allow_override && hit.pattern@ == p && hit.haystack@
                == hay,
            GuardDecision::Allow => false,
        },
    }
}

/// Pure decision: match + override flag. No I/O.
pub fn decide(app_name: Option<&str>, title: &str, cfg: &SensitiveConfig) -> (r: GuardDecision)
    ensures
        decision_is(r, sensitive_match(app_text(app_name), title@, *cfg), cfg.allow_override),
{
    match match_sensitive(app_name, title, cfg) {
        None => GuardDecision::Allow,
        Some(hit) => if cfg.allow_override {
            GuardDecision::AllowOverride { hit }
        } else {
            GuardDecision::Block { hit }
        },
    }
}

// ── enforcement ────────────────────────────────────────────────────────

/// What a policy override was granted on.
#[derive(Debug, Clone, PartialEq, Eq)]
pub enum OverrideTarget {
    /// A window: its id, title and app name.
    Window { id: String, title: String, app: Option<String> },
    /// A free-form name (launch spec, element name).
    Name(String),
}

/// The `policy_override` audit line a caller must write before it proceeds
/// under `allow_override` (when the line cannot be written, the override is refused).
#[derive(Debug, Clone, PartialEq, Eq)]
pub struct OverrideRecord {
    /// The tool that asked.
    pub tool: String,
    /// The pattern that matched.
    pub pattern: String,
    /// What the override was granted on.
    pub target: OverrideTarget,
    /// `allow_override matched pattern "<pattern>"`.
    pub detail: String,
}

/// Message of a blocked mutation.
pub open spec fn block_message(pattern: Seq<char>, hay: Seq<char>) -> Seq<char> {
    "sensitive app/window matched pattern "@ + debug_quoted(pattern) + " (title/app: "@
        + debug_quoted(hay) + "); set allow_override in sensitive config or pick another target"@
}

/// Detail of an override audit line.
pub open spec fn override_detail(pattern: Seq<char>) -> Seq<char> {
    "allow_override matched pattern "@ + debug_quoted(pattern)
}

/// The outcome of enforcing a decision: proceed (with the override line to
/// audit, if any) or refuse.
pub open spec fn enforced(
    r: Result<Option<OverrideRecord>, HarnessError>,
    m: Option<(Seq<char>, Seq<char>)>,
    allow_override: bool,
    tool: Seq<char>,
    target_ok: spec_fn(OverrideTarget) -> bool,
) -> bool {
    match m {
        None => r == Ok::<Option<OverrideRecord>, HarnessError>(None),
        Some((p, hay)) => if allow_override {
            r matches Ok(Some(rec)) && rec.tool@ == tool && rec.pattern@ == p && target_ok(
                rec.target,
            ) && rec.detail@ == override_detail(p)
        } else {
            r matches Err(HarnessError::PolicyBlocked(msg)) && msg@ == block_message(p, hay)
        },
    }
}

/// Apply a decision. An override is handed back as the audit line to write
/// before proceeding; a block is a `PolicyBlocked` error.
pub fn enforce(decision: GuardDecision, tool: &str, target: OverrideTarget) -> (r: Result<
    Option<OverrideRecord>,
    HarnessError,
>)
    ensures
        match decision {
            GuardDecision::Allow => r == Ok::<Option<OverrideRecord>, HarnessError>(None),
            GuardDecision::AllowOverride { hit } => r matches Ok(Some(rec)) && rec.tool@ == tool@
                && rec.pattern@ == hit.pattern@ && rec.target == target && rec.detail@
                == override_detail(hit.pattern@),
            GuardDecision::Block { hit } => r matches Err(HarnessError::PolicyBlocked(msg))
                && msg@ == block_message(hit.pattern@, hit.haystack@),
        },
{
    match decision {
        GuardDecision::Allow => Ok(None),
        GuardDecision::AllowOverride { hit } => {
            let mut detail = owned("allow_override matched pattern ");
            let q = debug_str(hit.pattern.as_str());
            push_str(&mut detail, q.as_str());
            Ok(Some(OverrideRecord { tool: owned(tool), pattern: hit.pattern, target, detail }))
        },
        GuardDecision::Block { hit } => {
            let mut msg = owned("sensitive app/window matched pattern ");
            let qp = debug_str(hit.pattern.as_str());
            push_str(&mut msg, qp.as_str());
            push_str(&mut msg, " (title/app: ");
            let qh = debug_str(hit.haystack.as_str());
            push_str(&mut msg, qh.as_str());
            push_str(&mut msg, "); set allow_override in sensitive config or pick another target");
            Err(HarnessError::PolicyBlocked(msg))
        },
    }
}

/// The override target naming a window.
pub open spec fn window_target(w: WindowInfo) -> OverrideTarget {
    OverrideTarget::Window { id: w.id, title: w.title, app: w.app_name }
}

/// The target is exactly the window's target.
pub open spec fn is_window_target(w: WindowInfo) -> spec_fn(OverrideTarget) -> bool {
    |t: OverrideTarget| t == window_target(w)
}

/// The target names `name`.
pub open spec fn is_name_target(name: Seq<char>) -> spec_fn(OverrideTarget) -> bool {
    |t: OverrideTarget| t matches OverrideTarget::Name(n) && n@ == name
}

/// The match for a window: its app name and title.
pub open spec fn window_match(w: WindowInfo, cfg: SensitiveConfig) -> Option<(Seq<char>, Seq<char>)> {
    sensitive_match(
        match w.app_name {
            Some(a) => a@,
            None => Seq::empty(),
        },
        w.title@,
        cfg,
    )
}

/// Block when the target window looks sensitive.
pub fn enforce_window(window: &WindowInfo, tool: &str, cfg: &SensitiveConfig) -> (r: Result<
    Option<OverrideRecord>,
    HarnessError,
>)
    ensures
        enforced(r, window_match(*window, *cfg), cfg.allow_override, tool@, is_window_target(*window)),
{
    let target = OverrideTarget::Window {
        id: window.id.clone(),
        title: window.title.clone(),
        app: clone_opt(&window.app_name),
    };
    let app: Option<&str> = match &window.app_name {
        Some(a) => Some(a.as_str()),
        None => None,
    };
    let d = decide(app, window.title.as_str(), cfg);
    enforce(d, tool, target)
}

/// Guard a free-form name (launch spec, etc.).
pub fn enforce_name(name: &str, tool: &str, cfg: &SensitiveConfig) -> (r: Result<
    Option<OverrideRecord>,
    HarnessError,
>)
    ensures
        enforced(
            r,
            sensitive_match(Seq::empty(), name@, *cfg),
            cfg.allow_override,
            tool@,
            is_name_target(name@),
        ),
{
    let target = OverrideTarget::Name(owned(name));
    let d = decide(None, name, cfg);
    enforce(d, tool, target)
}

/// Error when the harness cannot tell which app would be affected.
pub fn unclassified(tool: &str) -> (e: HarnessError)
    ensures
        e matches HarnessError::Unavailable(m) && m@ == unclassified_message(tool@),
{
    let mut m = owned("cannot classify target for sensitive-app policy (");
    push_str(&mut m, tool);
    push_str(&mut m, ") — refuse");
    HarnessError::Unavailable(m)
}

/// Message of [`unclassified`].
pub open spec fn unclassified_message(tool: Seq<char>) -> Seq<char> {
    "cannot classify target for sensitive-app policy ("@ + tool + ") — refuse"@
}

/// Windows of a list that a pattern hits, in order.
pub open spec fn hit_windows(ws: Seq<WindowInfo>, cfg: SensitiveConfig) -> Seq<WindowInfo>
    decreases ws.len(),
{
    if ws.len() == 0 {
        Seq::empty()
    } else {
        let rest = hit_windows(ws.drop_last(), cfg);
        if window_match(ws.last(), cfg) is Some {
            rest.push(ws.last())
        } else {
            rest
        }
    }
}

/// `rec` is the override line for window `w`.
pub open spec fn override_for(rec: OverrideRecord, w: WindowInfo, tool: Seq<char>, cfg: SensitiveConfig) -> bool {
    match window_match(w, cfg) {
        Some((p, _)) => rec.tool@ == tool && rec.pattern@ == p && rec.target == window_target(w)
            && rec.detail@ == override_detail(p),
        None => false,
    }
}

/// Fail closed if `windows` is empty; otherwise enforce each (any hit blocks
/// unless overridden). On success, the override lines to audit, in order.
pub fn enforce_classified(windows: &Vec<WindowInfo>, tool: &str, cfg: &SensitiveConfig) -> (r: Result<
    Vec<OverrideRecord>,
    HarnessError,
>)
    ensures
        windows@.len() == 0 ==> (r matches Err(HarnessError::Unavailable(m)) && m@
            == unclassified_message(tool@)),
        windows@.len() > 0 && cfg.allow_override ==> (r matches Ok(recs) && recs@.len()
            == hit_windows(windows@, *cfg).len() && forall|k: int|
            0 <= k < recs@.len() ==> override_for(
                #[trigger] recs@[k],
                hit_windows(windows@, *cfg)[k],
                tool@,
                *cfg,
            )),
        windows@.len() > 0 && !cfg.allow_override ==> match r {
            Ok(recs) => recs@.len() == 0 && forall|j: int|
                0 <= j < windows@.len() ==> window_match(#[trigger] windows@[j], *cfg) is None,
            Err(e) => exists|k: int|
                0 <= k < windows@.len() && (forall|j: int|
                    0 <= j < k ==> window_match(#[trigger] windows@[j], *cfg) is None) && (
                #[trigger] window_match(windows@[k], *cfg) matches Some((p, hay)) && e matches HarnessError::PolicyBlocked(msg)
                    && msg@ == block_message(p, hay)),
        },
{
    if windows.len() == 0 {
        return Err(unclassified(tool));
    }
    let mut recs: Vec<OverrideRecord> = Vec::new();
    let mut i: usize = 0;
    while i < windows.len()
        invariant
            i <= windows.len(),
            cfg.allow_override ==> recs@.len() == hit_windows(windows@.take(i as int), *cfg).len()
                && forall|k: int|
                0 <= k < recs@.len() ==> override_for(
                    #[trigger] recs@[k],
                    hit_windows(windows@.take(i as int), *cfg)[k],
                    tool@,
                    *cfg,
                ),
            !cfg.allow_override ==> recs@.len() == 0 && forall|j: int|
                0 <= j < i ==> window_match(#[trigger] windows@[j], *cfg) is None,
        decreases windows.len() - i,
    {
        let ghost pre = windows@.take(i as int);
        assert(windows@.take(i + 1).drop_last() =~= pre);
        assert(windows@.take(i + 1).last() == windows@[i as int]);
        match enforce_window(&windows[i], tool, cfg) {
            Err(e) => {
                return Err(e);
            },
            Ok(Some(rec)) => {
                recs.push(rec);
                proof {
                    let hw = hit_windows(windows@.take(i + 1), *cfg);
                    assert(hw == hit_windows(pre, *cfg).push(windows@[i as int]));
                    assert forall|k: int| 0 <= k < recs@.len() implies override_for(
                        #[trigger] recs@[k],
                        hw[k],
                        tool@,
                        *cfg,
                    ) by {
                        if k < recs@.len() - 1 {
                            assert(hw[k] == hit_windows(pre, *cfg)[k]);
                        }
                    }
                }
            },
            Ok(None) => {
                proof {
                    assert(hit_windows(windows@.take(i + 1), *cfg) == hit_windows(pre, *cfg));
                }
            },
        }
        i = i + 1;
    }
    assert(windows@.take(i as int) =~= windows@);
    Ok(recs)
}

/// Compatibility wrapper: [`enforce_window`] under the tool name `guard_window`.
pub fn guard_window(window: &WindowInfo, cfg: &SensitiveConfig) -> (r: Result<
    Option<OverrideRecord>,
    HarnessError,
>)
    ensures
        enforced(
            r,
            window_match(*window, *cfg),
            cfg.allow_override,
            "guard_window"@,
            is_window_target(*window),
        ),
{
    enforce_window(window, "guard_window", cfg)
}

/// Compatibility wrapper: [`enforce_name`] under the tool name `guard_name`.
pub fn guard_name(name: &str, cfg: &SensitiveConfig) -> (r: Result<Option<OverrideRecord>, HarnessError>)
    ensures
        enforced(
            r,
            sensitive_match(Seq::empty(), name@, *cfg),
            cfg.allow_override,
            "guard_name"@,
            is_name_target(name@),
        ),
{
    enforce_name(name, "guard_name", cfg)
}

/// The path of the sensitive-app config file under a config directory.
pub fn sensitive_config_path(config_dir: &str) -> (r: String)
    ensures
        r@ == crate::paths::path_join(config_dir@, "sensitive.toml"@),
{
    crate::paths::join(config_dir, "sensitive.toml")
}

// ── laws ───────────────────────────────────────────────────────────────

/// With `allow_override`, the denylist never blocks: every decision proceeds.
pub proof fn lemma_override_never_blocks(app: Seq<char>, title: Seq<char>, cfg: SensitiveConfig, d: GuardDecision)
    requires
        cfg.allow_override,
        decision_is(d, sensitive_match(app, title, cfg), cfg.allow_override),
    ensures
        !(d is Block),
{
}

/// A configuration that replaces the defaults with no patterns of its own
/// matches nothing.
pub proof fn lemma_empty_replacement_matches_nothing(app: Seq<char>, title: Seq<char>, cfg: SensitiveConfig)
    requires
        cfg.replace_defaults,
        cfg.deny_substrings@.len() == 0,
    ensures
        sensitive_match(app, title, cfg) is None,
{
    assert(config_patterns(cfg) =~= Seq::<Seq<char>>::empty());
}

/// Extra deny substrings only add matches: what the built-in list (or a
/// shorter list) matches, a longer list still matches, with the same pattern.
pub proof fn lemma_more_patterns_still_match(
    app: Seq<char>,
    title: Seq<char>,
    cfg: SensitiveConfig,
    more: SensitiveConfig,
)
    requires
        more.replace_defaults == cfg.replace_defaults,
        cfg.deny_substrings@.len() <= more.deny_substrings@.len(),
        forall|i: int| 0 <= i < cfg.deny_substrings@.len() ==> #[trigger] more.deny_substrings@[i]@ == cfg.deny_substrings@[i]@,
        sensitive_match(app, title, cfg) is Some,
    ensures
        sensitive_match(app, title, more) == sensitive_match(app, title, cfg),
{
    let p = config_patterns(cfg);
    let q = config_patterns(more);
    let hay = haystack_of(app, title);
    lemma_first_hit(p, hay);
    let k = first_hit(p, hay)->0;
    assert forall|j: int| 0 <= j < p.len() implies #[trigger] q[j] == p[j] by {
        let base = if cfg.replace_defaults { Seq::<Seq<char>>::empty() } else { default_patterns() };
        if j >= base.len() {
            assert(q[j] == more.deny_substrings@[j - base.len()]@);
            assert(p[j] == cfg.deny_substrings@[j - base.len()]@);
        }
    }
    assert(q.len() >= p.len());
    lemma_first_hit_at(q, hay, k);
}

/// The sensitive names every configuration that keeps the built-in list
/// guards.
pub open spec fn builtin_names() -> Seq<Seq<char>> {
    seq![
        "1password"@,
        "bitwarden"@,
        "keepass"@,
        "keepassxc"@,
        "lastpass"@,
        "gnome-keyring"@,
        "seahorse"@,
        "kwallet"@,
        "password"@,
        "credentials"@,
        "secret service"@,
        "authy"@,
        "2fa"@,
    ]
}

/// With no configuration file the denylist is exactly the thirteen built-in
/// names, in order.
pub proof fn lemma_default_denylist(cfg: SensitiveConfig)
    requires
        cfg.deny_substrings@.len() == 0,
        !cfg.replace_defaults,
    ensures
        config_patterns(cfg) == builtin_names(),
{
    assert(config_patterns(cfg) =~= builtin_names());
}

/// Unless the built-in list is replaced, an app name and title whose
/// lowercased text contains a built-in name (lowercased) always match, and
/// the tool never proceeds silently: it is blocked, or proceeds only under
/// an audited override.
pub proof fn lemma_builtin_names_guarded(app: Seq<char>, title: Seq<char>, cfg: SensitiveConfig, name: Seq<char>, d: GuardDecision)
    requires
        !cfg.replace_defaults,
        builtin_names().contains(name),
        contains(haystack_of(app, title), lowercase(name)),
        decision_is(d, sensitive_match(app, title, cfg), cfg.allow_override),
    ensures
        sensitive_match(app, title, cfg) is Some,
        !(d is Allow),
        !cfg.allow_override ==> d is Block,
{
    reveal_strlit("1password");
    reveal_strlit("bitwarden");
    reveal_strlit("keepass");
    reveal_strlit("keepassxc");
    reveal_strlit("lastpass");
    reveal_strlit("gnome-keyring");
    reveal_strlit("seahorse");
    reveal_strlit("kwallet");
    reveal_strlit("password");
    reveal_strlit("credentials");
    reveal_strlit("secret service");
    reveal_strlit("authy");
    reveal_strlit("2fa");
    let pats = config_patterns(cfg);
    let hay = haystack_of(app, title);
    let k = choose|k: int| 0 <= k < builtin_names().len() && builtin_names()[k] == name;
    assert(pats[k] == builtin_names()[k]);
    assert(name.len() > 0);
    assert(pattern_hits(pats[k], hay));
    lemma_first_hit(pats, hay);
}

/// How the window a tool would affect was looked up.
pub enum WindowLookup {
    /// No accessibility session: nothing can be classified.
    NoSession,
    /// The frontmost window (for coordinate input and full-display capture).
    Frontmost(Result<WindowInfo, HarnessError>),
    /// The window a target resolves to.
    Target(Result<WindowInfo, HarnessError>),
}

/// Classify, then guard: without a session, or when the frontmost window
/// cannot be found, the tool is refused as unclassified; a target lookup's
/// own error is passed on; a found window goes through the denylist.
pub fn gate_window(lookup: WindowLookup, tool: &str, cfg: &SensitiveConfig) -> (r: Result<Option<OverrideRecord>, HarnessError>)
    ensures
        match lookup {
            WindowLookup::NoSession => r matches Err(HarnessError::Unavailable(m)) && m@ == unclassified_message(tool@),
            WindowLookup::Frontmost(Err(_)) => r matches Err(HarnessError::Unavailable(m)) && m@ == unclassified_message(tool@),
            WindowLookup::Target(Err(e)) => r == Err::<Option<OverrideRecord>, HarnessError>(e),
            WindowLookup::Frontmost(Ok(w)) => enforced(r, window_match(w, *cfg), cfg.allow_override, tool@, is_window_target(w)),
            WindowLookup::Target(Ok(w)) => enforced(r, window_match(w, *cfg), cfg.allow_override, tool@, is_window_target(w)),
        },
{
    match lookup {
        WindowLookup::NoSession => Err(unclassified(tool)),
        WindowLookup::Frontmost(Err(_)) => Err(unclassified(tool)),
        WindowLookup::Target(Err(e)) => Err(e),
        WindowLookup::Frontmost(Ok(w)) => enforce_window(&w, tool, cfg),
        WindowLookup::Target(Ok(w)) => enforce_window(&w, tool, cfg),
    }
}

} // verus!
