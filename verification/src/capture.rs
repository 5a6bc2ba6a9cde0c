//! Screenshot capture: which backends exist, the order they are tried in,
//! the portal request and its reply, the crop rectangle of a window, and the
//! result record. The bus calls, the helper processes and the image files
//! stay with the caller.

use vstd::prelude::*;
use vstd::utf8::encode_utf8;

use crate::error::HarnessError;
use crate::input::{comma_join, comma_join_exec};
use crate::text::{decimal, owned, push_char, push_count, push_str, starts_with};
use crate::types::{Bounds, Capability, ScreenshotResult};

verus! {

// ── availability ───────────────────────────────────────────────────────

/// What the capture probe found on the session bus and `PATH`.
pub enum CaptureProbe {
    /// No session bus; the error text.
    NoBus(String),
    /// The bus daemon proxy could not be made; the error text.
    NoDaemon(String),
    /// Which backends are present.
    Found { portal: bool, shell: bool, gnome_screenshot: bool, grim: bool },
}

/// Names of the present backends, in preference order.
pub open spec fn found_backends(portal: bool, shell: bool, gss: bool, grim: bool) -> Seq<Seq<char>> {
    (if portal { seq!["xdg-desktop-portal"@] } else { Seq::empty() })
        + (if shell { seq!["gnome-shell-screenshot"@] } else { Seq::empty() })
        + (if gss { seq!["gnome-screenshot-cli"@] } else { Seq::empty() })
        + (if grim { seq!["grim"@] } else { Seq::empty() })
}

/// The capture capability from the probe: available when some backend is
/// present, with the backends listed in preference order.
pub fn capture_capability(p: CaptureProbe) -> (c: Capability)
    ensures
        c.name@ == "capture"@,
        match p {
            CaptureProbe::NoBus(e) => !c.available && (c.detail matches Some(d) && d@ == "no session bus: "@ + e@),
            CaptureProbe::NoDaemon(e) => !c.available && (c.detail matches Some(d) && d@ == "session bus: "@ + e@),
            CaptureProbe::Found { portal, shell, gnome_screenshot, grim } => {
                let names = found_backends(portal, shell, gnome_screenshot, grim);
                &&& c.available == (names.len() > 0)
                &&& names.len() == 0 ==> (c.detail matches Some(d)
                    && d@ == "no portal / Shell.Screenshot / gnome-screenshot / grim detected"@)
                &&& names.len() > 0 ==> (c.detail matches Some(d) && d@ == "backends: "@ + comma_join(names))
            },
        },
{
    match p {
        CaptureProbe::NoBus(e) => {
            let mut d = owned("no session bus: ");
            push_str(&mut d, e.as_str());
            Capability { name: owned("capture"), available: false, detail: Some(d) }
        },
        CaptureProbe::NoDaemon(e) => {
            let mut d = owned("session bus: ");
            push_str(&mut d, e.as_str());
            Capability { name: owned("capture"), available: false, detail: Some(d) }
        },
        CaptureProbe::Found { portal, shell, gnome_screenshot, grim } => {
            let mut names: Vec<&str> = Vec::new();
            if portal {
                names.push("xdg-desktop-portal");
            }
            if shell {
                names.push("gnome-shell-screenshot");
            }
            if gnome_screenshot {
                names.push("gnome-screenshot-cli");
            }
            if grim {
                names.push("grim");
            }
            assert(names@.map_values(|s: &str| s@) =~= found_backends(portal, shell, gnome_screenshot, grim));
            if names.len() == 0 {
                Capability {
                    name: owned("capture"),
                    available: false,
                    detail: Some(owned("no portal / Shell.Screenshot / gnome-screenshot / grim detected")),
                }
            } else {
                let mut d = owned("backends: ");
                let j = comma_join_exec(&names);
                push_str(&mut d, j.as_str());
                Capability { name: owned("capture"), available: true, detail: Some(d) }
            }
        },
    }
}

// ── backends ───────────────────────────────────────────────────────────

/// A full-screen capture backend.
#[derive(Debug, Clone, Copy, PartialEq, Eq)]
pub enum CaptureBackend {
    /// `org.freedesktop.portal.Screenshot`.
    Portal,
    /// `org.gnome.Shell.Screenshot`.
    Shell,
    /// The `gnome-screenshot -f` command.
    GnomeScreenshotCli,
    /// The `grim` command.
    Grim,
}

/// The order backends are tried in: portal, GNOME Shell, then the commands
/// that are installed.
pub open spec fn capture_order(has_gnome_screenshot: bool, has_grim: bool) -> Seq<CaptureBackend> {
    seq![CaptureBackend::Portal, CaptureBackend::Shell]
        + (if has_gnome_screenshot { seq![CaptureBackend::GnomeScreenshotCli] } else { Seq::empty() })
        + (if has_grim { seq![CaptureBackend::Grim] } else { Seq::empty() })
}

/// Backends to try, in order.
pub fn capture_plan(has_gnome_screenshot: bool, has_grim: bool) -> (r: Vec<CaptureBackend>)
    ensures
        r@ == capture_order(has_gnome_screenshot, has_grim),
{
    let mut r: Vec<CaptureBackend> = Vec::new();
    r.push(CaptureBackend::Portal);
    r.push(CaptureBackend::Shell);
    if has_gnome_screenshot {
        r.push(CaptureBackend::GnomeScreenshotCli);
    }
    if has_grim {
        r.push(CaptureBackend::Grim);
    }
    assert(r@ =~= capture_order(has_gnome_screenshot, has_grim));
    r
}

/// The name a backend is reported under.
pub open spec fn backend_label(b: CaptureBackend) -> Seq<char> {
    match b {
        CaptureBackend::Portal => "xdg-desktop-portal"@,
        CaptureBackend::Shell => "gnome-shell-screenshot"@,
        CaptureBackend::GnomeScreenshotCli => "gnome-screenshot-cli"@,
        CaptureBackend::Grim => "grim"@,
    }
}

/// The name a backend is reported under.
pub fn backend_name(b: CaptureBackend) -> (r: String)
    ensures
        r@ == backend_label(b),
{
    match b {
        CaptureBackend::Portal => owned("xdg-desktop-portal"),
        CaptureBackend::Shell => owned("gnome-shell-screenshot"),
        CaptureBackend::GnomeScreenshotCli => owned("gnome-screenshot-cli"),
        CaptureBackend::Grim => owned("grim"),
    }
}

/// The error when every backend failed.
pub fn no_backend_error() -> (e: HarnessError)
    ensures
        e matches HarnessError::Unavailable(m)
            && m@ == "no screenshot backend succeeded (tried portal, gnome-shell, gnome-screenshot, grim)"@,
{
    HarnessError::Unavailable(owned("no screenshot backend succeeded (tried portal, gnome-shell, gnome-screenshot, grim)"))
}

// ── the portal request ─────────────────────────────────────────────────

/// 32 lowercase hexadecimal digits.
pub open spec fn simple_uuid_text(s: Seq<char>) -> bool {
    &&& s.len() == 32
    &&& forall|i: int| 0 <= i < 32 ==> (('0' <= #[trigger] s[i] && s[i] <= '9') || ('a' <= s[i] && s[i] <= 'f'))
}

/// `uuid::Uuid::new_v4().simple()` as text: a random version-4 UUID in the
/// simple format, which the crate documents as 32 lowercase hexadecimal
/// digits. Which digits come out is left open.
#[verifier::external_body]
fn random_uuid_simple() -> (r: String)
    ensures
        simple_uuid_text(r@),
{
    uuid::Uuid::new_v4().simple().to_string()
}

/// A fresh request token: `adh` followed by a random simple UUID.
pub fn portal_token() -> (r: String)
    ensures
        r@.len() == 35,
        r@.take(3) == "adh"@,
        simple_uuid_text(r@.skip(3)),
{
    let u = random_uuid_simple();
    let mut r = owned("adh");
    push_str(&mut r, u.as_str());
    proof {
        reveal_strlit("adh");
        assert(r@.take(3) =~= "adh"@);
        assert(r@.skip(3) =~= u@);
    }
    r
}

/// A bus unique name as it appears in a request path: leading `:` removed
/// and every `.` replaced by `_`.
pub open spec fn request_sender(unique: Seq<char>) -> Seq<char> {
    dots_to_underscores(crate::text::trim_start_by(unique, colon()))
}

/// Matches `:`.
pub open spec fn colon() -> spec_fn(char) -> bool {
    |c: char| c == ':'
}

/// Every `.` replaced by `_`.
pub open spec fn dots_to_underscores(t: Seq<char>) -> Seq<char> {
    t.map_values(|c: char| if c == '.' { '_' } else { c })
}

/// The object path of the portal request with handle `token`, made by the
/// connection with unique name `unique`.
pub open spec fn request_path_of(unique: Seq<char>, token: Seq<char>) -> Seq<char> {
    "/org/freedesktop/portal/desktop/request/"@ + request_sender(unique) + "/"@ + token
}

/// Object path of the portal request this connection makes with `token`.
pub fn portal_request_path(unique: &str, token: &str) -> (r: String)
    ensures
        r@ == request_path_of(unique@, token@),
{
    let v = crate::text::chars_of(unique);
    let mut k: usize = 0;
    while k < v.len() && v[k] == ':'
        invariant
            k <= v@.len(),
            forall|j: int| 0 <= j < k ==> v@[j] == ':',
        decreases v.len() - k,
    {
        k = k + 1;
    }
    proof {
        crate::text::lemma_trim_start_skip(v@, colon(), k as int);
    }
    let mut r = owned("/org/freedesktop/portal/desktop/request/");
    let ghost r0 = r@;
    let ghost t = v@.skip(k as int);
    let mut i: usize = k;
    while i < v.len()
        invariant
            k <= i <= v@.len(),
            t == v@.skip(k as int),
            r@ == r0 + dots_to_underscores(t.take(i - k)),
        decreases v.len() - i,
    {
        let c = if v[i] == '.' { '_' } else { v[i] };
        push_char(&mut r, c);
        proof {
            assert(t.take(i + 1 - k) =~= t.take(i - k).push(v@[i as int]));
            assert(dots_to_underscores(t.take(i + 1 - k)) =~= dots_to_underscores(t.take(i - k)).push(c));
        }
        i = i + 1;
    }
    assert(t.take(v@.len() - k) =~= t);
    push_str(&mut r, "/");
    push_str(&mut r, token);
    assert(r@ =~= request_path_of(unique@, token@));
    r
}

/// The message is the portal's `Response` signal for this request: a signal
/// on interface `org.freedesktop.portal.Request`, member `Response`, at the
/// expected request path or at the handle the portal returned.
pub fn is_request_response(is_signal: bool, interface: Option<&str>, member: Option<&str>, path: &str, request_path: &str, handle: &str) -> (r: bool)
    ensures
        r == (is_signal && (interface matches Some(i) && i@ == "org.freedesktop.portal.Request"@)
            && (member matches Some(m) && m@ == "Response"@) && (path@ == request_path@ || path@ == handle@)),
{
    if !is_signal {
        return false;
    }
    let iface_ok = match interface {
        Some(i) => crate::text::str_eq(i, "org.freedesktop.portal.Request"),
        None => false,
    };
    let member_ok = match member {
        Some(m) => crate::text::str_eq(m, "Response"),
        None => false,
    };
    iface_ok && member_ok && (crate::text::str_eq(path, request_path) || crate::text::str_eq(path, handle))
}

// ── the portal reply ───────────────────────────────────────────────────

/// Value of one hexadecimal digit byte.
pub open spec fn hex_value(c: u8) -> Option<u8> {
    if 48 <= c <= 57 {
        Some((c - 48) as u8)
    } else if 97 <= c <= 102 {
        Some((c - 97 + 10) as u8)
    } else if 65 <= c <= 70 {
        Some((c - 65 + 10) as u8)
    } else {
        None
    }
}

/// Value of one hexadecimal digit byte.
pub fn from_hex(c: u8) -> (r: Option<u8>)
    ensures
        r == hex_value(c),
{
    if 48 <= c && c <= 57 {
        Some(c - 48)
    } else if 97 <= c && c <= 102 {
        Some(c - 97 + 10)
    } else if 65 <= c && c <= 70 {
        Some(c - 65 + 10)
    } else {
        None
    }
}

/// Percent-decoding of bytes, each resulting byte read as the character with
/// that code (`%` followed by two hex digits is one byte; any other byte,
/// and a `%` without two hex digits after it, stands for itself).
pub open spec fn pct_decode(b: Seq<u8>) -> Seq<char>
    decreases b.len(),
{
    if b.len() == 0 {
        Seq::empty()
    } else if b[0] == 37 && b.len() > 2 && hex_value(b[1]) is Some && hex_value(b[2]) is Some {
        seq![((hex_value(b[1])->Some_0 * 16 + hex_value(b[2])->Some_0) as u8) as char] + pct_decode(b.skip(3))
    } else {
        seq![b[0] as char] + pct_decode(b.skip(1))
    }
}

/// Bytes with no `%` among them decode to themselves, byte by byte.
pub proof fn lemma_pct_decode_plain(b: Seq<u8>)
    requires
        forall|i: int| 0 <= i < b.len() ==> #[trigger] b[i] != 37,
    ensures
        pct_decode(b) == b.map_values(|x: u8| x as char),
    decreases b.len(),
{
    if b.len() > 0 {
        let t = b.skip(1);
        assert forall|i: int| 0 <= i < t.len() implies #[trigger] t[i] != 37 by {
            assert(t[i] == b[i + 1]);
        }
        lemma_pct_decode_plain(t);
        assert(pct_decode(b) =~= b.map_values(|x: u8| x as char));
    } else {
        assert(pct_decode(b) =~= b.map_values(|x: u8| x as char));
    }
}

/// A `%` followed by two hex digits decodes to the byte they spell.
pub proof fn lemma_pct_decode_escape(hi: u8, lo: u8, rest: Seq<u8>)
    requires
        hex_value(hi) is Some,
        hex_value(lo) is Some,
    ensures
        pct_decode(seq![37u8, hi, lo] + rest)
            == seq![((hex_value(hi)->Some_0 * 16 + hex_value(lo)->Some_0) as u8) as char] + pct_decode(rest),
{
    let b = seq![37u8, hi, lo] + rest;
    assert(b[0] == 37u8 && b[1] == hi && b[2] == lo);
    assert(b.skip(3) =~= rest);
}

/// Percent-decode the UTF-8 bytes of `s`.
pub fn percent_decode(s: &str) -> (r: String)
    ensures
        r@ == pct_decode(encode_utf8(s@)),
{
    let b = s.as_bytes();
    let ghost all = b@;
    let mut out = String::new();
    let mut i: usize = 0;
    assert(all.skip(0) =~= all);
    while i < b.len()
        invariant
            i <= b@.len(),
            all == b@,
            out@ + pct_decode(all.skip(i as int)) == pct_decode(all),
        decreases b.len() - i,
    {
        let ghost rest = all.skip(i as int);
        assert(rest[0] == b@[i as int]);
        if b[i] == 37 && b.len() - i > 2 {
            assert(rest[1] == b@[i + 1] && rest[2] == b@[i + 2]);
            let h = from_hex(b[i + 1]);
            let l = from_hex(b[i + 2]);
            match (h, l) {
                (Some(h), Some(l)) => {
                    let c = (h * 16 + l) as char;
                    push_char(&mut out, c);
                    assert(rest.skip(3) =~= all.skip(i + 3));
                    assert(out@ + pct_decode(all.skip(i + 3)) =~= pct_decode(all));
                    i = i + 3;
                    continue;
                },
                _ => {},
            }
        }
        push_char(&mut out, b[i] as char);
        assert(rest.skip(1) =~= all.skip(i + 1));
        assert(out@ + pct_decode(all.skip(i + 1)) =~= pct_decode(all));
        i = i + 1;
    }
    assert(pct_decode(all.skip(i as int)) =~= Seq::<char>::empty());
    assert(out@ =~= pct_decode(all));
    out
}

/// The file named by a portal `file://` URI, percent-decoded; an error for
/// any other URI.
pub fn uri_to_path(uri: &str) -> (r: Result<String, HarnessError>)
    ensures
        starts_with(uri@, "file://"@) ==> (r matches Ok(p) && p@ == pct_decode(encode_utf8(uri@.skip(7)))),
        !starts_with(uri@, "file://"@) ==> (r matches Err(HarnessError::Other(m)) && m@ == "unexpected portal uri: "@ + uri@),
{
    let v = crate::text::chars_of(uri);
    let p = crate::text::chars_of("file://");
    proof {
        reveal_strlit("file://");
    }
    if crate::text::starts_with_chars(&v, &p) {
        let rest = crate::text::string_of(&crate::text::slice_chars(&v, 7, v.len()));
        assert(rest@ =~= uri@.skip(7));
        Ok(percent_decode(rest.as_str()))
    } else {
        let mut m = owned("unexpected portal uri: ");
        push_str(&mut m, uri);
        Err(HarnessError::Other(m))
    }
}

/// The file the portal's `Response` points at: response code 0 and a `uri`
/// entry that is a `file://` URI; otherwise the error. `uri` is the entry's
/// text, or the error met reading it, or `None` when the entry is missing.
pub fn portal_response(code: u32, uri: Option<Result<String, HarnessError>>) -> (r: Result<String, HarnessError>)
    ensures
        code != 0 ==> (r matches Err(HarnessError::Unavailable(m))
            && m@ == "portal screenshot cancelled or failed (response code "@ + decimal(code as nat) + ")"@),
        code == 0 && uri is None ==> (r matches Err(HarnessError::Unavailable(m)) && m@ == "portal Response missing uri"@),
        code == 0 ==> (uri matches Some(Err(e)) ==> r == Err::<String, HarnessError>(e)),
        code == 0 ==> (uri matches Some(Ok(u)) ==> {
            &&& starts_with(u@, "file://"@) ==> (r matches Ok(p) && p@ == pct_decode(encode_utf8(u@.skip(7))))
            &&& !starts_with(u@, "file://"@) ==> (r matches Err(HarnessError::Other(m)) && m@ == "unexpected portal uri: "@ + u@)
        }),
{
    if code != 0 {
        let mut m = owned("portal screenshot cancelled or failed (response code ");
        push_count(&mut m, code as usize);
        push_str(&mut m, ")");
        return Err(HarnessError::Unavailable(m));
    }
    match uri {
        None => Err(HarnessError::Unavailable(owned("portal Response missing uri"))),
        Some(Err(e)) => Err(e),
        Some(Ok(u)) => uri_to_path(u.as_str()),
    }
}

// ── cropping and the result ────────────────────────────────────────────

/// The crop of an image of `iw`×`ih` pixels to `b`: the origin clamped at
/// zero must lie inside the image, the size is cut at the image edge, and
/// an empty crop is refused. The result is `(x, y, width, height)`.
pub fn crop_rect(b: Bounds, iw: u32, ih: u32) -> (r: Result<(u32, u32, u32, u32), HarnessError>)
    ensures
        ({
            let x: int = if b.x < 0 { 0 } else { b.x as int };
            let y: int = if b.y < 0 { 0 } else { b.y as int };
            let w: int = if b.width <= iw - x { b.width as int } else { iw - x };
            let h: int = if b.height <= ih - y { b.height as int } else { ih - y };
            &&& (x >= iw || y >= ih) ==> (r matches Err(HarnessError::Other(m)) && m@ == "crop origin ("@ + decimal(x as nat)
                + ","@ + decimal(y as nat) + ") outside image "@ + decimal(iw as nat) + "x"@ + decimal(ih as nat))
            &&& (x < iw && y < ih && (w == 0 || h == 0)) ==> (r matches Err(HarnessError::Other(m)) && m@ == "zero-sized crop"@)
            &&& (x < iw && y < ih && w > 0 && h > 0) ==> r == Ok::<(u32, u32, u32, u32), HarnessError>((x as u32, y as u32, w as u32, h as u32))
        }),
        r matches Ok((x, y, w, h)) ==> 0 < w && 0 < h && x + w <= iw && y + h <= ih,
{
    let x: u32 = if b.x < 0 { 0 } else { b.x as u32 };
    let y: u32 = if b.y < 0 { 0 } else { b.y as u32 };
    if x >= iw || y >= ih {
        let mut m = owned("crop origin (");
        push_count(&mut m, x as usize);
        push_str(&mut m, ",");
        push_count(&mut m, y as usize);
        push_str(&mut m, ") outside image ");
        push_count(&mut m, iw as usize);
        push_str(&mut m, "x");
        push_count(&mut m, ih as usize);
        return Err(HarnessError::Other(m));
    }
    let w: u32 = if b.width <= iw - x { b.width } else { iw - x };
    let h: u32 = if b.height <= ih - y { b.height } else { ih - y };
    if w == 0 || h == 0 {
        return Err(HarnessError::Other(owned("zero-sized crop")));
    }
    Ok((x, y, w, h))
}

/// `chrono::Utc::now().format("%Y%m%dT%H%M%S%.3f")`: the current UTC time as
/// text. It depends on the clock, so nothing is stated of it.
#[verifier::external_body]
fn utc_stamp() -> String {
    chrono::Utc::now().format("%Y%m%dT%H%M%S%.3f").to_string()
}

/// A fresh screenshot file name: `shot-`, the current UTC time, `.png`.
pub fn shot_file_name() -> (r: String)
    ensures
        exists|t: Seq<char>| r@ == "shot-"@ + t + ".png"@,
{
    let t = utc_stamp();
    let mut r = owned("shot-");
    push_str(&mut r, t.as_str());
    push_str(&mut r, ".png");
    assert(r@ == "shot-"@ + t@ + ".png"@);
    r
}

/// Scope label of a screenshot: `window` when window bounds were found,
/// else `display`; `+full_fallback` added when the crop failed.
pub open spec fn scope_label(windowed: bool, crop_failed: bool) -> Seq<char> {
    (if windowed { "window"@ } else { "display"@ }) + if crop_failed { "+full_fallback"@ } else { Seq::empty() }
}

/// The record of a saved screenshot.
pub fn screenshot_result(path: String, backend: String, crop: Option<Bounds>, crop_failed: bool, bytes: u64) -> (r: ScreenshotResult)
    ensures
        r.path == path,
        r.backend == backend,
        r.bytes == bytes,
        r.bounds == crop,
        r.scope@ == scope_label(crop is Some, crop is Some && crop_failed),
{
    let mut scope = if crop.is_some() { owned("window") } else { owned("display") };
    if crop.is_some() && crop_failed {
        push_str(&mut scope, "+full_fallback");
    }
    proof {
        reveal_strlit("");
    }
    assert(scope@ =~= scope_label(crop is Some, crop is Some && crop_failed));
    ScreenshotResult { path, scope, backend, bytes, bounds: crop }
}

/// Audit detail of a screenshot: its size.
pub fn shot_audit_detail(bytes: u64) -> (r: String)
    ensures
        r@ == decimal(bytes as nat) + " bytes"@,
{
    let mut r = String::new();
    crate::text::push_decimal(&mut r, bytes);
    push_str(&mut r, " bytes");
    assert(r@ =~= decimal(bytes as nat) + " bytes"@);
    r
}

/// The crop region for a target: the element's or window's bounds, or the
/// error naming what had none (`element` tells which).
pub fn capture_bounds(element: bool, id: &str, bounds: Option<Bounds>) -> (r: Result<Bounds, HarnessError>)
    ensures
        bounds matches Some(b) ==> r == Ok::<Bounds, HarnessError>(b),
        bounds is None && element ==> (r matches Err(HarnessError::Unavailable(m)) && m@ == "no bounds for "@ + id@),
        bounds is None && !element ==> (r matches Err(HarnessError::Unavailable(m)) && m@ == "window "@ + id@ + " has no bounds"@),
{
    match bounds {
        Some(b) => Ok(b),
        None => {
            if element {
                let mut m = owned("no bounds for ");
                push_str(&mut m, id);
                Err(HarnessError::Unavailable(m))
            } else {
                let mut m = owned("window ");
                push_str(&mut m, id);
                push_str(&mut m, " has no bounds");
                Err(HarnessError::Unavailable(m))
            }
        },
    }
}

} // verus!
