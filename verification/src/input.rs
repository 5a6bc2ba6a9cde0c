//! Coordinate / real-input backend selection (fallback when AT-SPI actions
//! are insufficient).
//!
//! Real mouse/keyboard events are injected by external tools when present:
//! `ydotool` (Wayland-friendly uinput), `xdotool` (X11), `wtype` (Wayland
//! text only). The tool lookup and the process runs are the caller's; the
//! choice of tool and the exact command lines are decided here.

use vstd::prelude::*;

use crate::audit::typed_chars_detail;
use crate::error::HarnessError;
use crate::text::{decimal, owned, push_decimal, push_str, signed_decimal, signed_decimal_string, views};
use crate::types::{Capability, InputBackendKind};
use vstd::string::StrSliceExecFns;

verus! {

/// Which input tools are on `PATH`.
#[derive(Debug, Clone, Copy, PartialEq, Eq)]
pub struct InputTools {
    pub ydotool: bool,
    pub xdotool: bool,
    pub wtype: bool,
}

/// One external command line.
#[derive(Debug, Clone, PartialEq, Eq)]
pub struct CommandLine {
    pub program: String,
    pub args: Vec<String>,
}

/// A command line as plain values.
pub open spec fn cmd_view(c: CommandLine) -> (Seq<char>, Seq<Seq<char>>) {
    (c.program@, views(c.args@))
}

/// Names of the tools found, in the order ydotool, xdotool, wtype.
pub open spec fn found_tools(t: InputTools) -> Seq<Seq<char>> {
    (if t.ydotool { seq!["ydotool"@] } else { Seq::empty() }) + (if t.xdotool {
        seq!["xdotool"@]
    } else {
        Seq::empty()
    }) + (if t.wtype { seq!["wtype"@] } else { Seq::empty() })
}

/// Detail when no input tool is installed.
pub open spec fn no_input_detail() -> Seq<char> {
    "no ydotool/xdotool/wtype in PATH — element AT-SPI actions still work; install ydotool for coordinate fallback"@
}

/// Detail when some input tool is installed.
pub open spec fn input_detail(names: Seq<char>) -> Seq<char> {
    "coordinate/type fallback: "@ + names + " (prefer AT-SPI do_action/type_into; PATH probe only)"@
}

/// `names` joined with `", "`.
pub open spec fn comma_join(names: Seq<Seq<char>>) -> Seq<char>
    decreases names.len(),
{
    if names.len() == 0 {
        Seq::empty()
    } else if names.len() == 1 {
        names[0]
    } else {
        comma_join(names.drop_last()) + ", "@ + names.last()
    }
}

pub(crate) fn comma_join_exec(names: &Vec<&str>) -> (r: String)
    ensures
        r@ == comma_join(names@.map_values(|s: &str| s@)),
{
    let mut r = String::new();
    let mut i: usize = 0;
    while i < names.len()
        invariant
            i <= names.len(),
            r@ == comma_join(names@.take(i as int).map_values(|s: &str| s@)),
        decreases names.len() - i,
    {
        let ghost pre = names@.take(i as int).map_values(|s: &str| s@);
        if i > 0 {
            push_str(&mut r, ", ");
        }
        push_str(&mut r, names[i]);
        proof {
            let now = names@.take(i + 1).map_values(|s: &str| s@);
            assert(now =~= pre.push(names@[i as int]@));
            assert(now.drop_last() =~= pre);
            assert(r@ =~= comma_join(now));
        }
        i = i + 1;
    }
    assert(names@.take(i as int) =~= names@);
    r
}

/// Probe which input backends are installed (not whether they can open uinput).
pub fn probe_input(tools: InputTools) -> (c: Capability)
    ensures
        c.name@ == "input"@,
        c.available == (tools.ydotool || tools.xdotool || tools.wtype),
        !c.available ==> (c.detail matches Some(d) && d@ == no_input_detail()),
        c.available ==> (c.detail matches Some(d) && d@ == input_detail(comma_join(found_tools(tools)))),
{
    let mut names: Vec<&str> = Vec::new();
    if tools.ydotool {
        names.push("ydotool");
    }
    if tools.xdotool {
        names.push("xdotool");
    }
    if tools.wtype {
        names.push("wtype");
    }
    assert(names@.map_values(|s: &str| s@) =~= found_tools(tools));
    if names.len() == 0 {
        Capability {
            name: owned("input"),
            available: false,
            detail: Some(owned("no ydotool/xdotool/wtype in PATH — element AT-SPI actions still work; install ydotool for coordinate fallback")),
        }
    } else {
        let mut d = owned("coordinate/type fallback: ");
        let j = comma_join_exec(&names);
        push_str(&mut d, j.as_str());
        push_str(&mut d, " (prefer AT-SPI do_action/type_into; PATH probe only)");
        Capability { name: owned("input"), available: true, detail: Some(d) }
    }
}

/// Mouse backend: ydotool, else xdotool.
pub fn pick_mouse_backend(tools: InputTools) -> (r: Result<InputBackendKind, HarnessError>)
    ensures
        tools.ydotool ==> r == Ok::<InputBackendKind, HarnessError>(InputBackendKind::Ydotool),
        !tools.ydotool && tools.xdotool ==> r == Ok::<InputBackendKind, HarnessError>(InputBackendKind::Xdotool),
        !tools.ydotool && !tools.xdotool ==> (r matches Err(HarnessError::Unavailable(m)) && m@
            == "no mouse input backend (install ydotool or xdotool); prefer do_action on a11y elements"@),
{
    if tools.ydotool {
        Ok(InputBackendKind::Ydotool)
    } else if tools.xdotool {
        Ok(InputBackendKind::Xdotool)
    } else {
        Err(HarnessError::Unavailable(owned("no mouse input backend (install ydotool or xdotool); prefer do_action on a11y elements")))
    }
}

/// Typing backend: ydotool, else wtype, else xdotool.
pub fn pick_type_backend(tools: InputTools) -> (r: Result<InputBackendKind, HarnessError>)
    ensures
        tools.ydotool ==> r == Ok::<InputBackendKind, HarnessError>(InputBackendKind::Ydotool),
        !tools.ydotool && tools.wtype ==> r == Ok::<InputBackendKind, HarnessError>(InputBackendKind::Wtype),
        !tools.ydotool && !tools.wtype && tools.xdotool ==> r == Ok::<InputBackendKind, HarnessError>(InputBackendKind::Xdotool),
        !tools.ydotool && !tools.wtype && !tools.xdotool ==> (r matches Err(HarnessError::Unavailable(m)) && m@
            == "no type backend (install ydotool, wtype, or xdotool); prefer type_into on EditableText"@),
{
    if tools.ydotool {
        Ok(InputBackendKind::Ydotool)
    } else if tools.wtype {
        Ok(InputBackendKind::Wtype)
    } else if tools.xdotool {
        Ok(InputBackendKind::Xdotool)
    } else {
        Err(HarnessError::Unavailable(owned("no type backend (install ydotool, wtype, or xdotool); prefer type_into on EditableText")))
    }
}

/// Key backend: the mouse backend, else wtype.
pub fn pick_key_backend(tools: InputTools) -> (r: Result<InputBackendKind, HarnessError>)
    ensures
        tools.ydotool ==> r == Ok::<InputBackendKind, HarnessError>(InputBackendKind::Ydotool),
        !tools.ydotool && tools.xdotool ==> r == Ok::<InputBackendKind, HarnessError>(InputBackendKind::Xdotool),
        !tools.ydotool && !tools.xdotool && tools.wtype ==> r == Ok::<InputBackendKind, HarnessError>(InputBackendKind::Wtype),
        !tools.ydotool && !tools.xdotool && !tools.wtype ==> (r matches Err(HarnessError::Unavailable(m)) && m@
            == "no key backend (ydotool/xdotool/wtype)"@),
{
    match pick_mouse_backend(tools) {
        Ok(b) => Ok(b),
        Err(_) => if tools.wtype {
            Ok(InputBackendKind::Wtype)
        } else {
            Err(HarnessError::Unavailable(owned("no key backend (ydotool/xdotool/wtype)")))
        },
    }
}

/// `Debug` name of a backend.
pub open spec fn backend_name(b: InputBackendKind) -> Seq<char> {
    match b {
        InputBackendKind::Ydotool => "Ydotool"@,
        InputBackendKind::Xdotool => "Xdotool"@,
        InputBackendKind::Wtype => "Wtype"@,
        InputBackendKind::Absent => "None"@,
    }
}

/// `Debug` name of a backend.
pub fn backend_debug(b: InputBackendKind) -> (r: String)
    ensures
        r@ == backend_name(b),
{
    owned(match b {
        InputBackendKind::Ydotool => "Ydotool",
        InputBackendKind::Xdotool => "Xdotool",
        InputBackendKind::Wtype => "Wtype",
        InputBackendKind::Absent => "None",
    })
}

fn line(program: &str, args: Vec<String>) -> (c: CommandLine)
    ensures
        c.program@ == program@,
        c.args == args,
{
    CommandLine { program: owned(program), args }
}

/// The command lines that move the pointer to `(x, y)`.
pub open spec fn mouse_move_lines(b: InputBackendKind, x: i32, y: i32) -> Seq<(Seq<char>, Seq<Seq<char>>)> {
    match b {
        InputBackendKind::Ydotool => seq![("ydotool"@, seq!["mousemove"@, "--absolute"@, signed_decimal(x as int), signed_decimal(y as int)])],
        InputBackendKind::Xdotool => seq![("xdotool"@, seq!["mousemove"@, "--sync"@, signed_decimal(x as int), signed_decimal(y as int)])],
        _ => Seq::empty(),
    }
}

/// Plan a pointer move: the backend and its command lines.
pub fn plan_mouse_move(tools: InputTools, x: i32, y: i32) -> (r: Result<(InputBackendKind, Vec<CommandLine>), HarnessError>)
    ensures
        match pick_mouse_backend_spec(tools) {
            Some(b) => r matches Ok((b2, cmds)) && b2 == b && cmds@.map_values(|c: CommandLine| cmd_view(c)) == mouse_move_lines(b, x, y),
            None => r matches Err(HarnessError::Unavailable(_)),
        },
{
    let b = pick_mouse_backend(tools)?;
    let mut args: Vec<String> = Vec::new();
    args.push(owned("mousemove"));
    let is_y = match b {
        InputBackendKind::Ydotool => true,
        _ => false,
    };
    args.push(owned(if is_y { "--absolute" } else { "--sync" }));
    args.push(signed_decimal_string(x as i64));
    args.push(signed_decimal_string(y as i64));
    let c = line(if is_y { "ydotool" } else { "xdotool" }, args);
    let mut cmds: Vec<CommandLine> = Vec::new();
    cmds.push(c);
    proof {
        let want = mouse_move_lines(b, x, y);
        assert(want.len() == 1);
        assert(views(c.args@) =~= want[0].1);
        assert(cmd_view(c) == want[0]);
    }
    assert(cmds@.map_values(|c: CommandLine| cmd_view(c)) =~= mouse_move_lines(b, x, y));
    Ok((b, cmds))
}

/// The mouse backend the tools allow.
pub open spec fn pick_mouse_backend_spec(t: InputTools) -> Option<InputBackendKind> {
    if t.ydotool {
        Some(InputBackendKind::Ydotool)
    } else if t.xdotool {
        Some(InputBackendKind::Xdotool)
    } else {
        None
    }
}

/// ydotool button masks: left `0xC0`, middle `0xC1`, right `0xC2`.
pub open spec fn click_mask(btn: u8) -> Seq<char> {
    if btn == 1 {
        "0xC0"@
    } else if btn == 2 {
        "0xC1"@
    } else {
        "0xC2"@
    }
}

/// The command lines that click button `btn` at `(x, y)`.
pub open spec fn mouse_click_lines(b: InputBackendKind, x: i32, y: i32, btn: u8) -> Seq<(Seq<char>, Seq<Seq<char>>)> {
    match b {
        InputBackendKind::Ydotool => seq![
            ("ydotool"@, seq!["mousemove"@, "--absolute"@, signed_decimal(x as int), signed_decimal(y as int)]),
            ("ydotool"@, seq!["click"@, click_mask(btn)]),
        ],
        InputBackendKind::Xdotool => seq![
            ("xdotool"@, seq!["mousemove"@, "--sync"@, signed_decimal(x as int), signed_decimal(y as int), "click"@, decimal(btn as nat)]),
        ],
        _ => Seq::empty(),
    }
}

/// A ydotool click moves to the point and then clicks with the button's
/// mask: left `0xC0`, middle `0xC1`, right `0xC2`; different buttons never
/// click with the same mask.
pub proof fn lemma_ydotool_click_masks(x: i32, y: i32, b1: u8, b2: u8)
    requires
        1 <= b1 <= 3,
        1 <= b2 <= 3,
    ensures
        mouse_click_lines(InputBackendKind::Ydotool, x, y, 1)[1] == ("ydotool"@, seq!["click"@, "0xC0"@]),
        mouse_click_lines(InputBackendKind::Ydotool, x, y, 2)[1] == ("ydotool"@, seq!["click"@, "0xC1"@]),
        mouse_click_lines(InputBackendKind::Ydotool, x, y, 3)[1] == ("ydotool"@, seq!["click"@, "0xC2"@]),
        b1 != b2 ==> mouse_click_lines(InputBackendKind::Ydotool, x, y, b1)[1] != mouse_click_lines(InputBackendKind::Ydotool, x, y, b2)[1],
{
    reveal_strlit("0xC0");
    reveal_strlit("0xC1");
    reveal_strlit("0xC2");
    if b1 != b2 {
        let m1 = mouse_click_lines(InputBackendKind::Ydotool, x, y, b1)[1].1[1];
        let m2 = mouse_click_lines(InputBackendKind::Ydotool, x, y, b2)[1].1[1];
        assert(m1[3] != m2[3]);
    }
}

/// What a text entry through real key events reports in its result and its
/// audit line: the backend's name, the number of characters typed, and the
/// detail. The text itself is not part of it.
pub struct TypedReport {
    pub backend: String,
    pub chars: usize,
    pub detail: String,
}

/// The report of typing `n` characters through backend `b`.
pub open spec fn typed_report_view(b: InputBackendKind, n: nat) -> (Seq<char>, nat, Seq<char>) {
    (backend_name(b), n, backend_name(b) + " typed "@ + decimal(n) + " char(s)"@)
}

/// The report of typing `text` through backend `b`.
pub fn typed_report(b: InputBackendKind, text: &str) -> (r: TypedReport)
    ensures
        (r.backend@, r.chars as nat, r.detail@) == typed_report_view(b, text@.len()),
{
    let backend = backend_debug(b);
    let chars = text.unicode_len();
    let detail = typed_chars_detail(backend.as_str(), chars);
    TypedReport { backend, chars, detail }
}

/// Typing two texts of the same length through the same backend reports the
/// same backend, count and detail: what is recorded depends on the text only
/// through its length.
pub proof fn lemma_typed_report_by_length(b: InputBackendKind, t1: Seq<char>, t2: Seq<char>)
    requires
        t1.len() == t2.len(),
    ensures
        typed_report_view(b, t1.len()) == typed_report_view(b, t2.len()),
{
}

/// Message for an unsupported mouse button.
pub open spec fn bad_button_message(button: u8) -> Seq<char> {
    "unsupported mouse button "@ + decimal(button as nat) + " (use 1=left 2=middle 3=right)"@
}

/// Plan a click: the backend (checked first), then the button (1 = left,
/// 2 = middle, 3 = right), then the command lines.
pub fn plan_mouse_click(tools: InputTools, x: i32, y: i32, button: u8) -> (r: Result<(InputBackendKind, Vec<CommandLine>), HarnessError>)
    ensures
        match pick_mouse_backend_spec(tools) {
            None => r matches Err(HarnessError::Unavailable(_)),
            Some(b) => if 1 <= button <= 3 {
                r matches Ok((b2, cmds)) && b2 == b && cmds@.map_values(|c: CommandLine| cmd_view(c)) == mouse_click_lines(b, x, y, button)
            } else {
                r matches Err(HarnessError::Other(m)) && m@ == bad_button_message(button)
            },
        },
{
    let b = pick_mouse_backend(tools)?;
    if button < 1 || button > 3 {
        let mut m = owned("unsupported mouse button ");
        push_decimal(&mut m, button as u64);
        push_str(&mut m, " (use 1=left 2=middle 3=right)");
        return Err(HarnessError::Other(m));
    }
    let mut cmds: Vec<CommandLine> = Vec::new();
    match b {
        InputBackendKind::Ydotool => {
            let mut a1: Vec<String> = Vec::new();
            a1.push(owned("mousemove"));
            a1.push(owned("--absolute"));
            a1.push(signed_decimal_string(x as i64));
            a1.push(signed_decimal_string(y as i64));
            cmds.push(line("ydotool", a1));
            let mut a2: Vec<String> = Vec::new();
            a2.push(owned("click"));
            a2.push(owned(if button == 1 { "0xC0" } else if button == 2 { "0xC1" } else { "0xC2" }));
            let c2 = line("ydotool", a2);
            cmds.push(c2);
            proof {
                let want = mouse_click_lines(b, x, y, button);
                assert(views(cmds@[0].args@) =~= want[0].1);
                assert(views(c2.args@) =~= want[1].1);
            }
        },
        _ => {
            let mut a: Vec<String> = Vec::new();
            a.push(owned("mousemove"));
            a.push(owned("--sync"));
            a.push(signed_decimal_string(x as i64));
            a.push(signed_decimal_string(y as i64));
            a.push(owned("click"));
            a.push(crate::text::decimal_string(button as u64));
            let c = line("xdotool", a);
            cmds.push(c);
            proof {
                let want = mouse_click_lines(b, x, y, button);
                assert(views(c.args@) =~= want[0].1);
            }
        },
    }
    assert(cmds@.map_values(|c: CommandLine| cmd_view(c)) =~= mouse_click_lines(b, x, y, button));
    Ok((b, cmds))
}

/// The command line that types `text` with backend `b`.
pub open spec fn type_line(b: InputBackendKind, text: Seq<char>) -> (Seq<char>, Seq<Seq<char>>) {
    match b {
        InputBackendKind::Ydotool => ("ydotool"@, seq!["type"@, "--"@, text]),
        InputBackendKind::Wtype => ("wtype"@, seq!["--"@, text]),
        _ => ("xdotool"@, seq!["type"@, "--clearmodifiers"@, "--"@, text]),
    }
}

/// Typed text reaches the tool verbatim as its last argument, right after
/// `--`, so text starting with `-` is never read as an option; the program
/// run is the chosen backend.
pub proof fn lemma_typed_text_is_last_argument(b: InputBackendKind, t1: Seq<char>, t2: Seq<char>)
    ensures
        type_line(b, t1).1.last() == t1,
        type_line(b, t1).1[type_line(b, t1).1.len() - 2] == "--"@,
        type_line(b, t1).0 == (match b {
            InputBackendKind::Ydotool => "ydotool"@,
            InputBackendKind::Wtype => "wtype"@,
            _ => "xdotool"@,
        }),
        type_line(b, t1).1.drop_last() == type_line(b, t2).1.drop_last(),
{
}

/// The typing backend the tools allow.
pub open spec fn pick_type_backend_spec(t: InputTools) -> Option<InputBackendKind> {
    if t.ydotool {
        Some(InputBackendKind::Ydotool)
    } else if t.wtype {
        Some(InputBackendKind::Wtype)
    } else if t.xdotool {
        Some(InputBackendKind::Xdotool)
    } else {
        None
    }
}

/// Plan typing `text` with real key events.
pub fn plan_type_text(tools: InputTools, text: &str) -> (r: Result<(InputBackendKind, CommandLine), HarnessError>)
    ensures
        match pick_type_backend_spec(tools) {
            None => r matches Err(HarnessError::Unavailable(_)),
            Some(b) => r matches Ok((b2, c)) && b2 == b && cmd_view(c) == type_line(b, text@),
        },
{
    let b = pick_type_backend(tools)?;
    let mut a: Vec<String> = Vec::new();
    let program = match b {
        InputBackendKind::Ydotool => {
            a.push(owned("type"));
            a.push(owned("--"));
            "ydotool"
        },
        InputBackendKind::Wtype => {
            a.push(owned("--"));
            "wtype"
        },
        _ => {
            a.push(owned("type"));
            a.push(owned("--clearmodifiers"));
            a.push(owned("--"));
            "xdotool"
        },
    };
    a.push(owned(text));
    let c = line(program, a);
    assert(cmd_view(c) =~= type_line(b, text@));
    Ok((b, c))
}

/// The key backend the tools allow.
pub open spec fn pick_key_backend_spec(t: InputTools) -> Option<InputBackendKind> {
    if t.ydotool {
        Some(InputBackendKind::Ydotool)
    } else if t.xdotool {
        Some(InputBackendKind::Xdotool)
    } else if t.wtype {
        Some(InputBackendKind::Wtype)
    } else {
        None
    }
}

/// The command line that sends key combo `k` with backend `b`.
pub open spec fn key_line(b: InputBackendKind, k: Seq<char>) -> (Seq<char>, Seq<Seq<char>>) {
    match b {
        InputBackendKind::Ydotool => ("ydotool"@, seq!["key"@, k]),
        InputBackendKind::Xdotool => ("xdotool"@, seq!["key"@, k]),
        _ => ("wtype"@, seq!["-k"@, k]),
    }
}

/// Plan a key combo like `ctrl+c` or `Return` (backend-specific syntax).
pub fn plan_key(tools: InputTools, keyspec: &str) -> (r: Result<(InputBackendKind, CommandLine), HarnessError>)
    ensures
        match pick_key_backend_spec(tools) {
            None => r matches Err(HarnessError::Unavailable(_)),
            Some(b) => r matches Ok((b2, c)) && b2 == b && cmd_view(c) == key_line(b, keyspec@),
        },
{
    let b = pick_key_backend(tools)?;
    let mut a: Vec<String> = Vec::new();
    let program = match b {
        InputBackendKind::Ydotool => {
            a.push(owned("key"));
            "ydotool"
        },
        InputBackendKind::Xdotool => {
            a.push(owned("key"));
            "xdotool"
        },
        _ => {
            a.push(owned("-k"));
            "wtype"
        },
    };
    a.push(owned(keyspec));
    let c = line(program, a);
    assert(cmd_view(c) =~= key_line(b, keyspec@));
    Ok((b, c))
}

/// Detail of a command that succeeded: `{program} ok`.
pub fn ran_ok(program: &str) -> (r: String)
    ensures
        r@ == program@ + " ok"@,
{
    let mut r = owned(program);
    push_str(&mut r, " ok");
    r
}

} // verus!
