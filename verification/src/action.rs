//! Element actions: which AT-SPI action a request selects, and the results
//! and messages of actions and text entry. The bus calls stay with the caller.

use vstd::prelude::*;

use crate::error::HarnessError;
use crate::input::comma_join;
use crate::text::{
    bool_text, chars_of, debug_quoted, debug_str, decimal, eq_ignore_ascii_case, lowercase, owned, push_bool, push_count,
    push_str, signed_decimal, str_eq, to_lowercase, views,
};
use crate::find::eq_ci;
use crate::types::ActionResult;

verus! {

/// An action name that the default choice prefers: `click`, `press`,
/// `activate` or `default`, compared after lowercasing.
pub open spec fn preferred_action(name: Seq<char>) -> bool {
    let n = lowercase(name);
    n == "click"@ || n == "press"@ || n == "activate"@ || n == "default"@
}

/// First index at which `p` holds of an action name.
pub open spec fn first_action(names: Seq<Seq<char>>, p: spec_fn(Seq<char>) -> bool) -> Option<int>
    decreases names.len(),
{
    if names.len() == 0 {
        None
    } else {
        match first_action(names.drop_last(), p) {
            Some(i) => Some(i),
            None => if p(names.last()) { Some(names.len() - 1) } else { None },
        }
    }
}

/// The names matching `name` ASCII case-insensitively.
pub open spec fn named(name: Seq<char>) -> spec_fn(Seq<char>) -> bool {
    |n: Seq<char>| eq_ignore_ascii_case(n, name)
}

/// The names the default choice prefers.
pub open spec fn preferred() -> spec_fn(Seq<char>) -> bool {
    |n: Seq<char>| preferred_action(n)
}

/// Message for an out-of-range action index.
pub open spec fn index_message(i: i32, n: nat) -> Seq<char> {
    "action index "@ + signed_decimal(i as int) + " out of range 0.."@ + decimal(n)
}

/// Message for an unknown action name.
pub open spec fn unknown_action_message(name: Seq<char>, names: Seq<Seq<char>>) -> Seq<char> {
    "action "@ + debug_quoted(name) + " not found; available: "@ + comma_join(names)
}

proof fn lemma_first_action_push(names: Seq<Seq<char>>, p: spec_fn(Seq<char>) -> bool, n: Seq<char>)
    ensures
        first_action(names.push(n), p) == match first_action(names, p) {
            Some(i) => Some(i),
            None => if p(n) { Some(names.len() as int) } else { None },
        },
{
    assert(names.push(n).drop_last() =~= names);
}

/// The action a request selects among `names`, the element's actions in
/// order: nothing when there are none; else the explicit index, which must
/// lie in range; else the first action whose name equals `action` ignoring
/// ASCII case, which must exist; else the first preferred action, or the
/// first action.
pub fn select_action(names: &Vec<String>, action: Option<&str>, index: Option<i32>) -> (r: Result<Option<usize>, HarnessError>)
    ensures
        names@.len() == 0 ==> r matches Ok(None),
        names@.len() > 0 ==> match index {
            Some(i) => if i < 0 || i >= names@.len() {
                r matches Err(HarnessError::NotFound(m)) && m@ == index_message(i, names@.len())
            } else {
                r == Ok::<Option<usize>, HarnessError>(Some(i as usize))
            },
            None => match action {
                Some(a) => match first_action(views(names@), named(a@)) {
                    Some(k) => r == Ok::<Option<usize>, HarnessError>(Some(k as usize)),
                    None => r matches Err(HarnessError::NotFound(m)) && m@ == unknown_action_message(a@, views(names@)),
                },
                None => match first_action(views(names@), preferred()) {
                    Some(k) => r == Ok::<Option<usize>, HarnessError>(Some(k as usize)),
                    None => r == Ok::<Option<usize>, HarnessError>(Some(0)),
                },
            },
        },
{
    let n = names.len();
    if n == 0 {
        return Ok(None);
    }
    if let Some(i) = index {
        if i < 0 || i as usize >= n {
            let mut m = owned("action index ");
            crate::text::push_signed_decimal(&mut m, i as i64);
            push_str(&mut m, " out of range 0..");
            push_count(&mut m, n);
            assert(m@ =~= index_message(i, names@.len()));
            return Err(HarnessError::NotFound(m));
        }
        return Ok(Some(i as usize));
    }
    let ghost vs = views(names@);
    let mut k: usize = 0;
    match action {
        Some(a) => {
            let ghost p = named(a@);
            while k < n
                invariant
                    k <= n,
                    n == names@.len(),
                    vs == views(names@),
                    p == named(a@),
                    index is None,
                    action == Some(a),
                    first_action(vs.take(k as int), p) is None,
                decreases n - k,
            {
                proof {
                    lemma_first_action_push(vs.take(k as int), p, vs[k as int]);
                    assert(vs.take(k + 1) =~= vs.take(k as int).push(vs[k as int]));
                }
                if eq_ci(names[k].as_str(), a) {
                    proof {
                        assert(vs[k as int] == names@[k as int]@);
                        assert(p(vs[k as int]));
                        lemma_first_action_prefix(vs, p, k as int + 1);
                    }
                    return Ok(Some(k));
                }
                assert(vs[k as int] == names@[k as int]@);
                assert(!p(vs[k as int]));
                k = k + 1;
            }
            assert(vs.take(n as int) =~= vs);
            let mut parts: Vec<&str> = Vec::new();
            let mut j: usize = 0;
            while j < n
                invariant
                    j <= n,
                    n == names@.len(),
                    parts@.len() == j,
                    forall|t: int| 0 <= t < j ==> #[trigger] parts@[t]@ == names@[t]@,
                decreases n - j,
            {
                let nm = names[j].as_str();
                parts.push(nm);
                j = j + 1;
            }
            assert(parts@.map_values(|s: &str| s@) =~= views(names@));
            let mut m = owned("action ");
            let q = debug_str(a);
            push_str(&mut m, q.as_str());
            push_str(&mut m, " not found; available: ");
            let joined = crate::input::comma_join_exec(&parts);
            push_str(&mut m, joined.as_str());
            assert(m@ =~= unknown_action_message(a@, views(names@)));
            Err(HarnessError::NotFound(m))
        },
        None => {
            let ghost p = preferred();
            while k < n
                invariant
                    k <= n,
                    n == names@.len(),
                    vs == views(names@),
                    p == preferred(),
                    index is None,
                    action is None,
                    first_action(vs.take(k as int), p) is None,
                decreases n - k,
            {
                proof {
                    lemma_first_action_push(vs.take(k as int), p, vs[k as int]);
                    assert(vs.take(k + 1) =~= vs.take(k as int).push(vs[k as int]));
                }
                let low = to_lowercase(names[k].as_str());
                let l = low.as_str();
                assert(vs[k as int] == names@[k as int]@);
                if str_eq(l, "click") || str_eq(l, "press") || str_eq(l, "activate") || str_eq(l, "default") {
                    proof {
                        assert(p(vs[k as int]));
                        lemma_first_action_prefix(vs, p, k as int + 1);
                    }
                    return Ok(Some(k));
                }
                assert(!p(vs[k as int]));
                k = k + 1;
            }
            assert(vs.take(n as int) =~= vs);
            Ok(Some(0))
        },
    }
}

/// Once the first match lies in a prefix, it is the first match overall.
proof fn lemma_first_action_prefix(names: Seq<Seq<char>>, p: spec_fn(Seq<char>) -> bool, k: int)
    requires
        0 <= k <= names.len(),
        first_action(names.take(k), p) is Some,
    ensures
        first_action(names, p) == first_action(names.take(k), p),
    decreases names.len() - k,
{
    if k < names.len() {
        lemma_first_action_push(names.take(k), p, names[k]);
        assert(names.take(k + 1) =~= names.take(k).push(names[k]));
        lemma_first_action_prefix(names, p, k + 1);
    } else {
        assert(names.take(k) =~= names);
    }
}

/// [`first_action`] is the first name satisfying `p`.
proof fn lemma_first_action_first(names: Seq<Seq<char>>, p: spec_fn(Seq<char>) -> bool)
    ensures
        match first_action(names, p) {
            Some(i) => 0 <= i < names.len() && p(names[i]) && forall|k: int| 0 <= k < i ==> !p(#[trigger] names[k]),
            None => forall|k: int| 0 <= k < names.len() ==> !p(#[trigger] names[k]),
        },
    decreases names.len(),
{
    if names.len() > 0 {
        let d = names.drop_last();
        lemma_first_action_first(d, p);
        assert forall|k: int| 0 <= k < d.len() implies #[trigger] d[k] == names[k] by {}
        match first_action(d, p) {
            Some(i) => {
                assert forall|k: int| 0 <= k < i implies !p(#[trigger] names[k]) by {
                    assert(d[k] == names[k]);
                }
            },
            None => {
                if !p(names.last()) {
                    assert forall|k: int| 0 <= k < names.len() implies !p(#[trigger] names[k]) by {
                        if k < d.len() {
                            assert(d[k] == names[k]);
                        }
                    }
                } else {
                    assert forall|k: int| 0 <= k < names.len() - 1 implies !p(#[trigger] names[k]) by {
                        assert(d[k] == names[k]);
                    }
                }
            },
        }
    }
}

/// Without an index or an action name, the choice is the first action whose
/// lowercased name is `click`, `press`, `activate` or `default`: when the
/// action at `j` has such a name, an action at or before `j` with such a
/// name is chosen, and no earlier action has one.
pub proof fn lemma_default_prefers_click_press_activate(names: Seq<Seq<char>>, j: int)
    requires
        0 <= j < names.len(),
        lowercase(names[j]) == "click"@ || lowercase(names[j]) == "press"@ || lowercase(names[j]) == "activate"@
            || lowercase(names[j]) == "default"@,
    ensures
        first_action(names, preferred()) matches Some(i) && i <= j && (lowercase(names[i]) == "click"@
            || lowercase(names[i]) == "press"@ || lowercase(names[i]) == "activate"@ || lowercase(names[i]) == "default"@)
            && forall|k: int| 0 <= k < i ==> !(lowercase(#[trigger] names[k]) == "click"@ || lowercase(names[k]) == "press"@
            || lowercase(names[k]) == "activate"@ || lowercase(names[k]) == "default"@),
{
    lemma_first_action_first(names, preferred());
    assert((preferred())(names[j]));
    match first_action(names, preferred()) {
        Some(i) => {
            assert forall|k: int| 0 <= k < i implies !(lowercase(#[trigger] names[k]) == "click"@ || lowercase(names[k]) == "press"@
                || lowercase(names[k]) == "activate"@ || lowercase(names[k]) == "default"@) by {
                assert(!(preferred())(names[k]));
            }
            if i > j {
                assert(!(preferred())(names[j]));
            }
        },
        None => {
            assert(!(preferred())(names[j]));
        },
    }
}

/// A named choice picks the first action whose name equals the requested
/// one up to ASCII case; when some action has that name, one is picked, and
/// no earlier action has it.
pub proof fn lemma_named_choice(names: Seq<Seq<char>>, a: Seq<char>, j: int)
    requires
        0 <= j < names.len(),
        names[j].len() == a.len(),
        forall|i: int| 0 <= i < a.len() ==> #[trigger] crate::text::ascii_lower(names[j][i]) == crate::text::ascii_lower(a[i]),
    ensures
        first_action(names, named(a)) matches Some(i) && i <= j && names[i].len() == a.len()
            && (forall|c: int| 0 <= c < a.len() ==> #[trigger] crate::text::ascii_lower(names[i][c]) == crate::text::ascii_lower(a[c]))
            && forall|k: int| 0 <= k < i ==> !eq_ignore_ascii_case(#[trigger] names[k], a),
{
    lemma_first_action_first(names, named(a));
    assert((named(a))(names[j]));
    match first_action(names, named(a)) {
        Some(i) => {
            assert((named(a))(names[i]));
            assert forall|k: int| 0 <= k < i implies !eq_ignore_ascii_case(#[trigger] names[k], a) by {
                assert(!(named(a))(names[k]));
            }
            if i > j {
                assert(!(named(a))(names[j]));
            }
        },
        None => {
            assert(!(named(a))(names[j]));
        },
    }
}

/// Result when the element has an Action interface but no actions.
pub fn no_actions_result(element_id: &str) -> (r: ActionResult)
    ensures
        !r.ok,
        r.id@ == element_id@,
        r.action is None,
        r.detail@ == "element exposes Action interface but has zero actions"@,
{
    ActionResult {
        ok: false,
        id: owned(element_id),
        action: None,
        detail: owned("element exposes Action interface but has zero actions"),
    }
}

/// Detail of a performed action.
pub open spec fn action_detail(idx: nat, chosen: Seq<char>, ok: bool) -> Seq<char> {
    "DoAction("@ + decimal(idx) + "="@ + chosen + ") returned "@ + bool_text(ok)
}

/// Result of performing action `idx` named `chosen` on `element_id`, which
/// answered `ok`.
pub fn action_result(element_id: &str, idx: usize, chosen: &str, ok: bool) -> (r: ActionResult)
    ensures
        r.ok == ok,
        r.id@ == element_id@,
        r.action matches Some(a) && a@ == chosen@,
        r.detail@ == action_detail(idx as nat, chosen@, ok),
{
    let mut d = owned("DoAction(");
    push_count(&mut d, idx);
    push_str(&mut d, "=");
    push_str(&mut d, chosen);
    push_str(&mut d, ") returned ");
    push_bool(&mut d, ok);
    assert(d@ =~= action_detail(idx as nat, chosen@, ok));
    ActionResult { ok, id: owned(element_id), action: Some(owned(chosen)), detail: d }
}

/// Detail of a text entry of `n` characters.
pub open spec fn type_detail(ok: bool, append: bool, n: nat) -> Seq<char> {
    if ok {
        (if append { "appended"@ } else { "set"@ }) + " "@ + decimal(n) + " char(s) via EditableText"@
    } else {
        "EditableText returned false"@
    }
}

/// Result of entering `text` into `element_id` (appended or replacing),
/// which the element answered with `ok`.
pub fn type_into_result(element_id: &str, text: &str, append: bool, ok: bool) -> (r: ActionResult)
    ensures
        r.ok == ok,
        r.id@ == element_id@,
        r.action matches Some(a) && a@ == (if append { "append_text"@ } else { "set_text"@ }),
        r.detail@ == type_detail(ok, append, text@.len()),
{
    let n = chars_of(text).len();
    let detail = if ok {
        let mut d = owned(if append { "appended" } else { "set" });
        push_str(&mut d, " ");
        push_count(&mut d, n);
        push_str(&mut d, " char(s) via EditableText");
        assert(d@ =~= type_detail(ok, append, text@.len()));
        d
    } else {
        owned("EditableText returned false")
    };
    ActionResult {
        ok,
        id: owned(element_id),
        action: Some(owned(if append { "append_text" } else { "set_text" })),
        detail,
    }
}

/// What a text entry reports depends on the text only through its length:
/// two texts of the same length give the same detail.
pub proof fn lemma_entry_detail_hides_text(t1: Seq<char>, t2: Seq<char>, ok: bool, append: bool)
    requires
        t1.len() == t2.len(),
    ensures
        type_detail(ok, append, t1.len()) == type_detail(ok, append, t2.len()),
{
}

/// Error when both ways of replacing the text failed.
pub fn replace_text_error(set_error: &str, insert_error: &str) -> (e: HarnessError)
    ensures
        e matches HarnessError::Other(m) && m@ == "SetTextContents failed ("@ + set_error@ + "); InsertText also failed: "@ + insert_error@,
{
    let mut m = owned("SetTextContents failed (");
    push_str(&mut m, set_error);
    push_str(&mut m, "); InsertText also failed: ");
    push_str(&mut m, insert_error);
    HarnessError::Other(m)
}

} // verus!
