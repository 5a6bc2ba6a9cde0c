//! Element / window identity: `{bus_name}|{object_path}`.

use vstd::prelude::*;

use crate::text::{chars_of, find_char, find_char_in, lemma_find_char, lemma_find_char_at, owned, push_str, push_char, str_eq};

verus! {

/// The id of the object at `path` on bus `bus`: `{bus}|{path}`.
pub open spec fn id_of(bus: Seq<char>, path: Seq<char>) -> Seq<char> {
    bus + seq!['|'] + path
}

/// The parts of an id: split at the first `|`; the bus must be non-empty and
/// the path must start with `/`.
pub open spec fn id_parts(id: Seq<char>) -> Option<(Seq<char>, Seq<char>)> {
    match find_char(id, '|') {
        Some(k) => {
            let bus = id.take(k);
            let path = id.skip(k + 1);
            if bus.len() > 0 && path.len() > 0 && path[0] == '/' {
                Some((bus, path))
            } else {
                None
            }
        },
        None => None,
    }
}

/// Encode a bus unique name + object path into a stable-ish agent-facing id.
pub fn encode_id(bus: &str, path: &str) -> (r: String)
    ensures
        r@ == id_of(bus@, path@),
{
    let mut r = owned(bus);
    push_char(&mut r, '|');
    push_str(&mut r, path);
    r
}

/// Split an id back into `(bus, path)`. Returns `None` if the separator is
/// missing, the bus is empty, or the path does not start with `/`.
pub fn decode_id(id: &str) -> (r: Option<(&str, &str)>)
    ensures
        match r {
            Some((b, p)) => id_parts(id@) == Some((b@, p@)),
            None => id_parts(id@) is None,
        },
{
    let v = chars_of(id);
    proof {
        lemma_find_char(v@, '|');
    }
    match find_char_in(&v, '|') {
        None => None,
        Some(k) => {
            let n = v.len();
            if k == 0 || k + 1 >= n || v[k + 1] != '/' {
                proof {
                    if k + 1 < n {
                        assert(id@.skip(k + 1)[0] == v@[k + 1]);
                    }
                }
                return None;
            }
            let b = id.substring_char(0, k);
            let p = id.substring_char(k + 1, n);
            assert(b@ =~= id@.take(k as int));
            assert(p@ =~= id@.skip(k + 1));
            Some((b, p))
        },
    }
}

/// True when `id` is on accessibility bus `bus` (`{bus}|{path}`).
pub fn id_on_bus(id: &str, bus: &str) -> (r: bool)
    ensures
        r == (id_parts(id@) matches Some((b, _)) && b == bus@),
{
    match decode_id(id) {
        Some((b, _)) => str_eq(b, bus),
        None => false,
    }
}

/// Decoding an encoded id gives back its parts, for every bus that is
/// non-empty and free of `|` and every path that starts with `/`.
pub proof fn lemma_id_roundtrip(bus: Seq<char>, path: Seq<char>)
    requires
        bus.len() > 0,
        !bus.contains('|'),
        path.len() > 0,
        path[0] == '/',
    ensures
        id_parts(id_of(bus, path)) == Some((bus, path)),
{
    let id = id_of(bus, path);
    let k = bus.len() as int;
    assert(id[k] == '|');
    assert forall|j: int| 0 <= j < k implies id[j] != '|' by {
        assert(id[j] == bus[j]);
    }
    lemma_find_char_at(id, '|', k);
    assert(id.take(k) =~= bus);
    assert(id.skip(k + 1) =~= path);
}

/// An id that decodes is exactly the encoding of its parts.
pub proof fn lemma_id_parts_encode(id: Seq<char>)
    ensures
        match id_parts(id) {
            Some((b, p)) => id_of(b, p) == id && !b.contains('|'),
            None => true,
        },
{
    lemma_find_char(id, '|');
    if let Some((b, p)) = id_parts(id) {
        assert(id_of(b, p) =~= id);
        assert forall|j: int| 0 <= j < b.len() implies b[j] != '|' by {
            assert(b[j] == id[j]);
        }
    }
}

/// The parts of an element id, or the error for a malformed one.
pub fn parse_element_id(id: &str) -> (r: Result<(String, String), crate::error::HarnessError>)
    ensures
        id_parts(id@) matches Some((b, p)) ==> (r matches Ok((x, y)) && x@ == b && y@ == p),
        id_parts(id@) is None ==> (r matches Err(crate::error::HarnessError::Other(m))
            && m@ == "invalid element id '"@ + id@ + "' — expected '{bus}|{object_path}'"@),
{
    match decode_id(id) {
        Some((b, p)) => Ok((owned(b), owned(p))),
        None => {
            let mut m = owned("invalid element id '");
            push_str(&mut m, id);
            push_str(&mut m, "' — expected '{bus}|{object_path}'");
            Err(crate::error::HarnessError::Other(m))
        },
    }
}

} // verus!
