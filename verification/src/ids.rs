//! Fresh identifiers: for tabs and panes, for tunnelled streams and
//! requests, and for a desktop that was given none.
use vstd::prelude::*;
use crate::text::{chars_of, concat_chars, starts_with, string_of};

verus! {

/// A fresh random identifier: `uuid::Uuid::new_v4` in its text form,
/// which is the hyphenated form of 36 characters. Which identifier comes
/// out is chance, so nothing else is stated of it.
#[verifier::external_body]
pub(crate) fn new_uuid() -> (r: String)
    ensures
        r@.len() == 36,
{
    uuid::Uuid::new_v4().to_string()
}

/// A fresh id for a WebSocket bridged through the tunnel: `ws-` and a
/// fresh identifier.
pub fn new_stream_id() -> (r: String)
    ensures
        r@.len() == 39,
        starts_with(r@, "ws-"@),
{
    proof {
        reveal_strlit("ws-");
    }
    let u = new_uuid();
    let p = chars_of("ws-");
    let v = concat_chars(p.as_slice(), chars_of(u.as_str()).as_slice());
    assert(v@.take(3) =~= p@);
    string_of(v.as_slice())
}

/// The id a desktop announces itself under: the one it was given, else a
/// fresh one.
pub fn desktop_id_or_new(given: Option<String>) -> (r: String)
    ensures
        given matches Some(g) ==> r@ == g@,
        given is None ==> r@.len() == 36,
{
    match given {
        Some(g) => g,
        None => new_uuid(),
    }
}

} // verus!
