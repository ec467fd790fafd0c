//! Result-envelope conventions for the call boundary.
//!
//! Every boundary call answers with a buffer-or-null. A non-null buffer
//! carries either a boolean encoded as the literal text `true` / `false`
//! (a sentinel), a handle identifier, or a structured error message; a
//! null buffer means absence, disambiguated by querying the context's
//! deferred error slot. The functions here decode those conventions into
//! a tagged result, removing the ambiguity of the string channel.

use vstd::prelude::*;

use crate::handles::is_simple_id;

verus! {

/// Whether the identifier parser accepts this text as a well-formed
/// handle. What exactly it accepts beyond the simple 32-digit form is
/// the parser's affair; the one fact relied on is stated at the wrapper.
pub uninterp spec fn uuid_accepts(s: Seq<char>) -> bool;

/// Relies on uuid::Uuid::parse_str: whether the text parses as a
/// well-formed UUID. Its parser accepts a string of exactly 32
/// hexadecimal digits (the simple form), so every such string passes;
/// and it matches on the input's length first, so no text whose length
/// is not 32, 36, 38 or 45 is ever accepted.
#[verifier::external_body]
fn parse_id_ok(s: &str) -> (r: bool)
    ensures
        r == uuid_accepts(s@),
        is_simple_id(s@) ==> r,
        !(s@.len() == 32 || s@.len() == 36 || s@.len() == 38 || s@.len() == 45) ==> !r,
{
    uuid::Uuid::parse_str(s).is_ok()
}

/// Decodes a handle-creation answer. A null buffer carries no handle; a
/// non-null buffer is the new handle when it parses as a well-formed
/// identifier, and is itself the error message otherwise.
pub fn decode_handle(s: Option<String>) -> (r: Result<Option<String>, String>)
    ensures
        (match s {
            Some(v) => if uuid_accepts(v@) {
                r matches Ok(o) && o matches Some(h) && h@ == v@
            } else {
                r matches Err(e) && e@ == v@
            },
            None => (r matches Ok(o) && o is None),
        }),
        (match s {
            Some(v) => !(v@.len() == 32 || v@.len() == 36 || v@.len() == 38 || v@.len() == 45)
                ==> (r matches Err(e) && e@ == v@),
            None => true,
        }),
        (match s {
            Some(v) => is_simple_id(v@) ==> (r matches Ok(o) && o matches Some(h) && h@ == v@),
            None => true,
        }),
{
    match s {
        Some(v) => {
            if parse_id_ok(v.as_str()) {
                Ok(Some(v))
            } else {
                Err(v)
            }
        },
        None => Ok(None),
    }
}

/// The three-way outcome of a mutating or navigating boundary call:
/// a well-formed positive answer, a well-formed negative answer, or a
/// structured failure carrying the engine's message.
#[derive(Debug, Clone, PartialEq, Eq)]
pub enum Outcome {
    /// The engine answered with the sentinel `true`.
    Accepted,
    /// The engine answered with the sentinel `false`.
    Refused,
    /// The engine answered with anything else: an error message.
    Failed(String),
}

/// Decodes a boundary answer under the sentinel convention: the literal
/// text `true` and `false` are the two well-formed boolean answers, and
/// any other text is a structured failure carrying that text.
pub fn decode_sentinel(s: String) -> (r: Outcome)
    ensures
        s@ == "true"@ ==> r == Outcome::Accepted,
        s@ == "false"@ ==> r == Outcome::Refused,
        s@ != "true"@ && s@ != "false"@ ==> (r matches Outcome::Failed(m) && m@ == s@),
{
    proof {
        reveal_strlit("true");
        reveal_strlit("false");
        assert("true"@.len() == 4);
        assert("false"@.len() == 5);
    }
    let t = String::from_str("true");
    let f = String::from_str("false");
    if s == t {
        Outcome::Accepted
    } else if s == f {
        Outcome::Refused
    } else {
        Outcome::Failed(s)
    }
}

} // verus!
