//! The reply to a search on Urban Dictionary.

use vstd::prelude::*;
use vstd::string::*;
use vstd::utf8::{encode_utf8, is_char_boundary};
use crate::text::{concat2, truncate_bytes};

verus! {

broadcast use vstd::slice::group_slice_axioms;

/// Definitions longer than this many bytes are cut; Discord takes 2000
/// characters, and the example field needs room.
pub const DEFINITION_BYTES: usize = 1800;

/// The definition as shown: its first `DEFINITION_BYTES` bytes when longer.
/// The cut must fall between characters, else the bot panics.
pub fn definition_text(definition: &str) -> (r: String)
    requires
        encode_utf8(definition@).len() <= DEFINITION_BYTES
            || is_char_boundary(encode_utf8(definition@), DEFINITION_BYTES as int),
    ensures
        encode_utf8(definition@).len() <= DEFINITION_BYTES ==> r@ == definition@,
        encode_utf8(definition@).len() > DEFINITION_BYTES
            ==> encode_utf8(r@) == encode_utf8(definition@).take(DEFINITION_BYTES as int),
{
    truncate_bytes(definition, DEFINITION_BYTES)
}

/// The example as shown: `<none>` when there is none, as Discord refuses
/// empty fields.
pub fn example_text(example: &str) -> (r: String)
    ensures
        example@.len() == 0 ==> r@ == "<none>"@,
        example@.len() > 0 ==> r@ == example@,
{
    if example.is_empty() {
        String::from_str("<none>")
    } else {
        String::from_str(example)
    }
}

/// The title of the reply for a word found: `Definition of <word>`.
pub fn definition_title(word: &str) -> (r: String)
    ensures
        r@ == "Definition of "@ + word@,
{
    concat2("Definition of ", word)
}

/// The title of the reply when nothing was found: `Could not find "<query>"`.
pub fn not_found_title(query: &str) -> (r: String)
    ensures
        r@ == "Could not find \""@ + query@ + "\""@,
{
    let mut r = concat2("Could not find \"", query);
    r.append("\"");
    r
}

} // verus!
