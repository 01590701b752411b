//! The preview of a guild's configuration file that the settings command
//! shows: backticks escaped, and clipped to `PREVIEW_BYTES` bytes with a
//! note when longer.

use vstd::prelude::*;
use vstd::string::*;
use vstd::utf8::{encode_utf8, is_char_boundary};
use crate::text::{lemma_encode_utf8_concat, push_char, truncate_bytes};

verus! {

broadcast use vstd::string::group_string_axioms, vstd::slice::group_slice_axioms;

/// `s` with a backslash before every backtick.
pub open spec fn escape_backticks(s: Seq<char>) -> Seq<char>
    decreases s.len(),
{
    if s.len() == 0 {
        Seq::<char>::empty()
    } else {
        escape_backticks(s.drop_last()) + (if s.last() == '`' { seq!['\\', '`'] } else { seq![s.last()] })
    }
}

/// A text without a backtick is left as it is.
pub proof fn law_escape_keeps_plain_text(s: Seq<char>)
    requires
        forall|i: int| 0 <= i < s.len() ==> s[i] != '`',
    ensures
        escape_backticks(s) == s,
    decreases s.len(),
{
    if s.len() > 0 {
        law_escape_keeps_plain_text(s.drop_last());
        assert(s.drop_last().push(s.last()) =~= s);
    }
}

/// A backtick becomes a backslash and a backtick; any other character
/// stays as it is.
pub proof fn law_escape_one_char(c: char)
    ensures
        escape_backticks(seq![c]) == (if c == '`' { seq!['\\', '`'] } else { seq![c] }),
{
    assert(seq![c].drop_last() =~= Seq::<char>::empty());
    assert(seq![c].last() == c);
    assert(escape_backticks(Seq::<char>::empty()) == Seq::<char>::empty());
    assert(Seq::<char>::empty() + seq![c] =~= seq![c]);
    assert(Seq::<char>::empty() + seq!['\\', '`'] =~= seq!['\\', '`']);
}

/// Escaping works character by character: escaping two texts one after the
/// other is escaping each and joining them.
pub proof fn law_escape_concat(a: Seq<char>, b: Seq<char>)
    ensures
        escape_backticks(a + b) == escape_backticks(a) + escape_backticks(b),
    decreases b.len(),
{
    if b.len() == 0 {
        assert(a + b =~= a);
        assert(escape_backticks(a) + escape_backticks(b) =~= escape_backticks(a));
    } else {
        law_escape_concat(a, b.drop_last());
        assert((a + b).drop_last() =~= a + b.drop_last());
        assert((a + b).last() == b.last());
        let tail = if b.last() == '`' { seq!['\\', '`'] } else { seq![b.last()] };
        assert(escape_backticks(a) + escape_backticks(b.drop_last()) + tail
            =~= escape_backticks(a) + (escape_backticks(b.drop_last()) + tail));
    }
}

/// Puts a backslash before every backtick of `s`.
pub fn escape(s: &str) -> (r: String)
    ensures
        r@ == escape_backticks(s@),
{
    let mut out = String::new();
    for c in it: s.chars()
        invariant
            it.seq() == s@,
            out@ == escape_backticks(s@.take(it.index() as int)),
    {
        let ghost i = it.index() as int;
        assert(s@.take(i + 1).drop_last() =~= s@.take(i));
        assert(s@.take(i + 1).last() == c);
        if c == '`' {
            push_char(&mut out, '\\');
        }
        push_char(&mut out, c);
        assert(out@ =~= escape_backticks(s@.take(i + 1)));
    }
    assert(s@.take(s@.len() as int) =~= s@);
    out
}

/// Previews longer than this many bytes are clipped.
pub const PREVIEW_BYTES: usize = 1500;

/// What follows a clipped preview.
pub open spec fn clipped_note() -> Seq<char> {
    "\n<preview clipped>"@
}

/// The preview of a configuration file: its text with backticks escaped;
/// when that is longer than `PREVIEW_BYTES` bytes, its first `PREVIEW_BYTES`
/// bytes and a note that the preview was clipped. The clip must fall between
/// characters, else the bot panics.
pub fn preview(toml: &str) -> (r: String)
    requires
        encode_utf8(escape_backticks(toml@)).len() <= PREVIEW_BYTES
            || is_char_boundary(encode_utf8(escape_backticks(toml@)), PREVIEW_BYTES as int),
    ensures
        encode_utf8(escape_backticks(toml@)).len() <= PREVIEW_BYTES ==> r@ == escape_backticks(toml@),
        encode_utf8(escape_backticks(toml@)).len() > PREVIEW_BYTES ==> encode_utf8(r@)
            == encode_utf8(escape_backticks(toml@)).take(PREVIEW_BYTES as int) + encode_utf8(clipped_note()),
{
    let escaped = escape(toml);
    let mut r = truncate_bytes(escaped.as_str(), PREVIEW_BYTES);
    if escaped.as_str().as_bytes().len() > PREVIEW_BYTES {
        let ghost head = r@;
        r.append("\n<preview clipped>");
        proof { lemma_encode_utf8_concat(head, clipped_note()); }
    }
    r
}

} // verus!
