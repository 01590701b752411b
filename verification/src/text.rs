//! Decimal rendering of integers and small string helpers shared by the
//! other modules.

use vstd::prelude::*;
use vstd::string::*;

verus! {
broadcast use vstd::slice::group_slice_axioms, vstd::utf8::encode_utf8_valid_utf8;
} // verus!

verus! {

/// The character for a decimal digit.
pub open spec fn digit_char(d: nat) -> char {
    seq!['0', '1', '2', '3', '4', '5', '6', '7', '8', '9'][d as int]
}

/// Decimal digits of a natural number, most significant first, without
/// leading zeros (zero itself is `"0"`).
pub open spec fn dec_nat(n: nat) -> Seq<char>
    decreases n,
{
    if n < 10 {
        seq![digit_char(n)]
    } else {
        dec_nat(n / 10).push(digit_char(n % 10))
    }
}

/// Decimal rendering of an integer, as Rust's `Display` writes it: a minus
/// sign before negative values.
pub open spec fn dec_int(i: int) -> Seq<char> {
    if i < 0 {
        seq!['-'] + dec_nat((-i) as nat)
    } else {
        dec_nat(i as nat)
    }
}

proof fn lemma_digit_injective(a: nat, b: nat)
    requires
        a < 10,
        b < 10,
        digit_char(a) == digit_char(b),
    ensures
        a == b,
{
    let ds = seq!['0', '1', '2', '3', '4', '5', '6', '7', '8', '9'];
    assert(ds[0] == '0' && ds[1] == '1' && ds[2] == '2' && ds[3] == '3' && ds[4] == '4');
    assert(ds[5] == '5' && ds[6] == '6' && ds[7] == '7' && ds[8] == '8' && ds[9] == '9');
}

proof fn lemma_dec_nat_shape(n: nat)
    ensures
        dec_nat(n).len() >= 1,
        (dec_nat(n).len() == 1) <==> n < 10,
        dec_nat(n)[0] != '-',
    decreases n,
{
    if n >= 10 {
        lemma_dec_nat_shape(n / 10);
    } else {
        let ds = seq!['0', '1', '2', '3', '4', '5', '6', '7', '8', '9'];
        assert(ds[0] == '0' && ds[1] == '1' && ds[2] == '2' && ds[3] == '3' && ds[4] == '4');
        assert(ds[5] == '5' && ds[6] == '6' && ds[7] == '7' && ds[8] == '8' && ds[9] == '9');
    }
}

/// Different natural numbers have different decimal renderings.
pub proof fn lemma_dec_nat_injective(a: nat, b: nat)
    requires
        dec_nat(a) == dec_nat(b),
    ensures
        a == b,
    decreases a,
{
    lemma_dec_nat_shape(a);
    lemma_dec_nat_shape(b);
    if a < 10 {
        assert(dec_nat(a)[0] == digit_char(a));
        assert(dec_nat(b)[0] == digit_char(b));
        lemma_digit_injective(a, b);
    } else {
        assert(b >= 10);
        let pa = dec_nat(a / 10);
        let pb = dec_nat(b / 10);
        assert(dec_nat(a) == pa.push(digit_char(a % 10)));
        assert(dec_nat(b) == pb.push(digit_char(b % 10)));
        assert(pa =~= dec_nat(a).drop_last());
        assert(pb =~= dec_nat(b).drop_last());
        assert(dec_nat(a).last() == digit_char(a % 10));
        assert(dec_nat(b).last() == digit_char(b % 10));
        lemma_dec_nat_injective(a / 10, b / 10);
        lemma_digit_injective(a % 10, b % 10);
    }
}

/// Different integers have different decimal renderings.
pub proof fn lemma_dec_int_injective(a: int, b: int)
    requires
        a != b,
    ensures
        dec_int(a) != dec_int(b),
{
    if dec_int(a) == dec_int(b) {
        if a < 0 && b < 0 {
            assert(dec_nat((-a) as nat) =~= dec_int(a).drop_first());
            assert(dec_nat((-b) as nat) =~= dec_int(b).drop_first());
            lemma_dec_nat_injective((-a) as nat, (-b) as nat);
        } else if a < 0 {
            lemma_dec_nat_shape(b as nat);
            assert(dec_int(a)[0] == '-');
        } else if b < 0 {
            lemma_dec_nat_shape(a as nat);
            assert(dec_int(b)[0] == '-');
        } else {
            lemma_dec_nat_injective(a as nat, b as nat);
        }
    }
}

/// `String::push`: appends one character.
#[verifier::external_body]
pub(crate) fn push_char(s: &mut String, c: char)
    ensures
        final(s)@ == old(s)@.push(c),
{
    s.push(c);
}

fn digit(d: u64) -> (c: char)
    requires
        d < 10,
    ensures
        c == digit_char(d as nat),
{
    if d == 0 { '0' }
    else if d == 1 { '1' }
    else if d == 2 { '2' }
    else if d == 3 { '3' }
    else if d == 4 { '4' }
    else if d == 5 { '5' }
    else if d == 6 { '6' }
    else if d == 7 { '7' }
    else if d == 8 { '8' }
    else { '9' }
}

/// Renders an unsigned integer in decimal.
pub fn u64_to_string(n: u64) -> (s: String)
    ensures
        s@ == dec_nat(n as nat),
    decreases n,
{
    if n < 10 {
        let mut s = String::new();
        push_char(&mut s, digit(n));
        assert(s@ == seq![digit_char(n as nat)]);
        s
    } else {
        let mut s = u64_to_string(n / 10);
        push_char(&mut s, digit(n % 10));
        s
    }
}

/// Renders a signed integer in decimal, with a leading `-` when negative.
pub fn i64_to_string(n: i64) -> (s: String)
    ensures
        s@ == dec_int(n as int),
{
    if n < 0 {
        let magnitude: u64 = ((-(n + 1)) as u64) + 1;
        let digits = u64_to_string(magnitude);
        let mut s = String::new();
        push_char(&mut s, '-');
        s.append(digits.as_str());
        assert(s@ == seq!['-'] + dec_nat((-n) as nat));
        s
    } else {
        u64_to_string(n as u64)
    }
}

} // verus!

verus! {

/// What `str::to_lowercase` returns for a string: its Unicode lowercase
/// mapping.
pub uninterp spec fn lowercase(s: Seq<char>) -> Seq<char>;

/// `str::to_lowercase`: the Unicode lowercase form of `s`.
#[verifier::external_body]
pub(crate) fn to_lowercase(s: &str) -> (r: String)
    ensures
        r@ == lowercase(s@),
{
    s.to_lowercase()
}

/// A new string holding the characters of `s`.
pub fn string_of(s: &str) -> (r: String)
    ensures
        r@ == s@,
{
    String::from_str(s)
}

/// The concatenation of `a` and `b`.
pub fn concat2(a: &str, b: &str) -> (r: String)
    ensures
        r@ == a@ + b@,
{
    let mut r = String::from_str(a);
    r.append(b);
    r
}

} // verus!

verus! {

/// The UTF-8 encoding of a concatenation is the concatenation of the
/// encodings.
pub proof fn lemma_encode_utf8_concat(a: Seq<char>, b: Seq<char>)
    ensures
        vstd::utf8::encode_utf8(a + b) == vstd::utf8::encode_utf8(a) + vstd::utf8::encode_utf8(b),
    decreases a.len(),
{
    if a.len() > 0 {
        assert((a + b).drop_first() =~= a.drop_first() + b);
        lemma_encode_utf8_concat(a.drop_first(), b);
        assert((a + b)[0] == a[0]);
        assert(vstd::utf8::encode_utf8(a + b) =~= vstd::utf8::encode_utf8(a) + vstd::utf8::encode_utf8(b));
    } else {
        assert(a + b =~= b);
    }
}

/// The first `max` bytes of `s`, or all of `s` when it is no longer; as
/// `String::truncate` does, which panics when byte `max` falls inside a
/// character.
pub fn truncate_bytes(s: &str, max: usize) -> (r: String)
    requires
        s.spec_bytes().len() <= max || vstd::utf8::is_char_boundary(s.spec_bytes(), max as int),
    ensures
        s.spec_bytes().len() <= max ==> r@ == s@,
        s.spec_bytes().len() > max ==> vstd::utf8::encode_utf8(r@) == s.spec_bytes().take(max as int),
{
    if s.as_bytes().len() <= max {
        String::from_str(s)
    } else {
        let (head, _tail) = s.split_at(max);
        assert(head.spec_bytes() =~= s.spec_bytes().take(max as int));
        String::from_str(head)
    }
}

} // verus!
