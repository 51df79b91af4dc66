use vstd::prelude::*;

verus! {

/// The lowercase hexadecimal digit of `d`, for `0 <= d < 16`.
pub open spec fn hex_char(d: int) -> char {
    seq!['0', '1', '2', '3', '4', '5', '6', '7', '8', '9', 'a', 'b', 'c', 'd', 'e', 'f'][d]
}

/// The last `n` hexadecimal digits of `v`, most significant first.
pub open spec fn hex_digits(v: nat, n: nat) -> Seq<char>
    decreases n,
{
    if n == 0 {
        Seq::empty()
    } else {
        hex_digits(v / 16, (n - 1) as nat).push(hex_char((v % 16) as int))
    }
}

/// The text of a 128-bit identifier in the hyphenated lowercase UUID form:
/// its 32 hexadecimal digits, most significant first, with a hyphen after the
/// 8th, 12th, 16th and 20th.
pub open spec fn id_text(id: u128) -> Seq<char> {
    let d = hex_digits(id as nat, 32);
    d.subrange(0, 8) + seq!['-'] + d.subrange(8, 12) + seq!['-'] + d.subrange(12, 16) + seq!['-']
        + d.subrange(16, 20) + seq!['-'] + d.subrange(20, 32)
}

/// A fresh random identifier.
///
/// Relies on uuid's `Uuid::new_v4` and `Uuid::as_u128`: the value is random,
/// so nothing is promised of it.
#[verifier::external_body]
pub fn new_id() -> (id: u128) {
    uuid::Uuid::new_v4().as_u128()
}

/// The text of `id` as a UUID.
///
/// Relies on uuid's `Uuid::from_u128`, which keeps the value as big-endian
/// bytes, and its `Display`, which writes those bytes in the hyphenated
/// lowercase form.
#[verifier::external_body]
pub fn id_to_text(id: u128) -> (r: String)
    ensures
        r@ == id_text(id),
{
    uuid::Uuid::from_u128(id).to_string()
}

} // verus!
