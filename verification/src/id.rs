//! Job ids: 128 random bits, written as 32 hex digits where a path needs them.

use vstd::prelude::*;

verus! {

/// The hex digit for a value below sixteen, in lower case.
pub open spec fn hex_digit(value: nat) -> char {
    if value < 10 {
        (48 + value) as char
    } else {
        (87 + value) as char
    }
}

/// The last `width` hex digits of `value`, most significant first.
pub open spec fn hex(value: nat, width: nat) -> Seq<char>
    decreases width,
{
    if width == 0 {
        Seq::empty()
    } else {
        hex(value / 16, (width - 1) as nat).push(hex_digit(value % 16))
    }
}

/// How an id is written as a path segment: its 32 hex digits, in lower case,
/// with nothing between them.
pub open spec fn simple(id: u128) -> Seq<char> {
    hex(id as nat, 32)
}

/// A new id.
///
/// Trusted: this is uuid's `Uuid::new_v4`, read as a number with
/// `Uuid::as_u128`. The bits come from the operating system's random source,
/// so nothing is stated of them; where that source fails, uuid panics.
#[verifier::external_body]
pub(crate) fn random_id() -> u128 {
    uuid::Uuid::new_v4().as_u128()
}

/// The id as 32 lower-case hex digits.
///
/// Trusted: this is uuid's `Simple::encode_lower` on the id that
/// `Uuid::from_u128` makes of the number. uuid takes the number's bytes most
/// significant first and writes each as two digits, the high half first.
#[verifier::external_body]
pub(crate) fn encode_simple(id: u128) -> (text: String)
    ensures
        text@ == simple(id),
{
    uuid::Uuid::from_u128(id).to_simple().encode_lower(&mut uuid::Uuid::encode_buffer()).to_owned()
}

/// The id as the name of the job's directories.
pub fn path_segment(id: u128) -> (text: String)
    ensures
        text@ == simple(id),
        text@.len() == 32,
{
    proof {
        lemma_hex_len(id as nat, 32);
    }
    encode_simple(id)
}

/// `hex` gives as many digits as it is asked for.
pub proof fn lemma_hex_len(value: nat, width: nat)
    ensures
        hex(value, width).len() == width,
    decreases width,
{
    if width > 0 {
        lemma_hex_len(value / 16, (width - 1) as nat);
    }
}

} // verus!
