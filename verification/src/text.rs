//! Decimal text: what the digits of a number are, and code that writes them.
//!
//! Everything the runner hands to the kernel is ASCII text made of numbers and
//! fixed words, so the model is a sequence of bytes; [`ascii`] reads such bytes
//! as characters where a `String` is wanted.

use vstd::prelude::*;
use vstd::string::*;
use vstd::utf8::encode_utf8_decode_utf8;

verus! {

/// The ASCII decimal digits of `n`, most significant first. Zero is `"0"`.
pub open spec fn decimal(n: nat) -> Seq<u8>
    decreases n,
{
    if n < 10 {
        seq![(48 + n) as u8]
    } else {
        decimal(n / 10).push((48 + n % 10) as u8)
    }
}

/// The number that a run of ASCII decimal digits stands for.
pub open spec fn number(digits: Seq<u8>) -> nat
    decreases digits.len(),
{
    if digits.len() == 0 {
        0
    } else {
        number(digits.drop_last()) * 10 + (digits.last() - 48) as nat
    }
}

/// The decimal text of a signed number: `-` and the digits of the magnitude
/// below zero, the bare digits otherwise.
pub open spec fn signed_decimal(i: int) -> Seq<u8> {
    if i < 0 {
        seq![45u8] + decimal((-i) as nat)
    } else {
        decimal(i as nat)
    }
}

/// The signed number that a decimal text stands for.
pub open spec fn signed_number(text: Seq<u8>) -> int {
    if text.len() > 0 && text[0] == 45u8 {
        -(number(text.skip(1)) as int)
    } else {
        number(text) as int
    }
}

/// True of the ten bytes `'0'..='9'`.
pub open spec fn is_digit(b: u8) -> bool {
    48 <= b <= 57
}

/// Bytes read as characters, one for one.
pub open spec fn ascii(bytes: Seq<u8>) -> Seq<char> {
    Seq::new(bytes.len(), |i: int| bytes[i] as char)
}

/// Ten to the power `k`.
pub open spec fn pow10(k: nat) -> nat
    decreases k,
{
    if k == 0 {
        1
    } else {
        10 * pow10((k - 1) as nat)
    }
}

/// Every byte of a decimal rendering is a digit, and there is at least one.
pub proof fn lemma_decimal_digits(n: nat)
    ensures
        decimal(n).len() >= 1,
        forall|i: int| 0 <= i < decimal(n).len() ==> is_digit(#[trigger] decimal(n)[i]),
    decreases n,
{
    if n >= 10 {
        lemma_decimal_digits(n / 10);
    }
}

/// A number below ten to the `k` has at most `k` digits.
pub proof fn lemma_decimal_len(n: nat, k: nat)
    requires
        k >= 1,
        n < pow10(k),
    ensures
        decimal(n).len() <= k,
    decreases k,
{
    reveal_with_fuel(pow10, 2);
    if n >= 10 {
        lemma_decimal_len(n / 10, (k - 1) as nat);
    }
}

/// No `u64` has more than twenty digits.
pub proof fn lemma_decimal_len_u64(n: u64)
    ensures
        1 <= decimal(n as nat).len() <= 20,
{
    assert(pow10(20) == 100000000000000000000) by {
        reveal_with_fuel(pow10, 21);
    }
    lemma_decimal_len(n as nat, 20);
    lemma_decimal_digits(n as nat);
}

/// Reading back the digits of a number gives the number.
pub proof fn lemma_number_of_decimal(n: nat)
    ensures
        number(decimal(n)) == n,
    decreases n,
{
    reveal_with_fuel(number, 2);
    if n < 10 {
        assert(decimal(n).drop_last() =~= Seq::<u8>::empty());
        assert(decimal(n).last() == 48 + n);
    } else {
        lemma_number_of_decimal(n / 10);
        assert(decimal(n).drop_last() =~= decimal(n / 10));
        assert(decimal(n).last() == 48 + n % 10);
    }
}

/// Reading back a signed rendering gives the number: the sign is told from
/// the first byte alone, because no digit is a `-`.
pub proof fn lemma_signed_round_trip(i: int)
    ensures
        signed_number(signed_decimal(i)) == i,
{
    if i < 0 {
        let digits = decimal((-i) as nat);
        assert(signed_decimal(i).skip(1) =~= digits);
        lemma_number_of_decimal((-i) as nat);
    } else {
        lemma_decimal_digits(i as nat);
        assert(is_digit(decimal(i as nat)[0]));
        lemma_number_of_decimal(i as nat);
    }
}

/// Zero is written `"0"`, with or without a sign in front of the literal; a
/// number below zero starts with one `-` and has digits after it, nothing else.
pub proof fn lemma_signed_shape(i: int)
    ensures
        i == 0 ==> signed_decimal(i) == seq![48u8],
        i < 0 ==> signed_decimal(i)[0] == 45u8,
        forall|k: int|
            (if i < 0 { 1int } else { 0int }) <= k < signed_decimal(i).len() ==> is_digit(
                #[trigger] signed_decimal(i)[k],
            ),
{
    if i < 0 {
        lemma_decimal_digits((-i) as nat);
        assert forall|k: int| 1 <= k < signed_decimal(i).len() implies is_digit(
            #[trigger] signed_decimal(i)[k],
        ) by {
            assert(signed_decimal(i)[k] == decimal((-i) as nat)[k - 1]);
        }
    } else {
        lemma_decimal_digits(i as nat);
    }
}

/// Writes the decimal digits of `n` into `buf`, starting at `at`, and returns
/// the position after the last digit. Nothing else in `buf` changes.
pub(crate) fn write_decimal(n: u64, buf: &mut [u8], at: usize) -> (end: usize)
    requires
        at + decimal(n as nat).len() <= old(buf)@.len(),
    ensures
        end == at + decimal(n as nat).len(),
        final(buf)@.len() == old(buf)@.len(),
        final(buf)@.subrange(at as int, end as int) == decimal(n as nat),
        forall|j: int|
            0 <= j < old(buf)@.len() && !(at <= j < end) ==> final(buf)@[j] == old(buf)@[j],
{
    proof {
        lemma_decimal_len_u64(n);
    }
    let capacity: usize = buf.len();
    let mut len: usize = 1;
    let mut q: u64 = n / 10;
    while q > 0
        invariant
            1 <= len <= 20,
            decimal(n as nat).len() <= 20,
            decimal(n as nat).len() == len + (if q > 0 {
                decimal(q as nat).len()
            } else {
                0
            }),
        decreases q,
    {
        proof {
            lemma_decimal_digits((q / 10) as nat);
        }
        q = q / 10;
        len = len + 1;
    }
    let ghost target = decimal(n as nat);
    let mut i: usize = len;
    let mut rest: u64 = n;
    while i > 0
        invariant
            0 <= i <= len,
            len == target.len(),
            target == decimal(n as nat),
            at + len <= buf@.len(),
            buf@.len() == old(buf)@.len(),
            buf@.len() == capacity,
            i > 0 ==> decimal(rest as nat) =~= target.subrange(0, i as int),
            forall|k: int| i <= k < len ==> buf@[at + k] == #[trigger] target[k],
            forall|j: int|
                0 <= j < buf@.len() && !(at <= j < at + len) ==> buf@[j] == old(buf)@[j],
        decreases i,
    {
        let digit: u8 = (rest % 10) as u8;
        i = i - 1;
        proof {
            if rest >= 10 {
                assert(decimal(rest as nat).drop_last() =~= decimal((rest / 10) as nat));
                assert(target.subrange(0, i as int) =~= target.subrange(0, i + 1).drop_last());
            }
            assert(decimal(rest as nat).last() == 48 + rest % 10);
            assert(target[i as int] == target.subrange(0, i + 1).last());
        }
        buf[at + i] = 48 + digit;
        rest = rest / 10;
    }
    proof {
        assert(buf@.subrange(at as int, at + len) =~= target);
    }
    at + len
}

/// Appends one character to a string.
///
/// Trusted: this is `String::push`, which std documents as appending the
/// given `char` to the end of the string.
#[verifier::external_body]
pub(crate) fn push_char(s: &mut String, c: char)
    ensures
        final(s)@ == old(s)@.push(c),
{
    s.push(c)
}

/// Appends the decimal digits of `n` to a string.
pub fn push_decimal(s: &mut String, n: u64)
    ensures
        final(s)@ == old(s)@ + ascii(decimal(n as nat)),
{
    proof {
        lemma_decimal_len_u64(n);
    }
    let mut buf: [u8; 20] = [0u8; 20];
    let end = write_decimal(n, &mut buf, 0);
    let mut i: usize = 0;
    while i < end
        invariant
            0 <= i <= end <= 20,
            buf@.subrange(0, end as int) == decimal(n as nat),
            s@ == old(s)@ + ascii(decimal(n as nat)).subrange(0, i as int),
        decreases end - i,
    {
        proof {
            lemma_decimal_digits(n as nat);
            assert(buf@[i as int] == buf@.subrange(0, end as int)[i as int]);
            assert(is_digit(decimal(n as nat)[i as int]));
        }
        let c: char = buf[i] as char;
        push_char(s, c);
        i = i + 1;
        proof {
            assert(ascii(decimal(n as nat)).subrange(0, i as int) =~= ascii(
                decimal(n as nat),
            ).subrange(0, i - 1).push(c));
        }
    }
    proof {
        assert(ascii(decimal(n as nat)).subrange(0, end as int) =~= ascii(decimal(n as nat)));
    }
}

/// Whether two slices hold the same bytes.
pub fn same_bytes(a: &[u8], b: &[u8]) -> (same: bool)
    ensures
        same == (a@ == b@),
{
    if a.len() != b.len() {
        return false;
    }
    let mut i: usize = 0;
    while i < a.len()
        invariant
            0 <= i <= a@.len(),
            a@.len() == b@.len(),
            forall|j: int| 0 <= j < i ==> a@[j] == b@[j],
        decreases a@.len() - i,
    {
        if a[i] != b[i] {
            return false;
        }
        i = i + 1;
    }
    proof {
        assert(a@ =~= b@);
    }
    true
}

/// Whether two strings hold the same text.
pub fn same_text(a: &str, b: &str) -> (same: bool)
    ensures
        same == (a@ == b@),
{
    proof {
        encode_utf8_decode_utf8(a@);
        encode_utf8_decode_utf8(b@);
    }
    same_bytes(a.as_bytes(), b.as_bytes())
}

/// `base`, a `/`, and `segment`: the path of `segment` under `base`.
pub fn join(base: &str, segment: &str) -> (path: String)
    ensures
        path@ == base@ + seq!['/'] + segment@,
{
    let mut path = String::from_str(base);
    push_char(&mut path, '/');
    path.append(segment);
    proof {
        assert(base@.push('/') =~= base@ + seq!['/']);
    }
    path
}

/// The decimal digits of `n` as a string.
pub fn decimal_string(n: u64) -> (s: String)
    ensures
        s@ == ascii(decimal(n as nat)),
{
    let mut s = String::new();
    push_decimal(&mut s, n);
    proof {
        assert(Seq::<char>::empty() + ascii(decimal(n as nat)) =~= ascii(decimal(n as nat)));
    }
    s
}

} // verus!
