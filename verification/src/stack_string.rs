//! A string in a fixed buffer, held by value.
//!
//! Between `fork` and `exec` a child may only do async-signal-safe work, which
//! rules out the allocator. What the child needs there (the path of its
//! cgroup's process file, its own pid as text) is therefore put into one of
//! these before the fork and moved into the hook.

use crate::text::{
    decimal, lemma_decimal_digits, lemma_decimal_len, pow10, push_decimal, signed_decimal,
    write_decimal,
};
use vstd::prelude::*;
use vstd::slice::slice_subrange;
use vstd::string::*;
use vstd::utf8::*;

verus! {

/// Up to `N` bytes of UTF-8 text, stored inline.
///
/// The view is the text's bytes. Bytes of the buffer behind the text are zero.
#[derive(Copy, Clone, Debug)]
pub struct String<const N: usize> {
    buf: [u8; N],
    len: usize,
}

/// Why a value could not be put into a fixed buffer.
#[derive(Copy, Clone, Debug, PartialEq, Eq)]
pub enum Error {
    /// The data needs the first number of bytes, the buffer has the second.
    InvalidBufSize(usize, usize),
}

impl Error {
    /// The message for this error.
    pub fn to_string(&self) -> (message: std::string::String)
        ensures
            self matches Error::InvalidBufSize(need, cap) ==> message@
                == "Supplied data (len:"@ + crate::text::ascii(decimal(need as nat))
                + ") won't fit into buffer (len:"@ + crate::text::ascii(decimal(cap as nat))
                + ")"@,
    {
        match self {
            Error::InvalidBufSize(need, cap) => {
                let mut message = std::string::String::from_str("Supplied data (len:");
                push_decimal(&mut message, *need as u64);
                message.append(") won't fit into buffer (len:");
                push_decimal(&mut message, *cap as u64);
                message.append(")");
                message
            },
        }
    }
}

/// `text` followed by zeros, `total` long in all.
pub open spec fn zero_padded(text: Seq<u8>, total: nat) -> Seq<u8> {
    Seq::new(
        total,
        |i: int|
            if i < text.len() {
                text[i]
            } else {
                0u8
            },
    )
}

/// The buffer that holds `text` at its start and zeros behind it.
pub closed spec fn inline<const N: usize>(text: Seq<u8>) -> String<N> {
    String { buf: choose|buf: [u8; N]| buf@ == zero_padded(text, N as nat), len: text.len() as usize }
}

impl<const N: usize> View for String<N> {
    type V = Seq<u8>;

    closed spec fn view(&self) -> Seq<u8> {
        self.buf@.subrange(0, self.len as int)
    }
}

impl<const N: usize> String<N> {
    #[verifier::type_invariant]
    spec fn well_formed(self) -> bool {
        &&& self.len <= N
        &&& valid_utf8(self.buf@.subrange(0, self.len as int))
        &&& forall|i: int| self.len <= i < N ==> self.buf@[i] == 0u8
    }

    /// The buffer of a value with text `text` is `inline(text)`: two values
    /// with the same text are the same value.
    proof fn lemma_is_inline(self)
        requires
            self.well_formed(),
        ensures
            self == inline::<N>(self@),
    {
        let padded = zero_padded(self@, N as nat);
        assert(self.buf@ =~= padded);
        let other = inline::<N>(self@);
        assert(other.buf@ == padded);
        assert(other.buf =~= self.buf);
    }

    /// The empty string.
    pub fn new() -> (s: Self)
        ensures
            s@ == Seq::<u8>::empty(),
            s == inline::<N>(Seq::<u8>::empty()),
    {
        let s = String { buf: [0u8; N], len: 0 };
        proof {
            s.lemma_is_inline();
        }
        s
    }

    /// How many bytes of text the buffer holds.
    pub fn len(&self) -> (n: usize)
        ensures
            n == self@.len(),
            n <= N,
    {
        proof {
            use_type_invariant(self);
        }
        self.len
    }

    /// The text as bytes.
    pub fn as_bytes(&self) -> (bytes: &[u8])
        ensures
            bytes@ == self@,
            valid_utf8(self@),
    {
        proof {
            use_type_invariant(self);
        }
        slice_subrange(self.buf.as_slice(), 0, self.len)
    }

    /// The text, as a string of its own.
    pub fn to_string(&self) -> (text: std::string::String)
        ensures
            text@ == decode_utf8(self@),
    {
        self.as_str().to_owned()
    }

    /// The text.
    pub fn as_str(&self) -> (text: &str)
        ensures
            text.spec_bytes() == self@,
            text@ == decode_utf8(self@),
    {
        let bytes = self.as_bytes();
        match utf8_text(bytes) {
            Some(text) => {
                proof {
                    encode_utf8_decode_utf8(text@);
                }
                text
            },
            None => "",
        }
    }
}

/// Reads bytes as text.
///
/// Trusted: this is `core::str::from_utf8`, which std documents as succeeding
/// exactly on valid UTF-8 and as returning a string slice over the same bytes.
#[verifier::external_body]
fn utf8_text(bytes: &[u8]) -> (text: Option<&str>)
    ensures
        text is Some <==> valid_utf8(bytes@),
        text matches Some(s) ==> s.spec_bytes() == bytes@,
{
    core::str::from_utf8(bytes).ok()
}

/// Bytes below 128 are UTF-8 text as they stand.
pub proof fn lemma_ascii_is_utf8(bytes: Seq<u8>)
    requires
        forall|i: int| 0 <= i < bytes.len() ==> #[trigger] bytes[i] < 128,
    ensures
        valid_utf8(bytes),
        encode_utf8(crate::text::ascii(bytes)) == bytes,
        decode_utf8(bytes) == crate::text::ascii(bytes),
{
    let chars = crate::text::ascii(bytes);
    assert(is_ascii_chars(chars));
    is_ascii_chars_encode_utf8(chars);
    assert(encode_utf8(chars) =~= bytes);
    encode_utf8_valid_utf8(chars);
    encode_utf8_decode_utf8(chars);
}

/// A signed 32-bit number takes at most eleven bytes, all of them ASCII.
pub proof fn lemma_signed_decimal_fits(num: i32)
    ensures
        1 <= signed_decimal(num as int).len() <= 11,
        forall|i: int|
            0 <= i < signed_decimal(num as int).len() ==> #[trigger] signed_decimal(num as int)[i]
                < 128,
{
    let magnitude: nat = if num < 0 {
        (-num) as nat
    } else {
        num as nat
    };
    assert(pow10(10) == 10000000000) by {
        reveal_with_fuel(pow10, 11);
    }
    lemma_decimal_len(magnitude, 10);
    lemma_decimal_digits(magnitude);
    assert forall|i: int| 0 <= i < signed_decimal(num as int).len() implies #[trigger] signed_decimal(
        num as int,
    )[i] < 128 by {
        if num < 0 && i > 0 {
            assert(signed_decimal(num as int)[i] == decimal(magnitude)[i - 1]);
            assert(crate::text::is_digit(decimal(magnitude)[i - 1]));
        } else if num >= 0 {
            assert(crate::text::is_digit(decimal(magnitude)[i]));
        }
    }
}

/// The text of a rendered number is its digits, read as characters.
pub proof fn lemma_rendered_text(num: i32)
    ensures
        valid_utf8(signed_decimal(num as int)),
        decode_utf8(signed_decimal(num as int)) == crate::text::ascii(signed_decimal(num as int)),
{
    lemma_signed_decimal_fits(num);
    lemma_ascii_is_utf8(signed_decimal(num as int));
}

/// Writes `num` in decimal at the start of `buf` and returns how many bytes
/// that took. A buffer under eleven bytes is refused, whatever the number,
/// and left as it was.
pub fn serialize_i32(num: i32, buf: &mut [u8]) -> (r: Result<usize, Error>)
    ensures
        old(buf)@.len() < 11 ==> r == Err::<usize, Error>(
            Error::InvalidBufSize(11, old(buf)@.len() as usize),
        ) && final(buf)@ == old(buf)@,
        old(buf)@.len() >= 11 ==> r == Ok::<usize, Error>(signed_decimal(num as int).len() as usize)
            && final(buf)@ == signed_decimal(num as int) + old(buf)@.skip(
            signed_decimal(num as int).len() as int,
        ),
{
    let capacity = buf.len();
    if capacity < 11 {
        return Err(Error::InvalidBufSize(11, capacity));
    }
    proof {
        lemma_signed_decimal_fits(num);
    }
    let wide: i64 = num as i64;
    let end = if wide < 0 {
        buf[0] = 45;
        write_decimal((-wide) as u64, buf, 1)
    } else {
        write_decimal(wide as u64, buf, 0)
    };
    proof {
        let text = signed_decimal(num as int);
        assert(buf@ =~= text + old(buf)@.skip(text.len() as int)) by {
            assert forall|j: int| 0 <= j < buf@.len() implies buf@[j] == (text + old(buf)@.skip(
                text.len() as int,
            ))[j] by {
                if wide < 0 && 1 <= j < end {
                    assert(buf@.subrange(1, end as int)[j - 1] == buf@[j]);
                } else if wide >= 0 && j < end {
                    assert(buf@.subrange(0, end as int)[j] == buf@[j]);
                }
            }
        }
    }
    Ok(end)
}

impl vstd::std_specs::convert::FromSpecImpl<i32> for String<11> {
    open spec fn obeys_from_spec() -> bool {
        true
    }

    open spec fn from_spec(value: i32) -> Self {
        inline::<11>(signed_decimal(value as int))
    }
}

impl From<i32> for String<11> {
    /// The decimal text of `value`.
    fn from(value: i32) -> (s: Self)
        ensures
            s@ == signed_decimal(value as int),
    {
        let mut buf: [u8; 11] = [0u8; 11];
        let outcome = serialize_i32(value, &mut buf);
        let len = match outcome {
            Ok(len) => len,
            Err(_) => 0,
        };
        proof {
            lemma_signed_decimal_fits(value);
            let text = signed_decimal(value as int);
            assert(buf@.subrange(0, len as int) =~= text);
            lemma_ascii_is_utf8(text);
        }
        let s = String { buf, len };
        proof {
            s.lemma_is_inline();
        }
        s
    }
}

impl<'a, const N: usize> vstd::std_specs::convert::TryFromSpecImpl<&'a str> for String<N> {
    open spec fn obeys_try_from_spec() -> bool {
        true
    }

    open spec fn try_from_spec(value: &'a str) -> Result<Self, Error> {
        if value.spec_bytes().len() <= N {
            Ok(inline::<N>(value.spec_bytes()))
        } else {
            Err(Error::InvalidBufSize(value.spec_bytes().len() as usize, N))
        }
    }
}

impl<'a, const N: usize> TryFrom<&'a str> for String<N> {
    type Error = Error;

    /// The text of `value`, if its bytes fit into `N`.
    fn try_from(value: &'a str) -> (r: Result<Self, Error>)
        ensures
            r is Ok <==> value.spec_bytes().len() <= N,
            r matches Ok(s) ==> s@ == value.spec_bytes(),
            r matches Err(e) ==> e == Error::InvalidBufSize(value.spec_bytes().len() as usize, N),
    {
        let bytes = value.as_bytes();
        let len = bytes.len();
        if len > N {
            return Err(Error::InvalidBufSize(len, N));
        }
        let mut buf: [u8; N] = [0u8; N];
        let mut i: usize = 0;
        while i < len
            invariant
                0 <= i <= len <= N,
                len == bytes@.len(),
                forall|j: int| 0 <= j < i ==> buf@[j] == bytes@[j],
                forall|j: int| i <= j < N ==> buf@[j] == 0u8,
            decreases len - i,
        {
            buf[i] = bytes[i];
            i = i + 1;
        }
        proof {
            assert(buf@.subrange(0, len as int) =~= bytes@);
            encode_utf8_valid_utf8(value@);
        }
        let s = String { buf, len };
        proof {
            s.lemma_is_inline();
        }
        Ok(s)
    }
}

} // verus!
