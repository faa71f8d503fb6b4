//! Strict fixed-width hexadecimal text for two-component signatures.
//!
//! A signature of `2 * N` bytes is written as exactly `4 * N` ASCII
//! hexadecimal digits, the first component first. Text is accepted only when
//! all of its letters share one case.

use vstd::prelude::*;
use vstd::string::*;
use vstd::utf8::*;
use crate::error::Error;

verus! {

/// ASCII `0`.
pub const DIGIT_0: u8 = 0x30;

/// ASCII `9`.
pub const DIGIT_9: u8 = 0x39;

/// ASCII `A`.
pub const UPPER_A: u8 = 0x41;

/// ASCII `F`.
pub const UPPER_F: u8 = 0x46;

/// ASCII `Z`.
pub const UPPER_Z: u8 = 0x5a;

/// ASCII `a`.
pub const LOWER_A: u8 = 0x61;

/// ASCII `f`.
pub const LOWER_F: u8 = 0x66;

/// ASCII `z`.
pub const LOWER_Z: u8 = 0x7a;

/// `c` is an ASCII decimal digit.
pub open spec fn is_digit(c: u8) -> bool {
    DIGIT_0 <= c <= DIGIT_9
}

/// `c` is an ASCII lowercase letter.
pub open spec fn is_lower_letter(c: u8) -> bool {
    LOWER_A <= c <= LOWER_Z
}

/// `c` is an ASCII uppercase letter.
pub open spec fn is_upper_letter(c: u8) -> bool {
    UPPER_A <= c <= UPPER_Z
}

/// `c` is a hexadecimal digit written without uppercase letters.
pub open spec fn is_lower_hex(c: u8) -> bool {
    is_digit(c) || LOWER_A <= c <= LOWER_F
}

/// `c` is a hexadecimal digit written without lowercase letters.
pub open spec fn is_upper_hex(c: u8) -> bool {
    is_digit(c) || UPPER_A <= c <= UPPER_F
}

/// The value of a hexadecimal digit of either case.
pub open spec fn hex_value(c: u8) -> Option<u8> {
    if is_digit(c) {
        Some((c - DIGIT_0) as u8)
    } else if LOWER_A <= c <= LOWER_F {
        Some((c - LOWER_A + 10) as u8)
    } else if UPPER_A <= c <= UPPER_F {
        Some((c - UPPER_A + 10) as u8)
    } else {
        None
    }
}

/// Every character of `text` is a lowercase hexadecimal digit.
pub open spec fn all_lower_hex(text: Seq<u8>) -> bool {
    forall|i: int| 0 <= i < text.len() ==> is_lower_hex(#[trigger] text[i])
}

/// Every character of `text` is an uppercase hexadecimal digit.
pub open spec fn all_upper_hex(text: Seq<u8>) -> bool {
    forall|i: int| 0 <= i < text.len() ==> is_upper_hex(#[trigger] text[i])
}

/// `text` is hexadecimal and its letters, if any, share one case.
pub open spec fn is_strict_hex(text: Seq<u8>) -> bool {
    all_lower_hex(text) || all_upper_hex(text)
}

/// The byte that two hexadecimal digits denote, most significant first.
pub open spec fn pair_value(hi: u8, lo: u8) -> u8 {
    (16 * hex_value(hi).unwrap() + hex_value(lo).unwrap()) as u8
}

/// The bytes that hexadecimal `text` denotes, two digits per byte.
pub open spec fn hex_decoded(text: Seq<u8>) -> Seq<u8> {
    Seq::new(text.len() / 2, |i: int| pair_value(text[2 * i], text[2 * i + 1]))
}

/// What strict decoding makes of `text` for a value of `byte_len` bytes:
/// the bytes it denotes when it has exactly two digits per byte and is
/// strict hexadecimal, and nothing otherwise.
pub open spec fn strict_decoding(text: Seq<u8>, byte_len: nat) -> Option<Seq<u8>> {
    if text.len() == 2 * byte_len && is_strict_hex(text) {
        Some(hex_decoded(text))
    } else {
        None
    }
}

/// The ASCII digit for a value below sixteen, in the requested case.
pub open spec fn hex_digit(nibble: u8, upper: bool) -> u8 {
    if nibble < 10 {
        (DIGIT_0 + nibble) as u8
    } else if upper {
        (UPPER_A + nibble - 10) as u8
    } else {
        (LOWER_A + nibble - 10) as u8
    }
}

/// The hexadecimal text of `bytes`: two digits per byte, high digit first,
/// with no prefix and no separators.
pub open spec fn hex_encoded(bytes: Seq<u8>, upper: bool) -> Seq<u8> {
    Seq::new(
        2 * bytes.len(),
        |i: int|
            if i % 2 == 0 {
                hex_digit(bytes[i / 2] / 16, upper)
            } else {
                hex_digit(bytes[i / 2] % 16, upper)
            },
    )
}

/// ASCII bytes read as characters.
pub open spec fn ascii_text(bytes: Seq<u8>) -> Seq<char> {
    Seq::new(bytes.len(), |i: int| bytes[i] as char)
}

/// A signature made of two components of `N` bytes each.
///
/// Every pair of components is a value of the type; the serialized form is
/// the first component followed by the second, `2 * N` bytes in all.
#[derive(Clone, Copy, Debug, PartialEq, Eq)]
pub struct Signature<const N: usize> {
    /// First component.
    pub r: [u8; N],
    /// Second component.
    pub s: [u8; N],
}

impl<const N: usize> View for Signature<N> {
    type V = Seq<u8>;

    /// The serialized signature.
    open spec fn view(&self) -> Seq<u8> {
        self.r@ + self.s@
    }
}

/// `String::push` of the standard library: appends one character to the end
/// of the string and leaves the rest as it was.
#[verifier::external_body]
fn push_char(text: &mut String, c: char)
    ensures
        final(text)@ == old(text)@.push(c),
{
    text.push(c);
}

/// The value of one hexadecimal digit, or nothing for any other byte.
pub fn hex_digit_value(c: u8) -> (v: Option<u8>)
    ensures
        v == hex_value(c),
        v matches Some(d) ==> d < 16,
{
    if DIGIT_0 <= c && c <= DIGIT_9 {
        Some(c - DIGIT_0)
    } else if LOWER_A <= c && c <= LOWER_F {
        Some(c - LOWER_A + 10)
    } else if UPPER_A <= c && c <= UPPER_F {
        Some(c - UPPER_A + 10)
    } else {
        None
    }
}

/// The character that writes a value below sixteen in the requested case.
pub fn hex_char(nibble: u8, upper: bool) -> (c: char)
    requires
        nibble < 16,
    ensures
        c == hex_digit(nibble, upper) as char,
{
    if nibble < 10 {
        (DIGIT_0 + nibble) as char
    } else if upper {
        (UPPER_A + (nibble - 10)) as char
    } else {
        (LOWER_A + (nibble - 10)) as char
    }
}

/// Appends the hexadecimal text of `bytes` to `out`.
pub fn append_hex(out: &mut String, bytes: &[u8], upper: bool)
    ensures
        final(out)@ == old(out)@ + ascii_text(hex_encoded(bytes@, upper)),
{
    let mut i: usize = 0;
    while i < bytes.len()
        invariant
            i <= bytes.len(),
            out@ == old(out)@ + ascii_text(hex_encoded(bytes@.subrange(0, i as int), upper)),
        decreases bytes.len() - i,
    {
        let byte: u8 = bytes[i];
        push_char(out, hex_char(byte / 16, upper));
        push_char(out, hex_char(byte % 16, upper));
        i += 1;
        proof {
            let shorter = hex_encoded(bytes@.subrange(0, i - 1), upper);
            let longer = hex_encoded(bytes@.subrange(0, i as int), upper);
            assert(ascii_text(longer) =~= ascii_text(shorter).push(
                hex_digit(byte / 16, upper) as char,
            ).push(hex_digit(byte % 16, upper) as char));
            assert(out@ =~= old(out)@ + ascii_text(longer));
        }
    }
    proof {
        assert(bytes@.subrange(0, bytes.len() as int) =~= bytes@);
    }
}

/// The text of two byte strings in a row is the text of the first followed
/// by the text of the second.
pub proof fn lemma_hex_encoded_concat(a: Seq<u8>, b: Seq<u8>, upper: bool)
    ensures
        hex_encoded(a + b, upper) == hex_encoded(a, upper) + hex_encoded(b, upper),
{
    let whole = hex_encoded(a + b, upper);
    let parts = hex_encoded(a, upper) + hex_encoded(b, upper);
    assert(whole.len() == parts.len());
    assert forall|i: int| 0 <= i < whole.len() implies whole[i] == parts[i] by {
        if i < 2 * a.len() {
            assert((a + b)[i / 2] == a[i / 2]);
        } else {
            let j = i - 2 * a.len();
            assert(j / 2 == i / 2 - a.len());
            assert(j % 2 == i % 2);
            assert((a + b)[i / 2] == b[j / 2]);
        }
    }
    assert(whole =~= parts);
}

/// Hexadecimal text is ASCII, so its characters and its UTF-8 bytes agree.
pub proof fn lemma_hex_text_is_ascii(bytes: Seq<u8>, upper: bool)
    ensures
        is_ascii_chars(ascii_text(hex_encoded(bytes, upper))),
        encode_utf8(ascii_text(hex_encoded(bytes, upper))) == hex_encoded(bytes, upper),
{
    let text = hex_encoded(bytes, upper);
    let chars = ascii_text(text);
    assert forall|i: int| 0 <= i < chars.len() implies '\0' <= #[trigger] chars[i] <= '\u{7f}' by {
        assert(text[i] < 0x80);
    }
    is_ascii_chars_encode_utf8(chars);
    assert forall|i: int| 0 <= i < text.len() implies encode_utf8(chars)[i] == text[i] by {
        assert(chars[i] as u8 == encode_utf8(chars)[i]);
        assert(text[i] < 0x80);
    }
    assert(encode_utf8(chars) =~= text);
}

impl<const N: usize> Signature<N> {
    /// Number of bytes of a serialized signature.
    pub open spec fn byte_len() -> nat {
        2 * (N as nat)
    }

    /// Number of bytes of a serialized signature.
    pub fn byte_size() -> (n: usize)
        requires
            2 * N <= usize::MAX,
        ensures
            n == Self::byte_len(),
    {
        2 * N
    }

    /// Builds a signature from its two components.
    pub fn from_components(r: [u8; N], s: [u8; N]) -> (sig: Self)
        ensures
            sig.r == r,
            sig.s == s,
    {
        Signature { r, s }
    }

    /// The first component.
    pub fn r_bytes(&self) -> (r: &[u8; N])
        ensures
            *r == self.r,
    {
        &self.r
    }

    /// The second component.
    pub fn s_bytes(&self) -> (s: &[u8; N])
        ensures
            *s == self.s,
    {
        &self.s
    }

    /// The serialized signature: the first component, then the second.
    pub fn to_bytes(&self) -> (bytes: Vec<u8>)
        ensures
            bytes@ == self@,
    {
        let mut bytes: Vec<u8> = Vec::new();
        let mut i: usize = 0;
        while i < N
            invariant
                i <= N,
                bytes@ == self.r@.subrange(0, i as int),
            decreases N - i,
        {
            bytes.push(self.r[i]);
            i += 1;
            assert(bytes@ =~= self.r@.subrange(0, i as int));
        }
        let mut j: usize = 0;
        while j < N
            invariant
                j <= N,
                bytes@ == self.r@ + self.s@.subrange(0, j as int),
            decreases N - j,
        {
            bytes.push(self.s[j]);
            j += 1;
            assert(bytes@ =~= self.r@ + self.s@.subrange(0, j as int));
        }
        assert(bytes@ =~= self.r@ + self.s@);
        bytes
    }

    /// Reads a serialized signature: succeeds exactly on `2 * N` bytes, and
    /// splits them into the two components.
    pub fn from_slice(bytes: &[u8]) -> (res: Result<Self, Error>)
        ensures
            res is Ok <==> bytes@.len() == Self::byte_len(),
            res matches Ok(sig) ==> sig@ == bytes@,
    {
        let len: usize = bytes.len();
        if len % 2 != 0 || len / 2 != N {
            return Err(Error::new());
        }
        let mut r: [u8; N] = [0u8; N];
        let mut s: [u8; N] = [0u8; N];
        let mut i: usize = 0;
        while i < N
            invariant
                i <= N,
                len == 2 * N,
                len == bytes@.len(),
                forall|k: int| 0 <= k < i ==> r@[k] == bytes@[k],
                forall|k: int| 0 <= k < i ==> s@[k] == bytes@[N + k],
            decreases N - i,
        {
            r[i] = bytes[i];
            s[i] = bytes[N + i];
            i += 1;
        }
        let sig = Signature { r, s };
        assert(sig@ =~= bytes@);
        Ok(sig)
    }

    /// The signature as hexadecimal text in the requested case.
    fn to_hex(&self, upper: bool) -> (text: String)
        ensures
            text@ == ascii_text(hex_encoded(self@, upper)),
            encode_utf8(text@) == hex_encoded(self@, upper),
    {
        let mut text = String::new();
        append_hex(&mut text, self.r.as_slice(), upper);
        append_hex(&mut text, self.s.as_slice(), upper);
        proof {
            lemma_hex_encoded_concat(self.r@, self.s@, upper);
            lemma_hex_text_is_ascii(self@, upper);
            assert(text@ =~= ascii_text(hex_encoded(self@, upper)));
        }
        text
    }

    /// The signature as lowercase hexadecimal text: digits `0-9a-f`, the
    /// first component first, two digits per byte.
    pub fn to_lower_hex(&self) -> (text: String)
        ensures
            text@ == ascii_text(hex_encoded(self@, false)),
            encode_utf8(text@) == hex_encoded(self@, false),
    {
        self.to_hex(false)
    }

    /// The signature as uppercase hexadecimal text: digits `0-9A-F`, the
    /// first component first, two digits per byte.
    pub fn to_upper_hex(&self) -> (text: String)
        ensures
            text@ == ascii_text(hex_encoded(self@, true)),
            encode_utf8(text@) == hex_encoded(self@, true),
    {
        self.to_hex(true)
    }
}

impl<const N: usize> Signature<N> {
    /// Decodes strict hexadecimal text given as ASCII bytes.
    ///
    /// The text must hold exactly two digits for each byte of the signature.
    /// A first pass rejects every byte that is neither a digit nor a letter,
    /// and every text that mixes lowercase and uppercase letters; a second
    /// pass reads the digits two at a time and rejects letters beyond `f`.
    pub fn from_hex_bytes(text: &[u8]) -> (res: Result<Self, Error>)
        ensures
            match res {
                Ok(sig) => strict_decoding(text@, Self::byte_len()) == Some(sig@),
                Err(_) => strict_decoding(text@, Self::byte_len()) is None,
            },
    {
        let len: usize = text.len();
        if len % 4 != 0 || len / 4 != N {
            return Err(Error::new());
        }
        let mut upper_case: Option<bool> = None;
        let ghost mut lower_at: int = 0;
        let ghost mut upper_at: int = 0;
        let mut i: usize = 0;
        while i < len
            invariant
                i <= len,
                len == text@.len(),
                forall|k: int|
                    0 <= k < i ==> is_digit(#[trigger] text@[k]) || is_lower_letter(text@[k])
                        || is_upper_letter(text@[k]),
                upper_case != Some(false) ==> forall|k: int|
                    0 <= k < i ==> !is_lower_letter(#[trigger] text@[k]),
                upper_case != Some(true) ==> forall|k: int|
                    0 <= k < i ==> !is_upper_letter(#[trigger] text@[k]),
                upper_case == Some(false) ==> 0 <= lower_at < i && is_lower_letter(text@[lower_at]),
                upper_case == Some(true) ==> 0 <= upper_at < i && is_upper_letter(text@[upper_at]),
            decreases len - i,
        {
            let byte: u8 = text[i];
            if DIGIT_0 <= byte && byte <= DIGIT_9 {
            } else if LOWER_A <= byte && byte <= LOWER_Z {
                match upper_case {
                    Some(true) => {
                        proof {
                            lemma_mixed_case_is_not_strict(text@, i as int, upper_at);
                        }
                        return Err(Error::new());
                    },
                    Some(false) => {},
                    None => {
                        upper_case = Some(false);
                        proof {
                            lower_at = i as int;
                        }
                    },
                }
            } else if UPPER_A <= byte && byte <= UPPER_Z {
                match upper_case {
                    Some(true) => {},
                    Some(false) => {
                        proof {
                            lemma_mixed_case_is_not_strict(text@, lower_at, i as int);
                        }
                        return Err(Error::new());
                    },
                    None => {
                        upper_case = Some(true);
                        proof {
                            upper_at = i as int;
                        }
                    },
                }
            } else {
                proof {
                    lemma_not_hex_is_not_strict(text@, i as int);
                }
                return Err(Error::new());
            }
            i += 1;
        }
        let mut bytes: Vec<u8> = Vec::new();
        let mut k: usize = 0;
        while k < len / 2
            invariant
                k <= len / 2,
                len == text@.len(),
                len == 4 * N,
                bytes@.len() == k,
                forall|j: int| 0 <= j < 2 * k ==> hex_value(#[trigger] text@[j]) is Some,
                forall|j: int|
                    0 <= j < k ==> #[trigger] bytes@[j] == pair_value(text@[2 * j], text@[2 * j + 1]),
            decreases len / 2 - k,
        {
            let hi: Option<u8> = hex_digit_value(text[2 * k]);
            let lo: Option<u8> = hex_digit_value(text[2 * k + 1]);
            match (hi, lo) {
                (Some(h), Some(l)) => {
                    bytes.push(h * 16 + l);
                },
                (None, _) => {
                    proof {
                        lemma_not_hex_is_not_strict(text@, 2 * k);
                    }
                    return Err(Error::new());
                },
                (_, None) => {
                    proof {
                        lemma_not_hex_is_not_strict(text@, 2 * k + 1);
                    }
                    return Err(Error::new());
                },
            }
            k += 1;
        }
        proof {
            assert(bytes@ =~= hex_decoded(text@));
            if upper_case == Some(true) {
                assert(all_upper_hex(text@)) by {
                    assert forall|j: int| 0 <= j < text@.len() implies is_upper_hex(
                        #[trigger] text@[j],
                    ) by {
                        assert(hex_value(text@[j]) is Some);
                        assert(!is_lower_letter(text@[j]));
                    }
                }
            } else {
                assert(all_lower_hex(text@)) by {
                    assert forall|j: int| 0 <= j < text@.len() implies is_lower_hex(
                        #[trigger] text@[j],
                    ) by {
                        assert(hex_value(text@[j]) is Some);
                        assert(!is_upper_letter(text@[j]));
                    }
                }
            }
        }
        Self::from_slice(bytes.as_slice())
    }

    /// Decodes a signature from strict hexadecimal text.
    ///
    /// Succeeds exactly when the text is `4 * N` bytes long, consists of
    /// hexadecimal digits only, and does not mix lowercase with uppercase
    /// letters; the result then holds the bytes that the digits denote.
    pub fn from_str(hex: &str) -> (res: Result<Self, Error>)
        ensures
            match res {
                Ok(sig) => strict_decoding(hex.spec_bytes(), Self::byte_len()) == Some(sig@),
                Err(_) => strict_decoding(hex.spec_bytes(), Self::byte_len()) is None,
            },
    {
        Self::from_hex_bytes(hex.as_bytes())
    }
}

/// Text with a byte that is no hexadecimal digit is not strict hexadecimal.
pub proof fn lemma_not_hex_is_not_strict(text: Seq<u8>, at: int)
    requires
        0 <= at < text.len(),
        hex_value(text[at]) is None,
    ensures
        !is_strict_hex(text),
{
    assert(!is_lower_hex(text[at]));
    assert(!is_upper_hex(text[at]));
}

/// Text that holds a lowercase letter and an uppercase letter, wherever they
/// stand, is not strict hexadecimal.
pub proof fn lemma_mixed_case_is_not_strict(text: Seq<u8>, lower_at: int, upper_at: int)
    requires
        0 <= lower_at < text.len(),
        0 <= upper_at < text.len(),
        is_lower_letter(text[lower_at]),
        is_upper_letter(text[upper_at]),
    ensures
        !is_strict_hex(text),
{
    assert(!is_upper_hex(text[lower_at]));
    assert(!is_lower_hex(text[upper_at]));
}

/// A hexadecimal digit written in either case reads back as its value.
pub proof fn lemma_digit_round_trip(nibble: u8, upper: bool)
    requires
        nibble < 16,
    ensures
        hex_value(hex_digit(nibble, upper)) == Some(nibble),
        upper ==> is_upper_hex(hex_digit(nibble, upper)),
        !upper ==> is_lower_hex(hex_digit(nibble, upper)),
{
}

/// Round trip on bytes: the text of any byte string, in either case, is
/// accepted for that length and decodes to the same bytes.
pub proof fn lemma_hex_round_trip(bytes: Seq<u8>, upper: bool)
    ensures
        strict_decoding(hex_encoded(bytes, upper), bytes.len()) == Some(bytes),
{
    let text = hex_encoded(bytes, upper);
    assert forall|i: int| 0 <= i < text.len() implies (if upper {
        is_upper_hex(#[trigger] text[i])
    } else {
        is_lower_hex(text[i])
    }) by {
        lemma_digit_round_trip(bytes[i / 2] / 16, upper);
        lemma_digit_round_trip(bytes[i / 2] % 16, upper);
    }
    assert(is_strict_hex(text));
    let back = hex_decoded(text);
    assert(back.len() == bytes.len());
    assert forall|i: int| 0 <= i < bytes.len() implies back[i] == bytes[i] by {
        lemma_digit_round_trip(bytes[i] / 16, upper);
        lemma_digit_round_trip(bytes[i] % 16, upper);
        assert((2 * i) / 2 == i && (2 * i) % 2 == 0);
        assert((2 * i + 1) / 2 == i && (2 * i + 1) % 2 == 1);
        assert(text[2 * i] == hex_digit(bytes[i] / 16, upper));
        assert(text[2 * i + 1] == hex_digit(bytes[i] % 16, upper));
    }
    assert(back =~= bytes);
}

/// A signature is determined by its serialized bytes.
pub proof fn lemma_signature_from_view<const N: usize>(a: Signature<N>, b: Signature<N>)
    requires
        a@ == b@,
    ensures
        a == b,
{
    assert forall|i: int| 0 <= i < N implies a.r[i] == b.r[i] by {
        assert(a@[i] == a.r@[i]);
        assert(b@[i] == b.r@[i]);
    }
    assert forall|i: int| 0 <= i < N implies a.s[i] == b.s[i] by {
        assert(a@[N + i] == a.s@[i]);
        assert(b@[N + i] == b.s@[i]);
    }
    assert(a.r =~= b.r);
    assert(a.s =~= b.s);
}

/// Round trip: the lowercase and the uppercase text of a signature both
/// decode, and any signature read from either is the signature itself.
pub proof fn lemma_signature_round_trip<const N: usize>(
    sig: Signature<N>,
    upper: bool,
    decoded: Signature<N>,
)
    requires
        strict_decoding(hex_encoded(sig@, upper), Signature::<N>::byte_len()) == Some(decoded@),
    ensures
        decoded == sig,
{
    lemma_hex_round_trip(sig@, upper);
    lemma_signature_from_view(decoded, sig);
}

/// Round trip, existence: the text of a signature in either case is accepted
/// and denotes the signature's own bytes.
pub proof fn lemma_signature_text_decodes<const N: usize>(sig: Signature<N>, upper: bool)
    ensures
        strict_decoding(hex_encoded(sig@, upper), Signature::<N>::byte_len()) == Some(sig@),
{
    lemma_hex_round_trip(sig@, upper);
}

/// Text whose length is not exactly two digits per byte is rejected,
/// whatever it holds.
pub proof fn lemma_wrong_length_rejected(text: Seq<u8>, byte_len: nat)
    requires
        text.len() != 2 * byte_len,
    ensures
        strict_decoding(text, byte_len) is None,
{
}

/// Text that holds both a lowercase and an uppercase letter is rejected,
/// wherever the two letters stand and whatever the rest is.
pub proof fn lemma_mixed_case_rejected(text: Seq<u8>, byte_len: nat)
    requires
        exists|i: int| 0 <= i < text.len() && is_lower_letter(#[trigger] text[i]),
        exists|j: int| 0 <= j < text.len() && is_upper_letter(#[trigger] text[j]),
    ensures
        strict_decoding(text, byte_len) is None,
{
    let i = choose|i: int| 0 <= i < text.len() && is_lower_letter(#[trigger] text[i]);
    let j = choose|j: int| 0 <= j < text.len() && is_upper_letter(#[trigger] text[j]);
    lemma_mixed_case_is_not_strict(text, i, j);
}

/// Text of the right length that holds decimal digits only is accepted:
/// with no letters there is no case to mix.
pub proof fn lemma_all_digits_accepted(text: Seq<u8>, byte_len: nat)
    requires
        text.len() == 2 * byte_len,
        forall|i: int| 0 <= i < text.len() ==> is_digit(#[trigger] text[i]),
    ensures
        strict_decoding(text, byte_len) is Some,
{
    assert(all_lower_hex(text));
}

} // verus!
