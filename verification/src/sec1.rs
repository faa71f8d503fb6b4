//! SEC1 framing of elliptic-curve points.
//!
//! An encoded point is one tag byte followed by coordinates, each a
//! big-endian field element: `0x04`, `x`, `y` for an uncompressed point;
//! `0x02` or `0x03`, `x` for a compressed point with an even or odd `y`;
//! the single byte `0x00` for the point at infinity. This module checks and
//! builds that frame. Whether the coordinates lie on a curve is not decided
//! here.

use vstd::prelude::*;
use vstd::slice::{slice_subrange, slice_to_vec};
use crate::error::Error;

verus! {

/// The leading byte of an encoded point.
#[derive(Clone, Copy, Debug, PartialEq, Eq, Structural)]
pub enum Tag {
    /// The point at infinity, `0x00`.
    Identity,
    /// A compressed point whose `y` coordinate is even, `0x02`.
    CompressedEvenY,
    /// A compressed point whose `y` coordinate is odd, `0x03`.
    CompressedOddY,
    /// An uncompressed point, `0x04`.
    Uncompressed,
}

/// Whether a big-endian coordinate is odd: its last byte has the low bit set.
pub open spec fn is_odd(coordinate: Seq<u8>) -> bool {
    coordinate.len() > 0 && coordinate.last() % 2 == 1
}

impl Tag {
    /// The tag that a byte stands for, if it is one of the four tag bytes.
    pub open spec fn of_byte(byte: u8) -> Option<Tag> {
        if byte == 0 {
            Some(Tag::Identity)
        } else if byte == 2 {
            Some(Tag::CompressedEvenY)
        } else if byte == 3 {
            Some(Tag::CompressedOddY)
        } else if byte == 4 {
            Some(Tag::Uncompressed)
        } else {
            None
        }
    }

    /// The byte that writes this tag.
    pub open spec fn byte(self) -> u8 {
        match self {
            Tag::Identity => 0,
            Tag::CompressedEvenY => 2,
            Tag::CompressedOddY => 3,
            Tag::Uncompressed => 4,
        }
    }

    /// Whether this tag announces a compressed point.
    pub open spec fn compressed(self) -> bool {
        self == Tag::CompressedEvenY || self == Tag::CompressedOddY
    }

    /// Length of a whole encoded point that starts with this tag, for field
    /// elements of `field_size` bytes.
    pub open spec fn frame_len(self, field_size: nat) -> nat {
        match self {
            Tag::Identity => 1,
            Tag::CompressedEvenY | Tag::CompressedOddY => 1 + field_size,
            Tag::Uncompressed => 1 + 2 * field_size,
        }
    }

    /// The compressed tag for a `y` coordinate.
    pub open spec fn of_parity(y: Seq<u8>) -> Tag {
        if is_odd(y) {
            Tag::CompressedOddY
        } else {
            Tag::CompressedEvenY
        }
    }

    /// Whether this is the tag of the point at infinity.
    pub fn is_identity(self) -> (b: bool)
        ensures
            b == (self == Tag::Identity),
    {
        match self {
            Tag::Identity => true,
            _ => false,
        }
    }

    /// Whether this tag announces a compressed point.
    pub fn is_compressed(self) -> (b: bool)
        ensures
            b == self.compressed(),
    {
        match self {
            Tag::CompressedEvenY | Tag::CompressedOddY => true,
            _ => false,
        }
    }

    /// The compressed tag for a `y` coordinate, chosen by the low bit of its
    /// last byte. An empty coordinate counts as even.
    pub fn compress_y(y: &[u8]) -> (tag: Tag)
        ensures
            tag == Tag::of_parity(y@),
    {
        let n: usize = y.len();
        if n > 0 && y[n - 1] % 2 == 1 {
            Tag::CompressedOddY
        } else {
            Tag::CompressedEvenY
        }
    }
}

/// `elliptic_curve::sec1::Tag::from_u8`: accepts the bytes 0, 2, 3 and 4 as
/// the four tags, in that order, and refuses every other byte.
#[verifier::external_body]
pub(crate) fn tag_from_u8(byte: u8) -> (tag: Option<Tag>)
    ensures
        tag == Tag::of_byte(byte),
{
    match elliptic_curve::sec1::Tag::from_u8(byte) {
        Ok(elliptic_curve::sec1::Tag::Identity) => Some(Tag::Identity),
        Ok(elliptic_curve::sec1::Tag::CompressedEvenY) => Some(Tag::CompressedEvenY),
        Ok(elliptic_curve::sec1::Tag::CompressedOddY) => Some(Tag::CompressedOddY),
        Ok(elliptic_curve::sec1::Tag::Uncompressed) => Some(Tag::Uncompressed),
        Err(_) => None,
    }
}

/// `elliptic_curve::sec1::Tag::message_len`: one byte for the tag, plus
/// nothing for the point at infinity, one field element for a compressed
/// point and two for an uncompressed point. The sum must fit in `usize`.
#[verifier::external_body]
pub(crate) fn tag_message_len(tag: Tag, field_size: usize) -> (len: usize)
    requires
        tag.frame_len(field_size as nat) <= usize::MAX,
    ensures
        len == tag.frame_len(field_size as nat),
{
    let outside = match tag {
        Tag::Identity => elliptic_curve::sec1::Tag::Identity,
        Tag::CompressedEvenY => elliptic_curve::sec1::Tag::CompressedEvenY,
        Tag::CompressedOddY => elliptic_curve::sec1::Tag::CompressedOddY,
        Tag::Uncompressed => elliptic_curve::sec1::Tag::Uncompressed,
    };
    outside.message_len(field_size)
}

/// The conversion of `elliptic_curve::sec1::Tag` to `u8`: the tag's byte,
/// 0, 2, 3 or 4.
#[verifier::external_body]
pub(crate) fn tag_to_u8(tag: Tag) -> (byte: u8)
    ensures
        byte == tag.byte(),
{
    let outside = match tag {
        Tag::Identity => elliptic_curve::sec1::Tag::Identity,
        Tag::CompressedEvenY => elliptic_curve::sec1::Tag::CompressedEvenY,
        Tag::CompressedOddY => elliptic_curve::sec1::Tag::CompressedOddY,
        Tag::Uncompressed => elliptic_curve::sec1::Tag::Uncompressed,
    };
    u8::from(outside)
}

/// `bytes` is a whole encoded point for field elements of `field_size`
/// bytes: it starts with a tag and has exactly the length that the tag
/// announces.
pub open spec fn is_framed(bytes: Seq<u8>, field_size: nat) -> bool {
    bytes.len() > 0 && match Tag::of_byte(bytes[0]) {
        Some(tag) => bytes.len() == tag.frame_len(field_size),
        None => false,
    }
}

/// The tag of a framed encoding.
pub open spec fn tag_of(encoding: Seq<u8>) -> Tag {
    Tag::of_byte(encoding[0]).unwrap()
}

/// The `x` coordinate of a framed encoding that is not the point at
/// infinity.
pub open spec fn x_of(encoding: Seq<u8>, field_size: nat) -> Seq<u8> {
    encoding.subrange(1, 1 + field_size as int)
}

/// The `y` coordinate of a framed uncompressed encoding.
pub open spec fn y_of(encoding: Seq<u8>, field_size: nat) -> Seq<u8> {
    encoding.subrange(1 + field_size as int, 1 + 2 * field_size as int)
}

/// The encoding of the point with coordinates `x` and `y`: the tag and `x`
/// alone when compressed, the tag, `x` and `y` otherwise.
pub open spec fn sec1_encoding(x: Seq<u8>, y: Seq<u8>, compress: bool) -> Seq<u8> {
    if compress {
        seq![Tag::of_parity(y).byte()] + x
    } else {
        seq![Tag::Uncompressed.byte()] + x + y
    }
}

/// An encoded point: bytes that are known to be framed for a field size.
///
/// The coordinates it carries are not known to lie on any curve.
#[derive(Debug, PartialEq, Eq)]
pub struct EncodedPoint {
    bytes: Vec<u8>,
    field_size: usize,
}

impl View for EncodedPoint {
    type V = Seq<u8>;

    /// The bytes of the encoding, tag first.
    closed spec fn view(&self) -> Seq<u8> {
        self.bytes@
    }
}

impl Clone for EncodedPoint {
    /// A copy with the same bytes, framed for the same field size.
    fn clone(&self) -> (copy: Self)
        ensures
            copy@ == self@,
            copy.field_len() == self.field_len(),
    {
        proof {
            use_type_invariant(self);
        }
        EncodedPoint { bytes: slice_to_vec(self.bytes.as_slice()), field_size: self.field_size }
    }
}

impl EncodedPoint {
    #[verifier::type_invariant]
    spec fn framed(self) -> bool {
        is_framed(self.bytes@, self.field_size as nat)
    }

    /// The size of a field element that this encoding was framed for.
    pub closed spec fn field_len(self) -> nat {
        self.field_size as nat
    }

    /// The encoding is framed for its field size.
    pub closed spec fn is_valid(self) -> bool {
        self.framed()
    }

    /// Validity is framing, for the views that contracts speak of.
    pub proof fn lemma_valid_is_framed(self)
        ensures
            self.is_valid() <==> is_framed(self@, self.field_len()),
    {
    }

    /// Reads an encoded point for field elements of `field_size` bytes.
    ///
    /// Succeeds exactly when `input` starts with one of the four tags and is
    /// as long as that tag announces.
    pub fn from_bytes(input: &[u8], field_size: usize) -> (res: Result<Self, Error>)
        ensures
            res is Ok <==> is_framed(input@, field_size as nat),
            res matches Ok(point) ==> point@ == input@ && point.field_len() == field_size
                && point.is_valid(),
    {
        if input.len() == 0 {
            return Err(Error::new());
        }
        let tag: Tag = match tag_from_u8(input[0]) {
            Some(tag) => tag,
            None => {
                return Err(Error::new());
            },
        };
        let fits: bool = match tag {
            Tag::Identity => true,
            Tag::CompressedEvenY | Tag::CompressedOddY => field_size < usize::MAX,
            Tag::Uncompressed => field_size <= (usize::MAX - 1) / 2,
        };
        if !fits {
            return Err(Error::new());
        }
        let expected: usize = tag_message_len(tag, field_size);
        if input.len() != expected {
            return Err(Error::new());
        }
        Ok(EncodedPoint { bytes: slice_to_vec(input), field_size })
    }

    /// Encodes the point with the given coordinates, compressed or not.
    pub fn from_affine_coordinates(x: &[u8], y: &[u8], compress: bool) -> (point: Self)
        requires
            x@.len() == y@.len(),
        ensures
            point@ == sec1_encoding(x@, y@, compress),
            point.field_len() == x@.len(),
            point.is_valid(),
    {
        let tag: Tag = if compress {
            Tag::compress_y(y)
        } else {
            Tag::Uncompressed
        };
        let mut bytes: Vec<u8> = Vec::new();
        bytes.push(tag_to_u8(tag));
        bytes.extend_from_slice(x);
        if !compress {
            bytes.extend_from_slice(y);
        }
        assert(bytes@ =~= sec1_encoding(x@, y@, compress));
        EncodedPoint { bytes, field_size: x.len() }
    }

    /// The encoding of the point at infinity.
    pub fn identity(field_size: usize) -> (point: Self)
        ensures
            point@ == seq![Tag::Identity.byte()],
            point.field_len() == field_size,
            point.is_valid(),
    {
        let mut bytes: Vec<u8> = Vec::new();
        bytes.push(tag_to_u8(Tag::Identity));
        assert(bytes@ =~= seq![Tag::Identity.byte()]);
        EncodedPoint { bytes, field_size }
    }

    /// The bytes of the encoding, tag first.
    pub fn as_bytes(&self) -> (bytes: &[u8])
        ensures
            bytes@ == self@,
            self.is_valid(),
    {
        proof {
            use_type_invariant(self);
        }
        self.bytes.as_slice()
    }

    /// Length of the encoding in bytes.
    pub fn len(&self) -> (n: usize)
        ensures
            n == self@.len(),
    {
        self.bytes.len()
    }

    /// The size of a field element that this encoding was framed for.
    pub fn field_size(&self) -> (n: usize)
        ensures
            n == self.field_len(),
            self.is_valid(),
    {
        proof {
            use_type_invariant(self);
        }
        self.field_size
    }

    /// The tag of the encoding.
    pub fn tag(&self) -> (tag: Tag)
        ensures
            self.is_valid(),
            tag == tag_of(self@),
            self@.len() == tag.frame_len(self.field_len()),
    {
        proof {
            use_type_invariant(self);
        }
        match tag_from_u8(self.bytes[0]) {
            Some(tag) => tag,
            None => Tag::Identity,
        }
    }

    /// Whether this encodes the point at infinity.
    pub fn is_identity(&self) -> (b: bool)
        ensures
            b == (tag_of(self@) == Tag::Identity),
    {
        self.tag().is_identity()
    }

    /// Whether this is a compressed encoding.
    pub fn is_compressed(&self) -> (b: bool)
        ensures
            b == tag_of(self@).compressed(),
    {
        self.tag().is_compressed()
    }

    /// The `x` coordinate, unless this is the point at infinity.
    pub fn x(&self) -> (x: Option<&[u8]>)
        ensures
            x is None <==> tag_of(self@) == Tag::Identity,
            x matches Some(bytes) ==> bytes@ == x_of(self@, self.field_len()),
    {
        let tag: Tag = self.tag();
        let total: usize = self.bytes.len();
        match tag {
            Tag::Identity => None,
            _ => {
                assert(1 + self.field_size <= total);
                Some(slice_subrange(self.bytes.as_slice(), 1, 1 + self.field_size))
            },
        }
    }

    /// The `y` coordinate of an uncompressed point.
    pub fn y(&self) -> (y: Option<&[u8]>)
        ensures
            y is Some <==> tag_of(self@) == Tag::Uncompressed,
            y matches Some(bytes) ==> bytes@ == y_of(self@, self.field_len()),
    {
        let tag: Tag = self.tag();
        let total: usize = self.bytes.len();
        match tag {
            Tag::Uncompressed => {
                assert(1 + 2 * self.field_size == total);
                Some(
                    slice_subrange(
                        self.bytes.as_slice(),
                        1 + self.field_size,
                        1 + 2 * self.field_size,
                    ),
                )
            },
            _ => None,
        }
    }
}

/// The encoding of a point is framed for the length of its coordinates,
/// and for no other field size; it carries `x`, and `y` or its parity.
pub proof fn lemma_encoding_is_framed(x: Seq<u8>, y: Seq<u8>, compress: bool, field_size: nat)
    requires
        x.len() == y.len(),
    ensures
        is_framed(sec1_encoding(x, y, compress), field_size) <==> field_size == x.len(),
        tag_of(sec1_encoding(x, y, compress)) == (if compress {
            Tag::of_parity(y)
        } else {
            Tag::Uncompressed
        }),
        x_of(sec1_encoding(x, y, compress), x.len()) == x,
        !compress ==> y_of(sec1_encoding(x, y, compress), x.len()) == y,
{
    let encoding = sec1_encoding(x, y, compress);
    assert(x_of(encoding, x.len()) =~= x);
    if !compress {
        assert(y_of(encoding, x.len()) =~= y);
    }
}

} // verus!
