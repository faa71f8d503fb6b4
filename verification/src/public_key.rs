//! Public keys: points that a curve has vouched for.
//!
//! A key holds the affine coordinates of its point as big-endian bytes. It
//! is made only from an encoding whose coordinates the curve accepted, or
//! whose `x` coordinate the curve decompressed, and it does not change
//! afterwards.

use core::marker::PhantomData;
use vstd::prelude::*;
use vstd::slice::slice_to_vec;
use vstd::std_specs::cmp::PartialEqSpecImpl;
use crate::curve::{
    ask_decompress, ask_field_size, ask_on_curve, decompress_answer, field_size_answer,
    on_curve_answer, Curve,
};
use crate::error::Error;
use crate::sec1::{
    is_framed, is_odd, lemma_encoding_is_framed, sec1_encoding, tag_of, x_of, y_of, EncodedPoint,
    Tag,
};

verus! {

/// Curve `C` has vouched for the point `x`, `y`: it accepted the
/// coordinates, or it produced `y` when asked to decompress `x`.
pub open spec fn vouched<C: Curve>(x: Seq<u8>, y: Seq<u8>) -> bool {
    on_curve_answer::<C>(x, y, true) || exists|y_is_odd: bool| #[trigger]
        decompress_answer::<C>(x, y_is_odd, Some(y))
}

/// The point that a decompressed `y` gives with `x`, provided that `y` has
/// the length of a field element.
pub open spec fn admitted(x: Seq<u8>, y: Option<Seq<u8>>, field_size: nat) -> Option<
    (Seq<u8>, Seq<u8>),
> {
    match y {
        Some(y) => if y.len() == field_size {
            Some((x, y))
        } else {
            None
        },
        None => None,
    }
}

/// What decoding can make of a compressed point with curve `C`: the point
/// with the `y` that the curve decompresses to, when that has the length of
/// a field element, and nothing otherwise.
pub open spec fn compressed_decoding<C: Curve>(
    x: Seq<u8>,
    y_is_odd: bool,
    field_size: nat,
    res: Option<(Seq<u8>, Seq<u8>)>,
) -> bool {
    exists|y: Option<Seq<u8>>| #[trigger]
        decompress_answer::<C>(x, y_is_odd, y) && res == admitted(x, y, field_size)
}

/// What decoding can make of a framed encoding with curve `C`.
///
/// The point at infinity is refused. An uncompressed point is accepted with
/// its own coordinates exactly when the curve accepts them. A compressed
/// point is accepted with the `y` that the curve decompresses to, when that
/// has the length of a field element.
pub open spec fn coordinates_decoding<C: Curve>(
    encoding: Seq<u8>,
    field_size: nat,
    res: Option<(Seq<u8>, Seq<u8>)>,
) -> bool
    recommends
        is_framed(encoding, field_size),
{
    let x = x_of(encoding, field_size);
    match tag_of(encoding) {
        Tag::Identity => res is None,
        Tag::Uncompressed => {
            let y = y_of(encoding, field_size);
            ||| res == Some((x, y)) && on_curve_answer::<C>(x, y, true)
            ||| res is None && on_curve_answer::<C>(x, y, false)
        },
        Tag::CompressedEvenY => compressed_decoding::<C>(x, false, field_size, res),
        Tag::CompressedOddY => compressed_decoding::<C>(x, true, field_size, res),
    }
}

/// What decoding can make of any bytes with curve `C`: nothing unless they
/// are framed for the field size that the curve reports, and otherwise what
/// `coordinates_decoding` says.
pub open spec fn sec1_decoding<C: Curve>(bytes: Seq<u8>, res: Option<(Seq<u8>, Seq<u8>)>) -> bool {
    exists|n: usize| #[trigger]
        field_size_answer::<C>(n) && (if is_framed(bytes, n as nat) {
            coordinates_decoding::<C>(bytes, n as nat, res)
        } else {
            res is None
        })
}

/// Whether two byte strings are equal.
pub fn bytes_equal(a: &[u8], b: &[u8]) -> (same: bool)
    ensures
        same == (a@ == b@),
{
    if a.len() != b.len() {
        return false;
    }
    let mut i: usize = 0;
    while i < a.len()
        invariant
            i <= a.len(),
            a.len() == b.len(),
            forall|k: int| 0 <= k < i ==> a@[k] == b@[k],
        decreases a.len() - i,
    {
        if a[i] != b[i] {
            return false;
        }
        i += 1;
    }
    assert(a@ =~= b@);
    true
}

/// A public key of curve `C`: the affine coordinates of a point that the
/// curve has vouched for.
#[derive(Debug)]
pub struct PublicKey<C: Curve> {
    x: Vec<u8>,
    y: Vec<u8>,
    curve: PhantomData<C>,
}

/// The coordinates of a key, if there is one.
pub open spec fn key_coordinates<C: Curve>(key: Option<PublicKey<C>>) -> Option<
    (Seq<u8>, Seq<u8>),
> {
    match key {
        Some(key) => Some((key.x(), key.y())),
        None => None,
    }
}

impl<C: Curve> PublicKey<C> {
    #[verifier::type_invariant]
    spec fn vouched_for(self) -> bool {
        &&& self.x@.len() == self.y@.len()
        &&& self.x@.len() <= usize::MAX
        &&& field_size_answer::<C>(self.x@.len() as usize)
        &&& vouched::<C>(self.x@, self.y@)
    }

    /// The `x` coordinate of the point.
    pub closed spec fn x(self) -> Seq<u8> {
        self.x@
    }

    /// The `y` coordinate of the point.
    pub closed spec fn y(self) -> Seq<u8> {
        self.y@
    }

    /// What holds of every key that the library hands out.
    pub closed spec fn is_valid(self) -> bool {
        self.vouched_for()
    }

    /// A valid key has coordinates of one length, which the curve reported
    /// as its field size, and the curve has vouched for its point.
    pub proof fn lemma_valid_key(self)
        requires
            self.is_valid(),
        ensures
            self.x().len() == self.y().len(),
            self.x().len() <= usize::MAX,
            field_size_answer::<C>(self.x().len() as usize),
            vouched::<C>(self.x(), self.y()),
    {
    }

    /// Decodes a point that is framed for the curve's field size.
    fn decode(point: &EncodedPoint) -> (res: Option<Self>)
        requires
            point.field_len() <= usize::MAX,
            field_size_answer::<C>(point.field_len() as usize),
        ensures
            coordinates_decoding::<C>(point@, point.field_len(), key_coordinates(res)),
            res matches Some(key) ==> key.is_valid(),
    {
        let tag: Tag = point.tag();
        proof {
            point.lemma_valid_is_framed();
        }
        let x: &[u8] = match point.x() {
            Some(x) => x,
            None => {
                return None;
            },
        };
        match point.y() {
            Some(y) => {
                if ask_on_curve::<C>(x, y) {
                    Some(PublicKey { x: slice_to_vec(x), y: slice_to_vec(y), curve: PhantomData })
                } else {
                    None
                }
            },
            None => {
                let y_is_odd: bool = tag == Tag::CompressedOddY;
                let lifted: Option<Vec<u8>> = ask_decompress::<C>(x, y_is_odd);
                match lifted {
                    Some(y) => {
                        if y.len() == x.len() {
                            Some(PublicKey { x: slice_to_vec(x), y, curve: PhantomData })
                        } else {
                            None
                        }
                    },
                    None => None,
                }
            },
        }
    }

    /// Makes a key from an encoded point.
    ///
    /// Refuses a point framed for another field size than the curve's, and
    /// the point at infinity; asks the curve about every other point.
    pub fn from_encoded_point(point: &EncodedPoint) -> (res: Option<Self>)
        ensures
            sec1_decoding::<C>(point@, key_coordinates(res)),
            res matches Some(key) ==> key.is_valid(),
    {
        let n: usize = ask_field_size::<C>();
        proof {
            point.lemma_valid_is_framed();
        }
        if point.field_size() != n {
            return None;
        }
        Self::decode(point)
    }

    /// Makes a key from the bytes of an encoded point, compressed or not.
    ///
    /// Fails when the bytes are not framed for the curve's field size, when
    /// they encode the point at infinity, and when the curve does not accept
    /// the point.
    pub fn from_sec1_bytes(bytes: &[u8]) -> (res: Result<Self, Error>)
        ensures
            match res {
                Ok(key) => sec1_decoding::<C>(bytes@, Some((key.x(), key.y()))) && key.is_valid(),
                Err(_) => sec1_decoding::<C>(bytes@, None),
            },
    {
        let n: usize = ask_field_size::<C>();
        let point: EncodedPoint = match EncodedPoint::from_bytes(bytes, n) {
            Ok(point) => point,
            Err(_) => {
                return Err(Error::new());
            },
        };
        match Self::decode(&point) {
            Some(key) => Ok(key),
            None => Err(Error::new()),
        }
    }

    /// The encoding of the key's point: the tag and `x` alone when
    /// compressed, the tag, `x` and `y` otherwise.
    pub fn to_encoded_point(&self, compress: bool) -> (point: EncodedPoint)
        ensures
            point@ == sec1_encoding(self.x(), self.y(), compress),
            point.field_len() == self.x().len(),
            point.is_valid(),
    {
        proof {
            use_type_invariant(self);
        }
        EncodedPoint::from_affine_coordinates(self.x.as_slice(), self.y.as_slice(), compress)
    }

    /// The `x` coordinate of the point, big-endian.
    pub fn x_bytes(&self) -> (x: &[u8])
        ensures
            x@ == self.x(),
            self.is_valid(),
    {
        proof {
            use_type_invariant(self);
        }
        self.x.as_slice()
    }

    /// The `y` coordinate of the point, big-endian.
    pub fn y_bytes(&self) -> (y: &[u8])
        ensures
            y@ == self.y(),
            self.is_valid(),
    {
        proof {
            use_type_invariant(self);
        }
        self.y.as_slice()
    }

    /// Number of bytes of each coordinate.
    pub fn field_size(&self) -> (n: usize)
        ensures
            n == self.x().len(),
            n == self.y().len(),
    {
        proof {
            use_type_invariant(self);
        }
        self.x.len()
    }
}

impl<C: Curve> Clone for PublicKey<C> {
    /// A key for the same point.
    fn clone(&self) -> (copy: Self)
        ensures
            copy.x() == self.x(),
            copy.y() == self.y(),
            copy.is_valid(),
    {
        proof {
            use_type_invariant(self);
        }
        PublicKey {
            x: slice_to_vec(self.x.as_slice()),
            y: slice_to_vec(self.y.as_slice()),
            curve: PhantomData,
        }
    }
}

impl<C: Curve> PartialEq for PublicKey<C> {
    /// Two keys are equal when their points have the same coordinates.
    fn eq(&self, other: &Self) -> (same: bool) {
        bytes_equal(self.x.as_slice(), other.x.as_slice()) && bytes_equal(
            self.y.as_slice(),
            other.y.as_slice(),
        )
    }
}

impl<C: Curve> PartialEqSpecImpl for PublicKey<C> {
    open spec fn obeys_eq_spec() -> bool {
        true
    }

    open spec fn eq_spec(&self, other: &Self) -> bool {
        self.x() == other.x() && self.y() == other.y()
    }
}

impl<C: Curve> Eq for PublicKey<C> {}

/// Asked again about the point `x`, `y`, curve `C` answers as a curve does:
/// it reports the field size that the coordinates have and, for an
/// uncompressed point, accepts the coordinates; for a compressed one, it
/// decompresses `x` with the parity of `y` to `y` itself.
pub open spec fn answers_again<C: Curve>(x: Seq<u8>, y: Seq<u8>, compress: bool) -> bool {
    &&& forall|n: usize| #[trigger] field_size_answer::<C>(n) ==> n == x.len()
    &&& if compress {
        forall|out: Option<Seq<u8>>| #[trigger]
            decompress_answer::<C>(x, is_odd(y), out) ==> out == Some(y)
    } else {
        !on_curve_answer::<C>(x, y, false)
    }
}

/// Round trip: decoding the encoding of a valid key, compressed or not,
/// gives the key's own point, for every curve that answers again as a curve
/// does.
pub proof fn lemma_decode_encode_round_trip<C: Curve>(
    key: PublicKey<C>,
    compress: bool,
    res: Option<(Seq<u8>, Seq<u8>)>,
)
    requires
        key.is_valid(),
        answers_again::<C>(key.x(), key.y(), compress),
        sec1_decoding::<C>(sec1_encoding(key.x(), key.y(), compress), res),
    ensures
        res == Some((key.x(), key.y())),
{
    key.lemma_valid_key();
    let encoding = sec1_encoding(key.x(), key.y(), compress);
    let n = choose|n: usize| #[trigger]
        field_size_answer::<C>(n) && (if is_framed(encoding, n as nat) {
            coordinates_decoding::<C>(encoding, n as nat, res)
        } else {
            res is None
        });
    lemma_encoding_is_framed(key.x(), key.y(), compress, n as nat);
}

/// Whatever the curve answers, decoding the encoding of a valid key gives
/// no other point: a result has the key's `x`, and for an uncompressed
/// encoding the key's `y` too.
pub proof fn lemma_decode_encode_same_point<C: Curve>(
    key: PublicKey<C>,
    compress: bool,
    res: Option<(Seq<u8>, Seq<u8>)>,
)
    requires
        key.is_valid(),
        sec1_decoding::<C>(sec1_encoding(key.x(), key.y(), compress), res),
    ensures
        res matches Some((x, y)) ==> x == key.x() && (!compress ==> y == key.y()),
{
    key.lemma_valid_key();
    let encoding = sec1_encoding(key.x(), key.y(), compress);
    let n = choose|n: usize| #[trigger]
        field_size_answer::<C>(n) && (if is_framed(encoding, n as nat) {
            coordinates_decoding::<C>(encoding, n as nat, res)
        } else {
            res is None
        });
    lemma_encoding_is_framed(key.x(), key.y(), compress, n as nat);
}

/// Two valid keys have the same coordinates exactly when their uncompressed
/// encodings are the same bytes.
pub proof fn lemma_equal_keys_encode_alike<C: Curve>(a: PublicKey<C>, b: PublicKey<C>)
    requires
        a.is_valid(),
        b.is_valid(),
    ensures
        (a.x() == b.x() && a.y() == b.y()) <==> sec1_encoding(a.x(), a.y(), false)
            == sec1_encoding(b.x(), b.y(), false),
{
    a.lemma_valid_key();
    b.lemma_valid_key();
    let ea = sec1_encoding(a.x(), a.y(), false);
    let eb = sec1_encoding(b.x(), b.y(), false);
    if ea == eb {
        assert(ea.len() == 1 + 2 * a.x().len());
        assert(eb.len() == 1 + 2 * b.x().len());
        lemma_encoding_is_framed(a.x(), a.y(), false, a.x().len());
        lemma_encoding_is_framed(b.x(), b.y(), false, b.x().len());
    }
}

} // verus!
