//! Verifying keys and the verification protocol.
//!
//! A verifying key is a public key put to one use. To verify a message it
//! asks the curve for the digest of the message, for the scalar of that
//! digest, and then for the verdict of the verification primitive on the
//! scalar, the signature and the key's point. It reports the verdict and
//! nothing else.

use core::marker::PhantomData;
use vstd::prelude::*;
use vstd::slice::slice_to_vec;
use vstd::std_specs::cmp::PartialEqSpecImpl;
use vstd::std_specs::convert::FromSpecImpl;
use crate::curve::{
    ask_compression, ask_digest, ask_field_size, ask_primitive, ask_scalar, compression_answer,
    digest_answer, field_size_answer, primitive_answer, scalar_answer, Curve, DigestPrimitive,
    PointCompression, VerifyPrimitive,
};
use crate::error::Error;
use crate::public_key::{
    answers_again, lemma_decode_encode_round_trip, lemma_decode_encode_same_point, sec1_decoding,
    PublicKey,
};
use crate::sec1::{sec1_encoding, EncodedPoint};

verus! {

/// A signature for curve `C`: an opaque value of twice the curve's field
/// size in bytes.
#[derive(Debug)]
pub struct Signature<C: Curve> {
    bytes: Vec<u8>,
    curve: PhantomData<C>,
}

impl<C: Curve> View for Signature<C> {
    type V = Seq<u8>;

    /// The bytes of the signature.
    closed spec fn view(&self) -> Seq<u8> {
        self.bytes@
    }
}

impl<C: Curve> Signature<C> {
    #[verifier::type_invariant]
    spec fn sized(self) -> bool {
        exists|n: usize| #[trigger] field_size_answer::<C>(n) && self.bytes@.len() == 2 * n
    }

    /// The signature is twice as long as a field size that the curve
    /// reported.
    pub closed spec fn is_valid(self) -> bool {
        self.sized()
    }

    /// Reads a signature: succeeds exactly when `bytes` is twice as long as
    /// the field size that the curve reports.
    pub fn from_bytes(bytes: &[u8]) -> (res: Result<Self, Error>)
        ensures
            exists|n: usize| #[trigger]
                field_size_answer::<C>(n) && (res is Ok <==> bytes@.len() == 2 * n),
            res matches Ok(signature) ==> signature@ == bytes@ && signature.is_valid(),
    {
        let n: usize = ask_field_size::<C>();
        let len: usize = bytes.len();
        if len % 2 != 0 || len / 2 != n {
            return Err(Error::new());
        }
        Ok(Signature { bytes: slice_to_vec(bytes), curve: PhantomData })
    }

    /// The bytes of the signature.
    pub fn as_bytes(&self) -> (bytes: &[u8])
        ensures
            bytes@ == self@,
    {
        self.bytes.as_slice()
    }
}

impl<C: Curve> Clone for Signature<C> {
    /// A signature with the same bytes.
    fn clone(&self) -> (copy: Self)
        ensures
            copy@ == self@,
    {
        proof {
            use_type_invariant(self);
        }
        Signature { bytes: slice_to_vec(self.bytes.as_slice()), curve: PhantomData }
    }
}

/// What verifying a digest can come to with curve `C`: the verdict `ok` of
/// the primitive on the key's point, the signature, and a scalar that the
/// curve gave for the digest.
pub open spec fn digest_verification<C: VerifyPrimitive>(
    x: Seq<u8>,
    y: Seq<u8>,
    digest: Seq<u8>,
    signature: Seq<u8>,
    ok: bool,
) -> bool {
    exists|z: Seq<u8>| #[trigger]
        scalar_answer::<C>(digest, z) && primitive_answer::<C>(x, y, z, signature, ok)
}

/// What verifying a message can come to with curve `C`: what verifying a
/// digest of the message comes to, for a digest that the curve gave; and a
/// failure if that digest has not the width of a field element.
pub open spec fn message_verification<C: VerifyPrimitive + DigestPrimitive>(
    x: Seq<u8>,
    y: Seq<u8>,
    message: Seq<u8>,
    signature: Seq<u8>,
    ok: bool,
) -> bool {
    exists|digest: Seq<u8>| #[trigger]
        digest_answer::<C>(message, digest) && (if digest.len() == x.len() {
            digest_verification::<C>(x, y, digest, signature, ok)
        } else {
            !ok
        })
}

/// A key that verifies signatures for curve `C`.
#[derive(Debug)]
pub struct VerifyingKey<C: Curve> {
    inner: PublicKey<C>,
}

impl<C: Curve> VerifyingKey<C> {
    /// The public key inside.
    pub closed spec fn public_key(self) -> PublicKey<C> {
        self.inner
    }

    /// The verifying key that holds `public_key`.
    pub closed spec fn of_public_key(public_key: PublicKey<C>) -> VerifyingKey<C> {
        VerifyingKey { inner: public_key }
    }

    /// The `x` coordinate of the key's point.
    pub open spec fn x(self) -> Seq<u8> {
        self.public_key().x()
    }

    /// The `y` coordinate of the key's point.
    pub open spec fn y(self) -> Seq<u8> {
        self.public_key().y()
    }

    /// The key holds a valid public key.
    pub open spec fn is_valid(self) -> bool {
        self.public_key().is_valid()
    }

    /// Makes a verifying key from the bytes of an encoded point, compressed
    /// or not.
    ///
    /// Fails, without saying why, when the bytes are not framed for the
    /// curve's field size, when they encode the point at infinity, and when
    /// the curve does not accept the point.
    pub fn from_sec1_bytes(bytes: &[u8]) -> (res: Result<Self, Error>)
        ensures
            match res {
                Ok(key) => sec1_decoding::<C>(bytes@, Some((key.x(), key.y()))) && key.is_valid(),
                Err(_) => sec1_decoding::<C>(bytes@, None),
            },
    {
        match PublicKey::from_sec1_bytes(bytes) {
            Ok(inner) => Ok(VerifyingKey { inner }),
            Err(_) => Err(Error::new()),
        }
    }

    /// Makes a verifying key from an encoded point.
    ///
    /// Fails, without saying why, when the point is framed for another field
    /// size than the curve's, when it is the point at infinity, and when the
    /// curve does not accept it.
    pub fn from_encoded_point(public_key: &EncodedPoint) -> (res: Result<Self, Error>)
        ensures
            match res {
                Ok(key) => sec1_decoding::<C>(public_key@, Some((key.x(), key.y())))
                    && key.is_valid(),
                Err(_) => sec1_decoding::<C>(public_key@, None),
            },
    {
        match PublicKey::from_encoded_point(public_key) {
            Some(inner) => Ok(VerifyingKey { inner }),
            None => Err(Error::new()),
        }
    }

    /// The encoding of the key's point: the tag and `x` alone when
    /// compressed, the tag, `x` and `y` otherwise.
    pub fn to_encoded_point(&self, compress: bool) -> (point: EncodedPoint)
        ensures
            point@ == sec1_encoding(self.x(), self.y(), compress),
            point.field_len() == self.x().len(),
            point.is_valid(),
    {
        self.inner.to_encoded_point(compress)
    }

    /// Number of bytes of a field element of the key's curve, which is the
    /// width that a digest must have.
    pub fn field_size(&self) -> (n: usize)
        ensures
            n == self.x().len(),
    {
        self.inner.field_size()
    }

    /// The public key inside.
    pub fn as_public_key(&self) -> (key: &PublicKey<C>)
        ensures
            *key == self.public_key(),
    {
        &self.inner
    }
}

impl<C: VerifyPrimitive> VerifyingKey<C> {
    /// Verifies a signature against a digest that was computed over the
    /// message beforehand and has the width of a field element.
    ///
    /// Succeeds exactly when the primitive accepts the signature for the
    /// key's point and the scalar of the digest. A refusal does not say
    /// whether the signature was malformed or wrong.
    pub fn verify_digest(&self, digest: &[u8], signature: &Signature<C>) -> (res: Result<
        (),
        Error,
    >)
        requires
            digest@.len() == self.x().len(),
        ensures
            digest_verification::<C>(self.x(), self.y(), digest@, signature@, res is Ok),
    {
        let z: Vec<u8> = ask_scalar::<C>(digest);
        let x: &[u8] = self.inner.x_bytes();
        let y: &[u8] = self.inner.y_bytes();
        match ask_primitive::<C>(x, y, z.as_slice(), signature.as_bytes()) {
            Ok(()) => Ok(()),
            Err(_) => Err(Error::new()),
        }
    }
}

impl<C: VerifyPrimitive + DigestPrimitive> VerifyingKey<C> {
    /// Verifies a signature against a message: hashes the whole message
    /// with the curve's digest algorithm and verifies the digest.
    pub fn verify(&self, message: &[u8], signature: &Signature<C>) -> (res: Result<(), Error>)
        ensures
            message_verification::<C>(self.x(), self.y(), message@, signature@, res is Ok),
    {
        let digest: Vec<u8> = ask_digest::<C>(message);
        if digest.len() != self.field_size() {
            return Err(Error::new());
        }
        self.verify_digest(digest.as_slice(), signature)
    }
}

impl<C: Curve> Clone for VerifyingKey<C> {
    /// A key for the same point.
    fn clone(&self) -> (copy: Self)
        ensures
            copy.x() == self.x(),
            copy.y() == self.y(),
            copy.is_valid(),
    {
        VerifyingKey { inner: self.inner.clone() }
    }
}

impl<C: Curve> PartialEq for VerifyingKey<C> {
    /// Two keys are equal when their points have the same coordinates.
    fn eq(&self, other: &Self) -> (same: bool) {
        self.inner.eq(&other.inner)
    }
}

impl<C: Curve> PartialEqSpecImpl for VerifyingKey<C> {
    open spec fn obeys_eq_spec() -> bool {
        true
    }

    open spec fn eq_spec(&self, other: &Self) -> bool {
        self.x() == other.x() && self.y() == other.y()
    }
}

impl<C: Curve> Eq for VerifyingKey<C> {}

impl<C: Curve> From<PublicKey<C>> for VerifyingKey<C> {
    /// The verifying key that holds `public_key`.
    fn from(public_key: PublicKey<C>) -> (key: VerifyingKey<C>) {
        VerifyingKey { inner: public_key }
    }
}

impl<C: Curve> FromSpecImpl<PublicKey<C>> for VerifyingKey<C> {
    open spec fn obeys_from_spec() -> bool {
        true
    }

    open spec fn from_spec(public_key: PublicKey<C>) -> VerifyingKey<C> {
        VerifyingKey::of_public_key(public_key)
    }
}

impl<C: Curve> From<VerifyingKey<C>> for PublicKey<C> {
    /// The public key that `key` holds.
    fn from(key: VerifyingKey<C>) -> (public_key: PublicKey<C>) {
        key.inner
    }
}

impl<C: Curve> FromSpecImpl<VerifyingKey<C>> for PublicKey<C> {
    open spec fn obeys_from_spec() -> bool {
        true
    }

    open spec fn from_spec(key: VerifyingKey<C>) -> PublicKey<C> {
        key.public_key()
    }
}

impl<C: Curve> From<&PublicKey<C>> for VerifyingKey<C> {
    /// A verifying key that holds a copy of `public_key`.
    fn from(public_key: &PublicKey<C>) -> (key: VerifyingKey<C>)
        ensures
            key.x() == public_key.x(),
            key.y() == public_key.y(),
            key.is_valid(),
    {
        VerifyingKey { inner: public_key.clone() }
    }
}

impl<C: Curve> FromSpecImpl<&PublicKey<C>> for VerifyingKey<C> {
    open spec fn obeys_from_spec() -> bool {
        false
    }

    open spec fn from_spec(public_key: &PublicKey<C>) -> VerifyingKey<C> {
        VerifyingKey::of_public_key(*public_key)
    }
}

impl<C: Curve> From<&VerifyingKey<C>> for PublicKey<C> {
    /// A copy of the public key that `key` holds.
    fn from(key: &VerifyingKey<C>) -> (public_key: PublicKey<C>)
        ensures
            public_key.x() == key.x(),
            public_key.y() == key.y(),
            public_key.is_valid(),
    {
        key.inner.clone()
    }
}

impl<C: Curve> FromSpecImpl<&VerifyingKey<C>> for PublicKey<C> {
    open spec fn obeys_from_spec() -> bool {
        false
    }

    open spec fn from_spec(key: &VerifyingKey<C>) -> PublicKey<C> {
        key.public_key()
    }
}

impl<C: PointCompression> From<&VerifyingKey<C>> for EncodedPoint {
    /// The encoding of the key's point, compressed if the curve compresses
    /// points by default.
    fn from(key: &VerifyingKey<C>) -> (point: EncodedPoint)
        ensures
            exists|compress: bool| #[trigger]
                compression_answer::<C>(compress) && point@ == sec1_encoding(
                    key.x(),
                    key.y(),
                    compress,
                ),
            point.field_len() == key.x().len(),
            point.is_valid(),
    {
        key.to_encoded_point(ask_compression::<C>())
    }
}

impl<C: PointCompression> FromSpecImpl<&VerifyingKey<C>> for EncodedPoint {
    open spec fn obeys_from_spec() -> bool {
        false
    }

    open spec fn from_spec(key: &VerifyingKey<C>) -> EncodedPoint {
        arbitrary()
    }
}

/// Conversion between a verifying key and its public key loses nothing in
/// either direction.
pub proof fn lemma_conversions_are_lossless<C: Curve>(public_key: PublicKey<C>, key: VerifyingKey<C>)
    ensures
        VerifyingKey::of_public_key(public_key).public_key() == public_key,
        VerifyingKey::of_public_key(key.public_key()) == key,
{
}

/// Round trip: decoding the encoding of a valid verifying key, compressed
/// or not, gives the key's own point, for every curve that answers again as
/// a curve does.
pub proof fn lemma_key_round_trip<C: Curve>(
    key: VerifyingKey<C>,
    compress: bool,
    res: Option<(Seq<u8>, Seq<u8>)>,
)
    requires
        key.is_valid(),
        answers_again::<C>(key.x(), key.y(), compress),
        sec1_decoding::<C>(sec1_encoding(key.x(), key.y(), compress), res),
    ensures
        res == Some((key.x(), key.y())),
{
    lemma_decode_encode_round_trip(key.public_key(), compress, res);
}

/// Whatever the curve answers, decoding the encoding of a valid verifying
/// key gives no other point: a result has the key's `x`, and for an
/// uncompressed encoding the key's `y` too.
pub proof fn lemma_key_round_trip_same_point<C: Curve>(
    key: VerifyingKey<C>,
    compress: bool,
    res: Option<(Seq<u8>, Seq<u8>)>,
)
    requires
        key.is_valid(),
        sec1_decoding::<C>(sec1_encoding(key.x(), key.y(), compress), res),
    ensures
        res matches Some((x, y)) ==> x == key.x() && (!compress ==> y == key.y()),
{
    lemma_decode_encode_same_point(key.public_key(), compress, res);
}

} // verus!
