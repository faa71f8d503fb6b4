//! What a curve supplies: the arithmetic that this library consumes and does
//! not implement.
//!
//! Field elements, scalars, digests and signatures cross this boundary as
//! big-endian byte strings. The library promises nothing about what an
//! implementation answers. Its contracts instead record which questions were
//! asked and relate each result to the answer that came back, through the
//! relations defined here: `on_curve_answer::<C>(x, y, ok)` reads "asked
//! whether `x`, `y` is a point, curve `C` can answer `ok`".

use vstd::prelude::*;
use crate::error::Error;

verus! {

/// An elliptic curve in short Weierstrass form, seen through its field size
/// and its tests of membership.
///
/// An implementation is expected to answer every question, also for
/// coordinates of the wrong length, which it refuses.
pub trait Curve: Sized {
    /// Number of bytes of a serialized field element.
    fn field_size() -> usize;

    /// Whether `x` and `y` are the coordinates of a point of the curve.
    fn is_on_curve(x: &[u8], y: &[u8]) -> bool;

    /// The `y` coordinate of the point of the curve that has the given `x`
    /// coordinate and the given parity of `y`, if there is one.
    fn decompress(x: &[u8], y_is_odd: bool) -> Option<Vec<u8>>;
}

/// The verification equation of a signature scheme over a curve.
pub trait VerifyPrimitive: Curve {
    /// The scalar, reduced modulo the order of the curve, that a digest of
    /// the field's width stands for.
    fn scalar_from_digest(digest: &[u8]) -> Vec<u8>;

    /// Whether `signature` is valid for the message scalar `z` under the
    /// public point with coordinates `x` and `y`.
    fn verify_prehashed(x: &[u8], y: &[u8], z: &[u8], signature: &[u8]) -> Result<(), Error>;
}

/// The digest algorithm that goes with a curve.
pub trait DigestPrimitive: Curve {
    /// The digest of a whole message, hashed in one shot.
    fn digest(message: &[u8]) -> Vec<u8>;
}

/// Whether points of a curve are written compressed when nothing else is
/// asked for.
pub trait PointCompression: Curve {
    /// Whether an encoding is compressed by default.
    fn compress_points() -> bool;
}

/// The bytes of an optional byte string.
pub open spec fn bytes_of(value: Option<Vec<u8>>) -> Option<Seq<u8>> {
    match value {
        Some(bytes) => Some(bytes@),
        None => None,
    }
}

/// Curve `C` can report `n` as its field size.
pub open spec fn field_size_answer<C: Curve>(n: usize) -> bool {
    call_ensures(C::field_size, (), n)
}

/// Asked whether `x`, `y` is one of its points, curve `C` can answer `ok`.
pub open spec fn on_curve_answer<C: Curve>(x: Seq<u8>, y: Seq<u8>, ok: bool) -> bool {
    exists|xs: &[u8], ys: &[u8]|
        xs@ == x && ys@ == y && #[trigger] call_ensures(C::is_on_curve, (xs, ys), ok)
}

/// Asked to decompress `x` with the given parity, curve `C` can answer `y`.
pub open spec fn decompress_answer<C: Curve>(x: Seq<u8>, y_is_odd: bool, y: Option<Seq<u8>>) -> bool {
    exists|xs: &[u8], out: Option<Vec<u8>>|
        xs@ == x && bytes_of(out) == y && #[trigger] call_ensures(
            C::decompress,
            (xs, y_is_odd),
            out,
        )
}

/// Asked for the scalar of `digest`, curve `C` can answer `z`.
pub open spec fn scalar_answer<C: VerifyPrimitive>(digest: Seq<u8>, z: Seq<u8>) -> bool {
    exists|ds: &[u8], out: Vec<u8>|
        ds@ == digest && out@ == z && #[trigger] call_ensures(C::scalar_from_digest, (ds,), out)
}

/// Asked to check `signature` for the scalar `z` under the point `x`, `y`,
/// the primitive of curve `C` can accept it (`ok`) or refuse it (`!ok`).
pub open spec fn primitive_answer<C: VerifyPrimitive>(
    x: Seq<u8>,
    y: Seq<u8>,
    z: Seq<u8>,
    signature: Seq<u8>,
    ok: bool,
) -> bool {
    exists|xs: &[u8], ys: &[u8], zs: &[u8], sig: &[u8], out: Result<(), Error>|
        xs@ == x && ys@ == y && zs@ == z && sig@ == signature && (out is Ok) == ok
            && #[trigger] call_ensures(C::verify_prehashed, (xs, ys, zs, sig), out)
}

/// Asked for the digest of `message`, curve `C` can answer `digest`.
pub open spec fn digest_answer<C: DigestPrimitive>(message: Seq<u8>, digest: Seq<u8>) -> bool {
    exists|ms: &[u8], out: Vec<u8>|
        ms@ == message && out@ == digest && #[trigger] call_ensures(C::digest, (ms,), out)
}

/// Asked whether it compresses points by default, curve `C` can answer
/// `compress`.
pub open spec fn compression_answer<C: PointCompression>(compress: bool) -> bool {
    call_ensures(C::compress_points, (), compress)
}

/// Asks the curve whether it compresses points by default.
pub(crate) fn ask_compression<C: PointCompression>() -> (compress: bool)
    ensures
        compression_answer::<C>(compress),
{
    C::compress_points()
}

/// Asks the curve for its field size.
pub(crate) fn ask_field_size<C: Curve>() -> (n: usize)
    ensures
        field_size_answer::<C>(n),
{
    C::field_size()
}

/// Asks the curve whether `x`, `y` is one of its points.
pub(crate) fn ask_on_curve<C: Curve>(x: &[u8], y: &[u8]) -> (ok: bool)
    ensures
        on_curve_answer::<C>(x@, y@, ok),
{
    C::is_on_curve(x, y)
}

/// Asks the curve to decompress `x` with the given parity of `y`.
pub(crate) fn ask_decompress<C: Curve>(x: &[u8], y_is_odd: bool) -> (y: Option<Vec<u8>>)
    ensures
        decompress_answer::<C>(x@, y_is_odd, bytes_of(y)),
{
    C::decompress(x, y_is_odd)
}

/// Asks the curve for the scalar of a digest.
pub(crate) fn ask_scalar<C: VerifyPrimitive>(digest: &[u8]) -> (z: Vec<u8>)
    ensures
        scalar_answer::<C>(digest@, z@),
{
    C::scalar_from_digest(digest)
}

/// Asks the primitive of the curve to check a signature.
pub(crate) fn ask_primitive<C: VerifyPrimitive>(x: &[u8], y: &[u8], z: &[u8], signature: &[u8]) -> (res:
    Result<(), Error>)
    ensures
        primitive_answer::<C>(x@, y@, z@, signature@, res is Ok),
{
    C::verify_prehashed(x, y, z, signature)
}

/// Asks the curve's digest algorithm for the digest of a message.
pub(crate) fn ask_digest<C: DigestPrimitive>(message: &[u8]) -> (digest: Vec<u8>)
    ensures
        digest_answer::<C>(message@, digest@),
{
    C::digest(message)
}

} // verus!
