use ecverify::curve::{Curve, DigestPrimitive, PointCompression, VerifyPrimitive};
use ecverify::error::Error;
use ecverify::public_key::PublicKey;
use ecverify::sec1::EncodedPoint;
use ecverify::verify::{Signature, VerifyingKey};
use std::sync::atomic::{AtomicUsize, Ordering};

/// A stand-in for a curve with field elements of two bytes. Its points are
/// the pairs whose `y` is `x` with the bytes swapped.
#[derive(Clone, Debug)]
struct Toy;

impl Curve for Toy {
    fn field_size() -> usize {
        2
    }

    fn is_on_curve(x: &[u8], y: &[u8]) -> bool {
        x.len() == 2 && y.len() == 2 && y[0] == x[1] && y[1] == x[0]
    }

    fn decompress(x: &[u8], y_is_odd: bool) -> Option<Vec<u8>> {
        if x.len() == 2 && (x[0] & 1 == 1) == y_is_odd {
            Some(vec![x[1], x[0]])
        } else {
            None
        }
    }
}

impl VerifyPrimitive for Toy {
    /// The digest with its bytes swapped.
    fn scalar_from_digest(digest: &[u8]) -> Vec<u8> {
        digest.iter().rev().cloned().collect()
    }

    /// Accepts the signature made of `x`, then `y` xor `z`.
    fn verify_prehashed(x: &[u8], y: &[u8], z: &[u8], signature: &[u8]) -> Result<(), Error> {
        if z.len() != 2 || signature.len() != 4 {
            return Err(Error::new());
        }
        if signature[..2] == *x && signature[2] == y[0] ^ z[0] && signature[3] == y[1] ^ z[1] {
            Ok(())
        } else {
            Err(Error::new())
        }
    }
}

impl DigestPrimitive for Toy {
    /// The length of the message, then the sum of its bytes.
    fn digest(message: &[u8]) -> Vec<u8> {
        let sum = message.iter().fold(0u8, |a, b| a.wrapping_add(*b));
        vec![message.len() as u8, sum]
    }
}

impl PointCompression for Toy {
    fn compress_points() -> bool {
        false
    }
}

/// Like `Toy`, but decompression hands back one byte too many.
#[derive(Clone, Debug)]
struct LongRoot;

impl Curve for LongRoot {
    fn field_size() -> usize {
        2
    }

    fn is_on_curve(x: &[u8], y: &[u8]) -> bool {
        Toy::is_on_curve(x, y)
    }

    fn decompress(x: &[u8], _y_is_odd: bool) -> Option<Vec<u8>> {
        Some(vec![x[1], x[0], 0])
    }
}

/// Like `Toy`, but with a digest one byte wider than a field element.
#[derive(Clone, Debug)]
struct WideDigest;

impl Curve for WideDigest {
    fn field_size() -> usize {
        2
    }

    fn is_on_curve(x: &[u8], y: &[u8]) -> bool {
        Toy::is_on_curve(x, y)
    }

    fn decompress(x: &[u8], y_is_odd: bool) -> Option<Vec<u8>> {
        Toy::decompress(x, y_is_odd)
    }
}

impl VerifyPrimitive for WideDigest {
    fn scalar_from_digest(digest: &[u8]) -> Vec<u8> {
        digest.to_vec()
    }

    fn verify_prehashed(_x: &[u8], _y: &[u8], _z: &[u8], _signature: &[u8]) -> Result<(), Error> {
        Ok(())
    }
}

impl DigestPrimitive for WideDigest {
    fn digest(_message: &[u8]) -> Vec<u8> {
        vec![0, 0, 0]
    }
}

/// Like `Toy`, but it accepts a point only the first time it is asked.
#[derive(Clone, Debug)]
struct Moody;

static MOODY_ASKED: AtomicUsize = AtomicUsize::new(0);

impl Curve for Moody {
    fn field_size() -> usize {
        2
    }

    fn is_on_curve(x: &[u8], y: &[u8]) -> bool {
        MOODY_ASKED.fetch_add(1, Ordering::SeqCst) == 0 && Toy::is_on_curve(x, y)
    }

    fn decompress(x: &[u8], y_is_odd: bool) -> Option<Vec<u8>> {
        Toy::decompress(x, y_is_odd)
    }
}

#[test]
fn curve_that_changes_its_answer_breaks_the_round_trip() {
    let key = VerifyingKey::<Moody>::from_sec1_bytes(&[4, 1, 2, 2, 1]).unwrap();
    let point = key.to_encoded_point(false);
    assert_eq!(point.as_bytes(), &[4, 1, 2, 2, 1]);
    assert_eq!(VerifyingKey::<Moody>::from_encoded_point(&point), Err(Error));
    // the compressed form does not ask the membership test, and still decodes
    let point = key.to_encoded_point(true);
    assert_eq!(VerifyingKey::<Moody>::from_encoded_point(&point), Ok(key));
}

#[test]
fn uncompressed_point_is_accepted_when_the_curve_accepts_it() {
    let key = VerifyingKey::<Toy>::from_sec1_bytes(&[4, 1, 2, 2, 1]).unwrap();
    assert_eq!(key.as_public_key().x_bytes(), &[1, 2]);
    assert_eq!(key.as_public_key().y_bytes(), &[2, 1]);
    assert_eq!(key.field_size(), 2);
    assert_eq!(VerifyingKey::<Toy>::from_sec1_bytes(&[4, 1, 2, 1, 2]), Err(Error));
}

#[test]
fn compressed_point_takes_the_root_of_the_curve() {
    let odd = VerifyingKey::<Toy>::from_sec1_bytes(&[3, 1, 2]).unwrap();
    assert_eq!(odd.as_public_key().y_bytes(), &[2, 1]);
    assert_eq!(VerifyingKey::<Toy>::from_sec1_bytes(&[2, 1, 2]), Err(Error));
    let even = VerifyingKey::<Toy>::from_sec1_bytes(&[2, 4, 7]).unwrap();
    assert_eq!(even.as_public_key().y_bytes(), &[7, 4]);
    assert_eq!(VerifyingKey::<Toy>::from_sec1_bytes(&[3, 4, 7]), Err(Error));
}

#[test]
fn encoded_point_and_bytes_decode_alike() {
    for bytes in [&[4u8, 1, 2, 2, 1][..], &[4, 1, 2, 1, 2], &[3, 1, 2], &[2, 1, 2], &[0]] {
        let point = EncodedPoint::from_bytes(bytes, 2).unwrap();
        assert_eq!(
            VerifyingKey::<Toy>::from_encoded_point(&point),
            VerifyingKey::<Toy>::from_sec1_bytes(bytes)
        );
        assert_eq!(
            PublicKey::<Toy>::from_encoded_point(&point),
            PublicKey::<Toy>::from_sec1_bytes(bytes).ok()
        );
    }
}

#[test]
fn root_of_the_wrong_length_is_refused() {
    assert_eq!(VerifyingKey::<LongRoot>::from_sec1_bytes(&[3, 1, 2]), Err(Error));
    assert_eq!(VerifyingKey::<LongRoot>::from_sec1_bytes(&[2, 1, 2]), Err(Error));
    assert!(VerifyingKey::<LongRoot>::from_sec1_bytes(&[4, 1, 2, 2, 1]).is_ok());
}

#[test]
fn toy_key_round_trips() {
    let key = VerifyingKey::<Toy>::from_sec1_bytes(&[4, 1, 2, 2, 1]).unwrap();
    for compress in [false, true] {
        let point = key.to_encoded_point(compress);
        assert_eq!(VerifyingKey::<Toy>::from_encoded_point(&point), Ok(key.clone()));
    }
    assert_eq!(key.to_encoded_point(false).as_bytes(), &[4, 1, 2, 2, 1]);
    assert_eq!(key.to_encoded_point(true).as_bytes(), &[3, 1, 2]);
}

#[test]
fn default_encoding_is_uncompressed_for_this_curve() {
    let key = VerifyingKey::<Toy>::from_sec1_bytes(&[3, 1, 2]).unwrap();
    assert_eq!(EncodedPoint::from(&key).as_bytes(), &[4, 1, 2, 2, 1]);
}

#[test]
fn primitive_gets_the_point_the_scalar_and_the_signature() {
    let key = VerifyingKey::<Toy>::from_sec1_bytes(&[4, 1, 2, 2, 1]).unwrap();
    // digest [0x10, 0x20] gives the scalar [0x20, 0x10]; y xor z = [0x22, 0x11]
    let good = Signature::<Toy>::from_bytes(&[1, 2, 0x22, 0x11]).unwrap();
    assert_eq!(key.verify_digest(&[0x10, 0x20], &good), Ok(()));
    assert_eq!(key.verify_digest(&[0x20, 0x10], &good), Err(Error));
    let swapped = Signature::<Toy>::from_bytes(&[2, 1, 0x22, 0x11]).unwrap();
    assert_eq!(key.verify_digest(&[0x10, 0x20], &swapped), Err(Error));
}

#[test]
fn message_is_digested_once_and_whole() {
    let key = VerifyingKey::<Toy>::from_sec1_bytes(&[4, 1, 2, 2, 1]).unwrap();
    // digest of [5, 6, 7] is [3, 18]; the scalar is [18, 3]; y xor z = [16, 2]
    let good = Signature::<Toy>::from_bytes(&[1, 2, 16, 2]).unwrap();
    assert_eq!(key.verify(&[5, 6, 7], &good), Ok(()));
    assert_eq!(key.verify(&[5, 6], &good), Err(Error));
    assert_eq!(key.verify(&[5, 6, 7, 0], &good), Err(Error));
    assert_eq!(key.verify(&[7, 6, 5], &good), Ok(()));
    assert_eq!(key.verify_digest(&[3, 18], &good), Ok(()));
}

#[test]
fn digest_of_another_width_fails() {
    let key = VerifyingKey::<WideDigest>::from_sec1_bytes(&[4, 1, 2, 2, 1]).unwrap();
    let sig = Signature::<WideDigest>::from_bytes(&[0, 0, 0, 0]).unwrap();
    assert_eq!(key.verify(b"anything", &sig), Err(Error));
    assert_eq!(key.verify_digest(&[0, 0], &sig), Ok(()));
}

#[test]
fn signature_length_follows_the_curve() {
    assert!(Signature::<Toy>::from_bytes(&[0; 4]).is_ok());
    assert_eq!(Signature::<Toy>::from_bytes(&[0; 3]).err(), Some(Error));
    assert_eq!(Signature::<Toy>::from_bytes(&[0; 5]).err(), Some(Error));
    assert_eq!(Signature::<Toy>::from_bytes(&[0; 64]).err(), Some(Error));
}
