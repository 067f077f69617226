//! Exponential ElGamal encryption over the group G1 of BLS12-381, with decryption
//! against an explicit set of candidate plaintexts.
//!
//! A point of the group is modelled by its logarithm to the base of the fixed
//! generator, a scalar by the number below the group order that it stands for.

use rand::Rng;
use vstd::prelude::*;

pub mod ciphertext;
pub mod enc;
pub mod error;
pub mod field;
pub mod group;
pub mod key;
pub mod laws;
pub mod message;

pub use crate::ciphertext::Ciphertext;
pub use crate::error::ElGamalError;
pub use crate::field::Scalar;
pub use crate::group::G1Point;
pub use crate::key::{EGPublicKey, EGSecretKey};
pub use crate::message::Message;

use crate::enc::{decrypt_outcome, encrypt_spec, recover_spec};
use crate::field::group_order;
use crate::group::generator_multiple;
use crate::key::is_key_pair;

verus! {

/// Generates a key pair from `rng`. The public key is the secret key times the
/// generator; the only error is that of the random source.
pub fn keygen<R: Rng>(rng: &mut R) -> (res: Result<(EGPublicKey, EGSecretKey), ElGamalError>)
    ensures
        res matches Ok((pk, sk)) ==> is_key_pair(pk, sk) && pk.encoding() == generator_multiple(
            sk@,
        ),
        res matches Err(e) ==> e is EntropySourceFailure,
{
    enc::keygen_impl(rng)
}

/// Samples the randomness for one encryption from `rng`. It must not serve a
/// second encryption under the same key. The only error is that of the random
/// source.
pub fn sample_randomness<R: Rng>(rng: &mut R) -> (res: Result<Message, ElGamalError>)
    ensures
        res matches Ok(r) ==> r@ < group_order(),
        res matches Err(e) ==> e is EntropySourceFailure,
{
    enc::sample_randomness_impl(rng)
}

/// Encrypts `message` under `pk` with the randomness `r`: `C1 = r * G` and
/// `C2 = r * pk + message * G`.
pub fn encrypt(pk: &EGPublicKey, message: &Message, r: &Message) -> (c: Ciphertext)
    ensures
        c@ == encrypt_spec(pk@, message@, r@),
{
    enc::encrypt_impl(pk, message, r)
}

/// Decrypts `ciphertext` with `sk` against the candidates in `message_set`, which
/// `encode` sends to scalars: returns the first candidate that `encode` sent to
/// the scalar hidden in the ciphertext, and fails where it sent none there.
pub fn decrypt<F: Fn(&String) -> Message>(
    sk: &EGSecretKey,
    ciphertext: &Ciphertext,
    message_set: &[String],
    encode: F,
) -> (res: Result<String, ElGamalError>)
    requires
        forall|i: int| 0 <= i < message_set@.len() ==> encode.requires((&message_set@[i],)),
    ensures
        decrypt_outcome(encode, message_set@, recover_spec(sk@, ciphertext@), res),
{
    enc::decrypt_impl(sk, ciphertext, message_set, encode)
}

} // verus!
