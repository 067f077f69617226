use vstd::prelude::*;
use rand::Rng;
use crate::ciphertext::Ciphertext;
use crate::error::ElGamalError;
use crate::field::{group_order, le_value, Scalar};
use crate::group::{generator_multiple, log_add, log_scale, log_sub, G1Point};
use crate::key::{is_key_pair, EGPublicKey, EGSecretKey};
use crate::message::Message;

verus! {

/// The ciphertext of the message with scalar `m` under the public key with
/// logarithm `pk` and the randomness `r`, as the logarithms of its two points:
/// `C1 = r * G` and `C2 = r * pk + m * G`.
pub open spec fn encrypt_spec(pk: nat, m: nat, r: nat) -> (nat, nat) {
    (r, log_add(log_scale(pk, r), m))
}

/// The logarithm of the point `C2 - sk * C1` that decryption compares the
/// candidates with.
pub open spec fn recover_spec(sk: nat, c: (nat, nat)) -> nat {
    log_sub(c.1, log_scale(c.0, sk))
}

/// Whether `i` is the first place at which `encodings` holds `target`.
pub open spec fn is_first_match(encodings: Seq<nat>, target: nat, i: int) -> bool {
    &&& 0 <= i < encodings.len()
    &&& encodings[i] == target
    &&& forall|j: int| 0 <= j < i ==> encodings[j] != target
}

/// The first place at which `encodings` holds `target`, if there is one.
pub open spec fn first_match(encodings: Seq<nat>, target: nat) -> Option<int> {
    if exists|i: int| is_first_match(encodings, target, i) {
        Some(choose|i: int| is_first_match(encodings, target, i))
    } else {
        None
    }
}

/// The place of the candidate that decryption returns, given the scalars that the
/// candidates encode to: the first whose scalar is the one hidden in `c`.
pub open spec fn decrypt_spec(sk: nat, c: (nat, nat), encodings: Seq<nat>) -> Option<int> {
    first_match(encodings, recover_spec(sk, c))
}

/// The scalars of a list of candidates that come with their encodings.
pub open spec fn encodings_of(candidates: Seq<(String, Message)>) -> Seq<nat> {
    Seq::new(candidates.len(), |i: int| candidates[i].1@)
}

/// Whether the encoder may answer `text` with a message of scalar `target`.
pub open spec fn encodes_to<F: Fn(&String) -> Message>(encode: F, text: String, target: nat) -> bool {
    exists|m: Message| #[trigger] encode.ensures((&text,), m) && m@ == target
}

/// Whether the encoder may answer `text` with a message of another scalar than
/// `target`.
pub open spec fn encodes_off<F: Fn(&String) -> Message>(encode: F, text: String, target: nat) -> bool {
    exists|m: Message| #[trigger] encode.ensures((&text,), m) && m@ != target
}

/// What decryption with an encoder may return: a candidate that the encoder sent
/// to `target` while it sent every earlier one elsewhere, or the failure where it
/// sent every candidate elsewhere.
pub open spec fn decrypt_outcome<F: Fn(&String) -> Message>(
    encode: F,
    message_set: Seq<String>,
    target: nat,
    res: Result<String, ElGamalError>,
) -> bool {
    match res {
        Ok(text) => exists|i: int|
            {
                &&& 0 <= i < message_set.len()
                &&& text == #[trigger] message_set[i]
                &&& encodes_to(encode, message_set[i], target)
                &&& forall|j: int|
                    0 <= j < i ==> encodes_off(encode, #[trigger] message_set[j], target)
            },
        Err(e) => {
            &&& e == ElGamalError::DecryptionFailed
            &&& forall|j: int|
                0 <= j < message_set.len() ==> encodes_off(
                    encode,
                    #[trigger] message_set[j],
                    target,
                )
        },
    }
}

/// `is_first_match` holds of at most one place.
pub proof fn lemma_first_match_unique(encodings: Seq<nat>, target: nat, i: int)
    requires
        is_first_match(encodings, target, i),
    ensures
        first_match(encodings, target) == Some(i),
{
    let k: int = choose|k: int| is_first_match(encodings, target, k);
    if k < i {
    } else if i < k {
    }
}

/// Where no place holds `target`, there is no first one.
pub proof fn lemma_first_match_none(encodings: Seq<nat>, target: nat)
    requires
        forall|j: int| 0 <= j < encodings.len() ==> encodings[j] != target,
    ensures
        first_match(encodings, target) is None,
{
}

/// Calls `rand::RngCore::try_fill_bytes` on a buffer of 64 bytes and hands back
/// the buffer, or the error of the random source as it came. Nothing is claimed
/// of what comes back.
#[verifier::external_body]
fn draw_entropy<R: Rng>(rng: &mut R) -> (drawn: Result<[u8; 64], rand::Error>) {
    let mut buf = [0u8; 64];
    match rng.try_fill_bytes(&mut buf) {
        Ok(()) => Ok(buf),
        Err(e) => Err(e),
    }
}

/// The key pair made from what the random source delivered: the secret key is the
/// 64 bytes reduced to a scalar, the public key that scalar times the generator.
pub fn keygen_from_entropy(drawn: Result<[u8; 64], rand::Error>) -> (res: Result<
    (EGPublicKey, EGSecretKey),
    ElGamalError,
>)
    ensures
        match (drawn, res) {
            (Ok(bytes), Ok((pk, sk))) => {
                &&& sk@ == le_value(bytes@) % group_order()
                &&& is_key_pair(pk, sk)
                &&& pk.encoding() == generator_multiple(sk@)
            },
            (Err(cause), Err(e)) => e == ElGamalError::EntropySourceFailure(cause),
            _ => false,
        },
{
    match drawn {
        Ok(bytes) => {
            let sk = EGSecretKey(Scalar::from_bytes_wide(&bytes));
            let pk = EGPublicKey::from_secret(&sk);
            Ok((pk, sk))
        },
        Err(cause) => Err(ElGamalError::EntropySourceFailure(cause)),
    }
}

/// The encryption randomness made from what the random source delivered: the 64
/// bytes reduced to a scalar.
pub fn randomness_from_entropy(drawn: Result<[u8; 64], rand::Error>) -> (res: Result<
    Message,
    ElGamalError,
>)
    ensures
        match (drawn, res) {
            (Ok(bytes), Ok(r)) => r@ == le_value(bytes@) % group_order(),
            (Err(cause), Err(e)) => e == ElGamalError::EntropySourceFailure(cause),
            _ => false,
        },
{
    match drawn {
        Ok(bytes) => Ok(Message(Scalar::from_bytes_wide(&bytes))),
        Err(cause) => Err(ElGamalError::EntropySourceFailure(cause)),
    }
}

/// Draws a secret key from `rng` and derives its public key. Whatever the random
/// source delivers, the public key is the secret key times the generator; the only
/// error is that of the random source.
pub fn keygen_impl<R: Rng>(rng: &mut R) -> (res: Result<(EGPublicKey, EGSecretKey), ElGamalError>)
    ensures
        res matches Ok((pk, sk)) ==> is_key_pair(pk, sk) && pk.encoding() == generator_multiple(
            sk@,
        ),
        res matches Err(e) ==> e is EntropySourceFailure,
{
    keygen_from_entropy(draw_entropy(rng))
}

/// Draws the randomness for one encryption from `rng`. The only error is that of
/// the random source.
pub fn sample_randomness_impl<R: Rng>(rng: &mut R) -> (res: Result<Message, ElGamalError>)
    ensures
        res matches Ok(r) ==> r@ < group_order(),
        res matches Err(e) ==> e is EntropySourceFailure,
{
    match randomness_from_entropy(draw_entropy(rng)) {
        Ok(r) => {
            proof {
                use_type_invariant(&r.0);
                r.0.lemma_value();
            }
            Ok(r)
        },
        Err(e) => Err(e),
    }
}

/// Encrypts `message` under `pk` with the randomness `r`.
pub fn encrypt_impl(pk: &EGPublicKey, message: &Message, r: &Message) -> (c: Ciphertext)
    ensures
        c@ == encrypt_spec(pk@, message@, r@),
{
    let c1 = G1Point::generator_times(&r.0);
    let mask = pk.0.times(&r.0);
    let lifted = G1Point::generator_times(&message.0);
    Ciphertext(c1, mask.plus(&lifted))
}

/// The point `C2 - sk * C1` that the ciphertext hides under `sk`.
pub fn recover_point(sk: &EGSecretKey, ciphertext: &Ciphertext) -> (p: G1Point)
    ensures
        p@ == recover_spec(sk@, ciphertext@),
{
    let mask = ciphertext.0.times(&sk.0);
    ciphertext.1.minus(&mask)
}

/// Whether `message` lifts to `target`, that is whether `message * G` is that
/// point.
pub fn lifts_to(message: &Message, target: &G1Point) -> (same: bool)
    ensures
        same == (message@ == target@),
{
    G1Point::generator_times(&message.0).equals(target)
}

/// Decrypts against candidates that come with their encodings: returns the text
/// of the first candidate whose scalar is the one hidden in the ciphertext, and
/// fails where there is none.
pub fn decrypt_encoded(
    sk: &EGSecretKey,
    ciphertext: &Ciphertext,
    candidates: &[(String, Message)],
) -> (res: Result<String, ElGamalError>)
    ensures
        match decrypt_spec(sk@, ciphertext@, encodings_of(candidates@)) {
            Some(i) => res == Ok::<String, ElGamalError>(candidates@[i].0),
            None => res == Err::<String, ElGamalError>(ElGamalError::DecryptionFailed),
        },
{
    let target = recover_point(sk, ciphertext);
    let ghost encodings = encodings_of(candidates@);
    let mut i: usize = 0;
    while i < candidates.len()
        invariant
            i <= candidates.len(),
            encodings == encodings_of(candidates@),
            target@ == recover_spec(sk@, ciphertext@),
            forall|j: int| 0 <= j < i ==> encodings[j] != target@,
        decreases candidates.len() - i,
    {
        if lifts_to(&candidates[i].1, &target) {
            proof {
                lemma_first_match_unique(encodings, target@, i as int);
            }
            return Ok(candidates[i].0.clone());
        }
        i = i + 1;
    }
    proof {
        lemma_first_match_none(encodings, target@);
    }
    Err(ElGamalError::DecryptionFailed)
}

/// Decrypts against `message_set`, encoding each candidate with `encode` as its
/// turn comes: returns the first candidate that `encode` sent to the scalar
/// hidden in the ciphertext, and fails where it sent none there.
pub fn decrypt_impl<F: Fn(&String) -> Message>(
    sk: &EGSecretKey,
    ciphertext: &Ciphertext,
    message_set: &[String],
    encode: F,
) -> (res: Result<String, ElGamalError>)
    requires
        forall|i: int| 0 <= i < message_set@.len() ==> encode.requires((&message_set@[i],)),
    ensures
        decrypt_outcome(encode, message_set@, recover_spec(sk@, ciphertext@), res),
{
    let target = recover_point(sk, ciphertext);
    let mut i: usize = 0;
    while i < message_set.len()
        invariant
            i <= message_set.len(),
            target@ == recover_spec(sk@, ciphertext@),
            forall|k: int| 0 <= k < message_set@.len() ==> encode.requires((&message_set@[k],)),
            forall|j: int|
                0 <= j < i ==> encodes_off(encode, #[trigger] message_set@[j], target@),
        decreases message_set.len() - i,
    {
        let m = encode(&message_set[i]);
        if lifts_to(&m, &target) {
            assert(encodes_to(encode, message_set@[i as int], target@));
            return Ok(message_set[i].clone());
        }
        assert(encodes_off(encode, message_set@[i as int], target@));
        i = i + 1;
    }
    Err(ElGamalError::DecryptionFailed)
}

} // verus!
