use vstd::prelude::*;
use vstd::arithmetic::div_mod::{
    lemma_add_mod_noop_right, lemma_mod_add_multiples_vanish, lemma_mod_multiples_vanish,
    lemma_mod_self_0, lemma_mul_mod_noop_right, lemma_small_mod, lemma_sub_mod_noop,
};
use crate::ciphertext::{is_ciphertext_encoding, Ciphertext};
use crate::enc::{
    decrypt_outcome, decrypt_spec, encrypt_spec, first_match, lemma_first_match_none,
    lemma_first_match_unique, recover_spec,
};
use crate::error::ElGamalError;
use crate::field::{group_order, is_scalar_encoding};
use crate::group::{is_point_encoding, log_add, log_scale, log_sub, POINT_BYTES};
use crate::key::{is_key_pair, EGPublicKey, EGSecretKey};
use crate::message::Message;

verus! {

/// The encoding of a public key is accepted, and decoding it gives the key back.
pub proof fn lemma_public_key_round_trip(pk: EGPublicKey)
    requires
        pk.wf(),
    ensures
        is_point_encoding(pk.encoding()),
        EGPublicKey::decode(pk.encoding()) == Some(pk),
{
    pk.0.lemma_log();
    pk.0.lemma_round_trip();
}

/// The encoding of a secret key is accepted, and decoding it gives the key back.
pub proof fn lemma_secret_key_round_trip(sk: EGSecretKey)
    requires
        sk.wf(),
    ensures
        is_scalar_encoding(sk.encoding()),
        EGSecretKey::decode(sk.encoding()) == Some(sk),
{
    sk.0.lemma_value();
    sk.0.lemma_round_trip();
}

/// The encoding of a ciphertext is accepted, and decoding it gives the ciphertext
/// back.
pub proof fn lemma_ciphertext_round_trip(c: Ciphertext)
    requires
        c.wf(),
    ensures
        is_ciphertext_encoding(c.encoding()),
        Ciphertext::decode(c.encoding()) == Some(c),
{
    c.0.lemma_log();
    c.1.lemma_log();
    c.0.lemma_round_trip();
    c.1.lemma_round_trip();
    let bytes = c.encoding();
    assert(bytes.subrange(0, POINT_BYTES as int) =~= c.0.encoding());
    assert(bytes.subrange(POINT_BYTES as int, 2 * POINT_BYTES) =~= c.1.encoding());
}

/// A ciphertext is determined by the logarithms of its points.
pub proof fn lemma_ciphertext_view_injective(a: Ciphertext, b: Ciphertext)
    requires
        a.wf(),
        b.wf(),
        a@ == b@,
    ensures
        a == b,
{
    a.0.lemma_log_injective(b.0);
    a.1.lemma_log_injective(b.1);
}

/// What a ciphertext hides under any secret key: encrypted under the public key of
/// `sk` with randomness `r`, and opened with `other`, the message `m` comes out
/// shifted by `r * (sk - other)`.
pub proof fn lemma_recover_shift(sk: nat, other: nat, m: nat, r: nat)
    requires
        sk < group_order(),
        other < group_order(),
        m < group_order(),
        r < group_order(),
    ensures
        recover_spec(other, encrypt_spec(sk, m, r)) == log_add(
            m,
            log_scale(r, log_sub(sk, other)),
        ),
{
    let q: int = group_order() as int;
    let s1: int = sk as int;
    let s2: int = other as int;
    let mi: int = m as int;
    let ri: int = r as int;
    let a: int = (s1 * ri) % q;
    let c2: int = (a + mi) % q;
    let b: int = (ri * s2) % q;
    let diff: int = ri * (s1 - s2);
    // The recovered logarithm is m + r * (sk - other), reduced.
    assert((c2 + q - b) % q == (mi + diff) % q) by {
        lemma_mod_add_multiples_vanish(c2 - b, q);
        assert(q + (c2 - b) == c2 + q - b);
        lemma_sub_mod_noop(a + mi, ri * s2, q);
        lemma_add_mod_noop_right(mi - ri * s2, s1 * ri, q);
        assert(mi - ri * s2 + a == a + mi - ri * s2);
        assert(mi - ri * s2 + s1 * ri == mi + diff) by (nonlinear_arith)
            requires
                diff == ri * (s1 - s2),
        ;
    }
    // So is the shifted message.
    let d: int = (s1 + q - s2) % q;
    assert((mi + (ri * d) % q) % q == (mi + diff) % q) by {
        lemma_mul_mod_noop_right(ri, s1 + q - s2, q);
        assert(ri * (s1 + q - s2) == q * ri + diff) by (nonlinear_arith)
            requires
                diff == ri * (s1 - s2),
        ;
        lemma_mod_multiples_vanish(ri, diff, q);
        lemma_add_mod_noop_right(mi, ri * d, q);
        lemma_add_mod_noop_right(mi, diff, q);
    }
}

/// Opened with the secret key that belongs to the public key, a ciphertext hides
/// the message that was encrypted, whatever the randomness.
pub proof fn lemma_recover_inverts_encrypt(
    pk: EGPublicKey,
    sk: EGSecretKey,
    m: Message,
    r: Message,
)
    requires
        pk.wf(),
        sk.wf(),
        m.wf(),
        r.wf(),
        is_key_pair(pk, sk),
    ensures
        recover_spec(sk@, encrypt_spec(pk@, m@, r@)) == m@,
{
    sk.0.lemma_value();
    m.0.lemma_value();
    r.0.lemma_value();
    lemma_recover_shift(sk@, sk@, m@, r@);
    let q: int = group_order() as int;
    lemma_mod_self_0(q);
    assert(r@ * 0 == 0) by (nonlinear_arith);
    lemma_small_mod(0, group_order());
    lemma_small_mod(m@, group_order());
}

/// Decryption with the right key returns the plaintext: where a candidate encodes
/// to the encrypted scalar and none before it does, decryption returns that
/// candidate.
pub proof fn lemma_decrypt_correct(
    pk: EGPublicKey,
    sk: EGSecretKey,
    m: Message,
    r: Message,
    encodings: Seq<nat>,
    i: int,
)
    requires
        pk.wf(),
        sk.wf(),
        m.wf(),
        r.wf(),
        is_key_pair(pk, sk),
        0 <= i < encodings.len(),
        encodings[i] == m@,
        forall|j: int| 0 <= j < i ==> encodings[j] != m@,
    ensures
        decrypt_spec(sk@, encrypt_spec(pk@, m@, r@), encodings) == Some(i),
{
    lemma_recover_inverts_encrypt(pk, sk, m, r);
    lemma_first_match_unique(encodings, m@, i);
}

/// Decryption with the right key fails where no candidate encodes to the
/// encrypted scalar.
pub proof fn lemma_decrypt_absent(
    pk: EGPublicKey,
    sk: EGSecretKey,
    m: Message,
    r: Message,
    encodings: Seq<nat>,
)
    requires
        pk.wf(),
        sk.wf(),
        m.wf(),
        r.wf(),
        is_key_pair(pk, sk),
        forall|j: int| 0 <= j < encodings.len() ==> encodings[j] != m@,
    ensures
        decrypt_spec(sk@, encrypt_spec(pk@, m@, r@), encodings) is None,
{
    lemma_recover_inverts_encrypt(pk, sk, m, r);
    lemma_first_match_none(encodings, m@);
}

/// Decryption with another secret key searches for the shifted scalar
/// `m + r * (sk - other)` in place of `m`, and fails where no candidate encodes
/// to it.
pub proof fn lemma_decrypt_other_key(
    pk: EGPublicKey,
    sk: EGSecretKey,
    other: EGSecretKey,
    m: Message,
    r: Message,
    encodings: Seq<nat>,
)
    requires
        pk.wf(),
        sk.wf(),
        other.wf(),
        m.wf(),
        r.wf(),
        is_key_pair(pk, sk),
    ensures
        decrypt_spec(other@, encrypt_spec(pk@, m@, r@), encodings) == first_match(
            encodings,
            log_add(m@, log_scale(r@, log_sub(sk@, other@))),
        ),
        (forall|j: int|
            0 <= j < encodings.len() ==> encodings[j] != log_add(
                m@,
                log_scale(r@, log_sub(sk@, other@)),
            )) ==> decrypt_spec(other@, encrypt_spec(pk@, m@, r@), encodings) is None,
{
    sk.0.lemma_value();
    other.0.lemma_value();
    m.0.lemma_value();
    r.0.lemma_value();
    lemma_recover_shift(sk@, other@, m@, r@);
}

/// With an encoder that is a function, decryption returns what decryption against
/// the encoded candidates returns: the first candidate that the function sends to
/// the hidden scalar, or the failure where there is none.
pub proof fn lemma_decrypt_with_function<F: Fn(&String) -> Message>(
    encode: F,
    encoder: spec_fn(String) -> nat,
    message_set: Seq<String>,
    target: nat,
    res: Result<String, ElGamalError>,
)
    requires
        forall|text: String, m: Message| #[trigger]
            encode.ensures((&text,), m) ==> m@ == encoder(text),
        decrypt_outcome(encode, message_set, target, res),
    ensures
        match first_match(Seq::new(message_set.len(), |i: int| encoder(message_set[i])), target) {
            Some(i) => res == Ok::<String, ElGamalError>(message_set[i]),
            None => res == Err::<String, ElGamalError>(ElGamalError::DecryptionFailed),
        },
{
    let encodings = Seq::new(message_set.len(), |i: int| encoder(message_set[i]));
    match res {
        Ok(text) => {
            let i: int = choose|i: int|
                {
                    &&& 0 <= i < message_set.len()
                    &&& text == #[trigger] message_set[i]
                    &&& crate::enc::encodes_to(encode, message_set[i], target)
                    &&& forall|j: int|
                        0 <= j < i ==> crate::enc::encodes_off(
                            encode,
                            #[trigger] message_set[j],
                            target,
                        )
                };
            assert forall|j: int| 0 <= j < i implies encodings[j] != target by {
                assert(crate::enc::encodes_off(encode, message_set[j], target));
            }
            lemma_first_match_unique(encodings, target, i);
        },
        Err(e) => {
            assert forall|j: int| 0 <= j < encodings.len() implies encodings[j] != target by {
                assert(crate::enc::encodes_off(encode, message_set[j], target));
            }
            lemma_first_match_none(encodings, target);
        },
    }
}

/// Encryptions of one message under one key with different randomness are
/// different ciphertexts.
pub proof fn lemma_distinct_randomness(
    a: Ciphertext,
    b: Ciphertext,
    pk: EGPublicKey,
    m: Message,
    r1: Message,
    r2: Message,
)
    requires
        r1.wf(),
        r2.wf(),
        r1 != r2,
        a@ == encrypt_spec(pk@, m@, r1@),
        b@ == encrypt_spec(pk@, m@, r2@),
    ensures
        a != b,
{
    if r1@ == r2@ {
        r1.0.lemma_value_injective(r2.0);
    }
}

} // verus!
