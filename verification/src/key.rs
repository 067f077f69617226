use vstd::prelude::*;
use crate::error::ElGamalError;
use crate::field::{is_scalar_encoding, le_value, Scalar};
use crate::group::{generator_multiple, is_point_encoding, point_log, G1Point};

verus! {

/// A public key: the point `sk * G` for the secret scalar `sk` and the generator `G`.
#[derive(Clone, Copy, Debug, PartialEq, Eq)]
pub struct EGPublicKey(pub G1Point);

/// A secret key: a scalar.
#[derive(Clone, Copy, Debug, PartialEq, Eq)]
pub struct EGSecretKey(pub Scalar);

/// Whether `pk` is the public key of `sk`: the generator multiplied by `sk`.
pub open spec fn is_key_pair(pk: EGPublicKey, sk: EGSecretKey) -> bool {
    pk@ == sk@
}

impl View for EGPublicKey {
    type V = nat;

    /// The logarithm of the key's point to the base of the generator.
    open spec fn view(&self) -> nat {
        self.0@
    }
}

impl View for EGSecretKey {
    type V = nat;

    /// The number below the group order that the key stands for.
    open spec fn view(&self) -> nat {
        self.0@
    }
}

impl EGPublicKey {
    /// The point inside is well-formed.
    pub open spec fn wf(self) -> bool {
        self.0.wf()
    }

    /// The 48 bytes that `to_bytes` writes.
    pub open spec fn encoding(self) -> Seq<u8> {
        self.0.encoding()
    }

    /// The key that `bytes` encode, if they encode one.
    pub open spec fn decode(bytes: Seq<u8>) -> Option<EGPublicKey> {
        match G1Point::decode(bytes) {
            Some(p) => Some(EGPublicKey(p)),
            None => None,
        }
    }

    /// Reads a public key from the compressed encoding of its point.
    pub fn from_bytes(bytes: &[u8]) -> (res: Result<EGPublicKey, ElGamalError>)
        ensures
            res is Ok <==> is_point_encoding(bytes@),
            res matches Ok(pk) ==> pk.encoding() == bytes@ && EGPublicKey::decode(bytes@) == Some(
                pk,
            ),
            res matches Ok(pk) ==> pk@ == point_log(bytes@),
            res matches Err(e) ==> e is InvalidEncoding,
    {
        match G1Point::from_bytes(bytes) {
            Ok(p) => Ok(EGPublicKey(p)),
            Err(e) => Err(e),
        }
    }

    /// Writes the compressed encoding of the key's point.
    pub fn to_bytes(&self) -> (out: [u8; 48])
        ensures
            out@ == self.encoding(),
            out@ == generator_multiple(self@),
    {
        self.0.to_bytes()
    }

    /// The public key that belongs to `sk`.
    pub fn from_secret(sk: &EGSecretKey) -> (pk: EGPublicKey)
        ensures
            is_key_pair(pk, *sk),
            pk.encoding() == generator_multiple(sk@),
    {
        EGPublicKey(G1Point::generator_times(&sk.0))
    }
}

impl EGSecretKey {
    /// The scalar inside is well-formed.
    pub open spec fn wf(self) -> bool {
        self.0.wf()
    }

    /// The 32 bytes that `to_bytes` writes.
    pub open spec fn encoding(self) -> Seq<u8> {
        self.0.encoding()
    }

    /// The key that `bytes` encode, if they encode one.
    pub open spec fn decode(bytes: Seq<u8>) -> Option<EGSecretKey> {
        match Scalar::decode(bytes) {
            Some(s) => Some(EGSecretKey(s)),
            None => None,
        }
    }

    /// Writes the canonical encoding of the key's scalar.
    pub fn to_bytes(&self) -> (out: [u8; 32])
        ensures
            out@ == self.encoding(),
            le_value(out@) == self@,
    {
        self.0.to_bytes()
    }

    /// Reads a secret key from the canonical encoding of its scalar.
    pub fn from_bytes(bytes: &[u8]) -> (res: Result<EGSecretKey, ElGamalError>)
        ensures
            res is Ok <==> is_scalar_encoding(bytes@),
            res matches Ok(sk) ==> sk.encoding() == bytes@ && EGSecretKey::decode(bytes@) == Some(
                sk,
            ),
            res matches Ok(sk) ==> sk@ == le_value(bytes@),
            res matches Err(e) ==> e is InvalidEncoding,
    {
        match Scalar::from_bytes(bytes) {
            Ok(s) => Ok(EGSecretKey(s)),
            Err(e) => Err(e),
        }
    }
}

} // verus!
