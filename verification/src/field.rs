use vstd::prelude::*;
use crate::error::ElGamalError;

verus! {

/// Number of bytes in the encoding of a scalar.
pub const SCALAR_BYTES: usize = 32;

/// The prime order `q` of the group, which is also the modulus of its scalar field.
pub open spec fn group_order() -> nat {
    0x73eda753299d7d483339d80809a1d80553bda402fffe5bfeffffffff00000001nat
}

/// The natural number that `bytes` spell, least significant byte first.
pub open spec fn le_value(bytes: Seq<u8>) -> nat
    decreases bytes.len(),
{
    if bytes.len() == 0 {
        0
    } else {
        bytes[0] as nat + 256 * le_value(bytes.drop_first())
    }
}

/// Byte strings of one length that spell the same number are the same.
pub proof fn lemma_le_value_injective(a: Seq<u8>, b: Seq<u8>)
    requires
        a.len() == b.len(),
        le_value(a) == le_value(b),
    ensures
        a == b,
    decreases a.len(),
{
    if a.len() == 0 {
        assert(a =~= b);
    } else {
        lemma_le_value_injective(a.drop_first(), b.drop_first());
        assert(a =~= seq![a[0]] + a.drop_first());
        assert(b =~= seq![b[0]] + b.drop_first());
    }
}

/// Whether `bytes` are the canonical encoding of a scalar: 32 bytes that spell,
/// least significant byte first, a number below the group order.
pub open spec fn is_scalar_encoding(bytes: Seq<u8>) -> bool {
    bytes.len() == SCALAR_BYTES && le_value(bytes) < group_order()
}

/// Calls `bls12_381::Scalar::from_bytes` and reports whether it accepted the bytes.
/// Taken on trust: it accepts them exactly when the little-endian number they
/// spell is below the modulus of the scalar field.
#[verifier::external_body]
fn scalar_accepts(bytes: &[u8; 32]) -> (ok: bool)
    ensures
        ok == is_scalar_encoding(bytes@),
{
    bool::from(bls12_381::Scalar::from_bytes(bytes).is_some())
}

/// Calls `bls12_381::Scalar::from_bytes_wide` and `Scalar::to_bytes` on the
/// outcome. Taken on trust: the first reads 64 bytes as a little-endian number and
/// reduces it by the modulus of the scalar field, the second writes the reduced
/// number in 32 bytes, least significant byte first.
#[verifier::external_body]
fn scalar_reduce_wide(bytes: &[u8; 64]) -> (out: [u8; 32])
    ensures
        le_value(out@) == le_value(bytes@) % group_order(),
{
    bls12_381::Scalar::from_bytes_wide(bytes).to_bytes()
}

/// An element of the scalar field, held as its canonical 32-byte encoding.
#[derive(Clone, Copy, Debug, PartialEq, Eq)]
pub struct Scalar {
    bytes: [u8; 32],
}

impl View for Scalar {
    type V = nat;

    /// The number below the group order that the scalar stands for.
    closed spec fn view(&self) -> nat {
        le_value(self.bytes@)
    }
}

impl Scalar {
    /// Every scalar that executable code can hold is the encoding of a number
    /// below the group order.
    #[verifier::type_invariant]
    pub closed spec fn wf(self) -> bool {
        is_scalar_encoding(self.bytes@)
    }

    /// The canonical encoding of the scalar.
    pub closed spec fn encoding(self) -> Seq<u8> {
        self.bytes@
    }

    /// The scalar that `bytes` encode, if they encode one.
    pub closed spec fn decode(bytes: Seq<u8>) -> Option<Scalar> {
        if is_scalar_encoding(bytes) {
            Some(choose|s: Scalar| s.encoding() == bytes)
        } else {
            None
        }
    }

    /// A well-formed scalar is below the group order, and its encoding spells it.
    pub proof fn lemma_value(self)
        requires
            self.wf(),
        ensures
            self@ < group_order(),
            self@ == le_value(self.encoding()),
            is_scalar_encoding(self.encoding()),
    {
    }

    /// Scalars with the same encoding are the same scalar.
    pub proof fn lemma_encoding_injective(self, other: Scalar)
        requires
            self.encoding() == other.encoding(),
        ensures
            self == other,
    {
        assert(self.bytes =~= other.bytes);
    }

    /// Scalars that stand for the same number are the same scalar.
    pub proof fn lemma_value_injective(self, other: Scalar)
        requires
            self.wf(),
            other.wf(),
            self@ == other@,
        ensures
            self == other,
    {
        lemma_le_value_injective(self.bytes@, other.bytes@);
        self.lemma_encoding_injective(other);
    }

    /// Decoding the encoding of a scalar gives the scalar back.
    pub proof fn lemma_round_trip(self)
        requires
            self.wf(),
        ensures
            Scalar::decode(self.encoding()) == Some(self),
    {
        let chosen = choose|s: Scalar| s.encoding() == self.encoding();
        chosen.lemma_encoding_injective(self);
    }

    /// Reads a scalar from its canonical encoding.
    pub fn from_bytes(bytes: &[u8]) -> (res: Result<Scalar, ElGamalError>)
        ensures
            res is Ok <==> is_scalar_encoding(bytes@),
            res matches Ok(s) ==> s.encoding() == bytes@ && Scalar::decode(bytes@) == Some(s),
            res matches Ok(s) ==> s@ == le_value(bytes@),
            res matches Err(e) ==> e is InvalidEncoding,
    {
        if bytes.len() != SCALAR_BYTES {
            return Err(ElGamalError::InvalidEncoding);
        }
        let mut buf = [0u8; 32];
        let mut i: usize = 0;
        while i < SCALAR_BYTES
            invariant
                i <= SCALAR_BYTES,
                bytes@.len() == SCALAR_BYTES,
                forall|j: int| 0 <= j < i ==> buf@[j] == bytes@[j],
            decreases SCALAR_BYTES - i,
        {
            buf[i] = bytes[i];
            i = i + 1;
        }
        assert(buf@ =~= bytes@);
        if scalar_accepts(&buf) {
            let s = Scalar { bytes: buf };
            proof {
                let chosen = choose|c: Scalar| c.encoding() == bytes@;
                chosen.lemma_encoding_injective(s);
            }
            Ok(s)
        } else {
            Err(ElGamalError::InvalidEncoding)
        }
    }

    /// Writes the scalar in its canonical encoding.
    pub fn to_bytes(&self) -> (out: [u8; 32])
        ensures
            out@ == self.encoding(),
            le_value(out@) == self@,
    {
        self.bytes
    }

    /// The scalar that 64 bytes, read as a little-endian number, reduce to.
    pub fn from_bytes_wide(bytes: &[u8; 64]) -> (s: Scalar)
        ensures
            s@ == le_value(bytes@) % group_order(),
    {
        let reduced = scalar_reduce_wide(bytes);
        assert(le_value(bytes@) % group_order() < group_order()) by (nonlinear_arith)
            requires
                group_order() > 0,
        ;
        Scalar { bytes: reduced }
    }
}

} // verus!
