use vstd::prelude::*;
use crate::error::ElGamalError;
use crate::field::{group_order, is_scalar_encoding, le_value, Scalar};

verus! {

/// Number of bytes in the compressed encoding of a point.
pub const POINT_BYTES: usize = 48;

/// The compressed encoding of `k` times the fixed generator of the group: what
/// `bls12_381` computes as
/// `G1Affine::from(G1Projective::generator() * k).to_compressed()`.
pub uninterp spec fn generator_multiple(k: nat) -> Seq<u8>;

/// Whether `bytes` are the compressed encoding of a point of the group. The group
/// has prime order and the generator is not its identity, so its points are the
/// multiples of the generator by the numbers below the order.
pub open spec fn is_point_encoding(bytes: Seq<u8>) -> bool {
    bytes.len() == POINT_BYTES && exists|k: nat|
        k < group_order() && #[trigger] generator_multiple(k) == bytes
}

/// The logarithm of the point that `bytes` encode: the number below the group
/// order by which the generator is multiplied to give that point.
pub open spec fn point_log(bytes: Seq<u8>) -> nat {
    choose|k: nat| k < group_order() && #[trigger] generator_multiple(k) == bytes
}

/// The logarithm of the sum of the points with logarithms `a` and `b`.
pub open spec fn log_add(a: nat, b: nat) -> nat {
    (a + b) % group_order()
}

/// The logarithm of the difference of the points with logarithms `a` and `b`,
/// both below the group order.
pub open spec fn log_sub(a: nat, b: nat) -> nat {
    ((a + group_order() - b) % (group_order() as int)) as nat
}

/// The logarithm of `s` times the point with logarithm `a`.
pub open spec fn log_scale(a: nat, s: nat) -> nat {
    (a * s) % group_order()
}

/// Calls `bls12_381::G1Affine::from_compressed` and reports whether it accepted
/// the bytes. Taken on trust: it accepts the compressed encodings of the points of
/// the prime-order group and nothing else, for it asks that the coordinate be
/// canonical, the flags consistent, the point on the curve and free of torsion.
#[verifier::external_body]
fn g1_accepts(bytes: &[u8; 48]) -> (ok: bool)
    ensures
        ok == is_point_encoding(bytes@),
{
    bool::from(bls12_381::G1Affine::from_compressed(bytes).is_some())
}

/// Calls `G1Projective::generator() * Scalar` and compresses the product with
/// `G1Affine::to_compressed`; the scalar is decoded with `Scalar::from_bytes`, which
/// the `requires` makes succeed. The result is by definition the encoding of that
/// multiple of the generator. Taken on trust: no other multiple below the group
/// order has the same encoding, since the generator has the order of the group and
/// different points have different encodings.
#[verifier::external_body]
fn g1_generator_mul(scalar: &[u8; 32]) -> (out: [u8; 48])
    requires
        is_scalar_encoding(scalar@),
    ensures
        out@ == generator_multiple(le_value(scalar@)),
        point_log(out@) == le_value(scalar@),
{
    let s = bls12_381::Scalar::from_bytes(scalar).unwrap();
    bls12_381::G1Affine::from(bls12_381::G1Projective::generator() * s).to_compressed()
}

/// Calls `G1Projective * Scalar` on the point that `G1Affine::from_compressed`
/// decodes and compresses the product; the `requires` makes the decoding succeed.
/// Taken on trust: the call is the scalar multiplication of the group, so `k`
/// times the generator multiplied by `s` is `k * s` times the generator, and the
/// generator has the order of the group.
#[verifier::external_body]
fn g1_mul(point: &[u8; 48], scalar: &[u8; 32]) -> (out: [u8; 48])
    requires
        is_point_encoding(point@),
        is_scalar_encoding(scalar@),
    ensures
        is_point_encoding(out@),
        point_log(out@) == log_scale(point_log(point@), le_value(scalar@)),
{
    let p = bls12_381::G1Projective::from(bls12_381::G1Affine::from_compressed(point).unwrap());
    let s = bls12_381::Scalar::from_bytes(scalar).unwrap();
    bls12_381::G1Affine::from(p * s).to_compressed()
}

/// Calls `G1Projective + G1Projective` on the points that
/// `G1Affine::from_compressed` decodes and compresses the sum; the `requires` makes
/// the decoding succeed. Taken on trust: the call is the addition of the group, so
/// `i` times the generator plus `j` times the generator is `i + j` times the
/// generator, and the generator has the order of the group.
#[verifier::external_body]
fn g1_add(left: &[u8; 48], right: &[u8; 48]) -> (out: [u8; 48])
    requires
        is_point_encoding(left@),
        is_point_encoding(right@),
    ensures
        is_point_encoding(out@),
        point_log(out@) == log_add(point_log(left@), point_log(right@)),
{
    let a = bls12_381::G1Projective::from(bls12_381::G1Affine::from_compressed(left).unwrap());
    let b = bls12_381::G1Projective::from(bls12_381::G1Affine::from_compressed(right).unwrap());
    bls12_381::G1Affine::from(a + b).to_compressed()
}

/// Calls `G1Projective - G1Projective` on the points that
/// `G1Affine::from_compressed` decodes and compresses the difference; the
/// `requires` makes the decoding succeed. Taken on trust: the call is the
/// subtraction of the group, so `i` times the generator less `j` times the
/// generator is `i - j` times the generator, and the generator has the order of
/// the group.
#[verifier::external_body]
fn g1_sub(left: &[u8; 48], right: &[u8; 48]) -> (out: [u8; 48])
    requires
        is_point_encoding(left@),
        is_point_encoding(right@),
    ensures
        is_point_encoding(out@),
        point_log(out@) == log_sub(point_log(left@), point_log(right@)),
{
    let a = bls12_381::G1Projective::from(bls12_381::G1Affine::from_compressed(left).unwrap());
    let b = bls12_381::G1Projective::from(bls12_381::G1Affine::from_compressed(right).unwrap());
    bls12_381::G1Affine::from(a - b).to_compressed()
}

/// A point of the group, held as its canonical 48-byte compressed encoding.
#[derive(Clone, Copy, Debug, PartialEq, Eq)]
pub struct G1Point {
    bytes: [u8; 48],
}

impl View for G1Point {
    type V = nat;

    /// The logarithm of the point to the base of the generator.
    closed spec fn view(&self) -> nat {
        point_log(self.bytes@)
    }
}

impl G1Point {
    /// Every point that executable code can hold is the encoding of a point of the
    /// group.
    #[verifier::type_invariant]
    pub closed spec fn wf(self) -> bool {
        is_point_encoding(self.bytes@)
    }

    /// The compressed encoding of the point.
    pub closed spec fn encoding(self) -> Seq<u8> {
        self.bytes@
    }

    /// The point that `bytes` encode, if they encode one.
    pub closed spec fn decode(bytes: Seq<u8>) -> Option<G1Point> {
        if is_point_encoding(bytes) {
            Some(choose|p: G1Point| p.encoding() == bytes)
        } else {
            None
        }
    }

    /// A well-formed point is its logarithm times the generator, and the logarithm
    /// is below the group order.
    pub proof fn lemma_log(self)
        requires
            self.wf(),
        ensures
            self@ < group_order(),
            self@ == point_log(self.encoding()),
            self.encoding() == generator_multiple(self@),
            is_point_encoding(self.encoding()),
    {
    }

    /// Points with the same encoding are the same point.
    pub proof fn lemma_encoding_injective(self, other: G1Point)
        requires
            self.encoding() == other.encoding(),
        ensures
            self == other,
    {
        assert(self.bytes =~= other.bytes);
    }

    /// Points with the same logarithm are the same point.
    pub proof fn lemma_log_injective(self, other: G1Point)
        requires
            self.wf(),
            other.wf(),
            self@ == other@,
        ensures
            self == other,
    {
        self.lemma_log();
        other.lemma_log();
        self.lemma_encoding_injective(other);
    }

    /// Decoding the encoding of a point gives the point back.
    pub proof fn lemma_round_trip(self)
        requires
            self.wf(),
        ensures
            G1Point::decode(self.encoding()) == Some(self),
    {
        let chosen = choose|p: G1Point| p.encoding() == self.encoding();
        chosen.lemma_encoding_injective(self);
    }

    /// Reads a point from its compressed encoding.
    pub fn from_bytes(bytes: &[u8]) -> (res: Result<G1Point, ElGamalError>)
        ensures
            res is Ok <==> is_point_encoding(bytes@),
            res matches Ok(p) ==> p.encoding() == bytes@ && G1Point::decode(bytes@) == Some(p),
            res matches Ok(p) ==> p@ == point_log(bytes@),
            res matches Err(e) ==> e is InvalidEncoding,
    {
        if bytes.len() != POINT_BYTES {
            return Err(ElGamalError::InvalidEncoding);
        }
        let mut buf = [0u8; 48];
        let mut i: usize = 0;
        while i < POINT_BYTES
            invariant
                i <= POINT_BYTES,
                bytes@.len() == POINT_BYTES,
                forall|j: int| 0 <= j < i ==> buf@[j] == bytes@[j],
            decreases POINT_BYTES - i,
        {
            buf[i] = bytes[i];
            i = i + 1;
        }
        assert(buf@ =~= bytes@);
        if g1_accepts(&buf) {
            let p = G1Point { bytes: buf };
            proof {
                let chosen = choose|c: G1Point| c.encoding() == bytes@;
                chosen.lemma_encoding_injective(p);
            }
            Ok(p)
        } else {
            Err(ElGamalError::InvalidEncoding)
        }
    }

    /// Writes the point in its compressed encoding.
    pub fn to_bytes(&self) -> (out: [u8; 48])
        ensures
            out@ == self.encoding(),
            out@ == generator_multiple(self@),
    {
        proof {
            use_type_invariant(self);
        }
        self.bytes
    }

    /// The generator multiplied by `scalar`.
    pub fn generator_times(scalar: &Scalar) -> (p: G1Point)
        ensures
            p@ == scalar@,
            p.encoding() == generator_multiple(scalar@),
    {
        let s = scalar.to_bytes();
        proof {
            use_type_invariant(scalar);
            scalar.lemma_value();
        }
        G1Point { bytes: g1_generator_mul(&s) }
    }

    /// The point multiplied by `scalar`.
    pub fn times(&self, scalar: &Scalar) -> (p: G1Point)
        ensures
            p@ == log_scale(self@, scalar@),
    {
        let s = scalar.to_bytes();
        proof {
            use_type_invariant(self);
            use_type_invariant(scalar);
            scalar.lemma_value();
        }
        G1Point { bytes: g1_mul(&self.bytes, &s) }
    }

    /// The sum of the point and `other`.
    pub fn plus(&self, other: &G1Point) -> (p: G1Point)
        ensures
            p@ == log_add(self@, other@),
    {
        proof {
            use_type_invariant(self);
            use_type_invariant(other);
        }
        G1Point { bytes: g1_add(&self.bytes, &other.bytes) }
    }

    /// The point less `other`.
    pub fn minus(&self, other: &G1Point) -> (p: G1Point)
        ensures
            p@ == log_sub(self@, other@),
    {
        proof {
            use_type_invariant(self);
            use_type_invariant(other);
        }
        G1Point { bytes: g1_sub(&self.bytes, &other.bytes) }
    }

    /// Whether the point and `other` are the same point of the group.
    pub fn equals(&self, other: &G1Point) -> (same: bool)
        ensures
            same == (*self == *other),
            same == (self@ == other@),
    {
        let mut i: usize = 0;
        while i < POINT_BYTES
            invariant
                i <= POINT_BYTES,
                forall|j: int| 0 <= j < i ==> self.bytes@[j] == other.bytes@[j],
            decreases POINT_BYTES - i,
        {
            if self.bytes[i] != other.bytes[i] {
                proof {
                    use_type_invariant(self);
                    use_type_invariant(other);
                    if self@ == other@ {
                        self.lemma_log_injective(*other);
                    }
                }
                return false;
            }
            i = i + 1;
        }
        assert(self.bytes@ =~= other.bytes@);
        proof {
            self.lemma_encoding_injective(*other);
        }
        true
    }
}

} // verus!
