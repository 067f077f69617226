use vstd::prelude::*;
use vstd::slice::slice_subrange;
use crate::error::ElGamalError;
use crate::group::{generator_multiple, is_point_encoding, point_log, G1Point, POINT_BYTES};

verus! {

/// Number of bytes in the encoding of a ciphertext.
pub const CIPHERTEXT_BYTES: usize = 96;

/// A ciphertext: the points `C1 = r * G` and `C2 = r * pk + m * G`, in this order.
#[derive(Clone, Copy, Debug, PartialEq, Eq)]
pub struct Ciphertext(pub G1Point, pub G1Point);

impl View for Ciphertext {
    type V = (nat, nat);

    /// The logarithms of the two points.
    open spec fn view(&self) -> (nat, nat) {
        (self.0@, self.1@)
    }
}

/// Whether `bytes` are the encoding of a ciphertext: the compressed encodings of
/// two points, one after the other.
pub open spec fn is_ciphertext_encoding(bytes: Seq<u8>) -> bool {
    &&& bytes.len() == CIPHERTEXT_BYTES
    &&& is_point_encoding(bytes.subrange(0, POINT_BYTES as int))
    &&& is_point_encoding(bytes.subrange(POINT_BYTES as int, CIPHERTEXT_BYTES as int))
}

impl Ciphertext {
    /// Both points are well-formed.
    pub open spec fn wf(self) -> bool {
        self.0.wf() && self.1.wf()
    }

    /// The 96 bytes that `to_bytes` writes: the encoding of the first point, then
    /// that of the second.
    pub open spec fn encoding(self) -> Seq<u8> {
        self.0.encoding() + self.1.encoding()
    }

    /// The ciphertext that `bytes` encode, if they encode one.
    pub open spec fn decode(bytes: Seq<u8>) -> Option<Ciphertext> {
        if bytes.len() == CIPHERTEXT_BYTES {
            match (
                G1Point::decode(bytes.subrange(0, POINT_BYTES as int)),
                G1Point::decode(bytes.subrange(POINT_BYTES as int, CIPHERTEXT_BYTES as int)),
            ) {
                (Some(c1), Some(c2)) => Some(Ciphertext(c1, c2)),
                _ => None,
            }
        } else {
            None
        }
    }

    /// Writes the compressed encodings of the two points, first `C1`, then `C2`.
    pub fn to_bytes(&self) -> (out: [u8; 96])
        ensures
            out@ == self.encoding(),
            out@ == generator_multiple(self.0@) + generator_multiple(self.1@),
    {
        let first = self.0.to_bytes();
        let second = self.1.to_bytes();
        let mut out = [0u8; 96];
        let mut i: usize = 0;
        while i < POINT_BYTES
            invariant
                i <= POINT_BYTES,
                forall|j: int| 0 <= j < i ==> out@[j] == first@[j],
                forall|j: int| 0 <= j < i ==> out@[POINT_BYTES + j] == second@[j],
            decreases POINT_BYTES - i,
        {
            out[i] = first[i];
            out[POINT_BYTES + i] = second[i];
            i = i + 1;
        }
        assert(out@ =~= first@ + second@);
        out
    }

    /// Reads a ciphertext from 96 bytes: splits them in the middle and decodes
    /// each half as a point.
    pub fn from_bytes(bytes: &[u8]) -> (res: Result<Ciphertext, ElGamalError>)
        ensures
            res is Ok <==> is_ciphertext_encoding(bytes@),
            res matches Ok(c) ==> c.encoding() == bytes@ && Ciphertext::decode(bytes@) == Some(c),
            res matches Ok(c) ==> c@ == (
                point_log(bytes@.subrange(0, POINT_BYTES as int)),
                point_log(bytes@.subrange(POINT_BYTES as int, CIPHERTEXT_BYTES as int)),
            ),
            res matches Err(e) ==> e is InvalidEncoding,
    {
        if bytes.len() != CIPHERTEXT_BYTES {
            return Err(ElGamalError::InvalidEncoding);
        }
        let c1 = match G1Point::from_bytes(slice_subrange(bytes, 0, POINT_BYTES)) {
            Ok(p) => p,
            Err(e) => { return Err(e); },
        };
        let c2 = match G1Point::from_bytes(slice_subrange(bytes, POINT_BYTES, CIPHERTEXT_BYTES)) {
            Ok(p) => p,
            Err(e) => { return Err(e); },
        };
        assert(c1.encoding() + c2.encoding() =~= bytes@);
        Ok(Ciphertext(c1, c2))
    }
}

} // verus!
