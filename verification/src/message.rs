use vstd::prelude::*;
use crate::field::Scalar;

verus! {

/// A plaintext lifted into the exponent: the scalar that the message encoder
/// assigns to a byte string. The randomness of an encryption has the same type.
#[derive(Clone, Copy, Debug, PartialEq, Eq)]
pub struct Message(pub Scalar);

impl View for Message {
    type V = nat;

    /// The number below the group order that the message stands for.
    open spec fn view(&self) -> nat {
        self.0@
    }
}

impl Message {
    /// The scalar inside is well-formed.
    pub open spec fn wf(self) -> bool {
        self.0.wf()
    }
}

} // verus!
