use vstd::prelude::*;

verus! {

/// The error of a random number generator, carried through unchanged.
#[verifier::external_type_specification]
#[verifier::external_body]
pub struct ExRandError(rand::Error);

/// Why an operation of this library did not produce a value.
#[derive(Debug)]
pub enum ElGamalError {
    /// The bytes have the wrong length, or do not spell a scalar below the group
    /// order, or are not the compressed form of a point of the group.
    InvalidEncoding,
    /// None of the candidate plaintexts lifts to the point that the ciphertext
    /// hides under the given secret key.
    DecryptionFailed,
    /// The random source could not deliver; its own error is inside.
    EntropySourceFailure(rand::Error),
}

impl ElGamalError {
    /// A short description of the error kind.
    pub fn describe(&self) -> (text: String)
        ensures
            text@ == (match *self {
                ElGamalError::InvalidEncoding => "Invalid encoding"@,
                ElGamalError::DecryptionFailed => "Decryption failed"@,
                ElGamalError::EntropySourceFailure(_) => "Entropy source failure"@,
            }),
    {
        match self {
            ElGamalError::InvalidEncoding => "Invalid encoding".to_string(),
            ElGamalError::DecryptionFailed => "Decryption failed".to_string(),
            ElGamalError::EntropySourceFailure(_) => "Entropy source failure".to_string(),
        }
    }
}

} // verus!
