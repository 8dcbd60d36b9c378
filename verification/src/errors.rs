//! Error taxonomy: decode failures, connection failures, and process-control
//! failures.  Each error is returned synchronously to the command that caused
//! it; the host renders `message()` verbatim to the user.

use vstd::prelude::*;

verus! {

/// Why an activity payload was rejected by the decoder.
#[derive(Clone, Copy, Debug, PartialEq, Eq, Structural)]
pub enum DecodeError {
    /// The text is not a well-formed flat JSON object of scalar fields.
    Malformed,
    /// The required `app_id` field is absent.
    MissingApplicationId,
    /// A known field occurs twice.
    DuplicateField,
    /// A known field holds a value of the wrong type.
    WrongFieldType,
    /// The `app_id` field is present but does not parse as an unsigned
    /// 64-bit decimal number.
    NonNumericApplicationId,
}

impl DecodeError {
    /// User-facing description of the failure.
    pub fn message(&self) -> (r: &'static str)
        ensures
            *self is Malformed ==> r@ == "Failed to parse activity JSON"@,
            *self is MissingApplicationId ==> r@ == "Missing app_id"@,
            *self is DuplicateField ==> r@ == "Duplicate field"@,
            *self is WrongFieldType ==> r@ == "Wrong field type"@,
            *self is NonNumericApplicationId ==> r@ == "Failed to parse app_id"@,
    {
        match self {
            DecodeError::Malformed => "Failed to parse activity JSON",
            DecodeError::MissingApplicationId => "Missing app_id",
            DecodeError::DuplicateField => "Duplicate field",
            DecodeError::WrongFieldType => "Wrong field type",
            DecodeError::NonNumericApplicationId => "Failed to parse app_id",
        }
    }
}

/// A process-control failure: the placeholder executable could not be
/// launched, or the forceful kill-by-name reported a non-success status.
/// `message` carries the underlying tool's diagnostic text verbatim.
pub struct ProcessError {
    pub message: String,
}

impl ProcessError {
    /// User-facing description of the failure.
    pub fn message(&self) -> (r: &String)
        ensures
            r@ == self.message@,
    {
        &self.message
    }
}

} // verus!
