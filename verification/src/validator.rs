//! Sanity checks applied to a FIT byte blob before any decoding starts.

use vstd::prelude::*;

verus! {

/// Reasons a byte blob is rejected before decoding begins.
#[derive(Clone, Copy, Debug, PartialEq, Eq, Structural)]
pub enum ValidationError {
    /// Fewer than twelve bytes: not even room for a FIT header.
    TooSmall,
    /// The declared header size is under twelve bytes or past the end.
    CorruptedHeader,
    /// Bytes eight through eleven are not the ASCII text `.FIT`.
    MissingSignature,
    /// The blob is over the fifty-megabyte ceiling.
    TooLarge,
}

/// Holds when bytes eight through eleven spell the ASCII text `.FIT`.
pub open spec fn has_fit_signature(data: Seq<u8>) -> bool {
    &&& data.len() >= 12
    &&& data[8] == 46u8
    &&& data[9] == 70u8
    &&& data[10] == 73u8
    &&& data[11] == 84u8
}

/// The exact outcome of validation for a given byte sequence.
pub open spec fn spec_validate(data: Seq<u8>) -> Result<(), ValidationError> {
    if data.len() < 12 {
        Err(ValidationError::TooSmall)
    } else if data[0] < 12 || data[0] > data.len() {
        Err(ValidationError::CorruptedHeader)
    } else if !has_fit_signature(data) {
        Err(ValidationError::MissingSignature)
    } else if data.len() > 50_000_000 {
        Err(ValidationError::TooLarge)
    } else {
        Ok(())
    }
}

/// A blob that passes validation is one the decoder accepts: it is long
/// enough, carries the signature, declares a header that fits, and
/// stays under the size ceiling.
pub proof fn lemma_validated_blob_is_decodable(data: Seq<u8>)
    requires
        spec_validate(data) is Ok,
    ensures
        data.len() >= 12,
        has_fit_signature(data),
        12 <= data[0] <= data.len(),
        data.len() <= 50_000_000,
{
}

pub struct SecurityValidator;

impl SecurityValidator {
    pub fn new() -> SecurityValidator {
        SecurityValidator
    }

    /// Accepts a blob exactly when it is at least twelve bytes long, its
    /// declared header size fits inside it, it carries the `.FIT`
    /// signature, and it is no larger than fifty megabytes.
    pub fn validate_fit_data(&self, data: &[u8]) -> (r: Result<(), ValidationError>)
        ensures
            r == spec_validate(data@),
            r is Ok <==> {
                &&& data@.len() >= 12
                &&& 12 <= data@[0] <= data@.len()
                &&& has_fit_signature(data@)
                &&& data@.len() <= 50_000_000
            },
    {
        if data.len() < 12 {
            return Err(ValidationError::TooSmall);
        }
        let header_size = data[0] as usize;
        if header_size < 12 || header_size > data.len() {
            return Err(ValidationError::CorruptedHeader);
        }
        if !(data[8] == 46 && data[9] == 70 && data[10] == 73 && data[11] == 84) {
            return Err(ValidationError::MissingSignature);
        }
        if data.len() > 50_000_000 {
            return Err(ValidationError::TooLarge);
        }
        Ok(())
    }

    /// Holds when the protocol version byte is above twenty; callers may
    /// warn on such blobs but decoding proceeds regardless.
    pub fn protocol_version_is_unknown(&self, data: &[u8]) -> (r: bool)
        requires
            data@.len() >= 2,
        ensures
            r <==> data@[1] > 20,
    {
        data[1] > 20
    }
}

} // verus!
