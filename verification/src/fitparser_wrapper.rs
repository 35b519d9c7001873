//! A validated holder for one FIT byte blob, handed to callers that run
//! their own decoding pass over it.

use vstd::prelude::*;

use crate::fit_decoder::DecodeError;
use crate::validator::has_fit_signature;

verus! {

/// Wraps a FIT byte blob once its length and signature have been checked.
pub struct FitParserWrapper {
    data: Vec<u8>,
}

impl FitParserWrapper {
    /// The bytes the wrapper holds.
    pub closed spec fn spec_data(self) -> Seq<u8> {
        self.data@
    }

    /// Accepts a blob exactly when it is at least twelve bytes long and
    /// bytes eight through eleven spell `.FIT`.
    pub fn new(data: Vec<u8>) -> (r: Result<FitParserWrapper, DecodeError>)
        ensures
            ({
                let d = data@;
                if d.len() < 12 {
                    r == Err::<FitParserWrapper, DecodeError>(DecodeError::TooSmall)
                } else if !has_fit_signature(d) {
                    r == Err::<FitParserWrapper, DecodeError>(DecodeError::BadSignature)
                } else {
                    r is Ok && r->Ok_0.spec_data() == d
                }
            }),
    {
        if data.len() < 12 {
            return Err(DecodeError::TooSmall);
        }
        if !(data[8] == 46 && data[9] == 70 && data[10] == 73 && data[11] == 84) {
            return Err(DecodeError::BadSignature);
        }
        Ok(FitParserWrapper { data })
    }

    /// Read access to the held bytes.
    pub fn data(&self) -> (r: &Vec<u8>)
        ensures
            r@ == self.spec_data(),
    {
        &self.data
    }

    /// Hands the held bytes back.
    pub fn into_data(self) -> (r: Vec<u8>)
        ensures
            r@ == self.spec_data(),
    {
        self.data
    }
}

} // verus!
