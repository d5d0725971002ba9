//! Errors of the image decoding entry points.

use vstd::prelude::*;

verus! {

/// No decoder could make anything of the file.
#[derive(Debug, PartialEq, Eq)]
pub enum DecodeError {
    Unsupported,
}

impl DecodeError {
    /// The human-readable message of the error.
    pub fn message(&self) -> (m: String)
        ensures
            m@ == "无法解码图像"@,
    {
        String::from_str("无法解码图像")
    }
}

} // verus!
