//! The pure-Rust stand-in for the XM transform, for builds that cannot run the
//! transform module. The transform is proprietary, so this stand-in always refuses.
use vstd::prelude::*;
use crate::{XmError, XmErrorView};

verus! {

/// The message of the refusal that `xm_decrypt_algorithm` returns.
pub open spec fn unavailable_message() -> Seq<char> {
    "XM format decryption is not available in web environment. Please use the native application (desktop or mobile) to play XM files. The XM algorithm is proprietary and requires the original xm.wasm module which can only be executed in native environments."@
}

/// The XM transform without the transform module: always an `UnsupportedFormat` error.
pub fn xm_decrypt_algorithm(_de_data: &str, _track_id: &str) -> (r: Result<String, XmError>)
    ensures
        r matches Err(e) && e@ == XmErrorView::UnsupportedFormat(unavailable_message()),
{
    Err(
        XmError::UnsupportedFormat(
            String::from_str(
                "XM format decryption is not available in web environment. Please use the native application (desktop or mobile) to play XM files. The XM algorithm is proprietary and requires the original xm.wasm module which can only be executed in native environments.",
            ),
        ),
    )
}

/// Whether XM decryption is available: this library runs the transform module (which its
/// caller supplies as bytes) natively, with wasmer.
pub fn is_xm_decryption_available() -> (r: bool)
    ensures
        r,
{
    true
}

} // verus!
