//! The error that a request of the service ends with.
use vstd::prelude::*;
use vstd::utf8::{decode_utf8, valid_utf8};

verus! {

/// A failed request, with the message that is logged for it.
pub struct AppError {
    pub text: String,
}

impl AppError {
    /// An error carrying `message`.
    pub fn message(message: &str) -> (error: AppError)
        ensures
            error.text@ == message@,
    {
        AppError { text: String::from_str(message) }
    }
}

/// The error for a `railway status --json` run that did not succeed, with
/// what the command printed on standard error.
pub fn railway_status_failed(stderr: &str) -> (error: AppError)
    ensures
        error.text@ == "railway status --json failed: "@ + stderr@,
{
    let text = String::from_str("railway status --json failed: ").concat(stderr);
    AppError::message(text.as_str())
}

/// The text that `String::from_utf8_lossy` gives for `bytes`.
pub uninterp spec fn lossy_text(bytes: Seq<u8>) -> Seq<char>;

/// `String::from_utf8_lossy`: the text of `bytes`, with each invalid UTF-8
/// sequence replaced by U+FFFD. The contract names that text; of it, only
/// what std documents for valid UTF-8 (the decoded text) is stated.
#[verifier::external_body]
fn decode_lossy(bytes: &[u8]) -> (text: String)
    ensures
        text@ == lossy_text(bytes@),
        valid_utf8(bytes@) ==> text@ == decode_utf8(bytes@),
{
    String::from_utf8_lossy(bytes).into_owned()
}

/// The error for a `railway status --json` run that did not succeed, from
/// the bytes the command printed on standard error.
pub fn railway_status_failed_output(stderr: &[u8]) -> (error: AppError)
    ensures
        error.text@ == "railway status --json failed: "@ + lossy_text(stderr@),
        valid_utf8(stderr@) ==> error.text@ == "railway status --json failed: "@ + decode_utf8(
            stderr@,
        ),
{
    let text = decode_lossy(stderr);
    railway_status_failed(text.as_str())
}

} // verus!
