//! Codes for a list of provisioning URLs, in the order of the list.
//!
//! The batch fails fast: the first URL that cannot be read, or whose code
//! cannot be generated, ends the run, and the error carries its position.
//! No code of a later URL is computed.

use vstd::prelude::*;
use crate::engine::{generate, generate_spec, GeneratedCode, GeneratedCodeView};
use crate::error::OtpError;
use crate::parser::{parse, parse_spec};

verus! {

/// Why a batch produced no codes.
#[derive(Clone, Copy, Debug, PartialEq, Eq, Structural)]
pub enum BatchError {
    /// No list of credentials was supplied at all.
    NoCredentialsConfigured,
    /// The URL at `index` (from zero) failed with `error`; all before it succeeded.
    Url { index: usize, error: OtpError },
}

/// The outcome for one URL at a time: reading it, then generating its code.
pub open spec fn item_spec(url: Seq<char>, now: int) -> Result<GeneratedCodeView, OtpError> {
    match parse_spec(url) {
        Ok(c) => generate_spec(c, now),
        Err(e) => Err(e),
    }
}

/// Whether `r` is the outcome of a batch over `tokens` at time `now`.
pub open spec fn batch_outcome(
    tokens: Option<Vec<String>>,
    now: int,
    r: Result<Vec<GeneratedCode>, BatchError>,
) -> bool {
    match r {
        Ok(codes) => {
            &&& tokens matches Some(urls)
            &&& codes@.len() == urls@.len()
            &&& forall|i: int|
                0 <= i < urls@.len() ==> item_spec(#[trigger] urls@[i]@, now) == Ok::<
                    GeneratedCodeView,
                    OtpError,
                >(codes@[i]@)
        },
        Err(BatchError::NoCredentialsConfigured) => tokens is None,
        Err(BatchError::Url { index, error }) => {
            &&& tokens matches Some(urls)
            &&& index < urls@.len()
            &&& item_spec(urls@[index as int]@, now) == Err::<GeneratedCodeView, OtpError>(error)
            &&& forall|j: int| 0 <= j < index ==> item_spec(#[trigger] urls@[j]@, now) is Ok
        },
    }
}

/// The list of URLs, or the report that none was configured. An empty list
/// is a list.
pub fn parse_tokens(tokens: Option<Vec<String>>) -> (r: Result<Vec<String>, OtpError>)
    ensures
        match tokens {
            Some(t) => r == Ok::<Vec<String>, OtpError>(t),
            None => r == Err::<Vec<String>, OtpError>(OtpError::NoCredentialsConfigured),
        },
{
    match tokens {
        Some(t) => Ok(t),
        None => Err(OtpError::NoCredentialsConfigured),
    }
}

/// The code of one provisioning URL at a time.
pub fn code_for(url: &str, now: i64) -> (r: Result<GeneratedCode, OtpError>)
    ensures
        match item_spec(url@, now as int) {
            Ok(g) => r matches Ok(code) && code@ == g,
            Err(e) => r matches Err(x) && x == e,
        },
{
    match parse(url) {
        Ok(credential) => generate(&credential, now),
        Err(e) => Err(e),
    }
}

/// The codes of all URLs at a time, in input order; or the first failure,
/// with the position of the URL that caused it; or the report that no list
/// was supplied.
pub fn get_codes(tokens: Option<Vec<String>>, now: i64) -> (r: Result<
    Vec<GeneratedCode>,
    BatchError,
>)
    ensures
        batch_outcome(tokens, now as int, r),
        tokens is None ==> r == Err::<Vec<GeneratedCode>, BatchError>(
            BatchError::NoCredentialsConfigured,
        ),
{
    let urls: &Vec<String> = match &tokens {
        Some(t) => t,
        None => {
            return Err(BatchError::NoCredentialsConfigured);
        },
    };
    let n: usize = urls.len();
    let mut codes: Vec<GeneratedCode> = Vec::new();
    let mut i: usize = 0;
    while i < n
        invariant
            i <= n,
            n == urls@.len(),
            tokens == Some(*urls),
            codes@.len() == i,
            forall|j: int|
                0 <= j < i ==> item_spec(#[trigger] urls@[j]@, now as int) == Ok::<
                    GeneratedCodeView,
                    OtpError,
                >(codes@[j]@),
        decreases n - i,
    {
        match code_for(urls[i].as_str(), now) {
            Ok(code) => {
                codes.push(code);
            },
            Err(error) => {
                return Err(BatchError::Url { index: i, error });
            },
        }
        i += 1;
    }
    Ok(codes)
}

} // verus!
