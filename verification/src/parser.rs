//! Provisioning URLs: `otpauth://{hotp|totp}/{label}?secret=..&issuer=..
//! &algorithm=..&digits=..&period=..&counter=..`, read into a `Credential`.

use vstd::prelude::*;
use crate::base32::{decode, decode_spec};
use crate::credential::{
    Algorithm,
    Credential,
    CredentialView,
    Mode,
    DEFAULT_COUNTER,
    DEFAULT_DIGITS,
    DEFAULT_PERIOD,
};
use crate::error::{OtpError, ParamKey};
use crate::text::{fold, numeral, parse_u64, same_ignoring_case, same_text};
use crate::url_parts::{leading_segment, lookup, split_url, url_components, UrlParts, UrlPartsView};

verus! {

/// The mode that a segment names, in either case.
pub open spec fn mode_of(segment: Seq<char>) -> Option<Mode> {
    if fold(segment) == fold("totp"@) {
        Some(Mode::Totp)
    } else if fold(segment) == fold("hotp"@) {
        Some(Mode::Hotp)
    } else {
        None
    }
}

/// The hash that a token names, in either case.
pub open spec fn algorithm_of(token: Seq<char>) -> Option<Algorithm> {
    if fold(token) == fold("SHA1"@) {
        Some(Algorithm::Sha1)
    } else if fold(token) == fold("SHA256"@) {
        Some(Algorithm::Sha256)
    } else if fold(token) == fold("SHA512"@) {
        Some(Algorithm::Sha512)
    } else {
        None
    }
}

/// The label: the `issuer` parameter, or `unknown`. What the path holds
/// behind the mode is not read.
pub open spec fn label_param(query: Seq<(Seq<char>, Seq<char>)>) -> Seq<char> {
    match lookup(query, "issuer"@) {
        Some(v) => v,
        None => "unknown"@,
    }
}

/// The hash: SHA1 where `algorithm` is absent, `None` where its token is
/// not known.
pub open spec fn algorithm_param(query: Seq<(Seq<char>, Seq<char>)>) -> Option<Algorithm> {
    match lookup(query, "algorithm"@) {
        Some(v) => algorithm_of(v),
        None => Some(Algorithm::Sha1),
    }
}

/// The digit count: six where `digits` is absent, `None` where its value
/// is no numeral from one to ten.
pub open spec fn digits_param(query: Seq<(Seq<char>, Seq<char>)>) -> Option<u32> {
    match lookup(query, "digits"@) {
        Some(v) => match numeral(v) {
            Some(n) => if 1 <= n <= 10 {
                Some(n as u32)
            } else {
                None
            },
            None => None,
        },
        None => Some(DEFAULT_DIGITS),
    }
}

/// The step in seconds. Only time mode reads `period`: thirty where it is
/// absent, `None` where its value is no positive numeral.
pub open spec fn period_param(query: Seq<(Seq<char>, Seq<char>)>, mode: Mode) -> Option<u64> {
    match (mode, lookup(query, "period"@)) {
        (Mode::Totp, Some(v)) => match numeral(v) {
            Some(n) => if n > 0 {
                Some(n)
            } else {
                None
            },
            None => None,
        },
        _ => Some(DEFAULT_PERIOD),
    }
}

/// The initial counter. Only counter mode reads `counter`: zero where it is
/// absent, `None` where its value is no numeral.
pub open spec fn counter_param(query: Seq<(Seq<char>, Seq<char>)>, mode: Mode) -> Option<u64> {
    match (mode, lookup(query, "counter"@)) {
        (Mode::Hotp, Some(v)) => numeral(v),
        _ => Some(DEFAULT_COUNTER),
    }
}

/// The credential that the parts of a URL describe, or the first reason, in
/// this order, why they describe none.
pub open spec fn credential_of(parts: UrlPartsView) -> Result<CredentialView, OtpError> {
    let q = parts.query;
    let mode = mode_of(leading_segment(parts));
    let secret = lookup(q, "secret"@);
    if parts.scheme != "otpauth"@ {
        Err(OtpError::UnsupportedScheme)
    } else if mode is None {
        Err(OtpError::UnsupportedMode)
    } else if secret is None {
        Err(OtpError::MissingSecret)
    } else if decode_spec(secret->Some_0) is Err {
        Err(OtpError::InvalidEncoding)
    } else if decode_spec(secret->Some_0)->Ok_0.len() == 0 {
        Err(OtpError::MissingSecret)
    } else if algorithm_param(q) is None {
        Err(OtpError::InvalidParameter(ParamKey::Algorithm))
    } else if digits_param(q) is None {
        Err(OtpError::InvalidParameter(ParamKey::Digits))
    } else if period_param(q, mode->Some_0) is None {
        Err(OtpError::InvalidParameter(ParamKey::Period))
    } else if counter_param(q, mode->Some_0) is None {
        Err(OtpError::InvalidParameter(ParamKey::Counter))
    } else {
        Ok(
            CredentialView {
                label: label_param(q),
                secret: decode_spec(secret->Some_0)->Ok_0,
                algorithm: algorithm_param(q)->Some_0,
                digits: digits_param(q)->Some_0 as nat,
                mode: mode->Some_0,
                period: period_param(q, mode->Some_0)->Some_0 as nat,
                counter: counter_param(q, mode->Some_0)->Some_0 as nat,
            },
        )
    }
}

/// What `parse` returns for a text.
pub open spec fn parse_spec(text: Seq<char>) -> Result<CredentialView, OtpError> {
    match url_components(text) {
        Some(parts) => credential_of(parts),
        None => Err(OtpError::MalformedUrl),
    }
}

/// Whether `r` is the outcome that `expected` describes.
pub open spec fn parsed_as(
    expected: Result<CredentialView, OtpError>,
    r: Result<Credential, OtpError>,
) -> bool {
    match expected {
        Ok(c) => r matches Ok(credential) && credential@ == c,
        Err(e) => r matches Err(x) && x == e,
    }
}

/// Every credential that a URL describes is well formed.
pub proof fn lemma_described_credentials_well_formed(parts: UrlPartsView)
    ensures
        credential_of(parts) matches Ok(c) ==> c.wf(),
{
}

pub fn read_mode(segment: &str) -> (r: Option<Mode>)
    ensures
        r == mode_of(segment@),
{
    if same_ignoring_case(segment, "totp") {
        Some(Mode::Totp)
    } else if same_ignoring_case(segment, "hotp") {
        Some(Mode::Hotp)
    } else {
        None
    }
}

pub fn read_algorithm(parts: &UrlParts) -> (r: Option<Algorithm>)
    ensures
        r == algorithm_param(parts@.query),
{
    match parts.find("algorithm") {
        Some(v) => {
            let token: &str = v.as_str();
            if same_ignoring_case(token, "SHA1") {
                Some(Algorithm::Sha1)
            } else if same_ignoring_case(token, "SHA256") {
                Some(Algorithm::Sha256)
            } else if same_ignoring_case(token, "SHA512") {
                Some(Algorithm::Sha512)
            } else {
                None
            }
        },
        None => Some(Algorithm::Sha1),
    }
}

pub fn read_digits(parts: &UrlParts) -> (r: Option<u32>)
    ensures
        r == digits_param(parts@.query),
{
    match parts.find("digits") {
        Some(v) => match parse_u64(v.as_str()) {
            Some(n) => if 1 <= n && n <= 10 {
                Some(n as u32)
            } else {
                None
            },
            None => None,
        },
        None => Some(DEFAULT_DIGITS),
    }
}

pub fn read_period(parts: &UrlParts, mode: Mode) -> (r: Option<u64>)
    ensures
        r == period_param(parts@.query, mode),
{
    if mode == Mode::Hotp {
        return Some(DEFAULT_PERIOD);
    }
    match parts.find("period") {
        Some(v) => match parse_u64(v.as_str()) {
            Some(n) => if n > 0 {
                Some(n)
            } else {
                None
            },
            None => None,
        },
        None => Some(DEFAULT_PERIOD),
    }
}

pub fn read_counter(parts: &UrlParts, mode: Mode) -> (r: Option<u64>)
    ensures
        r == counter_param(parts@.query, mode),
{
    if mode == Mode::Totp {
        return Some(DEFAULT_COUNTER);
    }
    match parts.find("counter") {
        Some(v) => parse_u64(v.as_str()),
        None => Some(DEFAULT_COUNTER),
    }
}

pub fn read_label(parts: &UrlParts) -> (r: String)
    ensures
        r@ == label_param(parts@.query),
{
    match parts.find("issuer") {
        Some(v) => v.clone(),
        None => "unknown".to_owned(),
    }
}

/// Reads a credential from the parts of a URL.
pub fn credential_from_parts(parts: &UrlParts) -> (r: Result<Credential, OtpError>)
    ensures
        parsed_as(credential_of(parts@), r),
{
    if !same_text(parts.scheme.as_str(), "otpauth") {
        return Err(OtpError::UnsupportedScheme);
    }
    let mode: Mode = match read_mode(parts.leading()) {
        Some(m) => m,
        None => {
            return Err(OtpError::UnsupportedMode);
        },
    };
    let secret: Vec<u8> = match parts.find("secret") {
        Some(text) => match decode(text.as_str()) {
            Ok(bytes) => bytes,
            Err(_) => {
                return Err(OtpError::InvalidEncoding);
            },
        },
        None => {
            return Err(OtpError::MissingSecret);
        },
    };
    if secret.len() == 0 {
        return Err(OtpError::MissingSecret);
    }
    let algorithm: Algorithm = match read_algorithm(parts) {
        Some(a) => a,
        None => {
            return Err(OtpError::InvalidParameter(ParamKey::Algorithm));
        },
    };
    let digits: u32 = match read_digits(parts) {
        Some(d) => d,
        None => {
            return Err(OtpError::InvalidParameter(ParamKey::Digits));
        },
    };
    let period: u64 = match read_period(parts, mode) {
        Some(p) => p,
        None => {
            return Err(OtpError::InvalidParameter(ParamKey::Period));
        },
    };
    let counter: u64 = match read_counter(parts, mode) {
        Some(c) => c,
        None => {
            return Err(OtpError::InvalidParameter(ParamKey::Counter));
        },
    };
    Credential::new(read_label(parts), secret, algorithm, digits, mode, period, counter)
}

/// Reads a provisioning URL. It fails with `MalformedUrl` where the text is
/// no URL, and otherwise as `credential_of` says of the URL's parts.
pub fn parse(url: &str) -> (r: Result<Credential, OtpError>)
    ensures
        parsed_as(parse_spec(url@), r),
{
    match split_url(url) {
        Some(parts) => credential_from_parts(&parts),
        None => Err(OtpError::MalformedUrl),
    }
}

} // verus!
