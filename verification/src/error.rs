//! The closed set of failures that the library reports.

use vstd::prelude::*;

verus! {

/// A query parameter of a provisioning URL whose value can be rejected.
#[derive(Clone, Copy, Debug, PartialEq, Eq, Structural)]
pub enum ParamKey {
    Algorithm,
    Digits,
    Period,
    Counter,
}

/// Every failure of the library; each is a value handed back to the caller.
#[derive(Clone, Copy, Debug, PartialEq, Eq, Structural)]
pub enum OtpError {
    InvalidEncoding,
    MalformedUrl,
    UnsupportedScheme,
    UnsupportedMode,
    MissingSecret,
    InvalidParameter(ParamKey),
    UnsupportedAlgorithm,
    ClockError,
    NoCredentialsConfigured,
}

impl ParamKey {
    /// The key as it stands in a query string.
    pub fn name(&self) -> (r: &'static str)
        ensures
            r@ == self.name_spec(),
    {
        match self {
            ParamKey::Algorithm => "algorithm",
            ParamKey::Digits => "digits",
            ParamKey::Period => "period",
            ParamKey::Counter => "counter",
        }
    }

    pub open spec fn name_spec(&self) -> Seq<char> {
        match self {
            ParamKey::Algorithm => "algorithm"@,
            ParamKey::Digits => "digits"@,
            ParamKey::Period => "period"@,
            ParamKey::Counter => "counter"@,
        }
    }
}

} // verus!
