//! An enrolled credential: the shared secret and the parameters of its codes.

use vstd::prelude::*;
use crate::error::{OtpError, ParamKey};

verus! {

/// The hash that keys the message authentication code.
#[derive(Clone, Copy, Debug, PartialEq, Eq, Structural)]
pub enum Algorithm {
    Sha1,
    Sha256,
    Sha512,
}

/// Counter-driven or time-driven codes.
#[derive(Clone, Copy, Debug, PartialEq, Eq, Structural)]
pub enum Mode {
    Hotp,
    Totp,
}

impl Algorithm {
    /// The length in bytes of an authentication tag made with this hash.
    pub open spec fn tag_len_spec(self) -> nat {
        match self {
            Algorithm::Sha1 => 20,
            Algorithm::Sha256 => 32,
            Algorithm::Sha512 => 64,
        }
    }

    pub fn tag_len(self) -> (r: usize)
        ensures
            r == self.tag_len_spec(),
    {
        match self {
            Algorithm::Sha1 => 20,
            Algorithm::Sha256 => 32,
            Algorithm::Sha512 => 64,
        }
    }
}

pub const DEFAULT_DIGITS: u32 = 6;

pub const DEFAULT_PERIOD: u64 = 30;

pub const DEFAULT_COUNTER: u64 = 0;

pub const MAX_DIGITS: u32 = 10;

/// The mathematical content of a credential.
pub struct CredentialView {
    pub label: Seq<char>,
    pub secret: Seq<u8>,
    pub algorithm: Algorithm,
    pub digits: nat,
    pub mode: Mode,
    pub period: nat,
    pub counter: nat,
}

impl CredentialView {
    /// The secret is not empty, a code has one to ten digits, and a
    /// time-driven credential has a positive step.
    pub open spec fn wf(self) -> bool {
        &&& self.secret.len() > 0
        &&& 1 <= self.digits <= 10
        &&& (self.mode == Mode::Totp ==> self.period > 0)
    }
}

/// Which field, if any, keeps the given values from forming a credential.
pub open spec fn rejection(secret: Seq<u8>, digits: nat, mode: Mode, period: nat) -> Option<
    OtpError,
> {
    if secret.len() == 0 {
        Some(OtpError::MissingSecret)
    } else if !(1 <= digits <= 10) {
        Some(OtpError::InvalidParameter(ParamKey::Digits))
    } else if mode == Mode::Totp && period == 0 {
        Some(OtpError::InvalidParameter(ParamKey::Period))
    } else {
        None
    }
}

/// An immutable credential record. Every value of this type is well formed.
#[derive(Debug, PartialEq, Eq)]
pub struct Credential {
    label: String,
    secret: Vec<u8>,
    algorithm: Algorithm,
    digits: u32,
    mode: Mode,
    period: u64,
    counter: u64,
}

impl View for Credential {
    type V = CredentialView;

    closed spec fn view(&self) -> CredentialView {
        CredentialView {
            label: self.label@,
            secret: self.secret@,
            algorithm: self.algorithm,
            digits: self.digits as nat,
            mode: self.mode,
            period: self.period as nat,
            counter: self.counter as nat,
        }
    }
}

impl Clone for Credential {
    fn clone(&self) -> (r: Self)
        ensures
            r@ == self@,
    {
        proof {
            use_type_invariant(self);
        }
        Credential {
            label: self.label.clone(),
            secret: self.secret.clone(),
            algorithm: self.algorithm,
            digits: self.digits,
            mode: self.mode,
            period: self.period,
            counter: self.counter,
        }
    }
}

impl Credential {
    #[verifier::type_invariant]
    spec fn valid(self) -> bool {
        self@.wf()
    }

    /// Builds a credential, or says which field is unacceptable.
    pub fn new(
        label: String,
        secret: Vec<u8>,
        algorithm: Algorithm,
        digits: u32,
        mode: Mode,
        period: u64,
        counter: u64,
    ) -> (r: Result<Credential, OtpError>)
        ensures
            match rejection(secret@, digits as nat, mode, period as nat) {
                Some(e) => r matches Err(x) && x == e,
                None => r matches Ok(c) && c@ == (CredentialView {
                    label: label@,
                    secret: secret@,
                    algorithm,
                    digits: digits as nat,
                    mode,
                    period: period as nat,
                    counter: counter as nat,
                }),
            },
    {
        if secret.len() == 0 {
            Err(OtpError::MissingSecret)
        } else if digits < 1 || digits > MAX_DIGITS {
            Err(OtpError::InvalidParameter(ParamKey::Digits))
        } else if mode == Mode::Totp && period == 0 {
            Err(OtpError::InvalidParameter(ParamKey::Period))
        } else {
            Ok(Credential { label, secret, algorithm, digits, mode, period, counter })
        }
    }

    pub fn label(&self) -> (r: &String)
        ensures
            r@ == self@.label,
    {
        &self.label
    }

    pub fn secret(&self) -> (r: &Vec<u8>)
        ensures
            r@ == self@.secret,
            r@.len() > 0,
    {
        proof {
            use_type_invariant(self);
        }
        &self.secret
    }

    pub fn algorithm(&self) -> (r: Algorithm)
        ensures
            r == self@.algorithm,
    {
        self.algorithm
    }

    pub fn digits(&self) -> (r: u32)
        ensures
            r == self@.digits,
            1 <= r <= 10,
    {
        proof {
            use_type_invariant(self);
        }
        self.digits
    }

    pub fn mode(&self) -> (r: Mode)
        ensures
            r == self@.mode,
    {
        self.mode
    }

    pub fn period(&self) -> (r: u64)
        ensures
            r == self@.period,
            self@.mode == Mode::Totp ==> r > 0,
    {
        proof {
            use_type_invariant(self);
        }
        self.period
    }

    pub fn counter(&self) -> (r: u64)
        ensures
            r == self@.counter,
    {
        self.counter
    }
}

} // verus!
