//! Code generation: a keyed hash of the counter, dynamic truncation to a
//! 31-bit number, and reduction to the requested number of decimal digits.

use vstd::prelude::*;
use crate::credential::{Algorithm, Credential, CredentialView, Mode};
use crate::error::OtpError;

verus! {

/// One generated code. `value` is shown with leading zeros to `digits` places.
#[derive(Clone, Debug, PartialEq, Eq)]
pub struct GeneratedCode {
    pub label: String,
    pub digits: u32,
    pub value: u32,
}

/// The mathematical content of a generated code.
pub struct GeneratedCodeView {
    pub label: Seq<char>,
    pub digits: nat,
    pub value: nat,
}

impl View for GeneratedCode {
    type V = GeneratedCodeView;

    open spec fn view(&self) -> GeneratedCodeView {
        GeneratedCodeView {
            label: self.label@,
            digits: self.digits as nat,
            value: self.value as nat,
        }
    }
}

/// The HMAC of a message under a key, with the given hash.
pub uninterp spec fn hmac_tag(algorithm: Algorithm, key: Seq<u8>, message: Seq<u8>) -> Seq<u8>;

/// Calls `ring::hmac::Key::new` and `ring::hmac::sign`. The tag is a function
/// of hash, key and message, named `hmac_tag`; its length is the output
/// length of the hash: 20, 32 or 64 bytes.
#[verifier::external_body]
fn hmac_sign(algorithm: Algorithm, key: &Vec<u8>, message: &Vec<u8>) -> (tag: Vec<u8>)
    ensures
        tag@ == hmac_tag(algorithm, key@, message@),
        tag@.len() == algorithm.tag_len_spec(),
{
    let hash = match algorithm {
        Algorithm::Sha1 => ring::hmac::HMAC_SHA1_FOR_LEGACY_USE_ONLY,
        Algorithm::Sha256 => ring::hmac::HMAC_SHA256,
        Algorithm::Sha512 => ring::hmac::HMAC_SHA512,
    };
    let signing_key = ring::hmac::Key::new(hash, key.as_slice());
    ring::hmac::sign(&signing_key, message.as_slice()).as_ref().to_vec()
}

/// A counter as eight bytes, most significant first.
pub open spec fn counter_bytes(counter: u64) -> Seq<u8> {
    seq![
        (counter / 0x100_0000_0000_0000) as u8,
        (counter / 0x1_0000_0000_0000 % 256) as u8,
        (counter / 0x100_0000_0000 % 256) as u8,
        (counter / 0x1_0000_0000 % 256) as u8,
        (counter / 0x100_0000 % 256) as u8,
        (counter / 0x1_0000 % 256) as u8,
        (counter / 0x100 % 256) as u8,
        (counter % 256) as u8,
    ]
}

pub open spec fn pow10(n: nat) -> nat
    decreases n,
{
    if n == 0 {
        1
    } else {
        10 * pow10((n - 1) as nat)
    }
}

/// Where in a tag the four bytes of the code start: the low four bits of the
/// tag's last byte.
pub open spec fn truncation_offset(tag: Seq<u8>) -> int {
    (tag.last() & 0x0f) as int
}

/// The four bytes at the truncation offset as a big-endian number, without
/// the top bit of the first byte.
pub open spec fn truncated(tag: Seq<u8>) -> nat {
    let o = truncation_offset(tag);
    ((tag[o] & 0x7f) as nat) * 0x100_0000 + (tag[o + 1] as nat) * 0x1_0000 + (tag[o + 2] as nat)
        * 0x100 + (tag[o + 3] as nat)
}

/// The code that a tag yields at a given number of digits.
pub open spec fn code_of_tag(tag: Seq<u8>, digits: nat) -> nat {
    truncated(tag) % pow10(digits)
}

/// The counter that a credential uses at a time, in seconds since the epoch:
/// its own for counter mode, the number of whole steps elapsed for time mode.
pub open spec fn counter_at(c: CredentialView, now: int) -> u64 {
    match c.mode {
        Mode::Hotp => c.counter as u64,
        Mode::Totp => (now / c.period as int) as u64,
    }
}

/// What `generate` returns. In time mode a time before the epoch is refused;
/// in counter mode the time is not read.
pub open spec fn generate_spec(c: CredentialView, now: int) -> Result<GeneratedCodeView, OtpError> {
    if c.mode == Mode::Totp && now < 0 {
        Err(OtpError::ClockError)
    } else {
        Ok(
            GeneratedCodeView {
                label: c.label,
                digits: c.digits,
                value: code_of_tag(
                    hmac_tag(c.algorithm, c.secret, counter_bytes(counter_at(c, now))),
                    c.digits,
                ),
            },
        )
    }
}

/// Whether `r` is the outcome that `generate_spec` gives.
pub open spec fn generated(c: CredentialView, now: int, r: Result<GeneratedCode, OtpError>) -> bool {
    match generate_spec(c, now) {
        Ok(g) => r matches Ok(code) && code@ == g,
        Err(e) => r matches Err(x) && x == e,
    }
}

pub proof fn lemma_pow10_values()
    ensures
        pow10(0) == 1,
        pow10(1) == 10,
        pow10(2) == 100,
        pow10(3) == 1_000,
        pow10(4) == 10_000,
        pow10(5) == 100_000,
        pow10(6) == 1_000_000,
        pow10(7) == 10_000_000,
        pow10(8) == 100_000_000,
        pow10(9) == 1_000_000_000,
        pow10(10) == 10_000_000_000,
{
    reveal_with_fuel(pow10, 12);
}

/// A truncated tag is a 31-bit number.
pub proof fn lemma_truncated_bound(tag: Seq<u8>)
    requires
        tag.len() >= 20,
    ensures
        0 <= truncation_offset(tag) <= 15,
        truncated(tag) < 0x8000_0000,
{
    let last: u8 = tag.last();
    assert(last & 0x0f <= 15) by (bit_vector);
    let o = truncation_offset(tag);
    let first: u8 = tag[o];
    assert(first & 0x7f <= 127) by (bit_vector);
}

/// The eight bytes of a counter: see `counter_bytes`.
pub fn counter_to_bytes(counter: u64) -> (r: Vec<u8>)
    ensures
        r@ == counter_bytes(counter),
{
    let mut out: Vec<u8> = Vec::new();
    out.push((counter / 0x100_0000_0000_0000) as u8);
    out.push((counter / 0x1_0000_0000_0000 % 256) as u8);
    out.push((counter / 0x100_0000_0000 % 256) as u8);
    out.push((counter / 0x1_0000_0000 % 256) as u8);
    out.push((counter / 0x100_0000 % 256) as u8);
    out.push((counter / 0x1_0000 % 256) as u8);
    out.push((counter / 0x100 % 256) as u8);
    out.push((counter % 256) as u8);
    assert(out@ =~= counter_bytes(counter));
    out
}

/// Ten to the power of a digit count.
pub fn modulus(digits: u32) -> (r: u64)
    requires
        1 <= digits <= 10,
    ensures
        r == pow10(digits as nat),
{
    proof {
        lemma_pow10_values();
    }
    match digits {
        1 => 10,
        2 => 100,
        3 => 1_000,
        4 => 10_000,
        5 => 100_000,
        6 => 1_000_000,
        7 => 10_000_000,
        8 => 100_000_000,
        9 => 1_000_000_000,
        _ => 10_000_000_000,
    }
}

/// Dynamic truncation of a tag and reduction to `digits` decimal places.
pub fn code_from_tag(tag: &Vec<u8>, digits: u32) -> (r: u32)
    requires
        tag@.len() >= 20,
        1 <= digits <= 10,
    ensures
        r == code_of_tag(tag@, digits as nat),
        r < pow10(digits as nat),
        r < 0x8000_0000,
{
    proof {
        lemma_truncated_bound(tag@);
        lemma_pow10_values();
    }
    let offset: usize = (tag[tag.len() - 1] & 0x0f) as usize;
    let b0: u32 = (tag[offset] & 0x7f) as u32;
    let b1: u32 = tag[offset + 1] as u32;
    let b2: u32 = tag[offset + 2] as u32;
    let b3: u32 = tag[offset + 3] as u32;
    let number: u32 = b0 * 0x100_0000 + b1 * 0x1_0000 + b2 * 0x100 + b3;
    let m: u64 = modulus(digits);
    let wide: u64 = number as u64;
    assert(offset == truncation_offset(tag@));
    assert(wide == truncated(tag@));
    assert(wide % m < m && wide % m <= wide) by (nonlinear_arith)
        requires
            m > 0,
    ;
    (wide % m) as u32
}

/// The code of a key at a counter value (RFC 4226).
pub fn hotp(algorithm: Algorithm, key: &Vec<u8>, counter: u64, digits: u32) -> (r: u32)
    requires
        1 <= digits <= 10,
    ensures
        r == code_of_tag(hmac_tag(algorithm, key@, counter_bytes(counter)), digits as nat),
        r < pow10(digits as nat),
{
    let message = counter_to_bytes(counter);
    let tag = hmac_sign(algorithm, key, &message);
    code_from_tag(&tag, digits)
}

/// The code of a credential at a time given in seconds since the epoch
/// (RFC 6238 in time mode). The clock is the caller's.
pub fn generate(credential: &Credential, now: i64) -> (r: Result<GeneratedCode, OtpError>)
    ensures
        generated(credential@, now as int, r),
        r matches Ok(code) ==> code.value < pow10(code.digits as nat) && 1 <= code.digits <= 10,
        r is Err <==> credential@.mode == Mode::Totp && now < 0,
{
    let digits: u32 = credential.digits();
    let counter: u64 = match credential.mode() {
        Mode::Hotp => credential.counter(),
        Mode::Totp => {
            if now < 0 {
                return Err(OtpError::ClockError);
            }
            (now as u64) / credential.period()
        },
    };
    let value: u32 = hotp(credential.algorithm(), credential.secret(), counter, digits);
    Ok(GeneratedCode { label: credential.label().clone(), digits, value })
}

/// Generation is a function of credential and time: any two outcomes for the
/// same credential at the same time are equal.
pub proof fn lemma_generate_deterministic(
    c: CredentialView,
    now: int,
    first: Result<GeneratedCode, OtpError>,
    second: Result<GeneratedCode, OtpError>,
)
    requires
        generated(c, now, first),
        generated(c, now, second),
    ensures
        first is Ok <==> second is Ok,
        first is Ok ==> first->Ok_0@ == second->Ok_0@,
        first is Err ==> first->Err_0 == second->Err_0,
{
}

/// In time mode, two instants in the same step give the same code.
pub proof fn lemma_same_window(c: CredentialView, first: int, second: int)
    requires
        c.wf(),
        c.mode == Mode::Totp,
        0 <= first,
        0 <= second,
        first / c.period as int == second / c.period as int,
    ensures
        generate_spec(c, first) == generate_spec(c, second),
{
}

} // verus!
