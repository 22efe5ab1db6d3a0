//! Base32 text (RFC 4648 alphabet) and bytes. Decoding drops padding and
//! whitespace, reads letters in either case, and unpacks the symbols that
//! remain, five bits each, into bytes. Encoding packs bytes into symbols,
//! without padding.

use vstd::prelude::*;
use vstd::string::StrSliceExecFns;
use crate::error::OtpError;
use crate::text::{upper, to_upper};

verus! {

/// Characters that carry no data: the padding sign and ASCII whitespace.
pub open spec fn is_skipped(c: char) -> bool {
    c == '=' || c == ' ' || c == '\t' || c == '\n' || c == '\r'
}

/// The thirty-two symbols of the alphabet, in upper case.
pub open spec fn is_symbol(c: char) -> bool {
    ('A' <= c && c <= 'Z') || ('2' <= c && c <= '7')
}

/// The text without skipped characters and with letters in upper case.
pub open spec fn normalize(text: Seq<char>) -> Seq<char>
    decreases text.len(),
{
    if text.len() == 0 {
        Seq::empty()
    } else if is_skipped(text.last()) {
        normalize(text.drop_last())
    } else {
        normalize(text.drop_last()).push(upper(text.last()))
    }
}

pub open spec fn all_symbols(symbols: Seq<char>) -> bool {
    forall|i: int| 0 <= i < symbols.len() ==> is_symbol(#[trigger] symbols[i])
}

/// Symbol counts that some whole number of bytes encodes to: in a final
/// group of eight, only two, four, five or seven symbols can stand.
pub open spec fn whole_bytes(count: nat) -> bool {
    let rest = count % 8;
    rest == 0 || rest == 2 || rest == 4 || rest == 5 || rest == 7
}

pub open spec fn well_formed(symbols: Seq<char>) -> bool {
    all_symbols(symbols) && whole_bytes(symbols.len())
}

/// The five-bit number that a symbol stands for: `A` to `Z` are 0 to 25,
/// `2` to `7` are 26 to 31.
pub open spec fn symbol_value(c: char) -> nat {
    if 'A' <= c && c <= 'Z' {
        (c as u8 - 65) as nat
    } else {
        (c as u8 - 24) as nat
    }
}

/// The symbol that stands for a five-bit number.
pub open spec fn symbol_of(v: nat) -> char {
    if v < 26 {
        ((v + 65) as u8) as char
    } else {
        ((v + 24) as u8) as char
    }
}

/// Bit `r` of a five-bit number, the most significant being bit 0.
pub open spec fn bit5(v: nat, r: int) -> nat {
    if r == 0 {
        v / 16 % 2
    } else if r == 1 {
        v / 8 % 2
    } else if r == 2 {
        v / 4 % 2
    } else if r == 3 {
        v / 2 % 2
    } else {
        v % 2
    }
}

/// Bit `r` of an eight-bit number, the most significant being bit 0.
pub open spec fn bit8(v: nat, r: int) -> nat {
    if r == 0 {
        v / 128 % 2
    } else if r == 1 {
        v / 64 % 2
    } else if r == 2 {
        v / 32 % 2
    } else if r == 3 {
        v / 16 % 2
    } else if r == 4 {
        v / 8 % 2
    } else if r == 5 {
        v / 4 % 2
    } else if r == 6 {
        v / 2 % 2
    } else {
        v % 2
    }
}

/// Bit `k` of the bit string that the symbols spell, five bits each.
pub open spec fn symbol_bit(symbols: Seq<char>, k: int) -> nat {
    bit5(symbol_value(symbols[k / 5]), k % 5)
}

/// Byte `j` of that bit string.
pub open spec fn packed_byte(symbols: Seq<char>, j: int) -> nat {
    128 * symbol_bit(symbols, 8 * j) + 64 * symbol_bit(symbols, 8 * j + 1) + 32 * symbol_bit(
        symbols,
        8 * j + 2,
    ) + 16 * symbol_bit(symbols, 8 * j + 3) + 8 * symbol_bit(symbols, 8 * j + 4) + 4 * symbol_bit(
        symbols,
        8 * j + 5,
    ) + 2 * symbol_bit(symbols, 8 * j + 6) + symbol_bit(symbols, 8 * j + 7)
}

/// The whole bytes of the bit string that the symbols spell; bits behind
/// the last whole byte are dropped.
pub open spec fn unpacked(symbols: Seq<char>) -> Seq<u8> {
    Seq::new(symbols.len() * 5 / 8, |j: int| packed_byte(symbols, j) as u8)
}

/// Bit `k` of the bit string that the bytes spell, continued with zeros.
pub open spec fn byte_bit(bytes: Seq<u8>, k: int) -> nat {
    if 0 <= k < 8 * bytes.len() {
        bit8(bytes[k / 8] as nat, k % 8)
    } else {
        0
    }
}

/// The five-bit number at position `i` of that bit string.
pub open spec fn packed_symbol(bytes: Seq<u8>, i: int) -> nat {
    16 * byte_bit(bytes, 5 * i) + 8 * byte_bit(bytes, 5 * i + 1) + 4 * byte_bit(bytes, 5 * i + 2)
        + 2 * byte_bit(bytes, 5 * i + 3) + byte_bit(bytes, 5 * i + 4)
}

/// The symbols that spell the bytes, the last one filled up with zero bits.
pub open spec fn encode_spec(bytes: Seq<u8>) -> Seq<char> {
    Seq::new((8 * bytes.len() + 4) / 5, |i: int| symbol_of(packed_symbol(bytes, i)))
}

/// The bits behind the last whole byte are all zero, as in encoded text.
pub open spec fn canonical(symbols: Seq<char>) -> bool {
    forall|k: int|
        8 * (symbols.len() * 5 / 8) <= k < 5 * symbols.len() ==> #[trigger] symbol_bit(symbols, k)
            == 0
}

/// What `decode` returns for a text.
pub open spec fn decode_spec(text: Seq<char>) -> Result<Seq<u8>, OtpError> {
    let symbols = normalize(text);
    if well_formed(symbols) {
        Ok(unpacked(symbols))
    } else {
        Err(OtpError::InvalidEncoding)
    }
}

proof fn lemma_bits8(b0: nat, b1: nat, b2: nat, b3: nat, b4: nat, b5: nat, b6: nat, b7: nat)
    requires
        b0 <= 1,
        b1 <= 1,
        b2 <= 1,
        b3 <= 1,
        b4 <= 1,
        b5 <= 1,
        b6 <= 1,
        b7 <= 1,
    ensures
        ({
            let v = 128 * b0 + 64 * b1 + 32 * b2 + 16 * b3 + 8 * b4 + 4 * b5 + 2 * b6 + b7;
            &&& v < 256
            &&& bit8(v, 0) == b0
            &&& bit8(v, 1) == b1
            &&& bit8(v, 2) == b2
            &&& bit8(v, 3) == b3
            &&& bit8(v, 4) == b4
            &&& bit8(v, 5) == b5
            &&& bit8(v, 6) == b6
            &&& bit8(v, 7) == b7
        }),
{
}

proof fn lemma_bits5(v: nat)
    requires
        v < 32,
    ensures
        16 * bit5(v, 0) + 8 * bit5(v, 1) + 4 * bit5(v, 2) + 2 * bit5(v, 3) + bit5(v, 4) == v,
{
}

proof fn lemma_symbol_bit_small(symbols: Seq<char>, k: int)
    ensures
        symbol_bit(symbols, k) <= 1,
{
}

/// A byte that was packed from symbols spells the bits it was packed from.
proof fn lemma_unpacked_bits(symbols: Seq<char>, k: int)
    requires
        0 <= k < 8 * unpacked(symbols).len(),
    ensures
        byte_bit(unpacked(symbols), k) == symbol_bit(symbols, k),
{
    let j = k / 8;
    lemma_symbol_bit_small(symbols, 8 * j);
    lemma_symbol_bit_small(symbols, 8 * j + 1);
    lemma_symbol_bit_small(symbols, 8 * j + 2);
    lemma_symbol_bit_small(symbols, 8 * j + 3);
    lemma_symbol_bit_small(symbols, 8 * j + 4);
    lemma_symbol_bit_small(symbols, 8 * j + 5);
    lemma_symbol_bit_small(symbols, 8 * j + 6);
    lemma_symbol_bit_small(symbols, 8 * j + 7);
    lemma_bits8(
        symbol_bit(symbols, 8 * j),
        symbol_bit(symbols, 8 * j + 1),
        symbol_bit(symbols, 8 * j + 2),
        symbol_bit(symbols, 8 * j + 3),
        symbol_bit(symbols, 8 * j + 4),
        symbol_bit(symbols, 8 * j + 5),
        symbol_bit(symbols, 8 * j + 6),
        symbol_bit(symbols, 8 * j + 7),
    );
    assert(unpacked(symbols)[j] == packed_byte(symbols, j) as u8);
    assert(k == 8 * j + k % 8);
}

/// Packing the unpacked bytes of canonical, well-formed symbols gives the
/// symbols back.
pub proof fn lemma_pack_unpacked(symbols: Seq<char>)
    requires
        well_formed(symbols),
        canonical(symbols),
    ensures
        encode_spec(unpacked(symbols)) == symbols,
{
    let bytes = unpacked(symbols);
    let n = symbols.len() as int;
    assert(encode_spec(bytes).len() == n);
    assert forall|i: int| 0 <= i < n implies encode_spec(bytes)[i] == symbols[i] by {
        assert forall|b: int| 0 <= b < 5 implies byte_bit(bytes, 5 * i + b) == bit5(
            symbol_value(symbols[i]),
            b,
        ) by {
            let k = 5 * i + b;
            assert(k / 5 == i && k % 5 == b);
            if k < 8 * bytes.len() {
                lemma_unpacked_bits(symbols, k);
            } else {
                assert(symbol_bit(symbols, k) == 0);
            }
        }
        assert(byte_bit(bytes, 5 * i + 0) == bit5(symbol_value(symbols[i]), 0));
        assert(byte_bit(bytes, 5 * i + 1) == bit5(symbol_value(symbols[i]), 1));
        assert(byte_bit(bytes, 5 * i + 2) == bit5(symbol_value(symbols[i]), 2));
        assert(byte_bit(bytes, 5 * i + 3) == bit5(symbol_value(symbols[i]), 3));
        assert(byte_bit(bytes, 5 * i + 4) == bit5(symbol_value(symbols[i]), 4));
        assert(is_symbol(symbols[i]));
        lemma_bits5(symbol_value(symbols[i]));
        assert(packed_symbol(bytes, i) == symbol_value(symbols[i]));
        assert(symbol_of(symbol_value(symbols[i])) == symbols[i]);
    }
    assert(encode_spec(bytes) =~= symbols);
}

/// Encoding what a text decodes to gives the text in normal form, for every
/// text that decodes and whose last symbol carries no stray bits.
pub proof fn lemma_encode_of_decoded(text: Seq<char>)
    requires
        decode_spec(text) is Ok,
        canonical(normalize(text)),
    ensures
        encode_spec(decode_spec(text)->Ok_0) == normalize(text),
{
    lemma_pack_unpacked(normalize(text));
}

proof fn lemma_bits5_of_sum(b0: nat, b1: nat, b2: nat, b3: nat, b4: nat)
    requires
        b0 <= 1,
        b1 <= 1,
        b2 <= 1,
        b3 <= 1,
        b4 <= 1,
    ensures
        ({
            let v = 16 * b0 + 8 * b1 + 4 * b2 + 2 * b3 + b4;
            &&& v < 32
            &&& bit5(v, 0) == b0
            &&& bit5(v, 1) == b1
            &&& bit5(v, 2) == b2
            &&& bit5(v, 3) == b3
            &&& bit5(v, 4) == b4
        }),
{
}

proof fn lemma_bits8_sum(v: nat)
    requires
        v < 256,
    ensures
        128 * bit8(v, 0) + 64 * bit8(v, 1) + 32 * bit8(v, 2) + 16 * bit8(v, 3) + 8 * bit8(v, 4) + 4
            * bit8(v, 5) + 2 * bit8(v, 6) + bit8(v, 7) == v,
{
    let x: u32 = v as u32;
    assert(128 * (x / 128 % 2) + 64 * (x / 64 % 2) + 32 * (x / 32 % 2) + 16 * (x / 16 % 2) + 8 * (x
        / 8 % 2) + 4 * (x / 4 % 2) + 2 * (x / 2 % 2) + x % 2 == x) by (bit_vector)
        requires
            x < 256,
    ;
}

proof fn lemma_byte_bit_small(bytes: Seq<u8>, k: int)
    ensures
        byte_bit(bytes, k) <= 1,
{
}

proof fn lemma_symbol_of_value(v: nat)
    requires
        v < 32,
    ensures
        is_symbol(symbol_of(v)),
        symbol_value(symbol_of(v)) == v,
{
}

proof fn lemma_packed_symbol_small(bytes: Seq<u8>, i: int)
    ensures
        packed_symbol(bytes, i) < 32,
        is_symbol(symbol_of(packed_symbol(bytes, i))),
        symbol_value(symbol_of(packed_symbol(bytes, i))) == packed_symbol(bytes, i),
{
    lemma_byte_bit_small(bytes, 5 * i);
    lemma_byte_bit_small(bytes, 5 * i + 1);
    lemma_byte_bit_small(bytes, 5 * i + 2);
    lemma_byte_bit_small(bytes, 5 * i + 3);
    lemma_byte_bit_small(bytes, 5 * i + 4);
    lemma_symbol_of_value(packed_symbol(bytes, i));
}

/// A symbol that was packed from bytes spells the bits it was packed from.
proof fn lemma_packed_bits(bytes: Seq<u8>, k: int)
    requires
        0 <= k < 5 * encode_spec(bytes).len(),
    ensures
        symbol_bit(encode_spec(bytes), k) == byte_bit(bytes, k),
{
    let i = k / 5;
    lemma_packed_symbol_small(bytes, i);
    lemma_bits5_of_sum(
        byte_bit(bytes, 5 * i),
        byte_bit(bytes, 5 * i + 1),
        byte_bit(bytes, 5 * i + 2),
        byte_bit(bytes, 5 * i + 3),
        byte_bit(bytes, 5 * i + 4),
    );
    assert(encode_spec(bytes)[i] == symbol_of(packed_symbol(bytes, i)));
    assert(k == 5 * i + k % 5);
}

/// Encoded bytes are well-formed, canonical symbols, and unpack to the bytes.
pub proof fn lemma_unpack_packed(bytes: Seq<u8>)
    ensures
        well_formed(encode_spec(bytes)),
        canonical(encode_spec(bytes)),
        unpacked(encode_spec(bytes)) == bytes,
{
    let symbols = encode_spec(bytes);
    let m = bytes.len() as int;
    assert(symbols.len() == (8 * m + 4) / 5);
    assert(symbols.len() * 5 / 8 == m);
    assert(whole_bytes(symbols.len()));
    assert forall|i: int| 0 <= i < symbols.len() implies is_symbol(#[trigger] symbols[i]) by {
        lemma_packed_symbol_small(bytes, i);
    }
    assert forall|k: int| 8 * m <= k < 5 * symbols.len() implies #[trigger] symbol_bit(symbols, k)
        == 0 by {
        lemma_packed_bits(bytes, k);
    }
    assert forall|j: int| 0 <= j < m implies unpacked(symbols)[j] == bytes[j] by {
        assert forall|b: int| 0 <= b < 8 implies symbol_bit(symbols, 8 * j + b) == bit8(
            bytes[j] as nat,
            b,
        ) by {
            let k = 8 * j + b;
            assert(k / 8 == j && k % 8 == b);
            lemma_packed_bits(bytes, k);
        }
        assert(symbol_bit(symbols, 8 * j + 0) == bit8(bytes[j] as nat, 0));
        assert(symbol_bit(symbols, 8 * j + 1) == bit8(bytes[j] as nat, 1));
        assert(symbol_bit(symbols, 8 * j + 2) == bit8(bytes[j] as nat, 2));
        assert(symbol_bit(symbols, 8 * j + 3) == bit8(bytes[j] as nat, 3));
        assert(symbol_bit(symbols, 8 * j + 4) == bit8(bytes[j] as nat, 4));
        assert(symbol_bit(symbols, 8 * j + 5) == bit8(bytes[j] as nat, 5));
        assert(symbol_bit(symbols, 8 * j + 6) == bit8(bytes[j] as nat, 6));
        assert(symbol_bit(symbols, 8 * j + 7) == bit8(bytes[j] as nat, 7));
        lemma_bits8_sum(bytes[j] as nat);
        assert(packed_byte(symbols, j) == bytes[j]);
    }
    assert(unpacked(symbols) =~= bytes);
}

/// Text made of symbols only is its own normal form.
pub proof fn lemma_symbols_are_normal(symbols: Seq<char>)
    requires
        all_symbols(symbols),
    ensures
        normalize(symbols) == symbols,
    decreases symbols.len(),
{
    if symbols.len() > 0 {
        let c = symbols.last();
        assert(is_symbol(c));
        assert(all_symbols(symbols.drop_last())) by {
            assert forall|i: int| 0 <= i < symbols.drop_last().len() implies is_symbol(
                #[trigger] symbols.drop_last()[i],
            ) by {
                assert(symbols.drop_last()[i] == symbols[i]);
            }
        }
        lemma_symbols_are_normal(symbols.drop_last());
        assert(symbols.drop_last().push(c) =~= symbols);
    } else {
        assert(symbols =~= Seq::<char>::empty());
    }
}

/// Decoding what bytes encode to gives the bytes.
pub proof fn lemma_decode_of_encoded(bytes: Seq<u8>)
    ensures
        decode_spec(encode_spec(bytes)) == Ok::<Seq<u8>, OtpError>(bytes),
{
    lemma_unpack_packed(bytes);
    lemma_symbols_are_normal(encode_spec(bytes));
}

/// The normal form of a text: see `normalize`.
pub fn normalized(text: &str) -> (r: Vec<char>)
    ensures
        r@ == normalize(text@),
{
    let n: usize = text.unicode_len();
    let mut out: Vec<char> = Vec::new();
    let mut i: usize = 0;
    assert(text@.take(0) =~= Seq::<char>::empty());
    while i < n
        invariant
            i <= n,
            n == text@.len(),
            out@ == normalize(text@.take(i as int)),
        decreases n - i,
    {
        let c: char = text.get_char(i);
        proof {
            let next = text@.take(i as int + 1);
            assert(next.drop_last() =~= text@.take(i as int));
            assert(next.last() == c);
        }
        if !(c == '=' || c == ' ' || c == '\t' || c == '\n' || c == '\r') {
            out.push(to_upper(c));
        }
        i += 1;
    }
    assert(text@.take(n as int) =~= text@);
    out
}

/// Whether normalized symbols can be unpacked: see `well_formed`.
pub fn is_well_formed(symbols: &Vec<char>) -> (r: bool)
    ensures
        r == well_formed(symbols@),
{
    let n: usize = symbols.len();
    let rest: usize = n % 8;
    if !(rest == 0 || rest == 2 || rest == 4 || rest == 5 || rest == 7) {
        return false;
    }
    let mut i: usize = 0;
    while i < n
        invariant
            i <= n,
            n == symbols@.len(),
            forall|j: int| 0 <= j < i ==> is_symbol(#[trigger] symbols@[j]),
        decreases n - i,
    {
        let c: char = symbols[i];
        if !((c >= 'A' && c <= 'Z') || (c >= '2' && c <= '7')) {
            return false;
        }
        i += 1;
    }
    true
}

fn value_of_symbol(c: char) -> (r: u8)
    requires
        is_symbol(c),
    ensures
        r == symbol_value(c),
        r < 32,
{
    if c >= 'A' && c <= 'Z' {
        (c as u8) - 65u8
    } else {
        (c as u8) - 24u8
    }
}

fn symbol_for_value(v: u8) -> (r: char)
    requires
        v < 32,
    ensures
        r == symbol_of(v as nat),
        is_symbol(r),
{
    if v < 26 {
        (v + 65u8) as char
    } else {
        (v + 24u8) as char
    }
}

fn bit_of_five(v: u8, r: usize) -> (bit: u8)
    requires
        r < 5,
    ensures
        bit == bit5(v as nat, r as int),
        bit <= 1,
{
    if r == 0 {
        v / 16 % 2
    } else if r == 1 {
        v / 8 % 2
    } else if r == 2 {
        v / 4 % 2
    } else if r == 3 {
        v / 2 % 2
    } else {
        v % 2
    }
}

fn bit_of_eight(v: u8, r: usize) -> (bit: u8)
    requires
        r < 8,
    ensures
        bit == bit8(v as nat, r as int),
        bit <= 1,
{
    if r == 0 {
        v / 128 % 2
    } else if r == 1 {
        v / 64 % 2
    } else if r == 2 {
        v / 32 % 2
    } else if r == 3 {
        v / 16 % 2
    } else if r == 4 {
        v / 8 % 2
    } else if r == 5 {
        v / 4 % 2
    } else if r == 6 {
        v / 2 % 2
    } else {
        v % 2
    }
}

/// Bit `b` of byte `j` of the bit string that the symbols spell.
fn bit_of_symbols(symbols: &Vec<char>, j: usize, b: usize) -> (bit: u8)
    requires
        all_symbols(symbols@),
        j < symbols@.len() * 5 / 8,
        b < 8,
    ensures
        bit == symbol_bit(symbols@, 8 * j + b),
        bit <= 1,
{
    let within: usize = 8 * (j % 5) + b;
    let n: usize = symbols.len();
    assert(8 * (j as int / 5) < n) by {
        assert(5 * (j as int / 5) <= j);
    }
    let index: usize = 8 * (j / 5) + within / 5;
    assert(index == (8 * j + b) / 5 && within % 5 == (8 * j + b) % 5);
    bit_of_five(value_of_symbol(symbols[index]), within % 5)
}

/// Bit `b` of symbol `i` of the bit string that the bytes spell.
fn bit_of_bytes(bytes: &Vec<u8>, i: usize, b: usize) -> (bit: u8)
    requires
        b < 5,
    ensures
        bit == byte_bit(bytes@, 5 * i + b),
        bit <= 1,
{
    let within: usize = 5 * (i % 8) + b;
    let index: usize = 5 * (i / 8) + within / 8;
    assert(index == (5 * i + b) / 8 && within % 8 == (5 * i + b) % 8);
    if index < bytes.len() {
        bit_of_eight(bytes[index], within % 8)
    } else {
        0
    }
}

/// Byte `j` of the bit string that the symbols spell.
fn byte_of_symbols(symbols: &Vec<char>, j: usize) -> (r: u8)
    requires
        all_symbols(symbols@),
        j < symbols@.len() * 5 / 8,
    ensures
        r == packed_byte(symbols@, j as int) as u8,
        r == packed_byte(symbols@, j as int),
{
    let b0: u8 = bit_of_symbols(symbols, j, 0);
    let b1: u8 = bit_of_symbols(symbols, j, 1);
    let b2: u8 = bit_of_symbols(symbols, j, 2);
    let b3: u8 = bit_of_symbols(symbols, j, 3);
    let b4: u8 = bit_of_symbols(symbols, j, 4);
    let b5: u8 = bit_of_symbols(symbols, j, 5);
    let b6: u8 = bit_of_symbols(symbols, j, 6);
    let b7: u8 = bit_of_symbols(symbols, j, 7);
    128 * b0 + 64 * b1 + 32 * b2 + 16 * b3 + 8 * b4 + 4 * b5 + 2 * b6 + b7
}

/// Symbol `i` of the bit string that the bytes spell.
fn symbol_of_bytes(bytes: &Vec<u8>, i: usize) -> (r: char)
    ensures
        r == symbol_of(packed_symbol(bytes@, i as int)),
        is_symbol(r),
{
    let b0: u8 = bit_of_bytes(bytes, i, 0);
    let b1: u8 = bit_of_bytes(bytes, i, 1);
    let b2: u8 = bit_of_bytes(bytes, i, 2);
    let b3: u8 = bit_of_bytes(bytes, i, 3);
    let b4: u8 = bit_of_bytes(bytes, i, 4);
    symbol_for_value(16 * b0 + 8 * b1 + 4 * b2 + 2 * b3 + b4)
}

/// The bytes that well-formed symbols spell: see `unpacked`.
pub fn unpack(symbols: &Vec<char>) -> (r: Vec<u8>)
    requires
        all_symbols(symbols@),
    ensures
        r@ == unpacked(symbols@),
{
    let n: usize = symbols.len();
    let count: usize = 5 * (n / 8) + 5 * (n % 8) / 8;
    assert(count == n * 5 / 8);
    let mut out: Vec<u8> = Vec::new();
    let mut j: usize = 0;
    while j < count
        invariant
            j <= count,
            count == symbols@.len() * 5 / 8,
            all_symbols(symbols@),
            out@.len() == j,
            forall|x: int| 0 <= x < j ==> out@[x] == packed_byte(symbols@, x) as u8,
        decreases count - j,
    {
        out.push(byte_of_symbols(symbols, j));
        j += 1;
    }
    assert(out@ =~= unpacked(symbols@));
    out
}

/// Encodes bytes as base32 symbols, without padding.
pub fn encode(bytes: &Vec<u8>) -> (r: Vec<char>)
    ensures
        r@ == encode_spec(bytes@),
        all_symbols(r@),
{
    let m: usize = bytes.len();
    let mut out: Vec<char> = Vec::new();
    let mut i: usize = 0;
    while 5 * (i / 8) + 5 * (i % 8) / 8 < m
        invariant
            m == bytes@.len(),
            out@.len() == i,
            i <= (8 * m + 4) / 5,
            forall|x: int| 0 <= x < i ==> out@[x] == symbol_of(packed_symbol(bytes@, x)),
            forall|x: int| 0 <= x < i ==> is_symbol(#[trigger] out@[x]),
        decreases (8 * m + 4) / 5 - i,
    {
        assert(5 * (i as int / 8) + 5 * (i as int % 8) / 8 == 5 * i / 8);
        out.push(symbol_of_bytes(bytes, i));
        i = out.len();
    }
    assert(5 * (i as int / 8) + 5 * (i as int % 8) / 8 == 5 * i / 8);
    assert(i == (8 * m + 4) / 5);
    assert(out@ =~= encode_spec(bytes@));
    out
}

/// Decodes base32 text. It fails exactly when, after normalization, a
/// character outside the alphabet remains or the symbol count does not
/// correspond to a whole number of bytes.
pub fn decode(text: &str) -> (r: Result<Vec<u8>, OtpError>)
    ensures
        match decode_spec(text@) {
            Ok(bytes) => r matches Ok(v) && v@ == bytes,
            Err(e) => r matches Err(x) && x == e,
        },
        !all_symbols(normalize(text@)) ==> r == Err::<Vec<u8>, OtpError>(OtpError::InvalidEncoding),
        r matches Ok(v) ==> v@.len() == normalize(text@).len() * 5 / 8,
{
    let symbols = normalized(text);
    if !is_well_formed(&symbols) {
        return Err(OtpError::InvalidEncoding);
    }
    Ok(unpack(&symbols))
}

} // verus!
