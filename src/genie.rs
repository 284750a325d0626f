use vstd::prelude::*;
use vstd::string::*;

use crate::alphabet::{alphabet, char_value, lemma_alphabet_round_trip, nes_char_to_num, nes_num_to_char};

verus! {

/// A patch to cartridge memory, as a Game Genie code spells it.
///
/// `NESCode` comes from a six-letter code and writes `val` at `addr`;
/// `NESCondCode` comes from an eight-letter code and writes `val` at `addr`
/// only where `cond` is found there.
#[derive(Clone, Copy, Debug, PartialEq, Eq, Structural, PartialOrd, Ord)]
pub enum GGCode {
    NESCode { addr: u16, val: u8 },
    NESCondCode { addr: u16, cond: u8, val: u8 },
}

/// A four-bit value made of bit 3 of `hi` and bits 0 to 2 of `lo`.
///
/// Every letter of a code, and every nibble of a decoded field, is such a
/// splice: the scheme moves the top bit of each nibble one place along.
pub open spec fn pack(hi: u32, lo: u32) -> u32 {
    (hi & 8) | (lo & 7)
}

/// The byte whose high nibble is `hi` and low nibble is `lo`.
pub open spec fn join(hi: u32, lo: u32) -> u8 {
    ((hi << 4) | lo) as u8
}

/// The address that letters 1 to 5 spell; its top bit is always set.
pub open spec fn address_of(v1: u32, v2: u32, v3: u32, v4: u32, v5: u32) -> u16 {
    ((pack(8, v3) << 12) | (pack(v4, v5) << 8) | (pack(v1, v2) << 4) | pack(v3, v4)) as u16
}

/// A code that can be decoded: six or eight letters, all of the alphabet.
pub open spec fn is_valid_code(code: Seq<char>) -> bool {
    &&& (code.len() == 6 || code.len() == 8)
    &&& forall|i: int| 0 <= i < code.len() ==> alphabet().contains(#[trigger] code[i])
}

/// The values of the letters of a code, in order.
pub open spec fn code_values(code: Seq<char>) -> Seq<u32> {
    code.map_values(|c: char| char_value(c)->0)
}

/// The patch that a valid code spells.
pub open spec fn decoding(code: Seq<char>) -> GGCode {
    let v = code_values(code);
    let addr = address_of(v[1], v[2], v[3], v[4], v[5]);
    if code.len() == 6 {
        GGCode::NESCode { addr, val: join(pack(v[0], v[1]), pack(v[5], v[0])) }
    } else {
        GGCode::NESCondCode {
            addr,
            cond: join(pack(v[6], v[7]), pack(v[5], v[6])),
            val: join(pack(v[0], v[1]), pack(v[7], v[0])),
        }
    }
}

/// The values of the letters of the canonical code of a patch.
pub open spec fn encoding_values(code: GGCode) -> Seq<u32> {
    match code {
        GGCode::NESCode { addr, val } => {
            let a = addr as u32;
            let v = val as u32;
            seq![pack(v >> 4, v), pack(a >> 4, v >> 4), pack(0, a >> 4),
                pack(a, a >> 12), pack(a >> 8, a), pack(v, a >> 8)]
        },
        GGCode::NESCondCode { addr, cond, val } => {
            let a = addr as u32;
            let c = cond as u32;
            let v = val as u32;
            seq![pack(v >> 4, v), pack(a >> 4, v >> 4), pack(0, a >> 4),
                pack(a, a >> 12), pack(a >> 8, a), pack(c, a >> 8),
                pack(c >> 4, c), pack(v, c >> 4)]
        },
    }
}

/// The canonical code of a patch: the one whose third letter has bit 3 clear.
pub open spec fn encoding(code: GGCode) -> Seq<char> {
    encoding_values(code).map_values(|b: u32| alphabet()[b as int])
}

/// A valid code with bit 3 of its third letter flipped.
pub open spec fn alternate_of(code: Seq<char>) -> Seq<char> {
    code.update(2, alphabet()[(char_value(code[2])->0 ^ 8) as int])
}

/// Relies on `String::push`: the character is appended at the end.
#[verifier::external_body]
fn push_char(s: &mut String, c: char)
    ensures
        final(s)@ == old(s)@.push(c),
{
    s.push(c)
}

fn pack_bits(hi: u32, lo: u32) -> (r: u32)
    ensures
        r == pack(hi, lo),
        r < 16,
{
    assert((hi & 8) | (lo & 7) < 16) by (bit_vector);
    (hi & 8) | (lo & 7)
}

fn join_nibbles(hi: u32, lo: u32) -> (r: u8)
    requires
        hi < 16,
        lo < 16,
    ensures
        r == join(hi, lo),
{
    assert((hi << 4) | lo < 256) by (bit_vector)
        requires
            hi < 16,
            lo < 16,
    ;
    ((hi << 4) | lo) as u8
}

fn address_bits(v1: u32, v2: u32, v3: u32, v4: u32, v5: u32) -> (r: u16)
    ensures
        r == address_of(v1, v2, v3, v4, v5),
{
    let n3 = pack_bits(8, v3);
    let n2 = pack_bits(v4, v5);
    let n1 = pack_bits(v1, v2);
    let n0 = pack_bits(v3, v4);
    assert((n3 << 12) | (n2 << 8) | (n1 << 4) | n0 < 0x10000) by (bit_vector)
        requires
            n3 < 16,
            n2 < 16,
            n1 < 16,
            n0 < 16,
    ;
    ((n3 << 12) | (n2 << 8) | (n1 << 4) | n0) as u16
}

/// Appends the letter of a four-bit value.
fn push_letter(s: &mut String, b: u32)
    requires
        b < 16,
    ensures
        final(s)@ == old(s)@.push(alphabet()[b as int]),
{
    let c = nes_num_to_char(b).unwrap();
    push_char(s, c);
}

/// The canonical code of a patch: six letters for `NESCode`, eight for
/// `NESCondCode`.
pub fn encode(code: GGCode) -> (r: String)
    ensures
        r@ == encoding(code),
{
    let mut s = String::new();
    match code {
        GGCode::NESCode { addr, val } => {
            let a = addr as u32;
            let v = val as u32;
            push_letter(&mut s, pack_bits(v >> 4, v));
            push_letter(&mut s, pack_bits(a >> 4, v >> 4));
            push_letter(&mut s, pack_bits(0, a >> 4));
            push_letter(&mut s, pack_bits(a, a >> 12));
            push_letter(&mut s, pack_bits(a >> 8, a));
            push_letter(&mut s, pack_bits(v, a >> 8));
        },
        GGCode::NESCondCode { addr, cond, val } => {
            let a = addr as u32;
            let c = cond as u32;
            let v = val as u32;
            push_letter(&mut s, pack_bits(v >> 4, v));
            push_letter(&mut s, pack_bits(a >> 4, v >> 4));
            push_letter(&mut s, pack_bits(0, a >> 4));
            push_letter(&mut s, pack_bits(a, a >> 12));
            push_letter(&mut s, pack_bits(a >> 8, a));
            push_letter(&mut s, pack_bits(c, a >> 8));
            push_letter(&mut s, pack_bits(c >> 4, c));
            push_letter(&mut s, pack_bits(v, c >> 4));
        },
    }
    assert(s@ =~= encoding(code));
    s
}

/// Whether a code has six or eight letters, all of the alphabet.
pub fn valid_nes_code(code: &str) -> (r: bool)
    ensures
        r == is_valid_code(code@),
{
    proof {
        lemma_alphabet_round_trip();
    }
    let n = code.unicode_len();
    if n != 6 && n != 8 {
        return false;
    }
    let mut i: usize = 0;
    while i < n
        invariant
            n == code@.len(),
            i <= n,
            forall|j: int| 0 <= j < i ==> alphabet().contains(#[trigger] code@[j]),
        decreases n - i,
    {
        if nes_char_to_num(code.get_char(i)).is_none() {
            return false;
        }
        i = i + 1;
    }
    true
}

/// The values of the letters of a valid code.
fn letter_values(code: &str) -> (r: Vec<u32>)
    requires
        is_valid_code(code@),
    ensures
        r@ == code_values(code@),
        forall|i: int| 0 <= i < r@.len() ==> #[trigger] r@[i] < 16,
{
    proof {
        lemma_alphabet_round_trip();
    }
    let n = code.unicode_len();
    let mut vals: Vec<u32> = Vec::new();
    let mut i: usize = 0;
    while i < n
        invariant
            n == code@.len(),
            is_valid_code(code@),
            i <= n,
            vals@.len() == i,
            forall|j: int| 0 <= j < i ==> #[trigger] vals@[j] == code_values(code@)[j],
            forall|j: int| 0 <= j < i ==> #[trigger] vals@[j] < 16,
        decreases n - i,
    {
        let c = code.get_char(i);
        assert(alphabet().contains(code@[i as int]));
        let v = nes_char_to_num(c).unwrap();
        vals.push(v);
        i = i + 1;
    }
    assert(vals@ =~= code_values(code@));
    vals
}

/// The patch that a code spells, or `None` where the code is not valid.
pub fn decode_nes(code: &str) -> (r: Option<GGCode>)
    ensures
        r == (if is_valid_code(code@) {
            Some(decoding(code@))
        } else {
            None
        }),
{
    if !valid_nes_code(code) {
        return None;
    }
    let v = letter_values(code);
    let addr = address_bits(v[1], v[2], v[3], v[4], v[5]);
    if v.len() == 6 {
        let val = join_nibbles(pack_bits(v[0], v[1]), pack_bits(v[5], v[0]));
        Some(GGCode::NESCode { addr, val })
    } else {
        let cond = join_nibbles(pack_bits(v[6], v[7]), pack_bits(v[5], v[6]));
        let val = join_nibbles(pack_bits(v[0], v[1]), pack_bits(v[7], v[0]));
        Some(GGCode::NESCondCode { addr, cond, val })
    }
}

/// The other spelling of a code, with bit 3 of its third letter flipped, or
/// `None` where the code is not valid.
pub fn get_alternate_code_nes(code: &str) -> (r: Option<String>)
    ensures
        match r {
            Some(s) => is_valid_code(code@) && s@ == alternate_of(code@),
            None => !is_valid_code(code@),
        },
{
    if !valid_nes_code(code) {
        return None;
    }
    proof {
        lemma_alphabet_round_trip();
    }
    assert(alphabet().contains(code@[2]));
    let third = nes_char_to_num(code.get_char(2)).unwrap();
    assert(third ^ 8 < 16) by (bit_vector)
        requires
            third < 16,
    ;
    let b = third ^ 8;
    let flipped = nes_num_to_char(b).unwrap();
    let ghost target = alternate_of(code@);
    let n = code.unicode_len();
    let mut s = String::new();
    let mut i: usize = 0;
    while i < n
        invariant
            n == code@.len(),
            is_valid_code(code@),
            target.len() == n,
            target == alternate_of(code@),
            flipped == alphabet()[b as int],
            b == char_value(code@[2])->0 ^ 8,
            i <= n,
            s@ == target.subrange(0, i as int),
        decreases n - i,
    {
        if i == 2 {
            push_char(&mut s, flipped);
        } else {
            push_char(&mut s, code.get_char(i));
        }
        assert(s@ =~= target.subrange(0, i + 1));
        i = i + 1;
    }
    assert(s@ =~= target);
    Some(s)
}

} // verus!
