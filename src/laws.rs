use vstd::prelude::*;

use crate::alphabet::{alphabet, char_value, lemma_alphabet_round_trip};
use crate::genie::{
    address_of, alternate_of, code_values, decoding, encoding, encoding_values, is_valid_code,
    join, pack, GGCode,
};

verus! {

/// The address that a patch writes to.
pub open spec fn address(d: GGCode) -> u16 {
    match d {
        GGCode::NESCode { addr, .. } => addr,
        GGCode::NESCondCode { addr, .. } => addr,
    }
}

proof fn lemma_pack_below_16()
    by (bit_vector)
    ensures
        forall|x: u32, y: u32| #[trigger] pack(x, y) < 16,
{
}

proof fn lemma_fields_round_trip(addr: u16, cond: u8, val: u8)
    by (bit_vector)
    requires
        addr >= 0x8000,
    ensures
        address_of(
            pack((addr as u32) >> 4, (val as u32) >> 4),
            pack(0, (addr as u32) >> 4),
            pack(addr as u32, (addr as u32) >> 12),
            pack((addr as u32) >> 8, addr as u32),
            pack(val as u32, (addr as u32) >> 8),
        ) == addr,
        address_of(
            pack((addr as u32) >> 4, (val as u32) >> 4),
            pack(0, (addr as u32) >> 4),
            pack(addr as u32, (addr as u32) >> 12),
            pack((addr as u32) >> 8, addr as u32),
            pack(cond as u32, (addr as u32) >> 8),
        ) == addr,
        join(
            pack(pack((val as u32) >> 4, val as u32), pack((addr as u32) >> 4, (val as u32) >> 4)),
            pack(pack(val as u32, (addr as u32) >> 8), pack((val as u32) >> 4, val as u32)),
        ) == val,
        join(
            pack(pack((cond as u32) >> 4, cond as u32), pack(val as u32, (cond as u32) >> 4)),
            pack(pack(cond as u32, (addr as u32) >> 8), pack((cond as u32) >> 4, cond as u32)),
        ) == cond,
        join(
            pack(pack((val as u32) >> 4, val as u32), pack((addr as u32) >> 4, (val as u32) >> 4)),
            pack(pack(val as u32, (cond as u32) >> 4), pack((val as u32) >> 4, val as u32)),
        ) == val,
{
}

/// The letters of the canonical code of a patch read back as the values
/// that spelled them.
proof fn lemma_encoding_values(d: GGCode)
    ensures
        code_values(encoding(d)) == encoding_values(d),
        is_valid_code(encoding(d)),
        encoding(d).len() == (if d is NESCode { 6int } else { 8int }),
{
    lemma_alphabet_round_trip();
    lemma_pack_below_16();
    let e = encoding_values(d);
    assert(forall|i: int| 0 <= i < e.len() ==> #[trigger] e[i] < 16);
    assert(code_values(encoding(d)) =~= e);
    assert forall|i: int| 0 <= i < encoding(d).len() implies alphabet().contains(
        #[trigger] encoding(d)[i],
    ) by {
        assert(alphabet()[e[i] as int] == encoding(d)[i]);
    }
}

/// Decoding undoes encoding: the canonical code of a patch whose address has
/// its top bit set is a valid code, of six letters for a plain patch and
/// eight for a conditional one, and it decodes to that same patch.
pub proof fn lemma_decode_encode(d: GGCode)
    requires
        address(d) >= 0x8000,
    ensures
        is_valid_code(encoding(d)),
        encoding(d).len() == (if d is NESCode { 6int } else { 8int }),
        decoding(encoding(d)) == d,
{
    lemma_encoding_values(d);
    match d {
        GGCode::NESCode { addr, val } => {
            lemma_fields_round_trip(addr, 0, val);
        },
        GGCode::NESCondCode { addr, cond, val } => {
            lemma_fields_round_trip(addr, cond, val);
        },
    }
}

proof fn lemma_address_top_bit(v1: u32, v2: u32, v3: u32, v4: u32, v5: u32)
    by (bit_vector)
    ensures
        address_of(v1, v2, v3, v4, v5) >= 0x8000,
{
}

/// Every address that a code spells has its top bit set.
pub proof fn lemma_decoded_address(code: Seq<char>)
    requires
        is_valid_code(code),
    ensures
        address(decoding(code)) >= 0x8000,
{
    let v = code_values(code);
    lemma_address_top_bit(v[1], v[2], v[3], v[4], v[5]);
}

/// Encoding a decoded code gives back a valid code that decodes to the same
/// patch.
pub proof fn lemma_encode_decode(code: Seq<char>)
    requires
        is_valid_code(code),
    ensures
        is_valid_code(encoding(decoding(code))),
        decoding(encoding(decoding(code))) == decoding(code),
{
    lemma_decoded_address(code);
    lemma_decode_encode(decoding(code));
}

proof fn lemma_flip_bits(x: u32)
    by (bit_vector)
    requires
        x < 16,
    ensures
        x ^ 8 < 16,
        (x ^ 8) ^ 8 == x,
        (x ^ 8) & 7 == x & 7,
        x & 7 == (if x < 8 { x } else { x ^ 8 }),
{
}

/// The values of the letters of a valid code with its third letter flipped.
proof fn lemma_alternate_values(code: Seq<char>)
    requires
        is_valid_code(code),
    ensures
        is_valid_code(alternate_of(code)),
        code_values(alternate_of(code)) == code_values(code).update(2, code_values(code)[2] ^ 8),
{
    lemma_alphabet_round_trip();
    let v = code_values(code);
    assert(alphabet().contains(code[2]));
    lemma_flip_bits(v[2]);
    let alt = alternate_of(code);
    assert forall|i: int| 0 <= i < alt.len() implies alphabet().contains(#[trigger] alt[i]) by {
        if i == 2 {
            assert(alphabet()[(v[2] ^ 8) as int] == alt[i]);
        }
    }
    assert(code_values(alt) =~= v.update(2, v[2] ^ 8));
}

/// Flipping the third letter twice gives back the code, and both spellings
/// decode to the same patch.
pub proof fn lemma_alternate_involution(code: Seq<char>)
    requires
        is_valid_code(code),
    ensures
        is_valid_code(alternate_of(code)),
        alternate_of(alternate_of(code)) == code,
        decoding(alternate_of(code)) == decoding(code),
{
    lemma_alphabet_round_trip();
    let v = code_values(code);
    assert(alphabet().contains(code[2]));
    lemma_flip_bits(v[2]);
    lemma_alternate_values(code);
    let alt = alternate_of(code);
    assert(code_values(alt)[2] == v[2] ^ 8);
    assert(alternate_of(alt) =~= code);
    assert(decoding(alt) == decoding(code));
}

proof fn lemma_letters_round_trip(v0: u32, v1: u32, v2: u32, v3: u32, v4: u32, v5: u32, v6: u32, v7: u32)
    by (bit_vector)
    requires
        v0 < 16,
        v1 < 16,
        v2 < 16,
        v3 < 16,
        v4 < 16,
        v5 < 16,
        v6 < 16,
        v7 < 16,
    ensures
        ({
            let a = address_of(v1, v2, v3, v4, v5) as u32;
            let val = join(pack(v0, v1), pack(v5, v0)) as u32;
            &&& pack(val >> 4, val) == v0
            &&& pack(a >> 4, val >> 4) == v1
            &&& pack(0, a >> 4) == v2 & 7
            &&& pack(a, a >> 12) == v3
            &&& pack(a >> 8, a) == v4
            &&& pack(val, a >> 8) == v5
        }),
        ({
            let a = address_of(v1, v2, v3, v4, v5) as u32;
            let cond = join(pack(v6, v7), pack(v5, v6)) as u32;
            let val = join(pack(v0, v1), pack(v7, v0)) as u32;
            &&& pack(val >> 4, val) == v0
            &&& pack(a >> 4, val >> 4) == v1
            &&& pack(cond, a >> 8) == v5
            &&& pack(cond >> 4, cond) == v6
            &&& pack(val, cond >> 4) == v7
        }),
{
}

/// Encoding a decoded code gives back the code itself where bit 3 of its
/// third letter is clear, and its alternate spelling where it is set.
pub proof fn lemma_canonical_form(code: Seq<char>)
    requires
        is_valid_code(code),
    ensures
        encoding(decoding(code)) == (if code_values(code)[2] < 8 {
            code
        } else {
            alternate_of(code)
        }),
{
    lemma_alphabet_round_trip();
    let v = code_values(code);
    assert forall|i: int| 0 <= i < code.len() implies #[trigger] v[i] < 16 && alphabet()[v[i] as int]
        == code[i] by {
        assert(alphabet().contains(code[i]));
    }
    if code.len() == 6 {
        lemma_letters_round_trip(v[0], v[1], v[2], v[3], v[4], v[5], 0, 0);
    } else {
        lemma_letters_round_trip(v[0], v[1], v[2], v[3], v[4], v[5], v[6], v[7]);
    }
    lemma_flip_bits(v[2]);
    let w = if v[2] < 8 { v } else { v.update(2, v[2] ^ 8) };
    assert(encoding_values(decoding(code)) =~= w);
    if v[2] < 8 {
        assert(encoding(decoding(code)) =~= code);
    } else {
        assert(encoding(decoding(code)) =~= alternate_of(code));
    }
}

} // verus!
