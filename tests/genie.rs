use game_genie::{
    decode_nes, encode, get_alternate_code_nes, nes_char_to_num, nes_num_to_char, valid_nes_code,
    GGCode,
};

const NES_CHARS: &str = "APZLGITYEOXUKSVN";

#[test]
fn test_byte_char_conversion() {
    for (b, c) in NES_CHARS.chars().enumerate() {
        assert_eq!(nes_char_to_num(c).unwrap(), b as u32);
        assert_eq!(nes_num_to_char(b as u32).unwrap(), c);
    }
}

#[test]
fn test_decode_nes() {
    assert_eq!(
        decode_nes("GOSSIP").unwrap(),
        GGCode::NESCode { addr: 0xD1DD, val: 0x14 }
    );
    assert_eq!(
        decode_nes("ZEXPYGLA").unwrap(),
        GGCode::NESCondCode { addr: 0x94A7, cond: 0x03, val: 0x02 }
    );
}

#[test]
fn test_encode() {
    assert_eq!(
        encode(GGCode::NESCode { addr: 0xD1DD, val: 0x14 }),
        String::from("GOISIP")
    );
    assert_eq!(
        encode(GGCode::NESCondCode { addr: 0x94A7, cond: 0x03, val: 0x02 }),
        String::from("ZEZPYGLA")
    );
}

#[test]
fn test_nes_alternate() {
    assert_eq!(String::from("GOSSIP"), get_alternate_code_nes("GOISIP").unwrap());
    assert_eq!(String::from("GOISIP"), get_alternate_code_nes("GOSSIP").unwrap());
    assert_eq!(String::from("ZEXPYGLA"), get_alternate_code_nes("ZEZPYGLA").unwrap());
    assert_eq!(String::from("ZEZPYGLA"), get_alternate_code_nes("ZEXPYGLA").unwrap());
}

#[test]
fn unknown_characters_have_no_value() {
    assert_eq!(nes_char_to_num('B'), None);
    assert_eq!(nes_char_to_num('a'), None);
    assert_eq!(nes_char_to_num('é'), None);
    assert_eq!(nes_num_to_char(16), None);
    assert_eq!(nes_num_to_char(u32::MAX), None);
}

#[test]
fn validation_boundary() {
    assert!(valid_nes_code("GOSSIP"));
    assert!(valid_nes_code("ZEXPYGLA"));
    assert!(valid_nes_code("AAAAAA"));
    assert!(valid_nes_code("NNNNNNNN"));
    assert!(!valid_nes_code(""));
    assert!(!valid_nes_code("GOSSI"));
    assert!(!valid_nes_code("GOSSIPA"));
    assert!(!valid_nes_code("ZEXPYGLAA"));
    assert!(!valid_nes_code("GOSSIB"));
    assert!(!valid_nes_code("gossip"));
    assert!(!valid_nes_code("ZEXPYGL1"));
    assert!(!valid_nes_code("GOSSÉ"));
}

#[test]
fn invalid_codes_are_rejected() {
    assert_eq!(decode_nes("GOSSI"), None);
    assert_eq!(decode_nes("GOSSIB"), None);
    assert_eq!(decode_nes("ZEXPYGLAA"), None);
    assert_eq!(get_alternate_code_nes("GOSSI"), None);
    assert_eq!(get_alternate_code_nes("ZEXPYGL1"), None);
}

#[test]
fn encoding_a_decoded_code_decodes_the_same() {
    for code in ["GOSSIP", "GOISIP", "ZEXPYGLA", "ZEZPYGLA", "AAAAAA", "NNNNNNNN", "PAXAVE"] {
        let d = decode_nes(code).unwrap();
        let canonical = encode(d);
        assert_eq!(decode_nes(&canonical).unwrap(), d);
    }
}

#[test]
fn canonical_code_clears_the_third_letter_bit() {
    assert_eq!(encode(decode_nes("GOSSIP").unwrap()), "GOISIP");
    assert_eq!(encode(decode_nes("GOISIP").unwrap()), "GOISIP");
    assert_eq!(encode(decode_nes("ZEXPYGLA").unwrap()), "ZEZPYGLA");
    assert_eq!(encode(decode_nes("NNNNNNNN").unwrap()), "NNYNNNNN");
}

#[test]
fn alternate_twice_is_identity_and_decodes_the_same() {
    for code in ["GOSSIP", "GOISIP", "ZEXPYGLA", "AAAAAA", "NNNNNNNN"] {
        let alt = get_alternate_code_nes(code).unwrap();
        assert_ne!(alt, code);
        assert_eq!(get_alternate_code_nes(&alt).unwrap(), code);
        assert_eq!(decode_nes(&alt), decode_nes(code));
    }
}

#[test]
fn decode_extremes() {
    assert_eq!(decode_nes("AAAAAA").unwrap(), GGCode::NESCode { addr: 0x8000, val: 0x00 });
    assert_eq!(decode_nes("NNNNNN").unwrap(), GGCode::NESCode { addr: 0xFFFF, val: 0xFF });
    assert_eq!(
        decode_nes("NNNNNNNN").unwrap(),
        GGCode::NESCondCode { addr: 0xFFFF, cond: 0xFF, val: 0xFF }
    );
}

#[test]
fn encode_extremes_and_round_trip() {
    assert_eq!(encode(GGCode::NESCode { addr: 0x8000, val: 0x00 }), "AAAAAA");
    assert_eq!(encode(GGCode::NESCode { addr: 0xFFFF, val: 0xFF }), "NNYNNN");
    let all = [
        GGCode::NESCode { addr: 0x8123, val: 0xA5 },
        GGCode::NESCondCode { addr: 0xC0DE, cond: 0x5A, val: 0x3C },
        GGCode::NESCondCode { addr: 0xFFFF, cond: 0x00, val: 0xFF },
    ];
    for d in all {
        assert_eq!(decode_nes(&encode(d)).unwrap(), d);
    }
    assert_eq!(encode(GGCode::NESCondCode { addr: 0x8000, cond: 0, val: 0 }).len(), 8);
}

#[test]
fn low_address_gains_the_top_bit() {
    let d = decode_nes(&encode(GGCode::NESCode { addr: 0x1234, val: 0x56 })).unwrap();
    assert_eq!(d, GGCode::NESCode { addr: 0x9234, val: 0x56 });
}

#[test]
fn descriptors_are_ordered_by_variant_then_fields() {
    let a = GGCode::NESCode { addr: 0xFFFF, val: 0xFF };
    let b = GGCode::NESCondCode { addr: 0x8000, cond: 0, val: 0 };
    let c = GGCode::NESCondCode { addr: 0x8000, cond: 1, val: 0 };
    assert!(a < b);
    assert!(b < c);
}
