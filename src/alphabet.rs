use vstd::prelude::*;

verus! {

/// The sixteen letters of a code, each standing for its position.
pub open spec fn alphabet() -> Seq<char> {
    seq!['A', 'P', 'Z', 'L', 'G', 'I', 'T', 'Y', 'E', 'O', 'X', 'U', 'K', 'S', 'V', 'N']
}

/// The four-bit value of a letter, or `None` for a character outside the alphabet.
pub open spec fn char_value(c: char) -> Option<u32> {
    match c {
        'A' => Some(0),
        'P' => Some(1),
        'Z' => Some(2),
        'L' => Some(3),
        'G' => Some(4),
        'I' => Some(5),
        'T' => Some(6),
        'Y' => Some(7),
        'E' => Some(8),
        'O' => Some(9),
        'X' => Some(10),
        'U' => Some(11),
        'K' => Some(12),
        'S' => Some(13),
        'V' => Some(14),
        'N' => Some(15),
        _ => None,
    }
}

/// The letter of a value, or `None` for a value above fifteen.
pub open spec fn value_char(b: u32) -> Option<char> {
    if b < 16 {
        Some(alphabet()[b as int])
    } else {
        None
    }
}

/// Letters and values are exact inverses: every value below sixteen comes
/// back from its letter, and every letter of the alphabet comes back from
/// its value.
pub proof fn lemma_alphabet_round_trip()
    ensures
        forall|v: u32| v < 16 ==> #[trigger] char_value(alphabet()[v as int]) == Some(v),
        forall|c: char| #[trigger] char_value(c) is Some ==> char_value(c)->0 < 16
            && alphabet()[char_value(c)->0 as int] == c,
        forall|c: char| #[trigger] char_value(c) is Some <==> alphabet().contains(c),
{
    assert forall|v: u32| v < 16 implies #[trigger] char_value(alphabet()[v as int]) == Some(v) by {
        assert(v == 0 || v == 1 || v == 2 || v == 3 || v == 4 || v == 5 || v == 6 || v == 7
            || v == 8 || v == 9 || v == 10 || v == 11 || v == 12 || v == 13 || v == 14 || v == 15);
    }
    assert forall|c: char| #[trigger] char_value(c) is Some <==> alphabet().contains(c) by {
        if char_value(c) is Some {
            assert(alphabet()[char_value(c)->0 as int] == c);
        }
    }
}

/// The letters in the order of their values.
fn letters() -> (r: [char; 16])
    ensures
        r@ == alphabet(),
{
    let r: [char; 16] = ['A', 'P', 'Z', 'L', 'G', 'I', 'T', 'Y', 'E', 'O', 'X', 'U', 'K', 'S', 'V', 'N'];
    assert(r@ == alphabet());
    r
}

/// The value of a letter of the alphabet, found as its position; `None` for
/// any other character.
pub fn nes_char_to_num(c: char) -> (r: Option<u32>)
    ensures
        r == char_value(c),
{
    proof {
        lemma_alphabet_round_trip();
    }
    let table = letters();
    let mut i: usize = 0;
    while i < 16
        invariant
            i <= 16,
            table@ == alphabet(),
            forall|j: int| 0 <= j < i ==> table@[j] != c,
        decreases 16 - i,
    {
        if table[i] == c {
            return Some(i as u32);
        }
        i = i + 1;
    }
    proof {
        if char_value(c) is Some {
            assert(table@[char_value(c)->0 as int] == c);
        }
    }
    None
}

/// The letter of a four-bit value; `None` for a value above fifteen.
pub fn nes_num_to_char(b: u32) -> (r: Option<char>)
    ensures
        r == value_char(b),
{
    if b < 16 {
        let table = letters();
        Some(table[b as usize])
    } else {
        None
    }
}

} // verus!
