//! Friend-code generation: short human-typable codes users hand each
//! other to open a relationship request.

use vstd::prelude::*;

verus! {

/// The alphabet friend codes draw from: capitals and digits without the
/// easily confused I, O, 0 and 1.
pub open spec fn code_alphabet() -> Seq<char> {
    seq![
        'A', 'B', 'C', 'D', 'E', 'F', 'G', 'H', 'J', 'K', 'L', 'M', 'N', 'P', 'Q', 'R',
        'S', 'T', 'U', 'V', 'W', 'X', 'Y', 'Z', '2', '3', '4', '5', '6', '7', '8', '9',
    ]
}

/// Relies on rand::thread_rng and rand::Rng::gen_range: a value drawn
/// uniformly from the non-empty range [0, 32). Nothing more is promised
/// of a random draw.
#[verifier::external_body]
fn random_code_index() -> (r: usize)
    ensures
        r < 32,
{
    rand::Rng::gen_range(&mut rand::thread_rng(), 0..32usize)
}

/// The one-character text of the alphabet entry at `i`.
fn code_piece(i: usize) -> (r: &'static str)
    requires
        i < 32,
    ensures
        r@.len() == 1,
        r@[0] == code_alphabet()[i as int],
{
    proof {
        reveal_strlit("A");
        reveal_strlit("B");
        reveal_strlit("C");
        reveal_strlit("D");
        reveal_strlit("E");
        reveal_strlit("F");
        reveal_strlit("G");
        reveal_strlit("H");
        reveal_strlit("J");
        reveal_strlit("K");
        reveal_strlit("L");
        reveal_strlit("M");
        reveal_strlit("N");
        reveal_strlit("P");
        reveal_strlit("Q");
        reveal_strlit("R");
        reveal_strlit("S");
        reveal_strlit("T");
        reveal_strlit("U");
        reveal_strlit("V");
        reveal_strlit("W");
        reveal_strlit("X");
        reveal_strlit("Y");
        reveal_strlit("Z");
        reveal_strlit("2");
        reveal_strlit("3");
        reveal_strlit("4");
        reveal_strlit("5");
        reveal_strlit("6");
        reveal_strlit("7");
        reveal_strlit("8");
        reveal_strlit("9");
    }
    match i {
        0 => "A",
        1 => "B",
        2 => "C",
        3 => "D",
        4 => "E",
        5 => "F",
        6 => "G",
        7 => "H",
        8 => "J",
        9 => "K",
        10 => "L",
        11 => "M",
        12 => "N",
        13 => "P",
        14 => "Q",
        15 => "R",
        16 => "S",
        17 => "T",
        18 => "U",
        19 => "V",
        20 => "W",
        21 => "X",
        22 => "Y",
        23 => "Z",
        24 => "2",
        25 => "3",
        26 => "4",
        27 => "5",
        28 => "6",
        29 => "7",
        30 => "8",
        _ => "9",
    }
}

/// Appends four alphabet characters drawn at random.
fn append_code_group(s: &mut String)
    ensures
        final(s)@.len() == old(s)@.len() + 4,
        forall|k: int| 0 <= k < old(s)@.len() ==> #[trigger] final(s)@[k] == old(s)@[k],
        forall|k: int| old(s)@.len() <= k < final(s)@.len()
            ==> code_alphabet().contains(#[trigger] final(s)@[k]),
{
    let mut d: usize = 0;
    while d < 4
        invariant
            d <= 4,
            s@.len() == old(s)@.len() + d,
            forall|k: int| 0 <= k < old(s)@.len() ==> #[trigger] s@[k] == old(s)@[k],
            forall|k: int| old(s)@.len() <= k < s@.len()
                ==> code_alphabet().contains(#[trigger] s@[k]),
        decreases 4 - d,
    {
        let i = random_code_index();
        let piece = code_piece(i);
        let ghost before = s@;
        s.append(piece);
        proof {
            assert(s@ == before + piece@);
            assert(s@[s@.len() - 1] == code_alphabet()[i as int]);
            assert(code_alphabet().contains(code_alphabet()[i as int]));
            assert forall|k: int| 0 <= k < before.len()
                implies #[trigger] s@[k] == before[k] by {}
        }
        d = d + 1;
    }
}

/// A fresh friend code: `GC-` followed by two groups of four alphabet
/// characters separated by `-`. Uniqueness against codes already issued
/// is the durable store's check, not this function's.
pub fn generate_friend_code() -> (r: String)
    ensures
        r@.len() == 12,
        r@[0] == 'G',
        r@[1] == 'C',
        r@[2] == '-',
        r@[7] == '-',
        forall|k: int| 3 <= k < 7 || 8 <= k < 12
            ==> code_alphabet().contains(#[trigger] r@[k]),
{
    let mut s = String::from_str("GC-");
    proof {
        reveal_strlit("GC-");
        assert(s@.len() == 3);
    }
    append_code_group(&mut s);
    let ghost mid = s@;
    s.append("-");
    proof {
        reveal_strlit("-");
        assert(s@ == mid + "-"@);
        assert(s@.len() == 8);
        assert(s@[7] == '-');
        assert forall|k: int| 0 <= k < 7 implies #[trigger] s@[k] == mid[k] by {}
    }
    append_code_group(&mut s);
    s
}

} // verus!
