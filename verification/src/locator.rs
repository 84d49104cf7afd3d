//! The textual form of opaque identifiers and the relative path of a
//! collect job's locator, built from the task and collect identifiers.

use vstd::prelude::*;
use vstd::string::StringExecFns;
use crate::messages::Id;

verus! {

/// The 64 characters of the URL-safe encoding, in value order: the
/// upper-case letters, the lower-case letters, the digits, minus and
/// underscore.
pub open spec fn b64url_alphabet() -> Seq<char> {
    seq![
        'A',
        'B',
        'C',
        'D',
        'E',
        'F',
        'G',
        'H',
        'I',
        'J',
        'K',
        'L',
        'M',
        'N',
        'O',
        'P',
        'Q',
        'R',
        'S',
        'T',
        'U',
        'V',
        'W',
        'X',
        'Y',
        'Z',
        'a',
        'b',
        'c',
        'd',
        'e',
        'f',
        'g',
        'h',
        'i',
        'j',
        'k',
        'l',
        'm',
        'n',
        'o',
        'p',
        'q',
        'r',
        's',
        't',
        'u',
        'v',
        'w',
        'x',
        'y',
        'z',
        '0',
        '1',
        '2',
        '3',
        '4',
        '5',
        '6',
        '7',
        '8',
        '9',
        '-',
        '_',
    ]
}

/// Sextet number `i` of a 32-byte identifier: six bits of the identifier,
/// read left to right, the last sextet padded with zero bits.
pub open spec fn b64url_sextet(s: Seq<u8>, i: int) -> u8
    recommends
        s.len() == 32,
        0 <= i < 43,
{
    let g = i / 4;
    let k = i % 4;
    if k == 0 {
        s[3 * g] >> 2
    } else if k == 1 {
        ((s[3 * g] & 3) << 4) | (if 3 * g + 1 < 32 {
            s[3 * g + 1] >> 4
        } else {
            0
        })
    } else if k == 2 {
        ((s[3 * g + 1] & 15) << 2) | (if 3 * g + 2 < 32 {
            s[3 * g + 2] >> 6
        } else {
            0
        })
    } else {
        s[3 * g + 2] & 63
    }
}

/// The unpadded URL-safe rendering of a 32-byte identifier: 43
/// characters, one per sextet.
pub open spec fn b64url_of(s: Seq<u8>) -> Seq<char>
    recommends
        s.len() == 32,
{
    Seq::new(43, |i: int| b64url_alphabet()[b64url_sextet(s, i) as int])
}

/// The one-character string holding the URL-safe digit of value `v`.
fn b64url_digit_str(v: u8) -> (r: &'static str)
    requires
        v < 64,
    ensures
        r@.len() == 1,
        r@[0] == b64url_alphabet()[v as int],
{
    if v == 0 {
        proof {
            reveal_strlit("A");
        }
        "A"
    } else if v == 1 {
        proof {
            reveal_strlit("B");
        }
        "B"
    } else if v == 2 {
        proof {
            reveal_strlit("C");
        }
        "C"
    } else if v == 3 {
        proof {
            reveal_strlit("D");
        }
        "D"
    } else if v == 4 {
        proof {
            reveal_strlit("E");
        }
        "E"
    } else if v == 5 {
        proof {
            reveal_strlit("F");
        }
        "F"
    } else if v == 6 {
        proof {
            reveal_strlit("G");
        }
        "G"
    } else if v == 7 {
        proof {
            reveal_strlit("H");
        }
        "H"
    } else if v == 8 {
        proof {
            reveal_strlit("I");
        }
        "I"
    } else if v == 9 {
        proof {
            reveal_strlit("J");
        }
        "J"
    } else if v == 10 {
        proof {
            reveal_strlit("K");
        }
        "K"
    } else if v == 11 {
        proof {
            reveal_strlit("L");
        }
        "L"
    } else if v == 12 {
        proof {
            reveal_strlit("M");
        }
        "M"
    } else if v == 13 {
        proof {
            reveal_strlit("N");
        }
        "N"
    } else if v == 14 {
        proof {
            reveal_strlit("O");
        }
        "O"
    } else if v == 15 {
        proof {
            reveal_strlit("P");
        }
        "P"
    } else if v == 16 {
        proof {
            reveal_strlit("Q");
        }
        "Q"
    } else if v == 17 {
        proof {
            reveal_strlit("R");
        }
        "R"
    } else if v == 18 {
        proof {
            reveal_strlit("S");
        }
        "S"
    } else if v == 19 {
        proof {
            reveal_strlit("T");
        }
        "T"
    } else if v == 20 {
        proof {
            reveal_strlit("U");
        }
        "U"
    } else if v == 21 {
        proof {
            reveal_strlit("V");
        }
        "V"
    } else if v == 22 {
        proof {
            reveal_strlit("W");
        }
        "W"
    } else if v == 23 {
        proof {
            reveal_strlit("X");
        }
        "X"
    } else if v == 24 {
        proof {
            reveal_strlit("Y");
        }
        "Y"
    } else if v == 25 {
        proof {
            reveal_strlit("Z");
        }
        "Z"
    } else if v == 26 {
        proof {
            reveal_strlit("a");
        }
        "a"
    } else if v == 27 {
        proof {
            reveal_strlit("b");
        }
        "b"
    } else if v == 28 {
        proof {
            reveal_strlit("c");
        }
        "c"
    } else if v == 29 {
        proof {
            reveal_strlit("d");
        }
        "d"
    } else if v == 30 {
        proof {
            reveal_strlit("e");
        }
        "e"
    } else if v == 31 {
        proof {
            reveal_strlit("f");
        }
        "f"
    } else if v == 32 {
        proof {
            reveal_strlit("g");
        }
        "g"
    } else if v == 33 {
        proof {
            reveal_strlit("h");
        }
        "h"
    } else if v == 34 {
        proof {
            reveal_strlit("i");
        }
        "i"
    } else if v == 35 {
        proof {
            reveal_strlit("j");
        }
        "j"
    } else if v == 36 {
        proof {
            reveal_strlit("k");
        }
        "k"
    } else if v == 37 {
        proof {
            reveal_strlit("l");
        }
        "l"
    } else if v == 38 {
        proof {
            reveal_strlit("m");
        }
        "m"
    } else if v == 39 {
        proof {
            reveal_strlit("n");
        }
        "n"
    } else if v == 40 {
        proof {
            reveal_strlit("o");
        }
        "o"
    } else if v == 41 {
        proof {
            reveal_strlit("p");
        }
        "p"
    } else if v == 42 {
        proof {
            reveal_strlit("q");
        }
        "q"
    } else if v == 43 {
        proof {
            reveal_strlit("r");
        }
        "r"
    } else if v == 44 {
        proof {
            reveal_strlit("s");
        }
        "s"
    } else if v == 45 {
        proof {
            reveal_strlit("t");
        }
        "t"
    } else if v == 46 {
        proof {
            reveal_strlit("u");
        }
        "u"
    } else if v == 47 {
        proof {
            reveal_strlit("v");
        }
        "v"
    } else if v == 48 {
        proof {
            reveal_strlit("w");
        }
        "w"
    } else if v == 49 {
        proof {
            reveal_strlit("x");
        }
        "x"
    } else if v == 50 {
        proof {
            reveal_strlit("y");
        }
        "y"
    } else if v == 51 {
        proof {
            reveal_strlit("z");
        }
        "z"
    } else if v == 52 {
        proof {
            reveal_strlit("0");
        }
        "0"
    } else if v == 53 {
        proof {
            reveal_strlit("1");
        }
        "1"
    } else if v == 54 {
        proof {
            reveal_strlit("2");
        }
        "2"
    } else if v == 55 {
        proof {
            reveal_strlit("3");
        }
        "3"
    } else if v == 56 {
        proof {
            reveal_strlit("4");
        }
        "4"
    } else if v == 57 {
        proof {
            reveal_strlit("5");
        }
        "5"
    } else if v == 58 {
        proof {
            reveal_strlit("6");
        }
        "6"
    } else if v == 59 {
        proof {
            reveal_strlit("7");
        }
        "7"
    } else if v == 60 {
        proof {
            reveal_strlit("8");
        }
        "8"
    } else if v == 61 {
        proof {
            reveal_strlit("9");
        }
        "9"
    } else if v == 62 {
        proof {
            reveal_strlit("-");
        }
        "-"
    } else {
        proof {
            reveal_strlit("_");
        }
        "_"
    }
}

/// Renders an identifier as its 43-character URL-safe form.
pub fn id_to_base64url(id: &Id) -> (r: String)
    ensures
        r@ == b64url_of(id@),
{
    let mut s = String::new();
    let mut g: usize = 0;
    while g < 10
        invariant
            g <= 10,
            s@ =~= b64url_of(id@).take(4 * g as int),
        decreases 10 - g,
    {
        let b0 = id.bytes[3 * g];
        let b1 = id.bytes[3 * g + 1];
        let b2 = id.bytes[3 * g + 2];
        let v0 = b0 >> 2;
        let v1 = ((b0 & 3) << 4) | (b1 >> 4);
        let v2 = ((b1 & 15) << 2) | (b2 >> 6);
        let v3 = b2 & 63;
        proof {
            assert(b0 >> 2 < 64 && ((b0 & 3) << 4) | (b1 >> 4) < 64 && ((b1 & 15) << 2) | (b2
                >> 6) < 64 && b2 & 63 < 64) by (bit_vector);
        }
        s.append(b64url_digit_str(v0));
        s.append(b64url_digit_str(v1));
        s.append(b64url_digit_str(v2));
        s.append(b64url_digit_str(v3));
        proof {
            let i = 4 * g as int;
            assert(v0 == b64url_sextet(id@, i));
            assert(v1 == b64url_sextet(id@, i + 1));
            assert(v2 == b64url_sextet(id@, i + 2));
            assert(v3 == b64url_sextet(id@, i + 3));
            assert(s@ =~= b64url_of(id@).take(4 * (g + 1) as int));
        }
        g += 1;
    }
    let b0 = id.bytes[30];
    let b1 = id.bytes[31];
    let v0 = b0 >> 2;
    let v1 = ((b0 & 3) << 4) | (b1 >> 4);
    let v2 = (b1 & 15) << 2;
    proof {
        assert(b0 >> 2 < 64 && ((b0 & 3) << 4) | (b1 >> 4) < 64 && (b1 & 15) << 2 < 64)
            by (bit_vector);
        assert((b1 & 15) << 2 == ((b1 & 15) << 2) | 0) by (bit_vector);
    }
    s.append(b64url_digit_str(v0));
    s.append(b64url_digit_str(v1));
    s.append(b64url_digit_str(v2));
    proof {
        assert(v0 == b64url_sextet(id@, 40));
        assert(v1 == b64url_sextet(id@, 41));
        assert(v2 == b64url_sextet(id@, 42));
        assert(s@ =~= b64url_of(id@));
    }
    s
}

/// The relative path of a collect job's locator: the task identifier and
/// the collect identifier, rendered URL-safe, under fixed path segments.
pub open spec fn collect_path_of(task_id: Seq<u8>, collect_id: Seq<u8>) -> Seq<char> {
    "collect/task/"@ + b64url_of(task_id) + "/req/"@ + b64url_of(collect_id)
}

/// Builds the relative path of a collect job's locator.
pub fn collect_path(task_id: &Id, collect_id: &Id) -> (r: String)
    ensures
        r@ == collect_path_of(task_id@, collect_id@),
{
    let mut s = String::from_str("collect/task/");
    let t = id_to_base64url(task_id);
    s.append(t.as_str());
    s.append("/req/");
    let c = id_to_base64url(collect_id);
    s.append(c.as_str());
    proof {
        assert(s@ =~= collect_path_of(task_id@, collect_id@));
    }
    s
}

} // verus!
