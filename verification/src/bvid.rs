//! Conversion of numeric AV video numbers into BV identifiers.
use vstd::prelude::*;
use crate::patterns::is_ascii_alphanumeric;
use crate::text::{
    chars_to_string, has_prefix, parse_unsigned, starts_with, string_result, sub_chars, to_chars,
    unsigned_value,
};

verus! {

pub const XOR_CODE: u128 = 23442827791579;

pub const MAX_AID: u128 = 1u128 << 51;

pub const BASE: u128 = 58;

/// The digits of the base-58 encoding, by value.
pub const BV_ALPHABET: [char; 58] = [
    'F', 'c', 'w', 'A', 'P', 'N', 'K', 'T', 'M', 'u', 'g', '3',
    'G', 'V', '5', 'L', 'j', '7', 'E', 'J', 'n', 'H', 'p', 'W',
    's', 'x', '4', 't', 'b', '8', 'h', 'a', 'Y', 'e', 'v', 'i',
    'q', 'B', 'z', '6', 'r', 'k', 'C', 'y', '1', '2', 'm', 'U',
    'S', 'D', 'Q', 'X', '9', 'R', 'd', 'o', 'Z', 'f',
];

/// The identifier that the digits are written into, from the right.
pub open spec fn bv_template() -> Seq<char> {
    seq!['B', 'V', '1', '0', '0', '0', '0', '0', '0', '0', '0', '0']
}

/// `t` divided by 58, `j` times.
pub open spec fn shifted(t: nat, j: nat) -> nat
    decreases j,
{
    if j == 0 {
        t
    } else {
        shifted(t, (j - 1) as nat) / 58
    }
}

/// The number that is written in base 58 for AV number `aid`.
pub open spec fn bv_seed(aid: u128) -> nat {
    ((MAX_AID | aid) ^ XOR_CODE) as nat
}

/// The template with the base-58 digits of `t` written over it from the
/// last position leftwards, as long as digits remain.
pub open spec fn written_digits(t: nat) -> Seq<char> {
    Seq::new(
        12,
        |p: int|
            {
                let q = shifted(t, (11 - p) as nat);
                if q > 0 {
                    BV_ALPHABET@[(q % 58) as int]
                } else {
                    bv_template()[p]
                }
            },
    )
}

/// The position whose character lands at `p` once the characters at 3 and
/// 9, and at 4 and 7, are exchanged.
pub open spec fn bv_source_position(p: int) -> int {
    if p == 3 {
        9
    } else if p == 9 {
        3
    } else if p == 4 {
        7
    } else if p == 7 {
        4
    } else {
        p
    }
}

/// The BV identifier of AV number `aid`.
pub open spec fn bv_of_aid(aid: u128) -> Seq<char> {
    let w = written_digits(bv_seed(aid));
    Seq::new(12, |p: int| w[bv_source_position(p)])
}

/// The digits that `av2bv` parses: its argument without a leading `av`.
pub open spec fn av_digits(av: Seq<char>) -> Seq<char> {
    if has_prefix(av, "av"@) {
        av.skip(2)
    } else {
        av
    }
}

/// What `av2bv` gives for `av`: the BV identifier of the number that
/// `av` spells, or the message that it is no AV number.
pub open spec fn av2bv_result(av: Seq<char>) -> Result<Seq<char>, Seq<char>> {
    match unsigned_value(av_digits(av), u128::MAX as nat) {
        Some(aid) => Ok(bv_of_aid(aid as u128)),
        None => Err("invalid AV number: "@ + av),
    }
}

pub proof fn lemma_shifted_zero(t: nat, j: nat, k: nat)
    requires
        j <= k,
        shifted(t, j) == 0,
    ensures
        shifted(t, k) == 0,
    decreases k - j,
{
    if j < k {
        lemma_shifted_zero(t, j, (k - 1) as nat);
    }
}

pub proof fn lemma_shifted_positive(t: nat, j: nat, k: nat)
    requires
        j <= k,
        shifted(t, k) > 0,
    ensures
        shifted(t, j) > 0,
    decreases k - j,
{
    if j < k {
        lemma_shifted_positive(t, j, (k - 1) as nat);
    }
}

/// Converts an AV number (with or without its `av` prefix) into the
/// corresponding BV identifier.
pub fn av2bv(av: &str) -> (r: Result<String, String>)
    ensures
        string_result(r) == av2bv_result(av@),
{
    let chars = to_chars(av);
    let prefix = to_chars("av");
    proof {
        reveal_strlit("av");
    }
    let digits = if starts_with(&chars, &prefix) {
        sub_chars(&chars, 2, chars.len())
    } else {
        sub_chars(&chars, 0, chars.len())
    };
    assert(digits@ == av_digits(av@));
    let aid = match parse_unsigned(&digits, u128::MAX) {
        Some(aid) => aid,
        None => {
            let mut e = "invalid AV number: ".to_string();
            e.append(av);
            return Err(e);
        },
    };
    let mut bytes: Vec<char> = vec!['B', 'V', '1', '0', '0', '0', '0', '0', '0', '0', '0', '0'];
    assert(bytes@ == bv_template());
    let mut bv_index: usize = bytes.len() - 1;
    let mut tmp: u128 = (MAX_AID | aid) ^ XOR_CODE;
    let ghost t: nat = tmp as nat;
    let ghost mut j: nat = 0;
    loop
        invariant_except_break
            j <= 11,
            bv_index == 11 - j,
            tmp == shifted(t, j),
            j > 0 ==> shifted(t, (j - 1) as nat) > 0,
            bytes@.len() == 12,
            forall|p: int|
                0 <= p < 12 ==> #[trigger] bytes@[p] == (if p > 11 - j {
                    BV_ALPHABET@[(shifted(t, (11 - p) as nat) % 58) as int]
                } else {
                    bv_template()[p]
                }),
        ensures
            bytes@ == written_digits(t),
        decreases 12 - j,
    {
        if tmp == 0 {
            proof {
                assert forall|p: int| 0 <= p < 12 implies #[trigger] bytes@[p] == written_digits(
                    t,
                )[p] by {
                    if p > 11 - j {
                        lemma_shifted_positive(t, (11 - p) as nat, (j - 1) as nat);
                    } else {
                        lemma_shifted_zero(t, j, (11 - p) as nat);
                    }
                }
                assert(bytes@ =~= written_digits(t));
            }
            break;
        }
        let digit = (tmp % BASE) as usize;
        bytes.set(bv_index, BV_ALPHABET[digit]);
        tmp = tmp / BASE;
        if bv_index == 0 {
            proof {
                assert forall|p: int| 0 <= p < 12 implies #[trigger] bytes@[p] == written_digits(
                    t,
                )[p] by {
                    lemma_shifted_positive(t, (11 - p) as nat, 11);
                }
                assert(bytes@ =~= written_digits(t));
            }
            break;
        }
        bv_index -= 1;
        proof {
            j = j + 1;
        }
    }
    let ghost w = bytes@;
    let c3 = bytes[3];
    let c9 = bytes[9];
    bytes.set(3, c9);
    bytes.set(9, c3);
    let c4 = bytes[4];
    let c7 = bytes[7];
    bytes.set(4, c7);
    bytes.set(7, c4);
    assert(bytes@ =~= bv_of_aid(aid));
    Ok(chars_to_string(&bytes))
}

/// The value of a base-58 digit character (58 for other characters).
pub open spec fn alphabet_index(c: char) -> int {
    if c == 'F' {
        0
    } else if c == 'c' {
        1
    } else if c == 'w' {
        2
    } else if c == 'A' {
        3
    } else if c == 'P' {
        4
    } else if c == 'N' {
        5
    } else if c == 'K' {
        6
    } else if c == 'T' {
        7
    } else if c == 'M' {
        8
    } else if c == 'u' {
        9
    } else if c == 'g' {
        10
    } else if c == '3' {
        11
    } else if c == 'G' {
        12
    } else if c == 'V' {
        13
    } else if c == '5' {
        14
    } else if c == 'L' {
        15
    } else if c == 'j' {
        16
    } else if c == '7' {
        17
    } else if c == 'E' {
        18
    } else if c == 'J' {
        19
    } else if c == 'n' {
        20
    } else if c == 'H' {
        21
    } else if c == 'p' {
        22
    } else if c == 'W' {
        23
    } else if c == 's' {
        24
    } else if c == 'x' {
        25
    } else if c == '4' {
        26
    } else if c == 't' {
        27
    } else if c == 'b' {
        28
    } else if c == '8' {
        29
    } else if c == 'h' {
        30
    } else if c == 'a' {
        31
    } else if c == 'Y' {
        32
    } else if c == 'e' {
        33
    } else if c == 'v' {
        34
    } else if c == 'i' {
        35
    } else if c == 'q' {
        36
    } else if c == 'B' {
        37
    } else if c == 'z' {
        38
    } else if c == '6' {
        39
    } else if c == 'r' {
        40
    } else if c == 'k' {
        41
    } else if c == 'C' {
        42
    } else if c == 'y' {
        43
    } else if c == '1' {
        44
    } else if c == '2' {
        45
    } else if c == 'm' {
        46
    } else if c == 'U' {
        47
    } else if c == 'S' {
        48
    } else if c == 'D' {
        49
    } else if c == 'Q' {
        50
    } else if c == 'X' {
        51
    } else if c == '9' {
        52
    } else if c == 'R' {
        53
    } else if c == 'd' {
        54
    } else if c == 'o' {
        55
    } else if c == 'Z' {
        56
    } else if c == 'f' {
        57
    } else {
        58
    }
}

proof fn lemma_alphabet_index()
    ensures
        forall|i: int| 0 <= i < 58 ==> alphabet_index(#[trigger] BV_ALPHABET@[i]) == i,
{
    assert forall|i: int| 0 <= i < 58 implies alphabet_index(#[trigger] BV_ALPHABET@[i]) == i by {
        if i == 0 {
        } else if i == 1 {
        } else if i == 2 {
        } else if i == 3 {
        } else if i == 4 {
        } else if i == 5 {
        } else if i == 6 {
        } else if i == 7 {
        } else if i == 8 {
        } else if i == 9 {
        } else if i == 10 {
        } else if i == 11 {
        } else if i == 12 {
        } else if i == 13 {
        } else if i == 14 {
        } else if i == 15 {
        } else if i == 16 {
        } else if i == 17 {
        } else if i == 18 {
        } else if i == 19 {
        } else if i == 20 {
        } else if i == 21 {
        } else if i == 22 {
        } else if i == 23 {
        } else if i == 24 {
        } else if i == 25 {
        } else if i == 26 {
        } else if i == 27 {
        } else if i == 28 {
        } else if i == 29 {
        } else if i == 30 {
        } else if i == 31 {
        } else if i == 32 {
        } else if i == 33 {
        } else if i == 34 {
        } else if i == 35 {
        } else if i == 36 {
        } else if i == 37 {
        } else if i == 38 {
        } else if i == 39 {
        } else if i == 40 {
        } else if i == 41 {
        } else if i == 42 {
        } else if i == 43 {
        } else if i == 44 {
        } else if i == 45 {
        } else if i == 46 {
        } else if i == 47 {
        } else if i == 48 {
        } else if i == 49 {
        } else if i == 50 {
        } else if i == 51 {
        } else if i == 52 {
        } else if i == 53 {
        } else if i == 54 {
        } else if i == 55 {
        } else if i == 56 {
        } else if i == 57 {
        }
    }
}

proof fn lemma_seed_range(a: u128, b: u128)
    requires
        a < MAX_AID,
        b < MAX_AID,
    ensures
        MAX_AID <= (MAX_AID | a) ^ XOR_CODE < 2 * MAX_AID,
        ((MAX_AID | a) ^ XOR_CODE) == ((MAX_AID | b) ^ XOR_CODE) ==> a == b,
{
    assert(MAX_AID == 0x8000000000000u128) by (bit_vector);
    assert(a < 0x8000000000000u128 && b < 0x8000000000000u128 ==> 0x8000000000000u128 <= (
    0x8000000000000u128 | a) ^ 23442827791579u128 < 0x10000000000000u128 && (((0x8000000000000u128
        | a) ^ 23442827791579u128) == ((0x8000000000000u128 | b) ^ 23442827791579u128) ==> a == b))
        by (bit_vector);
}

/// A number of nine base-58 digits keeps its leading digit after eight
/// divisions and vanishes after nine.
proof fn lemma_nine_digits(t: nat)
    requires
        128063081718016 <= t < 7427658739644928,
    ensures
        forall|k: nat| k <= 8 ==> #[trigger] shifted(t, k) > 0,
        forall|k: nat| k >= 9 ==> #[trigger] shifted(t, k) == 0,
{
    assert(shifted(t, 1) == shifted(t, 0) / 58);
    assert(2207984167552 <= shifted(t, 1) < 128063081718016);
    assert(shifted(t, 2) == shifted(t, 1) / 58);
    assert(38068692544 <= shifted(t, 2) < 2207984167552);
    assert(shifted(t, 3) == shifted(t, 2) / 58);
    assert(656356768 <= shifted(t, 3) < 38068692544);
    assert(shifted(t, 4) == shifted(t, 3) / 58);
    assert(11316496 <= shifted(t, 4) < 656356768);
    assert(shifted(t, 5) == shifted(t, 4) / 58);
    assert(195112 <= shifted(t, 5) < 11316496);
    assert(shifted(t, 6) == shifted(t, 5) / 58);
    assert(3364 <= shifted(t, 6) < 195112);
    assert(shifted(t, 7) == shifted(t, 6) / 58);
    assert(58 <= shifted(t, 7) < 3364);
    assert(shifted(t, 8) == shifted(t, 7) / 58);
    assert(1 <= shifted(t, 8) < 58);
    assert(shifted(t, 9) == shifted(t, 8) / 58);
    assert(shifted(t, 9) == 0);
    assert forall|k: nat| k <= 8 implies #[trigger] shifted(t, k) > 0 by {
        lemma_shifted_positive(t, k, 8);
    }
    assert forall|k: nat| k >= 9 implies #[trigger] shifted(t, k) == 0 by {
        lemma_shifted_zero(t, 9, k);
    }
}

/// Numbers whose nine lowest base-58 digits agree, and that have no more
/// digits, are equal.
proof fn lemma_digits_determine(t1: nat, t2: nat, k: nat)
    requires
        k <= 9,
        shifted(t1, 9) == 0,
        shifted(t2, 9) == 0,
        forall|j: nat| k <= j < 9 ==> #[trigger] shifted(t1, j) % 58 == shifted(t2, j) % 58,
    ensures
        shifted(t1, k) == shifted(t2, k),
    decreases 9 - k,
{
    if k < 9 {
        lemma_digits_determine(t1, t2, k + 1);
        assert(shifted(t1, k + 1) == shifted(t1, k) / 58);
        assert(shifted(t2, k + 1) == shifted(t2, k) / 58);
        assert(shifted(t1, k) % 58 == shifted(t2, k) % 58);
    }
}

/// Every valid AV number (below `MAX_AID`) has a BV identifier that starts
/// with `BV1`, and distinct valid AV numbers have distinct BV identifiers.
pub proof fn lemma_bv_of_aid_injective(a: u128, b: u128)
    requires
        a < MAX_AID,
        b < MAX_AID,
    ensures
        bv_of_aid(a).len() == 12,
        bv_of_aid(a)[0] == 'B' && bv_of_aid(a)[1] == 'V' && bv_of_aid(a)[2] == '1',
        bv_of_aid(a) == bv_of_aid(b) ==> a == b,
{
    lemma_seed_range(a, b);
    lemma_seed_range(b, a);
    assert(MAX_AID == 2251799813685248) by (bit_vector);
    let ta = bv_seed(a);
    let tb = bv_seed(b);
    lemma_nine_digits(ta);
    lemma_nine_digits(tb);
    let wa = written_digits(ta);
    let wb = written_digits(tb);
    assert(shifted(ta, 11) == 0 && shifted(ta, 10) == 0 && shifted(ta, 9) == 0);
    if bv_of_aid(a) == bv_of_aid(b) {
        lemma_alphabet_index();
        assert forall|j: nat| 0 <= j < 9 implies #[trigger] shifted(ta, j) % 58 == shifted(tb, j)
            % 58 by {
            let p: int = 11 - j;
            assert(bv_source_position(bv_source_position(p)) == p);
            assert(bv_of_aid(a)[bv_source_position(p)] == wa[p]);
            assert(bv_of_aid(b)[bv_source_position(p)] == wb[p]);
            assert(shifted(ta, (11 - p) as nat) > 0);
            assert(shifted(tb, (11 - p) as nat) > 0);
            assert(alphabet_index(wa[p]) == alphabet_index(wb[p]));
        }
        lemma_digits_determine(ta, tb, 0);
    }
}

/// The `av` prefix is optional: digits give the same BV identifier with or
/// without it in front.
pub proof fn lemma_av_prefix_optional(digits: Seq<char>)
    requires
        !has_prefix(digits, "av"@),
    ensures
        av_digits("av"@ + digits) == av_digits(digits),
        av2bv_result("av"@ + digits) is Ok <==> av2bv_result(digits) is Ok,
        av2bv_result("av"@ + digits) is Ok ==> av2bv_result("av"@ + digits) == av2bv_result(digits),
{
    reveal_strlit("av");
    let s = "av"@ + digits;
    assert(s.subrange(0, 2) =~= "av"@);
    assert(s.skip(2) =~= digits);
}

proof fn lemma_alphabet_alphanumeric()
    ensures
        forall|i: int| 0 <= i < 58 ==> is_ascii_alphanumeric(#[trigger] BV_ALPHABET@[i]),
{
    assert forall|i: int| 0 <= i < 58 implies is_ascii_alphanumeric(#[trigger] BV_ALPHABET@[i]) by {
        if i == 0 {
        } else if i == 1 {
        } else if i == 2 {
        } else if i == 3 {
        } else if i == 4 {
        } else if i == 5 {
        } else if i == 6 {
        } else if i == 7 {
        } else if i == 8 {
        } else if i == 9 {
        } else if i == 10 {
        } else if i == 11 {
        } else if i == 12 {
        } else if i == 13 {
        } else if i == 14 {
        } else if i == 15 {
        } else if i == 16 {
        } else if i == 17 {
        } else if i == 18 {
        } else if i == 19 {
        } else if i == 20 {
        } else if i == 21 {
        } else if i == 22 {
        } else if i == 23 {
        } else if i == 24 {
        } else if i == 25 {
        } else if i == 26 {
        } else if i == 27 {
        } else if i == 28 {
        } else if i == 29 {
        } else if i == 30 {
        } else if i == 31 {
        } else if i == 32 {
        } else if i == 33 {
        } else if i == 34 {
        } else if i == 35 {
        } else if i == 36 {
        } else if i == 37 {
        } else if i == 38 {
        } else if i == 39 {
        } else if i == 40 {
        } else if i == 41 {
        } else if i == 42 {
        } else if i == 43 {
        } else if i == 44 {
        } else if i == 45 {
        } else if i == 46 {
        } else if i == 47 {
        } else if i == 48 {
        } else if i == 49 {
        } else if i == 50 {
        } else if i == 51 {
        } else if i == 52 {
        } else if i == 53 {
        } else if i == 54 {
        } else if i == 55 {
        } else if i == 56 {
        } else if i == 57 {
        }
    }
}

/// The BV identifier of a valid AV number consists of ASCII letters and
/// digits.
pub proof fn lemma_bv_of_aid_alphanumeric(a: u128)
    requires
        a < MAX_AID,
    ensures
        forall|k: int| 0 <= k < 12 ==> is_ascii_alphanumeric(#[trigger] bv_of_aid(a)[k]),
{
    lemma_seed_range(a, a);
    assert(MAX_AID == 2251799813685248) by (bit_vector);
    let t = bv_seed(a);
    lemma_nine_digits(t);
    lemma_alphabet_alphanumeric();
    let w = written_digits(t);
    assert forall|k: int| 0 <= k < 12 implies is_ascii_alphanumeric(#[trigger] bv_of_aid(a)[k]) by {
        let p = bv_source_position(k);
        assert(bv_of_aid(a)[k] == w[p]);
        if p >= 3 {
            assert(shifted(t, (11 - p) as nat) > 0);
        } else {
            assert(shifted(t, (11 - p) as nat) == 0);
        }
    }
}

} // verus!
