//! Bech32 address decoding: the textual form `hrp` + `1` + 58 data
//! characters (52 carrying a 32-byte payload, 6 of checksum), converted to
//! the fingerprint it encodes. Pure local format conversion: no ledger, no
//! network round trip.

use vstd::prelude::*;
use vstd::string::StrSliceExecFns;

use crate::error::Error;
use crate::identity::Fingerprint;

verus! {

/// The value of a data character in the bech32 charset, case-insensitive;
/// -1 for a character outside the charset.
pub open spec fn data_val(c: char) -> int {
    if c == 'q' || c == 'Q' {
        0int
    } else if c == 'p' || c == 'P' {
        1int
    } else if c == 'z' || c == 'Z' {
        2int
    } else if c == 'r' || c == 'R' {
        3int
    } else if c == 'y' || c == 'Y' {
        4int
    } else if c == '9' {
        5int
    } else if c == 'x' || c == 'X' {
        6int
    } else if c == '8' {
        7int
    } else if c == 'g' || c == 'G' {
        8int
    } else if c == 'f' || c == 'F' {
        9int
    } else if c == '2' {
        10int
    } else if c == 't' || c == 'T' {
        11int
    } else if c == 'v' || c == 'V' {
        12int
    } else if c == 'd' || c == 'D' {
        13int
    } else if c == 'w' || c == 'W' {
        14int
    } else if c == '0' {
        15int
    } else if c == 's' || c == 'S' {
        16int
    } else if c == '3' {
        17int
    } else if c == 'j' || c == 'J' {
        18int
    } else if c == 'n' || c == 'N' {
        19int
    } else if c == '5' {
        20int
    } else if c == '4' {
        21int
    } else if c == 'k' || c == 'K' {
        22int
    } else if c == 'h' || c == 'H' {
        23int
    } else if c == 'c' || c == 'C' {
        24int
    } else if c == 'e' || c == 'E' {
        25int
    } else if c == '6' {
        26int
    } else if c == 'm' || c == 'M' {
        27int
    } else if c == 'u' || c == 'U' {
        28int
    } else if c == 'a' || c == 'A' {
        29int
    } else if c == '7' {
        30int
    } else if c == 'l' || c == 'L' {
        31int
    } else {
        -1int
    }
}

/// Whether `c` is an ASCII uppercase letter.
pub open spec fn is_upper(c: char) -> bool {
    65 <= c as u32 && c as u32 <= 90
}

/// Whether `c` is an ASCII lowercase letter.
pub open spec fn is_lower(c: char) -> bool {
    97 <= c as u32 && c as u32 <= 122
}

/// Whether the text holds an ASCII uppercase letter.
pub open spec fn has_upper(s: Seq<char>) -> bool {
    exists|i: int| 0 <= i < s.len() && is_upper(#[trigger] s[i])
}

/// Whether the text holds an ASCII lowercase letter.
pub open spec fn has_lower(s: Seq<char>) -> bool {
    exists|i: int| 0 <= i < s.len() && is_lower(#[trigger] s[i])
}

/// The character's code with uppercase folded to lowercase.
pub open spec fn fcode(c: char) -> u32 {
    if is_upper(c) {
        (c as u32 + 32) as u32
    } else {
        c as u32
    }
}

/// The value of the `i`-th data character of `s` (the data part is the last
/// 58 characters).
pub open spec fn dval32(s: Seq<char>, i: int) -> u32 {
    data_val(s[s.len() - 58 + i]) as u32
}

/// The `i`-th 5-bit value fed to the checksum: the human-readable part
/// expanded (high bits, a zero, low bits), then the data values.
pub open spec fn checksum_value_at(s: Seq<char>, i: int) -> u32 {
    let h = s.len() - 59;
    if i < h {
        (fcode(s[i]) / 32) as u32
    } else if i == h {
        0u32
    } else if i < 2 * h + 1 {
        (fcode(s[i - h - 1]) % 32) as u32
    } else {
        dval32(s, i - (2 * h + 1))
    }
}

/// The whole checksum input of `s`.
pub open spec fn checksum_values(s: Seq<char>) -> Seq<u32> {
    Seq::new((2 * (s.len() - 59) + 1 + 58) as nat, |i: int| checksum_value_at(s, i))
}

/// One step of the BCH checksum over GF(32).
pub open spec fn polymod_step(chk: u32, v: u32) -> u32 {
    let b = chk >> 25u32;
    let shifted = (((chk & 0x1ffffffu32) << 5u32) ^ v) as u32;
    (shifted ^ (if b & 1u32 == 1u32 {
        0x3b6a57b2u32
    } else {
        0u32
    }) ^ (if (b >> 1u32) & 1u32 == 1u32 {
        0x26508e6du32
    } else {
        0u32
    }) ^ (if (b >> 2u32) & 1u32 == 1u32 {
        0x1ea119fau32
    } else {
        0u32
    }) ^ (if (b >> 3u32) & 1u32 == 1u32 {
        0x3d4233ddu32
    } else {
        0u32
    }) ^ (if (b >> 4u32) & 1u32 == 1u32 {
        0x2a1462b3u32
    } else {
        0u32
    })) as u32
}

/// The checksum accumulator after folding `vals[i..]` into `chk`.
pub open spec fn polymod_from(vals: Seq<u32>, i: int, chk: u32) -> u32
    decreases vals.len() - i,
{
    if i < 0 || i >= vals.len() {
        chk
    } else {
        polymod_from(vals, i + 1, polymod_step(chk, vals[i]))
    }
}

/// Whether the 6 checksum characters verify (the constant 1 marks the plain
/// bech32 variant this address format uses).
pub open spec fn checksum_ok(s: Seq<char>) -> bool {
    polymod_from(checksum_values(s), 0, 1u32) == 1u32
}

/// The `k`-th payload byte: bits `8k..8k+8` of the 5-bit data stream.
pub open spec fn payload_byte(s: Seq<char>, k: int) -> u8 {
    let g = (8 * k) / 5;
    let o = (8 * k) % 5;
    let t = ((dval32(s, g) << 10u32) | (dval32(s, g + 1) << 5u32) | dval32(s, g + 2)) as u32;
    ((t >> ((7 - o) as u32)) & 0xffu32) as u8
}

/// The 32 bytes a valid address encodes.
pub open spec fn bech32_payload(s: Seq<char>) -> Seq<u8> {
    Seq::new(32, |k: int| payload_byte(s, k))
}

/// Whether `s` is a well-formed bech32 address of a 32-byte fingerprint: a
/// non-empty human-readable part of printable ASCII, the `1` separator, 58
/// data characters from the charset (not mixing letter cases with the rest
/// of the address), four zero padding bits, and a valid checksum.
pub open spec fn valid_bech32_address(s: Seq<char>) -> bool {
    &&& 60 <= s.len() <= 90
    &&& !(has_upper(s) && has_lower(s))
    &&& forall|i: int| 0 <= i < s.len() - 59 ==> 33 <= (#[trigger] s[i]) as u32 <= 126
    &&& s[s.len() - 59] == '1'
    &&& forall|i: int| 0 <= i < 58 ==> data_val(#[trigger] s[s.len() - 58 + i]) >= 0
    &&& data_val(s[s.len() - 7]) % 16 == 0
    &&& checksum_ok(s)
}

/// Reads one data character, either case; fails outside the charset.
fn data_value(c: char) -> (r: Option<u8>)
    ensures
        r is Some <==> data_val(c) >= 0,
        r is Some ==> r->0 as int == data_val(c),
        r is Some ==> r->0 < 32,
{
    if c == 'q' || c == 'Q' {
        Some(0u8)
    } else if c == 'p' || c == 'P' {
        Some(1u8)
    } else if c == 'z' || c == 'Z' {
        Some(2u8)
    } else if c == 'r' || c == 'R' {
        Some(3u8)
    } else if c == 'y' || c == 'Y' {
        Some(4u8)
    } else if c == '9' {
        Some(5u8)
    } else if c == 'x' || c == 'X' {
        Some(6u8)
    } else if c == '8' {
        Some(7u8)
    } else if c == 'g' || c == 'G' {
        Some(8u8)
    } else if c == 'f' || c == 'F' {
        Some(9u8)
    } else if c == '2' {
        Some(10u8)
    } else if c == 't' || c == 'T' {
        Some(11u8)
    } else if c == 'v' || c == 'V' {
        Some(12u8)
    } else if c == 'd' || c == 'D' {
        Some(13u8)
    } else if c == 'w' || c == 'W' {
        Some(14u8)
    } else if c == '0' {
        Some(15u8)
    } else if c == 's' || c == 'S' {
        Some(16u8)
    } else if c == '3' {
        Some(17u8)
    } else if c == 'j' || c == 'J' {
        Some(18u8)
    } else if c == 'n' || c == 'N' {
        Some(19u8)
    } else if c == '5' {
        Some(20u8)
    } else if c == '4' {
        Some(21u8)
    } else if c == 'k' || c == 'K' {
        Some(22u8)
    } else if c == 'h' || c == 'H' {
        Some(23u8)
    } else if c == 'c' || c == 'C' {
        Some(24u8)
    } else if c == 'e' || c == 'E' {
        Some(25u8)
    } else if c == '6' {
        Some(26u8)
    } else if c == 'm' || c == 'M' {
        Some(27u8)
    } else if c == 'u' || c == 'U' {
        Some(28u8)
    } else if c == 'a' || c == 'A' {
        Some(29u8)
    } else if c == '7' {
        Some(30u8)
    } else if c == 'l' || c == 'L' {
        Some(31u8)
    } else {
        None
    }
}

/// One checksum step, as the specification computes it.
fn polymod_step_exec(chk: u32, v: u32) -> (r: u32)
    ensures
        r == polymod_step(chk, v),
{
    let b = chk >> 25u32;
    let shifted = ((chk & 0x1ffffffu32) << 5u32) ^ v;
    shifted ^ (if b & 1u32 == 1u32 {
        0x3b6a57b2u32
    } else {
        0u32
    }) ^ (if (b >> 1u32) & 1u32 == 1u32 {
        0x26508e6du32
    } else {
        0u32
    }) ^ (if (b >> 2u32) & 1u32 == 1u32 {
        0x1ea119fau32
    } else {
        0u32
    }) ^ (if (b >> 3u32) & 1u32 == 1u32 {
        0x3d4233ddu32
    } else {
        0u32
    }) ^ (if (b >> 4u32) & 1u32 == 1u32 {
        0x2a1462b3u32
    } else {
        0u32
    })
}

/// Decodes a bech32 address into the 32-byte fingerprint it encodes.
///
/// Fails with `MalformedAddress` when the text is not a well-formed address
/// of a 32-byte payload: wrong length, a character out of place, mixed
/// letter cases, non-zero padding, or a checksum that does not verify.
pub fn bech32_to_fingerprint(s: &str) -> (r: Result<Fingerprint, Error>)
    ensures
        r is Ok <==> valid_bech32_address(s@),
        r is Ok ==> r->Ok_0@ == bech32_payload(s@) && r->Ok_0@.len() == 32,
        r is Err ==> r->Err_0 == Error::MalformedAddress,
{
    let n = s.unicode_len();
    if n < 60 || n > 90 {
        return Err(Error::MalformedAddress);
    }
    let h = n - 59;

    // Human-readable part: printable ASCII; note its letter cases.
    let mut up_hrp = false;
    let mut low_hrp = false;
    let mut i: usize = 0;
    while i < h
        invariant
            i <= h,
            h == s@.len() - 59,
            60 <= s@.len() <= 90,
            forall|j: int| 0 <= j < i ==> 33 <= (#[trigger] s@[j]) as u32 <= 126,
            up_hrp == exists|j: int| 0 <= j < i && is_upper(#[trigger] s@[j]),
            low_hrp == exists|j: int| 0 <= j < i && is_lower(#[trigger] s@[j]),
        decreases h - i,
    {
        let c = s.get_char(i);
        let x = c as u32;
        if x < 33 || x > 126 {
            return Err(Error::MalformedAddress);
        }
        if 65 <= x && x <= 90 {
            up_hrp = true;
        }
        if 97 <= x && x <= 122 {
            low_hrp = true;
        }
        i = i + 1;
    }

    // Separator.
    if s.get_char(h) != '1' {
        return Err(Error::MalformedAddress);
    }

    // Data part: 58 charset characters; note their letter cases too.
    let mut vals: Vec<u8> = Vec::new();
    let mut up_data = false;
    let mut low_data = false;
    let mut i: usize = 0;
    while i < 58
        invariant
            i <= 58,
            h == s@.len() - 59,
            60 <= s@.len() <= 90,
            vals@.len() == i,
            forall|j: int|
                0 <= j < i ==> data_val(#[trigger] s@[s@.len() - 58 + j]) >= 0 && vals@[j] as int
                    == data_val(s@[s@.len() - 58 + j]) && vals@[j] < 32,
            up_data == exists|j: int|
                h + 1 <= j < h + 1 + i && is_upper(#[trigger] s@[j]),
            low_data == exists|j: int|
                h + 1 <= j < h + 1 + i && is_lower(#[trigger] s@[j]),
        decreases 58 - i,
    {
        let c = s.get_char(h + 1 + i);
        let v = match data_value(c) {
            Some(v) => v,
            None => {
                return Err(Error::MalformedAddress);
            },
        };
        let x = c as u32;
        if 65 <= x && x <= 90 {
            up_data = true;
        }
        if 97 <= x && x <= 122 {
            low_data = true;
        }
        let ghost vals0 = vals@;
        vals.push(v);
        proof {
            assert(h + 1 + i == s@.len() - 58 + i);
            assert(s@[s@.len() - 58 + i] == c);
            assert(vals@ == vals0.push(v));
            assert forall|j: int|
                0 <= j < i + 1 implies data_val(#[trigger] s@[s@.len() - 58 + j]) >= 0
                && vals@[j] as int == data_val(s@[s@.len() - 58 + j]) && vals@[j] < 32 by {
                if j < i {
                    assert(vals@[j] == vals0[j]);
                    assert(data_val(s@[s@.len() - 58 + j]) >= 0 && vals0[j] as int == data_val(
                        s@[s@.len() - 58 + j],
                    ) && vals0[j] < 32);
                } else {
                    assert(vals@[j] == v);
                }
            }
        }
        i = i + 1;
    }

    // No mixed case across the whole address; the separator is neither.
    proof {
        assert(!is_upper('1') && !is_lower('1'));
        assert((up_hrp || up_data) == has_upper(s@)) by {
            if has_upper(s@) {
                let j = choose|j: int| 0 <= j < s@.len() && is_upper(s@[j]);
                assert(j != h);
            }
        }
        assert((low_hrp || low_data) == has_lower(s@)) by {
            if has_lower(s@) {
                let j = choose|j: int| 0 <= j < s@.len() && is_lower(s@[j]);
                assert(j != h);
            }
        }
    }
    if (up_hrp || up_data) && (low_hrp || low_data) {
        return Err(Error::MalformedAddress);
    }

    // Four padding bits beyond the 256 payload bits must be zero.
    if vals[51] % 16 != 0 {
        proof {
            assert(s@.len() - 58 + 51 == s@.len() - 7);
        }
        return Err(Error::MalformedAddress);
    }
    proof {
        assert(s@.len() - 58 + 51 == s@.len() - 7);
    }

    // Checksum over the expanded human-readable part and the data values.
    let mut cs: Vec<u32> = Vec::new();
    let mut i: usize = 0;
    while i < h
        invariant
            i <= h,
            h == s@.len() - 59,
            60 <= s@.len() <= 90,
            cs@.len() == i,
            forall|j: int| 0 <= j < i ==> #[trigger] cs@[j] == fcode(s@[j]) / 32,
        decreases h - i,
    {
        let c = s.get_char(i);
        let mut x = c as u32;
        if 65 <= x && x <= 90 {
            x = x + 32;
        }
        cs.push(x / 32);
        i = i + 1;
    }
    cs.push(0);
    let mut i: usize = 0;
    while i < h
        invariant
            i <= h,
            h == s@.len() - 59,
            60 <= s@.len() <= 90,
            cs@.len() == h + 1 + i,
            forall|j: int| 0 <= j < h ==> #[trigger] cs@[j] == fcode(s@[j]) / 32,
            cs@[h as int] == 0u32,
            forall|j: int|
                h + 1 <= j < h + 1 + i ==> #[trigger] cs@[j] == fcode(s@[j - h - 1]) % 32,
        decreases h - i,
    {
        let c = s.get_char(i);
        let mut x = c as u32;
        if 65 <= x && x <= 90 {
            x = x + 32;
        }
        cs.push(x % 32);
        i = i + 1;
    }
    let mut i: usize = 0;
    while i < 58
        invariant
            i <= 58,
            h == s@.len() - 59,
            60 <= s@.len() <= 90,
            vals@.len() == 58,
            forall|j: int|
                0 <= j < 58 ==> data_val(#[trigger] s@[s@.len() - 58 + j]) >= 0 && vals@[j] as int
                    == data_val(s@[s@.len() - 58 + j]) && vals@[j] < 32,
            cs@.len() == 2 * h + 1 + i,
            forall|j: int| 0 <= j < h ==> #[trigger] cs@[j] == fcode(s@[j]) / 32,
            cs@[h as int] == 0u32,
            forall|j: int| h + 1 <= j < 2 * h + 1 ==> #[trigger] cs@[j] == fcode(s@[j - h - 1]) % 32,
            forall|j: int|
                2 * h + 1 <= j < 2 * h + 1 + i ==> #[trigger] cs@[j] == dval32(s@, j - (2 * h + 1)),
        decreases 58 - i,
    {
        cs.push(vals[i] as u32);
        i = i + 1;
    }
    proof {
        assert forall|j: int| 0 <= j < cs@.len() implies #[trigger] cs@[j] == checksum_value_at(
            s@,
            j,
        ) by {}
        assert(cs@ =~= checksum_values(s@));
    }

    let mut chk: u32 = 1;
    let mut i: usize = 0;
    while i < cs.len()
        invariant
            i <= cs@.len(),
            polymod_from(cs@, 0, 1u32) == polymod_from(cs@, i as int, chk),
        decreases cs@.len() - i,
    {
        chk = polymod_step_exec(chk, cs[i]);
        i = i + 1;
    }
    if chk != 1 {
        return Err(Error::MalformedAddress);
    }

    // Regroup the 52 payload groups of 5 bits into 32 bytes.
    let mut bytes: Vec<u8> = Vec::new();
    let mut k: usize = 0;
    while k < 32
        invariant
            k <= 32,
            h == s@.len() - 59,
            60 <= s@.len() <= 90,
            vals@.len() == 58,
            forall|j: int|
                0 <= j < 58 ==> data_val(#[trigger] s@[s@.len() - 58 + j]) >= 0 && vals@[j] as int
                    == data_val(s@[s@.len() - 58 + j]) && vals@[j] < 32,
            bytes@.len() == k,
            forall|j: int| 0 <= j < k ==> #[trigger] bytes@[j] == payload_byte(s@, j),
        decreases 32 - k,
    {
        let g = (8 * k) / 5;
        let o = (8 * k) % 5;
        let t = ((vals[g] as u32) << 10u32) | ((vals[g + 1] as u32) << 5u32) | (vals[g + 2]
            as u32);
        let b = ((t >> ((7 - o) as u32)) & 0xffu32) as u8;
        proof {
            assert(vals@[g as int] as u32 == dval32(s@, g as int));
            assert(vals@[g as int + 1] as u32 == dval32(s@, g as int + 1));
            assert(vals@[g as int + 2] as u32 == dval32(s@, g as int + 2));
        }
        bytes.push(b);
        k = k + 1;
    }
    proof {
        assert(bytes@ =~= bech32_payload(s@));
    }
    Ok(Fingerprint::from_bytes(bytes))
}

} // verus!
