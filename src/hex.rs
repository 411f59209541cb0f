//! Hexadecimal text to bytes.

use vstd::prelude::*;
use vstd::string::StringSliceAdditionalSpecFns;

verus! {

/// The value of an ASCII hexadecimal digit, either case.
pub open spec fn hex_value(c: u8) -> Option<u8> {
    if 0x30 <= c <= 0x39 {
        Some((c - 0x30) as u8)
    } else if 0x61 <= c <= 0x66 {
        Some((c - 0x61 + 10) as u8)
    } else if 0x41 <= c <= 0x46 {
        Some((c - 0x41 + 10) as u8)
    } else {
        None
    }
}

/// The bytes that the hexadecimal text `t` spells, two digits a byte,
/// first digit high; `None` for an odd length or any other character.
pub open spec fn spec_hex_bytes(t: Seq<u8>) -> Option<Seq<u8>> {
    if t.len() % 2 == 0 && forall|i: int| 0 <= i < t.len() ==> (#[trigger] hex_value(t[i])) is Some {
        Some(
            Seq::new(
                t.len() / 2,
                |i: int| (hex_value(t[2 * i])->0 * 16 + hex_value(t[2 * i + 1])->0) as u8,
            ),
        )
    } else {
        None
    }
}

fn hex_digit(c: u8) -> (r: Option<u8>)
    ensures
        r == hex_value(c),
{
    if 0x30 <= c && c <= 0x39 {
        Some(c - 0x30)
    } else if 0x61 <= c && c <= 0x66 {
        Some(c - 0x61 + 10)
    } else if 0x41 <= c && c <= 0x46 {
        Some(c - 0x41 + 10)
    } else {
        None
    }
}

/// Decodes hexadecimal text such as `"0a1B"` into bytes.
pub fn hex_to_bytes(s: &str) -> (r: Option<Vec<u8>>)
    ensures
        r matches Some(v) ==> spec_hex_bytes(s.spec_bytes()) == Some(v@),
        r is None ==> spec_hex_bytes(s.spec_bytes()) is None,
{
    let t = s.as_bytes();
    if t.len() % 2 != 0 {
        return None;
    }
    let n = t.len() / 2;
    let mut out: Vec<u8> = Vec::new();
    let mut i: usize = 0;
    while i < n
        invariant
            t@ == s.spec_bytes(),
            n == t@.len() / 2,
            t@.len() % 2 == 0,
            i <= n,
            forall|j: int| 0 <= j < 2 * i ==> (#[trigger] hex_value(t@[j])) is Some,
            out@ =~= Seq::new(
                i as nat,
                |k: int| (hex_value(t@[2 * k])->0 * 16 + hex_value(t@[2 * k + 1])->0) as u8,
            ),
        decreases n - i,
    {
        let hi = match hex_digit(t[2 * i]) {
            Some(d) => d,
            None => return None,
        };
        let lo = match hex_digit(t[2 * i + 1]) {
            Some(d) => d,
            None => return None,
        };
        out.push(hi * 16 + lo);
        i = i + 1;
        proof {
            assert forall|j: int| 0 <= j < 2 * i implies (#[trigger] hex_value(t@[j])) is Some by {
                if j >= 2 * i - 2 {
                    assert(j == 2 * i - 2 || j == 2 * i - 1);
                }
            }
        }
    }
    Some(out)
}

} // verus!
