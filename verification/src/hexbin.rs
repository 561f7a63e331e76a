//! Hexadecimal coding for BINARY cells.
//!
//! Binary cells travel as hex text: two digits per byte, lowercase on
//! the way out, either case accepted on the way in.

use vstd::prelude::*;

verus! {

/// The lowercase hex character for one value below sixteen.
pub open spec fn hex_char(d: nat) -> char {
    if d < 10 {
        crate::numeric::digit_char(d)
    } else if d == 10 {
        'a'
    } else if d == 11 {
        'b'
    } else if d == 12 {
        'c'
    } else if d == 13 {
        'd'
    } else if d == 14 {
        'e'
    } else {
        'f'
    }
}

pub open spec fn is_hex_char(c: char) -> bool {
    ||| (48 <= c as u32 && c as u32 <= 57)
    ||| (97 <= c as u32 && c as u32 <= 102)
    ||| (65 <= c as u32 && c as u32 <= 70)
}

pub open spec fn hex_val(c: char) -> nat {
    if 48 <= c as u32 && c as u32 <= 57 {
        (c as u32 - 48) as nat
    } else if 97 <= c as u32 && c as u32 <= 102 {
        (c as u32 - 87) as nat
    } else {
        (c as u32 - 55) as nat
    }
}

pub open spec fn all_hex(s: Seq<char>) -> bool {
    forall|i: int| 0 <= i < s.len() ==> is_hex_char(#[trigger] s[i])
}

/// No uppercase hex letters anywhere.
pub open spec fn is_lower_hex(s: Seq<char>) -> bool {
    forall|i: int| 0 <= i < s.len() ==> !(65 <= (#[trigger] s[i]) as u32 && s[i] as u32 <= 70)
}

/// The lowercase hex rendering of a byte string: two characters per
/// byte, high digit first.
pub open spec fn hex_of(b: Seq<u8>) -> Seq<char> {
    Seq::new(
        b.len() * 2,
        |i: int|
            if i % 2 == 0 {
                hex_char((b[i / 2] / 16) as nat)
            } else {
                hex_char((b[i / 2] % 16) as nat)
            },
    )
}

pub proof fn lemma_hex_char_val(d: nat)
    requires
        d < 16,
    ensures
        is_hex_char(hex_char(d)),
        hex_val(hex_char(d)) == d,
        !(65 <= hex_char(d) as u32 && hex_char(d) as u32 <= 70),
{
}

/// A lowercase hex character is recovered from its value.
pub proof fn lemma_hex_val_char(c: char)
    requires
        is_hex_char(c),
        !(65 <= c as u32 && c as u32 <= 70),
    ensures
        hex_char(hex_val(c)) == c,
        hex_val(c) < 16,
{
    let v = c as u32;
    if 48 <= v && v <= 57 {
        crate::numeric::lemma_digit_val_char(c);
    } else {
        if v == 97 {
            assert(c == 'a');
        } else if v == 98 {
            assert(c == 'b');
        } else if v == 99 {
            assert(c == 'c');
        } else if v == 100 {
            assert(c == 'd');
        } else if v == 101 {
            assert(c == 'e');
        } else {
            assert(c == 'f');
        }
    }
}

fn hex_str(d: u8) -> (r: &'static str)
    requires
        d < 16,
    ensures
        r@ =~= seq![hex_char(d as nat)],
{
    if d < 10 {
        crate::numeric::digit_str(d)
    } else {
        let s: &'static str = match d {
            10 => "a",
            11 => "b",
            12 => "c",
            13 => "d",
            14 => "e",
            _ => "f",
        };
        proof {
            reveal_strlit("a");
            reveal_strlit("b");
            reveal_strlit("c");
            reveal_strlit("d");
            reveal_strlit("e");
            reveal_strlit("f");
        }
        s
    }
}

/// Renders bytes as lowercase hex; the inverse of `decode_hex` on
/// lowercase input.
pub fn encode_hex(b: &Vec<u8>) -> (r: String)
    ensures
        r@ == hex_of(b@),
{
    let mut out = String::new();
    let len = b.len();
    let mut i: usize = 0;
    while i < len
        invariant
            len == b@.len(),
            i <= len,
            out@ == hex_of(b@.take(i as int)),
        decreases len - i,
    {
        let ghost old_out = out@;
        let byte = b[i];
        out.append(hex_str(byte / 16));
        out.append(hex_str(byte % 16));
        i = i + 1;
        proof {
            assert(hex_of(b@.take(i as int)) =~= old_out + seq![
                hex_char((b@[i - 1] / 16) as nat),
                hex_char((b@[i - 1] % 16) as nat),
            ]);
        }
    }
    proof {
        assert(b@.take(len as int) =~= b@);
    }
    out
}

fn hex_digit(c: char) -> (r: Option<u8>)
    ensures
        match r {
            Some(d) => is_hex_char(c) && d as nat == hex_val(c) && d < 16,
            None => !is_hex_char(c),
        },
{
    let v = c as u32;
    if 48 <= v && v <= 57 {
        Some((v - 48) as u8)
    } else if 97 <= v && v <= 102 {
        Some((v - 87) as u8)
    } else if 65 <= v && v <= 70 {
        Some((v - 55) as u8)
    } else {
        None
    }
}

/// Decodes hex text into bytes; either letter case is accepted.
pub fn decode_hex(s: &str) -> (r: Option<Vec<u8>>)
    ensures
        match r {
            Some(v) => {
                &&& s@.len() == v@.len() * 2
                &&& all_hex(s@)
                &&& forall|i: int|
                    0 <= i < v@.len() ==> (#[trigger] v@[i]) as nat == 16 * hex_val(s@[2 * i])
                        + hex_val(s@[2 * i + 1])
            },
            None => !(all_hex(s@) && s@.len() % 2 == 0),
        },
{
    let len = s.unicode_len();
    if len % 2 != 0 {
        return None;
    }
    let mut out: Vec<u8> = Vec::new();
    let mut i: usize = 0;
    while i < len
        invariant
            len == s@.len(),
            len % 2 == 0,
            i <= len,
            i % 2 == 0,
            out@.len() * 2 == i,
            forall|j: int| 0 <= j < i ==> is_hex_char(#[trigger] s@[j]),
            forall|j: int|
                0 <= j < out@.len() ==> (#[trigger] out@[j]) as nat == 16 * hex_val(s@[2 * j])
                    + hex_val(s@[2 * j + 1]),
        decreases len - i,
    {
        let hi = match hex_digit(s.get_char(i)) {
            Some(d) => d,
            None => {
                proof {
                    assert(!is_hex_char(s@[i as int]));
                }
                return None;
            },
        };
        let lo = match hex_digit(s.get_char(i + 1)) {
            Some(d) => d,
            None => {
                proof {
                    assert(!is_hex_char(s@[i as int + 1]));
                }
                return None;
            },
        };
        out.push(16 * hi + lo);
        i = i + 2;
    }
    Some(out)
}

/// On lowercase input, decoding then re-encoding gives the input back.
///
/// Uppercase input decodes to the same bytes but re-encodes lowercase,
/// so it is left out here.
pub proof fn lemma_hex_roundtrip(s: Seq<char>, v: Seq<u8>)
    requires
        s.len() == v.len() * 2,
        all_hex(s),
        is_lower_hex(s),
        forall|i: int|
            0 <= i < v.len() ==> (#[trigger] v[i]) as nat == 16 * hex_val(s[2 * i]) + hex_val(
                s[2 * i + 1],
            ),
    ensures
        hex_of(v) == s,
{
    assert forall|i: int| 0 <= i < s.len() implies hex_of(v)[i] == s[i] by {
        let j = i / 2;
        assert(v[j] as nat == 16 * hex_val(s[2 * j]) + hex_val(s[2 * j + 1]));
        lemma_hex_val_char(s[2 * j]);
        lemma_hex_val_char(s[2 * j + 1]);
        let hi = hex_val(s[2 * j]);
        let lo = hex_val(s[2 * j + 1]);
        assert(v[j] as nat / 16 == hi && v[j] as nat % 16 == lo) by (nonlinear_arith)
            requires
                v[j] as nat == 16 * hi + lo,
                hi < 16,
                lo < 16,
        ;
        if i % 2 == 0 {
            assert(i == 2 * j);
            assert(hex_of(v)[i] == hex_char((v[j] / 16) as nat));
        } else {
            assert(i == 2 * j + 1);
            assert(hex_of(v)[i] == hex_char((v[j] % 16) as nat));
        }
    }
    assert(hex_of(v) =~= s);
}

} // verus!
