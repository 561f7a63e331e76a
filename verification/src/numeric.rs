//! Decimal-digit strings: the integer grammar shared by the wire formats.
//!
//! Wire cells carry dates as epoch-day counts, times and timestamps as
//! nanosecond counts, and decimals as digit strings. This module defines
//! the canonical decimal rendering of an integer as a spec function,
//! provides verified parsing and printing, and proves that the two are
//! inverse on canonical strings.

use vstd::prelude::*;

verus! {

/// The character for one decimal digit value.
pub open spec fn digit_char(d: nat) -> char {
    if d == 0 {
        '0'
    } else if d == 1 {
        '1'
    } else if d == 2 {
        '2'
    } else if d == 3 {
        '3'
    } else if d == 4 {
        '4'
    } else if d == 5 {
        '5'
    } else if d == 6 {
        '6'
    } else if d == 7 {
        '7'
    } else if d == 8 {
        '8'
    } else {
        '9'
    }
}

pub open spec fn is_digit(c: char) -> bool {
    48 <= c as u32 && c as u32 <= 57
}

pub open spec fn digit_val(c: char) -> nat {
    (c as u32 - 48) as nat
}

/// The decimal rendering of a natural number, most significant digit
/// first, with no leading zero except for the number zero itself.
pub open spec fn dec_digits(n: nat) -> Seq<char>
    decreases n,
{
    if n < 10 {
        seq![digit_char(n)]
    } else {
        dec_digits(n / 10).push(digit_char(n % 10))
    }
}

/// The decimal rendering of an integer: a minus sign for negatives,
/// then the digits of the magnitude.
pub open spec fn int_str(i: int) -> Seq<char> {
    if i < 0 {
        seq!['-'] + dec_digits((-i) as nat)
    } else {
        dec_digits(i as nat)
    }
}

/// The value of a digit string (most significant digit first).
pub open spec fn digits_val(s: Seq<char>) -> nat
    decreases s.len(),
{
    if s.len() == 0 {
        0
    } else {
        digits_val(s.drop_last()) * 10 + digit_val(s.last())
    }
}

pub open spec fn all_digits(s: Seq<char>) -> bool {
    forall|i: int| 0 <= i < s.len() ==> is_digit(#[trigger] s[i])
}

/// A canonical unsigned decimal string: non-empty, digits only, and no
/// leading zero unless the string is exactly "0".
pub open spec fn is_canonical_nat_str(s: Seq<char>) -> bool {
    &&& s.len() > 0
    &&& all_digits(s)
    &&& (s.len() > 1 ==> s[0] != '0')
}

/// A canonical signed decimal string: a canonical magnitude, optionally
/// preceded by '-' when the value is nonzero.
pub open spec fn is_canonical_int_str(s: Seq<char>) -> bool {
    if s.len() > 0 && s[0] == '-' {
        is_canonical_nat_str(s.skip(1)) && digits_val(s.skip(1)) > 0
    } else {
        is_canonical_nat_str(s)
    }
}

/// The integer value of a canonical signed decimal string.
pub open spec fn int_str_val(s: Seq<char>) -> int {
    if s.len() > 0 && s[0] == '-' {
        -(digits_val(s.skip(1)) as int)
    } else {
        digits_val(s) as int
    }
}

pub proof fn lemma_digit_char_val(d: nat)
    requires
        d < 10,
    ensures
        is_digit(digit_char(d)),
        digit_val(digit_char(d)) == d,
{
}

pub proof fn lemma_digit_val_char(c: char)
    requires
        is_digit(c),
    ensures
        digit_char(digit_val(c)) == c,
{
    let v = c as u32;
    assert(48 <= v && v <= 57);
    if v == 48 {
        assert(c == '0');
    } else if v == 49 {
        assert(c == '1');
    } else if v == 50 {
        assert(c == '2');
    } else if v == 51 {
        assert(c == '3');
    } else if v == 52 {
        assert(c == '4');
    } else if v == 53 {
        assert(c == '5');
    } else if v == 54 {
        assert(c == '6');
    } else if v == 55 {
        assert(c == '7');
    } else if v == 56 {
        assert(c == '8');
    } else {
        assert(c == '9');
    }
}

/// The digits of a number are digits, the string is non-empty, and a
/// positive number never starts with '0'.
pub proof fn lemma_dec_digits_canonical(n: nat)
    ensures
        is_canonical_nat_str(dec_digits(n)),
        n >= 1 ==> dec_digits(n)[0] != '0',
        n < 10 ==> dec_digits(n).len() == 1,
        n >= 10 ==> dec_digits(n).len() > 1,
    decreases n,
{
    if n < 10 {
        lemma_digit_char_val(n);
        assert(dec_digits(n) == seq![digit_char(n)]);
    } else {
        lemma_dec_digits_canonical(n / 10);
        lemma_digit_char_val(n % 10);
        let prefix = dec_digits(n / 10);
        let s = prefix.push(digit_char(n % 10));
        assert(s[0] == prefix[0]);
        assert(n / 10 >= 1);
        assert forall|i: int| 0 <= i < s.len() implies is_digit(#[trigger] s[i]) by {
            if i < prefix.len() {
                assert(s[i] == prefix[i]);
            }
        }
    }
}

/// Reading back the digits of a number yields the number.
pub proof fn lemma_dec_digits_val(n: nat)
    ensures
        digits_val(dec_digits(n)) == n,
    decreases n,
{
    if n < 10 {
        let s = dec_digits(n);
        lemma_digit_char_val(n);
        assert(s =~= seq![digit_char(n)]);
        assert(s.last() == digit_char(n));
        assert(s.drop_last() =~= Seq::<char>::empty());
        assert(digits_val(s.drop_last()) == 0);
        assert(digits_val(s) == digits_val(s.drop_last()) * 10 + digit_val(s.last()));
        assert(digits_val(s) == n);
    } else {
        lemma_dec_digits_val(n / 10);
        lemma_digit_char_val(n % 10);
        let s = dec_digits(n);
        assert(s.last() == digit_char(n % 10));
        assert(s.drop_last() =~= dec_digits(n / 10));
        assert(digits_val(s) == digits_val(dec_digits(n / 10)) * 10 + digit_val(digit_char(n % 10)));
        assert(digits_val(s) == (n / 10) * 10 + n % 10);
        assert((n / 10) * 10 + n % 10 == n) by (nonlinear_arith);
    }
}

/// A digit string with a nonzero leading digit has a positive value.
pub proof fn lemma_digits_val_pos(s: Seq<char>)
    requires
        s.len() > 0,
        all_digits(s),
        s[0] != '0',
    ensures
        digits_val(s) > 0,
    decreases s.len(),
{
    if s.len() == 1 {
        assert(s.last() == s[0]);
        lemma_digit_val_char(s[0]);
        assert(digit_val(s[0]) != 0);
    } else {
        let prefix = s.drop_last();
        assert(prefix[0] == s[0]);
        assert(all_digits(prefix)) by {
            assert forall|i: int| 0 <= i < prefix.len() implies is_digit(#[trigger] prefix[i]) by {
                assert(prefix[i] == s[i]);
            }
        }
        lemma_digits_val_pos(prefix);
    }
}

/// Printing the value of a canonical digit string yields the string back.
pub proof fn lemma_canonical_roundtrip(s: Seq<char>)
    requires
        is_canonical_nat_str(s),
    ensures
        dec_digits(digits_val(s)) == s,
    decreases s.len(),
{
    if s.len() == 1 {
        lemma_digit_val_char(s[0]);
        assert(s.last() == s[0]);
        assert(s.drop_last() =~= Seq::<char>::empty());
        assert(digits_val(s.drop_last()) == 0);
        assert(digits_val(s) == digits_val(s.drop_last()) * 10 + digit_val(s.last()));
        assert(digits_val(s) == digit_val(s[0]));
        assert(digits_val(s) < 10) by {
            assert(is_digit(s[0]));
        }
        assert(dec_digits(digits_val(s)) =~= seq![digit_char(digit_val(s[0]))]);
        assert(dec_digits(digits_val(s)) =~= s);
    } else {
        let prefix = s.drop_last();
        let d = digit_val(s.last());
        assert(prefix[0] == s[0]);
        assert(all_digits(prefix)) by {
            assert forall|i: int| 0 <= i < prefix.len() implies is_digit(#[trigger] prefix[i]) by {
                assert(prefix[i] == s[i]);
            }
        }
        assert(is_canonical_nat_str(prefix));
        lemma_canonical_roundtrip(prefix);
        lemma_digits_val_pos(prefix);
        assert(is_digit(s.last())) by {
            assert(s.last() == s[s.len() - 1]);
        }
        lemma_digit_val_char(s.last());
        let v = digits_val(s);
        let p = digits_val(prefix);
        assert(v == p * 10 + d);
        assert(d < 10);
        assert(v / 10 == p && v % 10 == d) by (nonlinear_arith)
            requires
                v == p * 10 + d,
                0 <= d < 10,
                p > 0,
        ;
        assert(v >= 10) by (nonlinear_arith)
            requires
                v == p * 10 + d,
                p >= 1,
                d >= 0,
        ;
        assert(dec_digits(v) == dec_digits(p).push(digit_char(d)));
        assert(dec_digits(v) =~= s);
    }
}

/// The digit characters of a byte sequence, last byte first.
pub open spec fn rev_digit_chars(ds: Seq<u8>) -> Seq<char> {
    Seq::new(ds.len(), |i: int| digit_char(ds[ds.len() - 1 - i] as nat))
}

pub(crate) fn digit_str(d: u8) -> (r: &'static str)
    requires
        d < 10,
    ensures
        r@ =~= seq![digit_char(d as nat)],
{
    let s: &'static str = match d {
        0 => "0",
        1 => "1",
        2 => "2",
        3 => "3",
        4 => "4",
        5 => "5",
        6 => "6",
        7 => "7",
        8 => "8",
        _ => "9",
    };
    proof {
        reveal_strlit("0");
        reveal_strlit("1");
        reveal_strlit("2");
        reveal_strlit("3");
        reveal_strlit("4");
        reveal_strlit("5");
        reveal_strlit("6");
        reveal_strlit("7");
        reveal_strlit("8");
        reveal_strlit("9");
    }
    s
}

/// Renders a natural number in its canonical decimal form.
pub fn format_u128(n: u128) -> (r: String)
    ensures
        r@ == dec_digits(n as nat),
{
    let mut digits: Vec<u8> = Vec::new();
    let mut m: u128 = n;
    if m == 0 {
        digits.push(0u8);
        proof {
            assert(rev_digit_chars(digits@) =~= seq![digit_char(0)]);
        }
    }
    while m > 0
        invariant
            forall|j: int| 0 <= j < digits@.len() ==> digits@[j] < 10,
            dec_digits(n as nat) == if m > 0 {
                dec_digits(m as nat) + rev_digit_chars(digits@)
            } else {
                rev_digit_chars(digits@)
            },
        decreases m,
    {
        let ghost old_digits = digits@;
        let ghost old_m = m as nat;
        let d: u8 = (m % 10) as u8;
        digits.push(d);
        m = m / 10;
        proof {
            assert(rev_digit_chars(digits@) =~= seq![digit_char(d as nat)] + rev_digit_chars(
                old_digits,
            ));
            if old_m >= 10 {
                assert(dec_digits(old_m) == dec_digits(old_m / 10).push(
                    digit_char(old_m % 10),
                ));
                assert(dec_digits(old_m / 10).push(digit_char(old_m % 10)) + rev_digit_chars(
                    old_digits,
                ) =~= dec_digits(old_m / 10) + (seq![digit_char(d as nat)] + rev_digit_chars(
                    old_digits,
                )));
            } else {
                assert(dec_digits(old_m) =~= seq![digit_char(d as nat)]);
                assert(seq![digit_char(d as nat)] + rev_digit_chars(old_digits)
                    =~= rev_digit_chars(digits@));
            }
        }
    }
    let mut out = String::new();
    let total = digits.len();
    let mut i: usize = total;
    while i > 0
        invariant
            i <= total,
            total == digits@.len(),
            forall|j: int| 0 <= j < digits@.len() ==> digits@[j] < 10,
            out@ == rev_digit_chars(digits@).take(total - i),
        decreases i,
    {
        let ghost old_out = out@;
        i = i - 1;
        out.append(digit_str(digits[i]));
        proof {
            assert(rev_digit_chars(digits@).take(total - i) =~= old_out + seq![
                digit_char(digits@[i as int] as nat),
            ]);
        }
    }
    proof {
        assert(rev_digit_chars(digits@).take(total as int) =~= rev_digit_chars(digits@));
    }
    out
}

/// Renders a signed integer in its canonical decimal form.
pub fn format_i128(v: i128) -> (r: String)
    ensures
        r@ == int_str(v as int),
{
    if v >= 0 {
        format_u128(v as u128)
    } else {
        let mag: u128 = ((-(v + 1)) as u128) + 1;
        proof {
            assert(mag == -(v as int));
        }
        let mut out = String::from_str("-");
        let rest = format_u128(mag);
        out.append(rest.as_str());
        proof {
            reveal_strlit("-");
            assert(out@ =~= seq!['-'] + dec_digits(mag as nat));
        }
        out
    }
}

/// Parses a canonical decimal string as an unsigned number.
///
/// Accepts exactly the strings that `format_u128` produces: `None` means
/// the string is not canonical, or its value does not fit.
pub fn parse_u128(s: &str) -> (r: Option<u128>)
    ensures
        match r {
            Some(v) => s@ == dec_digits(v as nat) && v as nat == digits_val(s@),
            None => !(is_canonical_nat_str(s@) && digits_val(s@) <= u128::MAX as nat),
        },
{
    let len = s.unicode_len();
    if len == 0 {
        return None;
    }
    let first = s.get_char(0);
    let fu = first as u32;
    if fu < 48 || fu > 57 {
        proof {
            assert(!is_digit(s@[0]));
        }
        return None;
    }
    if len > 1 && fu == 48 {
        proof {
            assert(s@[0] == '0') by {
                lemma_digit_val_char(s@[0]);
            }
        }
        return None;
    }
    let mut v: u128 = 0;
    let mut i: usize = 0;
    while i < len
        invariant
            len == s@.len(),
            0 < len,
            i <= len,
            forall|j: int| 0 <= j < i ==> is_digit(#[trigger] s@[j]),
            v as nat == digits_val(s@.take(i as int)),
        decreases len - i,
    {
        let c = s.get_char(i);
        let cu = c as u32;
        if cu < 48 || cu > 57 {
            proof {
                assert(!is_digit(s@[i as int]));
            }
            return None;
        }
        let d: u128 = (cu - 48) as u128;
        proof {
            assert(d == digit_val(s@[i as int]));
            assert(d < 10);
        }
        if v > (u128::MAX - d) / 10 {
            proof {
                let q = (u128::MAX - d) / 10;
                let t = s@.take(i + 1);
                assert(t.drop_last() =~= s@.take(i as int));
                assert(t.last() == s@[i as int]);
                assert(digits_val(t) == (v as nat) * 10 + d);
                assert((v as nat) * 10 + d > u128::MAX) by (nonlinear_arith)
                    requires
                        v as nat >= q as nat + 1,
                        (q as nat) * 10 <= ((u128::MAX - d) as nat),
                        ((u128::MAX - d) as nat) < (q as nat) * 10 + 10,
                        d < 10,
                ;
                lemma_digits_val_prefix_le(s@, i + 1);
            }
            return None;
        }
        proof {
            let q = (u128::MAX - d) / 10;
            assert((v as nat) * 10 + d <= u128::MAX) by (nonlinear_arith)
                requires
                    v as nat <= q as nat,
                    (q as nat) * 10 <= ((u128::MAX - d) as nat),
                    d < 10,
            ;
        }
        let ghost old_v = v as nat;
        v = v * 10 + d;
        proof {
            let t = s@.take(i + 1);
            assert(t.drop_last() =~= s@.take(i as int));
            assert(t.last() == s@[i as int]);
            assert(v as nat == digits_val(t));
        }
        i = i + 1;
    }
    proof {
        assert(s@.take(len as int) =~= s@);
        assert(is_canonical_nat_str(s@));
        lemma_canonical_roundtrip(s@);
    }
    Some(v)
}

/// Parses a canonical signed decimal string.
///
/// Accepts exactly the strings that `format_i128` produces: `None` means
/// the string is not canonical, or its value does not fit.
pub fn parse_i128(s: &str) -> (r: Option<i128>)
    ensures
        match r {
            Some(v) => s@ == int_str(v as int) && v as int == int_str_val(s@),
            None => !(is_canonical_int_str(s@) && i128::MIN <= int_str_val(s@) <= i128::MAX),
        },
{
    let len = s.unicode_len();
    if len == 0 {
        return None;
    }
    let first = s.get_char(0);
    if first == '-' {
        let rest = s.substring_char(1, len);
        proof {
            assert(rest@ =~= s@.skip(1));
        }
        let mag = match parse_u128(rest) {
            Some(m) => m,
            None => {
                proof {
                    if is_canonical_int_str(s@) && i128::MIN <= int_str_val(s@) <= i128::MAX {
                        let m = digits_val(s@.skip(1));
                        assert(int_str_val(s@) == -(m as int));
                        assert(m <= u128::MAX as nat);
                    }
                }
                return None;
            },
        };
        if mag == 0 {
            proof {
                // "-0" is not canonical
                assert(!is_canonical_int_str(s@));
            }
            return None;
        }
        let lim: u128 = (i128::MAX as u128) + 1;
        if mag > lim {
            proof {
                assert(int_str_val(s@) < i128::MIN);
            }
            return None;
        }
        let v: i128 = if mag == lim {
            i128::MIN
        } else {
            -(mag as i128)
        };
        proof {
            assert(v as int == -(mag as int));
            assert(s@ =~= seq!['-'] + s@.skip(1));
        }
        Some(v)
    } else {
        let mag = match parse_u128(s) {
            Some(m) => m,
            None => {
                proof {
                    if is_canonical_int_str(s@) && i128::MIN <= int_str_val(s@) <= i128::MAX {
                        assert(s@[0] != '-');
                        assert(digits_val(s@) <= u128::MAX as nat);
                    }
                }
                return None;
            },
        };
        proof {
            lemma_dec_digits_canonical(mag as nat);
            assert(s@[0] != '-');
        }
        if mag > i128::MAX as u128 {
            return None;
        }
        Some(mag as i128)
    }
}

/// Extending a digit string never decreases its value.
pub proof fn lemma_digits_val_prefix_le(s: Seq<char>, i: int)
    requires
        0 <= i <= s.len(),
    ensures
        digits_val(s.take(i)) <= digits_val(s),
    decreases s.len() - i,
{
    if i < s.len() {
        lemma_digits_val_prefix_le(s, i + 1);
        let t = s.take(i + 1);
        assert(t.drop_last() =~= s.take(i));
        assert(digits_val(s.take(i)) <= digits_val(t)) by {
            assert(digits_val(t) == digits_val(s.take(i)) * 10 + digit_val(t.last()));
            assert(digits_val(s.take(i)) * 10 >= digits_val(s.take(i))) by (nonlinear_arith);
        }
    } else {
        assert(s.take(i) =~= s);
    }
}

} // verus!
