//! Fixed-point decimals as they travel on the wire.
//!
//! FIXED and DECFLOAT cells arrive as ASCII decimal strings such as
//! `-12.340`. A value is modelled by its sign, its integer part, its
//! fraction digits read as a number, and the count of fraction digits
//! (the scale), so that the rendering that produced it can be rebuilt
//! byte for byte.

use vstd::prelude::*;

use crate::numeric::{
    all_digits, dec_digits, digit_char, digit_val, digits_val, is_canonical_nat_str, is_digit,
    lemma_canonical_roundtrip, lemma_digit_val_char, lemma_digits_val_prefix_le, parse_u128,
    format_u128,
};

verus! {

/// A decimal wire value: `-12.340` is `negative` with `int_part == 12`,
/// `frac == 340` and `scale == 3`.
#[derive(Clone, Copy, Debug, PartialEq, Eq, Structural)]
pub struct DecimalValue {
    pub negative: bool,
    pub int_part: u128,
    pub frac: u128,
    pub scale: u32,
}

pub open spec fn pow10(k: nat) -> nat
    decreases k,
{
    if k == 0 {
        1
    } else {
        10 * pow10((k - 1) as nat)
    }
}

/// Exactly `width` digit characters for `n`, zero padded on the left.
pub open spec fn padded_digits(n: nat, width: nat) -> Seq<char>
    decreases width,
{
    if width == 0 {
        Seq::empty()
    } else {
        padded_digits(n / 10, (width - 1) as nat).push(digit_char(n % 10))
    }
}

/// The canonical rendering of a decimal value.
pub open spec fn decimal_str(d: DecimalValue) -> Seq<char> {
    let sign: Seq<char> = if d.negative {
        seq!['-']
    } else {
        Seq::empty()
    };
    if d.scale == 0 {
        sign + dec_digits(d.int_part as nat)
    } else {
        sign + dec_digits(d.int_part as nat) + seq!['.'] + padded_digits(
            d.frac as nat,
            d.scale as nat,
        )
    }
}

/// `k` is the first '.' of `s`.
pub open spec fn is_first_dot(s: Seq<char>, k: int) -> bool {
    &&& 0 <= k < s.len()
    &&& s[k] == '.'
    &&& forall|j: int| 0 <= j < k ==> s[j] != '.'
}

/// A canonical decimal body (no sign): a canonical integer part,
/// optionally followed by '.' and at least one fraction digit.
pub open spec fn decimal_body_ok(b: Seq<char>) -> bool {
    &&& (forall|k: int|
        #[trigger] is_first_dot(b, k) ==> is_canonical_nat_str(b.take(k)) && b.len() > k + 1
            && all_digits(b.skip(k + 1)))
    &&& (!(exists|k: int| is_first_dot(b, k)) ==> is_canonical_nat_str(b))
}

/// The string with its optional leading '-' stripped.
pub open spec fn sign_body(s: Seq<char>) -> Seq<char> {
    if s.len() > 0 && s[0] == '-' {
        s.skip(1)
    } else {
        s
    }
}

/// A canonical decimal string: an optional '-', then a canonical body.
pub open spec fn is_canonical_decimal_str(s: Seq<char>) -> bool {
    decimal_body_ok(sign_body(s))
}

/// Both parts of a canonical decimal body fit the value model.
pub open spec fn decimal_body_fits(b: Seq<char>) -> bool {
    &&& (forall|k: int|
        #[trigger] is_first_dot(b, k) ==> digits_val(b.take(k)) <= u128::MAX as nat && digits_val(
            b.skip(k + 1),
        ) <= u128::MAX as nat && b.len() - k - 1 <= u32::MAX as nat)
    &&& (!(exists|k: int| is_first_dot(b, k)) ==> digits_val(b) <= u128::MAX as nat)
}

/// Both parts of a canonical decimal string fit the value model.
pub open spec fn decimal_str_fits(s: Seq<char>) -> bool {
    decimal_body_fits(sign_body(s))
}

/// A decimal value whose fraction actually has `scale` digits.
///
/// `parse_decimal` only produces such values, and on them the rendering
/// is one to one.
pub open spec fn decimal_wf(d: DecimalValue) -> bool {
    (d.frac as nat) < pow10(d.scale as nat)
}

/// The ten-powers up to thirty-eight fit a u128.
pub proof fn lemma_pow10_38()
    ensures
        pow10(38) < u128::MAX,
{
    assert(pow10(0) == 1);
    assert(pow10(1) == 10);
    assert(pow10(2) == 100);
    assert(pow10(3) == 1000);
    assert(pow10(4) == 10000);
    assert(pow10(5) == 100000);
    assert(pow10(6) == 1000000);
    assert(pow10(7) == 10000000);
    assert(pow10(8) == 100000000);
    assert(pow10(9) == 1000000000);
    assert(pow10(10) == 10000000000);
    assert(pow10(11) == 100000000000);
    assert(pow10(12) == 1000000000000);
    assert(pow10(13) == 10000000000000);
    assert(pow10(14) == 100000000000000);
    assert(pow10(15) == 1000000000000000);
    assert(pow10(16) == 10000000000000000);
    assert(pow10(17) == 100000000000000000);
    assert(pow10(18) == 1000000000000000000);
    assert(pow10(19) == 10000000000000000000);
    assert(pow10(20) == 100000000000000000000);
    assert(pow10(21) == 1000000000000000000000);
    assert(pow10(22) == 10000000000000000000000);
    assert(pow10(23) == 100000000000000000000000);
    assert(pow10(24) == 1000000000000000000000000);
    assert(pow10(25) == 10000000000000000000000000);
    assert(pow10(26) == 100000000000000000000000000);
    assert(pow10(27) == 1000000000000000000000000000);
    assert(pow10(28) == 10000000000000000000000000000);
    assert(pow10(29) == 100000000000000000000000000000);
    assert(pow10(30) == 1000000000000000000000000000000);
    assert(pow10(31) == 10000000000000000000000000000000);
    assert(pow10(32) == 100000000000000000000000000000000);
    assert(pow10(33) == 1000000000000000000000000000000000);
    assert(pow10(34) == 10000000000000000000000000000000000);
    assert(pow10(35) == 100000000000000000000000000000000000);
    assert(pow10(36) == 1000000000000000000000000000000000000);
    assert(pow10(37) == 10000000000000000000000000000000000000);
    assert(pow10(38) == 100000000000000000000000000000000000000);
}

/// A digit string's value is below the bound its width allows.
pub proof fn lemma_digits_val_bound(s: Seq<char>)
    requires
        all_digits(s),
    ensures
        digits_val(s) < pow10(s.len()),
    decreases s.len(),
{
    if s.len() == 0 {
    } else {
        let prefix = s.drop_last();
        assert(all_digits(prefix)) by {
            assert forall|i: int| 0 <= i < prefix.len() implies is_digit(#[trigger] prefix[i]) by {
                assert(prefix[i] == s[i]);
            }
        }
        lemma_digits_val_bound(prefix);
        assert(is_digit(s.last())) by {
            assert(s.last() == s[s.len() - 1]);
        }
        let p = digits_val(prefix);
        let d = digit_val(s.last());
        assert(p * 10 + d < pow10(s.len())) by (nonlinear_arith)
            requires
                p < pow10(prefix.len()),
                d < 10,
                pow10(s.len()) == 10 * pow10(prefix.len()),
        ;
    }
}

/// Reading back exactly `s.len()` padded digits yields `s`.
pub proof fn lemma_padded_roundtrip(s: Seq<char>)
    requires
        all_digits(s),
    ensures
        padded_digits(digits_val(s), s.len()) == s,
    decreases s.len(),
{
    if s.len() == 0 {
        assert(padded_digits(digits_val(s), 0) =~= s);
    } else {
        let prefix = s.drop_last();
        let d = digit_val(s.last());
        assert(all_digits(prefix)) by {
            assert forall|i: int| 0 <= i < prefix.len() implies is_digit(#[trigger] prefix[i]) by {
                assert(prefix[i] == s[i]);
            }
        }
        lemma_padded_roundtrip(prefix);
        assert(is_digit(s.last())) by {
            assert(s.last() == s[s.len() - 1]);
        }
        lemma_digit_val_char(s.last());
        let v = digits_val(s);
        let p = digits_val(prefix);
        assert(v == p * 10 + d);
        assert(v / 10 == p && v % 10 == d) by (nonlinear_arith)
            requires
                v == p * 10 + d,
                0 <= d < 10,
        ;
        assert(padded_digits(v, s.len()) == padded_digits(p, prefix.len()).push(digit_char(d)));
        assert(padded_digits(v, s.len()) =~= s);
    }
}

/// Parses a digit run of fixed width, leading zeros allowed.
fn parse_frac(s: &str) -> (r: Option<u128>)
    ensures
        match r {
            Some(v) => {
                &&& all_digits(s@)
                &&& v as nat == digits_val(s@)
                &&& s@ == padded_digits(v as nat, s@.len())
                &&& (v as nat) < pow10(s@.len())
            },
            None => !(all_digits(s@) && digits_val(s@) <= u128::MAX as nat),
        },
{
    let len = s.unicode_len();
    let mut v: u128 = 0;
    let mut i: usize = 0;
    while i < len
        invariant
            len == s@.len(),
            i <= len,
            forall|j: int| 0 <= j < i ==> is_digit(#[trigger] s@[j]),
            v as nat == digits_val(s@.take(i as int)),
        decreases len - i,
    {
        let c = s.get_char(i);
        let cu = c as u32;
        if cu < 48 || cu > 57 {
            proof {
                assert(!is_digit(s@[i as int]));
            }
            return None;
        }
        let d: u128 = (cu - 48) as u128;
        proof {
            assert(d == digit_val(s@[i as int]));
        }
        if v > (u128::MAX - d) / 10 {
            proof {
                let q = (u128::MAX - d) / 10;
                let t = s@.take(i + 1);
                assert(t.drop_last() =~= s@.take(i as int));
                assert(t.last() == s@[i as int]);
                assert((v as nat) * 10 + d > u128::MAX) by (nonlinear_arith)
                    requires
                        v as nat >= q as nat + 1,
                        (q as nat) * 10 <= ((u128::MAX - d) as nat),
                        ((u128::MAX - d) as nat) < (q as nat) * 10 + 10,
                        d < 10,
                ;
                lemma_digits_val_prefix_le(s@, i + 1);
            }
            return None;
        }
        proof {
            let q = (u128::MAX - d) / 10;
            assert((v as nat) * 10 + d <= u128::MAX) by (nonlinear_arith)
                requires
                    v as nat <= q as nat,
                    (q as nat) * 10 <= ((u128::MAX - d) as nat),
                    d < 10,
            ;
        }
        v = v * 10 + d;
        proof {
            let t = s@.take(i + 1);
            assert(t.drop_last() =~= s@.take(i as int));
            assert(t.last() == s@[i as int]);
        }
        i = i + 1;
    }
    proof {
        assert(s@.take(len as int) =~= s@);
        lemma_padded_roundtrip(s@);
        lemma_digits_val_bound(s@);
    }
    Some(v)
}

/// Parses a canonical decimal wire string.
///
/// Accepts exactly the strings that `format_decimal` produces: `None`
/// means the string is not canonical, or a part does not fit.
pub fn parse_decimal(s: &str) -> (r: Option<DecimalValue>)
    ensures
        match r {
            Some(d) => s@ == decimal_str(d) && decimal_wf(d),
            None => !(is_canonical_decimal_str(s@) && decimal_str_fits(s@)),
        },
{
    let len = s.unicode_len();
    let negative = len > 0 && s.get_char(0) == '-';
    let body: &str = if negative {
        s.substring_char(1, len)
    } else {
        s
    };
    proof {
        if negative {
            assert(body@ =~= s@.skip(1));
        }
    }
    let body_len = body.unicode_len();

    // find the first '.'
    let mut dot: usize = body_len;
    let mut i: usize = 0;
    let mut found = false;
    while i < body_len
        invariant
            body_len == body@.len(),
            i <= body_len,
            !found ==> forall|j: int| 0 <= j < i ==> body@[j] != '.',
            found ==> is_first_dot(body@, dot as int),
            found ==> dot < body_len,
        decreases body_len - i,
    {
        if !found && body.get_char(i) == '.' {
            dot = i;
            found = true;
        }
        i = i + 1;
    }

    if !found {
        proof {
            assert(forall|k: int| !is_first_dot(body@, k));
        }
        let int_part = match parse_u128(body) {
            Some(v) => v,
            None => {
                return None;
            },
        };
        let d = DecimalValue { negative, int_part, frac: 0, scale: 0 };
        proof {
            if negative {
                assert(s@ =~= seq!['-'] + body@);
            }
            assert(s@ == decimal_str(d));
            assert(pow10(0) == 1);
        }
        Some(d)
    } else {
        proof {
            assert(is_first_dot(body@, dot as int));
            if negative {
                assert(s@.skip(1) == body@);
            }
        }
        let int_str = body.substring_char(0, dot);
        let frac_str = body.substring_char(dot + 1, body_len);
        proof {
            assert(int_str@ =~= body@.take(dot as int));
            assert(frac_str@ =~= body@.skip(dot as int + 1));
        }
        if body_len - dot - 1 == 0 {
            proof {
                assert(!(body@.len() > dot as int + 1));
            }
            return None;
        }
        let int_part = match parse_u128(int_str) {
            Some(v) => v,
            None => {
                proof {
                    if is_canonical_decimal_str(s@) && decimal_str_fits(s@) {
                        let b = sign_body(s@);
                        assert(b == body@);
                        assert(is_first_dot(sign_body(s@), dot as int));
                        assert(digits_val(b.take(dot as int)) <= u128::MAX as nat);
                        assert(is_canonical_nat_str(body@.take(dot as int)));
                        assert(false);
                    }
                }
                return None;
            },
        };
        let frac = match parse_frac(frac_str) {
            Some(v) => v,
            None => {
                proof {
                    if is_canonical_decimal_str(s@) && decimal_str_fits(s@) {
                        let b = sign_body(s@);
                        assert(b == body@);
                        assert(is_first_dot(sign_body(s@), dot as int));
                        assert(digits_val(b.skip(dot as int + 1)) <= u128::MAX as nat);
                        assert(all_digits(body@.skip(dot as int + 1)));
                        assert(false);
                    }
                }
                return None;
            },
        };
        let scale_usize = body_len - dot - 1;
        if scale_usize > u32::MAX as usize {
            proof {
                if is_canonical_decimal_str(s@) && decimal_str_fits(s@) {
                    let b = sign_body(s@);
                    assert(b == body@);
                    assert(is_first_dot(sign_body(s@), dot as int));
                    assert(b.len() - (dot as int) - 1 <= u32::MAX as nat);
                    assert(false);
                }
            }
            return None;
        }
        let scale = scale_usize as u32;
        let d = DecimalValue { negative, int_part, frac, scale };
        proof {
            assert(body@ =~= body@.take(dot as int) + seq![body@[dot as int]] + body@.skip(
                dot as int + 1,
            ));
            if negative {
                assert(s@ =~= seq!['-'] + body@);
            }
            assert(s@ =~= decimal_str(d));
        }
        Some(d)
    }
}

/// Renders exactly `width` digits of `n`, zero padded on the left.
fn format_padded(n: u128, width: u32) -> (r: String)
    ensures
        r@ == padded_digits(n as nat, width as nat),
{
    let mut digits: Vec<u8> = Vec::new();
    let mut m: u128 = n;
    let mut count: u32 = 0;
    while count < width
        invariant
            count <= width,
            forall|j: int| 0 <= j < digits@.len() ==> digits@[j] < 10,
            digits@.len() == count as nat,
            padded_digits(n as nat, width as nat) == padded_digits(
                m as nat,
                (width - count) as nat,
            ) + crate::numeric::rev_digit_chars(digits@),
        decreases width - count,
    {
        let ghost old_digits = digits@;
        let ghost old_m = m as nat;
        let d: u8 = (m % 10) as u8;
        digits.push(d);
        m = m / 10;
        count = count + 1;
        proof {
            assert(crate::numeric::rev_digit_chars(digits@) =~= seq![digit_char(d as nat)]
                + crate::numeric::rev_digit_chars(old_digits));
            assert(padded_digits(old_m, (width - count + 1) as nat) == padded_digits(
                old_m / 10,
                (width - count) as nat,
            ).push(digit_char(old_m % 10)));
            assert(padded_digits(old_m / 10, (width - count) as nat).push(
                digit_char(old_m % 10),
            ) + crate::numeric::rev_digit_chars(old_digits) =~= padded_digits(
                old_m / 10,
                (width - count) as nat,
            ) + (seq![digit_char(d as nat)] + crate::numeric::rev_digit_chars(old_digits)));
        }
    }
    proof {
        assert(padded_digits(m as nat, 0) =~= Seq::<char>::empty());
        assert(padded_digits(n as nat, width as nat) =~= crate::numeric::rev_digit_chars(
            digits@,
        ));
    }
    let mut out = String::new();
    let total = digits.len();
    let mut i: usize = total;
    while i > 0
        invariant
            i <= total,
            total == digits@.len(),
            forall|j: int| 0 <= j < digits@.len() ==> digits@[j] < 10,
            out@ == crate::numeric::rev_digit_chars(digits@).take(total - i),
        decreases i,
    {
        let ghost old_out = out@;
        i = i - 1;
        out.append(crate::numeric::digit_str(digits[i]));
        proof {
            assert(crate::numeric::rev_digit_chars(digits@).take(total - i) =~= old_out + seq![
                digit_char(digits@[i as int] as nat),
            ]);
        }
    }
    proof {
        assert(crate::numeric::rev_digit_chars(digits@).take(total as int)
            =~= crate::numeric::rev_digit_chars(digits@));
    }
    out
}

/// Renders a decimal value in its canonical wire form; the inverse of
/// `parse_decimal`.
pub fn format_decimal(d: &DecimalValue) -> (r: String)
    ensures
        r@ == decimal_str(*d),
{
    let mut out = String::new();
    if d.negative {
        out.append("-");
        proof {
            reveal_strlit("-");
            assert(out@ =~= seq!['-']);
        }
    }
    let ghost sign = out@;
    let ints = format_u128(d.int_part);
    out.append(ints.as_str());
    if d.scale == 0 {
        proof {
            assert(out@ =~= decimal_str(*d));
        }
        return out;
    }
    let ghost with_int = out@;
    out.append(".");
    proof {
        reveal_strlit(".");
        assert(out@ =~= with_int + seq!['.']);
    }
    let fracs = format_padded(d.frac, d.scale);
    out.append(fracs.as_str());
    proof {
        assert(out@ =~= decimal_str(*d));
    }
    out
}

} // verus!
