//! Numbers written as text: unsigned integers in a radix (the syntax of
//! `u32::from_str_radix`) and floating-point literals (the syntax that
//! `f64::from_str` accepts), held exactly as integers.
use vstd::prelude::*;

verus! {

/* Unsigned integers */

/// The value of the byte `b` as a digit in base `radix` (`0-9`, then
/// `a-z` or `A-Z`), if it is one.
pub open spec fn digit_value(b: u8, radix: nat) -> Option<nat> {
    let v: int = if '0' as u8 <= b <= '9' as u8 {
        b - '0' as u8
    } else if 'a' as u8 <= b <= 'z' as u8 {
        b - 'a' as u8 + 10
    } else if 'A' as u8 <= b <= 'Z' as u8 {
        b - 'A' as u8 + 10
    } else {
        radix as int
    };
    if v < radix {
        Some(v as nat)
    } else {
        None
    }
}

/// Every byte of `s` is a digit in base `radix`.
pub open spec fn all_digits(s: Seq<u8>, radix: nat) -> bool {
    forall|i: int| 0 <= i < s.len() ==> (#[trigger] digit_value(s[i], radix)) is Some
}

/// The value of the digits `s` in base `radix`, most significant first.
pub open spec fn digits_value(s: Seq<u8>, radix: nat) -> nat
    decreases s.len(),
{
    if s.len() == 0 {
        0
    } else {
        digits_value(s.drop_last(), radix) * radix + digit_value(s.last(), radix).unwrap()
    }
}

/// The value of an unsigned integer written in base `radix`: an optional
/// `+` followed by one or more digits; `None` for any other text.
pub open spec fn unsigned_text_value(s: Seq<u8>, radix: nat) -> Option<nat> {
    let digits = if s.len() > 0 && s[0] == '+' as u8 {
        s.drop_first()
    } else {
        s
    };
    if digits.len() > 0 && all_digits(digits, radix) {
        Some(digits_value(digits, radix))
    } else {
        None
    }
}

/// The value of hexadecimal text: one or more digits `0-9`, `a-f` or
/// `A-F`, and nothing else (no sign); `None` for any other text.
pub open spec fn hex_value(s: Seq<u8>) -> Option<nat> {
    if s.len() > 0 && all_digits(s, 16) {
        Some(digits_value(s, 16))
    } else {
        None
    }
}

/// `b` to the power `n`.
pub open spec fn power(b: nat, n: nat) -> nat
    decreases n,
{
    if n == 0 {
        1
    } else {
        power(b, (n - 1) as nat) * b
    }
}

pub proof fn lemma_power_monotone(a: nat, b: nat, m: nat, n: nat)
    requires
        1 <= a <= b,
        m <= n,
    ensures
        power(a, m) <= power(b, n),
    decreases n,
{
    if n > 0 {
        if m == n {
            lemma_power_monotone(a, b, (m - 1) as nat, (n - 1) as nat);
        } else {
            lemma_power_monotone(a, b, m, (n - 1) as nat);
        }
        let pa = power(a, (m - 1) as nat);
        let pb = power(b, (n - 1) as nat);
        if m == n {
            assert(pa * a <= pb * b) by (nonlinear_arith)
                requires
                    1 <= a <= b,
                    pa <= pb,
            ;
        } else {
            assert(power(a, m) <= pb * b) by (nonlinear_arith)
                requires
                    1 <= b,
                    power(a, m) <= pb,
            ;
        }
    }
}

pub proof fn lemma_digits_value_bound(s: Seq<u8>, radix: nat)
    requires
        2 <= radix <= 16,
        all_digits(s, radix),
    ensures
        digits_value(s, radix) < power(radix, s.len()),
    decreases s.len(),
{
    if s.len() > 0 {
        let p = s.drop_last();
        assert(all_digits(p, radix)) by {
            assert forall|i: int| 0 <= i < p.len() implies (#[trigger] digit_value(p[i], radix)) is Some by {
                assert(p[i] == s[i]);
            }
        }
        assert(digit_value(s[s.len() - 1], radix) is Some);
        lemma_digits_value_bound(p, radix);
        let pp = power(radix, p.len());
        let d = digit_value(s.last(), radix).unwrap();
        assert(digits_value(p, radix) * radix + d < pp * radix) by (nonlinear_arith)
            requires
                digits_value(p, radix) < pp,
                d < radix,
        ;
    }
}

fn digit_of(b: u8, radix: u32) -> (r: Option<u32>)
    requires
        2 <= radix <= 36,
    ensures
        match r {
            Some(d) => digit_value(b, radix as nat) == Some(d as nat),
            None => digit_value(b, radix as nat) is None,
        },
{
    let v: u32 = if '0' as u8 <= b && b <= '9' as u8 {
        (b - '0' as u8) as u32
    } else if 'a' as u8 <= b && b <= 'z' as u8 {
        (b - 'a' as u8) as u32 + 10
    } else if 'A' as u8 <= b && b <= 'Z' as u8 {
        (b - 'A' as u8) as u32 + 10
    } else {
        radix
    };
    if v < radix {
        Some(v)
    } else {
        None
    }
}

/// A prefix of digits has at most the value of all the digits.
pub proof fn lemma_digits_value_monotone(s: Seq<u8>, i: int, radix: nat)
    requires
        all_digits(s, radix),
        0 <= i <= s.len(),
    ensures
        digits_value(s.take(i), radix) <= digits_value(s, radix),
    decreases s.len(),
{
    if i < s.len() {
        let p = s.drop_last();
        assert(all_digits(p, radix)) by {
            assert forall|j: int| 0 <= j < p.len() implies (#[trigger] digit_value(p[j], radix)) is Some by {
                assert(p[j] == s[j]);
            }
        }
        lemma_digits_value_monotone(p, i, radix);
        assert(p.take(i) =~= s.take(i));
        assert(digits_value(p, radix) <= digits_value(p, radix) * radix) by (nonlinear_arith)
            requires
                radix >= 1 || digits_value(p, radix) == 0,
        ;
        if radix == 0 {
            assert(digit_value(s[0], radix) is None);
        }
    } else {
        assert(s.take(i) =~= s);
    }
}

/// A text of at most seven bytes in a base up to 16 has a value below 2^28.
pub proof fn lemma_short_text_fits(s: Seq<u8>, radix: nat)
    requires
        s.len() <= 7,
        2 <= radix <= 16,
    ensures
        unsigned_text_value(s, radix) matches Some(v) ==> v < 0x1000_0000,
{
    let digits = if s.len() > 0 && s[0] == '+' as u8 {
        s.drop_first()
    } else {
        s
    };
    if digits.len() > 0 && all_digits(digits, radix) {
        lemma_digits_value_bound(digits, radix);
        lemma_power_monotone(radix, 16, digits.len(), 7);
        assert(power(16, 7) == 0x1000_0000) by {
            reveal_with_fuel(power, 8);
        }
    }
}

/// Parses hexadecimal text: one or more hexadecimal digits with a value
/// that fits in a `u32`; `None` for any other text, a sign included.
pub fn parse_hex(s: &[u8]) -> (r: Option<u32>)
    ensures
        match hex_value(s@) {
            Some(v) => if v <= u32::MAX {
                r == Some(v as u32)
            } else {
                r is None
            },
            None => r is None,
        },
{
    if s.len() == 0 {
        return None;
    }
    let mut i: usize = 0;
    while i < s.len()
        invariant
            i <= s@.len(),
            forall|j: int| 0 <= j < i ==> (#[trigger] digit_value(s@[j], 16)) is Some,
        decreases s.len() - i,
    {
        if digit_of(s[i], 16).is_none() {
            return None;
        }
        i = i + 1;
    }
    assert(digit_value(s@[0], 16) is Some);
    parse_unsigned(s, 16)
}

/// Parses an unsigned integer in base `radix` as `u32::from_str_radix`
/// does: an optional `+` followed by one or more digits, with a value that
/// fits in a `u32`; `None` for any other text.
pub fn parse_unsigned(s: &[u8], radix: u32) -> (r: Option<u32>)
    requires
        2 <= radix <= 36,
    ensures
        match unsigned_text_value(s@, radix as nat) {
            Some(v) => if v <= u32::MAX {
                r == Some(v as u32)
            } else {
                r is None
            },
            None => r is None,
        },
{
    let start: usize = if s.len() > 0 && s[0] == '+' as u8 {
        1
    } else {
        0
    };
    let digits = vstd::slice::slice_subrange(s, start, s.len());
    assert(digits@ == (if s@.len() > 0 && s@[0] == '+' as u8 {
        s@.drop_first()
    } else {
        s@
    }));
    if digits.len() == 0 {
        assert(unsigned_text_value(s@, radix as nat) is None);
        return None;
    }
    let ghost r = radix as nat;
    let mut value: u32 = 0;
    let mut i: usize = 0;
    let mut overflow = false;
    while i < digits.len()
        invariant
            2 <= radix <= 36,
            i <= digits@.len(),
            all_digits(digits@.take(i as int), r),
            !overflow ==> value == digits_value(digits@.take(i as int), r),
            overflow ==> (all_digits(digits@, r) ==> digits_value(digits@, r) > u32::MAX),
            r == radix as nat,
            digits@ == (if s@.len() > 0 && s@[0] == '+' as u8 {
                s@.drop_first()
            } else {
                s@
            }),
        decreases digits.len() - i,
    {
        match digit_of(digits[i], radix) {
            None => {
                assert(!all_digits(digits@, r)) by {
                    assert(digit_value(digits@[i as int], r) is None);
                }
                return None;
            },
            Some(d) => {
                let ghost next = digits@.take(i + 1);
                assert(next.drop_last() =~= digits@.take(i as int));
                assert(all_digits(next, r)) by {
                    assert forall|j: int| 0 <= j < next.len() implies (#[trigger] digit_value(next[j], r)) is Some by {
                        if j < i {
                            assert(next[j] == digits@.take(i as int)[j]);
                        }
                    }
                }
                if !overflow {
                    assert(value as u64 * radix as u64 <= 0xFFFF_FFFF * 36) by (nonlinear_arith)
                        requires
                            value <= 0xFFFF_FFFF,
                            radix <= 36,
                    ;
                    let wide: u64 = value as u64 * radix as u64 + d as u64;
                    if wide > 0xFFFF_FFFF {
                        proof {
                            if all_digits(digits@, r) {
                                lemma_digits_value_monotone(digits@, i + 1, r);
                            }
                        }
                        overflow = true;
                    } else {
                        value = wide as u32;
                    }
                }
                i = i + 1;
            },
        }
    }
    assert(digits@.take(i as int) =~= digits@);
    if overflow {
        None
    } else {
        Some(value)
    }
}

/* Floating-point literals */

/// A number in the text syntax that `f64::from_str` accepts, held exactly:
/// a finite value is `(-1)^negative * mantissa * 10^exponent`.
#[derive(Debug, Clone, Copy, PartialEq, Eq, Structural)]
pub enum FloatLiteral {
    Finite { negative: bool, mantissa: u64, exponent: i64 },
    Infinity { negative: bool },
    NaN { negative: bool },
}

pub open spec fn is_ascii_digit(b: u8) -> bool {
    '0' as u8 <= b <= '9' as u8
}

pub open spec fn ascii_lowercase(b: u8) -> u8 {
    if 'A' as u8 <= b <= 'Z' as u8 {
        (b + 32) as u8
    } else {
        b
    }
}

/// The byte `b` with an ASCII lower-case letter made upper case.
pub open spec fn ascii_uppercase(b: u8) -> u8 {
    if 'a' as u8 <= b <= 'z' as u8 {
        (b - 32) as u8
    } else {
        b
    }
}

/// The bytes `s` with every ASCII lower-case letter made upper case.
pub open spec fn ascii_uppercase_text(s: Seq<u8>) -> Seq<u8> {
    s.map_values(|b: u8| ascii_uppercase(b))
}

/// `s` spells the lower-case ASCII `word`, in either case.
pub open spec fn equals_ignoring_case(s: Seq<u8>, word: Seq<u8>) -> bool {
    &&& s.len() == word.len()
    &&& forall|i: int| 0 <= i < s.len() ==> ascii_lowercase(#[trigger] s[i]) == word[i]
}

pub open spec fn word_inf() -> Seq<u8> {
    seq!['i' as u8, 'n' as u8, 'f' as u8]
}

pub open spec fn word_infinity() -> Seq<u8> {
    seq!['i' as u8, 'n' as u8, 'f' as u8, 'i' as u8, 'n' as u8, 'i' as u8, 't' as u8, 'y' as u8]
}

pub open spec fn word_nan() -> Seq<u8> {
    seq!['n' as u8, 'a' as u8, 'n' as u8]
}

/// `s` begins with `+` or `-`.
pub open spec fn has_sign(s: Seq<u8>) -> bool {
    s.len() > 0 && (s[0] == '+' as u8 || s[0] == '-' as u8)
}

/// `s` begins with `-`.
pub open spec fn has_minus_sign(s: Seq<u8>) -> bool {
    s.len() > 0 && s[0] == '-' as u8
}

/// `s` without its leading sign, if it has one.
pub open spec fn without_sign(s: Seq<u8>) -> Seq<u8> {
    if has_sign(s) {
        s.drop_first()
    } else {
        s
    }
}

pub open spec fn is_exponent_marker(b: u8) -> bool {
    b == 'e' as u8 || b == 'E' as u8
}

pub open spec fn is_first_exponent_marker(s: Seq<u8>, i: int) -> bool {
    &&& 0 <= i < s.len()
    &&& is_exponent_marker(s[i])
    &&& forall|j: int| 0 <= j < i ==> !is_exponent_marker(#[trigger] s[j])
}

/// The position of the first `e` or `E` in `s`, if any.
pub open spec fn exponent_marker_index(s: Seq<u8>) -> Option<int> {
    if exists|i: int| is_first_exponent_marker(s, i) {
        Some(choose|i: int| is_first_exponent_marker(s, i))
    } else {
        None
    }
}

pub open spec fn is_mantissa_byte(b: u8) -> bool {
    is_ascii_digit(b) || b == '.' as u8
}

/// The number of digits in `m`.
pub open spec fn digit_count(m: Seq<u8>) -> nat
    decreases m.len(),
{
    if m.len() == 0 {
        0
    } else {
        digit_count(m.drop_last()) + if is_ascii_digit(m.last()) {
            1nat
        } else {
            0nat
        }
    }
}

/// The number of `.` in `m`.
pub open spec fn dot_count(m: Seq<u8>) -> nat
    decreases m.len(),
{
    if m.len() == 0 {
        0
    } else {
        dot_count(m.drop_last()) + if m.last() == '.' as u8 {
            1nat
        } else {
            0nat
        }
    }
}

/// The digits of `m`, read as one decimal number with the point left out.
pub open spec fn mantissa_value(m: Seq<u8>) -> nat
    decreases m.len(),
{
    if m.len() == 0 {
        0
    } else if m.last() == '.' as u8 {
        mantissa_value(m.drop_last())
    } else {
        mantissa_value(m.drop_last()) * 10 + (m.last() - '0' as u8) as nat
    }
}

/// The number of digits after the point in `m`.
pub open spec fn fraction_len(m: Seq<u8>) -> nat
    decreases m.len(),
{
    if m.len() == 0 || m.last() == '.' as u8 {
        0
    } else if dot_count(m.drop_last()) > 0 {
        fraction_len(m.drop_last()) + 1
    } else {
        0
    }
}

/// `m` is `Digit+`, `Digit+ '.' Digit*` or `Digit* '.' Digit+`.
pub open spec fn is_mantissa(m: Seq<u8>) -> bool {
    &&& forall|i: int| 0 <= i < m.len() ==> is_mantissa_byte(#[trigger] m[i])
    &&& digit_count(m) >= 1
    &&& dot_count(m) <= 1
}

/// The value of an exponent `Sign? Digit+`.
pub open spec fn exponent_value(e: Seq<u8>) -> Option<int> {
    let digits = without_sign(e);
    if digits.len() > 0 && all_digits(digits, 10) {
        Some(
            if has_minus_sign(e) {
                -digits_value(digits, 10)
            } else {
                digits_value(digits, 10) as int
            },
        )
    } else {
        None
    }
}

/// The literal that `s` spells in the grammar of `f64::from_str`:
/// `Sign? ('inf' | 'infinity' | 'nan' | Number)`, the words in either case,
/// `Number ::= Mantissa (('e' | 'E') Sign? Digit+)?`. The integer fields
/// are exact for texts of at most 16 bytes.
pub open spec fn float_literal(s: Seq<u8>) -> Option<FloatLiteral> {
    let negative = has_minus_sign(s);
    let body = without_sign(s);
    if equals_ignoring_case(body, word_inf()) || equals_ignoring_case(body, word_infinity()) {
        Some(FloatLiteral::Infinity { negative })
    } else if equals_ignoring_case(body, word_nan()) {
        Some(FloatLiteral::NaN { negative })
    } else {
        let m = match exponent_marker_index(body) {
            Some(p) => body.take(p),
            None => body,
        };
        let exp = match exponent_marker_index(body) {
            Some(p) => exponent_value(body.skip(p + 1)),
            None => Some(0int),
        };
        if is_mantissa(m) && exp is Some {
            Some(
                FloatLiteral::Finite {
                    negative,
                    mantissa: mantissa_value(m) as u64,
                    exponent: (exp.unwrap() - fraction_len(m)) as i64,
                },
            )
        } else {
            None
        }
    }
}

fn equals_word_ignoring_case(s: &[u8], word: &[u8]) -> (r: bool)
    ensures
        r == equals_ignoring_case(s@, word@),
{
    if s.len() != word.len() {
        return false;
    }
    let mut i: usize = 0;
    while i < s.len()
        invariant
            s@.len() == word@.len(),
            i <= s.len(),
            forall|j: int| 0 <= j < i ==> ascii_lowercase(#[trigger] s@[j]) == word@[j],
        decreases s.len() - i,
    {
        let b = s[i];
        let lower = if 'A' as u8 <= b && b <= 'Z' as u8 {
            b + 32
        } else {
            b
        };
        if lower != word[i] {
            return false;
        }
        i = i + 1;
    }
    true
}

fn find_exponent_marker(s: &[u8]) -> (r: Option<usize>)
    ensures
        match r {
            Some(i) => exponent_marker_index(s@) == Some(i as int),
            None => exponent_marker_index(s@) is None,
        },
{
    let mut i: usize = 0;
    while i < s.len()
        invariant
            i <= s.len(),
            forall|j: int| 0 <= j < i ==> !is_exponent_marker(#[trigger] s@[j]),
        decreases s.len() - i,
    {
        if s[i] == 'e' as u8 || s[i] == 'E' as u8 {
            proof {
                let k = choose|k: int| is_first_exponent_marker(s@, k);
                assert(is_first_exponent_marker(s@, i as int));
                if k < i {
                    assert(!is_exponent_marker(s@[k]));
                } else if i < k {
                    assert(!is_exponent_marker(s@[i as int]));
                }
            }
            return Some(i);
        }
        i = i + 1;
    }
    assert(!exists|k: int| is_first_exponent_marker(s@, k));
    None
}

proof fn lemma_counts_bounded(m: Seq<u8>)
    ensures
        digit_count(m) <= m.len(),
        dot_count(m) <= m.len(),
    decreases m.len(),
{
    if m.len() > 0 {
        lemma_counts_bounded(m.drop_last());
    }
}

/// Reads a mantissa: its value with the point left out, and the number of
/// digits after the point.
fn parse_mantissa(m: &[u8]) -> (r: Option<(u64, u64)>)
    requires
        m.len() <= 16,
    ensures
        r is Some <==> is_mantissa(m@),
        r matches Some((v, f)) ==> v == mantissa_value(m@) && f == fraction_len(m@) && f <= 16,
{
    let mut value: u64 = 0;
    let mut fraction: u64 = 0;
    let mut digits: u64 = 0;
    let mut dots: u64 = 0;
    let mut i: usize = 0;
    while i < m.len()
        invariant
            m@.len() <= 16,
            i <= m@.len(),
            forall|j: int| 0 <= j < i ==> is_mantissa_byte(#[trigger] m@[j]),
            value == mantissa_value(m@.take(i as int)),
            value < power(10, i as nat),
            fraction == fraction_len(m@.take(i as int)),
            digits == digit_count(m@.take(i as int)),
            dots == dot_count(m@.take(i as int)),
            fraction <= i,
            digits <= i,
            dots <= i,
        decreases m.len() - i,
    {
        let b = m[i];
        let ghost prefix = m@.take(i + 1);
        assert(prefix.drop_last() =~= m@.take(i as int));
        assert(prefix.last() == b);
        if b == '.' as u8 {
            dots = dots + 1;
            fraction = 0;
            proof {
                assert(value < power(10, (i + 1) as nat)) by {
                    lemma_power_monotone(10, 10, i as nat, (i + 1) as nat);
                }
            }
        } else if '0' as u8 <= b && b <= '9' as u8 {
            proof {
                let p = power(10, i as nat);
                assert(value * 10 + (b - '0' as u8) < p * 10) by (nonlinear_arith)
                    requires
                        value < p,
                        b - '0' as u8 <= 9,
                ;
                assert(power(10, (i + 1) as nat) == p * 10);
                lemma_power_monotone(10, 10, (i + 1) as nat, 16);
                assert(power(10, 16) == 10_000_000_000_000_000) by {
                    reveal_with_fuel(power, 17);
                }
            }
            value = value * 10 + (b - '0' as u8) as u64;
            digits = digits + 1;
            if dots > 0 {
                fraction = fraction + 1;
            }
        } else {
            assert(!is_mantissa(m@)) by {
                assert(!is_mantissa_byte(m@[i as int]));
            }
            return None;
        }
        i = i + 1;
    }
    assert(m@.take(i as int) =~= m@);
    proof {
        lemma_fraction_len_bounded(m@);
    }
    if digits >= 1 && dots <= 1 {
        Some((value, fraction))
    } else {
        None
    }
}

/// Reads an exponent `Sign? Digit+`.
fn parse_exponent(e: &[u8]) -> (r: Option<i64>)
    requires
        e.len() <= 16,
    ensures
        match r {
            Some(x) => exponent_value(e@) == Some(x as int),
            None => exponent_value(e@) is None,
        },
        r matches Some(x) ==> -10_000_000_000_000_000 < x < 10_000_000_000_000_000,
{
    let negative = e.len() > 0 && e[0] == '-' as u8;
    let start: usize = if e.len() > 0 && (e[0] == '+' as u8 || e[0] == '-' as u8) {
        1
    } else {
        0
    };
    let digits = vstd::slice::slice_subrange(e, start, e.len());
    assert(digits@ == without_sign(e@));
    if digits.len() == 0 {
        return None;
    }
    let mut value: u64 = 0;
    let mut i: usize = 0;
    while i < digits.len()
        invariant
            digits@.len() <= 16,
            i <= digits@.len(),
            all_digits(digits@.take(i as int), 10),
            value == digits_value(digits@.take(i as int), 10),
            value < power(10, i as nat),
            digits@ == without_sign(e@),
            negative == has_minus_sign(e@),
        decreases digits.len() - i,
    {
        let b = digits[i];
        if !('0' as u8 <= b && b <= '9' as u8) {
            assert(!all_digits(digits@, 10)) by {
                assert(digit_value(digits@[i as int], 10) is None);
            }
            return None;
        }
        let ghost next = digits@.take(i + 1);
        assert(next.drop_last() =~= digits@.take(i as int));
        assert(all_digits(next, 10)) by {
            assert forall|j: int| 0 <= j < next.len() implies (#[trigger] digit_value(next[j], 10)) is Some by {
                if j < i {
                    assert(next[j] == digits@.take(i as int)[j]);
                }
            }
        }
        proof {
            let p = power(10, i as nat);
            assert(value * 10 + (b - '0' as u8) < p * 10) by (nonlinear_arith)
                requires
                    value < p,
                    b - '0' as u8 <= 9,
            ;
            assert(power(10, (i + 1) as nat) == p * 10);
            lemma_power_monotone(10, 10, (i + 1) as nat, 16);
            assert(power(10, 16) == 10_000_000_000_000_000) by {
                reveal_with_fuel(power, 17);
            }
        }
        value = value * 10 + (b - '0' as u8) as u64;
        i = i + 1;
    }
    assert(digits@.take(i as int) =~= digits@);
    proof {
        lemma_power_monotone(10, 10, i as nat, 16);
        assert(power(10, 16) == 10_000_000_000_000_000) by {
            reveal_with_fuel(power, 17);
        }
    }
    if negative {
        Some(-(value as i64))
    } else {
        Some(value as i64)
    }
}

/// Reads a floating-point literal in the grammar of `f64::from_str`, for
/// texts of at most 16 bytes.
pub fn parse_float_literal(s: &[u8]) -> (r: Option<FloatLiteral>)
    requires
        s.len() <= 16,
    ensures
        r == float_literal(s@),
{
    let negative = s.len() > 0 && s[0] == '-' as u8;
    let start: usize = if s.len() > 0 && (s[0] == '+' as u8 || s[0] == '-' as u8) {
        1
    } else {
        0
    };
    let body = vstd::slice::slice_subrange(s, start, s.len());
    assert(body@ == without_sign(s@));
    let inf: [u8; 3] = ['i' as u8, 'n' as u8, 'f' as u8];
    let infinity: [u8; 8] = [
        'i' as u8,
        'n' as u8,
        'f' as u8,
        'i' as u8,
        'n' as u8,
        'i' as u8,
        't' as u8,
        'y' as u8,
    ];
    let nan: [u8; 3] = ['n' as u8, 'a' as u8, 'n' as u8];
    assert(inf@ =~= word_inf());
    assert(infinity@ =~= word_infinity());
    assert(nan@ =~= word_nan());
    if equals_word_ignoring_case(body, inf.as_slice()) || equals_word_ignoring_case(
        body,
        infinity.as_slice(),
    ) {
        return Some(FloatLiteral::Infinity { negative });
    }
    if equals_word_ignoring_case(body, nan.as_slice()) {
        return Some(FloatLiteral::NaN { negative });
    }
    let marker = find_exponent_marker(body);
    let mantissa_text = match marker {
        Some(p) => vstd::slice::slice_subrange(body, 0, p),
        None => body,
    };
    let exponent: i64 = match marker {
        Some(p) => match parse_exponent(vstd::slice::slice_subrange(body, p + 1, body.len())) {
            Some(x) => x,
            None => {
                return None;
            },
        },
        None => 0,
    };
    match parse_mantissa(mantissa_text) {
        Some((v, f)) => {
            proof {
                lemma_counts_bounded(mantissa_text@);
                lemma_fraction_len_bounded(mantissa_text@);
            }
            Some(FloatLiteral::Finite { negative, mantissa: v, exponent: exponent - f as i64 })
        },
        None => None,
    }
}

proof fn lemma_fraction_len_bounded(m: Seq<u8>)
    ensures
        fraction_len(m) <= m.len(),
    decreases m.len(),
{
    if m.len() > 0 {
        lemma_fraction_len_bounded(m.drop_last());
    }
}

} // verus!
