//! Text: decoding bytes as UTF-8, building ASCII strings, and writing
//! numbers in decimal and hexadecimal.
use vstd::prelude::*;
use vstd::string::StringExecFns;
use vstd::utf8::*;

verus! {

/// The characters of the ASCII bytes `b`, one for one.
pub open spec fn ascii_chars(b: Seq<u8>) -> Seq<char> {
    Seq::new(b.len(), |i: int| b[i] as char)
}

pub open spec fn is_ascii_bytes(b: Seq<u8>) -> bool {
    forall|i: int| 0 <= i < b.len() ==> #[trigger] b[i] < 128
}

/// ASCII bytes are valid UTF-8 and decode to their own characters.
pub proof fn lemma_ascii_decode(b: Seq<u8>)
    requires
        is_ascii_bytes(b),
    ensures
        valid_utf8(b),
        decode_utf8(b) == ascii_chars(b),
        encode_utf8(ascii_chars(b)) == b,
{
    let c = ascii_chars(b);
    assert(is_ascii_chars(c)) by {
        assert forall|i: int| 0 <= i < c.len() implies '\0' <= #[trigger] c[i] <= '\u{7f}' by {
            assert(b[i] < 128);
            assert(c[i] == b[i] as char);
        }
    }
    is_ascii_chars_encode_utf8(c);
    assert forall|i: int| 0 <= i < b.len() implies encode_utf8(c)[i] == b[i] by {
        assert(c[i] as u8 == encode_utf8(c)[i]);
        assert(b[i] < 128);
        assert((b[i] as char) as u8 == b[i]);
    }
    assert(encode_utf8(c) =~= b);
    encode_utf8_valid_utf8(c);
    encode_utf8_decode_utf8(c);
}

/// Text equality is equality of the UTF-8 bytes.
pub proof fn lemma_encode_injective(a: Seq<char>, b: Seq<char>)
    requires
        encode_utf8(a) == encode_utf8(b),
    ensures
        a == b,
{
    encode_utf8_decode_utf8(a);
    encode_utf8_decode_utf8(b);
}

/// `std::str::from_utf8`: the bytes as text when they are valid UTF-8.
/// The claim is the one its documentation makes: `Ok` exactly for valid
/// UTF-8, and then the text holds the characters that the bytes encode.
#[verifier::external_body]
pub fn str_from_utf8<'a>(bytes: &'a [u8]) -> (r: Option<&'a str>)
    ensures
        r is Some <==> valid_utf8(bytes@),
        r matches Some(s) ==> s@ == decode_utf8(bytes@),
{
    std::str::from_utf8(bytes).ok()
}

/// The text that `String::from_utf8_lossy` makes of the bytes `b`, where
/// each maximal invalid sequence becomes U+FFFD.
pub uninterp spec fn lossy_text(b: Seq<u8>) -> Seq<char>;

/// `String::from_utf8_lossy`, made an owned `String`. Its result is named
/// `lossy_text`; its documentation states that valid UTF-8 comes out
/// unchanged, which the second clause says. How invalid bytes are replaced
/// is not stated.
#[verifier::external_body]
pub fn lossy_string(bytes: &[u8]) -> (r: String)
    ensures
        r@ == lossy_text(bytes@),
        valid_utf8(bytes@) ==> r@ == decode_utf8(bytes@),
{
    String::from_utf8_lossy(bytes).into_owned()
}

/// The UTF-8 decoding of `b`, or the empty text when `b` is not valid UTF-8
/// (`std::str::from_utf8(b).unwrap_or("")`).
pub open spec fn utf8_or_empty(b: Seq<u8>) -> Seq<char> {
    if valid_utf8(b) {
        decode_utf8(b)
    } else {
        Seq::empty()
    }
}

/// Decodes UTF-8 bytes, or gives the empty text for invalid ones.
pub fn str_or_empty<'a>(bytes: &'a [u8]) -> (r: &'a str)
    ensures
        r@ == utf8_or_empty(bytes@),
{
    match str_from_utf8(bytes) {
        Some(s) => s,
        None => {
            proof {
                reveal_strlit("");
            }
            ""
        },
    }
}

/// Makes a `String` of ASCII bytes.
pub fn ascii_string(bytes: Vec<u8>) -> (r: String)
    requires
        is_ascii_bytes(bytes@),
    ensures
        r@ == ascii_chars(bytes@),
{
    proof {
        lemma_ascii_decode(bytes@);
    }
    match str_from_utf8(bytes.as_slice()) {
        Some(s) => s.to_owned(),
        None => String::new(),
    }
}

/// Two texts are equal exactly when their bytes are.
pub fn text_equals(a: &str, b: &str) -> (r: bool)
    ensures
        r == (a@ == b@),
{
    let x = a.as_bytes();
    let y = b.as_bytes();
    assert(x@ == encode_utf8(a@));
    assert(y@ == encode_utf8(b@));
    if x.len() != y.len() {
        proof {
            if a@ == b@ {
                assert(x@ == y@);
            }
        }
        return false;
    }
    let mut i: usize = 0;
    while i < x.len()
        invariant
            x@.len() == y@.len(),
            x@ == encode_utf8(a@),
            y@ == encode_utf8(b@),
            i <= x@.len(),
            forall|j: int| 0 <= j < i ==> x@[j] == y@[j],
        decreases x.len() - i,
    {
        if x[i] != y[i] {
            proof {
                if a@ == b@ {
                    assert(x@ == y@);
                }
            }
            return false;
        }
        i = i + 1;
    }
    assert(x@ =~= y@);
    proof {
        lemma_encode_injective(a@, b@);
    }
    true
}

/// The byte of the digit `d` in upper-case hexadecimal (`0-9`, `A-F`).
pub open spec fn digit_byte(d: nat) -> u8 {
    if d < 10 {
        ('0' as u8 + d) as u8
    } else {
        ('A' as u8 + d - 10) as u8
    }
}

/// The digits of `n` in base `radix`, most significant first, without
/// leading zeros (`0` is one digit).
pub open spec fn radix_digits(n: nat, radix: nat) -> Seq<u8>
    recommends
        2 <= radix <= 16,
    decreases n,
    when radix >= 2
{
    if n < radix {
        seq![digit_byte(n)]
    } else {
        proof {
            assert(n / radix < n) by (nonlinear_arith)
                requires
                    n >= radix,
                    radix >= 2,
            ;
        }
        radix_digits(n / radix, radix).push(digit_byte(n % radix))
    }
}

/// `s` with `0` put in front until it is `width` long.
pub open spec fn zero_padded(s: Seq<u8>, width: nat) -> Seq<u8> {
    if s.len() < width {
        Seq::new((width - s.len()) as nat, |i: int| '0' as u8) + s
    } else {
        s
    }
}

proof fn lemma_radix_digits_ascii(n: nat, radix: nat)
    requires
        2 <= radix <= 16,
    ensures
        is_ascii_bytes(radix_digits(n, radix)),
        radix_digits(n, radix).len() >= 1,
    decreases n,
{
    if n >= radix {
        assert(n / radix < n) by (nonlinear_arith)
            requires
                n >= radix,
                radix >= 2,
        ;
        lemma_radix_digits_ascii(n / radix, radix);
    }
}

fn push_digits(n: u64, radix: u64, out: &mut Vec<u8>)
    requires
        2 <= radix <= 16,
    ensures
        final(out)@ == old(out)@ + radix_digits(n as nat, radix as nat),
    decreases n,
{
    let ghost start = out@;
    if n >= radix {
        assert(n / radix < n) by (nonlinear_arith)
            requires
                n >= radix,
                radix >= 2,
        ;
        push_digits(n / radix, radix, out);
    }
    let d = n % radix;
    let b: u8 = if d < 10 {
        '0' as u8 + d as u8
    } else {
        'A' as u8 + (d - 10) as u8
    };
    assert(b == digit_byte(d as nat));
    assert(radix_digits(n as nat, radix as nat) == if n < radix {
        seq![digit_byte(n as nat)]
    } else {
        radix_digits((n / radix) as nat, radix as nat).push(digit_byte((n % radix) as nat))
    });
    out.push(b);
    if n >= radix {
        assert(out@ =~= start + radix_digits(n as nat, radix as nat));
    } else {
        assert(n % radix == n) by (nonlinear_arith)
            requires
                n < radix,
        ;
        assert(out@ =~= start + radix_digits(n as nat, radix as nat));
    }
}

/// `n` written in base `radix` (upper-case digits), zero-padded to `width`.
pub fn radix_string(n: u64, radix: u64, width: usize) -> (r: String)
    requires
        2 <= radix <= 16,
    ensures
        r@ == ascii_chars(zero_padded(radix_digits(n as nat, radix as nat), width as nat)),
{
    let mut digits: Vec<u8> = Vec::new();
    push_digits(n, radix, &mut digits);
    assert(digits@ =~= radix_digits(n as nat, radix as nat));
    proof {
        lemma_radix_digits_ascii(n as nat, radix as nat);
    }
    let mut out: Vec<u8> = Vec::new();
    let mut k: usize = digits.len();
    while k < width
        invariant
            digits@.len() <= k,
            k <= digits@.len() || k <= width,
            out@ =~= Seq::new((k - digits@.len()) as nat, |i: int| '0' as u8),
        decreases width - k,
    {
        out.push('0' as u8);
        k = k + 1;
    }
    let mut i: usize = 0;
    let ghost pad = out@;
    while i < digits.len()
        invariant
            i <= digits@.len(),
            out@ =~= pad + digits@.take(i as int),
        decreases digits.len() - i,
    {
        out.push(digits[i]);
        i = i + 1;
    }
    assert(digits@.take(i as int) =~= digits@);
    assert(out@ =~= zero_padded(radix_digits(n as nat, radix as nat), width as nat));
    assert(is_ascii_bytes(out@)) by {
        assert forall|j: int| 0 <= j < out@.len() implies #[trigger] out@[j] < 128 by {
            if j >= pad.len() {
                assert(out@[j] == digits@[j - pad.len()]);
            }
        }
    }
    ascii_string(out)
}

} // verus!
