//! Properties of the library as a whole: how its decoders, encoders and
//! parsers stand to one another.
use vstd::prelude::*;
use vstd::utf8::encode_utf8;

use crate::aprs_types::{BeaconIdView, ICAOAddress, OGNAddressType, OGNAircraftType, OGNBeaconID, OGNIDPrefix};
use crate::bytes::{first_index_of, is_first_index_of};
use crate::errors::{ICAOAddressError, OGNBeaconIDError};
use crate::numbers::{
    all_digits, ascii_uppercase, hex_value, ascii_uppercase_text, digit_count, digit_value, digits_value, dot_count, equals_ignoring_case, float_literal,
    fraction_len, has_sign, is_first_exponent_marker, is_mantissa_byte, lemma_digits_value_bound,
    lemma_power_monotone, mantissa_value, power, word_inf, word_infinity,
    word_nan, FloatLiteral,
};
use crate::parse::{
    delimited_field, spec_parse_beacon, spec_parse_naive_time, spec_parse_ogn_beacon_id,
};
use crate::text::{radix_digits, zero_padded};

verus! {

/// An ICAO address is accepted exactly when it fits in 24 bits, and then it
/// is kept as given.
pub proof fn lemma_icao_address_is_24_bit(value: u32)
    ensures
        ICAOAddress::spec_new(value) is Ok <==> value <= 0x00FF_FFFF,
        ICAOAddress::spec_new(value) is Ok ==> ICAOAddress::spec_new(value) == Ok::<
            u32,
            ICAOAddressError,
        >(value),
{
}

/// The documented value of each aircraft type decodes back to it, and the
/// values 0 to 15 are exactly those that decode.
pub proof fn lemma_aircraft_type_codes(t: OGNAircraftType, v: u8)
    ensures
        OGNAircraftType::spec_from_code(t.spec_code()) == Some(t),
        OGNAircraftType::spec_from_code(v) is Some <==> v <= 15,
        OGNAircraftType::spec_from_code(v) matches Some(u) ==> (u.spec_code() == v || (v == 14
            && u == OGNAircraftType::Reserved)),
{
}

/// The documented value of each address type decodes back to it, and the
/// values 0 to 3 are exactly those that decode.
pub proof fn lemma_address_type_codes(t: OGNAddressType, v: u8)
    ensures
        OGNAddressType::spec_from_code(t.spec_code()) == Some(t),
        OGNAddressType::spec_from_code(v) is Some <==> v <= 3,
        OGNAddressType::spec_from_code(v) matches Some(u) ==> u.spec_code() == v,
{
}

/// The byte that a prefix is written as, by the documented bit layout.
pub open spec fn prefix_byte(p: OGNIDPrefix) -> int {
    (if p.stealth_mode {
        128int
    } else {
        0int
    }) + (if p.no_track {
        64int
    } else {
        0int
    }) + p.aircraft_type.spec_code() * 4 + p.address_type.spec_code()
}

/// Every byte decodes to a prefix, and writing the prefix back by the bit
/// layout gives the byte again, except where the aircraft type bits are the
/// second reserved value 14 (which decodes like 0).
pub proof fn lemma_every_prefix_byte_decodes(v: u8)
    ensures
        OGNIDPrefix::spec_new(v) is Ok,
        (v >> 2u8) & 0b1111u8 != 14 ==> prefix_byte(OGNIDPrefix::spec_new(v).unwrap()) == v,
{
    let t = (v >> 2u8) & 0b1111u8;
    let a = v & 0b11u8;
    let n = (v >> 6u8) & 0b1u8;
    let s = (v >> 7u8) & 0b1u8;
    assert(t <= 15 && a <= 3 && n <= 1 && s <= 1) by (bit_vector)
        requires
            t == (v >> 2u8) & 0b1111u8,
            a == v & 0b11u8,
            n == (v >> 6u8) & 0b1u8,
            s == (v >> 7u8) & 0b1u8,
    ;
    assert(v == s * 128 + n * 64 + t * 4 + a) by (bit_vector)
        requires
            t == (v >> 2u8) & 0b1111u8,
            a == v & 0b11u8,
            n == (v >> 6u8) & 0b1u8,
            s == (v >> 7u8) & 0b1u8,
    ;
    lemma_aircraft_type_codes(OGNAircraftType::Reserved, t);
    lemma_address_type_codes(OGNAddressType::Unknown, a);
}

/// Any two hexadecimal digits decode to a prefix.
pub proof fn lemma_hex_prefix_decodes(b: Seq<u8>)
    requires
        b.len() == 2,
        all_digits(b, 16),
    ensures
        OGNIDPrefix::spec_from_hex(b) is Ok,
{
    lemma_digits_value_bound(b, 16);
    assert(power(16, 2) == 256) by {
        reveal_with_fuel(power, 3);
    }
    let v = digits_value(b, 16);
    lemma_every_prefix_byte_decodes(v as u8);
}

/// The address digits of a beacon ID always fit in 24 bits: reading a
/// beacon ID never reports an address above the ICAO limit.
pub proof fn lemma_beacon_id_address_fits(b: Seq<u8>)
    requires
        b.len() == 8,
    ensures
        !(OGNBeaconID::spec_from_hex(b) matches Err(
            OGNBeaconIDError::ICAOAddressError(ICAOAddressError::InvalidAddress(_)),
        )),
{
    let digits = b.skip(2);
    if digits.len() > 0 && all_digits(digits, 16) {
        lemma_digits_value_bound(digits, 16);
        lemma_power_monotone(16, 16, digits.len(), 6);
        assert(power(16, 6) == 0x0100_0000) by {
            reveal_with_fuel(power, 7);
        }
    }
}

/// A text field read up to a separator is the exact text before the first
/// separator: the input is the field's bytes, the separator, and the rest.
pub proof fn lemma_delimited_field_splits_input(input: Seq<u8>, sep: u8)
    ensures
        delimited_field(input, sep) matches Some((rest, t)) ==> {
            &&& input == encode_utf8(t) + seq![sep] + rest
            &&& !encode_utf8(t).contains(sep)
        },
{
    if let Some((rest, t)) = delimited_field(input, sep) {
        let p = first_index_of(input, sep).unwrap();
        assert(is_first_index_of(input, sep, p));
        vstd::utf8::decode_utf8_encode_utf8(input.take(p));
        assert(encode_utf8(t) == input.take(p));
        assert(input =~= input.take(p) + seq![sep] + rest);
        assert forall|i: int| 0 <= i < input.take(p).len() implies input.take(p)[i] != sep by {
            assert(input.take(p)[i] == input[i]);
        }
    }
}

/// A timestamp that parses is a valid time of day.
pub proof fn lemma_parsed_time_is_valid(input: Seq<u8>)
    ensures
        spec_parse_naive_time(input) matches Ok((_, t)) ==> t.is_valid(),
{
}

/// A beacon that parses has a valid time of day.
pub proof fn lemma_parsed_beacon_time_is_valid(input: Seq<u8>)
    ensures
        spec_parse_beacon(input) matches Ok(b) ==> b.time.is_valid(),
{
    if let Ok(b) = spec_parse_beacon(input) {
        if let Ok((r1, _)) = crate::parse::spec_parse_header(input) {
            lemma_parsed_time_is_valid(r1.skip(1));
        }
    }
}

pub(crate) proof fn lemma_digits_are_mantissa(d: Seq<u8>)
    requires
        all_digits(d, 10),
    ensures
        digit_count(d) == d.len(),
        dot_count(d) == 0,
        mantissa_value(d) == digits_value(d, 10),
        fraction_len(d) == 0,
    decreases d.len(),
{
    if d.len() > 0 {
        let p = d.drop_last();
        assert(all_digits(p, 10)) by {
            assert forall|i: int| 0 <= i < p.len() implies (#[trigger] digit_value(p[i], 10)) is Some by {
                assert(p[i] == d[i]);
            }
        }
        assert(digit_value(d[d.len() - 1], 10) is Some);
        lemma_digits_are_mantissa(p);
    }
}

/// A field of decimal digits reads as the integer they spell.
pub proof fn lemma_digit_field_is_integer(d: Seq<u8>)
    requires
        1 <= d.len() <= 16,
        all_digits(d, 10),
    ensures
        float_literal(d) == Some(
            FloatLiteral::Finite {
                negative: false,
                mantissa: digits_value(d, 10) as u64,
                exponent: 0,
            },
        ),
{
    assert(digit_value(d[0], 10) is Some);
    assert(!has_sign(d));
    assert(!equals_ignoring_case(d, word_inf()));
    assert(!equals_ignoring_case(d, word_infinity()));
    assert(!equals_ignoring_case(d, word_nan()));
    assert(!exists|i: int| is_first_exponent_marker(d, i)) by {
        assert forall|i: int| !is_first_exponent_marker(d, i) by {
            if 0 <= i < d.len() {
                assert(digit_value(d[i], 10) is Some);
            }
        }
    }
    lemma_digits_are_mantissa(d);
    assert forall|i: int| 0 <= i < d.len() implies is_mantissa_byte(#[trigger] d[i]) by {
        assert(digit_value(d[i], 10) is Some);
    }
}

proof fn lemma_zeros_value(n: nat)
    ensures
        digits_value(Seq::new(n, |i: int| '0' as u8), 16) == 0,
        all_digits(Seq::new(n, |i: int| '0' as u8), 16),
    decreases n,
{
    if n > 0 {
        lemma_zeros_value((n - 1) as nat);
        assert(Seq::new(n, |i: int| '0' as u8).drop_last() =~= Seq::new(
            (n - 1) as nat,
            |i: int| '0' as u8,
        ));
    }
}

proof fn lemma_digits_value_append(a: Seq<u8>, b: Seq<u8>, radix: nat)
    requires
        digits_value(a, radix) == 0,
    ensures
        digits_value(a + b, radix) == digits_value(b, radix),
    decreases b.len(),
{
    if b.len() == 0 {
        assert(a + b =~= a);
    } else {
        lemma_digits_value_append(a, b.drop_last(), radix);
        assert((a + b).drop_last() =~= a + b.drop_last());
    }
}

proof fn lemma_digit_byte_value(d: nat, radix: nat)
    requires
        d < radix <= 16,
    ensures
        digit_value(crate::text::digit_byte(d), radix) == Some(d),
{
}

proof fn lemma_radix_digits_value(n: nat, radix: nat)
    requires
        2 <= radix <= 16,
    ensures
        all_digits(radix_digits(n, radix), radix),
        digits_value(radix_digits(n, radix), radix) == n,
    decreases n,
{
    if n < radix {
        lemma_digit_byte_value(n, radix);
        let s = radix_digits(n, radix);
        assert(s == seq![crate::text::digit_byte(n)]);
        assert(s.drop_last() =~= Seq::<u8>::empty());
        assert(digits_value(s.drop_last(), radix) == 0);
        assert(digits_value(s, radix) == 0 * radix + n);
    } else {
        assert(n / radix < n) by (nonlinear_arith)
            requires
                n >= radix,
                radix >= 2,
        ;
        lemma_radix_digits_value(n / radix, radix);
        let p = radix_digits(n / radix, radix);
        assert(radix_digits(n, radix).drop_last() =~= p);
        assert(n == (n / radix) * radix + n % radix) by (nonlinear_arith)
            requires
                radix >= 2,
        ;
        assert(n % radix < radix) by (nonlinear_arith)
            requires
                radix >= 2,
        ;
        lemma_digit_byte_value(n % radix, radix);
        let s = radix_digits(n, radix);
        assert(s == p.push(crate::text::digit_byte(n % radix)));
        assert(s.last() == crate::text::digit_byte(n % radix));
        assert(digits_value(s, radix) == digits_value(p, radix) * radix + n % radix);
        assert(digits_value(p, radix) * radix == (n / radix) * radix);
        assert forall|i: int| 0 <= i < s.len() implies (#[trigger] digit_value(s[i], radix)) is Some by {
            if i < p.len() {
                assert(s[i] == p[i]);
            }
        }
    }
}

/// The text that an address displays as (eight hexadecimal digits) reads
/// back as the address.
pub proof fn lemma_address_text_reads_back(a: u32)
    ensures
        hex_value(zero_padded(radix_digits(a as nat, 16), 8)) == Some(a as nat),
{
    let d = radix_digits(a as nat, 16);
    lemma_radix_digits_value(a as nat, 16);
    let t = zero_padded(d, 8);
    if d.len() < 8 {
        let z = Seq::new((8 - d.len()) as nat, |i: int| '0' as u8);
        lemma_zeros_value((8 - d.len()) as nat);
        lemma_digits_value_append(z, d, 16);
        assert forall|i: int| 0 <= i < t.len() implies (#[trigger] digit_value(t[i], 16)) is Some by {
            if i >= z.len() {
                assert(t[i] == d[i - z.len()]);
            } else {
                assert(t[i] == z[i]);
            }
        }
        assert(t[0] == '0' as u8);
    } else {
        assert(digit_value(d[0], 16) is Some);
    }
}

/// Any eight hexadecimal digits are a beacon ID.
pub proof fn lemma_hex_beacon_id_decodes(b: Seq<u8>)
    requires
        b.len() == 8,
        all_digits(b, 16),
    ensures
        OGNBeaconID::spec_from_hex(b) is Ok,
{
    let p = b.take(2);
    let a = b.skip(2);
    assert(all_digits(p, 16)) by {
        assert forall|i: int| 0 <= i < p.len() implies (#[trigger] digit_value(p[i], 16)) is Some by {
            assert(p[i] == b[i]);
        }
    }
    assert(all_digits(a, 16)) by {
        assert forall|i: int| 0 <= i < a.len() implies (#[trigger] digit_value(a[i], 16)) is Some by {
            assert(a[i] == b[i + 2]);
        }
    }
    lemma_hex_prefix_decodes(p);
    assert(digit_value(a[0], 16) is Some);
    lemma_digits_value_bound(a, 16);
    lemma_power_monotone(16, 16, a.len(), 6);
    assert(power(16, 6) == 0x0100_0000) by {
        reveal_with_fuel(power, 7);
    }
}

/// The token `id` followed by eight bytes of text reads as the beacon ID
/// that `OGNBeaconID::from_str` reads from that text.
pub proof fn lemma_id_token_agrees_with_from_str(b: Seq<u8>)
    requires
        b.len() == 8,
        vstd::utf8::valid_utf8(b),
    ensures
        ({
            let t = seq!['i' as u8, 'd' as u8] + b;
            &&& spec_parse_ogn_beacon_id(t) is Ok <==> OGNBeaconID::spec_from_hex(b) is Ok
            &&& OGNBeaconID::spec_from_hex(b) matches Ok(v) ==> spec_parse_ogn_beacon_id(t) == Ok::<
                (Seq<u8>, BeaconIdView),
                crate::errors::MessageErrorView,
            >((Seq::<u8>::empty(), v))
        }),
{
    let t = seq!['i' as u8, 'd' as u8] + b;
    assert(t.subrange(2, 10) =~= b);
    assert(t.skip(10) =~= Seq::<u8>::empty());
}

/// A digit has the same value in either case.
proof fn lemma_digit_value_ignores_case(b: u8, radix: nat)
    ensures
        digit_value(ascii_uppercase(b), radix) == digit_value(b, radix),
{
}

/// Digits have the same value in either case.
proof fn lemma_digits_ignore_case(s: Seq<u8>, radix: nat)
    ensures
        all_digits(ascii_uppercase_text(s), radix) == all_digits(s, radix),
        all_digits(s, radix) ==> digits_value(ascii_uppercase_text(s), radix) == digits_value(s, radix),
    decreases s.len(),
{
    let u = ascii_uppercase_text(s);
    assert forall|i: int| 0 <= i < s.len() implies #[trigger] digit_value(u[i], radix) == digit_value(s[i], radix) by {
        lemma_digit_value_ignores_case(s[i], radix);
    }
    if all_digits(s, radix) {
        assert(all_digits(u, radix)) by {
            assert forall|i: int| 0 <= i < u.len() implies (#[trigger] digit_value(u[i], radix)) is Some by {
                assert(digit_value(s[i], radix) is Some);
            }
        }
    }
    if all_digits(u, radix) {
        assert(all_digits(s, radix)) by {
            assert forall|i: int| 0 <= i < s.len() implies (#[trigger] digit_value(s[i], radix)) is Some by {
                assert(digit_value(u[i], radix) is Some);
            }
        }
    }
    if s.len() > 0 && all_digits(s, radix) {
        let d = s.drop_last();
        assert(ascii_uppercase_text(d) =~= u.drop_last());
        assert(all_digits(d, radix)) by {
            assert forall|i: int| 0 <= i < d.len() implies (#[trigger] digit_value(d[i], radix)) is Some by {
                assert(d[i] == s[i]);
                assert(digit_value(s[i], radix) is Some);
            }
        }
        lemma_digits_ignore_case(d, radix);
        assert(digit_value(u[s.len() - 1], radix) == digit_value(s[s.len() - 1], radix));
    }
}

/// Hexadecimal text has the same value in either case of its letters.
pub proof fn lemma_hex_text_ignores_case(s: Seq<u8>)
    ensures
        hex_value(ascii_uppercase_text(s)) == hex_value(s),
{
    lemma_digits_ignore_case(s, 16);
}

/// Hexadecimal prefix text reads as the same prefix, or the same error,
/// with its letters in upper case: `c6` and `C6` are one prefix.
pub proof fn lemma_hex_prefix_ignores_case(b: Seq<u8>)
    ensures
        OGNIDPrefix::spec_from_hex(ascii_uppercase_text(b)) == OGNIDPrefix::spec_from_hex(b),
{
    lemma_hex_text_ignores_case(b);
}

/// An eight-byte beacon ID text reads as the same beacon ID, or the same
/// error, with its letters in upper case.
pub proof fn lemma_hex_beacon_id_ignores_case(b: Seq<u8>)
    requires
        b.len() == 8,
    ensures
        OGNBeaconID::spec_from_hex(ascii_uppercase_text(b)) == OGNBeaconID::spec_from_hex(b),
{
    let u = ascii_uppercase_text(b);
    assert(u.take(2) =~= ascii_uppercase_text(b.take(2)));
    assert(u.skip(2) =~= ascii_uppercase_text(b.skip(2)));
    lemma_hex_prefix_ignores_case(b.take(2));
    lemma_hex_text_ignores_case(b.skip(2));
}

} // verus!
