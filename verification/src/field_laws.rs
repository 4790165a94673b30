//! What each field of a message reads as, stated over the bytes of the
//! field itself: the documented numbers of the enums, the digits of the
//! timestamp, the coordinates and the numeric fields, and how a whole
//! beacon is made of its fields.
use vstd::prelude::*;

use crate::aprs_types::{BeaconIdView, OGNAddressType, OGNAircraftType, OgnAprsProtocol};
use crate::bytes::{first_index_of, is_first_index_of, lemma_first_index_of};
use crate::numbers::{
    all_digits, digit_value, digits_value, equals_ignoring_case, float_literal, is_ascii_digit,
    is_first_exponent_marker, is_mantissa_byte, mantissa_value, word_inf, word_infinity, word_nan,
    FloatLiteral,
};
use crate::laws::lemma_digits_are_mantissa;
use crate::parse::{
    spec_parse_aprs_signal_type, spec_parse_beacon, spec_parse_callsign, spec_parse_header,
    spec_parse_q_construct, spec_parse_receiver, spec_scan_ids, spec_skip_one,
    spec_skip_to_altitude, AircraftBeaconView, spec_parse_coordinate, spec_parse_gps_altitude, spec_parse_ground_speed,
    spec_parse_ground_track, spec_parse_naive_time, Coordinate, CoordinateValue, TimeOfDay,
};
use crate::errors::MessageErrorView;
use crate::text::{is_ascii_bytes, lemma_ascii_decode};

verus! {

/* The documented numbers of the enums */

/// Each aircraft type has the number that the OGN wiki gives it: 0
/// reserved, 1 glider, 2 tow plane, 3 helicopter, 4 parachute, 5 drop
/// plane, 6 hang glider, 7 paraglider, 8 piston aircraft, 9 jet or
/// turboprop, 10 unknown, 11 balloon, 12 airship, 13 UAV, 15 static
/// obstacle; 14 is reserved too.
pub proof fn lemma_aircraft_type_numbers()
    ensures
        OGNAircraftType::Reserved.spec_code() == 0,
        OGNAircraftType::Glider.spec_code() == 1,
        OGNAircraftType::TowPlane.spec_code() == 2,
        OGNAircraftType::Helicopter.spec_code() == 3,
        OGNAircraftType::Parachute.spec_code() == 4,
        OGNAircraftType::DropPlane.spec_code() == 5,
        OGNAircraftType::HangGlider.spec_code() == 6,
        OGNAircraftType::Paraglider.spec_code() == 7,
        OGNAircraftType::ReciprocatingEngineAircraft.spec_code() == 8,
        OGNAircraftType::JetTurbopropAircraft.spec_code() == 9,
        OGNAircraftType::Unknown.spec_code() == 10,
        OGNAircraftType::Balloon.spec_code() == 11,
        OGNAircraftType::Airship.spec_code() == 12,
        OGNAircraftType::UAVs.spec_code() == 13,
        OGNAircraftType::StaticObstacle.spec_code() == 15,
        OGNAircraftType::spec_from_code(14) == Some(OGNAircraftType::Reserved),
        forall|t: OGNAircraftType| OGNAircraftType::spec_from_code(#[trigger] t.spec_code()) == Some(t),
{
}

/// Each address type has the number that the OGN wiki gives it: 0 unknown,
/// 1 ICAO, 2 FLARM, 3 OGN tracker.
pub proof fn lemma_address_type_numbers()
    ensures
        OGNAddressType::Unknown.spec_code() == 0,
        OGNAddressType::ICAO.spec_code() == 1,
        OGNAddressType::FLARM.spec_code() == 2,
        OGNAddressType::OGNTracker.spec_code() == 3,
        forall|t: OGNAddressType| OGNAddressType::spec_from_code(#[trigger] t.spec_code()) == Some(t),
{
}

/* Digits */

/// The value of the ASCII digit `b`.
pub open spec fn digit(b: u8) -> int {
    b - '0' as u8
}

proof fn lemma_ascii_digits_are_digits(s: Seq<u8>)
    requires
        forall|i: int| 0 <= i < s.len() ==> is_ascii_digit(#[trigger] s[i]),
    ensures
        all_digits(s, 10),
        is_ascii_bytes(s),
        forall|i: int| 0 <= i < s.len() ==> digit_value(#[trigger] s[i], 10) == Some(digit(s[i]) as nat),
{
    assert forall|i: int| 0 <= i < s.len() implies (#[trigger] digit_value(s[i], 10)) is Some by {
        assert(is_ascii_digit(s[i]));
    }
    assert forall|i: int| 0 <= i < s.len() implies #[trigger] s[i] < 128 by {
        assert(is_ascii_digit(s[i]));
    }
    assert forall|i: int| 0 <= i < s.len() implies digit_value(#[trigger] s[i], 10) == Some(
        digit(s[i]) as nat,
    ) by {
        assert(is_ascii_digit(s[i]));
    }
}

/// Two ASCII digits read, as an unsigned number, as `10 * first + second`.
proof fn lemma_two_digits(s: Seq<u8>)
    requires
        s.len() == 2,
        is_ascii_digit(s[0]),
        is_ascii_digit(s[1]),
    ensures
        crate::numbers::unsigned_text_value(s, 10) == Some((digit(s[0]) * 10 + digit(s[1])) as nat),
{
    lemma_ascii_digits_are_digits(s);
    let f = s.drop_last();
    assert(f.drop_last() =~= Seq::<u8>::empty());
    assert(f.last() == s[0]);
    assert(digits_value(f.drop_last(), 10) == 0);
    assert(digit_value(s[0], 10) == Some(digit(s[0]) as nat));
    assert(digit_value(s[1], 10) == Some(digit(s[1]) as nat));
    assert(digits_value(f, 10) == digit(s[0]));
    assert(digits_value(s, 10) == digit(s[0]) * 10 + digit(s[1]));
    assert(s[0] != '+' as u8);
}

/* The timestamp */

/// Six ASCII digits `hhmmss` and one more byte read as the time
/// `hh:mm:ss` when it is one (hour below 24, minute and second below 60),
/// with the rest of the input after the seventh byte; any other six digits
/// are an invalid timestamp.
pub proof fn lemma_timestamp_reads_its_digits(input: Seq<u8>)
    requires
        input.len() >= 7,
        forall|i: int| 0 <= i < 6 ==> is_ascii_digit(#[trigger] input[i]),
    ensures
        ({
            let h = digit(input[0]) * 10 + digit(input[1]);
            let m = digit(input[2]) * 10 + digit(input[3]);
            let s = digit(input[4]) * 10 + digit(input[5]);
            if h < 24 && m < 60 && s < 60 {
                spec_parse_naive_time(input) == Ok::<(Seq<u8>, TimeOfDay), MessageErrorView>(
                    (input.skip(7), TimeOfDay { hour: h as u32, minute: m as u32, second: s as u32 }),
                )
            } else {
                spec_parse_naive_time(input) matches Err(MessageErrorView::InvalidTimestamp(_))
            }
        }),
{
    let b = input.take(6);
    assert(forall|i: int| 0 <= i < 6 ==> is_ascii_digit(#[trigger] b[i])) by {
        assert forall|i: int| 0 <= i < 6 implies is_ascii_digit(#[trigger] b[i]) by {
            assert(b[i] == input[i]);
            assert(is_ascii_digit(input[i]));
        }
    }
    lemma_ascii_digits_are_digits(b);
    lemma_ascii_decode(b);
    assert(is_ascii_digit(b[0]) && is_ascii_digit(b[1]) && is_ascii_digit(b[2]));
    assert(is_ascii_digit(b[3]) && is_ascii_digit(b[4]) && is_ascii_digit(b[5]));
    let p0 = b.subrange(0, 2);
    let p1 = b.subrange(2, 4);
    let p2 = b.subrange(4, 6);
    assert(p0[0] == input[0] && p0[1] == input[1]);
    assert(p1[0] == input[2] && p1[1] == input[3]);
    assert(p2[0] == input[4] && p2[1] == input[5]);
    lemma_two_digits(p0);
    lemma_two_digits(p1);
    lemma_two_digits(p2);
}

/* Number literals */

/// `s` is an optional `+` or `-` followed by one or more ASCII digits.
pub open spec fn signed_digits(s: Seq<u8>) -> bool {
    &&& s.len() >= 1
    &&& is_ascii_digit(s[0]) || ((s[0] == '-' as u8 || s[0] == '+' as u8) && s.len() >= 2)
    &&& forall|i: int| 1 <= i < s.len() ==> is_ascii_digit(#[trigger] s[i])
}

/// The digits of `s` without its sign.
pub open spec fn unsigned_part(s: Seq<u8>) -> Seq<u8> {
    if is_ascii_digit(s[0]) {
        s
    } else {
        s.drop_first()
    }
}

/// The whole number that `s` spells: the value of its digits, negative
/// after a `-`.
pub open spec fn integer_literal(s: Seq<u8>) -> FloatLiteral {
    FloatLiteral::Finite {
        negative: s[0] == '-' as u8,
        mantissa: digits_value(unsigned_part(s), 10) as u64,
        exponent: 0,
    }
}

proof fn lemma_not_a_word(body: Seq<u8>)
    requires
        body.len() > 0,
        is_mantissa_byte(body[0]),
    ensures
        !equals_ignoring_case(body, word_inf()),
        !equals_ignoring_case(body, word_infinity()),
        !equals_ignoring_case(body, word_nan()),
{
    assert(crate::numbers::ascii_lowercase(body[0]) == body[0]);
    assert(word_inf()[0] == 'i' as u8);
    assert(word_infinity()[0] == 'i' as u8);
    assert(word_nan()[0] == 'n' as u8);
}

proof fn lemma_no_exponent_marker(body: Seq<u8>)
    requires
        forall|i: int| 0 <= i < body.len() ==> is_mantissa_byte(#[trigger] body[i]),
    ensures
        !exists|i: int| is_first_exponent_marker(body, i),
{
    assert forall|i: int| !is_first_exponent_marker(body, i) by {
        if 0 <= i < body.len() {
            assert(is_mantissa_byte(body[i]));
        }
    }
}

/// A sign and digits read as the whole number they spell.
pub proof fn lemma_integer_literal(s: Seq<u8>)
    requires
        signed_digits(s),
    ensures
        float_literal(s) == Some(integer_literal(s)),
{
    let body = unsigned_part(s);
    assert(body =~= crate::numbers::without_sign(s));
    assert forall|i: int| 0 <= i < body.len() implies is_ascii_digit(#[trigger] body[i]) by {
        if is_ascii_digit(s[0]) {
            if i > 0 {
                assert(is_ascii_digit(s[i]));
            }
        } else {
            assert(body[i] == s[i + 1]);
            assert(is_ascii_digit(s[i + 1]));
        }
    }
    lemma_ascii_digits_are_digits(body);
    lemma_digits_are_mantissa(body);
    assert forall|i: int| 0 <= i < body.len() implies is_mantissa_byte(#[trigger] body[i]) by {
        assert(is_ascii_digit(body[i]));
    }
    assert(is_ascii_digit(body[0]));
    lemma_not_a_word(body);
    lemma_no_exponent_marker(body);
}

/// Two digits, a point and two digits (`mm.mm`) read as the four digits
/// times `10^-2`.
pub proof fn lemma_minutes_literal(s: Seq<u8>)
    requires
        s.len() == 5,
        s[2] == '.' as u8,
        is_ascii_digit(s[0]),
        is_ascii_digit(s[1]),
        is_ascii_digit(s[3]),
        is_ascii_digit(s[4]),
    ensures
        float_literal(s) == Some(
            FloatLiteral::Finite {
                negative: false,
                mantissa: (digit(s[0]) * 1000 + digit(s[1]) * 100 + digit(s[3]) * 10 + digit(
                    s[4],
                )) as u64,
                exponent: -2i64,
            },
        ),
{
    let s2 = s.take(2);
    let s3 = s.take(3);
    let s4 = s.take(4);
    assert(s.drop_last() =~= s4);
    assert(s4.drop_last() =~= s3);
    assert(s3.drop_last() =~= s2);
    assert(s2[0] == s[0] && s2[1] == s[1]);
    lemma_ascii_digits_are_digits(s2);
    lemma_digits_are_mantissa(s2);
    lemma_two_digits(s2);
    assert(s2[0] != '+' as u8);
    assert(digits_value(s2, 10) == digit(s[0]) * 10 + digit(s[1]));
    assert(s.last() == s[4] && s4.last() == s[3] && s3.last() == s[2]);
    assert(crate::numbers::digit_count(s3) == 2);
    assert(crate::numbers::digit_count(s4) == 3);
    assert(crate::numbers::dot_count(s3) == 1);
    assert(crate::numbers::dot_count(s4) == 1);
    assert(crate::numbers::dot_count(s) == 1);
    assert(crate::numbers::digit_count(s) == 4);
    assert(mantissa_value(s3) == digit(s[0]) * 10 + digit(s[1]));
    assert(mantissa_value(s4) == (digit(s[0]) * 10 + digit(s[1])) * 10 + digit(s[3]));
    assert(mantissa_value(s) == digit(s[0]) * 1000 + digit(s[1]) * 100 + digit(s[3]) * 10 + digit(
        s[4],
    ));
    assert(crate::numbers::fraction_len(s3) == 0);
    assert(crate::numbers::fraction_len(s4) == 1);
    assert(crate::numbers::fraction_len(s) == 2);
    assert forall|i: int| 0 <= i < s.len() implies is_mantissa_byte(#[trigger] s[i]) by {
        if i != 2 {
            assert(is_ascii_digit(s[i]));
        }
    }
    assert(crate::numbers::without_sign(s) == s);
    lemma_not_a_word(s);
    lemma_no_exponent_marker(s);
}

/* Coordinates and numeric fields */

/// A coordinate written as its degree digits (two for a latitude, three for
/// a longitude), two digits of minutes, a point, two decimals of minutes and
/// a hemisphere letter reads as those degrees and minutes, with the rest of
/// the input after the letter; it is negative exactly when the letter is
/// `S` (latitude) or `W` (longitude).
pub proof fn lemma_coordinate_reads_its_digits(input: Seq<u8>, coord: Coordinate)
    requires
        ({
            let n: int = match coord {
                Coordinate::Latitude => 2,
                Coordinate::Longitude => 3,
            };
            &&& input.len() >= n + 6
            &&& forall|i: int| 0 <= i < n + 5 && i != n + 2 ==> is_ascii_digit(#[trigger] input[i])
            &&& input[n + 2] == '.' as u8
        }),
    ensures
        ({
            let n: int = match coord {
                Coordinate::Latitude => 2,
                Coordinate::Longitude => 3,
            };
            let hemisphere: u8 = match coord {
                Coordinate::Latitude => 'S' as u8,
                Coordinate::Longitude => 'W' as u8,
            };
            spec_parse_coordinate(input, coord) == Ok::<(Seq<u8>, CoordinateValue), MessageErrorView>(
                (
                    input.skip(n + 6),
                    CoordinateValue {
                        degrees: FloatLiteral::Finite {
                            negative: false,
                            mantissa: digits_value(input.take(n), 10) as u64,
                            exponent: 0,
                        },
                        minutes: FloatLiteral::Finite {
                            negative: false,
                            mantissa: (digit(input[n]) * 1000 + digit(input[n + 1]) * 100 + digit(
                                input[n + 3],
                            ) * 10 + digit(input[n + 4])) as u64,
                            exponent: -2i64,
                        },
                        negative: input[n + 5] == hemisphere,
                    },
                ),
            )
        }),
{
    let n: int = match coord {
        Coordinate::Latitude => 2,
        Coordinate::Longitude => 3,
    };
    let d = input.take(n);
    assert forall|i: int| 1 <= i < d.len() implies is_ascii_digit(#[trigger] d[i]) by {
        assert(d[i] == input[i]);
        assert(is_ascii_digit(input[i]));
    }
    assert(d[0] == input[0]);
    assert(is_ascii_digit(input[0]));
    lemma_integer_literal(d);
    assert(unsigned_part(d) == d);
    let m = input.subrange(n, n + 5);
    assert(m[0] == input[n] && m[1] == input[n + 1] && m[2] == input[n + 2]);
    assert(m[3] == input[n + 3] && m[4] == input[n + 4]);
    assert(is_ascii_digit(input[n]) && is_ascii_digit(input[n + 1]));
    assert(is_ascii_digit(input[n + 3]) && is_ascii_digit(input[n + 4]));
    lemma_minutes_literal(m);
}

/// A ground track of a sign and digits in its three bytes reads as the
/// whole number they spell, with the rest of the input after them.
pub proof fn lemma_ground_track_reads_its_digits(input: Seq<u8>)
    requires
        input.len() >= 3,
        signed_digits(input.take(3)),
    ensures
        spec_parse_ground_track(input) == Ok::<(Seq<u8>, FloatLiteral), MessageErrorView>(
            (input.skip(3), integer_literal(input.take(3))),
        ),
{
    lemma_integer_literal(input.take(3));
}

/// A ground speed of a sign and digits in its three bytes reads as the
/// whole number they spell, with the rest of the input after them.
pub proof fn lemma_ground_speed_reads_its_digits(input: Seq<u8>)
    requires
        input.len() >= 3,
        signed_digits(input.take(3)),
    ensures
        spec_parse_ground_speed(input) == Ok::<(Seq<u8>, FloatLiteral), MessageErrorView>(
            (input.skip(3), integer_literal(input.take(3))),
        ),
{
    lemma_integer_literal(input.take(3));
}

/// An altitude of a sign and digits in its six bytes (such as `-00012`)
/// reads as the whole number they spell, negative after a `-`, with the
/// rest of the input after them.
pub proof fn lemma_gps_altitude_reads_its_digits(input: Seq<u8>)
    requires
        input.len() >= 6,
        signed_digits(input.take(6)),
    ensures
        spec_parse_gps_altitude(input) == Ok::<(Seq<u8>, FloatLiteral), MessageErrorView>(
            (input.skip(6), integer_literal(input.take(6))),
        ),
{
    lemma_integer_literal(input.take(6));
}


/* The header */

/// `f`, the byte `sep` and `rest`, where `f` holds no `sep`.
pub open spec fn field_then(f: Seq<u8>, sep: u8, rest: Seq<u8>) -> Seq<u8> {
    f + seq![sep] + rest
}

proof fn lemma_first_separator(f: Seq<u8>, sep: u8, rest: Seq<u8>)
    requires
        forall|i: int| 0 <= i < f.len() ==> #[trigger] f[i] != sep,
    ensures
        first_index_of(field_then(f, sep, rest), sep) == Some(f.len() as int),
        field_then(f, sep, rest).take(f.len() as int) == f,
        field_then(f, sep, rest).skip(f.len() as int + 1) == rest,
{
    let s = field_then(f, sep, rest);
    assert forall|j: int| 0 <= j < f.len() implies s[j] != sep by {
        assert(s[j] == f[j]);
    }
    assert(is_first_index_of(s, sep, f.len() as int));
    lemma_first_index_of(s, sep, f.len() as int);
    assert(s.take(f.len() as int) =~= f);
    assert(s.skip(f.len() as int + 1) =~= rest);
}

/// The callsign is the UTF-8 text before the first `>`: text without `>`,
/// then `>`, reads as that text, with the rest after the `>`.
pub proof fn lemma_callsign_is_text_before_first_gt(f: Seq<u8>, rest: Seq<u8>)
    requires
        vstd::utf8::valid_utf8(f),
        forall|i: int| 0 <= i < f.len() ==> #[trigger] f[i] != '>' as u8,
    ensures
        spec_parse_callsign(field_then(f, '>' as u8, rest)) == Ok::<(Seq<u8>, Seq<char>), MessageErrorView>(
            (rest, vstd::utf8::decode_utf8(f)),
        ),
{
    lemma_first_separator(f, '>' as u8, rest);
}

/// The q construct is the UTF-8 text before the first `,`.
pub proof fn lemma_q_construct_is_text_before_first_comma(f: Seq<u8>, rest: Seq<u8>)
    requires
        vstd::utf8::valid_utf8(f),
        forall|i: int| 0 <= i < f.len() ==> #[trigger] f[i] != ',' as u8,
    ensures
        spec_parse_q_construct(field_then(f, ',' as u8, rest)) == Ok::<(Seq<u8>, Seq<char>), MessageErrorView>(
            (rest, vstd::utf8::decode_utf8(f)),
        ),
{
    lemma_first_separator(f, ',' as u8, rest);
}

/// The receiver is the UTF-8 text before the first `:`.
pub proof fn lemma_receiver_is_text_before_first_colon(f: Seq<u8>, rest: Seq<u8>)
    requires
        vstd::utf8::valid_utf8(f),
        forall|i: int| 0 <= i < f.len() ==> #[trigger] f[i] != ':' as u8,
    ensures
        spec_parse_receiver(field_then(f, ':' as u8, rest)) == Ok::<(Seq<u8>, Seq<char>), MessageErrorView>(
            (rest, vstd::utf8::decode_utf8(f)),
        ),
{
    lemma_first_separator(f, ':' as u8, rest);
}

/// The protocol is named by the text before the first `,`: `OGADSB`,
/// `OGFLR` and `OGNSKY` read as their protocols, with the rest after the
/// `,`.
pub proof fn lemma_protocol_names(rest: Seq<u8>)
    ensures
        spec_parse_aprs_signal_type(
            field_then(seq!['O' as u8, 'G' as u8, 'A' as u8, 'D' as u8, 'S' as u8, 'B' as u8], ',' as u8, rest),
        ) == Ok::<(Seq<u8>, OgnAprsProtocol), MessageErrorView>((rest, OgnAprsProtocol::OGADSB)),
        spec_parse_aprs_signal_type(
            field_then(seq!['O' as u8, 'G' as u8, 'F' as u8, 'L' as u8, 'R' as u8], ',' as u8, rest),
        ) == Ok::<(Seq<u8>, OgnAprsProtocol), MessageErrorView>((rest, OgnAprsProtocol::OGFLR)),
        spec_parse_aprs_signal_type(
            field_then(seq!['O' as u8, 'G' as u8, 'N' as u8, 'S' as u8, 'K' as u8, 'Y' as u8], ',' as u8, rest),
        ) == Ok::<(Seq<u8>, OgnAprsProtocol), MessageErrorView>((rest, OgnAprsProtocol::OGNSKY)),
{
    let a = seq!['O' as u8, 'G' as u8, 'A' as u8, 'D' as u8, 'S' as u8, 'B' as u8];
    let b = seq!['O' as u8, 'G' as u8, 'F' as u8, 'L' as u8, 'R' as u8];
    let c = seq!['O' as u8, 'G' as u8, 'N' as u8, 'S' as u8, 'K' as u8, 'Y' as u8];
    lemma_first_separator(a, ',' as u8, rest);
    lemma_first_separator(b, ',' as u8, rest);
    lemma_first_separator(c, ',' as u8, rest);
    assert(is_ascii_bytes(a));
    assert(is_ascii_bytes(b));
    assert(is_ascii_bytes(c));
    lemma_ascii_decode(a);
    lemma_ascii_decode(b);
    lemma_ascii_decode(c);
    reveal_strlit("OGADSB");
    reveal_strlit("OGFLR");
    reveal_strlit("OGNSKY");
    assert(crate::text::ascii_chars(a) =~= "OGADSB"@);
    assert(crate::text::ascii_chars(b) =~= "OGFLR"@);
    assert(crate::text::ascii_chars(c) =~= "OGNSKY"@);
}

/* The beacon ID tokens */

/// Of the space-separated tokens after the altitude, a later token that
/// holds a beacon ID replaces what came before it, a token that does not
/// start with `id` changes nothing, and when no token is left the last ID
/// read is the result.
pub proof fn lemma_later_id_token_wins(
    token: Seq<u8>,
    rest: Seq<u8>,
    found: Option<BeaconIdView>,
)
    requires
        token.len() > 0,
        forall|i: int| 0 <= i < token.len() ==> #[trigger] token[i] != ' ' as u8,
    ensures
        spec_scan_ids(Seq::empty(), found) == Ok::<Option<BeaconIdView>, MessageErrorView>(found),
        crate::parse::spec_parse_ogn_beacon_id(token) matches Ok((_, id)) ==> spec_scan_ids(
            field_then(token, ' ' as u8, rest),
            found,
        ) == spec_scan_ids(rest, Some(id)),
        !crate::parse::starts_with_id(token) ==> spec_scan_ids(field_then(token, ' ' as u8, rest), found)
            == spec_scan_ids(rest, found),
{
    lemma_first_separator(token, ' ' as u8, rest);
    let s = field_then(token, ' ' as u8, rest);
    assert(crate::parse::token_end(s) == token.len());
    assert(crate::parse::after_token(s) == rest);
}

/* The whole beacon */

/// Reading `input` field by field, each from where the last one ended,
/// gives the fields of `b`: callsign, protocol, q construct, receiver, a
/// separator byte, time, latitude, a separator, longitude, a separator,
/// ground track, a separator, ground speed, everything up to `A=`, altitude,
/// and the beacon ID of the tokens after it.
pub open spec fn beacon_made_of_fields(input: Seq<u8>, b: AircraftBeaconView) -> bool {
    match spec_parse_callsign(input) {
        Err(_) => false,
        Ok((r1, callsign)) => callsign == b.callsign && match spec_parse_aprs_signal_type(r1) {
            Err(_) => false,
            Ok((r2, protocol)) => protocol == b.ogn_aprs_protocol && match spec_parse_q_construct(r2) {
                Err(_) => false,
                Ok((r3, q)) => q == b.q_construct && match spec_parse_receiver(r3) {
                    Err(_) => false,
                    Ok((r4, receiver)) => receiver == b.receiver && match spec_skip_one(r4) {
                        Err(_) => false,
                        Ok(r5) => match spec_parse_naive_time(r5) {
                            Err(_) => false,
                            Ok((r6, time)) => time == b.time && match spec_parse_coordinate(
                                r6,
                                Coordinate::Latitude,
                            ) {
                                Err(_) => false,
                                Ok((r7, lat)) => lat == b.latitude && match spec_skip_one(r7) {
                                    Err(_) => false,
                                    Ok(r8) => match spec_parse_coordinate(r8, Coordinate::Longitude) {
                                        Err(_) => false,
                                        Ok((r9, lon)) => lon == b.longitude && match spec_skip_one(r9) {
                                            Err(_) => false,
                                            Ok(r10) => match spec_parse_ground_track(r10) {
                                                Err(_) => false,
                                                Ok((r11, track)) => track == b.ground_track && match spec_skip_one(r11) {
                                                    Err(_) => false,
                                                    Ok(r12) => match spec_parse_ground_speed(r12) {
                                                        Err(_) => false,
                                                        Ok((r13, speed)) => speed == b.ground_speed && match spec_skip_to_altitude(r13) {
                                                            Err(_) => false,
                                                            Ok(r14) => match spec_parse_gps_altitude(r14) {
                                                                Err(_) => false,
                                                                Ok((r15, alt)) => alt == b.gps_altitude
                                                                    && spec_scan_ids(r15, None) == Ok::<
                                                                    Option<crate::aprs_types::BeaconIdView>,
                                                                    MessageErrorView,
                                                                >(Some(b.ogn_beacon_id)),
                                                            },
                                                        },
                                                    },
                                                },
                                            },
                                        },
                                    },
                                },
                            },
                        },
                    },
                },
            },
        },
    }
}

/// A message reads as the beacon `b` exactly when its fields, read one
/// after another, are those of `b`.
#[verifier::rlimit(30)]
pub proof fn lemma_beacon_is_its_fields(input: Seq<u8>, b: AircraftBeaconView)
    ensures
        spec_parse_beacon(input) == Ok::<AircraftBeaconView, crate::errors::AircraftErrorView>(b)
            <==> beacon_made_of_fields(input, b),
{
}

/// The time of a beacon is the time that its timestamp field spells: where
/// the six bytes after the header's `:` and the separator byte are digits
/// `hhmmss`, the beacon's time is `hh:mm:ss`, whatever byte follows them.
pub proof fn lemma_beacon_time_is_its_timestamp(input: Seq<u8>)
    ensures
        spec_parse_beacon(input) matches Ok(b) ==> spec_parse_header(input) matches Ok((r1, _)) && {
            &&& r1.len() >= 8
            &&& (forall|i: int| 1 <= i < 7 ==> is_ascii_digit(#[trigger] r1[i])) ==> b.time
                == TimeOfDay {
                hour: (digit(r1[1]) * 10 + digit(r1[2])) as u32,
                minute: (digit(r1[3]) * 10 + digit(r1[4])) as u32,
                second: (digit(r1[5]) * 10 + digit(r1[6])) as u32,
            }
        },
{
    if let Ok(b) = spec_parse_beacon(input) {
        lemma_beacon_is_its_fields(input, b);
        if let Ok((r1, _)) = spec_parse_header(input) {
            let t = r1.skip(1);
            if forall|i: int| 1 <= i < 7 ==> is_ascii_digit(#[trigger] r1[i]) {
                assert forall|i: int| 0 <= i < 6 implies is_ascii_digit(#[trigger] t[i]) by {
                    assert(t[i] == r1[i + 1]);
                    assert(is_ascii_digit(r1[i + 1]));
                }
                lemma_timestamp_reads_its_digits(t);
            }
        }
    }
}

} // verus!
