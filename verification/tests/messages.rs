use ogn_aprs_parser::errors::{
    AircraftParseError, APRSMessageParseError, ICAOAddressError, OGNAircraftTypeError,
    OGNAddressTypeError, OGNBeaconIDError, OGNIDPrefixError,
};
use ogn_aprs_parser::numbers::{parse_float_literal, parse_unsigned, FloatLiteral};
use ogn_aprs_parser::parse::{
    parse_aprs_signal_type, parse_callsign, parse_coordinate, parse_naive_time, skip_separator,
    skip_to_altitude, Coordinate, CoordinateValue, TimeOfDay,
};
use ogn_aprs_parser::text::lossy_string;
use ogn_aprs_parser::{
    parse_ogn_aprs_aircraft_beacon, ICAOAddress, OGNAddressType, OGNAircraftType, OGNBeaconID,
    OGNIDPrefix, OgnAprsProtocol,
};

fn literal_to_f64(f: FloatLiteral) -> f64 {
    match f {
        FloatLiteral::Finite { negative, mantissa, exponent } => {
            let v: f64 = format!("{}e{}", mantissa, exponent).parse().unwrap();
            if negative {
                -v
            } else {
                v
            }
        }
        FloatLiteral::Infinity { negative } => {
            if negative {
                f64::NEG_INFINITY
            } else {
                f64::INFINITY
            }
        }
        FloatLiteral::NaN { .. } => f64::NAN,
    }
}

fn coordinate_to_f64(c: CoordinateValue) -> f64 {
    let value = literal_to_f64(c.degrees) + literal_to_f64(c.minutes) / 60.0;
    if c.negative {
        -value
    } else {
        value
    }
}

fn finite(mantissa: u64, exponent: i64) -> FloatLiteral {
    FloatLiteral::Finite { negative: false, mantissa, exponent }
}

#[test]
fn readme_message_is_parsed() {
    let raw = b"ICA4400DC>OGADSB,qAS,HLST:/190606h5158.29N/01013.06E^066/488/A=034218 !W10! id254400DC -832fpm FL353.00 A3:EJU47ML";
    let beacon = parse_ogn_aprs_aircraft_beacon(raw).unwrap();
    assert_eq!(beacon.callsign, "ICA4400DC");
    assert_eq!(beacon.q_construct, "qAS");
    assert_eq!(beacon.receiver, "HLST");
    assert_eq!(beacon.ogn_aprs_protocol, OgnAprsProtocol::OGADSB);
    assert_eq!(beacon.time, TimeOfDay { hour: 19, minute: 6, second: 6 });
    assert_eq!(coordinate_to_f64(beacon.latitude), 51.9715);
    assert_eq!(coordinate_to_f64(beacon.longitude), 10.217_666_666_666_666);
    assert_eq!(literal_to_f64(beacon.ground_track), 66.0);
    assert_eq!(literal_to_f64(beacon.ground_speed), 488.0);
    assert_eq!(literal_to_f64(beacon.gps_altitude), 34218.0);
    assert_eq!(beacon.ground_track, finite(66, 0));
    assert_eq!(beacon.gps_altitude, finite(34218, 0));
    assert_eq!(beacon.ogn_beacon_id, OGNBeaconID::from_str("254400DC").unwrap());
    let prefix = beacon.ogn_beacon_id.prefix;
    assert_eq!(prefix.aircraft_type, OGNAircraftType::JetTurbopropAircraft);
    assert_eq!(prefix.address_type, OGNAddressType::ICAO);
    assert!(!prefix.stealth_mode);
    assert!(!prefix.no_track);
    assert_eq!(beacon.ogn_beacon_id.icao_address.value(), 0x4400DC);
}

#[test]
fn second_adsb_message_is_parsed() {
    let raw = b"ICA4B027D>OGADSB,qAS,AVX1224:/190606h4651.87N/00118.95W^356/328/A=012618 !W37! id254B027D -1792fpm FL131.75 A3:EZS14TJ";
    let beacon = parse_ogn_aprs_aircraft_beacon(raw).unwrap();
    assert_eq!(beacon.callsign, "ICA4B027D");
    assert_eq!(beacon.receiver, "AVX1224");
    assert_eq!(beacon.time, TimeOfDay { hour: 19, minute: 6, second: 6 });
    assert_eq!(coordinate_to_f64(beacon.latitude), 46.8645);
    assert_eq!(coordinate_to_f64(beacon.longitude), -1.315_833_333_333_333_4);
    assert_eq!(literal_to_f64(beacon.ground_track), 356.0);
    assert_eq!(literal_to_f64(beacon.ground_speed), 328.0);
    assert_eq!(literal_to_f64(beacon.gps_altitude), 12618.0);
    assert_eq!(beacon.ogn_beacon_id, OGNBeaconID::from_str("254B027D").unwrap());
}

#[test]
fn messages_of_every_protocol_are_parsed() {
    let cases: [&[u8]; 5] = [
        br"ICA4CA1FF>OGADSB,qAS,LEMDadsb:/140833h4044.38N\00356.29W^024/426/A=040000 id254CA1FF +000fpm  fnRYR6ZM",
        br"ICA4CA4EB>OGADSB,qAS,LEMDadsb:/142346h4034.03N\00315.64W^008/370/A=038000 id254CA4EB +000fpm  0.0rot fnRYR4057  regEI-DPG modelB738",
        br"ICAA8CBA8>OGFLR,qAS,MontCAIO:/231150z4512.12N\01059.03E^192/106/A=009519 !W20! id21A8CBA8 -039fpm +0.0rot 3.5dB 2e -8.7kHz gps1x2 s6.09 h43 rDF0267",
        br"FLR200295>OGFLR,qAS,TT:/071005h4613.92N/01427.53Eg000/000/A=001313 !W00! id1E200295 +000fpm +0.0rot 37.0dB -1.8kHz gps3x5",
        br"SKY3E5906>OGNSKY,qAS,SafeSky:/072449h5103.95N/00524.50E'193/034/A=001250 !W65! id1C3E5906 +000fpm gps4x1",
    ];
    let protocols = [
        OgnAprsProtocol::OGADSB,
        OgnAprsProtocol::OGADSB,
        OgnAprsProtocol::OGFLR,
        OgnAprsProtocol::OGFLR,
        OgnAprsProtocol::OGNSKY,
    ];
    for (raw, protocol) in cases.iter().zip(protocols.iter()) {
        let beacon = parse_ogn_aprs_aircraft_beacon(raw).unwrap();
        assert_eq!(beacon.ogn_aprs_protocol, *protocol);
    }
}

#[test]
fn the_last_id_token_gives_the_beacon_id() {
    let raw = b"X>OGFLR,qAS,R:/120000h4000.00N/00100.00E^000/000/A=000100 id1E200295 x id05ABCDEF";
    let beacon = parse_ogn_aprs_aircraft_beacon(raw).unwrap();
    assert_eq!(beacon.ogn_beacon_id, OGNBeaconID::from_str("05ABCDEF").unwrap());
    assert_eq!(beacon.ogn_beacon_id.prefix.aircraft_type, OGNAircraftType::Glider);
    assert_eq!(beacon.ogn_beacon_id.prefix.address_type, OGNAddressType::ICAO);
}

#[test]
fn a_message_without_id_token_is_missing_its_beacon_id() {
    let raw = b"X>OGFLR,qAS,R:/120000h4000.00N/00100.00E^000/000/A=000100 !W00! +000fpm";
    match parse_ogn_aprs_aircraft_beacon(raw) {
        Err(AircraftParseError::MissingOgnBeaconID) => {}
        other => panic!("expected MissingOgnBeaconID, got {:?}", other),
    }
    let e = AircraftParseError::MissingOgnBeaconID;
    assert_eq!(e.to_string(), "Missing OGN Beacon ID in APRS message");
}

#[test]
fn a_bad_id_token_fails_the_message() {
    let raw = b"X>OGFLR,qAS,R:/120000h4000.00N/00100.00E^000/000/A=000100 id1E200295 idZZ";
    match parse_ogn_aprs_aircraft_beacon(raw) {
        Err(AircraftParseError::ParseError(APRSMessageParseError::InvalidOGNBeaconId(c))) => {
            assert_eq!(c.input, "idZZ");
            assert_eq!(c.message, "invalid ogn beacon id format");
        }
        other => panic!("expected InvalidOGNBeaconId, got {:?}", other),
    }
}

#[test]
fn a_message_cut_before_the_altitude_ends_unexpectedly() {
    let raw = b"X>OGFLR,qAS,R:/120000h4000.00N/00100.00E^000/000/no altitude";
    match parse_ogn_aprs_aircraft_beacon(raw) {
        Err(AircraftParseError::ParseError(APRSMessageParseError::UnexpectedEndOfMessage(c))) => {
            assert_eq!(c.input, "/no altitude");
            assert_eq!(c.message, "nom error: TakeUntil");
        }
        other => panic!("expected UnexpectedEndOfMessage, got {:?}", other),
    }
}

#[test]
fn a_message_ending_after_the_header_ends_unexpectedly() {
    match parse_ogn_aprs_aircraft_beacon(b"X>OGFLR,qAS,R:") {
        Err(AircraftParseError::ParseError(APRSMessageParseError::UnexpectedEndOfMessage(c))) => {
            assert_eq!(c.input, "");
            assert_eq!(c.message, "nom error: Eof");
            assert_eq!(
                AircraftParseError::ParseError(APRSMessageParseError::UnexpectedEndOfMessage(c))
                    .to_string(),
                "Failed to parse: , message: nom error: Eof"
            );
        }
        other => panic!("expected UnexpectedEndOfMessage, got {:?}", other),
    }
    assert!(skip_separator(b"").is_err());
    assert_eq!(skip_separator(b"/x").unwrap(), b"x");
    assert_eq!(skip_to_altitude(b"xxA=12A=3").unwrap(), b"12A=3");
}

#[test]
fn an_unknown_protocol_is_rejected() {
    match parse_aprs_signal_type(b"OGXYZ,qAS") {
        Err(APRSMessageParseError::InvalidOGNAprsProtocol(c)) => {
            assert_eq!(c.input, "OGXYZ");
            assert_eq!(c.message, "Unsupported OGN APRS Protocol");
        }
        other => panic!("expected InvalidOGNAprsProtocol, got {:?}", other),
    }
    match parse_aprs_signal_type(b"OGFLR") {
        Err(APRSMessageParseError::UnknownError(s)) => assert_eq!(s, "OGFLR"),
        other => panic!("expected UnknownError, got {:?}", other),
    }
    assert!(OgnAprsProtocol::parse_protocol("ogflr").is_err());
    assert_eq!(OgnAprsProtocol::parse_protocol("OGNSKY").unwrap(), OgnAprsProtocol::OGNSKY);
}

#[test]
fn invalid_utf8_fields_are_rejected_with_lossy_input() {
    match parse_callsign(b"A\xFFB>rest") {
        Err(APRSMessageParseError::InvalidCallsign(c)) => {
            assert_eq!(c.input, "A\u{FFFD}B>rest");
        }
        other => panic!("expected InvalidCallsign, got {:?}", other),
    }
    assert_eq!(lossy_string(b"ok\xC3"), "ok\u{FFFD}");
    assert_eq!(lossy_string(b"caf\xC3\xA9"), "café");
    match parse_naive_time(b"12\xFF456h") {
        Err(APRSMessageParseError::InvalidTimestamp(c)) => assert_eq!(c.message, "invalid utf8"),
        other => panic!("expected InvalidTimestamp, got {:?}", other),
    }
}

#[test]
fn timestamps_are_checked_field_by_field() {
    let message = |input: &[u8]| match parse_naive_time(input) {
        Err(APRSMessageParseError::InvalidTimestamp(c)) => (c.input, c.message),
        other => panic!("expected InvalidTimestamp, got {:?}", other),
    };
    assert_eq!(message(b"12x400h").1, "invalid minute digits");
    assert_eq!(message(b"1234-0h").1, "invalid second digits");
    assert_eq!(message(b"236000h").1, "invalid time");
    assert_eq!(message(b"12345"), ("12345".to_string(), "nom error: Eof".to_string()));
    assert_eq!(message(b"123456"), ("".to_string(), "nom error: Eof".to_string()));
    let (rest, t) = parse_naive_time(b"+5+9+9zREST").unwrap();
    assert_eq!(t, TimeOfDay { hour: 5, minute: 9, second: 9 });
    assert_eq!(rest, b"REST");
    let (_, t) = parse_naive_time(b"235959h").unwrap();
    assert_eq!(t, TimeOfDay { hour: 23, minute: 59, second: 59 });
}

#[test]
fn coordinates_report_each_missing_part() {
    let message = |input: &[u8], coord| match parse_coordinate(input, coord) {
        Err(APRSMessageParseError::InvalidLatitude(c)) => c.message,
        Err(APRSMessageParseError::InvalidLongitude(c)) => c.message,
        other => panic!("expected a coordinate error, got {:?}", other),
    };
    assert_eq!(message(b"4", Coordinate::Latitude), "invalid number of digits for degrees");
    assert_eq!(message(b"4121", Coordinate::Latitude), "invalid number of digits for minutes");
    assert_eq!(message(b"x121.18N", Coordinate::Latitude), "could not parse degrees");
    assert_eq!(message(b"41x1.18N", Coordinate::Latitude), "could not parse minutes");
    assert_eq!(message(b"12", Coordinate::Longitude), "invalid number of digits for degrees");
    let (rest, c) = parse_coordinate(b"4121.18s/", Coordinate::Latitude).unwrap();
    assert!(!c.negative);
    assert_eq!(rest, b"/");
    assert_eq!(c.degrees, finite(41, 0));
    assert_eq!(c.minutes, finite(2118, -2));
}

#[test]
fn float_literals_follow_the_f64_grammar() {
    let cases: [(&[u8], Option<FloatLiteral>); 14] = [
        (b"488", Some(finite(488, 0))),
        (b"58.29", Some(finite(5829, -2))),
        (b"1e2", Some(finite(1, 2))),
        (b"1.5E-3", Some(finite(15, -4))),
        (b".5", Some(finite(5, -1))),
        (b"7.", Some(finite(7, 0))),
        (b"-0", Some(FloatLiteral::Finite { negative: true, mantissa: 0, exponent: 0 })),
        (b"+12", Some(finite(12, 0))),
        (b"inf", Some(FloatLiteral::Infinity { negative: false })),
        (b"-INFinity", Some(FloatLiteral::Infinity { negative: true })),
        (b"NaN", Some(FloatLiteral::NaN { negative: false })),
        (b"12a", None),
        (b".", None),
        (b"1e", None),
    ];
    for (text, expected) in cases.iter() {
        assert_eq!(parse_float_literal(text), *expected, "{:?}", text);
        let std_ok = std::str::from_utf8(text).unwrap().parse::<f64>().is_ok();
        assert_eq!(std_ok, expected.is_some(), "{:?}", text);
    }
    assert_eq!(parse_float_literal(b"1.2.3"), None);
    assert_eq!(parse_float_literal(b""), None);
}

#[test]
fn unsigned_texts_follow_from_str_radix() {
    assert_eq!(parse_unsigned(b"2A", 16), Some(42));
    assert_eq!(parse_unsigned(b"+f", 16), Some(15));
    assert_eq!(parse_unsigned(b"-1", 16), None);
    assert_eq!(parse_unsigned(b"+", 10), None);
    assert_eq!(parse_unsigned(b"", 10), None);
    assert_eq!(parse_unsigned(b"09", 10), Some(9));
    assert_eq!(parse_unsigned(b"FFFFFF", 16), Some(0xFF_FFFF));
    assert_eq!(parse_unsigned(b"FFFFFFFF", 16), Some(u32::MAX));
    assert_eq!(parse_unsigned(b"100000000", 16), None);
    assert_eq!(parse_unsigned(b"4294967296", 10), None);
    assert_eq!(parse_unsigned(b"z", 36), Some(35));
    for text in ["2A", "+f", "-1", "+", "", "FFFFFF", "g", "FFFFFFFF", "100000000", "+00000000001"] {
        let ours = parse_unsigned(text.as_bytes(), 16);
        assert_eq!(ours, u32::from_str_radix(text, 16).ok(), "{}", text);
    }
}

#[test]
fn icao_addresses_are_24_bit() {
    let a = ICAOAddress::new(0x00FF_FFFF).unwrap();
    assert_eq!(a.value(), 0x00FF_FFFF);
    assert_eq!(ICAOAddress::new(0).unwrap().value(), 0);
    match ICAOAddress::new(0x0100_0000) {
        Err(e) => {
            assert_eq!(e, ICAOAddressError::InvalidAddress(0x0100_0000));
            assert_eq!(
                e.to_string(),
                "Value 0x1000000 (16777216) exceeds 24-bit ICAO address limit (0xFFFFFF)"
            );
        }
        Ok(_) => panic!("expected an error"),
    }
    assert_eq!(ICAOAddress::new(0x4400DC).unwrap().to_string(), "004400DC");
    assert_eq!(ICAOAddressError::InvalidHexFormat.to_string(), "Invalid hexadecimal format");
}

#[test]
fn address_text_reads_back() {
    for v in [0u32, 1, 0xAB, 0x4400DC, 0x00FF_FFFF] {
        let a = ICAOAddress::new(v).unwrap();
        let text = a.to_string();
        assert_eq!(text.len(), 8);
        assert_eq!(u32::from_str_radix(&text, 16).unwrap(), v);
        assert_eq!(format!("{:08X}", v), text);
    }
}

#[test]
fn prefix_bits_decode_by_layout() {
    let p = OGNIDPrefix::new(0x25).unwrap();
    assert_eq!(p.aircraft_type, OGNAircraftType::JetTurbopropAircraft);
    assert_eq!(p.address_type, OGNAddressType::ICAO);
    assert!(!p.no_track && !p.stealth_mode);
    let p = OGNIDPrefix::new(0b1100_0110).unwrap();
    assert_eq!(p.aircraft_type, OGNAircraftType::Glider);
    assert_eq!(p.address_type, OGNAddressType::FLARM);
    assert!(p.no_track && p.stealth_mode);
    let p = OGNIDPrefix::new(0b0011_1011).unwrap();
    assert_eq!(p.aircraft_type, OGNAircraftType::Reserved);
    assert_eq!(p.address_type, OGNAddressType::OGNTracker);
    for v in 0..=255u8 {
        let p = OGNIDPrefix::new(v).unwrap();
        let t = (v >> 2) & 0xF;
        let byte = (p.stealth_mode as u32) * 128
            + (p.no_track as u32) * 64
            + (p.aircraft_type.code() as u32) * 4
            + p.address_type.code() as u32;
        if t != 14 {
            assert_eq!(byte, v as u32);
        }
    }
}

#[test]
fn prefixes_read_from_hex() {
    assert_eq!(OGNIDPrefix::from_hex_str("25").unwrap(), OGNIDPrefix::new(0x25).unwrap());
    assert_eq!(OGNIDPrefix::from_hex_str("0F").unwrap(), OGNIDPrefix::new(0x0F).unwrap());
    assert_eq!(OGNIDPrefix::from_hex_str("+F"), Err(OGNIDPrefixError::HexFormat));
    assert_eq!(OGNIDPrefix::from_hex_str(""), Err(OGNIDPrefixError::HexFormat));
    assert_eq!(OGNIDPrefix::from_hex_str("025"), Err(OGNIDPrefixError::HexFormat));
    assert_eq!(OGNIDPrefix::from_hex_str("2"), Err(OGNIDPrefixError::HexFormat));
    assert_eq!(OGNIDPrefix::from_hex_str("2G"), Err(OGNIDPrefixError::HexFormat));
    assert_eq!(OGNIDPrefix::from_hex_str("-1"), Err(OGNIDPrefixError::HexFormat));
    assert_eq!(OGNIDPrefixError::HexFormat.to_string(), "Invalid hexadecimal format");
}

#[test]
fn type_codes_decode_back() {
    for v in 0..=15u8 {
        let t = OGNAircraftType::from_u8(v).unwrap();
        if v != 14 {
            assert_eq!(t.code(), v);
        } else {
            assert_eq!(t, OGNAircraftType::Reserved);
        }
    }
    assert_eq!(OGNAircraftType::from_u8(16), Err(OGNAircraftTypeError::InvalidEnum(16)));
    assert_eq!(OGNAircraftTypeError::InvalidEnum(16).to_string(), "Invalid value: 16");
    for v in 0..=3u8 {
        assert_eq!(OGNAddressType::from_u8(v).unwrap().code(), v);
    }
    assert_eq!(OGNAddressType::from_u8(4), Err(OGNAddressTypeError::InvalidAddressType(4)));
    assert_eq!(
        OGNAddressTypeError::InvalidAddressType(4).to_string(),
        "Invalid address format: 4"
    );
    assert_eq!(OGNAircraftType::StaticObstacle.code(), 15);
}

#[test]
fn beacon_ids_read_from_text() {
    let id = OGNBeaconID::from_str("253007EE").unwrap();
    assert_eq!(id.icao_address.value(), 0x3007EE);
    assert_eq!(id, OGNBeaconID::new(OGNIDPrefix::new(0x25).unwrap(), id.icao_address));
    match OGNBeaconID::from_str("253007E") {
        Err(OGNBeaconIDError::InvalidOGNBeaconFormat(s)) => assert_eq!(s, "253007E"),
        other => panic!("expected InvalidOGNBeaconFormat, got {:?}", other),
    }
    match OGNBeaconID::from_str("2G3007EE") {
        Err(e) => assert_eq!(e.to_string(), "Invalid hexadecimal format"),
        Ok(_) => panic!("expected an error"),
    }
    let e = OGNBeaconID::from_str("").unwrap_err();
    assert_eq!(e.to_string(), "Invalid beacon format: ");
    assert!(matches!(
        OGNBeaconID::from_str("25+FFFFF"),
        Err(OGNBeaconIDError::ICAOAddressError(ICAOAddressError::InvalidHexFormat))
    ));
    assert!(matches!(
        OGNBeaconID::from_str("+5FFFFFF"),
        Err(OGNBeaconIDError::OGNIDPrefixError(OGNIDPrefixError::HexFormat))
    ));
    let parsed: OGNBeaconID = "253007EE".parse().unwrap();
    assert_eq!(parsed, OGNBeaconID::from_str("253007EE").unwrap());
    assert!("2530-7EE".parse::<OGNBeaconID>().is_err());
}

#[test]
fn characters_across_field_boundaries_are_digit_errors() {
    // "1\u{e9}" puts the two-byte \u{e9} across the end of the hours.
    let cut_hours = b"A>OGFLR,qAS,R:/1\xC3\xA9000h4121.18N/12219.21E'000/000/A=000000 id0ADD3B4B";
    match parse_ogn_aprs_aircraft_beacon(cut_hours) {
        Err(AircraftParseError::ParseError(APRSMessageParseError::InvalidTimestamp(c))) => {
            assert_eq!(c.message, "invalid hour digits");
            assert_eq!(c.input, "1\u{e9}000h4121.18N/12219.21E'000/000/A=000000 id0ADD3B4B");
        }
        other => panic!("expected InvalidTimestamp, got {:?}", other),
    }
    // "12\u{e9}" puts it across the end of the minutes' first byte.
    let cut_minutes = "X>OGFLR,qAS,R:/12\u{e9}00h4000.00N/00100.00E^000/000/A=000100 id05ABCDEF";
    match parse_ogn_aprs_aircraft_beacon(cut_minutes.as_bytes()) {
        Err(AircraftParseError::ParseError(APRSMessageParseError::InvalidTimestamp(c))) => {
            assert_eq!(c.message, "invalid minute digits");
        }
        other => panic!("expected InvalidTimestamp, got {:?}", other),
    }
    // "0\u{e9}" puts it across the end of the ID's prefix.
    let cut_id = "X>OGFLR,qAS,R:/120000h4000.00N/00100.00E^000/000/A=000100 id0\u{e9}ABCDE";
    match parse_ogn_aprs_aircraft_beacon(cut_id.as_bytes()) {
        Err(AircraftParseError::ParseError(APRSMessageParseError::InvalidOGNBeaconId(c))) => {
            assert_eq!(c.input, "0\u{e9}ABCDE");
            assert_eq!(c.message, "invalid ogn beacon id: Invalid hexadecimal format");
        }
        other => panic!("expected InvalidOGNBeaconId, got {:?}", other),
    }
    // A whole \u{e9} in the hours is a digit error too.
    let whole = "X>OGFLR,qAS,R:/\u{e9}45678h4000.00N/00100.00E^000/000/A=000100 id05ABCDEF";
    match parse_ogn_aprs_aircraft_beacon(whole.as_bytes()) {
        Err(AircraftParseError::ParseError(APRSMessageParseError::InvalidTimestamp(c))) => {
            assert_eq!(c.message, "invalid hour digits");
        }
        other => panic!("expected InvalidTimestamp, got {:?}", other),
    }
    // The same for the beacon ID text alone.
    assert!(matches!(
        OGNBeaconID::from_str("\u{20ac}12345"),
        Err(OGNBeaconIDError::OGNIDPrefixError(OGNIDPrefixError::HexFormat))
    ));
    match parse_naive_time("1\u{e9}000h".as_bytes()) {
        Err(APRSMessageParseError::InvalidTimestamp(c)) => assert_eq!(c.message, "invalid hour digits"),
        other => panic!("expected InvalidTimestamp, got {:?}", other),
    }
}

#[test]
fn hex_text_reads_the_same_in_either_case() {
    let lower = OGNIDPrefix::from_hex_str("c6").unwrap();
    assert_eq!(lower, OGNIDPrefix::from_hex_str("C6").unwrap());
    assert_eq!(lower.aircraft_type, OGNAircraftType::Glider);
    assert_eq!(lower.address_type, OGNAddressType::FLARM);
    assert!(lower.no_track);
    assert!(lower.stealth_mode);
    assert_eq!(OGNIDPrefix::from_hex_str("g6"), OGNIDPrefix::from_hex_str("G6"));
    assert_eq!(
        OGNBeaconID::from_str("25abcdef").unwrap(),
        OGNBeaconID::from_str("25ABCDEF").unwrap()
    );
    assert_eq!(OGNBeaconID::from_str("25ABCDEF").unwrap().icao_address.value(), 0xABCDEF);
}

#[test]
fn a_text_field_is_everything_before_its_separator() {
    let (rest, callsign) = parse_callsign(b"A>B>C").unwrap();
    assert_eq!(callsign, "A");
    assert_eq!(rest, b"B>C");
    let (rest, callsign) = parse_callsign(b">x").unwrap();
    assert_eq!(callsign, "");
    assert_eq!(rest, b"x");
}

#[test]
fn id_tokens_read_like_beacon_id_texts() {
    for text in ["253007EE", "00000000", "ffFFffFF", "0A0b0C0d"] {
        let token = format!("id{}", text);
        let (rest, id) = ogn_aprs_parser::parse::parse_ogn_beacon_id(token.as_bytes()).unwrap();
        assert!(rest.is_empty());
        assert_eq!(id, OGNBeaconID::from_str(text).unwrap());
    }
}

#[test]
fn id_tokens_with_a_sign_are_refused() {
    match ogn_aprs_parser::parse::parse_ogn_beacon_id(b"id25+3007E") {
        Err(APRSMessageParseError::InvalidOGNBeaconId(c)) => {
            assert_eq!(c.input, "25+3007E");
            assert_eq!(c.message, "invalid ogn beacon id: Invalid hexadecimal format");
        }
        other => panic!("expected InvalidOGNBeaconId, got {:?}", other),
    }
}

#[test]
fn protocols_parse_through_from_str() {
    let p: OgnAprsProtocol = "OGFLR".parse().unwrap();
    assert_eq!(p, OgnAprsProtocol::OGFLR);
    assert_eq!("OGNSKY".parse::<OgnAprsProtocol>().unwrap(), OgnAprsProtocol::OGNSKY);
    match "ogflr".parse::<OgnAprsProtocol>() {
        Err(APRSMessageParseError::InvalidOGNAprsProtocol(c)) => {
            assert_eq!(c.input, "ogflr");
            assert_eq!(c.message, "Unsupported OGN APRS Protocol");
        }
        other => panic!("expected InvalidOGNAprsProtocol, got {:?}", other),
    }
}

#[test]
fn coordinates_name_themselves() {
    assert_eq!(Coordinate::Latitude.to_string(), "latitude");
    assert_eq!(Coordinate::Longitude.to_string(), "longitude");
}
