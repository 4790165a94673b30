use chrono::Timelike;
use ogn_aprs_parser::errors::APRSMessageParseError;
use ogn_aprs_parser::numbers::FloatLiteral;
use ogn_aprs_parser::parse::{
    parse_aprs_signal_type, parse_callsign, parse_coordinate, parse_gps_altitude,
    parse_ground_speed, parse_ground_track, parse_naive_time, parse_ogn_beacon_id,
    parse_q_construct, parse_receiver, Coordinate, CoordinateValue,
};
use ogn_aprs_parser::OGNBeaconID;

/// The `f64` that `f64::from_str` makes of the text of the literal.
fn literal_to_f64(f: FloatLiteral) -> f64 {
    match f {
        FloatLiteral::Finite { negative, mantissa, exponent } => {
            let v: f64 = format!("{}e{}", mantissa, exponent).parse().unwrap();
            if negative {
                -v
            } else {
                v
            }
        }
        FloatLiteral::Infinity { negative } => {
            if negative {
                f64::NEG_INFINITY
            } else {
                f64::INFINITY
            }
        }
        FloatLiteral::NaN { .. } => f64::NAN,
    }
}

/// The coordinate in degrees: `degrees + minutes / 60`, negated for S and W.
fn coordinate_to_f64(c: CoordinateValue) -> f64 {
    let value = literal_to_f64(c.degrees) + literal_to_f64(c.minutes) / 60.0;
    if c.negative {
        -value
    } else {
        value
    }
}

/// Relative equality with the machine epsilon as both tolerances.
fn relative_eq(a: f64, b: f64) -> bool {
    if a == b {
        return true;
    }
    let diff = (a - b).abs();
    if diff <= f64::EPSILON {
        return true;
    }
    let largest = a.abs().max(b.abs());
    diff <= largest * f64::EPSILON
}

#[test]
fn when_packet_contains_valid_callsign_identifier_is_correct_then_parsed_callsign_is_correct() {
    let input = b"ICA4B37A8>".as_slice();
    let expected_callsign = "ICA4B37A8";
    match parse_callsign(input) {
        Ok((_, callsign)) => assert_eq!(callsign, expected_callsign),
        Err(err) => panic!("Expected no errors. {}", err.to_string()),
    }
}

#[test]
fn when_packet_contains_invalid_callsign_identifier_then_correct_error_is_returned() {
    let input = b"HEADER:/2a0600h".as_slice();

    match parse_callsign(input) {
        Ok(_) => panic!("Expected an error, but got an Aircraft"),

        Err(APRSMessageParseError::InvalidCallsign(info)) => {
            assert_eq!(info.input, "HEADER:/2a0600h");
            assert_eq!(info.message, "invalid callsign");
        }

        Err(other) => panic!("Expected InvalidCallsign, got: {}", other.to_string()),
    }
}

#[test]
fn when_packet_contains_valid_q_construct_identifier_is_correct_then_parsed_q_construct_is_correct()
{
    let input = b"qAS,".as_slice();
    let expected_q_construct = "qAS";
    match parse_q_construct(input) {
        Ok((_, callsign)) => assert_eq!(callsign, expected_q_construct),
        Err(err) => panic!("Expected no errors. {}", err.to_string()),
    }
}

#[test]
fn when_packet_contains_invalid_q_construct_identifier_then_correct_error_is_returned() {
    let input = b"qAS.".as_slice();

    match parse_q_construct(input) {
        Ok(_) => panic!("Expected an error, but got an Aircraft"),

        Err(APRSMessageParseError::InvalidQConstruct(info)) => {
            assert_eq!(info.input, "qAS.");
            assert_eq!(info.message, "invalid q construct");
        }

        Err(other) => panic!("Expected InvalidQConstruct, got: {}", other.to_string()),
    }
}

#[test]
fn when_packet_contains_valid_receiver_identifier_is_correct_then_parsed_receiver_is_correct() {
    let input = b"ABC:".as_slice();
    let expected_callsign = "ABC";
    match parse_receiver(input) {
        Ok((_, callsign)) => assert_eq!(callsign, expected_callsign),
        Err(err) => panic!("Expected no errors. {}", err.to_string()),
    }
}

#[test]
fn when_packet_contains_invalid_receiver_identifier_then_correct_error_is_returned() {
    let input = b"ABC.".as_slice();

    match parse_receiver(input) {
        Ok(_) => panic!("Expected an error, but got an Aircraft"),

        Err(APRSMessageParseError::InvalidReceiver(info)) => {
            assert_eq!(info.input, "ABC.");
            assert_eq!(info.message, "invalid receiver");
        }

        Err(other) => panic!("Expected InvalidReceiver, got: {}", other.to_string()),
    }
}

#[test]
fn when_packet_contains_ognadsb_signal_type_then_message_continue_parsing() {
    let input = b"OGADSB,".as_slice();
    match parse_aprs_signal_type(input) {
        Ok(_) => {}
        Err(err) => panic!("Expected no errors. {}", err.to_string()),
    }
}

#[test]
fn when_valid_timestamp_digits_parsed_then_correct_datetime_is_returned() {
    let input = b"190600h".as_slice();
    let expected_time = chrono::NaiveTime::from_hms_opt(19, 0o6, 00).unwrap();

    match parse_naive_time(input) {
        Ok((_, datetime)) => assert_eq!(
            (datetime.hour, datetime.minute, datetime.second),
            (expected_time.hour(), expected_time.minute(), expected_time.second())
        ),
        Err(err) => panic!("Expected no errors, received:  {}", err.to_string()),
    }
}

#[test]
fn when_invalid_timestamp_digits_parsed_then_error_shows_correct_digit_error() {
    let input = b"2a0600h".as_slice();

    match parse_naive_time(input) {
        Ok(_) => panic!("Expected an error, but got an Aircraft"),

        Err(APRSMessageParseError::InvalidTimestamp(info)) => {
            assert_eq!(info.input, "2a0600h");
            assert_eq!(info.message, "invalid hour digits");
        }

        Err(other) => panic!("Expected InvalidTimestamp, got: {}", other.to_string()),
    }
}

#[test]
fn when_invalid_timestamp_parsed_then_error_shows_correct_time_conversion_error() {
    let input = b"260600h".as_slice();

    match parse_naive_time(input) {
        Ok(_) => panic!("Expected an error, but got an Aircraft"),

        Err(APRSMessageParseError::InvalidTimestamp(info)) => {
            assert_eq!(info.input, "260600h");
            assert_eq!(info.message, "invalid time");
        }

        Err(other) => panic!("Expected InvalidTimestamp, got: {}", other.to_string()),
    }
}

#[test]
fn when_valid_latitude_north_coordinates_then_correct_latitude_is_returned() {
    let input = b"4121.18N".as_slice();
    let expected_latitude = 41.353;
    match parse_coordinate(input, Coordinate::Latitude) {
        Ok((_, latitude)) => assert!(relative_eq(coordinate_to_f64(latitude), expected_latitude)),
        Err(e) => panic!("Expected no errors. {}", e.to_string()),
    }
}

#[test]
fn when_valid_latitude_south_coordinates_then_correct_latitude_is_returned() {
    let input = b"4121.18S".as_slice();
    let expected_latitude = -41.353;
    match parse_coordinate(input, Coordinate::Latitude) {
        Ok((_, latitude)) => assert!(relative_eq(coordinate_to_f64(latitude), expected_latitude)),
        Err(e) => panic!("Expected no errors. {}", e.to_string()),
    }
}

#[test]
fn when_invalid_latitude_coordinates_then_correct_error_returned() {
    let input = b"4121.18".as_slice();

    match parse_coordinate(input, Coordinate::Latitude) {
        Ok(_) => panic!("Expected an error, but got an Aircraft"),

        Err(APRSMessageParseError::InvalidLatitude(info)) => {
            assert_eq!(info.input, "4121.18");
            assert_eq!(info.message, "no suffix for coordinate found");
        }

        Err(other) => panic!("Expected InvalidLatitude, got: {}", other.to_string()),
    }
}

#[test]
fn when_valid_longitude_east_coordinates_then_correct_longitude_is_returned() {
    let input = b"12219.21E".as_slice();
    let expected_longitude = 122.320_166_666_666_67;
    match parse_coordinate(input, Coordinate::Longitude) {
        Ok((_, longitude)) => {
            assert!(relative_eq(coordinate_to_f64(longitude), expected_longitude))
        }
        Err(e) => panic!("Expected no errors. {}", e.to_string()),
    }
}

#[test]
fn when_valid_longitude_west_coordinates_then_correct_longitude_is_returned() {
    let input = b"12219.21W".as_slice();
    let expected_longitude = -122.320_166_666_666_67;
    match parse_coordinate(input, Coordinate::Longitude) {
        Ok((_, longitude)) => {
            assert!(relative_eq(coordinate_to_f64(longitude), expected_longitude))
        }
        Err(e) => panic!("Expected no errors. {}", e.to_string()),
    }
}

#[test]
fn when_invalid_longitude_coordinates_then_correct_error_returned() {
    let input = b"00219.21".as_slice();

    match parse_coordinate(input, Coordinate::Longitude) {
        Ok(_) => panic!("Expected an error, but got an Aircraft"),

        Err(APRSMessageParseError::InvalidLongitude(info)) => {
            assert_eq!(info.input, "00219.21");
            assert_eq!(info.message, "no suffix for coordinate found");
        }

        Err(other) => panic!("Expected InvalidLongitude, got: {}", other.to_string()),
    }
}

#[test]
fn when_correct_ground_track_is_given_then_correct_value_is_returned() {
    let input = b"123".as_slice();
    let expected_ground_track = 123.0;
    match parse_ground_track(input) {
        Ok((_, ground_track)) => {
            assert!(relative_eq(literal_to_f64(ground_track), expected_ground_track))
        }
        Err(err) => panic!("Expected no errors. {}", err.to_string()),
    }
}

#[test]
fn when_invalid_ground_track_parsed_then_correct_error_is_returned() {
    let input = b"12a".as_slice();

    match parse_ground_track(input) {
        Ok(_) => panic!("Expected an error, but got an Aircraft"),

        Err(APRSMessageParseError::InvalidGroundTrack(info)) => {
            assert_eq!(info.input, "12a");
            assert_eq!(info.message, "invalid ground track");
        }

        Err(other) => panic!("Expected InvalidGroundTrack, got: {}", other.to_string()),
    }
}

#[test]
fn when_correct_ground_speed_is_given_then_correct_value_is_returned() {
    let input = b"123".as_slice();
    let expected_ground_track = 123.0;
    match parse_ground_speed(input) {
        Ok((_, ground_track)) => {
            assert!(relative_eq(literal_to_f64(ground_track), expected_ground_track));
        }
        Err(err) => panic!("Expected no errors. {}", err.to_string()),
    }
}

#[test]
fn when_invalid_ground_speed_parsed_then_correct_error_is_returned() {
    let input = b"12a".as_slice();

    match parse_ground_speed(input) {
        Ok(_) => panic!("Expected an error, but got an Aircraft"),

        Err(APRSMessageParseError::InvalidGroundSpeed(info)) => {
            assert_eq!(info.input, "12a");
            assert_eq!(info.message, "invalid ground speed");
        }

        Err(other) => panic!("Expected InvalidGroundSpeed, got: {}", other.to_string()),
    }
}

#[test]
fn when_correct_gps_altitude_is_given_then_correct_value_is_returned() {
    let input = b"002341".as_slice();
    let expected_gps_altitude = 2341.0;
    match parse_gps_altitude(input) {
        Ok((_, gps_altitude)) => {
            assert!(relative_eq(literal_to_f64(gps_altitude), expected_gps_altitude))
        }
        Err(err) => panic!("Expected no errors. {}", err.to_string()),
    }
}

#[test]
fn when_invalid_gps_alitude_parsed_then_correct_error_is_returned() {
    let input = b"12a".as_slice();

    match parse_gps_altitude(input) {
        Ok(_) => panic!("Expected an error, but got an Aircraft"),

        Err(APRSMessageParseError::InvalidGPSAltitude(info)) => {
            assert_eq!(info.input, "12a");
            assert_eq!(info.message, "invalid gps altitude");
        }

        Err(other) => panic!("Expected InvalidGPSAltitude, got: {}", other.to_string()),
    }
}

#[test]
fn when_when_valid_ogn_beacon_id_is_given_then_correct_ogn_beacon_id_returned() {
    let input = b"id253007EE".as_slice();
    let expected_ogn_beacon_id = OGNBeaconID::from_str("253007EE").unwrap();
    match parse_ogn_beacon_id(input) {
        Ok((_, ogn_beacon_id)) => assert_eq!(ogn_beacon_id, expected_ogn_beacon_id),
        Err(err) => panic!("Expected no errors. {}", err.to_string()),
    }
}

#[test]
fn when_when_invalid_ogn_beacon_id_from_hex_length_is_given_then_correct_error_is_returned() {
    let input = b"id123".as_slice();

    match parse_ogn_beacon_id(input) {
        Ok(_) => panic!("Expected an error"),

        Err(APRSMessageParseError::InvalidOGNBeaconId(info)) => {
            assert_eq!(info.input, "id123");
            assert_eq!(info.message, "invalid ogn beacon id format");
        }

        Err(other) => panic!("Expected InvalidGPSAltitude, got: {}", other.to_string()),
    }
}

#[test]
fn when_when_invalid_ogn_beacon_id_hex_format_is_given_then_correct_error_is_returned() {
    let input = b"id253007EG".as_slice();

    match parse_ogn_beacon_id(input) {
        Ok(_) => panic!("Expected an error"),

        Err(APRSMessageParseError::InvalidOGNBeaconId(info)) => {
            assert_eq!(info.input, "253007EG");
            assert_eq!(
                info.message,
                "invalid ogn beacon id: Invalid hexadecimal format"
            );
        }

        Err(other) => panic!("Expected InvalidGPSAltitude, got: {}", other.to_string()),
    }
}
