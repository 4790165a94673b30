//! The parser of OGN APRS aircraft beacons: one function on bytes for each
//! field of a message, and one for the whole message.
//!
//! A message reads
//! `CALLSIGN>PROTOCOL,QCONSTRUCT,RECEIVER:` followed by one separator byte,
//! the time `hhmmss` and one byte, the latitude `ddmm.mmN` or `S`, one byte,
//! the longitude `dddmm.mmE` or `W`, one byte, the ground track (3 bytes),
//! one byte, the ground speed (3 bytes), anything up to `A=`, the altitude
//! (6 bytes), and space-separated tokens, of which those that start with
//! `id` carry the OGN beacon ID.
use vstd::prelude::*;
use vstd::string::StringExecFns;
use vstd::utf8::{decode_utf8, encode_utf8, valid_utf8};

use crate::aprs_types::{BeaconIdView, OGNBeaconID, OgnAprsProtocol};
use crate::bytes::{find_byte, find_pair, first_index_of, first_index_of_pair};
use crate::errors::{
    context, AircraftErrorView, AircraftParseError, APRSMessageParseError, APRSParseContext,
    MessageErrorView, ParseContextView,
};
use crate::numbers::{
    float_literal, parse_float_literal, parse_unsigned, unsigned_text_value, FloatLiteral,
};
use crate::text::{lossy_string, lossy_text, str_from_utf8, str_or_empty, utf8_or_empty};

verus! {

/* Values of the fields */

/// A time of day, as the timestamp of a beacon gives it (UTC).
#[derive(Debug, PartialEq, Eq, Clone, Copy, Structural)]
pub struct TimeOfDay {
    pub hour: u32,
    pub minute: u32,
    pub second: u32,
}

impl TimeOfDay {
    pub open spec fn is_valid(self) -> bool {
        self.hour < 24 && self.minute < 60 && self.second < 60
    }
}

/// `chrono::NaiveTime::from_hms_opt`, read back through `chrono::Timelike`.
/// chrono's source gives `None` exactly when the hour is 24 or more, or the
/// minute or the second 60 or more, and otherwise a time whose hour, minute
/// and second are the arguments; that is what the contract claims.
#[verifier::external_body]
fn naive_time_from_hms(hour: u32, minute: u32, second: u32) -> (r: Option<TimeOfDay>)
    ensures
        r is Some <==> (hour < 24 && minute < 60 && second < 60),
        r matches Some(t) ==> t == (TimeOfDay { hour, minute, second }),
{
    match chrono::NaiveTime::from_hms_opt(hour, minute, second) {
        Some(t) => Some(
            TimeOfDay {
                hour: chrono::Timelike::hour(&t),
                minute: chrono::Timelike::minute(&t),
                second: chrono::Timelike::second(&t),
            },
        ),
        None => None,
    }
}

/// Which of the two coordinates a field holds.
#[derive(Debug, PartialEq, Eq, Clone, Copy, Structural)]
pub enum Coordinate {
    Latitude,
    Longitude,
}

impl Coordinate {
    /// The name of the coordinate, as it displays.
    pub fn to_string(&self) -> (r: String)
        ensures
            r@ == match self {
                Coordinate::Latitude => "latitude"@,
                Coordinate::Longitude => "longitude"@,
            },
    {
        match self {
            Coordinate::Latitude => String::from_str("latitude"),
            Coordinate::Longitude => String::from_str("longitude"),
        }
    }
}

/// A coordinate as a message writes it: whole degrees, decimal minutes, and
/// whether the hemisphere is the southern (latitude) or western (longitude)
/// one. Its value in degrees is `degrees + minutes / 60`, negated when
/// `negative`.
#[derive(Debug, PartialEq, Eq, Clone, Copy, Structural)]
pub struct CoordinateValue {
    pub degrees: FloatLiteral,
    pub minutes: FloatLiteral,
    pub negative: bool,
}

/// A parsed aircraft beacon. The numbers are held exactly as the message
/// writes them.
#[derive(Debug, PartialEq, Eq, Clone)]
pub struct AircraftBeacon {
    pub callsign: String,
    pub q_construct: String,
    pub receiver: String,
    pub ogn_aprs_protocol: OgnAprsProtocol,
    pub time: TimeOfDay,
    pub latitude: CoordinateValue,
    pub longitude: CoordinateValue,
    pub ground_track: FloatLiteral,
    pub ground_speed: FloatLiteral,
    pub gps_altitude: FloatLiteral,
    pub ogn_beacon_id: OGNBeaconID,
}

/// The value of an [`AircraftBeacon`].
pub struct AircraftBeaconView {
    pub callsign: Seq<char>,
    pub q_construct: Seq<char>,
    pub receiver: Seq<char>,
    pub ogn_aprs_protocol: OgnAprsProtocol,
    pub time: TimeOfDay,
    pub latitude: CoordinateValue,
    pub longitude: CoordinateValue,
    pub ground_track: FloatLiteral,
    pub ground_speed: FloatLiteral,
    pub gps_altitude: FloatLiteral,
    pub ogn_beacon_id: BeaconIdView,
}

impl View for AircraftBeacon {
    type V = AircraftBeaconView;

    open spec fn view(&self) -> AircraftBeaconView {
        AircraftBeaconView {
            callsign: self.callsign@,
            q_construct: self.q_construct@,
            receiver: self.receiver@,
            ogn_aprs_protocol: self.ogn_aprs_protocol,
            time: self.time,
            latitude: self.latitude,
            longitude: self.longitude,
            ground_track: self.ground_track,
            ground_speed: self.ground_speed,
            gps_altitude: self.gps_altitude,
            ogn_beacon_id: self.ogn_beacon_id@,
        }
    }
}

/* How an executable parser's result stands to its specification */

/// `r` is the text field and rest that `s` describes, or its error.
pub open spec fn text_outcome(
    r: Result<(&[u8], &str), APRSMessageParseError>,
    s: Result<(Seq<u8>, Seq<char>), MessageErrorView>,
) -> bool {
    match s {
        Ok((rest, t)) => r matches Ok((a, b)) && a@ == rest && b@ == t,
        Err(e) => r matches Err(x) && x@ == e,
    }
}

/// `r` is the value and rest that `s` describes, or its error.
pub open spec fn value_outcome<V>(
    r: Result<(&[u8], V), APRSMessageParseError>,
    s: Result<(Seq<u8>, V), MessageErrorView>,
) -> bool {
    match s {
        Ok((rest, v)) => r matches Ok((a, b)) && a@ == rest && b == v,
        Err(e) => r matches Err(x) && x@ == e,
    }
}

/* Header: CALLSIGN>PROTOCOL,QCONSTRUCT,RECEIVER: */

/// The text before the first `sep` (when it is valid UTF-8) and the input
/// after that `sep`.
pub open spec fn delimited_field(input: Seq<u8>, sep: u8) -> Option<(Seq<u8>, Seq<char>)> {
    match first_index_of(input, sep) {
        Some(p) => if valid_utf8(input.take(p)) {
            Some((input.skip(p + 1), decode_utf8(input.take(p))))
        } else {
            None
        },
        None => None,
    }
}

fn parse_delimited<'a>(input: &'a [u8], sep: u8) -> (r: Option<(&'a [u8], &'a str)>)
    ensures
        match delimited_field(input@, sep) {
            Some((rest, t)) => r matches Some((a, b)) && a@ == rest && b@ == t,
            None => r is None,
        },
{
    match find_byte(input, sep) {
        None => None,
        Some(p) => {
            let field = vstd::slice::slice_subrange(input, 0, p);
            assert(field@ == input@.take(p as int));
            let n = input.len();
            match str_from_utf8(field) {
                Some(t) => Some((vstd::slice::slice_subrange(input, p + 1, n), t)),
                None => None,
            }
        },
    }
}

fn context_of(input: &[u8], message: &str) -> (r: APRSParseContext)
    ensures
        r@ == context(lossy_text(input@), message@),
{
    APRSParseContext { input: lossy_string(input), message: String::from_str(message) }
}

pub open spec fn spec_parse_callsign(input: Seq<u8>) -> Result<(Seq<u8>, Seq<char>), MessageErrorView> {
    match delimited_field(input, '>' as u8) {
        Some(x) => Ok(x),
        None => Err(
            MessageErrorView::InvalidCallsign(context(lossy_text(input), "invalid callsign"@)),
        ),
    }
}

/// Reads the callsign: the UTF-8 text up to the first `>`.
pub fn parse_callsign(input: &[u8]) -> (r: Result<(&[u8], &str), APRSMessageParseError>)
    ensures
        text_outcome(r, spec_parse_callsign(input@)),
{
    match parse_delimited(input, '>' as u8) {
        Some(x) => Ok(x),
        None => Err(APRSMessageParseError::InvalidCallsign(context_of(input, "invalid callsign"))),
    }
}

pub open spec fn spec_parse_aprs_signal_type(input: Seq<u8>) -> Result<
    (Seq<u8>, OgnAprsProtocol),
    MessageErrorView,
> {
    match first_index_of(input, ',' as u8) {
        None => Err(MessageErrorView::UnknownError(lossy_text(input))),
        Some(p) => match OgnAprsProtocol::spec_from_name(utf8_or_empty(input.take(p))) {
            Some(protocol) => Ok((input.skip(p + 1), protocol)),
            None => Err(
                MessageErrorView::InvalidOGNAprsProtocol(
                    context(utf8_or_empty(input.take(p)), "Unsupported OGN APRS Protocol"@),
                ),
            ),
        },
    }
}

/// Reads the protocol: the name up to the first `,`.
pub fn parse_aprs_signal_type(input: &[u8]) -> (r: Result<
    (&[u8], OgnAprsProtocol),
    APRSMessageParseError,
>)
    ensures
        value_outcome(r, spec_parse_aprs_signal_type(input@)),
{
    match find_byte(input, ',' as u8) {
        None => Err(APRSMessageParseError::UnknownError(lossy_string(input))),
        Some(p) => {
            let field = vstd::slice::slice_subrange(input, 0, p);
            assert(field@ == input@.take(p as int));
            let name = str_or_empty(field);
            let n = input.len();
            match OgnAprsProtocol::parse_protocol(name) {
                Ok(protocol) => Ok((vstd::slice::slice_subrange(input, p + 1, n), protocol)),
                Err(e) => Err(e),
            }
        },
    }
}

pub open spec fn spec_parse_q_construct(input: Seq<u8>) -> Result<(Seq<u8>, Seq<char>), MessageErrorView> {
    match delimited_field(input, ',' as u8) {
        Some(x) => Ok(x),
        None => Err(
            MessageErrorView::InvalidQConstruct(context(lossy_text(input), "invalid q construct"@)),
        ),
    }
}

/// Reads the q construct: the UTF-8 text up to the first `,`.
pub fn parse_q_construct(input: &[u8]) -> (r: Result<(&[u8], &str), APRSMessageParseError>)
    ensures
        text_outcome(r, spec_parse_q_construct(input@)),
{
    match parse_delimited(input, ',' as u8) {
        Some(x) => Ok(x),
        None => Err(
            APRSMessageParseError::InvalidQConstruct(context_of(input, "invalid q construct")),
        ),
    }
}

pub open spec fn spec_parse_receiver(input: Seq<u8>) -> Result<(Seq<u8>, Seq<char>), MessageErrorView> {
    match delimited_field(input, ':' as u8) {
        Some(x) => Ok(x),
        None => Err(
            MessageErrorView::InvalidReceiver(context(lossy_text(input), "invalid receiver"@)),
        ),
    }
}

/// Reads the receiver: the UTF-8 text up to the first `:`.
pub fn parse_receiver(input: &[u8]) -> (r: Result<(&[u8], &str), APRSMessageParseError>)
    ensures
        text_outcome(r, spec_parse_receiver(input@)),
{
    match parse_delimited(input, ':' as u8) {
        Some(x) => Ok(x),
        None => Err(APRSMessageParseError::InvalidReceiver(context_of(input, "invalid receiver"))),
    }
}

/* Separators */

pub open spec fn spec_skip_one(input: Seq<u8>) -> Result<Seq<u8>, MessageErrorView> {
    if input.len() >= 1 {
        Ok(input.skip(1))
    } else {
        Err(
            MessageErrorView::UnexpectedEndOfMessage(
                context(Seq::<char>::empty(), "nom error: Eof"@),
            ),
        )
    }
}

/// Skips one separator byte.
pub fn skip_separator(input: &[u8]) -> (r: Result<&[u8], APRSMessageParseError>)
    ensures
        match spec_skip_one(input@) {
            Ok(rest) => r matches Ok(a) && a@ == rest,
            Err(e) => r matches Err(x) && x@ == e,
        },
{
    if input.len() >= 1 {
        Ok(vstd::slice::slice_subrange(input, 1, input.len()))
    } else {
        Err(
            APRSMessageParseError::UnexpectedEndOfMessage(
                APRSParseContext {
                    input: String::new(),
                    message: String::from_str("nom error: Eof"),
                },
            ),
        )
    }
}

pub open spec fn spec_skip_to_altitude(input: Seq<u8>) -> Result<Seq<u8>, MessageErrorView> {
    match first_index_of_pair(input, 'A' as u8, '=' as u8) {
        Some(p) => Ok(input.skip(p + 2)),
        None => Err(
            MessageErrorView::UnexpectedEndOfMessage(
                context(lossy_text(input), "nom error: TakeUntil"@),
            ),
        ),
    }
}

/// Skips everything up to and including the first `A=`.
pub fn skip_to_altitude(input: &[u8]) -> (r: Result<&[u8], APRSMessageParseError>)
    ensures
        match spec_skip_to_altitude(input@) {
            Ok(rest) => r matches Ok(a) && a@ == rest,
            Err(e) => r matches Err(x) && x@ == e,
        },
{
    let n = input.len();
    match find_pair(input, 'A' as u8, '=' as u8) {
        Some(p) => Ok(vstd::slice::slice_subrange(input, p + 2, n)),
        None => Err(
            APRSMessageParseError::UnexpectedEndOfMessage(
                context_of(input, "nom error: TakeUntil"),
            ),
        ),
    }
}

/* Time: hhmmss and one byte */

/// The time that the six bytes `b` (`hhmmss`) spell, or the message saying
/// why they spell none.
pub open spec fn time_digits(b: Seq<u8>) -> Result<TimeOfDay, Seq<char>> {
    if !valid_utf8(b) {
        Err("invalid utf8"@)
    } else {
        match unsigned_text_value(b.subrange(0, 2), 10) {
            None => Err("invalid hour digits"@),
            Some(h) => match unsigned_text_value(b.subrange(2, 4), 10) {
                None => Err("invalid minute digits"@),
                Some(m) => match unsigned_text_value(b.subrange(4, 6), 10) {
                    None => Err("invalid second digits"@),
                    Some(s) => if h < 24 && m < 60 && s < 60 {
                        Ok(TimeOfDay { hour: h as u32, minute: m as u32, second: s as u32 })
                    } else {
                        Err("invalid time"@)
                    },
                },
            },
        }
    }
}

pub open spec fn spec_parse_naive_time(input: Seq<u8>) -> Result<(Seq<u8>, TimeOfDay), MessageErrorView> {
    if input.len() < 6 {
        Err(MessageErrorView::InvalidTimestamp(context(lossy_text(input), "nom error: Eof"@)))
    } else if input.len() < 7 {
        Err(MessageErrorView::InvalidTimestamp(context(Seq::<char>::empty(), "nom error: Eof"@)))
    } else {
        match time_digits(input.take(6)) {
            Ok(t) => Ok((input.skip(7), t)),
            Err(message) => Err(
                MessageErrorView::InvalidTimestamp(context(lossy_text(input), message)),
            ),
        }
    }
}

fn time_from_digits(b: &[u8]) -> (r: Result<TimeOfDay, String>)
    requires
        b@.len() == 6,
    ensures
        match time_digits(b@) {
            Ok(t) => r matches Ok(x) && x == t,
            Err(m) => r matches Err(x) && x@ == m,
        },
{
    if str_from_utf8(b).is_none() {
        return Err(String::from_str("invalid utf8"));
    }
    proof {
        crate::numbers::lemma_short_text_fits(b@.subrange(0, 2), 10);
        crate::numbers::lemma_short_text_fits(b@.subrange(2, 4), 10);
        crate::numbers::lemma_short_text_fits(b@.subrange(4, 6), 10);
    }
    let hour = match parse_unsigned(vstd::slice::slice_subrange(b, 0, 2), 10) {
        Some(h) => h,
        None => {
            return Err(String::from_str("invalid hour digits"));
        },
    };
    let minute = match parse_unsigned(vstd::slice::slice_subrange(b, 2, 4), 10) {
        Some(m) => m,
        None => {
            return Err(String::from_str("invalid minute digits"));
        },
    };
    let second = match parse_unsigned(vstd::slice::slice_subrange(b, 4, 6), 10) {
        Some(s) => s,
        None => {
            return Err(String::from_str("invalid second digits"));
        },
    };
    match naive_time_from_hms(hour, minute, second) {
        Some(t) => Ok(t),
        None => Err(String::from_str("invalid time")),
    }
}

/// Reads the time `hhmmss` and the byte after it.
pub fn parse_naive_time(input: &[u8]) -> (r: Result<(&[u8], TimeOfDay), APRSMessageParseError>)
    ensures
        value_outcome(r, spec_parse_naive_time(input@)),
{
    if input.len() < 6 {
        return Err(APRSMessageParseError::InvalidTimestamp(context_of(input, "nom error: Eof")));
    }
    if input.len() < 7 {
        return Err(
            APRSMessageParseError::InvalidTimestamp(
                APRSParseContext {
                    input: String::new(),
                    message: String::from_str("nom error: Eof"),
                },
            ),
        );
    }
    let digits = vstd::slice::slice_subrange(input, 0, 6);
    assert(digits@ == input@.take(6));
    match time_from_digits(digits) {
        Ok(t) => Ok((vstd::slice::slice_subrange(input, 7, input.len()), t)),
        Err(message) => Err(
            APRSMessageParseError::InvalidTimestamp(
                APRSParseContext { input: lossy_string(input), message },
            ),
        ),
    }
}

/* Coordinates: ddmm.mmN or dddmm.mmE */

/// The number of degree digits of the coordinate.
pub open spec fn degree_digits(coord: Coordinate) -> nat {
    match coord {
        Coordinate::Latitude => 2,
        Coordinate::Longitude => 3,
    }
}

/// The hemisphere letter that makes the coordinate negative.
pub open spec fn negative_suffix(coord: Coordinate) -> u8 {
    match coord {
        Coordinate::Latitude => 'S' as u8,
        Coordinate::Longitude => 'W' as u8,
    }
}

/// The error of the coordinate `coord` read from `input`.
pub open spec fn coordinate_error(coord: Coordinate, input: Seq<u8>, message: Seq<char>) -> MessageErrorView {
    match coord {
        Coordinate::Latitude => MessageErrorView::InvalidLatitude(context(lossy_text(input), message)),
        Coordinate::Longitude => MessageErrorView::InvalidLongitude(
            context(lossy_text(input), message),
        ),
    }
}

pub open spec fn spec_parse_coordinate(input: Seq<u8>, coord: Coordinate) -> Result<
    (Seq<u8>, CoordinateValue),
    MessageErrorView,
> {
    let n = degree_digits(coord) as int;
    if input.len() < n {
        Err(coordinate_error(coord, input, "invalid number of digits for degrees"@))
    } else if input.len() < n + 5 {
        Err(coordinate_error(coord, input, "invalid number of digits for minutes"@))
    } else if input.len() < n + 6 {
        Err(coordinate_error(coord, input, "no suffix for coordinate found"@))
    } else {
        match float_literal(input.take(n)) {
            None => Err(coordinate_error(coord, input, "could not parse degrees"@)),
            Some(degrees) => match float_literal(input.subrange(n, n + 5)) {
                None => Err(coordinate_error(coord, input, "could not parse minutes"@)),
                Some(minutes) => Ok(
                    (
                        input.skip(n + 6),
                        CoordinateValue {
                            degrees,
                            minutes,
                            negative: input[n + 5] == negative_suffix(coord),
                        },
                    ),
                ),
            },
        }
    }
}

fn coordinate_error_of(coord: Coordinate, input: &[u8], message: &str) -> (r: APRSMessageParseError)
    ensures
        r@ == coordinate_error(coord, input@, message@),
{
    match coord {
        Coordinate::Latitude => APRSMessageParseError::InvalidLatitude(context_of(input, message)),
        Coordinate::Longitude => APRSMessageParseError::InvalidLongitude(context_of(input, message)),
    }
}

/// Reads a coordinate: the degrees (2 digits for the latitude, 3 for the
/// longitude), 5 bytes of minutes, and the hemisphere letter.
pub fn parse_coordinate(input: &[u8], coord: Coordinate) -> (r: Result<
    (&[u8], CoordinateValue),
    APRSMessageParseError,
>)
    ensures
        value_outcome(r, spec_parse_coordinate(input@, coord)),
{
    let n: usize = match coord {
        Coordinate::Latitude => 2,
        Coordinate::Longitude => 3,
    };
    let suffix: u8 = match coord {
        Coordinate::Latitude => 'S' as u8,
        Coordinate::Longitude => 'W' as u8,
    };
    if input.len() < n {
        return Err(coordinate_error_of(coord, input, "invalid number of digits for degrees"));
    }
    if input.len() < n + 5 {
        return Err(coordinate_error_of(coord, input, "invalid number of digits for minutes"));
    }
    if input.len() < n + 6 {
        return Err(coordinate_error_of(coord, input, "no suffix for coordinate found"));
    }
    let degrees_text = vstd::slice::slice_subrange(input, 0, n);
    assert(degrees_text@ == input@.take(n as int));
    let degrees = match parse_float_literal(degrees_text) {
        Some(d) => d,
        None => {
            return Err(coordinate_error_of(coord, input, "could not parse degrees"));
        },
    };
    let minutes = match parse_float_literal(vstd::slice::slice_subrange(input, n, n + 5)) {
        Some(m) => m,
        None => {
            return Err(coordinate_error_of(coord, input, "could not parse minutes"));
        },
    };
    let negative = input[n + 5] == suffix;
    Ok(
        (
            vstd::slice::slice_subrange(input, n + 6, input.len()),
            CoordinateValue { degrees, minutes, negative },
        ),
    )
}

/* Ground track, ground speed, altitude: fixed-width numbers */

/// The number that the first `width` bytes of `input` spell, and the rest.
pub open spec fn number_field(input: Seq<u8>, width: nat) -> Option<(Seq<u8>, FloatLiteral)> {
    if input.len() < width {
        None
    } else {
        match float_literal(input.take(width as int)) {
            Some(f) => Some((input.skip(width as int), f)),
            None => None,
        }
    }
}

fn parse_number_field(input: &[u8], width: usize) -> (r: Option<(&[u8], FloatLiteral)>)
    requires
        width <= 16,
    ensures
        match number_field(input@, width as nat) {
            Some((rest, f)) => r matches Some((a, b)) && a@ == rest && b == f,
            None => r is None,
        },
{
    if input.len() < width {
        return None;
    }
    let text = vstd::slice::slice_subrange(input, 0, width);
    assert(text@ == input@.take(width as int));
    match parse_float_literal(text) {
        Some(f) => Some((vstd::slice::slice_subrange(input, width, input.len()), f)),
        None => None,
    }
}

pub open spec fn spec_parse_ground_track(input: Seq<u8>) -> Result<(Seq<u8>, FloatLiteral), MessageErrorView> {
    match number_field(input, 3) {
        Some(x) => Ok(x),
        None => Err(
            MessageErrorView::InvalidGroundTrack(context(lossy_text(input), "invalid ground track"@)),
        ),
    }
}

/// Reads the ground track: a number of 3 bytes.
pub fn parse_ground_track(input: &[u8]) -> (r: Result<(&[u8], FloatLiteral), APRSMessageParseError>)
    ensures
        value_outcome(r, spec_parse_ground_track(input@)),
{
    match parse_number_field(input, 3) {
        Some(x) => Ok(x),
        None => Err(
            APRSMessageParseError::InvalidGroundTrack(context_of(input, "invalid ground track")),
        ),
    }
}

pub open spec fn spec_parse_ground_speed(input: Seq<u8>) -> Result<(Seq<u8>, FloatLiteral), MessageErrorView> {
    match number_field(input, 3) {
        Some(x) => Ok(x),
        None => Err(
            MessageErrorView::InvalidGroundSpeed(context(lossy_text(input), "invalid ground speed"@)),
        ),
    }
}

/// Reads the ground speed: a number of 3 bytes.
pub fn parse_ground_speed(input: &[u8]) -> (r: Result<(&[u8], FloatLiteral), APRSMessageParseError>)
    ensures
        value_outcome(r, spec_parse_ground_speed(input@)),
{
    match parse_number_field(input, 3) {
        Some(x) => Ok(x),
        None => Err(
            APRSMessageParseError::InvalidGroundSpeed(context_of(input, "invalid ground speed")),
        ),
    }
}

pub open spec fn spec_parse_gps_altitude(input: Seq<u8>) -> Result<(Seq<u8>, FloatLiteral), MessageErrorView> {
    match number_field(input, 6) {
        Some(x) => Ok(x),
        None => Err(
            MessageErrorView::InvalidGPSAltitude(context(lossy_text(input), "invalid gps altitude"@)),
        ),
    }
}

/// Reads the GPS altitude: a number of 6 bytes.
pub fn parse_gps_altitude(input: &[u8]) -> (r: Result<(&[u8], FloatLiteral), APRSMessageParseError>)
    ensures
        value_outcome(r, spec_parse_gps_altitude(input@)),
{
    match parse_number_field(input, 6) {
        Some(x) => Ok(x),
        None => Err(
            APRSMessageParseError::InvalidGPSAltitude(context_of(input, "invalid gps altitude")),
        ),
    }
}

/* The OGN beacon ID token: idXXYYYYYY */

/// `t` starts with `id`.
pub open spec fn starts_with_id(t: Seq<u8>) -> bool {
    t.len() >= 2 && t[0] == 'i' as u8 && t[1] == 'd' as u8
}

/// The beacon ID that the eight bytes `b` spell as text, or the text of the
/// error that reading it gives (bytes that are not UTF-8 read as the empty
/// text, which is no beacon ID).
pub open spec fn beacon_id_text(b: Seq<u8>) -> Result<BeaconIdView, Seq<char>> {
    if valid_utf8(b) {
        match OGNBeaconID::spec_from_hex(b) {
            Ok(v) => Ok(v),
            Err(e) => Err(e.spec_text()),
        }
    } else {
        Err("Invalid beacon format: "@)
    }
}

pub open spec fn spec_parse_ogn_beacon_id(input: Seq<u8>) -> Result<
    (Seq<u8>, BeaconIdView),
    MessageErrorView,
> {
    if !(starts_with_id(input) && input.len() >= 10) {
        Err(
            MessageErrorView::InvalidOGNBeaconId(
                context(lossy_text(input), "invalid ogn beacon id format"@),
            ),
        )
    } else {
        match beacon_id_text(input.subrange(2, 10)) {
            Ok(v) => Ok((input.skip(10), v)),
            Err(message) => Err(
                MessageErrorView::InvalidOGNBeaconId(
                    context(
                        utf8_or_empty(input.subrange(2, 10)),
                        "invalid ogn beacon id: "@ + message,
                    ),
                ),
            ),
        }
    }
}

/// Reads a beacon ID token: `id` and eight hexadecimal digits.
pub fn parse_ogn_beacon_id(input: &[u8]) -> (r: Result<(&[u8], OGNBeaconID), APRSMessageParseError>)
    ensures
        match spec_parse_ogn_beacon_id(input@) {
            Ok((rest, v)) => r matches Ok((a, id)) && a@ == rest && id@ == v,
            Err(e) => r matches Err(x) && x@ == e,
        },
{
    if !(input.len() >= 10 && input[0] == 'i' as u8 && input[1] == 'd' as u8) {
        return Err(
            APRSMessageParseError::InvalidOGNBeaconId(
                context_of(input, "invalid ogn beacon id format"),
            ),
        );
    }
    let id_bytes = vstd::slice::slice_subrange(input, 2, 10);
    let text = str_or_empty(id_bytes);
    proof {
        if valid_utf8(id_bytes@) {
            vstd::utf8::decode_utf8_encode_utf8(id_bytes@);
        } else {
            assert(text@.len() == 0);
            assert(encode_utf8(text@) =~= Seq::<u8>::empty());
        }
    }
    match OGNBeaconID::from_str(text) {
        Ok(id) => Ok((vstd::slice::slice_subrange(input, 10, input.len()), id)),
        Err(err) => {
            let mut message = String::from_str("invalid ogn beacon id: ");
            let reason = err.to_string();
            message.append(reason.as_str());
            Err(
                APRSMessageParseError::InvalidOGNBeaconId(
                    APRSParseContext { input: text.to_owned(), message },
                ),
            )
        },
    }
}

/* The tokens after the altitude */

/// Where the first token of `s` ends: at its first space, or at its end.
pub open spec fn token_end(s: Seq<u8>) -> int {
    match first_index_of(s, ' ' as u8) {
        Some(p) => p,
        None => s.len() as int,
    }
}

/// `s` after its first token and the space that ends it.
pub open spec fn after_token(s: Seq<u8>) -> Seq<u8> {
    if token_end(s) < s.len() {
        s.skip(token_end(s) + 1)
    } else {
        Seq::empty()
    }
}

pub proof fn lemma_after_token_shorter(s: Seq<u8>)
    requires
        s.len() > 0,
    ensures
        0 <= token_end(s) <= s.len(),
        after_token(s).len() < s.len(),
{
    if let Some(p) = first_index_of(s, ' ' as u8) {
        assert(crate::bytes::is_first_index_of(s, ' ' as u8, p));
    }
}

/// Reads the space-separated tokens of `s` in order, starting with `found`:
/// each token that starts with `id` must hold a beacon ID, and the last
/// such ID is the result; the first that holds none gives its error.
pub open spec fn spec_scan_ids(s: Seq<u8>, found: Option<BeaconIdView>) -> Result<
    Option<BeaconIdView>,
    MessageErrorView,
>
    decreases s.len(),
{
    if s.len() == 0 {
        Ok(found)
    } else {
        proof {
            lemma_after_token_shorter(s);
        }
        let token = s.take(token_end(s));
        if starts_with_id(token) {
            match spec_parse_ogn_beacon_id(token) {
                Ok((_, id)) => spec_scan_ids(after_token(s), Some(id)),
                Err(e) => Err(e),
            }
        } else {
            spec_scan_ids(after_token(s), found)
        }
    }
}

pub open spec fn id_views(found: Option<OGNBeaconID>) -> Option<BeaconIdView> {
    match found {
        Some(id) => Some(id@),
        None => None,
    }
}

/// Reads the tokens after the altitude and keeps the last beacon ID.
fn scan_beacon_ids(input: &[u8]) -> (r: Result<Option<OGNBeaconID>, APRSMessageParseError>)
    ensures
        match spec_scan_ids(input@, None) {
            Ok(v) => r matches Ok(found) && id_views(found) == v,
            Err(e) => r matches Err(x) && x@ == e,
        },
{
    let mut rest = input;
    let mut found: Option<OGNBeaconID> = None;
    while rest.len() > 0
        invariant
            spec_scan_ids(input@, None) == spec_scan_ids(rest@, id_views(found)),
        decreases rest.len(),
    {
        proof {
            lemma_after_token_shorter(rest@);
        }
        let n = rest.len();
        let end = match find_byte(rest, ' ' as u8) {
            Some(p) => p,
            None => n,
        };
        let token = vstd::slice::slice_subrange(rest, 0, end);
        assert(token@ == rest@.take(token_end(rest@)));
        let next = if end < n {
            vstd::slice::slice_subrange(rest, end + 1, n)
        } else {
            vstd::slice::slice_subrange(rest, n, n)
        };
        assert(next@ =~= after_token(rest@));
        if token.len() >= 2 && token[0] == 'i' as u8 && token[1] == 'd' as u8 {
            match parse_ogn_beacon_id(token) {
                Ok((_, id)) => {
                    found = Some(id);
                },
                Err(e) => {
                    return Err(e);
                },
            }
        }
        rest = next;
    }
    Ok(found)
}

/* The whole message */

/// The four fields of the header, `CALLSIGN>PROTOCOL,QCONSTRUCT,RECEIVER:`.
pub struct HeaderView {
    pub callsign: Seq<char>,
    pub ogn_aprs_protocol: OgnAprsProtocol,
    pub q_construct: Seq<char>,
    pub receiver: Seq<char>,
}

pub open spec fn spec_parse_header(input: Seq<u8>) -> Result<(Seq<u8>, HeaderView), MessageErrorView> {
    match spec_parse_callsign(input) {
        Err(e) => Err(e),
        Ok((r1, callsign)) => match spec_parse_aprs_signal_type(r1) {
            Err(e) => Err(e),
            Ok((r2, ogn_aprs_protocol)) => match spec_parse_q_construct(r2) {
                Err(e) => Err(e),
                Ok((r3, q_construct)) => match spec_parse_receiver(r3) {
                    Err(e) => Err(e),
                    Ok((r4, receiver)) => Ok(
                        (r4, HeaderView { callsign, ogn_aprs_protocol, q_construct, receiver }),
                    ),
                },
            },
        },
    }
}

/// The fields of the position block, from the time to the altitude.
pub struct PositionView {
    pub time: TimeOfDay,
    pub latitude: CoordinateValue,
    pub longitude: CoordinateValue,
    pub ground_track: FloatLiteral,
    pub ground_speed: FloatLiteral,
    pub gps_altitude: FloatLiteral,
}

/// The position block, read from just after the header's `:`: a separator
/// byte, the time, the latitude, a separator, the longitude, a separator,
/// the ground track, a separator, the ground speed, anything up to `A=`,
/// and the altitude.
pub open spec fn spec_parse_position(input: Seq<u8>) -> Result<(Seq<u8>, PositionView), MessageErrorView> {
    match spec_skip_one(input) {
        Err(e) => Err(e),
        Ok(r1) => match spec_parse_naive_time(r1) {
            Err(e) => Err(e),
            Ok((r2, time)) => match spec_parse_coordinate(r2, Coordinate::Latitude) {
                Err(e) => Err(e),
                Ok((r3, latitude)) => match spec_skip_one(r3) {
                    Err(e) => Err(e),
                    Ok(r4) => match spec_parse_coordinate(r4, Coordinate::Longitude) {
                        Err(e) => Err(e),
                        Ok((r5, longitude)) => match spec_skip_one(r5) {
                            Err(e) => Err(e),
                            Ok(r6) => match spec_parse_ground_track(r6) {
                                Err(e) => Err(e),
                                Ok((r7, ground_track)) => match spec_skip_one(r7) {
                                    Err(e) => Err(e),
                                    Ok(r8) => match spec_parse_ground_speed(r8) {
                                        Err(e) => Err(e),
                                        Ok((r9, ground_speed)) => match spec_skip_to_altitude(r9) {
                                            Err(e) => Err(e),
                                            Ok(r10) => match spec_parse_gps_altitude(r10) {
                                                Err(e) => Err(e),
                                                Ok((r11, gps_altitude)) => Ok(
                                                    (
                                                        r11,
                                                        PositionView {
                                                            time,
                                                            latitude,
                                                            longitude,
                                                            ground_track,
                                                            ground_speed,
                                                            gps_altitude,
                                                        },
                                                    ),
                                                ),
                                            },
                                        },
                                    },
                                },
                            },
                        },
                    },
                },
            },
        },
    }
}

/// The beacon that `input` holds, or the error that reading it gives.
pub open spec fn spec_parse_beacon(input: Seq<u8>) -> Result<AircraftBeaconView, AircraftErrorView> {
    match spec_parse_header(input) {
        Err(e) => Err(AircraftErrorView::ParseError(e)),
        Ok((r1, header)) => match spec_parse_position(r1) {
            Err(e) => Err(AircraftErrorView::ParseError(e)),
            Ok((r2, position)) => match spec_scan_ids(r2, None) {
                Err(e) => Err(AircraftErrorView::ParseError(e)),
                Ok(None) => Err(AircraftErrorView::MissingOgnBeaconID),
                Ok(Some(id)) => Ok(
                    AircraftBeaconView {
                        callsign: header.callsign,
                        q_construct: header.q_construct,
                        receiver: header.receiver,
                        ogn_aprs_protocol: header.ogn_aprs_protocol,
                        time: position.time,
                        latitude: position.latitude,
                        longitude: position.longitude,
                        ground_track: position.ground_track,
                        ground_speed: position.ground_speed,
                        gps_altitude: position.gps_altitude,
                        ogn_beacon_id: id,
                    },
                ),
            },
        },
    }
}

/// Parses a raw OGN APRS aircraft beacon message: the header, the position
/// block, and the trailing tokens, of which the last `id` token gives the
/// beacon ID.
///
/// # Errors
///
/// Returns [`AircraftParseError::ParseError`] with the error of the first
/// field that fails to parse, and [`AircraftParseError::MissingOgnBeaconID`]
/// when no token starts with `id`.
pub fn parse_ogn_aprs_aircraft_beacon(input: &[u8]) -> (r: Result<AircraftBeacon, AircraftParseError>)
    ensures
        match spec_parse_beacon(input@) {
            Ok(b) => r matches Ok(x) && x@ == b,
            Err(e) => r matches Err(x) && x@ == e,
        },
{
    let (r1, callsign) = match parse_callsign(input) {
        Ok(x) => x,
        Err(e) => {
            return Err(AircraftParseError::ParseError(e));
        },
    };
    let (r2, ogn_aprs_protocol) = match parse_aprs_signal_type(r1) {
        Ok(x) => x,
        Err(e) => {
            return Err(AircraftParseError::ParseError(e));
        },
    };
    let (r3, q_construct) = match parse_q_construct(r2) {
        Ok(x) => x,
        Err(e) => {
            return Err(AircraftParseError::ParseError(e));
        },
    };
    let (r4, receiver) = match parse_receiver(r3) {
        Ok(x) => x,
        Err(e) => {
            return Err(AircraftParseError::ParseError(e));
        },
    };
    let r5 = match skip_separator(r4) {
        Ok(x) => x,
        Err(e) => {
            return Err(AircraftParseError::ParseError(e));
        },
    };
    let (r6, time) = match parse_naive_time(r5) {
        Ok(x) => x,
        Err(e) => {
            return Err(AircraftParseError::ParseError(e));
        },
    };
    let (r7, latitude) = match parse_coordinate(r6, Coordinate::Latitude) {
        Ok(x) => x,
        Err(e) => {
            return Err(AircraftParseError::ParseError(e));
        },
    };
    let r8 = match skip_separator(r7) {
        Ok(x) => x,
        Err(e) => {
            return Err(AircraftParseError::ParseError(e));
        },
    };
    let (r9, longitude) = match parse_coordinate(r8, Coordinate::Longitude) {
        Ok(x) => x,
        Err(e) => {
            return Err(AircraftParseError::ParseError(e));
        },
    };
    let r10 = match skip_separator(r9) {
        Ok(x) => x,
        Err(e) => {
            return Err(AircraftParseError::ParseError(e));
        },
    };
    let (r11, ground_track) = match parse_ground_track(r10) {
        Ok(x) => x,
        Err(e) => {
            return Err(AircraftParseError::ParseError(e));
        },
    };
    let r12 = match skip_separator(r11) {
        Ok(x) => x,
        Err(e) => {
            return Err(AircraftParseError::ParseError(e));
        },
    };
    let (r13, ground_speed) = match parse_ground_speed(r12) {
        Ok(x) => x,
        Err(e) => {
            return Err(AircraftParseError::ParseError(e));
        },
    };
    let r14 = match skip_to_altitude(r13) {
        Ok(x) => x,
        Err(e) => {
            return Err(AircraftParseError::ParseError(e));
        },
    };
    let (r15, gps_altitude) = match parse_gps_altitude(r14) {
        Ok(x) => x,
        Err(e) => {
            return Err(AircraftParseError::ParseError(e));
        },
    };
    let ogn_beacon_id = match scan_beacon_ids(r15) {
        Ok(Some(id)) => id,
        Ok(None) => {
            return Err(AircraftParseError::MissingOgnBeaconID);
        },
        Err(e) => {
            return Err(AircraftParseError::ParseError(e));
        },
    };
    Ok(
        AircraftBeacon {
            callsign: callsign.to_owned(),
            q_construct: q_construct.to_owned(),
            receiver: receiver.to_owned(),
            ogn_aprs_protocol,
            time,
            latitude,
            longitude,
            ground_track,
            ground_speed,
            gps_altitude,
            ogn_beacon_id,
        },
    )
}

} // verus!
