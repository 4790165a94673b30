//! The errors of the parsers, and the text that each one displays.
use vstd::prelude::*;
use vstd::string::StringExecFns;

use crate::text::{ascii_chars, radix_digits, radix_string, zero_padded};

verus! {

/// `n` in decimal.
pub open spec fn decimal_text(n: nat) -> Seq<char> {
    ascii_chars(radix_digits(n, 10))
}

/// `n` in upper-case hexadecimal, zero-padded to `width` digits.
pub open spec fn hex_text(n: nat, width: nat) -> Seq<char> {
    ascii_chars(zero_padded(radix_digits(n, 16), width))
}

/// Where a field of a message failed to parse: the input it was read from,
/// and a description of the failure.
#[derive(Debug)]
pub struct APRSParseContext {
    pub input: String,
    pub message: String,
}

/// The value of an [`APRSParseContext`]: its two texts.
pub struct ParseContextView {
    pub input: Seq<char>,
    pub message: Seq<char>,
}

impl View for APRSParseContext {
    type V = ParseContextView;

    open spec fn view(&self) -> ParseContextView {
        ParseContextView { input: self.input@, message: self.message@ }
    }
}

/// The context made of the texts `input` and `message`.
pub open spec fn context(input: Seq<char>, message: Seq<char>) -> ParseContextView {
    ParseContextView { input, message }
}

impl APRSParseContext {
    pub open spec fn spec_text(self) -> Seq<char> {
        "Failed to parse: "@ + self.input@ + ", message: "@ + self.message@
    }

    /// The text that the context displays.
    pub fn to_string(&self) -> (r: String)
        ensures
            r@ == self.spec_text(),
    {
        let mut s = String::from_str("Failed to parse: ");
        s.append(self.input.as_str());
        s.append(", message: ");
        s.append(self.message.as_str());
        s
    }
}

/// A failure to parse one field of an APRS message.
#[derive(Debug)]
pub enum APRSMessageParseError {
    UnknownError(String),
    UnexpectedEndOfMessage(APRSParseContext),
    MissingSeparator(APRSParseContext),
    InvalidQConstruct(APRSParseContext),
    InvalidReceiver(APRSParseContext),
    InvalidCallsign(APRSParseContext),
    InvalidOGNAprsProtocol(APRSParseContext),
    InvalidTimestamp(APRSParseContext),
    InvalidLatitude(APRSParseContext),
    InvalidLongitude(APRSParseContext),
    InvalidGroundTrack(APRSParseContext),
    InvalidGroundSpeed(APRSParseContext),
    InvalidGPSAltitude(APRSParseContext),
    InvalidOGNBeaconId(APRSParseContext),
}

/// The value of an [`APRSMessageParseError`].
pub enum MessageErrorView {
    UnknownError(Seq<char>),
    UnexpectedEndOfMessage(ParseContextView),
    MissingSeparator(ParseContextView),
    InvalidQConstruct(ParseContextView),
    InvalidReceiver(ParseContextView),
    InvalidCallsign(ParseContextView),
    InvalidOGNAprsProtocol(ParseContextView),
    InvalidTimestamp(ParseContextView),
    InvalidLatitude(ParseContextView),
    InvalidLongitude(ParseContextView),
    InvalidGroundTrack(ParseContextView),
    InvalidGroundSpeed(ParseContextView),
    InvalidGPSAltitude(ParseContextView),
    InvalidOGNBeaconId(ParseContextView),
}

impl View for APRSMessageParseError {
    type V = MessageErrorView;

    open spec fn view(&self) -> MessageErrorView {
        match self {
            APRSMessageParseError::UnknownError(s) => MessageErrorView::UnknownError(s@),
            APRSMessageParseError::UnexpectedEndOfMessage(c) => MessageErrorView::UnexpectedEndOfMessage(c@),
            APRSMessageParseError::MissingSeparator(c) => MessageErrorView::MissingSeparator(c@),
            APRSMessageParseError::InvalidQConstruct(c) => MessageErrorView::InvalidQConstruct(c@),
            APRSMessageParseError::InvalidReceiver(c) => MessageErrorView::InvalidReceiver(c@),
            APRSMessageParseError::InvalidCallsign(c) => MessageErrorView::InvalidCallsign(c@),
            APRSMessageParseError::InvalidOGNAprsProtocol(c) => MessageErrorView::InvalidOGNAprsProtocol(c@),
            APRSMessageParseError::InvalidTimestamp(c) => MessageErrorView::InvalidTimestamp(c@),
            APRSMessageParseError::InvalidLatitude(c) => MessageErrorView::InvalidLatitude(c@),
            APRSMessageParseError::InvalidLongitude(c) => MessageErrorView::InvalidLongitude(c@),
            APRSMessageParseError::InvalidGroundTrack(c) => MessageErrorView::InvalidGroundTrack(c@),
            APRSMessageParseError::InvalidGroundSpeed(c) => MessageErrorView::InvalidGroundSpeed(c@),
            APRSMessageParseError::InvalidGPSAltitude(c) => MessageErrorView::InvalidGPSAltitude(c@),
            APRSMessageParseError::InvalidOGNBeaconId(c) => MessageErrorView::InvalidOGNBeaconId(c@),
        }
    }
}

impl MessageErrorView {
    /// The text that an error of this value displays: the context's text,
    /// or the unknown error's own text.
    pub open spec fn spec_text(self) -> Seq<char> {
        match self {
            MessageErrorView::UnknownError(s) => s,
            MessageErrorView::UnexpectedEndOfMessage(c) => context_text(c),
            MessageErrorView::MissingSeparator(c) => context_text(c),
            MessageErrorView::InvalidQConstruct(c) => context_text(c),
            MessageErrorView::InvalidReceiver(c) => context_text(c),
            MessageErrorView::InvalidCallsign(c) => context_text(c),
            MessageErrorView::InvalidOGNAprsProtocol(c) => context_text(c),
            MessageErrorView::InvalidTimestamp(c) => context_text(c),
            MessageErrorView::InvalidLatitude(c) => context_text(c),
            MessageErrorView::InvalidLongitude(c) => context_text(c),
            MessageErrorView::InvalidGroundTrack(c) => context_text(c),
            MessageErrorView::InvalidGroundSpeed(c) => context_text(c),
            MessageErrorView::InvalidGPSAltitude(c) => context_text(c),
            MessageErrorView::InvalidOGNBeaconId(c) => context_text(c),
        }
    }
}

pub open spec fn context_text(c: ParseContextView) -> Seq<char> {
    "Failed to parse: "@ + c.input + ", message: "@ + c.message
}

impl APRSMessageParseError {
    /// The text that the error displays.
    pub fn to_string(&self) -> (r: String)
        ensures
            r@ == self@.spec_text(),
    {
        match self {
            APRSMessageParseError::UnknownError(s) => s.clone(),
            APRSMessageParseError::UnexpectedEndOfMessage(c) => c.to_string(),
            APRSMessageParseError::MissingSeparator(c) => c.to_string(),
            APRSMessageParseError::InvalidQConstruct(c) => c.to_string(),
            APRSMessageParseError::InvalidReceiver(c) => c.to_string(),
            APRSMessageParseError::InvalidCallsign(c) => c.to_string(),
            APRSMessageParseError::InvalidOGNAprsProtocol(c) => c.to_string(),
            APRSMessageParseError::InvalidTimestamp(c) => c.to_string(),
            APRSMessageParseError::InvalidLatitude(c) => c.to_string(),
            APRSMessageParseError::InvalidLongitude(c) => c.to_string(),
            APRSMessageParseError::InvalidGroundTrack(c) => c.to_string(),
            APRSMessageParseError::InvalidGroundSpeed(c) => c.to_string(),
            APRSMessageParseError::InvalidGPSAltitude(c) => c.to_string(),
            APRSMessageParseError::InvalidOGNBeaconId(c) => c.to_string(),
        }
    }
}

/// A failure to parse an aircraft beacon.
#[derive(Debug)]
pub enum AircraftParseError {
    ParseError(APRSMessageParseError),
    MissingOgnBeaconID,
}

/// The value of an [`AircraftParseError`].
pub enum AircraftErrorView {
    ParseError(MessageErrorView),
    MissingOgnBeaconID,
}

impl View for AircraftParseError {
    type V = AircraftErrorView;

    open spec fn view(&self) -> AircraftErrorView {
        match self {
            AircraftParseError::ParseError(e) => AircraftErrorView::ParseError(e@),
            AircraftParseError::MissingOgnBeaconID => AircraftErrorView::MissingOgnBeaconID,
        }
    }
}

impl AircraftErrorView {
    pub open spec fn spec_text(self) -> Seq<char> {
        match self {
            AircraftErrorView::ParseError(e) => e.spec_text(),
            AircraftErrorView::MissingOgnBeaconID => "Missing OGN Beacon ID in APRS message"@,
        }
    }
}

impl AircraftParseError {
    /// The text that the error displays.
    pub fn to_string(&self) -> (r: String)
        ensures
            r@ == self@.spec_text(),
    {
        match self {
            AircraftParseError::ParseError(e) => e.to_string(),
            AircraftParseError::MissingOgnBeaconID => String::from_str(
                "Missing OGN Beacon ID in APRS message",
            ),
        }
    }
}

impl From<APRSMessageParseError> for AircraftParseError {
    fn from(e: APRSMessageParseError) -> (r: AircraftParseError) {
        AircraftParseError::ParseError(e)
    }
}

impl vstd::std_specs::convert::FromSpecImpl<APRSMessageParseError> for AircraftParseError {
    open spec fn obeys_from_spec() -> bool {
        true
    }

    open spec fn from_spec(e: APRSMessageParseError) -> AircraftParseError {
        AircraftParseError::ParseError(e)
    }
}

/// A value that names no aircraft type.
#[derive(Debug, PartialEq, Eq, Clone, Copy, Structural)]
pub enum OGNAircraftTypeError {
    InvalidEnum(u8),
}

impl OGNAircraftTypeError {
    pub open spec fn spec_text(self) -> Seq<char> {
        match self {
            OGNAircraftTypeError::InvalidEnum(v) => "Invalid value: "@ + decimal_text(v as nat),
        }
    }

    /// The text that the error displays.
    pub fn to_string(&self) -> (r: String)
        ensures
            r@ == self.spec_text(),
    {
        match self {
            OGNAircraftTypeError::InvalidEnum(v) => {
                let mut s = String::from_str("Invalid value: ");
                let n = radix_string(*v as u64, 10, 0);
                s.append(n.as_str());
                s
            },
        }
    }
}

/// A text or value that is no 24-bit ICAO address.
#[derive(Debug, PartialEq, Eq, Clone, Copy, Structural)]
pub enum ICAOAddressError {
    InvalidHexFormat,
    InvalidAddress(u32),
}

impl ICAOAddressError {
    pub open spec fn spec_text(self) -> Seq<char> {
        match self {
            ICAOAddressError::InvalidHexFormat => "Invalid hexadecimal format"@,
            ICAOAddressError::InvalidAddress(v) => "Value 0x"@ + hex_text(v as nat, 0) + " ("@
                + decimal_text(v as nat) + ") exceeds 24-bit ICAO address limit (0x"@ + hex_text(
                0x00FF_FFFF,
                0,
            ) + ")"@,
        }
    }

    /// The text that the error displays.
    pub fn to_string(&self) -> (r: String)
        ensures
            r@ == self.spec_text(),
    {
        match self {
            ICAOAddressError::InvalidHexFormat => String::from_str("Invalid hexadecimal format"),
            ICAOAddressError::InvalidAddress(v) => {
                let mut s = String::from_str("Value 0x");
                let hex = radix_string(*v as u64, 16, 0);
                s.append(hex.as_str());
                s.append(" (");
                let dec = radix_string(*v as u64, 10, 0);
                s.append(dec.as_str());
                s.append(") exceeds 24-bit ICAO address limit (0x");
                let max = radix_string(0x00FF_FFFF, 16, 0);
                s.append(max.as_str());
                s.append(")");
                s
            },
        }
    }
}

/// A failure to read an OGN beacon ID from text.
#[derive(Debug)]
pub enum OGNBeaconIDError {
    OGNIDPrefixError(OGNIDPrefixError),
    ICAOAddressError(ICAOAddressError),
    InvalidOGNBeaconFormat(String),
}

impl OGNBeaconIDError {
    pub open spec fn spec_text(self) -> Seq<char> {
        match self {
            OGNBeaconIDError::OGNIDPrefixError(e) => e.spec_text(),
            OGNBeaconIDError::ICAOAddressError(e) => e.spec_text(),
            OGNBeaconIDError::InvalidOGNBeaconFormat(s) => "Invalid beacon format: "@ + s@,
        }
    }

    /// The text that the error displays.
    pub fn to_string(&self) -> (r: String)
        ensures
            r@ == self.spec_text(),
    {
        match self {
            OGNBeaconIDError::OGNIDPrefixError(e) => e.to_string(),
            OGNBeaconIDError::ICAOAddressError(e) => e.to_string(),
            OGNBeaconIDError::InvalidOGNBeaconFormat(t) => {
                let mut s = String::from_str("Invalid beacon format: ");
                s.append(t.as_str());
                s
            },
        }
    }
}

/// A value that names no address type.
#[derive(Debug, PartialEq, Eq, Clone, Copy, Structural)]
pub enum OGNAddressTypeError {
    InvalidAddressType(u8),
}

impl OGNAddressTypeError {
    pub open spec fn spec_text(self) -> Seq<char> {
        match self {
            OGNAddressTypeError::InvalidAddressType(v) => "Invalid address format: "@
                + decimal_text(v as nat),
        }
    }

    /// The text that the error displays.
    pub fn to_string(&self) -> (r: String)
        ensures
            r@ == self.spec_text(),
    {
        match self {
            OGNAddressTypeError::InvalidAddressType(v) => {
                let mut s = String::from_str("Invalid address format: ");
                let n = radix_string(*v as u64, 10, 0);
                s.append(n.as_str());
                s
            },
        }
    }
}

/// A failure to read the one-byte OGN ID prefix.
#[derive(Debug, PartialEq, Eq, Clone, Copy, Structural)]
pub enum OGNIDPrefixError {
    HexFormat,
    AircraftType(OGNAircraftTypeError),
    AddressType(OGNAddressTypeError),
}

impl OGNIDPrefixError {
    pub open spec fn spec_text(self) -> Seq<char> {
        match self {
            OGNIDPrefixError::HexFormat => "Invalid hexadecimal format"@,
            OGNIDPrefixError::AircraftType(e) => e.spec_text(),
            OGNIDPrefixError::AddressType(e) => e.spec_text(),
        }
    }

    /// The text that the error displays.
    pub fn to_string(&self) -> (r: String)
        ensures
            r@ == self.spec_text(),
    {
        match self {
            OGNIDPrefixError::HexFormat => String::from_str("Invalid hexadecimal format"),
            OGNIDPrefixError::AircraftType(e) => e.to_string(),
            OGNIDPrefixError::AddressType(e) => e.to_string(),
        }
    }
}

} // verus!
