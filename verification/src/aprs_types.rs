//! Data types of OGN (Open Glider Network) APRS messages: protocols, the
//! 24-bit aircraft address, and the one-byte OGN ID prefix whose bits encode
//! the address type, the aircraft type and two privacy flags.
//!
//! The values of the enums are those of the OGN wiki page on OGN-flavoured
//! APRS (http://wiki.glidernet.org/wiki:ogn-flavoured-aprs).
use vstd::prelude::*;
use vstd::string::StringExecFns;

use crate::errors::{
    context, hex_text, APRSMessageParseError, APRSParseContext, ICAOAddressError, MessageErrorView,
    OGNAddressTypeError, OGNAircraftTypeError, OGNBeaconIDError, OGNIDPrefixError,
};
use crate::numbers::{hex_value, parse_hex};
use crate::text::{radix_string, text_equals};

verus! {

/// Supported OGN APRS protocols, naming the source or format of the data.
#[allow(clippy::upper_case_acronyms)]
#[derive(Debug, PartialEq, Eq, Clone, Copy, Structural)]
pub enum OgnAprsProtocol {
    /// OGN ADS-B rebroadcast.
    OGADSB,
    /// FLARM tracker rebroadcast.
    OGFLR,
    /// SafeSky rebroadcast.
    OGNSKY,
}

impl OgnAprsProtocol {
    /// The protocol named `name`, spelled exactly as the variant.
    pub open spec fn spec_from_name(name: Seq<char>) -> Option<OgnAprsProtocol> {
        if name == "OGADSB"@ {
            Some(OgnAprsProtocol::OGADSB)
        } else if name == "OGFLR"@ {
            Some(OgnAprsProtocol::OGFLR)
        } else if name == "OGNSKY"@ {
            Some(OgnAprsProtocol::OGNSKY)
        } else {
            None
        }
    }

    /// Parses the name of a protocol (e.g. `"OGADSB"`).
    ///
    /// # Errors
    ///
    /// Returns [`APRSMessageParseError::InvalidOGNAprsProtocol`] if the text
    /// names no supported protocol.
    pub fn parse_protocol(s: &str) -> (r: Result<Self, APRSMessageParseError>)
        ensures
            match Self::spec_from_name(s@) {
                Some(p) => r matches Ok(q) && q == p,
                None => r matches Err(e) && e@ == MessageErrorView::InvalidOGNAprsProtocol(
                    context(s@, "Unsupported OGN APRS Protocol"@),
                ),
            },
    {
        if text_equals(s, "OGADSB") {
            Ok(OgnAprsProtocol::OGADSB)
        } else if text_equals(s, "OGFLR") {
            Ok(OgnAprsProtocol::OGFLR)
        } else if text_equals(s, "OGNSKY") {
            Ok(OgnAprsProtocol::OGNSKY)
        } else {
            Err(
                APRSMessageParseError::InvalidOGNAprsProtocol(
                    APRSParseContext {
                        input: s.to_owned(),
                        message: String::from_str("Unsupported OGN APRS Protocol"),
                    },
                ),
            )
        }
    }
}

impl std::str::FromStr for OgnAprsProtocol {
    type Err = APRSMessageParseError;

    /// Parses the name of a protocol; see [`OgnAprsProtocol::parse_protocol`].
    fn from_str(s: &str) -> Result<Self, Self::Err> {
        OgnAprsProtocol::parse_protocol(s)
    }
}

/// A 24-bit ICAO aircraft address or a generic 24-bit tracker ID.
///
/// Held as a `u32`, which never exceeds `0x00FF_FFFF`.
#[derive(Debug, PartialEq, Eq, Clone, Copy, Hash, Structural)]
pub struct ICAOAddress(u32);

impl View for ICAOAddress {
    type V = u32;

    closed spec fn view(&self) -> u32 {
        self.0
    }
}

impl ICAOAddress {
    /// The largest 24-bit ICAO address.
    pub const MAX_VALUE: u32 = 0x00FF_FFFF;

    #[verifier::type_invariant]
    spec fn is_24_bit(self) -> bool {
        self.0 <= 0x00FF_FFFF
    }

    /// The address `value`, or `InvalidAddress` when it needs more than 24 bits.
    pub open spec fn spec_new(value: u32) -> Result<u32, ICAOAddressError> {
        if value <= 0x00FF_FFFF {
            Ok(value)
        } else {
            Err(ICAOAddressError::InvalidAddress(value))
        }
    }

    /// Creates a new [`ICAOAddress`].
    ///
    /// # Errors
    ///
    /// Returns [`ICAOAddressError::InvalidAddress`] if the value is greater
    /// than `0x00FF_FFFF`.
    pub fn new(value: u32) -> (r: Result<Self, ICAOAddressError>)
        ensures
            match Self::spec_new(value) {
                Ok(v) => r matches Ok(a) && a@ == v,
                Err(e) => r == Err::<Self, ICAOAddressError>(e),
            },
    {
        if value <= Self::MAX_VALUE {
            Ok(ICAOAddress(value))
        } else {
            Err(ICAOAddressError::InvalidAddress(value))
        }
    }

    /// The address as an integer.
    pub fn value(&self) -> (r: u32)
        ensures
            r == self@,
            r <= 0x00FF_FFFF,
    {
        proof {
            use_type_invariant(self);
        }
        self.0
    }

    /// The address in eight upper-case hexadecimal digits, as it displays.
    pub fn to_string(&self) -> (r: String)
        ensures
            r@ == hex_text(self@ as nat, 8),
    {
        radix_string(self.0 as u64, 16, 8)
    }
}

/// The value of an [`OGNBeaconID`]: its prefix and its address as an integer.
pub struct BeaconIdView {
    pub prefix: OGNIDPrefix,
    pub address: u32,
}

/// A complete OGN beacon identifier: a one-byte metadata prefix and a
/// 24-bit address.
#[derive(Debug, PartialEq, Eq, Clone, Copy, Structural)]
pub struct OGNBeaconID {
    /// The decoded metadata of the first byte of the beacon ID.
    pub prefix: OGNIDPrefix,
    /// The 24-bit aircraft ICAO address.
    pub icao_address: ICAOAddress,
}

impl View for OGNBeaconID {
    type V = BeaconIdView;

    open spec fn view(&self) -> BeaconIdView {
        BeaconIdView { prefix: self.prefix, address: self.icao_address@ }
    }
}

impl OGNBeaconID {
    /// Constructs a new [`OGNBeaconID`] from a prefix and an address.
    pub fn new(prefix: OGNIDPrefix, icao_address: ICAOAddress) -> (r: Self)
        ensures
            r.prefix == prefix,
            r.icao_address == icao_address,
    {
        OGNBeaconID { prefix, icao_address }
    }

    /// The beacon ID that the eight bytes `b` (`XXYYYYYY`) spell: `XX` the
    /// prefix and `YYYYYY` the address, both in hexadecimal.
    pub open spec fn spec_from_hex(b: Seq<u8>) -> Result<BeaconIdView, OGNBeaconIDError> {
        match OGNIDPrefix::spec_from_hex(b.take(2)) {
            Err(e) => Err(OGNBeaconIDError::OGNIDPrefixError(e)),
            Ok(prefix) => match hex_value(b.skip(2)) {
                Some(v) if v <= u32::MAX => match ICAOAddress::spec_new(v as u32) {
                    Ok(address) => Ok(BeaconIdView { prefix, address }),
                    Err(e) => Err(OGNBeaconIDError::ICAOAddressError(e)),
                },
                _ => Err(OGNBeaconIDError::ICAOAddressError(ICAOAddressError::InvalidHexFormat)),
            },
        }
    }

    /// Parses an 8-character hex string `XXYYYYYY` into an [`OGNBeaconID`]:
    /// `XX` is the one-byte prefix, `YYYYYY` the 24-bit address.
    ///
    /// # Errors
    ///
    /// Returns [`OGNBeaconIDError`] if the text is not 8 bytes long, or if
    /// the prefix or the address is not hexadecimal.
    pub fn from_str(s: &str) -> (r: Result<Self, OGNBeaconIDError>)
        ensures
            vstd::utf8::encode_utf8(s@).len() != 8 ==> (r matches Err(
                OGNBeaconIDError::InvalidOGNBeaconFormat(t),
            ) && t@ == s@),
            vstd::utf8::encode_utf8(s@).len() == 8 ==> match Self::spec_from_hex(vstd::utf8::encode_utf8(s@)) {
                Ok(v) => r matches Ok(id) && id@ == v,
                Err(e) => r matches Err(x) && x == e,
            },
    {
        let b = s.as_bytes();
        if b.len() == 8 {
            Self::from_hex_bytes(b)
        } else {
            Err(OGNBeaconIDError::InvalidOGNBeaconFormat(s.to_owned()))
        }
    }

    fn from_hex_bytes(b: &[u8]) -> (r: Result<Self, OGNBeaconIDError>)
        requires
            b@.len() == 8,
        ensures
            match Self::spec_from_hex(b@) {
                Ok(v) => r matches Ok(id) && id@ == v,
                Err(e) => r matches Err(x) && x == e,
            },
    {
        let prefix = match OGNIDPrefix::from_hex_bytes(vstd::slice::slice_subrange(b, 0, 2)) {
            Ok(p) => p,
            Err(e) => {
                assert(b@.subrange(0, 2) == b@.take(2));
                return Err(OGNBeaconIDError::OGNIDPrefixError(e));
            },
        };
        assert(b@.subrange(0, 2) == b@.take(2));
        let address_text = vstd::slice::slice_subrange(b, 2, 8);
        assert(address_text@ == b@.skip(2));
        let value = match parse_hex(address_text) {
            Some(v) => v,
            None => {
                return Err(OGNBeaconIDError::ICAOAddressError(ICAOAddressError::InvalidHexFormat));
            },
        };
        match ICAOAddress::new(value) {
            Ok(icao_address) => Ok(OGNBeaconID::new(prefix, icao_address)),
            Err(e) => Err(OGNBeaconIDError::ICAOAddressError(e)),
        }
    }
}

impl std::str::FromStr for OGNBeaconID {
    type Err = OGNBeaconIDError;

    /// Parses an 8-character hex string; see [`OGNBeaconID::from_str`].
    fn from_str(s: &str) -> Result<Self, Self::Err> {
        OGNBeaconID::from_str(s)
    }
}

/// The namespace or hardware type of the 24-bit address: bits 0-1 of the
/// OGN ID prefix.
#[allow(clippy::upper_case_acronyms)]
#[derive(Debug, PartialEq, Eq, Clone, Copy, Structural)]
pub enum OGNAddressType {
    /// Unknown address assignment (value 0).
    Unknown,
    /// Official ICAO assigned aircraft address (value 1).
    ICAO,
    /// Address assigned by FLARM hardware (value 2).
    FLARM,
    /// Address assigned by an OGN Tracker (value 3).
    OGNTracker,
}

impl OGNAddressType {
    /// The address type of the value `v`.
    pub open spec fn spec_from_code(v: u8) -> Option<OGNAddressType> {
        match v {
            0 => Some(OGNAddressType::Unknown),
            1 => Some(OGNAddressType::ICAO),
            2 => Some(OGNAddressType::FLARM),
            3 => Some(OGNAddressType::OGNTracker),
            _ => None,
        }
    }

    /// The value of the address type.
    pub open spec fn spec_code(self) -> u8 {
        match self {
            OGNAddressType::Unknown => 0,
            OGNAddressType::ICAO => 1,
            OGNAddressType::FLARM => 2,
            OGNAddressType::OGNTracker => 3,
        }
    }

    /// Maps a value 0-3 to its address type.
    ///
    /// # Errors
    ///
    /// Returns [`OGNAddressTypeError::InvalidAddressType`] for any other value.
    pub fn from_u8(value: u8) -> (r: Result<Self, OGNAddressTypeError>)
        ensures
            r == match Self::spec_from_code(value) {
                Some(t) => Ok(t),
                None => Err(OGNAddressTypeError::InvalidAddressType(value)),
            },
    {
        match value {
            0 => Ok(OGNAddressType::Unknown),
            1 => Ok(OGNAddressType::ICAO),
            2 => Ok(OGNAddressType::FLARM),
            3 => Ok(OGNAddressType::OGNTracker),
            other => Err(OGNAddressTypeError::InvalidAddressType(other)),
        }
    }

    /// The value of the address type.
    pub fn code(&self) -> (r: u8)
        ensures
            r == self.spec_code(),
    {
        match self {
            OGNAddressType::Unknown => 0,
            OGNAddressType::ICAO => 1,
            OGNAddressType::FLARM => 2,
            OGNAddressType::OGNTracker => 3,
        }
    }
}

/// The metadata of the one-byte OGN ID prefix.
///
/// # Bit Layout
/// * **Bits 0-1:** Device Address Type -> [`OGNAddressType`]
/// * **Bits 2-5:** Aircraft / Object Type -> [`OGNAircraftType`]
/// * **Bit 6:** No-Track Flag. If true, do not record trace logs.
/// * **Bit 7:** Stealth Mode Flag. If true, delay or hide on live maps.
#[derive(Debug, PartialEq, Eq, Clone, Copy, Structural)]
pub struct OGNIDPrefix {
    /// Aircraft type - defined by [`OGNAircraftType`]
    pub aircraft_type: OGNAircraftType,
    /// The protocol that issued the tracker ID - one of [`OGNAddressType`].
    pub address_type: OGNAddressType,
    /// If true, tracking platforms should not log historical traces of this flight.
    pub no_track: bool,
    /// If true, tracking platforms should hide or blur live identification.
    pub stealth_mode: bool,
}

impl OGNIDPrefix {
    /// The prefix that the byte `value` encodes, by its bit layout.
    pub open spec fn spec_new(value: u8) -> Result<OGNIDPrefix, OGNIDPrefixError> {
        match OGNAircraftType::spec_from_code((value >> 2u8) & 0b1111u8) {
            None => Err(
                OGNIDPrefixError::AircraftType(
                    OGNAircraftTypeError::InvalidEnum((value >> 2u8) & 0b1111u8),
                ),
            ),
            Some(aircraft_type) => match OGNAddressType::spec_from_code(value & 0b11u8) {
                None => Err(
                    OGNIDPrefixError::AddressType(
                        OGNAddressTypeError::InvalidAddressType(value & 0b11u8),
                    ),
                ),
                Some(address_type) => Ok(
                    OGNIDPrefix {
                        aircraft_type,
                        address_type,
                        no_track: (value >> 6u8) & 0b1u8 == 1,
                        stealth_mode: (value >> 7u8) & 0b1u8 == 1,
                    },
                ),
            },
        }
    }

    /// The prefix that the two bytes `b` spell in hexadecimal.
    pub open spec fn spec_from_hex(b: Seq<u8>) -> Result<OGNIDPrefix, OGNIDPrefixError> {
        if b.len() != 2 {
            Err(OGNIDPrefixError::HexFormat)
        } else {
            match hex_value(b) {
                Some(v) if v <= u8::MAX => Self::spec_new(v as u8),
                _ => Err(OGNIDPrefixError::HexFormat),
            }
        }
    }

    /// Decodes an [`OGNIDPrefix`] from its byte by shifting and masking.
    ///
    /// # Errors
    ///
    /// Returns [`OGNIDPrefixError`] if the extracted bits name no
    /// [`OGNAircraftType`] or [`OGNAddressType`] (no byte does; see
    /// `lemma_every_prefix_byte_decodes`).
    pub fn new(value: u8) -> (r: Result<Self, OGNIDPrefixError>)
        ensures
            r == Self::spec_new(value),
    {
        let raw_type = (value >> 2) & 0b1111;
        let aircraft_type = match OGNAircraftType::from_u8(raw_type) {
            Ok(t) => t,
            Err(e) => {
                return Err(OGNIDPrefixError::AircraftType(e));
            },
        };
        let raw_address = value & 0b11;
        let address_type = match OGNAddressType::from_u8(raw_address) {
            Ok(t) => t,
            Err(e) => {
                return Err(OGNIDPrefixError::AddressType(e));
            },
        };
        let no_track = ((value >> 6) & 0b1) == 1;
        let stealth_mode = ((value >> 7) & 0b1) == 1;
        Ok(OGNIDPrefix { aircraft_type, address_type, no_track, stealth_mode })
    }

    /// Parses an [`OGNIDPrefix`] from a 2-character hexadecimal string.
    ///
    /// # Errors
    ///
    /// Returns [`OGNIDPrefixError::HexFormat`] if the string is not exactly
    /// 2 bytes long, or cannot be parsed as base-16 hex.
    pub fn from_hex_str(s: &str) -> (r: Result<Self, OGNIDPrefixError>)
        ensures
            r == Self::spec_from_hex(vstd::utf8::encode_utf8(s@)),
    {
        Self::from_hex_bytes(s.as_bytes())
    }

    fn from_hex_bytes(b: &[u8]) -> (r: Result<Self, OGNIDPrefixError>)
        ensures
            r == Self::spec_from_hex(b@),
    {
        if b.len() != 2 {
            return Err(OGNIDPrefixError::HexFormat);
        }
        match parse_hex(b) {
            Some(v) => {
                if v <= 0xFF {
                    OGNIDPrefix::new(v as u8)
                } else {
                    Err(OGNIDPrefixError::HexFormat)
                }
            },
            None => Err(OGNIDPrefixError::HexFormat),
        }
    }
}

/// The type of aircraft or object carrying the tracker: bits 2-5 of the OGN
/// ID prefix. Values 0 and 14 are reserved.
#[derive(Debug, PartialEq, Eq, Clone, Copy, Structural)]
pub enum OGNAircraftType {
    Reserved,
    Glider,
    TowPlane,
    Helicopter,
    Parachute,
    DropPlane,
    HangGlider,
    Paraglider,
    ReciprocatingEngineAircraft,
    JetTurbopropAircraft,
    Unknown,
    Balloon,
    Airship,
    UAVs,
    StaticObstacle,
}

impl OGNAircraftType {
    /// The aircraft type of the value `v` (0 and 14 are both `Reserved`).
    pub open spec fn spec_from_code(v: u8) -> Option<OGNAircraftType> {
        match v {
            0 | 14 => Some(OGNAircraftType::Reserved),
            1 => Some(OGNAircraftType::Glider),
            2 => Some(OGNAircraftType::TowPlane),
            3 => Some(OGNAircraftType::Helicopter),
            4 => Some(OGNAircraftType::Parachute),
            5 => Some(OGNAircraftType::DropPlane),
            6 => Some(OGNAircraftType::HangGlider),
            7 => Some(OGNAircraftType::Paraglider),
            8 => Some(OGNAircraftType::ReciprocatingEngineAircraft),
            9 => Some(OGNAircraftType::JetTurbopropAircraft),
            10 => Some(OGNAircraftType::Unknown),
            11 => Some(OGNAircraftType::Balloon),
            12 => Some(OGNAircraftType::Airship),
            13 => Some(OGNAircraftType::UAVs),
            15 => Some(OGNAircraftType::StaticObstacle),
            _ => None,
        }
    }

    /// The value of the aircraft type (`Reserved` is 0).
    pub open spec fn spec_code(self) -> u8 {
        match self {
            OGNAircraftType::Reserved => 0,
            OGNAircraftType::Glider => 1,
            OGNAircraftType::TowPlane => 2,
            OGNAircraftType::Helicopter => 3,
            OGNAircraftType::Parachute => 4,
            OGNAircraftType::DropPlane => 5,
            OGNAircraftType::HangGlider => 6,
            OGNAircraftType::Paraglider => 7,
            OGNAircraftType::ReciprocatingEngineAircraft => 8,
            OGNAircraftType::JetTurbopropAircraft => 9,
            OGNAircraftType::Unknown => 10,
            OGNAircraftType::Balloon => 11,
            OGNAircraftType::Airship => 12,
            OGNAircraftType::UAVs => 13,
            OGNAircraftType::StaticObstacle => 15,
        }
    }

    /// Maps a 4-bit value (0-15) to its [`OGNAircraftType`]; both 0 and 14
    /// are `Reserved`.
    ///
    /// # Errors
    ///
    /// Returns [`OGNAircraftTypeError::InvalidEnum`] if the value is above 15.
    pub fn from_u8(value: u8) -> (r: Result<Self, OGNAircraftTypeError>)
        ensures
            r == match Self::spec_from_code(value) {
                Some(t) => Ok(t),
                None => Err(OGNAircraftTypeError::InvalidEnum(value)),
            },
    {
        match value {
            0 | 14 => Ok(OGNAircraftType::Reserved),
            1 => Ok(OGNAircraftType::Glider),
            2 => Ok(OGNAircraftType::TowPlane),
            3 => Ok(OGNAircraftType::Helicopter),
            4 => Ok(OGNAircraftType::Parachute),
            5 => Ok(OGNAircraftType::DropPlane),
            6 => Ok(OGNAircraftType::HangGlider),
            7 => Ok(OGNAircraftType::Paraglider),
            8 => Ok(OGNAircraftType::ReciprocatingEngineAircraft),
            9 => Ok(OGNAircraftType::JetTurbopropAircraft),
            10 => Ok(OGNAircraftType::Unknown),
            11 => Ok(OGNAircraftType::Balloon),
            12 => Ok(OGNAircraftType::Airship),
            13 => Ok(OGNAircraftType::UAVs),
            15 => Ok(OGNAircraftType::StaticObstacle),
            other => Err(OGNAircraftTypeError::InvalidEnum(other)),
        }
    }

    /// The value of the aircraft type (`Reserved` is 0).
    pub fn code(&self) -> (r: u8)
        ensures
            r == self.spec_code(),
    {
        match self {
            OGNAircraftType::Reserved => 0,
            OGNAircraftType::Glider => 1,
            OGNAircraftType::TowPlane => 2,
            OGNAircraftType::Helicopter => 3,
            OGNAircraftType::Parachute => 4,
            OGNAircraftType::DropPlane => 5,
            OGNAircraftType::HangGlider => 6,
            OGNAircraftType::Paraglider => 7,
            OGNAircraftType::ReciprocatingEngineAircraft => 8,
            OGNAircraftType::JetTurbopropAircraft => 9,
            OGNAircraftType::Unknown => 10,
            OGNAircraftType::Balloon => 11,
            OGNAircraftType::Airship => 12,
            OGNAircraftType::UAVs => 13,
            OGNAircraftType::StaticObstacle => 15,
        }
    }
}

} // verus!
