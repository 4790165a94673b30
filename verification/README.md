# OGN APRS Parser

A parser for Open Glider Network (OGN) APRS aircraft beacons, written in
Verus: every function of the library carries a contract. Verus proves
them all but three: the calls into `std::str::from_utf8`,
`String::from_utf8_lossy` and `chrono::NaiveTime::from_hms_opt` stand in
small wrappers (`#[verifier::external_body]`) whose contracts restate those
functions' documentation and are taken on trust.

```text
ICA4400DC>OGADSB,qAS,HLST:/190606h5158.29N/01013.06E^066/488/A=034218 !W10! id254400DC ...
```

is read into its callsign, protocol, q construct and receiver, its time,
latitude, longitude, ground track, ground speed and altitude, and the OGN
beacon ID whose prefix byte encodes the address type, the aircraft type and
the no-track and stealth flags.

## Layout

- `src/` — the verified library.
  - `parse.rs`: one function on bytes for each field of a message and one for
    the whole message, each specified by a spec function of the same name
    (`spec_parse_*`).
  - `aprs_types.rs`: protocols, the 24-bit ICAO address, the OGN ID prefix
    and its bit layout, aircraft and address types, beacon IDs.
  - `errors.rs`: the error types and the text each one displays.
  - `numbers.rs`: unsigned integers in a radix and floating-point literals,
    held exactly (`FloatLiteral`).
  - `text.rs`, `bytes.rs`: UTF-8, ASCII strings, number formatting, search.
  - `laws.rs`: properties that relate the functions to one another.
- `app/` — what stays outside the proofs: conversion of the exact numbers to
  `f64` and of the time to `chrono::NaiveTime`, an error type implementing
  `std::error::Error`, and the Python bindings (pyo3).
- `tests/` — tests of the field parsers and of whole messages.

The library keeps numbers as the exact decimals that the message writes
(`mantissa * 10^exponent`); `app/` rounds them to `f64` as `f64::from_str`
would.
