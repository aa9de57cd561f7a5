//! The binary packet decoder.
//!
//! Wire layout, big-endian throughout: an 8-byte timestamp, a 1-byte
//! subsystem code, a 2-byte declared payload length (read past, never
//! checked), then the payload whose shape the code selects.
use crate::bytes::{be_field, read_be};
use crate::models::{
    AocsData, AocsMode, CelestialCoordinates, EngineStatus, PowerData, PropulsionData, ScienceData,
    StarTrackerReading, Subsystem, TelemetryPacket, TelemetryPayload, ThermalData,
};
use vstd::prelude::*;
use vstd::utf8::{decode_utf8, valid_utf8};

verus! {

/// Why a buffer does not decode.
#[derive(Debug, Clone, Copy, PartialEq, Eq, Structural)]
pub enum ParserError {
    /// The buffer ends before a field that must be read.
    BufferTooShort,
    /// The subsystem code is none of the known ones.
    InvalidSubsystem(u8),
    /// A length-prefixed text field is not UTF-8.
    InvalidText,
}

/// Bytes before the payload.
pub const HEADER_LEN: usize = 11;

/// Offset of the subsystem code.
pub const CODE_AT: usize = 8;

/// Offset of the text length byte of a star tracker payload.
pub const STAR_TEXT_LEN_AT: usize = 35;

/// Offset of the text length byte of a science payload.
pub const SCIENCE_TEXT_LEN_AT: usize = 31;

/// The 8-byte big-endian word of `d` at `at`.
pub open spec fn word(d: Seq<u8>, at: int) -> u64 {
    be_field(d, at, 8) as u64
}

/// The payload bytes that code `code` needs before any text.
pub open spec fn fixed_payload_len(code: u8) -> int {
    if code == 0 {
        24
    } else if code == 1 {
        8
    } else if code == 2 {
        57
    } else if code == 3 {
        25
    } else if code == 4 {
        17
    } else {
        21
    }
}

/// Offset of the text length byte for a code that carries text.
pub open spec fn text_len_at(code: u8) -> int {
    if code == 3 {
        STAR_TEXT_LEN_AT as int
    } else {
        SCIENCE_TEXT_LEN_AT as int
    }
}

/// The text bytes of a packet whose code carries text.
pub open spec fn text_bytes(d: Seq<u8>) -> Seq<u8> {
    let at = text_len_at(d[8]);
    d.subrange(at + 1, at + 1 + d[at] as int)
}

/// The subsystem that code `code` names.
pub open spec fn subsystem_of(code: u8) -> Subsystem {
    if code == 0 {
        Subsystem::Power
    } else if code == 1 {
        Subsystem::Thermal
    } else if code == 2 {
        Subsystem::Aocs
    } else if code == 3 {
        Subsystem::StarTracker
    } else if code == 4 {
        Subsystem::Propulsion
    } else {
        Subsystem::Science
    }
}

/// Attitude mode byte; unknown values fall back to `Safe`.
pub open spec fn aocs_mode_of(b: u8) -> AocsMode {
    if b == 1 {
        AocsMode::Pointing
    } else if b == 2 {
        AocsMode::Detumbling
    } else {
        AocsMode::Safe
    }
}

/// Engine status byte; unknown values fall back to `Off`.
pub open spec fn engine_status_of(b: u8) -> EngineStatus {
    if b == 1 {
        EngineStatus::On
    } else {
        EngineStatus::Off
    }
}

/// The error that decoding `d` ends in, or `None` when it decodes.
pub open spec fn decode_error(d: Seq<u8>) -> Option<ParserError> {
    if d.len() < HEADER_LEN {
        Some(ParserError::BufferTooShort)
    } else if d[8] > 5 {
        Some(ParserError::InvalidSubsystem(d[8]))
    } else if d.len() < HEADER_LEN + fixed_payload_len(d[8]) {
        Some(ParserError::BufferTooShort)
    } else if d[8] == 3 || d[8] == 5 {
        let at = text_len_at(d[8]);
        if d.len() < at + 1 + d[at] {
            Some(ParserError::BufferTooShort)
        } else if (d[8] == 5 || d[at] > 0) && !valid_utf8(text_bytes(d)) {
            Some(ParserError::InvalidText)
        } else {
            None
        }
    } else {
        None
    }
}

/// `p` is the record that the buffer `d` holds (given that `d` decodes).
pub open spec fn packet_of(d: Seq<u8>, p: TelemetryPacket) -> bool {
    &&& p.timestamp == word(d, 0)
    &&& p.subsystem == subsystem_of(d[8])
    &&& match p.payload {
        TelemetryPayload::Power(x) => {
            &&& d[8] == 0
            &&& x.voltage == word(d, 11)
            &&& x.current == word(d, 19)
            &&& x.battery_level == word(d, 27)
        },
        TelemetryPayload::Thermal(x) => d[8] == 1 && x.temp_celsius == word(d, 11),
        TelemetryPayload::Aocs(x) => {
            &&& d[8] == 2
            &&& x.mode == aocs_mode_of(d[11])
            &&& forall|k: int| 0 <= k < 4 ==> #[trigger] x.quaternion@[k] == word(d, 12 + 8 * k)
            &&& forall|k: int|
                0 <= k < 3 ==> #[trigger] x.angular_velocity@[k] == word(d, 44 + 8 * k)
        },
        TelemetryPayload::StarTracker(x) => {
            &&& d[8] == 3
            &&& x.coordinates.right_ascension == word(d, 11)
            &&& x.coordinates.declination == word(d, 19)
            &&& x.confidence == word(d, 27)
            &&& match x.target_id {
                None => d[35] == 0,
                Some(t) => d[35] > 0 && t@ == decode_utf8(text_bytes(d)),
            }
        },
        TelemetryPayload::Propulsion(x) => {
            &&& d[8] == 4
            &&& x.fuel_level == word(d, 11)
            &&& x.pressure == word(d, 19)
            &&& x.engine_status == engine_status_of(d[27])
        },
        TelemetryPayload::Science(x) => {
            &&& d[8] == 5
            &&& x.wavelength == word(d, 11)
            &&& x.exposure_time == be_field(d, 19, 4) as u32
            &&& x.data_size == word(d, 23)
            &&& x.instrument_id@ == decode_utf8(text_bytes(d))
        },
        TelemetryPayload::Unknown => false,
    }
}

/// Relies on `String::from_utf8`: it accepts exactly the well-formed UTF-8
/// byte sequences, and the string it returns holds the characters they encode.
#[verifier::external_body]
fn utf8_text(b: Vec<u8>) -> (r: Option<String>)
    ensures
        r is Some <==> valid_utf8(b@),
        r matches Some(s) ==> s@ == decode_utf8(b@),
{
    String::from_utf8(b).ok()
}

/// Copies `n` bytes of `d` from `at`.
fn copy_bytes(d: &[u8], at: usize, n: usize) -> (r: Vec<u8>)
    requires
        at + n <= d@.len(),
    ensures
        r@ == d@.subrange(at as int, at + n),
{
    let mut v: Vec<u8> = Vec::new();
    let mut i: usize = 0;
    let len: usize = d.len();
    while i < n
        invariant
            i <= n,
            len == d@.len(),
            at + n <= d@.len(),
            v@ == d@.subrange(at as int, at + i),
        decreases n - i,
    {
        v.push(d[at + i]);
        i = i + 1;
        proof {
            assert(v@ =~= d@.subrange(at as int, at + i));
        }
    }
    v
}

/// Reads the text field whose length byte stands at `at`.
fn read_text(d: &[u8], at: usize) -> (r: Result<String, ParserError>)
    requires
        at < d@.len(),
    ensures
        d@.len() < at + 1 + d@[at as int] ==> r == Err::<String, ParserError>(
            ParserError::BufferTooShort,
        ),
        d@.len() >= at + 1 + d@[at as int] ==> {
            let b = d@.subrange(at + 1, at + 1 + d@[at as int]);
            &&& r is Ok <==> valid_utf8(b)
            &&& r matches Err(e) ==> e == ParserError::InvalidText
            &&& r matches Ok(s) ==> s@ == decode_utf8(b)
        },
{
    let n = d[at] as usize;
    if d.len() - (at + 1) < n {
        return Err(ParserError::BufferTooShort);
    }
    match utf8_text(copy_bytes(d, at + 1, n)) {
        Some(s) => Ok(s),
        None => Err(ParserError::InvalidText),
    }
}

/// The 8-byte word of `d` at `at`.
fn read_word(d: &[u8], at: usize) -> (r: u64)
    requires
        at + 8 <= d@.len(),
    ensures
        r == word(d@, at as int),
{
    read_be(d, at, 8)
}

/// Decoder of telemetry packets.
pub struct Parser;

impl Parser {
    /// Decodes one packet. No partial record is ever returned: the buffer
    /// decodes in full or the first failing read names the error.
    pub fn parse(data: &[u8]) -> (r: Result<TelemetryPacket, ParserError>)
        ensures
            match r {
                Ok(p) => decode_error(data@) is None && packet_of(data@, p) && p.wf(),
                Err(e) => decode_error(data@) == Some(e),
            },
    {
        let len = data.len();
        if len < HEADER_LEN {
            return Err(ParserError::BufferTooShort);
        }
        let timestamp = read_word(data, 0);
        let code = data[CODE_AT];
        let start = HEADER_LEN;
        if code == 0 {
            if len < start + 24 {
                return Err(ParserError::BufferTooShort);
            }
            let payload = PowerData {
                voltage: read_word(data, start),
                current: read_word(data, start + 8),
                battery_level: read_word(data, start + 16),
            };
            Ok(
                TelemetryPacket {
                    timestamp,
                    subsystem: Subsystem::Power,
                    payload: TelemetryPayload::Power(payload),
                },
            )
        } else if code == 1 {
            if len < start + 8 {
                return Err(ParserError::BufferTooShort);
            }
            let payload = ThermalData { temp_celsius: read_word(data, start) };
            Ok(
                TelemetryPacket {
                    timestamp,
                    subsystem: Subsystem::Thermal,
                    payload: TelemetryPayload::Thermal(payload),
                },
            )
        } else if code == 2 {
            if len < start + 57 {
                return Err(ParserError::BufferTooShort);
            }
            let mode = match data[start] {
                1 => AocsMode::Pointing,
                2 => AocsMode::Detumbling,
                _ => AocsMode::Safe,
            };
            let quaternion = [
                read_word(data, start + 1),
                read_word(data, start + 9),
                read_word(data, start + 17),
                read_word(data, start + 25),
            ];
            let angular_velocity = [
                read_word(data, start + 33),
                read_word(data, start + 41),
                read_word(data, start + 49),
            ];
            let payload = AocsData { mode, quaternion, angular_velocity };
            proof {
                assert forall|k: int| 0 <= k < 4 implies #[trigger] payload.quaternion@[k] == word(
                    data@,
                    12 + 8 * k,
                ) by {}
                assert forall|k: int| 0 <= k < 3 implies #[trigger] payload.angular_velocity@[k]
                    == word(data@, 44 + 8 * k) by {}
            }
            Ok(
                TelemetryPacket {
                    timestamp,
                    subsystem: Subsystem::Aocs,
                    payload: TelemetryPayload::Aocs(payload),
                },
            )
        } else if code == 3 {
            if len < start + 25 {
                return Err(ParserError::BufferTooShort);
            }
            let coordinates = CelestialCoordinates {
                right_ascension: read_word(data, start),
                declination: read_word(data, start + 8),
            };
            let confidence = read_word(data, start + 16);
            let target_id = if data[STAR_TEXT_LEN_AT] == 0 {
                None
            } else {
                match read_text(data, STAR_TEXT_LEN_AT) {
                    Ok(s) => Some(s),
                    Err(e) => {
                        return Err(e);
                    },
                }
            };
            if data[STAR_TEXT_LEN_AT] == 0 {
                proof {
                    assert(data@.subrange(36, 36) =~= Seq::<u8>::empty());
                }
            }
            Ok(
                TelemetryPacket {
                    timestamp,
                    subsystem: Subsystem::StarTracker,
                    payload: TelemetryPayload::StarTracker(
                        StarTrackerReading { target_id, coordinates, confidence },
                    ),
                },
            )
        } else if code == 4 {
            if len < start + 17 {
                return Err(ParserError::BufferTooShort);
            }
            let engine_status = match data[start + 16] {
                1 => EngineStatus::On,
                _ => EngineStatus::Off,
            };
            let payload = PropulsionData {
                fuel_level: read_word(data, start),
                pressure: read_word(data, start + 8),
                engine_status,
            };
            Ok(
                TelemetryPacket {
                    timestamp,
                    subsystem: Subsystem::Propulsion,
                    payload: TelemetryPayload::Propulsion(payload),
                },
            )
        } else if code == 5 {
            if len < start + 21 {
                return Err(ParserError::BufferTooShort);
            }
            let wavelength = read_word(data, start);
            let exposure_time = read_be(data, start + 8, 4) as u32;
            let data_size = read_word(data, start + 12);
            let instrument_id = match read_text(data, SCIENCE_TEXT_LEN_AT) {
                Ok(s) => s,
                Err(e) => {
                    return Err(e);
                },
            };
            Ok(
                TelemetryPacket {
                    timestamp,
                    subsystem: Subsystem::Science,
                    payload: TelemetryPayload::Science(
                        ScienceData { instrument_id, wavelength, exposure_time, data_size },
                    ),
                },
            )
        } else {
            Err(ParserError::InvalidSubsystem(code))
        }
    }
}

} // verus!
