//! The wire layout as an encoding, and the writers that lay packets out.
use crate::bytes::{be_bytes, lemma_be_bytes_len};
use crate::models::{
    AocsMode, EngineStatus, Subsystem, TelemetryPacket, TelemetryPayload,
};
use vstd::prelude::*;
use vstd::utf8::encode_utf8;

verus! {

/// The 8 bytes of `x`, most significant first.
pub open spec fn word_bytes(x: u64) -> Seq<u8> {
    be_bytes(x as nat, 8)
}

/// The 11-byte header.
pub open spec fn header_bytes(timestamp: u64, code: u8, declared_len: u16) -> Seq<u8> {
    word_bytes(timestamp) + seq![code] + be_bytes(declared_len as nat, 2)
}

/// A text field: its length byte, then its bytes.
pub open spec fn text_field(t: Seq<u8>) -> Seq<u8> {
    seq![t.len() as u8] + t
}

/// The code of a subsystem on the wire.
pub open spec fn subsystem_code(s: Subsystem) -> u8 {
    match s {
        Subsystem::Power => 0,
        Subsystem::Thermal => 1,
        Subsystem::Aocs => 2,
        Subsystem::StarTracker => 3,
        Subsystem::Propulsion => 4,
        Subsystem::Science => 5,
    }
}

/// The byte of an attitude mode.
pub open spec fn aocs_mode_code(m: AocsMode) -> u8 {
    match m {
        AocsMode::Safe => 0,
        AocsMode::Pointing => 1,
        AocsMode::Detumbling => 2,
    }
}

/// The byte of an engine status.
pub open spec fn engine_status_code(e: EngineStatus) -> u8 {
    match e {
        EngineStatus::Off => 0,
        EngineStatus::On => 1,
    }
}

/// The UTF-8 bytes of an optional star name; an absent one has none.
pub open spec fn target_bytes(t: Option<String>) -> Seq<u8> {
    match t {
        None => Seq::empty(),
        Some(s) => encode_utf8(s@),
    }
}

/// The payload bytes of `p`.
pub open spec fn payload_bytes(p: TelemetryPayload) -> Seq<u8> {
    match p {
        TelemetryPayload::Power(x) => word_bytes(x.voltage) + word_bytes(x.current) + word_bytes(
            x.battery_level,
        ),
        TelemetryPayload::Thermal(x) => word_bytes(x.temp_celsius),
        TelemetryPayload::Aocs(x) => seq![aocs_mode_code(x.mode)] + word_bytes(x.quaternion@[0])
            + word_bytes(x.quaternion@[1]) + word_bytes(x.quaternion@[2]) + word_bytes(
            x.quaternion@[3],
        ) + word_bytes(x.angular_velocity@[0]) + word_bytes(x.angular_velocity@[1]) + word_bytes(
            x.angular_velocity@[2],
        ),
        TelemetryPayload::StarTracker(x) => word_bytes(x.coordinates.right_ascension) + word_bytes(
            x.coordinates.declination,
        ) + word_bytes(x.confidence) + text_field(target_bytes(x.target_id)),
        TelemetryPayload::Propulsion(x) => word_bytes(x.fuel_level) + word_bytes(x.pressure)
            + seq![engine_status_code(x.engine_status)],
        TelemetryPayload::Science(x) => word_bytes(x.wavelength) + be_bytes(
            x.exposure_time as nat,
            4,
        ) + word_bytes(x.data_size) + text_field(encode_utf8(x.instrument_id@)),
        TelemetryPayload::Unknown => Seq::empty(),
    }
}

/// The packet `p` laid out on the wire, with `declared_len` in its length field.
pub open spec fn encode_packet(p: TelemetryPacket, declared_len: u16) -> Seq<u8> {
    header_bytes(p.timestamp, subsystem_code(p.subsystem), declared_len) + payload_bytes(
        p.payload,
    )
}

/// `p` can be laid out: each text fits its length byte, and a star name that
/// is present is not empty (an empty one reads back as absent).
pub open spec fn encodable(p: TelemetryPacket) -> bool {
    &&& p.wf()
    &&& texts_fit(p.payload)
    &&& p.payload matches TelemetryPayload::StarTracker(x) ==> (x.target_id matches Some(s) ==> 0
        < encode_utf8(s@).len())
}

/// Appends the `n` bytes of `x`, most significant first.
pub fn push_be(out: &mut Vec<u8>, x: u64, n: usize)
    ensures
        final(out)@ == old(out)@ + be_bytes(x as nat, n as nat),
    decreases n,
{
    if n == 0 {
        assert(old(out)@ + be_bytes(x as nat, 0) =~= old(out)@);
        return ;
    }
    push_be(out, x / 256, n - 1);
    out.push((x % 256) as u8);
    proof {
        assert(final(out)@ =~= old(out)@ + be_bytes(x as nat, n as nat));
    }
}

/// Appends a text field: the length byte, then the bytes of `text`.
pub fn push_text(out: &mut Vec<u8>, text: &[u8])
    requires
        text@.len() <= 255,
    ensures
        final(out)@ == old(out)@ + text_field(text@),
{
    out.push(text.len() as u8);
    let mut i: usize = 0;
    while i < text.len()
        invariant
            i <= text@.len() <= 255,
            out@ == old(out)@ + seq![text@.len() as u8] + text@.subrange(0, i as int),
        decreases text@.len() - i,
    {
        out.push(text[i]);
        i = i + 1;
        proof {
            assert(out@ =~= old(out)@ + seq![text@.len() as u8] + text@.subrange(0, i as int));
        }
    }
    proof {
        assert(text@.subrange(0, text@.len() as int) =~= text@);
        assert(out@ =~= old(out)@ + text_field(text@));
    }
}

/// The texts of `p` fit their length bytes.
pub open spec fn texts_fit(p: TelemetryPayload) -> bool {
    match p {
        TelemetryPayload::StarTracker(x) => target_bytes(x.target_id).len() <= 255,
        TelemetryPayload::Science(x) => encode_utf8(x.instrument_id@).len() <= 255,
        _ => true,
    }
}

/// Appends the 8 bytes of `x`.
pub fn push_word(out: &mut Vec<u8>, x: u64)
    ensures
        final(out)@ == old(out)@ + word_bytes(x),
{
    push_be(out, x, 8);
}

/// Appends the 11-byte header.
pub fn push_header(out: &mut Vec<u8>, timestamp: u64, code: u8, declared_len: u16)
    ensures
        final(out)@ == old(out)@ + header_bytes(timestamp, code, declared_len),
{
    push_be(out, timestamp, 8);
    out.push(code);
    push_be(out, declared_len as u64, 2);
    proof {
        assert(final(out)@ =~= old(out)@ + header_bytes(timestamp, code, declared_len));
    }
}

/// The number of payload bytes of `p`.
fn payload_len(p: &TelemetryPayload) -> (n: u16)
    requires
        texts_fit(*p),
    ensures
        n == payload_bytes(*p).len(),
{
    broadcast use lemma_be_bytes_len;

    match p {
        TelemetryPayload::Power(_) => 24,
        TelemetryPayload::Thermal(_) => 8,
        TelemetryPayload::Aocs(_) => 57,
        TelemetryPayload::StarTracker(x) => match &x.target_id {
            Some(s) => 25 + s.as_str().as_bytes().len() as u16,
            None => 25,
        },
        TelemetryPayload::Propulsion(_) => 17,
        TelemetryPayload::Science(x) => 21 + x.instrument_id.as_str().as_bytes().len() as u16,
        TelemetryPayload::Unknown => 0,
    }
}

/// Appends the payload bytes of `p`.
#[verifier::rlimit(30)]
fn push_payload(out: &mut Vec<u8>, p: &TelemetryPayload)
    requires
        texts_fit(*p),
    ensures
        final(out)@ == old(out)@ + payload_bytes(*p),
{
    match p {
        TelemetryPayload::Power(x) => {
            push_word(out, x.voltage);
            push_word(out, x.current);
            push_word(out, x.battery_level);
        },
        TelemetryPayload::Thermal(x) => {
            push_word(out, x.temp_celsius);
        },
        TelemetryPayload::Aocs(x) => {
            let mode: u8 = match x.mode {
                AocsMode::Safe => 0,
                AocsMode::Pointing => 1,
                AocsMode::Detumbling => 2,
            };
            out.push(mode);
            push_word(out, x.quaternion[0]);
            push_word(out, x.quaternion[1]);
            push_word(out, x.quaternion[2]);
            push_word(out, x.quaternion[3]);
            push_word(out, x.angular_velocity[0]);
            push_word(out, x.angular_velocity[1]);
            push_word(out, x.angular_velocity[2]);
        },
        TelemetryPayload::StarTracker(x) => {
            let text: &[u8] = match &x.target_id {
                Some(s) => s.as_str().as_bytes(),
                None => &[],
            };
            assert(text@ =~= target_bytes(x.target_id));
            push_word(out, x.coordinates.right_ascension);
            push_word(out, x.coordinates.declination);
            push_word(out, x.confidence);
            push_text(out, text);
        },
        TelemetryPayload::Propulsion(x) => {
            push_word(out, x.fuel_level);
            push_word(out, x.pressure);
            let status: u8 = match x.engine_status {
                EngineStatus::Off => 0,
                EngineStatus::On => 1,
            };
            out.push(status);
        },
        TelemetryPayload::Science(x) => {
            let text = x.instrument_id.as_str().as_bytes();
            push_word(out, x.wavelength);
            push_be(out, x.exposure_time as u64, 4);
            push_word(out, x.data_size);
            push_text(out, text);
        },
        TelemetryPayload::Unknown => {},
    }
    proof {
        assert(final(out)@ =~= old(out)@ + payload_bytes(*p));
    }
}

/// Lays `p` out on the wire, declaring the length of its payload.
pub fn encode(p: &TelemetryPacket) -> (r: Vec<u8>)
    requires
        texts_fit(p.payload),
    ensures
        r@ == encode_packet(*p, payload_bytes(p.payload).len() as u16),
{
    let code: u8 = match p.subsystem {
        Subsystem::Power => 0,
        Subsystem::Thermal => 1,
        Subsystem::Aocs => 2,
        Subsystem::StarTracker => 3,
        Subsystem::Propulsion => 4,
        Subsystem::Science => 5,
    };
    let mut out: Vec<u8> = Vec::new();
    push_header(&mut out, p.timestamp, code, payload_len(&p.payload));
    push_payload(&mut out, &p.payload);
    proof {
        assert(out@ =~= encode_packet(*p, payload_bytes(p.payload).len() as u16));
    }
    out
}

} // verus!
