//! Laws that relate decoding, encoding and monitoring.
use crate::bytes::{be_bytes, lemma_be_bytes_len, lemma_be_round_trip, pow256};
use crate::encoding::{encodable, encode_packet, payload_bytes, subsystem_code, target_bytes, word_bytes};
use crate::float_order::f64_lt;
use crate::models::{TelemetryPacket, TelemetryPayload};
use crate::monitor::{AlertLevel, Monitor};
use crate::parser::{decode_error, packet_of, text_bytes, word, ParserError};
use vstd::prelude::*;
use vstd::utf8::{
    decode_utf8, encode_utf8, encode_utf8_decode_utf8, encode_utf8_valid_utf8, valid_utf8,
};

verus! {

broadcast use lemma_be_bytes_len, encode_utf8_decode_utf8, encode_utf8_valid_utf8;

/// A word laid out with `word_bytes` reads back as itself.
proof fn lemma_word_at(d: Seq<u8>, at: int, x: u64)
    requires
        0 <= at,
        at + 8 <= d.len(),
        d.subrange(at, at + 8) == word_bytes(x),
    ensures
        word(d, at) == x,
{
    reveal_with_fuel(pow256, 9);
    lemma_be_round_trip(x as nat, 8);
}

/// The header of an encoded packet reads back.
proof fn lemma_header(p: TelemetryPacket, declared_len: u16)
    ensures
        ({
            let d = encode_packet(p, declared_len);
            &&& d.len() == 11 + payload_bytes(p.payload).len()
            &&& word(d, 0) == p.timestamp
            &&& d[8] == subsystem_code(p.subsystem)
            &&& d.subrange(11, d.len() as int) == payload_bytes(p.payload)
        }),
{
    let d = encode_packet(p, declared_len);
    assert(d.subrange(0, 8) =~= word_bytes(p.timestamp));
    lemma_word_at(d, 0, p.timestamp);
    assert(d.subrange(11, d.len() as int) =~= payload_bytes(p.payload));
}

/// Round trip: a packet laid out on the wire decodes to that same packet,
/// whatever its declared length says.
pub proof fn lemma_round_trip(p: TelemetryPacket, declared_len: u16)
    requires
        encodable(p),
    ensures
        decode_error(encode_packet(p, declared_len)) is None,
        packet_of(encode_packet(p, declared_len), p),
{
    let d = encode_packet(p, declared_len);
    let b = payload_bytes(p.payload);
    lemma_header(p, declared_len);
    match p.payload {
        TelemetryPayload::Power(x) => {
            assert(d.subrange(11, 19) =~= word_bytes(x.voltage));
            assert(d.subrange(19, 27) =~= word_bytes(x.current));
            assert(d.subrange(27, 35) =~= word_bytes(x.battery_level));
            lemma_word_at(d, 11, x.voltage);
            lemma_word_at(d, 19, x.current);
            lemma_word_at(d, 27, x.battery_level);
        },
        TelemetryPayload::Thermal(x) => {
            assert(d.subrange(11, 19) =~= word_bytes(x.temp_celsius));
            lemma_word_at(d, 11, x.temp_celsius);
        },
        TelemetryPayload::Aocs(x) => {
            let q = x.quaternion@;
            let w = x.angular_velocity@;
            assert(d.subrange(12, 20) =~= word_bytes(q[0]));
            assert(d.subrange(20, 28) =~= word_bytes(q[1]));
            assert(d.subrange(28, 36) =~= word_bytes(q[2]));
            assert(d.subrange(36, 44) =~= word_bytes(q[3]));
            assert(d.subrange(44, 52) =~= word_bytes(w[0]));
            assert(d.subrange(52, 60) =~= word_bytes(w[1]));
            assert(d.subrange(60, 68) =~= word_bytes(w[2]));
            lemma_word_at(d, 12, q[0]);
            lemma_word_at(d, 20, q[1]);
            lemma_word_at(d, 28, q[2]);
            lemma_word_at(d, 36, q[3]);
            lemma_word_at(d, 44, w[0]);
            lemma_word_at(d, 52, w[1]);
            lemma_word_at(d, 60, w[2]);
            assert(d[11] == b[0]);
            assert forall|k: int| 0 <= k < 4 implies #[trigger] q[k] == word(d, 12 + 8 * k) by {
                if k == 0 {
                } else if k == 1 {
                } else if k == 2 {
                } else {
                }
            }
            assert forall|k: int| 0 <= k < 3 implies #[trigger] w[k] == word(d, 44 + 8 * k) by {
                if k == 0 {
                } else if k == 1 {
                } else {
                }
            }
        },
        TelemetryPayload::StarTracker(x) => {
            let t = target_bytes(x.target_id);
            assert(d.subrange(11, 19) =~= word_bytes(x.coordinates.right_ascension));
            assert(d.subrange(19, 27) =~= word_bytes(x.coordinates.declination));
            assert(d.subrange(27, 35) =~= word_bytes(x.confidence));
            lemma_word_at(d, 11, x.coordinates.right_ascension);
            lemma_word_at(d, 19, x.coordinates.declination);
            lemma_word_at(d, 27, x.confidence);
            assert(d[35] == b[24]);
            assert(d.subrange(36, 36 + t.len() as int) =~= t);
        },
        TelemetryPayload::Propulsion(x) => {
            assert(d.subrange(11, 19) =~= word_bytes(x.fuel_level));
            assert(d.subrange(19, 27) =~= word_bytes(x.pressure));
            lemma_word_at(d, 11, x.fuel_level);
            lemma_word_at(d, 19, x.pressure);
            assert(d[27] == b[16]);
        },
        TelemetryPayload::Science(x) => {
            let t = encode_utf8(x.instrument_id@);
            assert(d.subrange(11, 19) =~= word_bytes(x.wavelength));
            assert(d.subrange(19, 23) =~= be_bytes(x.exposure_time as nat, 4));
            assert(d.subrange(23, 31) =~= word_bytes(x.data_size));
            lemma_word_at(d, 11, x.wavelength);
            lemma_word_at(d, 23, x.data_size);
            reveal_with_fuel(pow256, 5);
            lemma_be_round_trip(x.exposure_time as nat, 4);
            assert(d[31] == b[20]);
            assert(d.subrange(32, 32 + t.len() as int) =~= t);
        },
        TelemetryPayload::Unknown => {},
    }
}

/// Truncation: every proper prefix of an encoded packet fails to decode
/// with `BufferTooShort`.
pub proof fn lemma_truncated(p: TelemetryPacket, declared_len: u16, k: int)
    requires
        encodable(p),
        0 <= k < encode_packet(p, declared_len).len(),
    ensures
        decode_error(encode_packet(p, declared_len).take(k)) == Some(ParserError::BufferTooShort),
{
    let d = encode_packet(p, declared_len);
    let b = payload_bytes(p.payload);
    let t = d.take(k);
    lemma_header(p, declared_len);
    if k >= 11 {
        assert(t[8] == d[8]);
        match p.payload {
            TelemetryPayload::StarTracker(x) => {
                assert(d[35] == b[24]);
                if k > 35 {
                    assert(t[35] == d[35]);
                }
            },
            TelemetryPayload::Science(x) => {
                assert(d[31] == b[20]);
                if k > 31 {
                    assert(t[31] == d[31]);
                }
            },
            _ => {},
        }
    }
}

/// An unknown subsystem code fails decoding with that code, once the
/// header is complete.
pub proof fn lemma_unknown_code(d: Seq<u8>)
    requires
        d.len() >= 11,
        d[8] > 5,
    ensures
        decode_error(d) == Some(ParserError::InvalidSubsystem(d[8])),
{
}

/// A star tracker packet with a zero text length has no target; one whose
/// text is well-formed UTF-8 has that text as its target.
pub proof fn lemma_star_target(d: Seq<u8>, p: TelemetryPacket)
    requires
        d.len() >= 36,
        d[8] == 3,
        d.len() >= 36 + d[35],
        d[35] == 0 || valid_utf8(text_bytes(d)),
    ensures
        decode_error(d) is None,
        packet_of(d, p) ==> (p.payload matches TelemetryPayload::StarTracker(x) && (d[35] == 0
            ==> x.target_id is None) && (d[35] > 0 ==> (x.target_id matches Some(s) && s@
            == decode_utf8(text_bytes(d))))),
{
}

/// A reading equal to its threshold raises no alert: every comparison is
/// strict.
pub proof fn lemma_at_threshold_no_alert(m: Monitor, p: TelemetryPacket)
    requires
        match p.payload {
            TelemetryPayload::Power(x) => x.battery_level == m.min_battery_level,
            TelemetryPayload::Thermal(x) => x.temp_celsius == m.max_temp_celsius,
            TelemetryPayload::StarTracker(x) => x.confidence == m.min_star_confidence,
            _ => true,
        },
    ensures
        m.breach(p) is None,
{
}

/// A battery charge below the lowest allowed raises a critical alert on
/// the charge and the threshold.
pub proof fn lemma_low_battery_alert(m: Monitor, p: TelemetryPacket)
    requires
        p.payload matches TelemetryPayload::Power(x) && f64_lt(x.battery_level, m.min_battery_level),
    ensures
        m.breach(p) == Some(
            (AlertLevel::Critical, p.payload->Power_0.battery_level, m.min_battery_level),
        ),
{
}

/// Two buffers that agree outside the declared length field agree on every
/// field that decoding reads.
proof fn lemma_same_field(d: Seq<u8>, e: Seq<u8>, at: int, n: int)
    requires
        d.len() == e.len(),
        forall|i: int| 0 <= i < d.len() && i != 9 && i != 10 ==> d[i] == e[i],
        0 <= n,
        at + n <= d.len(),
        at >= 11 || (0 <= at && at + n <= 9),
    ensures
        d.subrange(at, at + n) == e.subrange(at, at + n),
{
    assert(d.subrange(at, at + n) =~= e.subrange(at, at + n));
}

/// The declared payload length is never checked: buffers that differ only
/// there decode alike.
pub proof fn lemma_declared_length_ignored(d: Seq<u8>, e: Seq<u8>, p: TelemetryPacket)
    requires
        d.len() == e.len(),
        forall|i: int| 0 <= i < d.len() && i != 9 && i != 10 ==> d[i] == e[i],
    ensures
        decode_error(d) == decode_error(e),
        decode_error(d) is None ==> (packet_of(d, p) <==> packet_of(e, p)),
{
    if d.len() >= 11 {
        assert(d[8] == e[8]);
        lemma_same_field(d, e, 0, 8);
        if d.len() >= 11 + crate::parser::fixed_payload_len(d[8]) {
            if d[8] == 2 {
                lemma_same_field(d, e, 12, 8);
                lemma_same_field(d, e, 20, 8);
                lemma_same_field(d, e, 28, 8);
                lemma_same_field(d, e, 36, 8);
                lemma_same_field(d, e, 44, 8);
                lemma_same_field(d, e, 52, 8);
                lemma_same_field(d, e, 60, 8);
                assert(d[11] == e[11]);
                assert forall|k: int| 0 <= k < 4 implies #[trigger] word(d, 12 + 8 * k) == word(
                    e,
                    12 + 8 * k,
                ) by {
                    if k == 0 {
                    } else if k == 1 {
                    } else if k == 2 {
                    } else {
                    }
                }
                assert forall|k: int| 0 <= k < 3 implies #[trigger] word(d, 44 + 8 * k) == word(
                    e,
                    44 + 8 * k,
                ) by {
                    if k == 0 {
                    } else if k == 1 {
                    } else {
                    }
                }
            } else {
                lemma_same_field(d, e, 11, 8);
                if d[8] != 1 {
                    lemma_same_field(d, e, 19, 8);
                    assert(d[27] == e[27]);
                }
                if d[8] == 5 {
                    lemma_same_field(d, e, 19, 4);
                    lemma_same_field(d, e, 23, 8);
                    assert(d[31] == e[31]);
                }
                if d[8] == 0 || d[8] == 3 {
                    lemma_same_field(d, e, 27, 8);
                }
                if d[8] == 3 {
                    assert(d[35] == e[35]);
                }
                if (d[8] == 3 || d[8] == 5) && d.len() >= crate::parser::text_len_at(d[8]) + 1
                    + d[crate::parser::text_len_at(d[8])] {
                    let at = crate::parser::text_len_at(d[8]);
                    lemma_same_field(d, e, at + 1, d[at] as int);
                }
            }
        }
    }
}

} // verus!
