//! A fixed set of sample packets.
use crate::encoding::{header_bytes, push_header, push_text, push_word, text_field, word_bytes};
use vstd::prelude::*;
use vstd::utf8::{encode_utf8, is_ascii_chars, is_ascii_chars_encode_utf8};

verus! {

/// Name of the star in the sample star tracker packet.
pub const SAMPLE_STAR: &'static str = "Sirius";

/// The sample packets: a nominal power packet, an overheating thermal
/// packet, a confident star tracker fix and a low-battery power packet.
/// Binary64 values are written as their bit patterns.
pub open spec fn simulated_packets() -> Seq<Seq<u8>> {
    seq![
        header_bytes(1627849200, 0, 24) + word_bytes(0x403C_0000_0000_0000) + word_bytes(
            0x4004_0000_0000_0000,
        ) + word_bytes(0x4056_8000_0000_0000),
        header_bytes(1627849210, 1, 8) + word_bytes(0x4055_6000_0000_0000),
        header_bytes(1627849220, 3, 0) + word_bytes(0x4029_0000_0000_0000) + word_bytes(
            0x4046_8000_0000_0000,
        ) + word_bytes(0x3FEE_6666_6666_6666) + text_field(encode_utf8(SAMPLE_STAR@)),
        header_bytes(1627849230, 0, 24) + word_bytes(0x4038_0000_0000_0000) + word_bytes(
            0x3FF0_0000_0000_0000,
        ) + word_bytes(0x402E_0000_0000_0000),
    ]
}

/// Builds the sample packets.
pub fn generate_simulated_packets() -> (r: Vec<Vec<u8>>)
    ensures
        r@.len() == 4,
        forall|i: int| 0 <= i < 4 ==> #[trigger] r@[i]@ == simulated_packets()[i],
{
    let mut packets: Vec<Vec<u8>> = Vec::new();

    let mut nominal: Vec<u8> = Vec::new();
    push_header(&mut nominal, 1627849200, 0, 24);
    push_word(&mut nominal, 0x403C_0000_0000_0000);
    push_word(&mut nominal, 0x4004_0000_0000_0000);
    push_word(&mut nominal, 0x4056_8000_0000_0000);
    assert(nominal@ =~= simulated_packets()[0]);
    packets.push(nominal);

    let mut hot: Vec<u8> = Vec::new();
    push_header(&mut hot, 1627849210, 1, 8);
    push_word(&mut hot, 0x4055_6000_0000_0000);
    assert(hot@ =~= simulated_packets()[1]);
    packets.push(hot);

    let mut fix: Vec<u8> = Vec::new();
    push_header(&mut fix, 1627849220, 3, 0);
    push_word(&mut fix, 0x4029_0000_0000_0000);
    push_word(&mut fix, 0x4046_8000_0000_0000);
    push_word(&mut fix, 0x3FEE_6666_6666_6666);
    let star = SAMPLE_STAR.as_bytes();
    proof {
        reveal_strlit("Sirius");
        assert(is_ascii_chars(SAMPLE_STAR@));
        is_ascii_chars_encode_utf8(SAMPLE_STAR@);
    }
    push_text(&mut fix, star);
    assert(fix@ =~= simulated_packets()[2]);
    packets.push(fix);

    let mut low_battery: Vec<u8> = Vec::new();
    push_header(&mut low_battery, 1627849230, 0, 24);
    push_word(&mut low_battery, 0x4038_0000_0000_0000);
    push_word(&mut low_battery, 0x3FF0_0000_0000_0000);
    push_word(&mut low_battery, 0x402E_0000_0000_0000);
    assert(low_battery@ =~= simulated_packets()[3]);
    packets.push(low_battery);

    packets
}

} // verus!
