use astro_monitor::parser::{Parser, ParserError};
use astro_monitor::simulation::generate_simulated_packets;
use astro_monitor::encoding::encode;
use astro_monitor::{
    AocsMode, CelestialCoordinates, EngineStatus, ScienceData, StarTrackerReading, Subsystem,
    TelemetryPacket, TelemetryPayload,
};

fn header(ts: u64, code: u8, declared: u16) -> Vec<u8> {
    let mut d = Vec::new();
    d.extend_from_slice(&ts.to_be_bytes());
    d.push(code);
    d.extend_from_slice(&declared.to_be_bytes());
    d
}

fn put(d: &mut Vec<u8>, x: f64) {
    d.extend_from_slice(&x.to_be_bytes());
}

fn power_packet(ts: u64, v: f64, c: f64, b: f64) -> Vec<u8> {
    let mut d = header(ts, 0, 24);
    put(&mut d, v);
    put(&mut d, c);
    put(&mut d, b);
    d
}

fn star_packet(ts: u64, ra: f64, dec: f64, conf: f64, name: &[u8]) -> Vec<u8> {
    let mut d = header(ts, 3, 0);
    put(&mut d, ra);
    put(&mut d, dec);
    put(&mut d, conf);
    d.push(name.len() as u8);
    d.extend_from_slice(name);
    d
}

fn science_packet(name: &[u8]) -> Vec<u8> {
    let mut d = header(42, 5, 99);
    put(&mut d, 656.3);
    d.extend_from_slice(&1500u32.to_be_bytes());
    d.extend_from_slice(&123_456_789_012u64.to_be_bytes());
    d.push(name.len() as u8);
    d.extend_from_slice(name);
    d
}

fn aocs_packet(mode: u8) -> Vec<u8> {
    let mut d = header(9, 2, 57);
    d.push(mode);
    for x in [0.1, -0.2, 0.3, 0.9, 1.5, -2.5, 0.0] {
        put(&mut d, x);
    }
    d
}

fn propulsion_packet(status: u8) -> Vec<u8> {
    let mut d = header(11, 4, 17);
    put(&mut d, 63.25);
    put(&mut d, 180.0);
    d.push(status);
    d
}

#[test]
fn round_trip_power() {
    let r = Parser::parse(&power_packet(1, 28.5, -2.0, 95.0)).unwrap();
    assert_eq!(r.timestamp, 1);
    assert_eq!(r.subsystem, Subsystem::Power);
    match r.payload {
        TelemetryPayload::Power(p) => {
            assert_eq!(p.voltage, 28.5f64.to_bits());
            assert_eq!(p.current, (-2.0f64).to_bits());
            assert_eq!(p.battery_level, 95.0f64.to_bits());
        }
        _ => panic!("wrong payload"),
    }
}

#[test]
fn round_trip_thermal() {
    let mut d = header(u64::MAX, 1, 8);
    put(&mut d, -273.15);
    let r = Parser::parse(&d).unwrap();
    assert_eq!(r.timestamp, u64::MAX);
    assert_eq!(r.subsystem, Subsystem::Thermal);
    match r.payload {
        TelemetryPayload::Thermal(t) => assert_eq!(t.temp_celsius, (-273.15f64).to_bits()),
        _ => panic!("wrong payload"),
    }
}

#[test]
fn round_trip_aocs() {
    let r = Parser::parse(&aocs_packet(1)).unwrap();
    assert_eq!(r.subsystem, Subsystem::Aocs);
    match r.payload {
        TelemetryPayload::Aocs(a) => {
            assert_eq!(a.mode, AocsMode::Pointing);
            assert_eq!(
                a.quaternion,
                [0.1f64.to_bits(), (-0.2f64).to_bits(), 0.3f64.to_bits(), 0.9f64.to_bits()]
            );
            assert_eq!(
                a.angular_velocity,
                [1.5f64.to_bits(), (-2.5f64).to_bits(), 0.0f64.to_bits()]
            );
        }
        _ => panic!("wrong payload"),
    }
}

#[test]
fn aocs_mode_falls_back_to_safe() {
    let modes = [(0u8, AocsMode::Safe), (2, AocsMode::Detumbling), (3, AocsMode::Safe), (200, AocsMode::Safe)];
    for (b, m) in modes {
        match Parser::parse(&aocs_packet(b)).unwrap().payload {
            TelemetryPayload::Aocs(a) => assert_eq!(a.mode, m),
            _ => panic!("wrong payload"),
        }
    }
}

#[test]
fn round_trip_propulsion_and_status_fallback() {
    for (b, s) in [(0u8, EngineStatus::Off), (1, EngineStatus::On), (2, EngineStatus::Off)] {
        let r = Parser::parse(&propulsion_packet(b)).unwrap();
        assert_eq!(r.subsystem, Subsystem::Propulsion);
        match r.payload {
            TelemetryPayload::Propulsion(p) => {
                assert_eq!(p.fuel_level, 63.25f64.to_bits());
                assert_eq!(p.pressure, 180.0f64.to_bits());
                assert_eq!(p.engine_status, s);
            }
            _ => panic!("wrong payload"),
        }
    }
}

#[test]
fn round_trip_science() {
    let r = Parser::parse(&science_packet("NIRSpec-\u{e9}".as_bytes())).unwrap();
    assert_eq!(r.timestamp, 42);
    assert_eq!(r.subsystem, Subsystem::Science);
    match r.payload {
        TelemetryPayload::Science(s) => {
            assert_eq!(s.instrument_id, "NIRSpec-\u{e9}");
            assert_eq!(s.wavelength, 656.3f64.to_bits());
            assert_eq!(s.exposure_time, 1500);
            assert_eq!(s.data_size, 123_456_789_012);
        }
        _ => panic!("wrong payload"),
    }
}

#[test]
fn science_empty_instrument_is_present() {
    match Parser::parse(&science_packet(b"")).unwrap().payload {
        TelemetryPayload::Science(s) => assert_eq!(s.instrument_id, ""),
        _ => panic!("wrong payload"),
    }
}

#[test]
fn star_tracker_without_name() {
    let r = Parser::parse(&star_packet(3, 1.0, 2.0, 0.5, b"")).unwrap();
    match r.payload {
        TelemetryPayload::StarTracker(s) => {
            assert_eq!(s.target_id, None);
            assert_eq!(s.confidence, 0.5f64.to_bits());
        }
        _ => panic!("wrong payload"),
    }
}

#[test]
fn star_tracker_with_thirteen_byte_name() {
    let name = "AlphaCentauri";
    assert_eq!(name.len(), 13);
    match Parser::parse(&star_packet(3, 1.0, 2.0, 0.5, name.as_bytes())).unwrap().payload {
        TelemetryPayload::StarTracker(s) => assert_eq!(s.target_id, Some(name.to_string())),
        _ => panic!("wrong payload"),
    }
}

#[test]
fn invalid_utf8_is_invalid_text() {
    let bad = [0x66u8, 0xff, 0xfe];
    assert_eq!(Parser::parse(&star_packet(3, 1.0, 2.0, 0.5, &bad)), Err(ParserError::InvalidText));
    assert_eq!(Parser::parse(&science_packet(&bad)), Err(ParserError::InvalidText));
    // a lone continuation byte
    assert_eq!(Parser::parse(&science_packet(&[0x80])), Err(ParserError::InvalidText));
}

#[test]
fn every_truncation_is_too_short() {
    let packets = vec![
        power_packet(1, 1.0, 2.0, 3.0),
        {
            let mut d = header(2, 1, 8);
            put(&mut d, 4.0);
            d
        },
        aocs_packet(2),
        star_packet(3, 1.0, 2.0, 0.5, b"Vega"),
        star_packet(3, 1.0, 2.0, 0.5, b""),
        propulsion_packet(1),
        science_packet(b"MIRI"),
    ];
    for p in packets {
        assert!(Parser::parse(&p).is_ok());
        for k in 0..p.len() {
            assert_eq!(Parser::parse(&p[..k]), Err(ParserError::BufferTooShort), "prefix {}", k);
        }
    }
}

#[test]
fn text_length_past_the_end_is_too_short() {
    let mut d = star_packet(3, 1.0, 2.0, 0.5, b"Deneb");
    d.pop();
    assert_eq!(Parser::parse(&d), Err(ParserError::BufferTooShort));
    let mut d = star_packet(3, 1.0, 2.0, 0.5, b"");
    d[35] = 255;
    assert_eq!(Parser::parse(&d), Err(ParserError::BufferTooShort));
}

#[test]
fn declared_length_is_ignored_and_trailing_bytes_allowed() {
    let mut d = power_packet(5, 1.0, 2.0, 3.0);
    d[9] = 0xff;
    d[10] = 0xff;
    d.extend_from_slice(&[1, 2, 3]);
    let r = Parser::parse(&d).unwrap();
    assert_eq!(r.subsystem, Subsystem::Power);
}

#[test]
fn simulated_packets_decode() {
    let packets = generate_simulated_packets();
    assert_eq!(packets.len(), 4);
    assert_eq!(packets[0], power_packet(1627849200, 28.0, 2.5, 90.0));
    assert_eq!(packets[2], star_packet(1627849220, 12.5, 45.0, 0.95, b"Sirius"));
    let subsystems: Vec<Subsystem> =
        packets.iter().map(|p| Parser::parse(p).unwrap().subsystem).collect();
    assert_eq!(
        subsystems,
        vec![Subsystem::Power, Subsystem::Thermal, Subsystem::StarTracker, Subsystem::Power]
    );
    match Parser::parse(&packets[1]).unwrap().payload {
        TelemetryPayload::Thermal(t) => assert_eq!(f64::from_bits(t.temp_celsius), 85.5),
        _ => panic!("wrong payload"),
    }
}

#[test]
fn encode_then_parse_gives_the_packet_back() {
    let star = TelemetryPacket {
        timestamp: 77,
        subsystem: Subsystem::StarTracker,
        payload: TelemetryPayload::StarTracker(StarTrackerReading {
            target_id: Some("Betelgeuse".to_string()),
            coordinates: CelestialCoordinates {
                right_ascension: 88.79f64.to_bits(),
                declination: 7.41f64.to_bits(),
            },
            confidence: 0.97f64.to_bits(),
        }),
    };
    let bytes = encode(&star);
    assert_eq!(bytes, {
        let mut d = star_packet(77, 88.79, 7.41, 0.97, b"Betelgeuse");
        d[9] = 0;
        d[10] = 35;
        d
    });
    assert_eq!(Parser::parse(&bytes).unwrap(), star);

    let science = TelemetryPacket {
        timestamp: 1,
        subsystem: Subsystem::Science,
        payload: TelemetryPayload::Science(ScienceData {
            instrument_id: "\u{3bb}-cam".to_string(),
            wavelength: 500.0f64.to_bits(),
            exposure_time: u32::MAX,
            data_size: u64::MAX,
        }),
    };
    let bytes = encode(&science);
    assert_eq!(&bytes[9..11], &[0u8, 27]);
    assert_eq!(Parser::parse(&bytes).unwrap(), science);

    for mode in [0u8, 1, 2] {
        let p = Parser::parse(&aocs_packet(mode)).unwrap();
        assert_eq!(encode(&p), aocs_packet(mode));
    }
    for status in [0u8, 1] {
        let p = Parser::parse(&propulsion_packet(status)).unwrap();
        assert_eq!(encode(&p), propulsion_packet(status));
    }
}
