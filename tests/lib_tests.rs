use astro_monitor::monitor::{AlertLevel, Monitor};
use astro_monitor::parser::{Parser, ParserError};
use astro_monitor::{Subsystem, TelemetryPacket, TelemetryPayload, PowerData};

#[test]
fn test_parse_power() {
    let mut data = Vec::new();
    let timestamp: u64 = 1627849200;
    data.extend_from_slice(&timestamp.to_be_bytes());
    data.push(0);
    data.extend_from_slice(&(24u16).to_be_bytes());

    let voltage = 28.5f64;
    let current = 2.0f64;
    let battery = 95.0f64;

    data.extend_from_slice(&voltage.to_be_bytes());
    data.extend_from_slice(&current.to_be_bytes());
    data.extend_from_slice(&battery.to_be_bytes());

    let result = Parser::parse(&data).unwrap();

    assert_eq!(result.timestamp, timestamp);
    assert_eq!(result.subsystem, Subsystem::Power);

    if let TelemetryPayload::Power(p) = result.payload {
        assert_eq!(f64::from_bits(p.voltage), voltage);
        assert_eq!(f64::from_bits(p.current), current);
        assert_eq!(f64::from_bits(p.battery_level), battery);
    } else {
        panic!("Wrong payload type");
    }
}

#[test]
fn test_parse_star_tracker() {
    let mut data = Vec::new();
    let timestamp: u64 = 1627849200;
    data.extend_from_slice(&timestamp.to_be_bytes());
    data.push(3);
    data.extend_from_slice(&(0u16).to_be_bytes());

    let ra = 120.5f64;
    let dec = -30.2f64;
    let conf = 0.99f64;
    let target_id = "AlphaCentauri";

    data.extend_from_slice(&ra.to_be_bytes());
    data.extend_from_slice(&dec.to_be_bytes());
    data.extend_from_slice(&conf.to_be_bytes());
    data.push(target_id.len() as u8);
    data.extend_from_slice(target_id.as_bytes());

    let result = Parser::parse(&data).unwrap();

    if let TelemetryPayload::StarTracker(s) = result.payload {
        assert_eq!(f64::from_bits(s.coordinates.right_ascension), ra);
        assert_eq!(f64::from_bits(s.coordinates.declination), dec);
        assert_eq!(f64::from_bits(s.confidence), conf);
        assert_eq!(s.target_id, Some(target_id.to_string()));
    } else {
        panic!("Wrong payload type");
    }
}

#[test]
fn test_monitor_alerts() {
    let monitor = Monitor::default();

    let packet = TelemetryPacket {
        timestamp: 100,
        subsystem: Subsystem::Power,
        payload: TelemetryPayload::Power(PowerData {
            voltage: 20.0f64.to_bits(),
            current: 1.0f64.to_bits(),
            battery_level: 10.0f64.to_bits(),
        }),
    };

    let alert = monitor.analyze(&packet);
    assert!(alert.is_some());
    assert_eq!(alert.unwrap().level, AlertLevel::Critical);

    let packet_good = TelemetryPacket {
        timestamp: 101,
        subsystem: Subsystem::Power,
        payload: TelemetryPayload::Power(PowerData {
            voltage: 28.0f64.to_bits(),
            current: 1.0f64.to_bits(),
            battery_level: 50.0f64.to_bits(),
        }),
    };
    assert!(monitor.analyze(&packet_good).is_none());
}

#[test]
fn unknown_code_is_rejected() {
    let mut data = Vec::new();
    data.extend_from_slice(&7u64.to_be_bytes());
    data.push(6);
    data.extend_from_slice(&(0u16).to_be_bytes());
    data.extend_from_slice(&[0u8; 40]);
    assert_eq!(Parser::parse(&data), Err(ParserError::InvalidSubsystem(6)));
    data[8] = 255;
    assert_eq!(Parser::parse(&data), Err(ParserError::InvalidSubsystem(255)));
}

#[test]
fn short_header_is_too_short() {
    assert_eq!(Parser::parse(&[]), Err(ParserError::BufferTooShort));
    // an unknown code in a header that is not complete
    let data = [0u8, 0, 0, 0, 0, 0, 0, 1, 9, 0];
    assert_eq!(Parser::parse(&data), Err(ParserError::BufferTooShort));
}

#[test]
fn alert_message_names_both_values() {
    let monitor = Monitor::default();
    let packet = TelemetryPacket {
        timestamp: 5,
        subsystem: Subsystem::Power,
        payload: TelemetryPayload::Power(PowerData {
            voltage: 28.0f64.to_bits(),
            current: 1.0f64.to_bits(),
            battery_level: 19.0f64.to_bits(),
        }),
    };
    let alert = monitor.analyze(&packet).unwrap();
    assert_eq!(alert.message, "Low Battery: 19.00% (Threshold: 20.00%)");
    assert_eq!(alert.timestamp, 5);
}
