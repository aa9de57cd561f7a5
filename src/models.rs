//! Decoded telemetry records.
//!
//! Every floating-point field holds the IEEE 754 binary64 bit pattern of its
//! value, exactly as it came off the wire.
use vstd::prelude::*;

verus! {

/// The spacecraft unit a packet comes from.
#[derive(Debug, Clone, Copy, PartialEq, Eq, Structural)]
pub enum Subsystem {
    Power,
    Thermal,
    /// Attitude and orbit control.
    Aocs,
    StarTracker,
    Propulsion,
    Science,
}

/// Operating mode of attitude control.
#[derive(Debug, Clone, Copy, PartialEq, Eq, Structural)]
pub enum AocsMode {
    Safe,
    Pointing,
    Detumbling,
}

/// Attitude control state.
#[derive(Debug, Clone, Copy, PartialEq)]
pub struct AocsData {
    pub mode: AocsMode,
    /// Attitude quaternion, in the order x, y, z, w.
    pub quaternion: [u64; 4],
    /// Angular velocity, in the order x, y, z.
    pub angular_velocity: [u64; 3],
}

/// Whether the engine fires.
#[derive(Debug, Clone, Copy, PartialEq, Eq, Structural)]
pub enum EngineStatus {
    Off,
    On,
}

/// Propulsion state.
#[derive(Debug, Clone, Copy, PartialEq, Eq, Structural)]
pub struct PropulsionData {
    /// Fuel left, in percent.
    pub fuel_level: u64,
    /// Tank pressure, in bar.
    pub pressure: u64,
    pub engine_status: EngineStatus,
}

/// One science exposure.
#[derive(Debug, Clone, PartialEq)]
pub struct ScienceData {
    pub instrument_id: String,
    /// Wavelength, in nanometres.
    pub wavelength: u64,
    /// Exposure time, in milliseconds.
    pub exposure_time: u32,
    /// Size of the exposure's data, in bytes.
    pub data_size: u64,
}

/// A direction on the sky, in degrees.
#[derive(Debug, Clone, Copy, PartialEq, Eq, Structural)]
pub struct CelestialCoordinates {
    pub right_ascension: u64,
    pub declination: u64,
}

/// Electrical power state.
#[derive(Debug, Clone, Copy, PartialEq, Eq, Structural)]
pub struct PowerData {
    /// Bus voltage, in volts.
    pub voltage: u64,
    /// Bus current, in amperes.
    pub current: u64,
    /// Battery charge, in percent.
    pub battery_level: u64,
}

/// A temperature reading.
#[derive(Debug, Clone, Copy, PartialEq, Eq, Structural)]
pub struct ThermalData {
    pub temp_celsius: u64,
}

/// A star tracker fix.
#[derive(Debug, Clone, PartialEq)]
pub struct StarTrackerReading {
    /// Name of the tracked star, when the packet gives one.
    pub target_id: Option<String>,
    pub coordinates: CelestialCoordinates,
    /// Confidence of the fix, by convention between 0 and 1.
    pub confidence: u64,
}

/// The subsystem-specific part of a record.
#[derive(Debug, Clone, PartialEq)]
pub enum TelemetryPayload {
    Power(PowerData),
    Thermal(ThermalData),
    Aocs(AocsData),
    StarTracker(StarTrackerReading),
    Propulsion(PropulsionData),
    Science(ScienceData),
    /// A payload of no known shape; the decoder never produces it.
    Unknown,
}

/// One decoded packet.
#[derive(Debug, Clone, PartialEq)]
pub struct TelemetryPacket {
    /// Seconds since the mission epoch.
    pub timestamp: u64,
    pub subsystem: Subsystem,
    pub payload: TelemetryPayload,
}

/// The subsystem whose shape `payload` has, if it has a known one.
pub open spec fn payload_subsystem(payload: TelemetryPayload) -> Option<Subsystem> {
    match payload {
        TelemetryPayload::Power(_) => Some(Subsystem::Power),
        TelemetryPayload::Thermal(_) => Some(Subsystem::Thermal),
        TelemetryPayload::Aocs(_) => Some(Subsystem::Aocs),
        TelemetryPayload::StarTracker(_) => Some(Subsystem::StarTracker),
        TelemetryPayload::Propulsion(_) => Some(Subsystem::Propulsion),
        TelemetryPayload::Science(_) => Some(Subsystem::Science),
        TelemetryPayload::Unknown => None,
    }
}

impl TelemetryPacket {
    /// The payload has the shape of the packet's subsystem.
    pub open spec fn wf(&self) -> bool {
        payload_subsystem(self.payload) == Some(self.subsystem)
    }
}

} // verus!
