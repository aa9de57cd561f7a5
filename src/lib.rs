//! Decoding of spacecraft telemetry packets, and threshold alerts over the
//! decoded records.
//!
//! Floating-point quantities travel as their IEEE 754 binary64 bit patterns
//! (`u64`): `float_order` orders them and `decimal` writes them out, both on
//! exact integer arithmetic.
pub mod bytes;
pub mod decimal;
pub mod encoding;
pub mod float_order;
pub mod models;
pub mod monitor;
pub mod parser;
pub mod proofs;
pub mod simulation;

pub use models::{
    AocsData, AocsMode, CelestialCoordinates, EngineStatus, PowerData, PropulsionData, ScienceData,
    StarTrackerReading, Subsystem, TelemetryPacket, TelemetryPayload, ThermalData,
};
pub use monitor::{Alert, AlertLevel, Monitor};
pub use parser::{Parser, ParserError};
pub use simulation::generate_simulated_packets;
