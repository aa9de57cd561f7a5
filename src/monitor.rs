//! Threshold monitoring of decoded records.
use crate::decimal::{f64_fixed2, fixed2};
use crate::float_order::{f64_less, f64_lt};
use crate::models::{TelemetryPacket, TelemetryPayload};
use vstd::prelude::*;

verus! {

/// Severity of an alert, least severe first.
#[derive(Debug, Clone, Copy, PartialEq, Eq, Structural)]
pub enum AlertLevel {
    Info,
    Warning,
    Critical,
}

impl AlertLevel {
    /// Rank of the level in severity order.
    pub open spec fn severity(self) -> int {
        match self {
            AlertLevel::Info => 0,
            AlertLevel::Warning => 1,
            AlertLevel::Critical => 2,
        }
    }

    /// Whether `self` is less severe than `other`.
    pub fn is_below(&self, other: &AlertLevel) -> (r: bool)
        ensures
            r == (self.severity() < other.severity()),
    {
        match (self, other) {
            (AlertLevel::Info, AlertLevel::Warning) => true,
            (AlertLevel::Info, AlertLevel::Critical) => true,
            (AlertLevel::Warning, AlertLevel::Critical) => true,
            _ => false,
        }
    }
}

/// A threshold crossed by one record.
#[derive(Debug, Clone, PartialEq)]
pub struct Alert {
    pub level: AlertLevel,
    /// Names the offending value and the threshold, both with two decimals.
    pub message: String,
    /// Timestamp of the record that raised the alert.
    pub timestamp: u64,
}

/// The message of an alert of level `level`, given the reading's and the
/// threshold's decimal text.
pub open spec fn alert_text(level: AlertLevel, reading: Seq<char>, threshold: Seq<char>) -> Seq<
    char,
> {
    match level {
        AlertLevel::Critical => "Low Battery: "@ + reading + "% (Threshold: "@ + threshold + "%)"@,
        AlertLevel::Warning => "High Temperature: "@ + reading + "C (Threshold: "@ + threshold
            + "C)"@,
        AlertLevel::Info => "Low Star Confidence: "@ + reading + " (Threshold: "@ + threshold
            + ")"@,
    }
}

/// The message of an alert of level `level` on binary64 `reading` and `threshold`.
pub open spec fn alert_message_of(level: AlertLevel, reading: u64, threshold: u64) -> Seq<char> {
    alert_text(level, f64_fixed2(reading), f64_fixed2(threshold))
}

/// Builds the message of an alert of level `level`.
fn alert_message(level: AlertLevel, reading: u64, threshold: u64) -> (r: String)
    ensures
        r@ == alert_message_of(level, reading, threshold),
{
    let (head, middle, tail) = match level {
        AlertLevel::Critical => ("Low Battery: ", "% (Threshold: ", "%)"),
        AlertLevel::Warning => ("High Temperature: ", "C (Threshold: ", "C)"),
        AlertLevel::Info => ("Low Star Confidence: ", " (Threshold: ", ")"),
    };
    let mut s = String::from_str(head);
    s.append(fixed2(reading).as_str());
    s.append(middle);
    s.append(fixed2(threshold).as_str());
    s.append(tail);
    s
}

/// Bit pattern of 20.0, the default lowest battery charge.
pub const DEFAULT_MIN_BATTERY_LEVEL: u64 = 0x4034_0000_0000_0000;

/// Bit pattern of 80.0, the default highest temperature.
pub const DEFAULT_MAX_TEMP_CELSIUS: u64 = 0x4054_0000_0000_0000;

/// Bit pattern of 0.8, the default lowest star tracker confidence.
pub const DEFAULT_MIN_STAR_CONFIDENCE: u64 = 0x3FE9_9999_9999_999A;

/// Fixed thresholds, as binary64 bit patterns.
#[derive(Debug, Clone, Copy, PartialEq, Eq, Structural)]
pub struct Monitor {
    pub min_battery_level: u64,
    pub max_temp_celsius: u64,
    pub min_star_confidence: u64,
}

impl Default for Monitor {
    fn default() -> (r: Self)
        ensures
            r.min_battery_level == DEFAULT_MIN_BATTERY_LEVEL,
            r.max_temp_celsius == DEFAULT_MAX_TEMP_CELSIUS,
            r.min_star_confidence == DEFAULT_MIN_STAR_CONFIDENCE,
    {
        Monitor {
            min_battery_level: DEFAULT_MIN_BATTERY_LEVEL,
            max_temp_celsius: DEFAULT_MAX_TEMP_CELSIUS,
            min_star_confidence: DEFAULT_MIN_STAR_CONFIDENCE,
        }
    }
}

impl Monitor {
    /// A monitor with the given thresholds.
    pub fn new(min_battery_level: u64, max_temp_celsius: u64, min_star_confidence: u64) -> (r:
        Self)
        ensures
            r.min_battery_level == min_battery_level,
            r.max_temp_celsius == max_temp_celsius,
            r.min_star_confidence == min_star_confidence,
    {
        Monitor { min_battery_level, max_temp_celsius, min_star_confidence }
    }

    /// The rule that `packet` breaks, if any: the alert level, the reading
    /// and the threshold. One rule per payload shape, each a strict comparison.
    pub open spec fn breach(self, packet: TelemetryPacket) -> Option<(AlertLevel, u64, u64)> {
        match packet.payload {
            TelemetryPayload::Power(x) => if f64_lt(x.battery_level, self.min_battery_level) {
                Some((AlertLevel::Critical, x.battery_level, self.min_battery_level))
            } else {
                None
            },
            TelemetryPayload::Thermal(x) => if f64_lt(self.max_temp_celsius, x.temp_celsius) {
                Some((AlertLevel::Warning, x.temp_celsius, self.max_temp_celsius))
            } else {
                None
            },
            TelemetryPayload::StarTracker(x) => if f64_lt(x.confidence, self.min_star_confidence) {
                Some((AlertLevel::Info, x.confidence, self.min_star_confidence))
            } else {
                None
            },
            _ => None,
        }
    }

    /// Evaluates `packet` against the thresholds.
    pub fn analyze(&self, packet: &TelemetryPacket) -> (r: Option<Alert>)
        ensures
            match self.breach(*packet) {
                None => r is None,
                Some((level, reading, threshold)) => r matches Some(a) && a.level == level
                    && a.timestamp == packet.timestamp && a.message@ == alert_message_of(
                    level,
                    reading,
                    threshold,
                ),
            },
    {
        let (level, reading, threshold) = match &packet.payload {
            TelemetryPayload::Power(x) => {
                if !f64_less(x.battery_level, self.min_battery_level) {
                    return None;
                }
                (AlertLevel::Critical, x.battery_level, self.min_battery_level)
            },
            TelemetryPayload::Thermal(x) => {
                if !f64_less(self.max_temp_celsius, x.temp_celsius) {
                    return None;
                }
                (AlertLevel::Warning, x.temp_celsius, self.max_temp_celsius)
            },
            TelemetryPayload::StarTracker(x) => {
                if !f64_less(x.confidence, self.min_star_confidence) {
                    return None;
                }
                (AlertLevel::Info, x.confidence, self.min_star_confidence)
            },
            _ => {
                return None;
            },
        };
        Some(
            Alert {
                level,
                message: alert_message(level, reading, threshold),
                timestamp: packet.timestamp,
            },
        )
    }
}

} // verus!
