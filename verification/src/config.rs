//! Firmware constants: version, configuration access point, intervals and
//! the defaults of the persisted settings.

use vstd::prelude::*;

verus! {

/// Firmware version shown on the splash screen, in logs and by `/status`.
pub const VERSION: &'static str = "V0.1.17";

/// SSID of the configuration access point.
pub const AP_SSID_DEF: &'static str = "AIR-SCAN-CONFIG";

/// Password of the configuration access point.
pub const AP_PASS_DEF: &'static str = "12345678";

/// How long one saved network may take to connect at boot.
pub const WIFI_TIMEOUT_MS: u64 = 10000;

/// How many networks are remembered.
pub const MAX_WIFI_NETWORKS: usize = 5;

/// Backlight PWM duty at full brightness (10-bit LEDC resolution).
pub const BL_FULL_DUTY: u32 = 1024;

/// Default dimmed backlight duty at night.
pub const NIGHT_DIM_LEVEL: u32 = 40;

/// Night mode is off by default.
pub const NIGHT_ON_DEF: bool = false;

/// Default start hour of the night window.
pub const NIGHT_START_H_DEF: i32 = 23;

/// Default end hour of the night window.
pub const NIGHT_END_H_DEF: i32 = 7;

/// Samples in the CO2 history graph.
pub const GRAPH_SAMPLES: usize = 60;

/// Time between two CO2 history samples.
pub const GRAPH_INTERVAL_MS: u64 = 30000;

/// Time between two refreshes of the readings on screen.
pub const DISPLAY_UPDATE_INTERVAL_MS: u64 = 5000;

/// Default time between two MQTT publications.
pub const MQTT_INTERVAL_MS: u64 = 10000;

/// Time between two MQTT connection attempts.
pub const MQTT_RETRY_INTERVAL_MS: u64 = 15000;

/// Topic the readings are published to.
pub const MQTT_TOPIC: &'static str = "air/status";

} // verus!
