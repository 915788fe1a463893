//! Sensor logic for an ESP32 station: readings, buzzer rule, echo timing,
//! JSON uplink framing and Wi-Fi bookkeeping, with contracts proved by Verus.
pub mod buzzer;
pub mod firmware;
pub mod http;
pub mod payload;
pub mod sensor_data;
pub mod text;
pub mod ultrasonic;
pub mod uplink;
pub mod wifi;
