//! The decisions of a Wi-Fi connected zap counter: what its LED shows, what it tells the broker
//! and the telemetry server, and how it keeps its connections.
//!
//! Two firmwares share them. The asynchronous one drives [`blink::LedTask`], [`wifi::WifiTask`],
//! [`session::MqttTask`] and [`thingsboard::TelemetryTask`] from its tasks; the threaded one
//! works on a [`state::State`] that its threads share.
pub mod blink;
pub mod clock;
pub mod led;
pub mod mqtt;
pub mod protocol;
pub mod request;
pub mod secrets;
pub mod session;
pub mod state;
pub mod text;
pub mod thingsboard;
pub mod wifi;
pub mod ws2812;
pub mod zap;
