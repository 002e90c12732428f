//! Improv WiFi provisioning over Bluetooth LE, with a local command channel.
//!
//! The library holds the packet codec, the credential extractor, the device
//! state machine and the coordinator state shared by the two front-ends.
//! Transports, the WiFi backend process and the program entry live outside.

pub mod improv;
pub mod protocol;
pub mod wifi;
pub mod ble;
pub mod websocket;
