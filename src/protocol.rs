//! Command-channel messages: commands from local clients and the responses
//! sent back to them.

use vstd::prelude::*;
use vstd::string::*;

verus! {

/// Commands received from local clients.
#[derive(Debug, Clone, Copy, PartialEq, Eq, Structural)]
pub enum Command {
    /// Start BLE advertising, stopping after `timeout` seconds.
    Start { timeout: u32 },
    /// Stop BLE advertising.
    Stop,
    /// Get current daemon status.
    Status,
    /// Scan for available WiFi networks.
    Scan,
}

/// Advertising timeout of a start command that names none: five minutes.
pub fn default_timeout() -> (r: u32)
    ensures
        r == 300,
{
    300
}

/// Daemon state reported in responses.
#[derive(Debug, Clone, Copy, PartialEq, Eq, Structural)]
pub enum State {
    /// Not advertising, waiting for trigger.
    Idle,
    /// BLE advertising active.
    Advertising,
    /// A BLE client is connected.
    Connected,
    /// WiFi provisioning in progress.
    Provisioning,
}

/// Response to a command.
#[derive(Debug, Clone, PartialEq)]
pub enum Response {
    /// Successful response with state info.
    Success(OkResponse),
    /// Error response.
    Error(ErrorResponse),
}

/// Successful response payload.
#[derive(Debug, Clone, PartialEq)]
pub struct OkResponse {
    pub ok: bool,
    pub state: State,
    /// Seconds remaining until advertising timeout (only when advertising).
    pub remaining: Option<u32>,
    /// Whether WiFi is currently connected.
    pub wifi_connected: Option<bool>,
    /// Available networks (only for scan response).
    pub networks: Option<Vec<Network>>,
}

impl OkResponse {
    /// A successful response that reports only the state.
    pub fn new(state: State) -> (r: Self)
        ensures
            r.ok,
            r.state == state,
            r.remaining is None,
            r.wifi_connected is None,
            r.networks is None,
    {
        OkResponse { ok: true, state, remaining: None, wifi_connected: None, networks: None }
    }

    /// The same response, with the seconds left until advertising stops.
    pub fn with_remaining(self, secs: u32) -> (r: Self)
        ensures
            r == (OkResponse { remaining: Some(secs), ..self }),
    {
        let mut r = self;
        r.remaining = Some(secs);
        r
    }

    /// The same response, with the WiFi connection status.
    pub fn with_wifi_connected(self, connected: bool) -> (r: Self)
        ensures
            r == (OkResponse { wifi_connected: Some(connected), ..self }),
    {
        let mut r = self;
        r.wifi_connected = Some(connected);
        r
    }

    /// The same response, with a list of networks.
    pub fn with_networks(self, networks: Vec<Network>) -> (r: Self)
        ensures
            r == (OkResponse { networks: Some(networks), ..self }),
    {
        let mut r = self;
        r.networks = Some(networks);
        r
    }
}

/// Error response payload.
#[derive(Debug, Clone, PartialEq)]
pub struct ErrorResponse {
    pub ok: bool,
    pub error: String,
}

impl ErrorResponse {
    /// A failure response carrying a message.
    pub fn new(message: &str) -> (r: Self)
        ensures
            !r.ok,
            r.error@ == message@,
    {
        ErrorResponse { ok: false, error: String::from_str(message) }
    }
}

/// WiFi network info from a scan.
#[derive(Debug, Clone, PartialEq)]
pub struct Network {
    pub ssid: String,
    /// Signal strength in dBm (e.g., -45).
    pub signal: i32,
    /// Security type (e.g., "wpa2", "open").
    pub security: String,
}

/// What a network holds, as plain values.
pub struct NetworkView {
    pub ssid: Seq<char>,
    pub signal: i32,
    pub security: Seq<char>,
}

impl View for Network {
    type V = NetworkView;

    open spec fn view(&self) -> NetworkView {
        NetworkView { ssid: self.ssid@, signal: self.signal, security: self.security@ }
    }
}

} // verus!
