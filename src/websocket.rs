//! The command-channel side of the coordinator: the daemon state reported to
//! local clients and the handling of their commands.
//!
//! Commands that need the WiFi backend are split at it: `handle_command`
//! commits what it can and says which query to make, and `handle_status` /
//! `handle_scan` build the response from the query's outcome.

use vstd::prelude::*;
use vstd::string::*;

use crate::ble::BleEvent;
use crate::protocol::{Command, ErrorResponse, Network, OkResponse, Response, State};
use crate::wifi::{wifi_error_text, WifiError, WifiStatus};

verus! {

/// Advertising timeout at startup when WiFi is not connected, in seconds.
pub const DEFAULT_ADVERTISING_TIMEOUT: u32 = 300;

/// Shared daemon state reported to local clients.
#[derive(Debug)]
pub struct DaemonState {
    pub state: State,
    pub advertising_remaining: Option<u32>,
    pub wifi_connected: bool,
}

impl Default for DaemonState {
    fn default() -> (r: Self)
        ensures
            r.state == State::Idle,
            r.advertising_remaining is None,
            !r.wifi_connected,
    {
        DaemonState { state: State::Idle, advertising_remaining: None, wifi_connected: false }
    }
}

/// The backend query that a command still needs, or its response.
pub enum CommandStep {
    /// The command is done; send this response.
    Reply(Response),
    /// Ask the backend for the connection status and hand the outcome to
    /// `handle_status`.
    QueryStatus,
    /// Ask the backend for a scan and hand the outcome to `handle_scan`.
    QueryScan,
}

/// The state at startup: idle when WiFi is connected, otherwise advertising
/// for the default timeout.
pub open spec fn startup_state(wifi_connected: bool) -> DaemonState {
    if wifi_connected {
        DaemonState { state: State::Idle, advertising_remaining: None, wifi_connected }
    } else {
        DaemonState {
            state: State::Advertising,
            advertising_remaining: Some(DEFAULT_ADVERTISING_TIMEOUT),
            wifi_connected,
        }
    }
}

/// The daemon state after a command was taken in.
pub open spec fn after_command(d: DaemonState, cmd: Command) -> DaemonState {
    match cmd {
        Command::Start { timeout } => DaemonState {
            state: State::Advertising,
            advertising_remaining: Some(timeout),
            ..d
        },
        Command::Stop => DaemonState { state: State::Idle, advertising_remaining: None, ..d },
        Command::Status => d,
        Command::Scan => d,
    }
}

/// The immediate response to a command that needs no backend query.
pub open spec fn command_reply(d: DaemonState, cmd: Command) -> Option<OkResponse> {
    match cmd {
        Command::Start { timeout } => Some(
            OkResponse {
                ok: true,
                state: State::Advertising,
                remaining: Some(timeout),
                wifi_connected: Some(d.wifi_connected),
                networks: None,
            },
        ),
        Command::Stop => Some(
            OkResponse {
                ok: true,
                state: State::Idle,
                remaining: None,
                wifi_connected: Some(d.wifi_connected),
                networks: None,
            },
        ),
        Command::Status => None,
        Command::Scan => None,
    }
}

/// Whether the backend reports a WiFi connection; a failed query counts as
/// not connected.
pub open spec fn reported_connected(wifi: Result<WifiStatus, WifiError>) -> bool {
    match wifi {
        Ok(s) => s.connected,
        Err(_) => false,
    }
}

/// The status response: the daemon state, the connection status, and the
/// seconds left when advertising.
pub open spec fn status_reply(d: DaemonState, connected: bool) -> OkResponse {
    OkResponse {
        ok: true,
        state: d.state,
        remaining: d.advertising_remaining,
        wifi_connected: Some(connected),
        networks: None,
    }
}

/// The daemon state after one second of the advertising countdown.
pub open spec fn after_tick(d: DaemonState) -> DaemonState {
    match d.advertising_remaining {
        Some(r) => if r > 0 {
            DaemonState { advertising_remaining: Some((r - 1) as u32), ..d }
        } else {
            DaemonState { state: State::Idle, advertising_remaining: None, ..d }
        },
        None => d,
    }
}

/// The daemon state after an event from the BLE side.
pub open spec fn after_event(d: DaemonState, event: BleEvent) -> DaemonState {
    match event {
        BleEvent::Identify => d,
        BleEvent::ClientConnected => DaemonState { state: State::Connected, ..d },
        BleEvent::ClientDisconnected => if d.state == State::Connected {
            DaemonState { state: State::Advertising, ..d }
        } else {
            d
        },
        BleEvent::ProvisioningComplete(_) => DaemonState {
            state: State::Idle,
            advertising_remaining: None,
            wifi_connected: true,
        },
    }
}

impl DaemonState {
    /// The state at startup: idle when WiFi is connected, otherwise
    /// advertising for the default timeout.
    pub fn at_startup(wifi_connected: bool) -> (r: Self)
        ensures
            r == startup_state(wifi_connected),
    {
        if wifi_connected {
            DaemonState { state: State::Idle, advertising_remaining: None, wifi_connected }
        } else {
            DaemonState {
                state: State::Advertising,
                advertising_remaining: Some(DEFAULT_ADVERTISING_TIMEOUT),
                wifi_connected,
            }
        }
    }

    /// Take in a command: commit its state change and return its response,
    /// or the backend query it still needs.
    pub fn handle_command(&mut self, cmd: Command) -> (step: CommandStep)
        ensures
            *final(self) == after_command(*old(self), cmd),
            cmd == Command::Status ==> step is QueryStatus,
            cmd == Command::Scan ==> step is QueryScan,
            command_reply(*old(self), cmd) matches Some(ok) ==> step == CommandStep::Reply(
                Response::Success(ok),
            ),
    {
        match cmd {
            Command::Start { timeout } => CommandStep::Reply(self.handle_start(timeout)),
            Command::Stop => CommandStep::Reply(self.handle_stop()),
            Command::Status => CommandStep::QueryStatus,
            Command::Scan => CommandStep::QueryScan,
        }
    }

    /// Begin advertising for `timeout` seconds.
    pub fn handle_start(&mut self, timeout: u32) -> (r: Response)
        ensures
            *final(self) == after_command(*old(self), Command::Start { timeout }),
            command_reply(*old(self), Command::Start { timeout }) == Some(r->Success_0),
            r is Success,
    {
        self.state = State::Advertising;
        self.advertising_remaining = Some(timeout);
        Response::Success(
            OkResponse::new(State::Advertising).with_remaining(timeout).with_wifi_connected(
                self.wifi_connected,
            ),
        )
    }

    /// Stop advertising.
    pub fn handle_stop(&mut self) -> (r: Response)
        ensures
            *final(self) == after_command(*old(self), Command::Stop),
            command_reply(*old(self), Command::Stop) == Some(r->Success_0),
            r is Success,
    {
        self.state = State::Idle;
        self.advertising_remaining = None;
        Response::Success(OkResponse::new(State::Idle).with_wifi_connected(self.wifi_connected))
    }

    /// The status response, given the backend's connection status.
    pub fn handle_status(&self, wifi: Result<WifiStatus, WifiError>) -> (r: Response)
        ensures
            r == Response::Success(status_reply(*self, reported_connected(wifi))),
    {
        let wifi_connected = match wifi {
            Ok(status) => status.connected,
            Err(_) => false,
        };
        let mut resp = OkResponse::new(self.state).with_wifi_connected(wifi_connected);
        if let Some(remaining) = self.advertising_remaining {
            resp = resp.with_remaining(remaining);
        }
        Response::Success(resp)
    }

    /// The scan response, given the backend's scan outcome: the networks
    /// with the current state, or a failure that describes the error.
    pub fn handle_scan(&self, result: Result<Vec<Network>, WifiError>) -> (r: Response)
        ensures
            result matches Ok(networks) ==> r == Response::Success(
                OkResponse {
                    ok: true,
                    state: self.state,
                    remaining: None,
                    wifi_connected: None,
                    networks: Some(networks),
                },
            ),
            result matches Err(e) ==> r matches Response::Error(err) && !err.ok && err.error@ == "Scan failed: "@
                + wifi_error_text(e),
    {
        match result {
            Ok(networks) => Response::Success(OkResponse::new(self.state).with_networks(networks)),
            Err(e) => {
                let mut message = String::from_str("Scan failed: ");
                let detail = e.message();
                message.append(detail.as_str());
                Response::Error(ErrorResponse::new(message.as_str()))
            },
        }
    }

    /// Advance the advertising countdown by one second. Returns whether
    /// advertising expired with this tick.
    pub fn tick(&mut self) -> (expired: bool)
        ensures
            *final(self) == after_tick(*old(self)),
            expired == (old(self).advertising_remaining == Some(0u32)),
    {
        match self.advertising_remaining {
            Some(remaining) => {
                if remaining > 0 {
                    self.advertising_remaining = Some(remaining - 1);
                    false
                } else {
                    self.state = State::Idle;
                    self.advertising_remaining = None;
                    true
                }
            },
            None => false,
        }
    }

    /// Take in an event from the BLE side.
    pub fn apply_ble_event(&mut self, event: &BleEvent)
        ensures
            *final(self) == after_event(*old(self), *event),
    {
        match event {
            BleEvent::Identify => {},
            BleEvent::ClientConnected => {
                self.state = State::Connected;
            },
            BleEvent::ClientDisconnected => {
                if self.state == State::Connected {
                    self.state = State::Advertising;
                }
            },
            BleEvent::ProvisioningComplete(_) => {
                self.state = State::Idle;
                self.wifi_connected = true;
                self.advertising_remaining = None;
            },
        }
    }
}

/// Whether a running countdown goes with advertising: while seconds remain,
/// the daemon is advertising or has a BLE client connected.
pub open spec fn countdown_consistent(d: DaemonState) -> bool {
    d.advertising_remaining is Some ==> d.state == State::Advertising || d.state == State::Connected
}

/// Every operation on the daemon state keeps a running countdown tied to
/// advertising, and the state at startup has it.
pub proof fn lemma_countdown_consistent(
    d: DaemonState,
    cmd: Command,
    event: BleEvent,
    wifi_connected: bool,
)
    requires
        countdown_consistent(d),
    ensures
        countdown_consistent(after_command(d, cmd)),
        countdown_consistent(after_tick(d)),
        countdown_consistent(after_event(d, event)),
        countdown_consistent(startup_state(wifi_connected)),
{
}

/// Status queries leave the daemon state as it is, so two status queries
/// with no command between them, answered with the same connection status,
/// give identical responses.
pub proof fn lemma_status_idempotent(d: DaemonState, connected: bool)
    ensures
        after_command(d, Command::Status) == d,
        after_command(after_command(d, Command::Status), Command::Status) == d,
        status_reply(after_command(d, Command::Status), connected) == status_reply(
            after_command(after_command(d, Command::Status), Command::Status),
            connected,
        ),
{
}

} // verus!
