//! The BLE side of the coordinator: the Improv device state and the handling
//! of RPC commands written by a client.
//!
//! Taking in a command is split at the WiFi backend: `handle_rpc_command`
//! decides and commits what it can and returns the backend work to do, and
//! `complete_scan` / `complete_connect` commit that work's outcome.

use vstd::prelude::*;
use vstd::string::*;
use vstd::utf8::encode_utf8;

use crate::improv::{
    build_device_info_response, build_provision_response, build_scan_response, credential_fields,
    frame_result, lossy_text, response_frame, scan_fields, ImprovError, ImprovState,
    RpcCommand, RpcRequest, WifiCredentials,
};
use crate::protocol::Network;
use crate::wifi::WifiError;

verus! {

/// BLE manager configuration.
pub struct BleConfig {
    /// Device name for advertising.
    pub device_name: String,
    /// Firmware name for device info.
    pub firmware_name: String,
    /// Firmware version for device info.
    pub firmware_version: String,
    /// Hardware type for device info.
    pub hardware_type: String,
    /// URL to redirect to after successful provisioning.
    pub redirect_url: String,
}

impl Default for BleConfig {
    fn default() -> (r: Self)
        ensures
            r.device_name@ == "WifiProvisioner"@,
            r.firmware_name@ == "wifi-provisioner"@,
            r.firmware_version@ == "0.1.0"@,
            r.hardware_type@ == "RaspberryPi"@,
            r.redirect_url@ == "http://dirtsim.local:8081"@,
    {
        BleConfig {
            device_name: String::from_str("WifiProvisioner"),
            firmware_name: String::from_str("wifi-provisioner"),
            firmware_version: String::from_str("0.1.0"),
            hardware_type: String::from_str("RaspberryPi"),
            redirect_url: String::from_str("http://dirtsim.local:8081"),
        }
    }
}

impl BleConfig {
    /// An equal copy of the configuration.
    pub fn clone(&self) -> (r: Self)
        ensures
            r == *self,
    {
        BleConfig {
            device_name: self.device_name.clone(),
            firmware_name: self.firmware_name.clone(),
            firmware_version: self.firmware_version.clone(),
            hardware_type: self.hardware_type.clone(),
            redirect_url: self.redirect_url.clone(),
        }
    }

    /// The device info response this configuration describes.
    pub open spec fn device_info_frame(&self) -> Seq<u8> {
        response_frame(
            RpcCommand::GetDeviceInfo.spec_code(),
            seq![
                encode_utf8(self.firmware_name@),
                encode_utf8(self.firmware_version@),
                encode_utf8(self.hardware_type@),
                encode_utf8(self.device_name@),
            ],
        )
    }

    /// The response to a successful provisioning: the redirect URL.
    pub open spec fn provision_frame(&self) -> Seq<u8> {
        response_frame(
            RpcCommand::SendWifiSettings.spec_code(),
            seq![encode_utf8(self.redirect_url@)],
        )
    }
}

/// Shared state for BLE operations.
pub struct BleState {
    /// Current Improv state.
    pub improv_state: ImprovState,
    /// Current error state.
    pub error_state: ImprovError,
    /// Latest RPC result to be read by client.
    pub rpc_result: Vec<u8>,
    /// Whether advertising is active.
    pub advertising: bool,
}

impl Default for BleState {
    fn default() -> (r: Self)
        ensures
            r.improv_state == ImprovState::Authorized,
            r.error_state == ImprovError::NoError,
            r.rpc_result@.len() == 0,
            !r.advertising,
    {
        BleState {
            improv_state: ImprovState::Authorized,
            error_state: ImprovError::NoError,
            rpc_result: Vec::new(),
            advertising: false,
        }
    }
}

/// Events from BLE to the host application.
#[derive(Debug)]
pub enum BleEvent {
    /// Client requested identify (blink LED, etc.).
    Identify,
    /// Client connected.
    ClientConnected,
    /// Client disconnected.
    ClientDisconnected,
    /// Provisioning succeeded with this URL.
    ProvisioningComplete(String),
}

/// The work left to the transport after an RPC command was taken in.
pub enum RpcAction {
    /// Nothing more to do.
    Done,
    /// Send an identify event to the host application.
    Identify,
    /// Scan for networks and hand the outcome to `complete_scan`.
    Scan,
    /// Connect with these credentials and hand the outcome to
    /// `complete_connect`.
    Connect(WifiCredentials),
}

/// The command of a well-formed packet, if it is one.
pub open spec fn request_command(data: Seq<u8>) -> Option<RpcCommand> {
    match frame_result(data) {
        Ok((c, _)) => Some(c),
        Err(_) => None,
    }
}

/// The SSID and password bytes of a well-formed send-settings packet.
pub open spec fn request_credentials(data: Seq<u8>) -> Option<(Seq<u8>, Seq<u8>)> {
    match frame_result(data) {
        Ok((c, payload)) => if c == RpcCommand::SendWifiSettings {
            credential_fields(payload)
        } else {
            None
        },
        Err(_) => None,
    }
}

/// Whether a packet starts a connect attempt: valid credentials, received in
/// the `Authorized` state.
pub open spec fn starts_connect(state: ImprovState, data: Seq<u8>) -> bool {
    state == ImprovState::Authorized && request_credentials(data) is Some
}

/// The error state after a packet was taken in.
pub open spec fn error_after_rpc(state: ImprovState, data: Seq<u8>) -> ImprovError {
    match request_command(data) {
        None => ImprovError::InvalidRpc,
        Some(RpcCommand::Identify) => if state == ImprovState::AuthorizationRequired {
            ImprovError::NotAuthorized
        } else {
            ImprovError::NoError
        },
        Some(RpcCommand::GetDeviceInfo) => ImprovError::NoError,
        Some(RpcCommand::ScanWifiNetworks) => ImprovError::NoError,
        Some(RpcCommand::SendWifiSettings) => if request_credentials(data) is None {
            ImprovError::InvalidRpc
        } else if state != ImprovState::Authorized {
            ImprovError::NotAuthorized
        } else {
            ImprovError::NoError
        },
        Some(RpcCommand::Hostname) => ImprovError::UnknownCommand,
    }
}

/// The device state after a packet was taken in.
pub open spec fn state_after_rpc(state: ImprovState, data: Seq<u8>) -> ImprovState {
    if starts_connect(state, data) {
        ImprovState::Provisioning
    } else {
        state
    }
}

/// The security tag of an open network.
pub open spec fn open_tag() -> Seq<char> {
    seq!['o', 'p', 'e', 'n']
}

/// The fields of the scan response for a list of networks: a network is
/// reported as secured unless its security tag is `open`.
pub open spec fn network_scan_fields(networks: Seq<Network>) -> Seq<Seq<u8>> {
    scan_fields(
        networks.map_values(|n: Network| (n.ssid, n.signal, n.security@ != open_tag())),
    )
}

impl BleState {
    /// Take in an RPC packet written by a client: commit the state change it
    /// calls for and return the backend work that remains.
    pub fn handle_rpc_command(&mut self, data: &[u8], config: &BleConfig) -> (action: RpcAction)
        ensures
            final(self).improv_state == state_after_rpc(old(self).improv_state, data@),
            final(self).error_state == error_after_rpc(old(self).improv_state, data@),
            final(self).advertising == old(self).advertising,
            request_command(data@) == Some(RpcCommand::GetDeviceInfo)
                ==> final(self).rpc_result@ == config.device_info_frame(),
            request_command(data@) != Some(RpcCommand::GetDeviceInfo) ==> final(self).rpc_result@ == old(self).rpc_result@,
            action is Identify <==> request_command(data@) == Some(RpcCommand::Identify)
                && old(self).improv_state != ImprovState::AuthorizationRequired,
            action is Scan <==> request_command(data@) == Some(RpcCommand::ScanWifiNetworks),
            action is Connect <==> starts_connect(old(self).improv_state, data@),
            action matches RpcAction::Connect(c) ==> request_credentials(data@) matches Some(
                (ssid, password),
            ) && c.ssid@ == lossy_text(ssid) && c.password@ == lossy_text(password),
    {
        let request = match RpcRequest::parse(data) {
            Ok(req) => req,
            Err(_) => {
                self.error_state = ImprovError::InvalidRpc;
                return RpcAction::Done;
            },
        };
        match request.command {
            RpcCommand::Identify => {
                if self.improv_state == ImprovState::AuthorizationRequired {
                    self.error_state = ImprovError::NotAuthorized;
                    RpcAction::Done
                } else {
                    self.error_state = ImprovError::NoError;
                    RpcAction::Identify
                }
            },
            RpcCommand::GetDeviceInfo => {
                let response = build_device_info_response(
                    config.firmware_name.as_str(),
                    config.firmware_version.as_str(),
                    config.hardware_type.as_str(),
                    config.device_name.as_str(),
                );
                self.rpc_result = response;
                self.error_state = ImprovError::NoError;
                RpcAction::Done
            },
            RpcCommand::ScanWifiNetworks => {
                self.error_state = ImprovError::NoError;
                RpcAction::Scan
            },
            RpcCommand::SendWifiSettings => {
                let creds = match request.parse_wifi_credentials() {
                    Ok(c) => c,
                    Err(_) => {
                        self.error_state = ImprovError::InvalidRpc;
                        return RpcAction::Done;
                    },
                };
                if self.improv_state != ImprovState::Authorized {
                    self.error_state = ImprovError::NotAuthorized;
                    return RpcAction::Done;
                }
                self.improv_state = ImprovState::Provisioning;
                self.error_state = ImprovError::NoError;
                RpcAction::Connect(creds)
            },
            RpcCommand::Hostname => {
                self.error_state = ImprovError::UnknownCommand;
                RpcAction::Done
            },
        }
    }

    /// Commit the outcome of a network scan: the encoded network list as the
    /// RPC result, or the `Unknown` error when the backend failed.
    pub fn complete_scan(&mut self, result: Result<Vec<Network>, WifiError>)
        ensures
            final(self).improv_state == old(self).improv_state,
            final(self).advertising == old(self).advertising,
            result matches Ok(networks) ==> final(self).rpc_result@ == response_frame(
                RpcCommand::ScanWifiNetworks.spec_code(),
                network_scan_fields(networks@),
            ) && final(self).error_state == old(self).error_state,
            result is Err ==> final(self).rpc_result@ == old(self).rpc_result@ && final(self).error_state == ImprovError::Unknown,
    {
        match result {
            Ok(networks) => {
                let open = String::from_str("open");
                proof {
                    reveal_strlit("open");
                }
                let mut triples: Vec<(String, i32, bool)> = Vec::new();
                let mut i: usize = 0;
                while i < networks.len()
                    invariant
                        i <= networks@.len(),
                        open@ == open_tag(),
                        triples@ == networks@.map_values(
                            |n: Network| (n.ssid, n.signal, n.security@ != open_tag()),
                        ).take(i as int),
                    decreases networks@.len() - i,
                {
                    let n: &Network = &networks[i];
                    let secured = !(n.security == open);
                    triples.push((n.ssid.clone(), n.signal, secured));
                    i = i + 1;
                    proof {
                        assert(triples@ =~= networks@.map_values(
                            |n: Network| (n.ssid, n.signal, n.security@ != open_tag()),
                        ).take(i as int));
                    }
                }
                proof {
                    assert(networks@.map_values(
                        |n: Network| (n.ssid, n.signal, n.security@ != open_tag()),
                    ).take(i as int) =~= networks@.map_values(
                        |n: Network| (n.ssid, n.signal, n.security@ != open_tag()),
                    ));
                }
                self.rpc_result = build_scan_response(triples.as_slice());
            },
            Err(_) => {
                self.error_state = ImprovError::Unknown;
            },
        }
    }

    /// Commit the outcome of a connect attempt: `Provisioned` with the
    /// redirect URL as the RPC result and a provisioning-complete event, or
    /// back to `Authorized` with the `UnableToConnect` error.
    pub fn complete_connect(&mut self, result: Result<(), WifiError>, config: &BleConfig) -> (event:
        Option<BleEvent>)
        ensures
            final(self).advertising == old(self).advertising,
            result is Ok ==> {
                &&& final(self).improv_state == ImprovState::Provisioned
                &&& final(self).error_state == old(self).error_state
                &&& final(self).rpc_result@ == config.provision_frame()
                &&& event matches Some(BleEvent::ProvisioningComplete(url)) && url@
                    == config.redirect_url@
            },
            result is Err ==> {
                &&& final(self).improv_state == ImprovState::Authorized
                &&& final(self).error_state == ImprovError::UnableToConnect
                &&& final(self).rpc_result@ == old(self).rpc_result@
                &&& event is None
            },
    {
        match result {
            Ok(()) => {
                let response = build_provision_response(config.redirect_url.as_str());
                self.improv_state = ImprovState::Provisioned;
                self.rpc_result = response;
                Some(BleEvent::ProvisioningComplete(config.redirect_url.clone()))
            },
            Err(_) => {
                self.improv_state = ImprovState::Authorized;
                self.error_state = ImprovError::UnableToConnect;
                None
            },
        }
    }
}

} // verus!
