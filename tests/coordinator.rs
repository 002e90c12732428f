use wifi_provisioner::ble::{BleConfig, BleEvent, BleState, RpcAction};
use wifi_provisioner::improv::{
    build_device_info_response, build_provision_response, build_response, build_scan_response,
    ImprovError, ImprovState, RpcCommand,
};
use wifi_provisioner::protocol::{default_timeout, Command, ErrorResponse, Network, OkResponse, Response, State};
use wifi_provisioner::websocket::{CommandStep, DaemonState, DEFAULT_ADVERTISING_TIMEOUT};
use wifi_provisioner::wifi::{MockWifiManager, WifiError, WifiStatus};

fn settings_packet(ssid: &str, password: &str) -> Vec<u8> {
    build_response(RpcCommand::SendWifiSettings, &[ssid, password])
}

fn ok_of(resp: Response) -> OkResponse {
    match resp {
        Response::Success(ok) => ok,
        Response::Error(_) => panic!("Expected Ok response"),
    }
}

fn status_of(state: &mut DaemonState, wifi: &MockWifiManager) -> Response {
    match state.handle_command(Command::Status) {
        CommandStep::QueryStatus => state.handle_status(wifi.status()),
        _ => panic!("Expected a status query"),
    }
}

#[test]
fn handle_status_returns_idle_by_default() {
    let mut state = DaemonState::default();
    let ok = ok_of(status_of(&mut state, &MockWifiManager::default()));
    assert_eq!(ok.state, State::Idle);
    assert_eq!(ok.wifi_connected, Some(false));
}

#[test]
fn handle_status_shows_wifi_connected() {
    let mut wifi = MockWifiManager::default();
    wifi.status = WifiStatus { connected: true, ssid: Some("TestNetwork".into()) };
    let mut state = DaemonState::default();
    let ok = ok_of(status_of(&mut state, &wifi));
    assert_eq!(ok.wifi_connected, Some(true));
}

#[test]
fn handle_start_changes_state_to_advertising() {
    let mut state = DaemonState::default();
    match state.handle_command(Command::Start { timeout: 120 }) {
        CommandStep::Reply(resp) => {
            let ok = ok_of(resp);
            assert_eq!(ok.state, State::Advertising);
            assert_eq!(ok.remaining, Some(120));
        }
        _ => panic!("Expected Ok response"),
    }
    assert_eq!(state.state, State::Advertising);
}

#[test]
fn handle_stop_changes_state_to_idle() {
    let mut state = DaemonState::default();
    state.state = State::Advertising;
    state.advertising_remaining = Some(100);
    match state.handle_command(Command::Stop) {
        CommandStep::Reply(resp) => {
            let ok = ok_of(resp);
            assert_eq!(ok.state, State::Idle);
            assert!(ok.remaining.is_none());
        }
        _ => panic!("Expected Ok response"),
    }
}

#[test]
fn handle_scan_returns_networks_from_wifi_manager() {
    let mut wifi = MockWifiManager::default();
    wifi.networks = vec![
        Network { ssid: "Network1".into(), signal: -45, security: "wpa2".into() },
        Network { ssid: "Network2".into(), signal: -60, security: "open".into() },
    ];
    let mut state = DaemonState::default();
    let resp = match state.handle_command(Command::Scan) {
        CommandStep::QueryScan => state.handle_scan(wifi.scan()),
        _ => panic!("Expected a scan query"),
    };
    let ok = ok_of(resp);
    assert!(ok.networks.is_some());
    let networks = ok.networks.unwrap();
    assert_eq!(networks.len(), 2);
    assert_eq!(networks[0].ssid, "Network1");
    assert_eq!(networks[1].ssid, "Network2");
}

#[test]
fn scan_failure_is_an_error_response() {
    let state = DaemonState::default();
    let resp = state.handle_scan(Err(WifiError::NoWifiDevice));
    assert_eq!(
        resp,
        Response::Error(ErrorResponse { ok: false, error: "Scan failed: No WiFi device available".into() })
    );
}

#[test]
fn status_twice_gives_identical_responses() {
    let mut wifi = MockWifiManager::default();
    wifi.status = WifiStatus { connected: true, ssid: Some("Home".into()) };
    let mut state = DaemonState::default();
    state.handle_command(Command::Start { timeout: 30 });
    let first = status_of(&mut state, &wifi);
    let second = status_of(&mut state, &wifi);
    assert_eq!(first, second);
    assert_eq!(ok_of(first).remaining, Some(30));
}

#[test]
fn status_reports_backend_failure_as_disconnected() {
    let mut state = DaemonState::default();
    state.wifi_connected = true;
    let ok = ok_of(state.handle_status(Err(WifiError::CommandFailed("boom".into()))));
    assert_eq!(ok.wifi_connected, Some(false));
    assert_eq!(ok.remaining, None);
}

#[test]
fn start_stop_responses_are_exact() {
    let mut state = DaemonState::default();
    let resp = state.handle_start(60);
    assert_eq!(resp, Response::Success(OkResponse::new(State::Advertising).with_remaining(60).with_wifi_connected(false)));
    let resp = state.handle_stop();
    assert_eq!(resp, Response::Success(OkResponse::new(State::Idle).with_wifi_connected(false)));
    assert_eq!(state.advertising_remaining, None);
    assert_eq!(default_timeout(), 300);
}

#[test]
fn countdown_ticks_then_expires() {
    let mut state = DaemonState::default();
    state.handle_start(2);
    assert!(!state.tick());
    assert_eq!(state.advertising_remaining, Some(1));
    assert!(!state.tick());
    assert_eq!(state.advertising_remaining, Some(0));
    assert_eq!(state.state, State::Advertising);
    assert!(state.tick());
    assert_eq!(state.advertising_remaining, None);
    assert_eq!(state.state, State::Idle);
    assert!(!state.tick());
}

#[test]
fn startup_state_depends_on_connectivity() {
    let s = DaemonState::at_startup(true);
    assert_eq!((s.state, s.advertising_remaining, s.wifi_connected), (State::Idle, None, true));
    let s = DaemonState::at_startup(false);
    assert_eq!(
        (s.state, s.advertising_remaining, s.wifi_connected),
        (State::Advertising, Some(DEFAULT_ADVERTISING_TIMEOUT), false)
    );
}

#[test]
fn ble_events_move_daemon_state() {
    let mut state = DaemonState::at_startup(false);
    state.apply_ble_event(&BleEvent::ClientConnected);
    assert_eq!(state.state, State::Connected);
    state.apply_ble_event(&BleEvent::ClientDisconnected);
    assert_eq!(state.state, State::Advertising);
    state.apply_ble_event(&BleEvent::Identify);
    assert_eq!(state.state, State::Advertising);
    state.apply_ble_event(&BleEvent::ProvisioningComplete("http://x".into()));
    assert_eq!((state.state, state.advertising_remaining, state.wifi_connected), (State::Idle, None, true));
    state.apply_ble_event(&BleEvent::ClientDisconnected);
    assert_eq!(state.state, State::Idle);
}

#[test]
fn connect_failure_returns_to_authorized() {
    let config = BleConfig::default();
    let mut ble = BleState::default();
    assert_eq!(ble.improv_state, ImprovState::Authorized);
    let action = ble.handle_rpc_command(&settings_packet("test", "pass"), &config);
    let creds = match action {
        RpcAction::Connect(c) => c,
        _ => panic!("Expected a connect attempt"),
    };
    assert_eq!((creds.ssid.as_str(), creds.password.as_str()), ("test", "pass"));
    assert_eq!(ble.improv_state, ImprovState::Provisioning);
    let wifi = MockWifiManager { connect_result: Err("no".into()), ..MockWifiManager::default() };
    let event = ble.complete_connect(wifi.connect(&creds.ssid, &creds.password), &config);
    assert!(event.is_none());
    assert_eq!(ble.improv_state, ImprovState::Authorized);
    assert_eq!(ble.error_state, ImprovError::UnableToConnect);
}

#[test]
fn connect_success_provisions() {
    let config = BleConfig::default();
    let mut ble = BleState::default();
    ble.handle_rpc_command(&settings_packet("home", "secret"), &config);
    let event = ble.complete_connect(Ok(()), &config);
    assert_eq!(ble.improv_state, ImprovState::Provisioned);
    assert_eq!(ble.error_state, ImprovError::NoError);
    assert_eq!(ble.rpc_result, build_provision_response("http://dirtsim.local:8081"));
    match event {
        Some(BleEvent::ProvisioningComplete(url)) => assert_eq!(url, "http://dirtsim.local:8081"),
        other => panic!("unexpected {:?}", other),
    }
    // A second send-settings is refused once provisioned.
    let action = ble.handle_rpc_command(&settings_packet("home", "secret"), &config);
    assert!(matches!(action, RpcAction::Done));
    assert_eq!(ble.improv_state, ImprovState::Provisioned);
    assert_eq!(ble.error_state, ImprovError::NotAuthorized);
}

#[test]
fn settings_refused_while_provisioning() {
    let config = BleConfig::default();
    let mut ble = BleState::default();
    ble.handle_rpc_command(&settings_packet("a", "b"), &config);
    let action = ble.handle_rpc_command(&settings_packet("c", "d"), &config);
    assert!(matches!(action, RpcAction::Done));
    assert_eq!(ble.improv_state, ImprovState::Provisioning);
    assert_eq!(ble.error_state, ImprovError::NotAuthorized);
}

#[test]
fn malformed_and_bad_settings_are_invalid_rpc() {
    let config = BleConfig::default();
    let mut ble = BleState::default();
    assert!(matches!(ble.handle_rpc_command(&[0x02, 0x00, 0xFF], &config), RpcAction::Done));
    assert_eq!(ble.error_state, ImprovError::InvalidRpc);
    let packet = build_response(RpcCommand::SendWifiSettings, &["only-ssid"]);
    assert!(matches!(ble.handle_rpc_command(&packet, &config), RpcAction::Done));
    assert_eq!(ble.error_state, ImprovError::InvalidRpc);
    assert_eq!(ble.improv_state, ImprovState::Authorized);
}

#[test]
fn identify_hostname_and_device_info() {
    let config = BleConfig::default();
    let mut ble = BleState::default();
    assert!(matches!(ble.handle_rpc_command(&[0x05, 0x00, 0x05], &config), RpcAction::Done));
    assert_eq!(ble.error_state, ImprovError::UnknownCommand);
    assert!(matches!(ble.handle_rpc_command(&[0x02, 0x00, 0x02], &config), RpcAction::Identify));
    assert_eq!(ble.error_state, ImprovError::NoError);
    assert!(matches!(ble.handle_rpc_command(&[0x03, 0x00, 0x03], &config), RpcAction::Done));
    assert_eq!(
        ble.rpc_result,
        build_device_info_response("wifi-provisioner", "0.1.0", "RaspberryPi", "WifiProvisioner")
    );

    ble.improv_state = ImprovState::AuthorizationRequired;
    assert!(matches!(ble.handle_rpc_command(&[0x02, 0x00, 0x02], &config), RpcAction::Done));
    assert_eq!(ble.error_state, ImprovError::NotAuthorized);
}

#[test]
fn scan_outcomes_on_ble_side() {
    let config = BleConfig::default();
    let mut ble = BleState::default();
    assert!(matches!(ble.handle_rpc_command(&[0x04, 0x00, 0x04], &config), RpcAction::Scan));
    let networks = vec![
        Network { ssid: "a".into(), signal: -40, security: "wpa2".into() },
        Network { ssid: "b".into(), signal: -70, security: "open".into() },
    ];
    ble.complete_scan(Ok(networks));
    assert_eq!(
        ble.rpc_result,
        build_scan_response(&[("a".to_string(), -40, true), ("b".to_string(), -70, false)])
    );
    let before = ble.rpc_result.clone();
    ble.complete_scan(Err(WifiError::NoWifiDevice));
    assert_eq!(ble.error_state, ImprovError::Unknown);
    assert_eq!(ble.rpc_result, before);
}

#[test]
fn config_copy_is_equal() {
    let config = BleConfig::default();
    let copy = config.clone();
    assert_eq!(copy.redirect_url, config.redirect_url);
    assert_eq!(copy.device_name, "WifiProvisioner");
}
