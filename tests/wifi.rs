use wifi_provisioner::protocol::Network;
use wifi_provisioner::wifi::{
    normalize_security, parse_scan_line, parse_scan_output, parse_status_output, security_tag_of,
    split_lines, MockWifiManager, WifiError, WifiStatus,
};

#[test]
fn parse_basic_scan_output() {
    let output = "turtleback:72:WPA1\nonionchan:65:WPA1 WPA2\n";
    let networks = parse_scan_output(output);

    assert_eq!(networks.len(), 2);

    // Sorted by signal strength.
    assert_eq!(networks[0].ssid, "turtleback");
    assert_eq!(networks[0].signal, -28); // -100 + 72
    assert_eq!(networks[0].security, "wpa");

    assert_eq!(networks[1].ssid, "onionchan");
    assert_eq!(networks[1].signal, -35); // -100 + 65
    assert_eq!(networks[1].security, "wpa2");
}

#[test]
fn parse_empty_output() {
    let networks = parse_scan_output("");
    assert!(networks.is_empty());
}

#[test]
fn parse_skips_empty_ssids() {
    let output = ":50:WPA2\nvisible:60:WPA2\n";
    let networks = parse_scan_output(output);

    assert_eq!(networks.len(), 1);
    assert_eq!(networks[0].ssid, "visible");
}

#[test]
fn parse_deduplicates_ssids() {
    // Same SSID from multiple APs.
    let output = "mynet:80:WPA2\nmynet:60:WPA2\nmynet:40:WPA2\n";
    let networks = parse_scan_output(output);

    assert_eq!(networks.len(), 1);
    assert_eq!(networks[0].ssid, "mynet");
    // Should keep the first one seen.
    assert_eq!(networks[0].signal, -20);
}

#[test]
fn parse_skips_malformed_lines() {
    let output = "good:50:WPA2\nbad line\nalso:bad\ngood2:30:open\n";
    let networks = parse_scan_output(output);

    assert_eq!(networks.len(), 2);
}

#[test]
fn parse_handles_open_networks() {
    let output = "opennet:45:\ncafewifi:50:--\n";
    let networks = parse_scan_output(output);

    assert_eq!(networks.len(), 2);
    assert_eq!(networks[0].security, "open");
    assert_eq!(networks[1].security, "open");
}

#[test]
fn normalize_security_types() {
    assert_eq!(normalize_security("WPA3"), "wpa3");
    assert_eq!(normalize_security("WPA2 WPA3"), "wpa3");
    assert_eq!(normalize_security("WPA1 WPA2"), "wpa2");
    assert_eq!(normalize_security("WPA2"), "wpa2");
    assert_eq!(normalize_security("WPA1"), "wpa");
    assert_eq!(normalize_security("WPA"), "wpa");
    assert_eq!(normalize_security("WEP"), "wep");
    assert_eq!(normalize_security(""), "open");
    assert_eq!(normalize_security("--"), "open");
}

#[test]
fn signal_conversion_to_dbm() {
    // nmcli reports 0-100, we convert to dBm.
    let output = "net100:100:WPA2\nnet50:50:WPA2\nnet0:0:WPA2\n";
    let networks = parse_scan_output(output);

    assert_eq!(networks[0].signal, 0); // -100 + 100
    assert_eq!(networks[1].signal, -50); // -100 + 50
    assert_eq!(networks[2].signal, -100); // -100 + 0
}

#[test]
fn scan_dedup_keeps_first_seen_not_strongest() {
    let output = "dup:40:WPA2\nother:50:WPA2\ndup:90:WPA2\n";
    let networks = parse_scan_output(output);
    assert_eq!(networks.len(), 2);
    assert_eq!(networks[0].ssid, "other");
    assert_eq!(networks[1].ssid, "dup");
    assert_eq!(networks[1].signal, -60);
}

#[test]
fn scan_equal_signals_keep_input_order() {
    let output = "b:50:WPA2\na:70:WPA2\nc:50:WPA2\nd:50:\n";
    let names: Vec<String> = parse_scan_output(output).into_iter().map(|n| n.ssid).collect();
    assert_eq!(names, vec!["a", "b", "c", "d"]);
}

#[test]
fn scan_line_fields() {
    // The security field keeps anything after the second colon.
    let n = parse_scan_line("net:+40:WPA2:extra").unwrap();
    assert_eq!(n.ssid, "net");
    assert_eq!(n.signal, -60);
    assert_eq!(n.security, "wpa2");
    assert!(parse_scan_line("net:abc:WPA2").is_none());
    assert!(parse_scan_line("net::WPA2").is_none());
    assert!(parse_scan_line("net:50").is_none());
    assert!(parse_scan_line("").is_none());
    assert!(parse_scan_line(":50:WPA2").is_none());
    assert!(parse_scan_line("net:-2147483600:WPA2").is_none());
    assert_eq!(parse_scan_line("net:-2147483548:").unwrap().signal, i32::MIN);
}

#[test]
fn scan_output_with_crlf_lines() {
    let networks = parse_scan_output("a:10:WPA2\r\nb:20:\r\n");
    assert_eq!(networks.len(), 2);
    assert_eq!(networks[0].ssid, "b");
    assert_eq!(networks[0].security, "open");
    assert_eq!(networks[1].security, "wpa2");
}

#[test]
fn lines_are_split_like_str_lines() {
    for text in ["", "a", "a\n", "a\n\nb", "a\r\nb\r", "\n\n", "x\ry\n"] {
        let expected: Vec<String> = text.lines().map(|l| l.to_string()).collect();
        assert_eq!(split_lines(text), expected, "text {:?}", text);
    }
}

#[test]
fn security_fallback_and_markers() {
    assert_eq!(normalize_security("SAE"), "sae");
    assert_eq!(normalize_security("Owe"), "owe");
    assert_eq!(normalize_security("wpa2"), "wpa2");
    assert_eq!(normalize_security("wpa1 wpa2"), "wpa2");
    assert_eq!(normalize_security("Wep"), "wep");
    assert_eq!(normalize_security("open"), "open");
    assert_eq!(normalize_security("802.1X"), "802.1x");
    assert_eq!(security_tag_of("x", "WEP"), Some("wep".to_string()));
    assert_eq!(security_tag_of("x", "X"), None);
    assert_eq!(security_tag_of("--", "--"), Some("open".to_string()));
}

#[test]
fn status_output_finds_first_wifi_connection() {
    let output = "Wired:802-3-ethernet:eth0\nHome:802-11-wireless:wlan0\nCafe:802-11-wireless:wlan1\n";
    let status = parse_status_output(output);
    assert_eq!(status, WifiStatus { connected: true, ssid: Some("Home".to_string()) });

    let status = parse_status_output("Wired:802-3-ethernet:eth0\nlo:loopback\n");
    assert_eq!(status, WifiStatus { connected: false, ssid: None });

    let status = parse_status_output("Net:802-11-wireless\n");
    assert_eq!(status.ssid, Some("Net".to_string()));
}

#[test]
fn wifi_error_messages() {
    assert_eq!(WifiError::CommandFailed("x".into()).message(), "nmcli command failed: x");
    assert_eq!(WifiError::ParseError("y".into()).message(), "Failed to parse nmcli output: y");
    assert_eq!(WifiError::NoWifiDevice.message(), "No WiFi device available");
    assert_eq!(WifiError::ConnectionFailed("z".into()).message(), "Connection failed: z");
}

#[test]
fn mock_backend_answers() {
    let mut mock = MockWifiManager::default();
    assert_eq!(mock.status().unwrap(), WifiStatus { connected: false, ssid: None });
    assert!(mock.scan().unwrap().is_empty());
    assert!(mock.connect("net", "pw").is_ok());

    mock.networks = vec![Network { ssid: "n".into(), signal: -1, security: "open".into() }];
    assert_eq!(mock.scan().unwrap(), mock.networks);
    mock.connect_result = Err("denied".into());
    match mock.connect("net", "pw") {
        Err(WifiError::ConnectionFailed(m)) => assert_eq!(m, "Mock connect to net failed: denied"),
        other => panic!("unexpected {:?}", other),
    }
}
