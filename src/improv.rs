//! Improv WiFi RPC packets: framing, checksums and credentials.

pub mod capabilities;
pub mod characteristic;

use vstd::arithmetic::power::pow;
use vstd::prelude::*;
use vstd::slice::{slice_subrange, slice_to_vec};
use vstd::string::*;
use vstd::utf8::{decode_utf8, encode_utf8, valid_utf8};

verus! {

/// Improv WiFi service UUID, as a 128-bit value.
pub const SERVICE_UUID: u128 = 0x00467768_6228_2272_4663_277478268000;

/// The lower-case hexadecimal digit of a value below sixteen.
pub open spec fn hex_digit(n: int) -> char {
    if n < 10 {
        ((n + 48) as u8) as char
    } else {
        ((n + 87) as u8) as char
    }
}

/// The 32 hexadecimal digits of a 128-bit value, most significant first.
pub open spec fn hex_text(v: u128) -> Seq<char> {
    Seq::new(32, |i: int| hex_digit((v as int / pow(16, (31 - i) as nat)) % 16))
}

/// The hyphenated form of a UUID's 32 hexadecimal digits: groups of 8, 4,
/// 4, 4 and 12 digits.
pub open spec fn uuid_layout(h: Seq<char>) -> Seq<char> {
    h.subrange(0, 8) + seq!['-'] + h.subrange(8, 12) + seq!['-'] + h.subrange(12, 16) + seq!['-']
        + h.subrange(16, 20) + seq!['-'] + h.subrange(20, 32)
}

/// Relies on the `LowerHex` formatting of `u128` (through `format!`), padded
/// with zeros to 32 digits.
#[verifier::external_body]
fn hex_digits(v: u128) -> (r: String)
    ensures
        r@ == hex_text(v),
{
    format!("{:032x}", v)
}

/// The standard text form of a UUID given as a 128-bit value, such as
/// `00467768-6228-2272-4663-277478268000`.
pub fn uuid_text(v: u128) -> (r: String)
    ensures
        r@ == uuid_layout(hex_text(v)),
{
    let h = hex_digits(v);
    let s = h.as_str();
    let mut r = String::from_str(s.substring_char(0, 8));
    r.append("-");
    r.append(s.substring_char(8, 12));
    r.append("-");
    r.append(s.substring_char(12, 16));
    r.append("-");
    r.append(s.substring_char(16, 20));
    r.append("-");
    r.append(s.substring_char(20, 32));
    proof {
        reveal_strlit("-");
    }
    r
}

/// Improv device state, reported on the current-state characteristic.
#[derive(Debug, Clone, Copy, PartialEq, Eq, Structural)]
pub enum ImprovState {
    /// Device requires authorization before accepting commands.
    AuthorizationRequired,
    /// Device is authorized and ready to receive credentials.
    Authorized,
    /// Device is attempting to connect to WiFi.
    Provisioning,
    /// Device has successfully connected to WiFi.
    Provisioned,
}

impl ImprovState {
    /// The single byte that stands for the state on the wire.
    pub open spec fn spec_code(self) -> u8 {
        match self {
            ImprovState::AuthorizationRequired => 0x01,
            ImprovState::Authorized => 0x02,
            ImprovState::Provisioning => 0x03,
            ImprovState::Provisioned => 0x04,
        }
    }

    pub fn code(&self) -> (r: u8)
        ensures
            r == self.spec_code(),
    {
        match self {
            ImprovState::AuthorizationRequired => 0x01,
            ImprovState::Authorized => 0x02,
            ImprovState::Provisioning => 0x03,
            ImprovState::Provisioned => 0x04,
        }
    }
}

impl From<ImprovState> for u8 {
    fn from(state: ImprovState) -> (r: u8) {
        state.code()
    }
}

impl vstd::std_specs::convert::FromSpecImpl<ImprovState> for u8 {
    open spec fn obeys_from_spec() -> bool {
        true
    }

    open spec fn from_spec(state: ImprovState) -> u8 {
        state.spec_code()
    }
}

/// Improv error codes, reported on the error-state characteristic.
#[derive(Debug, Clone, Copy, PartialEq, Eq, Structural)]
pub enum ImprovError {
    /// No error.
    NoError,
    /// Invalid RPC packet received.
    InvalidRpc,
    /// Unknown RPC command.
    UnknownCommand,
    /// Unable to connect to WiFi network.
    UnableToConnect,
    /// Not authorized to perform this action.
    NotAuthorized,
    /// Bad hostname provided.
    BadHostname,
    /// Unknown error occurred.
    Unknown,
}

impl ImprovError {
    /// The single byte that stands for the error on the wire.
    pub open spec fn spec_code(self) -> u8 {
        match self {
            ImprovError::NoError => 0x00,
            ImprovError::InvalidRpc => 0x01,
            ImprovError::UnknownCommand => 0x02,
            ImprovError::UnableToConnect => 0x03,
            ImprovError::NotAuthorized => 0x04,
            ImprovError::BadHostname => 0x05,
            ImprovError::Unknown => 0xFF,
        }
    }

    pub fn code(&self) -> (r: u8)
        ensures
            r == self.spec_code(),
    {
        match self {
            ImprovError::NoError => 0x00,
            ImprovError::InvalidRpc => 0x01,
            ImprovError::UnknownCommand => 0x02,
            ImprovError::UnableToConnect => 0x03,
            ImprovError::NotAuthorized => 0x04,
            ImprovError::BadHostname => 0x05,
            ImprovError::Unknown => 0xFF,
        }
    }
}

impl From<ImprovError> for u8 {
    fn from(error: ImprovError) -> (r: u8) {
        error.code()
    }
}

impl vstd::std_specs::convert::FromSpecImpl<ImprovError> for u8 {
    open spec fn obeys_from_spec() -> bool {
        true
    }

    open spec fn from_spec(error: ImprovError) -> u8 {
        error.spec_code()
    }
}

/// RPC command identifiers.
#[derive(Debug, Clone, Copy, PartialEq, Eq, Structural)]
pub enum RpcCommand {
    /// Send WiFi credentials (SSID + password).
    SendWifiSettings,
    /// Request device identification (blink LED, etc.).
    Identify,
    /// Get device information.
    GetDeviceInfo,
    /// Scan for WiFi networks.
    ScanWifiNetworks,
    /// Get or set hostname.
    Hostname,
}

impl RpcCommand {
    /// The command byte that stands for the command on the wire.
    pub open spec fn spec_code(self) -> u8 {
        match self {
            RpcCommand::SendWifiSettings => 0x01,
            RpcCommand::Identify => 0x02,
            RpcCommand::GetDeviceInfo => 0x03,
            RpcCommand::ScanWifiNetworks => 0x04,
            RpcCommand::Hostname => 0x05,
        }
    }

    /// The command that a command byte names, if any.
    pub open spec fn spec_from_code(b: u8) -> Option<RpcCommand> {
        if b == 0x01 {
            Some(RpcCommand::SendWifiSettings)
        } else if b == 0x02 {
            Some(RpcCommand::Identify)
        } else if b == 0x03 {
            Some(RpcCommand::GetDeviceInfo)
        } else if b == 0x04 {
            Some(RpcCommand::ScanWifiNetworks)
        } else if b == 0x05 {
            Some(RpcCommand::Hostname)
        } else {
            None
        }
    }

    pub fn code(&self) -> (r: u8)
        ensures
            r == self.spec_code(),
    {
        match self {
            RpcCommand::SendWifiSettings => 0x01,
            RpcCommand::Identify => 0x02,
            RpcCommand::GetDeviceInfo => 0x03,
            RpcCommand::ScanWifiNetworks => 0x04,
            RpcCommand::Hostname => 0x05,
        }
    }

    /// Decode a command byte.
    pub fn from_code(value: u8) -> (r: Result<RpcCommand, RpcError>)
        ensures
            r == command_result(value),
    {
        match value {
            0x01 => Ok(RpcCommand::SendWifiSettings),
            0x02 => Ok(RpcCommand::Identify),
            0x03 => Ok(RpcCommand::GetDeviceInfo),
            0x04 => Ok(RpcCommand::ScanWifiNetworks),
            0x05 => Ok(RpcCommand::Hostname),
            _ => Err(RpcError::UnknownCommand(value)),
        }
    }
}

/// What decoding a command byte gives.
pub open spec fn command_result(b: u8) -> Result<RpcCommand, RpcError> {
    match RpcCommand::spec_from_code(b) {
        Some(c) => Ok(c),
        None => Err(RpcError::UnknownCommand(b)),
    }
}

impl TryFrom<u8> for RpcCommand {
    type Error = RpcError;

    fn try_from(value: u8) -> (r: Result<Self, Self::Error>) {
        RpcCommand::from_code(value)
    }
}

impl vstd::std_specs::convert::TryFromSpecImpl<u8> for RpcCommand {
    open spec fn obeys_try_from_spec() -> bool {
        true
    }

    open spec fn try_from_spec(value: u8) -> Result<Self, Self::Error> {
        command_result(value)
    }
}

/// Errors in parsing RPC packets.
#[derive(Debug, Clone, PartialEq, Eq, Structural)]
pub enum RpcError {
    /// Packet too short.
    TooShort,
    /// Invalid checksum.
    BadChecksum { expected: u8, actual: u8 },
    /// Unknown command ID.
    UnknownCommand(u8),
    /// Data length doesn't match packet size.
    LengthMismatch { expected: usize, actual: usize },
}

/// Parsed RPC request.
#[derive(Debug, Clone, PartialEq, Eq)]
pub struct RpcRequest {
    pub command: RpcCommand,
    pub data: Vec<u8>,
}

/// WiFi credentials parsed from a send-settings command.
#[derive(Debug, Clone, PartialEq, Eq)]
pub struct WifiCredentials {
    pub ssid: String,
    pub password: String,
}

/// What parsing a packet gives: the command and its payload, or the first
/// failure in the order length, checksum, command.
///
/// Packet format: command byte, payload length byte, payload, checksum byte
/// (the checksum of all preceding bytes).
pub open spec fn frame_result(s: Seq<u8>) -> Result<(RpcCommand, Seq<u8>), RpcError> {
    if s.len() < 3 {
        Err(RpcError::TooShort)
    } else if s.len() != s[1] + 3 {
        Err(RpcError::LengthMismatch { expected: (s[1] + 3) as usize, actual: s.len() as usize })
    } else if checksum_of(s.drop_last()) != s.last() {
        Err(RpcError::BadChecksum { expected: checksum_of(s.drop_last()), actual: s.last() })
    } else {
        match command_result(s[0]) {
            Ok(c) => Ok((c, s.subrange(2, s.len() - 1))),
            Err(e) => Err(e),
        }
    }
}

/// Split one length-prefixed field off the front of a payload: the field's
/// bytes and what follows them, or `None` where the declared length runs past
/// the end.
pub open spec fn split_field(p: Seq<u8>) -> Option<(Seq<u8>, Seq<u8>)> {
    if p.len() >= 1 && p[0] + 1 <= p.len() {
        Some((p.subrange(1, p[0] + 1), p.subrange(p[0] + 1, p.len() as int)))
    } else {
        None
    }
}

/// The SSID and password bytes of a send-settings payload: two
/// length-prefixed fields, anything after them ignored.
pub open spec fn credential_fields(p: Seq<u8>) -> Option<(Seq<u8>, Seq<u8>)> {
    match split_field(p) {
        Some((ssid, rest)) => match split_field(rest) {
            Some((password, _)) => Some((ssid, password)),
            None => None,
        },
        None => None,
    }
}

/// Text decoded from bytes, with each invalid UTF-8 sequence replaced.
pub uninterp spec fn lossy_text(b: Seq<u8>) -> Seq<char>;

/// Relies on `String::from_utf8_lossy`: it depends on the bytes alone, and a
/// valid UTF-8 sequence decodes to exactly the characters it encodes.
#[verifier::external_body]
fn decode_lossy(b: &[u8]) -> (r: String)
    ensures
        r@ == lossy_text(b@),
        valid_utf8(b@) ==> r@ == decode_utf8(b@),
{
    String::from_utf8_lossy(b).into_owned()
}

impl RpcRequest {
    /// Parse an RPC packet from raw bytes.
    pub fn parse(data: &[u8]) -> (r: Result<RpcRequest, RpcError>)
        ensures
            match r {
                Ok(req) => frame_result(data@) == Ok::<(RpcCommand, Seq<u8>), RpcError>(
                    (req.command, req.data@),
                ),
                Err(e) => frame_result(data@) == Err::<(RpcCommand, Seq<u8>), RpcError>(e),
            },
    {
        if data.len() < 3 {
            return Err(RpcError::TooShort);
        }
        let command_byte = data[0];
        let data_len = data[1] as usize;
        let expected_len = 2 + data_len + 1;
        if data.len() != expected_len {
            return Err(RpcError::LengthMismatch { expected: expected_len, actual: data.len() });
        }
        let checksum_idx = data.len() - 1;
        let expected_checksum = calculate_checksum(slice_subrange(data, 0, checksum_idx));
        let actual_checksum = data[checksum_idx];
        proof {
            assert(data@.subrange(0, checksum_idx as int) =~= data@.drop_last());
        }
        if expected_checksum != actual_checksum {
            return Err(RpcError::BadChecksum {
                expected: expected_checksum,
                actual: actual_checksum,
            });
        }
        let command = match RpcCommand::from_code(command_byte) {
            Ok(c) => c,
            Err(e) => {
                return Err(e);
            },
        };
        let payload = slice_to_vec(slice_subrange(data, 2, 2 + data_len));
        Ok(RpcRequest { command, data: payload })
    }

    /// Parse WiFi credentials from a send-settings command: a length-prefixed
    /// SSID followed by a length-prefixed password, both decoded leniently.
    pub fn parse_wifi_credentials(&self) -> (r: Result<WifiCredentials, RpcError>)
        ensures
            self.command != RpcCommand::SendWifiSettings ==> r == Err::<WifiCredentials, RpcError>(
                RpcError::UnknownCommand(self.command.spec_code()),
            ),
            self.command == RpcCommand::SendWifiSettings ==> match credential_fields(self.data@) {
                None => r == Err::<WifiCredentials, RpcError>(RpcError::TooShort),
                Some((ssid, password)) => r matches Ok(c) && c.ssid@ == lossy_text(ssid)
                    && c.password@ == lossy_text(password) && (valid_utf8(ssid) ==> c.ssid@
                    == decode_utf8(ssid)) && (valid_utf8(password) ==> c.password@ == decode_utf8(
                    password,
                )),
            },
    {
        if self.command != RpcCommand::SendWifiSettings {
            return Err(RpcError::UnknownCommand(self.command.code()));
        }
        if self.data.len() == 0 {
            return Err(RpcError::TooShort);
        }
        let ssid_len = self.data[0] as usize;
        if self.data.len() < 1 + ssid_len + 1 {
            return Err(RpcError::TooShort);
        }
        let ssid = decode_lossy(slice_subrange(self.data.as_slice(), 1, 1 + ssid_len));
        let password_len = self.data[1 + ssid_len] as usize;
        let password_start = 2 + ssid_len;
        if self.data.len() < password_start + password_len {
            return Err(RpcError::TooShort);
        }
        let password = decode_lossy(
            slice_subrange(self.data.as_slice(), password_start, password_start + password_len),
        );
        proof {
            let p = self.data@;
            let rest = p.subrange(ssid_len + 1, p.len() as int);
            assert(split_field(p) == Some((p.subrange(1, ssid_len + 1), rest)));
            assert(rest.subrange(1, rest[0] + 1) =~= p.subrange(
                password_start as int,
                password_start + password_len,
            ));
        }
        Ok(WifiCredentials { ssid, password })
    }
}

/// Sum of the bytes as an unbounded integer.
pub open spec fn byte_sum(s: Seq<u8>) -> int
    decreases s.len(),
{
    if s.len() == 0 {
        0
    } else {
        byte_sum(s.drop_last()) + s.last()
    }
}

/// The packet checksum: the byte sum, wrapped to eight bits.
pub open spec fn checksum_of(s: Seq<u8>) -> u8 {
    (byte_sum(s) % 256) as u8
}

/// Calculate the checksum of a byte slice: the sum of all bytes, keeping
/// only the low eight bits.
pub fn calculate_checksum(data: &[u8]) -> (r: u8)
    ensures
        r == checksum_of(data@),
{
    let mut acc: u8 = 0;
    let mut i: usize = 0;
    while i < data.len()
        invariant
            i <= data@.len(),
            acc == checksum_of(data@.take(i as int)),
        decreases data@.len() - i,
    {
        proof {
            assert(data@.take(i + 1).drop_last() =~= data@.take(i as int));
        }
        acc = acc.wrapping_add(data[i]);
        i = i + 1;
    }
    proof {
        assert(data@.take(i as int) =~= data@);
    }
    acc
}

/// Length-prefixed encoding of a list of fields: each field's length byte
/// (its length wrapped to eight bits) followed by its bytes.
pub open spec fn encode_fields(fields: Seq<Seq<u8>>) -> Seq<u8>
    decreases fields.len(),
{
    if fields.len() == 0 {
        Seq::empty()
    } else {
        encode_fields(fields.drop_last()) + seq![(fields.last().len() % 256) as u8]
            + fields.last()
    }
}

/// A response packet: command byte, payload length byte (wrapped to eight
/// bits), the encoded fields, and the checksum of everything before it.
pub open spec fn response_frame(command: u8, fields: Seq<Seq<u8>>) -> Seq<u8> {
    let body = seq![command, (encode_fields(fields).len() % 256) as u8] + encode_fields(fields);
    body.push(checksum_of(body))
}

/// The UTF-8 bytes of each string.
pub open spec fn field_bytes(strings: Seq<&str>) -> Seq<Seq<u8>> {
    strings.map_values(|s: &str| s.spec_bytes())
}

/// Build an RPC response packet from a list of strings.
pub fn build_response(command: RpcCommand, strings: &[&str]) -> (r: Vec<u8>)
    ensures
        r@ == response_frame(command.spec_code(), field_bytes(strings@)),
{
    let mut packet: Vec<u8> = Vec::new();
    packet.push(command.code());
    packet.push(0);
    let ghost fields = field_bytes(strings@);
    let mut i: usize = 0;
    while i < strings.len()
        invariant
            i <= strings@.len(),
            fields == field_bytes(strings@),
            packet@ == seq![command.spec_code(), 0u8] + encode_fields(fields.take(i as int)),
        decreases strings@.len() - i,
    {
        let s: &str = strings[i];
        let bytes = s.as_bytes();
        let n = bytes.len();
        proof {
            assert(fields.take(i + 1).drop_last() =~= fields.take(i as int));
            assert(fields.take(i + 1).last() == s.spec_bytes());
            assert(n == s.spec_bytes().len());
        }
        packet.push((n % 256) as u8);
        packet.extend_from_slice(bytes);
        i = i + 1;
        proof {
            assert(packet@ =~= seq![command.spec_code(), 0u8] + encode_fields(fields.take(i as int)));
        }
    }
    proof {
        assert(fields.take(i as int) =~= fields);
    }
    let data_len = ((packet.len() - 2) % 256) as u8;
    packet.set(1, data_len);
    proof {
        assert(packet@ =~= seq![command.spec_code(), data_len] + encode_fields(fields));
    }
    let checksum = calculate_checksum(packet.as_slice());
    packet.push(checksum);
    packet
}

/// Build a device info response: firmware name, firmware version, hardware
/// type and device name.
pub fn build_device_info_response(
    firmware_name: &str,
    firmware_version: &str,
    hardware_type: &str,
    device_name: &str,
) -> (r: Vec<u8>)
    ensures
        r@ == response_frame(
            RpcCommand::GetDeviceInfo.spec_code(),
            seq![
                firmware_name.spec_bytes(),
                firmware_version.spec_bytes(),
                hardware_type.spec_bytes(),
                device_name.spec_bytes(),
            ],
        ),
{
    let fields: [&str; 4] = [firmware_name, firmware_version, hardware_type, device_name];
    let r = build_response(RpcCommand::GetDeviceInfo, fields.as_slice());
    proof {
        assert(field_bytes(fields@) =~= seq![
            firmware_name.spec_bytes(),
            firmware_version.spec_bytes(),
            hardware_type.spec_bytes(),
            device_name.spec_bytes(),
        ]);
    }
    r
}

/// Build a successful provisioning response carrying the redirect URL.
pub fn build_provision_response(redirect_url: &str) -> (r: Vec<u8>)
    ensures
        r@ == response_frame(RpcCommand::SendWifiSettings.spec_code(), seq![redirect_url.spec_bytes()]),
{
    let fields: [&str; 1] = [redirect_url];
    let r = build_response(RpcCommand::SendWifiSettings, fields.as_slice());
    proof {
        assert(field_bytes(fields@) =~= seq![redirect_url.spec_bytes()]);
    }
    r
}

/// The character of a decimal digit.
pub open spec fn digit_char(d: int) -> char {
    ((d + 48) as u8) as char
}

/// Decimal digits of a natural number, most significant first.
pub open spec fn natural_text(n: nat) -> Seq<char>
    decreases n,
{
    if n < 10 {
        seq![digit_char(n as int)]
    } else {
        natural_text(n / 10).push(digit_char((n % 10) as int))
    }
}

/// Decimal text of an integer, with a leading minus sign when negative.
pub open spec fn decimal_text(n: int) -> Seq<char> {
    if n < 0 {
        seq!['-'] + natural_text((-n) as nat)
    } else {
        natural_text(n as nat)
    }
}

/// Relies on the `Display` impl of `i32` (through `to_string`): decimal
/// digits without leading zeros, preceded by `-` for a negative number.
#[verifier::external_body]
fn decimal_string(n: i32) -> (r: String)
    ensures
        r@ == decimal_text(n as int),
{
    n.to_string()
}

/// One network in a scan response: `SSID,RSSI,AUTH`, where AUTH is `1` for
/// a secured network and `0` for an open one.
pub open spec fn scan_entry_text(ssid: Seq<char>, rssi: i32, secured: bool) -> Seq<char> {
    ssid + seq![','] + decimal_text(rssi as int) + seq![','] + if secured {
        seq!['1']
    } else {
        seq!['0']
    }
}

/// The fields of a scan response, one per network.
pub open spec fn scan_fields(networks: Seq<(String, i32, bool)>) -> Seq<Seq<u8>> {
    networks.map_values(|n: (String, i32, bool)| encode_utf8(scan_entry_text(n.0@, n.1, n.2)))
}

/// Build a WiFi scan result response from (SSID, RSSI, secured) triples.
pub fn build_scan_response(networks: &[(String, i32, bool)]) -> (r: Vec<u8>)
    ensures
        r@ == response_frame(RpcCommand::ScanWifiNetworks.spec_code(), scan_fields(networks@)),
{
    let mut entries: Vec<String> = Vec::new();
    let mut i: usize = 0;
    while i < networks.len()
        invariant
            i <= networks@.len(),
            entries@.len() == i,
            forall|k: int|
                0 <= k < i ==> #[trigger] entries@[k]@ == scan_entry_text(
                    networks@[k].0@,
                    networks@[k].1,
                    networks@[k].2,
                ),
        decreases networks@.len() - i,
    {
        let ssid: &String = &networks[i].0;
        let mut text: String = ssid.clone();
        text.append(",");
        let digits = decimal_string(networks[i].1);
        text.append(digits.as_str());
        text.append(",");
        if networks[i].2 {
            text.append("1");
        } else {
            text.append("0");
        }
        proof {
            reveal_strlit(",");
            reveal_strlit("1");
            reveal_strlit("0");
            assert(text@ =~= scan_entry_text(networks@[i as int].0@, networks@[i as int].1, networks@[i as int].2));
        }
        entries.push(text);
        i = i + 1;
    }
    let mut refs: Vec<&str> = Vec::new();
    let mut j: usize = 0;
    while j < entries.len()
        invariant
            j <= entries@.len(),
            refs@.len() == j,
            forall|k: int| 0 <= k < j ==> #[trigger] refs@[k]@ == entries@[k]@,
        decreases entries@.len() - j,
    {
        refs.push(entries[j].as_str());
        j = j + 1;
    }
    let r = build_response(RpcCommand::ScanWifiNetworks, refs.as_slice());
    proof {
        assert forall|k: int| 0 <= k < refs@.len() implies #[trigger] field_bytes(refs@)[k]
            == scan_fields(networks@)[k] by {
            assert(refs@[k]@ == entries@[k]@);
        }
        assert(field_bytes(refs@) =~= scan_fields(networks@));
    }
    r
}

/// Decode a payload made wholly of length-prefixed fields, or `None` where a
/// declared length runs past the end.
pub open spec fn decode_fields(p: Seq<u8>) -> Option<Seq<Seq<u8>>>
    decreases p.len(),
{
    if p.len() == 0 {
        Some(Seq::empty())
    } else if p[0] + 1 <= p.len() {
        match decode_fields(p.subrange(p[0] + 1, p.len() as int)) {
            Some(rest) => Some(seq![p.subrange(1, p[0] + 1)] + rest),
            None => None,
        }
    } else {
        None
    }
}

proof fn lemma_encode_fields_concat(a: Seq<Seq<u8>>, b: Seq<Seq<u8>>)
    ensures
        encode_fields(a + b) == encode_fields(a) + encode_fields(b),
    decreases b.len(),
{
    if b.len() == 0 {
        assert(a + b =~= a);
        assert(encode_fields(a) + encode_fields(b) =~= encode_fields(a));
    } else {
        assert((a + b).drop_last() =~= a + b.drop_last());
        lemma_encode_fields_concat(a, b.drop_last());
        assert(encode_fields(a + b) =~= encode_fields(a) + encode_fields(b));
    }
}

proof fn lemma_field_shorter_than_encoding(fields: Seq<Seq<u8>>, i: int)
    requires
        0 <= i < fields.len(),
    ensures
        fields[i].len() < encode_fields(fields).len(),
    decreases fields.len(),
{
    if i < fields.len() - 1 {
        lemma_field_shorter_than_encoding(fields.drop_last(), i);
    }
}

proof fn lemma_encode_one_field(a: Seq<u8>)
    ensures
        encode_fields(seq![a]) == seq![(a.len() % 256) as u8] + a,
{
    let empty = Seq::<Seq<u8>>::empty();
    assert(seq![a].drop_last() =~= empty);
    assert(encode_fields(empty) =~= Seq::<u8>::empty());
    assert(encode_fields(seq![a]) =~= seq![(a.len() % 256) as u8] + a);
}

proof fn lemma_encode_two_fields(a: Seq<u8>, b: Seq<u8>)
    ensures
        encode_fields(seq![a, b]) == seq![(a.len() % 256) as u8] + a + seq![(b.len() % 256) as u8]
            + b,
{
    lemma_encode_one_field(a);
    assert(seq![a, b].drop_last() =~= seq![a]);
    assert(encode_fields(seq![a, b]) =~= seq![(a.len() % 256) as u8] + a + seq![
        (b.len() % 256) as u8,
    ] + b);
}

proof fn lemma_decode_encode_fields(fields: Seq<Seq<u8>>)
    requires
        forall|i: int| 0 <= i < fields.len() ==> #[trigger] fields[i].len() < 256,
    ensures
        decode_fields(encode_fields(fields)) == Some(fields),
    decreases fields.len(),
{
    if fields.len() == 0 {
        assert(encode_fields(fields) =~= Seq::<u8>::empty());
    } else {
        let head = seq![fields[0]];
        let tail = fields.skip(1);
        assert(fields =~= head + tail);
        lemma_encode_fields_concat(head, tail);
        lemma_encode_one_field(fields[0]);
        let p = encode_fields(fields);
        assert(p =~= seq![(fields[0].len() % 256) as u8] + fields[0] + encode_fields(tail));
        lemma_decode_encode_fields(tail);
        assert(p.subrange(1, p[0] + 1) =~= fields[0]);
        assert(p.subrange(p[0] + 1, p.len() as int) =~= encode_fields(tail));
        assert(seq![fields[0]] + tail =~= fields);
    }
}

/// Round trip of the packet codec: a response built from fields whose
/// encoding fits the one-byte length parses back to the same command, and its
/// payload decodes to the same fields.
pub proof fn lemma_build_parse_round_trip(command: RpcCommand, fields: Seq<Seq<u8>>)
    requires
        encode_fields(fields).len() < 256,
    ensures
        frame_result(response_frame(command.spec_code(), fields)) == Ok::<
            (RpcCommand, Seq<u8>),
            RpcError,
        >((command, encode_fields(fields))),
        decode_fields(encode_fields(fields)) == Some(fields),
{
    let e = encode_fields(fields);
    let body = seq![command.spec_code(), (e.len() % 256) as u8] + e;
    let frame = response_frame(command.spec_code(), fields);
    assert(frame.drop_last() =~= body);
    assert(frame.subrange(2, frame.len() - 1) =~= e);
    assert forall|i: int| 0 <= i < fields.len() implies #[trigger] fields[i].len() < 256 by {
        lemma_field_shorter_than_encoding(fields, i);
    }
    lemma_decode_encode_fields(fields);
}

proof fn lemma_two_fields_are_credentials(a: Seq<u8>, b: Seq<u8>)
    requires
        encode_fields(seq![a, b]).len() < 256,
    ensures
        credential_fields(encode_fields(seq![a, b])) == Some((a, b)),
{
    lemma_field_shorter_than_encoding(seq![a, b], 0);
    lemma_field_shorter_than_encoding(seq![a, b], 1);
    lemma_encode_two_fields(a, b);
    let p = encode_fields(seq![a, b]);
    let rest = p.subrange(p[0] + 1, p.len() as int);
    assert(p.subrange(1, p[0] + 1) =~= a);
    assert(rest =~= seq![(b.len() % 256) as u8] + b);
    assert(rest.subrange(1, rest[0] + 1) =~= b);
}

/// Round trip of credentials: the SSID and password extracted from a
/// send-settings packet built from two strings are the strings themselves,
/// when their encoding fits the one-byte length.
pub proof fn lemma_credentials_round_trip(ssid: Seq<char>, password: Seq<char>)
    requires
        encode_fields(seq![encode_utf8(ssid), encode_utf8(password)]).len() < 256,
    ensures
        ({
            let fields = seq![encode_utf8(ssid), encode_utf8(password)];
            let frame = response_frame(RpcCommand::SendWifiSettings.spec_code(), fields);
            &&& frame_result(frame) == Ok::<(RpcCommand, Seq<u8>), RpcError>(
                (RpcCommand::SendWifiSettings, encode_fields(fields)),
            )
            &&& credential_fields(encode_fields(fields)) == Some(
                (encode_utf8(ssid), encode_utf8(password)),
            )
            &&& valid_utf8(encode_utf8(ssid)) && decode_utf8(encode_utf8(ssid)) == ssid
            &&& valid_utf8(encode_utf8(password)) && decode_utf8(encode_utf8(password)) == password
        }),
{
    let a = encode_utf8(ssid);
    let b = encode_utf8(password);
    lemma_build_parse_round_trip(RpcCommand::SendWifiSettings, seq![a, b]);
    lemma_two_fields_are_credentials(a, b);
    vstd::utf8::encode_utf8_valid_utf8(ssid);
    vstd::utf8::encode_utf8_valid_utf8(password);
    vstd::utf8::encode_utf8_decode_utf8(ssid);
    vstd::utf8::encode_utf8_decode_utf8(password);
}

/// A packet with an empty payload and a correct checksum parses for every
/// known command byte and fails with `UnknownCommand` for every other byte.
pub proof fn lemma_parse_empty_frame(b: u8)
    ensures
        frame_result(seq![b, 0u8, b]) == match command_result(b) {
            Ok(c) => Ok::<(RpcCommand, Seq<u8>), RpcError>((c, Seq::empty())),
            Err(e) => Err(e),
        },
{
    let s = seq![b, 0u8, b];
    assert(s.drop_last() =~= seq![b, 0u8]);
    assert(seq![b, 0u8].drop_last() =~= seq![b]);
    assert(seq![b].drop_last() =~= Seq::<u8>::empty());
    assert(byte_sum(Seq::<u8>::empty()) == 0);
    assert(byte_sum(seq![b]) == b);
    assert(byte_sum(seq![b, 0u8]) == b);
    assert(s.subrange(2, 2) =~= Seq::<u8>::empty());
}

/// Length is checked before anything else: under three bytes is `TooShort`,
/// and a declared payload length that disagrees with the packet's size is
/// `LengthMismatch`, whatever the checksum and command bytes hold.
pub proof fn lemma_parse_rejects_bad_length(s: Seq<u8>)
    ensures
        s.len() < 3 ==> frame_result(s) == Err::<(RpcCommand, Seq<u8>), RpcError>(
            RpcError::TooShort,
        ),
        s.len() >= 3 && s.len() != s[1] + 3 ==> frame_result(s) == Err::<
            (RpcCommand, Seq<u8>),
            RpcError,
        >(RpcError::LengthMismatch { expected: (s[1] + 3) as usize, actual: s.len() as usize }),
{
}

} // verus!
