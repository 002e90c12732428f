//! WiFi backend data: statuses, errors, and the parsing of the network
//! manager's tabular output.

use vstd::prelude::*;
use vstd::string::*;

use crate::protocol::{Network, NetworkView};

verus! {

/// Errors from WiFi operations.
#[derive(Debug, Clone)]
pub enum WifiError {
    /// The network control command failed.
    CommandFailed(String),
    /// Its output could not be parsed.
    ParseError(String),
    /// WiFi hardware not available.
    NoWifiDevice,
    /// Connection attempt failed.
    ConnectionFailed(String),
}

/// The characters of a text.
fn chars_of(s: &str) -> (r: Vec<char>)
    ensures
        r@ == s@,
{
    broadcast use vstd::string::group_string_axioms;

    let mut out: Vec<char> = Vec::new();
    for c in it: s.chars()
        invariant
            it.seq() == s@,
            out@ == it.seq().take(it.index()),
    {
        out.push(c);
        proof {
            assert(out@ =~= it.seq().take(it.index() + 1));
        }
    }
    proof {
        assert(out@ =~= s@);
    }
    out
}

/// A line without the carriage return that ends it, if any.
pub open spec fn strip_cr(line: Seq<char>) -> Seq<char> {
    if line.len() > 0 && line.last() == '\r' {
        line.drop_last()
    } else {
        line
    }
}

/// The lines of `s` from position `i` on, where the current line began at
/// `start`.
pub open spec fn lines_from(s: Seq<char>, start: int, i: int) -> Seq<Seq<char>>
    decreases s.len() - i,
{
    if i >= s.len() {
        if start < s.len() {
            seq![s.subrange(start, s.len() as int)]
        } else {
            Seq::empty()
        }
    } else if s[i] == '\n' {
        seq![strip_cr(s.subrange(start, i))] + lines_from(s, i + 1, i + 1)
    } else {
        lines_from(s, start, i + 1)
    }
}

/// The lines of a text, split as `str::lines` splits them: at each `\n`,
/// dropping a `\r` right before it; a final `\n` ends the last line and
/// starts no empty one.
pub open spec fn text_lines(s: Seq<char>) -> Seq<Seq<char>> {
    lines_from(s, 0, 0)
}

/// The texts of a list of strings.
pub open spec fn texts(v: Seq<String>) -> Seq<Seq<char>> {
    v.map_values(|l: String| l@)
}

/// Split a text into its lines.
pub fn split_lines(text: &str) -> (r: Vec<String>)
    ensures
        texts(r@) == text_lines(text@),
{
    let chars = chars_of(text);
    let mut lines: Vec<String> = Vec::new();
    let mut start: usize = 0;
    let mut i: usize = 0;
    while i < chars.len()
        invariant
            start <= i <= chars@.len(),
            chars@ == text@,
            texts(lines@) + lines_from(text@, start as int, i as int) == text_lines(text@),
        decreases chars@.len() - i,
    {
        if chars[i] == '\n' {
            let mut end = i;
            if end > start && chars[end - 1] == '\r' {
                end = end - 1;
            }
            let piece = String::from_str(text.substring_char(start, end));
            let ghost before = lines@;
            lines.push(piece);
            proof {
                assert(piece@ == strip_cr(text@.subrange(start as int, i as int)));
                assert(texts(lines@) =~= texts(before).push(piece@));
                assert(texts(lines@) + lines_from(text@, (i + 1) as int, (i + 1) as int) =~= texts(
                    before,
                ) + lines_from(text@, start as int, i as int));
            }
            i = i + 1;
            start = i;
        } else {
            i = i + 1;
        }
    }
    if start < chars.len() {
        let piece = String::from_str(text.substring_char(start, chars.len()));
        let ghost before = lines@;
        lines.push(piece);
        proof {
            assert(texts(lines@) =~= texts(before) + lines_from(text@, start as int, i as int));
        }
    } else {
        proof {
            assert(texts(lines@) =~= texts(lines@) + lines_from(text@, start as int, i as int));
        }
    }
    lines
}

/// Index of the first `c` in `s` at or after `i`, or the length of `s`.
pub open spec fn find_char(s: Seq<char>, c: char, i: int) -> int
    decreases s.len() - i,
{
    if i >= s.len() {
        s.len() as int
    } else if s[i] == c {
        i
    } else {
        find_char(s, c, i + 1)
    }
}

proof fn lemma_find_char_bounds(s: Seq<char>, c: char, i: int)
    requires
        0 <= i,
    ensures
        i <= find_char(s, c, i) || find_char(s, c, i) == s.len(),
        find_char(s, c, i) <= s.len(),
        find_char(s, c, i) < s.len() ==> s[find_char(s, c, i)] == c,
    decreases s.len() - i,
{
    if i < s.len() && s[i] != c {
        lemma_find_char_bounds(s, c, i + 1);
    }
}

/// The index of the first `c` at or after `from`, or the length.
fn find_char_from(chars: &Vec<char>, c: char, from: usize) -> (r: usize)
    ensures
        r == find_char(chars@, c, from as int),
{
    let mut k = from;
    while k < chars.len() && chars[k] != c
        invariant
            from <= k,
            k <= chars@.len() || k == from,
            find_char(chars@, c, from as int) == find_char(chars@, c, k as int),
        decreases chars@.len() - k,
    {
        k = k + 1;
    }
    if k >= chars.len() {
        chars.len()
    } else {
        k
    }
}

/// The text that describes a WiFi error.
pub open spec fn wifi_error_text(e: WifiError) -> Seq<char> {
    match e {
        WifiError::CommandFailed(m) => "nmcli command failed: "@ + m@,
        WifiError::ParseError(m) => "Failed to parse nmcli output: "@ + m@,
        WifiError::NoWifiDevice => "No WiFi device available"@,
        WifiError::ConnectionFailed(m) => "Connection failed: "@ + m@,
    }
}

impl WifiError {
    /// Describe the error in words.
    pub fn message(&self) -> (r: String)
        ensures
            r@ == wifi_error_text(*self),
    {
        match self {
            WifiError::CommandFailed(m) => {
                let mut r = String::from_str("nmcli command failed: ");
                r.append(m.as_str());
                r
            },
            WifiError::ParseError(m) => {
                let mut r = String::from_str("Failed to parse nmcli output: ");
                r.append(m.as_str());
                r
            },
            WifiError::NoWifiDevice => String::from_str("No WiFi device available"),
            WifiError::ConnectionFailed(m) => {
                let mut r = String::from_str("Connection failed: ");
                r.append(m.as_str());
                r
            },
        }
    }
}

/// WiFi connection status.
#[derive(Debug, Clone, PartialEq)]
pub struct WifiStatus {
    /// Whether connected to a WiFi network.
    pub connected: bool,
    /// SSID of current network (if connected).
    pub ssid: Option<String>,
}

impl WifiStatus {
    /// An equal copy of the status.
    pub fn copy(&self) -> (r: WifiStatus)
        ensures
            r == *self,
    {
        let ssid = match &self.ssid {
            Some(s) => Some(s.clone()),
            None => None,
        };
        WifiStatus { connected: self.connected, ssid }
    }
}

/// An equal copy of a network.
pub fn copy_network(n: &Network) -> (r: Network)
    ensures
        r == *n,
{
    Network { ssid: n.ssid.clone(), signal: n.signal, security: n.security.clone() }
}

/// The WiFi backend that drives the system's network manager.
pub struct NmcliWifiManager;

impl NmcliWifiManager {
    pub fn new() -> (r: Self) {
        NmcliWifiManager
    }
}

impl Default for NmcliWifiManager {
    fn default() -> (r: Self) {
        NmcliWifiManager::new()
    }
}

/// A WiFi backend that answers with fixed values, for tests.
pub struct MockWifiManager {
    pub status: WifiStatus,
    pub networks: Vec<Network>,
    pub connect_result: Result<(), String>,
}

impl Default for MockWifiManager {
    fn default() -> (r: Self)
        ensures
            !r.status.connected,
            r.status.ssid is None,
            r.networks@.len() == 0,
            r.connect_result is Ok,
    {
        MockWifiManager {
            status: WifiStatus { connected: false, ssid: None },
            networks: Vec::new(),
            connect_result: Ok(()),
        }
    }
}

impl MockWifiManager {
    /// The configured status.
    pub fn status(&self) -> (r: Result<WifiStatus, WifiError>)
        ensures
            r matches Ok(s) && s == self.status,
    {
        Ok(self.status.copy())
    }

    /// The configured networks.
    pub fn scan(&self) -> (r: Result<Vec<Network>, WifiError>)
        ensures
            r matches Ok(v) && v@ == self.networks@,
    {
        let mut out: Vec<Network> = Vec::new();
        let mut i: usize = 0;
        while i < self.networks.len()
            invariant
                i <= self.networks@.len(),
                out@ == self.networks@.take(i as int),
            decreases self.networks@.len() - i,
        {
            out.push(copy_network(&self.networks[i]));
            i = i + 1;
            proof {
                assert(out@ =~= self.networks@.take(i as int));
            }
        }
        proof {
            assert(self.networks@.take(i as int) =~= self.networks@);
        }
        Ok(out)
    }

    /// Succeed, or fail with a message naming the network and the
    /// configured reason.
    pub fn connect(&self, ssid: &str, password: &str) -> (r: Result<(), WifiError>)
        ensures
            self.connect_result is Ok ==> r is Ok,
            self.connect_result matches Err(reason) ==> r matches Err(WifiError::ConnectionFailed(m))
                && m@ == "Mock connect to "@ + ssid@ + " failed: "@ + reason@,
    {
        match &self.connect_result {
            Ok(()) => Ok(()),
            Err(reason) => {
                let mut m = String::from_str("Mock connect to ");
                m.append(ssid);
                m.append(" failed: ");
                m.append(reason.as_str());
                Err(WifiError::ConnectionFailed(m))
            },
        }
    }
}

/// Whether a character is an ASCII decimal digit.
pub open spec fn is_digit(c: char) -> bool {
    48 <= (c as u32) && (c as u32) <= 57
}

/// Whether a text is one or more ASCII decimal digits.
pub open spec fn all_digits(t: Seq<char>) -> bool {
    t.len() > 0 && forall|k: int| 0 <= k < t.len() ==> is_digit(#[trigger] t[k])
}

/// The value of a string of decimal digits.
pub open spec fn digits_value(t: Seq<char>) -> int
    decreases t.len(),
{
    if t.len() == 0 {
        0
    } else {
        digits_value(t.drop_last()) * 10 + ((t.last() as u32) - 48)
    }
}

/// The value of a decimal integer text: an optional `+` or `-`, then one or
/// more digits.
pub open spec fn signed_decimal_value(t: Seq<char>) -> Option<int> {
    if t.len() > 0 && (t[0] == '-' || t[0] == '+') {
        if all_digits(t.skip(1)) {
            Some(
                if t[0] == '-' {
                    -digits_value(t.skip(1))
                } else {
                    digits_value(t.skip(1))
                },
            )
        } else {
            None
        }
    } else if all_digits(t) {
        Some(digits_value(t))
    } else {
        None
    }
}

/// The `i32` that a text spells, if it spells one in range.
pub open spec fn i32_value(t: Seq<char>) -> Option<i32> {
    match signed_decimal_value(t) {
        Some(v) => if i32::MIN <= v <= i32::MAX {
            Some(v as i32)
        } else {
            None
        },
        None => None,
    }
}

/// Relies on `FromStr` for `i32` (through `str::parse`): it accepts an
/// optional `+` or `-` followed by one or more ASCII digits whose value is in
/// range, and rejects every other text.
#[verifier::external_body]
fn parse_i32(t: &str) -> (r: Option<i32>)
    ensures
        r == i32_value(t@),
{
    t.parse::<i32>().ok()
}

/// The text in upper case.
pub uninterp spec fn upper_of(s: Seq<char>) -> Seq<char>;

/// The text in lower case.
pub uninterp spec fn lower_of(s: Seq<char>) -> Seq<char>;

/// Relies on `str::to_uppercase`: the result depends on the characters alone.
#[verifier::external_body]
fn uppercase(s: &str) -> (r: String)
    ensures
        r@ == upper_of(s@),
{
    s.to_uppercase()
}

/// Relies on `str::to_lowercase`: the result depends on the characters alone.
#[verifier::external_body]
fn lowercase(s: &str) -> (r: String)
    ensures
        r@ == lower_of(s@),
{
    s.to_lowercase()
}

/// Whether `n` occurs in `h` as a contiguous run.
pub open spec fn has_infix(h: Seq<char>, n: Seq<char>) -> bool {
    exists|i: int| 0 <= i && i + n.len() <= h.len() && #[trigger] h.subrange(i, i + n.len()) == n
}

fn matches_at(h: &Vec<char>, n: &Vec<char>, i: usize) -> (r: bool)
    requires
        i + n@.len() <= h@.len(),
    ensures
        r == (h@.subrange(i as int, i + n@.len()) == n@),
{
    let total = h.len();
    let mut k: usize = 0;
    while k < n.len()
        invariant
            i + n@.len() <= h@.len(),
            h@.len() == total,
            k <= n@.len(),
            h@.subrange(i as int, i + k) == n@.take(k as int),
        decreases n@.len() - k,
    {
        if h[i + k] != n[k] {
            proof {
                assert(h@.subrange(i as int, i + n@.len())[k as int] != n@[k as int]);
            }
            return false;
        }
        k = k + 1;
        proof {
            assert(h@.subrange(i as int, i + k) =~= n@.take(k as int));
        }
    }
    proof {
        assert(n@.take(k as int) =~= n@);
    }
    true
}

/// Whether `needle` occurs in `hay`.
fn contains_text(hay: &str, needle: &str) -> (r: bool)
    ensures
        r == has_infix(hay@, needle@),
{
    let h = chars_of(hay);
    let n = chars_of(needle);
    if n.len() > h.len() {
        return false;
    }
    let last = h.len() - n.len();
    let mut i: usize = 0;
    while i <= last
        invariant
            h@ == hay@,
            n@ == needle@,
            n@.len() <= h@.len(),
            last == h@.len() - n@.len(),
            i <= last + 1,
            forall|j: int|
                0 <= j < i ==> #[trigger] h@.subrange(j, j + n@.len()) != n@,
        decreases last - i,
    {
        if matches_at(&h, &n, i) {
            return true;
        }
        if i == last {
            return false;
        }
        i = i + 1;
    }
    false
}

/// The canonical tag of a security field, given the field and its upper
/// case; `None` where the field is passed on in lower case instead.
pub open spec fn security_tag(raw: Seq<char>, upper: Seq<char>) -> Option<Seq<char>> {
    if has_infix(upper, "WPA3"@) {
        Some("wpa3"@)
    } else if has_infix(upper, "WPA2"@) {
        Some("wpa2"@)
    } else if has_infix(upper, "WPA"@) {
        Some("wpa"@)
    } else if has_infix(upper, "WEP"@) {
        Some("wep"@)
    } else if raw.len() == 0 || has_infix(upper, "OPEN"@) || raw == "--"@ {
        Some("open"@)
    } else {
        None
    }
}

/// A security field normalized to `wpa3`, `wpa2`, `wpa`, `wep` or `open`, in
/// that order of precedence, or else to the field in lower case.
pub open spec fn normalized_security(raw: Seq<char>) -> Seq<char> {
    match security_tag(raw, upper_of(raw)) {
        Some(t) => t,
        None => lower_of(raw),
    }
}

/// The canonical tag of a security field, given the field and its upper case.
pub fn security_tag_of(raw: &str, upper: &str) -> (r: Option<String>)
    ensures
        match security_tag(raw@, upper@) {
            Some(t) => r matches Some(s) && s@ == t,
            None => r is None,
        },
{
    if contains_text(upper, "WPA3") {
        Some(String::from_str("wpa3"))
    } else if contains_text(upper, "WPA2") {
        Some(String::from_str("wpa2"))
    } else if contains_text(upper, "WPA") {
        Some(String::from_str("wpa"))
    } else if contains_text(upper, "WEP") {
        Some(String::from_str("wep"))
    } else if raw.is_empty() || contains_text(upper, "OPEN") || String::from_str(raw)
        == String::from_str("--") {
        Some(String::from_str("open"))
    } else {
        None
    }
}

/// Normalize a security field reported by the backend.
pub fn normalize_security(raw: &str) -> (r: String)
    ensures
        r@ == normalized_security(raw@),
{
    let upper = uppercase(raw);
    match security_tag_of(raw, upper.as_str()) {
        Some(tag) => tag,
        None => lowercase(raw),
    }
}

/// The network that one scan line describes: `SSID:SIGNAL:SECURITY`, split
/// at the first two colons, with a non-empty SSID and a signal percentage
/// turned into dBm as the percentage minus 100.
pub open spec fn scan_line(line: Seq<char>) -> Option<NetworkView> {
    let a = find_char(line, ':', 0);
    let b = find_char(line, ':', a + 1);
    if b >= line.len() || a == 0 {
        None
    } else {
        match i32_value(line.subrange(a + 1, b)) {
            Some(percent) => if percent >= i32::MIN + 100 {
                Some(
                    NetworkView {
                        ssid: line.subrange(0, a),
                        signal: (percent - 100) as i32,
                        security: normalized_security(line.subrange(b + 1, line.len() as int)),
                    },
                )
            } else {
                None
            },
            None => None,
        }
    }
}

/// Parse one line of scan output.
pub fn parse_scan_line(line: &str) -> (r: Option<Network>)
    ensures
        match scan_line(line@) {
            Some(n) => r matches Some(net) && net@ == n,
            None => r is None,
        },
{
    let chars = chars_of(line);
    let a = find_char_from(&chars, ':', 0);
    proof {
        lemma_find_char_bounds(chars@, ':', 0);
    }
    if a >= chars.len() {
        proof {
            lemma_find_char_bounds(chars@, ':', a + 1);
        }
        return None;
    }
    let b = find_char_from(&chars, ':', a + 1);
    proof {
        lemma_find_char_bounds(chars@, ':', a + 1);
    }
    if b >= chars.len() || a == 0 {
        return None;
    }
    let percent = match parse_i32(line.substring_char(a + 1, b)) {
        Some(p) => p,
        None => {
            return None;
        },
    };
    if percent < i32::MIN + 100 {
        return None;
    }
    let ssid = String::from_str(line.substring_char(0, a));
    let security = normalize_security(line.substring_char(b + 1, chars.len()));
    Some(Network { ssid, signal: percent - 100, security })
}

/// The views of a list of networks.
pub open spec fn views(v: Seq<Network>) -> Seq<NetworkView> {
    v.map_values(|n: Network| n@)
}

/// Whether a network with this SSID is in the list.
pub open spec fn has_ssid(networks: Seq<NetworkView>, ssid: Seq<char>) -> bool {
    exists|k: int| 0 <= k < networks.len() && #[trigger] networks[k].ssid == ssid
}

/// The list after one more scan line: the line's network is added unless
/// the line describes none or its SSID is already listed.
pub open spec fn accept_line(found: Seq<NetworkView>, line: Seq<char>) -> Seq<NetworkView> {
    match scan_line(line) {
        Some(n) => if has_ssid(found, n.ssid) {
            found
        } else {
            found.push(n)
        },
        None => found,
    }
}

/// The networks of a list of scan lines, in the order first seen.
pub open spec fn scan_entries(lines: Seq<Seq<char>>) -> Seq<NetworkView>
    decreases lines.len(),
{
    if lines.len() == 0 {
        Seq::empty()
    } else {
        accept_line(scan_entries(lines.drop_last()), lines.last())
    }
}

/// The first index at or after `k` whose signal is below `signal`, or the
/// length.
pub open spec fn first_below(s: Seq<NetworkView>, signal: i32, k: int) -> int
    decreases s.len() - k,
{
    if k >= s.len() {
        s.len() as int
    } else if s[k].signal < signal {
        k
    } else {
        first_below(s, signal, k + 1)
    }
}

/// Insert a network after every network at least as strong.
pub open spec fn insert_by_signal(sorted: Seq<NetworkView>, n: NetworkView) -> Seq<NetworkView> {
    sorted.insert(first_below(sorted, n.signal, 0), n)
}

/// The networks ordered strongest first, networks of equal signal kept in
/// their order (a stable sort).
pub open spec fn sort_by_signal(s: Seq<NetworkView>) -> Seq<NetworkView>
    decreases s.len(),
{
    if s.len() == 0 {
        Seq::empty()
    } else {
        insert_by_signal(sort_by_signal(s.drop_last()), s.last())
    }
}

/// The networks that a scan output lists.
pub open spec fn scan_result(output: Seq<char>) -> Seq<NetworkView> {
    sort_by_signal(scan_entries(text_lines(output)))
}

proof fn lemma_first_below_bounds(s: Seq<NetworkView>, signal: i32, k: int)
    requires
        0 <= k <= s.len(),
    ensures
        k <= first_below(s, signal, k) <= s.len(),
    decreases s.len() - k,
{
    if k < s.len() && s[k].signal >= signal {
        lemma_first_below_bounds(s, signal, k + 1);
    }
}

/// Whether the networks are ordered strongest first.
pub open spec fn strongest_first(s: Seq<NetworkView>) -> bool {
    forall|i: int, j: int| 0 <= i < j < s.len() ==> #[trigger] s[i].signal >= #[trigger] s[j].signal
}

/// Whether no two networks share an SSID.
pub open spec fn distinct_ssids(s: Seq<NetworkView>) -> bool {
    forall|i: int, j: int| 0 <= i < j < s.len() ==> #[trigger] s[i].ssid != #[trigger] s[j].ssid
}

/// Whether every network has a non-empty SSID.
pub open spec fn all_named(s: Seq<NetworkView>) -> bool {
    forall|i: int| 0 <= i < s.len() ==> #[trigger] s[i].ssid.len() > 0
}

proof fn lemma_first_below_splits(s: Seq<NetworkView>, signal: i32, k: int)
    requires
        0 <= k <= s.len(),
    ensures
        forall|i: int| k <= i < first_below(s, signal, k) ==> #[trigger] s[i].signal >= signal,
        first_below(s, signal, k) < s.len() ==> s[first_below(s, signal, k)].signal < signal,
    decreases s.len() - k,
{
    if k < s.len() && s[k].signal >= signal {
        lemma_first_below_splits(s, signal, k + 1);
    }
}

proof fn lemma_insert_keeps_order(sorted: Seq<NetworkView>, n: NetworkView)
    requires
        strongest_first(sorted),
    ensures
        strongest_first(insert_by_signal(sorted, n)),
{
    let k = first_below(sorted, n.signal, 0);
    lemma_first_below_bounds(sorted, n.signal, 0);
    lemma_first_below_splits(sorted, n.signal, 0);
    sorted.insert_ensures(k, n);
    let r = insert_by_signal(sorted, n);
    assert forall|i: int, j: int| 0 <= i < j < r.len() implies #[trigger] r[i].signal
        >= #[trigger] r[j].signal by {
        if j < k {
            assert(r[i] == sorted[i] && r[j] == sorted[j]);
        } else if j == k {
            assert(r[i] == sorted[i]);
        } else if i < k {
            assert(r[i] == sorted[i] && r[j] == sorted[j - 1]);
        } else if i == k {
            assert(r[j] == sorted[j - 1]);
            assert(sorted[k].signal >= sorted[j - 1].signal || k == j - 1);
        } else {
            assert(r[i] == sorted[i - 1] && r[j] == sorted[j - 1]);
        }
    }
}

proof fn lemma_sort_by_signal(s: Seq<NetworkView>)
    ensures
        sort_by_signal(s).len() == s.len(),
        strongest_first(sort_by_signal(s)),
        forall|i: int| 0 <= i < s.len() ==> s.contains(#[trigger] sort_by_signal(s)[i]),
        distinct_ssids(s) ==> distinct_ssids(sort_by_signal(s)),
        all_named(s) ==> all_named(sort_by_signal(s)),
    decreases s.len(),
{
    if s.len() > 0 {
        let t = s.drop_last();
        let n = s.last();
        let sorted = sort_by_signal(t);
        lemma_sort_by_signal(t);
        lemma_insert_keeps_order(sorted, n);
        let k = first_below(sorted, n.signal, 0);
        lemma_first_below_bounds(sorted, n.signal, 0);
        sorted.insert_ensures(k, n);
        let r = sort_by_signal(s);
        assert(r == sorted.insert(k, n));
        assert forall|i: int| 0 <= i < s.len() implies s.contains(#[trigger] r[i]) by {
            if i < k {
                assert(t.contains(sorted[i]));
                let j = choose|j: int| 0 <= j < t.len() && t[j] == sorted[i];
                assert(s[j] == r[i]);
            } else if i == k {
                assert(s[s.len() - 1] == r[i]);
            } else {
                assert(r[i] == sorted[i - 1]);
                assert(t.contains(sorted[i - 1]));
                let j = choose|j: int| 0 <= j < t.len() && t[j] == sorted[i - 1];
                assert(s[j] == r[i]);
            }
        }
        if distinct_ssids(s) {
            assert(distinct_ssids(t)) by {
                assert forall|i: int, j: int| 0 <= i < j < t.len() implies #[trigger] t[i].ssid
                    != #[trigger] t[j].ssid by {
                    assert(t[i] == s[i] && t[j] == s[j]);
                }
            }
            assert forall|i: int| 0 <= i < sorted.len() implies #[trigger] sorted[i].ssid
                != n.ssid by {
                assert(t.contains(sorted[i]));
                let j = choose|j: int| 0 <= j < t.len() && t[j] == sorted[i];
                assert(s[j] == sorted[i]);
                assert(s[j].ssid != s[s.len() - 1].ssid);
            }
            assert forall|i: int, j: int| 0 <= i < j < r.len() implies #[trigger] r[i].ssid
                != #[trigger] r[j].ssid by {
                if j < k {
                    assert(r[i] == sorted[i] && r[j] == sorted[j]);
                } else if j == k {
                    assert(r[i] == sorted[i]);
                } else if i < k {
                    assert(r[i] == sorted[i] && r[j] == sorted[j - 1]);
                } else if i == k {
                    assert(r[j] == sorted[j - 1]);
                } else {
                    assert(r[i] == sorted[i - 1] && r[j] == sorted[j - 1]);
                }
            }
        }
        if all_named(s) {
            assert forall|i: int| 0 <= i < r.len() implies #[trigger] r[i].ssid.len() > 0 by {
                assert(s.contains(r[i]));
            }
        }
    }
}

proof fn lemma_scan_line_named(line: Seq<char>)
    ensures
        scan_line(line) matches Some(n) ==> n.ssid.len() > 0,
{
    lemma_find_char_bounds(line, ':', 0);
}

proof fn lemma_scan_entries(lines: Seq<Seq<char>>)
    ensures
        distinct_ssids(scan_entries(lines)),
        all_named(scan_entries(lines)),
    decreases lines.len(),
{
    if lines.len() > 0 {
        let acc = scan_entries(lines.drop_last());
        lemma_scan_entries(lines.drop_last());
        lemma_scan_line_named(lines.last());
        match scan_line(lines.last()) {
            Some(n) => {
                if !has_ssid(acc, n.ssid) {
                    let r = acc.push(n);
                    assert forall|i: int, j: int| 0 <= i < j < r.len() implies #[trigger] r[i].ssid
                        != #[trigger] r[j].ssid by {
                        if j == acc.len() {
                            assert(r[i] == acc[i]);
                        } else {
                            assert(r[i] == acc[i] && r[j] == acc[j]);
                        }
                    }
                    assert forall|i: int| 0 <= i < r.len() implies #[trigger] r[i].ssid.len()
                        > 0 by {
                        if i < acc.len() {
                            assert(r[i] == acc[i]);
                        }
                    }
                }
            },
            None => {},
        }
    }
}

fn contains_ssid(found: &Vec<Network>, ssid: &String) -> (r: bool)
    ensures
        r == has_ssid(views(found@), ssid@),
{
    let mut k: usize = 0;
    while k < found.len()
        invariant
            k <= found@.len(),
            forall|j: int| 0 <= j < k ==> #[trigger] found@[j].ssid@ != ssid@,
        decreases found@.len() - k,
    {
        if found[k].ssid == *ssid {
            proof {
                assert(views(found@)[k as int].ssid == ssid@);
            }
            return true;
        }
        k = k + 1;
    }
    proof {
        assert forall|j: int| 0 <= j < views(found@).len() implies #[trigger] views(found@)[j].ssid
            != ssid@ by {
            assert(found@[j].ssid@ != ssid@);
        }
    }
    false
}

fn insert_position(sorted: &Vec<Network>, signal: i32) -> (r: usize)
    ensures
        r == first_below(views(sorted@), signal, 0),
{
    let mut k: usize = 0;
    while k < sorted.len() && sorted[k].signal >= signal
        invariant
            k <= sorted@.len(),
            first_below(views(sorted@), signal, 0) == first_below(views(sorted@), signal, k as int),
        decreases sorted@.len() - k,
    {
        k = k + 1;
    }
    k
}

/// Parse the network manager's scan output, one `SSID:SIGNAL:SECURITY` line
/// per access point, into networks: hidden (empty SSID) and malformed lines
/// skipped, one network per SSID (the first line wins), strongest first.
pub fn parse_scan_output(output: &str) -> (r: Vec<Network>)
    ensures
        views(r@) == scan_result(output@),
        strongest_first(views(r@)),
        distinct_ssids(views(r@)),
        all_named(views(r@)),
{
    proof {
        lemma_scan_entries(text_lines(output@));
        lemma_sort_by_signal(scan_entries(text_lines(output@)));
    }
    let lines = split_lines(output);
    let mut found: Vec<Network> = Vec::new();
    let mut k: usize = 0;
    while k < lines.len()
        invariant
            k <= lines@.len(),
            views(found@) == scan_entries(texts(lines@).take(k as int)),
        decreases lines@.len() - k,
    {
        let ghost before = found@;
        proof {
            assert(texts(lines@).take(k + 1).drop_last() =~= texts(lines@).take(k as int));
            assert(texts(lines@).take(k + 1).last() == lines@[k as int]@);
        }
        match parse_scan_line(lines[k].as_str()) {
            Some(n) => {
                if !contains_ssid(&found, &n.ssid) {
                    found.push(n);
                    proof {
                        assert(views(found@) =~= views(before).push(n@));
                    }
                }
            },
            None => {},
        }
        k = k + 1;
    }
    proof {
        assert(texts(lines@).take(k as int) =~= texts(lines@));
    }
    let mut sorted: Vec<Network> = Vec::new();
    let mut j: usize = 0;
    while j < found.len()
        invariant
            j <= found@.len(),
            views(sorted@) == sort_by_signal(views(found@).take(j as int)),
        decreases found@.len() - j,
    {
        let n = copy_network(&found[j]);
        let pos = insert_position(&sorted, n.signal);
        proof {
            lemma_first_below_bounds(views(sorted@), n.signal, 0);
            assert(views(found@).take(j + 1).drop_last() =~= views(found@).take(j as int));
            assert(views(found@).take(j + 1).last() == n@);
        }
        let ghost before = sorted@;
        sorted.insert(pos, n);
        proof {
            assert(views(sorted@) =~= views(before).insert(pos as int, n@));
        }
        j = j + 1;
    }
    proof {
        assert(views(found@).take(j as int) =~= views(found@));
    }
    sorted
}

/// The connection name of an active-connections line, `NAME:TYPE:...`, when
/// its type is a WiFi connection.
pub open spec fn wireless_name(line: Seq<char>) -> Option<Seq<char>> {
    let a = find_char(line, ':', 0);
    let b = find_char(line, ':', a + 1);
    if a < line.len() && line.subrange(a + 1, b) == "802-11-wireless"@ {
        Some(line.subrange(0, a))
    } else {
        None
    }
}

/// The name of the first WiFi connection among the lines.
pub open spec fn first_wireless(lines: Seq<Seq<char>>) -> Option<Seq<char>>
    decreases lines.len(),
{
    if lines.len() == 0 {
        None
    } else {
        match first_wireless(lines.drop_last()) {
            Some(n) => Some(n),
            None => wireless_name(lines.last()),
        }
    }
}

/// The connection name of one active-connections line, if it is WiFi.
pub fn parse_wireless_line(line: &str) -> (r: Option<String>)
    ensures
        match wireless_name(line@) {
            Some(n) => r matches Some(s) && s@ == n,
            None => r is None,
        },
{
    let chars = chars_of(line);
    let a = find_char_from(&chars, ':', 0);
    proof {
        lemma_find_char_bounds(chars@, ':', 0);
    }
    if a >= chars.len() {
        return None;
    }
    let b = find_char_from(&chars, ':', a + 1);
    proof {
        lemma_find_char_bounds(chars@, ':', a + 1);
    }
    let kind = String::from_str(line.substring_char(a + 1, b));
    if kind == String::from_str("802-11-wireless") {
        Some(String::from_str(line.substring_char(0, a)))
    } else {
        None
    }
}

/// Parse the network manager's active-connections output, one `NAME:TYPE:...`
/// line per connection: connected to the first WiFi connection listed, if
/// any.
pub fn parse_status_output(output: &str) -> (r: WifiStatus)
    ensures
        match first_wireless(text_lines(output@)) {
            Some(n) => r.connected && (r.ssid matches Some(s) && s@ == n),
            None => !r.connected && r.ssid is None,
        },
{
    let lines = split_lines(output);
    let mut ssid: Option<String> = None;
    let mut k: usize = 0;
    while k < lines.len()
        invariant
            k <= lines@.len(),
            match first_wireless(texts(lines@).take(k as int)) {
                Some(n) => ssid matches Some(s) && s@ == n,
                None => ssid is None,
            },
        decreases lines@.len() - k,
    {
        proof {
            assert(texts(lines@).take(k + 1).drop_last() =~= texts(lines@).take(k as int));
            assert(texts(lines@).take(k + 1).last() == lines@[k as int]@);
        }
        if ssid.is_none() {
            ssid = parse_wireless_line(lines[k].as_str());
        }
        k = k + 1;
    }
    proof {
        assert(texts(lines@).take(k as int) =~= texts(lines@));
    }
    match ssid {
        Some(s) => WifiStatus { connected: true, ssid: Some(s) },
        None => WifiStatus { connected: false, ssid: None },
    }
}

} // verus!
