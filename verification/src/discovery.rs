//! The discovery scanner: which addresses a sweep of a /24 subnet probes,
//! what it says to each, and which of them it accepts as peers.
//!
//! The probes themselves (the echo request, the TCP exchange) are the
//! caller's; the scanner is handed what they gave.

use crate::content_type::after_last_dot;
use crate::text::{chars_of, contains, contains_run, decimal, decimal_string};
use vstd::prelude::*;

verus! {

/// The number of addresses in a /24 subnet.
pub const SUBNET_SIZE: usize = 256;

/// The port on which a peer listens.
pub const SERVICE_PORT: u64 = 8088;

/// How long the echo probe waits for its answer, in seconds.
pub const ECHO_TIMEOUT_SECS: u64 = 1;

/// How long the connect to a peer may take, in milliseconds.
pub const CONNECT_TIMEOUT_MILLIS: u64 = 600;

/// What a peer answers on its health path.
pub open spec fn handshake_marker() -> Seq<char> {
    "i am server"@
}

/// What the echo tool prints when its one request was answered.
pub open spec fn echo_marker() -> Seq<char> {
    "1 received"@
}

/// The part that the addresses of the subnet of `base` share: `base` up to
/// and with its last `.`.
pub open spec fn host_prefix(base: Seq<char>) -> Seq<char> {
    base.subrange(0, after_last_dot(base, base.len() as int))
}

/// The address of host number `host` in the subnet with this prefix.
pub open spec fn address(prefix: Seq<char>, host: nat) -> Seq<char> {
    prefix + decimal(host)
}

/// The socket address at which the peer at `ip` is tried.
pub open spec fn target_of(ip: Seq<char>) -> Seq<char> {
    ip + ":"@ + decimal(SERVICE_PORT as nat)
}

/// The request sent to the peer at `ip`.
pub open spec fn request_for(ip: Seq<char>) -> Seq<char> {
    "GET /test HTTP/1.1\r\nHost: "@ + ip + "\r\nConnection: close\r\n\r\n"@
}

/// What the two probes of one address gave.
#[derive(Debug)]
pub struct ProbeReport {
    /// What the echo tool printed.
    pub ping_output: String,
    /// What the peer answered to the request; `None` where no exchange took
    /// place or it failed.
    pub response: Option<String>,
}

/// Whether an address passed both probes.
pub open spec fn passes(report: ProbeReport) -> bool {
    &&& contains_run(report.ping_output@, echo_marker())
    &&& report.response matches Some(r) && contains_run(r@, handshake_marker())
}

/// The numbers of the hosts below `n` that passed both probes, ascending.
pub open spec fn accepted(reports: Seq<ProbeReport>, n: int) -> Seq<int>
    decreases n,
{
    if n <= 0 {
        Seq::empty()
    } else if n <= reports.len() && passes(reports[n - 1]) {
        accepted(reports, n - 1).push(n - 1)
    } else {
        accepted(reports, n - 1)
    }
}

/// The number of hosts that a sweep with these reports covers.
pub open spec fn swept(reports: Seq<ProbeReport>) -> int {
    if reports.len() < SUBNET_SIZE {
        reports.len() as int
    } else {
        SUBNET_SIZE as int
    }
}

/// The answer of this server on its health path.
pub fn test() -> (out: String)
    ensures
        out@ == handshake_marker(),
{
    String::from_str("i am server")
}

/// Whether the echo request was answered, going by what the tool printed.
pub fn is_reachable(ping_output: &str) -> (out: bool)
    ensures
        out == contains_run(ping_output@, echo_marker()),
{
    contains(ping_output, "1 received")
}

/// The socket address at which to try the peer at `ip`.
pub fn probe_target(ip: &str) -> (out: String)
    ensures
        out@ == target_of(ip@),
{
    String::from_str(ip).concat(":").concat(decimal_string(SERVICE_PORT).as_str())
}

/// The request to send to the peer at `ip`.
pub fn handshake_request(ip: &str) -> (out: String)
    ensures
        out@ == request_for(ip@),
{
    String::from_str("GET /test HTTP/1.1\r\nHost: ").concat(ip).concat(
        "\r\nConnection: close\r\n\r\n",
    )
}

/// Whether the answer of a peer shows it to be a server: there was an
/// answer, and the handshake marker stands in it.
pub fn is_server_available(response: Option<&str>) -> (out: bool)
    ensures
        out == (response matches Some(r) && contains_run(r@, handshake_marker())),
{
    match response {
        Some(r) => contains(r, "i am server"),
        None => false,
    }
}

/// Whether an address passed both probes.
pub fn probe_passes(report: &ProbeReport) -> (out: bool)
    ensures
        out == passes(*report),
{
    if !is_reachable(report.ping_output.as_str()) {
        return false;
    }
    match &report.response {
        Some(r) => is_server_available(Some(r.as_str())),
        None => false,
    }
}

fn prefix_of(base: &str) -> (out: String)
    ensures
        out@ == host_prefix(base@),
{
    let chars = chars_of(base);
    let mut end: usize = chars.len();
    while end > 0 && chars[end - 1] != '.'
        invariant
            end <= chars.len(),
            after_last_dot(chars@, chars@.len() as int) == after_last_dot(chars@, end as int),
        decreases end,
    {
        end -= 1;
    }
    String::from_str(base.substring_char(0, end))
}

/// The addresses of the /24 subnet of `base`, host 0 to host 255.
pub fn subnet_addresses(base: &str) -> (out: Vec<String>)
    ensures
        out@.len() == SUBNET_SIZE,
        forall|i: int| 0 <= i < SUBNET_SIZE ==> (#[trigger] out@[i])@ == address(
            host_prefix(base@),
            i as nat,
        ),
{
    let prefix = prefix_of(base);
    let mut out: Vec<String> = Vec::new();
    let mut host: usize = 0;
    while host < SUBNET_SIZE
        invariant
            host <= SUBNET_SIZE,
            out@.len() == host,
            prefix@ == host_prefix(base@),
            forall|i: int| 0 <= i < host ==> (#[trigger] out@[i])@ == address(prefix@, i as nat),
        decreases SUBNET_SIZE - host,
    {
        out.push(prefix.clone().concat(decimal_string(host as u64).as_str()));
        host += 1;
    }
    out
}

/// The peers found by a sweep of the subnet of `base`: the addresses of the
/// hosts whose report passes both probes, ascending by host number.
/// `reports[i]` is the report on host `i`; hosts without a report, and
/// reports beyond host 255, do not count.
pub fn scan_network(base: &str, reports: &Vec<ProbeReport>) -> (out: Vec<String>)
    ensures
        out@.len() == accepted(reports@, swept(reports@)).len(),
        forall|j: int|
            0 <= j < out@.len() ==> (#[trigger] out@[j])@ == address(
                host_prefix(base@),
                accepted(reports@, swept(reports@))[j] as nat,
            ),
{
    let prefix = prefix_of(base);
    let n: usize = if reports.len() < SUBNET_SIZE {
        reports.len()
    } else {
        SUBNET_SIZE
    };
    let mut out: Vec<String> = Vec::new();
    let mut host: usize = 0;
    while host < n
        invariant
            host <= n <= reports.len(),
            n == swept(reports@),
            prefix@ == host_prefix(base@),
            out@.len() == accepted(reports@, host as int).len(),
            forall|j: int|
                0 <= j < out@.len() ==> (#[trigger] out@[j])@ == address(
                    prefix@,
                    accepted(reports@, host as int)[j] as nat,
                ),
        decreases n - host,
    {
        if probe_passes(&reports[host]) {
            out.push(prefix.clone().concat(decimal_string(host as u64).as_str()));
        }
        host += 1;
    }
    out
}

/// A sweep accepts exactly the hosts that passed both probes: host `k` is
/// among the accepted below `n` if and only if it lies below `n`, has a
/// report, and the report passes.
pub proof fn lemma_accepted_are_the_passing(reports: Seq<ProbeReport>, n: int, k: int)
    ensures
        accepted(reports, n).contains(k) <==> 0 <= k < n && k < reports.len() && passes(reports[k]),
    decreases n,
{
    if n > 0 {
        lemma_accepted_are_the_passing(reports, n - 1, k);
        let before = accepted(reports, n - 1);
        if n <= reports.len() && passes(reports[n - 1]) {
            let now = before.push(n - 1);
            if before.contains(k) {
                let j = choose|j: int| 0 <= j < before.len() && before[j] == k;
                assert(now[j] == k);
            }
            if k == n - 1 {
                assert(now[before.len() as int] == k);
            }
        }
    }
}

/// No host is accepted twice: the accepted host numbers ascend strictly.
pub proof fn lemma_accepted_ascend(reports: Seq<ProbeReport>, n: int, i: int, j: int)
    requires
        0 <= i < j < accepted(reports, n).len(),
    ensures
        0 <= accepted(reports, n)[i] < accepted(reports, n)[j] < n,
    decreases n,
{
    if n > 0 {
        let before = accepted(reports, n - 1);
        if j < before.len() {
            lemma_accepted_ascend(reports, n - 1, i, j);
        } else {
            lemma_accepted_are_the_passing(reports, n - 1, before[i]);
            assert(before.contains(before[i]));
        }
    }
}

} // verus!
