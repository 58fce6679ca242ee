//! The host information provider: from what the operating system reports to
//! the payload of `/hostinfo`, or to the error that says what is missing.
//!
//! The queries themselves are made by the caller. This module decides what
//! their answers amount to.

use crate::error::{DomainError, ErrorView};
use crate::json::{host_info_body, host_info_json};
use vstd::prelude::*;
use vstd::string::StringExecFns;
use vstd::utf8::{decode_utf8, decode_utf8_encode_utf8, encode_utf8, valid_utf8};

verus! {

/// What the operating system reports about the host and the serving process.
#[derive(Debug, PartialEq, Eq)]
pub struct HostFacts {
    /// The host name, as raw bytes.
    pub hostname: Vec<u8>,
    /// The id of the serving process.
    pub pid: u32,
    /// The uptime of the host in whole seconds, where the host reports one.
    pub uptime: Option<u64>,
}

/// Host facts as a mathematical value.
pub struct FactsView {
    pub hostname: Seq<u8>,
    pub pid: u32,
    pub uptime: Option<u64>,
}

impl View for HostFacts {
    type V = FactsView;

    open spec fn view(&self) -> FactsView {
        FactsView { hostname: self.hostname@, pid: self.pid, uptime: self.uptime }
    }
}

impl Clone for HostFacts {
    fn clone(&self) -> (r: HostFacts)
        ensures
            r@ == self@,
    {
        let hostname = self.hostname.clone();
        HostFacts { hostname, pid: self.pid, uptime: self.uptime }
    }
}

/// The payload of `/hostinfo`.
#[derive(Debug, PartialEq, Eq)]
pub struct HostInfo {
    pub hostname: String,
    pub pid: u32,
    /// Uptime of the host in whole seconds.
    pub uptime: u64,
}

/// A payload as a mathematical value.
pub struct HostInfoView {
    pub hostname: Seq<char>,
    pub pid: u32,
    pub uptime: u64,
}

impl View for HostInfo {
    type V = HostInfoView;

    open spec fn view(&self) -> HostInfoView {
        HostInfoView { hostname: self.hostname@, pid: self.pid, uptime: self.uptime }
    }
}

impl Clone for HostInfo {
    fn clone(&self) -> (r: HostInfo)
        ensures
            r@ == self@,
    {
        HostInfo { hostname: self.hostname.clone(), pid: self.pid, uptime: self.uptime }
    }
}

/// The message of the error for a host name that is not valid text.
pub open spec fn hostname_decode_message() -> Seq<char> {
    "hostname does not parse as UTF-8"@
}

/// What the facts amount to. A host name that is not valid UTF-8 is reported
/// first; then a missing uptime; otherwise the payload holds the decoded name,
/// the process id and the uptime as they were reported.
pub open spec fn host_info_of(facts: FactsView) -> Result<HostInfoView, ErrorView> {
    if !valid_utf8(facts.hostname) {
        Err(ErrorView::HostnameDecodeError { message: hostname_decode_message() })
    } else if facts.uptime is None {
        Err(ErrorView::UptimeUnavailableError)
    } else {
        Ok(
            HostInfoView {
                hostname: decode_utf8(facts.hostname),
                pid: facts.pid,
                uptime: facts.uptime->Some_0,
            },
        )
    }
}

/// A payload reports the facts as they were read: the process id and the
/// uptime are those of the facts, and the host name, written as UTF-8, is the
/// bytes that the operating system gave.
pub proof fn lemma_payload_reports_the_facts(facts: FactsView)
    requires
        host_info_of(facts) is Ok,
    ensures
        host_info_of(facts)->Ok_0.pid == facts.pid,
        Some(host_info_of(facts)->Ok_0.uptime) == facts.uptime,
        encode_utf8(host_info_of(facts)->Ok_0.hostname) == facts.hostname,
{
    decode_utf8_encode_utf8(facts.hostname);
}

/// The reported uptime follows the uptime that was read: where the host's
/// uptime has not gone back between two queries, neither has the reported
/// one.
pub proof fn lemma_uptime_is_monotonic(earlier: FactsView, later: FactsView)
    requires
        host_info_of(earlier) is Ok,
        host_info_of(later) is Ok,
        earlier.uptime->Some_0 <= later.uptime->Some_0,
    ensures
        host_info_of(earlier)->Ok_0.uptime <= host_info_of(later)->Ok_0.uptime,
{
}

/// The result of the provider as a mathematical value.
pub open spec fn host_info_view(r: Result<HostInfo, DomainError>) -> Result<
    HostInfoView,
    ErrorView,
> {
    match r {
        Ok(info) => Ok(info@),
        Err(e) => Err(e@),
    }
}

/// `String::from_utf8`. It returns the text exactly when the bytes are valid
/// UTF-8, and the text is then what the bytes decode to.
#[verifier::external_body]
fn text_of_bytes(bytes: Vec<u8>) -> (r: Option<String>)
    ensures
        r is Some == valid_utf8(bytes@),
        r matches Some(text) ==> text@ == decode_utf8(bytes@),
{
    String::from_utf8(bytes).ok()
}

/// The payload of `/hostinfo` for the given facts, or the error that says
/// which of them cannot be reported.
pub fn get_host_info(facts: HostFacts) -> (r: Result<HostInfo, DomainError>)
    ensures
        host_info_view(r) == host_info_of(facts@),
{
    match text_of_bytes(facts.hostname) {
        None => Err(
            DomainError::HostnameDecodeError {
                message: String::from_str("hostname does not parse as UTF-8"),
            },
        ),
        Some(hostname) => match facts.uptime {
            None => Err(DomainError::UptimeUnavailableError),
            Some(uptime) => Ok(HostInfo { hostname, pid: facts.pid, uptime }),
        },
    }
}

impl HostInfo {
    /// The payload as the JSON body of a response.
    pub fn to_json(&self) -> (r: String)
        ensures
            r@ == host_info_json(self@.hostname, self@.pid, self@.uptime),
    {
        host_info_body(self.hostname.as_str(), self.pid, self.uptime)
    }
}

} // verus!
