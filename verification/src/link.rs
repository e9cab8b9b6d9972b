//! Decision logic of the link supervisor.
//!
//! The supervisor keeps a forwarding path to the physical device alive.
//! Establishing the link means probing the local forwarding endpoint and,
//! when the probe fails, spawning a fresh forwarding process and letting it
//! settle; the supervision loop re-probes forever, heartbeating the device
//! and backing off on failure.  All probing, spawning and sleeping is I/O
//! done by the caller; this module decides what to do next and how long to
//! wait, and builds the strings that describe the forwarding.

use vstd::prelude::*;

use crate::adapter::spec_base_url;
use crate::numfmt::{spec_decimal, u64_to_string};

verus! {

/// Milliseconds a freshly spawned forwarding process is given to settle
/// before the link is optimistically assumed usable.
pub const SETTLE_MS: u64 = 400;

/// Milliseconds to wait before retrying after the link could not be
/// established.
pub const RETRY_DELAY_MS: u64 = 5_000;

/// Milliseconds to wait after a healthy heartbeat.
pub const HEALTHY_DELAY_MS: u64 = 10_000;

/// Milliseconds to wait before re-checking when a just-established link
/// immediately fails its heartbeat.
pub const RECHECK_DELAY_MS: u64 = 2_000;

/// What establishing the link decides after the local endpoint was
/// probed.
pub enum EnsureAction {
    /// The probe answered: the link is already up and nothing is spawned.
    AlreadyUp,
    /// The probe failed: spawn a fresh forwarding process and wait this
    /// many milliseconds before assuming the link is up.
    SpawnAndSettle { settle_ms: u64 },
}

/// What the supervision loop observed in one iteration.
pub enum SuperviseEvent {
    /// The link could not be (re)established at all.
    EnsureFailed,
    /// The link was up and the device answered its heartbeat.
    HeartbeatOk,
    /// The link was up but the device failed its heartbeat.
    HeartbeatFailed,
}

/// Decides what establishing the link does next: nothing when the local
/// endpoint already answers, else spawn a forwarding process and let it
/// settle.  Concurrent callers must be serialized by the caller so that
/// two forwarding processes are never spawned at once.
pub fn ensure_decision(probe_ok: bool) -> (r: EnsureAction)
    ensures
        probe_ok ==> r == EnsureAction::AlreadyUp,
        !probe_ok ==> r == (EnsureAction::SpawnAndSettle { settle_ms: SETTLE_MS }),
{
    if probe_ok {
        EnsureAction::AlreadyUp
    } else {
        EnsureAction::SpawnAndSettle { settle_ms: SETTLE_MS }
    }
}

/// Decides how long the supervision loop sleeps before its next
/// iteration: a slow retry after a failed establishment, a long pause
/// after a healthy heartbeat, and a fast re-check after a failed one.
pub fn supervise_delay_ms(ev: &SuperviseEvent) -> (r: u64)
    ensures
        *ev is EnsureFailed ==> r == RETRY_DELAY_MS,
        *ev is HeartbeatOk ==> r == HEALTHY_DELAY_MS,
        *ev is HeartbeatFailed ==> r == RECHECK_DELAY_MS,
{
    match ev {
        SuperviseEvent::EnsureFailed => RETRY_DELAY_MS,
        SuperviseEvent::HeartbeatOk => HEALTHY_DELAY_MS,
        SuperviseEvent::HeartbeatFailed => RECHECK_DELAY_MS,
    }
}

/// Builds the URL probed to see whether the local forwarding endpoint
/// answers.
pub fn probe_url(port: u16) -> (r: String)
    ensures
        r@ == spec_base_url(port as int) + "/"@,
{
    let mut s = crate::adapter::base_url(port);
    s.append("/");
    s
}

/// Builds the URL of the heartbeat request sent to the device through the
/// link.
pub fn heartbeat_url(port: u16) -> (r: String)
    ensures
        r@ == spec_base_url(port as int) + "/json"@,
{
    let mut s = crate::adapter::base_url(port);
    s.append("/json");
    s
}

/// Builds the local-to-device forwarding specification handed to the
/// forwarding process: local port, device host and device port.
pub fn forward_spec(local_port: u16, device_host: &str, device_port: u16) -> (r: String)
    ensures
        r@ == "127.0.0.1:"@ + spec_decimal(local_port as int) + ":"@ + device_host@ + ":"@
            + spec_decimal(device_port as int),
{
    let mut s = "127.0.0.1:".to_owned();
    let local_digits = u64_to_string(local_port as u64);
    s.append(local_digits.as_str());
    s.append(":");
    s.append(device_host);
    s.append(":");
    let device_digits = u64_to_string(device_port as u64);
    s.append(device_digits.as_str());
    proof {
        assert(s@ =~= "127.0.0.1:"@ + spec_decimal(local_port as int) + ":"@ + device_host@
            + ":"@ + spec_decimal(device_port as int));
    }
    s
}

/// Builds the remote target the forwarding process connects to, an
/// optional user name before the host.
pub fn remote_target(user: Option<&str>, host: &str) -> (r: String)
    ensures
        r@ == match user {
            Some(u) => u@ + "@"@ + host@,
            None => host@,
        },
{
    match user {
        Some(u) => {
            let mut s = u.to_owned();
            s.append("@");
            s.append(host);
            proof {
                assert(s@ =~= u@ + "@"@ + host@);
            }
            s
        },
        None => host.to_owned(),
    }
}

} // verus!
