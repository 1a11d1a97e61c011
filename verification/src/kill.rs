use vstd::prelude::*;
use crate::bytes_eq;
use crate::errors::KillError;
use crate::signals::{resolve_signal, spec_resolve_signal, valid_signal_number};

verus! {

/// A point-in-time snapshot of a container's persisted state, as the external
/// state store reports it: identity, lifecycle status, and the process id of
/// its init process if one was recorded.
pub struct ContainerState {
    /// The container identifier.
    pub id: Vec<u8>,
    /// The lifecycle status, e.g. `created`, `running`, `stopped`.
    pub status: Vec<u8>,
    /// The recorded process id, if any.
    pub pid: Option<i32>,
}

/// The status value `created`.
pub open spec fn status_created() -> Seq<u8> {
    seq![99u8, 114u8, 101u8, 97u8, 116u8, 101u8, 100u8]
}

/// The status value `running`.
pub open spec fn status_running() -> Seq<u8> {
    seq![114u8, 117u8, 110u8, 110u8, 105u8, 110u8, 103u8]
}

/// A signal may be delivered only in the `created` or `running` status.
pub open spec fn signalable_status(s: Seq<u8>) -> bool {
    s == status_created() || s == status_running()
}

/// Builds the byte value of `status_created`.
fn bytes_created() -> (r: Vec<u8>)
    ensures
        r@ == status_created(),
{
    let mut v: Vec<u8> = Vec::new();
    v.push(99);
    v.push(114);
    v.push(101);
    v.push(97);
    v.push(116);
    v.push(101);
    v.push(100);
    proof {
        assert(v@ =~= status_created());
    }
    v
}

/// Builds the byte value of `status_running`.
fn bytes_running() -> (r: Vec<u8>)
    ensures
        r@ == status_running(),
{
    let mut v: Vec<u8> = Vec::new();
    v.push(114);
    v.push(117);
    v.push(110);
    v.push(110);
    v.push(105);
    v.push(110);
    v.push(103);
    proof {
        assert(v@ =~= status_running());
    }
    v
}

/// Whether the status admits signal delivery.
pub fn is_signalable(status: &[u8]) -> (r: bool)
    ensures
        r == signalable_status(status@),
{
    if bytes_eq(status, bytes_created().as_slice()) {
        true
    } else {
        bytes_eq(status, bytes_running().as_slice())
    }
}

/// Relies on nix::sys::signal::kill (and nix::sys::signal::Signal::try_from
/// to build the signal value, which succeeds for every signal number the
/// platform has): asks the OS to deliver the signal to the process. Whether
/// the call succeeds depends on the processes alive and on permissions; on
/// failure the OS error number is returned.
#[verifier::external_body]
fn send_signal(pid: i32, signo: i32) -> (r: Result<(), i32>)
    requires
        valid_signal_number(signo as int),
{
    let signal = match nix::sys::signal::Signal::try_from(signo) {
        Ok(s) => s,
        Err(e) => return Err(e as i32),
    };
    match nix::sys::signal::kill(nix::unistd::Pid::from_raw(pid), signal) {
        Ok(()) => Ok(()),
        Err(e) => Err(e as i32),
    }
}

/// Validates container liveness from a state snapshot and delivers a resolved
/// signal to the container's recorded process.
///
/// `state` is what the external state store reported for the requested
/// container id (`None` when it holds no record). The checks run in this
/// order: the record must exist; the status must admit signals; delivery to
/// all container processes (`all`) is explicitly unsupported, never silently
/// narrowed to the init process; the record must carry a process id; the
/// specification must resolve to a signal. Only then is delivery attempted,
/// and a delivery failure is reported, not retried.
pub fn kill_container(state: Option<&ContainerState>, sig: &[u8], all: bool) -> (r: Result<
    (),
    KillError,
>)
    ensures
        r matches Err(KillError::StateNotFound) <==> state is None,
        r matches Err(KillError::InvalidContainerStatus) <==> (state matches Some(s)
            && !signalable_status(s.status@)),
        r matches Err(KillError::NotImplemented) <==> (state matches Some(s) && signalable_status(
            s.status@,
        ) && all),
        r matches Err(KillError::MissingPid) <==> (state matches Some(s) && signalable_status(
            s.status@,
        ) && !all && s.pid is None),
        r matches Err(KillError::SignalParse(_)) <==> (state matches Some(s) && signalable_status(
            s.status@,
        ) && !all && s.pid is Some && spec_resolve_signal(sig@) is None),
        r is Ok ==> (state matches Some(s) && signalable_status(s.status@) && !all && s.pid is Some
            && spec_resolve_signal(sig@) is Some),
        r matches Err(KillError::SignalDelivery { errno }) ==> (state matches Some(s)
            && signalable_status(s.status@) && !all && s.pid is Some && spec_resolve_signal(sig@)
            is Some),
{
    let st = match state {
        Some(st) => st,
        None => {
            return Err(KillError::StateNotFound);
        },
    };
    if !is_signalable(st.status.as_slice()) {
        return Err(KillError::InvalidContainerStatus);
    }
    if all {
        return Err(KillError::NotImplemented);
    }
    let pid = match st.pid {
        Some(p) => p,
        None => {
            return Err(KillError::MissingPid);
        },
    };
    let signo = match resolve_signal(sig) {
        Ok(n) => n,
        Err(e) => {
            return Err(KillError::SignalParse(e));
        },
    };
    match send_signal(pid, signo) {
        Ok(()) => Ok(()),
        Err(errno) => Err(KillError::SignalDelivery { errno }),
    }
}

} // verus!
