use runh_core::errors::KillError;
use runh_core::kill::{kill_container, ContainerState};

fn state(id: &str, status: &str, pid: Option<i32>) -> ContainerState {
    ContainerState {
        id: id.as_bytes().to_vec(),
        status: status.as_bytes().to_vec(),
        pid,
    }
}

#[test]
fn missing_state_is_state_not_found() {
    let r = kill_container(None, b"9", false);
    assert_eq!(r.unwrap_err(), KillError::StateNotFound);
}

#[test]
fn stopped_container_never_receives_a_signal() {
    // Use this process's own pid: were delivery attempted despite the status,
    // the signal would arrive here.
    let own = nix::unistd::getpid().as_raw();
    let st = state("abc", "stopped", Some(own));
    let r = kill_container(Some(&st), b"9", false);
    assert_eq!(r.unwrap_err(), KillError::InvalidContainerStatus);
}

#[test]
fn creating_status_is_not_signalable() {
    let st = state("abc", "creating", Some(1));
    let r = kill_container(Some(&st), b"TERM", false);
    assert_eq!(r.unwrap_err(), KillError::InvalidContainerStatus);
}

#[test]
fn running_container_gets_the_resolved_signal() {
    // Deliver a harmless signal to this very process: the default action of
    // SIGWINCH is to ignore it.
    let own = nix::unistd::getpid().as_raw();
    let st = state("abc", "running", Some(own));
    assert!(kill_container(Some(&st), b"WINCH", false).is_ok());
    assert!(kill_container(Some(&st), b"SIGWINCH", false).is_ok());
    assert!(kill_container(Some(&st), b"28", false).is_ok());
}

#[test]
fn created_container_without_pid_is_an_explicit_error() {
    let st = state("abc", "created", None);
    let r = kill_container(Some(&st), b"9", false);
    assert_eq!(r.unwrap_err(), KillError::MissingPid);
}

#[test]
fn group_delivery_is_explicitly_unimplemented() {
    let st = state("abc", "running", Some(4242));
    let r = kill_container(Some(&st), b"9", true);
    assert_eq!(r.unwrap_err(), KillError::NotImplemented);
    let st2 = state("abc", "created", Some(4242));
    let r2 = kill_container(Some(&st2), b"9", true);
    assert_eq!(r2.unwrap_err(), KillError::NotImplemented);
}

#[test]
fn bad_signal_spec_is_a_parse_error() {
    let own = nix::unistd::getpid().as_raw();
    let st = state("abc", "running", Some(own));
    let r = kill_container(Some(&st), b"notasignal", false);
    assert!(matches!(r.unwrap_err(), KillError::SignalParse(_)));
}

#[test]
fn vanished_process_is_a_delivery_error() {
    // No process can have this pid (far above the kernel's pid ceiling), so
    // the OS reports the delivery failure and nothing is retried.
    let st = state("abc", "running", Some(2_000_000_000));
    let r = kill_container(Some(&st), b"WINCH", false);
    assert!(matches!(r.unwrap_err(), KillError::SignalDelivery { .. }));
}
