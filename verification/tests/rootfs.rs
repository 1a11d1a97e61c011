use runh_core::errors::{MountOp, PivotStep, RootfsError};
use runh_core::rootfs::{mount_rootfs, pivot_root, propagation_from_field, MountPropagation};

#[test]
fn absent_propagation_defaults_to_slave() {
    assert_eq!(propagation_from_field(None).unwrap(), MountPropagation::Slave);
}

#[test]
fn known_propagation_values_select_their_mode() {
    assert_eq!(
        propagation_from_field(Some(b"shared")).unwrap(),
        MountPropagation::Shared
    );
    assert_eq!(
        propagation_from_field(Some(b"slave")).unwrap(),
        MountPropagation::Slave
    );
    assert_eq!(
        propagation_from_field(Some(b"private")).unwrap(),
        MountPropagation::Private
    );
    assert_eq!(
        propagation_from_field(Some(b"unbindable")).unwrap(),
        MountPropagation::Unbindable
    );
}

#[test]
fn unknown_propagation_value_is_a_config_error() {
    let e = propagation_from_field(Some(b"sharedx")).unwrap_err();
    assert_eq!(e.value, b"sharedx".to_vec());
    assert!(propagation_from_field(Some(b"")).is_err());
    assert!(propagation_from_field(Some(b"SLAVE")).is_err());
}

#[test]
fn mount_rootfs_rejects_bad_propagation_before_any_syscall() {
    let path = b"/definitely-absent-rootfs-dir".to_vec();
    match mount_rootfs(Some(b"bogus"), &path) {
        Err(RootfsError::Config(c)) => assert_eq!(c.value, b"bogus".to_vec()),
        other => panic!("expected a config error, got {:?}", other),
    }
}

#[test]
fn pivot_root_reports_the_failing_step() {
    // The new root does not exist, so the sequence must stop at the step that
    // opens it, before any state of the process is touched.
    let path = b"/definitely-absent-rootfs-dir".to_vec();
    let e = pivot_root(&path).unwrap_err();
    assert_eq!(e.step, PivotStep::OpenNewRoot);
    assert!(e.errno != 0);
}

#[test]
fn mount_ops_are_distinct() {
    assert_ne!(MountOp::PropagationRemount, MountOp::BindSelf);
    assert_ne!(MountOp::BindSelf, MountOp::ReadOnlyRemount);
}
