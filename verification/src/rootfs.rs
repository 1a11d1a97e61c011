use vstd::prelude::*;
use crate::bytes_eq;
use crate::errors::{ConfigError, MountError, MountOp, PivotError, PivotStep, RootfsError};

verus! {

/// The mount propagation modes a rootfs can be configured with.
#[derive(Debug, Clone, Copy, PartialEq, Eq, Structural)]
pub enum MountPropagation {
    Shared,
    Slave,
    Private,
    Unbindable,
}

/// The configuration value selecting shared propagation.
pub open spec fn word_shared() -> Seq<u8> {
    seq![115u8, 104u8, 97u8, 114u8, 101u8, 100u8]
}

/// The configuration value selecting slave propagation.
pub open spec fn word_slave() -> Seq<u8> {
    seq![115u8, 108u8, 97u8, 118u8, 101u8]
}

/// The configuration value selecting private propagation.
pub open spec fn word_private() -> Seq<u8> {
    seq![112u8, 114u8, 105u8, 118u8, 97u8, 116u8, 101u8]
}

/// The configuration value selecting unbindable propagation.
pub open spec fn word_unbindable() -> Seq<u8> {
    seq![117u8, 110u8, 98u8, 105u8, 110u8, 100u8, 97u8, 98u8, 108u8, 101u8]
}

/// The view of an optional propagation field.
pub open spec fn field_view(f: Option<&[u8]>) -> Option<Seq<u8>> {
    match f {
        None => None,
        Some(s) => Some(s@),
    }
}

/// What a propagation field selects: an absent field defaults to the safe
/// slave mode; the four known values select their mode; anything else
/// selects nothing and is a configuration error.
pub open spec fn spec_propagation(field: Option<Seq<u8>>) -> Option<MountPropagation> {
    match field {
        None => Some(MountPropagation::Slave),
        Some(s) => if s == word_shared() {
            Some(MountPropagation::Shared)
        } else if s == word_slave() {
            Some(MountPropagation::Slave)
        } else if s == word_private() {
            Some(MountPropagation::Private)
        } else if s == word_unbindable() {
            Some(MountPropagation::Unbindable)
        } else {
            None
        },
    }
}

/// Builds the byte value of `word_shared`.
fn bytes_shared() -> (r: Vec<u8>)
    ensures
        r@ == word_shared(),
{
    let mut v: Vec<u8> = Vec::new();
    v.push(115);
    v.push(104);
    v.push(97);
    v.push(114);
    v.push(101);
    v.push(100);
    proof {
        assert(v@ =~= word_shared());
    }
    v
}

/// Builds the byte value of `word_slave`.
fn bytes_slave() -> (r: Vec<u8>)
    ensures
        r@ == word_slave(),
{
    let mut v: Vec<u8> = Vec::new();
    v.push(115);
    v.push(108);
    v.push(97);
    v.push(118);
    v.push(101);
    proof {
        assert(v@ =~= word_slave());
    }
    v
}

/// Builds the byte value of `word_private`.
fn bytes_private() -> (r: Vec<u8>)
    ensures
        r@ == word_private(),
{
    let mut v: Vec<u8> = Vec::new();
    v.push(112);
    v.push(114);
    v.push(105);
    v.push(118);
    v.push(97);
    v.push(116);
    v.push(101);
    proof {
        assert(v@ =~= word_private());
    }
    v
}

/// Builds the byte value of `word_unbindable`.
fn bytes_unbindable() -> (r: Vec<u8>)
    ensures
        r@ == word_unbindable(),
{
    let mut v: Vec<u8> = Vec::new();
    v.push(117);
    v.push(110);
    v.push(98);
    v.push(105);
    v.push(110);
    v.push(100);
    v.push(97);
    v.push(98);
    v.push(108);
    v.push(101);
    proof {
        assert(v@ =~= word_unbindable());
    }
    v
}

/// Maps the propagation field of the runtime configuration to a propagation
/// mode, exactly as `spec_propagation` describes; an unrecognized value is a
/// configuration error carrying that value.
pub fn propagation_from_field(field: Option<&[u8]>) -> (r: Result<MountPropagation, ConfigError>)
    ensures
        r matches Ok(p) ==> spec_propagation(field_view(field)) == Some(p),
        r matches Err(e) ==> spec_propagation(field_view(field)) is None && (field matches Some(f)
            && e.value@ == f@),
        r is Err <==> spec_propagation(field_view(field)) is None,
{
    match field {
        None => Ok(MountPropagation::Slave),
        Some(s) => {
            if bytes_eq(s, bytes_shared().as_slice()) {
                Ok(MountPropagation::Shared)
            } else if bytes_eq(s, bytes_slave().as_slice()) {
                Ok(MountPropagation::Slave)
            } else if bytes_eq(s, bytes_private().as_slice()) {
                Ok(MountPropagation::Private)
            } else if bytes_eq(s, bytes_unbindable().as_slice()) {
                Ok(MountPropagation::Unbindable)
            } else {
                Err(ConfigError { value: vstd::slice::slice_to_vec(s) })
            }
        },
    }
}

/// Relies on nix::mount::mount: recursively remounts `/` with the given
/// propagation flag (and no other change). Whether the call succeeds depends
/// on the mount namespace; on failure the OS error number is returned.
#[verifier::external_body]
fn remount_root_propagation(prop: &MountPropagation) -> (r: Result<(), i32>) {
    let mut flags = nix::mount::MsFlags::MS_REC;
    flags.insert(match prop {
        MountPropagation::Shared => nix::mount::MsFlags::MS_SHARED,
        MountPropagation::Slave => nix::mount::MsFlags::MS_SLAVE,
        MountPropagation::Private => nix::mount::MsFlags::MS_PRIVATE,
        MountPropagation::Unbindable => nix::mount::MsFlags::MS_UNBINDABLE,
    });
    match nix::mount::mount::<str, str, str, str>(None, "/", None, flags, None) {
        Ok(()) => Ok(()),
        Err(e) => Err(e as i32),
    }
}

/// Relies on nix::mount::mount: recursively bind-mounts the directory onto
/// itself, making it a mount point. Whether the call succeeds depends on the
/// mount namespace; on failure the OS error number is returned.
#[verifier::external_body]
fn bind_mount_self(path: &Vec<u8>) -> (r: Result<(), i32>) {
    let s = String::from_utf8_lossy(path.as_slice()).into_owned();
    let flags = nix::mount::MsFlags::MS_BIND.union(nix::mount::MsFlags::MS_REC);
    match nix::mount::mount::<str, str, str, str>(
        Some(s.as_str()),
        s.as_str(),
        Some("bind"),
        flags,
        None,
    ) {
        Ok(()) => Ok(()),
        Err(e) => Err(e as i32),
    }
}

/// Relies on nix::mount::mount: remounts `/` bind-style with the read-only
/// flag added. On failure the OS error number is returned.
#[verifier::external_body]
fn remount_root_read_only() -> (r: Result<(), i32>) {
    let flags = nix::mount::MsFlags::MS_BIND.union(nix::mount::MsFlags::MS_REMOUNT).union(
        nix::mount::MsFlags::MS_RDONLY,
    );
    match nix::mount::mount::<str, str, str, str>(None, "/", None, flags, None) {
        Ok(()) => Ok(()),
        Err(e) => Err(e as i32),
    }
}

/// Configures mount propagation and binds the rootfs, in that order.
///
/// The propagation field is mapped first; an unrecognized value aborts with a
/// configuration error before any mutating syscall is attempted. Then `/` is
/// recursively remounted with the selected propagation (severing event leaks
/// towards the host), and only then is the rootfs recursively bind-mounted
/// onto itself so that it becomes a mount point eligible for the pivot.
/// Returns the selected propagation mode on success.
pub fn mount_rootfs(rootfs_propagation: Option<&[u8]>, rootfs_path: &Vec<u8>) -> (r: Result<
    MountPropagation,
    RootfsError,
>)
    ensures
        r matches Ok(p) ==> spec_propagation(field_view(rootfs_propagation)) == Some(p),
        r matches Err(RootfsError::Config(_)) <==> spec_propagation(
            field_view(rootfs_propagation),
        ) is None,
        r matches Err(RootfsError::Config(c)) ==> (rootfs_propagation matches Some(f) && c.value@
            == f@),
        r matches Err(RootfsError::Mount(m)) ==> (m.op == MountOp::PropagationRemount || m.op
            == MountOp::BindSelf),
{
    let prop = match propagation_from_field(rootfs_propagation) {
        Ok(p) => p,
        Err(e) => {
            return Err(RootfsError::Config(e));
        },
    };
    match remount_root_propagation(&prop) {
        Ok(()) => {},
        Err(errno) => {
            return Err(RootfsError::Mount(MountError { op: MountOp::PropagationRemount, errno }));
        },
    }
    match bind_mount_self(rootfs_path) {
        Ok(()) => {},
        Err(errno) => {
            return Err(RootfsError::Mount(MountError { op: MountOp::BindSelf, errno }));
        },
    }
    Ok(prop)
}

/// Remounts the already-bound rootfs read-only. Invoked only when the runtime
/// configuration requests a read-only rootfs; a failure is reported, never
/// swallowed, since a silently writable rootfs would void the requested
/// guarantee.
pub fn set_rootfs_read_only() -> (r: Result<(), MountError>)
    ensures
        r matches Err(m) ==> m.op == MountOp::ReadOnlyRemount,
{
    match remount_root_read_only() {
        Ok(()) => Ok(()),
        Err(errno) => Err(MountError { op: MountOp::ReadOnlyRemount, errno }),
    }
}

/// Relies on nix::fcntl::open with O_DIRECTORY|O_RDONLY|O_CLOEXEC: opens a
/// directory handle. A file descriptor is non-negative; on failure the OS
/// error number is returned.
#[verifier::external_body]
fn open_dir(path: &Vec<u8>) -> (r: Result<i32, i32>)
    ensures
        r matches Ok(fd) ==> fd >= 0,
{
    let s = String::from_utf8_lossy(path.as_slice()).into_owned();
    let oflag = nix::fcntl::OFlag::O_DIRECTORY.union(nix::fcntl::OFlag::O_RDONLY).union(
        nix::fcntl::OFlag::O_CLOEXEC,
    );
    match nix::fcntl::open(s.as_str(), oflag, nix::sys::stat::Mode::empty()) {
        Ok(fd) => Ok(fd),
        Err(e) => Err(e as i32),
    }
}

/// Relies on nix::unistd::fchdir: changes the current directory to the open
/// directory handle. The caller is responsible for the handle being open.
#[verifier::external_body]
fn fchdir_fd(fd: i32) -> (r: Result<(), i32>) {
    match nix::unistd::fchdir(fd) {
        Ok(()) => Ok(()),
        Err(e) => Err(e as i32),
    }
}

/// Relies on nix::unistd::pivot_root on `.` and `.`: atomically makes the
/// current directory the process root, stacking the old root underneath it.
#[verifier::external_body]
fn pivot_to_current_dir() -> (r: Result<(), i32>) {
    match nix::unistd::pivot_root(".", ".") {
        Ok(()) => Ok(()),
        Err(e) => Err(e as i32),
    }
}

/// Relies on nix::mount::mount: recursively sets the propagation of the mount
/// at the current directory to slave.
#[verifier::external_body]
fn remount_current_dir_slave() -> (r: Result<(), i32>) {
    let flags = nix::mount::MsFlags::MS_SLAVE.union(nix::mount::MsFlags::MS_REC);
    match nix::mount::mount::<str, str, str, str>(None, ".", None, flags, None) {
        Ok(()) => Ok(()),
        Err(e) => Err(e as i32),
    }
}

/// Relies on nix::mount::umount2 with MNT_DETACH: lazily unmounts the mount
/// at the current directory.
#[verifier::external_body]
fn umount_detach_current_dir() -> (r: Result<(), i32>) {
    match nix::mount::umount2(".", nix::mount::MntFlags::MNT_DETACH) {
        Ok(()) => Ok(()),
        Err(e) => Err(e as i32),
    }
}

/// Relies on nix::unistd::chdir: changes the current directory to `/`.
#[verifier::external_body]
fn chdir_to_root() -> (r: Result<(), i32>) {
    match nix::unistd::chdir("/") {
        Ok(()) => Ok(()),
        Err(e) => Err(e as i32),
    }
}

/// Relies on nix::unistd::close: releases an open file descriptor. A failure
/// to close is ignored, as the handle is only read from.
#[verifier::external_body]
fn close_fd(fd: i32) {
    let _ = nix::unistd::close(fd);
}

/// Executes the root-pivot sequence that swaps the process's visible root
/// filesystem for the (already bind-mounted) rootfs.
///
/// The exact order is: open a handle to the old root, open a handle to the
/// new root, enter the new root, pivot with the current directory as both new
/// root and put-old, step back into the relocated old root, set its
/// propagation to slave recursively (so the detach cannot leak an unmount
/// event to the host), detach it lazily, and finally enter `/` of the new
/// root. Any step's failure aborts the sequence and is reported with that
/// step and the OS error number; the two directory handles are released on
/// every exit path.
pub fn pivot_root(rootfs_path: &Vec<u8>) -> (r: Result<(), PivotError>)
    ensures
        r matches Err(e) ==> (e.step == PivotStep::OpenOldRoot || e.step == PivotStep::OpenNewRoot
            || e.step == PivotStep::EnterNewRoot || e.step == PivotStep::Pivot || e.step
            == PivotStep::EnterOldRoot || e.step == PivotStep::MakeOldRootSlave || e.step
            == PivotStep::DetachOldRoot || e.step == PivotStep::EnterRoot),
{
    let mut root_path: Vec<u8> = Vec::new();
    root_path.push(47);
    let old_root = match open_dir(&root_path) {
        Ok(fd) => fd,
        Err(errno) => {
            return Err(PivotError { step: PivotStep::OpenOldRoot, errno });
        },
    };
    let new_root = match open_dir(rootfs_path) {
        Ok(fd) => fd,
        Err(errno) => {
            close_fd(old_root);
            return Err(PivotError { step: PivotStep::OpenNewRoot, errno });
        },
    };
    match fchdir_fd(new_root) {
        Ok(()) => {},
        Err(errno) => {
            close_fd(old_root);
            close_fd(new_root);
            return Err(PivotError { step: PivotStep::EnterNewRoot, errno });
        },
    }
    match pivot_to_current_dir() {
        Ok(()) => {},
        Err(errno) => {
            close_fd(old_root);
            close_fd(new_root);
            return Err(PivotError { step: PivotStep::Pivot, errno });
        },
    }
    match fchdir_fd(old_root) {
        Ok(()) => {},
        Err(errno) => {
            close_fd(old_root);
            close_fd(new_root);
            return Err(PivotError { step: PivotStep::EnterOldRoot, errno });
        },
    }
    match remount_current_dir_slave() {
        Ok(()) => {},
        Err(errno) => {
            close_fd(old_root);
            close_fd(new_root);
            return Err(PivotError { step: PivotStep::MakeOldRootSlave, errno });
        },
    }
    match umount_detach_current_dir() {
        Ok(()) => {},
        Err(errno) => {
            close_fd(old_root);
            close_fd(new_root);
            return Err(PivotError { step: PivotStep::DetachOldRoot, errno });
        },
    }
    let r = match chdir_to_root() {
        Ok(()) => Ok(()),
        Err(errno) => Err(PivotError { step: PivotStep::EnterRoot, errno }),
    };
    close_fd(old_root);
    close_fd(new_root);
    r
}

} // verus!
