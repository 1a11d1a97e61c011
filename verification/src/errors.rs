use vstd::prelude::*;

verus! {

/// The propagation value in the runtime configuration is not one of the
/// recognized options.
#[derive(Debug, Clone, PartialEq, Eq)]
pub struct ConfigError {
    /// The unrecognized propagation value.
    pub value: Vec<u8>,
}

/// An existing prefix of a mount destination could not be canonicalized.
#[derive(Debug, Clone, PartialEq, Eq)]
pub struct PathResolutionError {
    /// The accumulated path (as components) whose canonicalization failed.
    pub path: Vec<Vec<u8>>,
    /// The OS error number reported for the failure.
    pub errno: i32,
}

/// Which mount operation of the rootfs assembly failed.
#[derive(Debug, Clone, Copy, PartialEq, Eq, Structural)]
pub enum MountOp {
    /// The recursive propagation remount of `/`.
    PropagationRemount,
    /// The recursive bind mount of the rootfs onto itself.
    BindSelf,
    /// The read-only bind remount of `/`.
    ReadOnlyRemount,
}

/// A mount or remount syscall failed; rootfs assembly cannot proceed.
#[derive(Debug, Clone, Copy, PartialEq, Eq, Structural)]
pub struct MountError {
    /// The operation that failed.
    pub op: MountOp,
    /// The OS error number reported for the failure.
    pub errno: i32,
}

/// Errors of the combined propagation-configuration and bind-mount step.
#[derive(Debug, Clone, PartialEq, Eq)]
pub enum RootfsError {
    /// The propagation value was not recognized; no syscall was attempted.
    Config(ConfigError),
    /// A mount syscall failed.
    Mount(MountError),
}

/// Which step of the pivot sequence failed.
#[derive(Debug, Clone, Copy, PartialEq, Eq, Structural)]
pub enum PivotStep {
    /// Opening a directory handle to the current root.
    OpenOldRoot,
    /// Opening a directory handle to the new root.
    OpenNewRoot,
    /// Changing the current directory to the new root handle.
    EnterNewRoot,
    /// The kernel root-pivot operation itself.
    Pivot,
    /// Changing the current directory back to the old root handle.
    EnterOldRoot,
    /// The recursive slave remount of the relocated old root.
    MakeOldRootSlave,
    /// The lazy detach of the old root.
    DetachOldRoot,
    /// Changing the current directory to `/` in the new root.
    EnterRoot,
}

/// A step of the pivot sequence failed; the whole creation attempt aborts.
#[derive(Debug, Clone, Copy, PartialEq, Eq, Structural)]
pub struct PivotError {
    /// The step that failed.
    pub step: PivotStep,
    /// The OS error number reported for the failure.
    pub errno: i32,
}

/// The signal specification denotes no known signal.
#[derive(Debug, Clone, PartialEq, Eq)]
pub struct SignalParseError {
    /// The specification that failed to resolve.
    pub spec: Vec<u8>,
}

/// Errors of the signal-dispatch path, one variant per distinct cause.
#[derive(Debug, Clone, PartialEq, Eq)]
pub enum KillError {
    /// The state store holds no record for the container.
    StateNotFound,
    /// The container's status admits no signal delivery.
    InvalidContainerStatus,
    /// Delivery to all container processes is not supported.
    NotImplemented,
    /// The recorded state carries no process id.
    MissingPid,
    /// The signal specification denotes no known signal.
    SignalParse(SignalParseError),
    /// The OS refused the delivery (no such process, or no permission).
    SignalDelivery { errno: i32 },
}

} // verus!
