//! Error taxonomy of the renderer.
//!
//! Three classes with three different policies: setup errors abort before
//! the frame loop starts, transient presentation errors are recovered
//! in-loop by rebuilding the presentation chain or retrying, and fatal
//! device errors terminate the loop after cleanup.

use vstd::prelude::*;

verus! {

/// Failure before the frame loop starts; reported once, then the process
/// exits.
#[derive(Clone, Copy, PartialEq, Eq, Structural, Debug)]
pub enum SetupError {
    /// No device/queue-family pair satisfies the required capability.
    NoSuitableDevice,
    /// The surface (or the presentation chain over it) could not be created,
    /// e.g. because the drawable area is empty.
    SurfaceCreation,
    /// The compute program artifact is malformed or lacks the entry point.
    ShaderLoad,
}

/// Recoverable in-loop condition; never surfaced to the user.
#[derive(Clone, Copy, PartialEq, Eq, Structural, Debug)]
pub enum TransientPresentationError {
    /// The presentation chain no longer matches the surface and must be
    /// rebuilt as a whole before further use.
    OutOfDate,
    /// No presentable image is available right now; retry next loop tick.
    AcquireTimeout,
}

/// Non-recoverable device failure; terminates the frame loop.
#[derive(Clone, Copy, PartialEq, Eq, Structural, Debug)]
pub enum FatalDeviceError {
    DeviceLost,
    OutOfMemory,
    InvalidCommand,
}

impl SetupError {
    /// Human-readable description, reported before the process exits.
    pub fn describe(&self) -> (s: &'static str)
        ensures
            s@ =~= match *self {
                SetupError::NoSuitableDevice => "no suitable device or queue family"@,
                SetupError::SurfaceCreation => "could not create the surface or its chain"@,
                SetupError::ShaderLoad => "could not load the compute program"@,
            },
    {
        match self {
            SetupError::NoSuitableDevice => "no suitable device or queue family",
            SetupError::SurfaceCreation => "could not create the surface or its chain",
            SetupError::ShaderLoad => "could not load the compute program",
        }
    }
}

impl FatalDeviceError {
    /// Human-readable description, reported when the loop terminates.
    pub fn describe(&self) -> (s: &'static str)
        ensures
            s@ =~= match *self {
                FatalDeviceError::DeviceLost => "device lost"@,
                FatalDeviceError::OutOfMemory => "out of device memory"@,
                FatalDeviceError::InvalidCommand => "invalid command recording"@,
            },
    {
        match self {
            FatalDeviceError::DeviceLost => "device lost",
            FatalDeviceError::OutOfMemory => "out of device memory",
            FatalDeviceError::InvalidCommand => "invalid command recording",
        }
    }
}

} // verus!
