//! Ownership of the native engine's context handle.

use vstd::prelude::*;

verus! {

/// Failure of the native engine to provide a resource. Surfaced as a
/// recoverable error rather than a crash, since it may stem from external
/// resource exhaustion.
#[derive(Clone, Copy, Debug, PartialEq, Eq, Structural)]
pub enum ResourceError {
    /// A native allocation call returned a null handle.
    NullHandle,
}

/// Exclusive owner of one native context handle. Every scene and geometry
/// is created through a device and must not outlive it; the handle itself
/// is a plain value to this layer and is only handed back out for engine
/// calls, never dereferenced here.
#[derive(Debug)]
pub struct Device {
    device: u64,
}

impl Device {
    /// The raw native context handle.
    pub closed spec fn raw(self) -> u64 {
        self.device
    }

    /// A device always owns a non-null handle.
    pub open spec fn inv(self) -> bool {
        self.raw() != 0
    }

    /// Takes ownership of the context handle the native engine allocated.
    /// A null handle is an engine-level allocation failure and is rejected.
    pub fn new(raw_device: u64) -> (r: Result<Device, ResourceError>)
        ensures
            match r {
                Ok(d) => raw_device != 0 && d.raw() == raw_device && d.inv(),
                Err(e) => raw_device == 0 && e == ResourceError::NullHandle,
            },
    {
        if raw_device == 0 {
            Err(ResourceError::NullHandle)
        } else {
            Ok(Device { device: raw_device })
        }
    }

    /// The raw native context handle, for handing to engine calls.
    pub fn get_device(&self) -> (h: u64)
        ensures
            h == self.raw(),
    {
        self.device
    }
}

} // verus!
