//! Device and queue-family selection.
//!
//! The renderer needs one queue that supports the required capability —
//! compute alone, or compute together with presentation.  Selection takes
//! the first device/queue-family pair that satisfies the requirement, in
//! enumeration order; if none exists, setup fails.

use crate::error::SetupError;
use vstd::prelude::*;

verus! {

/// Capability a queue must offer to drive the renderer.
#[derive(Clone, Copy, PartialEq, Eq, Structural, Debug)]
pub enum Capability {
    /// Compute dispatch only (headless rendering).
    Compute,
    /// Compute dispatch plus presentation to a surface.
    ComputeAndPresent,
}

/// What one queue family of a device offers.
#[derive(Clone, Copy, PartialEq, Eq, Structural, Debug)]
pub struct QueueFamily {
    pub supports_compute: bool,
    pub supports_present: bool,
}

/// One enumerated device: its queue families in enumeration order.
pub struct DeviceProfile {
    pub queue_families: Vec<QueueFamily>,
}

/// A selected device/queue-family pair, by enumeration indices.
#[derive(Clone, Copy, PartialEq, Eq, Structural, Debug)]
pub struct DeviceChoice {
    pub device_index: usize,
    pub queue_family_index: usize,
}

/// The family offers everything the capability asks for.
pub open spec fn family_satisfies(f: QueueFamily, req: Capability) -> bool {
    match req {
        Capability::Compute => f.supports_compute,
        Capability::ComputeAndPresent => f.supports_compute && f.supports_present,
    }
}

/// Some queue family of the device offers the capability.
pub open spec fn device_satisfies(d: DeviceProfile, req: Capability) -> bool {
    exists|i: int|
        0 <= i < d.queue_families@.len() && #[trigger] family_satisfies(d.queue_families@[i], req)
}

/// First queue family of one device that offers the capability, or
/// `NoSuitableDevice` if the device has none.
pub fn select_queue_family(families: &Vec<QueueFamily>, req: Capability) -> (r: Result<
    usize,
    SetupError,
>)
    ensures
        r is Ok <==> exists|i: int|
            0 <= i < families@.len() && #[trigger] family_satisfies(families@[i], req),
        r matches Ok(i) ==> {
            &&& i < families@.len()
            &&& family_satisfies(families@[i as int], req)
            &&& forall|j: int| 0 <= j < i ==> !(#[trigger] family_satisfies(families@[j], req))
        },
        r matches Err(e) ==> e is NoSuitableDevice,
{
    let n = families.len();
    let mut i: usize = 0;
    while i < n
        invariant
            n == families@.len(),
            i <= n,
            forall|j: int| 0 <= j < i ==> !(#[trigger] family_satisfies(families@[j], req)),
        decreases n - i,
    {
        let f = families[i];
        let ok = match req {
            Capability::Compute => f.supports_compute,
            Capability::ComputeAndPresent => f.supports_compute && f.supports_present,
        };
        if ok {
            proof {
                assert(family_satisfies(families@[i as int], req));
            }
            return Ok(i);
        }
        i = i + 1;
    }
    Err(SetupError::NoSuitableDevice)
}

/// First device/queue-family pair over all enumerated devices that offers
/// the capability: the first satisfying device, and the first satisfying
/// family within it.  Fails with `NoSuitableDevice` exactly when no pair
/// exists.
pub fn select_device(devices: &Vec<DeviceProfile>, req: Capability) -> (r: Result<
    DeviceChoice,
    SetupError,
>)
    ensures
        r is Ok <==> exists|d: int|
            0 <= d < devices@.len() && #[trigger] device_satisfies(devices@[d], req),
        r matches Ok(c) ==> {
            &&& c.device_index < devices@.len()
            &&& device_satisfies(devices@[c.device_index as int], req)
            &&& forall|d: int|
                0 <= d < c.device_index ==> !(#[trigger] device_satisfies(devices@[d], req))
            &&& c.queue_family_index < devices@[c.device_index as int].queue_families@.len()
            &&& family_satisfies(
                devices@[c.device_index as int].queue_families@[c.queue_family_index as int],
                req,
            )
            &&& forall|j: int|
                0 <= j < c.queue_family_index ==> !(#[trigger] family_satisfies(
                    devices@[c.device_index as int].queue_families@[j],
                    req,
                ))
        },
        r matches Err(e) ==> e is NoSuitableDevice,
{
    let n = devices.len();
    let mut d: usize = 0;
    while d < n
        invariant
            n == devices@.len(),
            d <= n,
            forall|k: int| 0 <= k < d ==> !(#[trigger] device_satisfies(devices@[k], req)),
        decreases n - d,
    {
        match select_queue_family(&devices[d].queue_families, req) {
            Ok(q) => {
                proof {
                    assert(device_satisfies(devices@[d as int], req));
                }
                return Ok(DeviceChoice { device_index: d, queue_family_index: q });
            },
            Err(_) => {
                proof {
                    assert(!device_satisfies(devices@[d as int], req));
                }
            },
        }
        d = d + 1;
    }
    Err(SetupError::NoSuitableDevice)
}

} // verus!
