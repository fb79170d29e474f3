//! Work-group sizing.

use framesched::dispatch::{dispatch_dims, DispatchDims};

#[test]
fn dispatch_exact_16x16_by_8() {
    let d = dispatch_dims(16, 16, 8);
    assert_eq!(d, DispatchDims { x: 2, y: 2, z: 1 });
}

#[test]
fn dispatch_rounds_up_17x16_by_8() {
    let d = dispatch_dims(17, 16, 8);
    assert_eq!(d, DispatchDims { x: 3, y: 2, z: 1 });
}

#[test]
fn dispatch_full_hd_by_8() {
    let d = dispatch_dims(1920, 1080, 8);
    assert_eq!(d, DispatchDims { x: 240, y: 135, z: 1 });
}

#[test]
fn dispatch_local_size_one_is_identity() {
    let d = dispatch_dims(1920, 1080, 1);
    assert_eq!(d, DispatchDims { x: 1920, y: 1080, z: 1 });
}

#[test]
fn dispatch_empty_axis_needs_no_groups() {
    let d = dispatch_dims(0, 5, 4);
    assert_eq!(d, DispatchDims { x: 0, y: 2, z: 1 });
}

#[test]
fn dispatch_largest_extent() {
    let d = dispatch_dims(u32::MAX, 1, 1);
    assert_eq!(d, DispatchDims { x: u32::MAX, y: 1, z: 1 });
}
