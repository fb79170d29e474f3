//! Device selection, program loading, and the camera block.

use framesched::camera::{Camera, Vec3Bits};
use framesched::device::{
    select_device, select_queue_family, Capability, DeviceChoice, DeviceProfile, QueueFamily,
};
use framesched::error::{FatalDeviceError, SetupError};
use framesched::layout::{create_pipeline, DescriptorKind, ProgramArtifact};

fn fam(compute: bool, present: bool) -> QueueFamily {
    QueueFamily { supports_compute: compute, supports_present: present }
}

#[test]
fn first_matching_queue_family_wins() {
    let families = vec![fam(false, true), fam(true, false), fam(true, true)];
    assert_eq!(select_queue_family(&families, Capability::Compute).unwrap(), 1);
    assert_eq!(select_queue_family(&families, Capability::ComputeAndPresent).unwrap(), 2);
}

#[test]
fn no_suitable_family_fails_setup() {
    let families = vec![fam(false, true), fam(false, false)];
    let r = select_queue_family(&families, Capability::Compute);
    assert!(matches!(r, Err(SetupError::NoSuitableDevice)));
    let empty: Vec<QueueFamily> = Vec::new();
    let r = select_queue_family(&empty, Capability::Compute);
    assert!(matches!(r, Err(SetupError::NoSuitableDevice)));
}

#[test]
fn first_matching_device_pair_wins() {
    let devices = vec![
        DeviceProfile { queue_families: vec![fam(true, false)] },
        DeviceProfile { queue_families: vec![fam(false, true), fam(true, true)] },
    ];
    let c = select_device(&devices, Capability::ComputeAndPresent).unwrap();
    assert_eq!(c, DeviceChoice { device_index: 1, queue_family_index: 1 });
    let c = select_device(&devices, Capability::Compute).unwrap();
    assert_eq!(c, DeviceChoice { device_index: 0, queue_family_index: 0 });
}

#[test]
fn no_suitable_device_fails_setup() {
    let devices = vec![DeviceProfile { queue_families: vec![fam(true, false)] }];
    let r = select_device(&devices, Capability::ComputeAndPresent);
    assert!(matches!(r, Err(SetupError::NoSuitableDevice)));
}

fn artifact() -> ProgramArtifact {
    ProgramArtifact { well_formed: true, entry_points: vec![7], local_size_x: 8, local_size_y: 8 }
}

#[test]
fn pipeline_binds_entry_point_and_layouts() {
    let p = create_pipeline(&artifact(), 7).unwrap();
    assert_eq!(p.entry_point, 7);
    assert_eq!(p.local_size_x, 8);
    assert_eq!(p.local_size_y, 8);
    assert_eq!(p.set_layouts.len(), 2);
    assert_eq!(p.set_layouts[0].bindings.len(), 1);
    assert_eq!(p.set_layouts[0].bindings[0].binding, 0);
    assert!(matches!(p.set_layouts[0].bindings[0].kind, DescriptorKind::StorageImage));
    assert_eq!(p.set_layouts[1].bindings.len(), 1);
    assert_eq!(p.set_layouts[1].bindings[0].binding, 0);
    assert!(matches!(p.set_layouts[1].bindings[0].kind, DescriptorKind::UniformBuffer));
}

#[test]
fn shader_load_fails_exactly_on_bad_artifacts() {
    // Missing entry point.
    assert!(matches!(create_pipeline(&artifact(), 8), Err(SetupError::ShaderLoad)));
    // Malformed artifact.
    let mut a = artifact();
    a.well_formed = false;
    assert!(matches!(create_pipeline(&a, 7), Err(SetupError::ShaderLoad)));
    // Degenerate local group size.
    let mut a = artifact();
    a.local_size_y = 0;
    assert!(matches!(create_pipeline(&a, 7), Err(SetupError::ShaderLoad)));
}

#[test]
fn camera_block_serializes_little_endian() {
    let zero = 0.0f32.to_bits();
    let one = 1.0f32.to_bits();
    let minus_one = (-1.0f32).to_bits();
    let camera = Camera::new(
        Vec3Bits { x: zero, y: zero, z: zero },
        Vec3Bits { x: zero, y: zero, z: minus_one },
        Vec3Bits { x: zero, y: one, z: zero },
    );
    let bytes = camera.to_bytes();
    assert_eq!(bytes.len(), 36);
    let mut expected = vec![0u8; 36];
    // view_direction.z == -1.0 at bytes 20..24.
    expected[20..24].copy_from_slice(&[0x00, 0x00, 0x80, 0xBF]);
    // up.y == 1.0 at bytes 28..32.
    expected[28..32].copy_from_slice(&[0x00, 0x00, 0x80, 0x3F]);
    assert_eq!(bytes, expected);
}

#[test]
fn error_descriptions_are_stable() {
    assert_eq!(
        SetupError::NoSuitableDevice.describe(),
        "no suitable device or queue family"
    );
    assert_eq!(
        SetupError::SurfaceCreation.describe(),
        "could not create the surface or its chain"
    );
    assert_eq!(SetupError::ShaderLoad.describe(), "could not load the compute program");
    assert_eq!(FatalDeviceError::DeviceLost.describe(), "device lost");
    assert_eq!(FatalDeviceError::OutOfMemory.describe(), "out of device memory");
    assert_eq!(FatalDeviceError::InvalidCommand.describe(), "invalid command recording");
}
