//! Compute program loading and descriptor-set layout.
//!
//! The pipeline binds an immutable compute program with two binding
//! groups: group 0 holds the writable output image, group 1 the camera
//! uniform, both restricted to the compute stage.  The pipeline is created
//! once, before the frame loop, and reused every frame.

use crate::error::SetupError;
use vstd::prelude::*;

verus! {

/// What a binding slot carries.
#[derive(Clone, Copy, PartialEq, Eq, Structural, Debug)]
pub enum DescriptorKind {
    /// A writable 2D image the dispatch renders into.
    StorageImage,
    /// A read-only uniform buffer (the camera block).
    UniformBuffer,
}

/// One binding of a descriptor-set layout, restricted to the compute
/// stage.
#[derive(Clone, Copy, PartialEq, Eq, Structural, Debug)]
pub struct LayoutBinding {
    pub binding: u32,
    pub kind: DescriptorKind,
}

/// One descriptor-set layout: its bindings in slot order.
pub struct SetLayout {
    pub bindings: Vec<LayoutBinding>,
}

/// A compute program artifact as the loader sees it: whether it parses at
/// all, the entry points it declares (as interned names), and the local
/// work-group size the program fixes.
pub struct ProgramArtifact {
    pub well_formed: bool,
    pub entry_points: Vec<u64>,
    pub local_size_x: u32,
    pub local_size_y: u32,
}

/// An executable pipeline bound to a device: entry point, the local
/// work-group size the dispatch must match exactly, and the two binding
/// groups.
pub struct ComputePipeline {
    pub entry_point: u64,
    pub local_size_x: u32,
    pub local_size_y: u32,
    pub set_layouts: Vec<SetLayout>,
}

/// A pipeline can be built from the artifact exactly when the artifact
/// parses, declares the requested entry point, and fixes a non-degenerate
/// local work-group size.
pub open spec fn artifact_loadable(a: ProgramArtifact, entry_point: u64) -> bool {
    &&& a.well_formed
    &&& a.entry_points@.contains(entry_point)
    &&& a.local_size_x >= 1
    &&& a.local_size_y >= 1
}

/// The two binding groups every pipeline of this renderer declares.
pub open spec fn canonical_layouts(layouts: Seq<SetLayout>) -> bool {
    &&& layouts.len() == 2
    &&& layouts[0].bindings@.len() == 1
    &&& layouts[0].bindings@[0] == (LayoutBinding { binding: 0, kind: DescriptorKind::StorageImage })
    &&& layouts[1].bindings@.len() == 1
    &&& layouts[1].bindings@[0] == (LayoutBinding { binding: 0, kind: DescriptorKind::UniformBuffer })
}

/// Build the explicit binding groups: group 0, slot 0 the writable output
/// image; group 1, slot 0 the camera uniform.
pub fn pipeline_set_layouts() -> (r: Vec<SetLayout>)
    ensures
        canonical_layouts(r@),
{
    let mut image_bindings: Vec<LayoutBinding> = Vec::new();
    image_bindings.push(LayoutBinding { binding: 0, kind: DescriptorKind::StorageImage });
    let mut camera_bindings: Vec<LayoutBinding> = Vec::new();
    camera_bindings.push(LayoutBinding { binding: 0, kind: DescriptorKind::UniformBuffer });
    let mut layouts: Vec<SetLayout> = Vec::new();
    layouts.push(SetLayout { bindings: image_bindings });
    layouts.push(SetLayout { bindings: camera_bindings });
    layouts
}

/// Load the compute program and produce the pipeline bound to the given
/// entry point, with the explicit binding groups.  Fails with `ShaderLoad`
/// exactly when the artifact is malformed, lacks the entry point, or
/// declares a degenerate local size.
pub fn create_pipeline(artifact: &ProgramArtifact, entry_point: u64) -> (r: Result<
    ComputePipeline,
    SetupError,
>)
    ensures
        r is Ok <==> artifact_loadable(*artifact, entry_point),
        r matches Ok(p) ==> {
            &&& p.entry_point == entry_point
            &&& p.local_size_x == artifact.local_size_x
            &&& p.local_size_y == artifact.local_size_y
            &&& p.local_size_x >= 1
            &&& p.local_size_y >= 1
            &&& canonical_layouts(p.set_layouts@)
        },
        r matches Err(e) ==> e is ShaderLoad,
{
    if !artifact.well_formed {
        return Err(SetupError::ShaderLoad);
    }
    if artifact.local_size_x == 0 || artifact.local_size_y == 0 {
        return Err(SetupError::ShaderLoad);
    }
    let n = artifact.entry_points.len();
    let mut i: usize = 0;
    while i < n
        invariant
            artifact.well_formed,
            artifact.local_size_x >= 1,
            artifact.local_size_y >= 1,
            n == artifact.entry_points@.len(),
            i <= n,
            forall|j: int| 0 <= j < i ==> artifact.entry_points@[j] != entry_point,
        decreases n - i,
    {
        if artifact.entry_points[i] == entry_point {
            proof {
                assert(artifact.entry_points@.contains(entry_point));
            }
            let layouts = pipeline_set_layouts();
            return Ok(
                ComputePipeline {
                    entry_point,
                    local_size_x: artifact.local_size_x,
                    local_size_y: artifact.local_size_y,
                    set_layouts: layouts,
                },
            );
        }
        i = i + 1;
    }
    proof {
        assert(!artifact.entry_points@.contains(entry_point));
    }
    Err(SetupError::ShaderLoad)
}

} // verus!
