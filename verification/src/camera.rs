//! Camera uniform block.
//!
//! Three vectors — position, view direction, up — written fresh each frame
//! into a small uniform buffer the compute program reads.  The scheduler
//! never does arithmetic on the components; it only moves them, so they
//! are carried as raw IEEE-754 bit patterns, and the block serializes to
//! the exact 36 little-endian bytes the buffer upload must contain.

use vstd::prelude::*;

verus! {

/// One three-component vector, each component a raw 32-bit IEEE-754 bit
/// pattern.
#[derive(Clone, Copy, PartialEq, Eq, Structural, Debug)]
pub struct Vec3Bits {
    pub x: u32,
    pub y: u32,
    pub z: u32,
}

/// The per-frame camera parameter block.
#[derive(Clone, Copy, PartialEq, Eq, Structural, Debug)]
pub struct Camera {
    pub position: Vec3Bits,
    pub view_direction: Vec3Bits,
    pub up: Vec3Bits,
}

/// The four little-endian bytes of one 32-bit value.
pub open spec fn le_bytes_of(v: u32) -> Seq<u8> {
    seq![
        (v & 0xff) as u8,
        ((v >> 8) & 0xff) as u8,
        ((v >> 16) & 0xff) as u8,
        ((v >> 24) & 0xff) as u8,
    ]
}

/// The twelve bytes of one vector, component after component.
pub open spec fn vec3_le_bytes(v: Vec3Bits) -> Seq<u8> {
    le_bytes_of(v.x) + le_bytes_of(v.y) + le_bytes_of(v.z)
}

impl Camera {
    /// The exact uniform-buffer content: position, view direction, up, in
    /// that order, each component in little-endian byte order.
    pub open spec fn block_bytes(self) -> Seq<u8> {
        vec3_le_bytes(self.position) + vec3_le_bytes(self.view_direction) + vec3_le_bytes(self.up)
    }

    /// Build the block for one frame.
    pub fn new(position: Vec3Bits, view_direction: Vec3Bits, up: Vec3Bits) -> (c: Camera)
        ensures
            c.position == position,
            c.view_direction == view_direction,
            c.up == up,
    {
        Camera { position, view_direction, up }
    }

    /// Serialize the block to the bytes the uniform buffer holds.
    pub fn to_bytes(&self) -> (b: Vec<u8>)
        ensures
            b@ == self.block_bytes(),
            b@.len() == 36,
    {
        let mut out: Vec<u8> = Vec::new();
        push_u32_le(&mut out, self.position.x);
        push_u32_le(&mut out, self.position.y);
        push_u32_le(&mut out, self.position.z);
        push_u32_le(&mut out, self.view_direction.x);
        push_u32_le(&mut out, self.view_direction.y);
        push_u32_le(&mut out, self.view_direction.z);
        push_u32_le(&mut out, self.up.x);
        push_u32_le(&mut out, self.up.y);
        push_u32_le(&mut out, self.up.z);
        proof {
            assert(out@ =~= self.block_bytes());
        }
        out
    }
}

/// Append the four little-endian bytes of one 32-bit value.
fn push_u32_le(out: &mut Vec<u8>, v: u32)
    ensures
        final(out)@ == old(out)@ + le_bytes_of(v),
{
    proof {
        assert(v & 0xff < 256 && (v >> 8) & 0xff < 256 && (v >> 16) & 0xff < 256 && (v >> 24)
            & 0xff < 256) by (bit_vector);
    }
    out.push((v & 0xff) as u8);
    out.push(((v >> 8) & 0xff) as u8);
    out.push(((v >> 16) & 0xff) as u8);
    out.push(((v >> 24) & 0xff) as u8);
    proof {
        assert(out@ =~= old(out)@ + le_bytes_of(v));
    }
}

} // verus!
