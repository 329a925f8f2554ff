//! Plain value types shared by the scene, the encoder and the passes.
//!
//! Every shading value (a matrix cell, a color channel, a depth) is carried as
//! the IEEE-754 bit pattern of a 32-bit float, so that the pipeline moves and
//! compares values exactly and never computes with them.
use vstd::prelude::*;

verus! {

/// Bit pattern of `1.0`.
pub const ONE_BITS: u32 = 0x3F80_0000;

/// Bit pattern of `0.005`, the ambient light level of shaded drawing.
pub const AMBIENT_BITS: u32 = 0x3BA3_D70A;

/// Three float channels.
#[derive(Clone, Copy, Debug, PartialEq, Eq)]
pub struct Vec3 {
    pub x: u32,
    pub y: u32,
    pub z: u32,
}

/// Four float channels of a color.
#[derive(Clone, Copy, Debug, PartialEq, Eq)]
pub struct Rgba {
    pub r: u32,
    pub g: u32,
    pub b: u32,
    pub a: u32,
}

/// A 4x4 matrix, column after column.
#[derive(Clone, Copy, Debug, PartialEq, Eq)]
pub struct Mat4 {
    pub cells: [u32; 16],
}

pub open spec fn vec3_cells(v: Vec3) -> Seq<u32> {
    seq![v.x, v.y, v.z]
}

/// A point or color widened to four channels with a trailing `1.0`.
pub open spec fn padded_cells(v: Vec3) -> Seq<u32> {
    seq![v.x, v.y, v.z, ONE_BITS]
}

pub open spec fn identity_cells() -> Seq<u32> {
    seq![ONE_BITS, 0, 0, 0, 0, ONE_BITS, 0, 0, 0, 0, ONE_BITS, 0, 0, 0, 0, ONE_BITS]
}

impl Vec3 {
    pub fn zero() -> (v: Vec3)
        ensures
            v == (Vec3 { x: 0, y: 0, z: 0 }),
    {
        Vec3 { x: 0, y: 0, z: 0 }
    }

    /// Appends the three channels to `out`.
    pub fn push_cells(&self, out: &mut Vec<u32>)
        ensures
            final(out)@ == old(out)@ + vec3_cells(*self),
    {
        out.push(self.x);
        out.push(self.y);
        out.push(self.z);
        assert(final(out)@ =~= old(out)@ + vec3_cells(*self));
    }

    /// Appends the three channels and a trailing `1.0` to `out`.
    pub fn push_padded(&self, out: &mut Vec<u32>)
        ensures
            final(out)@ == old(out)@ + padded_cells(*self),
    {
        out.push(self.x);
        out.push(self.y);
        out.push(self.z);
        out.push(ONE_BITS);
        assert(final(out)@ =~= old(out)@ + padded_cells(*self));
    }
}

impl Mat4 {
    pub fn identity() -> (m: Mat4)
        ensures
            m.cells@ == identity_cells(),
    {
        let m = Mat4 {
            cells: [ONE_BITS, 0, 0, 0, 0, ONE_BITS, 0, 0, 0, 0, ONE_BITS, 0, 0, 0, 0, ONE_BITS],
        };
        assert(m.cells@ =~= identity_cells());
        m
    }

    /// Appends the sixteen cells to `out`.
    pub fn push_cells(&self, out: &mut Vec<u32>)
        ensures
            final(out)@ == old(out)@ + self.cells@,
    {
        let mut i: usize = 0;
        while i < 16
            invariant
                i <= 16,
                out@ == old(out)@ + self.cells@.subrange(0, i as int),
            decreases 16 - i,
        {
            out.push(self.cells[i]);
            assert(self.cells@.subrange(0, i + 1) =~= self.cells@.subrange(0, i as int).push(
                self.cells@[i as int],
            ));
            i = i + 1;
        }
        assert(self.cells@.subrange(0, 16) =~= self.cells@);
    }
}

} // verus!
