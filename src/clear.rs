//! The pass that clears the buffers of a target.
use vstd::prelude::*;
use vstd::arithmetic::power2::pow2;
use crate::encoder::{Command, CommandView, Encoder};
use crate::target::Target;
use crate::types::Rgba;

verus! {

/// What a 32-bit float with bit pattern `bits` becomes when converted to a
/// byte: truncated toward zero and saturated to `0..=255`, `NaN` giving `0`.
///
/// The float is `-1^sign * (2^23 + mantissa) * 2^(exponent - 150)` for a
/// normal exponent, which is all that a value from one to 255 can have.
pub open spec fn stencil_of(bits: u32) -> u8 {
    let negative = bits / 0x8000_0000 == 1;
    let exponent = (bits / 0x80_0000) % 0x100;
    let mantissa = bits % 0x80_0000;
    if exponent == 0xff && mantissa != 0 {
        0
    } else if negative || exponent < 127 {
        0
    } else if exponent >= 135 {
        255
    } else {
        ((mantissa + 0x80_0000) as nat / pow2((150 - exponent) as nat)) as u8
    }
}

/// Converts a float, given by its bit pattern, to a byte as a cast does.
pub fn stencil_value(bits: u32) -> (r: u8)
    ensures
        r == stencil_of(bits),
{
    let negative = bits >> 31u32 == 1;
    let exponent = (bits >> 23u32) & 0xffu32;
    let mantissa = bits & 0x7f_ffffu32;
    assert(bits >> 31u32 == bits / 0x8000_0000) by (bit_vector);
    assert((bits >> 23u32) & 0xffu32 == (bits / 0x80_0000) % 0x100) by (bit_vector);
    assert(bits & 0x7f_ffffu32 == bits % 0x80_0000) by (bit_vector);
    if exponent == 0xff && mantissa != 0 {
        0
    } else if negative || exponent < 127 {
        0
    } else if exponent >= 135 {
        255
    } else {
        let shift = 150 - exponent;
        let full = mantissa | 0x80_0000u32;
        assert(mantissa < 0x80_0000 ==> mantissa | 0x80_0000u32 == mantissa + 0x80_0000)
            by (bit_vector);
        proof {
            vstd::bits::lemma_u32_shr_is_div(full, shift);
        }
        (full >> shift) as u8
    }
}

/// Clears the color and/or depth buffers of a target.
#[derive(Clone, Copy, Debug, PartialEq, Eq)]
pub struct ClearTarget {
    pub color_val: Option<Rgba>,
    pub depth_val: Option<u32>,
}

/// The commands that clearing `t` with `c` records.
pub open spec fn clear_commands(c: ClearTarget, t: Target) -> Seq<CommandView> {
    let colors = match c.color_val {
        Some(color) => t.color_bufs().map_values(
            |b: u64| CommandView::Clear { buffer: b, color: color },
        ),
        None => seq![],
    };
    let depth = match (c.depth_val, t.depth()) {
        (Some(d), Some(b)) => seq![
            CommandView::ClearDepth { buffer: b, depth: d },
            CommandView::ClearStencil { buffer: b, value: stencil_of(d) },
        ],
        _ => seq![],
    };
    colors + depth
}

impl ClearTarget {
    /// A pass that clears color buffers to `color_val` and the depth buffer to
    /// `depth_val` (a float bit pattern); `None` leaves that kind of buffer alone.
    pub fn with_values(color_val: Option<Rgba>, depth_val: Option<u32>) -> (r: ClearTarget)
        ensures
            r == (ClearTarget { color_val, depth_val }),
    {
        ClearTarget { color_val, depth_val }
    }

    /// Records the clears into `enc`.
    pub fn apply(&self, enc: &mut Encoder, target: &Target)
        ensures
            final(enc)@ == old(enc)@ + clear_commands(*self, *target),
    {
        let ghost start = enc@;
        if let Some(color) = self.color_val {
            let bufs = target.color_buf_handles();
            let mut i: usize = 0;
            while i < bufs.len()
                invariant
                    bufs@ == target.color_bufs(),
                    i <= bufs@.len(),
                    enc@ == start + bufs@.take(i as int).map_values(
                        |b: u64| CommandView::Clear { buffer: b, color: color },
                    ),
                decreases bufs@.len() - i,
            {
                enc.record(Command::Clear { buffer: bufs[i], color });
                assert(bufs@.take(i + 1) =~= bufs@.take(i as int).push(bufs@[i as int]));
                assert(bufs@.take(i + 1).map_values(
                    |b: u64| CommandView::Clear { buffer: b, color: color },
                ) =~= bufs@.take(i as int).map_values(
                    |b: u64| CommandView::Clear { buffer: b, color: color },
                ).push(CommandView::Clear { buffer: bufs@[i as int], color: color }));
                i = i + 1;
            }
            assert(bufs@.take(i as int) =~= bufs@);
        } else {
            assert(start =~= start + Seq::<CommandView>::empty());
        }
        let ghost mid = enc@;
        if let Some(val) = self.depth_val {
            if let Some(buf) = target.depth_buf() {
                enc.record(Command::ClearDepth { buffer: buf, depth: val });
                enc.record(Command::ClearStencil { buffer: buf, value: stencil_value(val) });
                assert(enc@ =~= mid + seq![
                    CommandView::ClearDepth { buffer: buf, depth: val },
                    CommandView::ClearStencil { buffer: buf, value: stencil_of(val) },
                ]);
            }
        }
        assert(enc@ =~= old(enc)@ + clear_commands(*self, *target));
    }
}

} // verus!
