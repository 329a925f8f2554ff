//! Per-draw data shared by the drawing passes.
use vstd::prelude::*;
use crate::scene::{Camera, Model};
use crate::target::Target;
use crate::types::{identity_cells, Mat4};

verus! {

/// The vertex uniforms of drawing `model`: projection, view and model
/// transform. Without a camera, projection and view are the identity.
pub open spec fn vertex_args_cells(camera: Option<Camera>, model: Model) -> Seq<u32> {
    match camera {
        Some(c) => c.proj.cells@ + c.view.cells@ + model.pos.cells@,
        None => identity_cells() + identity_cells() + model.pos.cells@,
    }
}

/// The color outputs a draw writes: the first color buffer of the target, if any.
pub open spec fn first_color(t: Target) -> Seq<u64> {
    if t.color_bufs().len() > 0 {
        seq![t.color_bufs()[0]]
    } else {
        seq![]
    }
}

pub fn vertex_args(camera: &Option<Camera>, model: &Model) -> (r: Vec<u32>)
    ensures
        r@ == vertex_args_cells(*camera, *model),
{
    let mut r: Vec<u32> = Vec::new();
    match camera {
        Some(c) => {
            c.proj.push_cells(&mut r);
            c.view.push_cells(&mut r);
        },
        None => {
            let id = Mat4::identity();
            id.push_cells(&mut r);
            id.push_cells(&mut r);
        },
    }
    model.pos.push_cells(&mut r);
    assert(r@ =~= vertex_args_cells(*camera, *model));
    r
}

pub fn first_color_output(t: &Target) -> (r: Vec<u64>)
    ensures
        r@ == first_color(*t),
{
    let mut r: Vec<u64> = Vec::new();
    if let Some(b) = t.color_buf(0) {
        r.push(b);
    }
    assert(r@ =~= first_color(*t));
    r
}

} // verus!
