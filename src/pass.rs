//! Passes: the units of work a stage runs against its target, and the
//! builders they are made from.
use vstd::prelude::*;
use crate::clear::{ClearTarget, clear_commands};
use crate::effect::{Effect, EffectBuilder, EffectDecl, Program};
use crate::encoder::{Command, CommandView, DrawCall, DrawView, Encoder};
use crate::error::{Error, ErrorView};
use crate::flat::{draw_flat, flat_commands};
use crate::scene::{Camera, Light, Model, Scene};
use crate::shaded::{draw_shaded, shaded_commands};
use crate::target::Target;
use crate::types::{Vec3, vec3_cells};
use crate::uniforms::{first_color, first_color_output};

verus! {

/// The per-model drawing passes.
#[derive(Clone, Copy, Debug, PartialEq, Eq)]
pub enum ModelKind {
    /// Unlit, albedo-textured drawing.
    Flat,
    /// Lit drawing with the full set of material channels.
    Shaded,
}

/// The once-per-frame passes that work on the whole target.
#[derive(Clone, Copy, Debug, PartialEq, Eq)]
pub enum PostKind {
    /// One draw over the whole target with no vertex buffer (the vertex
    /// shader covers the target by itself), given the camera position.
    Fullscreen,
}

/// What a pass does, as the dispatch sees it.
pub enum PassShape {
    Basic(ClearTarget),
    Simple(PostKind, u64),
    Model(ModelKind, u64),
}

/// A preparation pass: works on the target alone, once per frame.
#[derive(Debug)]
pub struct BasicPass {
    clear: ClearTarget,
}

/// A whole-scene pass: runs once per frame with its effect.
#[derive(Debug)]
pub struct SimplePass {
    kind: PostKind,
    effect: Effect,
}

/// A per-model pass: runs once for every model of the scene with its effect.
#[derive(Debug)]
pub struct ModelPass {
    kind: ModelKind,
    effect: Effect,
}

#[derive(Debug)]
pub enum Pass {
    Basic(BasicPass),
    Simple(SimplePass),
    Model(ModelPass),
}

/// Builds a pass once the pipeline's targets and programs are known.
#[derive(Debug)]
pub enum PassBuilder {
    Basic(ClearTarget),
    Model(ModelKind, EffectBuilder),
    Simple(PostKind, EffectBuilder),
}

/// The commands of a whole-scene pass.
pub open spec fn post_commands(kind: PostKind, program: u64, t: Target, camera: Option<Camera>) -> Seq<
    CommandView,
> {
    match kind {
        PostKind::Fullscreen => seq![
            CommandView::Draw(
                DrawView {
                    program,
                    geometry: None,
                    const_bufs: seq![],
                    globals: match camera {
                        Some(c) => vec3_cells(c.eye),
                        None => seq![0u32, 0u32, 0u32],
                    },
                    samplers: seq![],
                    textures: seq![],
                    out_colors: first_color(t),
                    out_depth: t.depth(),
                },
            ),
        ],
    }
}

/// The commands of a per-model pass for one model.
pub open spec fn model_commands(
    kind: ModelKind,
    program: u64,
    t: Target,
    camera: Option<Camera>,
    lights: Seq<Light>,
    model: Model,
) -> Seq<CommandView> {
    match kind {
        ModelKind::Flat => flat_commands(program, t, camera, model),
        ModelKind::Shaded => shaded_commands(program, t, camera, lights, model),
    }
}

impl BasicPass {
    pub closed spec fn clear(&self) -> ClearTarget {
        self.clear
    }

    /// Applies the pass to `out`.
    pub fn apply(&self, enc: &mut Encoder, out: &Target)
        ensures
            final(enc)@ == old(enc)@ + clear_commands(self.clear(), *out),
    {
        self.clear.apply(enc, out)
    }
}

impl SimplePass {
    pub closed spec fn kind(&self) -> PostKind {
        self.kind
    }

    pub closed spec fn effect(&self) -> Effect {
        self.effect
    }

    /// Applies the pass to `out` for `scene`.
    pub fn apply(&self, enc: &mut Encoder, out: &Target, scene: &Scene)
        ensures
            final(enc)@ == old(enc)@ + post_commands(
                self.kind(),
                self.effect().program(),
                *out,
                scene.camera,
            ),
    {
        let program = self.effect.program_handle();
        match self.kind {
            PostKind::Fullscreen => {
                let mut globals: Vec<u32> = Vec::new();
                match &scene.camera {
                    Some(c) => c.eye.push_cells(&mut globals),
                    None => Vec3::zero().push_cells(&mut globals),
                }
                let draw = DrawCall {
                    program,
                    geometry: None,
                    const_bufs: Vec::new(),
                    globals,
                    samplers: Vec::new(),
                    textures: Vec::new(),
                    out_colors: first_color_output(out),
                    out_depth: out.depth_buf(),
                };
                assert(draw@.const_bufs =~= Seq::<usize>::empty());
                assert(draw@.samplers =~= Seq::<usize>::empty());
                assert(draw@.textures =~= Seq::<u64>::empty());
                assert(draw@.globals =~= match scene.camera {
                    Some(c) => vec3_cells(c.eye),
                    None => seq![0u32, 0u32, 0u32],
                });
                enc.record(Command::Draw(draw));
                assert(final(enc)@ =~= old(enc)@ + post_commands(
                    self.kind(),
                    self.effect().program(),
                    *out,
                    scene.camera,
                ));
            },
        }
    }
}

impl ModelPass {
    pub closed spec fn kind(&self) -> ModelKind {
        self.kind
    }

    pub closed spec fn effect(&self) -> Effect {
        self.effect
    }

    /// Applies the pass to `out` for one model of `scene`.
    pub fn apply(&self, enc: &mut Encoder, out: &Target, scene: &Scene, model: &Model)
        ensures
            final(enc)@ == old(enc)@ + model_commands(
                self.kind(),
                self.effect().program(),
                *out,
                scene.camera,
                scene.lights@,
                *model,
            ),
    {
        let program = self.effect.program_handle();
        match self.kind {
            ModelKind::Flat => draw_flat(enc, program, out, &scene.camera, model),
            ModelKind::Shaded => draw_shaded(enc, program, out, &scene.camera, &scene.lights, model),
        }
    }
}

impl Pass {
    pub open spec fn shape(&self) -> PassShape {
        match self {
            Pass::Basic(b) => PassShape::Basic(b.clear()),
            Pass::Simple(s) => PassShape::Simple(s.kind(), s.effect().program()),
            Pass::Model(m) => PassShape::Model(m.kind(), m.effect().program()),
        }
    }

    /// The declarations of the pass's effect; none for a preparation pass.
    pub open spec fn effect_layout(&self) -> Option<EffectDecl> {
        match self {
            Pass::Basic(_) => None,
            Pass::Simple(s) => Some(s.effect().layout()),
            Pass::Model(m) => Some(m.effect().layout()),
        }
    }

    pub fn is_model(&self) -> (r: bool)
        ensures
            r == (self is Model),
    {
        match self {
            Pass::Model(_) => true,
            _ => false,
        }
    }
}

impl PassBuilder {
    /// A preparation pass.
    pub fn prep(clear: ClearTarget) -> (r: PassBuilder)
        ensures
            r == PassBuilder::Basic(clear),
    {
        PassBuilder::Basic(clear)
    }

    /// A per-model pass with the effect `eb`.
    pub fn main(eb: EffectBuilder, kind: ModelKind) -> (r: PassBuilder)
        ensures
            r == PassBuilder::Model(kind, eb),
    {
        PassBuilder::Model(kind, eb)
    }

    /// A whole-scene pass with the effect `eb`.
    pub fn post(eb: EffectBuilder, kind: PostKind) -> (r: PassBuilder)
        ensures
            r == PassBuilder::Simple(kind, eb),
    {
        PassBuilder::Simple(kind, eb)
    }

    /// Whether finishing the pass needs a compiled program.
    pub open spec fn needs_program(&self) -> bool {
        !(self is Basic)
    }

    /// Why finishing the pass at position `index` of its stage with `program`
    /// fails, if it does.
    pub open spec fn finish_error(&self, program: Option<Program>, index: usize) -> Option<
        ErrorView,
    > {
        match self {
            PassBuilder::Basic(_) => None,
            PassBuilder::Model(_, eb) | PassBuilder::Simple(_, eb) => match program {
                None => Some(ErrorView::MissingProgram(index)),
                Some(p) => eb.binding_error(p),
            },
        }
    }

    /// The shape of the pass that finishing with `program` makes.
    pub open spec fn finished_shape(&self, program: Option<Program>) -> PassShape {
        match self {
            PassBuilder::Basic(c) => PassShape::Basic(*c),
            PassBuilder::Model(k, _) => PassShape::Model(*k, program.unwrap().handle),
            PassBuilder::Simple(k, _) => PassShape::Simple(*k, program.unwrap().handle),
        }
    }

    /// The declarations of the builder's effect; none for a preparation pass.
    pub open spec fn effect_layout(&self) -> Option<EffectDecl> {
        match self {
            PassBuilder::Basic(_) => None,
            PassBuilder::Model(_, eb) | PassBuilder::Simple(_, eb) => Some(eb@),
        }
    }

    /// Makes the pass, binding its effect to `program`, the compiled program
    /// of the pass at position `index` of its stage.
    pub fn finish(self, program: Option<&Program>, index: usize) -> (r: Result<Pass, Error>)
        ensures
            match self.finish_error(
                match program {
                    Some(p) => Some(*p),
                    None => None,
                },
                index,
            ) {
                Some(e) => r matches Err(err) && err@ == e,
                None => r matches Ok(p) && p.shape() == self.finished_shape(
                    match program {
                        Some(p) => Some(*p),
                        None => None,
                    },
                ) && p.effect_layout() == self.effect_layout(),
            },
    {
        match self {
            PassBuilder::Basic(clear) => Ok(Pass::Basic(BasicPass { clear })),
            PassBuilder::Model(kind, eb) => match program {
                None => Err(Error::MissingProgram(index)),
                Some(p) => match eb.finish(p) {
                    Ok(effect) => Ok(Pass::Model(ModelPass { kind, effect })),
                    Err(e) => Err(e),
                },
            },
            PassBuilder::Simple(kind, eb) => match program {
                None => Err(Error::MissingProgram(index)),
                Some(p) => match eb.finish(p) {
                    Ok(effect) => Ok(Pass::Simple(SimplePass { kind, effect })),
                    Err(e) => Err(e),
                },
            },
        }
    }
}

/// A per-model pass applied twice to the same model, target, camera and
/// lights adds the same commands both times, whatever the two encoders held
/// before: the same uniform buffer contents and the same draw parameters.
pub proof fn lemma_model_pass_deterministic(
    pass: ModelPass,
    out: Target,
    camera: Option<Camera>,
    lights: Seq<Light>,
    model: Model,
    before1: Seq<CommandView>,
    after1: Seq<CommandView>,
    before2: Seq<CommandView>,
    after2: Seq<CommandView>,
)
    requires
        after1 == before1 + model_commands(
            pass.kind(),
            pass.effect().program(),
            out,
            camera,
            lights,
            model,
        ),
        after2 == before2 + model_commands(
            pass.kind(),
            pass.effect().program(),
            out,
            camera,
            lights,
            model,
        ),
    ensures
        after1.skip(before1.len() as int) == after2.skip(before2.len() as int),
{
    assert(after1.skip(before1.len() as int) =~= model_commands(
        pass.kind(),
        pass.effect().program(),
        out,
        camera,
        lights,
        model,
    ));
    assert(after2.skip(before2.len() as int) =~= model_commands(
        pass.kind(),
        pass.effect().program(),
        out,
        camera,
        lights,
        model,
    ));
}

} // verus!
