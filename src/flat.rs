//! Draws meshes with their albedo texture and no lighting.
use vstd::prelude::*;
use crate::effect::{DepthMode, EffectBuilder, EffectDecl, FilterMethod, WrapMode};
use crate::encoder::{Command, CommandView, DrawCall, DrawView, Encoder};
use crate::pass::{ModelKind, PassBuilder};
use crate::scene::{Camera, Model};
use crate::target::Target;
use crate::uniforms::{first_color, first_color_output, vertex_args, vertex_args_cells};
use crate::vertex::{NamedAttribute, VertexFormat, format_attributes, format_size, attribute_name};
use crate::util::copy_bytes;

verus! {

/// Bytes of the vertex uniforms: three 4x4 float matrices.
pub const VERTEX_ARGS_SIZE: usize = 192;

/// Draws meshes without lighting.
#[derive(Debug)]
pub struct DrawFlat {
    named_vertex_attributes: Vec<NamedAttribute>,
    vertex_size: u32,
    vertex_src: Vec<u8>,
    fragment_src: Vec<u8>,
}

/// The commands that drawing `model` flat records.
pub open spec fn flat_commands(program: u64, t: Target, camera: Option<Camera>, model: Model) -> Seq<
    CommandView,
> {
    seq![
        CommandView::UpdateConstantBuffer {
            program,
            slot: 0,
            data: vertex_args_cells(camera, model),
        },
        CommandView::Draw(
            DrawView {
                program,
                geometry: Some(model.mesh),
                const_bufs: seq![0],
                globals: seq![],
                samplers: seq![0],
                textures: seq![model.material.albedo],
                out_colors: first_color(t),
                out_depth: t.depth(),
            },
        ),
    ]
}

/// Records the commands of drawing `model` flat into `enc`.
pub fn draw_flat(
    enc: &mut Encoder,
    program: u64,
    target: &Target,
    camera: &Option<Camera>,
    model: &Model,
)
    ensures
        final(enc)@ == old(enc)@ + flat_commands(program, *target, *camera, *model),
{
    enc.record(
        Command::UpdateConstantBuffer { program, slot: 0, data: vertex_args(camera, model) },
    );
    let mut const_bufs: Vec<usize> = Vec::new();
    const_bufs.push(0);
    let mut samplers: Vec<usize> = Vec::new();
    samplers.push(0);
    let mut textures: Vec<u64> = Vec::new();
    textures.push(model.material.albedo);
    let draw = DrawCall {
        program,
        geometry: Some(model.mesh),
        const_bufs,
        globals: Vec::new(),
        samplers,
        textures,
        out_colors: first_color_output(target),
        out_depth: target.depth_buf(),
    };
    assert(draw@.const_bufs =~= seq![0usize]);
    assert(draw@.samplers =~= seq![0usize]);
    assert(draw@.textures =~= seq![model.material.albedo]);
    assert(draw@.globals =~= Seq::<u32>::empty());
    enc.record(Command::Draw(draw));
    assert(final(enc)@ =~= old(enc)@ + flat_commands(program, *target, *camera, *model));
}

impl DrawFlat {
    pub closed spec fn format_attributes(&self) -> Seq<(Seq<char>, crate::vertex::Element)> {
        self.named_vertex_attributes@.map_values(|a: NamedAttribute| (a.name@, a.element))
    }

    pub closed spec fn vertex_size(&self) -> u32 {
        self.vertex_size
    }

    pub closed spec fn sources(&self) -> (Seq<u8>, Seq<u8>) {
        (self.vertex_src@, self.fragment_src@)
    }

    /// A flat pass over meshes of vertex format `format`, with the given
    /// vertex and fragment shader sources.
    pub fn new(format: VertexFormat, vertex_src: Vec<u8>, fragment_src: Vec<u8>) -> (r: DrawFlat)
        ensures
            r.format_attributes() == format_attributes(format).map_values(
                |a: (crate::vertex::AttributeKind, crate::vertex::Element)|
                    (attribute_name(a.0), a.1),
            ),
            r.vertex_size() == format_size(format),
            r.sources() == (vertex_src@, fragment_src@),
    {
        let named_vertex_attributes = format.named_attributes();
        let r = DrawFlat {
            named_vertex_attributes,
            vertex_size: format.size(),
            vertex_src,
            fragment_src,
        };
        assert(r.format_attributes() =~= format_attributes(format).map_values(
            |a: (crate::vertex::AttributeKind, crate::vertex::Element)| (attribute_name(a.0), a.1),
        ));
        r
    }

    /// What the effect of a flat pass declares.
    pub open spec fn effect_decl(&self) -> EffectDecl {
        EffectDecl {
            vertex_src: self.sources().0,
            fragment_src: self.sources().1,
            const_bufs: seq!["VertexArgs"@],
            const_buf_sizes: seq![(VERTEX_ARGS_SIZE, 1usize)],
            globals: seq![],
            samplers: seq!["albedo"@],
            sampler_modes: seq![(FilterMethod::Scale, WrapMode::Clamp)],
            textures: seq!["albedo"@],
            attributes: self.format_attributes().map_values(
                |a: (Seq<char>, crate::vertex::Element)| a.0,
            ),
            attribute_elements: self.format_attributes().map_values(
                |a: (Seq<char>, crate::vertex::Element)| a.1,
            ),
            vertex_stride: self.vertex_size(),
            vertex_slot: 0,
            outputs: seq!["color"@],
            output_depths: seq![Some(DepthMode::LessEqualWrite)],
        }
    }

    /// The pass builder of this pass: a per-model pass with its effect declarations.
    pub fn pass_builder(&self) -> (r: PassBuilder)
        ensures
            r matches PassBuilder::Model(kind, eb) && kind == ModelKind::Flat && eb@
                == self.effect_decl(),
    {
        let names: [&str; 1] = ["albedo"];
        let eb = EffectBuilder::new_simple_prog(
            copy_bytes(&self.vertex_src),
            copy_bytes(&self.fragment_src),
        ).with_raw_constant_buffer("VertexArgs", VERTEX_ARGS_SIZE, 1).with_raw_vertex_buffer(
            &self.named_vertex_attributes,
            self.vertex_size,
            0,
        ).with_sampler(&names, FilterMethod::Scale, WrapMode::Clamp).with_texture(
            "albedo",
        ).with_output("color", Some(DepthMode::LessEqualWrite));
        assert(names@.map_values(|n: &str| n@) =~= seq!["albedo"@]);
        let ghost d = self.effect_decl();
        assert(eb@.const_bufs =~= d.const_bufs);
        assert(eb@.const_buf_sizes =~= d.const_buf_sizes);
        assert(eb@.globals =~= d.globals);
        assert(eb@.samplers =~= d.samplers);
        assert(eb@.sampler_modes =~= d.sampler_modes);
        assert(eb@.textures =~= d.textures);
        assert(eb@.attributes =~= d.attributes);
        assert(eb@.attribute_elements =~= d.attribute_elements);
        assert(eb@.outputs =~= d.outputs);
        assert(eb@.output_depths =~= d.output_depths);
        assert(eb@ =~= d);
        PassBuilder::Model(ModelKind::Flat, eb)
    }
}

} // verus!
