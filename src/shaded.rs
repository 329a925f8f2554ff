//! Draws meshes lit by the scene's point and directional lights.
use vstd::prelude::*;
use crate::effect::{EffectBuilder, EffectDecl, FilterMethod, WrapMode};
use crate::encoder::{Command, CommandView, DrawCall, DrawView, Encoder};
use crate::flat::VERTEX_ARGS_SIZE;
use crate::pass::{ModelKind, PassBuilder};
use crate::scene::{Camera, DirectionalLight, Light, Model, PointLight};
use crate::target::Target;
use crate::types::{AMBIENT_BITS, Vec3, padded_cells, vec3_cells};
use crate::uniforms::{first_color, first_color_output, vertex_args, vertex_args_cells};
use crate::util::copy_bytes;
use crate::vertex::{
    AttributeKind,
    Element,
    NamedAttribute,
    VertexFormat,
    attribute_name,
    format_attributes,
    format_size,
};

verus! {

/// Bytes of the fragment uniforms: the two light counts.
pub const FRAGMENT_ARGS_SIZE: usize = 8;

/// Bytes of one point light: position, color, intensity, padding.
pub const POINT_LIGHT_SIZE: usize = 48;

/// Bytes of one directional light: direction and color.
pub const DIRECTIONAL_LIGHT_SIZE: usize = 24;

/// The point lights the effect has room for.
pub const MAX_POINT_LIGHTS: usize = 512;

/// The directional lights the effect has room for.
pub const MAX_DIRECTIONAL_LIGHTS: usize = 16;

/// Draws meshes with lighting.
#[derive(Debug)]
pub struct DrawShaded {
    named_vertex_attributes: Vec<NamedAttribute>,
    vertex_size: u32,
    vertex_src: Vec<u8>,
    fragment_shader: Vec<u8>,
}

/// A point light as the effect's light buffer holds it.
pub open spec fn point_light_cells(l: PointLight) -> Seq<u32> {
    padded_cells(l.center) + padded_cells(l.color) + seq![l.intensity, 0u32, 0u32, 0u32]
}

/// A directional light as the effect's light buffer holds it.
pub open spec fn directional_light_cells(l: DirectionalLight) -> Seq<u32> {
    vec3_cells(l.direction) + vec3_cells(l.color)
}

/// The point lights among `lights`, in order, as buffer contents.
pub open spec fn point_lights_data(lights: Seq<Light>) -> Seq<u32>
    decreases lights.len(),
{
    if lights.len() == 0 {
        seq![]
    } else {
        point_lights_data(lights.drop_last()) + match lights.last() {
            Light::Point(p) => point_light_cells(p),
            _ => seq![],
        }
    }
}

/// The directional lights among `lights`, in order, as buffer contents.
pub open spec fn directional_lights_data(lights: Seq<Light>) -> Seq<u32>
    decreases lights.len(),
{
    if lights.len() == 0 {
        seq![]
    } else {
        directional_lights_data(lights.drop_last()) + match lights.last() {
            Light::Directional(d) => directional_light_cells(d),
            _ => seq![],
        }
    }
}

pub open spec fn point_light_count(lights: Seq<Light>) -> nat {
    lights.filter(|l: Light| l is Point).len()
}

pub open spec fn directional_light_count(lights: Seq<Light>) -> nat {
    lights.filter(|l: Light| l is Directional).len()
}

/// The global uniforms: the ambient color, then the camera position (the
/// origin without a camera).
pub open spec fn shaded_globals(camera: Option<Camera>) -> Seq<u32> {
    seq![AMBIENT_BITS, AMBIENT_BITS, AMBIENT_BITS] + match camera {
        Some(c) => vec3_cells(c.eye),
        None => seq![0u32, 0u32, 0u32],
    }
}

/// The sampler names, in slot order.
pub open spec fn shaded_sampler_names() -> Seq<Seq<char>> {
    seq![
        "sampler_albedo"@,
        "sampler_emission"@,
        "sampler_normal"@,
        "sampler_metallic"@,
        "sampler_roughness"@,
        "sampler_ambient_occlusion"@,
        "sampler_caveat"@,
    ]
}

/// The texture names, in the order the draw binds them.
pub open spec fn shaded_texture_names() -> Seq<Seq<char>> {
    seq![
        "sampler_roughness"@,
        "sampler_caveat"@,
        "sampler_metallic"@,
        "sampler_emission"@,
        "sampler_ambient_occlusion"@,
        "sampler_albedo"@,
        "sampler_normal"@,
    ]
}

/// The sampler slot of each bound texture, in the order of `shaded_texture_names`.
pub open spec fn shaded_sampler_slots() -> Seq<usize> {
    seq![4usize, 6, 3, 1, 5, 0, 2]
}

/// The material textures, in the order of `shaded_texture_names`.
pub open spec fn shaded_textures(m: Model) -> Seq<u64> {
    seq![
        m.material.roughness,
        m.material.caveat,
        m.material.metallic,
        m.material.emission,
        m.material.ambient_occlusion,
        m.material.albedo,
        m.material.normal,
    ]
}

/// The commands that drawing `model` shaded records.
pub open spec fn shaded_commands(
    program: u64,
    t: Target,
    camera: Option<Camera>,
    lights: Seq<Light>,
    model: Model,
) -> Seq<CommandView> {
    seq![
        CommandView::UpdateConstantBuffer {
            program,
            slot: 0,
            data: vertex_args_cells(camera, model),
        },
        CommandView::UpdateConstantBuffer {
            program,
            slot: 1,
            data: seq![point_light_count(lights) as u32, directional_light_count(lights) as u32],
        },
        CommandView::UpdateBuffer { program, slot: 2, data: point_lights_data(lights), offset: 0 },
        CommandView::UpdateBuffer {
            program,
            slot: 3,
            data: directional_lights_data(lights),
            offset: 0,
        },
        CommandView::Draw(
            DrawView {
                program,
                geometry: Some(model.mesh),
                const_bufs: seq![0, 1, 2, 3],
                globals: shaded_globals(camera),
                samplers: shaded_sampler_slots(),
                textures: shaded_textures(model),
                out_colors: first_color(t),
                out_depth: None,
            },
        ),
    ]
}

/// Splits the lights into the contents of the two light buffers and counts
/// each kind.
fn light_buffers(lights: &Vec<Light>) -> (r: (Vec<u32>, Vec<u32>, usize, usize))
    ensures
        r.0@ == point_lights_data(lights@),
        r.1@ == directional_lights_data(lights@),
        r.2 == point_light_count(lights@),
        r.3 == directional_light_count(lights@),
{
    let mut points: Vec<u32> = Vec::new();
    let mut directionals: Vec<u32> = Vec::new();
    let mut n_points: usize = 0;
    let mut n_directionals: usize = 0;
    let mut i: usize = 0;
    while i < lights.len()
        invariant
            i <= lights@.len(),
            points@ == point_lights_data(lights@.take(i as int)),
            directionals@ == directional_lights_data(lights@.take(i as int)),
            n_points == point_light_count(lights@.take(i as int)),
            n_directionals == directional_light_count(lights@.take(i as int)),
            n_points + n_directionals == i,
        decreases lights@.len() - i,
    {
        let ghost pre = lights@.take(i as int);
        let ghost next = lights@.take(i + 1);
        proof {
            assert(next =~= pre.push(lights@[i as int]));
            assert(next.drop_last() =~= pre);
            pre.lemma_filter_push(lights@[i as int], |l: Light| l is Point);
            pre.lemma_filter_push(lights@[i as int], |l: Light| l is Directional);
        }
        match lights[i] {
            Light::Point(p) => {
                p.center.push_padded(&mut points);
                p.color.push_padded(&mut points);
                points.push(p.intensity);
                points.push(0);
                points.push(0);
                points.push(0);
                assert(points@ =~= point_lights_data(next));
                assert(directionals@ =~= directional_lights_data(next));
                n_points = n_points + 1;
            },
            Light::Directional(d) => {
                d.direction.push_cells(&mut directionals);
                d.color.push_cells(&mut directionals);
                assert(points@ =~= point_lights_data(next));
                assert(directionals@ =~= directional_lights_data(next));
                n_directionals = n_directionals + 1;
            },
        }
        i = i + 1;
    }
    assert(lights@.take(i as int) =~= lights@);
    (points, directionals, n_points, n_directionals)
}

/// Records the commands of drawing `model` shaded into `enc`.
pub fn draw_shaded(
    enc: &mut Encoder,
    program: u64,
    target: &Target,
    camera: &Option<Camera>,
    lights: &Vec<Light>,
    model: &Model,
)
    ensures
        final(enc)@ == old(enc)@ + shaded_commands(program, *target, *camera, lights@, *model),
{
    enc.record(
        Command::UpdateConstantBuffer { program, slot: 0, data: vertex_args(camera, model) },
    );
    let (points, directionals, n_points, n_directionals) = light_buffers(lights);
    let mut counts: Vec<u32> = Vec::new();
    counts.push(n_points as u32);
    counts.push(n_directionals as u32);
    assert(counts@ =~= seq![
        point_light_count(lights@) as u32,
        directional_light_count(lights@) as u32,
    ]);
    enc.record(Command::UpdateConstantBuffer { program, slot: 1, data: counts });
    enc.record(Command::UpdateBuffer { program, slot: 2, data: points, offset: 0 });
    enc.record(Command::UpdateBuffer { program, slot: 3, data: directionals, offset: 0 });

    let mut globals: Vec<u32> = Vec::new();
    globals.push(AMBIENT_BITS);
    globals.push(AMBIENT_BITS);
    globals.push(AMBIENT_BITS);
    match camera {
        Some(c) => c.eye.push_cells(&mut globals),
        None => Vec3::zero().push_cells(&mut globals),
    }

    let mut const_bufs: Vec<usize> = Vec::new();
    const_bufs.push(0);
    const_bufs.push(1);
    const_bufs.push(2);
    const_bufs.push(3);

    let mut samplers: Vec<usize> = Vec::new();
    let mut textures: Vec<u64> = Vec::new();
    samplers.push(4);
    textures.push(model.material.roughness);
    samplers.push(6);
    textures.push(model.material.caveat);
    samplers.push(3);
    textures.push(model.material.metallic);
    samplers.push(1);
    textures.push(model.material.emission);
    samplers.push(5);
    textures.push(model.material.ambient_occlusion);
    samplers.push(0);
    textures.push(model.material.albedo);
    samplers.push(2);
    textures.push(model.material.normal);

    let draw = DrawCall {
        program,
        geometry: Some(model.mesh),
        const_bufs,
        globals,
        samplers,
        textures,
        out_colors: first_color_output(target),
        out_depth: None,
    };
    assert(draw@.const_bufs =~= seq![0usize, 1, 2, 3]);
    assert(draw@.globals =~= shaded_globals(*camera));
    assert(draw@.samplers =~= shaded_sampler_slots());
    assert(draw@.textures =~= shaded_textures(*model));
    enc.record(Command::Draw(draw));
    assert(final(enc)@ =~= old(enc)@ + shaded_commands(
        program,
        *target,
        *camera,
        lights@,
        *model,
    ));
}

impl DrawShaded {
    pub closed spec fn format_attributes(&self) -> Seq<(Seq<char>, Element)> {
        self.named_vertex_attributes@.map_values(|a: NamedAttribute| (a.name@, a.element))
    }

    pub closed spec fn vertex_size(&self) -> u32 {
        self.vertex_size
    }

    pub closed spec fn sources(&self) -> (Seq<u8>, Seq<u8>) {
        (self.vertex_src@, self.fragment_shader@)
    }

    /// A shaded pass over meshes of vertex format `format`, with the given
    /// vertex shader and lighting fragment shader sources.
    pub fn new(format: VertexFormat, vertex_src: Vec<u8>, fragment_shader: Vec<u8>) -> (r:
        DrawShaded)
        ensures
            r.format_attributes() == format_attributes(format).map_values(
                |a: (AttributeKind, Element)| (attribute_name(a.0), a.1),
            ),
            r.vertex_size() == format_size(format),
            r.sources() == (vertex_src@, fragment_shader@),
    {
        let r = DrawShaded {
            named_vertex_attributes: format.named_attributes(),
            vertex_size: format.size(),
            vertex_src,
            fragment_shader,
        };
        assert(r.format_attributes() =~= format_attributes(format).map_values(
            |a: (AttributeKind, Element)| (attribute_name(a.0), a.1),
        ));
        r
    }

    /// What the effect of a shaded pass declares.
    pub open spec fn effect_decl(&self) -> EffectDecl {
        EffectDecl {
            vertex_src: self.sources().0,
            fragment_src: self.sources().1,
            const_bufs: seq!["VertexArgs"@, "FragmentArgs"@, "PointLights"@, "DirectionalLight"@],
            const_buf_sizes: seq![
                (VERTEX_ARGS_SIZE, 1usize),
                (FRAGMENT_ARGS_SIZE, 1usize),
                (POINT_LIGHT_SIZE, MAX_POINT_LIGHTS),
                (DIRECTIONAL_LIGHT_SIZE, MAX_DIRECTIONAL_LIGHTS),
            ],
            globals: seq!["ambient_color"@, "camera_position"@],
            samplers: shaded_sampler_names(),
            sampler_modes: Seq::new(7, |i: int| (FilterMethod::Scale, WrapMode::Clamp)),
            textures: shaded_texture_names(),
            attributes: self.format_attributes().map_values(|a: (Seq<char>, Element)| a.0),
            attribute_elements: self.format_attributes().map_values(|a: (Seq<char>, Element)| a.1),
            vertex_stride: self.vertex_size(),
            vertex_slot: 0,
            outputs: seq!["out_color"@],
            output_depths: seq![None],
        }
    }

    /// The pass builder of this pass: a per-model pass with its effect declarations.
    pub fn pass_builder(&self) -> (r: PassBuilder)
        ensures
            r matches PassBuilder::Model(kind, eb) && kind == ModelKind::Shaded && eb@
                == self.effect_decl(),
    {
        let sampler_names: [&str; 7] = [
            "sampler_albedo",
            "sampler_emission",
            "sampler_normal",
            "sampler_metallic",
            "sampler_roughness",
            "sampler_ambient_occlusion",
            "sampler_caveat",
        ];
        let eb = EffectBuilder::new_simple_prog(
            copy_bytes(&self.vertex_src),
            copy_bytes(&self.fragment_shader),
        ).with_raw_vertex_buffer(
            &self.named_vertex_attributes,
            self.vertex_size,
            0,
        ).with_raw_constant_buffer("VertexArgs", VERTEX_ARGS_SIZE, 1).with_raw_constant_buffer(
            "FragmentArgs",
            FRAGMENT_ARGS_SIZE,
            1,
        ).with_raw_constant_buffer(
            "PointLights",
            POINT_LIGHT_SIZE,
            MAX_POINT_LIGHTS,
        ).with_raw_constant_buffer(
            "DirectionalLight",
            DIRECTIONAL_LIGHT_SIZE,
            MAX_DIRECTIONAL_LIGHTS,
        ).with_raw_global("ambient_color").with_raw_global("camera_position").with_sampler(
            &sampler_names,
            FilterMethod::Scale,
            WrapMode::Clamp,
        ).with_texture("sampler_roughness").with_texture("sampler_caveat").with_texture(
            "sampler_metallic",
        ).with_texture("sampler_emission").with_texture("sampler_ambient_occlusion").with_texture(
            "sampler_albedo",
        ).with_texture("sampler_normal").with_output("out_color", None);
        let ghost d = self.effect_decl();
        assert(sampler_names@.map_values(|n: &str| n@) =~= shaded_sampler_names());
        assert(eb@.const_bufs =~= d.const_bufs);
        assert(eb@.const_buf_sizes =~= d.const_buf_sizes);
        assert(eb@.globals =~= d.globals);
        assert(eb@.samplers =~= d.samplers);
        assert(eb@.sampler_modes =~= d.sampler_modes);
        assert(eb@.textures =~= d.textures);
        assert(eb@.attributes =~= d.attributes);
        assert(eb@.attribute_elements =~= d.attribute_elements);
        assert(eb@.outputs =~= d.outputs);
        assert(eb@.output_depths =~= d.output_depths);
        assert(eb@ =~= d);
        PassBuilder::Model(ModelKind::Shaded, eb)
    }
}

} // verus!
