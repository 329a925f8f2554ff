use amethyst_renderer::clear::{stencil_value, ClearTarget};
use amethyst_renderer::effect::Program;
use amethyst_renderer::encoder::{Command, DrawCall, Encoder, Geometry};
use amethyst_renderer::error::Error;
use amethyst_renderer::flat::DrawFlat;
use amethyst_renderer::pass::PassBuilder;
use amethyst_renderer::pipeline::Pipeline;
use amethyst_renderer::scene::{
    chunk_bounds, Camera, DirectionalLight, Light, Material, Model, PointLight, Scene,
};
use amethyst_renderer::shaded::DrawShaded;
use amethyst_renderer::stage::{Stage, StageBuilder};
use amethyst_renderer::target::{Target, Targets};
use amethyst_renderer::types::{Mat4, Rgba, Vec3, AMBIENT_BITS, ONE_BITS};
use amethyst_renderer::vertex::VertexFormat;

const COLOR_BUF: u64 = 100;
const DEPTH_BUF: u64 = 101;

fn strings(names: &[&str]) -> Vec<String> {
    names.iter().map(|n| n.to_string()).collect()
}

fn black() -> Rgba {
    Rgba { r: 0.0f32.to_bits(), g: 0.0f32.to_bits(), b: 0.0f32.to_bits(), a: 1.0f32.to_bits() }
}

fn registry() -> Targets {
    let mut targets = Targets::new();
    assert!(targets.add(Target::new("main".to_string(), vec![COLOR_BUF], Some(DEPTH_BUF))));
    targets
}

fn flat_program(handle: u64) -> Program {
    Program {
        handle,
        constant_buffers: strings(&["VertexArgs"]),
        globals: vec![],
        samplers: strings(&["albedo"]),
        textures: strings(&["albedo"]),
        attributes: strings(&["position", "normal", "tex_coord"]),
        outputs: strings(&["color"]),
    }
}

fn shaded_program(handle: u64) -> Program {
    let samplers = [
        "sampler_albedo",
        "sampler_emission",
        "sampler_normal",
        "sampler_metallic",
        "sampler_roughness",
        "sampler_ambient_occlusion",
        "sampler_caveat",
    ];
    Program {
        handle,
        constant_buffers: strings(&["VertexArgs", "FragmentArgs", "PointLights", "DirectionalLight"]),
        globals: strings(&["ambient_color", "camera_position"]),
        samplers: strings(&samplers),
        textures: strings(&samplers),
        attributes: strings(&["position", "normal", "tex_coord"]),
        outputs: strings(&["out_color"]),
    }
}

fn flat() -> DrawFlat {
    DrawFlat::new(VertexFormat::PosNormTex, b"vs".to_vec(), b"fs".to_vec())
}

fn shaded() -> DrawShaded {
    DrawShaded::new(VertexFormat::PosNormTex, b"vs".to_vec(), b"pbm".to_vec())
}

fn model(id: u64) -> Model {
    let mut cells = [0u32; 16];
    cells[0] = id as u32;
    Model {
        mesh: Geometry { vertex_buffer: id, start: 0, end: 3 },
        material: Material {
            albedo: id * 10,
            emission: id * 10 + 1,
            normal: id * 10 + 2,
            metallic: id * 10 + 3,
            roughness: id * 10 + 4,
            ambient_occlusion: id * 10 + 5,
            caveat: id * 10 + 6,
        },
        pos: Mat4 { cells },
    }
}

fn scene_with(models: Vec<Model>) -> Scene {
    Scene { camera: None, lights: vec![], models }
}

fn encoders(n: usize) -> Vec<Encoder> {
    (0..n).map(|_| Encoder::new()).collect()
}

fn all_commands(encs: &[Encoder]) -> Vec<&Command> {
    encs.iter().flat_map(|e| e.commands().iter()).collect()
}

fn draw_of(c: &Command) -> &DrawCall {
    match c {
        Command::Draw(d) => d,
        other => panic!("not a draw: {:?}", other),
    }
}

fn clear_black() -> PassBuilder {
    PassBuilder::prep(ClearTarget::with_values(Some(black()), None))
}

#[test]
fn missing_target_is_reported() {
    let targets = registry();
    let r = Stage::with_target("shadow".to_string())
        .with_pass(clear_black())
        .finish(&targets, &vec![]);
    assert_eq!(r.unwrap_err(), Error::NoSuchTarget("shadow".to_string()));

    let r = Stage::with_backbuffer().with_pass(flat().pass_builder()).finish(&targets, &vec![]);
    assert_eq!(r.unwrap_err(), Error::NoSuchTarget(String::new()));

    let built = Pipeline::build(
        registry(),
        vec![StageBuilder::new("main".to_string()), StageBuilder::new("gbuffer".to_string())],
        &vec![],
    );
    assert_eq!(built.unwrap_err(), Error::NoSuchTarget("gbuffer".to_string()));
}

#[test]
fn stages_and_passes_run_in_declaration_order() {
    let first = StageBuilder::new("main".to_string())
        .with_pass(clear_black())
        .with_pass(flat().pass_builder());
    let second = StageBuilder::new("main".to_string())
        .with_pass(PassBuilder::prep(ClearTarget::with_values(None, Some(1.0f32.to_bits()))))
        .with_pass(flat().pass_builder());
    let pipe = Pipeline::build(
        registry(),
        vec![first, second],
        &vec![vec![flat_program(6), flat_program(7)], vec![flat_program(8), flat_program(9)]],
    )
    .unwrap();
    let scene = scene_with(vec![model(1), model(2)]);
    let mut encs = encoders(1);
    pipe.apply(&mut encs, 1, &scene);
    let cmds = all_commands(&encs);
    // clear, two models of two commands each, depth and stencil clear, two more models
    assert_eq!(cmds.len(), 1 + 4 + 2 + 4);
    assert_eq!(*cmds[0], Command::Clear { buffer: COLOR_BUF, color: black() });
    assert_eq!(draw_of(cmds[2]).program, 7);
    assert_eq!(draw_of(cmds[2]).geometry.unwrap().vertex_buffer, 1);
    assert_eq!(draw_of(cmds[4]).geometry.unwrap().vertex_buffer, 2);
    assert_eq!(*cmds[5], Command::ClearDepth { buffer: DEPTH_BUF, depth: 1.0f32.to_bits() });
    assert_eq!(*cmds[6], Command::ClearStencil { buffer: DEPTH_BUF, value: 1 });
    assert_eq!(draw_of(cmds[8]).program, 9);
    assert_eq!(draw_of(cmds[10]).geometry.unwrap().vertex_buffer, 2);
}

#[test]
fn encoders_required_follows_model_passes() {
    let targets = registry();
    let stage = StageBuilder::new("main".to_string())
        .with_pass(clear_black())
        .with_pass(flat().pass_builder())
        .with_pass(shaded().pass_builder())
        .finish(&targets, &vec![flat_program(0), flat_program(1), shaded_program(2)])
        .unwrap();
    assert_eq!(stage.encoders_required(4), 1 + 2 * 3);
    assert_eq!(stage.encoders_required(1), 1);
    assert_eq!(stage.encoders_required(2), 3);
    assert_eq!(stage.model_pass_count(), 2);

    let only_clear = StageBuilder::new("main".to_string())
        .with_pass(clear_black())
        .finish(&targets, &vec![])
        .unwrap();
    assert_eq!(only_clear.encoders_required(16), 1);
}

#[test]
fn seven_encoders_for_two_model_passes_on_four_jobs() {
    let targets = registry();
    let stage = StageBuilder::new("main".to_string())
        .with_pass(flat().pass_builder())
        .with_pass(flat().pass_builder())
        .finish(&targets, &vec![flat_program(1), flat_program(2)])
        .unwrap();
    assert_eq!(stage.encoders_required(4), 7);
    assert!(stage.has_enough_encoders(4, 7));
    assert!(!stage.has_enough_encoders(4, 6));
    assert!(stage.has_enough_encoders(usize::MAX, usize::MAX) == false);
}

#[test]
fn chunks_cover_every_model_once() {
    assert_eq!(chunk_bounds(10, 4), vec![(0, 3), (3, 6), (6, 9), (9, 10)]);
    assert_eq!(chunk_bounds(2, 4), vec![(0, 1), (1, 2), (2, 2), (2, 2)]);
    assert_eq!(chunk_bounds(0, 3), vec![(0, 0), (0, 0), (0, 0)]);
    assert_eq!(chunk_bounds(7, 1), vec![(0, 7)]);
    for len in 0..20usize {
        for n in 1..6usize {
            let chunks = chunk_bounds(len, n);
            assert_eq!(chunks.len(), n);
            let mut seen = vec![0usize; len];
            for (s, e) in chunks {
                for i in s..e {
                    seen[i] += 1;
                }
            }
            assert!(seen.iter().all(|c| *c == 1));
        }
    }
    let scene = scene_with(vec![model(1), model(2), model(3)]);
    assert_eq!(scene.model_chunks(2), vec![(0, 2), (2, 3)]);
}

#[test]
fn model_pass_is_deterministic() {
    let targets = registry();
    let stage = StageBuilder::new("main".to_string())
        .with_pass(shaded().pass_builder())
        .finish(&targets, &vec![shaded_program(3)])
        .unwrap();
    let mut scene = scene_with(vec![model(4)]);
    scene.lights.push(Light::Point(PointLight {
        center: Vec3 { x: 1, y: 2, z: 3 },
        color: Vec3 { x: 4, y: 5, z: 6 },
        intensity: 7,
    }));
    let mut a = encoders(1);
    let mut b = encoders(1);
    b[0] = Encoder::new();
    assert_eq!(stage.apply(&mut a, 0, 1, &scene), 0);
    // a second encoder that already holds commands gets the same ones appended
    stage.apply(&mut b, 0, 1, &scene);
    stage.apply(&mut b, 0, 1, &scene);
    let first: Vec<&Command> = a[0].commands().iter().collect();
    let again: Vec<&Command> = b[0].commands().iter().skip(first.len()).collect();
    assert_eq!(first, again);
    assert_eq!(first.len(), 5);
}

#[test]
fn empty_scene_clears_and_draws_nothing() {
    let stage = StageBuilder::new("main".to_string())
        .with_pass(PassBuilder::prep(ClearTarget::with_values(Some(black()), None)))
        .with_pass(shaded().pass_builder())
        .finish(&registry(), &vec![flat_program(0), shaded_program(1)])
        .unwrap();
    let scene = Scene::new();
    let mut encs = encoders(1);
    stage.apply(&mut encs, 0, 1, &scene);
    assert_eq!(encs[0].commands(), &vec![Command::Clear { buffer: COLOR_BUF, color: black() }]);

    // with more jobs the empty chunks record nothing either
    let mut encs = encoders(4);
    assert_eq!(stage.apply(&mut encs, 0, 4, &scene), 3);
    assert_eq!(encs[0].len(), 1);
    assert!(encs[1..].iter().all(|e| e.len() == 0));
}

#[test]
fn missing_camera_falls_back_to_identity() {
    let stage = StageBuilder::new("main".to_string())
        .with_pass(flat().pass_builder())
        .finish(&registry(), &vec![flat_program(5)])
        .unwrap();
    let m = model(9);
    let mut encs = encoders(1);
    stage.apply(&mut encs, 0, 1, &scene_with(vec![m]));
    let identity = Mat4::identity();
    let mut expected = Vec::new();
    expected.extend_from_slice(&identity.cells);
    expected.extend_from_slice(&identity.cells);
    expected.extend_from_slice(&m.pos.cells);
    assert_eq!(
        encs[0].commands()[0],
        Command::UpdateConstantBuffer { program: 5, slot: 0, data: expected }
    );
    assert_eq!(identity.cells[0], 1.0f32.to_bits());
    assert_eq!(identity.cells[1], 0);
    assert_eq!(identity.cells[5], ONE_BITS);

    let draw = draw_of(&encs[0].commands()[1]);
    assert_eq!(
        *draw,
        DrawCall {
            program: 5,
            geometry: Some(m.mesh),
            const_bufs: vec![0],
            globals: vec![],
            samplers: vec![0],
            textures: vec![m.material.albedo],
            out_colors: vec![COLOR_BUF],
            out_depth: Some(DEPTH_BUF),
        }
    );

    let mut proj = [0u32; 16];
    proj[3] = 11;
    let mut view = [0u32; 16];
    view[4] = 12;
    let scene = Scene {
        camera: Some(Camera {
            proj: Mat4 { cells: proj },
            view: Mat4 { cells: view },
            eye: Vec3 { x: 1, y: 1, z: 1 },
        }),
        lights: vec![],
        models: vec![m],
    };
    let mut encs = encoders(1);
    stage.apply(&mut encs, 0, 1, &scene);
    let mut expected = Vec::new();
    expected.extend_from_slice(&proj);
    expected.extend_from_slice(&view);
    expected.extend_from_slice(&m.pos.cells);
    assert_eq!(
        encs[0].commands()[0],
        Command::UpdateConstantBuffer { program: 5, slot: 0, data: expected }
    );
}

#[test]
fn disabled_stage_runs_no_pass() {
    let stage = StageBuilder::new("main".to_string())
        .with_pass(clear_black())
        .with_pass(flat().pass_builder())
        .enabled(false)
        .finish(&registry(), &vec![flat_program(0), flat_program(1)])
        .unwrap();
    assert!(!stage.is_enabled());
    let mut encs = encoders(2);
    encs[0].record(Command::ClearStencil { buffer: 1, value: 2 });
    assert_eq!(stage.apply(&mut encs, 0, 2, &scene_with(vec![model(1), model(2)])), 0);
    assert_eq!(encs[0].commands(), &vec![Command::ClearStencil { buffer: 1, value: 2 }]);
    assert_eq!(encs[1].len(), 0);

    let mut pipe = Pipeline::build(
        registry(),
        vec![StageBuilder::new("main".to_string()).with_pass(clear_black())],
        &vec![],
    )
    .unwrap();
    let scene = Scene::new();
    let mut encs = encoders(1);
    pipe.apply(&mut encs, 1, &scene);
    assert_eq!(encs[0].len(), 1);
    pipe.toggle_stage(0);
    assert!(!pipe.is_stage_enabled(0));
    pipe.apply(&mut encs, 1, &scene);
    assert_eq!(encs[0].len(), 1);
    pipe.toggle_stage(0);
    pipe.apply(&mut encs, 1, &scene);
    assert_eq!(encs[0].len(), 2);
}

#[test]
fn model_chunks_go_to_their_own_encoders() {
    let stage = StageBuilder::new("main".to_string())
        .with_pass(flat().pass_builder())
        .with_pass(clear_black())
        .finish(&registry(), &vec![flat_program(1)])
        .unwrap();
    let scene = scene_with(vec![model(1), model(2), model(3)]);
    let mut encs = encoders(2);
    assert_eq!(stage.apply(&mut encs, 0, 2, &scene), 1);
    // chunk 0 holds two models, chunk 1 one; the clear follows in the last chunk's encoder
    assert_eq!(encs[0].len(), 4);
    assert_eq!(encs[1].len(), 3);
    assert_eq!(draw_of(&encs[0].commands()[3]).geometry.unwrap().vertex_buffer, 2);
    assert_eq!(draw_of(&encs[1].commands()[1]).geometry.unwrap().vertex_buffer, 3);
    assert_eq!(encs[1].commands()[2], Command::Clear { buffer: COLOR_BUF, color: black() });

    let mut pipe_encs = encoders(3);
    let pipe = Pipeline::build(
        registry(),
        vec![
            StageBuilder::new("main".to_string()).with_pass(flat().pass_builder()),
            StageBuilder::new("main".to_string()).with_pass(flat().pass_builder()),
        ],
        &vec![vec![flat_program(1)], vec![flat_program(2)]],
    )
    .unwrap();
    assert_eq!(pipe.encoders_required(2), Some(3));
    assert_eq!(pipe.encoders_required(1), Some(1));
    pipe.apply(&mut pipe_encs, 2, &scene);
    assert_eq!(pipe_encs[0].len(), 4);
    assert_eq!(pipe_encs[1].len(), 2 + 4);
    assert_eq!(pipe_encs[2].len(), 2);
    let order: Vec<u64> = all_commands(&pipe_encs)
        .into_iter()
        .filter_map(|c| match c {
            Command::Draw(d) => Some(d.program * 10 + d.geometry.unwrap().vertex_buffer),
            _ => None,
        })
        .collect();
    assert_eq!(order, vec![11, 12, 13, 21, 22, 23]);
}

#[test]
fn shaded_pass_uploads_lights() {
    let stage = StageBuilder::new("main".to_string())
        .with_pass(shaded().pass_builder())
        .finish(&registry(), &vec![shaded_program(4)])
        .unwrap();
    let m = model(2);
    let scene = Scene {
        camera: Some(Camera {
            proj: Mat4::identity(),
            view: Mat4::identity(),
            eye: Vec3 { x: 8, y: 9, z: 10 },
        }),
        lights: vec![
            Light::Directional(DirectionalLight {
                direction: Vec3 { x: 1, y: 2, z: 3 },
                color: Vec3 { x: 4, y: 5, z: 6 },
            }),
            Light::Point(PointLight {
                center: Vec3 { x: 11, y: 12, z: 13 },
                color: Vec3 { x: 14, y: 15, z: 16 },
                intensity: 17,
            }),
            Light::Point(PointLight {
                center: Vec3 { x: 21, y: 22, z: 23 },
                color: Vec3 { x: 24, y: 25, z: 26 },
                intensity: 27,
            }),
        ],
        models: vec![m],
    };
    let mut encs = encoders(1);
    stage.apply(&mut encs, 0, 1, &scene);
    let cmds = encs[0].commands();
    assert_eq!(cmds.len(), 5);
    assert_eq!(cmds[1], Command::UpdateConstantBuffer { program: 4, slot: 1, data: vec![2, 1] });
    assert_eq!(
        cmds[2],
        Command::UpdateBuffer {
            program: 4,
            slot: 2,
            data: vec![
                11, 12, 13, ONE_BITS, 14, 15, 16, ONE_BITS, 17, 0, 0, 0, 21, 22, 23, ONE_BITS, 24,
                25, 26, ONE_BITS, 27, 0, 0, 0,
            ],
            offset: 0,
        }
    );
    assert_eq!(
        cmds[3],
        Command::UpdateBuffer { program: 4, slot: 3, data: vec![1, 2, 3, 4, 5, 6], offset: 0 }
    );
    let draw = draw_of(&cmds[4]);
    assert_eq!(draw.const_bufs, vec![0, 1, 2, 3]);
    assert_eq!(draw.globals, vec![AMBIENT_BITS, AMBIENT_BITS, AMBIENT_BITS, 8, 9, 10]);
    assert_eq!(AMBIENT_BITS, 0.005f32.to_bits());
    assert_eq!(draw.samplers, vec![4, 6, 3, 1, 5, 0, 2]);
    assert_eq!(draw.textures, vec![24, 26, 23, 21, 25, 20, 22]);
    assert_eq!(draw.out_colors, vec![COLOR_BUF]);
    assert_eq!(draw.out_depth, None);
}

#[test]
fn effect_bindings_are_checked_both_ways() {
    let targets = registry();
    let mut missing_output = flat_program(1);
    missing_output.outputs = vec![];
    let r = StageBuilder::new("main".to_string())
        .with_pass(flat().pass_builder())
        .finish(&targets, &vec![missing_output]);
    assert_eq!(r.unwrap_err(), Error::UnresolvedName("color".to_string()));

    let mut extra_texture = flat_program(1);
    extra_texture.textures.push("sampler_normal".to_string());
    let r = StageBuilder::new("main".to_string())
        .with_pass(flat().pass_builder())
        .finish(&targets, &vec![extra_texture]);
    assert_eq!(r.unwrap_err(), Error::UnboundName("sampler_normal".to_string()));

    let r = StageBuilder::new("main".to_string())
        .with_pass(clear_black())
        .with_pass(flat().pass_builder())
        .finish(&targets, &vec![flat_program(1)]);
    assert_eq!(r.unwrap_err(), Error::MissingProgram(1));

    // a color-only format leaves its color attribute unbound, which is no error
    let pos_color = DrawFlat::new(VertexFormat::PosColor, vec![], vec![]);
    let mut program = flat_program(1);
    program.attributes = strings(&["position"]);
    let r = StageBuilder::new("main".to_string())
        .with_pass(pos_color.pass_builder())
        .finish(&targets, &vec![program]);
    assert!(r.is_ok());
}

#[test]
fn depth_clear_sets_stencil_like_a_cast() {
    for v in [0.0f32, 0.5, 1.0, 2.75, 255.0, 255.9, 256.0, 300.0, -1.0, -0.5, 1e10, 1e-10] {
        assert_eq!(stencil_value(v.to_bits()), v as u8, "{}", v);
    }
    assert_eq!(stencil_value(f32::NAN.to_bits()), 0);
    assert_eq!(stencil_value(f32::INFINITY.to_bits()), 255);
    assert_eq!(stencil_value(f32::NEG_INFINITY.to_bits()), 0);

    let mut targets = Targets::new();
    targets.add(Target::new("gbuffer".to_string(), vec![1, 2, 3], Some(4)));
    let stage = StageBuilder::new("gbuffer".to_string())
        .with_pass(PassBuilder::prep(ClearTarget::with_values(
            Some(black()),
            Some(3.5f32.to_bits()),
        )))
        .finish(&targets, &vec![])
        .unwrap();
    let mut encs = encoders(1);
    stage.apply(&mut encs, 0, 1, &Scene::new());
    assert_eq!(
        encs[0].commands(),
        &vec![
            Command::Clear { buffer: 1, color: black() },
            Command::Clear { buffer: 2, color: black() },
            Command::Clear { buffer: 3, color: black() },
            Command::ClearDepth { buffer: 4, depth: 3.5f32.to_bits() },
            Command::ClearStencil { buffer: 4, value: 3 },
        ]
    );
}

#[test]
fn target_names_are_unique() {
    let mut targets = registry();
    assert!(!targets.add(Target::new("main".to_string(), vec![7], None)));
    let t = targets.get(&"main".to_string()).unwrap();
    assert_eq!(t.color_buf(0), Some(COLOR_BUF));
    assert_eq!(t.color_buf(1), None);
    assert_eq!(t.depth_buf(), Some(DEPTH_BUF));
    assert!(targets.get(&"other".to_string()).is_none());
}

#[test]
fn vertex_formats_name_their_attributes() {
    let attrs = VertexFormat::PosNormTex.named_attributes();
    let names: Vec<&str> = attrs.iter().map(|a| a.name.as_str()).collect();
    assert_eq!(names, vec!["position", "normal", "tex_coord"]);
    assert_eq!(attrs[2].element.offset, 28);
    assert_eq!(VertexFormat::PosNormTex.size(), 36);
    let attrs = VertexFormat::PosColor.named_attributes();
    let names: Vec<&str> = attrs.iter().map(|a| a.name.as_str()).collect();
    assert_eq!(names, vec!["position", ""]);
    assert_eq!(VertexFormat::PosColor.size(), 28);
}
