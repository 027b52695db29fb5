use render_core::engine::{drawable_material, Engine, IEngine};
use render_core::gl::{BlendMode, BufferBit, Flag, GlCommand, GlQueue};
use render_core::light::{DirectionalLight, Light, PointLight};
use render_core::material::{Material, ShaderProgram, Texture};
use render_core::mesh::{Mesh, MeshBuffer};
use render_core::object::{Component, ComponentKind, ComponentValue, GameObject};
use render_core::pass::{EngineContext, PassEvent, PassStage, RenderPass};
use render_core::value::{Camera, Color, Matrix4, Vector3, Vector4};

fn bits(values: &[f32]) -> Vec<u32> {
    values.iter().map(|v| v.to_bits()).collect()
}

fn cube() -> Mesh {
    Mesh::new(MeshBuffer {
        vertices: bits(&[0.0, 0.0, 0.0, 1.0, 0.0, 0.0, 0.0, 1.0, 0.0, 1.0, 1.0, 0.0]),
        uvs: Some(bits(&[0.0, 0.0, 1.0, 0.0, 0.0, 1.0, 1.0, 1.0])),
        normals: None,
        indices: vec![0, 1, 2, 2, 1, 3],
    })
}

fn program(id: u64) -> ShaderProgram {
    ShaderProgram { id, vertex_position: Some(0), vertex_normal: Some(1), texture_coord: Some(2) }
}

fn material(program_id: u64, texture_id: u64) -> Material {
    Material { program: program(program_id), texture: Texture { id: texture_id }, shininess: 32.0f32.to_bits() }
}

fn camera() -> Camera {
    let one = 1.0f32.to_bits();
    let identity = Matrix4 {
        c0: Vector4 { x: one, y: 0, z: 0, w: 0 },
        c1: Vector4 { x: 0, y: one, z: 0, w: 0 },
        c2: Vector4 { x: 0, y: 0, z: one, w: 0 },
        c3: Vector4 { x: 0, y: 0, z: 0, w: one },
    };
    Camera { v: identity, p: identity, eye: Vector3::splat(0) }
}

fn engine_with_camera() -> Engine {
    let mut engine = Engine::new((800, 600));
    let _ = engine.gl.drain();
    engine.main_camera = Some(camera());
    engine
}

fn add_drawable(engine: &mut Engine, program_id: u64, texture_id: u64) -> (u64, u64) {
    let entity = engine.new_gameobject();
    let mesh = engine.add_component(entity, ComponentValue::Mesh(cube())).unwrap();
    engine.add_component(entity, ComponentValue::Material(material(program_id, texture_id))).unwrap();
    (entity, mesh)
}

/// Runs a whole pass; every texture bind succeeds unless its texture is in
/// `failing`. Returns the pass and the commands it issued.
fn run_pass(engine: &mut Engine, failing: &[u64]) -> (RenderPass, Vec<GlCommand>) {
    let mut pass = engine.begin();
    let mut event = PassEvent::Tick;
    let mut steps = 0;
    while !pass.is_done() {
        engine.render(&mut pass, event);
        event = PassEvent::Tick;
        if pass.awaits_texture() {
            match engine.gl.commands.last() {
                Some(GlCommand::BindTexture { texture, .. }) => {
                    event = PassEvent::TextureBound(!failing.contains(texture));
                }
                other => panic!("a waiting pass must have asked for a texture, not {:?}", other),
            }
        }
        steps += 1;
        assert!(steps < 1000);
    }
    engine.end();
    (pass, engine.gl.drain())
}

fn count_draws(commands: &[GlCommand]) -> usize {
    commands.iter().filter(|c| matches!(c, GlCommand::DrawElements { .. })).count()
}

fn clear_commands() -> Vec<GlCommand> {
    let fifth = 0.2f32.to_bits();
    vec![
        GlCommand::Clear(BufferBit::Color),
        GlCommand::Clear(BufferBit::Depth),
        GlCommand::ClearColor(Color { r: fifth, g: fifth, b: fifth, a: 1.0f32.to_bits() }),
    ]
}

#[test]
fn new_engine_sets_up_the_context() {
    let engine = Engine::new((640, 480));
    let half = 0.5f32.to_bits();
    assert_eq!(
        engine.gl.commands,
        vec![
            GlCommand::ClearColor(Color { r: half, g: half, b: half, a: 1.0f32.to_bits() }),
            GlCommand::Enable(Flag::DepthTest),
            GlCommand::Enable(Flag::Blend),
            GlCommand::Clear(BufferBit::Color),
            GlCommand::Clear(BufferBit::Depth),
            GlCommand::BlendFunc(BlendMode::SrcAlpha, BlendMode::OneMinusSrcAlpha),
            GlCommand::Viewport { x: 0, y: 0, width: 640, height: 480 },
        ]
    );
    assert!(engine.main_camera.is_none());
    assert!(engine.objects.is_empty());
}

#[test]
fn clear_issues_colour_depth_and_clear_colour() {
    let mut engine = Engine::new((1, 1));
    let _ = engine.gl.drain();
    engine.clear();
    assert_eq!(engine.gl.commands, clear_commands());
}

#[test]
fn new_entity_is_at_identity_with_unit_scale_and_no_components() {
    let mut engine = Engine::new((1, 1));
    let a = engine.new_gameobject();
    let b = engine.new_gameobject();
    assert_ne!(a, b);
    assert_eq!(engine.objects.len(), 2);
    assert_eq!(engine.position(b), Some(1));
    let object = engine.object(a).unwrap();
    assert_eq!(object.scale, Vector3::splat(1.0f32.to_bits()));
    assert_eq!(f32::from_bits(object.transform.rotation.w), 1.0);
    assert_eq!(object.transform.translation, Vector3::splat(0));
    assert!(object.components.is_empty());
    assert!(engine.object(99).is_none());
}

#[test]
fn find_component_returns_the_first_of_the_kind() {
    let mut object = GameObject::new();
    assert_eq!(object.find_component(ComponentKind::Mesh), None);
    object.add_component(Component::new(1, ComponentValue::Material(material(1, 1))));
    object.add_component(Component::new(2, ComponentValue::Light(Light::Directional(DirectionalLight::fallback()))));
    object.add_component(Component::new(3, ComponentValue::Material(material(2, 2))));
    object.add_component(Component::new(4, ComponentValue::Mesh(cube())));
    object.add_component(Component::new(5, ComponentValue::Mesh(cube())));
    assert_eq!(object.find_component(ComponentKind::Material), Some(0));
    assert_eq!(object.find_component(ComponentKind::Light), Some(1));
    assert_eq!(object.find_component(ComponentKind::Mesh), Some(3));
    assert_eq!(object.components[3].id(), 4);
    assert_eq!(object.components[0].value.kind(), ComponentKind::Material);
}

#[test]
fn find_component_on_an_entity_without_the_kind_finds_nothing() {
    let mut object = GameObject::new();
    object.add_component(Component::new(1, ComponentValue::Mesh(cube())));
    assert_eq!(object.find_component(ComponentKind::Material), None);
    assert_eq!(object.find_component(ComponentKind::Light), None);
}

#[test]
fn add_component_goes_to_the_named_entity_only() {
    let mut engine = Engine::new((1, 1));
    let a = engine.new_gameobject();
    let b = engine.new_gameobject();
    let c1 = engine.add_component(b, ComponentValue::Material(material(1, 1))).unwrap();
    let c2 = engine.add_component(b, ComponentValue::Mesh(cube())).unwrap();
    assert_ne!(c1, c2);
    assert!(engine.object(a).unwrap().components.is_empty());
    assert_eq!(engine.object(b).unwrap().components.len(), 2);
    assert_eq!(engine.object(b).unwrap().components[0].id, c1);
    assert_eq!(engine.object(b).unwrap().find_component(ComponentKind::Mesh), Some(1));
    assert_eq!(engine.add_component(1234, ComponentValue::Mesh(cube())), None);
}

#[test]
fn engine_wide_lookup_finds_the_first_live_holder() {
    let mut engine = Engine::new((1, 1));
    let a = engine.new_gameobject();
    let b = engine.new_gameobject();
    let c = engine.new_gameobject();
    assert_eq!(engine.find_component(ComponentKind::Light), None);
    engine.add_component(a, ComponentValue::Mesh(cube())).unwrap();
    engine.add_component(b, ComponentValue::Mesh(cube())).unwrap();
    engine.add_component(b, ComponentValue::Light(Light::Directional(DirectionalLight::fallback()))).unwrap();
    engine.add_component(c, ComponentValue::Light(Light::Directional(DirectionalLight::fallback()))).unwrap();
    assert_eq!(engine.find_component(ComponentKind::Light), Some((1, 1)));
    assert_eq!(engine.find_component(ComponentKind::Mesh), Some((0, 0)));
    assert!(engine.release(b).is_some());
    assert_eq!(engine.find_component(ComponentKind::Light), Some((2, 0)));
    assert_eq!(engine.find_component(ComponentKind::Material), None);
}

#[test]
fn need_prepare_compares_identities() {
    let mut ctx = EngineContext::new();
    assert!(ctx.need_prepare_program(&program(1)));
    assert!(ctx.need_prepare_texture(&Texture { id: 1 }));
    assert!(ctx.need_prepare_mesh(1));
    ctx.prog = Some(program(1));
    ctx.tex = Some(Texture { id: 9 });
    ctx.mesh = Some(4);
    assert!(!ctx.need_prepare_program(&program(1)));
    assert!(ctx.need_prepare_program(&program(2)));
    let same_handle = ShaderProgram { id: 1, vertex_position: None, vertex_normal: None, texture_coord: None };
    assert!(!ctx.need_prepare_program(&same_handle));
    assert!(!ctx.need_prepare_texture(&Texture { id: 9 }));
    assert!(ctx.need_prepare_texture(&Texture { id: 8 }));
    assert!(!ctx.need_prepare_mesh(4));
    assert!(ctx.need_prepare_mesh(5));
}

#[test]
fn setup_material_binds_program_then_asks_for_texture() {
    let mut gl = GlQueue::new(0);
    let mut ctx = EngineContext::new();
    let m = material(3, 8);
    assert!(!Engine::setup_material(&mut gl, &mut ctx, &m));
    assert_eq!(
        gl.drain(),
        vec![GlCommand::BindProgram(3), GlCommand::BindTexture { texture: 8, program: 3 }]
    );
    assert_eq!(ctx.switch_prog, 1);
    assert_eq!(ctx.switch_tex, 0);
    ctx.tex = Some(m.texture);
    assert!(Engine::setup_material(&mut gl, &mut ctx, &m));
    assert!(gl.commands.is_empty());
    assert_eq!(ctx.switch_prog, 1);
}

#[test]
fn drawable_material_needs_both_material_and_mesh() {
    let mut engine = Engine::new((1, 1));
    let a = engine.new_gameobject();
    engine.add_component(a, ComponentValue::Material(material(1, 1))).unwrap();
    assert_eq!(drawable_material(&engine.objects[0]), None);
    engine.add_component(a, ComponentValue::Mesh(cube())).unwrap();
    assert_eq!(drawable_material(&engine.objects[0]), Some(material(1, 1)));
    engine.release(a);
    assert_eq!(drawable_material(&engine.objects[0]), None);
}

#[test]
fn pass_without_camera_clears_and_draws_nothing() {
    let mut engine = Engine::new((800, 600));
    let _ = engine.gl.drain();
    add_drawable(&mut engine, 1, 1);
    let (pass, commands) = run_pass(&mut engine, &[]);
    assert_eq!(commands, clear_commands());
    assert_eq!(count_draws(&commands), 0);
    assert_eq!(pass.stage, PassStage::Done);
    assert_eq!((pass.ctx.switch_prog, pass.ctx.switch_tex, pass.ctx.switch_mesh, pass.draws), (0, 0, 0, 0));
    assert_eq!(engine.objects.len(), 1);
}

#[test]
fn two_entities_sharing_a_material_switch_once_and_draw_twice() {
    let mut engine = engine_with_camera();
    add_drawable(&mut engine, 1, 1);
    add_drawable(&mut engine, 1, 1);
    let (pass, commands) = run_pass(&mut engine, &[]);
    assert_eq!(pass.ctx.switch_prog, 1);
    assert_eq!(pass.ctx.switch_tex, 1);
    assert_eq!(pass.ctx.switch_mesh, 2);
    assert_eq!(pass.draws, 2);
    assert_eq!(count_draws(&commands), 2);
    assert_eq!(commands.iter().filter(|c| matches!(c, GlCommand::BindProgram(_))).count(), 1);
    assert_eq!(commands.iter().filter(|c| matches!(c, GlCommand::BindTexture { .. })).count(), 1);
}

#[test]
fn one_entity_is_drawn_in_the_documented_order() {
    let mut engine = engine_with_camera();
    let (entity, _) = add_drawable(&mut engine, 5, 6);
    let (pass, commands) = run_pass(&mut engine, &[]);
    assert_eq!(pass.draws, 1);
    assert_eq!(commands[..3].to_vec(), clear_commands());
    assert_eq!(
        commands[3..8].to_vec(),
        vec![
            GlCommand::BindProgram(5),
            GlCommand::BindTexture { texture: 6, program: 5 },
            GlCommand::SetShininess { program: 5, bits: 32.0f32.to_bits() },
            GlCommand::SetTransforms { program: 5, object: entity },
            GlCommand::SetDirectionalLight { program: 5, light: DirectionalLight::fallback() },
        ]
    );
    assert_eq!(commands[8], GlCommand::CreateBuffer(0));
    let n = commands.len();
    assert_eq!(commands[n - 2], GlCommand::Commit(5));
    assert_eq!(commands[n - 1], GlCommand::DrawElements { count: 6 });
}

#[test]
fn another_program_or_texture_switches_exactly_once_each() {
    let mut engine = engine_with_camera();
    add_drawable(&mut engine, 1, 1);
    add_drawable(&mut engine, 2, 1);
    add_drawable(&mut engine, 2, 3);
    add_drawable(&mut engine, 2, 3);
    let (pass, commands) = run_pass(&mut engine, &[]);
    assert_eq!(pass.ctx.switch_prog, 2);
    assert_eq!(pass.ctx.switch_tex, 2);
    assert_eq!(pass.draws, 4);
    assert_eq!(count_draws(&commands), 4);
}

#[test]
fn failed_texture_bind_skips_the_entity_only() {
    let mut engine = engine_with_camera();
    add_drawable(&mut engine, 1, 13);
    add_drawable(&mut engine, 1, 2);
    let (pass, commands) = run_pass(&mut engine, &[13]);
    assert_eq!(pass.draws, 1);
    assert_eq!(count_draws(&commands), 1);
    assert_eq!(pass.ctx.switch_prog, 1);
    assert_eq!(pass.ctx.switch_tex, 1);
    assert_eq!(pass.ctx.tex, Some(Texture { id: 2 }));
    assert_eq!(commands.iter().filter(|c| matches!(c, GlCommand::SetShininess { .. })).count(), 1);
    assert_eq!(engine.objects.len(), 2);
}

#[test]
fn waiting_pass_ignores_a_tick() {
    let mut engine = engine_with_camera();
    add_drawable(&mut engine, 1, 1);
    let mut pass = engine.begin();
    engine.render(&mut pass, PassEvent::Tick);
    engine.render(&mut pass, PassEvent::Tick);
    assert!(pass.awaits_texture());
    let before = engine.gl.commands.len();
    let waiting = pass;
    engine.render(&mut pass, PassEvent::Tick);
    assert_eq!(pass, waiting);
    assert_eq!(engine.gl.commands.len(), before);
    engine.render(&mut pass, PassEvent::TextureBound(true));
    assert_eq!(pass.stage, PassStage::Traversing);
    assert_eq!(pass.cursor, 1);
    assert_eq!(pass.draws, 1);
}

#[test]
fn entities_lacking_mesh_or_material_are_passed_over() {
    let mut engine = engine_with_camera();
    let a = engine.new_gameobject();
    engine.add_component(a, ComponentValue::Material(material(1, 1))).unwrap();
    let b = engine.new_gameobject();
    engine.add_component(b, ComponentValue::Mesh(cube())).unwrap();
    engine.new_gameobject();
    let (pass, commands) = run_pass(&mut engine, &[]);
    assert_eq!(commands, clear_commands());
    assert_eq!(pass.draws, 0);
    assert_eq!(pass.ctx.switch_prog, 0);
    assert_eq!(pass.cursor, 3);
}

#[test]
fn released_entities_are_forgotten_when_the_pass_ends() {
    let mut engine = engine_with_camera();
    let (a, _) = add_drawable(&mut engine, 1, 1);
    let (b, _) = add_drawable(&mut engine, 1, 1);
    let (c, _) = add_drawable(&mut engine, 1, 1);
    let (first, _) = run_pass(&mut engine, &[]);
    assert_eq!(first.draws, 3);
    assert_eq!(engine.objects.len(), 3);

    let released = engine.release(b);
    assert!(released.is_some());
    assert!(engine.release(b).is_none());
    assert_eq!(engine.objects.len(), 3);
    let (second, commands) = run_pass(&mut engine, &[]);
    assert_eq!(second.draws, 2);
    assert_eq!(count_draws(&commands), 2);
    let ids: Vec<u64> = engine.objects.iter().map(|s| s.id).collect();
    assert_eq!(ids, vec![a, c]);
    assert!(engine.objects.iter().all(|s| s.object.is_some()));
    assert!(engine.object(b).is_none());
}

#[test]
fn meshes_are_uploaded_in_the_first_frame_only() {
    let mut engine = engine_with_camera();
    add_drawable(&mut engine, 1, 1);
    add_drawable(&mut engine, 1, 1);
    let (_, first) = run_pass(&mut engine, &[]);
    assert_eq!(first.iter().filter(|c| matches!(c, GlCommand::CreateBuffer(_))).count(), 6);
    let (pass, second) = run_pass(&mut engine, &[]);
    assert_eq!(second.iter().filter(|c| matches!(c, GlCommand::CreateBuffer(_))).count(), 0);
    assert_eq!(second.iter().filter(|c| matches!(c, GlCommand::BufferData(_, _))).count(), 0);
    assert_eq!(count_draws(&second), 2);
    assert_eq!(pass.ctx.switch_mesh, 2);
    assert_eq!(engine.gl.next_buffer, 6);
}

#[test]
fn scene_light_is_used_and_point_light_falls_back() {
    let sun = DirectionalLight {
        direction: Vector3 { x: 0, y: (-1.0f32).to_bits(), z: 0 },
        ambient: Vector3::splat(0.1f32.to_bits()),
        diffuse: Vector3::splat(0.7f32.to_bits()),
        specular: Vector3::splat(1.0f32.to_bits()),
    };
    let mut engine = engine_with_camera();
    let (a, _) = add_drawable(&mut engine, 1, 1);
    engine.add_component(a, ComponentValue::Light(Light::Directional(sun))).unwrap();
    assert_eq!(engine.resolve_light(), Light::Directional(sun));
    let (pass, commands) = run_pass(&mut engine, &[]);
    assert_eq!(pass.ctx.light, Some(Light::Directional(sun)));
    assert!(commands.contains(&GlCommand::SetDirectionalLight { program: 1, light: sun }));

    let lamp = PointLight {
        position: Vector3::splat(0),
        ambient: Vector3::splat(0),
        diffuse: Vector3::splat(0),
        specular: Vector3::splat(0),
    };
    let mut engine = engine_with_camera();
    let (b, _) = add_drawable(&mut engine, 1, 1);
    engine.add_component(b, ComponentValue::Light(Light::Point(lamp))).unwrap();
    let (_, commands) = run_pass(&mut engine, &[]);
    assert!(commands.contains(&GlCommand::SetDirectionalLight { program: 1, light: DirectionalLight::fallback() }));
}

#[test]
fn pass_without_lights_uses_the_fallback_light() {
    let mut engine = engine_with_camera();
    add_drawable(&mut engine, 1, 1);
    assert_eq!(engine.resolve_light(), Light::Directional(DirectionalLight::fallback()));
    let mut pass = engine.begin();
    engine.render(&mut pass, PassEvent::Tick);
    assert_eq!(pass.stage, PassStage::Traversing);
    assert_eq!(pass.ctx.light, Some(Light::Directional(DirectionalLight::fallback())));
}

#[test]
fn empty_scene_with_camera_only_clears() {
    let mut engine = engine_with_camera();
    let (pass, commands) = run_pass(&mut engine, &[]);
    assert_eq!(commands, clear_commands());
    assert_eq!(pass.draws, 0);
    let mut done = pass;
    engine.render(&mut done, PassEvent::Tick);
    assert_eq!(done, pass);
    assert!(engine.gl.commands.is_empty());
}

#[test]
fn render_object_rebinds_only_another_mesh() {
    let mut object = GameObject::new();
    object.add_component(Component::new(11, ComponentValue::Mesh(cube())));
    object.add_component(Component::new(12, ComponentValue::Material(material(1, 1))));
    let mut gl = GlQueue::new(0);
    let mut ctx = EngineContext::new();
    ctx.prog = Some(program(1));
    Engine::render_object(&mut gl, &mut ctx, 77, &mut object);
    assert_eq!(ctx.mesh, Some(11));
    assert_eq!(ctx.switch_mesh, 1);
    let first = gl.drain();
    assert_eq!(first[1], GlCommand::SetTransforms { program: 1, object: 77 });
    Engine::render_object(&mut gl, &mut ctx, 77, &mut object);
    assert_eq!(ctx.switch_mesh, 1);
    assert_eq!(
        gl.drain(),
        vec![
            GlCommand::SetShininess { program: 1, bits: 0x4200_0000 },
            GlCommand::SetTransforms { program: 1, object: 77 },
            GlCommand::SetDirectionalLight { program: 1, light: DirectionalLight::fallback() },
            GlCommand::Commit(1),
            GlCommand::DrawElements { count: 6 },
        ]
    );
}
