use render_core::bytes::{halves_into_bytes, words_into_bytes};
use render_core::gl::{AttributeSize, BufferKind, GlCommand, GlQueue};
use render_core::light::{DirectionalLight, Light, PointLight};
use render_core::material::ShaderProgram;
use render_core::mesh::{mesh_bind_buffer, Mesh, MeshBuffer};
use render_core::value::{
    Isometry3, Vector3, FIFTH, HALF, MINUS_TWO_THIRDS, ONE, THIRD, THIRTY_TWO, TWO_THIRDS, ZERO,
};

fn bits(values: &[f32]) -> Vec<u32> {
    values.iter().map(|v| v.to_bits()).collect()
}

fn triangle(uvs: bool, normals: bool) -> MeshBuffer {
    MeshBuffer {
        vertices: bits(&[0.0, 0.0, 0.0, 1.0, 0.0, 0.0, 0.0, 1.0, 0.0]),
        uvs: if uvs { Some(bits(&[0.0, 0.0, 1.0, 0.0, 0.0, 1.0])) } else { None },
        normals: if normals { Some(bits(&[0.0, 0.0, 1.0, 0.0, 0.0, 1.0, 0.0, 0.0, 1.0])) } else { None },
        indices: vec![0, 1, 2],
    }
}

fn full_program() -> ShaderProgram {
    ShaderProgram { id: 7, vertex_position: Some(0), vertex_normal: Some(1), texture_coord: Some(2) }
}

fn count_creates(commands: &[GlCommand]) -> usize {
    commands.iter().filter(|c| matches!(c, GlCommand::CreateBuffer(_))).count()
}

fn count_uploads(commands: &[GlCommand]) -> usize {
    commands.iter().filter(|c| matches!(c, GlCommand::BufferData(_, _))).count()
}

#[test]
fn words_are_laid_out_least_significant_byte_first() {
    assert_eq!(words_into_bytes(&vec![0x0403_0201, 0xAABB_CCDD]), vec![1, 2, 3, 4, 0xDD, 0xCC, 0xBB, 0xAA]);
    assert_eq!(words_into_bytes(&vec![]), Vec::<u8>::new());
}

#[test]
fn word_image_matches_float_memory_layout() {
    let values: Vec<f32> = vec![1.0, -2.5, 0.2, 32.0, f32::MAX, f32::MIN_POSITIVE];
    let mut expected: Vec<u8> = Vec::new();
    for v in values.iter() {
        expected.extend_from_slice(&v.to_le_bytes());
    }
    let image = words_into_bytes(&bits(&values));
    assert_eq!(image.len(), 4 * values.len());
    assert_eq!(image, expected);
}

#[test]
fn halves_are_laid_out_least_significant_byte_first() {
    assert_eq!(halves_into_bytes(&vec![0x0201, 0xFFFE, 0]), vec![1, 2, 0xFE, 0xFF, 0, 0]);
    let indices: Vec<u16> = vec![0, 1, 2, 65535, 256];
    let mut expected: Vec<u8> = Vec::new();
    for i in indices.iter() {
        expected.extend_from_slice(&i.to_le_bytes());
    }
    assert_eq!(halves_into_bytes(&indices), expected);
}

#[test]
fn constants_are_the_bit_patterns_they_name() {
    assert_eq!(f32::from_bits(ZERO), 0.0);
    assert_eq!(f32::from_bits(ONE), 1.0);
    assert_eq!(f32::from_bits(HALF), 0.5);
    assert_eq!(f32::from_bits(FIFTH), 0.2);
    assert_eq!(f32::from_bits(THIRTY_TWO), 32.0);
    assert_eq!(THIRD, (0.5f32 / 1.5f32).to_bits());
    assert_eq!(TWO_THIRDS, (1.0f32 / 1.5f32).to_bits());
    assert_eq!(MINUS_TWO_THIRDS, (-1.0f32 / 1.5f32).to_bits());
}

#[test]
fn fallback_light_has_the_documented_values() {
    let light = DirectionalLight::fallback();
    let norm = (0.5f32 * 0.5 + 1.0 + 1.0).sqrt();
    assert_eq!(norm, 1.5);
    assert_eq!(f32::from_bits(light.direction.x), 0.5 / norm);
    assert_eq!(f32::from_bits(light.direction.y), -1.0 / norm);
    assert_eq!(f32::from_bits(light.direction.z), 1.0 / norm);
    assert_eq!(light.ambient, Vector3 { x: 0.2f32.to_bits(), y: 0.2f32.to_bits(), z: 0.2f32.to_bits() });
    assert_eq!(light.diffuse, Vector3::splat(0.5f32.to_bits()));
    assert_eq!(light.specular, Vector3::splat(1.0f32.to_bits()));
}

#[test]
fn directional_tells_the_variants_apart() {
    let d = DirectionalLight::fallback();
    assert_eq!(Light::Directional(d).directional(), Some(d));
    let p = PointLight {
        position: Vector3::splat(ONE),
        ambient: Vector3::splat(ZERO),
        diffuse: Vector3::splat(HALF),
        specular: Vector3::splat(ONE),
    };
    assert_eq!(Light::Point(p).directional(), None);
}

#[test]
fn identity_pose_moves_nothing() {
    let pose = Isometry3::identity();
    assert_eq!(pose.translation, Vector3::splat(0.0f32.to_bits()));
    assert_eq!(f32::from_bits(pose.rotation.w), 1.0);
    assert_eq!(f32::from_bits(pose.rotation.i), 0.0);
    assert_eq!(f32::from_bits(pose.rotation.j), 0.0);
    assert_eq!(f32::from_bits(pose.rotation.k), 0.0);
}

#[test]
fn queue_hands_out_increasing_handles() {
    let mut gl = GlQueue::new(5);
    assert_eq!(gl.create_buffer(), 5);
    assert_eq!(gl.create_buffer(), 6);
    assert_eq!(gl.next_buffer, 7);
    let drained = gl.drain();
    assert_eq!(drained, vec![GlCommand::CreateBuffer(5), GlCommand::CreateBuffer(6)]);
    assert!(gl.commands.is_empty());
    assert_eq!(gl.create_buffer(), 7);
}

#[test]
fn upload_order_is_vertices_uvs_normals_indices() {
    let data = triangle(true, true);
    let mut gl = GlQueue::new(0);
    let state = mesh_bind_buffer(&data.vertices, &data.uvs, &data.normals, &data.indices, &mut gl);
    assert_eq!((state.vb, state.uvb, state.nb, state.ib), (0, Some(1), Some(2), 3));
    assert_eq!(gl.next_buffer, 4);
    let expected = vec![
        GlCommand::CreateBuffer(0),
        GlCommand::BindBuffer(BufferKind::Array, 0),
        GlCommand::BufferData(BufferKind::Array, words_into_bytes(&data.vertices)),
        GlCommand::UnbindBuffer(BufferKind::Array),
        GlCommand::CreateBuffer(1),
        GlCommand::BindBuffer(BufferKind::Array, 1),
        GlCommand::BufferData(BufferKind::Array, words_into_bytes(data.uvs.as_ref().unwrap())),
        GlCommand::UnbindBuffer(BufferKind::Array),
        GlCommand::CreateBuffer(2),
        GlCommand::BindBuffer(BufferKind::Array, 2),
        GlCommand::BufferData(BufferKind::Array, words_into_bytes(data.normals.as_ref().unwrap())),
        GlCommand::UnbindBuffer(BufferKind::Array),
        GlCommand::CreateBuffer(3),
        GlCommand::BindBuffer(BufferKind::ElementArray, 3),
        GlCommand::BufferData(BufferKind::ElementArray, vec![0, 0, 1, 0, 2, 0]),
        GlCommand::UnbindBuffer(BufferKind::ElementArray),
    ];
    assert_eq!(gl.commands, expected);
}

#[test]
fn absent_arrays_get_no_buffer() {
    let data = triangle(false, true);
    let mut gl = GlQueue::new(10);
    let state = mesh_bind_buffer(&data.vertices, &data.uvs, &data.normals, &data.indices, &mut gl);
    assert_eq!((state.vb, state.uvb, state.nb, state.ib), (10, None, Some(11), 12));
    assert_eq!(count_creates(&gl.commands), 3);
    assert_eq!(gl.commands.len(), 12);

    let bare = triangle(false, false);
    let mut gl = GlQueue::new(0);
    let state = mesh_bind_buffer(&bare.vertices, &bare.uvs, &bare.normals, &bare.indices, &mut gl);
    assert_eq!((state.vb, state.uvb, state.nb, state.ib), (0, None, None, 1));
    assert_eq!(gl.next_buffer, 2);
}

#[test]
fn bind_wires_position_normal_uv_then_indices() {
    let mut mesh = Mesh::new(triangle(true, true));
    assert!(!mesh.is_prepared());
    let mut gl = GlQueue::new(0);
    mesh.bind(&mut gl, &full_program());
    assert!(mesh.is_prepared());
    let wiring = gl.commands[16..].to_vec();
    assert_eq!(
        wiring,
        vec![
            GlCommand::BindBuffer(BufferKind::Array, 0),
            GlCommand::VertexAttribPointer { location: 0, size: AttributeSize::Three },
            GlCommand::BindBuffer(BufferKind::Array, 2),
            GlCommand::VertexAttribPointer { location: 1, size: AttributeSize::Three },
            GlCommand::BindBuffer(BufferKind::Array, 1),
            GlCommand::VertexAttribPointer { location: 2, size: AttributeSize::Two },
            GlCommand::BindBuffer(BufferKind::ElementArray, 3),
        ]
    );
}

#[test]
fn bind_leaves_out_attributes_the_program_lacks() {
    let mut mesh = Mesh::new(triangle(true, true));
    let mut gl = GlQueue::new(0);
    let program = ShaderProgram { id: 1, vertex_position: Some(4), vertex_normal: None, texture_coord: None };
    mesh.bind(&mut gl, &program);
    assert_eq!(
        gl.commands[16..].to_vec(),
        vec![
            GlCommand::BindBuffer(BufferKind::Array, 0),
            GlCommand::VertexAttribPointer { location: 4, size: AttributeSize::Three },
            GlCommand::BindBuffer(BufferKind::Array, 2),
            GlCommand::BindBuffer(BufferKind::Array, 1),
            GlCommand::BindBuffer(BufferKind::ElementArray, 3),
        ]
    );
}

#[test]
fn buffers_are_created_once_however_often_the_mesh_is_bound() {
    let mut mesh = Mesh::new(triangle(true, false));
    let mut gl = GlQueue::new(0);
    mesh.bind(&mut gl, &full_program());
    assert_eq!(count_creates(&gl.commands), 3);
    assert_eq!(count_uploads(&gl.commands), 3);
    let first = gl.drain();
    assert_eq!(first.len(), 12 + 5);

    mesh.bind(&mut gl, &full_program());
    mesh.prepare(&mut gl);
    mesh.bind(&mut gl, &full_program());
    assert_eq!(count_creates(&gl.commands), 0);
    assert_eq!(count_uploads(&gl.commands), 0);
    assert_eq!(gl.next_buffer, 3);
    assert_eq!(gl.commands.len(), 10);
    assert_eq!(gl.commands[0], GlCommand::BindBuffer(BufferKind::Array, 0));
}

#[test]
fn prepare_alone_uploads_and_is_idempotent() {
    let mut mesh = Mesh::new(triangle(false, false));
    let mut gl = GlQueue::new(0);
    mesh.prepare(&mut gl);
    assert_eq!(gl.commands.len(), 8);
    mesh.prepare(&mut gl);
    assert_eq!(gl.commands.len(), 8);
}

#[test]
fn draw_call_counts_the_indices_after_any_number_of_binds() {
    let mut data = triangle(true, true);
    data.indices = vec![0, 1, 2, 2, 1, 0];
    let mut mesh = Mesh::new(data);
    let mut gl = GlQueue::new(0);
    mesh.render(&mut gl);
    assert_eq!(gl.drain(), vec![GlCommand::DrawElements { count: 6 }]);
    for _ in 0..3 {
        mesh.bind(&mut gl, &full_program());
        let _ = gl.drain();
        mesh.render(&mut gl);
        assert_eq!(gl.drain(), vec![GlCommand::DrawElements { count: 6 }]);
        assert_eq!(mesh.indices().len(), 6);
    }
}
