//! Mesh resources: vertex data on the CPU side, and the GPU buffers that are
//! created for it on first use and kept for as long as the mesh lives.

use vstd::prelude::*;
use crate::bytes::{halves_image, halves_into_bytes, words_image, words_into_bytes};
use crate::gl::{AttributeSize, BufferKind, CommandView, GlCommand, GlQueue};
use crate::material::ShaderProgram;

verus! {

/// Vertex data. `vertices`, `uvs` and `normals` hold single-precision
/// floats as bit patterns.
#[derive(Debug)]
pub struct MeshBuffer {
    pub vertices: Vec<u32>,
    pub uvs: Option<Vec<u32>>,
    pub normals: Option<Vec<u32>>,
    pub indices: Vec<u16>,
}

/// The handles of the GPU buffers of one mesh.
#[derive(Clone, Copy, Debug, PartialEq, Eq, Structural)]
pub struct MeshGLState {
    pub vb: u64,
    pub uvb: Option<u64>,
    pub nb: Option<u64>,
    pub ib: u64,
}

/// A mesh resource. Its GPU buffers are created by the first `prepare` or
/// `bind` and never again.
#[derive(Debug)]
pub struct Mesh {
    pub mesh_buffer: MeshBuffer,
    gl_state: Option<MeshGLState>,
}

/// The commands that create one buffer and fill it: create, bind, upload,
/// unbind.
pub open spec fn upload_commands(kind: BufferKind, handle: u64, image: Seq<u8>) -> Seq<
    CommandView,
> {
    seq![
        CommandView::Plain(GlCommand::CreateBuffer(handle)),
        CommandView::Plain(GlCommand::BindBuffer(kind, handle)),
        CommandView::Upload(kind, image),
        CommandView::Plain(GlCommand::UnbindBuffer(kind)),
    ]
}

/// The commands that upload an optional array, with the handle `handle` if
/// there is one.
pub open spec fn optional_upload_commands(data: Option<Vec<u32>>, handle: u64) -> Seq<
    CommandView,
> {
    match data {
        Some(v) => upload_commands(BufferKind::Array, handle, words_image(v@)),
        None => Seq::empty(),
    }
}

/// How many buffers an optional array takes.
pub open spec fn buffer_count(data: Option<Vec<u32>>) -> int {
    if data is Some {
        1
    } else {
        0
    }
}

/// The handle of an optional array's buffer, where `handle` is the next
/// free one.
pub open spec fn optional_handle(data: Option<Vec<u32>>, handle: u64) -> Option<u64> {
    if data is Some {
        Some(handle)
    } else {
        None
    }
}

/// The buffers that the data gets when `first` is the next free handle:
/// vertices, then uvs, then normals, then indices, each present array
/// taking the next handle.
pub open spec fn materialized_state(
    uvs: Option<Vec<u32>>,
    normals: Option<Vec<u32>>,
    first: u64,
) -> MeshGLState {
    MeshGLState {
        vb: first,
        uvb: optional_handle(uvs, (first + 1) as u64),
        nb: optional_handle(normals, (first + 1 + buffer_count(uvs)) as u64),
        ib: (first + 1 + buffer_count(uvs) + buffer_count(normals)) as u64,
    }
}

/// The commands that materialize the data: one upload each for vertices,
/// uvs if present, normals if present, and indices, in that order.
pub open spec fn materialize_commands(
    vertices: Vec<u32>,
    uvs: Option<Vec<u32>>,
    normals: Option<Vec<u32>>,
    indices: Vec<u16>,
    first: u64,
) -> Seq<CommandView> {
    let state = materialized_state(uvs, normals, first);
    upload_commands(BufferKind::Array, state.vb, words_image(vertices@))
        + optional_upload_commands(uvs, (first + 1) as u64) + optional_upload_commands(
        normals,
        (first + 1 + buffer_count(uvs)) as u64,
    ) + upload_commands(BufferKind::ElementArray, state.ib, halves_image(indices@))
}

/// The command that points an attribute at the bound buffer, or nothing
/// where the program has no such attribute.
pub open spec fn attribute_commands(location: Option<u32>, size: AttributeSize) -> Seq<
    CommandView,
> {
    match location {
        Some(l) => seq![
            CommandView::Plain(GlCommand::VertexAttribPointer { location: l, size }),
        ],
        None => Seq::empty(),
    }
}

/// The commands that bind an optional buffer and wire its attribute.
pub open spec fn optional_wiring_commands(
    buffer: Option<u64>,
    location: Option<u32>,
    size: AttributeSize,
) -> Seq<CommandView> {
    match buffer {
        Some(b) => seq![CommandView::Plain(GlCommand::BindBuffer(BufferKind::Array, b))]
            + attribute_commands(location, size),
        None => Seq::empty(),
    }
}

/// The commands that make materialized buffers current for a program:
/// vertex buffer and position attribute, normal buffer and attribute, uv
/// buffer and attribute, then the index buffer.
pub open spec fn wiring_commands(state: MeshGLState, program: ShaderProgram) -> Seq<CommandView> {
    seq![CommandView::Plain(GlCommand::BindBuffer(BufferKind::Array, state.vb))]
        + attribute_commands(program.vertex_position, AttributeSize::Three)
        + optional_wiring_commands(state.nb, program.vertex_normal, AttributeSize::Three)
        + optional_wiring_commands(state.uvb, program.texture_coord, AttributeSize::Two)
        + seq![CommandView::Plain(GlCommand::BindBuffer(BufferKind::ElementArray, state.ib))]
}

/// Whether a command creates a buffer or uploads data.
pub open spec fn is_upload(c: CommandView) -> bool {
    match c {
        CommandView::Upload(_, _) => true,
        CommandView::Plain(GlCommand::CreateBuffer(_)) => true,
        _ => false,
    }
}

/// Creates one buffer of the kind and fills it with the bytes.
fn upload(gl: &mut GlQueue, kind: BufferKind, bytes: Vec<u8>) -> (handle: u64)
    requires
        old(gl).next_buffer < u64::MAX,
    ensures
        handle == old(gl).next_buffer,
        final(gl).next_buffer == handle + 1,
        final(gl)@ == old(gl)@ + upload_commands(kind, handle, bytes@),
{
    let handle: u64 = gl.create_buffer();
    gl.push(GlCommand::BindBuffer(kind, handle));
    gl.push(GlCommand::BufferData(kind, bytes));
    gl.push(GlCommand::UnbindBuffer(kind));
    assert(gl@ =~= old(gl)@ + upload_commands(kind, handle, bytes@));
    handle
}

/// Creates and fills the buffer of an optional array.
fn upload_optional(gl: &mut GlQueue, data: &Option<Vec<u32>>) -> (handle: Option<u64>)
    requires
        old(gl).next_buffer < u64::MAX,
    ensures
        handle == optional_handle(*data, old(gl).next_buffer),
        final(gl).next_buffer == old(gl).next_buffer + buffer_count(*data),
        final(gl)@ == old(gl)@ + optional_upload_commands(*data, old(gl).next_buffer),
{
    match data {
        Some(v) => {
            let handle: u64 = upload(gl, BufferKind::Array, words_into_bytes(v));
            Some(handle)
        },
        None => {
            assert(gl@ =~= old(gl)@ + optional_upload_commands(*data, old(gl).next_buffer));
            None
        },
    }
}

/// Creates the GPU buffers of a mesh and uploads its data: vertices, uvs
/// if present, normals if present, indices.
pub fn mesh_bind_buffer(
    vertices: &Vec<u32>,
    uvs: &Option<Vec<u32>>,
    normals: &Option<Vec<u32>>,
    indices: &Vec<u16>,
    gl: &mut GlQueue,
) -> (state: MeshGLState)
    requires
        old(gl).next_buffer <= u64::MAX - 4,
    ensures
        state == materialized_state(*uvs, *normals, old(gl).next_buffer),
        final(gl).next_buffer == state.ib + 1,
        final(gl)@ == old(gl)@ + materialize_commands(
            *vertices,
            *uvs,
            *normals,
            *indices,
            old(gl).next_buffer,
        ),
{
    let vertex_buffer: u64 = upload(gl, BufferKind::Array, words_into_bytes(vertices));
    let uv_buffer: Option<u64> = upload_optional(gl, uvs);
    let normal_buffer: Option<u64> = upload_optional(gl, normals);
    let index_buffer: u64 = upload(gl, BufferKind::ElementArray, halves_into_bytes(indices));
    assert(gl@ =~= old(gl)@ + materialize_commands(
        *vertices,
        *uvs,
        *normals,
        *indices,
        old(gl).next_buffer,
    ));
    MeshGLState { vb: vertex_buffer, uvb: uv_buffer, nb: normal_buffer, ib: index_buffer }
}

/// Binds an optional buffer and wires its attribute.
fn wire_optional(
    gl: &mut GlQueue,
    buffer: Option<u64>,
    location: Option<u32>,
    size: AttributeSize,
)
    ensures
        final(gl).next_buffer == old(gl).next_buffer,
        final(gl)@ == old(gl)@ + optional_wiring_commands(buffer, location, size),
{
    if let Some(b) = buffer {
        gl.push(GlCommand::BindBuffer(BufferKind::Array, b));
        wire_attribute(gl, location, size);
    }
    assert(gl@ =~= old(gl)@ + optional_wiring_commands(buffer, location, size));
}

/// Points an attribute at the bound buffer, if the program has it.
fn wire_attribute(gl: &mut GlQueue, location: Option<u32>, size: AttributeSize)
    ensures
        final(gl).next_buffer == old(gl).next_buffer,
        final(gl)@ == old(gl)@ + attribute_commands(location, size),
{
    if let Some(l) = location {
        gl.push(GlCommand::VertexAttribPointer { location: l, size });
    }
    assert(gl@ =~= old(gl)@ + attribute_commands(location, size));
}

impl Mesh {
    /// The vertex data of the mesh.
    pub closed spec fn data(&self) -> MeshBuffer {
        self.mesh_buffer
    }

    /// The mesh as it is once prepared with `next` as the next free handle:
    /// the same data, with its buffers.
    pub closed spec fn prepared(&self, next: u64) -> Mesh {
        Mesh { mesh_buffer: self.mesh_buffer, gl_state: Some(self.prepared_state(next)) }
    }

    /// A prepared mesh keeps its data and has the buffers that preparing
    /// gives it.
    pub proof fn lemma_prepared(&self, next: u64)
        ensures
            self.prepared(next).data() == self.data(),
            self.prepared(next).gl_state() == Some(self.prepared_state(next)),
            self.gl_state() is Some ==> self.prepared(next) == *self,
    {
    }

    /// The GPU buffers of the mesh, once they exist.
    pub closed spec fn gl_state(&self) -> Option<MeshGLState> {
        self.gl_state
    }

    /// The buffers of the mesh after it is prepared with `next` as the next
    /// free handle.
    pub open spec fn prepared_state(&self, next: u64) -> MeshGLState {
        match self.gl_state() {
            Some(s) => s,
            None => materialized_state(self.data().uvs, self.data().normals, next),
        }
    }

    /// The handle that is free after the mesh is prepared.
    pub open spec fn prepared_next(&self, next: u64) -> int {
        match self.gl_state() {
            Some(_) => next as int,
            None => self.prepared_state(next).ib + 1,
        }
    }

    /// The commands that preparing issues: the uploads on first use,
    /// nothing afterwards.
    pub open spec fn prepare_commands(&self, next: u64) -> Seq<CommandView> {
        match self.gl_state() {
            Some(_) => Seq::empty(),
            None => materialize_commands(
                self.data().vertices,
                self.data().uvs,
                self.data().normals,
                self.data().indices,
                next,
            ),
        }
    }

    /// The commands that binding issues.
    pub open spec fn bind_commands(&self, next: u64, program: ShaderProgram) -> Seq<CommandView> {
        self.prepare_commands(next) + wiring_commands(self.prepared_state(next), program)
    }

    /// The command that drawing issues.
    pub open spec fn draw_command(&self) -> CommandView {
        CommandView::Plain(GlCommand::DrawElements { count: self.data().indices@.len() as usize })
    }

    /// A mesh with no GPU buffers yet.
    pub fn new(mesh_buffer: MeshBuffer) -> (mesh: Mesh)
        ensures
            mesh.data() == mesh_buffer,
            mesh.gl_state() is None,
    {
        Mesh { mesh_buffer, gl_state: None }
    }

    /// Whether the GPU buffers exist.
    pub fn is_prepared(&self) -> (b: bool)
        ensures
            b == (self.gl_state() is Some),
    {
        self.gl_state.is_some()
    }

    /// Makes the mesh current for the program: prepares it, binds the
    /// vertex buffer and wires the position attribute, does the same for
    /// normals and uvs where the mesh has them, and binds the index buffer.
    /// An attribute that the program does not have is left out.
    pub fn bind(&mut self, gl: &mut GlQueue, program: &ShaderProgram)
        requires
            old(self).gl_state() is None ==> old(gl).next_buffer <= u64::MAX - 4,
        ensures
            *final(self) == old(self).prepared(old(gl).next_buffer),
            final(gl).next_buffer == old(self).prepared_next(old(gl).next_buffer),
            final(gl)@ == old(gl)@ + old(self).bind_commands(old(gl).next_buffer, *program),
    {
        self.prepare(gl);
        let state: MeshGLState = match self.gl_state {
            Some(s) => s,
            None => { return ; },
        };
        gl.push(GlCommand::BindBuffer(BufferKind::Array, state.vb));
        wire_attribute(gl, program.vertex_position, AttributeSize::Three);
        wire_optional(gl, state.nb, program.vertex_normal, AttributeSize::Three);
        wire_optional(gl, state.uvb, program.texture_coord, AttributeSize::Two);
        gl.push(GlCommand::BindBuffer(BufferKind::ElementArray, state.ib));
        assert(gl@ =~= old(gl)@ + old(self).bind_commands(old(gl).next_buffer, *program));
    }

    /// Draws the mesh as an indexed triangle list, with as many indices as
    /// the mesh holds.
    pub fn render(&self, gl: &mut GlQueue)
        ensures
            final(gl).next_buffer == old(gl).next_buffer,
            final(gl)@ == old(gl)@.push(self.draw_command()),
    {
        gl.push(GlCommand::DrawElements { count: self.indices().len() });
    }

    /// The indices of the mesh.
    pub fn indices(&self) -> (indices: &Vec<u16>)
        ensures
            *indices == self.data().indices,
    {
        &self.mesh_buffer.indices
    }

    /// Creates the GPU buffers and uploads the data if that has never been
    /// done for this mesh; does nothing otherwise.
    pub fn prepare(&mut self, gl: &mut GlQueue)
        requires
            old(self).gl_state() is None ==> old(gl).next_buffer <= u64::MAX - 4,
        ensures
            *final(self) == old(self).prepared(old(gl).next_buffer),
            final(gl).next_buffer == old(self).prepared_next(old(gl).next_buffer),
            final(gl)@ == old(gl)@ + old(self).prepare_commands(old(gl).next_buffer),
    {
        if self.gl_state.is_none() {
            let state: MeshGLState = mesh_bind_buffer(
                &self.mesh_buffer.vertices,
                &self.mesh_buffer.uvs,
                &self.mesh_buffer.normals,
                &self.mesh_buffer.indices,
                gl,
            );
            self.gl_state = Some(state);
        } else {
            assert(gl@ =~= old(gl)@ + old(self).prepare_commands(old(gl).next_buffer));
        }
    }
}

/// Preparing is idempotent: a mesh that has been prepared or bound issues
/// no creation and no upload when it is prepared again, and keeps its
/// buffers.
pub proof fn lemma_prepare_once(mesh: Mesh, later: u64)
    requires
        mesh.gl_state() is Some,
    ensures
        mesh.prepare_commands(later) == Seq::<CommandView>::empty(),
        mesh.prepared_state(later) == mesh.gl_state().unwrap(),
        mesh.prepared_next(later) == later,
{
}

/// Binding a mesh whose buffers exist creates nothing and uploads nothing:
/// none of its commands creates a buffer or carries data.
pub proof fn lemma_rebind_uploads_nothing(mesh: Mesh, next: u64, program: ShaderProgram)
    requires
        mesh.gl_state() is Some,
    ensures
        forall|i: int|
            0 <= i < mesh.bind_commands(next, program).len() ==> !is_upload(
                #[trigger] mesh.bind_commands(next, program)[i],
            ),
{
}

/// The first binding of a mesh creates one buffer for each array that the
/// mesh has, and takes that many handles.
pub proof fn lemma_first_bind_creates_each_buffer(mesh: Mesh, next: u64)
    requires
        mesh.gl_state() is None,
        next <= u64::MAX - 4,
    ensures
        mesh.prepared_next(next) == next + 2 + buffer_count(mesh.data().uvs) + buffer_count(mesh.data().normals),
        mesh.prepare_commands(next).len() == 4 * (2 + buffer_count(mesh.data().uvs)
            + buffer_count(mesh.data().normals)),
{
}

} // verus!
