//! The graphics commands that the engine issues, and the queue that records
//! them in the order in which they must run.

use vstd::prelude::*;
use crate::light::DirectionalLight;
use crate::value::Color;

verus! {

#[derive(Clone, Copy, Debug, PartialEq, Eq, Structural)]
pub enum BufferBit {
    Depth,
    Stencil,
    Color,
}

#[derive(Clone, Copy, Debug, PartialEq, Eq, Structural)]
pub enum Flag {
    Blend,
    DepthTest,
}

#[derive(Clone, Copy, Debug, PartialEq, Eq, Structural)]
pub enum BlendMode {
    Zero,
    One,
    SrcAlpha,
    OneMinusSrcAlpha,
}

#[derive(Clone, Copy, Debug, PartialEq, Eq, Structural)]
pub enum BufferKind {
    Array,
    ElementArray,
}

#[derive(Clone, Copy, Debug, PartialEq, Eq, Structural)]
pub enum AttributeSize {
    One,
    Two,
    Three,
    Four,
}

/// One graphics command.
#[derive(Clone, Debug, PartialEq, Eq)]
pub enum GlCommand {
    Clear(BufferBit),
    ClearColor(Color),
    Enable(Flag),
    BlendFunc(BlendMode, BlendMode),
    Viewport { x: i32, y: i32, width: u32, height: u32 },
    /// Creates the buffer that later commands know by this handle.
    CreateBuffer(u64),
    BindBuffer(BufferKind, u64),
    /// Uploads the bytes, for static drawing, to the buffer bound to the kind.
    BufferData(BufferKind, Vec<u8>),
    UnbindBuffer(BufferKind),
    /// Points the attribute at the bound array buffer: tightly packed
    /// floats, not normalised, from offset zero.
    VertexAttribPointer { location: u32, size: AttributeSize },
    /// Draws a triangle list from `count` 16-bit indices, from offset zero.
    DrawElements { count: usize },
    BindProgram(u64),
    /// Binds the texture for the program. The only command with an outcome
    /// that the engine waits for.
    BindTexture { texture: u64, program: u64 },
    SetShininess { program: u64, bits: u32 },
    /// Sets the model-view, projection, normal and model matrices and the
    /// view position, for the object with this identity under the main
    /// camera.
    SetTransforms { program: u64, object: u64 },
    SetDirectionalLight { program: u64, light: DirectionalLight },
    /// Flushes the pending uniform writes of the program.
    Commit(u64),
}

/// What a command says: the command itself, with uploaded bytes as a
/// sequence.
pub ghost enum CommandView {
    Upload(BufferKind, Seq<u8>),
    Plain(GlCommand),
}

impl GlCommand {
    pub open spec fn view(&self) -> CommandView {
        match *self {
            GlCommand::BufferData(kind, bytes) => CommandView::Upload(kind, bytes@),
            c => CommandView::Plain(c),
        }
    }
}

/// The views of a run of commands.
pub open spec fn views(commands: Seq<GlCommand>) -> Seq<CommandView> {
    commands.map_values(|c: GlCommand| c.view())
}

/// Commands in the order in which they were issued, and the handle that the
/// next buffer will get.
pub struct GlQueue {
    pub commands: Vec<GlCommand>,
    pub next_buffer: u64,
}

impl GlQueue {
    /// The commands issued so far.
    pub open spec fn view(&self) -> Seq<CommandView> {
        views(self.commands@)
    }

    /// An empty queue whose first buffer will get the handle `next_buffer`.
    pub fn new(next_buffer: u64) -> (q: GlQueue)
        ensures
            q@ == Seq::<CommandView>::empty(),
            q.next_buffer == next_buffer,
    {
        let q = GlQueue { commands: Vec::new(), next_buffer };
        assert(q@ =~= Seq::<CommandView>::empty());
        q
    }

    /// Appends one command.
    pub fn push(&mut self, command: GlCommand)
        ensures
            final(self)@ == old(self)@.push(command.view()),
            final(self).next_buffer == old(self).next_buffer,
    {
        self.commands.push(command);
        assert(self@ =~= old(self)@.push(command.view()));
    }

    /// Issues the creation of a buffer and returns its handle. Handles are
    /// given out in increasing order and never twice.
    pub fn create_buffer(&mut self) -> (handle: u64)
        requires
            old(self).next_buffer < u64::MAX,
        ensures
            handle == old(self).next_buffer,
            final(self).next_buffer == handle + 1,
            final(self)@ == old(self)@.push(CommandView::Plain(GlCommand::CreateBuffer(handle))),
    {
        let handle: u64 = self.next_buffer;
        self.push(GlCommand::CreateBuffer(handle));
        self.next_buffer = handle + 1;
        handle
    }

    /// Hands out the recorded commands and leaves the queue empty; buffer
    /// handles go on from where they were.
    pub fn drain(&mut self) -> (commands: Vec<GlCommand>)
        ensures
            views(commands@) == old(self)@,
            final(self)@ == Seq::<CommandView>::empty(),
            final(self).next_buffer == old(self).next_buffer,
    {
        let mut taken: Vec<GlCommand> = Vec::new();
        std::mem::swap(&mut self.commands, &mut taken);
        assert(self@ =~= Seq::<CommandView>::empty());
        taken
    }
}

} // verus!
