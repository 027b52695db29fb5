//! The state of one render pass, and what one step of it does.
//!
//! A pass is a run of steps. Each step looks at the pass and at the event
//! that the host reports, issues commands, and moves the pass on. The pass
//! waits for the host exactly once per texture that has to be bound: whether
//! the entity is drawn depends on the outcome.

use vstd::prelude::*;
use crate::gl::{BufferBit, CommandView, GlCommand};
use crate::light::{default_light, DirectionalLight, Light};
use crate::material::{Material, ShaderProgram, Texture};
use crate::mesh::Mesh;
use crate::object::{first_of, ComponentKind, ComponentValue, GameObject};
use crate::value::{Color, FIFTH, ONE, THIRTY_TWO};

verus! {

/// An entity as the engine tracks it. The engine does not keep an entity
/// alive: once its owner has released it, `object` is `None`, and the next
/// pass that ends forgets the entry.
#[derive(Debug)]
pub struct Slot {
    pub id: u64,
    pub object: Option<GameObject>,
}

/// What is bound on the GPU during a pass, the light of the pass, and how
/// often each binding changed.
#[derive(Clone, Copy, Debug, PartialEq, Eq, Structural)]
pub struct EngineContext {
    pub mesh: Option<u64>,
    pub prog: Option<ShaderProgram>,
    pub tex: Option<Texture>,
    pub light: Option<Light>,
    pub switch_mesh: u64,
    pub switch_prog: u64,
    pub switch_tex: u64,
}

/// Where a pass stands.
#[derive(Clone, Copy, Debug, PartialEq, Eq, Structural)]
pub enum PassStage {
    /// Nothing has been issued yet.
    Idle,
    /// Cleared and lit; the entity at the cursor is next.
    Traversing,
    /// A texture bind was issued for the entity at the cursor, and its
    /// outcome is awaited.
    AwaitingTexture,
    Done,
}

/// What the host reports to a step.
#[derive(Clone, Copy, Debug, PartialEq, Eq, Structural)]
pub enum PassEvent {
    /// The commands issued so far have run.
    Tick,
    /// The texture bind that the pass waits for has succeeded or failed.
    TextureBound(bool),
}

/// One render pass: made when a frame begins, stepped until it is done,
/// and then thrown away. `cursor` is the position of the next entity among
/// the tracked ones, `draws` the number of draw calls so far.
#[derive(Clone, Copy, Debug, PartialEq, Eq, Structural)]
pub struct RenderPass {
    pub stage: PassStage,
    pub cursor: usize,
    pub ctx: EngineContext,
    pub draws: u64,
}

/// What a step does.
pub ghost enum Outcome {
    /// The frame was cleared and the light resolved.
    Started,
    /// The pass ended, and released entities were forgotten.
    Finished,
    /// The entity at the cursor was passed over.
    Skipped,
    /// A texture bind was issued for the entity at the cursor.
    Asked,
    /// The entity at the cursor was drawn.
    Drawn,
    /// Nothing.
    Waited,
}

/// The context of a pass that has bound nothing yet.
pub open spec fn fresh_context() -> EngineContext {
    EngineContext {
        mesh: None,
        prog: None,
        tex: None,
        light: None,
        switch_mesh: 0,
        switch_prog: 0,
        switch_tex: 0,
    }
}

/// The commands that clear the frame: colour, depth, then the clear colour
/// `(0.2, 0.2, 0.2, 1)` for the next frame.
pub open spec fn clear_commands() -> Seq<CommandView> {
    seq![
        CommandView::Plain(GlCommand::Clear(BufferBit::Color)),
        CommandView::Plain(GlCommand::Clear(BufferBit::Depth)),
        CommandView::Plain(GlCommand::ClearColor(Color { r: FIFTH, g: FIFTH, b: FIFTH, a: ONE })),
    ]
}

/// The entries whose entity is still alive, in their order.
pub open spec fn live_only(objects: Seq<Slot>) -> Seq<Slot>
    decreases objects.len(),
{
    if objects.len() == 0 {
        Seq::empty()
    } else if objects.last().object is Some {
        live_only(objects.drop_last()).push(objects.last())
    } else {
        live_only(objects.drop_last())
    }
}

/// The first live entity, in tracked order, that has a component of the
/// kind, with the position of its first such component.
pub open spec fn holder_of(objects: Seq<Slot>, kind: ComponentKind) -> Option<(int, int)>
    decreases objects.len(),
{
    if objects.len() == 0 {
        None
    } else {
        match holder_of(objects.drop_last(), kind) {
            Some(found) => Some(found),
            None => match objects.last().object {
                Some(o) => match first_of(o.components@, kind) {
                    Some(c) => Some((objects.len() - 1, c)),
                    None => None,
                },
                None => None,
            },
        }
    }
}

/// The light of a frame: the first light component that any live entity
/// has, or the fallback light where there is none.
pub open spec fn resolved_light(objects: Seq<Slot>) -> Light {
    match holder_of(objects, ComponentKind::Light) {
        Some((e, c)) => objects[e].object->Some_0.components@[c].value->Light_0,
        None => Light::Directional(default_light()),
    }
}

/// Whether an entity is drawn: it has both a material and a mesh.
pub open spec fn drawable(o: GameObject) -> bool {
    first_of(o.components@, ComponentKind::Material) is Some && first_of(
        o.components@,
        ComponentKind::Mesh,
    ) is Some
}

/// Whether a tracked entity is alive and drawn.
pub open spec fn tracked_drawable(t: Slot) -> bool {
    t.object is Some && drawable(t.object->Some_0)
}

/// The first material of an entity.
pub open spec fn material_of(o: GameObject) -> Material {
    o.components@[first_of(o.components@, ComponentKind::Material)->Some_0].value->Material_0
}

/// The position of the first mesh of an entity.
pub open spec fn mesh_position(o: GameObject) -> int {
    first_of(o.components@, ComponentKind::Mesh)->Some_0
}

/// The first mesh of an entity.
pub open spec fn mesh_of(o: GameObject) -> Mesh {
    o.components@[mesh_position(o)].value->Mesh_0
}

/// The identity of the first mesh component of an entity.
pub open spec fn mesh_id_of(o: GameObject) -> u64 {
    o.components@[mesh_position(o)].id
}

impl EngineContext {
    /// Whether the program is another resource than the bound one.
    pub open spec fn spec_need_prepare_program(&self, prog: ShaderProgram) -> bool {
        self.prog is None || self.prog->Some_0.id != prog.id
    }

    /// Whether the texture is another resource than the bound one.
    pub open spec fn spec_need_prepare_texture(&self, tex: Texture) -> bool {
        self.tex is None || self.tex->Some_0.id != tex.id
    }

    /// Whether the mesh with this identity is another than the bound one.
    pub open spec fn spec_need_prepare_mesh(&self, mesh: u64) -> bool {
        self.mesh is None || self.mesh->Some_0 != mesh
    }

    /// The directional light that draw calls of this pass are lit by.
    pub open spec fn lighting(&self) -> DirectionalLight {
        match self.light {
            Some(l) => l.effective(),
            None => default_light(),
        }
    }

    /// The context after the material's program was made current.
    pub open spec fn after_program(self, m: Material) -> EngineContext {
        if self.spec_need_prepare_program(m.program) {
            EngineContext {
                prog: Some(m.program),
                switch_prog: (self.switch_prog + 1) as u64,
                ..self
            }
        } else {
            self
        }
    }

    /// The context after the material's texture was bound.
    pub open spec fn after_texture(self, m: Material) -> EngineContext {
        EngineContext { tex: Some(m.texture), switch_tex: (self.switch_tex + 1) as u64, ..self }
    }

    /// The context after the entity was drawn.
    pub open spec fn after_object(self, o: GameObject) -> EngineContext {
        EngineContext {
            mesh: Some(mesh_id_of(o)),
            switch_mesh: if self.spec_need_prepare_mesh(mesh_id_of(o)) {
                (self.switch_mesh + 1) as u64
            } else {
                self.switch_mesh
            },
            ..self
        }
    }

    pub fn new() -> (ctx: EngineContext)
        ensures
            ctx == fresh_context(),
    {
        EngineContext {
            mesh: None,
            prog: None,
            tex: None,
            light: None,
            switch_mesh: 0,
            switch_prog: 0,
            switch_tex: 0,
        }
    }

    /// Whether the program has to be bound: nothing is bound yet, or
    /// another resource is.
    pub fn need_prepare_program(&self, prog: &ShaderProgram) -> (need: bool)
        ensures
            need == self.spec_need_prepare_program(*prog),
    {
        match self.prog {
            None => true,
            Some(p) => p.id != prog.id,
        }
    }

    /// Whether the texture has to be bound: nothing is bound yet, or
    /// another resource is.
    pub fn need_prepare_texture(&self, tex: &Texture) -> (need: bool)
        ensures
            need == self.spec_need_prepare_texture(*tex),
    {
        match self.tex {
            None => true,
            Some(t) => t.id != tex.id,
        }
    }

    /// Whether the mesh has to be bound: nothing is bound yet, or another
    /// mesh is.
    pub fn need_prepare_mesh(&self, mesh: u64) -> (need: bool)
        ensures
            need == self.spec_need_prepare_mesh(mesh),
    {
        match self.mesh {
            None => true,
            Some(m) => m != mesh,
        }
    }
}

/// The commands that make the material's program current: a bind where
/// another program is bound, nothing otherwise.
pub open spec fn program_commands(ctx: EngineContext, m: Material) -> Seq<CommandView> {
    if ctx.spec_need_prepare_program(m.program) {
        seq![CommandView::Plain(GlCommand::BindProgram(m.program.id))]
    } else {
        Seq::empty()
    }
}

/// The command that binds the material's texture for the current program.
pub open spec fn texture_request(ctx: EngineContext, m: Material) -> CommandView {
    CommandView::Plain(
        GlCommand::BindTexture { texture: m.texture.id, program: ctx.prog->Some_0.id },
    )
}

/// The commands that the material issues before its entity can be drawn:
/// the program bind if needed, then the texture bind if needed.
pub open spec fn material_commands(ctx: EngineContext, m: Material) -> Seq<CommandView> {
    let bound = ctx.after_program(m);
    if bound.spec_need_prepare_texture(m.texture) {
        program_commands(ctx, m).push(texture_request(bound, m))
    } else {
        program_commands(ctx, m)
    }
}

/// The commands that draw an entity: shininess, transforms and light for
/// the current program, the mesh binding where another mesh is bound, the
/// commit, and the draw call. The shininess is always 32, whatever the
/// material holds.
pub open spec fn object_commands(ctx: EngineContext, entity: u64, o: GameObject, next: u64) -> Seq<
    CommandView,
> {
    let program = ctx.prog->Some_0;
    seq![
        CommandView::Plain(GlCommand::SetShininess { program: program.id, bits: THIRTY_TWO }),
        CommandView::Plain(GlCommand::SetTransforms { program: program.id, object: entity }),
        CommandView::Plain(
            GlCommand::SetDirectionalLight { program: program.id, light: ctx.lighting() },
        ),
    ] + (if ctx.spec_need_prepare_mesh(mesh_id_of(o)) {
        mesh_of(o).bind_commands(next, program)
    } else {
        Seq::empty()
    }) + seq![CommandView::Plain(GlCommand::Commit(program.id)), mesh_of(o).draw_command()]
}

/// The handle that is free after an entity was drawn.
pub open spec fn next_after_object(ctx: EngineContext, o: GameObject, next: u64) -> int {
    if ctx.spec_need_prepare_mesh(mesh_id_of(o)) {
        mesh_of(o).prepared_next(next)
    } else {
        next as int
    }
}

/// How drawing changes an entity: where its mesh had to be bound, the mesh
/// is prepared; nothing else changes.
pub open spec fn object_drawn(before: GameObject, after: GameObject, ctx: EngineContext, next: u64) -> bool {
    &&& after.transform == before.transform
    &&& after.scale == before.scale
    &&& after.components@.len() == before.components@.len()
    &&& forall|j: int|
        0 <= j < before.components@.len() && j != mesh_position(before)
            ==> after.components@[j] == before.components@[j]
    &&& after.components@[mesh_position(before)].id == mesh_id_of(before)
    &&& after.components@[mesh_position(before)].value == ComponentValue::Mesh(
        if ctx.spec_need_prepare_mesh(mesh_id_of(before)) {
            mesh_of(before).prepared(next)
        } else {
            mesh_of(before)
        },
    )
}

impl RenderPass {
    /// The counters of a pass are bounded by the number of entities that it
    /// has passed, and a pass that waits for a texture has a program bound.
    pub open spec fn wf(&self) -> bool {
        match self.stage {
            PassStage::Idle => true,
            PassStage::Done => true,
            PassStage::Traversing => {
                &&& self.ctx.switch_prog <= self.cursor
                &&& self.ctx.switch_tex <= self.cursor
                &&& self.ctx.switch_mesh <= self.cursor
                &&& self.draws <= self.cursor
            },
            PassStage::AwaitingTexture => {
                &&& self.cursor < usize::MAX
                &&& self.ctx.prog is Some
                &&& self.ctx.switch_prog <= self.cursor + 1
                &&& self.ctx.switch_tex <= self.cursor
                &&& self.ctx.switch_mesh <= self.cursor
                &&& self.draws <= self.cursor
            },
        }
    }

    /// A pass that has not begun.
    pub fn new() -> (pass: RenderPass)
        ensures
            pass == (RenderPass {
                stage: PassStage::Idle,
                cursor: 0,
                ctx: fresh_context(),
                draws: 0,
            }),
            pass.wf(),
    {
        RenderPass { stage: PassStage::Idle, cursor: 0, ctx: EngineContext::new(), draws: 0 }
    }

    /// Whether the pass has ended.
    pub fn is_done(&self) -> (done: bool)
        ensures
            done == (self.stage == PassStage::Done),
    {
        self.stage == PassStage::Done
    }

    /// Whether the pass waits for the outcome of a texture bind.
    pub fn awaits_texture(&self) -> (waits: bool)
        ensures
            waits == (self.stage == PassStage::AwaitingTexture),
    {
        self.stage == PassStage::AwaitingTexture
    }
}

/// An entity that shares program and texture with the one drawn before it
/// switches neither: no bind is issued, and no counter changes.
pub proof fn lemma_shared_material_switches_nothing(ctx: EngineContext, m: Material)
    requires
        ctx.prog is Some && ctx.prog->Some_0.id == m.program.id,
        ctx.tex is Some && ctx.tex->Some_0.id == m.texture.id,
    ensures
        ctx.after_program(m) == ctx,
        !ctx.after_program(m).spec_need_prepare_texture(m.texture),
        material_commands(ctx, m) == Seq::<CommandView>::empty(),
{
}

/// An entity whose program is another resource than the bound one switches
/// the program exactly once: one bind is issued first, the counter goes up
/// by one, and the program is then the bound one.
pub proof fn lemma_other_program_switches_once(ctx: EngineContext, m: Material)
    requires
        ctx.spec_need_prepare_program(m.program),
        ctx.switch_prog < u64::MAX,
    ensures
        ctx.after_program(m).switch_prog == ctx.switch_prog + 1,
        ctx.after_program(m).switch_tex == ctx.switch_tex,
        ctx.after_program(m).prog == Some(m.program),
        material_commands(ctx, m)[0] == CommandView::Plain(GlCommand::BindProgram(m.program.id)),
        !ctx.after_program(m).spec_need_prepare_program(m.program),
{
}

/// An entity whose texture is another resource than the bound one issues
/// one texture bind, after the program bind if there is one; once the bind
/// has succeeded the texture counter has gone up by one and the texture is
/// the bound one.
pub proof fn lemma_other_texture_switches_once(ctx: EngineContext, m: Material)
    requires
        ctx.after_program(m).spec_need_prepare_texture(m.texture),
        ctx.switch_tex < u64::MAX,
    ensures
        material_commands(ctx, m).last() == texture_request(ctx.after_program(m), m),
        material_commands(ctx, m).len() == program_commands(ctx, m).len() + 1,
        ctx.after_program(m).after_texture(m).switch_tex == ctx.switch_tex + 1,
        ctx.after_program(m).after_texture(m).switch_prog == ctx.after_program(m).switch_prog,
        !ctx.after_program(m).after_texture(m).spec_need_prepare_texture(m.texture),
{
}

/// The light of a scene without lights is the fallback light.
pub proof fn lemma_default_light(objects: Seq<Slot>)
    requires
        holder_of(objects, ComponentKind::Light) is None,
    ensures
        resolved_light(objects) == Light::Directional(default_light()),
        resolved_light(objects).effective() == default_light(),
{
}

/// After pruning, every tracked entity is alive, and every entry is one
/// that was tracked before.
pub proof fn lemma_live_only(objects: Seq<Slot>)
    ensures
        live_only(objects).len() <= objects.len(),
        forall|i: int|
            0 <= i < live_only(objects).len() ==> (#[trigger] live_only(objects)[i]).object
                is Some,
        forall|i: int|
            0 <= i < live_only(objects).len() ==> objects.contains(#[trigger] live_only(objects)[i]),
        forall|k: int|
            0 <= k < objects.len() && objects[k].object is Some ==> live_only(objects).contains(
                #[trigger] objects[k],
            ),
    decreases objects.len(),
{
    if objects.len() > 0 {
        let front = objects.drop_last();
        lemma_live_only(front);
        let kept = live_only(objects);
        assert forall|i: int| 0 <= i < kept.len() implies objects.contains(#[trigger] kept[i]) by {
            if i < live_only(front).len() {
                assert(front.contains(live_only(front)[i]));
                let k = choose|k: int| 0 <= k < front.len() && front[k] == live_only(front)[i];
                assert(objects[k] == kept[i]);
            } else {
                assert(objects[objects.len() - 1] == kept[i]);
            }
        }
        assert forall|k: int| 0 <= k < objects.len() && objects[k].object is Some implies kept.contains(
            #[trigger] objects[k],
        ) by {
            if k < front.len() {
                assert(front[k] == objects[k]);
                assert(live_only(front).contains(front[k]));
                let i = choose|i: int| 0 <= i < live_only(front).len() && live_only(front)[i] == front[k];
                assert(kept[i] == objects[k]);
            } else {
                assert(kept[kept.len() - 1] == objects[k]);
            }
        }
    }
}

} // verus!
