//! The engine: the entities it tracks, the main camera, and the render pass
//! that walks the entities and issues only the bindings that changed.

use vstd::prelude::*;
use crate::gl::{BlendMode, BufferBit, CommandView, Flag, GlCommand, GlQueue};
use crate::light::{default_light, DirectionalLight, Light};
use crate::material::Material;
use crate::object::{
    first_of, lemma_first_of, Component, ComponentKind, ComponentValue, GameObject,
};
use crate::pass::{
    clear_commands, drawable, fresh_context, holder_of, live_only, material_commands, material_of,
    lemma_live_only, mesh_id_of, mesh_of, next_after_object, object_commands, object_drawn, resolved_light,
    tracked_drawable, EngineContext, Outcome, PassEvent, PassStage, RenderPass, Slot,
};
use crate::value::{Camera, Color, Isometry3, Vector3, FIFTH, HALF, ONE, THIRTY_TWO};

verus! {

/// The engine: the command queue, the main camera if one is set, the
/// tracked entities in the order of their creation, and the next identity
/// to give out. Entities and components draw their identities from the
/// same counter.
pub struct Engine {
    pub gl: GlQueue,
    pub main_camera: Option<Camera>,
    pub objects: Vec<Slot>,
    pub next_id: u64,
}

/// What an application needs of an engine to build a scene.
pub trait IEngine {
    /// Whether an identity is left for a new entity.
    spec fn can_create(&self) -> bool;

    /// The identities of the tracked entities, in tracked order.
    spec fn tracked_ids(&self) -> Seq<u64>;

    /// Creates an entity and tracks it after those tracked so far.
    fn new_gameobject(&mut self) -> (id: u64)
        requires
            old(self).can_create(),
        ensures
            final(self).tracked_ids() == old(self).tracked_ids().push(id),
    ;
}

/// The commands that set up a fresh graphics context for a framebuffer of
/// the given size.
pub open spec fn setup_commands(size: (u32, u32)) -> Seq<CommandView> {
    seq![
        CommandView::Plain(GlCommand::ClearColor(Color { r: HALF, g: HALF, b: HALF, a: ONE })),
        CommandView::Plain(GlCommand::Enable(Flag::DepthTest)),
        CommandView::Plain(GlCommand::Enable(Flag::Blend)),
        CommandView::Plain(GlCommand::Clear(BufferBit::Color)),
        CommandView::Plain(GlCommand::Clear(BufferBit::Depth)),
        CommandView::Plain(GlCommand::BlendFunc(BlendMode::SrcAlpha, BlendMode::OneMinusSrcAlpha)),
        CommandView::Plain(GlCommand::Viewport { x: 0, y: 0, width: size.0, height: size.1 }),
    ]
}

/// The position of the first live entity with the identity.
pub open spec fn slot_of(objects: Seq<Slot>, id: u64) -> Option<int>
    decreases objects.len(),
{
    if objects.len() == 0 {
        None
    } else {
        match slot_of(objects.drop_last(), id) {
            Some(i) => Some(i),
            None => if objects.last().id == id && objects.last().object is Some {
                Some(objects.len() - 1)
            } else {
                None
            },
        }
    }
}

/// `slot_of` finds a live entity with the identity that has none such
/// before it, and finds nothing only where there is none.
pub proof fn lemma_slot_of(objects: Seq<Slot>, id: u64)
    ensures
        match slot_of(objects, id) {
            Some(i) => {
                &&& 0 <= i < objects.len()
                &&& objects[i].id == id
                &&& objects[i].object is Some
                &&& forall|j: int|
                    0 <= j < i ==> !((#[trigger] objects[j]).id == id && objects[j].object is Some)
            },
            None => forall|j: int|
                0 <= j < objects.len() ==> !((#[trigger] objects[j]).id == id
                    && objects[j].object is Some),
        },
    decreases objects.len(),
{
    if objects.len() > 0 {
        let front = objects.drop_last();
        lemma_slot_of(front, id);
        assert(forall|j: int| 0 <= j < front.len() ==> front[j] == objects[j]);
    }
}

/// What is found in a prefix is what is found in the whole.
proof fn lemma_slot_of_prefix(objects: Seq<Slot>, id: u64, n: int)
    requires
        0 <= n <= objects.len(),
        slot_of(objects.take(n), id) is Some,
    ensures
        slot_of(objects, id) == slot_of(objects.take(n), id),
    decreases objects.len() - n,
{
    if n < objects.len() {
        assert(objects.take(n + 1).drop_last() =~= objects.take(n));
        lemma_slot_of_prefix(objects, id, n + 1);
    } else {
        assert(objects.take(n) =~= objects);
    }
}

/// What is found in a prefix is what is found in the whole.
proof fn lemma_holder_of_prefix(objects: Seq<Slot>, kind: ComponentKind, n: int)
    requires
        0 <= n <= objects.len(),
        holder_of(objects.take(n), kind) is Some,
    ensures
        holder_of(objects, kind) == holder_of(objects.take(n), kind),
    decreases objects.len() - n,
{
    if n < objects.len() {
        assert(objects.take(n + 1).drop_last() =~= objects.take(n));
        lemma_holder_of_prefix(objects, kind, n + 1);
    } else {
        assert(objects.take(n) =~= objects);
    }
}

/// The material of a tracked entity that is alive and has both a material
/// and a mesh; `None` for any other.
pub fn drawable_material(slot: &Slot) -> (material: Option<Material>)
    ensures
        material.is_some() == tracked_drawable(*slot),
        material matches Some(m) ==> m == material_of(slot.object->Some_0),
{
    match &slot.object {
        None => None,
        Some(object) => {
            let mesh: Option<usize> = object.find_component(ComponentKind::Mesh);
            let found: Option<usize> = object.find_component(ComponentKind::Material);
            match found {
                None => None,
                Some(i) => {
                    proof {
                        lemma_first_of(object.components@, ComponentKind::Material);
                    }
                    match &object.components[i].value {
                        ComponentValue::Material(m) => if mesh.is_some() {
                            Some(*m)
                        } else {
                            None
                        },
                        _ => None,
                    }
                },
            }
        },
    }
}

impl Engine {
    /// What a step of the pass does, given the event.
    pub open spec fn outcome(&self, pass: RenderPass, event: PassEvent) -> Outcome {
        let objects = self.objects@;
        let at_entity = pass.cursor < objects.len() && tracked_drawable(objects[pass.cursor as int]);
        match pass.stage {
            PassStage::Idle => if self.main_camera is None {
                Outcome::Finished
            } else {
                Outcome::Started
            },
            PassStage::Done => Outcome::Waited,
            PassStage::Traversing => if pass.cursor >= objects.len() {
                Outcome::Finished
            } else if !at_entity {
                Outcome::Skipped
            } else {
                let m = material_of(objects[pass.cursor as int].object->Some_0);
                if pass.ctx.after_program(m).spec_need_prepare_texture(m.texture) {
                    Outcome::Asked
                } else {
                    Outcome::Drawn
                }
            },
            PassStage::AwaitingTexture => match event {
                PassEvent::Tick => Outcome::Waited,
                PassEvent::TextureBound(ok) => if ok && at_entity {
                    Outcome::Drawn
                } else {
                    Outcome::Skipped
                },
            },
        }
    }

    /// The entity at the cursor.
    pub open spec fn current(&self, pass: RenderPass) -> GameObject {
        self.objects@[pass.cursor as int].object->Some_0
    }

    /// The context with which the entity at the cursor is drawn: with its
    /// program bound, and with its texture bound where the pass waited for
    /// that.
    pub open spec fn draw_context(&self, pass: RenderPass) -> EngineContext {
        let m = material_of(self.current(pass));
        if pass.stage == PassStage::AwaitingTexture {
            pass.ctx.after_texture(m)
        } else {
            pass.ctx.after_program(m)
        }
    }

    /// The pass after a step.
    pub open spec fn pass_after(&self, pass: RenderPass, event: PassEvent) -> RenderPass {
        match self.outcome(pass, event) {
            Outcome::Started => RenderPass {
                stage: PassStage::Traversing,
                cursor: 0,
                ctx: EngineContext { light: Some(resolved_light(self.objects@)), ..fresh_context() },
                draws: 0,
            },
            Outcome::Finished => if pass.stage == PassStage::Idle {
                RenderPass { stage: PassStage::Done, cursor: 0, ctx: fresh_context(), draws: 0 }
            } else {
                RenderPass { stage: PassStage::Done, ..pass }
            },
            Outcome::Skipped => RenderPass {
                stage: PassStage::Traversing,
                cursor: (pass.cursor + 1) as usize,
                ..pass
            },
            Outcome::Asked => RenderPass {
                stage: PassStage::AwaitingTexture,
                ctx: pass.ctx.after_program(material_of(self.current(pass))),
                ..pass
            },
            Outcome::Drawn => RenderPass {
                stage: PassStage::Traversing,
                cursor: (pass.cursor + 1) as usize,
                ctx: self.draw_context(pass).after_object(self.current(pass)),
                draws: (pass.draws + 1) as u64,
            },
            Outcome::Waited => pass,
        }
    }

    /// The commands that a step issues.
    pub open spec fn commands_after(&self, pass: RenderPass, event: PassEvent) -> Seq<CommandView> {
        let before = if pass.stage == PassStage::Idle {
            clear_commands()
        } else if pass.stage == PassStage::Traversing && pass.cursor < self.objects@.len()
            && tracked_drawable(self.objects@[pass.cursor as int]) {
            material_commands(pass.ctx, material_of(self.current(pass)))
        } else {
            Seq::empty()
        };
        match self.outcome(pass, event) {
            Outcome::Drawn => before + object_commands(
                self.draw_context(pass),
                self.objects@[pass.cursor as int].id,
                self.current(pass),
                self.gl.next_buffer,
            ),
            _ => before,
        }
    }

    /// The tracked entities after a step: at the end of a pass the released
    /// ones are forgotten; a draw prepares the mesh of the entity at the
    /// cursor where it had to be bound; nothing else changes.
    pub open spec fn objects_after(&self, pass: RenderPass, event: PassEvent, after: Seq<Slot>) -> bool {
        match self.outcome(pass, event) {
            Outcome::Finished => after == live_only(self.objects@),
            Outcome::Drawn => {
                &&& after.len() == self.objects@.len()
                &&& forall|k: int|
                    0 <= k < after.len() && k != pass.cursor ==> after[k] == self.objects@[k]
                &&& after[pass.cursor as int].id == self.objects@[pass.cursor as int].id
                &&& after[pass.cursor as int].object is Some
                &&& object_drawn(
                    self.current(pass),
                    after[pass.cursor as int].object->Some_0,
                    self.draw_context(pass),
                    self.gl.next_buffer,
                )
            },
            _ => after == self.objects@,
        }
    }

    /// The buffer handle that is free after a step.
    pub open spec fn next_buffer_after(&self, pass: RenderPass, event: PassEvent) -> int {
        match self.outcome(pass, event) {
            Outcome::Drawn => next_after_object(
                self.draw_context(pass),
                self.current(pass),
                self.gl.next_buffer,
            ),
            _ => self.gl.next_buffer as int,
        }
    }

    /// An engine without entities or camera, whose queue holds the commands
    /// that set up the graphics context for a framebuffer of the size.
    pub fn new(size: (u32, u32)) -> (engine: Engine)
        ensures
            engine.gl@ == setup_commands(size),
            engine.gl.next_buffer == 0,
            engine.main_camera is None,
            engine.objects@.len() == 0,
            engine.next_id == 0,
    {
        let mut gl = GlQueue::new(0);
        gl.push(GlCommand::ClearColor(Color { r: HALF, g: HALF, b: HALF, a: ONE }));
        gl.push(GlCommand::Enable(Flag::DepthTest));
        gl.push(GlCommand::Enable(Flag::Blend));
        gl.push(GlCommand::Clear(BufferBit::Color));
        gl.push(GlCommand::Clear(BufferBit::Depth));
        gl.push(GlCommand::BlendFunc(BlendMode::SrcAlpha, BlendMode::OneMinusSrcAlpha));
        gl.push(GlCommand::Viewport { x: 0, y: 0, width: size.0, height: size.1 });
        assert(gl@ =~= setup_commands(size));
        Engine { gl, main_camera: None, objects: Vec::new(), next_id: 0 }
    }

    /// Clears the colour and depth buffers and sets the clear colour.
    pub fn clear(&mut self)
        ensures
            final(self).gl@ == old(self).gl@ + clear_commands(),
            final(self).gl.next_buffer == old(self).gl.next_buffer,
            final(self).main_camera == old(self).main_camera,
            final(self).objects == old(self).objects,
            final(self).next_id == old(self).next_id,
    {
        self.gl.push(GlCommand::Clear(BufferBit::Color));
        self.gl.push(GlCommand::Clear(BufferBit::Depth));
        self.gl.push(GlCommand::ClearColor(Color { r: FIFTH, g: FIFTH, b: FIFTH, a: ONE }));
        assert(self.gl@ =~= old(self).gl@ + clear_commands());
    }

    /// Begins a frame: the pass of the frame, with nothing issued yet.
    pub fn begin(&mut self) -> (pass: RenderPass)
        ensures
            *final(self) == *old(self),
            pass == (RenderPass {
                stage: PassStage::Idle,
                cursor: 0,
                ctx: fresh_context(),
                draws: 0,
            }),
            pass.wf(),
    {
        RenderPass::new()
    }

    /// Ends a frame. Nothing is left to do: the last step of the pass has
    /// forgotten the released entities.
    pub fn end(&mut self)
        ensures
            *final(self) == *old(self),
    {
    }

    /// Binds the material's program where another is bound, then issues
    /// the bind of its texture where another is bound. Returns whether the
    /// entity can be drawn at once; if not, the outcome of the texture bind
    /// decides.
    pub fn setup_material(gl: &mut GlQueue, ctx: &mut EngineContext, material: &Material) -> (ready:
        bool)
        requires
            old(ctx).switch_prog < u64::MAX,
        ensures
            *final(ctx) == old(ctx).after_program(*material),
            ready == !final(ctx).spec_need_prepare_texture(material.texture),
            final(gl)@ == old(gl)@ + material_commands(*old(ctx), *material),
            final(gl).next_buffer == old(gl).next_buffer,
    {
        if ctx.need_prepare_program(&material.program) {
            gl.push(GlCommand::BindProgram(material.program.id));
            ctx.prog = Some(material.program);
            ctx.switch_prog = ctx.switch_prog + 1;
        }
        let ready: bool = !ctx.need_prepare_texture(&material.texture);
        if !ready {
            let program: u64 = match ctx.prog {
                Some(p) => p.id,
                None => material.program.id,
            };
            gl.push(GlCommand::BindTexture { texture: material.texture.id, program });
        }
        assert(gl@ =~= old(gl)@ + material_commands(*old(ctx), *material));
        ready
    }

    /// Draws an entity with the bound program: sets shininess, transforms
    /// and light, binds the mesh where another is bound, commits the
    /// uniforms and issues the draw call.
    pub fn render_object(gl: &mut GlQueue, ctx: &mut EngineContext, entity: u64, object: &mut GameObject)
        requires
            drawable(*old(object)),
            old(ctx).prog is Some,
            old(ctx).switch_mesh < u64::MAX,
            old(gl).next_buffer <= u64::MAX - 4,
        ensures
            *final(ctx) == old(ctx).after_object(*old(object)),
            object_drawn(*old(object), *final(object), *old(ctx), old(gl).next_buffer),
            final(gl)@ == old(gl)@ + object_commands(
                *old(ctx),
                entity,
                *old(object),
                old(gl).next_buffer,
            ),
            final(gl).next_buffer == next_after_object(*old(ctx), *old(object), old(gl).next_buffer),
    {
        let program = match ctx.prog {
            Some(p) => p,
            None => { return ; },
        };
        let light: DirectionalLight = match ctx.light {
            Some(Light::Directional(d)) => d,
            _ => DirectionalLight::fallback(),
        };
        gl.push(GlCommand::SetShininess { program: program.id, bits: THIRTY_TWO });
        gl.push(GlCommand::SetTransforms { program: program.id, object: entity });
        gl.push(GlCommand::SetDirectionalLight { program: program.id, light });
        proof {
            lemma_first_of(object.components@, ComponentKind::Mesh);
        }
        let position: usize = match object.find_component(ComponentKind::Mesh) {
            Some(i) => i,
            None => { return ; },
        };
        let component = &mut object.components[position];
        let mesh_id: u64 = component.id;
        let rebind: bool = ctx.need_prepare_mesh(mesh_id);
        match &mut component.value {
            ComponentValue::Mesh(mesh) => {
                proof {
                    mesh.lemma_prepared(gl.next_buffer);
                }
                if rebind {
                    mesh.bind(gl, &program);
                    ctx.switch_mesh = ctx.switch_mesh + 1;
                }
                gl.push(GlCommand::Commit(program.id));
                mesh.render(gl);
            },
            _ => {},
        }
        ctx.mesh = Some(mesh_id);
        assert(gl@ =~= old(gl)@ + object_commands(
            *old(ctx),
            entity,
            *old(object),
            old(gl).next_buffer,
        ));
    }

    /// The first component of the kind that any live entity has: the
    /// position of the entity among the tracked ones, and the position of
    /// the component in the entity.
    pub fn find_component(&self, kind: ComponentKind) -> (found: Option<(usize, usize)>)
        ensures
            found.is_some() == holder_of(self.objects@, kind).is_some(),
            found matches Some((e, c)) ==> holder_of(self.objects@, kind) == Some(
                (e as int, c as int),
            ) && e < self.objects@.len() && self.objects@[e as int].object is Some && c
                < self.objects@[e as int].object->Some_0.components@.len(),
    {
        let mut i: usize = 0;
        while i < self.objects.len()
            invariant
                i <= self.objects@.len(),
                holder_of(self.objects@.take(i as int), kind) is None,
            decreases self.objects@.len() - i,
        {
            proof {
                assert(self.objects@.take(i + 1).drop_last() =~= self.objects@.take(i as int));
            }
            if let Some(object) = &self.objects[i].object {
                if let Some(c) = object.find_component(kind) {
                    proof {
                        lemma_holder_of_prefix(self.objects@, kind, i + 1);
                    }
                    return Some((i, c));
                }
            }
            i = i + 1;
        }
        proof {
            assert(self.objects@.take(i as int) =~= self.objects@);
        }
        None
    }

    /// The light of a frame: the first light that any live entity has, or
    /// the fallback light where the scene has none.
    pub fn resolve_light(&self) -> (light: Light)
        ensures
            light == resolved_light(self.objects@),
    {
        match self.find_component(ComponentKind::Light) {
            Some((e, c)) => {
                proof {
                    lemma_holder_light(self.objects@);
                }
                match &self.objects[e].object {
                    Some(object) => match &object.components[c].value {
                        ComponentValue::Light(l) => *l,
                        _ => Light::Directional(DirectionalLight::fallback()),
                    },
                    None => Light::Directional(DirectionalLight::fallback()),
                }
            },
            None => Light::Directional(DirectionalLight::fallback()),
        }
    }

    /// Forgets the entities that their owners have released.
    pub fn prune(&mut self)
        ensures
            final(self).objects@ == live_only(old(self).objects@),
            final(self).gl == old(self).gl,
            final(self).main_camera == old(self).main_camera,
            final(self).next_id == old(self).next_id,
    {
        let ghost before = self.objects@;
        let mut kept: usize = 0;
        let mut seen: usize = 0;
        let total: usize = self.objects.len();
        while seen < total
            invariant
                total == before.len(),
                kept <= seen <= total,
                self.objects@.len() == kept + (total - seen),
                self.objects@.take(kept as int) == live_only(before.take(seen as int)),
                self.objects@.skip(kept as int) == before.skip(seen as int),
                self.gl == old(self).gl,
                self.main_camera == old(self).main_camera,
                self.next_id == old(self).next_id,
            decreases total - seen,
        {
            proof {
                assert(before.take(seen + 1).drop_last() =~= before.take(seen as int));
                assert(self.objects@[kept as int] == self.objects@.skip(kept as int)[0]);
                assert(before[seen as int] == before.skip(seen as int)[0]);
            }
            let ghost current = self.objects@;
            if self.objects[kept].object.is_some() {
                proof {
                    assert(current.take(kept + 1) =~= current.take(kept as int).push(
                        current[kept as int],
                    ));
                    assert(current.skip(kept + 1) =~= before.skip(seen + 1)) by {
                        assert(current.skip(kept + 1) =~= current.skip(kept as int).skip(1));
                        assert(before.skip(seen + 1) =~= before.skip(seen as int).skip(1));
                    }
                }
                kept = kept + 1;
            } else {
                let _ = self.objects.remove(kept);
                proof {
                    assert(self.objects@.take(kept as int) =~= current.take(kept as int));
                    assert(self.objects@.skip(kept as int) =~= before.skip(seen + 1)) by {
                        assert(self.objects@.skip(kept as int) =~= current.skip(kept as int).skip(
                            1,
                        ));
                        assert(before.skip(seen + 1) =~= before.skip(seen as int).skip(1));
                    }
                }
            }
            seen = seen + 1;
        }
        proof {
            assert(before.take(seen as int) =~= before);
            assert(self.objects@.take(kept as int) =~= self.objects@);
        }
    }
}

impl Engine {
    /// Draws the entity at the cursor and moves the pass on.
    fn draw_current(&mut self, pass: &mut RenderPass)
        requires
            old(pass).cursor < old(self).objects@.len(),
            tracked_drawable(old(self).objects@[old(pass).cursor as int]),
            old(pass).ctx.prog is Some,
            old(pass).ctx.switch_mesh <= old(pass).cursor,
            old(pass).draws <= old(pass).cursor,
            old(self).gl.next_buffer <= u64::MAX - 4,
        ensures
            *final(pass) == (RenderPass {
                stage: PassStage::Traversing,
                cursor: (old(pass).cursor + 1) as usize,
                ctx: old(pass).ctx.after_object(old(self).current(*old(pass))),
                draws: (old(pass).draws + 1) as u64,
            }),
            final(self).gl@ == old(self).gl@ + object_commands(
                old(pass).ctx,
                old(self).objects@[old(pass).cursor as int].id,
                old(self).current(*old(pass)),
                old(self).gl.next_buffer,
            ),
            final(self).gl.next_buffer == next_after_object(
                old(pass).ctx,
                old(self).current(*old(pass)),
                old(self).gl.next_buffer,
            ),
            final(self).objects@.len() == old(self).objects@.len(),
            forall|k: int|
                0 <= k < old(self).objects@.len() && k != old(pass).cursor
                    ==> final(self).objects@[k] == old(self).objects@[k],
            final(self).objects@[old(pass).cursor as int].id
                == old(self).objects@[old(pass).cursor as int].id,
            final(self).objects@[old(pass).cursor as int].object is Some,
            object_drawn(
                old(self).current(*old(pass)),
                final(self).objects@[old(pass).cursor as int].object->Some_0,
                old(pass).ctx,
                old(self).gl.next_buffer,
            ),
            final(self).main_camera == old(self).main_camera,
            final(self).next_id == old(self).next_id,
    {
        let total: usize = self.objects.len();
        assert(pass.cursor < total);
        let slot = &mut self.objects[pass.cursor];
        let entity: u64 = slot.id;
        match &mut slot.object {
            Some(object) => {
                Engine::render_object(&mut self.gl, &mut pass.ctx, entity, object);
            },
            None => {},
        }
        pass.stage = PassStage::Traversing;
        pass.cursor = pass.cursor + 1;
        pass.draws = pass.draws + 1;
    }

    /// One step of the render pass.
    ///
    /// The first step clears the frame; without a main camera the pass
    /// ends there, otherwise the light of the frame is resolved. Each later
    /// step takes the entity at the cursor: one that is released, or lacks
    /// a material or a mesh, is passed over. For any other the material's
    /// program is bound where another is bound. Where its texture has to
    /// be bound, the bind is issued and the pass waits for
    /// `PassEvent::TextureBound`: on failure the entity is passed over, on
    /// success it is drawn. Where the texture is bound already, the entity
    /// is drawn at once. Past the last entity the pass ends, and released
    /// entities are forgotten.
    pub fn render(&mut self, pass: &mut RenderPass, event: PassEvent)
        requires
            old(pass).wf(),
            old(self).gl.next_buffer <= u64::MAX - 4,
        ensures
            *final(pass) == old(self).pass_after(*old(pass), event),
            final(pass).wf(),
            final(self).gl@ == old(self).gl@ + old(self).commands_after(*old(pass), event),
            final(self).gl.next_buffer == old(self).next_buffer_after(*old(pass), event),
            old(self).objects_after(*old(pass), event, final(self).objects@),
            final(self).main_camera == old(self).main_camera,
            final(self).next_id == old(self).next_id,
            old(self).wf() ==> final(self).wf(),
    {
        proof {
            lemma_live_only(self.objects@);
        }
        match pass.stage {
            PassStage::Idle => {
                self.clear();
                if self.main_camera.is_none() {
                    self.prune();
                    *pass = RenderPass {
                        stage: PassStage::Done,
                        cursor: 0,
                        ctx: EngineContext::new(),
                        draws: 0,
                    };
                } else {
                    let mut ctx = EngineContext::new();
                    ctx.light = Some(self.resolve_light());
                    *pass = RenderPass { stage: PassStage::Traversing, cursor: 0, ctx, draws: 0 };
                }
            },
            PassStage::Done => {
                assert(self.gl@ =~= old(self).gl@ + Seq::<CommandView>::empty());
            },
            PassStage::Traversing => {
                if pass.cursor >= self.objects.len() {
                    self.prune();
                    pass.stage = PassStage::Done;
                    assert(self.gl@ =~= old(self).gl@ + Seq::<CommandView>::empty());
                } else {
                    match drawable_material(&self.objects[pass.cursor]) {
                        None => {
                            pass.cursor = pass.cursor + 1;
                            assert(self.gl@ =~= old(self).gl@ + Seq::<CommandView>::empty());
                        },
                        Some(material) => {
                            let ready: bool = Engine::setup_material(
                                &mut self.gl,
                                &mut pass.ctx,
                                &material,
                            );
                            if ready {
                                self.draw_current(pass);
                                assert(self.gl@ =~= old(self).gl@ + old(self).commands_after(
                                    *old(pass),
                                    event,
                                ));
                            } else {
                                pass.stage = PassStage::AwaitingTexture;
                            }
                        },
                    }
                }
            },
            PassStage::AwaitingTexture => {
                match event {
                    PassEvent::Tick => {
                        assert(self.gl@ =~= old(self).gl@ + Seq::<CommandView>::empty());
                    },
                    PassEvent::TextureBound(ok) => {
                        let material: Option<Material> = if ok && pass.cursor < self.objects.len() {
                            drawable_material(&self.objects[pass.cursor])
                        } else {
                            None
                        };
                        match material {
                            Some(m) => {
                                pass.ctx.tex = Some(m.texture);
                                pass.ctx.switch_tex = pass.ctx.switch_tex + 1;
                                self.draw_current(pass);
                                assert(self.gl@ =~= old(self).gl@ + old(self).commands_after(
                                    *old(pass),
                                    event,
                                ));
                            },
                            None => {
                                pass.stage = PassStage::Traversing;
                                pass.cursor = pass.cursor + 1;
                                assert(self.gl@ =~= old(self).gl@ + Seq::<CommandView>::empty());
                            },
                        }
                    },
                }
            },
        }
    }
}

impl Engine {
    /// Every tracked identity is one that the engine has given out.
    pub open spec fn wf(&self) -> bool {
        forall|i: int| 0 <= i < self.objects@.len() ==> (#[trigger] self.objects@[i]).id < self.next_id
    }

    /// The position of the live entity with the identity among the tracked
    /// ones.
    pub fn position(&self, entity: u64) -> (found: Option<usize>)
        ensures
            found.is_some() == slot_of(self.objects@, entity).is_some(),
            found matches Some(i) ==> slot_of(self.objects@, entity) == Some(i as int) && i
                < self.objects@.len() && self.objects@[i as int].object is Some
                && self.objects@[i as int].id == entity,
    {
        let mut i: usize = 0;
        while i < self.objects.len()
            invariant
                i <= self.objects@.len(),
                slot_of(self.objects@.take(i as int), entity) is None,
            decreases self.objects@.len() - i,
        {
            proof {
                assert(self.objects@.take(i + 1).drop_last() =~= self.objects@.take(i as int));
            }
            if self.objects[i].id == entity && self.objects[i].object.is_some() {
                proof {
                    lemma_slot_of_prefix(self.objects@, entity, i + 1);
                }
                return Some(i);
            }
            i = i + 1;
        }
        proof {
            assert(self.objects@.take(i as int) =~= self.objects@);
        }
        None
    }

    /// Attaches a component to a live entity, after those that it has, and
    /// returns the identity of the component; `None`, with nothing
    /// changed, where no live entity has the identity.
    pub fn add_component(&mut self, entity: u64, value: ComponentValue) -> (added: Option<u64>)
        requires
            old(self).next_id < u64::MAX,
        ensures
            final(self).gl == old(self).gl,
            final(self).main_camera == old(self).main_camera,
            final(self).objects@.len() == old(self).objects@.len(),
            old(self).wf() ==> final(self).wf(),
            match slot_of(old(self).objects@, entity) {
                None => {
                    &&& added is None
                    &&& final(self).objects@ == old(self).objects@
                    &&& final(self).next_id == old(self).next_id
                },
                Some(i) => {
                    &&& added == Some(old(self).next_id)
                    &&& final(self).next_id == old(self).next_id + 1
                    &&& forall|k: int|
                        0 <= k < old(self).objects@.len() && k != i ==> final(self).objects@[k]
                            == old(self).objects@[k]
                    &&& final(self).objects@[i].id == entity
                    &&& final(self).objects@[i].object is Some
                    &&& final(self).objects@[i].object->Some_0.transform == old(self).objects@[i].object->Some_0.transform
                    &&& final(self).objects@[i].object->Some_0.scale == old(self).objects@[i].object->Some_0.scale
                    &&& final(self).objects@[i].object->Some_0.components@ == old(self).objects@[i].object->Some_0.components@.push(
                        Component { id: old(self).next_id, value },
                    )
                },
            },
    {
        match self.position(entity) {
            None => None,
            Some(i) => {
                let id: u64 = self.next_id;
                self.next_id = id + 1;
                let slot = &mut self.objects[i];
                match &mut slot.object {
                    Some(object) => {
                        object.add_component(Component::new(id, value));
                    },
                    None => {},
                }
                Some(id)
            },
        }
    }

    /// Gives a live entity back to its owner. The engine keeps the entry,
    /// without the entity, until the next pass ends. Returns `None`, with
    /// nothing changed, where no live entity has the identity.
    pub fn release(&mut self, entity: u64) -> (released: Option<GameObject>)
        ensures
            final(self).gl == old(self).gl,
            final(self).main_camera == old(self).main_camera,
            final(self).next_id == old(self).next_id,
            final(self).objects@.len() == old(self).objects@.len(),
            old(self).wf() ==> final(self).wf(),
            match slot_of(old(self).objects@, entity) {
                None => released is None && final(self).objects@ == old(self).objects@,
                Some(i) => {
                    &&& released == old(self).objects@[i].object
                    &&& released is Some
                    &&& forall|k: int|
                        0 <= k < old(self).objects@.len() && k != i ==> final(self).objects@[k]
                            == old(self).objects@[k]
                    &&& final(self).objects@[i].id == entity
                    &&& final(self).objects@[i].object is None
                },
            },
    {
        match self.position(entity) {
            None => None,
            Some(i) => {
                let slot = &mut self.objects[i];
                slot.object.take()
            },
        }
    }

    /// The live entity with the identity.
    pub fn object(&self, entity: u64) -> (found: Option<&GameObject>)
        ensures
            match slot_of(self.objects@, entity) {
                None => found is None,
                Some(i) => found == Some(&self.objects@[i].object->Some_0),
            },
    {
        match self.position(entity) {
            None => None,
            Some(i) => self.objects[i].object.as_ref(),
        }
    }
}

impl IEngine for Engine {
    open spec fn can_create(&self) -> bool {
        self.next_id < u64::MAX
    }

    open spec fn tracked_ids(&self) -> Seq<u64> {
        self.objects@.map_values(|s: Slot| s.id)
    }

    /// Creates an entity at the identity pose, with unit scale and no
    /// components, and tracks it after those tracked so far.
    fn new_gameobject(&mut self) -> (id: u64)
        ensures
            id == old(self).next_id,
            final(self).next_id == id + 1,
            final(self).gl == old(self).gl,
            final(self).main_camera == old(self).main_camera,
            final(self).objects@.len() == old(self).objects@.len() + 1,
            final(self).objects@.drop_last() == old(self).objects@,
            final(self).objects@.last().id == id,
            final(self).objects@.last().object is Some,
            final(self).objects@.last().object->Some_0.transform == Isometry3::spec_identity(),
            final(self).objects@.last().object->Some_0.scale == (Vector3 { x: ONE, y: ONE, z: ONE }),
            final(self).objects@.last().object->Some_0.components@.len() == 0,
            old(self).wf() ==> final(self).wf() && slot_of(final(self).objects@, id) == Some(
                old(self).objects@.len() as int,
            ),
    {
        let id: u64 = self.next_id;
        self.next_id = id + 1;
        self.objects.push(Slot { id, object: Some(GameObject::new()) });
        proof {
            assert(self.objects@.drop_last() =~= old(self).objects@);
            assert(self.tracked_ids() =~= old(self).tracked_ids().push(id));
            if old(self).wf() {
                lemma_slot_of(old(self).objects@, id);
            }
        }
        id
    }
}

/// When a pass ends, the engine forgets exactly the released entities:
/// every entity that is tracked afterwards is alive, and every entity that
/// was alive is still tracked.
pub proof fn lemma_finished_pass_tracks_live_only(
    engine: Engine,
    pass: RenderPass,
    event: PassEvent,
    after: Seq<Slot>,
)
    requires
        engine.outcome(pass, event) is Finished,
        engine.objects_after(pass, event, after),
    ensures
        engine.pass_after(pass, event).stage == PassStage::Done,
        forall|i: int| 0 <= i < after.len() ==> (#[trigger] after[i]).object is Some,
        forall|i: int| 0 <= i < after.len() ==> engine.objects@.contains(#[trigger] after[i]),
        forall|k: int|
            0 <= k < engine.objects@.len() && engine.objects@[k].object is Some ==> after.contains(
                #[trigger] engine.objects@[k],
            ),
{
    lemma_live_only(engine.objects@);
}

/// A released entity is never drawn: the step that reaches it, or that
/// learns of its texture, passes it over and issues nothing.
pub proof fn lemma_released_entity_is_skipped(engine: Engine, pass: RenderPass, event: PassEvent)
    requires
        pass.stage == PassStage::Traversing || (pass.stage == PassStage::AwaitingTexture
            && event is TextureBound),
        pass.cursor < engine.objects@.len(),
        engine.objects@[pass.cursor as int].object is None,
    ensures
        engine.outcome(pass, event) is Skipped,
        engine.commands_after(pass, event) == Seq::<CommandView>::empty(),
        engine.objects_after(pass, event, engine.objects@),
        engine.pass_after(pass, event).ctx == pass.ctx,
        engine.pass_after(pass, event).draws == pass.draws,
        engine.pass_after(pass, event).cursor == pass.cursor + 1,
{
    assert(engine.objects.len() == engine.objects@.len());
}

/// An entity whose texture could not be bound is passed over: nothing more
/// is issued for it, no counter changes, and the pass goes on with the
/// next entity.
pub proof fn lemma_failed_texture_skips_entity(engine: Engine, pass: RenderPass)
    requires
        pass.wf(),
        pass.stage == PassStage::AwaitingTexture,
    ensures
        engine.outcome(pass, PassEvent::TextureBound(false)) is Skipped,
        engine.commands_after(pass, PassEvent::TextureBound(false)) == Seq::<CommandView>::empty(),
        engine.pass_after(pass, PassEvent::TextureBound(false)) == (RenderPass {
            stage: PassStage::Traversing,
            cursor: (pass.cursor + 1) as usize,
            ..pass
        }),
{
}

/// A step that asks for a texture leaves the material's program bound, and
/// a step that draws leaves program, texture and mesh of the entity bound:
/// the next entity is compared against these.
pub proof fn lemma_step_leaves_entity_bound(engine: Engine, pass: RenderPass, event: PassEvent)
    requires
        pass.stage == PassStage::AwaitingTexture ==> pass.ctx.prog is Some
            && pass.ctx.prog->Some_0.id == material_of(engine.current(pass)).program.id,
    ensures
        engine.outcome(pass, event) is Asked || engine.outcome(pass, event) is Drawn ==> {
            let after = engine.pass_after(pass, event).ctx;
            after.prog is Some && after.prog->Some_0.id == material_of(
                engine.current(pass),
            ).program.id
        },
        engine.outcome(pass, event) is Drawn ==> {
            let after = engine.pass_after(pass, event).ctx;
            &&& after.tex is Some
            &&& after.tex->Some_0.id == material_of(engine.current(pass)).texture.id
            &&& after.mesh == Some(mesh_id_of(engine.current(pass)))
        },
{
}

/// An entity that shares program and texture with what is bound is drawn
/// at once: no program or texture bind is issued, and neither counter
/// changes.
pub proof fn lemma_sharing_entity_switches_nothing(engine: Engine, pass: RenderPass, event: PassEvent)
    requires
        pass.wf(),
        pass.stage == PassStage::Traversing,
        pass.cursor < engine.objects@.len(),
        tracked_drawable(engine.objects@[pass.cursor as int]),
        pass.ctx.prog is Some && pass.ctx.prog->Some_0.id == material_of(
            engine.current(pass),
        ).program.id,
        pass.ctx.tex is Some && pass.ctx.tex->Some_0.id == material_of(
            engine.current(pass),
        ).texture.id,
    ensures
        engine.outcome(pass, event) is Drawn,
        engine.pass_after(pass, event).ctx.switch_prog == pass.ctx.switch_prog,
        engine.pass_after(pass, event).ctx.switch_tex == pass.ctx.switch_tex,
        engine.pass_after(pass, event).draws == pass.draws + 1,
        engine.commands_after(pass, event) == object_commands(
            pass.ctx,
            engine.objects@[pass.cursor as int].id,
            engine.current(pass),
            engine.gl.next_buffer,
        ),
{
    assert(engine.objects.len() == engine.objects@.len());
    let m = material_of(engine.current(pass));
    assert(material_commands(pass.ctx, m) =~= Seq::<CommandView>::empty());
    assert(engine.commands_after(pass, event) =~= object_commands(
        pass.ctx,
        engine.objects@[pass.cursor as int].id,
        engine.current(pass),
        engine.gl.next_buffer,
    ));
}

/// The counters follow the switches. Reaching a drawable entity raises the
/// program counter by one where its program is another than the bound one,
/// and not otherwise; the texture counter stays, and the pass asks for the
/// texture exactly where it is another than the bound one. A texture bind
/// that succeeded raises the texture counter by one and leaves the program
/// counter.
pub proof fn lemma_counters_follow_switches(engine: Engine, pass: RenderPass, event: PassEvent)
    requires
        pass.wf(),
        pass.cursor < engine.objects@.len(),
        tracked_drawable(engine.objects@[pass.cursor as int]),
    ensures
        pass.stage == PassStage::Traversing ==> {
            let m = material_of(engine.current(pass));
            let after = engine.pass_after(pass, event);
            &&& after.ctx.switch_prog == pass.ctx.switch_prog + if pass.ctx.spec_need_prepare_program(
                m.program,
            ) {
                1int
            } else {
                0int
            }
            &&& after.ctx.switch_tex == pass.ctx.switch_tex
            &&& engine.outcome(pass, event) is Asked <==> pass.ctx.after_program(
                m,
            ).spec_need_prepare_texture(m.texture)
            &&& engine.outcome(pass, event) is Asked || engine.outcome(pass, event) is Drawn
        },
        pass.stage == PassStage::AwaitingTexture && event == PassEvent::TextureBound(true) ==> {
            let after = engine.pass_after(pass, event);
            &&& engine.outcome(pass, event) is Drawn
            &&& after.ctx.switch_tex == pass.ctx.switch_tex + 1
            &&& after.ctx.switch_prog == pass.ctx.switch_prog
            &&& after.draws == pass.draws + 1
        },
{
    assert(engine.objects.len() == engine.objects@.len());
}

/// How many steps a pass can still take, at most.
pub open spec fn steps_left(pass: RenderPass, entities: nat) -> nat {
    let ahead: nat = if pass.cursor < entities {
        (entities - pass.cursor) as nat
    } else {
        0
    };
    match pass.stage {
        PassStage::Idle => 3 * entities + 2,
        PassStage::Traversing => 3 * ahead + 1,
        PassStage::AwaitingTexture => if ahead > 0 {
            3 * ahead
        } else {
            2
        },
        PassStage::Done => 0,
    }
}

/// Every pass ends: each step brings it closer to its end, but for a step
/// on a pass that is done, or a tick to a pass that waits for a texture.
pub proof fn lemma_step_makes_progress(engine: Engine, pass: RenderPass, event: PassEvent)
    requires
        pass.wf(),
    ensures
        engine.outcome(pass, event) is Waited <==> pass.stage == PassStage::Done || (pass.stage
            == PassStage::AwaitingTexture && event == PassEvent::Tick),
        !(engine.outcome(pass, event) is Waited) ==> steps_left(
            engine.pass_after(pass, event),
            engine.objects@.len(),
        ) < steps_left(pass, engine.objects@.len()),
        engine.outcome(pass, event) is Waited ==> engine.pass_after(pass, event) == pass,
{
    assert(engine.objects.len() == engine.objects@.len());
}

/// Without a main camera the pass clears the frame and ends: nothing is
/// drawn and every counter is zero.
pub proof fn lemma_pass_without_camera(engine: Engine, pass: RenderPass, event: PassEvent)
    requires
        pass.stage == PassStage::Idle,
        engine.main_camera is None,
    ensures
        engine.commands_after(pass, event) == clear_commands(),
        engine.pass_after(pass, event) == (RenderPass {
            stage: PassStage::Done,
            cursor: 0,
            ctx: fresh_context(),
            draws: 0,
        }),
{
}

/// A pass that has begun with a camera has a light, and no later step
/// takes it away: the light of the pass is the first light of the scene,
/// or the fallback light where the scene has none.
pub proof fn lemma_pass_is_lit(engine: Engine, pass: RenderPass, event: PassEvent)
    ensures
        engine.outcome(pass, event) is Started ==> engine.pass_after(pass, event).ctx.light
            == Some(resolved_light(engine.objects@)),
        pass.stage != PassStage::Idle ==> engine.pass_after(pass, event).ctx.light
            == pass.ctx.light,
        holder_of(engine.objects@, ComponentKind::Light) is None ==> resolved_light(
            engine.objects@,
        ).effective() == default_light(),
{
}

/// Every draw ends with a draw call for as many indices as the mesh of the
/// entity holds, whether the mesh was bound in this step or before.
pub proof fn lemma_draw_call_counts_indices(ctx: EngineContext, entity: u64, o: GameObject, next: u64)
    ensures
        object_commands(ctx, entity, o, next).last() == CommandView::Plain(
            GlCommand::DrawElements { count: mesh_of(o).data().indices@.len() as usize },
        ),
        mesh_of(o).prepared(next).draw_command() == mesh_of(o).draw_command(),
{
    mesh_of(o).lemma_prepared(next);
}

/// Where a light is found, the component found is a light.
proof fn lemma_holder_light(objects: Seq<Slot>)
    ensures
        holder_of(objects, ComponentKind::Light) matches Some((e, c)) ==> {
            &&& 0 <= e < objects.len()
            &&& objects[e].object is Some
            &&& 0 <= c < objects[e].object->Some_0.components@.len()
            &&& objects[e].object->Some_0.components@[c].value is Light
        },
    decreases objects.len(),
{
    if objects.len() > 0 {
        lemma_holder_light(objects.drop_last());
        if objects.last().object is Some {
            lemma_first_of(objects.last().object->Some_0.components@, ComponentKind::Light);
        }
    }
}

} // verus!
