//! Undo and redo. A command changes a world only through deltas.

use crate::contracts::comp;
use crate::contracts::components::{Component, Transform};
use crate::contracts::delta::{ArchetypeId, ColumnWrite, ComponentId, WorldDelta};
use crate::contracts::wire::Wire;
use crate::ecs::world::World;
use vstd::prelude::*;

verus! {

/// A change that can be applied and rolled back.
pub trait Command {
    /// What applying the command changes.
    spec fn forward_model(&self) -> crate::contracts::delta::DeltaModel;

    /// What rolling the command back changes.
    spec fn backward_model(&self) -> crate::contracts::delta::DeltaModel;

    /// The description of the command for people.
    spec fn description_text(&self) -> Seq<char>;

    /// The delta that applies the change.
    fn forward(&self) -> (r: WorldDelta)
        ensures
            r.model() == self.forward_model(),
    ;

    /// The delta that rolls the change back.
    fn backward(&self) -> (r: WorldDelta)
        ensures
            r.model() == self.backward_model(),
    ;

    /// A description for people.
    fn description(&self) -> (r: String)
        ensures
            r@ == self.description_text(),
    ;
}

/// A world after the writes of a delta.
pub open spec fn applied(
    w: crate::ecs::world::WorldModel,
    d: crate::contracts::delta::DeltaModel,
) -> crate::ecs::world::WorldModel {
    crate::ecs::world::written_all(w, d.writes, d.writes.len())
}

/// Replaces the transform of one entity.
pub struct ModifyTransformCommand {
    /// Row of the entity.
    pub entity_index: u32,
    /// The transform before the edit.
    pub old_value: Transform,
    /// The transform after the edit.
    pub new_value: Transform,
}

/// The write of one transform.
pub open spec fn one_transform(index: u32, value: Transform) -> crate::contracts::delta::WriteModel {
    crate::contracts::delta::WriteModel {
        archetype: ArchetypeId(0),
        component: ComponentId(comp::TRANSFORM),
        indices: seq![index],
        payload: crate::runtime::movement::packed(seq![value]),
    }
}

/// A delta that writes one transform and nothing else.
pub open spec fn transform_delta(index: u32, value: Transform) -> crate::contracts::delta::DeltaModel {
    crate::contracts::delta::DeltaModel {
        spawns: seq![],
        despawns: seq![],
        writes: seq![one_transform(index, value)],
        deferred: seq![],
        warnings: seq![],
    }
}

fn transform_write(entity_index: u32, value: &Transform) -> (r: WorldDelta)
    ensures
        r.model() == transform_delta(entity_index, *value),
{
    let one: [Transform; 1] = [*value];
    let mut delta = WorldDelta::default();
    assert(delta.model().writes.len() == 0);
    assert(delta.model().spawns.len() == 0);
    assert(delta.model().despawns.len() == 0);
    assert(delta.model().deferred.len() == 0);
    assert(delta.model().warnings.len() == 0);
    let write = ColumnWrite {
        archetype: ArchetypeId(0),
        component: ComponentId(comp::TRANSFORM),
        indices: vec![entity_index],
        payload: crate::runtime::movement::pack::<Transform>(one.as_slice()),
    };
    assert(one@ =~= seq![*value]);
    assert(write.model() =~= transform_delta(entity_index, *value).writes[0]);
    delta.writes.push(write);
    assert(delta.model() =~= transform_delta(entity_index, *value));
    delta
}

impl Command for ModifyTransformCommand {
    open spec fn forward_model(&self) -> crate::contracts::delta::DeltaModel {
        transform_delta(self.entity_index, self.new_value)
    }

    open spec fn backward_model(&self) -> crate::contracts::delta::DeltaModel {
        transform_delta(self.entity_index, self.old_value)
    }

    open spec fn description_text(&self) -> Seq<char> {
        "modify transform"@
    }

    fn forward(&self) -> (r: WorldDelta) {
        transform_write(self.entity_index, &self.new_value)
    }

    fn backward(&self) -> (r: WorldDelta) {
        transform_write(self.entity_index, &self.old_value)
    }

    fn description(&self) -> (r: String) {
        "modify transform".to_owned()
    }
}

/// A boxed command is the command it holds, so that a history of boxed commands can
/// hold commands of different kinds.
impl Command for Box<dyn Command> {
    open spec fn forward_model(&self) -> crate::contracts::delta::DeltaModel {
        (**self).forward_model()
    }

    open spec fn backward_model(&self) -> crate::contracts::delta::DeltaModel {
        (**self).backward_model()
    }

    open spec fn description_text(&self) -> Seq<char> {
        (**self).description_text()
    }

    fn forward(&self) -> (r: WorldDelta) {
        (**self).forward()
    }

    fn backward(&self) -> (r: WorldDelta) {
        (**self).backward()
    }

    fn description(&self) -> (r: String) {
        (**self).description()
    }
}

/// The edit history: commands that can be undone and commands that can be
/// redone, the latest last. Unless it is told otherwise it holds boxed commands of
/// any kind.
pub struct UndoRedoManager<C: Command = Box<dyn Command>> {
    undo: Vec<C>,
    redo: Vec<C>,
}

impl<C: Command> UndoRedoManager<C> {
    /// The commands that can be undone, the latest last.
    pub closed spec fn done(&self) -> Seq<C> {
        self.undo@
    }

    /// The commands that can be redone, the latest undone last.
    pub closed spec fn undone(&self) -> Seq<C> {
        self.redo@
    }

    /// An empty history.
    pub fn new() -> (r: Self)
        ensures
            r.done() == Seq::<C>::empty(),
            r.undone() == Seq::<C>::empty(),
    {
        UndoRedoManager { undo: Vec::new(), redo: Vec::new() }
    }

    /// Applies a command to a world and makes it the latest that can be undone.
    /// Nothing can be redone afterwards.
    pub fn execute(&mut self, world: &mut World, command: C)
        requires
            old(world).wf(),
        ensures
            final(world).wf(),
            final(world)@ == applied(old(world)@, command.forward_model()),
            final(self).done() == old(self).done().push(command),
            final(self).done().len() == old(self).done().len() + 1,
            final(self).undone() == Seq::<C>::empty(),
    {
        let delta = command.forward();
        world.apply_delta(&delta);
        self.undo.push(command);
        self.redo.clear();
    }

    /// Rolls the latest command back, if there is one. Says whether there was.
    pub fn undo(&mut self, world: &mut World) -> (r: bool)
        requires
            old(world).wf(),
        ensures
            final(world).wf(),
            r == (old(self).done().len() > 0),
            r ==> final(world)@ == applied(old(world)@, old(self).done().last().backward_model())
                && final(self).done() == old(self).done().drop_last() && final(self).undone()
                == old(self).undone().push(old(self).done().last()) && final(self).undone().len()
                == old(self).undone().len() + 1,
            !r ==> final(self).done() == old(self).done() && final(self).undone()
                == old(self).undone() && *final(world) == *old(world),
    {
        match self.undo.pop() {
            Some(command) => {
                let delta = command.backward();
                world.apply_delta(&delta);
                self.redo.push(command);
                assert(self.done() =~= old(self).done().drop_last());
                true
            },
            None => false,
        }
    }

    /// Applies the latest undone command again, if there is one. Says whether
    /// there was.
    pub fn redo(&mut self, world: &mut World) -> (r: bool)
        requires
            old(world).wf(),
        ensures
            final(world).wf(),
            r == (old(self).undone().len() > 0),
            r ==> final(world)@ == applied(old(world)@, old(self).undone().last().forward_model())
                && final(self).undone() == old(self).undone().drop_last() && final(self).done()
                == old(self).done().push(old(self).undone().last()) && final(self).done().len()
                == old(self).done().len() + 1,
            !r ==> final(self).done() == old(self).done() && final(self).undone()
                == old(self).undone() && *final(world) == *old(world),
    {
        match self.redo.pop() {
            Some(command) => {
                let delta = command.forward();
                world.apply_delta(&delta);
                self.undo.push(command);
                assert(self.undone() =~= old(self).undone().drop_last());
                true
            },
            None => false,
        }
    }

    /// Whether there is something to undo.
    pub fn can_undo(&self) -> (r: bool)
        ensures
            r == (self.done().len() > 0),
    {
        !self.undo.is_empty()
    }

    /// Whether there is something to redo.
    pub fn can_redo(&self) -> (r: bool)
        ensures
            r == (self.undone().len() > 0),
    {
        !self.redo.is_empty()
    }
}

impl<C: Command> Default for UndoRedoManager<C> {
    /// An empty history.
    fn default() -> (r: Self)
        ensures
            r.done() == Seq::<C>::empty(),
            r.undone() == Seq::<C>::empty(),
    {
        UndoRedoManager::new()
    }
}

/// Writing one transform replaces it and nothing else.
pub proof fn lemma_one_transform(w: crate::ecs::world::WorldModel, index: u32, value: Transform)
    requires
        w.wf(),
    ensures
        crate::ecs::world::written(w, one_transform(index, value)) == w.with_transform(
            index as int,
            value,
        ),
{
    let one = seq![value];
    crate::runtime::movement::law_pack_rows(one);
    assert(crate::ecs::storage::row::<Transform>(crate::runtime::movement::packed(one), 0)
        == one[0]);
    reveal_with_fuel(crate::ecs::world::scatter, 2);
    assert(one_transform(index, value).indices[0] == index);
}

/// Applying a transform delta replaces that transform and nothing else.
pub proof fn law_transform_delta(w: crate::ecs::world::WorldModel, index: u32, value: Transform)
    requires
        w.wf(),
    ensures
        applied(w, transform_delta(index, value)) == w.with_transform(index as int, value),
{
    let d = transform_delta(index, value);
    lemma_one_transform(w, index, value);
    reveal_with_fuel(crate::ecs::world::written_all, 2);
    assert(d.writes[0] == one_transform(index, value));
}

/// Whether a command recorded the transform that it replaces.
pub open spec fn recorded(w: crate::ecs::world::WorldModel, c: ModifyTransformCommand) -> bool {
    c.entity_index < w.cap() ==> w.transforms[c.entity_index as int] == c.old_value
}

/// Undoing a transform edit that was made on the entity's own transform gives
/// back the world before the edit, and redoing it the world after the edit.
pub proof fn law_undo_redo_restore(w: crate::ecs::world::WorldModel, c: ModifyTransformCommand)
    requires
        w.wf(),
        recorded(w, c),
    ensures
        ({
            let edited = applied(w, c.forward_model());
            let undone = applied(edited, c.backward_model());
            &&& undone == w
            &&& applied(undone, c.forward_model()) == edited
        }),
{
    law_transform_delta(w, c.entity_index, c.new_value);
    let edited = applied(w, c.forward_model());
    assert(edited.wf());
    law_transform_delta(edited, c.entity_index, c.old_value);
    assert(applied(edited, c.backward_model()) =~= w);
}

/// A world after the first `n` of some commands.
pub open spec fn edited(
    w: crate::ecs::world::WorldModel,
    cs: Seq<ModifyTransformCommand>,
    n: nat,
) -> crate::ecs::world::WorldModel
    decreases n,
{
    if n == 0 {
        w
    } else {
        applied(edited(w, cs, (n - 1) as nat), cs[n - 1].forward_model())
    }
}

/// A world after the first `n` of some commands are rolled back, the last first.
pub open spec fn rolled_back(
    w: crate::ecs::world::WorldModel,
    cs: Seq<ModifyTransformCommand>,
    n: nat,
) -> crate::ecs::world::WorldModel
    decreases n,
{
    if n == 0 {
        w
    } else {
        rolled_back(applied(w, cs[n - 1].backward_model()), cs, (n - 1) as nat)
    }
}

/// However many transforms are edited, undoing all of the edits gives back the
/// world there was before the first.
pub proof fn law_undo_all_restores(
    w: crate::ecs::world::WorldModel,
    cs: Seq<ModifyTransformCommand>,
    n: nat,
)
    requires
        w.wf(),
        n <= cs.len(),
        forall|i: int| 0 <= i < n ==> recorded(edited(w, cs, i as nat), #[trigger] cs[i]),
    ensures
        edited(w, cs, n).wf(),
        rolled_back(edited(w, cs, n), cs, n) == w,
    decreases n,
{
    if n > 0 {
        let m = (n - 1) as nat;
        law_undo_all_restores(w, cs, m);
        let before = edited(w, cs, m);
        assert(recorded(before, cs[m as int]));
        law_undo_redo_restore(before, cs[m as int]);
        law_transform_delta(before, cs[m as int].entity_index, cs[m as int].new_value);
    }
}

/// A transform edit changes one row's transform, to the value given, and no other
/// component and no other row.
pub proof fn law_transform_edit(w: crate::ecs::world::WorldModel, c: ModifyTransformCommand, i: int)
    requires
        w.wf(),
        0 <= i < w.cap(),
    ensures
        applied(w, c.forward_model()).transforms[i] == (if i == c.entity_index {
            c.new_value
        } else {
            w.transforms[i]
        }),
        applied(w, c.backward_model()).transforms[i] == (if i == c.entity_index {
            c.old_value
        } else {
            w.transforms[i]
        }),
        applied(w, c.forward_model()).count == w.count,
        applied(w, c.forward_model()).positions == w.positions,
        applied(w, c.forward_model()).velocities == w.velocities,
        applied(w, c.forward_model()).velocity3d == w.velocity3d,
        applied(w, c.forward_model()).actors == w.actors,
        applied(w, c.forward_model()).colors == w.colors,
        applied(w, c.backward_model()).count == w.count,
        applied(w, c.backward_model()).positions == w.positions,
        applied(w, c.backward_model()).velocities == w.velocities,
        applied(w, c.backward_model()).velocity3d == w.velocity3d,
        applied(w, c.backward_model()).actors == w.actors,
        applied(w, c.backward_model()).colors == w.colors,
        c.description_text() == "modify transform"@,
{
    law_transform_delta(w, c.entity_index, c.new_value);
    law_transform_delta(w, c.entity_index, c.old_value);
}

/// A transform edit says nothing but the one write: to archetype 0, component 2, at
/// the row, of forty bytes.
pub proof fn law_transform_delta_parts(index: u32, value: Transform)
    ensures
        transform_delta(index, value).spawns.len() == 0,
        transform_delta(index, value).despawns.len() == 0,
        transform_delta(index, value).deferred.len() == 0,
        transform_delta(index, value).warnings.len() == 0,
        transform_delta(index, value).writes.len() == 1,
        transform_delta(index, value).writes[0].archetype.0 == 0,
        transform_delta(index, value).writes[0].component.0 == 2,
        transform_delta(index, value).writes[0].indices == seq![index],
        transform_delta(index, value).writes[0].payload.len() == 40,
{
    crate::runtime::movement::law_pack_rows(seq![value]);
    assert(Transform::width() == 10);
    assert(1 * (4 * Transform::width()) == 40) by (nonlinear_arith)
        requires
            Transform::width() == 10,
    ;
}

} // verus!
