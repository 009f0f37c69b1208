//! The editor application: everything the window shows and changes, without the
//! window.

use crate::contracts::basics::InputState3D;
use crate::contracts::comp;
use crate::contracts::components::{Actor, Color, Position, Transform, Velocity, Velocity3D};
use crate::contracts::delta::{ArchetypeId, ColumnWrite, ComponentId, WorldDelta};
use crate::contracts::wire::Wire;
use crate::ecs::scene::SceneContent;
use crate::ecs::world::World;
use crate::editor::commands::{ModifyTransformCommand, UndoRedoManager};
use crate::editor::selection::SelectionModel;
use crate::editor::state::{EditorMode, EditorState};
use crate::fx::Fx16;
use vstd::prelude::*;

verus! {

/// The tools of the viewport.
#[derive(Clone, Copy, PartialEq, Eq, Structural, Debug)]
pub enum EditorTool {
    /// Select entities.
    Select,
    /// Move the selected entity on the ground.
    Move,
}

/// State of the editor application.
pub struct EditorApp {
    /// The worlds and the mode.
    pub state: EditorState,
    /// The selection.
    pub selection: SelectionModel,
    /// The edit history.
    pub undo: UndoRedoManager<ModifyTransformCommand>,
    /// Number of simulated ticks.
    pub frame: u64,
    /// Held keys: up, down, left, right, jump.
    pub keys: [bool; 5],
    /// Whether the camera already follows the player of this session.
    pub follow_active: bool,
    /// Scene file.
    pub scene_path: String,
    /// Result of the last save or load.
    pub scene_notice: Option<String>,
    /// The active tool.
    pub tool: EditorTool,
    /// Whether a drag is in progress.
    pub move_active: bool,
    /// Whether drags snap to the grid.
    pub snap: bool,
    /// What is being dragged: the offset between pointer and entity (x, z), as
    /// the bit patterns of 32-bit floats, and the entity.
    pub move_grab: Option<([u32; 2], u32)>,
}

/// The parts of an [`EditorApp`] that are neither worlds, nor selection, nor
/// history.
#[verifier::ext_equal]
pub struct UiModel {
    /// Number of simulated ticks.
    pub frame: u64,
    /// Held keys.
    pub keys: [bool; 5],
    /// Whether the camera already follows the player.
    pub follow_active: bool,
    /// Scene file.
    pub scene_path: String,
    /// Result of the last save or load.
    pub scene_notice: Option<Seq<char>>,
    /// The active tool.
    pub tool: EditorTool,
    /// Whether a drag is in progress.
    pub move_active: bool,
    /// Whether drags snap to the grid.
    pub snap: bool,
    /// What is being dragged.
    pub move_grab: Option<([u32; 2], u32)>,
}

/// The row of the player of the demo scene.
pub open spec fn player_row() -> crate::ecs::world::RowModel {
    crate::ecs::world::RowModel {
        position: crate::shell::ai::origin(),
        velocity: crate::shell::ai::rest(),
        transform: Transform::spec_at(
            [Fx16::of_int(0), Fx16::of_int(0), Fx16::of_int(0)],
            crate::shell::ai::unit(),
        ),
        velocity3d: Velocity3D::spec_zero(),
        actor: Actor {
            kind: 0,
            seed: 0,
            grounded: 1,
            jump_cd: 0,
            move_speed: Fx16::of_int(3),
            jump_force: Fx16::of_int(40),
        },
        color: Color { r: 0, g: 255, b: 0, a: 255 },
    }
}

/// The row of the `i`-th other actor of the demo scene: two and a half units
/// further along than the one before, with a behaviour, a color and a seed of its
/// own.
pub open spec fn npc_row(i: int) -> crate::ecs::world::RowModel {
    let x = Fx16 { bits: (i * 163840) as i32 };
    crate::ecs::world::RowModel {
        position: Position { x, y: Fx16::of_int(0) },
        velocity: crate::shell::ai::rest(),
        transform: Transform::spec_at(
            [x, Fx16::of_int(0), Fx16::of_int(0)],
            crate::shell::ai::unit(),
        ),
        velocity3d: Velocity3D::spec_zero(),
        actor: Actor::spec_npc(
            (1 + i % 3) as u32,
            ((i * 2654435761) % 0x1_0000_0000) as u32,
        ),
        color: Color {
            r: ((i * 40) % 256) as u8,
            g: ((i * 90) % 256) as u8,
            b: ((i * 160) % 256) as u8,
            a: 255,
        },
    }
}

/// The demo scene: the player and ten others.
pub open spec fn demo_rows() -> Seq<crate::ecs::world::RowModel> {
    seq![player_row()] + Seq::new(10, |k: int| npc_row(k + 1))
}

/// Builds the demo scene.
pub fn build_scene() -> (r: World)
    ensures
        r.wf(),
        r@ == crate::ecs::world::table(demo_rows()),
        r@.live() == demo_rows(),
{
    let mut w = World::new();
    let zero = Fx16::from_num(0);
    proof {
        assert(demo_rows().take(0) =~= seq![]);
        crate::ecs::world::lemma_fill_table(demo_rows(), 0);
    }
    let _ = w.spawn_row(
        Position { x: zero, y: zero },
        Velocity { x: zero, y: zero },
        Color { r: 0, g: 255, b: 0, a: 255 },
        Transform::at(zero, zero, zero),
        Velocity3D::zero(),
        Actor::player(Fx16::from_num(3), Fx16::from_num(40)),
    );
    let mut i: u32 = 1;
    while i <= 10
        invariant
            1 <= i <= 11,
            zero == Fx16::of_int(0),
            w.wf(),
            w@ == crate::ecs::world::table(demo_rows().take(i as int)),
        decreases 11 - i,
    {
        let x = Fx16::from_bits((i * 163840) as i32);
        let color = Color {
            r: ((i * 40) % 256) as u8,
            g: ((i * 90) % 256) as u8,
            b: ((i * 160) % 256) as u8,
            a: 255,
        };
        let seed: u32 = ((i as u64 * 2654435761) % 0x1_0000_0000) as u32;
        proof {
            crate::ecs::world::lemma_fill_table(demo_rows(), i as int);
            assert(demo_rows()[i as int] == npc_row(i as int));
        }
        let _ = w.spawn_row(
            Position { x, y: zero },
            Velocity { x: zero, y: zero },
            color,
            Transform::at(x, zero, zero),
            Velocity3D::zero(),
            Actor::npc(1 + (i % 3), seed),
        );
        i = i + 1;
    }
    proof {
        assert(demo_rows().take(11) =~= demo_rows());
        crate::ecs::world::law_table(demo_rows(), crate::ecs::world::zero_row());
    }
    w
}

/// The row of an actor added by hand.
pub open spec fn added_row(i: int) -> crate::ecs::world::RowModel {
    crate::ecs::world::RowModel {
        position: crate::shell::ai::origin(),
        velocity: crate::shell::ai::rest(),
        transform: Transform::spec_at(
            [Fx16::of_int(0), Fx16::of_int(0), Fx16::of_int(0)],
            crate::shell::ai::unit(),
        ),
        velocity3d: Velocity3D::spec_zero(),
        actor: Actor::spec_npc(1, i as u32),
        color: Color { r: 200, g: 200, b: 210, a: 255 },
    }
}

/// The rows left when row `e` is deleted by hand: those behind it move up by one,
/// and every row left keeps all but its 2D position and velocity.
pub open spec fn without(
    rows: Seq<crate::ecs::world::RowModel>,
    e: int,
) -> Seq<crate::ecs::world::RowModel> {
    Seq::new(
        (rows.len() - 1) as nat,
        |k: int|
            {
                let r = rows[if k < e {
                    k
                } else {
                    k + 1
                }];
                crate::ecs::world::RowModel {
                    position: crate::shell::ai::origin(),
                    velocity: crate::shell::ai::rest(),
                    ..r
                }
            },
    )
}

/// Rebuilds a world without row `index`; see [`without`].
fn rebuilt_without(world: &World, index: usize) -> (r: World)
    requires
        world.wf(),
        index < world@.count,
    ensures
        r.wf(),
        r@ == crate::ecs::world::table(without(world@.live(), index as int)),
        r@.live() == without(world@.live(), index as int),
{
    proof {
        world.lemma_wf();
    }
    let n: usize = world.entity_count();
    let ghost rows = world@.live();
    let ghost kept = without(rows, index as int);
    let mut fresh = World::new();
    if let (Some(ts), Some(vs), Some(acts), Some(cs)) = (
        world.get_transforms(),
        world.get_velocity_3d(),
        world.get_actors(),
        world.get_colors(),
    ) {
        let zero = Fx16::from_num(0);
        let mut i: usize = 0;
        proof {
            crate::ecs::world::lemma_table_cap(kept.len());
            crate::ecs::world::lemma_table_cap_grows(kept.len(), rows.len());
            assert(kept.take(0) =~= seq![]);
        }
        while i < n
            invariant
                i <= n,
                n == world@.count,
                crate::ecs::world::table_fits(kept.len()),
                index < n,
                world@.wf(),
                rows == world@.live(),
                kept == without(rows, index as int),
                ts@ == world@.transforms,
                vs@ == world@.velocity3d,
                acts@ == world@.actors,
                cs@ == world@.colors,
                zero == Fx16::of_int(0),
                fresh.wf(),
                fresh@ == crate::ecs::world::table(
                    kept.take(
                        if i <= index {
                            i as int
                        } else {
                            i - 1
                        },
                    ),
                ),
            decreases n - i,
        {
            if i != index {
                proof {
                    let k = if i < index {
                        i as int
                    } else {
                        i - 1
                    };
                    crate::ecs::world::lemma_fill_table(kept, k);
                    assert(rows[i as int] == world@.at(i as int));
                }
                let _ = fresh.spawn_row(
                    Position { x: zero, y: zero },
                    Velocity { x: zero, y: zero },
                    cs[i],
                    ts[i],
                    vs[i],
                    acts[i],
                );
            }
            i = i + 1;
        }
        assert(kept.take(n - 1) =~= kept);
    }
    proof {
        crate::ecs::world::law_table(kept, crate::ecs::world::zero_row());
    }
    fresh
}

/// The gameplay input of held keys.
pub open spec fn keys_input(keys: [bool; 5]) -> InputState3D {
    InputState3D {
        forward: if keys[0] {
            1
        } else {
            0
        },
        backward: if keys[1] {
            1
        } else {
            0
        },
        left: if keys[2] {
            1
        } else {
            0
        },
        right: if keys[3] {
            1
        } else {
            0
        },
        jump: if keys[4] {
            1
        } else {
            0
        },
        ..InputState3D::spec_none()
    }
}

fn flag(b: bool) -> (r: u8)
    ensures
        r == if b {
            1u8
        } else {
            0u8
        },
{
    if b {
        1
    } else {
        0
    }
}

/// The gameplay input of held keys: up, down, left, right, jump.
pub fn input_from_keys(keys: &[bool; 5]) -> (r: InputState3D)
    ensures
        r == keys_input(*keys),
{
    let none = InputState3D::none();
    InputState3D {
        yaw_delta: none.yaw_delta,
        pitch_delta: none.pitch_delta,
        forward: flag(keys[0]),
        backward: flag(keys[1]),
        left: flag(keys[2]),
        right: flag(keys[3]),
        jump: flag(keys[4]),
    }
}

/// One write for each transform, to the row at its position.
pub open spec fn row_writes(ts: Seq<Transform>) -> Seq<crate::contracts::delta::WriteModel> {
    Seq::new(
        ts.len(),
        |i: int| crate::editor::commands::one_transform(i as u32, ts[i]),
    )
}

/// The delta that gives the first rows of a world new transforms.
pub fn transforms_delta(ts: &Vec<Transform>) -> (r: WorldDelta)
    requires
        ts@.len() <= u32::MAX,
    ensures
        r.model() == (crate::contracts::delta::DeltaModel {
            spawns: seq![],
            despawns: seq![],
            writes: row_writes(ts@),
            deferred: seq![],
            warnings: seq![],
        }),
{
    let mut delta = WorldDelta::default();
    assert(delta.model().writes.len() == 0);
    assert(delta.model().spawns.len() == 0);
    assert(delta.model().despawns.len() == 0);
    assert(delta.model().deferred.len() == 0);
    assert(delta.model().warnings.len() == 0);
    let mut i: usize = 0;
    while i < ts.len()
        invariant
            i <= ts@.len() <= u32::MAX,
            delta.spawns@.len() == 0,
            delta.despawns@.len() == 0,
            delta.deferred@.len() == 0,
            delta.warnings@.len() == 0,
            delta.writes@.len() == i,
            forall|k: int|
                0 <= k < i ==> (#[trigger] delta.writes@[k]).model() == row_writes(ts@)[k],
        decreases ts@.len() - i,
    {
        let one: [Transform; 1] = [ts[i]];
        let write = ColumnWrite {
            archetype: ArchetypeId(0),
            component: ComponentId(comp::TRANSFORM),
            indices: vec![i as u32],
            payload: crate::runtime::movement::pack::<Transform>(one.as_slice()),
        };
        assert(one@ =~= seq![ts@[i as int]]);
        assert(write.model() =~= row_writes(ts@)[i as int]);
        delta.writes.push(write);
        i = i + 1;
    }
    assert(delta.model().writes =~= row_writes(ts@));
    assert(delta.model().spawns =~= seq![]);
    assert(delta.model().despawns =~= seq![]);
    assert(delta.model().deferred =~= seq![]);
    assert(delta.model().warnings =~= seq![]);
    delta
}

/// A world with the first `n` of some transforms in place of its own.
pub open spec fn retransformed(
    w: crate::ecs::world::WorldModel,
    ts: Seq<Transform>,
    n: nat,
) -> crate::ecs::world::WorldModel {
    crate::ecs::world::WorldModel {
        transforms: ts.take(n as int) + w.transforms.skip(n as int),
        ..w
    }
}

/// Replacing one transform more.
proof fn lemma_retransformed(w: crate::ecs::world::WorldModel, ts: Seq<Transform>, m: nat)
    requires
        w.wf(),
        m < ts.len() <= w.cap(),
    ensures
        retransformed(w, ts, m).wf(),
        retransformed(w, ts, m).with_transform(m as int, ts[m as int]) == retransformed(
            w,
            ts,
            m + 1,
        ),
{
    let rows = ts.take(m as int) + w.transforms.skip(m as int);
    let n = m as int + 1;
    assert(rows.update(m as int, ts[m as int]) =~= ts.take(n) + w.transforms.skip(n));
}

/// Applying one transform write for each row replaces the first transforms of a
/// world and nothing else.
pub proof fn law_transforms_delta_applied(
    w: crate::ecs::world::WorldModel,
    ts: Seq<Transform>,
    n: nat,
)
    requires
        w.wf(),
        n <= ts.len() <= w.cap(),
        ts.len() <= u32::MAX,
    ensures
        crate::ecs::world::written_all(w, row_writes(ts), n) == retransformed(w, ts, n),
    decreases n,
{
    if n == 0 {
        assert(ts.take(0) + w.transforms.skip(0) =~= w.transforms);
        assert(retransformed(w, ts, 0) == w);
    } else {
        let m = (n - 1) as nat;
        law_transforms_delta_applied(w, ts, m);
        lemma_retransformed(w, ts, m);
        crate::editor::commands::lemma_one_transform(
            retransformed(w, ts, m),
            m as u32,
            ts[m as int],
        );
        assert(row_writes(ts)[m as int] == crate::editor::commands::one_transform(
            m as u32,
            ts[m as int],
        ));
    }
}

/// The name of a row in the entity list.
pub open spec fn label_text(i: u32) -> Seq<char> {
    (if i == 0 {
        "Player (entity "@
    } else {
        "NPC (entity "@
    }) + crate::text::decimal(i as nat) + ")"@
}

/// The name of a row in the entity list.
pub fn entity_label(i: u32) -> (r: String)
    ensures
        r@ == label_text(i),
{
    let d = crate::text::decimal_text(i as u64);
    let mut s = if i == 0 {
        "Player (entity ".to_owned()
    } else {
        "NPC (entity ".to_owned()
    };
    s.append(d.as_str());
    s.append(")");
    s
}

/// What the inspector shows.
#[derive(Clone, Copy, Debug)]
pub enum Inspection {
    /// Nothing is selected.
    NoSelection,
    /// The editor is playing.
    Locked,
    /// The selected row does not exist.
    OutOfRange,
    /// A row and its transform.
    Editable(u32, Transform),
}

impl Inspection {
    /// The line shown in place of the fields, if there is nothing to edit.
    pub fn message(&self) -> (r: Option<String>)
        ensures
            match (r, *self) {
                (Some(t), Inspection::NoSelection) => t@ == "(no entity selected)"@,
                (Some(t), Inspection::Locked) => t@ == "Editing is locked while playing."@,
                (Some(t), Inspection::OutOfRange) => t@ == "selection out of range"@,
                (None, Inspection::Editable(_, _)) => true,
                _ => false,
            },
    {
        match self {
            Inspection::NoSelection => Some("(no entity selected)".to_owned()),
            Inspection::Locked => Some("Editing is locked while playing.".to_owned()),
            Inspection::OutOfRange => Some("selection out of range".to_owned()),
            Inspection::Editable(_, _) => None,
        }
    }
}

/// What a frame of pointer input means for a drag.
#[derive(Clone, Copy, Debug)]
pub struct DragEvent {
    /// Whether the viewport is on screen.
    pub viewport: bool,
    /// Whether the pointer steers the camera.
    pub nav: bool,
    /// Whether the pointer is over the viewport.
    pub over: bool,
    /// Whether the primary button went down in this frame.
    pub pressed: bool,
}

/// What a drag needs next: the dragged row, and whether the drag begins.
#[derive(Clone, Copy, PartialEq, Eq, Structural, Debug)]
pub struct DragPlan {
    /// The row.
    pub entity: u32,
    /// Whether the offset between pointer and entity must be taken.
    pub begin: bool,
}

/// Whether a drag can go on at all this frame.
pub open spec fn drag_possible(app: EditorApp, ev: DragEvent) -> bool {
    &&& app.state.mode == EditorMode::Edit
    &&& app.tool == EditorTool::Move
    &&& app.selection.selected@.len() > 0
    &&& ev.viewport
    &&& !ev.nav
    &&& ev.over
    &&& app.selection.selected@[0] < app.state.edit_world@.cap()
}

/// Whether a drag in progress is given up this frame: when the editor leaves edit
/// mode, or when the pointer steers the camera or leaves the viewport while there
/// is something to move.
pub open spec fn drag_dropped(app: EditorApp, ev: DragEvent) -> bool {
    ||| app.state.mode != EditorMode::Edit
    ||| (app.tool == EditorTool::Move && app.selection.selected@.len() > 0 && ev.viewport && (
    ev.nav || !ev.over))
}

/// Whether the delete key hits: in edit mode, with a live row selected first.
pub open spec fn hits_live_row(app: EditorApp, delete: bool) -> bool {
    &&& app.state.mode == EditorMode::Edit
    &&& delete
    &&& app.selection.selected@.len() > 0
    &&& app.selection.selected@[0] < app.state.edit_world@.count
}

impl EditorApp {
    /// The worlds are well-formed.
    pub open spec fn wf(&self) -> bool {
        self.state.wf()
    }

    /// The parts that are neither worlds, nor selection, nor history.
    pub open spec fn ui(&self) -> UiModel {
        UiModel {
            frame: self.frame,
            keys: self.keys,
            follow_active: self.follow_active,
            scene_path: self.scene_path,
            scene_notice: match self.scene_notice {
                Some(s) => Some(s@),
                None => None,
            },
            tool: self.tool,
            move_active: self.move_active,
            snap: self.snap,
            move_grab: self.move_grab,
        }
    }

    /// An editor over the demo scene, with its scene file.
    pub fn new(scene_path: String) -> (r: Self)
        ensures
            r.wf(),
            r.state.mode == EditorMode::Edit,
            r.state.edit_world@ == crate::ecs::world::table(demo_rows()),
            r.state.edit_world@.live() == demo_rows(),
            r.state.play_world is None,
            r.selection.selected@ == Seq::<u32>::empty(),
            r.selection.hovered is None,
            r.undo.done() == Seq::<ModifyTransformCommand>::empty(),
            r.undo.undone() == Seq::<ModifyTransformCommand>::empty(),
            r.frame == 0,
            r.keys@ == seq![false, false, false, false, false],
            !r.follow_active,
            r.scene_path == scene_path,
            r.scene_notice is None,
            r.tool == EditorTool::Select,
            !r.move_active,
            r.snap,
            r.move_grab is None,
    {
        let r = EditorApp {
            state: EditorState::new(build_scene()),
            selection: SelectionModel::new(),
            undo: UndoRedoManager::new(),
            frame: 0,
            keys: [false, false, false, false, false],
            follow_active: false,
            scene_path,
            scene_notice: None,
            tool: EditorTool::Select,
            move_active: false,
            snap: true,
            move_grab: None,
        };
        assert(r.keys@ =~= seq![false, false, false, false, false]);
        r
    }

    /// Adds an actor to the authored world, selects it and returns its row.
    pub fn spawn_actor(&mut self) -> (r: Option<u32>)
        requires
            old(self).wf(),
            World::can_spawn(old(self).state.edit_world@),
            old(self).state.edit_world@.count <= u32::MAX,
        ensures
            final(self).wf(),
            r == Some(old(self).state.edit_world@.count as u32),
            final(self).state.edit_world@ == crate::ecs::world::spawned(
                old(self).state.edit_world@,
                added_row(old(self).state.edit_world@.count as int),
            ),
            final(self).state.edit_world@.live() == old(self).state.edit_world@.live().push(
                added_row(old(self).state.edit_world@.count as int),
            ),
            final(self).state.mode == old(self).state.mode,
            final(self).state.play_world == old(self).state.play_world,
            final(self).selection.selected@ == seq![old(self).state.edit_world@.count as u32],
            final(self).selection.hovered == old(self).selection.hovered,
            final(self).undo == old(self).undo,
            final(self).ui() == old(self).ui(),
    {
        let zero = Fx16::from_num(0);
        let n: usize = self.state.edit_world.entity_count();
        let i: usize = self.state.edit_world.spawn_row(
            Position { x: zero, y: zero },
            Velocity { x: zero, y: zero },
            Color { r: 200, g: 200, b: 210, a: 255 },
            Transform::at(zero, zero, zero),
            Velocity3D::zero(),
            Actor::npc(1, n as u32),
        );
        self.selection.selected = vec![i as u32];
        Some(i as u32)
    }

    /// Removes an actor from the authored world and clears the selection. A row
    /// that is not live is left alone, and so is the selection then.
    pub fn delete_actor(&mut self, index: usize)
        requires
            old(self).wf(),
        ensures
            final(self).wf(),
            final(self).state.mode == old(self).state.mode,
            final(self).state.play_world == old(self).state.play_world,
            final(self).undo == old(self).undo,
            final(self).ui() == old(self).ui(),
            index >= old(self).state.edit_world@.count ==> *final(self) == *old(self),
            index < old(self).state.edit_world@.count ==> final(self).state.edit_world@
                == crate::ecs::world::table(
                without(old(self).state.edit_world@.live(), index as int),
            ) && final(self).state.edit_world@.live() == without(
                old(self).state.edit_world@.live(),
                index as int,
            ) && final(self).selection.selected@ == Seq::<u32>::empty()
                && final(self).selection.hovered == old(self).selection.hovered,
    {
        if index >= self.state.edit_world.entity_count() {
            return;
        }
        self.state.edit_world = rebuilt_without(&self.state.edit_world, index);
        self.selection.selected.clear();
    }

    /// The keys of the edit mode: the select tool, the move tool, and the removal
    /// of the first selected actor. They do nothing in other modes.
    pub fn hotkeys(&mut self, select: bool, mv: bool, delete: bool)
        requires
            old(self).wf(),
        ensures
            final(self).wf(),
            final(self).state.mode == old(self).state.mode,
            final(self).state.play_world == old(self).state.play_world,
            old(self).state.mode != EditorMode::Edit ==> *final(self) == *old(self),
            final(self).undo == old(self).undo,
            old(self).state.mode == EditorMode::Edit ==> final(self).ui() == (UiModel {
                tool: if mv {
                    EditorTool::Move
                } else if select {
                    EditorTool::Select
                } else {
                    old(self).tool
                },
                ..old(self).ui()
            }),
            hits_live_row(*old(self), delete) ==> final(self).state.edit_world@
                == crate::ecs::world::table(
                without(
                    old(self).state.edit_world@.live(),
                    old(self).selection.selected@[0] as int,
                ),
            ) && final(self).state.edit_world@.live() == without(
                old(self).state.edit_world@.live(),
                old(self).selection.selected@[0] as int,
            ) && final(self).selection.selected@ == Seq::<u32>::empty()
                && final(self).selection.hovered == old(self).selection.hovered,
            !hits_live_row(*old(self), delete) ==> final(self).state.edit_world
                == old(self).state.edit_world && final(self).selection == old(self).selection,
    {
        if self.state.mode != EditorMode::Edit {
            return;
        }
        if select {
            self.tool = EditorTool::Select;
        }
        if mv {
            self.tool = EditorTool::Move;
        }
        if delete {
            if let Some(i) = self.selection.first() {
                self.delete_actor(i as usize);
            }
        }
    }

    /// The first half of a drag frame: gives up or goes on, and names the row to
    /// move.
    pub fn drag_plan(&mut self, ev: DragEvent) -> (r: Option<DragPlan>)
        requires
            old(self).wf(),
        ensures
            final(self).wf(),
            final(self).state == old(self).state,
            final(self).selection == old(self).selection,
            final(self).undo == old(self).undo,
            final(self).ui() == if drag_dropped(*old(self), ev) {
                UiModel { move_active: false, move_grab: None, ..old(self).ui() }
            } else {
                old(self).ui()
            },
            r == if drag_possible(*old(self), ev) {
                Some(
                    DragPlan {
                        entity: old(self).selection.selected@[0],
                        begin: ev.pressed && !old(self).move_active,
                    },
                )
            } else {
                None
            },
    {
        if self.state.mode != EditorMode::Edit {
            self.drop_drag();
            return None;
        }
        if self.tool != EditorTool::Move {
            return None;
        }
        match self.selection.first() {
            None => None,
            Some(entity) => {
                if !ev.viewport {
                    return None;
                }
                if ev.nav || !ev.over {
                    self.drop_drag();
                    return None;
                }
                match self.edit_transform(entity) {
                    None => None,
                    Some(_) => Some(
                        DragPlan { entity, begin: ev.pressed && !self.move_active },
                    ),
                }
            },
        }
    }

    /// The second half of a drag frame: takes the offset of a drag that begins,
    /// moves the row to `target` (x, z) while the button is down, and gives the
    /// drag up when it is released. The height of the row is kept.
    pub fn drag_apply(
        &mut self,
        entity: u32,
        grab: Option<[u32; 2]>,
        target: Option<[Fx16; 2]>,
        down: bool,
    )
        requires
            old(self).wf(),
            entity < old(self).state.edit_world@.cap(),
        ensures
            final(self).wf(),
            final(self).state.mode == old(self).state.mode,
            final(self).state.play_world == old(self).state.play_world,
            final(self).selection == old(self).selection,
            final(self).undo == old(self).undo,
            final(self).ui() == (UiModel {
                move_active: down && (grab is Some || old(self).move_active),
                move_grab: if !down {
                    None
                } else if grab is Some {
                    Some((grab->0, entity))
                } else {
                    old(self).move_grab
                },
                ..old(self).ui()
            }),
            final(self).state.edit_world@ == if down && target is Some && (grab is Some
                || old(self).move_active) {
                old(self).state.edit_world@.with_transform(
                    entity as int,
                    slid(
                        old(self).state.edit_world@.transforms[entity as int],
                        target->0[0],
                        target->0[1],
                    ),
                )
            } else {
                old(self).state.edit_world@
            },
    {
        if let Some(off) = grab {
            self.move_grab = Some((off, entity));
            self.move_active = true;
        }
        if self.move_active && down {
            if let Some(to) = target {
                if let Some(mut t) = self.edit_transform(entity) {
                    t.position = [to[0], t.position[1], to[1]];
                    self.state.edit_world.set_transform(entity as usize, t);
                }
            }
        }
        if !down {
            self.drop_drag();
        }
    }

    /// Gives a drag up.
    fn drop_drag(&mut self)
        ensures
            final(self).state == old(self).state,
            final(self).selection == old(self).selection,
            final(self).undo == old(self).undo,
            final(self).ui() == (UiModel {
                move_active: false,
                move_grab: None,
                ..old(self).ui()
            }),
    {
        self.move_active = false;
        self.move_grab = None;
    }

    /// The transform of a row of the authored world, if the row exists.
    pub fn edit_transform(&self, entity: u32) -> (r: Option<Transform>)
        requires
            self.wf(),
        ensures
            r == if entity < self.state.edit_world@.cap() {
                Some(self.state.edit_world@.transforms[entity as int])
            } else {
                None
            },
    {
        proof {
            self.state.edit_world.lemma_wf();
        }
        match self.state.edit_world.get_transforms() {
            Some(ts) => {
                if (entity as usize) < ts.len() {
                    Some(ts[entity as usize])
                } else {
                    None
                }
            },
            None => None,
        }
    }

    /// What the inspector shows.
    pub fn inspect(&self) -> (r: Inspection)
        requires
            self.wf(),
        ensures
            r == if self.selection.selected@.len() == 0 {
                Inspection::NoSelection
            } else if self.state.mode != EditorMode::Edit {
                Inspection::Locked
            } else if self.selection.selected@[0] >= self.state.edit_world@.cap() {
                Inspection::OutOfRange
            } else {
                Inspection::Editable(
                    self.selection.selected@[0],
                    self.state.edit_world@.transforms[self.selection.selected@[0] as int],
                )
            },
    {
        match self.selection.first() {
            None => Inspection::NoSelection,
            Some(id) => {
                if !self.state.can_edit() {
                    return Inspection::Locked;
                }
                match self.edit_transform(id) {
                    None => Inspection::OutOfRange,
                    Some(t) => Inspection::Editable(id, t),
                }
            },
        }
    }

    /// Records and applies an edit made in the inspector.
    pub fn commit_edit(&mut self, id: u32, before: Transform, after: Transform)
        requires
            old(self).wf(),
        ensures
            final(self).wf(),
            final(self).state.mode == old(self).state.mode,
            final(self).state.play_world == old(self).state.play_world,
            final(self).selection == old(self).selection,
            final(self).state.edit_world@ == old(self).state.edit_world@.with_transform(
                id as int,
                after,
            ),
            final(self).undo.done() == old(self).undo.done().push(
                ModifyTransformCommand { entity_index: id, old_value: before, new_value: after },
            ),
            final(self).undo.undone() == Seq::<ModifyTransformCommand>::empty(),
            final(self).ui() == old(self).ui(),
    {
        proof {
            self.state.edit_world.lemma_wf();
            crate::editor::commands::law_transform_delta(self.state.edit_world@, id, after);
        }
        self.undo.execute(
            &mut self.state.edit_world,
            ModifyTransformCommand { entity_index: id, old_value: before, new_value: after },
        );
    }

    /// Starts a simulation step: says whether to simulate, and whether the camera
    /// has to be placed behind the player first. Outside of play the camera is
    /// given back.
    pub fn begin_step(&mut self) -> (r: (bool, bool))
        requires
            old(self).wf(),
        ensures
            final(self).wf(),
            r.0 == (old(self).state.mode == EditorMode::Playing),
            r.1 == (r.0 && !old(self).follow_active),
            final(self).ui() == (UiModel { follow_active: r.0, ..old(self).ui() }),
            final(self).state == old(self).state,
            final(self).selection == old(self).selection,
            final(self).undo == old(self).undo,
    {
        if self.state.mode != EditorMode::Playing {
            self.follow_active = false;
            return (false, false);
        }
        let frame_camera = !self.follow_active;
        self.follow_active = true;
        (true, frame_camera)
    }

    /// Applies the delta of a tick to the world that may be changed now, and
    /// counts the tick. A tick that failed leaves the world alone.
    pub fn finish_tick(&mut self, delta: Option<WorldDelta>)
        requires
            old(self).wf(),
            old(self).frame < u64::MAX,
        ensures
            final(self).wf(),
            final(self).ui() == (UiModel {
                frame: (old(self).frame + 1) as u64,
                ..old(self).ui()
            }),
            final(self).selection == old(self).selection,
            final(self).undo == old(self).undo,
            final(self).state.mode == old(self).state.mode,
            old(self).state.mode != EditorMode::Edit ==> final(self).state.edit_world
                == old(self).state.edit_world && final(self).state.play_world is Some
                && final(self).state.play_world->0@ == ticked(
                old(self).state.play_world->0@,
                delta,
            ),
            old(self).state.mode == EditorMode::Edit ==> final(self).state.play_world
                == old(self).state.play_world && final(self).state.edit_world@ == ticked(
                old(self).state.edit_world@,
                delta,
            ),
    {
        if let Some(d) = &delta {
            if let Some(world) = self.state.mutable_world() {
                world.apply_delta(d);
            }
        }
        self.frame = self.frame + 1;
    }

    /// The scene of the authored world, to be saved.
    pub fn scene_content(&self) -> (r: SceneContent)
        requires
            self.wf(),
        ensures
            r.version == crate::ecs::scene::SCENE_VERSION,
            r.entities@ == crate::ecs::scene::entities_of(self.state.edit_world@),
            crate::ecs::world::table_fits(r.entities@.len()),
    {
        crate::ecs::scene::content_from_world(&self.state.edit_world)
    }

    /// Notes how saving `entities` entities went.
    pub fn save_scene(&mut self, entities: usize, outcome: Result<(), String>)
        requires
            old(self).wf(),
        ensures
            final(self).wf(),
            final(self).state == old(self).state,
            final(self).selection == old(self).selection,
            final(self).undo == old(self).undo,
            final(self).ui() == (UiModel {
                scene_notice: Some(
                    match outcome {
                        Ok(_) => "saved "@ + crate::text::decimal(entities as nat)
                            + " entities -> "@ + old(self).scene_path@,
                        Err(e) => "save failed: "@ + e@,
                    },
                ),
                ..old(self).ui()
            }),
    {
        let notice = match outcome {
            Ok(_) => {
                let d = crate::text::decimal_text(entities as u64);
                let mut s = crate::text::joined("saved ", d.as_str());
                s.append(" entities -> ");
                s.append(self.scene_path.as_str());
                s
            },
            Err(e) => crate::text::joined("save failed: ", e.as_str()),
        };
        self.scene_notice = Some(notice);
    }

    /// Loads a scene that was read into the authored world, and notes how that
    /// went. Nothing is loaded while the editor plays.
    pub fn load_scene(&mut self, read: Result<SceneContent, String>)
        requires
            old(self).wf(),
            read is Ok ==> crate::ecs::world::table_fits(read->Ok_0.entities@.len()),
        ensures
            final(self).wf(),
            final(self).state.mode == old(self).state.mode,
            final(self).state.play_world == old(self).state.play_world,
            final(self).undo == old(self).undo,
            final(self).ui() == (UiModel {
                scene_notice: Some(
                    load_notice(old(self).state.mode, old(self).scene_path@, read),
                ),
                ..old(self).ui()
            }),
            load_possible(old(self).state.mode, read) ==> final(self).state.edit_world@
                == crate::ecs::world::table(crate::ecs::scene::rows_of(read->Ok_0.entities@))
                && final(self).state.edit_world@.live() == crate::ecs::scene::rows_of(
                read->Ok_0.entities@,
            ) && final(self).selection.selected@ == Seq::<u32>::empty()
                && final(self).selection.hovered == old(self).selection.hovered,
            !load_possible(old(self).state.mode, read) ==> final(self).state.edit_world
                == old(self).state.edit_world && final(self).selection == old(self).selection,
    {
        if !self.state.can_edit() {
            self.scene_notice = Some("stop Play before loading a scene".to_owned());
            return;
        }
        let loaded = match read {
            Ok(content) => crate::ecs::scene::world_from_content(&content),
            Err(e) => Err(e),
        };
        match loaded {
            Ok(world) => {
                let n: usize = world.entity_count();
                assert(world@.live().len() == world@.count);
                self.state.edit_world = world;
                self.selection.selected.clear();
                let mut s = crate::text::joined("loaded ", self.scene_path.as_str());
                s.append(" -> ");
                let d = crate::text::decimal_text(n as u64);
                s.append(d.as_str());
                s.append(" entities");
                self.scene_notice = Some(s);
            },
            Err(e) => {
                self.scene_notice = Some(crate::text::joined("load failed: ", e.as_str()));
            },
        }
    }

    /// Selects what a click in the viewport hit, or nothing.
    pub fn handle_viewport_click(&mut self, hit: Option<u32>)
        requires
            old(self).wf(),
        ensures
            final(self).wf(),
            final(self).state == old(self).state,
            final(self).undo == old(self).undo,
            final(self).ui() == old(self).ui(),
            final(self).selection.selected@ == match hit {
                Some(id) => seq![id],
                None => Seq::<u32>::empty(),
            },
            final(self).selection.hovered == old(self).selection.hovered,
    {
        self.selection.select_hit(hit);
    }
}

/// A world after a tick.
pub open spec fn ticked(
    w: crate::ecs::world::WorldModel,
    delta: Option<WorldDelta>,
) -> crate::ecs::world::WorldModel {
    match delta {
        Some(d) => crate::editor::commands::applied(w, d.model()),
        None => w,
    }
}

/// A transform moved on the ground.
pub open spec fn slid(t: Transform, x: Fx16, z: Fx16) -> Transform {
    Transform { position: [x, t.position[1], z], ..t }
}

/// Whether a scene that was read can be loaded.
pub open spec fn load_possible(mode: EditorMode, read: Result<SceneContent, String>) -> bool {
    &&& mode == EditorMode::Edit
    &&& read is Ok
    &&& read->Ok_0.version == crate::ecs::scene::SCENE_VERSION
}

/// The notice of a load.
pub open spec fn load_notice(
    mode: EditorMode,
    path: Seq<char>,
    read: Result<SceneContent, String>,
) -> Seq<char> {
    if mode != EditorMode::Edit {
        "stop Play before loading a scene"@
    } else {
        match read {
            Ok(c) => if c.version == crate::ecs::scene::SCENE_VERSION {
                "loaded "@ + path + " -> "@ + crate::text::decimal(c.entities@.len())
                    + " entities"@
            } else {
                "load failed: "@ + crate::ecs::scene::version_text(c.version)
            },
            Err(e) => "load failed: "@ + e@,
        }
    }
}

/// Adding an actor and deleting it again leaves the rows there were, but for 2D
/// positions and velocities, which deleting clears.
pub proof fn law_add_then_delete(rows: Seq<crate::ecs::world::RowModel>)
    ensures
        without(rows.push(added_row(rows.len() as int)), rows.len() as int) == Seq::new(
            rows.len(),
            |k: int|
                {
                    let r = rows[k];
                    crate::ecs::world::RowModel {
                        position: crate::shell::ai::origin(),
                        velocity: crate::shell::ai::rest(),
                        ..r
                    }
                },
        ),
{
    let more = rows.push(added_row(rows.len() as int));
    assert forall|k: int| 0 <= k < rows.len() implies more[k] == rows[k] by {
    }
    assert(without(more, rows.len() as int) =~= Seq::new(
        rows.len(),
        |k: int|
            {
                let r = rows[k];
                crate::ecs::world::RowModel {
                    position: crate::shell::ai::origin(),
                    velocity: crate::shell::ai::rest(),
                    ..r
                }
            },
    ));
}

/// Deleting a row takes out that row and no other: of the rows left, each has the
/// transform, the 3D velocity, the actor and the color of a row that was there
/// before, those in front of the deleted row at their places and those behind it
/// one place further up; its 2D position and velocity are zero.
pub proof fn law_delete_takes_out_one_row(
    rows: Seq<crate::ecs::world::RowModel>,
    e: int,
    k: int,
)
    requires
        0 <= e < rows.len(),
        0 <= k < rows.len() - 1,
    ensures
        ({
            let left = without(rows, e);
            let was = if k < e {
                rows[k]
            } else {
                rows[k + 1]
            };
            &&& left.len() == rows.len() - 1
            &&& rows.remove(e)[k] == was
            &&& left[k].transform == was.transform
            &&& left[k].velocity3d == was.velocity3d
            &&& left[k].actor == was.actor
            &&& left[k].color == was.color
            &&& left[k].position.x.bits == 0 && left[k].position.y.bits == 0
            &&& left[k].velocity.x.bits == 0 && left[k].velocity.y.bits == 0
        }),
{
}

/// The demo scene: eleven actors, the player first. The player stands at the origin,
/// green, with a speed of 3 and a jump force of 40.
pub proof fn law_demo_player()
    ensures
        demo_rows().len() == 11,
        demo_rows()[0].actor == (Actor {
            kind: 0,
            seed: 0,
            grounded: 1,
            jump_cd: 0,
            move_speed: Fx16 { bits: 196608 },
            jump_force: Fx16 { bits: 2621440 },
        }),
        demo_rows()[0].color == (Color { r: 0, g: 255, b: 0, a: 255 }),
        demo_rows()[0].position.x.bits == 0 && demo_rows()[0].position.y.bits == 0,
        demo_rows()[0].velocity.x.bits == 0 && demo_rows()[0].velocity.y.bits == 0,
        forall|k: int|
            0 <= k < 3 ==> (#[trigger] demo_rows()[0].transform.position[k]).bits == 0,
        forall|k: int|
            0 <= k < 3 ==> (#[trigger] demo_rows()[0].transform.scale[k]).bits == 65536,
        forall|k: int|
            0 <= k < 3 ==> (#[trigger] demo_rows()[0].transform.rotation[k]).bits == 0,
        demo_rows()[0].transform.rotation[3].bits == 65536,
        forall|k: int| 0 <= k < 3 ==> (#[trigger] demo_rows()[0].velocity3d.linear[k]).bits == 0,
{
}

/// The other actors of the demo scene stand in a line, two and a half units apart,
/// with the three behaviours in turn and a speed of one.
pub proof fn law_demo_others(i: int)
    requires
        1 <= i <= 10,
    ensures
        ({
            let r = demo_rows()[i];
            &&& 2 * r.transform.position[0].bits == i * 5 * 65536
            &&& r.transform.position[1].bits == 0 && r.transform.position[2].bits == 0
            &&& r.position.x == r.transform.position[0] && r.position.y.bits == 0
            &&& r.velocity.x.bits == 0 && r.velocity.y.bits == 0
            &&& forall|k: int| 0 <= k < 3 ==> (#[trigger] r.transform.scale[k]).bits == 65536
            &&& forall|k: int| 0 <= k < 3 ==> (#[trigger] r.transform.rotation[k]).bits == 0
            &&& r.transform.rotation[3].bits == 65536
            &&& forall|k: int| 0 <= k < 3 ==> (#[trigger] r.velocity3d.linear[k]).bits == 0
            &&& 1 <= r.actor.kind <= 3 && (r.actor.kind - 1 - i) % 3 == 0
            &&& (r.actor.seed - i * 2654435761) % 0x1_0000_0000 == 0
            &&& r.actor.grounded == 1 && r.actor.jump_cd == 0
            &&& r.actor.move_speed.bits == 65536 && r.actor.jump_force.bits == 65536
            &&& (r.color.r - 40 * i) % 256 == 0
            &&& (r.color.g - 90 * i) % 256 == 0
            &&& (r.color.b - 160 * i) % 256 == 0
            &&& r.color.a == 255
        }),
{
    assert(demo_rows()[i] == npc_row(i));
    let k = 1 + i % 3;
    assert((k - 1 - i) % 3 == 0);
    let s = (i * 2654435761) % 0x1_0000_0000;
    assert((s - i * 2654435761) % 0x1_0000_0000 == 0);
    assert(((i * 40) % 256 - 40 * i) % 256 == 0);
    assert(((i * 90) % 256 - 90 * i) % 256 == 0);
    assert(((i * 160) % 256 - 160 * i) % 256 == 0);
}

/// An actor added by hand stands at the origin with unit scale, wanders with its row
/// as seed, and is light grey.
pub proof fn law_added_actor(i: int)
    requires
        0 <= i <= u32::MAX,
    ensures
        added_row(i).actor.kind == 1 && added_row(i).actor.seed == i,
        added_row(i).actor.grounded == 1 && added_row(i).actor.jump_cd == 0,
        added_row(i).actor.move_speed.bits == 65536 && added_row(i).actor.jump_force.bits == 65536,
        added_row(i).color == (Color { r: 200, g: 200, b: 210, a: 255 }),
        forall|k: int| 0 <= k < 3 ==> (#[trigger] added_row(i).transform.position[k]).bits == 0,
        forall|k: int| 0 <= k < 3 ==> (#[trigger] added_row(i).transform.scale[k]).bits == 65536,
        forall|k: int| 0 <= k < 3 ==> (#[trigger] added_row(i).transform.rotation[k]).bits == 0,
        added_row(i).transform.rotation[3].bits == 65536,
        forall|k: int| 0 <= k < 3 ==> (#[trigger] added_row(i).velocity3d.linear[k]).bits == 0,
        added_row(i).position.x.bits == 0 && added_row(i).position.y.bits == 0,
        added_row(i).velocity.x.bits == 0 && added_row(i).velocity.y.bits == 0,
{
}

/// Each key stands for its own direction, and no key turns the view.
pub proof fn law_keys_steer(keys: [bool; 5])
    ensures
        (keys_input(keys).forward == 1) == keys[0] && keys_input(keys).forward <= 1,
        (keys_input(keys).backward == 1) == keys[1] && keys_input(keys).backward <= 1,
        (keys_input(keys).left == 1) == keys[2] && keys_input(keys).left <= 1,
        (keys_input(keys).right == 1) == keys[3] && keys_input(keys).right <= 1,
        (keys_input(keys).jump == 1) == keys[4] && keys_input(keys).jump <= 1,
        keys_input(keys).yaw_delta.bits == 0 && keys_input(keys).pitch_delta.bits == 0,
{
}

/// A delta of transforms gives row `i` transform `i`, for as many rows as there are
/// transforms, and leaves all other rows and columns as they were.
pub proof fn law_transforms_delta_rows(
    w: crate::ecs::world::WorldModel,
    ts: Seq<Transform>,
    i: int,
)
    requires
        w.wf(),
        ts.len() <= w.cap(),
        ts.len() <= u32::MAX,
        0 <= i < w.cap(),
    ensures
        ({
            let after = crate::ecs::world::written_all(w, row_writes(ts), ts.len());
            &&& row_writes(ts).len() == ts.len()
            &&& i < ts.len() ==> after.at(i) == (crate::ecs::world::RowModel {
                transform: ts[i],
                ..w.at(i)
            })
            &&& i >= ts.len() ==> after.at(i) == w.at(i)
            &&& after.count == w.count
        }),
{
    law_transforms_delta_applied(w, ts, ts.len());
}

/// The list calls the first row the player and every other one an actor, and names
/// the row.
pub proof fn law_labels(i: u32)
    ensures
        i == 0 ==> label_text(i) == "Player (entity 0)"@,
        i > 0 ==> label_text(i) == "NPC (entity "@ + crate::text::decimal(i as nat) + seq![')'],
{
    reveal_strlit("Player (entity ");
    reveal_strlit("Player (entity 0)");
    reveal_strlit(")");
    assert(")"@ =~= seq![')']);
    crate::text::law_decimal(0, 0);
    if i == 0 {
        assert(crate::text::decimal(0) =~= seq!['0']);
        assert(label_text(i) =~= "Player (entity 0)"@);
    }
}

/// A row that is dragged keeps its height, its rotation and its scale.
pub proof fn law_drag_stays_on_the_ground(t: Transform, x: Fx16, z: Fx16)
    ensures
        slid(t, x, z).position[0] == x,
        slid(t, x, z).position[1] == t.position[1],
        slid(t, x, z).position[2] == z,
        slid(t, x, z).rotation == t.rotation,
        slid(t, x, z).scale == t.scale,
{
}

/// The delete key takes effect exactly in edit mode, when it is pressed and the
/// first selected row is live.
pub proof fn law_delete_key(app: EditorApp, delete: bool)
    ensures
        hits_live_row(app, delete) <==> (delete && app.state.mode == EditorMode::Edit
            && app.selection.selected@.len() > 0 && app.selection.selected@.first()
            < app.state.edit_world@.count),
{
}

/// A scene is loaded exactly when it was read, has the current version, and the
/// editor is not playing; the notice says what was loaded, or why nothing was.
pub proof fn law_load(mode: EditorMode, path: Seq<char>, read: Result<SceneContent, String>)
    ensures
        load_possible(mode, read) <==> (mode == EditorMode::Edit && read is Ok
            && read->Ok_0.version == 1),
        load_possible(mode, read) ==> load_notice(mode, path, read) == "loaded "@ + path + " -> "@
            + crate::text::decimal(read->Ok_0.entities@.len()) + " entities"@,
        mode != EditorMode::Edit ==> load_notice(mode, path, read)
            == "stop Play before loading a scene"@,
        mode == EditorMode::Edit && read is Err ==> load_notice(mode, path, read)
            == "load failed: "@ + read->Err_0@,
        mode == EditorMode::Edit && read is Ok && read->Ok_0.version != 1 ==> load_notice(
            mode,
            path,
            read,
        ) == "load failed: unsupported scene version "@ + crate::text::decimal(
            read->Ok_0.version as nat,
        ),
{
    reveal_strlit("load failed: ");
    reveal_strlit("unsupported scene version ");
    reveal_strlit("load failed: unsupported scene version ");
    assert("load failed: "@ + "unsupported scene version "@
        =~= "load failed: unsupported scene version "@);
    if read is Ok {
        let d = crate::text::decimal(read->Ok_0.version as nat);
        assert("load failed: "@ + ("unsupported scene version "@ + d) =~= ("load failed: "@
            + "unsupported scene version "@) + d);
    }
}

/// A tick without a delta changes nothing, and a tick with one does what its writes
/// do, in order.
pub proof fn law_tick(w: crate::ecs::world::WorldModel, d: WorldDelta)
    ensures
        ticked(w, None) == w,
        ticked(w, Some(d)) == crate::ecs::world::written_all(
            w,
            d.model().writes,
            d.model().writes.len(),
        ),
{
}

/// A drag goes on in a frame exactly when the editor authors with the move tool, the
/// pointer is over a viewport on screen without steering the camera, and the first
/// selected row exists; it is given up when the editor does not author, or the
/// pointer steers or leaves the viewport. Never both, and in edit mode without the
/// move tool neither.
pub proof fn law_drags(app: EditorApp, ev: DragEvent)
    ensures
        drag_possible(app, ev) ==> !drag_dropped(app, ev),
        app.state.mode != EditorMode::Edit ==> drag_dropped(app, ev),
        app.state.mode == EditorMode::Edit && app.tool != EditorTool::Move ==> !drag_possible(
            app,
            ev,
        ) && !drag_dropped(app, ev),
        app.state.mode == EditorMode::Edit && app.selection.selected@.len() == 0
            ==> !drag_possible(app, ev) && !drag_dropped(app, ev),
        app.state.mode == EditorMode::Edit && !ev.viewport ==> !drag_possible(app, ev)
            && !drag_dropped(app, ev),
        app.state.mode == EditorMode::Edit && app.tool == EditorTool::Move
            && app.selection.selected@.len() > 0 && ev.viewport ==> (drag_dropped(app, ev) <==> (
        ev.nav || !ev.over)) && (drag_possible(app, ev) <==> (!ev.nav && ev.over
            && app.selection.selected@.first() < app.state.edit_world@.positions.len())),
{
}

/// The parts of an editor that are neither worlds, nor selection, nor history, each
/// under its own name.
pub proof fn law_ui_parts(app: EditorApp)
    ensures
        app.ui().frame == app.frame && app.ui().keys == app.keys,
        app.ui().follow_active == app.follow_active,
        app.ui().scene_path == app.scene_path,
        app.scene_notice is Some ==> app.ui().scene_notice == Some(app.scene_notice->0@),
        app.scene_notice is None ==> app.ui().scene_notice is None,
        app.ui().tool == app.tool && app.ui().snap == app.snap,
        app.ui().move_active == app.move_active && app.ui().move_grab == app.move_grab,
{
}

} // verus!
