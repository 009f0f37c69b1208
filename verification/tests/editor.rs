use openengine::contracts::components::{Color, Position, Transform, Velocity};
use openengine::contracts::delta::WorldDelta;
use openengine::ecs::world::World;
use openengine::editor::commands::{Command, ModifyTransformCommand, UndoRedoManager};
use openengine::editor::selection::{nearest_hit, SelectionModel};
use openengine::editor::state::{EditorMode, EditorState};
use openengine::editor::transform_edit::{rescale, rotate_yaw};
use openengine::fx::Fx16;

fn x(v: i32) -> Fx16 {
    Fx16::from_num(v)
}

fn make_world(count: usize) -> World {
    let mut w = World::new();
    for i in 0..count {
        let idx = w.spawn(
            Position { x: x(0), y: x(0) },
            Velocity { x: x(0), y: x(0) },
            Color { r: 255, g: 128, b: 0, a: 255 },
        );
        w.set_transform(idx, Transform::at(x((i as i32) * 2), x(0), x(0)));
    }
    w
}

fn identity_at(z: i32) -> Transform {
    Transform::at(x(0), x(0), x(z))
}

#[test]
fn clone_state_is_bit_identical() {
    let a = make_world(10);
    let b = a.clone_state();
    assert_eq!(a.hash(), b.hash());
    assert_eq!(a.entity_count(), b.entity_count());
    // Mutating the clone must not affect the original.
    let mut c = a.clone_state();
    c.set_transform(0, identity_at(5));
    assert_ne!(a.hash(), c.hash());
}

#[test]
fn edit_play_isolation_keeps_edit_untouched() {
    let mut st = EditorState::new(make_world(4));
    let before = st.edit_world.hash();
    st.play();
    assert_eq!(st.mode, EditorMode::Playing);
    assert!(!st.can_edit());

    // Sim runs only on the play world.
    {
        let pw = st.mutable_world().expect("play world");
        pw.set_transform(0, identity_at(9));
    }
    assert_ne!(st.active_world().hash(), before);

    st.stop();
    assert_eq!(st.mode, EditorMode::Edit);
    assert_eq!(
        st.edit_world.hash(),
        before,
        "edit world must be untouched by play"
    );
    assert!(st.play_world.is_none());
}

#[test]
fn pause_and_resume_keep_the_play_world() {
    let mut st = EditorState::new(make_world(2));
    let h = st.edit_world.hash();
    st.pause();
    assert_eq!(st.mode, EditorMode::Edit);
    assert!(st.can_edit());
    st.play();
    // Play starts from the edit world.
    assert_eq!(st.active_world().hash(), h);
    st.pause();
    assert_eq!(st.mode, EditorMode::Paused);
    st.resume();
    assert_eq!(st.mode, EditorMode::Playing);
    assert!(st.play_world.is_some());
}

#[test]
fn undo_redo_restores_hash_exactly() {
    let mut w = make_world(3);
    let mut mgr: UndoRedoManager = UndoRedoManager::new();
    let baseline = make_world(3).hash();

    let old = w.get_transforms().unwrap()[0];
    let new = identity_at(7);
    mgr.execute(
        &mut w,
        Box::new(ModifyTransformCommand { entity_index: 0, old_value: old, new_value: new }),
    );

    let after = w.hash();
    assert_ne!(baseline, after);

    assert!(mgr.undo(&mut w));
    assert_eq!(w.hash(), baseline, "undo must restore the pre-edit state");
    assert!(mgr.redo(&mut w));
    assert_eq!(w.hash(), after, "redo must restore the edited state");
}

#[test]
fn redo_is_cleared_on_new_edit() {
    let mut w = make_world(2);
    let mut mgr: UndoRedoManager = UndoRedoManager::new();
    let old = w.get_transforms().unwrap()[0];

    mgr.execute(
        &mut w,
        Box::new(ModifyTransformCommand { entity_index: 0, old_value: old, new_value: identity_at(3) }),
    );
    assert!(mgr.undo(&mut w));
    assert!(mgr.can_redo());

    // A new edit clears the redo stack.
    mgr.execute(
        &mut w,
        Box::new(ModifyTransformCommand { entity_index: 0, old_value: old, new_value: identity_at(4) }),
    );
    assert!(!mgr.can_redo());
}

#[test]
fn determinism_same_sequence_3x() {
    let hashes = (0..3)
        .map(|_| {
            let mut w = make_world(5);
            let mut mgr: UndoRedoManager = UndoRedoManager::new();
            for e in 0..5usize {
                let old = w.get_transforms().unwrap()[e];
                let new = identity_at(e as i32 * 3 + 1);
                mgr.execute(
                    &mut w,
                    Box::new(ModifyTransformCommand {
                        entity_index: e as u32,
                        old_value: old,
                        new_value: new,
                    }),
                );
            }
            for _ in 0..5 {
                mgr.undo(&mut w);
            }
            w.hash()
        })
        .collect::<Vec<_>>();
    assert_eq!(hashes[0], hashes[1]);
    assert_eq!(hashes[1], hashes[2]);
}

#[test]
fn undoing_everything_restores_the_world() {
    let mut w = make_world(3);
    let baseline = w.hash();
    let mut mgr = UndoRedoManager::new();
    for (e, z) in [(0u32, 4), (2, 5), (0, 6), (1, 7)] {
        let old = w.get_transforms().unwrap()[e as usize];
        mgr.execute(
            &mut w,
            ModifyTransformCommand { entity_index: e, old_value: old, new_value: identity_at(z) },
        );
    }
    assert_ne!(w.hash(), baseline);
    for _ in 0..4 {
        assert!(mgr.undo(&mut w));
    }
    assert_eq!(w.hash(), baseline);
    assert!(!mgr.can_undo());
}

#[test]
fn a_boxed_history_mixes_commands() {
    let mut w = make_world(3);
    let mut hashes = vec![w.hash()];
    let mut mgr: UndoRedoManager = UndoRedoManager::new();
    let edit = |w: &World, e: u32, z: i32| ModifyTransformCommand {
        entity_index: e,
        old_value: w.get_transforms().unwrap()[e as usize],
        new_value: identity_at(z),
    };
    let first = edit(&w, 1, 8);
    mgr.execute(&mut w, Box::new(first));
    hashes.push(w.hash());
    // A boxed command is a command, so it can be boxed again.
    let inner: Box<dyn Command> = Box::new(edit(&w, 2, 9));
    let outer: Box<dyn Command> = Box::new(inner);
    assert_eq!(outer.description(), "modify transform");
    mgr.execute(&mut w, outer);
    hashes.push(w.hash());
    assert_eq!(w.get_transforms().unwrap()[2], identity_at(9));
    assert!(mgr.undo(&mut w));
    assert_eq!(w.hash(), hashes[1]);
    assert!(mgr.undo(&mut w));
    assert_eq!(w.hash(), hashes[0]);
    assert!(!mgr.can_undo());
    assert!(mgr.redo(&mut w) && mgr.redo(&mut w));
    assert_eq!(w.hash(), hashes[2]);
}

#[test]
fn an_empty_history_does_nothing() {
    let mut w = make_world(1);
    let h = w.hash();
    let mut mgr: UndoRedoManager = UndoRedoManager::default();
    assert!(!mgr.can_undo());
    assert!(!mgr.undo(&mut w));
    assert!(!mgr.redo(&mut w));
    assert_eq!(w.hash(), h);
}

#[test]
fn a_command_is_one_write_forth_and_back() {
    let c = ModifyTransformCommand {
        entity_index: 1,
        old_value: identity_at(0),
        new_value: identity_at(6),
    };
    let mut w = make_world(2);
    let forth: WorldDelta = c.forward();
    assert_eq!(forth.writes.len(), 1);
    assert_eq!(forth.writes[0].indices, vec![1]);
    w.apply_delta(&forth);
    assert_eq!(w.get_transforms().unwrap()[1], identity_at(6));
    w.apply_delta(&c.backward());
    assert_eq!(w.get_transforms().unwrap()[1], identity_at(0));
    assert_eq!(c.description(), "modify transform");
}

#[test]
fn clicks_select() {
    let mut s = SelectionModel::new();
    assert_eq!(s.first(), None);
    s.click(3, false);
    s.click(5, true);
    assert_eq!(s.selected, vec![3, 5]);
    assert!(s.contains(5));
    // A second click with the modifier takes the row out again.
    s.click(3, true);
    assert_eq!(s.selected, vec![5]);
    s.click(9, false);
    assert_eq!(s.selected, vec![9]);
    s.select_hit(Some(1));
    assert_eq!(s.first(), Some(1));
    s.select_hit(None);
    assert!(s.selected.is_empty());
    assert!(SelectionModel::default().hovered.is_none());
}

#[test]
fn the_nearest_hit_wins_and_the_first_of_equals() {
    let d = |v: f32| Some(v.to_bits());
    assert_eq!(nearest_hit(&vec![None, d(4.0), d(2.5), d(2.5), None]), Some(2));
    assert_eq!(nearest_hit(&vec![d(0.0), d(1e-9)]), Some(0));
    assert_eq!(nearest_hit(&vec![None, None]), None);
    assert_eq!(nearest_hit(&vec![]), None);
}

#[test]
fn rotate_yaw_changes_only_rotation() {
    let mut t0 = Transform::at(x(0), x(0), x(0));
    t0.rotation = [x(0), x(0), x(0), x(1)];
    let (s, c) = (0.5f32 * 0.5f32).sin_cos();
    let f = |v: f32| Fx16::from_bits(fixed::types::I16F16::from_num(v).to_bits());
    let t1 = rotate_yaw(t0, f(s), f(c));
    assert!(t1.rotation[3].less(x(1)), "cos(0.25) < 1");
    assert!(x(0).less(t1.rotation[0]), "sin component set");
    assert_eq!(t1.position, t0.position, "rotation must not move position");
    assert_eq!(t1.scale, t0.scale);
    assert_eq!((t1.rotation[1], t1.rotation[2]), (x(0), x(0)));
}

#[test]
fn rescale_changes_only_scale() {
    let t0 = identity_at(4);
    let t1 = rescale(t0, [x(2), x(3), x(4)]);
    assert_eq!(t1.scale, [x(2), x(3), x(4)]);
    assert_eq!((t1.position, t1.rotation), (t0.position, t0.rotation));
}
