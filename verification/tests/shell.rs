use openengine::ai::operator::{ProposeBatch, ProposeOp, Scalar};
use openengine::contracts::components::{Actor, Color, Position, Transform, Velocity};
use openengine::ecs::world::World;
use openengine::editor::state::EditorMode;
use openengine::fx::Fx16;
use openengine::shell::ai::{apply_proposal, AiPanel};
use openengine::shell::app::{
    build_scene, entity_label, input_from_keys, transforms_delta, DragEvent, DragPlan, EditorApp,
    EditorTool, Inspection,
};
use openengine::shell::launch::launch_scene;

fn fx(v: f32) -> Fx16 {
    Fx16::from_bits(fixed::types::I16F16::from_num(v).to_bits())
}

fn scalar(v: f32) -> Scalar {
    Scalar { fixed: fx(v), channel: v.clamp(0.0, 255.0) as u8, text: format!("{v:?}") }
}

fn three(v: [f32; 3]) -> [Scalar; 3] {
    [scalar(v[0]), scalar(v[1]), scalar(v[2])]
}

fn spawn_op(at: [f32; 3], color: [u8; 4]) -> ProposeOp {
    ProposeOp::Spawn { transform: three(at), scale: three([1.0; 3]), color }
}

fn sample_world() -> World {
    let mut w = World::new();
    let e = w.spawn(
        Position { x: fx(0.0), y: fx(0.0) },
        Velocity { x: fx(0.0), y: fx(0.0) },
        Color { r: 255, g: 0, b: 0, a: 255 },
    );
    w.set_transform(e, Transform::at(fx(0.0), fx(0.0), fx(0.0)));
    w
}

#[test]
fn applies_spawn_and_despawn() {
    let mut w = sample_world();
    let batch = ProposeBatch {
        ops: vec![
            spawn_op([1.0, 0.0, 0.0], [0, 0, 255, 255]),
            ProposeOp::Despawn { entity: 0 },
        ],
    };
    let applied = apply_proposal(&mut w, &batch).expect("apply");
    assert_eq!(applied.len(), 2);
    // One entity remains (the spawned one).
    assert_eq!(w.entity_count(), 1);
    assert_eq!(w.get_colors().unwrap()[0], Color { r: 0, g: 0, b: 255, a: 255 });
    assert_eq!(w.get_transforms().unwrap()[0].position, [fx(1.0), fx(0.0), fx(0.0)]);
    assert_eq!(applied, vec!["spawn #1 at [1.0, 0.0, 0.0]", "despawn #0"]);
}

#[test]
fn rejects_out_of_range_despawn() {
    let mut w = sample_world();
    let batch = ProposeBatch { ops: vec![ProposeOp::Despawn { entity: 99 }] };
    assert!(apply_proposal(&mut w, &batch).is_err());
}

#[test]
fn spawn_has_expected_color() {
    let mut w = sample_world();
    let batch = ProposeBatch { ops: vec![spawn_op([2.0, 0.0, 0.0], [10, 20, 30, 255])] };
    apply_proposal(&mut w, &batch).unwrap();
    // The spawned entity (entity 1) has the requested color.
    let colors = w.get_colors().unwrap();
    assert_eq!(colors[1], Color { r: 10, g: 20, b: 30, a: 255 });
    assert_eq!(w.get_actors().unwrap()[1], Actor::npc(1, 1));
}

#[test]
fn a_failed_batch_leaves_the_world_alone() {
    let mut w = sample_world();
    let h = w.hash();
    let batch = ProposeBatch {
        ops: vec![
            spawn_op([1.0, 2.0, 3.0], [1, 1, 1, 1]),
            ProposeOp::Despawn { entity: 99 },
        ],
    };
    assert_eq!(
        apply_proposal(&mut w, &batch).unwrap_err(),
        "despawn #99: out of range (count 2)"
    );
    assert_eq!(w.hash(), h);
    assert_eq!(apply_proposal(&mut w, &ProposeBatch::empty()).unwrap().len(), 0);
    assert_eq!(w.hash(), h);
}

fn set_op(entity: u32, component: &str, value: Vec<f32>) -> ProposeBatch {
    ProposeBatch {
        ops: vec![ProposeOp::SetValue {
            entity,
            component: component.to_string(),
            value: value.into_iter().map(scalar).collect(),
        }],
    }
}

#[test]
fn set_moves_notes_or_refuses() {
    let mut w = sample_world();
    assert_eq!(
        apply_proposal(&mut w, &set_op(0, "transform", vec![1.5, -2.0, 3.0])).unwrap(),
        vec!["set #0 transform -> [1.5, -2.0, 3.0]"]
    );
    assert_eq!(w.get_transforms().unwrap()[0].position, [fx(1.5), fx(-2.0), fx(3.0)]);
    assert_eq!(
        apply_proposal(&mut w, &set_op(0, "color", vec![300.0, -1.0, 7.9])).unwrap(),
        vec!["set #0 color -> [255, 0, 7, 255]"]
    );
    assert_eq!(w.get_colors().unwrap()[0], Color { r: 255, g: 0, b: 7, a: 255 });
    assert_eq!(
        apply_proposal(&mut w, &set_op(0, "scale", vec![2.0, 0.5, 3.0])).unwrap(),
        vec!["set #0 scale -> [2.0, 0.5, 3.0]"]
    );
    let t = w.get_transforms().unwrap()[0];
    assert_eq!(t.scale, [fx(2.0), fx(0.5), fx(3.0)]);
    assert_eq!(t.position, [fx(1.5), fx(-2.0), fx(3.0)]);
    assert_eq!(
        apply_proposal(&mut w, &set_op(0, "scale", vec![1.0, 2.0])).unwrap_err(),
        "set #0 scale: need >=3 numbers"
    );
    assert_eq!(
        apply_proposal(&mut w, &set_op(0, "transform", vec![1.0])).unwrap_err(),
        "set #0 transform: need >=3 numbers"
    );
    assert_eq!(
        apply_proposal(&mut w, &set_op(0, "hp", vec![1.0])).unwrap_err(),
        "set #0: unsupported component 'hp'"
    );
    assert_eq!(
        apply_proposal(&mut w, &set_op(4, "hp", vec![1.0])).unwrap_err(),
        "set #4: out of range (count 1)"
    );
}

#[test]
fn a_set_color_overwrites_the_color_and_nothing_else() {
    let mut w = sample_world();
    let before = w.clone_state();
    let notes = apply_proposal(&mut w, &set_op(0, "color", vec![1.0, 2.0, 3.0, 255.0])).unwrap();
    assert_eq!(notes, vec!["set #0 color -> [1, 2, 3, 255]"]);
    assert_eq!(w.get_colors().unwrap()[0], Color { r: 1, g: 2, b: 3, a: 255 });
    assert_eq!(w.get_transforms(), before.get_transforms());
    assert_eq!(w.get_actors(), before.get_actors());
    assert_ne!(w.hash(), before.hash());
}

#[test]
fn a_spawned_actor_has_its_scale() {
    let mut w = sample_world();
    let op = ProposeOp::Spawn {
        transform: three([1.0, 2.0, 3.0]),
        scale: three([0.5, 4.0, 1.0]),
        color: [9, 8, 7, 6],
    };
    apply_proposal(&mut w, &ProposeBatch { ops: vec![op] }).unwrap();
    let t = w.get_transforms().unwrap()[1];
    assert_eq!(t.position, [fx(1.0), fx(2.0), fx(3.0)]);
    assert_eq!(t.scale, [fx(0.5), fx(4.0), fx(1.0)]);
    assert_eq!(t.rotation, [fx(0.0), fx(0.0), fx(0.0), fx(1.0)]);
}

#[test]
fn the_rows_that_a_despawn_leaves_keep_everything() {
    let mut w = build_scene();
    let before = w.clone_state();
    let batch = ProposeBatch { ops: vec![ProposeOp::Despawn { entity: 1 }] };
    apply_proposal(&mut w, &batch).unwrap();
    assert_eq!(w.entity_count(), 10);
    for k in 0..10 {
        let i = if k < 1 { k } else { k + 1 };
        assert_eq!(w.get_positions().unwrap()[k], before.get_positions().unwrap()[i]);
        assert_eq!(w.get_velocities().unwrap()[k], before.get_velocities().unwrap()[i]);
        assert_eq!(w.get_transforms().unwrap()[k], before.get_transforms().unwrap()[i]);
        assert_eq!(w.get_velocity_3d().unwrap()[k], before.get_velocity_3d().unwrap()[i]);
        assert_eq!(w.get_actors().unwrap()[k], before.get_actors().unwrap()[i]);
        assert_eq!(w.get_colors().unwrap()[k], before.get_colors().unwrap()[i]);
    }
}

#[test]
fn a_fresh_panel_is_closed() {
    let p = AiPanel::new();
    assert!(!p.open && p.input.is_empty() && p.last_applied.is_empty());
}

#[test]
fn editor_save_load_scene_roundtrip() {
    let mut a = EditorApp::new("scene.json".to_string());
    // Make the edit world distinctive: add one extra entity.
    a.state.edit_world.spawn(
        Position { x: fx(0.0), y: fx(0.0) },
        Velocity { x: fx(0.0), y: fx(0.0) },
        Color { r: 1, g: 2, b: 3, a: 255 },
    );
    let expected = a.state.edit_world.entity_count();

    let content = a.scene_content();
    a.save_scene(content.entities.len(), Ok(()));
    assert!(
        a.scene_notice.as_deref().is_some_and(|m| m.starts_with("saved")),
        "save should set a success notice: {:?}",
        a.scene_notice
    );

    // Load into a fresh editor: its world must become exactly the saved one.
    let mut b = EditorApp::new("scene.json".to_string());
    b.load_scene(Ok(content));
    assert!(
        b.scene_notice.as_deref().is_some_and(|m| m.starts_with("loaded")),
        "load should set a success notice: {:?}",
        b.scene_notice
    );
    assert_eq!(
        b.state.edit_world.entity_count(),
        expected,
        "loaded scene must match the saved one"
    );
    assert_eq!(b.scene_content().entities, a.scene_content().entities);
    assert_eq!(b.state.edit_world.hash(), a.state.edit_world.hash());

    // `--play` path: after load + play(), the editor is in Playing mode.
    b.state.play();
    assert_eq!(b.state.mode, EditorMode::Playing);
}

#[test]
fn editor_load_scene_is_blocked_while_playing() {
    let mut a = EditorApp::new("unused.json".to_string());
    a.state.play();
    a.load_scene(Err("never read".to_string())); // should be a no-op with a notice
    assert!(
        a.scene_notice.as_deref().is_some_and(|m| m.contains("stop Play")),
        "load while playing must be refused: {:?}",
        a.scene_notice
    );
}

#[test]
fn failed_saves_and_loads_are_noted() {
    let mut a = EditorApp::new("s.json".to_string());
    let h = a.state.edit_world.hash();
    a.save_scene(3, Err("disk full".to_string()));
    assert_eq!(a.scene_notice.as_deref(), Some("save failed: disk full"));
    a.load_scene(Err("no file".to_string()));
    assert_eq!(a.scene_notice.as_deref(), Some("load failed: no file"));
    let mut old = a.scene_content();
    old.version = 7;
    a.load_scene(Ok(old));
    assert!(a.scene_notice.as_deref().is_some_and(|m| m.starts_with("load failed: ")));
    assert_eq!(a.state.edit_world.hash(), h);
}

#[test]
fn editor_add_and_delete_actor() {
    let mut a = EditorApp::new("scene.json".to_string());
    let n0 = a.state.edit_world.entity_count();
    let idx = a.spawn_actor().expect("spawn adds an actor");
    assert_eq!(a.state.edit_world.entity_count(), n0 + 1);
    assert_eq!(a.selection.selected, vec![idx]);

    a.delete_actor(idx as usize);
    assert_eq!(
        a.state.edit_world.entity_count(),
        n0,
        "deleting the just-added actor must restore the count"
    );
    assert!(a.selection.selected.is_empty(), "delete clears the selection");
    // And the scene is the one it was, but for what deleting clears.
    let (w, d) = (&a.state.edit_world, build_scene());
    assert_eq!(w.get_transforms(), d.get_transforms());
    assert_eq!(w.get_actors(), d.get_actors());
    assert_eq!(w.get_colors(), d.get_colors());
    assert_eq!(w.get_positions().unwrap()[3].x, fx(0.0));
}

#[test]
fn the_demo_scene_has_a_player_and_ten_others() {
    let w = build_scene();
    assert_eq!(w.entity_count(), 11);
    assert_eq!(w.get_actors().unwrap()[0], Actor::player(fx(3.0), fx(40.0)));
    assert_eq!(w.get_colors().unwrap()[0], Color { r: 0, g: 255, b: 0, a: 255 });
}

#[test]
fn keys_steer() {
    let i = input_from_keys(&[true, false, true, false, true]);
    assert_eq!((i.forward, i.backward, i.left, i.right, i.jump), (1, 0, 1, 0, 1));
}

#[test]
fn a_transforms_delta_moves_every_row() {
    let mut w = build_scene();
    let mut ts = w.get_transforms().unwrap();
    ts.truncate(w.entity_count());
    for t in ts.iter_mut() {
        t.position[0] = fx(7.0);
    }
    w.apply_delta(&transforms_delta(&ts));
    assert_eq!(&w.get_transforms().unwrap()[..11], &ts[..]);
}

#[test]
fn labels_and_inspection() {
    assert_eq!(entity_label(0), "Player (entity 0)");
    assert_eq!(entity_label(3), "NPC (entity 3)");
    let mut a = EditorApp::new("s".to_string());
    assert!(matches!(a.inspect(), Inspection::NoSelection));
    assert_eq!(a.inspect().message().as_deref(), Some("(no entity selected)"));
    a.handle_viewport_click(Some(2));
    assert!(matches!(a.inspect(), Inspection::Editable(2, _)));
    assert_eq!(a.inspect().message(), None);
    a.selection.selected = vec![100000];
    assert_eq!(a.inspect().message().as_deref(), Some("selection out of range"));
    a.state.play();
    assert_eq!(a.inspect().message().as_deref(), Some("Editing is locked while playing."));
}

#[test]
fn inspector_edits_can_be_undone() {
    let mut a = EditorApp::new("s".to_string());
    let h = a.state.edit_world.hash();
    let before = a.edit_transform(1).unwrap();
    let mut after = before;
    after.position[1] = fx(4.0);
    a.commit_edit(1, before, after);
    assert_eq!(a.edit_transform(1), Some(after));
    assert!(a.undo.undo(&mut a.state.edit_world));
    assert_eq!(a.state.edit_world.hash(), h);
}

#[test]
fn a_drag_moves_the_selected_actor_on_the_ground() {
    let mut a = EditorApp::new("s".to_string());
    let ev = DragEvent { viewport: true, nav: false, over: true, pressed: true };
    assert_eq!(a.drag_plan(ev), None);
    a.hotkeys(false, true, false);
    assert_eq!(a.tool, EditorTool::Move);
    a.handle_viewport_click(Some(2));
    let plan = a.drag_plan(ev).unwrap();
    assert_eq!(plan, DragPlan { entity: 2, begin: true });
    let y = a.edit_transform(2).unwrap().position[1];
    a.drag_apply(2, Some([0, 0]), Some([fx(5.0), fx(6.0)]), true);
    assert!(a.move_active);
    assert_eq!(a.edit_transform(2).unwrap().position, [fx(5.0), y, fx(6.0)]);
    a.drag_apply(2, None, Some([fx(9.0), fx(9.0)]), false);
    assert!(!a.move_active && a.move_grab.is_none());
    assert_eq!(a.edit_transform(2).unwrap().position, [fx(5.0), y, fx(6.0)]);
    a.hotkeys(true, false, true);
    assert_eq!(a.tool, EditorTool::Select);
    assert_eq!(a.state.edit_world.entity_count(), 10);
}

#[test]
fn ticks_change_the_play_world_only() {
    let mut a = EditorApp::new("s".to_string());
    assert_eq!(a.begin_step(), (false, false));
    a.state.play();
    assert_eq!(a.begin_step(), (true, true));
    assert_eq!(a.begin_step(), (true, false));
    let h = a.state.edit_world.hash();
    let mut ts = a.state.active_world().get_transforms().unwrap();
    ts.truncate(11);
    ts[0].position[2] = fx(-3.0);
    a.finish_tick(Some(transforms_delta(&ts)));
    a.finish_tick(None);
    assert_eq!(a.frame, 2);
    assert_eq!(a.state.edit_world.hash(), h);
    assert_eq!(a.state.active_world().get_transforms().unwrap()[0].position[2], fx(-3.0));
}

#[test]
fn the_command_line_names_a_scene() {
    let args = |ws: &[&str]| ws.iter().map(|w| w.to_string()).collect::<Vec<String>>();
    assert_eq!(launch_scene(&args(&["editor"])), None);
    assert_eq!(launch_scene(&args(&["editor", "--play", "a.json"])).as_deref(), Some("a.json"));
    assert_eq!(
        launch_scene(&args(&["editor", "--play", "a", "x", "--play", "b"])).as_deref(),
        Some("b")
    );
    assert_eq!(launch_scene(&args(&["editor", "--play"])), None);
    assert_eq!(launch_scene(&args(&["--play", "a"])), None);
}
