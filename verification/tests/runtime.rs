use openengine::bytes::read_word;
use openengine::contracts::basics::PlayerInput as Frame;
use openengine::contracts::comp::{POSITION, TRANSFORM, VELOCITY, VELOCITY3D};
use openengine::contracts::components::{Color, Position, Velocity};
use openengine::contracts::delta::{encode_delta, ColumnDescriptor, ComponentId, WorldDelta};
use openengine::contracts::wire::{Wire, WireError};
use openengine::ecs::world::World;
use openengine::fx::Fx16;
use openengine::runtime::host::{
    choose_module, move_input, output_len, physics_input, read_output, HostError, PhysicsParams, INPUT_CAP,
    OUTPUT_CAP,
};
use openengine::runtime::input::{
    ElementState, InputState, KEY_A, KEY_ARROW_DOWN, KEY_ARROW_LEFT, KEY_ARROW_RIGHT,
    KEY_ARROW_UP, KEY_D, KEY_S, KEY_W,
};
use openengine::runtime::mesh::{
    collect_faces, flat_indices, grid_indices, read_obj, triangulate, AssetRegistry, FaceError,
    ObjLine,
};
use openengine::runtime::movement::{native_movement_system, pack};
use openengine::runtime::platform::SandboxConfig;

fn red() -> Color {
    Color { r: 255, g: 0, b: 0, a: 255 }
}

fn num(v: i32) -> Fx16 {
    Fx16::from_num(v)
}

fn whole(v: Fx16) -> i32 {
    fixed::types::I16F16::from_bits(v.to_bits()).to_num::<i32>()
}

#[test]
fn bounces_off_walls_deterministically() {
    let mut world = World::new();
    world.spawn(
        Position { x: num(490), y: num(490) },
        Velocity { x: num(20), y: num(20) },
        red(),
    );
    // Crossing the wall flips velocity and pins position at the wall.
    let delta = native_movement_system(&world);
    world.apply_delta(&delta);
    let p = world.get_positions().unwrap()[0];
    let v = world.get_velocities().unwrap()[0];
    assert_eq!(p.x, num(490));
    assert_eq!(p.y, num(490));
    assert_eq!(v.x, num(20).negated());
    assert_eq!(v.y, num(20).negated());
}

fn create_test_world() -> World {
    let mut world = World::new();
    for i in 0..100 {
        let x: i32 = i % 10;
        let y: i32 = i / 10;
        world.spawn(
            Position { x: num(x * 50), y: num(y * 50) },
            Velocity { x: num(5), y: num(5) },
            red(),
        );
    }
    world
}

fn simulate_ticks(world: &mut World, ticks: usize) {
    for _ in 0..ticks {
        // Single mutation channel: system returns a delta, host applies it.
        let delta = native_movement_system(world);
        world.apply_delta(&delta);
    }
}

#[test]
fn movement_determinism_3x() {
    let mut w1 = create_test_world();
    let mut w2 = create_test_world();
    let mut w3 = create_test_world();
    simulate_ticks(&mut w1, 100);
    simulate_ticks(&mut w2, 100);
    simulate_ticks(&mut w3, 100);
    let h1 = w1.hash();
    let h2 = w2.hash();
    let h3 = w3.hash();
    assert_eq!(h1, h2, "runs 1 and 2 must be bit-identical");
    assert_eq!(h2, h3, "runs 2 and 3 must be bit-identical");
}

#[test]
fn single_mutation_channel_changes_state() {
    let mut world = create_test_world();
    let before = world.hash();
    let delta = native_movement_system(&world);
    world.apply_delta(&delta);
    let after = world.hash();
    assert_ne!(before, after, "movement must change world state");
}

#[test]
fn positions_stay_in_bounds_after_many_ticks() {
    let mut world = create_test_world();
    simulate_ticks(&mut world, 500);
    let positions = world.get_positions().unwrap();
    let vel = world.get_velocities().unwrap();
    for i in 0..world.entity_count() {
        let (x, y) = (whole(positions[i].x), whole(positions[i].y));
        assert!((0..=500).contains(&x), "entity {i} x out of bounds: {x}");
        assert!((0..=500).contains(&y), "entity {i} y out of bounds: {y}");
        // Velocity magnitude is conserved (only direction flips on bounce).
        let m = whole(vel[i].x).abs() + whole(vel[i].y).abs();
        assert_eq!(m, 10, "entity {i} speed must be conserved");
    }
}

#[test]
fn packed_rows_are_little_endian_words() {
    let rows = [Position { x: num(1), y: Fx16::from_bits(-1) }];
    assert_eq!(pack(&rows), vec![0, 0, 1, 0, 255, 255, 255, 255]);
}

#[test]
fn the_movement_delta_writes_two_columns() {
    let d = native_movement_system(&create_test_world());
    assert_eq!(d.writes.len(), 2);
    assert_eq!(d.writes[0].component, ComponentId(POSITION));
    assert_eq!(d.writes[1].component, ComponentId(VELOCITY));
    assert_eq!(d.writes[0].indices.len(), 100);
    assert_eq!(d.writes[0].payload.len(), 800);
    assert!(d.spawns.is_empty() && d.despawns.is_empty());
}

#[test]
fn a_move_frame_reads_back() {
    let mut world = World::new();
    world.spawn(
        Position { x: num(1), y: num(2) },
        Velocity { x: num(3), y: num(4) },
        red(),
    );
    let input = Frame { up: 1, down: 0, left: 0, right: 1, speed: 7 };
    let bytes = move_input(&world, &input).unwrap();
    let (read, at) = Frame::take(&bytes, 0).unwrap();
    assert_eq!(read, input);
    let (n, at) = u32::take(&bytes, at).unwrap();
    assert_eq!(n, 2);
    let (c0, at) = ColumnDescriptor::take(&bytes, at).unwrap();
    let (c1, at) = ColumnDescriptor::take(&bytes, at).unwrap();
    assert_eq!(c0.component_id, ComponentId(POSITION));
    assert_eq!(c1.component_id, ComponentId(VELOCITY));
    assert_eq!((c0.element_size, c0.count), (8, 1));
    let arena = &bytes[at..];
    assert_eq!(c0.bytes(arena), &pack(&world.get_positions().unwrap()[..1])[..]);
    assert_eq!(c1.bytes(arena), &pack(&world.get_velocities().unwrap()[..1])[..]);
}

#[test]
fn an_oversized_frame_is_refused() {
    let mut world = World::new();
    for _ in 0..5000 {
        world.spawn(Position { x: num(1), y: num(2) }, Velocity { x: num(3), y: num(4) }, red());
    }
    assert_eq!(move_input(&world, &Frame::none()), Err(HostError::InputTooLarge));
    assert_eq!(INPUT_CAP, 65536);
    let p = PhysicsParams { gravity: num(-1), floor: 0, half: [num(1); 3] };
    assert!(matches!(physics_input(&world, &p), Err(HostError::InputTooLarge)));
    assert!(physics_input(&World::new(), &p).is_ok());
}

#[test]
fn guest_output_is_checked_and_decoded() {
    assert_eq!(output_len(5), Ok(5));
    assert_eq!(output_len(0), Err(HostError::InvalidLength(0)));
    assert_eq!(
        HostError::InvalidLength(0).to_text("movement"),
        "guest movement tick returned invalid length (0)"
    );
    assert_eq!(HostError::InputTooLarge.to_text("movement"), "input exceeds guest buffer");
    assert_eq!(output_len(OUTPUT_CAP + 1), Err(HostError::InvalidLength(OUTPUT_CAP + 1)));
    let d = WorldDelta::default();
    let bytes = encode_delta(&d).unwrap();
    assert!(read_output(&bytes).is_ok());
    assert!(matches!(
        read_output(&[0]),
        Err(HostError::Decode(WireError::UnexpectedEnd))
    ));
}

#[test]
fn a_named_module_wins_if_it_exists() {
    let f = |n: Option<&str>, ne: bool, se: bool| {
        choose_module(n.map(|s| s.to_string()), ne, "shipped".to_string(), se)
    };
    assert_eq!(f(Some("named"), true, true).as_deref(), Some("named"));
    assert_eq!(f(Some("named"), false, true).as_deref(), Some("shipped"));
    assert_eq!(f(None, true, true).as_deref(), Some("shipped"));
    assert_eq!(f(None, false, false), None);
}

#[test]
fn a_physics_frame_starts_with_its_parameters() {
    let mut world = World::new();
    world.spawn(Position { x: num(1), y: num(2) }, Velocity { x: num(3), y: num(4) }, red());
    let p = PhysicsParams { gravity: num(-2), floor: 7, half: [num(1), num(2), num(3)] };
    let bytes = physics_input(&world, &p).unwrap();
    assert_eq!(read_word(&bytes, 0), num(-2).to_bits() as u32);
    assert_eq!(read_word(&bytes, 4), 7);
    assert_eq!(read_word(&bytes, 16), 3 << 16);
    let (n, at) = u32::take(&bytes, 20).unwrap();
    assert_eq!(n, 2);
    let (c0, at) = ColumnDescriptor::take(&bytes, at).unwrap();
    let (c1, at) = ColumnDescriptor::take(&bytes, at).unwrap();
    assert_eq!((c0.component_id, c0.element_size), (ComponentId(TRANSFORM), 40));
    assert_eq!((c1.component_id, c1.element_size), (ComponentId(VELOCITY3D), 12));
    assert_eq!(c0.bytes(&bytes[at..]), &pack(&world.get_transforms().unwrap()[..1])[..]);
}

#[test]
fn keys_become_directions() {
    let mut s = InputState::new();
    assert!(!s.get_player_input().up);
    for k in [KEY_ARROW_UP, KEY_ARROW_DOWN, KEY_ARROW_LEFT, KEY_ARROW_RIGHT] {
        s.handle_key_event(k, ElementState::Pressed);
        assert!(s.is_pressed(k));
    }
    let p = s.get_player_input();
    assert!(p.up && p.down && p.left && p.right);
    s.clear_frame_state();
    assert!(s.is_pressed(KEY_ARROW_UP));
    for k in [KEY_ARROW_UP, KEY_ARROW_DOWN, KEY_ARROW_LEFT, KEY_ARROW_RIGHT] {
        s.handle_key_event(k, ElementState::Released);
        assert!(!s.is_pressed(k));
    }
    for (k, want) in [
        (KEY_W, [true, false, false, false]),
        (KEY_S, [false, true, false, false]),
        (KEY_A, [false, false, true, false]),
        (KEY_D, [false, false, false, true]),
    ] {
        let mut t = InputState::default();
        t.handle_key_event(k, ElementState::Pressed);
        let p = t.get_player_input();
        assert_eq!([p.up, p.down, p.left, p.right], want);
    }
}

const CUBE_OBJ: &str = r#"
v -0.5 -0.5 -0.5
v  0.5 -0.5 -0.5
v  0.5  0.5 -0.5
v -0.5  0.5 -0.5
v -0.5 -0.5  0.5
v  0.5 -0.5  0.5
v  0.5  0.5  0.5
v -0.5  0.5  0.5
f 1 2 3 4
f 5 8 7 6
f 1 5 6 2
f 2 6 7 3
f 3 7 8 4
f 5 1 4 8
"#;

/// The positions and triangles of a mesh text.
fn obj_to_mesh(obj: &str) -> Result<(Vec<Vec<f32>>, Vec<[u32; 3]>), String> {
    let lines = read_obj(obj);
    let mut good: Vec<bool> = Vec::new();
    let mut positions: Vec<Vec<f32>> = Vec::new();
    for l in &lines {
        match l {
            ObjLine::Vertex(ws) => {
                let v: Vec<f32> = ws.iter().filter_map(|w| w.parse::<f32>().ok()).collect();
                good.push(v.len() == ws.len());
                positions.push(v);
            }
            _ => good.push(true),
        }
    }
    Ok((positions, triangulate(&collect_faces(&lines, &good)?)))
}

#[test]
fn imports_cube_and_registry() {
    let mut reg: AssetRegistry<(Vec<Vec<f32>>, Vec<[u32; 3]>)> = AssetRegistry::new();
    let id = reg.insert(obj_to_mesh(CUBE_OBJ).unwrap());
    let m = reg.get(id).unwrap();
    // 6 quads = 12 triangles.
    assert_eq!(flat_indices(3 * m.1.len() as u32).len(), 36);
    let lo = m.0.iter().map(|p| p[0]).fold(f32::INFINITY, f32::min);
    let hi = m.0.iter().map(|p| p[0]).fold(f32::NEG_INFINITY, f32::max);
    assert!((hi - lo - 1.0).abs() < 1e-5);
    assert_eq!(reg.len(), 1);
    assert_eq!(id, 1);
    assert!(reg.get(2).is_none());
}

#[test]
fn rejects_malformed_obj() {
    assert!(obj_to_mesh("v 0 0\nf 1 2").is_err());
    assert!(obj_to_mesh("v 0 0 0\nv 1 0 0\nv 0 1 0\nf 0 2 3").is_err());
    assert!(obj_to_mesh("v 0 0 0\nv 1 0 0\nv 0 1 0\nf 1 2 3").is_ok());
}

#[test]
fn bad_mesh_lines_are_named() {
    assert_eq!(obj_to_mesh("# c\n\nv 0 0").unwrap_err(), "vertex needs 3 coords @ line 3");
    assert_eq!(obj_to_mesh("v 0 x").unwrap_err(), "bad coord @ line 1");
    assert_eq!(obj_to_mesh("v 0 0 0\nf 1 a 2").unwrap_err(), "bad face @ line 2");
    assert_eq!(obj_to_mesh("f 0/1").unwrap_err(), "face index 1-based @ line 1");
    assert_eq!(obj_to_mesh("f 99999999999999999999").unwrap_err(), "bad face @ line 1");
    // A fourth coordinate is not read, whatever it holds.
    assert!(obj_to_mesh("v 0 0 0 x").is_ok());
}

#[test]
fn mesh_lines() {
    let ls = read_obj("v 1 2 3 4\r\n  f +1/2/3 2//4\t3 \nvn 0 0 0\nf 0\nf -1\n");
    assert!(matches!(&ls[0], ObjLine::Vertex(w) if *w == vec!["1", "2", "3"]));
    assert!(matches!(&ls[1], ObjLine::Face(Ok(c)) if *c == vec![0, 1, 2]));
    assert!(matches!(&ls[2], ObjLine::Other));
    assert!(matches!(&ls[3], ObjLine::Face(Err(FaceError::ZeroIndex))));
    assert!(matches!(&ls[4], ObjLine::Face(Err(FaceError::Bad))));
}

#[test]
fn faces_become_fans() {
    assert_eq!(
        triangulate(&vec![vec![4, 5, 6, 7], vec![1, 2], vec![0, 1, 2]]),
        vec![[4, 5, 6], [4, 6, 7], [0, 1, 2]]
    );
}

#[test]
fn grids_have_two_triangles_a_cell() {
    assert_eq!(grid_indices(1, 2), vec![0, 3, 1, 1, 3, 4, 1, 4, 2, 2, 4, 5]);
    let g = grid_indices(3, 4);
    assert_eq!(g.len(), 6 * 3 * 4);
    assert!(g.iter().all(|i| *i < 4 * 5));
}

#[test]
fn a_default_sandbox_allows_nothing() {
    let c = SandboxConfig::default();
    assert_eq!((c.fuel, c.delta_budget_bytes), (0, 0));
}
