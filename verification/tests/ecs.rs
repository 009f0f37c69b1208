use openengine::contracts::comp::{ACTOR, COLOR, POSITION, TRANSFORM, VELOCITY, VELOCITY3D};
use openengine::contracts::components::{
    Actor, Color, Component, Position, Transform, Velocity, Velocity3D,
};
use openengine::contracts::delta::{ArchetypeId, ColumnWrite, ComponentId, WorldDelta};
use openengine::ecs::scene::{content_from_world, world_from_content, SCENE_VERSION};
use openengine::ecs::storage::ArchetypeStorage;
use openengine::ecs::world::World;
use openengine::fx::Fx16;
use openengine::runtime::movement::pack;

fn fx(v: f32) -> Fx16 {
    Fx16::from_bits(fixed::types::I16F16::from_num(v).to_bits())
}

fn create_test_world(count: usize) -> World {
    let mut world = World::new();
    for i in 0..count {
        let x = (i % 32) as i32;
        let y = (i / 32) as i32;
        world.spawn(
            Position { x: Fx16::from_num(x * 10), y: Fx16::from_num(y * 10) },
            Velocity { x: Fx16::from_num(1), y: Fx16::from_num(1) },
            Color { r: (i % 256) as u8, g: ((i * 2) % 256) as u8, b: ((i * 3) % 256) as u8, a: 255 },
        );
    }
    world
}

#[test]
fn spawn_1000_entities() {
    let world = create_test_world(1000);
    assert_eq!(world.entity_count(), 1000);
    let positions = world.get_positions().unwrap();
    for pos in positions.iter().take(1000) {
        assert!(!pos.x.less(Fx16::from_num(0)));
        assert!(!pos.y.less(Fx16::from_num(0)));
    }
    // Data integrity: every entity must round-trip its stored value.
    let colors = world.get_colors().unwrap();
    assert_eq!(colors[7].r, 7);
}

#[test]
fn determinism_bit_identical() {
    let world1 = create_test_world(1000);
    let world2 = create_test_world(1000);
    let world3 = create_test_world(1000);
    let h1 = world1.hash();
    let h2 = world2.hash();
    let h3 = world3.hash();
    assert_eq!(h1, h2, "world 1 and 2 must be bit-identical");
    assert_eq!(h2, h3, "world 2 and 3 must be bit-identical");
}

#[test]
fn component_registry_ids_match_spec21() {
    assert_eq!(POSITION, 0);
    assert_eq!(VELOCITY, 1);
    assert_eq!(COLOR, 72);
    let ids = [POSITION, VELOCITY, COLOR];
    for i in 0..ids.len() {
        for j in (i + 1)..ids.len() {
            assert_ne!(ids[i], ids[j], "component ids must be unique");
        }
    }
}

#[test]
fn fixed_point_is_deterministic() {
    let a = Fx16::from_num(1);
    let b = Fx16::from_num(2);
    let first = a.plus(b).to_bits();
    for _ in 0..100 {
        assert_eq!(a.plus(b).to_bits(), first, "fixed-point math must be deterministic");
    }
}

#[test]
fn columns_are_pod_and_correct_size() {
    assert_eq!(std::mem::size_of::<Position>(), 8);
    assert_eq!(std::mem::size_of::<Velocity>(), 8);
    assert_eq!(std::mem::size_of::<Color>(), 4);
    assert_eq!(Position::element_size(), 8);
    assert_eq!(Velocity::element_size(), 8);
    assert_eq!(Color::element_size(), 4);
}

#[test]
fn fixed_point_values() {
    assert_eq!(Fx16::from_num(3).to_bits(), 3 * 65536);
    assert_eq!(Fx16::from_num(-32768).to_bits(), i32::MIN);
    assert_eq!(Fx16::from_num(1).plus(Fx16::from_bits(1)).to_bits(), 65537);
    assert_eq!(Fx16::from_num(5).negated(), Fx16::from_num(-5));
    assert!(Fx16::from_num(-1).less(Fx16::from_num(0)));
    assert!(!Fx16::from_num(0).less(Fx16::from_num(0)));
}

#[test]
fn grows_and_keeps_data() {
    let mut s = ArchetypeStorage::new();
    s.add_column::<Position>(POSITION);
    // Force a grow past the initial capacity of 64.
    let mut i = 0usize;
    while i < 200 {
        let idx = s.allocate();
        assert!(s.set_row::<Position>(
            POSITION,
            idx,
            Position { x: Fx16::from_num(i as i32), y: Fx16::from_num(0) },
        ));
        i += 1;
    }
    assert_eq!(s.entity_count(), 200);
    let rows = s.get_column::<Position>(POSITION).unwrap();
    assert_eq!(rows[199].x, Fx16::from_num(199));
}

#[test]
fn a_missing_column_is_reported() {
    let mut s = ArchetypeStorage::new();
    assert!(s.get_column::<Position>(POSITION).is_none());
    let p = Position { x: Fx16::from_num(0), y: Fx16::from_num(0) };
    assert!(!s.set_row::<Position>(POSITION, 0, p));
}

fn tx(p: [f32; 3], s: [f32; 3]) -> Transform {
    Transform::placed([fx(p[0]), fx(p[1]), fx(p[2])], [fx(s[0]), fx(s[1]), fx(s[2])])
}

fn build() -> World {
    let mut w = World::new();
    let p = w.spawn(
        Position { x: fx(0.0), y: fx(0.0) },
        Velocity { x: fx(0.0), y: fx(0.0) },
        Color { r: 10, g: 20, b: 30, a: 255 },
    );
    w.set_transform(p, tx([1.5, -2.0, 3.25], [2.0, 1.0, 1.0]));
    w.set_velocity_3d(p, Velocity3D { linear: [fx(1.0), fx(-0.5), fx(0.25)] });
    w.set_actor(p, Actor::player(fx(3.0), fx(40.0)));
    let n = w.spawn(
        Position { x: fx(0.0), y: fx(0.0) },
        Velocity { x: fx(0.0), y: fx(0.0) },
        Color { r: 200, g: 90, b: 90, a: 255 },
    );
    w.set_transform(n, tx([10.0, 0.0, 0.0], [1.0; 3]));
    w.set_actor(n, Actor::npc(3, 7));
    w
}

#[test]
fn content_roundtrip_preserves_world_bit_for_bit() {
    let original = build();
    let h0 = original.hash();
    let content = content_from_world(&original);
    assert_eq!(content.entities.len(), 2);
    let rebuilt = world_from_content(&content).unwrap();
    assert_eq!(
        original.hash(),
        rebuilt.hash(),
        "content round-trip must preserve the world"
    );
    // And the loaded world is genuinely a fresh, equal instance.
    assert_eq!(h0, rebuilt.hash());
}

#[test]
fn world_from_content_rejects_unknown_version() {
    let original = build();
    let mut content = content_from_world(&original);
    content.version = 999;
    assert!(world_from_content(&content).is_err());
}

#[test]
fn a_saved_scene_is_saved_back_the_same() {
    let content = content_from_world(&build());
    assert_eq!(content.version, SCENE_VERSION);
    let again = content_from_world(&world_from_content(&content).unwrap());
    assert_eq!(again.entities, content.entities);
    assert_eq!(content.entities[0].color, [10, 20, 30, 255]);
    assert_eq!(content.entities[0].transform, [fx(1.5), fx(-2.0), fx(3.25)]);
    assert_eq!(content.entities[1].actor_seed, 7);
}

#[test]
fn a_spawned_row_is_zero_in_what_is_not_given() {
    let mut w = World::new();
    let i = w.spawn(
        Position { x: fx(1.0), y: fx(2.0) },
        Velocity { x: fx(3.0), y: fx(4.0) },
        Color { r: 5, g: 6, b: 7, a: 8 },
    );
    let z = fx(0.0);
    assert_eq!(
        w.get_transforms().unwrap()[i],
        Transform { position: [z; 3], rotation: [z; 4], scale: [z; 3] }
    );
    assert_eq!(w.get_velocity_3d().unwrap()[i], Velocity3D { linear: [z; 3] });
    assert_eq!(
        w.get_actors().unwrap()[i],
        Actor { kind: 0, seed: 0, grounded: 0, jump_cd: 0, move_speed: z, jump_force: z }
    );
    assert_eq!(w.get_positions().unwrap()[i], Position { x: fx(1.0), y: fx(2.0) });
    assert_eq!(w.get_velocities().unwrap()[i], Velocity { x: fx(3.0), y: fx(4.0) });
    assert_eq!(w.get_colors().unwrap()[i], Color { r: 5, g: 6, b: 7, a: 8 });
}

#[test]
fn spare_slots_are_zero() {
    let z = fx(0.0);
    let clear = |w: &World, from: usize| {
        let n = w.get_colors().unwrap().len();
        for i in from..n {
            assert_eq!(w.get_positions().unwrap()[i], Position { x: z, y: z });
            assert_eq!(w.get_velocities().unwrap()[i], Velocity { x: z, y: z });
            assert_eq!(w.get_transforms().unwrap()[i], Transform::zero());
            assert_eq!(w.get_velocity_3d().unwrap()[i], Velocity3D::zero());
            assert_eq!(w.get_actors().unwrap()[i], Actor::zero());
            assert_eq!(w.get_colors().unwrap()[i], Color { r: 0, g: 0, b: 0, a: 0 });
        }
        n
    };
    assert_eq!(clear(&World::new(), 0), 64);
    assert_eq!(clear(&World::default(), 0), 64);
    assert_eq!(clear(&create_test_world(64), 64), 64);
    assert_eq!(clear(&create_test_world(65), 65), 128);
    // A world that is rebuilt from its scene has the smallest table for its rows.
    let mut w = create_test_world(129);
    w.set_transform(200, tx([1.0, 2.0, 3.0], [1.0; 3]));
    let back = world_from_content(&content_from_world(&w)).unwrap();
    assert_eq!(clear(&back, 129), 256);
    assert_eq!(back.hash(), w.hash());
}

#[test]
fn a_scene_keeps_every_column() {
    let mut w = build();
    let i = w.spawn(
        Position { x: fx(1.5), y: fx(-2.0) },
        Velocity { x: fx(0.25), y: fx(4.0) },
        Color { r: 1, g: 2, b: 3, a: 4 },
    );
    let mut t = tx([1.0, 2.0, 3.0], [4.0, 5.0, 6.0]);
    t.rotation = [fx(0.5), fx(-0.5), fx(0.25), fx(0.75)];
    w.set_transform(i, t);
    let content = content_from_world(&w);
    assert_eq!(content.entities[i].rotation, t.rotation);
    assert_eq!(content.entities[i].position_2d, [fx(1.5), fx(-2.0)]);
    assert_eq!(content.entities[i].velocity_2d, [fx(0.25), fx(4.0)]);
    let back = world_from_content(&content).unwrap();
    assert_eq!(back.entity_count(), w.entity_count());
    assert_eq!(back.hash(), w.hash());
}

#[test]
fn a_color_can_be_replaced() {
    let mut w = build();
    let c = Color { r: 1, g: 2, b: 3, a: 4 };
    w.set_color(1, c);
    assert_eq!(w.get_colors().unwrap()[1], c);
    assert_eq!(w.get_colors().unwrap()[0], Color { r: 10, g: 20, b: 30, a: 255 });
    let h = w.hash();
    w.set_color(1000, c);
    assert_eq!(w.hash(), h);
}

fn velocity_write(indices: Vec<u32>, vs: &[Velocity]) -> ColumnWrite {
    ColumnWrite {
        archetype: ArchetypeId(0),
        component: ComponentId(VELOCITY),
        indices,
        payload: pack(vs),
    }
}

#[test]
fn a_delta_applied_twice_is_a_delta_applied_once() {
    let v = |x: f32| Velocity { x: fx(x), y: fx(-x) };
    let mut d = WorldDelta::default();
    d.writes.push(velocity_write(vec![1, 0, 1], &[v(1.0), v(2.0), v(3.0)]));
    d.writes.push(velocity_write(vec![0, 500], &[v(4.0), v(5.0)]));
    let mut w = build();
    w.apply_delta(&d);
    let once = w.hash();
    assert_eq!(w.get_velocities().unwrap()[..2], [v(4.0), v(3.0)]);
    w.apply_delta(&d);
    assert_eq!(w.hash(), once);
}

#[test]
fn joined_deltas_act_in_turn() {
    let v = |x: f32| Velocity { x: fx(x), y: fx(-x) };
    let (mut a, mut b, mut ab) =
        (WorldDelta::default(), WorldDelta::default(), WorldDelta::default());
    a.writes.push(velocity_write(vec![0, 1], &[v(1.0), v(2.0)]));
    b.writes.push(velocity_write(vec![1], &[v(3.0)]));
    ab.writes.push(velocity_write(vec![0, 1], &[v(1.0), v(2.0)]));
    ab.writes.push(velocity_write(vec![1], &[v(3.0)]));
    let (mut x, mut y) = (build(), build());
    x.apply_delta(&a);
    x.apply_delta(&b);
    y.apply_delta(&ab);
    assert_eq!(x.hash(), y.hash());
    assert_eq!(y.get_velocities().unwrap()[..2], [v(1.0), v(3.0)]);
}

#[test]
fn a_hash_reads_live_rows_only() {
    let empty = World::new();
    assert_eq!(empty.hash(), World::default().hash());
    let mut a = build();
    let h = a.hash();
    a.set_transform(40, tx([9.0, 9.0, 9.0], [1.0; 3]));
    assert_eq!(a.hash(), h);
    a.set_transform(1, tx([9.0, 9.0, 9.0], [1.0; 3]));
    assert_ne!(a.hash(), h);
}

#[test]
fn a_write_touches_one_column() {
    let mut w = build();
    let before = w.clone_state();
    let v = Velocity { x: fx(7.0), y: fx(-7.0) };
    let mut d = WorldDelta::default();
    d.writes.push(ColumnWrite {
        archetype: ArchetypeId(w.archetype_id()),
        component: ComponentId(VELOCITY),
        indices: vec![1],
        payload: pack(&[v]),
    });
    w.apply_delta(&d);
    assert_eq!(w.get_velocities().unwrap()[1], v);
    assert_eq!(w.get_velocities().unwrap()[0], before.get_velocities().unwrap()[0]);
    assert_eq!(w.get_positions(), before.get_positions());
    assert_eq!(w.get_transforms(), before.get_transforms());
    assert_eq!(w.get_velocity_3d(), before.get_velocity_3d());
    assert_eq!(w.get_actors(), before.get_actors());
    assert_eq!(w.get_colors(), before.get_colors());
}

#[test]
fn the_last_element_for_a_row_wins() {
    let mut w = build();
    let (a, b) = (
        Velocity { x: fx(1.0), y: fx(2.0) },
        Velocity { x: fx(3.0), y: fx(4.0) },
    );
    let mut d = WorldDelta::default();
    d.writes.push(ColumnWrite {
        archetype: ArchetypeId(0),
        component: ComponentId(VELOCITY),
        indices: vec![1, 100000, 1],
        payload: pack(&[a, a, b]),
    });
    w.apply_delta(&d);
    assert_eq!(w.get_velocities().unwrap()[1], b);
    // Another archetype is not this world's.
    let mut other = WorldDelta::default();
    other.writes.push(ColumnWrite {
        archetype: ArchetypeId(1),
        component: ComponentId(VELOCITY),
        indices: vec![1],
        payload: pack(&[a]),
    });
    w.apply_delta(&other);
    assert_eq!(w.get_velocities().unwrap()[1], b);
}

#[test]
fn misplaced_writes_change_nothing() {
    let mut w = build();
    let h = w.hash();
    let v = Velocity3D { linear: [fx(1.0); 3] };
    let mut d = WorldDelta::default();
    // An unknown component, a payload of the wrong size, a row that is not there.
    d.writes.push(ColumnWrite {
        archetype: ArchetypeId(0),
        component: ComponentId(55),
        indices: vec![0],
        payload: pack(&[v]),
    });
    d.writes.push(ColumnWrite {
        archetype: ArchetypeId(0),
        component: ComponentId(VELOCITY3D),
        indices: vec![0],
        payload: vec![1, 2, 3],
    });
    d.writes.push(ColumnWrite {
        archetype: ArchetypeId(0),
        component: ComponentId(TRANSFORM),
        indices: vec![100000],
        payload: pack(&[tx([1.0; 3], [1.0; 3])]),
    });
    w.apply_delta(&d);
    assert_eq!(w.hash(), h);
    assert_eq!(ACTOR, 81);
}
