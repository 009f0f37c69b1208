//! Portable scenes: a versioned list of authored entities, and its exchange
//! with a world.

use crate::contracts::components::{Actor, Color, Position, Transform, Velocity, Velocity3D};
use crate::ecs::world::World;
use crate::fx::Fx16;
use vstd::prelude::*;

verus! {

/// The scene format version.
pub const SCENE_VERSION: u32 = 1;

/// A versioned list of authored entities.
#[derive(Clone, Debug)]
pub struct SceneContent {
    /// Format version.
    pub version: u32,
    /// The entities.
    pub entities: Vec<SceneEntity>,
}

/// The authored components of one entity.
#[derive(Clone, Copy, PartialEq, Debug)]
pub struct SceneEntity {
    /// World position (x, y, z).
    pub transform: [Fx16; 3],
    /// Rotation, a quaternion (x, y, z, w).
    pub rotation: [Fx16; 4],
    /// Scale (x, y, z).
    pub scale: [Fx16; 3],
    /// RGBA color.
    pub color: [u8; 4],
    /// Linear velocity (x, y, z).
    pub velocity: [Fx16; 3],
    /// 2D position (x, y).
    pub position_2d: [Fx16; 2],
    /// 2D velocity (x, y).
    pub velocity_2d: [Fx16; 2],
    /// Actor behaviour (0 = player, 1 = wander, 2 = circle, 3 = chase).
    pub actor_kind: u32,
    /// Deterministic seed.
    pub actor_seed: u32,
    /// 1 = on the ground.
    pub grounded: u32,
    /// Ticks before the next jump is allowed.
    pub jump_cd: u32,
    /// Horizontal move speed.
    pub move_speed: Fx16,
    /// Jump impulse.
    pub jump_force: Fx16,
}

/// The entity that stands for the rows of a slot.
pub open spec fn entity_of(r: crate::ecs::world::RowModel) -> SceneEntity {
    SceneEntity {
        transform: r.transform.position,
        rotation: r.transform.rotation,
        scale: r.transform.scale,
        color: [r.color.r, r.color.g, r.color.b, r.color.a],
        velocity: r.velocity3d.linear,
        position_2d: [r.position.x, r.position.y],
        velocity_2d: [r.velocity.x, r.velocity.y],
        actor_kind: r.actor.kind,
        actor_seed: r.actor.seed,
        grounded: r.actor.grounded,
        jump_cd: r.actor.jump_cd,
        move_speed: r.actor.move_speed,
        jump_force: r.actor.jump_force,
    }
}

/// The rows that an entity is loaded into.
pub open spec fn row_of(e: SceneEntity) -> crate::ecs::world::RowModel {
    crate::ecs::world::RowModel {
        position: Position { x: e.position_2d[0], y: e.position_2d[1] },
        velocity: Velocity { x: e.velocity_2d[0], y: e.velocity_2d[1] },
        transform: Transform { position: e.transform, rotation: e.rotation, scale: e.scale },
        velocity3d: Velocity3D { linear: e.velocity },
        actor: Actor {
            kind: e.actor_kind,
            seed: e.actor_seed,
            grounded: e.grounded,
            jump_cd: e.jump_cd,
            move_speed: e.move_speed,
            jump_force: e.jump_force,
        },
        color: Color { r: e.color[0], g: e.color[1], b: e.color[2], a: e.color[3] },
    }
}

/// The entities of a world's live rows.
pub open spec fn entities_of(w: crate::ecs::world::WorldModel) -> Seq<SceneEntity> {
    Seq::new(w.count, |i: int| entity_of(w.at(i)))
}

/// The rows of a list of entities.
pub open spec fn rows_of(es: Seq<SceneEntity>) -> Seq<crate::ecs::world::RowModel> {
    Seq::new(es.len(), |i: int| row_of(es[i]))
}

/// The scene of a world: one entity for each live row.
pub fn content_from_world(world: &World) -> (r: SceneContent)
    requires
        world.wf(),
    ensures
        r.version == SCENE_VERSION,
        r.entities@ == entities_of(world@),
        crate::ecs::world::table_fits(r.entities@.len()),
{
    proof {
        world.lemma_wf();
    }
    let n: usize = world.entity_count();
    let mut entities: Vec<SceneEntity> = Vec::new();
    if let (Some(ps), Some(pvs), Some(ts), Some(vs), Some(acts), Some(cs)) = (
        world.get_positions(),
        world.get_velocities(),
        world.get_transforms(),
        world.get_velocity_3d(),
        world.get_actors(),
        world.get_colors(),
    ) {
        let mut i: usize = 0;
        while i < n
            invariant
                i <= n,
                n == world@.count,
                world@.wf(),
                ps@ == world@.positions,
                pvs@ == world@.velocities,
                ts@ == world@.transforms,
                vs@ == world@.velocity3d,
                acts@ == world@.actors,
                cs@ == world@.colors,
                entities@ == entities_of(world@).take(i as int),
            decreases n - i,
        {
            let t: Transform = ts[i];
            let a: Actor = acts[i];
            let c: Color = cs[i];
            entities.push(
                SceneEntity {
                    transform: t.position,
                    rotation: t.rotation,
                    scale: t.scale,
                    color: [c.r, c.g, c.b, c.a],
                    velocity: vs[i].linear,
                    position_2d: [ps[i].x, ps[i].y],
                    velocity_2d: [pvs[i].x, pvs[i].y],
                    actor_kind: a.kind,
                    actor_seed: a.seed,
                    grounded: a.grounded,
                    jump_cd: a.jump_cd,
                    move_speed: a.move_speed,
                    jump_force: a.jump_force,
                },
            );
            i = i + 1;
            assert(entities@ =~= entities_of(world@).take(i as int));
        }
        assert(entities@ =~= entities_of(world@));
    }
    SceneContent { version: SCENE_VERSION, entities }
}

/// The text of a rejected version.
pub open spec fn version_text(version: u32) -> Seq<char> {
    "unsupported scene version "@ + crate::text::decimal(version as nat)
}

/// A fresh world that holds a scene's entities, in order. A scene of another
/// version is rejected. The table must fit in memory, as that of every world does.
pub fn world_from_content(scene: &SceneContent) -> (r: Result<World, String>)
    requires
        crate::ecs::world::table_fits(scene.entities@.len()),
    ensures
        match r {
            Ok(w) => scene.version == SCENE_VERSION && w.wf() && w@ == crate::ecs::world::table(
                rows_of(scene.entities@),
            ) && w@.live() == rows_of(scene.entities@) && w@.count == scene.entities@.len(),
            Err(t) => scene.version != SCENE_VERSION && t@ == version_text(scene.version),
        },
{
    if scene.version != SCENE_VERSION {
        let n = crate::text::decimal_text(scene.version as u64);
        return Err(crate::text::joined("unsupported scene version ", n.as_str()));
    }
    let mut w = World::new();
    let ghost rows = rows_of(scene.entities@);
    let mut i: usize = 0;
    assert(rows.take(0) =~= seq![]);
    while i < scene.entities.len()
        invariant
            i <= scene.entities@.len(),
            rows == rows_of(scene.entities@),
            crate::ecs::world::table_fits(rows.len()),
            w.wf(),
            w@ == crate::ecs::world::table(rows.take(i as int)),
        decreases scene.entities@.len() - i,
    {
        let e: SceneEntity = scene.entities[i];
        proof {
            crate::ecs::world::lemma_fill_table(rows, i as int);
            assert(rows[i as int] == row_of(e));
        }
        let _ = w.spawn_row(
            Position { x: e.position_2d[0], y: e.position_2d[1] },
            Velocity { x: e.velocity_2d[0], y: e.velocity_2d[1] },
            Color { r: e.color[0], g: e.color[1], b: e.color[2], a: e.color[3] },
            Transform { position: e.transform, rotation: e.rotation, scale: e.scale },
            Velocity3D { linear: e.velocity },
            Actor {
                kind: e.actor_kind,
                seed: e.actor_seed,
                grounded: e.grounded,
                jump_cd: e.jump_cd,
                move_speed: e.move_speed,
                jump_force: e.jump_force,
            },
        );
        i = i + 1;
    }
    proof {
        assert(rows.take(i as int) =~= rows);
        crate::ecs::world::law_table(rows, crate::ecs::world::zero_row());
    }
    Ok(w)
}

/// Loading a scene and saving the world gives the scene back, whatever it holds.
pub proof fn law_scene_saved_back(es: Seq<SceneEntity>, w: crate::ecs::world::WorldModel)
    requires
        w.wf(),
        w.live() == rows_of(es),
    ensures
        entities_of(w) == es,
{
    assert(w.live().len() == w.count && rows_of(es).len() == es.len());
    assert forall|i: int| 0 <= i < es.len() implies entities_of(w)[i] == es[i] by {
        assert(w.live()[i] == rows_of(es)[i]);
        assert(w.at(i) == row_of(es[i]));
        let back = entity_of(row_of(es[i]));
        assert(back.color =~= es[i].color);
        assert(back.position_2d =~= es[i].position_2d);
        assert(back.velocity_2d =~= es[i].velocity_2d);
    }
    assert(entities_of(w) =~= es);
}

/// Saving a world and loading the scene gives back the same live rows, and so a
/// world with the same hash, whatever the world holds.
pub proof fn law_scene_roundtrip(w: crate::ecs::world::WorldModel, back: crate::ecs::world::WorldModel)
    requires
        w.wf(),
        back.wf(),
        back.live() == rows_of(entities_of(w)),
    ensures
        back.count == w.count,
        back.live() == w.live(),
        crate::ecs::world::world_hash(back) == crate::ecs::world::world_hash(w),
{
    assert forall|i: int| 0 <= i < w.count implies rows_of(entities_of(w))[i] == w.live()[i] by {
        assert(row_of(entity_of(w.at(i))) == w.at(i));
    }
    assert(back.live() =~= w.live());
    assert(back.live().len() == back.count && w.live().len() == w.count);
    crate::ecs::world::law_hash_of_live_rows(back, w);
}

/// A saved entity holds what its row held, each part under its own name, and there
/// is one entity for each live row, in order.
pub proof fn law_saved_parts(w: crate::ecs::world::WorldModel, i: int)
    requires
        w.wf(),
        0 <= i < w.count,
    ensures
        entities_of(w).len() == w.count,
        entities_of(w)[i].transform == w.transforms[i].position,
        entities_of(w)[i].rotation == w.transforms[i].rotation,
        entities_of(w)[i].scale == w.transforms[i].scale,
        entities_of(w)[i].color@ == seq![
            w.colors[i].r,
            w.colors[i].g,
            w.colors[i].b,
            w.colors[i].a,
        ],
        entities_of(w)[i].velocity == w.velocity3d[i].linear,
        entities_of(w)[i].position_2d@ == seq![w.positions[i].x, w.positions[i].y],
        entities_of(w)[i].velocity_2d@ == seq![w.velocities[i].x, w.velocities[i].y],
        entities_of(w)[i].actor_kind == w.actors[i].kind,
        entities_of(w)[i].actor_seed == w.actors[i].seed,
        entities_of(w)[i].grounded == w.actors[i].grounded,
        entities_of(w)[i].jump_cd == w.actors[i].jump_cd,
        entities_of(w)[i].move_speed == w.actors[i].move_speed,
        entities_of(w)[i].jump_force == w.actors[i].jump_force,
{
    let e = entities_of(w)[i];
    assert(e.color@ =~= seq![w.colors[i].r, w.colors[i].g, w.colors[i].b, w.colors[i].a]);
    assert(e.position_2d@ =~= seq![w.positions[i].x, w.positions[i].y]);
    assert(e.velocity_2d@ =~= seq![w.velocities[i].x, w.velocities[i].y]);
}

/// A loaded row holds what its entity held, each part in its own column, and there
/// is one row for each entity, in order.
pub proof fn law_loaded_parts(es: Seq<SceneEntity>, w: crate::ecs::world::WorldModel, i: int)
    requires
        w.wf(),
        w.live() == rows_of(es),
        0 <= i < es.len(),
    ensures
        w.count == es.len(),
        w.positions[i].x == es[i].position_2d[0],
        w.positions[i].y == es[i].position_2d[1],
        w.velocities[i].x == es[i].velocity_2d[0],
        w.velocities[i].y == es[i].velocity_2d[1],
        w.transforms[i].position == es[i].transform,
        w.transforms[i].rotation == es[i].rotation,
        w.transforms[i].scale == es[i].scale,
        w.velocity3d[i].linear == es[i].velocity,
        w.actors[i].kind == es[i].actor_kind,
        w.actors[i].seed == es[i].actor_seed,
        w.actors[i].grounded == es[i].grounded,
        w.actors[i].jump_cd == es[i].jump_cd,
        w.actors[i].move_speed == es[i].move_speed,
        w.actors[i].jump_force == es[i].jump_force,
        w.colors[i].r == es[i].color[0],
        w.colors[i].g == es[i].color[1],
        w.colors[i].b == es[i].color[2],
        w.colors[i].a == es[i].color[3],
{
    assert(w.live().len() == w.count);
    assert(w.live()[i] == rows_of(es)[i]);
    assert(w.at(i) == row_of(es[i]));
}

/// The one version that is read is the first, and a scene of another one is
/// rejected with its number.
pub proof fn law_version(v: u32)
    ensures
        SCENE_VERSION == 1,
        version_text(v) == "unsupported scene version "@ + crate::text::decimal(v as nat),
{
}

} // verus!
