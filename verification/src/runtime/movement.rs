//! Native movement: positions advance by velocities and bounce off the walls.
//!
//! The system reads the world and returns a delta; it never writes a column
//! itself.

use crate::contracts::comp;
use crate::contracts::components::{Component, Position, Velocity};
use crate::contracts::delta::{ArchetypeId, ColumnWrite, ComponentId, WorldDelta};
use crate::contracts::wire::Wire;
use crate::ecs::world::World;
use crate::fx::Fx16;
use vstd::prelude::*;

verus! {

/// The low wall, in whole units.
pub const WALL_MIN: i32 = 0;

/// The high wall, in whole units.
pub const WALL_MAX: i32 = 500;

/// Whether a coordinate is behind a wall.
pub open spec fn outside(c: int) -> bool {
    c < WALL_MIN * 65536 || c > WALL_MAX * 65536
}

/// The coordinate and velocity of one axis after a tick: the sum, or, where the
/// sum is behind a wall, the same coordinate with the velocity turned round.
pub open spec fn axis_step(p: Fx16, v: Fx16) -> (Fx16, Fx16) {
    if outside(p.bits + v.bits) {
        (p, Fx16 { bits: (-v.bits) as i32 })
    } else {
        (Fx16 { bits: (p.bits + v.bits) as i32 }, v)
    }
}

/// Whether a tick of one axis stays within the numbers: the sum can be
/// represented, and a velocity that is turned round has a negation.
pub open spec fn axis_fits(p: Fx16, v: Fx16) -> bool {
    &&& i32::MIN <= p.bits + v.bits <= i32::MAX
    &&& outside(p.bits + v.bits) ==> v.bits != i32::MIN
}

/// A position after a tick.
pub open spec fn position_step(p: Position, v: Velocity) -> Position {
    Position { x: axis_step(p.x, v.x).0, y: axis_step(p.y, v.y).0 }
}

/// A velocity after a tick.
pub open spec fn velocity_step(p: Position, v: Velocity) -> Velocity {
    Velocity { x: axis_step(p.x, v.x).1, y: axis_step(p.y, v.y).1 }
}

/// The positions of the live rows after a tick.
pub open spec fn moved_positions(w: crate::ecs::world::WorldModel) -> Seq<Position> {
    Seq::new(w.count, |i: int| position_step(w.positions[i], w.velocities[i]))
}

/// The velocities of the live rows after a tick.
pub open spec fn moved_velocities(w: crate::ecs::world::WorldModel) -> Seq<Velocity> {
    Seq::new(w.count, |i: int| velocity_step(w.positions[i], w.velocities[i]))
}

/// Rows packed one behind the other.
pub open spec fn packed<T: Component>(rows: Seq<T>) -> Seq<u8>
    decreases rows.len(),
{
    if rows.len() == 0 {
        seq![]
    } else {
        packed(rows.drop_last()) + crate::bytes::words_bytes(rows.last().words())
    }
}

/// The slots `0..n`.
pub open spec fn slots(n: nat) -> Seq<u32> {
    Seq::new(n, |i: int| i as u32)
}

/// The delta of a tick: all positions, then all velocities.
pub open spec fn movement_writes(w: crate::ecs::world::WorldModel) -> Seq<
    crate::contracts::delta::WriteModel,
> {
    seq![
        crate::contracts::delta::WriteModel {
            archetype: ArchetypeId(0),
            component: ComponentId(comp::POSITION),
            indices: slots(w.count),
            payload: packed(moved_positions(w)),
        },
        crate::contracts::delta::WriteModel {
            archetype: ArchetypeId(0),
            component: ComponentId(comp::VELOCITY),
            indices: slots(w.count),
            payload: packed(moved_velocities(w)),
        },
    ]
}

/// Whether a tick of every live row stays within the numbers.
pub open spec fn movement_fits(w: crate::ecs::world::WorldModel) -> bool {
    forall|i: int|
        0 <= i < w.count ==> axis_fits((#[trigger] w.positions[i]).x, w.velocities[i].x)
            && axis_fits(w.positions[i].y, w.velocities[i].y)
}

fn step(p: Fx16, v: Fx16) -> (r: (Fx16, Fx16))
    requires
        axis_fits(p, v),
    ensures
        r == axis_step(p, v),
{
    let n = p.plus(v);
    if n.less(Fx16::from_num(WALL_MIN)) || Fx16::from_num(WALL_MAX).less(n) {
        (p, v.negated())
    } else {
        (n, v)
    }
}

/// Packs rows into the payload of a column write.
pub fn pack<T: Component>(rows: &[T]) -> (r: Vec<u8>)
    ensures
        r@ == packed(rows@),
{
    let mut out: Vec<u8> = Vec::new();
    let mut i: usize = 0;
    while i < rows.len()
        invariant
            i <= rows@.len(),
            out@ == packed(rows@.take(i as int)),
        decreases rows@.len() - i,
    {
        let words: Vec<u32> = rows[i].to_words();
        let ghost head = out@;
        let mut k: usize = 0;
        while k < words.len()
            invariant
                k <= words@.len(),
                out@ == head + crate::bytes::words_bytes(words@.take(k as int)),
            decreases words@.len() - k,
        {
            crate::bytes::push_word(&mut out, words[k]);
            k = k + 1;
            assert(out@ =~= head + crate::bytes::words_bytes(words@.take(k as int)));
        }
        assert(words@.take(k as int) =~= words@);
        i = i + 1;
        assert(rows@.take(i as int).drop_last() =~= rows@.take(i - 1));
    }
    assert(rows@.take(i as int) =~= rows@);
    out
}

/// Runs one movement tick and returns what it would change.
pub fn native_movement_system(world: &World) -> (r: WorldDelta)
    requires
        world.wf(),
        world@.count <= u32::MAX,
        movement_fits(world@),
    ensures
        r.model() == (crate::contracts::delta::DeltaModel {
            spawns: seq![],
            despawns: seq![],
            writes: movement_writes(world@),
            deferred: seq![],
            warnings: seq![],
        }),
{
    proof {
        world.lemma_wf();
    }
    let n: usize = world.entity_count();
    let mut new_pos: Vec<Position> = Vec::new();
    let mut new_vel: Vec<Velocity> = Vec::new();
    let mut indices: Vec<u32> = Vec::new();
    if let (Some(positions), Some(velocities)) = (world.get_positions(), world.get_velocities()) {
        let mut i: usize = 0;
        while i < n
            invariant
                i <= n,
                n == world@.count,
                n <= u32::MAX,
                world@.wf(),
                movement_fits(world@),
                positions@ == world@.positions,
                velocities@ == world@.velocities,
                new_pos@ == moved_positions(world@).take(i as int),
                new_vel@ == moved_velocities(world@).take(i as int),
                indices@ == slots(i as nat),
            decreases n - i,
        {
            let p: Position = positions[i];
            let v: Velocity = velocities[i];
            let (fx, vx) = step(p.x, v.x);
            let (fy, vy) = step(p.y, v.y);
            new_pos.push(Position { x: fx, y: fy });
            new_vel.push(Velocity { x: vx, y: vy });
            indices.push(i as u32);
            i = i + 1;
            assert(new_pos@ =~= moved_positions(world@).take(i as int));
            assert(new_vel@ =~= moved_velocities(world@).take(i as int));
            assert(indices@ =~= slots(i as nat));
        }
        assert(new_pos@ =~= moved_positions(world@));
        assert(new_vel@ =~= moved_velocities(world@));
    }
    let again: Vec<u32> = indices.clone();
    assert(again@ =~= indices@);
    let mut delta = WorldDelta::default();
    assert(delta.model().writes.len() == 0);
    assert(delta.model().spawns.len() == 0);
    assert(delta.model().despawns.len() == 0);
    assert(delta.model().deferred.len() == 0);
    assert(delta.model().warnings.len() == 0);
    delta.writes.push(
        ColumnWrite {
            archetype: ArchetypeId(0),
            component: ComponentId(comp::POSITION),
            indices: again,
            payload: pack::<Position>(new_pos.as_slice()),
        },
    );
    delta.writes.push(
        ColumnWrite {
            archetype: ArchetypeId(0),
            component: ComponentId(comp::VELOCITY),
            indices,
            payload: pack::<Velocity>(new_vel.as_slice()),
        },
    );
    assert(delta.writes@.len() == 2);
    assert(delta.writes@[0].model() =~= movement_writes(world@)[0]);
    assert(delta.writes@[1].model() =~= movement_writes(world@)[1]);
    assert(delta.model().writes =~= movement_writes(world@));
    assert(delta.model().spawns =~= seq![]);
    assert(delta.model().despawns =~= seq![]);
    assert(delta.model().deferred =~= seq![]);
    assert(delta.model().warnings =~= seq![]);
    delta
}

/// Packed rows are read back one by one.
pub proof fn law_pack_rows<T: Component>(rows: Seq<T>)
    ensures
        packed(rows).len() == rows.len() * (4 * T::width()),
        forall|i: int|
            0 <= i < rows.len() ==> #[trigger] crate::ecs::storage::row::<T>(packed(rows), i)
                == rows[i],
    decreases rows.len(),
{
    T::lemma_width();
    let w = T::width() as int;
    if rows.len() > 0 {
        let n = rows.len() - 1;
        let before = packed(rows.drop_last());
        let piece = crate::bytes::words_bytes(rows.last().words());
        law_pack_rows(rows.drop_last());
        rows.last().lemma_image();
        assert(piece.len() == 4 * w);
        assert(n * (4 * w) + 4 * w == (n + 1) * (4 * w)) by (nonlinear_arith);
        assert(before.len() == n * (4 * w));
        assert(n * (4 * w) == 4 * (n * w)) by (nonlinear_arith);
        assert forall|i: int| 0 <= i < rows.len() implies #[trigger] crate::ecs::storage::row::<T>(
            packed(rows),
            i,
        ) == rows[i] by {
            if i < n {
                vstd::arithmetic::div_mod::lemma_div_multiples_vanish(n, 4 * w);
                assert((4 * w) * n == n * (4 * w)) by (nonlinear_arith);
                crate::ecs::storage::lemma_grown_rows::<T>(before, piece, i);
                assert(rows.drop_last()[i] == rows[i]);
            } else {
                let mine = Seq::new(
                    T::width(),
                    |k: int| crate::bytes::word_at(packed(rows), i * T::width() + k),
                );
                assert forall|k: int| 0 <= k < w implies #[trigger] mine[k] == rows[i].words()[k]
                    by {
                    crate::bytes::lemma_word_at(rows[i].words(), k);
                    let q = 4 * (i * w + k);
                    assert(q == before.len() + 4 * k);
                    assert(packed(rows)[q] == piece[4 * k]);
                    assert(packed(rows)[q + 1] == piece[4 * k + 1]);
                    assert(packed(rows)[q + 2] == piece[4 * k + 2]);
                    assert(packed(rows)[q + 3] == piece[4 * k + 3]);
                }
                assert(mine =~= rows[i].words());
            }
        }
    }
}

/// Scattering packed rows to the slots `0..n` replaces the first `n` rows.
proof fn lemma_scatter_slots<T: Component>(col: Seq<T>, rows: Seq<T>, n: nat)
    requires
        rows.len() <= col.len(),
        n <= rows.len() <= u32::MAX,
    ensures
        crate::ecs::world::scatter(col, slots(rows.len()), packed(rows), n) == rows.take(n as int)
            + col.skip(n as int),
    decreases n,
{
    law_pack_rows(rows);
    let all = slots(rows.len());
    if n > 0 {
        lemma_scatter_slots(col, rows, (n - 1) as nat);
        assert(all[n - 1] == n - 1);
        assert(crate::ecs::storage::row::<T>(packed(rows), n - 1) == rows[n - 1]);
        assert(crate::ecs::world::scatter(col, all, packed(rows), n) =~= rows.take(n as int)
            + col.skip(n as int));
    } else {
        assert(rows.take(0) + col.skip(0) =~= col);
    }
}

/// Applying the delta of a tick moves every live row by one step and leaves
/// everything else as it was.
pub proof fn law_movement_applied(w: crate::ecs::world::WorldModel)
    requires
        w.wf(),
        w.count <= u32::MAX,
    ensures
        crate::ecs::world::written_all(w, movement_writes(w), 2) == (
        crate::ecs::world::WorldModel {
            positions: moved_positions(w) + w.positions.skip(w.count as int),
            velocities: moved_velocities(w) + w.velocities.skip(w.count as int),
            ..w
        }),
{
    let writes = movement_writes(w);
    let ps = moved_positions(w);
    let vs = moved_velocities(w);
    law_pack_rows(ps);
    law_pack_rows(vs);
    lemma_scatter_slots(w.positions, ps, w.count);
    lemma_scatter_slots(w.velocities, vs, w.count);
    assert(ps.take(w.count as int) =~= ps);
    assert(vs.take(w.count as int) =~= vs);
    reveal_with_fuel(crate::ecs::world::written_all, 3);
    assert(crate::ecs::world::written_all(w, writes, 0) == w);
    let one = crate::ecs::world::written(w, writes[0]);
    assert(one == (crate::ecs::world::WorldModel {
        positions: ps + w.positions.skip(w.count as int),
        ..w
    }));
    assert(crate::ecs::world::written_all(w, writes, 1) == one);
}

/// A tick keeps a coordinate inside the walls inside the walls.
pub proof fn law_movement_stays_inside(p: Fx16, v: Fx16)
    requires
        axis_fits(p, v),
        !outside(p.bits as int),
    ensures
        !outside(axis_step(p, v).0.bits as int),
{
}

/// A tick keeps the speed: the velocity stays or is turned round.
pub proof fn law_movement_keeps_speed(p: Fx16, v: Fx16)
    requires
        axis_fits(p, v),
    ensures
        axis_step(p, v).1.bits == v.bits || axis_step(p, v).1.bits == -v.bits,
        axis_step(p, v).1.bits == -v.bits <==> (v.bits == 0 || outside(p.bits + v.bits)),
{
}

/// A tick of one axis, on the numbers: a coordinate moves by exactly its velocity
/// where that leaves it between 0 and 500 units, both included, and the velocity
/// stays; elsewhere the coordinate stays and the velocity is turned round.
pub proof fn law_tick_of_an_axis(p: Fx16, v: Fx16)
    requires
        axis_fits(p, v),
    ensures
        0 <= p.bits + v.bits <= 500 * 65536 ==> axis_step(p, v).0.bits == p.bits + v.bits
            && axis_step(p, v).1.bits == v.bits,
        (p.bits + v.bits < 0 || p.bits + v.bits > 500 * 65536) ==> axis_step(p, v).0.bits == p.bits
            && axis_step(p, v).1.bits == -v.bits,
{
}

/// A tick is possible for every coordinate between the walls and every velocity
/// that the sum has room for.
pub proof fn law_tick_is_possible(p: Fx16, v: Fx16)
    requires
        0 <= p.bits <= 500 * 65536,
        i32::MIN < v.bits,
        p.bits + v.bits <= i32::MAX,
    ensures
        axis_fits(p, v),
{
}

/// Applying the delta of a tick gives every live row, on both axes, the coordinate
/// and the velocity of its own tick; rows that are not live and all other columns
/// stay.
pub proof fn law_tick_of_a_world(w: crate::ecs::world::WorldModel, i: int)
    requires
        w.wf(),
        w.count <= u32::MAX,
        movement_fits(w),
        0 <= i < w.cap(),
    ensures
        ({
            let after = crate::ecs::world::written_all(w, movement_writes(w), 2);
            let x = w.positions[i].x.bits + w.velocities[i].x.bits;
            let y = w.positions[i].y.bits + w.velocities[i].y.bits;
            &&& after.count == w.count && after.cap() == w.cap()
            &&& i < w.count && 0 <= x <= 500 * 65536 ==> after.positions[i].x.bits == x
                && after.velocities[i].x == w.velocities[i].x
            &&& i < w.count && (x < 0 || x > 500 * 65536) ==> after.positions[i].x
                == w.positions[i].x && after.velocities[i].x.bits == -w.velocities[i].x.bits
            &&& i < w.count && 0 <= y <= 500 * 65536 ==> after.positions[i].y.bits == y
                && after.velocities[i].y == w.velocities[i].y
            &&& i < w.count && (y < 0 || y > 500 * 65536) ==> after.positions[i].y
                == w.positions[i].y && after.velocities[i].y.bits == -w.velocities[i].y.bits
            &&& i >= w.count ==> after.positions[i] == w.positions[i] && after.velocities[i]
                == w.velocities[i]
            &&& after.transforms == w.transforms
            &&& after.velocity3d == w.velocity3d
            &&& after.actors == w.actors
            &&& after.colors == w.colors
        }),
{
    law_movement_applied(w);
    let after = crate::ecs::world::written_all(w, movement_writes(w), 2);
    let p = w.positions[i];
    let v = w.velocities[i];
    if i < w.count {
        assert(axis_fits(p.x, v.x) && axis_fits(p.y, v.y));
        law_tick_of_an_axis(p.x, v.x);
        law_tick_of_an_axis(p.y, v.y);
        assert(after.positions[i] == position_step(p, v));
        assert(after.velocities[i] == velocity_step(p, v));
    }
}

/// Packing puts the words of each row where they are read from: nothing packed is
/// nothing, and rows packed in two lots stand one lot behind the other.
pub proof fn law_packed_in_order<T: Component>(a: Seq<T>, b: Seq<T>)
    ensures
        packed(Seq::<T>::empty()) == Seq::<u8>::empty(),
        packed(a + b) == packed(a) + packed(b),
    decreases b.len(),
{
    if b.len() > 0 {
        law_packed_in_order(a, b.drop_last());
        assert((a + b).drop_last() =~= a + b.drop_last());
        assert((a + b).last() == b.last());
        assert(packed(a + b) =~= packed(a) + packed(b));
    } else {
        assert(a + b =~= a);
        assert(packed(a) + packed(b) =~= packed(a));
    }
}

} // verus!
