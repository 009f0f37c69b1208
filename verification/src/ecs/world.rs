//! The world: one fixed archetype of `Position`, `Velocity`, `Transform`,
//! `Velocity3D`, `Actor` and `Color`.

use crate::contracts::comp;
use crate::contracts::components::{
    Actor, Color, Component, Position, Transform, Velocity, Velocity3D,
};
use crate::contracts::delta::{ColumnWrite, WorldDelta};
use crate::contracts::wire::Wire;
use crate::ecs::storage::ArchetypeStorage;
use crate::fx::Fx16;
use std::collections::hash_map::DefaultHasher;
use std::hash::Hasher;
use vstd::prelude::*;

verus! {

/// What a world holds. Every column has one row for each allocated slot; the
/// first `count` rows are live.
#[verifier::ext_equal]
pub struct WorldModel {
    /// 2D positions.
    pub positions: Seq<Position>,
    /// 2D velocities.
    pub velocities: Seq<Velocity>,
    /// 3D transforms.
    pub transforms: Seq<Transform>,
    /// 3D velocities.
    pub velocity3d: Seq<Velocity3D>,
    /// Actor tags.
    pub actors: Seq<Actor>,
    /// Colors.
    pub colors: Seq<Color>,
    /// Number of live rows.
    pub count: nat,
}

/// The rows of one slot.
#[verifier::ext_equal]
pub struct RowModel {
    /// 2D position.
    pub position: Position,
    /// 2D velocity.
    pub velocity: Velocity,
    /// 3D transform.
    pub transform: Transform,
    /// 3D velocity.
    pub velocity3d: Velocity3D,
    /// Actor tag.
    pub actor: Actor,
    /// Color.
    pub color: Color,
}

impl WorldModel {
    /// Every column has the same number of rows, and the live ones are among
    /// them.
    pub open spec fn wf(self) -> bool {
        &&& self.count <= self.positions.len()
        &&& self.velocities.len() == self.positions.len()
        &&& self.transforms.len() == self.positions.len()
        &&& self.velocity3d.len() == self.positions.len()
        &&& self.actors.len() == self.positions.len()
        &&& self.colors.len() == self.positions.len()
    }

    /// Number of allocated slots.
    pub open spec fn cap(self) -> nat {
        self.positions.len()
    }

    /// The rows of slot `i`.
    pub open spec fn at(self, i: int) -> RowModel {
        RowModel {
            position: self.positions[i],
            velocity: self.velocities[i],
            transform: self.transforms[i],
            velocity3d: self.velocity3d[i],
            actor: self.actors[i],
            color: self.colors[i],
        }
    }

    /// The live rows, which are all that the rest of the engine reads.
    pub open spec fn live(self) -> Seq<RowModel> {
        Seq::new(self.count, |i: int| self.at(i))
    }

    /// This world with the transform of slot `i` replaced, if there is one.
    pub open spec fn with_transform(self, i: int, t: Transform) -> WorldModel {
        if 0 <= i < self.transforms.len() {
            WorldModel { transforms: self.transforms.update(i, t), ..self }
        } else {
            self
        }
    }

    /// This world with the 3D velocity of slot `i` replaced, if there is one.
    pub open spec fn with_velocity3d(self, i: int, v: Velocity3D) -> WorldModel {
        if 0 <= i < self.velocity3d.len() {
            WorldModel { velocity3d: self.velocity3d.update(i, v), ..self }
        } else {
            self
        }
    }

    /// This world with the actor of slot `i` replaced, if there is one.
    pub open spec fn with_actor(self, i: int, a: Actor) -> WorldModel {
        if 0 <= i < self.actors.len() {
            WorldModel { actors: self.actors.update(i, a), ..self }
        } else {
            self
        }
    }

    /// This world with the color of slot `i` replaced, if there is one.
    pub open spec fn with_color(self, i: int, c: Color) -> WorldModel {
        if 0 <= i < self.colors.len() {
            WorldModel { colors: self.colors.update(i, c), ..self }
        } else {
            self
        }
    }
}

/// The rows of a slot that has just been spawned: what the caller does not give
/// is zero in every field.
pub open spec fn fresh_row(pos: Position, vel: Velocity, color: Color) -> RowModel {
    RowModel {
        position: pos,
        velocity: vel,
        transform: Transform::spec_zero(),
        velocity3d: Velocity3D::spec_zero(),
        actor: Actor::spec_zero(),
        color,
    }
}

/// The rows of a slot that nothing was written to.
pub open spec fn zero_row() -> RowModel {
    RowModel {
        position: Position { x: Fx16 { bits: 0 }, y: Fx16 { bits: 0 } },
        velocity: Velocity { x: Fx16 { bits: 0 }, y: Fx16 { bits: 0 } },
        transform: Transform::spec_zero(),
        velocity3d: Velocity3D::spec_zero(),
        actor: Actor::spec_zero(),
        color: Color { r: 0, g: 0, b: 0, a: 0 },
    }
}

/// A world with twice the slots; the new ones are zero.
pub open spec fn grown(w: WorldModel) -> WorldModel {
    let n = w.cap();
    WorldModel {
        positions: w.positions + Seq::new(n, |i: int| zero_row().position),
        velocities: w.velocities + Seq::new(n, |i: int| zero_row().velocity),
        transforms: w.transforms + Seq::new(n, |i: int| zero_row().transform),
        velocity3d: w.velocity3d + Seq::new(n, |i: int| zero_row().velocity3d),
        actors: w.actors + Seq::new(n, |i: int| zero_row().actor),
        colors: w.colors + Seq::new(n, |i: int| zero_row().color),
        count: w.count,
    }
}

/// A world with one more live row, grown first if all slots were taken.
pub open spec fn spawned(w: WorldModel, new: RowModel) -> WorldModel {
    let room = if w.count < w.cap() {
        w
    } else {
        grown(w)
    };
    let i = w.count as int;
    WorldModel {
        positions: room.positions.update(i, new.position),
        velocities: room.velocities.update(i, new.velocity),
        transforms: room.transforms.update(i, new.transform),
        velocity3d: room.velocity3d.update(i, new.velocity3d),
        actors: room.actors.update(i, new.actor),
        colors: room.colors.update(i, new.color),
        count: w.count + 1,
    }
}

/// The slots of a table that `n` rows were added to, one by one.
pub open spec fn table_cap(n: nat) -> nat
    decreases n,
{
    if n == 0 {
        crate::ecs::storage::START_CAPACITY as nat
    } else {
        let c = table_cap((n - 1) as nat);
        if n - 1 < c {
            c
        } else {
            2 * c
        }
    }
}

/// The world that some rows were added to, one by one: the slots behind them are
/// zero.
pub open spec fn table(rows: Seq<RowModel>) -> WorldModel {
    let n = table_cap(rows.len());
    let at = |i: int|
        if i < rows.len() {
            rows[i]
        } else {
            zero_row()
        };
    WorldModel {
        positions: Seq::new(n, |i: int| at(i).position),
        velocities: Seq::new(n, |i: int| at(i).velocity),
        transforms: Seq::new(n, |i: int| at(i).transform),
        velocity3d: Seq::new(n, |i: int| at(i).velocity3d),
        actors: Seq::new(n, |i: int| at(i).actor),
        colors: Seq::new(n, |i: int| at(i).color),
        count: rows.len(),
    }
}

/// Whether a number of slots is the starting one, doubled some number of times.
pub open spec fn is_capacity(c: nat) -> bool
    decreases c,
{
    c == crate::ecs::storage::START_CAPACITY || (c > crate::ecs::storage::START_CAPACITY && c % 2
        == 0 && is_capacity(c / 2))
}

/// Whether a table of `n` rows fits in memory: its widest column has 40 bytes a
/// slot, and there are fewer than twice as many slots as rows, unless it is small.
pub open spec fn table_fits(n: nat) -> bool {
    80 * n <= isize::MAX || 40 * table_cap(n) <= isize::MAX
}

/// Capacities are apart by a factor of two at least.
proof fn lemma_capacities(a: nat, b: nat)
    requires
        is_capacity(a),
        is_capacity(b),
        a < b,
    ensures
        2 * a <= b,
    decreases b,
{
    assert(is_capacity(b / 2));
    if a > crate::ecs::storage::START_CAPACITY {
        lemma_capacities(a / 2, b / 2);
    } else {
        assert(b / 2 >= crate::ecs::storage::START_CAPACITY);
    }
}

/// A table has room for its rows, is as large as its rows need and no larger, and
/// one that is not small has fewer than twice as many slots as rows.
pub proof fn lemma_table_cap(n: nat)
    ensures
        n <= table_cap(n),
        is_capacity(table_cap(n)),
        table_cap(n) == crate::ecs::storage::START_CAPACITY || table_cap(n) <= 2 * n,
        table_fits(n) <==> 40 * table_cap(n) <= isize::MAX,
    decreases n,
{
    if n > 0 {
        lemma_table_cap((n - 1) as nat);
        let c = table_cap((n - 1) as nat);
        assert((2 * c) / 2 == c);
    }
}

/// Rows that fit in a world fit in its table.
pub proof fn lemma_table_cap_least(n: nat, cap: nat)
    requires
        is_capacity(cap),
        n <= cap,
    ensures
        table_cap(n) <= cap,
    decreases n,
{
    if n > 0 {
        let m = (n - 1) as nat;
        lemma_table_cap_least(m, cap);
        lemma_table_cap(m);
        if table_cap(m) == m {
            lemma_capacities(m, cap);
        }
    } else {
        assert(cap >= crate::ecs::storage::START_CAPACITY);
    }
}

/// Fewer rows need no more slots.
pub proof fn lemma_table_cap_grows(m: nat, n: nat)
    requires
        m <= n,
    ensures
        table_cap(m) <= table_cap(n),
{
    lemma_table_cap(n);
    lemma_table_cap_least(m, table_cap(n));
}

/// Adding a live row leaves the others as they were.
pub proof fn law_spawned(w: WorldModel, new: RowModel)
    requires
        w.wf(),
        w.cap() >= 1,
    ensures
        spawned(w, new).wf(),
        spawned(w, new).live() == w.live().push(new),
{
    let after = spawned(w, new);
    assert forall|i: int| 0 <= i < w.count implies #[trigger] after.live()[i] == w.live()[i] by {
        assert(after.at(i) == w.at(i));
    }
    assert(after.at(w.count as int) == new);
    assert(after.live() =~= w.live().push(new));
}

/// A table holds its rows and nothing else, and adding a row to it gives the table
/// of one row more.
pub proof fn law_table(rows: Seq<RowModel>, new: RowModel)
    ensures
        table(rows).wf(),
        table(rows).cap() == table_cap(rows.len()),
        table(rows).live() == rows,
        spawned(table(rows), new) == table(rows.push(new)),
{
    lemma_table_cap(rows.len());
    let t = table(rows);
    assert forall|i: int| 0 <= i < rows.len() implies #[trigger] t.live()[i] == rows[i] by {
        assert(t.at(i) == rows[i]);
    }
    assert(t.live() =~= rows);
    let more = rows.push(new);
    let a = spawned(t, new);
    let b = table(more);
    assert(table_cap(more.len()) == if rows.len() < t.cap() {
        t.cap()
    } else {
        2 * t.cap()
    });
    assert forall|i: int| 0 <= i < rows.len() implies more[i] == rows[i] by {
    }
    assert(a.positions =~= b.positions);
    assert(a.velocities =~= b.velocities);
    assert(a.transforms =~= b.transforms);
    assert(a.velocity3d =~= b.velocity3d);
    assert(a.actors =~= b.actors);
    assert(a.colors =~= b.colors);
}

/// The elements of `payload`, written slot by slot to the rows of `col` that
/// the first `n` indices name; slots behind the end of the column are skipped.
pub open spec fn scatter<T: Component>(
    col: Seq<T>,
    indices: Seq<u32>,
    payload: Seq<u8>,
    n: nat,
) -> Seq<T>
    decreases n,
{
    if n == 0 {
        col
    } else {
        let c = scatter(col, indices, payload, (n - 1) as nat);
        let i = indices[n - 1] as int;
        if i < c.len() {
            c.update(i, crate::ecs::storage::row::<T>(payload, n - 1))
        } else {
            c
        }
    }
}

/// The size in bytes of a component that a delta may write.
pub open spec fn writable_size(component: u32) -> Option<nat> {
    if component == comp::POSITION {
        Some(4 * Position::width())
    } else if component == comp::VELOCITY {
        Some(4 * Velocity::width())
    } else if component == comp::TRANSFORM {
        Some(4 * Transform::width())
    } else if component == comp::VELOCITY3D {
        Some(4 * Velocity3D::width())
    } else if component == comp::ACTOR {
        Some(4 * Actor::width())
    } else {
        None
    }
}

/// A world after one column write. Writes to another archetype, to a component
/// that cannot be written, or with a payload of the wrong length do nothing.
pub open spec fn written(
    w: WorldModel,
    write: crate::contracts::delta::WriteModel,
) -> WorldModel {
    let c = write.component.0;
    let n = write.indices.len();
    if write.archetype.0 != 0 || writable_size(c) is None || write.payload.len() != n
        * writable_size(c)->0 {
        w
    } else if c == comp::POSITION {
        WorldModel { positions: scatter(w.positions, write.indices, write.payload, n), ..w }
    } else if c == comp::VELOCITY {
        WorldModel { velocities: scatter(w.velocities, write.indices, write.payload, n), ..w }
    } else if c == comp::TRANSFORM {
        WorldModel { transforms: scatter(w.transforms, write.indices, write.payload, n), ..w }
    } else if c == comp::VELOCITY3D {
        WorldModel { velocity3d: scatter(w.velocity3d, write.indices, write.payload, n), ..w }
    } else {
        WorldModel { actors: scatter(w.actors, write.indices, write.payload, n), ..w }
    }
}

/// A world after the first `n` column writes.
pub open spec fn written_all(
    w: WorldModel,
    writes: Seq<crate::contracts::delta::WriteModel>,
    n: nat,
) -> WorldModel
    decreases n,
{
    if n == 0 {
        w
    } else {
        written(written_all(w, writes, (n - 1) as nat), writes[n - 1])
    }
}

/// While a table is filled with rows that fit in memory there is room for the next
/// one, and adding it gives the table of one row more.
pub proof fn lemma_fill_table(rows: Seq<RowModel>, i: int)
    requires
        0 <= i < rows.len(),
        table_fits(rows.len()),
    ensures
        World::can_spawn(table(rows.take(i))),
        spawned(table(rows.take(i)), rows[i]) == table(rows.take(i + 1)),
        table(rows.take(i)).count == i,
{
    law_table(rows.take(i), rows[i]);
    assert(rows.take(i).push(rows[i]) =~= rows.take(i + 1));
    lemma_table_cap(rows.len());
    lemma_table_cap_grows((i + 1) as nat, rows.len());
}

/// The bytes hashed for the first `n` rows of a column: each word of each row.
pub open spec fn word_stream<T: Component>(rows: Seq<T>, n: nat) -> Seq<Seq<u8>>
    decreases n,
{
    if n == 0 {
        seq![]
    } else {
        word_stream(rows, (n - 1) as nat) + rows[n - 1].words().map_values(
            |w: u32| crate::bytes::word_bytes(w),
        )
    }
}

/// The bytes hashed for the first `n` colors: each channel.
pub open spec fn color_stream(rows: Seq<Color>, n: nat) -> Seq<Seq<u8>>
    decreases n,
{
    if n == 0 {
        seq![]
    } else {
        let c = rows[n - 1];
        color_stream(rows, (n - 1) as nat) + seq![seq![c.r], seq![c.g], seq![c.b], seq![c.a]]
    }
}

/// All that is hashed of a world, in order.
pub open spec fn hash_stream(w: WorldModel) -> Seq<Seq<u8>> {
    word_stream(w.positions, w.count) + word_stream(w.velocities, w.count) + color_stream(
        w.colors,
        w.count,
    ) + word_stream(w.transforms, w.count) + word_stream(w.velocity3d, w.count) + word_stream(
        w.actors,
        w.count,
    )
}

/// The hash of a world: that of std's default hasher over all that is hashed.
pub open spec fn world_hash(w: WorldModel) -> u64 {
    <DefaultHasher as vstd::std_specs::hash::DefaultHasherAdditionalSpecFns>::spec_finish(
        hash_stream(w),
    )
}

/// A world of one fixed archetype.
pub struct World {
    storage: ArchetypeStorage,
}

impl View for World {
    type V = WorldModel;

    closed spec fn view(&self) -> WorldModel {
        let cols = self.storage.cols();
        WorldModel {
            positions: crate::ecs::storage::rows(cols[comp::POSITION]),
            velocities: crate::ecs::storage::rows(cols[comp::VELOCITY]),
            transforms: crate::ecs::storage::rows(cols[comp::TRANSFORM]),
            velocity3d: crate::ecs::storage::rows(cols[comp::VELOCITY3D]),
            actors: crate::ecs::storage::rows(cols[comp::ACTOR]),
            colors: crate::ecs::storage::rows(cols[comp::COLOR]),
            count: self.storage.count(),
        }
    }
}

/// Whether a store has a column of `T` under an id, one row for each slot.
spec fn has_column<T: Component>(s: ArchetypeStorage, id: u32) -> bool {
    s.cols().dom().contains(id) && s.cols()[id].len() == 4 * T::width() * s.cap()
}

/// A column of whole rows has as many rows as slots.
proof fn lemma_column_rows<T: Component>(bytes: Seq<u8>, cap: nat)
    requires
        bytes.len() == 4 * T::width() * cap,
    ensures
        crate::ecs::storage::row_count::<T>(bytes) == cap,
        bytes.len() % (4 * T::width()) == 0,
        crate::ecs::storage::rows::<T>(bytes).len() == cap,
{
    T::lemma_width();
    let w = 4 * T::width() as int;
    assert(w * cap == cap * w) by (nonlinear_arith);
    vstd::arithmetic::div_mod::lemma_div_multiples_vanish(cap as int, w);
    vstd::arithmetic::div_mod::lemma_mod_multiples_basic(cap as int, w);
}

/// The zero elements.
proof fn lemma_zeroed()
    ensures
        crate::ecs::storage::zeroed::<Position>() == zero_row().position,
        crate::ecs::storage::zeroed::<Velocity>() == zero_row().velocity,
        crate::ecs::storage::zeroed::<Transform>() == zero_row().transform,
        crate::ecs::storage::zeroed::<Velocity3D>() == zero_row().velocity3d,
        crate::ecs::storage::zeroed::<Actor>() == zero_row().actor,
        crate::ecs::storage::zeroed::<Color>() == zero_row().color,
{
    let t = crate::ecs::storage::zeroed::<Transform>();
    assert(t.position =~= zero_row().transform.position);
    assert(t.rotation =~= zero_row().transform.rotation);
    assert(t.scale =~= zero_row().transform.scale);
    let v = crate::ecs::storage::zeroed::<Velocity3D>();
    assert(v.linear =~= zero_row().velocity3d.linear);
}

/// A zeroed column holds zero elements.
proof fn lemma_zero_column<T: Component>(cap: nat)
    ensures
        crate::ecs::storage::rows::<T>(crate::ecs::storage::zeros(4 * T::width() * cap))
            == Seq::new(cap, |i: int| crate::ecs::storage::zeroed::<T>()),
{
    let bytes = crate::ecs::storage::zeros(4 * T::width() * cap);
    lemma_column_rows::<T>(bytes, cap);
    assert forall|i: int| 0 <= i < cap implies crate::ecs::storage::rows::<T>(bytes)[i]
        == crate::ecs::storage::zeroed::<T>() by {
        assert(0 <= i * T::width()) by (nonlinear_arith)
            requires
                0 <= i,
        ;
        crate::ecs::storage::lemma_zero_row::<T>(bytes, i);
    }
    assert(crate::ecs::storage::rows::<T>(bytes) =~= Seq::new(
        cap,
        |i: int| crate::ecs::storage::zeroed::<T>(),
    ));
}

/// A doubled column has the rows it had, and as many zero elements behind them.
proof fn lemma_doubled_rows<T: Component>(bytes: Seq<u8>, cap: nat)
    requires
        bytes.len() == 4 * T::width() * cap,
    ensures
        crate::ecs::storage::doubled(bytes).len() == 4 * T::width() * (2 * cap),
        crate::ecs::storage::rows::<T>(crate::ecs::storage::doubled(bytes))
            == crate::ecs::storage::rows::<T>(bytes) + Seq::new(
            cap,
            |i: int| crate::ecs::storage::zeroed::<T>(),
        ),
{
    lemma_column_rows::<T>(bytes, cap);
    let two = crate::ecs::storage::doubled(bytes);
    assert(two.len() == 4 * T::width() * (2 * cap)) by (nonlinear_arith)
        requires
            two.len() == 2 * (4 * T::width() * cap),
    ;
    lemma_column_rows::<T>(two, 2 * cap);
    assert forall|i: int| 0 <= i < cap implies #[trigger] crate::ecs::storage::rows::<T>(two)[i]
        == crate::ecs::storage::rows::<T>(bytes)[i] by {
        crate::ecs::storage::lemma_grown_rows::<T>(
            bytes,
            crate::ecs::storage::zeros(bytes.len()),
            i,
        );
    }
    assert forall|i: int| cap <= i < 2 * cap implies #[trigger] crate::ecs::storage::rows::<T>(
        two,
    )[i] == crate::ecs::storage::zeroed::<T>() by {
        assert(4 * (i * T::width()) >= 4 * T::width() * cap) by (nonlinear_arith)
            requires
                i >= cap,
        ;
        crate::ecs::storage::lemma_zero_row::<T>(two, i);
    }
    assert(crate::ecs::storage::rows::<T>(two) =~= crate::ecs::storage::rows::<T>(bytes)
        + Seq::new(cap, |i: int| crate::ecs::storage::zeroed::<T>()));
}

impl World {
    /// Every column of the archetype is there, with one row for each slot. There
    /// are as many slots as doublings make of the first ones, and the widest column
    /// is within what memory can hold.
    pub closed spec fn wf(&self) -> bool {
        &&& self.storage.wf()
        &&& is_capacity(self.storage.cap())
        &&& 40 * self.storage.cap() <= isize::MAX
        &&& self.storage.cols().dom() == set![
            comp::POSITION,
            comp::VELOCITY,
            comp::TRANSFORM,
            comp::VELOCITY3D,
            comp::ACTOR,
            comp::COLOR,
        ]
        &&& has_column::<Position>(self.storage, comp::POSITION)
        &&& has_column::<Velocity>(self.storage, comp::VELOCITY)
        &&& has_column::<Transform>(self.storage, comp::TRANSFORM)
        &&& has_column::<Velocity3D>(self.storage, comp::VELOCITY3D)
        &&& has_column::<Actor>(self.storage, comp::ACTOR)
        &&& has_column::<Color>(self.storage, comp::COLOR)
    }

    /// Whether one more row fits in memory: a full table is doubled, and its
    /// widest column has 40 bytes a row.
    pub open spec fn can_spawn(w: WorldModel) -> bool {
        w.count == w.cap() ==> 80 * w.cap() <= isize::MAX
    }

    /// A well-formed world has a well-formed model.
    pub proof fn lemma_wf(&self)
        requires
            self.wf(),
        ensures
            self@.wf(),
            1 <= self@.cap() <= usize::MAX,
            is_capacity(self@.cap()),
            40 * self@.cap() <= isize::MAX,
            table_cap(self@.count) <= self@.cap(),
            table_fits(self@.count),
    {
        let cols = self.storage.cols();
        let cap = self.storage.cap();
        lemma_column_rows::<Position>(cols[comp::POSITION], cap);
        lemma_column_rows::<Velocity>(cols[comp::VELOCITY], cap);
        lemma_column_rows::<Transform>(cols[comp::TRANSFORM], cap);
        lemma_column_rows::<Velocity3D>(cols[comp::VELOCITY3D], cap);
        lemma_column_rows::<Actor>(cols[comp::ACTOR], cap);
        lemma_column_rows::<Color>(cols[comp::COLOR], cap);
        lemma_table_cap(self.storage.count());
        lemma_table_cap_least(self.storage.count(), cap);
    }

    /// An empty world; its slots are zero.
    pub fn new() -> (r: World)
        ensures
            r.wf(),
            r@.wf(),
            r@.count == 0,
            r@.cap() == crate::ecs::storage::START_CAPACITY,
            r@ == table(Seq::<RowModel>::empty()),
            forall|i: int| 0 <= i < r@.cap() ==> #[trigger] r@.at(i) == zero_row(),
    {
        let mut storage = ArchetypeStorage::new();
        storage.add_column::<Position>(comp::POSITION);
        storage.add_column::<Velocity>(comp::VELOCITY);
        storage.add_column::<Transform>(comp::TRANSFORM);
        storage.add_column::<Velocity3D>(comp::VELOCITY3D);
        storage.add_column::<Actor>(comp::ACTOR);
        storage.add_column::<Color>(comp::COLOR);
        let r = World { storage };
        assert(r.storage.cols().dom() =~= set![
            comp::POSITION,
            comp::VELOCITY,
            comp::TRANSFORM,
            comp::VELOCITY3D,
            comp::ACTOR,
            comp::COLOR,
        ]);
        proof {
            r.lemma_wf();
            let cap = r.storage.cap();
            lemma_zeroed();
            lemma_zero_column::<Position>(cap);
            lemma_zero_column::<Velocity>(cap);
            lemma_zero_column::<Transform>(cap);
            lemma_zero_column::<Velocity3D>(cap);
            lemma_zero_column::<Actor>(cap);
            lemma_zero_column::<Color>(cap);
            let t = table(Seq::<RowModel>::empty());
            assert(r@.positions =~= t.positions);
            assert(r@.velocities =~= t.velocities);
            assert(r@.transforms =~= t.transforms);
            assert(r@.velocity3d =~= t.velocity3d);
            assert(r@.actors =~= t.actors);
            assert(r@.colors =~= t.colors);
        }
        r
    }

    /// The model has one row for each slot of the store.
    proof fn lemma_slots(&self)
        requires
            self.wf(),
        ensures
            self@.wf(),
            self@.cap() == self.storage.cap(),
    {
        self.lemma_wf();
        lemma_column_rows::<Position>(self.storage.cols()[comp::POSITION], self.storage.cap());
    }

    /// Overwrites one cell, if the slot exists.
    fn put_cell<T: Component>(&mut self, id: u32, index: usize, v: T)
        requires
            old(self).wf(),
            has_column::<T>(old(self).storage, id),
        ensures
            final(self).wf(),
            final(self).storage.count() == old(self).storage.count(),
            final(self).storage.cap() == old(self).storage.cap(),
            final(self).storage.cols() == if index < old(self).storage.cap() {
                old(self).storage.cols().insert(
                    id,
                    crate::ecs::storage::put_row(old(self).storage.cols()[id], index as int, v),
                )
            } else {
                old(self).storage.cols()
            },
            crate::ecs::storage::rows::<T>(final(self).storage.cols()[id]) == if index
                < old(self).storage.cap() {
                crate::ecs::storage::rows::<T>(old(self).storage.cols()[id]).update(
                    index as int,
                    v,
                )
            } else {
                crate::ecs::storage::rows::<T>(old(self).storage.cols()[id])
            },
    {
        proof {
            lemma_column_rows::<T>(self.storage.cols()[id], self.storage.cap());
        }
        let done = self.storage.set_row::<T>(id, index, v);
        proof {
            if done {
                crate::ecs::storage::lemma_put_row::<T>(
                    old(self).storage.cols()[id],
                    index as int,
                    v,
                );
                assert(self.storage.cols().dom() =~= old(self).storage.cols().dom());
            }
        }
    }

    /// Adds a live row and returns its index. Its 3D transform, 3D velocity and
    /// actor are zero in every field, the scale and the rotation too: a caller
    /// that wants an actor in the 3D scene sets them.
    pub fn spawn(&mut self, pos: Position, vel: Velocity, color: Color) -> (r: usize)
        requires
            old(self).wf(),
            World::can_spawn(old(self)@),
        ensures
            final(self).wf(),
            r == old(self)@.count,
            final(self)@ == spawned(old(self)@, fresh_row(pos, vel, color)),
            final(self)@.live() == old(self)@.live().push(fresh_row(pos, vel, color)),
    {
        proof {
            self.lemma_wf();
        }
        let index: usize = self.storage.allocate();
        let ghost before = *old(self);
        let ghost mid = *self;
        proof {
            let c0 = before.storage.cols();
            let c1 = mid.storage.cols();
            let cap = before.storage.cap();
            if before.storage.count() == cap {
                lemma_doubled_rows::<Position>(c0[comp::POSITION], cap);
                lemma_doubled_rows::<Velocity>(c0[comp::VELOCITY], cap);
                lemma_doubled_rows::<Transform>(c0[comp::TRANSFORM], cap);
                lemma_doubled_rows::<Velocity3D>(c0[comp::VELOCITY3D], cap);
                lemma_doubled_rows::<Actor>(c0[comp::ACTOR], cap);
                lemma_doubled_rows::<Color>(c0[comp::COLOR], cap);
            }
            before.lemma_slots();
            lemma_zeroed();
            assert((2 * cap) / 2 == cap);
            assert(mid.wf());
            mid.lemma_wf();
            if before.storage.count() == cap {
                let g = grown(before@);
                assert(mid@.positions =~= g.positions);
                assert(mid@.velocities =~= g.velocities);
                assert(mid@.transforms =~= g.transforms);
                assert(mid@.velocity3d =~= g.velocity3d);
                assert(mid@.actors =~= g.actors);
                assert(mid@.colors =~= g.colors);
            }
        }
        self.put_cell::<Position>(comp::POSITION, index, pos);
        self.put_cell::<Velocity>(comp::VELOCITY, index, vel);
        self.put_cell::<Transform>(comp::TRANSFORM, index, Transform::zero());
        self.put_cell::<Velocity3D>(comp::VELOCITY3D, index, Velocity3D::zero());
        self.put_cell::<Actor>(comp::ACTOR, index, Actor::zero());
        self.put_cell::<Color>(comp::COLOR, index, color);
        proof {
            let new = fresh_row(pos, vel, color);
            assert(self@ =~= spawned(before@, new));
            law_spawned(before@, new);
        }
        index
    }

    /// Adds a live row with all of its components and returns its index.
    pub fn spawn_row(
        &mut self,
        pos: Position,
        vel: Velocity,
        color: Color,
        t: Transform,
        v: Velocity3D,
        a: Actor,
    ) -> (r: usize)
        requires
            old(self).wf(),
            World::can_spawn(old(self)@),
        ensures
            final(self).wf(),
            r == old(self)@.count,
            final(self)@ == spawned(
                old(self)@,
                RowModel {
                    position: pos,
                    velocity: vel,
                    transform: t,
                    velocity3d: v,
                    actor: a,
                    color,
                },
            ),
            final(self)@.count == old(self)@.count + 1,
            final(self)@.live() == old(self)@.live().push(
                RowModel {
                    position: pos,
                    velocity: vel,
                    transform: t,
                    velocity3d: v,
                    actor: a,
                    color,
                },
            ),
    {
        proof {
            self.lemma_wf();
        }
        let ghost before = self@;
        let index: usize = self.spawn(pos, vel, color);
        self.set_transform(index, t);
        self.set_velocity_3d(index, v);
        self.set_actor(index, a);
        proof {
            let row = RowModel {
                position: pos,
                velocity: vel,
                transform: t,
                velocity3d: v,
                actor: a,
                color,
            };
            let to = spawned(before, row);
            law_spawned(before, row);
            assert(self@.transforms =~= to.transforms);
            assert(self@.velocity3d =~= to.velocity3d);
            assert(self@.actors =~= to.actors);
            assert(self@ == to);
        }
        index
    }

    /// Replaces the 3D transform of a slot; a slot that does not exist is left
    /// alone.
    pub fn set_transform(&mut self, index: usize, t: Transform)
        requires
            old(self).wf(),
        ensures
            final(self).wf(),
            final(self)@ == old(self)@.with_transform(index as int, t),
    {
        proof {
            self.lemma_slots();
        }
        self.put_cell::<Transform>(comp::TRANSFORM, index, t);
    }

    /// Replaces the 3D velocity of a slot; a slot that does not exist is left
    /// alone.
    pub fn set_velocity_3d(&mut self, index: usize, v: Velocity3D)
        requires
            old(self).wf(),
        ensures
            final(self).wf(),
            final(self)@ == old(self)@.with_velocity3d(index as int, v),
    {
        proof {
            self.lemma_slots();
        }
        self.put_cell::<Velocity3D>(comp::VELOCITY3D, index, v);
    }

    /// Replaces the actor of a slot; a slot that does not exist is left alone.
    pub fn set_actor(&mut self, index: usize, a: Actor)
        requires
            old(self).wf(),
        ensures
            final(self).wf(),
            final(self)@ == old(self)@.with_actor(index as int, a),
    {
        proof {
            self.lemma_slots();
        }
        self.put_cell::<Actor>(comp::ACTOR, index, a);
    }

    /// Replaces the color of a slot; a slot that does not exist is left alone.
    pub fn set_color(&mut self, index: usize, c: Color)
        requires
            old(self).wf(),
        ensures
            final(self).wf(),
            final(self)@ == old(self)@.with_color(index as int, c),
    {
        proof {
            self.lemma_slots();
        }
        self.put_cell::<Color>(comp::COLOR, index, c);
    }

    /// A deep copy of the world.
    pub fn clone_state(&self) -> (r: World)
        requires
            self.wf(),
        ensures
            r.wf(),
            r@ == self@,
    {
        World { storage: self.storage.duplicate() }
    }

    /// Number of live rows.
    pub fn entity_count(&self) -> (r: usize)
        ensures
            r == self@.count,
    {
        self.storage.entity_count()
    }

    /// The position column; the first `entity_count` rows are live.
    pub fn get_positions(&self) -> (r: Option<Vec<Position>>)
        requires
            self.wf(),
        ensures
            r is Some,
            r->0@ == self@.positions,
    {
        proof {
            lemma_column_rows::<Position>(
                self.storage.cols()[comp::POSITION],
                self.storage.cap(),
            );
        }
        self.storage.get_column::<Position>(comp::POSITION)
    }

    /// The velocity column.
    pub fn get_velocities(&self) -> (r: Option<Vec<Velocity>>)
        requires
            self.wf(),
        ensures
            r is Some,
            r->0@ == self@.velocities,
    {
        proof {
            lemma_column_rows::<Velocity>(
                self.storage.cols()[comp::VELOCITY],
                self.storage.cap(),
            );
        }
        self.storage.get_column::<Velocity>(comp::VELOCITY)
    }

    /// The 3D transform column.
    pub fn get_transforms(&self) -> (r: Option<Vec<Transform>>)
        requires
            self.wf(),
        ensures
            r is Some,
            r->0@ == self@.transforms,
    {
        proof {
            lemma_column_rows::<Transform>(
                self.storage.cols()[comp::TRANSFORM],
                self.storage.cap(),
            );
        }
        self.storage.get_column::<Transform>(comp::TRANSFORM)
    }

    /// The 3D velocity column.
    pub fn get_velocity_3d(&self) -> (r: Option<Vec<Velocity3D>>)
        requires
            self.wf(),
        ensures
            r is Some,
            r->0@ == self@.velocity3d,
    {
        proof {
            lemma_column_rows::<Velocity3D>(
                self.storage.cols()[comp::VELOCITY3D],
                self.storage.cap(),
            );
        }
        self.storage.get_column::<Velocity3D>(comp::VELOCITY3D)
    }

    /// The actor column.
    pub fn get_actors(&self) -> (r: Option<Vec<Actor>>)
        requires
            self.wf(),
        ensures
            r is Some,
            r->0@ == self@.actors,
    {
        proof {
            lemma_column_rows::<Actor>(self.storage.cols()[comp::ACTOR], self.storage.cap());
        }
        self.storage.get_column::<Actor>(comp::ACTOR)
    }

    /// The color column.
    pub fn get_colors(&self) -> (r: Option<Vec<Color>>)
        requires
            self.wf(),
        ensures
            r is Some,
            r->0@ == self@.colors,
    {
        proof {
            lemma_column_rows::<Color>(self.storage.cols()[comp::COLOR], self.storage.cap());
        }
        self.storage.get_column::<Color>(comp::COLOR)
    }

    /// The id of the only archetype.
    pub fn archetype_id(&self) -> (r: u32)
        ensures
            r == 0,
    {
        0
    }

    /// A hash of the live rows, the same for worlds whose live rows are the
    /// same.
    pub fn hash(&self) -> (r: u64)
        requires
            self.wf(),
        ensures
            r == world_hash(self@),
    {
        proof {
            self.lemma_wf();
        }
        let mut hasher = DefaultHasher::new();
        let n: usize = self.entity_count();
        if let Some(rows) = self.get_positions() {
            hash_rows::<Position>(&mut hasher, &rows, n);
        }
        if let Some(rows) = self.get_velocities() {
            hash_rows::<Velocity>(&mut hasher, &rows, n);
        }
        if let Some(rows) = self.get_colors() {
            hash_colors(&mut hasher, &rows, n);
        }
        if let Some(rows) = self.get_transforms() {
            hash_rows::<Transform>(&mut hasher, &rows, n);
        }
        if let Some(rows) = self.get_velocity_3d() {
            hash_rows::<Velocity3D>(&mut hasher, &rows, n);
        }
        if let Some(rows) = self.get_actors() {
            hash_rows::<Actor>(&mut hasher, &rows, n);
        }
        assert(hasher@ =~= hash_stream(self@));
        hasher.finish()
    }

    /// Writes the elements of a payload to the slots that `indices` names.
    fn scatter_into<T: Component>(&mut self, id: u32, indices: &Vec<u32>, payload: &Vec<u8>)
        requires
            old(self).wf(),
            has_column::<T>(old(self).storage, id),
            payload@.len() == indices@.len() * (4 * T::width()),
        ensures
            final(self).wf(),
            final(self).storage.count() == old(self).storage.count(),
            final(self).storage.cap() == old(self).storage.cap(),
            forall|other: u32|
                other != id ==> #[trigger] final(self).storage.cols()[other]
                    == old(self).storage.cols()[other],
            crate::ecs::storage::rows::<T>(final(self).storage.cols()[id]) == scatter::<T>(
                crate::ecs::storage::rows::<T>(old(self).storage.cols()[id]),
                indices@,
                payload@,
                indices@.len(),
            ),
    {
        let ghost first = crate::ecs::storage::rows::<T>(self.storage.cols()[id]);
        let ghost cap = self.storage.cap();
        proof {
            lemma_column_rows::<T>(self.storage.cols()[id], cap);
            assert(4 * T::width() * indices@.len() == indices@.len() * (4 * T::width()))
                by (nonlinear_arith);
            lemma_column_rows::<T>(payload@, indices@.len());
        }
        let mut slot: usize = 0;
        while slot < indices.len()
            invariant
                slot <= indices@.len(),
                self.wf(),
                self.storage.count() == old(self).storage.count(),
                self.storage.cap() == cap,
                cap == old(self).storage.cap(),
                has_column::<T>(self.storage, id),
                crate::ecs::storage::row_count::<T>(payload@) == indices@.len(),
                forall|other: u32|
                    other != id ==> #[trigger] self.storage.cols()[other]
                        == old(self).storage.cols()[other],
                crate::ecs::storage::rows::<T>(self.storage.cols()[id]) == scatter::<T>(
                    first,
                    indices@,
                    payload@,
                    slot as nat,
                ),
            decreases indices@.len() - slot,
        {
            let v: T = crate::ecs::storage::read_row::<T>(payload, slot);
            let index: usize = indices[slot] as usize;
            proof {
                lemma_column_rows::<T>(self.storage.cols()[id], cap);
            }
            self.put_cell::<T>(id, index, v);
            slot = slot + 1;
        }
    }

    /// Applies one column write.
    fn apply_write(&mut self, write: &ColumnWrite)
        requires
            old(self).wf(),
        ensures
            final(self).wf(),
            final(self)@ == written(old(self)@, write.model()),
    {
        proof {
            self.lemma_wf();
        }
        if write.archetype.0 != self.archetype_id() {
            return;
        }
        let component: u32 = write.component.0;
        let element: usize = if component == comp::POSITION {
            Position::element_size()
        } else if component == comp::VELOCITY {
            Velocity::element_size()
        } else if component == comp::TRANSFORM {
            Transform::element_size()
        } else if component == comp::VELOCITY3D {
            Velocity3D::element_size()
        } else if component == comp::ACTOR {
            Actor::element_size()
        } else {
            return;
        };
        let n: usize = write.indices.len();
        let len: usize = write.payload.len();
        proof {
            lemma_whole_elements(len as int, n as int, element as int);
        }
        if len % element != 0 || len / element != n {
            return;
        }
        if component == comp::POSITION {
            self.scatter_into::<Position>(comp::POSITION, &write.indices, &write.payload);
        } else if component == comp::VELOCITY {
            self.scatter_into::<Velocity>(comp::VELOCITY, &write.indices, &write.payload);
        } else if component == comp::TRANSFORM {
            self.scatter_into::<Transform>(comp::TRANSFORM, &write.indices, &write.payload);
        } else if component == comp::VELOCITY3D {
            self.scatter_into::<Velocity3D>(comp::VELOCITY3D, &write.indices, &write.payload);
        } else {
            self.scatter_into::<Actor>(comp::ACTOR, &write.indices, &write.payload);
        }
    }

    /// Applies a delta: its column writes, in order. Spawns, despawns and
    /// deferred commands do not touch the fixed archetype.
    pub fn apply_delta(&mut self, delta: &WorldDelta)
        requires
            old(self).wf(),
        ensures
            final(self).wf(),
            final(self)@ == written_all(
                old(self)@,
                delta.model().writes,
                delta.model().writes.len(),
            ),
    {
        let mut i: usize = 0;
        while i < delta.writes.len()
            invariant
                i <= delta.writes@.len(),
                self.wf(),
                self@ == written_all(old(self)@, delta.model().writes, i as nat),
            decreases delta.writes@.len() - i,
        {
            self.apply_write(&delta.writes[i]);
            assert(delta.model().writes[i as int] == delta.writes@[i as int].model());
            i = i + 1;
        }
    }
}

impl Default for World {
    /// An empty world; its slots are zero.
    fn default() -> (r: World)
        ensures
            r.wf(),
            r@.wf(),
            r@.count == 0,
            r@.cap() == crate::ecs::storage::START_CAPACITY,
            r@ == table(Seq::<RowModel>::empty()),
            forall|i: int| 0 <= i < r@.cap() ==> #[trigger] r@.at(i) == zero_row(),
    {
        World::new()
    }
}

/// A length is `n` elements exactly when it divides evenly into `n`.
proof fn lemma_whole_elements(len: int, n: int, element: int)
    requires
        element >= 1,
        len >= 0,
    ensures
        (len == n * element) <==> (len % element == 0 && len / element == n),
{
    vstd::arithmetic::div_mod::lemma_fundamental_div_mod(len, element);
    assert(element * (len / element) == (len / element) * element) by (nonlinear_arith);
    if len == n * element {
        vstd::arithmetic::div_mod::lemma_mod_multiples_basic(n, element);
        vstd::arithmetic::div_mod::lemma_div_multiples_vanish(n, element);
        assert(element * n == n * element) by (nonlinear_arith);
    }
}

/// Feeds the words of the first `n` rows to a hasher.
fn hash_rows<T: Component>(hasher: &mut DefaultHasher, rows: &Vec<T>, n: usize)
    requires
        n <= rows@.len(),
    ensures
        final(hasher)@ == old(hasher)@ + word_stream(rows@, n as nat),
{
    let ghost start = hasher@;
    let mut i: usize = 0;
    assert(hasher@ =~= start + word_stream(rows@, 0));
    while i < n
        invariant
            i <= n <= rows@.len(),
            hasher@ == start + word_stream(rows@, i as nat),
        decreases n - i,
    {
        let words: Vec<u32> = rows[i].to_words();
        let ghost head = hasher@;
        let ghost image = words@.map_values(|w: u32| crate::bytes::word_bytes(w));
        let mut k: usize = 0;
        while k < words.len()
            invariant
                k <= words@.len(),
                image == words@.map_values(|w: u32| crate::bytes::word_bytes(w)),
                hasher@ == head + image.take(k as int),
            decreases words@.len() - k,
        {
            let mut b: Vec<u8> = Vec::new();
            crate::bytes::push_word(&mut b, words[k]);
            assert(b@ =~= crate::bytes::word_bytes(words@[k as int]));
            hasher.write(b.as_slice());
            k = k + 1;
            assert(hasher@ =~= head + image.take(k as int));
        }
        assert(image.take(k as int) =~= image);
        i = i + 1;
        assert(hasher@ =~= start + word_stream(rows@, i as nat));
    }
}

/// Feeds the channels of the first `n` colors to a hasher.
fn hash_colors(hasher: &mut DefaultHasher, rows: &Vec<Color>, n: usize)
    requires
        n <= rows@.len(),
    ensures
        final(hasher)@ == old(hasher)@ + color_stream(rows@, n as nat),
{
    let ghost start = hasher@;
    let mut i: usize = 0;
    assert(hasher@ =~= start + color_stream(rows@, 0));
    while i < n
        invariant
            i <= n <= rows@.len(),
            hasher@ == start + color_stream(rows@, i as nat),
        decreases n - i,
    {
        let c: Color = rows[i];
        let r: [u8; 1] = [c.r];
        let g: [u8; 1] = [c.g];
        let b: [u8; 1] = [c.b];
        let a: [u8; 1] = [c.a];
        hasher.write(r.as_slice());
        hasher.write(g.as_slice());
        hasher.write(b.as_slice());
        hasher.write(a.as_slice());
        assert(r@ =~= seq![c.r]);
        assert(g@ =~= seq![c.g]);
        assert(b@ =~= seq![c.b]);
        assert(a@ =~= seq![c.a]);
        i = i + 1;
        assert(hasher@ =~= start + color_stream(rows@, i as nat));
    }
}

/// Worlds with the same live rows hash the same, whatever is allocated behind
/// them.
pub proof fn law_hash_of_live_rows(a: WorldModel, b: WorldModel)
    requires
        a.wf(),
        b.wf(),
        a.live() == b.live(),
    ensures
        world_hash(a) == world_hash(b),
{
    assert(a.live().len() == a.count && b.live().len() == b.count);
    assert forall|i: int| 0 <= i < a.count implies #[trigger] a.at(i) == b.at(i) by {
        assert(a.live()[i] == b.live()[i]);
    }
    assert forall|i: int| 0 <= i < a.count implies a.positions[i] == b.positions[i]
        && a.velocities[i] == b.velocities[i] && a.transforms[i] == b.transforms[i]
        && a.velocity3d[i] == b.velocity3d[i] && a.actors[i] == b.actors[i] && a.colors[i]
        == b.colors[i] by {
        assert(a.at(i) == b.at(i));
    }
    lemma_same_words(a.positions, b.positions, a.count);
    lemma_same_words(a.velocities, b.velocities, a.count);
    lemma_same_words(a.transforms, b.transforms, a.count);
    lemma_same_words(a.velocity3d, b.velocity3d, a.count);
    lemma_same_words(a.actors, b.actors, a.count);
    lemma_same_colors(a.colors, b.colors, a.count);
}

proof fn lemma_same_words<T: Component>(a: Seq<T>, b: Seq<T>, n: nat)
    requires
        forall|i: int| 0 <= i < n ==> a[i] == b[i],
    ensures
        word_stream(a, n) == word_stream(b, n),
    decreases n,
{
    if n > 0 {
        lemma_same_words(a, b, (n - 1) as nat);
        assert(a[n - 1] == b[n - 1]);
    }
}

proof fn lemma_same_colors(a: Seq<Color>, b: Seq<Color>, n: nat)
    requires
        forall|i: int| 0 <= i < n ==> a[i] == b[i],
    ensures
        color_stream(a, n) == color_stream(b, n),
    decreases n,
{
    if n > 0 {
        lemma_same_colors(a, b, (n - 1) as nat);
        assert(a[n - 1] == b[n - 1]);
    }
}

/// A write changes only the column it names, and never the number of rows.
pub proof fn law_write_touches_one_column(w: WorldModel, write: crate::contracts::delta::WriteModel)
    requires
        w.wf(),
    ensures
        written(w, write).wf(),
        written(w, write).count == w.count,
        written(w, write).cap() == w.cap(),
        written(w, write).colors == w.colors,
        write.component.0 != comp::POSITION ==> written(w, write).positions == w.positions,
        write.component.0 != comp::VELOCITY ==> written(w, write).velocities == w.velocities,
        write.component.0 != comp::TRANSFORM ==> written(w, write).transforms == w.transforms,
        write.component.0 != comp::VELOCITY3D ==> written(w, write).velocity3d == w.velocity3d,
        write.component.0 != comp::ACTOR ==> written(w, write).actors == w.actors,
{
    let n = write.indices.len();
    lemma_scatter_len(w.positions, write.indices, write.payload, n);
    lemma_scatter_len(w.velocities, write.indices, write.payload, n);
    lemma_scatter_len(w.transforms, write.indices, write.payload, n);
    lemma_scatter_len(w.velocity3d, write.indices, write.payload, n);
    lemma_scatter_len(w.actors, write.indices, write.payload, n);
}

/// Scattering keeps the number of rows.
pub proof fn lemma_scatter_len<T: Component>(
    col: Seq<T>,
    indices: Seq<u32>,
    payload: Seq<u8>,
    n: nat,
)
    ensures
        scatter(col, indices, payload, n).len() == col.len(),
    decreases n,
{
    if n > 0 {
        lemma_scatter_len(col, indices, payload, (n - 1) as nat);
    }
}

/// A row that no index names is left as it was; a row that some index names
/// holds the element of the last slot that names it.
pub proof fn law_scatter<T: Component>(
    col: Seq<T>,
    indices: Seq<u32>,
    payload: Seq<u8>,
    n: nat,
    row: int,
)
    requires
        0 <= row < col.len(),
        n <= indices.len(),
    ensures
        (forall|k: int| 0 <= k < n ==> #[trigger] indices[k] != row) ==> scatter(
            col,
            indices,
            payload,
            n,
        )[row] == col[row],
        forall|s: int|
            0 <= s < n && #[trigger] indices[s] == row && (forall|k: int|
                s < k < n ==> #[trigger] indices[k] != row) ==> scatter(col, indices, payload, n)[row]
                == crate::ecs::storage::row::<T>(payload, s),
    decreases n,
{
    if n > 0 {
        let m = (n - 1) as nat;
        law_scatter(col, indices, payload, m, row);
        lemma_scatter_len(col, indices, payload, m);
        assert forall|s: int|
            0 <= s < n && #[trigger] indices[s] == row && (forall|k: int|
                s < k < n ==> #[trigger] indices[k] != row) implies scatter(
            col,
            indices,
            payload,
            n,
        )[row] == crate::ecs::storage::row::<T>(payload, s) by {
            if s < m {
                assert(indices[m as int] != row);
            }
        }
    }
}

/// Row by row, two columns hold the same, or each still holds what it started
/// with.
spec fn settled<T>(a: Seq<T>, a0: Seq<T>, b: Seq<T>, b0: Seq<T>) -> bool {
    &&& a.len() == a0.len() == b.len() == b0.len()
    &&& forall|i: int|
        #![trigger a[i]]
        #![trigger b[i]]
        0 <= i < a.len() ==> a[i] == b[i] || (a[i] == a0[i] && b[i] == b0[i])
}

/// The same elements scattered into two columns leave them settled.
proof fn lemma_scatter_settles<T: Component>(
    a: Seq<T>,
    a0: Seq<T>,
    b: Seq<T>,
    b0: Seq<T>,
    indices: Seq<u32>,
    payload: Seq<u8>,
    n: nat,
)
    requires
        settled(a, a0, b, b0),
    ensures
        settled(
            scatter(a, indices, payload, n),
            a0,
            scatter(b, indices, payload, n),
            b0,
        ),
    decreases n,
{
    if n > 0 {
        lemma_scatter_settles(a, a0, b, b0, indices, payload, (n - 1) as nat);
    }
}

/// Two worlds, column by column settled.
spec fn worlds_settled(a: WorldModel, a0: WorldModel, b: WorldModel, b0: WorldModel) -> bool {
    &&& a.count == a0.count == b.count == b0.count
    &&& settled(a.positions, a0.positions, b.positions, b0.positions)
    &&& settled(a.velocities, a0.velocities, b.velocities, b0.velocities)
    &&& settled(a.transforms, a0.transforms, b.transforms, b0.transforms)
    &&& settled(a.velocity3d, a0.velocity3d, b.velocity3d, b0.velocity3d)
    &&& settled(a.actors, a0.actors, b.actors, b0.actors)
    &&& settled(a.colors, a0.colors, b.colors, b0.colors)
}

/// The same write to two worlds leaves them settled.
proof fn lemma_write_settles(
    a: WorldModel,
    a0: WorldModel,
    b: WorldModel,
    b0: WorldModel,
    write: crate::contracts::delta::WriteModel,
)
    requires
        worlds_settled(a, a0, b, b0),
    ensures
        worlds_settled(written(a, write), a0, written(b, write), b0),
{
    let i = write.indices;
    let p = write.payload;
    let n = i.len();
    lemma_scatter_settles(a.positions, a0.positions, b.positions, b0.positions, i, p, n);
    lemma_scatter_settles(a.velocities, a0.velocities, b.velocities, b0.velocities, i, p, n);
    lemma_scatter_settles(a.transforms, a0.transforms, b.transforms, b0.transforms, i, p, n);
    lemma_scatter_settles(a.velocity3d, a0.velocity3d, b.velocity3d, b0.velocity3d, i, p, n);
    lemma_scatter_settles(a.actors, a0.actors, b.actors, b0.actors, i, p, n);
}

/// The same writes to two worlds of the same shape leave them settled.
proof fn lemma_writes_settle(
    a: WorldModel,
    b: WorldModel,
    writes: Seq<crate::contracts::delta::WriteModel>,
    n: nat,
)
    requires
        worlds_settled(a, a, b, b),
    ensures
        worlds_settled(written_all(a, writes, n), a, written_all(b, writes, n), b),
    decreases n,
{
    if n > 0 {
        let m = (n - 1) as nat;
        lemma_writes_settle(a, b, writes, m);
        lemma_write_settles(
            written_all(a, writes, m),
            a,
            written_all(b, writes, m),
            b,
            writes[n - 1],
        );
    }
}

/// A delta applied twice does what it does applied once: the writes of a second
/// application put back what the first left.
pub proof fn law_delta_twice_is_once(
    w: WorldModel,
    writes: Seq<crate::contracts::delta::WriteModel>,
)
    requires
        w.wf(),
    ensures
        written_all(written_all(w, writes, writes.len()), writes, writes.len()) == written_all(
            w,
            writes,
            writes.len(),
        ),
{
    let n = writes.len();
    let once = written_all(w, writes, n);
    let twice = written_all(once, writes, n);
    lemma_writes_settle(w, w, writes, n);
    lemma_writes_settle(w, once, writes, n);
    assert(twice =~= once);
}

/// The writes of two deltas, joined into one, do what the two do in turn.
pub proof fn law_joined_writes(
    w: WorldModel,
    first: Seq<crate::contracts::delta::WriteModel>,
    second: Seq<crate::contracts::delta::WriteModel>,
)
    ensures
        written_all(w, first + second, (first + second).len()) == written_all(
            written_all(w, first, first.len()),
            second,
            second.len(),
        ),
{
    lemma_writes_behind(w, first, second, second.len());
}

/// Writes that two lists begin with do the same in both.
proof fn lemma_writes_of_prefix(
    w: WorldModel,
    a: Seq<crate::contracts::delta::WriteModel>,
    b: Seq<crate::contracts::delta::WriteModel>,
    n: nat,
)
    requires
        forall|i: int| 0 <= i < n ==> a[i] == b[i],
    ensures
        written_all(w, a, n) == written_all(w, b, n),
    decreases n,
{
    if n > 0 {
        lemma_writes_of_prefix(w, a, b, (n - 1) as nat);
        assert(a[n - 1] == b[n - 1]);
    }
}

/// The first `n` writes behind a list, done after it.
proof fn lemma_writes_behind(
    w: WorldModel,
    first: Seq<crate::contracts::delta::WriteModel>,
    second: Seq<crate::contracts::delta::WriteModel>,
    n: nat,
)
    requires
        n <= second.len(),
    ensures
        written_all(w, first + second, first.len() + n) == written_all(
            written_all(w, first, first.len()),
            second,
            n,
        ),
    decreases n,
{
    if n == 0 {
        lemma_writes_of_prefix(w, first, first + second, first.len());
    } else {
        lemma_writes_behind(w, first, second, (n - 1) as nat);
        assert((first + second)[first.len() + n - 1] == second[n - 1]);
    }
}

/// Whether some elements were put into a column at the rows that `indices` names:
/// each existing row that is named holds the element of the last slot that names it,
/// and every other row is as it was.
pub open spec fn elements_land<T>(
    before: Seq<T>,
    after: Seq<T>,
    indices: Seq<u32>,
    elements: Seq<T>,
) -> bool {
    &&& after.len() == before.len()
    &&& forall|row: int|
        0 <= row < before.len() && (forall|k: int| 0 <= k < indices.len() ==> #[trigger] indices[k]
            != row) ==> #[trigger] after[row] == before[row]
    &&& forall|s: int|
        0 <= s < indices.len() && (#[trigger] indices[s]) < before.len() && (forall|k: int|
            s < k < indices.len() ==> #[trigger] indices[k] != indices[s]) ==> after[indices[s] as int]
            == elements[s]
}

/// Packed elements land where they are scattered.
proof fn lemma_packed_elements_land<T: Component>(
    col: Seq<T>,
    indices: Seq<u32>,
    elements: Seq<T>,
)
    requires
        indices.len() == elements.len(),
    ensures
        elements_land(
            col,
            scatter(
                col,
                indices,
                crate::runtime::movement::packed(elements),
                indices.len(),
            ),
            indices,
            elements,
        ),
        crate::runtime::movement::packed(elements).len() == indices.len() * (4 * T::width()),
{
    let payload = crate::runtime::movement::packed(elements);
    let n = indices.len();
    let after = scatter(col, indices, payload, n);
    crate::runtime::movement::law_pack_rows(elements);
    lemma_scatter_len(col, indices, payload, n);
    assert forall|row: int|
        0 <= row < col.len() && (forall|k: int| 0 <= k < n ==> #[trigger] indices[k] != row) implies
        #[trigger] after[row] == col[row] by {
        law_scatter(col, indices, payload, n, row);
    }
    assert forall|s: int|
        0 <= s < n && (#[trigger] indices[s]) < col.len() && (forall|k: int|
            s < k < n ==> #[trigger] indices[k] != indices[s]) implies after[indices[s] as int]
        == elements[s] by {
        law_scatter(col, indices, payload, n, indices[s] as int);
        assert(crate::ecs::storage::row::<T>(payload, s) == elements[s]);
    }
}

/// A write of packed 2D positions to the only archetype puts each element into the
/// column of 2D positions, at the row that its index names, and changes nothing else.
pub proof fn law_position_write(w: WorldModel, indices: Seq<u32>, elements: Seq<Position>)
    requires
        w.wf(),
        indices.len() == elements.len(),
    ensures
        ({
            let after = written(
                w,
                crate::contracts::delta::WriteModel {
                    archetype: crate::contracts::delta::ArchetypeId(0),
                    component: crate::contracts::delta::ComponentId(comp::POSITION),
                    indices,
                    payload: crate::runtime::movement::packed(elements),
                },
            );
            &&& elements_land(w.positions, after.positions, indices, elements)
            &&& after == (WorldModel { positions: after.positions, ..w })
        }),
{
    lemma_packed_elements_land(w.positions, indices, elements);
}

/// A write of packed 2D velocities to the only archetype puts each element into the
/// column of 2D velocities, at the row that its index names, and changes nothing else.
pub proof fn law_velocity_write(w: WorldModel, indices: Seq<u32>, elements: Seq<Velocity>)
    requires
        w.wf(),
        indices.len() == elements.len(),
    ensures
        ({
            let after = written(
                w,
                crate::contracts::delta::WriteModel {
                    archetype: crate::contracts::delta::ArchetypeId(0),
                    component: crate::contracts::delta::ComponentId(comp::VELOCITY),
                    indices,
                    payload: crate::runtime::movement::packed(elements),
                },
            );
            &&& elements_land(w.velocities, after.velocities, indices, elements)
            &&& after == (WorldModel { velocities: after.velocities, ..w })
        }),
{
    lemma_packed_elements_land(w.velocities, indices, elements);
}

/// A write of packed transforms to the only archetype puts each element into the
/// column of transforms, at the row that its index names, and changes nothing else.
pub proof fn law_transform_write(w: WorldModel, indices: Seq<u32>, elements: Seq<Transform>)
    requires
        w.wf(),
        indices.len() == elements.len(),
    ensures
        ({
            let after = written(
                w,
                crate::contracts::delta::WriteModel {
                    archetype: crate::contracts::delta::ArchetypeId(0),
                    component: crate::contracts::delta::ComponentId(comp::TRANSFORM),
                    indices,
                    payload: crate::runtime::movement::packed(elements),
                },
            );
            &&& elements_land(w.transforms, after.transforms, indices, elements)
            &&& after == (WorldModel { transforms: after.transforms, ..w })
        }),
{
    lemma_packed_elements_land(w.transforms, indices, elements);
}

/// A write of packed 3D velocities to the only archetype puts each element into the
/// column of 3D velocities, at the row that its index names, and changes nothing else.
pub proof fn law_velocity3d_write(w: WorldModel, indices: Seq<u32>, elements: Seq<Velocity3D>)
    requires
        w.wf(),
        indices.len() == elements.len(),
    ensures
        ({
            let after = written(
                w,
                crate::contracts::delta::WriteModel {
                    archetype: crate::contracts::delta::ArchetypeId(0),
                    component: crate::contracts::delta::ComponentId(comp::VELOCITY3D),
                    indices,
                    payload: crate::runtime::movement::packed(elements),
                },
            );
            &&& elements_land(w.velocity3d, after.velocity3d, indices, elements)
            &&& after == (WorldModel { velocity3d: after.velocity3d, ..w })
        }),
{
    lemma_packed_elements_land(w.velocity3d, indices, elements);
}

/// A write of packed actors to the only archetype puts each element into the
/// column of actors, at the row that its index names, and changes nothing else.
pub proof fn law_actor_write(w: WorldModel, indices: Seq<u32>, elements: Seq<Actor>)
    requires
        w.wf(),
        indices.len() == elements.len(),
    ensures
        ({
            let after = written(
                w,
                crate::contracts::delta::WriteModel {
                    archetype: crate::contracts::delta::ArchetypeId(0),
                    component: crate::contracts::delta::ComponentId(comp::ACTOR),
                    indices,
                    payload: crate::runtime::movement::packed(elements),
                },
            );
            &&& elements_land(w.actors, after.actors, indices, elements)
            &&& after == (WorldModel { actors: after.actors, ..w })
        }),
{
    lemma_packed_elements_land(w.actors, indices, elements);
}

/// A write to another archetype, to the colors or an unknown component, or with a
/// payload that is not one element for each index changes nothing: an element has 8
/// bytes for a 2D position or velocity, 40 for a transform, 12 for a 3D velocity and
/// 24 for an actor.
pub proof fn law_bad_writes_do_nothing(
    w: WorldModel,
    write: crate::contracts::delta::WriteModel,
)
    ensures
        write.archetype.0 != 0 ==> written(w, write) == w,
        ![comp::POSITION, comp::VELOCITY, comp::TRANSFORM, comp::VELOCITY3D, comp::ACTOR]@.contains(
            write.component.0,
        ) ==> written(w, write) == w,
        (write.component.0 == comp::POSITION || write.component.0 == comp::VELOCITY)
            && write.payload.len() != 8 * write.indices.len() ==> written(w, write) == w,
        write.component.0 == comp::TRANSFORM && write.payload.len() != 40 * write.indices.len()
            ==> written(w, write) == w,
        write.component.0 == comp::VELOCITY3D && write.payload.len() != 12 * write.indices.len()
            ==> written(w, write) == w,
        write.component.0 == comp::ACTOR && write.payload.len() != 24 * write.indices.len()
            ==> written(w, write) == w,
{
    let ids = [comp::POSITION, comp::VELOCITY, comp::TRANSFORM, comp::VELOCITY3D, comp::ACTOR]@;
    assert(ids[0] == comp::POSITION && ids[1] == comp::VELOCITY && ids[2] == comp::TRANSFORM
        && ids[3] == comp::VELOCITY3D && ids[4] == comp::ACTOR);
    let n = write.indices.len();
    let size = writable_size(write.component.0)->0;
    if size == 8 {
        assert(n * size == 8 * n) by (nonlinear_arith)
            requires
                size == 8,
        ;
    } else if size == 40 {
        assert(n * size == 40 * n) by (nonlinear_arith)
            requires
                size == 40,
        ;
    } else if size == 12 {
        assert(n * size == 12 * n) by (nonlinear_arith)
            requires
                size == 12,
        ;
    } else if size == 24 {
        assert(n * size == 24 * n) by (nonlinear_arith)
            requires
                size == 24,
        ;
    }
}

/// Writes are done one behind the other: none changes nothing, one is that write,
/// and what the last of several writes finds is what the others left.
pub proof fn law_writes_in_order(
    w: WorldModel,
    first: Seq<crate::contracts::delta::WriteModel>,
    last: crate::contracts::delta::WriteModel,
)
    ensures
        written_all(w, seq![], 0) == w,
        written_all(w, seq![last], 1) == written(w, last),
        written_all(w, first.push(last), first.len() + 1) == written(
            written_all(w, first, first.len()),
            last,
        ),
{
    reveal_with_fuel(written_all, 2);
    assert(seq![last][0] == last);
    lemma_writes_of_prefix(w, first, first.push(last), first.len());
    assert(first.push(last)[first.len() as int] == last);
}

/// Setting one component of a slot sets that component of that slot, if there is
/// such a slot, and leaves every other slot and component as it was.
pub proof fn law_setters(
    w: WorldModel,
    i: int,
    k: int,
    t: Transform,
    v: Velocity3D,
    a: Actor,
    c: Color,
)
    requires
        w.wf(),
        0 <= k < w.cap(),
    ensures
        k == i ==> w.with_transform(i, t).at(k) == (RowModel { transform: t, ..w.at(k) }),
        k == i ==> w.with_velocity3d(i, v).at(k) == (RowModel { velocity3d: v, ..w.at(k) }),
        k == i ==> w.with_actor(i, a).at(k) == (RowModel { actor: a, ..w.at(k) }),
        k == i ==> w.with_color(i, c).at(k) == (RowModel { color: c, ..w.at(k) }),
        k != i ==> w.with_transform(i, t).at(k) == w.at(k) && w.with_velocity3d(i, v).at(k) == w.at(
            k,
        ) && w.with_actor(i, a).at(k) == w.at(k) && w.with_color(i, c).at(k) == w.at(k),
        w.with_transform(i, t).count == w.count && w.with_transform(i, t).cap() == w.cap(),
        w.with_velocity3d(i, v).count == w.count && w.with_velocity3d(i, v).cap() == w.cap(),
        w.with_actor(i, a).count == w.count && w.with_actor(i, a).cap() == w.cap(),
        w.with_color(i, c).count == w.count && w.with_color(i, c).cap() == w.cap(),
{
}

/// A spawned row has what it was spawned with, and zero in every other number.
pub proof fn law_fresh_row(pos: Position, vel: Velocity, color: Color)
    ensures
        fresh_row(pos, vel, color).position == pos,
        fresh_row(pos, vel, color).velocity == vel,
        fresh_row(pos, vel, color).color == color,
        forall|k: int| 0 <= k < 10 ==> #[trigger] fresh_row(pos, vel, color).transform.words()[k] == 0,
        forall|k: int| 0 <= k < 3 ==> #[trigger] fresh_row(pos, vel, color).velocity3d.words()[k] == 0,
        forall|k: int| 0 <= k < 6 ==> #[trigger] fresh_row(pos, vel, color).actor.words()[k] == 0,
{
}

/// Spawning adds one live row behind the others. A table without room is doubled;
/// slots that are not live keep what they held, and new ones are zero.
pub proof fn law_spawn(w: WorldModel, new: RowModel, i: int)
    requires
        w.wf(),
        w.cap() >= 1,
        0 <= i < spawned(w, new).cap(),
    ensures
        spawned(w, new).count == w.count + 1,
        w.count < w.cap() ==> spawned(w, new).cap() == w.cap(),
        w.count == w.cap() ==> spawned(w, new).cap() == 2 * w.cap(),
        i == w.count ==> spawned(w, new).at(i) == new,
        i != w.count && i < w.cap() ==> spawned(w, new).at(i) == w.at(i),
        i > w.count && i >= w.cap() ==> spawned(w, new).at(i).color == (Color {
            r: 0,
            g: 0,
            b: 0,
            a: 0,
        }) && spawned(w, new).at(i).position.x.bits == 0 && spawned(w, new).at(i).position.y.bits
            == 0 && spawned(w, new).at(i).velocity.x.bits == 0 && spawned(w, new).at(
            i,
        ).velocity.y.bits == 0,
{
}

/// The words of all rows, column by column, have their places in what is hashed.
proof fn lemma_word_stream<T: Component>(rows: Seq<T>, n: nat)
    requires
        n <= rows.len(),
    ensures
        word_stream(rows, n).len() == n * T::width(),
    decreases n,
{
    if n > 0 {
        lemma_word_stream(rows, (n - 1) as nat);
        rows[n - 1].lemma_image();
        assert((n - 1) * T::width() + T::width() == n * T::width()) by (nonlinear_arith);
    } else {
        assert(0 * T::width() == 0) by (nonlinear_arith);
    }
}

proof fn lemma_color_stream(rows: Seq<Color>, n: nat)
    ensures
        color_stream(rows, n).len() == 4 * n,
    decreases n,
{
    if n > 0 {
        lemma_color_stream(rows, (n - 1) as nat);
    }
}

/// Rows whose words are hashed alike are the same rows.
proof fn lemma_words_distinguish<T: Component>(a: Seq<T>, b: Seq<T>, n: nat)
    requires
        n <= a.len(),
        n <= b.len(),
        word_stream(a, n) == word_stream(b, n),
    ensures
        forall|i: int| 0 <= i < n ==> #[trigger] a[i] == b[i],
    decreases n,
{
    if n > 0 {
        let m = (n - 1) as nat;
        lemma_word_stream(a, m);
        lemma_word_stream(b, m);
        let x = a[m as int];
        let y = b[m as int];
        x.lemma_image();
        y.lemma_image();
        let f = |w: u32| crate::bytes::word_bytes(w);
        let sa = word_stream(a, n);
        let sb = word_stream(b, n);
        let k = word_stream(a, m).len() as int;
        assert(word_stream(a, m) =~= sa.take(k));
        assert(word_stream(b, m) =~= sb.take(k));
        lemma_words_distinguish(a, b, m);
        assert forall|i: int| 0 <= i < T::width() implies x.words()[i] == y.words()[i] by {
            assert(sa[k + i] == f(x.words()[i]));
            assert(sb[k + i] == f(y.words()[i]));
            let p = x.words()[i];
            let q = y.words()[i];
            assert(crate::bytes::word_bytes(p)[0] == crate::bytes::word_bytes(q)[0]);
            assert(crate::bytes::word_bytes(p)[1] == crate::bytes::word_bytes(q)[1]);
            assert(crate::bytes::word_bytes(p)[2] == crate::bytes::word_bytes(q)[2]);
            assert(crate::bytes::word_bytes(p)[3] == crate::bytes::word_bytes(q)[3]);
            crate::bytes::lemma_word_of_bytes(p);
            crate::bytes::lemma_word_of_bytes(q);
        }
        assert(x.words() =~= y.words());
        assert forall|i: int| 0 <= i < n implies #[trigger] a[i] == b[i] by {
            if i < m {
                assert(a[i] == b[i]);
            }
        }
    }
}

proof fn lemma_colors_distinguish(a: Seq<Color>, b: Seq<Color>, n: nat)
    requires
        color_stream(a, n) == color_stream(b, n),
    ensures
        forall|i: int| 0 <= i < n ==> #[trigger] a[i] == b[i],
    decreases n,
{
    if n > 0 {
        let m = (n - 1) as nat;
        lemma_color_stream(a, m);
        lemma_color_stream(b, m);
        let sa = color_stream(a, n);
        let sb = color_stream(b, n);
        let k = 4 * m as int;
        assert(color_stream(a, m) =~= sa.take(k));
        assert(color_stream(b, m) =~= sb.take(k));
        lemma_colors_distinguish(a, b, m);
        let x = a[m as int];
        let y = b[m as int];
        assert(sa[k] == seq![x.r] && sb[k] == seq![y.r]);
        assert(sa[k + 1] == seq![x.g] && sb[k + 1] == seq![y.g]);
        assert(sa[k + 2] == seq![x.b] && sb[k + 2] == seq![y.b]);
        assert(sa[k + 3] == seq![x.a] && sb[k + 3] == seq![y.a]);
        assert(seq![x.r][0] == x.r && seq![x.g][0] == x.g && seq![x.b][0] == x.b && seq![x.a][0]
            == x.a);
        assert(seq![y.r][0] == y.r && seq![y.g][0] == y.g && seq![y.b][0] == y.b && seq![y.a][0]
            == y.a);
        assert forall|i: int| 0 <= i < n implies #[trigger] a[i] == b[i] by {
            if i < m {
                assert(a[i] == b[i]);
            }
        }
    }
}

/// Everything that is live is hashed: worlds of which the same is hashed have the
/// same live rows, in every column.
pub proof fn law_hash_reads_every_live_row(a: WorldModel, b: WorldModel)
    requires
        a.wf(),
        b.wf(),
        hash_stream(a) == hash_stream(b),
    ensures
        a.live() == b.live(),
{
    let n = a.count;
    let m = b.count;
    lemma_stream_parts(a);
    lemma_stream_parts(b);
    assert(n == m);
    let s = hash_stream(a);
    let k = n as int;
    assert(word_stream(a.positions, n) =~= s.subrange(0, 2 * k));
    assert(word_stream(b.positions, n) =~= s.subrange(0, 2 * k));
    assert(word_stream(a.velocities, n) =~= s.subrange(2 * k, 4 * k));
    assert(word_stream(b.velocities, n) =~= s.subrange(2 * k, 4 * k));
    assert(color_stream(a.colors, n) =~= s.subrange(4 * k, 8 * k));
    assert(color_stream(b.colors, n) =~= s.subrange(4 * k, 8 * k));
    assert(word_stream(a.transforms, n) =~= s.subrange(8 * k, 18 * k));
    assert(word_stream(b.transforms, n) =~= s.subrange(8 * k, 18 * k));
    assert(word_stream(a.velocity3d, n) =~= s.subrange(18 * k, 21 * k));
    assert(word_stream(b.velocity3d, n) =~= s.subrange(18 * k, 21 * k));
    assert(word_stream(a.actors, n) =~= s.subrange(21 * k, 27 * k));
    assert(word_stream(b.actors, n) =~= s.subrange(21 * k, 27 * k));
    lemma_words_distinguish(a.positions, b.positions, n);
    lemma_words_distinguish(a.velocities, b.velocities, n);
    lemma_colors_distinguish(a.colors, b.colors, n);
    lemma_words_distinguish(a.transforms, b.transforms, n);
    lemma_words_distinguish(a.velocity3d, b.velocity3d, n);
    lemma_words_distinguish(a.actors, b.actors, n);
    assert forall|i: int| 0 <= i < n implies #[trigger] a.live()[i] == b.live()[i] by {
        assert(a.positions[i] == b.positions[i] && a.velocities[i] == b.velocities[i]);
        assert(a.transforms[i] == b.transforms[i] && a.velocity3d[i] == b.velocity3d[i]);
        assert(a.actors[i] == b.actors[i] && a.colors[i] == b.colors[i]);
    }
    assert(a.live() =~= b.live());
}

/// The lengths of what is hashed of each column.
proof fn lemma_stream_parts(w: WorldModel)
    requires
        w.wf(),
    ensures
        word_stream(w.positions, w.count).len() == 2 * w.count,
        word_stream(w.velocities, w.count).len() == 2 * w.count,
        color_stream(w.colors, w.count).len() == 4 * w.count,
        word_stream(w.transforms, w.count).len() == 10 * w.count,
        word_stream(w.velocity3d, w.count).len() == 3 * w.count,
        word_stream(w.actors, w.count).len() == 6 * w.count,
        hash_stream(w).len() == 27 * w.count,
{
    lemma_word_stream(w.positions, w.count);
    lemma_word_stream(w.velocities, w.count);
    lemma_color_stream(w.colors, w.count);
    lemma_word_stream(w.transforms, w.count);
    lemma_word_stream(w.velocity3d, w.count);
    lemma_word_stream(w.actors, w.count);
}

/// The slots that a table gets when it is doubled hold zeros in every column.
pub proof fn law_new_slots(w: WorldModel, new: RowModel, i: int)
    requires
        w.wf(),
        w.cap() >= 1,
        w.count == w.cap(),
        w.count < i < spawned(w, new).cap(),
    ensures
        forall|k: int| 0 <= k < 2 ==> #[trigger] spawned(w, new).positions[i].words()[k] == 0,
        forall|k: int| 0 <= k < 2 ==> #[trigger] spawned(w, new).velocities[i].words()[k] == 0,
        forall|k: int| 0 <= k < 10 ==> #[trigger] spawned(w, new).transforms[i].words()[k] == 0,
        forall|k: int| 0 <= k < 3 ==> #[trigger] spawned(w, new).velocity3d[i].words()[k] == 0,
        forall|k: int| 0 <= k < 6 ==> #[trigger] spawned(w, new).actors[i].words()[k] == 0,
        spawned(w, new).colors[i] == (Color { r: 0, g: 0, b: 0, a: 0 }),
{
}

/// A table has 64 slots as long as they suffice, and twice as many as before each
/// time that they do not.
pub proof fn law_table_room(n: nat)
    ensures
        n <= 64 ==> table_cap(n) == 64,
        n <= table_cap(n),
        table_cap(n + 1) == table_cap(n) || table_cap(n + 1) == 2 * table_cap(n) && table_cap(n)
            == n,
    decreases n,
{
    lemma_table_cap(n);
    if n > 0 {
        law_table_room((n - 1) as nat);
    }
}

} // verus!
