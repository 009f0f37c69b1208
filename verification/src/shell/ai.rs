//! The model panel of the editor, and the application of proposals to the world
//! on display.

use crate::ai::operator::{ProposeBatch, ProposeOp, Scalar};
use crate::contracts::components::{Actor, Color, Position, Transform, Velocity, Velocity3D};
use crate::ecs::world::World;
use crate::fx::Fx16;
use vstd::prelude::*;

verus! {

/// State of the model panel.
#[derive(Clone, Debug)]
pub struct AiPanel {
    /// The message being written.
    pub input: String,
    /// The last reply.
    pub reply: String,
    /// The last status line.
    pub notice: String,
    /// Whether the panel is open.
    pub open: bool,
    /// What the last proposal changed.
    pub last_applied: Vec<String>,
}

impl AiPanel {
    /// A closed, empty panel.
    pub fn new() -> (r: Self)
        ensures
            r.input@ == Seq::<char>::empty(),
            r.reply@ == Seq::<char>::empty(),
            r.notice@ == Seq::<char>::empty(),
            !r.open,
            r.last_applied@.len() == 0,
    {
        AiPanel {
            input: String::new(),
            reply: String::new(),
            notice: String::new(),
            open: false,
            last_applied: Vec::new(),
        }
    }
}

/// The origin of the plane.
pub open spec fn origin() -> Position {
    Position { x: Fx16::of_int(0), y: Fx16::of_int(0) }
}

/// No motion in the plane.
pub open spec fn rest() -> Velocity {
    Velocity { x: Fx16::of_int(0), y: Fx16::of_int(0) }
}

/// Unit scale.
pub open spec fn unit() -> [Fx16; 3] {
    [Fx16::of_int(1), Fx16::of_int(1), Fx16::of_int(1)]
}

/// The row that a proposal adds at index `i`: at a position with a scale,
/// wandering with its index as seed.
pub open spec fn proposed_row(
    position: [Fx16; 3],
    scale: [Fx16; 3],
    color: [u8; 4],
    i: int,
) -> crate::ecs::world::RowModel {
    crate::ecs::world::RowModel {
        position: origin(),
        velocity: rest(),
        transform: Transform::spec_at(position, scale),
        velocity3d: Velocity3D::spec_zero(),
        actor: Actor::spec_npc(1, i as u32),
        color: Color { r: color[0], g: color[1], b: color[2], a: color[3] },
    }
}

/// The first three numbers of a proposed value.
pub open spec fn triple(value: Seq<Scalar>) -> [Fx16; 3] {
    [value[0].fixed, value[1].fixed, value[2].fixed]
}

/// The channels of a proposed color: those given, then 255.
pub open spec fn proposed_channels(value: Seq<Scalar>) -> [u8; 4] {
    [
        proposed_channel(value, 0),
        proposed_channel(value, 1),
        proposed_channel(value, 2),
        proposed_channel(value, 3),
    ]
}

/// Channel `k` of a proposed color.
pub open spec fn proposed_channel(value: Seq<Scalar>, k: int) -> u8 {
    if k < value.len() {
        value[k].channel
    } else {
        255
    }
}

/// The written-out values of a proposal.
pub open spec fn value_texts(value: Seq<Scalar>) -> Seq<Seq<char>> {
    Seq::new(value.len(), |i: int| value[i].text@)
}

/// The text of an operation on a row that does not exist.
pub open spec fn range_text(verb: Seq<char>, e: u32, n: nat) -> Seq<char> {
    verb + " #"@ + crate::text::decimal(e as nat) + ": out of range (count "@
        + crate::text::decimal(n) + ")"@
}

/// The rows and the note after one operation, or why it cannot be done.
pub open spec fn op_result(rows: Seq<crate::ecs::world::RowModel>, op: ProposeOp) -> Result<
    (Seq<crate::ecs::world::RowModel>, Seq<char>),
    Seq<char>,
> {
    match op {
        ProposeOp::Spawn { transform, scale, color } => Ok(
            (
                rows.push(proposed_row(triple(transform@), triple(scale@), color, rows.len() as int)),
                "spawn #"@ + crate::text::decimal(rows.len()) + " at "@ + crate::text::listed(
                    crate::ai::operator::scalar_texts(transform),
                ),
            ),
        ),
        ProposeOp::SetValue { entity, component, value } => if entity >= rows.len() {
            Err(range_text("set"@, entity, rows.len()))
        } else if component@ == "transform"@ {
            if value@.len() >= 3 {
                let r = rows[entity as int];
                let moved = Transform { position: triple(value@), ..r.transform };
                Ok(
                    (
                        rows.update(
                            entity as int,
                            crate::ecs::world::RowModel { transform: moved, ..r },
                        ),
                        "set #"@ + crate::text::decimal(entity as nat) + " transform -> "@
                            + crate::text::listed(value_texts(value@)),
                    ),
                )
            } else {
                Err(
                    "set #"@ + crate::text::decimal(entity as nat)
                        + " transform: need >=3 numbers"@,
                )
            }
        } else if component@ == "scale"@ {
            if value@.len() >= 3 {
                let r = rows[entity as int];
                let scaled = Transform { scale: triple(value@), ..r.transform };
                Ok(
                    (
                        rows.update(
                            entity as int,
                            crate::ecs::world::RowModel { transform: scaled, ..r },
                        ),
                        "set #"@ + crate::text::decimal(entity as nat) + " scale -> "@
                            + crate::text::listed(value_texts(value@)),
                    ),
                )
            } else {
                Err("set #"@ + crate::text::decimal(entity as nat) + " scale: need >=3 numbers"@)
            }
        } else if component@ == "color"@ {
            let c = proposed_channels(value@);
            let r = rows[entity as int];
            Ok(
                (
                    rows.update(
                        entity as int,
                        crate::ecs::world::RowModel {
                            color: Color { r: c[0], g: c[1], b: c[2], a: c[3] },
                            ..r
                        },
                    ),
                    "set #"@ + crate::text::decimal(entity as nat) + " color -> "@
                        + crate::text::listed(crate::text::channel_texts(c)),
                ),
            )
        } else {
            Err(
                "set #"@ + crate::text::decimal(entity as nat) + ": unsupported component '"@
                    + component@ + "'"@,
            )
        },
        ProposeOp::Despawn { entity } => if entity >= rows.len() {
            Err(range_text("despawn"@, entity, rows.len()))
        } else {
            Ok(
                (
                    rows.remove(entity as int),
                    "despawn #"@ + crate::text::decimal(entity as nat),
                ),
            )
        },
    }
}

/// The whole world after one operation that can be done. A removal rebuilds the
/// table, so that nothing is left behind its rows.
pub open spec fn op_world(w: crate::ecs::world::WorldModel, op: ProposeOp) -> crate::ecs::world::WorldModel {
    match op {
        ProposeOp::Spawn { transform, scale, color } => crate::ecs::world::spawned(
            w,
            proposed_row(triple(transform@), triple(scale@), color, w.count as int),
        ),
        ProposeOp::SetValue { entity, component, value } => {
            let e = entity as int;
            let t = w.transforms[e];
            let c = proposed_channels(value@);
            if component@ == "transform"@ {
                w.with_transform(e, Transform { position: triple(value@), ..t })
            } else if component@ == "scale"@ {
                w.with_transform(e, Transform { scale: triple(value@), ..t })
            } else {
                w.with_color(e, Color { r: c[0], g: c[1], b: c[2], a: c[3] })
            }
        },
        ProposeOp::Despawn { entity } => crate::ecs::world::table(w.live().remove(entity as int)),
    }
}

/// The whole world after the first `n` operations, if they can be done.
pub open spec fn ops_world(
    w: crate::ecs::world::WorldModel,
    ops: Seq<ProposeOp>,
    n: nat,
) -> crate::ecs::world::WorldModel
    decreases n,
{
    if n == 0 {
        w
    } else {
        op_world(ops_world(w, ops, (n - 1) as nat), ops[n - 1])
    }
}

/// The rows and the notes after the first `n` operations, or why one of them
/// cannot be done.
pub open spec fn ops_result(
    rows: Seq<crate::ecs::world::RowModel>,
    ops: Seq<ProposeOp>,
    n: nat,
) -> Result<(Seq<crate::ecs::world::RowModel>, Seq<Seq<char>>), Seq<char>>
    decreases n,
{
    if n == 0 {
        Ok((rows, seq![]))
    } else {
        match ops_result(rows, ops, (n - 1) as nat) {
            Err(e) => Err(e),
            Ok((rs, notes)) => match op_result(rs, ops[n - 1]) {
                Err(e) => Err(e),
                Ok((rs2, note)) => Ok((rs2, notes.push(note))),
            },
        }
    }
}

/// A batch grows a world by at most one row for each operation.
proof fn lemma_ops_growth(rows: Seq<crate::ecs::world::RowModel>, ops: Seq<ProposeOp>, n: nat)
    ensures
        ops_result(rows, ops, n) matches Ok((rs, notes)) ==> rs.len() <= rows.len() + n,
    decreases n,
{
    if n > 0 {
        lemma_ops_growth(rows, ops, (n - 1) as nat);
    }
}

/// An operation that fails makes the batch fail.
proof fn lemma_ops_fail(
    rows: Seq<crate::ecs::world::RowModel>,
    ops: Seq<ProposeOp>,
    n: nat,
    m: nat,
)
    requires
        n <= m,
        ops_result(rows, ops, n) is Err,
    ensures
        ops_result(rows, ops, m) == ops_result(rows, ops, n),
    decreases m,
{
    if n < m {
        lemma_ops_fail(rows, ops, n, (m - 1) as nat);
    }
}

fn range_error(verb: &str, e: u32, n: usize) -> (r: String)
    ensures
        r@ == range_text(verb@, e, n as nat),
{
    let mut s = crate::text::joined(verb, " #");
    let d = crate::text::decimal_text(e as u64);
    s.append(d.as_str());
    s.append(": out of range (count ");
    let c = crate::text::decimal_text(n as u64);
    s.append(c.as_str());
    s.append(")");
    s
}

fn channel_or_full(value: &Vec<Scalar>, k: usize) -> (r: u8)
    ensures
        r == proposed_channel(value@, k as int),
{
    if k < value.len() {
        value[k].channel
    } else {
        255
    }
}

/// The written-out values of a proposal as a list.
fn values_text(value: &Vec<Scalar>) -> (r: String)
    ensures
        r@ == crate::text::listed(value_texts(value@)),
{
    let mut items: Vec<String> = Vec::new();
    let mut k: usize = 0;
    assert(crate::text::texts(items@) =~= value_texts(value@).take(0));
    while k < value.len()
        invariant
            k <= value@.len(),
            crate::text::texts(items@) == value_texts(value@).take(k as int),
        decreases value@.len() - k,
    {
        let t: String = value[k].text.clone();
        let ghost was = crate::text::texts(items@);
        items.push(t);
        assert(crate::text::texts(items@) =~= was.push(t@));
        assert(value_texts(value@).take(k + 1) =~= was.push(value_texts(value@)[k as int]));
        k = k + 1;
    }
    assert(value_texts(value@).take(k as int) =~= value_texts(value@));
    crate::text::list_text(&items)
}

/// Replaces the transform of a live row.
fn put_transform(world: &mut World, e: usize, t: Transform)
    requires
        old(world).wf(),
        e < old(world)@.count,
    ensures
        final(world).wf(),
        final(world)@ == old(world)@.with_transform(e as int, t),
        final(world)@.live() == old(world)@.live().update(
            e as int,
            (crate::ecs::world::RowModel { transform: t, ..old(world)@.live()[e as int] }),
        ),
{
    proof {
        world.lemma_wf();
    }
    let ghost before = world@;
    let ghost rows = world@.live();
    world.set_transform(e, t);
    proof {
        world.lemma_wf();
        assert(before.at(e as int) == rows[e as int]);
        assert forall|k: int| 0 <= k < rows.len() && k != e implies #[trigger] world@.live()[k]
            == rows[k] by {
            assert(world@.at(k) == before.at(k));
        }
        let r = rows[e as int];
        assert(world@.live() =~= rows.update(
            e as int,
            crate::ecs::world::RowModel { transform: t, ..r },
        ));
    }
}

/// Replaces the color of a live row.
fn put_color(world: &mut World, e: usize, c: Color)
    requires
        old(world).wf(),
        e < old(world)@.count,
    ensures
        final(world).wf(),
        final(world)@ == old(world)@.with_color(e as int, c),
        final(world)@.live() == old(world)@.live().update(
            e as int,
            (crate::ecs::world::RowModel { color: c, ..old(world)@.live()[e as int] }),
        ),
{
    proof {
        world.lemma_wf();
    }
    let ghost before = world@;
    let ghost rows = world@.live();
    world.set_color(e, c);
    proof {
        world.lemma_wf();
        assert(before.at(e as int) == rows[e as int]);
        assert forall|k: int| 0 <= k < rows.len() && k != e implies #[trigger] world@.live()[k]
            == rows[k] by {
            assert(world@.at(k) == before.at(k));
        }
        let r = rows[e as int];
        assert(world@.live() =~= rows.update(
            e as int,
            crate::ecs::world::RowModel { color: c, ..r },
        ));
    }
}

/// Rebuilds a world without row `index`: the rows behind it move up by one, and
/// every row left keeps all of its components.
fn delete_at(world: &mut World, index: usize)
    requires
        old(world).wf(),
        index < old(world)@.count,
    ensures
        final(world).wf(),
        final(world)@ == crate::ecs::world::table(old(world)@.live().remove(index as int)),
        final(world)@.live() == old(world)@.live().remove(index as int),
        final(world)@.count == old(world)@.count - 1,
{
    proof {
        world.lemma_wf();
    }
    let n: usize = world.entity_count();
    let ghost rows = world@.live();
    let ghost kept = rows.remove(index as int);
    let mut fresh = World::new();
    if let (Some(ps), Some(pvs), Some(ts), Some(vs), Some(acts), Some(cs)) = (
        world.get_positions(),
        world.get_velocities(),
        world.get_transforms(),
        world.get_velocity_3d(),
        world.get_actors(),
        world.get_colors(),
    ) {
        let mut i: usize = 0;
        proof {
            crate::ecs::world::lemma_table_cap(kept.len());
            crate::ecs::world::lemma_table_cap_grows(kept.len(), rows.len());
            assert(kept.take(0) =~= seq![]);
        }
        while i < n
            invariant
                i <= n,
                n == world@.count,
                crate::ecs::world::table_fits(kept.len()),
                index < n,
                world@.wf(),
                rows == world@.live(),
                kept == rows.remove(index as int),
                ps@ == world@.positions,
                pvs@ == world@.velocities,
                ts@ == world@.transforms,
                vs@ == world@.velocity3d,
                acts@ == world@.actors,
                cs@ == world@.colors,
                fresh.wf(),
                fresh@ == crate::ecs::world::table(
                    kept.take(
                        if i <= index {
                            i as int
                        } else {
                            i - 1
                        },
                    ),
                ),
            decreases n - i,
        {
            if i != index {
                proof {
                    let k = if i < index {
                        i as int
                    } else {
                        i - 1
                    };
                    crate::ecs::world::lemma_fill_table(kept, k);
                    assert(kept[k] == rows[i as int]);
                    assert(rows[i as int] == world@.at(i as int));
                }
                let _ = fresh.spawn_row(ps[i], pvs[i], cs[i], ts[i], vs[i], acts[i]);
            }
            i = i + 1;
        }
        assert(kept.take(n - 1) =~= kept);
    }
    proof {
        crate::ecs::world::law_table(kept, crate::ecs::world::zero_row());
    }
    *world = fresh;
}

/// Applies one operation to the live rows, and says what it did.
fn apply_op(world: &mut World, op: &ProposeOp) -> (r: Result<String, String>)
    requires
        old(world).wf(),
        old(world)@.count <= u32::MAX,
        80 * old(world)@.count <= isize::MAX,
    ensures
        final(world).wf(),
        match (r, op_result(old(world)@.live(), *op)) {
            (Ok(t), Ok((rows, note))) => final(world)@.live() == rows && t@ == note
                && final(world)@ == op_world(old(world)@, *op),
            (Err(t), Err(e)) => t@ == e,
            _ => false,
        },
{
    proof {
        world.lemma_wf();
    }
    let n: usize = world.entity_count();
    let ghost rows = world@.live();
    match op {
        ProposeOp::Spawn { transform, scale, color } => {
            let zero = Fx16::from_num(0);
            let i: usize = world.spawn_row(
                Position { x: zero, y: zero },
                Velocity { x: zero, y: zero },
                Color { r: color[0], g: color[1], b: color[2], a: color[3] },
                Transform::placed(
                    [transform[0].fixed, transform[1].fixed, transform[2].fixed],
                    [scale[0].fixed, scale[1].fixed, scale[2].fixed],
                ),
                Velocity3D::zero(),
                Actor::npc(1, n as u32),
            );
            let d = crate::text::decimal_text(i as u64);
            let mut s = crate::text::joined("spawn #", d.as_str());
            s.append(" at ");
            let p = crate::ai::operator::position_text(transform);
            s.append(p.as_str());
            Ok(s)
        },
        ProposeOp::SetValue { entity, component, value } => {
            let e: u32 = *entity;
            if e as usize >= n {
                return Err(range_error("set", e, n));
            }
            let d = crate::text::decimal_text(e as u64);
            let mut s = crate::text::joined("set #", d.as_str());
            if crate::text::same(component.as_str(), "transform") {
                if value.len() < 3 {
                    s.append(" transform: need >=3 numbers");
                    return Err(s);
                }
                if let Some(ts) = world.get_transforms() {
                    let mut t: Transform = ts[e as usize];
                    t.position = [value[0].fixed, value[1].fixed, value[2].fixed];
                    assert(ts@[e as int] == rows[e as int].transform);
                    put_transform(world, e as usize, t);
                }
                s.append(" transform -> ");
                let l = values_text(value);
                s.append(l.as_str());
                Ok(s)
            } else if crate::text::same(component.as_str(), "scale") {
                if value.len() < 3 {
                    s.append(" scale: need >=3 numbers");
                    return Err(s);
                }
                if let Some(ts) = world.get_transforms() {
                    let mut t: Transform = ts[e as usize];
                    t.scale = [value[0].fixed, value[1].fixed, value[2].fixed];
                    assert(ts@[e as int] == rows[e as int].transform);
                    put_transform(world, e as usize, t);
                }
                s.append(" scale -> ");
                let l = values_text(value);
                s.append(l.as_str());
                Ok(s)
            } else if crate::text::same(component.as_str(), "color") {
                let col: [u8; 4] = [
                    channel_or_full(value, 0),
                    channel_or_full(value, 1),
                    channel_or_full(value, 2),
                    channel_or_full(value, 3),
                ];
                assert(col =~= proposed_channels(value@));
                put_color(
                    world,
                    e as usize,
                    Color { r: col[0], g: col[1], b: col[2], a: col[3] },
                );
                s.append(" color -> ");
                let l = crate::text::channels_text(&col);
                s.append(l.as_str());
                Ok(s)
            } else {
                s.append(": unsupported component '");
                s.append(component.as_str());
                s.append("'");
                Err(s)
            }
        },
        ProposeOp::Despawn { entity } => {
            let e: u32 = *entity;
            if e as usize >= n {
                return Err(range_error("despawn", e, n));
            }
            delete_at(world, e as usize);
            let d = crate::text::decimal_text(e as u64);
            Ok(crate::text::joined("despawn #", d.as_str()))
        },
    }
}

/// Applies a batch to a world and says what each operation did. If one of them
/// cannot be done, the live rows are left as they were before the batch and the
/// reason is returned. Rows are numbered in 32 bits, and a doubled table must fit
/// in memory.
pub fn apply_proposal(world: &mut World, batch: &ProposeBatch) -> (r: Result<Vec<String>, String>)
    requires
        old(world).wf(),
        old(world)@.count + batch.ops@.len() <= u32::MAX,
        80 * (old(world)@.count + batch.ops@.len()) <= isize::MAX,
    ensures
        final(world).wf(),
        match (r, ops_result(old(world)@.live(), batch.ops@, batch.ops@.len())) {
            (Ok(v), Ok((rows, notes))) => final(world)@.live() == rows && crate::text::texts(v@)
                == notes && final(world)@ == ops_world(
                old(world)@,
                batch.ops@,
                batch.ops@.len(),
            ),
            (Err(t), Err(e)) => t@ == e && final(world)@ == old(world)@,
            _ => false,
        },
{
    let backup = world.clone_state();
    let ghost rows = world@.live();
    let mut applied: Vec<String> = Vec::new();
    let mut i: usize = 0;
    assert(crate::text::texts(applied@) =~= seq![]);
    proof {
        world.lemma_wf();
    }
    while i < batch.ops.len()
        invariant
            i <= batch.ops@.len(),
            world.wf(),
            backup.wf(),
            backup@ == old(world)@,
            rows == old(world)@.live(),
            rows.len() + batch.ops@.len() <= u32::MAX,
            80 * (rows.len() + batch.ops@.len()) <= isize::MAX,
            ops_result(rows, batch.ops@, i as nat) == Ok::<
                (Seq<crate::ecs::world::RowModel>, Seq<Seq<char>>),
                Seq<char>,
            >((world@.live(), crate::text::texts(applied@))),
            world@ == ops_world(old(world)@, batch.ops@, i as nat),
        decreases batch.ops@.len() - i,
    {
        proof {
            lemma_ops_growth(rows, batch.ops@, i as nat);
            assert(world@.live().len() == world@.count);
        }
        let ghost notes = crate::text::texts(applied@);
        match apply_op(world, &batch.ops[i]) {
            Ok(note) => {
                applied.push(note);
                assert(crate::text::texts(applied@) =~= notes.push(note@));
            },
            Err(e) => {
                proof {
                    lemma_ops_fail(rows, batch.ops@, (i + 1) as nat, batch.ops@.len());
                }
                *world = backup;
                return Err(e);
            },
        }
        i = i + 1;
    }
    Ok(applied)
}

/// A batch is all or nothing: what is true of the whole batch is true of each of
/// its beginnings, and the first operation that cannot be done decides the error.
pub proof fn law_batch_is_atomic(
    rows: Seq<crate::ecs::world::RowModel>,
    ops: Seq<ProposeOp>,
    n: nat,
    m: nat,
)
    requires
        n <= m,
    ensures
        ops_result(rows, ops, m) is Ok ==> ops_result(rows, ops, n) is Ok,
        ops_result(rows, ops, n) is Err ==> ops_result(rows, ops, m) == ops_result(rows, ops, n),
    decreases m,
{
    if n < m {
        law_batch_is_atomic(rows, ops, n, (m - 1) as nat);
    }
}

/// A batch that is done has one note for each operation.
pub proof fn law_one_note_per_op(
    rows: Seq<crate::ecs::world::RowModel>,
    ops: Seq<ProposeOp>,
    n: nat,
)
    ensures
        ops_result(rows, ops, n) matches Ok((rs, notes)) ==> notes.len() == n,
    decreases n,
{
    if n > 0 {
        law_one_note_per_op(rows, ops, (n - 1) as nat);
    }
}

/// A proposed spawn adds one row behind the others and leaves those alone. The row
/// stands still at the given position with the given scale and color, unturned, in
/// the middle of the plane, and wanders with its number as seed.
pub proof fn law_spawn_proposal(
    rows: Seq<crate::ecs::world::RowModel>,
    op: ProposeOp,
    k: int,
)
    requires
        op is Spawn,
        0 <= k < 3,
        rows.len() <= u32::MAX,
    ensures
        op_result(rows, op) is Ok,
        op_result(rows, op)->Ok_0.0.drop_last() == rows,
        ({
            let r = op_result(rows, op)->Ok_0.0.last();
            &&& r.transform.position[k] == op->Spawn_transform[k].fixed
            &&& r.transform.scale[k] == op->Spawn_scale[k].fixed
            &&& r.transform.rotation[k].bits == 0
            &&& r.transform.rotation[3].bits == 65536
            &&& r.velocity3d.linear[k].bits == 0
            &&& r.position.x.bits == 0 && r.position.y.bits == 0
            &&& r.velocity.x.bits == 0 && r.velocity.y.bits == 0
            &&& r.color.r == op->Spawn_color[0]
            &&& r.color.g == op->Spawn_color[1]
            &&& r.color.b == op->Spawn_color[2]
            &&& r.color.a == op->Spawn_color[3]
            &&& r.actor.kind == 1
            &&& r.actor.seed == rows.len()
        }),
        op_result(rows, op)->Ok_0.1 == "spawn #"@ + crate::text::decimal(rows.len()) + " at "@
            + ("["@ + op->Spawn_transform[0].text@ + ", "@ + op->Spawn_transform[1].text@ + ", "@
            + op->Spawn_transform[2].text@ + "]"@),
{
    let t = op->Spawn_transform;
    let made = op_result(rows, op)->Ok_0.0;
    assert(made.drop_last() =~= rows);
    let p = crate::ai::operator::scalar_texts(t);
    let sep = ", "@;
    reveal_with_fuel(crate::text::joined_with, 4);
    assert(p.drop_last().drop_last() =~= seq![p[0]]);
    assert(p.drop_last().last() == p[1]);
    assert(crate::text::joined_with(p, sep) =~= p[0] + sep + p[1] + sep + p[2]);
    assert(crate::text::listed(p) =~= "["@ + p[0] + sep + p[1] + sep + p[2] + "]"@);
}

/// A proposed position, size or color changes that part of that row and nothing
/// else: not another part of it, and no other row.
pub proof fn law_set_proposal(
    rows: Seq<crate::ecs::world::RowModel>,
    op: ProposeOp,
    k: int,
    j: int,
)
    requires
        op is SetValue,
        op_result(rows, op) is Ok,
        0 <= k < 3,
        0 <= j < rows.len(),
    ensures
        op->SetValue_entity < rows.len(),
        op_result(rows, op)->Ok_0.0.len() == rows.len(),
        ({
            let e = op->SetValue_entity as int;
            let name = op->SetValue_component@;
            let v = op->SetValue_value@;
            let was = rows[j];
            let r = op_result(rows, op)->Ok_0.0[j];
            &&& j != e ==> r == was
            &&& r.position == was.position && r.velocity == was.velocity
            &&& r.velocity3d == was.velocity3d && r.actor == was.actor
            &&& r.transform.rotation == was.transform.rotation
            &&& name != "transform"@ ==> r.transform.position == was.transform.position
            &&& name != "scale"@ ==> r.transform.scale == was.transform.scale
            &&& name != "color"@ ==> r.color == was.color
            &&& j == e && name == "transform"@ ==> r.transform.position[k] == v[k].fixed
            &&& j == e && name == "scale"@ ==> r.transform.scale[k] == v[k].fixed
            &&& j == e && name == "color"@ ==> r.color.r == (if v.len() > 0 {
                v[0].channel
            } else {
                255
            }) && r.color.g == (if v.len() > 1 {
                v[1].channel
            } else {
                255
            }) && r.color.b == (if v.len() > 2 {
                v[2].channel
            } else {
                255
            }) && r.color.a == (if v.len() > 3 {
                v[3].channel
            } else {
                255
            })
        }),
{
    reveal_strlit("transform");
    reveal_strlit("scale");
    reveal_strlit("color");
    assert("transform"@.len() == 9 && "scale"@.len() == 5 && "color"@.len() == 5);
    assert("scale"@[0] == 's' && "color"@[0] == 'c');
}

/// When a proposed value can be set, and what is noted: the row must be there, the
/// name known, and a position or a size given by three numbers at least.
pub proof fn law_set_outcomes(rows: Seq<crate::ecs::world::RowModel>, op: ProposeOp)
    requires
        op is SetValue,
    ensures
        ({
            let e = op->SetValue_entity;
            let name = op->SetValue_component@;
            let v = op->SetValue_value@;
            let start = "set #"@ + crate::text::decimal(e as nat);
            let r = op_result(rows, op);
            &&& e >= rows.len() ==> r == Err::<
                (Seq<crate::ecs::world::RowModel>, Seq<char>),
                Seq<char>,
            >("set"@ + " #"@ + crate::text::decimal(e as nat) + ": out of range (count "@
                + crate::text::decimal(rows.len()) + ")"@)
            &&& e < rows.len() && name == "transform"@ && v.len() < 3 ==> r == Err::<
                (Seq<crate::ecs::world::RowModel>, Seq<char>),
                Seq<char>,
            >(start + " transform: need >=3 numbers"@)
            &&& e < rows.len() && name == "scale"@ && v.len() < 3 ==> r == Err::<
                (Seq<crate::ecs::world::RowModel>, Seq<char>),
                Seq<char>,
            >(start + " scale: need >=3 numbers"@)
            &&& e < rows.len() && name != "transform"@ && name != "scale"@ && name != "color"@
                ==> r == Err::<(Seq<crate::ecs::world::RowModel>, Seq<char>), Seq<char>>(
                start + ": unsupported component '"@ + name + "'"@,
            )
            &&& e < rows.len() && (name == "transform"@ || name == "scale"@) && v.len() >= 3
                ==> r is Ok
            &&& e < rows.len() && name == "color"@ ==> r is Ok
            &&& r is Ok && name == "transform"@ ==> (start + " transform -> ["@).is_prefix_of(
                r->Ok_0.1,
            )
            &&& r is Ok && name == "scale"@ ==> (start + " scale -> ["@).is_prefix_of(r->Ok_0.1)
            &&& r is Ok && name == "color"@ ==> (start + " color -> ["@).is_prefix_of(r->Ok_0.1)
            &&& r is Ok && name != "color"@ ==> exists|a: Seq<char>|
                r->Ok_0.1 == #[trigger] (a + crate::text::listed(value_texts(v)))
        }),
{
    reveal_strlit("transform");
    reveal_strlit("scale");
    reveal_strlit("color");
    assert("transform"@.len() == 9 && "scale"@.len() == 5 && "color"@.len() == 5);
    assert("scale"@[0] == 's' && "color"@[0] == 'c');
    reveal_strlit(" transform -> [");
    reveal_strlit(" scale -> [");
    reveal_strlit(" color -> [");
    reveal_strlit(" transform -> ");
    reveal_strlit(" scale -> ");
    reveal_strlit(" color -> ");
    reveal_strlit("[");
    let start = "set #"@ + crate::text::decimal(op->SetValue_entity as nat);
    let r = op_result(rows, op);
    if r is Ok {
        let note = r->Ok_0.1;
        let name = op->SetValue_component@;
        let l = crate::text::listed(value_texts(op->SetValue_value@));
        if name == "transform"@ {
            assert(start + " transform -> ["@ =~= note.take((start + " transform -> ["@).len() as int));
            assert(note == (start + " transform -> "@) + l);
        } else if name == "scale"@ {
            assert(start + " scale -> ["@ =~= note.take((start + " scale -> ["@).len() as int));
            assert(note == (start + " scale -> "@) + l);
        } else {
            assert(start + " color -> ["@ =~= note.take((start + " color -> ["@).len() as int));
        }
    }
}

/// A proposed removal takes out one row: those before it keep their number, those
/// behind it move up by one, and none is changed. A row that is not there cannot be
/// removed.
pub proof fn law_despawn_proposal(
    rows: Seq<crate::ecs::world::RowModel>,
    e: u32,
    j: int,
)
    requires
        0 <= j < rows.len() - 1,
    ensures
        e >= rows.len() ==> op_result(rows, ProposeOp::Despawn { entity: e }) == Err::<
            (Seq<crate::ecs::world::RowModel>, Seq<char>),
            Seq<char>,
        >("despawn"@ + " #"@ + crate::text::decimal(e as nat) + ": out of range (count "@
            + crate::text::decimal(rows.len()) + ")"@),
        e < rows.len() ==> {
            let r = op_result(rows, ProposeOp::Despawn { entity: e });
            &&& r is Ok
            &&& r->Ok_0.0.len() == rows.len() - 1
            &&& r->Ok_0.0[j] == (if j < e {
                rows[j]
            } else {
                rows[j + 1]
            })
            &&& r->Ok_0.1 == "despawn #"@ + crate::text::decimal(e as nat)
        },
{
}

/// No operation is done on no row but a spawn.
pub proof fn law_nothing_to_change(op: ProposeOp)
    ensures
        op_result(seq![], op) is Ok <==> op is Spawn,
{
}

/// The columns of the world after an operation hold the rows that it leads to.
pub proof fn law_world_after_op(w: crate::ecs::world::WorldModel, op: ProposeOp, j: int)
    requires
        w.wf(),
        w.cap() >= 1,
        op_result(w.live(), op) is Ok,
        0 <= j < op_result(w.live(), op)->Ok_0.0.len(),
    ensures
        op_world(w, op).count == op_result(w.live(), op)->Ok_0.0.len(),
        op_world(w, op).positions[j] == op_result(w.live(), op)->Ok_0.0[j].position,
        op_world(w, op).velocities[j] == op_result(w.live(), op)->Ok_0.0[j].velocity,
        op_world(w, op).transforms[j] == op_result(w.live(), op)->Ok_0.0[j].transform,
        op_world(w, op).velocity3d[j] == op_result(w.live(), op)->Ok_0.0[j].velocity3d,
        op_world(w, op).actors[j] == op_result(w.live(), op)->Ok_0.0[j].actor,
        op_world(w, op).colors[j] == op_result(w.live(), op)->Ok_0.0[j].color,
{
    let rows = w.live();
    let after = op_result(rows, op)->Ok_0.0;
    assert(rows.len() == w.count);
    if j < rows.len() {
        assert(rows[j] == w.at(j));
    }
    match op {
        ProposeOp::Despawn { entity } => {
            let kept = rows.remove(entity as int);
            crate::ecs::world::law_table(kept, crate::ecs::world::zero_row());
            let t = crate::ecs::world::table(kept);
            assert(t.live()[j] == t.at(j));
        },
        ProposeOp::Spawn { transform, scale, color } => {
            let new = proposed_row(triple(transform@), triple(scale@), color, w.count as int);
            crate::ecs::world::law_spawn(w, new, j);
        },
        ProposeOp::SetValue { entity, .. } => {
            assert(rows[entity as int] == w.at(entity as int));
        },
    }
}

/// A batch does its operations one after the other, each on what the ones before it
/// left; an empty one does nothing.
pub proof fn law_ops_in_order(rows: Seq<crate::ecs::world::RowModel>, a: Seq<ProposeOp>, op: ProposeOp)
    ensures
        ops_result(rows, seq![], 0) == Ok::<
            (Seq<crate::ecs::world::RowModel>, Seq<Seq<char>>),
            Seq<char>,
        >((rows, seq![])),
        match (ops_result(rows, a, a.len()), ops_result(rows, a.push(op), a.len() + 1)) {
            (Err(x), Err(y)) => x == y,
            (Err(_), Ok(_)) => false,
            (Ok((rs, notes)), Err(y)) => op_result(rs, op) == Err::<
                (Seq<crate::ecs::world::RowModel>, Seq<char>),
                Seq<char>,
            >(y),
            (Ok((rs, notes)), Ok((after, all))) => all.len() == notes.len() + 1
                && all.drop_last() == notes && op_result(rs, op) == Ok::<
                (Seq<crate::ecs::world::RowModel>, Seq<char>),
                Seq<char>,
            >((after, all.last())),
        },
{
    lemma_ops_prefix(rows, a, a.push(op), a.len());
    match (ops_result(rows, a, a.len()), ops_result(rows, a.push(op), a.len() + 1)) {
        (Ok((rs, notes)), Ok((after, all))) => {
            assert(a.push(op)[a.len() as int] == op);
            assert(all.drop_last() =~= notes);
        },
        _ => {
            assert(a.push(op)[a.len() as int] == op);
        },
    }
}

proof fn lemma_ops_prefix(
    rows: Seq<crate::ecs::world::RowModel>,
    a: Seq<ProposeOp>,
    b: Seq<ProposeOp>,
    n: nat,
)
    requires
        forall|i: int| 0 <= i < n ==> a[i] == b[i],
    ensures
        ops_result(rows, a, n) == ops_result(rows, b, n),
    decreases n,
{
    if n > 0 {
        lemma_ops_prefix(rows, a, b, (n - 1) as nat);
        assert(a[n - 1] == b[n - 1]);
    }
}

/// The world after a batch, and after one operation more.
pub proof fn law_worlds_in_order(w: crate::ecs::world::WorldModel, a: Seq<ProposeOp>, op: ProposeOp)
    ensures
        ops_world(w, seq![], 0) == w,
        ops_world(w, a.push(op), a.len() + 1) == op_world(ops_world(w, a, a.len()), op),
{
    lemma_worlds_prefix(w, a, a.push(op), a.len());
    assert(a.push(op)[a.len() as int] == op);
}

proof fn lemma_worlds_prefix(
    w: crate::ecs::world::WorldModel,
    a: Seq<ProposeOp>,
    b: Seq<ProposeOp>,
    n: nat,
)
    requires
        forall|i: int| 0 <= i < n ==> a[i] == b[i],
    ensures
        ops_world(w, a, n) == ops_world(w, b, n),
    decreases n,
{
    if n > 0 {
        lemma_worlds_prefix(w, a, b, (n - 1) as nat);
        assert(a[n - 1] == b[n - 1]);
    }
}

} // verus!
