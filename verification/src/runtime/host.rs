//! Frames exchanged with guest logic: what the host writes into the guest's
//! input buffer, and what it accepts from the output buffer.

use crate::contracts::basics::PlayerInput;
use crate::contracts::comp;
use crate::contracts::components::{Component, Position, Transform, Velocity, Velocity3D};
use crate::contracts::delta::{ColumnDescriptor, ComponentId, WorldDelta};
use crate::contracts::wire::{Wire, WireError};
use crate::ecs::world::World;
use crate::fx::Fx16;
use vstd::prelude::*;

verus! {

/// Size of the guest's input buffer.
pub const INPUT_CAP: u32 = 65536;

/// Size of the guest's output buffer.
pub const OUTPUT_CAP: u32 = 65536;

/// Why a guest tick failed on the host's side.
#[derive(Clone, Copy, PartialEq, Eq, Structural, Debug)]
pub enum HostError {
    /// The frame does not fit in the input buffer.
    InputTooLarge,
    /// The guest reported an impossible output length.
    InvalidLength(u32),
    /// The output is not a delta.
    Decode(WireError),
}

/// What a [`HostError`] says of a guest tick called `what`.
pub open spec fn host_error_text(what: Seq<char>, e: HostError) -> Seq<char> {
    match e {
        HostError::InputTooLarge => "input exceeds guest buffer"@,
        HostError::InvalidLength(n) => "guest "@ + what + " tick returned invalid length ("@
            + crate::text::decimal(n as nat) + ")"@,
        HostError::Decode(_) => "decode WorldDelta"@,
    }
}

impl HostError {
    /// What this says of a guest tick called `what`.
    pub fn to_text(&self, what: &str) -> (r: String)
        ensures
            r@ == host_error_text(what@, *self),
    {
        match self {
            HostError::InputTooLarge => "input exceeds guest buffer".to_owned(),
            HostError::InvalidLength(n) => {
                let mut s = crate::text::joined("guest ", what);
                s.append(" tick returned invalid length (");
                let d = crate::text::decimal_text(*n as u64);
                s.append(d.as_str());
                s.append(")");
                s
            },
            HostError::Decode(_) => "decode WorldDelta".to_owned(),
        }
    }
}

/// The fields of a column descriptor, in order.
pub type DescriptorFields = ((ComponentId, u32), (u32, u32));

impl Wire for ColumnDescriptor {
    type M = ColumnDescriptor;

    open spec fn model(&self) -> ColumnDescriptor {
        *self
    }

    open spec fn sized(m: ColumnDescriptor) -> bool {
        true
    }

    open spec fn enc(m: ColumnDescriptor) -> Seq<u8> {
        <DescriptorFields as Wire>::enc(
            ((m.component_id, m.element_size), (m.count, m.data_offset)),
        )
    }

    open spec fn dec(b: Seq<u8>) -> Result<(ColumnDescriptor, nat), WireError> {
        match <DescriptorFields as Wire>::dec(b) {
            Ok((v, n)) => Ok(
                (
                    ColumnDescriptor {
                        component_id: v.0.0,
                        element_size: v.0.1,
                        count: v.1.0,
                        data_offset: v.1.1,
                    },
                    n,
                ),
            ),
            Err(e) => Err(e),
        }
    }

    proof fn lemma_dec_len(b: Seq<u8>) {
        <DescriptorFields as Wire>::lemma_dec_len(b);
    }

    proof fn lemma_roundtrip(m: ColumnDescriptor, rest: Seq<u8>) {
        <DescriptorFields as Wire>::lemma_roundtrip(
            ((m.component_id, m.element_size), (m.count, m.data_offset)),
            rest,
        );
    }

    fn put(&self, out: &mut Vec<u8>) {
        ((self.component_id, self.element_size), (self.count, self.data_offset)).put(out);
    }

    fn take(b: &[u8], at: usize) -> (r: Result<(Self, usize), WireError>) {
        match <DescriptorFields as Wire>::take(b, at) {
            Ok((v, next)) => Ok(
                (
                    ColumnDescriptor {
                        component_id: v.0.0,
                        element_size: v.0.1,
                        count: v.1.0,
                        data_offset: v.1.1,
                    },
                    next,
                ),
            ),
            Err(e) => Err(e),
        }
    }
}

/// Two columns of `count` rows, one behind the other in the arena, the first of
/// `len` bytes.
pub open spec fn descriptors(
    a: u32,
    a_size: u32,
    b: u32,
    b_size: u32,
    count: nat,
    len: nat,
) -> Seq<ColumnDescriptor> {
    seq![
        ColumnDescriptor {
            component_id: ComponentId(a),
            element_size: a_size,
            count: count as u32,
            data_offset: 0,
        },
        ColumnDescriptor {
            component_id: ComponentId(b),
            element_size: b_size,
            count: count as u32,
            data_offset: len as u32,
        },
    ]
}

/// Two packed columns with their descriptors in front.
pub open spec fn columns_frame<A: Component, B: Component>(
    a: u32,
    xs: Seq<A>,
    b: u32,
    ys: Seq<B>,
) -> Seq<u8> {
    let first = crate::runtime::movement::packed(xs);
    <Vec<ColumnDescriptor> as Wire>::enc(
        descriptors(
            a,
            (4 * A::width()) as u32,
            b,
            (4 * B::width()) as u32,
            xs.len(),
            first.len(),
        ),
    ) + first + crate::runtime::movement::packed(ys)
}

fn put_columns<A: Component, B: Component>(
    out: &mut Vec<u8>,
    a: u32,
    xs: &Vec<A>,
    b: u32,
    ys: &Vec<B>,
    n: usize,
)
    requires
        n <= xs@.len(),
        n <= ys@.len(),
    ensures
        final(out)@ == old(out)@ + columns_frame::<A, B>(
            a,
            xs@.take(n as int),
            b,
            ys@.take(n as int),
        ),
{
    let ghost start = out@;
    proof {
        A::lemma_width();
        B::lemma_width();
    }
    let mut first: Vec<u8> = crate::runtime::movement::pack::<A>(
        vstd::slice::slice_subrange(xs.as_slice(), 0, n),
    );
    let mut second: Vec<u8> = crate::runtime::movement::pack::<B>(
        vstd::slice::slice_subrange(ys.as_slice(), 0, n),
    );
    let ghost p = first@;
    let ghost q = second@;
    let columns: Vec<ColumnDescriptor> = vec![
        ColumnDescriptor {
            component_id: ComponentId(a),
            element_size: A::element_size() as u32,
            count: n as u32,
            data_offset: 0,
        },
        ColumnDescriptor {
            component_id: ComponentId(b),
            element_size: B::element_size() as u32,
            count: n as u32,
            data_offset: first.len() as u32,
        },
    ];
    columns.put(out);
    out.append(&mut first);
    out.append(&mut second);
    assert(xs@.subrange(0, n as int) =~= xs@.take(n as int));
    assert(ys@.subrange(0, n as int) =~= ys@.take(n as int));
    let ghost ds = descriptors(
        a,
        (4 * A::width()) as u32,
        b,
        (4 * B::width()) as u32,
        n as nat,
        p.len(),
    );
    assert(columns.model() =~= ds);
    assert(out@ =~= start + (<Vec<ColumnDescriptor> as Wire>::enc(ds) + p + q));
}

/// The input frame of a movement tick: the player input, then the positions and
/// velocities of the live rows.
pub open spec fn move_frame(w: crate::ecs::world::WorldModel, input: PlayerInput) -> Seq<u8> {
    PlayerInput::enc(input) + columns_frame::<Position, Velocity>(
        comp::POSITION,
        w.positions.take(w.count as int),
        comp::VELOCITY,
        w.velocities.take(w.count as int),
    )
}

/// Builds the input frame of a movement tick. A frame over the size of the input
/// buffer is refused.
pub fn move_input(world: &World, input: &PlayerInput) -> (r: Result<Vec<u8>, HostError>)
    requires
        world.wf(),
    ensures
        match r {
            Ok(b) => b@ == move_frame(world@, *input) && b@.len() <= INPUT_CAP,
            Err(e) => e == HostError::InputTooLarge && move_frame(world@, *input).len()
                > INPUT_CAP,
        },
{
    proof {
        world.lemma_wf();
    }
    let n: usize = world.entity_count();
    let mut out: Vec<u8> = Vec::new();
    input.put(&mut out);
    if let (Some(ps), Some(vs)) = (world.get_positions(), world.get_velocities()) {
        put_columns::<Position, Velocity>(&mut out, comp::POSITION, &ps, comp::VELOCITY, &vs, n);
    }
    assert(out@ =~= move_frame(world@, *input));
    if out.len() > INPUT_CAP as usize {
        return Err(HostError::InputTooLarge);
    }
    Ok(out)
}

/// Parameters of the physics integrator.
#[derive(Clone, Copy, Debug)]
pub struct PhysicsParams {
    /// Gravity per tick.
    pub gravity: Fx16,
    /// Floor height, in whole units.
    pub floor: i32,
    /// Half-extents of the boxes (x, y, z).
    pub half: [Fx16; 3],
}

/// The five words in front of a physics frame.
pub open spec fn physics_header(p: PhysicsParams) -> Seq<u32> {
    seq![
        crate::fx::bits_word(p.gravity.bits),
        crate::fx::bits_word(p.floor),
        crate::fx::bits_word(p.half[0].bits),
        crate::fx::bits_word(p.half[1].bits),
        crate::fx::bits_word(p.half[2].bits),
    ]
}

/// The input frame of a physics tick: the parameters, then the transforms and 3D
/// velocities of the live rows.
pub open spec fn physics_frame(w: crate::ecs::world::WorldModel, p: PhysicsParams) -> Seq<u8> {
    crate::bytes::words_bytes(physics_header(p)) + columns_frame::<Transform, Velocity3D>(
        comp::TRANSFORM,
        w.transforms.take(w.count as int),
        comp::VELOCITY3D,
        w.velocity3d.take(w.count as int),
    )
}

/// Builds the input frame of a physics tick. A frame over the size of the input
/// buffer is refused.
pub fn physics_input(world: &World, p: &PhysicsParams) -> (r: Result<Vec<u8>, HostError>)
    requires
        world.wf(),
    ensures
        match r {
            Ok(b) => b@ == physics_frame(world@, *p) && b@.len() <= INPUT_CAP,
            Err(e) => e == HostError::InputTooLarge && physics_frame(world@, *p).len()
                > INPUT_CAP,
        },
{
    proof {
        world.lemma_wf();
    }
    let n: usize = world.entity_count();
    let mut out: Vec<u8> = Vec::new();
    crate::bytes::push_word(&mut out, crate::fx::to_word(p.gravity.bits));
    crate::bytes::push_word(&mut out, crate::fx::to_word(p.floor));
    crate::bytes::push_word(&mut out, crate::fx::to_word(p.half[0].bits));
    crate::bytes::push_word(&mut out, crate::fx::to_word(p.half[1].bits));
    crate::bytes::push_word(&mut out, crate::fx::to_word(p.half[2].bits));
    assert(out@ =~= crate::bytes::words_bytes(physics_header(*p)));
    if let (Some(ts), Some(vs)) = (world.get_transforms(), world.get_velocity_3d()) {
        put_columns::<Transform, Velocity3D>(
            &mut out,
            comp::TRANSFORM,
            &ts,
            comp::VELOCITY3D,
            &vs,
            n,
        );
    }
    assert(out@ =~= physics_frame(world@, *p));
    if out.len() > INPUT_CAP as usize {
        return Err(HostError::InputTooLarge);
    }
    Ok(out)
}

/// The number of bytes to read back from a guest that reported `out_len`: it must
/// have written something, and no more than the buffer holds.
pub fn output_len(out_len: u32) -> (r: Result<usize, HostError>)
    ensures
        match r {
            Ok(n) => n == out_len && 1 <= out_len <= OUTPUT_CAP,
            Err(e) => e == HostError::InvalidLength(out_len) && (out_len == 0 || out_len
                > OUTPUT_CAP),
        },
{
    if out_len == 0 || out_len > OUTPUT_CAP {
        return Err(HostError::InvalidLength(out_len));
    }
    Ok(out_len as usize)
}

/// The delta in a guest's output.
pub fn read_output(out: &[u8]) -> (r: Result<WorldDelta, HostError>)
    ensures
        match (r, WorldDelta::dec(out@)) {
            (Ok(d), Ok((m, n))) => d.model() == m,
            (Err(e), Err(f)) => e == HostError::Decode(f),
            _ => false,
        },
{
    match crate::contracts::delta::decode_delta(out) {
        Ok(d) => Ok(d),
        Err(e) => Err(HostError::Decode(e)),
    }
}

/// Chooses the guest module: the one named by the environment if it exists, else
/// the one shipped with the engine if that exists.
pub fn choose_module(
    named: Option<String>,
    named_exists: bool,
    shipped: String,
    shipped_exists: bool,
) -> (r: Option<String>)
    ensures
        r == if named is Some && named_exists {
            named
        } else if shipped_exists {
            Some(shipped)
        } else {
            None
        },
{
    if let Some(p) = named {
        if named_exists {
            return Some(p);
        }
    }
    if shipped_exists {
        return Some(shipped);
    }
    None
}

/// A guest that reads a movement frame from the start gets the player input and
/// the column descriptors that were written, and what follows them is the arena.
pub proof fn law_move_frame_reads_back(w: crate::ecs::world::WorldModel, input: PlayerInput)
    requires
        w.wf(),
    ensures
        ({
            let frame = move_frame(w, input);
            let n = PlayerInput::enc(input).len();
            let xs = crate::runtime::movement::packed(w.positions.take(w.count as int));
            let ys = crate::runtime::movement::packed(w.velocities.take(w.count as int));
            let ds = descriptors(comp::POSITION, 8, comp::VELOCITY, 8, w.count, xs.len());
            let k = <Vec<ColumnDescriptor> as Wire>::enc(ds).len();
            &&& PlayerInput::dec(frame) == Ok::<(PlayerInput, nat), WireError>((input, n))
            &&& <Vec<ColumnDescriptor> as Wire>::dec(frame.skip(n as int)) == Ok::<
                (Seq<ColumnDescriptor>, nat),
                WireError,
            >((ds, k))
            &&& frame.skip((n + k) as int) == xs + ys
        }),
{
    let frame = move_frame(w, input);
    let head = PlayerInput::enc(input);
    let xs = crate::runtime::movement::packed(w.positions.take(w.count as int));
    let ys = crate::runtime::movement::packed(w.velocities.take(w.count as int));
    let ds = descriptors(comp::POSITION, 8, comp::VELOCITY, 8, w.count, xs.len());
    let mid = <Vec<ColumnDescriptor> as Wire>::enc(ds);
    assert(frame =~= head + (mid + (xs + ys)));
    PlayerInput::lemma_roundtrip(input, mid + (xs + ys));
    <Vec<ColumnDescriptor> as Wire>::lemma_roundtrip(ds, xs + ys);
    assert(frame.skip(head.len() as int) =~= mid + (xs + ys));
    assert(frame.skip((head.len() + mid.len()) as int) =~= xs + ys);
}

/// A guest that reads a physics frame from the start gets the five words of the
/// parameters and the column descriptors that were written, and what follows them
/// is the arena.
pub proof fn law_physics_frame_reads_back(w: crate::ecs::world::WorldModel, p: PhysicsParams)
    requires
        w.wf(),
    ensures
        ({
            let frame = physics_frame(w, p);
            let xs = crate::runtime::movement::packed(w.transforms.take(w.count as int));
            let ys = crate::runtime::movement::packed(w.velocity3d.take(w.count as int));
            let ds = descriptors(comp::TRANSFORM, 40, comp::VELOCITY3D, 12, w.count, xs.len());
            let k = <Vec<ColumnDescriptor> as Wire>::enc(ds).len();
            &&& forall|i: int|
                0 <= i < 5 ==> #[trigger] crate::bytes::word_at(frame, i) == physics_header(p)[i]
            &&& <Vec<ColumnDescriptor> as Wire>::dec(frame.skip(20)) == Ok::<
                (Seq<ColumnDescriptor>, nat),
                WireError,
            >((ds, k))
            &&& frame.skip((20 + k) as int) == xs + ys
        }),
{
    let frame = physics_frame(w, p);
    let head = crate::bytes::words_bytes(physics_header(p));
    let xs = crate::runtime::movement::packed(w.transforms.take(w.count as int));
    let ys = crate::runtime::movement::packed(w.velocity3d.take(w.count as int));
    let ds = descriptors(comp::TRANSFORM, 40, comp::VELOCITY3D, 12, w.count, xs.len());
    let mid = <Vec<ColumnDescriptor> as Wire>::enc(ds);
    assert(frame =~= head + (mid + (xs + ys)));
    <Vec<ColumnDescriptor> as Wire>::lemma_roundtrip(ds, xs + ys);
    assert(frame.skip(20) =~= mid + (xs + ys));
    assert(frame.skip((20 + mid.len()) as int) =~= xs + ys);
    assert forall|i: int| 0 <= i < 5 implies #[trigger] crate::bytes::word_at(frame, i)
        == physics_header(p)[i] by {
        crate::bytes::lemma_word_at(physics_header(p), i);
        assert(crate::bytes::word_at(frame, i) == crate::bytes::word_at(head, i));
    }
}

/// A packed column has as many bytes as its rows take.
proof fn lemma_column_len<T: Component>(rows: Seq<T>, size: nat)
    requires
        4 * T::width() == size,
    ensures
        crate::runtime::movement::packed(rows).len() == size * rows.len(),
{
    crate::runtime::movement::law_pack_rows(rows);
    assert(rows.len() * (4 * T::width()) == size * rows.len()) by (nonlinear_arith)
        requires
            4 * T::width() == size,
    ;
}

proof fn lemma_arena<A: Component, B: Component>(
    px: Seq<u8>,
    py: Seq<u8>,
    xs: Seq<A>,
    ys: Seq<B>,
    i: int,
)
    requires
        px == crate::runtime::movement::packed(xs),
        py == crate::runtime::movement::packed(ys),
        0 <= i < xs.len(),
        0 <= i < ys.len(),
    ensures
        (px + py).len() == px.len() + py.len(),
        crate::ecs::storage::row::<A>((px + py).take(px.len() as int), i) == xs[i],
        crate::ecs::storage::row::<B>((px + py).skip(px.len() as int), i) == ys[i],
{
    crate::runtime::movement::law_pack_rows(xs);
    crate::runtime::movement::law_pack_rows(ys);
    assert((px + py).take(px.len() as int) =~= px);
    assert((px + py).skip(px.len() as int) =~= py);
    assert(crate::ecs::storage::row::<A>(px, i) == xs[i]);
    assert(crate::ecs::storage::row::<B>(py, i) == ys[i]);
}

/// Behind the player input, a movement frame describes two columns: the positions,
/// component 0, at the start of the arena, and the velocities, component 1, right
/// behind them; eight bytes for each of the live rows in both.
pub proof fn law_move_frame_columns(w: crate::ecs::world::WorldModel, input: PlayerInput)
    requires
        w.wf(),
        8 * w.count <= u32::MAX,
    ensures
        ({
            let frame = move_frame(w, input);
            let n = PlayerInput::enc(input).len() as int;
            let read = <Vec<ColumnDescriptor> as Wire>::dec(frame.skip(n));
            let ds = read->Ok_0.0;
            &&& read is Ok
            &&& ds.len() == 2
            &&& ds[0].component_id.0 == 0 && ds[0].element_size == 8
            &&& ds[0].count == w.count && ds[0].data_offset == 0
            &&& ds[1].component_id.0 == 1 && ds[1].element_size == 8
            &&& ds[1].count == w.count && ds[1].data_offset == 8 * w.count
        }),
{
    law_move_frame_reads_back(w, input);
    lemma_column_len::<Position>(w.positions.take(w.count as int), 8);
}

/// The arena of a movement frame holds the positions and the velocities of the live
/// rows, in order, and nothing else.
pub proof fn law_move_frame_rows(w: crate::ecs::world::WorldModel, input: PlayerInput, i: int)
    requires
        w.wf(),
        0 <= i < w.count,
    ensures
        ({
            let frame = move_frame(w, input);
            let n = PlayerInput::enc(input).len() as int;
            let read = <Vec<ColumnDescriptor> as Wire>::dec(frame.skip(n));
            let arena = frame.skip((n + read->Ok_0.1) as int);
            &&& arena.len() == 16 * w.count
            &&& crate::ecs::storage::row::<Position>(arena.take((8 * w.count) as int), i)
                == w.positions[i]
            &&& crate::ecs::storage::row::<Velocity>(arena.skip((8 * w.count) as int), i)
                == w.velocities[i]
        }),
{
    law_move_frame_reads_back(w, input);
    let xs = w.positions.take(w.count as int);
    let ys = w.velocities.take(w.count as int);
    lemma_column_len::<Position>(xs, 8);
    lemma_column_len::<Velocity>(ys, 8);
    let px = crate::runtime::movement::packed(xs);
    let py = crate::runtime::movement::packed(ys);
    lemma_arena::<Position, Velocity>(px, py, xs, ys, i);
}

/// Behind the parameters, a physics frame describes two columns: the transforms,
/// component 2, of forty bytes, at the start of the arena, and the 3D velocities,
/// component 80, of twelve, right behind them.
pub proof fn law_physics_frame_columns(w: crate::ecs::world::WorldModel, p: PhysicsParams)
    requires
        w.wf(),
        40 * w.count <= u32::MAX,
    ensures
        ({
            let frame = physics_frame(w, p);
            let n = 20int;
            let read = <Vec<ColumnDescriptor> as Wire>::dec(frame.skip(n));
            let ds = read->Ok_0.0;
            &&& read is Ok
            &&& ds.len() == 2
            &&& ds[0].component_id.0 == 2 && ds[0].element_size == 40
            &&& ds[0].count == w.count && ds[0].data_offset == 0
            &&& ds[1].component_id.0 == 80 && ds[1].element_size == 12
            &&& ds[1].count == w.count && ds[1].data_offset == 40 * w.count
        }),
{
    law_physics_frame_reads_back(w, p);
    lemma_column_len::<Transform>(w.transforms.take(w.count as int), 40);
}

/// What follows the descriptors of a physics frame is its arena.
proof fn lemma_physics_arena(w: crate::ecs::world::WorldModel, p: PhysicsParams)
    requires
        w.wf(),
    ensures
        ({
            let frame = physics_frame(w, p);
            let read = <Vec<ColumnDescriptor> as Wire>::dec(frame.skip(20));
            frame.skip((20 + read->Ok_0.1) as int) == crate::runtime::movement::packed(
                w.transforms.take(w.count as int),
            ) + crate::runtime::movement::packed(w.velocity3d.take(w.count as int))
        }),
{
    law_physics_frame_reads_back(w, p);
}

/// The arena of a physics frame holds the transforms and the 3D velocities of the
/// live rows, in order, and nothing else.
pub proof fn law_physics_frame_rows(w: crate::ecs::world::WorldModel, p: PhysicsParams, i: int)
    requires
        w.wf(),
        0 <= i < w.count,
    ensures
        ({
            let frame = physics_frame(w, p);
            let read = <Vec<ColumnDescriptor> as Wire>::dec(frame.skip(20));
            let arena = frame.skip((20 + read->Ok_0.1) as int);
            &&& arena.len() == 52 * w.count
            &&& crate::ecs::storage::row::<Transform>(arena.take((40 * w.count) as int), i)
                == w.transforms[i]
            &&& crate::ecs::storage::row::<Velocity3D>(arena.skip((40 * w.count) as int), i)
                == w.velocity3d[i]
        }),
{
    lemma_physics_arena(w, p);
    let xs = w.transforms.take(w.count as int);
    let ys = w.velocity3d.take(w.count as int);
    lemma_column_len::<Transform>(xs, 40);
    lemma_column_len::<Velocity3D>(ys, 12);
    let px = crate::runtime::movement::packed(xs);
    let py = crate::runtime::movement::packed(ys);
    lemma_arena::<Transform, Velocity3D>(px, py, xs, ys, i);
}

/// A physics frame starts with the gravity, the floor and the three half-extents,
/// four bytes each.
pub proof fn law_physics_frame_starts(w: crate::ecs::world::WorldModel, p: PhysicsParams)
    requires
        w.wf(),
    ensures
        ({
            let frame = physics_frame(w, p);
            let word = |k: int| crate::fx::word_bits(crate::bytes::word_at(frame, k));
            &&& word(0) == p.gravity.bits
            &&& word(1) == p.floor
            &&& word(2) == p.half[0].bits
            &&& word(3) == p.half[1].bits
            &&& word(4) == p.half[2].bits
        }),
{
    law_physics_frame_reads_back(w, p);
    let frame = physics_frame(w, p);
    let h = physics_header(p);
    crate::fx::law_twos_complement(p.gravity.bits, 0);
    crate::fx::law_twos_complement(p.floor, 0);
    crate::fx::law_twos_complement(p.half[0].bits, 0);
    crate::fx::law_twos_complement(p.half[1].bits, 0);
    crate::fx::law_twos_complement(p.half[2].bits, 0);
    assert(crate::bytes::word_at(frame, 0) == h[0]);
    assert(crate::bytes::word_at(frame, 1) == h[1]);
    assert(crate::bytes::word_at(frame, 2) == h[2]);
    assert(crate::bytes::word_at(frame, 3) == h[3]);
    assert(crate::bytes::word_at(frame, 4) == h[4]);
}

/// What is said of a failed tick: that the input was too large, the length that was
/// reported, or that the output is no delta.
pub proof fn law_host_error_text(what: Seq<char>, n: u32, e: WireError)
    ensures
        INPUT_CAP == 65536 && OUTPUT_CAP == 65536,
        host_error_text(what, HostError::InputTooLarge) == "input exceeds guest buffer"@,
        host_error_text(what, HostError::InvalidLength(n)) == "guest "@ + what
            + " tick returned invalid length ("@ + crate::text::decimal(n as nat) + ")"@,
        host_error_text(what, HostError::Decode(e)) == "decode WorldDelta"@,
{
}

/// A column descriptor is its component, the size of an element, their number and
/// where they start.
pub proof fn law_descriptor_layout(c: ColumnDescriptor)
    ensures
        ColumnDescriptor::enc(c) == crate::contracts::wire::varint(c.component_id.0 as nat)
            + crate::contracts::wire::varint(c.element_size as nat)
            + crate::contracts::wire::varint(c.count as nat) + crate::contracts::wire::varint(
            c.data_offset as nat,
        ),
{
    let a = crate::contracts::wire::varint(c.component_id.0 as nat);
    let b = crate::contracts::wire::varint(c.element_size as nat);
    let d = crate::contracts::wire::varint(c.count as nat);
    let e = crate::contracts::wire::varint(c.data_offset as nat);
    assert((a + b) + (d + e) =~= a + b + d + e);
}

} // verus!
