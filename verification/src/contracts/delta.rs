//! Handles, errors, the read side (column descriptors and state views) and the
//! write side (deltas) of the boundary between host and game logic.

use crate::contracts::wire::{Wire, WireError};
use vstd::prelude::*;

verus! {

/// A component type id.
#[derive(Clone, Copy, PartialEq, Eq, Structural, Hash, PartialOrd, Ord, Debug)]
pub struct ComponentId(pub u32);

/// The id of an archetype: a fixed tuple of component types that share one table.
#[derive(Clone, Copy, PartialEq, Eq, Structural, Hash, PartialOrd, Ord, Debug)]
pub struct ArchetypeId(pub u32);

/// An entity: a slot index, and a generation against stale handles.
#[derive(Clone, Copy, PartialEq, Eq, Structural, Hash, Debug)]
pub struct Entity {
    /// Identity token of the slot.
    pub generation: u32,
    /// Slot index in the archetype's table.
    pub index: u32,
}

impl Entity {
    /// The handle of no entity.
    pub fn invalid() -> (r: Entity)
        ensures
            r == (Entity { generation: 0, index: u32::MAX }),
    {
        Entity { generation: 0, index: u32::MAX }
    }
}

/// An error that game logic reports to the host.
#[derive(Clone, Debug)]
pub struct RecoverableError {
    /// Stable code, see [`crate::contracts::code`].
    pub code: u32,
    /// Optional detail.
    pub message: Option<String>,
}

/// What a [`RecoverableError`] means.
#[verifier::ext_equal]
pub struct ErrorModel {
    /// Stable code.
    pub code: u32,
    /// Optional detail.
    pub message: Option<Seq<char>>,
}

/// The text of an error: a title, the code in hexadecimal, and the detail.
pub open spec fn error_text(title: Seq<char>, code: u32, message: Option<Seq<char>>) -> Seq<char> {
    let head = title + crate::text::zero_padded(crate::text::numeral(code as nat, 16), 4);
    match message {
        Some(m) => head + ": "@ + m,
        None => head,
    }
}

fn error_string(title: &str, code: u32, message: &Option<String>) -> (r: String)
    ensures
        r@ == error_text(
            title@,
            code,
            match *message {
                Some(m) => Some(m@),
                None => None,
            },
        ),
{
    let hex = crate::text::hex_text(code as u64, 4);
    let mut s = crate::text::joined(title, hex.as_str());
    match message {
        Some(m) => {
            s.append(": ");
            s.append(m.as_str());
        },
        None => {},
    }
    s
}

impl RecoverableError {
    /// An error without detail.
    pub fn numeric(code: u32) -> (r: Self)
        ensures
            r.model() == (ErrorModel { code, message: None }),
    {
        RecoverableError { code, message: None }
    }

    /// An error with a detail.
    pub fn detailed(code: u32, message: String) -> (r: Self)
        ensures
            r.model() == (ErrorModel { code, message: Some(message@) }),
    {
        RecoverableError { code, message: Some(message) }
    }

    /// The text shown to people.
    pub fn to_text(&self) -> (r: String)
        ensures
            r@ == error_text("OpenEngine ABI error 0x"@, self.model().code, self.model().message),
    {
        error_string("OpenEngine ABI error 0x", self.code, &self.message)
    }
}

/// An error after which the engine must not go on as if nothing had happened.
#[derive(Clone, Debug)]
pub struct FatalError {
    /// Stable code, see [`crate::contracts::code`].
    pub code: u32,
    /// Optional detail.
    pub message: Option<String>,
}

impl FatalError {
    /// What the error means.
    pub open spec fn model(&self) -> ErrorModel {
        ErrorModel { code: self.code, message: self.message.model() }
    }

    /// An error without detail.
    pub fn numeric(code: u32) -> (r: Self)
        ensures
            r.model() == (ErrorModel { code, message: None }),
    {
        FatalError { code, message: None }
    }

    /// An error with a detail.
    pub fn detailed(code: u32, message: String) -> (r: Self)
        ensures
            r.model() == (ErrorModel { code, message: Some(message@) }),
    {
        FatalError { code, message: Some(message) }
    }

    /// The text shown to people.
    pub fn to_text(&self) -> (r: String)
        ensures
            r@ == error_text("OpenEngine fatal 0x"@, self.model().code, self.model().message),
    {
        error_string("OpenEngine fatal 0x", self.code, &self.message)
    }
}

/// One column of an archetype's table, as game logic sees it.
#[derive(Clone, Copy, PartialEq, Eq, Structural, Debug)]
pub struct ColumnDescriptor {
    /// Component type of the column.
    pub component_id: ComponentId,
    /// Size of one element in bytes.
    pub element_size: u32,
    /// Number of live elements.
    pub count: u32,
    /// Offset of the first element in the arena.
    pub data_offset: u32,
}

impl ColumnDescriptor {
    /// Offset of the first byte behind the column.
    pub open spec fn end(&self) -> int {
        self.data_offset + self.element_size * self.count
    }

    /// The bytes of this column in an arena that holds it.
    pub fn bytes<'a>(&self, arena: &'a [u8]) -> (r: &'a [u8])
        requires
            self.end() <= arena@.len(),
        ensures
            r@ == arena@.subrange(self.data_offset as int, self.end()),
    {
        assert(arena.len() == arena@.len());
        assert(0 <= self.element_size * self.count) by (nonlinear_arith);
        let start: usize = self.data_offset as usize;
        let len: usize = self.element_size as usize * self.count as usize;
        vstd::slice::slice_subrange(arena, start, start + len)
    }
}

/// A read-only snapshot of the world, handed to a pure system.
#[derive(Clone, Copy, Debug)]
pub struct StateView<'arena> {
    /// Frame counter.
    pub tick: u64,
    /// The columns in view.
    pub columns: &'arena [ColumnDescriptor],
    /// The bytes behind the columns.
    pub arena: &'arena [u8],
    /// Read budget of the call.
    pub byte_budget: usize,
}

/// The first descriptor of `component`, if there is one.
pub open spec fn first_column(cs: Seq<ColumnDescriptor>, component: ComponentId) -> Option<
    ColumnDescriptor,
>
    decreases cs.len(),
{
    if cs.len() == 0 {
        None
    } else if cs[0].component_id == component {
        Some(cs[0])
    } else {
        first_column(cs.skip(1), component)
    }
}

impl<'arena> StateView<'arena> {
    /// A view that holds a tick and nothing else.
    pub fn tick_only(tick: u64) -> (r: Self)
        ensures
            r.tick == tick,
            r.columns@.len() == 0,
            r.arena@.len() == 0,
            r.byte_budget == 0,
    {
        StateView { tick, columns: &[], arena: &[], byte_budget: 0 }
    }

    /// The descriptor of a component, if it is in view.
    pub fn column(&self, component: ComponentId) -> (r: Option<ColumnDescriptor>)
        ensures
            r == first_column(self.columns@, component),
    {
        let mut i: usize = 0;
        assert(self.columns@.skip(0) =~= self.columns@);
        while i < self.columns.len()
            invariant
                i <= self.columns@.len(),
                first_column(self.columns@, component) == first_column(
                    self.columns@.skip(i as int),
                    component,
                ),
            decreases self.columns@.len() - i,
        {
            let c: ColumnDescriptor = self.columns[i];
            if c.component_id.0 == component.0 {
                return Some(c);
            }
            assert(self.columns@.skip(i as int).skip(1) =~= self.columns@.skip(i + 1));
            i = i + 1;
        }
        None
    }
}

/// One batched write to a column: for each index, one element of the payload.
#[derive(Clone, Debug)]
pub struct ColumnWrite {
    /// Archetype of the column.
    pub archetype: ArchetypeId,
    /// Component type of the column.
    pub component: ComponentId,
    /// Slots to write.
    pub indices: Vec<u32>,
    /// Packed elements, in the order of the slots.
    pub payload: Vec<u8>,
}

/// What a [`ColumnWrite`] means.
#[verifier::ext_equal]
pub struct WriteModel {
    /// Archetype of the column.
    pub archetype: ArchetypeId,
    /// Component type of the column.
    pub component: ComponentId,
    /// Slots to write.
    pub indices: Seq<u32>,
    /// Packed elements.
    pub payload: Seq<u8>,
}

/// Brings a new entity into an archetype.
#[derive(Clone, Debug)]
pub struct SpawnCommand {
    /// Destination.
    pub archetype: ArchetypeId,
    /// Wanted handle, or `None` to let the host choose.
    pub preferred: Option<Entity>,
    /// Initial values, in column order.
    pub initial: Vec<ColumnWrite>,
}

/// What a [`SpawnCommand`] means.
#[verifier::ext_equal]
pub struct SpawnModel {
    /// Destination.
    pub archetype: ArchetypeId,
    /// Wanted handle.
    pub preferred: Option<Entity>,
    /// Initial values.
    pub initial: Seq<WriteModel>,
}

/// What a render request refers to.
#[derive(Clone, Copy, PartialEq, Eq, Structural, Debug)]
pub enum RenderKind {
    /// A static mesh.
    Mesh,
    /// Text.
    Text,
    /// A debug gizmo.
    Gizmo,
}

/// A command with effects outside the world.
#[derive(Clone, Debug)]
pub enum DeferredCommand {
    /// Draw an entity this frame.
    Render { entity: Entity, kind: RenderKind },
    /// An engine event.
    Emit { topic: u32, data: Vec<u8> },
    /// Clear the frame to a color, given as the bit patterns of four 32-bit
    /// floating-point channels.
    ClearColor { rgba: [u32; 4] },
}

/// What a [`DeferredCommand`] means.
#[verifier::ext_equal]
pub enum DeferredModel {
    /// Draw an entity this frame.
    Render { entity: Entity, kind: RenderKind },
    /// An engine event.
    Emit { topic: u32, data: Seq<u8> },
    /// Clear the frame to a color.
    ClearColor { rgba: [u32; 4] },
}

/// Everything a pure system wants changed. The only way to change a world.
#[derive(Clone, Debug)]
pub struct WorldDelta {
    /// Entities to create.
    pub spawns: Vec<SpawnCommand>,
    /// Entities to destroy.
    pub despawns: Vec<Entity>,
    /// Column writes.
    pub writes: Vec<ColumnWrite>,
    /// Commands with outside effects.
    pub deferred: Vec<DeferredCommand>,
    /// Diagnostics.
    pub warnings: Vec<RecoverableError>,
}

/// What a [`WorldDelta`] means.
#[verifier::ext_equal]
pub struct DeltaModel {
    /// Entities to create.
    pub spawns: Seq<SpawnModel>,
    /// Entities to destroy.
    pub despawns: Seq<Entity>,
    /// Column writes.
    pub writes: Seq<WriteModel>,
    /// Commands with outside effects.
    pub deferred: Seq<DeferredModel>,
    /// Diagnostics.
    pub warnings: Seq<ErrorModel>,
}

/// The color of the first clear command.
pub open spec fn first_clear(cs: Seq<DeferredModel>) -> Option<[u32; 4]>
    decreases cs.len(),
{
    if cs.len() == 0 {
        None
    } else {
        match cs[0] {
            DeferredModel::ClearColor { rgba } => Some(rgba),
            _ => first_clear(cs.skip(1)),
        }
    }
}

impl Default for WorldDelta {
    /// A delta that changes nothing.
    fn default() -> (r: Self)
        ensures
            r.model() == (DeltaModel {
                spawns: seq![],
                despawns: seq![],
                writes: seq![],
                deferred: seq![],
                warnings: seq![],
            }),
    {
        let r = WorldDelta {
            spawns: Vec::new(),
            despawns: Vec::new(),
            writes: Vec::new(),
            deferred: Vec::new(),
            warnings: Vec::new(),
        };
        assert(r.model() =~= (DeltaModel {
            spawns: seq![],
            despawns: seq![],
            writes: seq![],
            deferred: seq![],
            warnings: seq![],
        }));
        r
    }
}

impl WorldDelta {
    /// The color of the first clear command of this delta, if it has one.
    pub fn clear_color(&self) -> (r: Option<[u32; 4]>)
        ensures
            r == first_clear(self.model().deferred),
    {
        let ghost ms = self.model().deferred;
        assert(ms.skip(0) =~= ms);
        let mut i: usize = 0;
        while i < self.deferred.len()
            invariant
                i <= self.deferred@.len(),
                ms == crate::contracts::wire::models(self.deferred@),
                first_clear(ms) == first_clear(ms.skip(i as int)),
            decreases self.deferred@.len() - i,
        {
            assert(ms.skip(i as int)[0] == self.deferred@[i as int].model());
            match &self.deferred[i] {
                DeferredCommand::ClearColor { rgba } => {
                    return Some(*rgba);
                },
                _ => {},
            }
            assert(ms.skip(i as int).skip(1) =~= ms.skip(i + 1));
            i = i + 1;
        }
        None
    }
}

// The wire forms.

impl Wire for ComponentId {
    type M = ComponentId;

    open spec fn model(&self) -> ComponentId {
        *self
    }

    open spec fn sized(m: ComponentId) -> bool {
        true
    }

    open spec fn enc(m: ComponentId) -> Seq<u8> {
        <u32 as Wire>::enc(m.0)
    }

    open spec fn dec(b: Seq<u8>) -> Result<(ComponentId, nat), WireError> {
        match <u32 as Wire>::dec(b) {
            Ok((v, n)) => Ok((ComponentId(v), n)),
            Err(e) => Err(e),
        }
    }

    proof fn lemma_dec_len(b: Seq<u8>) {
        <u32 as Wire>::lemma_dec_len(b);
    }

    proof fn lemma_roundtrip(m: ComponentId, rest: Seq<u8>) {
        <u32 as Wire>::lemma_roundtrip(m.0, rest);
    }

    fn put(&self, out: &mut Vec<u8>) {
        self.0.put(out);
    }

    fn take(b: &[u8], at: usize) -> (r: Result<(Self, usize), WireError>) {
        match u32::take(b, at) {
            Ok((v, next)) => Ok((ComponentId(v), next)),
            Err(e) => Err(e),
        }
    }
}

impl Wire for ArchetypeId {
    type M = ArchetypeId;

    open spec fn model(&self) -> ArchetypeId {
        *self
    }

    open spec fn sized(m: ArchetypeId) -> bool {
        true
    }

    open spec fn enc(m: ArchetypeId) -> Seq<u8> {
        <u32 as Wire>::enc(m.0)
    }

    open spec fn dec(b: Seq<u8>) -> Result<(ArchetypeId, nat), WireError> {
        match <u32 as Wire>::dec(b) {
            Ok((v, n)) => Ok((ArchetypeId(v), n)),
            Err(e) => Err(e),
        }
    }

    proof fn lemma_dec_len(b: Seq<u8>) {
        <u32 as Wire>::lemma_dec_len(b);
    }

    proof fn lemma_roundtrip(m: ArchetypeId, rest: Seq<u8>) {
        <u32 as Wire>::lemma_roundtrip(m.0, rest);
    }

    fn put(&self, out: &mut Vec<u8>) {
        self.0.put(out);
    }

    fn take(b: &[u8], at: usize) -> (r: Result<(Self, usize), WireError>) {
        match u32::take(b, at) {
            Ok((v, next)) => Ok((ArchetypeId(v), next)),
            Err(e) => Err(e),
        }
    }
}

impl Wire for Entity {
    type M = Entity;

    open spec fn model(&self) -> Entity {
        *self
    }

    open spec fn sized(m: Entity) -> bool {
        true
    }

    open spec fn enc(m: Entity) -> Seq<u8> {
        <(u32, u32) as Wire>::enc((m.generation, m.index))
    }

    open spec fn dec(b: Seq<u8>) -> Result<(Entity, nat), WireError> {
        match <(u32, u32) as Wire>::dec(b) {
            Ok((v, n)) => Ok((Entity { generation: v.0, index: v.1 }, n)),
            Err(e) => Err(e),
        }
    }

    proof fn lemma_dec_len(b: Seq<u8>) {
        <(u32, u32) as Wire>::lemma_dec_len(b);
    }

    proof fn lemma_roundtrip(m: Entity, rest: Seq<u8>) {
        <(u32, u32) as Wire>::lemma_roundtrip((m.generation, m.index), rest);
    }

    fn put(&self, out: &mut Vec<u8>) {
        (self.generation, self.index).put(out);
    }

    fn take(b: &[u8], at: usize) -> (r: Result<(Self, usize), WireError>) {
        match <(u32, u32)>::take(b, at) {
            Ok((v, next)) => Ok((Entity { generation: v.0, index: v.1 }, next)),
            Err(e) => Err(e),
        }
    }
}

impl Wire for RenderKind {
    type M = RenderKind;

    open spec fn model(&self) -> RenderKind {
        *self
    }

    open spec fn sized(m: RenderKind) -> bool {
        true
    }

    open spec fn enc(m: RenderKind) -> Seq<u8> {
        <u32 as Wire>::enc(
            match m {
                RenderKind::Mesh => 0u32,
                RenderKind::Text => 1u32,
                RenderKind::Gizmo => 2u32,
            },
        )
    }

    open spec fn dec(b: Seq<u8>) -> Result<(RenderKind, nat), WireError> {
        match <u32 as Wire>::dec(b) {
            Ok((v, n)) => if v == 0 {
                Ok((RenderKind::Mesh, n))
            } else if v == 1 {
                Ok((RenderKind::Text, n))
            } else if v == 2 {
                Ok((RenderKind::Gizmo, n))
            } else {
                Err(WireError::BadVariant)
            },
            Err(e) => Err(e),
        }
    }

    proof fn lemma_dec_len(b: Seq<u8>) {
        <u32 as Wire>::lemma_dec_len(b);
    }

    proof fn lemma_roundtrip(m: RenderKind, rest: Seq<u8>) {
        <u32 as Wire>::lemma_roundtrip(0, rest);
        <u32 as Wire>::lemma_roundtrip(1, rest);
        <u32 as Wire>::lemma_roundtrip(2, rest);
    }

    fn put(&self, out: &mut Vec<u8>) {
        let number: u32 = match self {
            RenderKind::Mesh => 0,
            RenderKind::Text => 1,
            RenderKind::Gizmo => 2,
        };
        number.put(out);
    }

    fn take(b: &[u8], at: usize) -> (r: Result<(Self, usize), WireError>) {
        match u32::take(b, at) {
            Ok((v, next)) => {
                if v == 0 {
                    Ok((RenderKind::Mesh, next))
                } else if v == 1 {
                    Ok((RenderKind::Text, next))
                } else if v == 2 {
                    Ok((RenderKind::Gizmo, next))
                } else {
                    Err(WireError::BadVariant)
                }
            },
            Err(e) => Err(e),
        }
    }
}

impl Wire for RecoverableError {
    type M = ErrorModel;

    open spec fn model(&self) -> ErrorModel {
        ErrorModel { code: self.code, message: self.message.model() }
    }

    open spec fn sized(m: ErrorModel) -> bool {
        <(u32, Option<String>) as Wire>::sized((m.code, m.message))
    }

    open spec fn enc(m: ErrorModel) -> Seq<u8> {
        <(u32, Option<String>) as Wire>::enc((m.code, m.message))
    }

    open spec fn dec(b: Seq<u8>) -> Result<(ErrorModel, nat), WireError> {
        match <(u32, Option<String>) as Wire>::dec(b) {
            Ok((v, n)) => Ok((ErrorModel { code: v.0, message: v.1 }, n)),
            Err(e) => Err(e),
        }
    }

    proof fn lemma_dec_len(b: Seq<u8>) {
        <(u32, Option<String>) as Wire>::lemma_dec_len(b);
    }

    proof fn lemma_roundtrip(m: ErrorModel, rest: Seq<u8>) {
        <(u32, Option<String>) as Wire>::lemma_roundtrip((m.code, m.message), rest);
    }

    fn put(&self, out: &mut Vec<u8>) {
        let ghost start = out@;
        self.code.put(out);
        self.message.put(out);
        assert(out@ =~= start + Self::enc(self.model()));
    }

    fn take(b: &[u8], at: usize) -> (r: Result<(Self, usize), WireError>) {
        match <(u32, Option<String>)>::take(b, at) {
            Ok((v, next)) => Ok((RecoverableError { code: v.0, message: v.1 }, next)),
            Err(e) => Err(e),
        }
    }
}

/// The fields of a column write, in order.
pub type WriteFields = ((ArchetypeId, ComponentId), (Vec<u32>, Vec<u8>));

impl Wire for ColumnWrite {
    type M = WriteModel;

    open spec fn model(&self) -> WriteModel {
        WriteModel {
            archetype: self.archetype,
            component: self.component,
            indices: self.indices@,
            payload: self.payload@,
        }
    }

    open spec fn sized(m: WriteModel) -> bool {
        m.indices.len() <= usize::MAX && m.payload.len() <= usize::MAX
    }

    open spec fn enc(m: WriteModel) -> Seq<u8> {
        <WriteFields as Wire>::enc(((m.archetype, m.component), (m.indices, m.payload)))
    }

    open spec fn dec(b: Seq<u8>) -> Result<(WriteModel, nat), WireError> {
        match <WriteFields as Wire>::dec(b) {
            Ok((v, n)) => Ok(
                (
                    WriteModel {
                        archetype: v.0.0,
                        component: v.0.1,
                        indices: v.1.0,
                        payload: v.1.1,
                    },
                    n,
                ),
            ),
            Err(e) => Err(e),
        }
    }

    proof fn lemma_dec_len(b: Seq<u8>) {
        <WriteFields as Wire>::lemma_dec_len(b);
    }

    proof fn lemma_roundtrip(m: WriteModel, rest: Seq<u8>) {
        <WriteFields as Wire>::lemma_roundtrip(
            ((m.archetype, m.component), (m.indices, m.payload)),
            rest,
        );
    }

    fn put(&self, out: &mut Vec<u8>) {
        let ghost start = out@;
        self.archetype.put(out);
        self.component.put(out);
        self.indices.put(out);
        self.payload.put(out);
        assert(self.indices.model() =~= self.indices@);
        assert(self.payload.model() =~= self.payload@);
        assert(out@ =~= start + Self::enc(self.model()));
    }

    fn take(b: &[u8], at: usize) -> (r: Result<(Self, usize), WireError>) {
        match <WriteFields as Wire>::take(b, at) {
            Ok((v, next)) => {
                let ((archetype, component), (indices, payload)) = v;
                assert(indices.model() =~= indices@);
                assert(payload.model() =~= payload@);
                Ok((ColumnWrite { archetype, component, indices, payload }, next))
            },
            Err(e) => Err(e),
        }
    }
}

/// The fields of a spawn command, in order.
pub type SpawnFields = ((ArchetypeId, Option<Entity>), Vec<ColumnWrite>);

impl Wire for SpawnCommand {
    type M = SpawnModel;

    open spec fn model(&self) -> SpawnModel {
        SpawnModel {
            archetype: self.archetype,
            preferred: self.preferred,
            initial: self.initial.model(),
        }
    }

    open spec fn sized(m: SpawnModel) -> bool {
        <Vec<ColumnWrite> as Wire>::sized(m.initial)
    }

    open spec fn enc(m: SpawnModel) -> Seq<u8> {
        <SpawnFields as Wire>::enc(((m.archetype, m.preferred), m.initial))
    }

    open spec fn dec(b: Seq<u8>) -> Result<(SpawnModel, nat), WireError> {
        match <SpawnFields as Wire>::dec(b) {
            Ok((v, n)) => Ok(
                (SpawnModel { archetype: v.0.0, preferred: v.0.1, initial: v.1 }, n),
            ),
            Err(e) => Err(e),
        }
    }

    proof fn lemma_dec_len(b: Seq<u8>) {
        <SpawnFields as Wire>::lemma_dec_len(b);
    }

    proof fn lemma_roundtrip(m: SpawnModel, rest: Seq<u8>) {
        <SpawnFields as Wire>::lemma_roundtrip(((m.archetype, m.preferred), m.initial), rest);
    }

    fn put(&self, out: &mut Vec<u8>) {
        let ghost start = out@;
        self.archetype.put(out);
        self.preferred.put(out);
        self.initial.put(out);
        assert(self.preferred.model() == self.preferred);
        assert(out@ =~= start + Self::enc(self.model()));
    }

    fn take(b: &[u8], at: usize) -> (r: Result<(Self, usize), WireError>) {
        match <SpawnFields as Wire>::take(b, at) {
            Ok((v, next)) => {
                let ((archetype, preferred), initial) = v;
                assert(preferred.model() == preferred);
                Ok((SpawnCommand { archetype, preferred, initial }, next))
            },
            Err(e) => Err(e),
        }
    }
}

/// The raw bytes of four 32-bit channels.
pub open spec fn rgba_bytes(c: [u32; 4]) -> Seq<u8> {
    crate::bytes::words_bytes(c@)
}

impl Wire for DeferredCommand {
    type M = DeferredModel;

    open spec fn model(&self) -> DeferredModel {
        match *self {
            DeferredCommand::Render { entity, kind } => DeferredModel::Render { entity, kind },
            DeferredCommand::Emit { topic, data } => DeferredModel::Emit { topic, data: data@ },
            DeferredCommand::ClearColor { rgba } => DeferredModel::ClearColor { rgba },
        }
    }

    open spec fn sized(m: DeferredModel) -> bool {
        m matches DeferredModel::Emit { data, .. } ==> data.len() <= usize::MAX
    }

    open spec fn enc(m: DeferredModel) -> Seq<u8> {
        match m {
            DeferredModel::Render { entity, kind } => <u32 as Wire>::enc(0) + <(
                Entity,
                RenderKind,
            ) as Wire>::enc((entity, kind)),
            DeferredModel::Emit { topic, data } => <u32 as Wire>::enc(1) + <(
                u32,
                Vec<u8>,
            ) as Wire>::enc((topic, data)),
            DeferredModel::ClearColor { rgba } => <u32 as Wire>::enc(2) + rgba_bytes(rgba),
        }
    }

    open spec fn dec(b: Seq<u8>) -> Result<(DeferredModel, nat), WireError> {
        match <u32 as Wire>::dec(b) {
            Err(e) => Err(e),
            Ok((v, n)) => {
                let c = b.skip(n as int);
                if v == 0 {
                    match <(Entity, RenderKind) as Wire>::dec(c) {
                        Ok((f, k)) => Ok((DeferredModel::Render { entity: f.0, kind: f.1 }, n + k)),
                        Err(e) => Err(e),
                    }
                } else if v == 1 {
                    match <(u32, Vec<u8>) as Wire>::dec(c) {
                        Ok((f, k)) => Ok((DeferredModel::Emit { topic: f.0, data: f.1 }, n + k)),
                        Err(e) => Err(e),
                    }
                } else if v == 2 {
                    if c.len() < 16 {
                        Err(WireError::UnexpectedEnd)
                    } else {
                        Ok(
                            (
                                DeferredModel::ClearColor {
                                    rgba: [
                                        crate::bytes::word_at(c, 0),
                                        crate::bytes::word_at(c, 1),
                                        crate::bytes::word_at(c, 2),
                                        crate::bytes::word_at(c, 3),
                                    ],
                                },
                                n + 16,
                            ),
                        )
                    }
                } else {
                    Err(WireError::BadVariant)
                }
            },
        }
    }

    proof fn lemma_dec_len(b: Seq<u8>) {
        <u32 as Wire>::lemma_dec_len(b);
        if let Ok((v, n)) = <u32 as Wire>::dec(b) {
            <(Entity, RenderKind) as Wire>::lemma_dec_len(b.skip(n as int));
            <(u32, Vec<u8>) as Wire>::lemma_dec_len(b.skip(n as int));
        }
    }

    proof fn lemma_roundtrip(m: DeferredModel, rest: Seq<u8>) {
        let b = Self::enc(m) + rest;
        match m {
            DeferredModel::Render { entity, kind } => {
                let f = <(Entity, RenderKind) as Wire>::enc((entity, kind));
                <u32 as Wire>::lemma_roundtrip(0, f + rest);
                <(Entity, RenderKind) as Wire>::lemma_roundtrip((entity, kind), rest);
                assert(b =~= <u32 as Wire>::enc(0) + (f + rest));
                assert(b.skip(<u32 as Wire>::enc(0).len() as int) =~= f + rest);
            },
            DeferredModel::Emit { topic, data } => {
                let f = <(u32, Vec<u8>) as Wire>::enc((topic, data));
                <u32 as Wire>::lemma_roundtrip(1, f + rest);
                <(u32, Vec<u8>) as Wire>::lemma_roundtrip((topic, data), rest);
                assert(b =~= <u32 as Wire>::enc(1) + (f + rest));
                assert(b.skip(<u32 as Wire>::enc(1).len() as int) =~= f + rest);
            },
            DeferredModel::ClearColor { rgba } => {
                let f = rgba_bytes(rgba);
                <u32 as Wire>::lemma_roundtrip(2, f + rest);
                assert(b =~= <u32 as Wire>::enc(2) + (f + rest));
                let c = b.skip(<u32 as Wire>::enc(2).len() as int);
                assert(c =~= f + rest);
                crate::bytes::lemma_word_at(rgba@, 0);
                crate::bytes::lemma_word_at(rgba@, 1);
                crate::bytes::lemma_word_at(rgba@, 2);
                crate::bytes::lemma_word_at(rgba@, 3);
                let back = [
                    crate::bytes::word_at(c, 0),
                    crate::bytes::word_at(c, 1),
                    crate::bytes::word_at(c, 2),
                    crate::bytes::word_at(c, 3),
                ];
                assert(back =~= rgba);
            },
        }
    }

    fn put(&self, out: &mut Vec<u8>) {
        let ghost start = out@;
        match self {
            DeferredCommand::Render { entity, kind } => {
                0u32.put(out);
                entity.put(out);
                kind.put(out);
            },
            DeferredCommand::Emit { topic, data } => {
                1u32.put(out);
                topic.put(out);
                data.put(out);
                assert(data.model() =~= data@);
            },
            DeferredCommand::ClearColor { rgba } => {
                2u32.put(out);
                let ghost mid = out@;
                crate::bytes::push_word(out, rgba[0]);
                crate::bytes::push_word(out, rgba[1]);
                crate::bytes::push_word(out, rgba[2]);
                crate::bytes::push_word(out, rgba[3]);
                assert(out@ =~= mid + rgba_bytes(*rgba));
            },
        }
        assert(out@ =~= start + Self::enc(self.model()));
    }

    fn take(b: &[u8], at: usize) -> (r: Result<(Self, usize), WireError>) {
        match u32::take(b, at) {
            Err(e) => Err(e),
            Ok((v, mid)) => {
                let ghost c = b@.skip(mid as int);
                assert(b@.skip(at as int).skip(mid - at) =~= c);
                if v == 0 {
                    match <(Entity, RenderKind)>::take(b, mid) {
                        Ok((f, next)) => Ok(
                            (DeferredCommand::Render { entity: f.0, kind: f.1 }, next),
                        ),
                        Err(e) => Err(e),
                    }
                } else if v == 1 {
                    match <(u32, Vec<u8>)>::take(b, mid) {
                        Ok((f, next)) => {
                            assert(f.1.model() =~= f.1@);
                            Ok((DeferredCommand::Emit { topic: f.0, data: f.1 }, next))
                        },
                        Err(e) => Err(e),
                    }
                } else if v == 2 {
                    if b.len() - mid < 16 {
                        return Err(WireError::UnexpectedEnd);
                    }
                    let rgba: [u32; 4] = [
                        crate::bytes::read_word(b, mid),
                        crate::bytes::read_word(b, mid + 4),
                        crate::bytes::read_word(b, mid + 8),
                        crate::bytes::read_word(b, mid + 12),
                    ];
                    assert(rgba =~= [
                        crate::bytes::word_at(c, 0),
                        crate::bytes::word_at(c, 1),
                        crate::bytes::word_at(c, 2),
                        crate::bytes::word_at(c, 3),
                    ]);
                    Ok((DeferredCommand::ClearColor { rgba }, mid + 16))
                } else {
                    Err(WireError::BadVariant)
                }
            },
        }
    }
}

/// The fields of a delta, in order.
pub type DeltaFields = (
    (Vec<SpawnCommand>, Vec<Entity>),
    (Vec<ColumnWrite>, (Vec<DeferredCommand>, Vec<RecoverableError>)),
);

impl Wire for WorldDelta {
    type M = DeltaModel;

    open spec fn model(&self) -> DeltaModel {
        DeltaModel {
            spawns: self.spawns.model(),
            despawns: self.despawns.model(),
            writes: self.writes.model(),
            deferred: self.deferred.model(),
            warnings: self.warnings.model(),
        }
    }

    open spec fn sized(m: DeltaModel) -> bool {
        <DeltaFields as Wire>::sized(
            ((m.spawns, m.despawns), (m.writes, (m.deferred, m.warnings))),
        )
    }

    open spec fn enc(m: DeltaModel) -> Seq<u8> {
        <DeltaFields as Wire>::enc(((m.spawns, m.despawns), (m.writes, (m.deferred, m.warnings))))
    }

    open spec fn dec(b: Seq<u8>) -> Result<(DeltaModel, nat), WireError> {
        match <DeltaFields as Wire>::dec(b) {
            Ok((v, n)) => Ok(
                (
                    DeltaModel {
                        spawns: v.0.0,
                        despawns: v.0.1,
                        writes: v.1.0,
                        deferred: v.1.1.0,
                        warnings: v.1.1.1,
                    },
                    n,
                ),
            ),
            Err(e) => Err(e),
        }
    }

    proof fn lemma_dec_len(b: Seq<u8>) {
        <DeltaFields as Wire>::lemma_dec_len(b);
    }

    proof fn lemma_roundtrip(m: DeltaModel, rest: Seq<u8>) {
        <DeltaFields as Wire>::lemma_roundtrip(
            ((m.spawns, m.despawns), (m.writes, (m.deferred, m.warnings))),
            rest,
        );
    }

    fn put(&self, out: &mut Vec<u8>) {
        let ghost start = out@;
        self.spawns.put(out);
        self.despawns.put(out);
        self.writes.put(out);
        self.deferred.put(out);
        self.warnings.put(out);
        assert(out@ =~= start + Self::enc(self.model()));
    }

    fn take(b: &[u8], at: usize) -> (r: Result<(Self, usize), WireError>) {
        match <DeltaFields as Wire>::take(b, at) {
            Ok((v, next)) => {
                let ((spawns, despawns), (writes, (deferred, warnings))) = v;
                Ok((WorldDelta { spawns, despawns, writes, deferred, warnings }, next))
            },
            Err(e) => Err(e),
        }
    }
}

/// The bytes of a delta. Writing never fails.
pub fn encode_delta(delta: &WorldDelta) -> (r: Result<Vec<u8>, WireError>)
    ensures
        r is Ok,
        r->Ok_0@ == WorldDelta::enc(delta.model()),
{
    let mut out: Vec<u8> = Vec::new();
    delta.put(&mut out);
    assert(out@ =~= WorldDelta::enc(delta.model()));
    Ok(out)
}

/// The delta that the bytes start with. What follows it is ignored.
pub fn decode_delta(bytes: &[u8]) -> (r: Result<WorldDelta, WireError>)
    ensures
        match (r, WorldDelta::dec(bytes@)) {
            (Ok(d), Ok((m, n))) => d.model() == m,
            (Err(e), Err(f)) => e == f,
            _ => false,
        },
{
    assert(bytes@.skip(0) =~= bytes@);
    match WorldDelta::take(bytes, 0) {
        Ok((d, next)) => Ok(d),
        Err(e) => Err(e),
    }
}

/// A delta is read back from what was written for it, whatever bytes follow.
/// Lengths must fit in a machine word, as those of every delta in memory do.
pub proof fn law_delta_roundtrip(m: DeltaModel, rest: Seq<u8>)
    requires
        WorldDelta::sized(m),
    ensures
        WorldDelta::dec(WorldDelta::enc(m) + rest) == Ok::<(DeltaModel, nat), WireError>(
            (m, WorldDelta::enc(m).len()),
        ),
        WorldDelta::dec(WorldDelta::enc(m)) == Ok::<(DeltaModel, nat), WireError>(
            (m, WorldDelta::enc(m).len()),
        ),
{
    WorldDelta::lemma_roundtrip(m, rest);
    WorldDelta::lemma_roundtrip(m, seq![]);
    assert(WorldDelta::enc(m) + seq![] =~= WorldDelta::enc(m));
}

/// Two deltas with the same bytes are the same delta.
pub proof fn law_delta_bytes_distinguish(a: DeltaModel, b: DeltaModel)
    requires
        WorldDelta::sized(a),
        WorldDelta::sized(b),
        WorldDelta::enc(a) == WorldDelta::enc(b),
    ensures
        a == b,
{
    law_delta_roundtrip(a, seq![]);
    law_delta_roundtrip(b, seq![]);
}

/// The order of the parts on the wire: ids are their numbers, an entity is its
/// generation and its index, a write its archetype, component, slots and payload, a
/// spawn its archetype, wanted handle and values, an error its code and detail.
pub proof fn law_part_layouts(
    c: ComponentId,
    a: ArchetypeId,
    e: Entity,
    w: WriteModel,
    s: SpawnModel,
    x: ErrorModel,
)
    ensures
        ComponentId::enc(c) == crate::contracts::wire::varint(c.0 as nat),
        ArchetypeId::enc(a) == crate::contracts::wire::varint(a.0 as nat),
        Entity::enc(e) == crate::contracts::wire::varint(e.generation as nat)
            + crate::contracts::wire::varint(e.index as nat),
        ColumnWrite::enc(w) == crate::contracts::wire::varint(w.archetype.0 as nat)
            + crate::contracts::wire::varint(w.component.0 as nat) + <Vec<u32> as Wire>::enc(
            w.indices,
        ) + <Vec<u8> as Wire>::enc(w.payload),
        SpawnCommand::enc(s) == crate::contracts::wire::varint(s.archetype.0 as nat) + <Option<
            Entity,
        > as Wire>::enc(s.preferred) + <Vec<ColumnWrite> as Wire>::enc(s.initial),
        RecoverableError::enc(x) == crate::contracts::wire::varint(x.code as nat) + <Option<
            String,
        > as Wire>::enc(x.message),
{
    let q = <Vec<u32> as Wire>::enc(w.indices) + <Vec<u8> as Wire>::enc(w.payload);
    let p = crate::contracts::wire::varint(w.archetype.0 as nat) + crate::contracts::wire::varint(
        w.component.0 as nat,
    );
    assert(p + q =~= p + <Vec<u32> as Wire>::enc(w.indices) + <Vec<u8> as Wire>::enc(w.payload));
}

/// A deferred command is its number and its parts: 0 to draw (an entity and a kind),
/// 1 for an event (a topic and its data), 2 to clear (four words of four bytes). Kinds
/// are numbered 0, 1 and 2.
pub proof fn law_deferred_layouts(
    entity: Entity,
    kind: RenderKind,
    topic: u32,
    data: Seq<u8>,
    rgba: [u32; 4],
)
    ensures
        DeferredCommand::enc((DeferredModel::Render { entity, kind })) == seq![0u8] + Entity::enc(
            entity,
        ) + RenderKind::enc(kind),
        DeferredCommand::enc((DeferredModel::Emit { topic, data })) == seq![1u8]
            + crate::contracts::wire::varint(topic as nat) + <Vec<u8> as Wire>::enc(data),
        DeferredCommand::enc((DeferredModel::ClearColor { rgba })) == seq![2u8]
            + crate::bytes::word_bytes(rgba[0]) + crate::bytes::word_bytes(rgba[1])
            + crate::bytes::word_bytes(rgba[2]) + crate::bytes::word_bytes(rgba[3]),
        RenderKind::enc(RenderKind::Mesh) == seq![0u8],
        RenderKind::enc(RenderKind::Text) == seq![1u8],
        RenderKind::enc(RenderKind::Gizmo) == seq![2u8],
{
    assert(DeferredCommand::enc((DeferredModel::Render { entity, kind })) =~= seq![0u8]
        + Entity::enc(entity) + RenderKind::enc(kind));
    assert(DeferredCommand::enc((DeferredModel::Emit { topic, data })) =~= seq![1u8]
        + crate::contracts::wire::varint(topic as nat) + <Vec<u8> as Wire>::enc(data));
    let bs = rgba_bytes(rgba);
    crate::bytes::law_words_in_order(rgba@, 0);
    crate::bytes::law_words_in_order(rgba@, 1);
    crate::bytes::law_words_in_order(rgba@, 2);
    crate::bytes::law_words_in_order(rgba@, 3);
    assert(bs =~= bs.subrange(0, 4) + bs.subrange(4, 8) + bs.subrange(8, 12) + bs.subrange(12, 16));
    let ws = crate::bytes::word_bytes(rgba[0]) + crate::bytes::word_bytes(rgba[1])
        + crate::bytes::word_bytes(rgba[2]) + crate::bytes::word_bytes(rgba[3]);
    assert(bs == ws);
    assert(seq![2u8] + ws =~= seq![2u8] + crate::bytes::word_bytes(rgba[0])
        + crate::bytes::word_bytes(rgba[1]) + crate::bytes::word_bytes(rgba[2])
        + crate::bytes::word_bytes(rgba[3]));
}

/// A delta is its spawns, despawns, writes, deferred commands and warnings, in that
/// order, each a list.
pub proof fn law_delta_layout(m: DeltaModel)
    ensures
        WorldDelta::enc(m) == <Vec<SpawnCommand> as Wire>::enc(m.spawns) + <Vec<
            Entity,
        > as Wire>::enc(m.despawns) + <Vec<ColumnWrite> as Wire>::enc(m.writes) + <Vec<
            DeferredCommand,
        > as Wire>::enc(m.deferred) + <Vec<RecoverableError> as Wire>::enc(m.warnings),
{
    let a = <Vec<SpawnCommand> as Wire>::enc(m.spawns);
    let b = <Vec<Entity> as Wire>::enc(m.despawns);
    let c = <Vec<ColumnWrite> as Wire>::enc(m.writes);
    let d = <Vec<DeferredCommand> as Wire>::enc(m.deferred);
    let e = <Vec<RecoverableError> as Wire>::enc(m.warnings);
    assert((a + b) + (c + (d + e)) =~= a + b + c + d + e);
}

/// A looked-up column is the first of its component, and there is none exactly when
/// no column is of that component.
pub proof fn law_first_column(cs: Seq<ColumnDescriptor>, component: ComponentId)
    ensures
        match first_column(cs, component) {
            Some(c) => c.component_id == component && exists|i: int|
                0 <= i < cs.len() && #[trigger] cs[i] == c && forall|j: int|
                    0 <= j < i ==> (#[trigger] cs[j]).component_id != component,
            None => forall|j: int|
                0 <= j < cs.len() ==> (#[trigger] cs[j]).component_id != component,
        },
    decreases cs.len(),
{
    if cs.len() > 0 {
        if cs[0].component_id == component {
            assert(cs[0] == first_column(cs, component)->0);
        } else {
            let rest = cs.skip(1);
            law_first_column(rest, component);
            match first_column(rest, component) {
                Some(c) => {
                    let i = choose|i: int|
                        0 <= i < rest.len() && #[trigger] rest[i] == c && forall|j: int|
                            0 <= j < i ==> (#[trigger] rest[j]).component_id != component;
                    assert(cs[i + 1] == c);
                    assert forall|j: int| 0 <= j < i + 1 implies (
                    #[trigger] cs[j]).component_id != component by {
                        if j > 0 {
                            assert(rest[j - 1] == cs[j]);
                        }
                    }
                },
                None => {
                    assert forall|j: int| 0 <= j < cs.len() implies (
                    #[trigger] cs[j]).component_id != component by {
                        if j > 0 {
                            assert(rest[j - 1] == cs[j]);
                        }
                    }
                },
            }
        }
    }
}

/// The color to clear to is that of the first clear command, wherever it stands.
pub proof fn law_first_clear(
    before: Seq<DeferredModel>,
    rgba: [u32; 4],
    behind: Seq<DeferredModel>,
)
    requires
        forall|i: int| 0 <= i < before.len() ==> !((#[trigger] before[i]) is ClearColor),
    ensures
        first_clear(before) is None,
        first_clear(before + seq![(DeferredModel::ClearColor { rgba })] + behind) == Some(rgba),
    decreases before.len(),
{
    let all = before + seq![(DeferredModel::ClearColor { rgba })] + behind;
    if before.len() > 0 {
        let rest = before.skip(1);
        assert forall|i: int| 0 <= i < rest.len() implies !((#[trigger] rest[i]) is ClearColor) by {
            assert(rest[i] == before[i + 1]);
        }
        law_first_clear(rest, rgba, behind);
        assert(!(before[0] is ClearColor));
        assert(all[0] == before[0]);
        assert(all.skip(1) =~= rest + seq![(DeferredModel::ClearColor { rgba })] + behind);
    } else {
        assert(all[0] == (DeferredModel::ClearColor { rgba }));
    }
}

/// The text of an error is its title, its code in at least four hexadecimal digits,
/// and the detail behind a colon, if there is one.
pub proof fn law_error_text(title: Seq<char>, code: u32, m: Seq<char>)
    ensures
        title.is_prefix_of(error_text(title, code, None)),
        error_text(title, code, None).len() >= title.len() + 4,
        error_text(title, code, None) == title + crate::text::zero_padded(
            crate::text::numeral(code as nat, 16),
            4,
        ),
        error_text(title, code, Some(m)) == error_text(title, code, None) + ": "@ + m,
{
    let t = error_text(title, code, None);
    assert(t.subrange(0, title.len() as int) =~= title);
}

/// A column ends behind the bytes of its elements.
pub proof fn law_column_end(c: ColumnDescriptor)
    ensures
        c.end() - c.data_offset == c.element_size * c.count,
{
}

/// Commands and errors are taken for what they hold.
pub proof fn law_models(
    w: ColumnWrite,
    s: SpawnCommand,
    x: RecoverableError,
    f: FatalError,
    d: WorldDelta,
    i: int,
)
    ensures
        w.model().archetype == w.archetype && w.model().component == w.component,
        w.model().indices == w.indices@ && w.model().payload == w.payload@,
        s.model().archetype == s.archetype && s.model().preferred == s.preferred,
        s.model().initial.len() == s.initial@.len(),
        0 <= i < s.initial@.len() ==> s.model().initial[i] == s.initial@[i].model(),
        x.model().code == x.code && f.model().code == f.code,
        x.message is Some ==> x.model().message == Some(x.message->0@),
        x.message is None ==> x.model().message is None,
        f.message is Some ==> f.model().message == Some(f.message->0@),
        f.message is None ==> f.model().message is None,
        d.model().spawns.len() == d.spawns@.len(),
        0 <= i < d.spawns@.len() ==> d.model().spawns[i] == d.spawns@[i].model(),
        d.model().despawns == d.despawns@,
        d.model().writes.len() == d.writes@.len(),
        0 <= i < d.writes@.len() ==> d.model().writes[i] == d.writes@[i].model(),
        d.model().deferred.len() == d.deferred@.len(),
        0 <= i < d.deferred@.len() ==> d.model().deferred[i] == d.deferred@[i].model(),
        d.model().warnings.len() == d.warnings@.len(),
        0 <= i < d.warnings@.len() ==> d.model().warnings[i] == d.warnings@[i].model(),
{
    assert(d.model().despawns =~= d.despawns@);
}

} // verus!
