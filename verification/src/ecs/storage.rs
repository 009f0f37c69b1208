//! Structure-of-arrays storage: one contiguous byte column per component.

use crate::contracts::components::Component;
use std::collections::HashMap;
use vstd::prelude::*;

verus! {

broadcast use vstd::std_specs::hash::group_hash_axioms;

/// Number of whole rows of `T` in a column.
pub open spec fn row_count<T: Component>(bytes: Seq<u8>) -> int {
    bytes.len() as int / (4 * T::width() as int)
}

/// Row `i` of a column of `T`.
pub open spec fn row<T: Component>(bytes: Seq<u8>, i: int) -> T {
    T::of_words(Seq::new(T::width(), |k: int| crate::bytes::word_at(bytes, i * T::width() + k)))
}

/// A column of `T`, row by row.
pub open spec fn rows<T: Component>(bytes: Seq<u8>) -> Seq<T> {
    Seq::new(row_count::<T>(bytes) as nat, |i: int| row::<T>(bytes, i))
}

/// `bytes` with the bytes from `at` on replaced by `piece`.
pub open spec fn put(bytes: Seq<u8>, at: int, piece: Seq<u8>) -> Seq<u8> {
    Seq::new(
        bytes.len(),
        |i: int|
            if at <= i < at + piece.len() {
                piece[i - at]
            } else {
                bytes[i]
            },
    )
}

/// `bytes` with row `i` of a column of `T` replaced by `v`.
pub open spec fn put_row<T: Component>(bytes: Seq<u8>, i: int, v: T) -> Seq<u8> {
    put(bytes, 4 * (i * T::width()), crate::bytes::words_bytes(v.words()))
}

/// `n` zero bytes.
pub open spec fn zeros(n: nat) -> Seq<u8> {
    Seq::new(n, |i: int| 0u8)
}

/// The element of `T` whose bytes are all zero.
pub open spec fn zeroed<T: Component>() -> T {
    T::of_words(Seq::new(T::width(), |k: int| 0u32))
}

/// A row whose bytes are all zero is the zero element.
pub proof fn lemma_zero_row<T: Component>(bytes: Seq<u8>, i: int)
    requires
        0 <= i < row_count::<T>(bytes),
        forall|j: int| 4 * (i * T::width()) <= j < bytes.len() ==> bytes[j] == 0,
    ensures
        row::<T>(bytes, i) == zeroed::<T>(),
{
    T::lemma_width();
    let w = T::width() as int;
    lemma_row_fits(bytes.len() as int, w, i);
    let mine = Seq::new(T::width(), |k: int| crate::bytes::word_at(bytes, i * w + k));
    assert forall|k: int| 0 <= k < w implies #[trigger] mine[k] == 0 by {
        let q = 4 * (i * w + k);
        assert(bytes[q] == 0 && bytes[q + 1] == 0 && bytes[q + 2] == 0 && bytes[q + 3] == 0);
    }
    assert(mine =~= Seq::new(T::width(), |k: int| 0u32));
}

/// Replacing row `i` replaces exactly row `i`.
pub proof fn lemma_put_row<T: Component>(bytes: Seq<u8>, i: int, v: T)
    requires
        0 <= i < row_count::<T>(bytes),
    ensures
        rows::<T>(put_row(bytes, i, v)) == rows::<T>(bytes).update(i, v),
{
    T::lemma_width();
    v.lemma_image();
    let w = T::width() as int;
    let n = row_count::<T>(bytes);
    let piece = crate::bytes::words_bytes(v.words());
    let new = put_row(bytes, i, v);
    assert(new.len() == bytes.len());
    assert forall|j: int| 0 <= j < n implies row::<T>(new, j) == rows::<T>(bytes).update(
        i,
        v,
    )[j] by {
        assert(4 * (j * w) + 4 * w <= bytes.len() && 0 <= j * w) by {
            lemma_row_fits(bytes.len() as int, w, j);
        }
        let mine = Seq::new(T::width(), |k: int| crate::bytes::word_at(new, j * w + k));
        if j == i {
            assert forall|k: int| 0 <= k < w implies #[trigger] mine[k] == v.words()[k] by {
                crate::bytes::lemma_word_at(v.words(), k);
                let at = 4 * (i * w);
                let q = 4 * (i * w + k);
                assert(q == at + 4 * k);
                assert(new[q] == piece[4 * k]);
                assert(new[q + 1] == piece[4 * k + 1]);
                assert(new[q + 2] == piece[4 * k + 2]);
                assert(new[q + 3] == piece[4 * k + 3]);
            }
            assert(mine =~= v.words());
        } else {
            let theirs = Seq::new(T::width(), |k: int| crate::bytes::word_at(bytes, j * w + k));
            assert(j * w + w <= i * w || i * w + w <= j * w) by (nonlinear_arith)
                requires
                    j != i,
                    0 <= w,
            ;
            assert(mine =~= theirs);
        }
    }
    assert(rows::<T>(new) =~= rows::<T>(bytes).update(i, v));
}

/// Row `j` of a column of rows of `w` words lies inside the column.
pub proof fn lemma_row_fits(len: int, w: int, j: int)
    requires
        w >= 1,
        len >= 0,
        0 <= j < len / (4 * w),
    ensures
        4 * (j * w) + 4 * w <= len,
        0 <= j * w,
{
    let n = len / (4 * w);
    assert(n * (4 * w) <= len) by {
        vstd::arithmetic::div_mod::lemma_fundamental_div_mod(len, 4 * w);
        vstd::arithmetic::div_mod::lemma_mod_bound(len, 4 * w);
        assert(n * (4 * w) == (4 * w) * n) by (nonlinear_arith);
    }
    assert((j + 1) * (4 * w) <= n * (4 * w)) by (nonlinear_arith)
        requires
            j + 1 <= n,
            w >= 1,
    ;
    assert((j + 1) * (4 * w) == 4 * (j * w) + 4 * w) by (nonlinear_arith);
    assert(0 <= j * w) by (nonlinear_arith)
        requires
            0 <= j,
            0 <= w,
    ;
}

/// Growing a column by zero bytes keeps the rows it had.
pub proof fn lemma_grown_rows<T: Component>(bytes: Seq<u8>, more: Seq<u8>, i: int)
    requires
        0 <= i < row_count::<T>(bytes),
    ensures
        row::<T>(bytes + more, i) == row::<T>(bytes, i),
{
    T::lemma_width();
    let w = T::width() as int;
    lemma_row_fits(bytes.len() as int, w, i);
    assert(Seq::new(T::width(), |k: int| crate::bytes::word_at(bytes + more, i * w + k))
        =~= Seq::new(T::width(), |k: int| crate::bytes::word_at(bytes, i * w + k)));
}

/// Reads row `i` of a column of `T`.
pub fn read_row<T: Component>(bytes: &Vec<u8>, i: usize) -> (r: T)
    requires
        i < row_count::<T>(bytes@),
    ensures
        r == row::<T>(bytes@, i as int),
{
    proof {
        T::lemma_width();
        lemma_row_fits(bytes@.len() as int, T::width() as int, i as int);
        assert(bytes@.len() == bytes.len());
    }
    let size: usize = T::element_size();
    assert(size * i == 4 * (i * T::width())) by (nonlinear_arith)
        requires
            size == 4 * T::width(),
    ;
    let at: usize = size * i;
    let mut ws: Vec<u32> = Vec::new();
    let mut k: usize = 0;
    while 4 * k < size
        invariant
            size == 4 * T::width(),
            size <= 40,
            at == 4 * (i * T::width()),
            at + size <= bytes@.len() <= usize::MAX,
            k <= T::width(),
            ws@ == Seq::new(k as nat, |q: int| crate::bytes::word_at(bytes@, i * T::width() + q)),
        decreases size - 4 * k,
    {
        let w: u32 = crate::bytes::read_word(bytes.as_slice(), at + 4 * k);
        ws.push(w);
        k = k + 1;
        assert(ws@ =~= Seq::new(
            k as nat,
            |q: int| crate::bytes::word_at(bytes@, i * T::width() + q),
        ));
    }
    assert(ws@ =~= Seq::new(
        T::width(),
        |q: int| crate::bytes::word_at(bytes@, i * T::width() + q),
    ));
    T::from_words(&ws)
}

/// Overwrites row `i` of a column of `T`.
pub fn write_row<T: Component>(bytes: &mut Vec<u8>, i: usize, v: T)
    requires
        i < row_count::<T>(old(bytes)@),
    ensures
        final(bytes)@ == put_row::<T>(old(bytes)@, i as int, v),
{
    proof {
        T::lemma_width();
        v.lemma_image();
        lemma_row_fits(bytes@.len() as int, T::width() as int, i as int);
        assert(bytes@.len() == bytes.len());
    }
    let size: usize = T::element_size();
    assert(size * i == 4 * (i * T::width())) by (nonlinear_arith)
        requires
            size == 4 * T::width(),
    ;
    let at: usize = size * i;
    let words: Vec<u32> = v.to_words();
    let mut piece: Vec<u8> = Vec::new();
    let mut k: usize = 0;
    while k < words.len()
        invariant
            k <= words@.len(),
            words@ == v.words(),
            piece@ == crate::bytes::words_bytes(words@.take(k as int)),
        decreases words@.len() - k,
    {
        crate::bytes::push_word(&mut piece, words[k]);
        k = k + 1;
        assert(piece@ =~= crate::bytes::words_bytes(words@.take(k as int)));
    }
    assert(words@.take(k as int) =~= words@);
    let ghost before = bytes@;
    let mut p: usize = 0;
    while p < piece.len()
        invariant
            p <= piece@.len(),
            at + piece@.len() <= before.len() <= usize::MAX,
            bytes@.len() == before.len(),
            bytes@ == put(before, at as int, piece@.take(p as int)),
        decreases piece@.len() - p,
    {
        bytes.set(at + p, piece[p]);
        p = p + 1;
        assert(bytes@ =~= put(before, at as int, piece@.take(p as int)));
    }
    assert(piece@.take(p as int) =~= piece@);
}

/// Raw storage of a single fixed archetype: for each component id a column of
/// `element size * capacity` bytes, of which the first `entity_count` rows are
/// live.
pub struct ArchetypeStorage {
    columns: HashMap<u32, Vec<u8>>,
    entity_count: usize,
    capacity: usize,
}

/// The capacity of an empty store.
pub const START_CAPACITY: usize = 64;

impl ArchetypeStorage {
    /// The columns' bytes by component id.
    pub closed spec fn cols(&self) -> Map<u32, Seq<u8>> {
        Map::new(|id: u32| self.columns@.dom().contains(id), |id: u32| self.columns@[id]@)
    }

    /// Number of live rows.
    pub closed spec fn count(&self) -> nat {
        self.entity_count as nat
    }

    /// Allocated rows.
    pub closed spec fn cap(&self) -> nat {
        self.capacity as nat
    }

    /// The live rows fit in the allocated ones, of which there is at least one,
    /// and every column holds whole elements for all of them.
    pub open spec fn wf(&self) -> bool {
        &&& self.count() <= self.cap() <= usize::MAX
        &&& 1 <= self.cap()
        &&& forall|id: u32| #[trigger]
            self.cols().dom().contains(id) ==> self.cols()[id].len() % self.cap() == 0
    }

    /// Whether every column, doubled, still fits in memory.
    pub open spec fn can_grow(&self) -> bool {
        &&& 2 * self.cap() <= usize::MAX
        &&& forall|id: u32| #[trigger]
            self.cols().dom().contains(id) ==> 2 * self.cols()[id].len() <= isize::MAX
    }

    /// An empty store with the starting capacity.
    pub fn new() -> (r: Self)
        ensures
            r.wf(),
            r.cols() == Map::<u32, Seq<u8>>::empty(),
            r.count() == 0,
            r.cap() == START_CAPACITY,
    {
        let r = ArchetypeStorage {
            columns: HashMap::new(),
            entity_count: 0,
            capacity: START_CAPACITY,
        };
        assert(r.cols() =~= Map::<u32, Seq<u8>>::empty());
        r
    }

    /// Adds a zeroed column of `T`, replacing one with the same id.
    pub fn add_column<T: Component>(&mut self, component_id: u32)
        requires
            old(self).wf(),
            4 * T::width() * old(self).cap() <= isize::MAX,
        ensures
            final(self).wf(),
            final(self).cols() == old(self).cols().insert(
                component_id,
                zeros(4 * T::width() * old(self).cap()),
            ),
            final(self).count() == old(self).count(),
            final(self).cap() == old(self).cap(),
    {
        let size: usize = T::element_size();
        let data: Vec<u8> = vec![0u8;size * self.capacity];
        assert(data@ =~= zeros(4 * T::width() * old(self).cap()));
        self.columns.insert(component_id, data);
        assert(self.cols() =~= old(self).cols().insert(component_id, data@));
        proof {
            vstd::arithmetic::div_mod::lemma_mod_multiples_basic(
                4 * T::width() as int,
                self.cap() as int,
            );
        }
    }

    /// The rows of a column, if it is present. The column must hold whole rows.
    pub fn get_column<T: Component>(&self, component_id: u32) -> (r: Option<Vec<T>>)
        requires
            self.wf(),
            self.cols().dom().contains(component_id) ==> self.cols()[component_id].len() % (4
                * T::width()) == 0,
        ensures
            r is Some <==> self.cols().dom().contains(component_id),
            r is Some ==> r->0@ == rows::<T>(self.cols()[component_id]),
    {
        match self.columns.get(&component_id) {
            None => None,
            Some(data) => {
                assert(data@ == self.cols()[component_id]);
                proof {
                    T::lemma_width();
                }
                let n: usize = data.len() / T::element_size();
                let mut out: Vec<T> = Vec::new();
                let mut i: usize = 0;
                while i < n
                    invariant
                        i <= n,
                        n == row_count::<T>(data@),
                        out@ == rows::<T>(data@).take(i as int),
                    decreases n - i,
                {
                    let v = read_row::<T>(data, i);
                    out.push(v);
                    i = i + 1;
                    assert(out@ =~= rows::<T>(data@).take(i as int));
                }
                assert(out@ =~= rows::<T>(data@));
                Some(out)
            },
        }
    }

    /// Overwrites row `index` of a column, if the column is present and has
    /// that row. Says whether it did.
    pub fn set_row<T: Component>(&mut self, component_id: u32, index: usize, v: T) -> (r: bool)
        requires
            old(self).wf(),
            old(self).cols().dom().contains(component_id) ==> old(self).cols()[component_id].len()
                % (4 * T::width()) == 0,
        ensures
            final(self).wf(),
            final(self).count() == old(self).count(),
            final(self).cap() == old(self).cap(),
            r == (old(self).cols().dom().contains(component_id) && index < row_count::<T>(
                old(self).cols()[component_id],
            )),
            final(self).cols() == if r {
                old(self).cols().insert(
                    component_id,
                    put_row(old(self).cols()[component_id], index as int, v),
                )
            } else {
                old(self).cols()
            },
    {
        match self.columns.remove(&component_id) {
            None => {
                assert(self.cols() =~= old(self).cols());
                false
            },
            Some(mut data) => {
                assert(data@ == old(self).cols()[component_id]);
                proof {
                    T::lemma_width();
                }
                let n: usize = data.len() / T::element_size();
                let inside = index < n;
                if inside {
                    write_row::<T>(&mut data, index, v);
                }
                self.columns.insert(component_id, data);
                assert(self.cols() =~= old(self).cols().insert(component_id, data@));
                assert(!inside ==> self.cols() =~= old(self).cols());
                inside
            },
        }
    }

    /// Reserves a row, doubling every column when all rows are taken. Returns
    /// the row's index.
    pub fn allocate(&mut self) -> (r: usize)
        requires
            old(self).wf(),
            old(self).count() == old(self).cap() ==> old(self).can_grow(),
        ensures
            final(self).wf(),
            r == old(self).count(),
            final(self).count() == old(self).count() + 1,
            old(self).count() < old(self).cap() ==> final(self).cols() == old(self).cols()
                && final(self).cap() == old(self).cap(),
            old(self).count() == old(self).cap() ==> final(self).grown_from(*old(self)),
    {
        if self.entity_count >= self.capacity {
            self.grow();
        }
        let ghost mid = *self;
        let index: usize = self.entity_count;
        self.entity_count = index + 1;
        assert(self.cols() =~= mid.cols());
        index
    }

    /// Number of live rows.
    pub fn entity_count(&self) -> (r: usize)
        ensures
            r == self.count(),
    {
        self.entity_count
    }

    /// The capacity is twice that of `before`, and every column of `before` is
    /// here with as many zero bytes behind it as it had bytes.
    pub open spec fn grown_from(&self, before: ArchetypeStorage) -> bool {
        &&& self.cap() == 2 * before.cap()
        &&& self.cols().dom() == before.cols().dom()
        &&& forall|id: u32| #[trigger]
            before.cols().dom().contains(id) ==> self.cols()[id] == doubled(before.cols()[id])
    }

    /// The ids of the columns, each once.
    fn ids(&self) -> (r: Vec<u32>)
        ensures
            r@.no_duplicates(),
            r@.to_set() == self.cols().dom(),
    {
        let mut out: Vec<u32> = Vec::new();
        for k in it: self.columns.keys()
            invariant
                it.seq().unref().to_set() == self.columns@.dom(),
                it.seq().no_duplicates(),
                out@ == it.seq().unref().take(it.index() as int),
                it.index() == it.seq().len() ==> out@ == it.seq().unref(),
        {
            out.push(*k);
            assert(out@ =~= it.seq().unref().take(it.index() + 1));
        }
        assert(out@.to_set() =~= self.cols().dom());
        out
    }

    /// Doubles the capacity and every column, keeping what the columns hold.
    fn grow(&mut self)
        requires
            old(self).wf(),
            old(self).can_grow(),
        ensures
            final(self).wf(),
            final(self).count() == old(self).count(),
            final(self).grown_from(*old(self)),
    {
        let new_capacity: usize = self.capacity * 2;
        let ids: Vec<u32> = self.ids();
        let mut i: usize = 0;
        let ghost before = *self;
        while i < ids.len()
            invariant
                i <= ids@.len(),
                before.wf(),
                before.can_grow(),
                new_capacity == 2 * before.cap(),
                self.capacity == before.cap(),
                self.count() == before.count(),
                ids@.no_duplicates(),
                ids@.to_set() == before.cols().dom(),
                self.cols().dom() == before.cols().dom(),
                forall|j: int|
                    0 <= j < ids@.len() ==> self.cols()[#[trigger] ids@[j]] == if j < i {
                        doubled(before.cols()[ids@[j]])
                    } else {
                        before.cols()[ids@[j]]
                    },
            decreases ids@.len() - i,
        {
            let id: u32 = ids[i];
            assert(ids@.to_set().contains(ids@[i as int]));
            assert(before.cols().dom().contains(id));
            assert(self.columns@.dom().contains(id));
            let ghost mid = *self;
            if let Some(mut column) = self.columns.remove(&id) {
                assert(column@ == before.cols()[id]);
                let element_size: usize = column.len() / self.capacity;
                proof {
                    lemma_double(column@.len() as int, before.cap() as int);
                }
                let ghost was = column@;
                column.resize(element_size * new_capacity, 0);
                assert(column@ =~= doubled(was)) by {
                    assert(column@.subrange(0, was.len() as int) == was);
                    assert forall|q: int| 0 <= q < was.len() implies column@[q] == was[q] by {
                        assert(column@.subrange(0, was.len() as int)[q] == was[q]);
                    }
                }
                self.columns.insert(id, column);
                assert(self.cols() =~= mid.cols().insert(id, doubled(was)));
            }
            i = i + 1;
        }
        self.capacity = new_capacity;
        assert forall|id: u32| #[trigger] before.cols().dom().contains(id) implies self.cols()[id]
            == doubled(before.cols()[id]) by {
            assert(ids@.to_set().contains(id));
            let j = choose|j: int| 0 <= j < ids@.len() && ids@[j] == id;
            assert(self.cols()[ids@[j]] == doubled(before.cols()[ids@[j]]));
        }
        assert forall|id: u32| #[trigger] self.cols().dom().contains(id) implies self.cols()[id].len()
            % self.cap() == 0 by {
            assert(before.cols().dom().contains(id));
            lemma_double(before.cols()[id].len() as int, before.cap() as int);
        }
    }

    /// A deep copy.
    pub fn duplicate(&self) -> (r: ArchetypeStorage)
        requires
            self.wf(),
        ensures
            r.wf(),
            r.cols() == self.cols(),
            r.count() == self.count(),
            r.cap() == self.cap(),
    {
        let ids: Vec<u32> = self.ids();
        let mut r = ArchetypeStorage {
            columns: HashMap::new(),
            entity_count: self.entity_count,
            capacity: self.capacity,
        };
        let mut i: usize = 0;
        assert(r.cols() =~= self.cols().restrict(ids@.take(0).to_set()));
        while i < ids.len()
            invariant
                i <= ids@.len(),
                ids@.to_set() == self.cols().dom(),
                r.count() == self.count(),
                r.cap() == self.cap(),
                r.cols() == self.cols().restrict(ids@.take(i as int).to_set()),
            decreases ids@.len() - i,
        {
            let id: u32 = ids[i];
            assert(ids@.to_set().contains(ids@[i as int]));
            assert(self.columns@.dom().contains(id));
            let ghost mid = r;
            if let Some(column) = self.columns.get(&id) {
                let copy: Vec<u8> = column.clone();
                assert(copy@ =~= column@);
                r.columns.insert(id, copy);
                assert(r.cols() =~= mid.cols().insert(id, self.cols()[id]));
            }
            i = i + 1;
            assert(ids@.take(i as int) =~= ids@.take(i - 1).push(id));
            assert(r.cols() =~= self.cols().restrict(ids@.take(i as int).to_set())) by {
                let ghost seen = ids@.take(i - 1);
                assert(seen.push(id).to_set() =~= seen.to_set().insert(id)) by {
                    broadcast use vstd::seq_lib::group_seq_properties;

                }
            }
        }
        assert(ids@.take(i as int) =~= ids@);
        assert(r.cols() =~= self.cols());
        r
    }
}

/// `bytes` followed by as many zero bytes.
pub open spec fn doubled(bytes: Seq<u8>) -> Seq<u8> {
    bytes + zeros(bytes.len())
}

/// A length that is a whole number of elements for `cap` rows stays one when
/// both are doubled.
proof fn lemma_double(len: int, cap: int)
    requires
        len >= 0,
        cap >= 1,
        len % cap == 0,
    ensures
        (len / cap) * (2 * cap) == 2 * len,
        (2 * len) % (2 * cap) == 0,
{
    vstd::arithmetic::div_mod::lemma_fundamental_div_mod(len, cap);
    let e = len / cap;
    assert(len == cap * e);
    assert(e * (2 * cap) == 2 * (cap * e)) by (nonlinear_arith);
    vstd::arithmetic::div_mod::lemma_mod_multiples_basic(e, 2 * cap);
}

/// Replacing bytes keeps all others, and the length.
pub proof fn law_put(bytes: Seq<u8>, at: int, piece: Seq<u8>)
    requires
        0 <= at,
        at + piece.len() <= bytes.len(),
    ensures
        put(bytes, at, piece) == bytes.take(at) + piece + bytes.skip(at + piece.len()),
{
    assert(put(bytes, at, piece) =~= bytes.take(at) + piece + bytes.skip(at + piece.len()));
}

/// A column that grows keeps its bytes and has as many zeros behind them.
pub proof fn law_doubled(bytes: Seq<u8>, i: int)
    requires
        0 <= i < 2 * bytes.len(),
    ensures
        doubled(bytes).len() == 2 * bytes.len(),
        i < bytes.len() ==> doubled(bytes)[i] == bytes[i],
        i >= bytes.len() ==> doubled(bytes)[i] == 0,
{
}

/// A row is read from the words of its own place, and one written there is read
/// back.
pub proof fn law_rows_by_place<T: Component>(bytes: Seq<u8>, i: int)
    requires
        0 <= i < row_count::<T>(bytes),
    ensures
        rows::<T>(bytes).len() == row_count::<T>(bytes),
        rows::<T>(bytes)[i] == T::of_words(
            Seq::new(T::width(), |k: int| crate::bytes::word_at(bytes, i * T::width() + k)),
        ),
        row_count::<T>(bytes) * (4 * T::width()) <= bytes.len() < (row_count::<T>(bytes) + 1) * (4
            * T::width()),
{
    T::lemma_width();
    let d = 4 * T::width() as int;
    let n = bytes.len() as int;
    let q = n / d;
    assert(q * d <= n < (q + 1) * d) by (nonlinear_arith)
        requires
            d > 0,
            q == n / d,
    ;
}

} // verus!
