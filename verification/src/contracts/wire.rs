//! The compact wire format of deltas and guest inputs.
//!
//! Integers are variable-length (seven bits a byte, low bits first, the top bit
//! set on every byte but the last); single bytes and raw 32-bit fields are
//! written as they are; a list or a string is its length followed by its items;
//! a structure is its fields in order; an alternative is its number followed by
//! its fields.

use vstd::prelude::*;

verus! {

/// Why a value could not be read.
#[derive(Clone, Copy, PartialEq, Eq, Structural, Debug)]
pub enum WireError {
    /// The bytes ended inside the value.
    UnexpectedEnd,
    /// A variable-length integer was too long or too large for its type.
    BadVarint,
    /// The tag of an optional value was neither 0 nor 1.
    BadOption,
    /// A string was not UTF-8.
    BadUtf8,
    /// An alternative had an unknown number.
    BadVariant,
}

/// A value that can cross the wire.
pub trait Wire: Sized {
    /// What the value means.
    type M;

    /// The meaning of this value.
    spec fn model(&self) -> Self::M;

    /// Whether every length in `m` fits in a machine word.
    spec fn sized(m: Self::M) -> bool;

    /// The bytes that stand for `m`.
    spec fn enc(m: Self::M) -> Seq<u8>;

    /// What the bytes start with, and how many bytes that takes.
    spec fn dec(b: Seq<u8>) -> Result<(Self::M, nat), WireError>;

    /// Reading never takes more bytes than there are.
    proof fn lemma_dec_len(b: Seq<u8>)
        ensures
            Self::dec(b) matches Ok((m, n)) ==> n <= b.len(),
    ;

    /// What was written is read back, whatever follows it.
    proof fn lemma_roundtrip(m: Self::M, rest: Seq<u8>)
        requires
            Self::sized(m),
        ensures
            Self::dec(Self::enc(m) + rest) == Ok::<(Self::M, nat), WireError>(
                (m, Self::enc(m).len()),
            ),
    ;

    /// Appends the bytes of this value.
    fn put(&self, out: &mut Vec<u8>)
        ensures
            final(out)@ == old(out)@ + Self::enc(self.model()),
    ;

    /// Reads a value that starts at byte `at`; gives it with the position of
    /// the first byte behind it.
    fn take(b: &[u8], at: usize) -> (r: Result<(Self, usize), WireError>)
        requires
            at <= b@.len(),
        ensures
            match (r, Self::dec(b@.skip(at as int))) {
                (Ok((v, next)), Ok((m, n))) => v.model() == m && next == at + n && next
                    <= b@.len(),
                (Err(e), Err(f)) => e == f,
                _ => false,
            },
    ;
}

/// The variable-length form of `v`.
pub open spec fn varint(v: nat) -> Seq<u8>
    decreases v,
{
    if v < 128 {
        seq![v as u8]
    } else {
        seq![(v % 128 + 128) as u8] + varint(v / 128)
    }
}

/// The variable-length integer that `b` starts with, of at most `max` bytes, the
/// last of which may be at most `top`; and its length.
pub open spec fn unvarint(b: Seq<u8>, max: nat, top: u8) -> Result<(nat, nat), WireError>
    decreases max,
{
    if max == 0 {
        Err(WireError::BadVarint)
    } else if b.len() == 0 {
        Err(WireError::UnexpectedEnd)
    } else if b[0] < 128 {
        if max == 1 && b[0] > top {
            Err(WireError::BadVarint)
        } else {
            Ok((b[0] as nat, 1))
        }
    } else {
        match unvarint(b.skip(1), (max - 1) as nat, top) {
            Ok((v, n)) => Ok(((b[0] - 128 + 128 * v) as nat, n + 1)),
            Err(e) => Err(e),
        }
    }
}

/// One more than the largest integer of at most `max` bytes with `top` as the
/// largest last one.
pub open spec fn varint_bound(max: nat, top: u8) -> nat
    decreases max,
{
    if max <= 1 {
        (top + 1) as nat
    } else {
        128 * varint_bound((max - 1) as nat, top)
    }
}

/// An integer within the bound is read back from its variable-length form.
pub proof fn lemma_varint(v: nat, max: nat, top: u8, rest: Seq<u8>)
    requires
        max >= 1,
        top < 128,
        v < varint_bound(max, top),
    ensures
        unvarint(varint(v) + rest, max, top) == Ok::<(nat, nat), WireError>((v, varint(v).len())),
        varint(v).len() >= 1,
    decreases v,
{
    let b = varint(v) + rest;
    if v >= 128 {
        assert(max >= 2);
        let v2 = v / 128;
        lemma_varint(v2, (max - 1) as nat, top, rest);
        assert(b.skip(1) =~= varint(v2) + rest);
        assert(b[0] == (v % 128 + 128) as u8);
        assert(v == 128 * v2 + v % 128);
    } else {
        assert(b[0] == v as u8);
    }
}

/// A variable-length integer takes at least one byte and no more than there are,
/// and its value is within the bound.
pub proof fn lemma_unvarint(b: Seq<u8>, max: nat, top: u8)
    requires
        top < 128,
    ensures
        unvarint(b, max, top) matches Ok((v, n)) ==> 1 <= n <= b.len() && v < varint_bound(
            max,
            top,
        ),
    decreases max,
{
    if max > 0 && b.len() > 0 && b[0] >= 128 {
        lemma_unvarint(b.skip(1), (max - 1) as nat, top);
    } else if max > 1 {
        lemma_varint_bound_grows(max, top);
    }
}

/// Two bytes or more hold every number below 128.
proof fn lemma_varint_bound_grows(max: nat, top: u8)
    requires
        max > 1,
    ensures
        varint_bound(max, top) >= 128,
    decreases max,
{
    reveal_with_fuel(varint_bound, 2);
    if max > 2 {
        lemma_varint_bound_grows((max - 1) as nat, top);
    }
}

/// The bounds of the 32-bit and the 64-bit form.
pub proof fn lemma_varint_bounds()
    ensures
        varint_bound(5, 15) == 0x1_0000_0000,
        varint_bound(10, 1) == 0x1_0000_0000_0000_0000,
{
    assert(varint_bound(5, 15) == 0x1_0000_0000) by {
        reveal_with_fuel(varint_bound, 6);
    }
    assert(varint_bound(10, 1) == 0x1_0000_0000_0000_0000) by {
        reveal_with_fuel(varint_bound, 11);
    }
}

/// `postcard::to_allocvec` on a `u64`: the variable-length form of the number.
#[verifier::external_body]
fn postcard_bytes(v: u64) -> (r: Vec<u8>)
    ensures
        r@ == varint(v as nat),
{
    postcard::to_allocvec(&v).unwrap()
}

/// `postcard::take_from_bytes` on a `u32`: a variable-length integer of at most
/// five bytes, the fifth at most 15, with the number of bytes left behind it.
#[verifier::external_body]
fn postcard_u32(b: &[u8]) -> (r: Result<(u32, usize), WireError>)
    ensures
        match (r, unvarint(b@, 5, 15)) {
            (Ok((v, left)), Ok((m, n))) => v == m && left == b@.len() - n,
            (Err(e), Err(f)) => e == f,
            _ => false,
        },
{
    match postcard::take_from_bytes::<u32>(b) {
        Ok((v, rest)) => Ok((v, rest.len())),
        Err(postcard::Error::DeserializeUnexpectedEnd) => Err(WireError::UnexpectedEnd),
        Err(_) => Err(WireError::BadVarint),
    }
}

/// `postcard::take_from_bytes` on a `u64`: a variable-length integer of at most
/// ten bytes, the tenth at most 1, with the number of bytes left behind it.
#[verifier::external_body]
fn postcard_u64(b: &[u8]) -> (r: Result<(u64, usize), WireError>)
    ensures
        match (r, unvarint(b@, 10, 1)) {
            (Ok((v, left)), Ok((m, n))) => v == m && left == b@.len() - n,
            (Err(e), Err(f)) => e == f,
            _ => false,
        },
{
    match postcard::take_from_bytes::<u64>(b) {
        Ok((v, rest)) => Ok((v, rest.len())),
        Err(postcard::Error::DeserializeUnexpectedEnd) => Err(WireError::UnexpectedEnd),
        Err(_) => Err(WireError::BadVarint),
    }
}

/// `String::from_utf8` on a copy of the bytes: the string they encode, if they
/// are UTF-8.
#[verifier::external_body]
pub(crate) fn utf8_string(b: &[u8]) -> (r: Option<String>)
    ensures
        r is Some <==> vstd::utf8::valid_utf8(b@),
        r is Some ==> r->0@ == vstd::utf8::decode_utf8(b@),
{
    String::from_utf8(b.to_vec()).ok()
}

/// The bytes of `b` from `at` on.
fn tail(b: &[u8], at: usize) -> (r: &[u8])
    requires
        at <= b@.len(),
    ensures
        r@ == b@.skip(at as int),
{
    vstd::slice::slice_subrange(b, at, b.len())
}

impl Wire for u8 {
    type M = u8;

    open spec fn model(&self) -> u8 {
        *self
    }

    open spec fn sized(m: u8) -> bool {
        true
    }

    open spec fn enc(m: u8) -> Seq<u8> {
        seq![m]
    }

    open spec fn dec(b: Seq<u8>) -> Result<(u8, nat), WireError> {
        if b.len() == 0 {
            Err(WireError::UnexpectedEnd)
        } else {
            Ok((b[0], 1))
        }
    }

    proof fn lemma_dec_len(b: Seq<u8>) {
    }

    proof fn lemma_roundtrip(m: u8, rest: Seq<u8>) {
    }

    fn put(&self, out: &mut Vec<u8>) {
        out.push(*self);
    }

    fn take(b: &[u8], at: usize) -> (r: Result<(Self, usize), WireError>) {
        if at == b.len() {
            return Err(WireError::UnexpectedEnd);
        }
        Ok((b[at], at + 1))
    }
}

impl Wire for u32 {
    type M = u32;

    open spec fn model(&self) -> u32 {
        *self
    }

    open spec fn sized(m: u32) -> bool {
        true
    }

    open spec fn enc(m: u32) -> Seq<u8> {
        varint(m as nat)
    }

    open spec fn dec(b: Seq<u8>) -> Result<(u32, nat), WireError> {
        match unvarint(b, 5, 15) {
            Ok((v, n)) => Ok((v as u32, n)),
            Err(e) => Err(e),
        }
    }

    proof fn lemma_dec_len(b: Seq<u8>) {
        lemma_unvarint(b, 5, 15);
    }

    proof fn lemma_roundtrip(m: u32, rest: Seq<u8>) {
        lemma_varint_bounds();
        lemma_varint(m as nat, 5, 15, rest);
    }

    fn put(&self, out: &mut Vec<u8>) {
        let mut b: Vec<u8> = postcard_bytes(*self as u64);
        out.append(&mut b);
    }

    fn take(b: &[u8], at: usize) -> (r: Result<(Self, usize), WireError>) {
        proof {
            lemma_unvarint(b@.skip(at as int), 5, 15);
        }
        match postcard_u32(tail(b, at)) {
            Ok((v, left)) => Ok((v, b.len() - left)),
            Err(e) => Err(e),
        }
    }
}

/// The length that `b` starts with: an integer as wide as a machine word, of at most
/// five bytes where that has 32 bits and of at most ten where it has 64.
pub open spec fn dec_len(b: Seq<u8>) -> Result<(nat, nat), WireError> {
    if usize::MAX == u32::MAX {
        unvarint(b, 5, 15)
    } else {
        unvarint(b, 10, 1)
    }
}

/// A length takes at least one byte and no more than there are, and fits in a
/// machine word.
proof fn lemma_length(b: Seq<u8>)
    ensures
        dec_len(b) matches Ok((v, n)) ==> 1 <= n <= b.len() && v <= usize::MAX,
{
    lemma_varint_bounds();
    lemma_unvarint(b, 5, 15);
    lemma_unvarint(b, 10, 1);
}

proof fn lemma_len_roundtrip(v: nat, rest: Seq<u8>)
    requires
        v <= usize::MAX,
    ensures
        dec_len(varint(v) + rest) == Ok::<(nat, nat), WireError>((v, varint(v).len())),
{
    lemma_varint_bounds();
    if usize::MAX == u32::MAX {
        lemma_varint(v, 5, 15, rest);
    } else {
        lemma_varint(v, 10, 1, rest);
    }
}

fn put_len(n: usize, out: &mut Vec<u8>)
    ensures
        final(out)@ == old(out)@ + varint(n as nat),
{
    let mut b: Vec<u8> = postcard_bytes(n as u64);
    out.append(&mut b);
}

fn take_len(b: &[u8], at: usize) -> (r: Result<(usize, usize), WireError>)
    requires
        at <= b@.len(),
    ensures
        match (r, dec_len(b@.skip(at as int))) {
            (Ok((v, next)), Ok((m, n))) => v == m && next == at + n && next <= b@.len(),
            (Err(e), Err(f)) => e == f,
            _ => false,
        },
{
    proof {
        lemma_length(b@.skip(at as int));
    }
    if usize::MAX as u64 == u32::MAX as u64 {
        match postcard_u32(tail(b, at)) {
            Ok((v, left)) => Ok((v as usize, b.len() - left)),
            Err(e) => Err(e),
        }
    } else {
        match postcard_u64(tail(b, at)) {
            Ok((v, left)) => Ok((v as usize, b.len() - left)),
            Err(e) => Err(e),
        }
    }
}

/// The bytes of a list's items.
pub open spec fn enc_items<T: Wire>(ms: Seq<T::M>) -> Seq<u8>
    decreases ms.len(),
{
    if ms.len() == 0 {
        seq![]
    } else {
        T::enc(ms[0]) + enc_items::<T>(ms.skip(1))
    }
}

/// `n` items from the start of `b`.
pub open spec fn dec_items<T: Wire>(b: Seq<u8>, n: nat) -> Result<(Seq<T::M>, nat), WireError>
    decreases n,
{
    if n == 0 {
        Ok((seq![], 0))
    } else {
        match T::dec(b) {
            Err(e) => Err(e),
            Ok((m, k)) => match dec_items::<T>(b.skip(k as int), (n - 1) as nat) {
                Err(e) => Err(e),
                Ok((ms, j)) => Ok((seq![m] + ms, k + j)),
            },
        }
    }
}

proof fn lemma_items_len<T: Wire>(b: Seq<u8>, n: nat)
    ensures
        dec_items::<T>(b, n) matches Ok((ms, k)) ==> k <= b.len(),
    decreases n,
{
    if n > 0 {
        T::lemma_dec_len(b);
        if let Ok((m, k)) = T::dec(b) {
            lemma_items_len::<T>(b.skip(k as int), (n - 1) as nat);
        }
    }
}

proof fn lemma_items_roundtrip<T: Wire>(ms: Seq<T::M>, rest: Seq<u8>)
    requires
        forall|i: int| 0 <= i < ms.len() ==> T::sized(#[trigger] ms[i]),
    ensures
        dec_items::<T>(enc_items::<T>(ms) + rest, ms.len()) == Ok::<(Seq<T::M>, nat), WireError>(
            (ms, enc_items::<T>(ms).len()),
        ),
    decreases ms.len(),
{
    if ms.len() > 0 {
        let more = enc_items::<T>(ms.skip(1));
        let b = enc_items::<T>(ms) + rest;
        assert(T::sized(ms[0]));
        T::lemma_roundtrip(ms[0], more + rest);
        assert(b =~= T::enc(ms[0]) + (more + rest));
        assert(b.skip(T::enc(ms[0]).len() as int) =~= more + rest);
        assert forall|i: int| 0 <= i < ms.skip(1).len() implies T::sized(
            #[trigger] ms.skip(1)[i],
        ) by {
            assert(T::sized(ms[i + 1]));
        }
        lemma_items_roundtrip::<T>(ms.skip(1), rest);
        assert(seq![ms[0]] + ms.skip(1) =~= ms);
    } else {
        assert(ms =~= seq![]);
    }
}

/// The meanings of a list's items.
pub open spec fn models<T: Wire>(s: Seq<T>) -> Seq<T::M> {
    Seq::new(s.len(), |i: int| s[i].model())
}

impl<T: Wire> Wire for Vec<T> {
    type M = Seq<T::M>;

    open spec fn model(&self) -> Seq<T::M> {
        models(self@)
    }

    open spec fn sized(m: Seq<T::M>) -> bool {
        m.len() <= usize::MAX && forall|i: int| 0 <= i < m.len() ==> T::sized(#[trigger] m[i])
    }

    open spec fn enc(m: Seq<T::M>) -> Seq<u8> {
        varint(m.len()) + enc_items::<T>(m)
    }

    open spec fn dec(b: Seq<u8>) -> Result<(Seq<T::M>, nat), WireError> {
        match dec_len(b) {
            Err(e) => Err(e),
            Ok((len, n)) => match dec_items::<T>(b.skip(n as int), len) {
                Err(e) => Err(e),
                Ok((ms, k)) => Ok((ms, n + k)),
            },
        }
    }

    proof fn lemma_dec_len(b: Seq<u8>) {
        lemma_length(b);
        if let Ok((len, n)) = dec_len(b) {
            lemma_items_len::<T>(b.skip(n as int), len);
        }
    }

    proof fn lemma_roundtrip(m: Seq<T::M>, rest: Seq<u8>) {
        let items = enc_items::<T>(m);
        lemma_len_roundtrip(m.len(), items + rest);
        let b = Self::enc(m) + rest;
        assert(b =~= varint(m.len()) + (items + rest));
        assert(b.skip(varint(m.len()).len() as int) =~= items + rest);
        lemma_items_roundtrip::<T>(m, rest);
    }

    fn put(&self, out: &mut Vec<u8>) {
        let ghost start = out@;
        put_len(self.len(), out);
        let ghost ms = models(self@);
        let ghost head = start + varint(ms.len());
        assert(ms.skip(0) =~= ms);
        let mut i: usize = 0;
        while i < self.len()
            invariant
                i <= self@.len(),
                ms == models(self@),
                out@ + enc_items::<T>(ms.skip(i as int)) == head + enc_items::<T>(ms),
            decreases self@.len() - i,
        {
            let ghost before = out@;
            self[i].put(out);
            proof {
                let left = ms.skip(i as int);
                assert(left.skip(1) =~= ms.skip(i + 1));
                assert(left[0] == self@[i as int].model());
                assert(out@ + enc_items::<T>(ms.skip(i + 1)) =~= before + enc_items::<T>(left));
            }
            i = i + 1;
        }
        assert(ms.skip(i as int).len() == 0);
        assert(out@ =~= out@ + enc_items::<T>(ms.skip(i as int)));
        assert(out@ =~= start + Self::enc(self.model()));
    }

    fn take(b: &[u8], at: usize) -> (r: Result<(Self, usize), WireError>) {
        match take_len(b, at) {
            Err(e) => Err(e),
            Ok((len, first)) => {
                let ghost head = b@.skip(first as int);
                proof {
                    assert(b@.skip(at as int).skip(first - at) =~= head);
                }
                let mut out: Vec<T> = Vec::new();
                let mut cur: usize = first;
                let mut i: usize = 0;
                proof {
                    if let Ok((ms, k)) = dec_items::<T>(head, len as nat) {
                        assert(seq![] + ms =~= ms);
                    }
                    assert(models(out@) =~= seq![]);
                }
                while i < len
                    invariant
                        i <= len,
                        at <= first <= cur <= b@.len(),
                        head == b@.skip(first as int),
                        dec_items::<T>(head, len as nat) == (match dec_items::<T>(
                            b@.skip(cur as int),
                            (len - i) as nat,
                        ) {
                            Err(e) => Err::<(Seq<T::M>, nat), WireError>(e),
                            Ok((ms, k)) => Ok((models(out@) + ms, (cur - first + k) as nat)),
                        }),
                        b@.skip(at as int).skip(first - at) == head,
                        dec_len(b@.skip(at as int)) == Ok::<(nat, nat), WireError>(
                            (len as nat, (first - at) as nat),
                        ),
                    decreases len - i,
                {
                    match T::take(b, cur) {
                        Err(e) => {
                            return Err(e);
                        },
                        Ok((v, next)) => {
                            proof {
                                assert(b@.skip(cur as int).skip(next - cur) =~= b@.skip(
                                    next as int,
                                ));
                                let was = models(out@);
                                assert(models(out@.push(v)) =~= was.push(v.model()));
                                if let Ok((ms, k)) = dec_items::<T>(
                                    b@.skip(next as int),
                                    (len - i - 1) as nat,
                                ) {
                                    assert(was + (seq![v.model()] + ms) =~= was.push(v.model())
                                        + ms);
                                }
                            }
                            out.push(v);
                            cur = next;
                            i = i + 1;
                        },
                    }
                }
                assert(models(out@) + seq![] =~= models(out@));
                Ok((out, cur))
            },
        }
    }
}

impl Wire for String {
    type M = Seq<char>;

    open spec fn model(&self) -> Seq<char> {
        self@
    }

    open spec fn sized(m: Seq<char>) -> bool {
        vstd::utf8::encode_utf8(m).len() <= usize::MAX
    }

    open spec fn enc(m: Seq<char>) -> Seq<u8> {
        varint(vstd::utf8::encode_utf8(m).len()) + vstd::utf8::encode_utf8(m)
    }

    open spec fn dec(b: Seq<u8>) -> Result<(Seq<char>, nat), WireError> {
        match dec_len(b) {
            Err(e) => Err(e),
            Ok((len, n)) => {
                let text = b.subrange(n as int, (n + len) as int);
                if n + len > b.len() {
                    Err(WireError::UnexpectedEnd)
                } else if !vstd::utf8::valid_utf8(text) {
                    Err(WireError::BadUtf8)
                } else {
                    Ok((vstd::utf8::decode_utf8(text), n + len))
                }
            },
        }
    }

    proof fn lemma_dec_len(b: Seq<u8>) {
    }

    proof fn lemma_roundtrip(m: Seq<char>, rest: Seq<u8>) {
        let text = vstd::utf8::encode_utf8(m);
        lemma_len_roundtrip(text.len(), text + rest);
        let b = Self::enc(m) + rest;
        let n = varint(text.len()).len();
        assert(b =~= varint(text.len()) + (text + rest));
        assert(b.subrange(n as int, (n + text.len()) as int) =~= text);
        vstd::utf8::encode_utf8_valid_utf8(m);
        vstd::utf8::encode_utf8_decode_utf8(m);
    }

    fn put(&self, out: &mut Vec<u8>) {
        let text: &[u8] = self.as_str().as_bytes();
        put_len(text.len(), out);
        let mut copy: Vec<u8> = vstd::slice::slice_to_vec(text);
        assert(copy@ =~= text@);
        out.append(&mut copy);
    }

    fn take(b: &[u8], at: usize) -> (r: Result<(Self, usize), WireError>) {
        proof {
            lemma_length(b@.skip(at as int));
        }
        match take_len(b, at) {
            Err(e) => Err(e),
            Ok((len, first)) => {
                if len > b.len() - first {
                    return Err(WireError::UnexpectedEnd);
                }
                let end: usize = first + len;
                let text: &[u8] = vstd::slice::slice_subrange(b, first, end);
                assert(text@ =~= b@.skip(at as int).subrange(first - at, end - at));
                match utf8_string(text) {
                    None => Err(WireError::BadUtf8),
                    Some(s) => Ok((s, end)),
                }
            },
        }
    }
}

impl<T: Wire> Wire for Option<T> {
    type M = Option<T::M>;

    open spec fn model(&self) -> Option<T::M> {
        match *self {
            None => None,
            Some(v) => Some(v.model()),
        }
    }

    open spec fn sized(m: Option<T::M>) -> bool {
        m is Some ==> T::sized(m->0)
    }

    open spec fn enc(m: Option<T::M>) -> Seq<u8> {
        match m {
            None => seq![0u8],
            Some(v) => seq![1u8] + T::enc(v),
        }
    }

    open spec fn dec(b: Seq<u8>) -> Result<(Option<T::M>, nat), WireError> {
        if b.len() == 0 {
            Err(WireError::UnexpectedEnd)
        } else if b[0] == 0 {
            Ok((None, 1))
        } else if b[0] == 1 {
            match T::dec(b.skip(1)) {
                Err(e) => Err(e),
                Ok((m, n)) => Ok((Some(m), n + 1)),
            }
        } else {
            Err(WireError::BadOption)
        }
    }

    proof fn lemma_dec_len(b: Seq<u8>) {
        if b.len() > 0 {
            T::lemma_dec_len(b.skip(1));
        }
    }

    proof fn lemma_roundtrip(m: Option<T::M>, rest: Seq<u8>) {
        if let Some(v) = m {
            T::lemma_roundtrip(v, rest);
            assert((Self::enc(m) + rest).skip(1) =~= T::enc(v) + rest);
        }
    }

    fn put(&self, out: &mut Vec<u8>) {
        let ghost start = out@;
        match self {
            None => {
                out.push(0);
            },
            Some(v) => {
                out.push(1);
                v.put(out);
                assert(out@ =~= start + (seq![1u8] + T::enc(v.model())));
            },
        }
    }

    fn take(b: &[u8], at: usize) -> (r: Result<(Self, usize), WireError>) {
        if at == b.len() {
            return Err(WireError::UnexpectedEnd);
        }
        if b[at] == 0 {
            Ok((None, at + 1))
        } else if b[at] == 1 {
            assert(b@.skip(at as int).skip(1) =~= b@.skip(at + 1));
            match T::take(b, at + 1) {
                Err(e) => Err(e),
                Ok((v, next)) => Ok((Some(v), next)),
            }
        } else {
            Err(WireError::BadOption)
        }
    }
}

impl<A: Wire, B: Wire> Wire for (A, B) {
    type M = (A::M, B::M);

    open spec fn model(&self) -> (A::M, B::M) {
        (self.0.model(), self.1.model())
    }

    open spec fn sized(m: (A::M, B::M)) -> bool {
        A::sized(m.0) && B::sized(m.1)
    }

    open spec fn enc(m: (A::M, B::M)) -> Seq<u8> {
        A::enc(m.0) + B::enc(m.1)
    }

    open spec fn dec(b: Seq<u8>) -> Result<((A::M, B::M), nat), WireError> {
        match A::dec(b) {
            Err(e) => Err(e),
            Ok((x, n)) => match B::dec(b.skip(n as int)) {
                Err(e) => Err(e),
                Ok((y, k)) => Ok(((x, y), n + k)),
            },
        }
    }

    proof fn lemma_dec_len(b: Seq<u8>) {
        A::lemma_dec_len(b);
        if let Ok((x, n)) = A::dec(b) {
            B::lemma_dec_len(b.skip(n as int));
        }
    }

    proof fn lemma_roundtrip(m: (A::M, B::M), rest: Seq<u8>) {
        A::lemma_roundtrip(m.0, B::enc(m.1) + rest);
        B::lemma_roundtrip(m.1, rest);
        let b = Self::enc(m) + rest;
        assert(b =~= A::enc(m.0) + (B::enc(m.1) + rest));
        assert(b.skip(A::enc(m.0).len() as int) =~= B::enc(m.1) + rest);
    }

    fn put(&self, out: &mut Vec<u8>) {
        let ghost start = out@;
        self.0.put(out);
        self.1.put(out);
        assert(out@ =~= start + Self::enc(self.model()));
    }

    fn take(b: &[u8], at: usize) -> (r: Result<(Self, usize), WireError>) {
        match A::take(b, at) {
            Err(e) => Err(e),
            Ok((x, mid)) => {
                assert(b@.skip(at as int).skip(mid - at) =~= b@.skip(mid as int));
                match B::take(b, mid) {
                    Err(e) => Err(e),
                    Ok((y, next)) => Ok(((x, y), next)),
                }
            },
        }
    }
}

/// A list is its length and then its items, one behind the other in order.
pub proof fn law_list_layout<T: Wire>(a: Seq<T::M>, b: Seq<T::M>, m: T::M)
    ensures
        <Vec<T> as Wire>::enc(seq![]) == seq![0u8],
        <Vec<T> as Wire>::enc(a) == varint(a.len()) + enc_items::<T>(a),
        enc_items::<T>(seq![m]) == T::enc(m),
        enc_items::<T>(a + b) == enc_items::<T>(a) + enc_items::<T>(b),
    decreases a.len(),
{
    let none = Seq::<T::M>::empty();
    assert(enc_items::<T>(none) == Seq::<u8>::empty());
    assert(<Vec<T> as Wire>::enc(none) =~= seq![0u8]);
    let one = seq![m];
    assert(one.skip(1) =~= none);
    assert(enc_items::<T>(one) =~= T::enc(m));
    if a.len() == 0 {
        assert(a + b =~= b);
        assert(enc_items::<T>(a) + enc_items::<T>(b) =~= enc_items::<T>(b));
    } else {
        law_list_layout::<T>(a.skip(1), b, m);
        assert((a + b).skip(1) =~= a.skip(1) + b);
        assert((a + b)[0] == a[0]);
        assert(enc_items::<T>(a + b) =~= enc_items::<T>(a) + enc_items::<T>(b));
    }
}

/// An optional value is a byte that says whether there is one, and the value; a pair
/// is its first and then its second; a text is the number of its bytes and its
/// bytes; a byte is itself.
pub proof fn law_layouts<A: Wire, B: Wire>(a: A::M, b: B::M, text: Seq<char>, x: u8)
    ensures
        <Option<A> as Wire>::enc(None) == seq![0u8],
        <Option<A> as Wire>::enc(Some(a)) == seq![1u8] + A::enc(a),
        <(A, B) as Wire>::enc((a, b)) == A::enc(a) + B::enc(b),
        <String as Wire>::enc(text) == varint(vstd::utf8::encode_utf8(text).len())
            + vstd::utf8::encode_utf8(text),
        <u8 as Wire>::enc(x) == seq![x],
{
}

/// An integer takes seven bits a byte, the low ones first, and every byte but the
/// last has the high bit set.
pub proof fn law_varint(v: nat, i: int)
    requires
        0 <= i < varint(v).len(),
    ensures
        varint(v)[i] < 128 <==> i == varint(v).len() - 1,
        varint(v)[0] % 128 == v % 128,
        v < 128 <==> varint(v).len() == 1,
        v >= 128 ==> varint(v).skip(1) == varint(v / 128),
    decreases v,
{
    if v >= 128 {
        let rest = varint(v / 128);
        assert(varint(v).skip(1) =~= rest);
        assert(rest.len() >= 1);
        if i > 0 {
            law_varint(v / 128, i - 1);
        }
    }
}

/// What cannot be read: nothing at all, a tag that is none, a text that ends early.
pub proof fn law_wire_errors<A: Wire>(tag: u8, rest: Seq<u8>, len: nat, short: Seq<u8>)
    requires
        short.len() < len <= usize::MAX,
    ensures
        <u8 as Wire>::dec(seq![]) == Err::<(u8, nat), WireError>(WireError::UnexpectedEnd),
        <u32 as Wire>::dec(seq![]) == Err::<(u32, nat), WireError>(WireError::UnexpectedEnd),
        <Option<A> as Wire>::dec(seq![]) == Err::<(Option<A::M>, nat), WireError>(
            WireError::UnexpectedEnd,
        ),
        tag > 1 ==> <Option<A> as Wire>::dec(seq![tag] + rest) == Err::<
            (Option<A::M>, nat),
            WireError,
        >(WireError::BadOption),
        <String as Wire>::dec(varint(len) + short) == Err::<(Seq<char>, nat), WireError>(
            WireError::UnexpectedEnd,
        ),
{
    lemma_len_roundtrip(len, short);
}

} // verus!
