//! Versions, asset references, fixed-capacity strings and player input.

use crate::contracts::wire::{utf8_string, Wire, WireError};
use crate::fx::Fx16;
use vstd::prelude::*;

verus! {

/// The revision of the boundary between host and game logic.
pub const ARCH_VERSION: u32 = 2;

/// The schema revision of the components.
pub const COMPONENT_LAYOUT_VERSION: u32 = 1;

/// The marker that host and game logic compare: the revision in the upper half,
/// a build constant in the lower one.
pub fn abi_fingerprint() -> (r: u64)
    ensures
        r == ARCH_VERSION * 0x1_0000_0000 + 0x0E45_0001,
{
    ARCH_VERSION as u64 * 0x1_0000_0000 + 0x0E45_0001
}

/// Whether the linked boundary is the one this build was written for.
pub fn abi_is_current() -> (r: bool)
    ensures
        r == (ARCH_VERSION == 2),
        r,
{
    ARCH_VERSION == 2
}

/// The kind of an asset.
#[derive(Clone, Copy, PartialEq, Eq, Structural, Debug)]
pub enum AssetKind {
    /// An image.
    Texture,
    /// Geometry.
    Mesh,
    /// Sound.
    Audio,
    /// GPU code.
    Shader,
    /// A font.
    Font,
    /// A scene.
    Scene,
}

impl AssetKind {
    /// The number of a kind.
    pub open spec fn number(self) -> u8 {
        match self {
            AssetKind::Texture => 0,
            AssetKind::Mesh => 1,
            AssetKind::Audio => 2,
            AssetKind::Shader => 3,
            AssetKind::Font => 4,
            AssetKind::Scene => 5,
        }
    }

    /// The stable number of this kind.
    pub fn to_u8(self) -> (r: u8)
        ensures
            r == self.number(),
    {
        match self {
            AssetKind::Texture => 0,
            AssetKind::Mesh => 1,
            AssetKind::Audio => 2,
            AssetKind::Shader => 3,
            AssetKind::Font => 4,
            AssetKind::Scene => 5,
        }
    }

    /// The kind of a stable number, if there is one.
    pub fn from_u8(v: u8) -> (r: Option<Self>)
        ensures
            match r {
                Some(k) => k.number() == v,
                None => v > 5,
            },
    {
        match v {
            0 => Some(AssetKind::Texture),
            1 => Some(AssetKind::Mesh),
            2 => Some(AssetKind::Audio),
            3 => Some(AssetKind::Shader),
            4 => Some(AssetKind::Font),
            5 => Some(AssetKind::Scene),
            _ => None,
        }
    }
}

/// Every kind is recovered from its number.
pub proof fn law_asset_numbers_distinct(a: AssetKind, b: AssetKind)
    ensures
        a.number() == b.number() <==> a == b,
{
}

/// A portable reference to an asset.
#[derive(Clone, Copy, PartialEq, Eq, Structural, Debug)]
pub struct AssetRef {
    /// Stable asset id.
    pub id: u64,
    /// Number of the [`AssetKind`].
    pub kind: u8,
}

impl AssetRef {
    /// A reference of a known kind.
    pub fn new(id: u64, kind: AssetKind) -> (r: Self)
        ensures
            r == (AssetRef { id, kind: kind.number() }),
    {
        AssetRef { id, kind: kind.to_u8() }
    }

    /// The kind; a number that is no kind counts as a scene.
    pub fn kind(&self) -> (r: AssetKind)
        ensures
            self.kind <= 5 ==> r.number() == self.kind,
            self.kind > 5 ==> r == AssetKind::Scene,
    {
        match AssetKind::from_u8(self.kind) {
            Some(k) => k,
            None => AssetKind::Scene,
        }
    }

    /// The reference to nothing.
    pub fn none() -> (r: AssetRef)
        ensures
            r == (AssetRef { id: 0, kind: 0 }),
    {
        AssetRef { id: 0, kind: 0 }
    }
}

/// The handle of a loaded sound.
#[derive(Clone, Copy, PartialEq, Eq, Structural, Debug)]
pub struct AudioHandle(pub u64);

/// Deterministic network state.
#[derive(Clone, Copy, PartialEq, Eq, Structural, Debug)]
pub struct NetState {
    /// Simulation tick.
    pub tick: u64,
    /// Player that produced the input.
    pub player_id: u32,
    /// Hash of the batched inputs.
    pub input_hash: u64,
}

/// Display mode of the viewport.
#[derive(Clone, Copy, PartialEq, Eq, Structural, Debug)]
pub enum ViewMode {
    /// Edges only.
    Wireframe,
    /// Plain surfaces.
    Solid,
    /// Textured surfaces.
    Textured,
    /// Lit surfaces.
    Lit,
}

/// The text of bytes with everything that is not UTF-8 replaced.
pub uninterp spec fn utf8_lossy(b: Seq<u8>) -> Seq<char>;

/// `String::from_utf8_lossy` on some bytes: the text that they encode if they
/// are UTF-8, and in any case a text that depends on them alone.
#[verifier::external_body]
fn lossy_text(b: &[u8]) -> (r: String)
    ensures
        r@ == utf8_lossy(b@),
        vstd::utf8::valid_utf8(b@) ==> r@ == vstd::utf8::decode_utf8(b@),
{
    String::from_utf8_lossy(b).into_owned()
}

/// Where the last character of some bytes starts: behind it stand continuation
/// bytes only.
pub open spec fn last_start(b: Seq<u8>) -> int
    decreases b.len(),
{
    if b.len() == 0 {
        0
    } else if vstd::utf8::is_continuation_byte(b.last()) {
        last_start(b.drop_last())
    } else {
        b.len() - 1
    }
}

/// Whether some bytes are the beginning of a character without its end.
pub open spec fn cut_char(t: Seq<u8>) -> bool {
    exists|c: char|
        t.len() < (#[trigger] vstd::utf8::encode_scalar(c as u32)).len() && t.is_prefix_of(
            vstd::utf8::encode_scalar(c as u32),
        )
}

/// The number of bytes that whole characters take: all of them, or those before
/// a last character of which only the beginning is there.
pub open spec fn whole_len(b: Seq<u8>) -> int {
    let i = last_start(b);
    if i < b.len() && cut_char(b.skip(i)) {
        i
    } else {
        b.len() as int
    }
}

/// The text of the bytes of a fixed-capacity string. Of a character that was cut
/// nothing is shown; bytes that are no text are shown with replacements.
pub open spec fn fixed_text(b: Seq<u8>) -> Seq<char> {
    let whole = b.take(whole_len(b));
    if vstd::utf8::valid_utf8(whole) {
        vstd::utf8::decode_utf8(whole)
    } else {
        utf8_lossy(b)
    }
}

/// A string of at most `N` bytes, held in place.
#[derive(Clone, Copy, PartialEq, Eq, Debug)]
pub struct FixedString<const N: usize> {
    /// The bytes; those behind the length are zero.
    pub bytes: [u8; N],
    /// Number of bytes in use.
    pub len: u32,
}

impl<const N: usize> FixedString<N> {
    /// The bytes in use are among those there are.
    pub open spec fn wf(&self) -> bool {
        self.len <= N
    }

    /// The bytes in use.
    pub open spec fn used(&self) -> Seq<u8> {
        self.bytes@.take(self.len as int)
    }

    /// The empty string.
    pub fn empty() -> (r: Self)
        ensures
            r.wf(),
            r.len == 0,
            r.bytes@ == Seq::new(N as nat, |i: int| 0u8),
    {
        let r = FixedString { bytes: vstd::array::array_fill_for_copy_types::<u8, N>(0), len: 0 };
        assert(r.bytes@ =~= Seq::new(N as nat, |i: int| 0u8));
        r
    }

    /// The first `N` bytes of a string.
    pub fn new(s: &str) -> (r: Self)
        requires
            N <= u32::MAX,
        ensures
            r.wf(),
            r.len == if vstd::utf8::encode_utf8(s@).len() < N {
                vstd::utf8::encode_utf8(s@).len() as int
            } else {
                N as int
            },
            r.used() == vstd::utf8::encode_utf8(s@).take(r.len as int),
            forall|i: int| r.len <= i < N ==> r.bytes@[i] == 0,
    {
        let src: &[u8] = s.as_bytes();
        let n: usize = if src.len() < N {
            src.len()
        } else {
            N
        };
        let mut bytes: [u8; N] = vstd::array::array_fill_for_copy_types::<u8, N>(0);
        let mut i: usize = 0;
        while i < n
            invariant
                i <= n <= N,
                n <= src@.len(),
                forall|k: int| 0 <= k < i ==> bytes@[k] == src@[k],
                forall|k: int| i <= k < N ==> bytes@[k] == 0,
            decreases n - i,
        {
            bytes[i] = src[i];
            i = i + 1;
        }
        let r = FixedString { bytes, len: n as u32 };
        assert(r.used() =~= src@.take(n as int));
        r
    }

    /// The text. That of a string which did not fit is a prefix of it: what is
    /// left of a character that was cut is not shown.
    pub fn as_str(&self) -> (r: String)
        requires
            self.wf(),
        ensures
            r@ == fixed_text(self.used()),
            forall|s: Seq<char>|
                self.len <= (#[trigger] vstd::utf8::encode_utf8(s)).len() && self.used()
                    == vstd::utf8::encode_utf8(s).take(self.len as int) ==> r@.is_prefix_of(s)
                    && (self.len == vstd::utf8::encode_utf8(s).len() ==> r@ == s),
    {
        let len: usize = self.len as usize;
        let used: &[u8] = vstd::slice::slice_subrange(self.bytes.as_slice(), 0, len);
        assert(used@ =~= self.used());
        let n: usize = whole_bytes(used);
        let whole: &[u8] = vstd::slice::slice_subrange(used, 0, n);
        assert(whole@ =~= used@.take(n as int));
        proof {
            assert forall|s: Seq<char>|
                self.len <= (#[trigger] vstd::utf8::encode_utf8(s)).len() && self.used()
                    == vstd::utf8::encode_utf8(s).take(self.len as int) implies fixed_text(
                self.used(),
            ).is_prefix_of(s) && (self.len == vstd::utf8::encode_utf8(s).len() ==> fixed_text(
                self.used(),
            ) == s) by {
                law_cut_text_is_prefix(s, self.len as nat);
            }
        }
        match utf8_string(whole) {
            Some(t) => t,
            None => lossy_text(used),
        }
    }
}

/// Whether byte `b` may stand behind `a` in a character of three bytes or more.
spec fn second_fits(a: u8, b: u8) -> bool {
    &&& 0xe0 <= a <= 0xf4
    &&& 0x80 <= b <= 0xbf
    &&& a == 0xe0 ==> b >= 0xa0
    &&& a == 0xed ==> b <= 0x9f
    &&& a == 0xf0 ==> b >= 0x90
    &&& a == 0xf4 ==> b <= 0x8f
}

/// The bytes of characters of two bytes: what the first is, and that every such
/// byte is one.
proof fn lemma_two_bytes(v: u32, a: u8)
    ensures
        vstd::utf8::has_width_2_encoding(v) ==> 0xc2 <= vstd::utf8::leading_byte_width_2(v) <= 0xdf,
        0xc2 <= a <= 0xdf ==> ({
            let w = ((a & 0x1f) as u32) << 6;
            vstd::utf8::has_width_2_encoding(w) && vstd::utf8::leading_byte_width_2(w) == a
        }),
{
    assert(0x80 <= v <= 0x7ff ==> 0xc2 <= (0xc0u8 | ((v >> 6) & 0x1f) as u8) <= 0xdf)
        by (bit_vector);
    assert(0xc2 <= a <= 0xdf ==> 0x80 <= (((a & 0x1f) as u32) << 6) <= 0x7ff && (0xc0u8 | ((((((a
        & 0x1f) as u32) << 6) >> 6) & 0x1f) as u8)) == a) by (bit_vector);
}

/// The bytes of characters of three bytes: what the first two are, and that every
/// such pair is one.
proof fn lemma_three_bytes(v: u32, a: u8, b: u8)
    ensures
        vstd::utf8::has_width_3_encoding(v) ==> vstd::utf8::leading_byte_width_3(v) <= 0xef
            && second_fits(
            vstd::utf8::leading_byte_width_3(v),
            vstd::utf8::second_last_continuation_byte(v),
        ),
        second_fits(a, b) && a <= 0xef ==> ({
            let w = (((a & 0x0f) as u32) << 12) | (((b & 0x3f) as u32) << 6);
            vstd::utf8::has_width_3_encoding(w) && vstd::utf8::leading_byte_width_3(w) == a
                && vstd::utf8::second_last_continuation_byte(w) == b
        }),
{
    let x = vstd::utf8::leading_byte_width_3(v);
    let y = vstd::utf8::second_last_continuation_byte(v);
    assert(0x800 <= v <= 0xffff && !(0xd800 <= v <= 0xdfff) && x == (0xe0u8 | ((v >> 12) & 0x0f)
        as u8) && y == (0x80u8 | ((v >> 6) & 0x3f) as u8) ==> 0xe0 <= x <= 0xef && 0x80 <= y <= 0xbf
        && (x == 0xe0 ==> y >= 0xa0) && (x == 0xed ==> y <= 0x9f)) by (bit_vector);
    let w = (((a & 0x0f) as u32) << 12) | (((b & 0x3f) as u32) << 6);
    assert(0xe0 <= a <= 0xef && 0x80 <= b <= 0xbf && (a == 0xe0 ==> b >= 0xa0) && (a == 0xed ==> b
        <= 0x9f) && w == ((((a & 0x0f) as u32) << 12) | (((b & 0x3f) as u32) << 6)) ==> 0x800 <= w
        <= 0xffff && !(0xd800 <= w <= 0xdfff) && (0xe0u8 | ((w >> 12) & 0x0f) as u8) == a && (0x80u8
        | ((w >> 6) & 0x3f) as u8) == b) by (bit_vector);
}

/// The bytes of characters of four bytes: what the first three are, and that every
/// such triple is one.
proof fn lemma_four_bytes(v: u32, a: u8, b: u8, c: u8)
    ensures
        vstd::utf8::has_width_4_encoding(v) ==> vstd::utf8::leading_byte_width_4(v) >= 0xf0
            && second_fits(
            vstd::utf8::leading_byte_width_4(v),
            vstd::utf8::third_last_continuation_byte(v),
        ) && vstd::utf8::is_continuation_byte(vstd::utf8::second_last_continuation_byte(v)),
        second_fits(a, b) && a >= 0xf0 && vstd::utf8::is_continuation_byte(c) ==> ({
            let w = (((a & 0x07) as u32) << 18) | (((b & 0x3f) as u32) << 12) | (((c & 0x3f)
                as u32) << 6);
            vstd::utf8::has_width_4_encoding(w) && vstd::utf8::leading_byte_width_4(w) == a
                && vstd::utf8::third_last_continuation_byte(w) == b
                && vstd::utf8::second_last_continuation_byte(w) == c
        }),
{
    let x = vstd::utf8::leading_byte_width_4(v);
    let y = vstd::utf8::third_last_continuation_byte(v);
    let z = vstd::utf8::second_last_continuation_byte(v);
    assert(0x10000 <= v <= 0x10ffff && x == (0xf0u8 | ((v >> 18) & 0x7) as u8) && y == (0x80u8 | ((v
        >> 12) & 0x3f) as u8) && z == (0x80u8 | ((v >> 6) & 0x3f) as u8) ==> 0xf0 <= x <= 0xf4
        && 0x80 <= y <= 0xbf && 0x80 <= z <= 0xbf && (x == 0xf0 ==> y >= 0x90) && (x == 0xf4 ==> y
        <= 0x8f)) by (bit_vector);
    let w = (((a & 0x07) as u32) << 18) | (((b & 0x3f) as u32) << 12) | (((c & 0x3f) as u32) << 6);
    assert(0xf0 <= a <= 0xf4 && 0x80 <= b <= 0xbf && 0x80 <= c <= 0xbf && (a == 0xf0 ==> b >= 0x90)
        && (a == 0xf4 ==> b <= 0x8f) && w == ((((a & 0x07) as u32) << 18) | (((b & 0x3f) as u32)
        << 12) | (((c & 0x3f) as u32) << 6)) ==> 0x10000 <= w <= 0x10ffff && (0xf0u8 | ((w >> 18)
        & 0x7) as u8) == a && (0x80u8 | ((w >> 12) & 0x3f) as u8) == b && (0x80u8 | ((w >> 6)
        & 0x3f) as u8) == c) by (bit_vector);
}

/// The beginnings of characters, byte by byte.
spec fn cut_form(t: Seq<u8>) -> bool {
    ||| t.len() == 1 && 0xc2 <= t[0] <= 0xf4
    ||| t.len() == 2 && second_fits(t[0], t[1])
    ||| t.len() == 3 && t[0] >= 0xf0 && second_fits(t[0], t[1]) && vstd::utf8::is_continuation_byte(
        t[2],
    )
}

/// A beginning of a character has the form of one.
proof fn lemma_cut_has_form(t: Seq<u8>, c: char)
    requires
        0 < t.len() < vstd::utf8::encode_scalar(c as u32).len(),
        t.is_prefix_of(vstd::utf8::encode_scalar(c as u32)),
    ensures
        cut_form(t),
{
    let v = c as u32;
    let e = vstd::utf8::encode_scalar(v);
    lemma_two_bytes(v, 0);
    lemma_three_bytes(v, 0, 0);
    lemma_four_bytes(v, 0, 0, 0);
    assert(t =~= e.take(t.len() as int));
    assert(t[0] == e[0]);
    if t.len() > 1 {
        assert(t[1] == e[1]);
    }
    if t.len() > 2 {
        assert(t[2] == e[2]);
    }
}

/// What has the form of a beginning of a character is one.
proof fn lemma_form_is_cut(t: Seq<u8>)
    requires
        cut_form(t),
    ensures
        cut_char(t),
{
    let a = t[0];
    if a <= 0xdf {
        lemma_two_bytes(0, a);
        lemma_witness(t, ((a & 0x1f) as u32) << 6);
    } else {
        let b = if t.len() > 1 {
            t[1]
        } else if a == 0xe0 {
            0xa0
        } else if a == 0xf0 {
            0x90
        } else {
            0x80
        };
        let c = if t.len() > 2 {
            t[2]
        } else {
            0x80
        };
        assert(second_fits(a, b));
        if a <= 0xef {
            lemma_three_bytes(0, a, b);
            lemma_witness(t, (((a & 0x0f) as u32) << 12) | (((b & 0x3f) as u32) << 6));
        } else {
            lemma_four_bytes(0, a, b, c);
            lemma_witness(
                t,
                (((a & 0x07) as u32) << 18) | (((b & 0x3f) as u32) << 12) | (((c & 0x3f) as u32)
                    << 6),
            );
        }
    }
}

/// A scalar whose encoding begins with `t` and goes on is a character that `t` was
/// cut from.
proof fn lemma_witness(t: Seq<u8>, v: u32)
    requires
        vstd::utf8::is_scalar(v),
        t.len() < vstd::utf8::encode_scalar(v).len(),
        forall|i: int| 0 <= i < t.len() ==> t[i] == vstd::utf8::encode_scalar(v)[i],
    ensures
        cut_char(t),
{
    let c = v as char;
    assert(c as u32 == v);
    assert(t =~= vstd::utf8::encode_scalar(c as u32).take(t.len() as int));
}

/// Whether a byte and the continuation bytes behind it are the beginning of a
/// character without its end.
fn is_cut(t: &[u8]) -> (r: bool)
    requires
        t@.len() > 0,
        forall|k: int| 0 < k < t@.len() ==> vstd::utf8::is_continuation_byte(#[trigger] t@[k]),
    ensures
        r == cut_char(t@),
{
    let a: u8 = t[0];
    let r = if t.len() == 1 {
        a >= 0xc2 && a <= 0xf4
    } else if t.len() == 2 || (t.len() == 3 && a >= 0xf0) {
        let b: u8 = t[1];
        a >= 0xe0 && a <= 0xf4 && (a != 0xe0 || b >= 0xa0) && (a != 0xed || b <= 0x9f) && (a
            != 0xf0 || b >= 0x90) && (a != 0xf4 || b <= 0x8f)
    } else {
        false
    };
    proof {
        if t@.len() > 1 {
            assert(vstd::utf8::is_continuation_byte(t@[1]));
        }
        if t@.len() > 2 {
            assert(vstd::utf8::is_continuation_byte(t@[2]));
        }
        assert(r == cut_form(t@));
        if r {
            lemma_form_is_cut(t@);
        }
        if cut_char(t@) {
            let c = choose|c: char|
                t@.len() < (#[trigger] vstd::utf8::encode_scalar(c as u32)).len()
                    && t@.is_prefix_of(vstd::utf8::encode_scalar(c as u32));
            lemma_cut_has_form(t@, c);
        }
    }
    r
}

/// Counts the bytes that whole characters take.
fn whole_bytes(b: &[u8]) -> (r: usize)
    ensures
        r == whole_len(b@),
        r <= b@.len(),
{
    let mut i: usize = b.len();
    assert(b@.take(i as int) =~= b@);
    while i > 0 && b[i - 1] >= 0x80 && b[i - 1] < 0xc0
        invariant
            i <= b@.len(),
            last_start(b@.take(i as int)) == last_start(b@),
            forall|k: int|
                i <= k < b@.len() ==> vstd::utf8::is_continuation_byte(#[trigger] b@[k]),
        decreases i,
    {
        let ghost t = b@.take(i as int);
        assert(t.last() == b@[i - 1]);
        assert(t.drop_last() =~= b@.take(i - 1));
        i = i - 1;
    }
    let start: usize = if i == 0 {
        0
    } else {
        i - 1
    };
    proof {
        if i > 0 {
            assert(b@.take(i as int).last() == b@[i - 1]);
        }
    }
    if start == b.len() {
        return b.len();
    }
    let last: &[u8] = vstd::slice::slice_subrange(b, start, b.len());
    assert(last@ =~= b@.skip(start as int));
    if is_cut(last) {
        start
    } else {
        b.len()
    }
}

/// The last start is a position whose byte is no continuation byte, unless there
/// is none.
proof fn lemma_last_start(b: Seq<u8>)
    ensures
        0 <= last_start(b) <= b.len(),
        forall|k: int|
            last_start(b) < k < b.len() ==> vstd::utf8::is_continuation_byte(#[trigger] b[k]),
        b.len() > 0 && !vstd::utf8::is_continuation_byte(b[0]) ==> last_start(b) < b.len()
            && !vstd::utf8::is_continuation_byte(b[last_start(b)]),
    decreases b.len(),
{
    if b.len() > 0 && vstd::utf8::is_continuation_byte(b.last()) {
        lemma_last_start(b.drop_last());
        assert forall|k: int| last_start(b) < k < b.len() implies vstd::utf8::is_continuation_byte(
            #[trigger] b[k],
        ) by {
            if k < b.len() - 1 {
                assert(b.drop_last()[k] == b[k]);
            }
        }
    }
}

/// However many bytes of a text are kept, what they show is a prefix of it; all
/// of them show the text itself.
pub proof fn law_cut_text_is_prefix(s: Seq<char>, n: nat)
    requires
        n <= vstd::utf8::encode_utf8(s).len(),
    ensures
        fixed_text(vstd::utf8::encode_utf8(s).take(n as int)).is_prefix_of(s),
        n == vstd::utf8::encode_utf8(s).len() ==> fixed_text(
            vstd::utf8::encode_utf8(s).take(n as int),
        ) == s,
{
    let full = vstd::utf8::encode_utf8(s);
    let b = full.take(n as int);
    vstd::utf8::encode_utf8_valid_utf8(s);
    vstd::utf8::encode_utf8_decode_utf8(s);
    vstd::utf8::is_char_boundary_start_end_of_seq(full);
    let m = whole_len(b);
    if n > 0 {
        vstd::utf8::is_char_boundary_iff_not_is_continuation_byte(full, 0);
        assert(b[0] == full[0]);
        lemma_last_start(b);
        let i = last_start(b);
        assert(b[i] == full[i]);
        vstd::utf8::is_char_boundary_iff_not_is_continuation_byte(full, i);
        lemma_next_boundary(full, i);
        let c = choose|c: char|
            {
                let e = #[trigger] vstd::utf8::encode_scalar(c as u32);
                i + e.len() <= full.len() && vstd::utf8::is_char_boundary(full, i + e.len()) && e
                    == full.subrange(i, i + e.len())
            };
        let e = vstd::utf8::encode_scalar(c as u32);
        let w = e.len() as int;
        let t = b.skip(i);
        assert(e[0] == full[i] && t[0] == full[i]);
        if i + w < n {
            vstd::utf8::is_char_boundary_iff_not_is_continuation_byte(full, i + w);
            assert(b[i + w] == full[i + w]);
        }
        if i + w == n {
            if cut_char(t) {
                let d = choose|d: char|
                    t.len() < (#[trigger] vstd::utf8::encode_scalar(d as u32)).len()
                        && t.is_prefix_of(vstd::utf8::encode_scalar(d as u32));
                assert(t[0] == vstd::utf8::encode_scalar(d as u32)[0]);
                lemma_width_by_first(c, d);
            }
        } else {
            assert(t =~= e.take(t.len() as int));
            assert(cut_char(t));
        }
        assert(vstd::utf8::is_char_boundary(full, m));
    }
    vstd::utf8::valid_utf8_split(full, m);
    vstd::utf8::decode_utf8_split(full, m);
    assert(b.take(m) =~= full.subrange(0, m));
    if n == full.len() {
        assert(b =~= full);
        assert(full.subrange(0, m) =~= full);
    }
}

/// Characters that start with the same byte have as many bytes.
proof fn lemma_width_by_first(c: char, d: char)
    requires
        vstd::utf8::encode_scalar(c as u32)[0] == vstd::utf8::encode_scalar(d as u32)[0],
    ensures
        vstd::utf8::encode_scalar(c as u32).len() == vstd::utf8::encode_scalar(d as u32).len(),
{
    lemma_first_byte(c);
    lemma_first_byte(d);
}

/// What the first byte of a character says of its width.
proof fn lemma_first_byte(c: char)
    ensures
        ({
            let e = vstd::utf8::encode_scalar(c as u32);
            &&& e.len() == 1 <==> e[0] < 0x80
            &&& e.len() == 2 <==> 0xc2 <= e[0] <= 0xdf
            &&& e.len() == 3 <==> 0xe0 <= e[0] <= 0xef
            &&& e.len() == 4 <==> 0xf0 <= e[0]
        }),
{
    let v = c as u32;
    lemma_two_bytes(v, 0);
    lemma_three_bytes(v, 0, 0);
    lemma_four_bytes(v, 0, 0, 0);
    assert((v & 0x7f) as u8 <= 0x7f) by (bit_vector);
}

/// At a boundary stands a character, and behind it the next boundary.
proof fn lemma_next_boundary(b: Seq<u8>, i: int)
    requires
        vstd::utf8::valid_utf8(b),
        0 <= i < b.len(),
        vstd::utf8::is_char_boundary(b, i),
    ensures
        exists|c: char|
            {
                let e = #[trigger] vstd::utf8::encode_scalar(c as u32);
                i + e.len() <= b.len() && vstd::utf8::is_char_boundary(b, i + e.len()) && e
                    == b.subrange(i, i + e.len())
            },
    decreases b.len(),
{
    let w = vstd::utf8::length_of_first_scalar(b);
    let rest = vstd::utf8::pop_first_scalar(b);
    let text = vstd::utf8::decode_utf8(b);
    if i == 0 {
        vstd::utf8::decode_utf8_encode_utf8(b);
        let c = text[0];
        let e = vstd::utf8::encode_scalar(c as u32);
        assert(b == e + vstd::utf8::encode_utf8(text.drop_first()));
        assert(e =~= b.subrange(0, e.len() as int));
        assert(b[0] == e[0]);
        lemma_first_byte(c);
        assert(w == e.len());
        vstd::utf8::is_char_boundary_start_end_of_seq(rest);
    } else {
        reveal_with_fuel(vstd::utf8::is_char_boundary, 2);
        lemma_next_boundary(rest, i - w);
        let c = choose|c: char|
            {
                let e = #[trigger] vstd::utf8::encode_scalar(c as u32);
                i - w + e.len() <= rest.len() && vstd::utf8::is_char_boundary(
                    rest,
                    i - w + e.len(),
                ) && e == rest.subrange(i - w, i - w + e.len())
            };
        let e = vstd::utf8::encode_scalar(c as u32);
        assert(e =~= b.subrange(i, i + e.len()));
    }
}

/// A string that fits in `N` bytes is held whole: the bytes in use are UTF-8
/// for it, so [`FixedString::as_str`] gives it back.
pub proof fn law_fixed_string_keeps_text<const N: usize>(s: Seq<char>, f: FixedString<N>)
    requires
        vstd::utf8::encode_utf8(s).len() <= N,
        f.len == vstd::utf8::encode_utf8(s).len(),
        f.used() == vstd::utf8::encode_utf8(s).take(f.len as int),
    ensures
        fixed_text(f.used()) == s,
{
    law_cut_text_is_prefix(s, f.len as nat);
}

/// What the player wants, as data for game logic.
#[derive(Clone, Copy, PartialEq, Eq, Structural, Debug)]
pub struct PlayerInput {
    /// 1 = up.
    pub up: u8,
    /// 1 = down.
    pub down: u8,
    /// 1 = left.
    pub left: u8,
    /// 1 = right.
    pub right: u8,
    /// Speed in whole units.
    pub speed: u32,
}

impl PlayerInput {
    /// Nothing pressed, at the default speed.
    pub fn none() -> (r: Self)
        ensures
            r == (PlayerInput { up: 0, down: 0, left: 0, right: 0, speed: 5 }),
    {
        PlayerInput { up: 0, down: 0, left: 0, right: 0, speed: 5 }
    }
}

impl Default for PlayerInput {
    /// Nothing pressed, at the default speed.
    fn default() -> (r: Self)
        ensures
            r == (PlayerInput { up: 0, down: 0, left: 0, right: 0, speed: 5 }),
    {
        PlayerInput::none()
    }
}

/// The fields of a player input, in order.
pub type InputFields = ((u8, u8), (u8, (u8, u32)));

impl Wire for PlayerInput {
    type M = PlayerInput;

    open spec fn model(&self) -> PlayerInput {
        *self
    }

    open spec fn sized(m: PlayerInput) -> bool {
        true
    }

    open spec fn enc(m: PlayerInput) -> Seq<u8> {
        <InputFields as Wire>::enc(((m.up, m.down), (m.left, (m.right, m.speed))))
    }

    open spec fn dec(b: Seq<u8>) -> Result<(PlayerInput, nat), WireError> {
        match <InputFields as Wire>::dec(b) {
            Ok((v, n)) => Ok(
                (
                    PlayerInput {
                        up: v.0.0,
                        down: v.0.1,
                        left: v.1.0,
                        right: v.1.1.0,
                        speed: v.1.1.1,
                    },
                    n,
                ),
            ),
            Err(e) => Err(e),
        }
    }

    proof fn lemma_dec_len(b: Seq<u8>) {
        <InputFields as Wire>::lemma_dec_len(b);
    }

    proof fn lemma_roundtrip(m: PlayerInput, rest: Seq<u8>) {
        <InputFields as Wire>::lemma_roundtrip(
            ((m.up, m.down), (m.left, (m.right, m.speed))),
            rest,
        );
    }

    fn put(&self, out: &mut Vec<u8>) {
        ((self.up, self.down), (self.left, (self.right, self.speed))).put(out);
    }

    fn take(b: &[u8], at: usize) -> (r: Result<(Self, usize), WireError>) {
        match <InputFields as Wire>::take(b, at) {
            Ok((v, next)) => Ok(
                (
                    PlayerInput {
                        up: v.0.0,
                        down: v.0.1,
                        left: v.1.0,
                        right: v.1.1.0,
                        speed: v.1.1.1,
                    },
                    next,
                ),
            ),
            Err(e) => Err(e),
        }
    }
}

/// 3D gameplay input: movement keys, jump and look deltas.
#[derive(Clone, Copy, PartialEq, Eq, Structural, Debug)]
pub struct InputState3D {
    /// Camera yaw delta.
    pub yaw_delta: Fx16,
    /// Camera pitch delta.
    pub pitch_delta: Fx16,
    /// 1 = forward.
    pub forward: u8,
    /// 1 = backward.
    pub backward: u8,
    /// 1 = left.
    pub left: u8,
    /// 1 = right.
    pub right: u8,
    /// 1 = jump.
    pub jump: u8,
}

impl InputState3D {
    /// No input.
    pub open spec fn spec_none() -> Self {
        InputState3D {
            yaw_delta: Fx16 { bits: 0 },
            pitch_delta: Fx16 { bits: 0 },
            forward: 0,
            backward: 0,
            left: 0,
            right: 0,
            jump: 0,
        }
    }

    /// No input.
    pub fn none() -> (r: Self)
        ensures
            r == InputState3D::spec_none(),
    {
        InputState3D {
            yaw_delta: Fx16::from_bits(0),
            pitch_delta: Fx16::from_bits(0),
            forward: 0,
            backward: 0,
            left: 0,
            right: 0,
            jump: 0,
        }
    }
}

/// The numbers of the kinds of assets.
pub proof fn law_asset_numbers(k: AssetKind)
    ensures
        k.number() == 0 <==> k == AssetKind::Texture,
        k.number() == 1 <==> k == AssetKind::Mesh,
        k.number() == 2 <==> k == AssetKind::Audio,
        k.number() == 3 <==> k == AssetKind::Shader,
        k.number() == 4 <==> k == AssetKind::Font,
        k.number() == 5 <==> k == AssetKind::Scene,
{
}

/// A player input is a byte for each of up, down, left and right, and the speed.
pub proof fn law_input_layout(m: PlayerInput)
    ensures
        PlayerInput::enc(m) == seq![m.up, m.down, m.left, m.right]
            + crate::contracts::wire::varint(m.speed as nat),
{
    assert(PlayerInput::enc(m) =~= seq![m.up, m.down, m.left, m.right]
        + crate::contracts::wire::varint(m.speed as nat));
}

/// No 3D input turns nothing and presses nothing.
pub proof fn law_no_input()
    ensures
        InputState3D::spec_none().yaw_delta.bits == 0,
        InputState3D::spec_none().pitch_delta.bits == 0,
        InputState3D::spec_none().forward == 0,
        InputState3D::spec_none().backward == 0,
        InputState3D::spec_none().left == 0,
        InputState3D::spec_none().right == 0,
        InputState3D::spec_none().jump == 0,
        ARCH_VERSION == 2,
        COMPONENT_LAYOUT_VERSION == 1,
{
}

/// The bytes in use are the first ones, as many as the length says.
pub proof fn law_used_bytes<const N: usize>(f: FixedString<N>, i: int)
    requires
        f.wf(),
        0 <= i < f.len,
    ensures
        f.used().len() == f.len,
        f.used()[i] == f.bytes@[i],
{
}

} // verus!
