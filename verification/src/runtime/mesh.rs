//! Meshes: the Wavefront text format, triangulation, index patterns and the
//! registry of loaded meshes.

use std::collections::BTreeMap;
use vstd::prelude::*;

verus! {

broadcast use {
    vstd::std_specs::btree::group_btree_axioms,
    vstd::laws_cmp::group_laws_cmp,
};

/// The mesh format version.
pub const MESH_VERSION: u32 = 1;

/// The words of a line.
pub open spec fn words(s: Seq<char>) -> Seq<Seq<char>>
    decreases s.len(),
{
    let t = crate::text::trim_front(s);
    let k = word_end(t);
    if t.len() == 0 {
        seq![]
    } else {
        proof {
            lemma_trim_front(s);
            lemma_word_end(t);
        }
        seq![t.take(k)] + words(t.skip(k))
    }
}

/// The position of the first white space, or the length.
pub open spec fn word_end(s: Seq<char>) -> int
    decreases s.len(),
{
    if s.len() == 0 || crate::text::white(s[0]) {
        0
    } else {
        1 + word_end(s.skip(1))
    }
}

/// Trimming leaves no white space at the front.
pub proof fn lemma_trim_front(s: Seq<char>)
    ensures
        crate::text::trim_front(s).len() <= s.len(),
        crate::text::trim_front(s).len() > 0 ==> !crate::text::white(crate::text::trim_front(s)[0]),
    decreases s.len(),
{
    if s.len() > 0 && crate::text::white(s[0]) {
        lemma_trim_front(s.skip(1));
    }
}

/// A word ends within the text and is not empty.
pub proof fn lemma_word_end(s: Seq<char>)
    ensures
        0 <= word_end(s) <= s.len(),
        s.len() > 0 && !crate::text::white(s[0]) ==> word_end(s) > 0,
    decreases s.len(),
{
    if s.len() > 0 && !crate::text::white(s[0]) {
        lemma_word_end(s.skip(1));
    }
}

/// A decimal number, if all characters are digits.
pub open spec fn digits_value(s: Seq<char>) -> Option<nat>
    decreases s.len(),
{
    if s.len() == 0 {
        Some(0)
    } else if !('0' <= s.last() <= '9') {
        None
    } else {
        match digits_value(s.drop_last()) {
            Some(v) => Some((10 * v + (s.last() as int - '0' as int)) as nat),
            None => None,
        }
    }
}

/// An unsigned number: at least one digit, perhaps behind a plus sign, that fits
/// in a machine word.
pub open spec fn number(s: Seq<char>) -> Option<usize> {
    let d = if s.len() > 0 && s[0] == '+' {
        s.skip(1)
    } else {
        s
    };
    if d.len() == 0 {
        None
    } else {
        match digits_value(d) {
            Some(v) => if v <= usize::MAX {
                Some(v as usize)
            } else {
                None
            },
            None => None,
        }
    }
}

/// What is wrong with a face.
#[derive(Clone, Copy, PartialEq, Eq, Structural, Debug)]
pub enum FaceError {
    /// A corner is not a number.
    Bad,
    /// A corner is zero.
    ZeroIndex,
}

/// The corner that a word of a face names: the number before the first slash,
/// counted from one.
pub open spec fn corner(w: Seq<char>) -> Result<u32, FaceError> {
    match number(w.take(crate::text::index_of(w, '/'))) {
        None => Err(FaceError::Bad),
        Some(v) => if v < 1 {
            Err(FaceError::ZeroIndex)
        } else {
            Ok((v - 1) as u32)
        },
    }
}

/// The corners that the words from position `i` on name, or what is wrong with
/// the first bad one.
pub open spec fn corners(ws: Seq<Seq<char>>, i: int) -> Result<Seq<u32>, FaceError>
    decreases ws.len() - i,
{
    if i < 0 || i >= ws.len() {
        Ok(seq![])
    } else {
        match corner(ws[i]) {
            Err(e) => Err(e),
            Ok(c) => match corners(ws, i + 1) {
                Err(e) => Err(e),
                Ok(cs) => Ok(seq![c] + cs),
            },
        }
    }
}

/// What a line of a mesh file says.
#[verifier::ext_equal]
pub enum ObjModel {
    /// Nothing that is read.
    Other,
    /// A vertex, with its first three words.
    Vertex(Seq<Seq<char>>),
    /// A face, with its corners.
    Face(Result<Seq<u32>, FaceError>),
}

/// What a line of a mesh file says.
pub open spec fn obj_line(line: Seq<char>) -> ObjModel {
    let ws = words(line);
    if ws.len() == 0 {
        ObjModel::Other
    } else if ws[0] == "v"@ {
        ObjModel::Vertex(
            ws.subrange(
                1,
                if ws.len() > 4 {
                    4
                } else {
                    ws.len() as int
                },
            ),
        )
    } else if ws[0] == "f"@ {
        ObjModel::Face(corners(ws, 1))
    } else {
        ObjModel::Other
    }
}

/// What the lines of a text say.
pub open spec fn obj_lines(text: Seq<char>) -> Seq<ObjModel>
    decreases text.len(),
{
    let k = crate::text::index_of(text, '\n');
    if 0 <= k < text.len() {
        seq![obj_line(text.take(k))] + obj_lines(text.skip(k + 1))
    } else {
        seq![obj_line(text)]
    }
}

/// A line of a mesh file.
#[derive(Debug)]
pub enum ObjLine {
    /// Nothing that is read.
    Other,
    /// A vertex, with its first three words.
    Vertex(Vec<String>),
    /// A face, with its corners.
    Face(Result<Vec<u32>, FaceError>),
}

impl ObjLine {
    /// What the line says.
    pub open spec fn model(&self) -> ObjModel {
        match *self {
            ObjLine::Other => ObjModel::Other,
            ObjLine::Vertex(ws) => ObjModel::Vertex(crate::text::texts(ws@)),
            ObjLine::Face(Ok(cs)) => ObjModel::Face(Ok(cs@)),
            ObjLine::Face(Err(e)) => ObjModel::Face(Err(e)),
        }
    }
}

/// What lines say.
pub open spec fn line_models(s: Seq<ObjLine>) -> Seq<ObjModel> {
    Seq::new(s.len(), |i: int| s[i].model())
}

/// The words of a line.
fn split_words(line: &Vec<char>) -> (r: Vec<Vec<char>>)
    ensures
        r@.len() == words(line@).len(),
        forall|i: int| 0 <= i < r@.len() ==> (#[trigger] r@[i])@ == words(line@)[i],
{
    let mut out: Vec<Vec<char>> = Vec::new();
    let n: usize = line.len();
    let mut at: usize = 0;
    assert(line@.skip(0) =~= line@);
    while at < n
        invariant
            at <= n,
            n == line@.len(),
            words(line@).len() == out@.len() + words(line@.skip(at as int)).len(),
            forall|i: int| 0 <= i < out@.len() ==> (#[trigger] out@[i])@ == words(line@)[i],
            forall|i: int|
                0 <= i < words(line@.skip(at as int)).len() ==> #[trigger] words(
                    line@.skip(at as int),
                )[i] == words(line@)[out@.len() + i],
        decreases n - at,
    {
        let ghost rest = line@.skip(at as int);
        let mut lo: usize = at;
        assert(line@.skip(lo as int) =~= rest);
        while lo < n && crate::text::is_white(line[lo])
            invariant
                at <= lo <= n,
                n == line@.len(),
                crate::text::trim_front(rest) == crate::text::trim_front(line@.skip(lo as int)),
            decreases n - lo,
        {
            assert(line@.skip(lo as int).skip(1) =~= line@.skip(lo + 1));
            lo = lo + 1;
        }
        let ghost t = line@.skip(lo as int);
        assert(crate::text::trim_front(rest) == t);
        let mut hi: usize = lo;
        while hi < n && !crate::text::is_white(line[hi])
            invariant
                lo <= hi <= n,
                n == line@.len(),
                t == line@.skip(lo as int),
                word_end(t) == hi - lo + word_end(line@.skip(hi as int)),
            decreases n - hi,
        {
            assert(line@.skip(hi as int).skip(1) =~= line@.skip(hi + 1));
            hi = hi + 1;
        }
        assert(word_end(t) == hi - lo);
        if lo == hi {
            assert(t.len() == 0);
            assert(words(rest).len() == 0);
            return out;
        }
        let word: Vec<char> = crate::text::piece(line, lo, hi);
        let ghost before = out@;
        proof {
            assert(word@ =~= t.take(hi - lo));
            assert(t.skip(hi - lo) =~= line@.skip(hi as int));
            assert(words(rest) == seq![t.take(hi - lo)] + words(line@.skip(hi as int)));
            assert(words(rest)[0] == words(line@)[before.len() as int]);
            assert forall|i: int| 0 <= i < words(line@.skip(hi as int)).len() implies words(
                line@.skip(hi as int),
            )[i] == words(line@)[before.len() + 1 + i] by {
                assert(words(rest)[i + 1] == words(line@)[before.len() + (i + 1)]);
            }
        }
        out.push(word);
        at = hi;
    }
    out
}

fn digit_value(c: char) -> (r: Option<u32>)
    ensures
        match r {
            Some(d) => '0' <= c <= '9' && d == c as int - '0' as int,
            None => !('0' <= c <= '9'),
        },
{
    if '0' <= c && c <= '9' {
        Some(c as u32 - '0' as u32)
    } else {
        None
    }
}

/// A bad digit or too large a number at the front stays one.
proof fn lemma_digits_grow(s: Seq<char>, n: int)
    requires
        0 <= n <= s.len(),
    ensures
        digits_value(s.take(n)) is None ==> digits_value(s) is None,
        digits_value(s) is Some ==> digits_value(s.take(n)) is Some && digits_value(s.take(n))->0
            <= digits_value(s)->0,
    decreases s.len() - n,
{
    if n < s.len() {
        lemma_digits_grow(s, n + 1);
        assert(s.take(n + 1).drop_last() =~= s.take(n));
    } else {
        assert(s.take(n) =~= s);
    }
}

fn read_number(cs: &Vec<char>) -> (r: Option<usize>)
    ensures
        r == number(cs@),
{
    let from: usize = if cs.len() > 0 && cs[0] == '+' {
        1
    } else {
        0
    };
    let ghost d = cs@.skip(from as int);
    assert(from == 0 ==> d =~= cs@);
    if cs.len() == from {
        return None;
    }
    let mut v: usize = 0;
    let mut i: usize = from;
    assert(d.take(0) =~= seq![]);
    while i < cs.len()
        invariant
            from <= i <= cs@.len(),
            from < cs@.len(),
            d == cs@.skip(from as int),
            digits_value(d.take(i - from)) == Some(v as nat),
            number(cs@) == (match digits_value(d) {
                Some(v) => if v <= usize::MAX {
                    Some(v as usize)
                } else {
                    None
                },
                None => None,
            }),
        decreases cs@.len() - i,
    {
        let ghost here = d.take(i - from + 1);
        assert(here.drop_last() =~= d.take(i - from));
        assert(here.last() == cs@[i as int]);
        proof {
            lemma_digits_grow(d, i - from + 1);
        }
        match digit_value(cs[i]) {
            None => {
                return None;
            },
            Some(x) => {
                if v > usize::MAX / 10 {
                    return None;
                }
                let ten: usize = v * 10;
                if ten > usize::MAX - x as usize {
                    return None;
                }
                v = ten + x as usize;
            },
        }
        i = i + 1;
    }
    assert(d.take(i - from) =~= d);
    Some(v)
}

fn read_corner(w: &Vec<char>) -> (r: Result<u32, FaceError>)
    ensures
        r == corner(w@),
{
    assert(w@.skip(0) =~= w@);
    let k: usize = crate::text::find(w, 0, '/');
    let head: Vec<char> = crate::text::piece(w, 0, k);
    assert(head@ =~= w@.take(k as int));
    match read_number(&head) {
        None => Err(FaceError::Bad),
        Some(v) => {
            if v < 1 {
                Err(FaceError::ZeroIndex)
            } else {
                Ok((v - 1) as u32)
            }
        },
    }
}

fn is_letter(w: &Vec<char>, c: char) -> (r: bool)
    ensures
        r == (w@ == seq![c]),
{
    let r = w.len() == 1 && w[0] == c;
    if r {
        assert(w@ =~= seq![c]);
    }
    r
}

fn read_obj_line(line: &Vec<char>) -> (r: ObjLine)
    ensures
        r.model() == obj_line(line@),
{
    let ws: Vec<Vec<char>> = split_words(line);
    let ghost all = words(line@);
    proof {
        reveal_strlit("v");
        reveal_strlit("f");
        assert("v"@ =~= seq!['v']);
        assert("f"@ =~= seq!['f']);
    }
    if ws.len() == 0 {
        return ObjLine::Other;
    }
    assert(ws@[0]@ == all[0]);
    if is_letter(&ws[0], 'v') {
        let mut coords: Vec<String> = Vec::new();
        let end: usize = if ws.len() > 4 {
            4
        } else {
            ws.len()
        };
        let mut i: usize = 1;
        assert(crate::text::texts(coords@) =~= all.subrange(1, 1));
        while i < end
            invariant
                1 <= i <= end <= ws@.len(),
                ws@.len() == all.len(),
                forall|i: int| 0 <= i < ws@.len() ==> (#[trigger] ws@[i])@ == all[i],
                crate::text::texts(coords@) == all.subrange(1, i as int),
            decreases end - i,
        {
            let s = crate::text::string_of(ws[i].as_slice());
            let ghost was = crate::text::texts(coords@);
            coords.push(s);
            assert(crate::text::texts(coords@) =~= was.push(s@));
            assert(all.subrange(1, i + 1) =~= was.push(all[i as int]));
            i = i + 1;
        }
        return ObjLine::Vertex(coords);
    }
    if is_letter(&ws[0], 'f') {
        let mut face: Vec<u32> = Vec::new();
        let mut i: usize = 1;
        proof {
            if let Ok(cs) = corners(all, 1) {
                assert(seq![] + cs =~= cs);
            }
        }
        while i < ws.len()
            invariant
                1 <= i <= ws@.len(),
                ws@.len() == all.len(),
                all == words(line@),
                all[0] == "f"@,
                "f"@ != "v"@,
                forall|i: int| 0 <= i < ws@.len() ==> (#[trigger] ws@[i])@ == all[i],
                corners(all, 1) == (match corners(all, i as int) {
                    Err(e) => Err::<Seq<u32>, FaceError>(e),
                    Ok(cs) => Ok(face@ + cs),
                }),
            decreases ws@.len() - i,
        {
            assert(ws@[i as int]@ == all[i as int]);
            match read_corner(&ws[i]) {
                Err(e) => {
                    return ObjLine::Face(Err(e));
                },
                Ok(c) => {
                    proof {
                        if let Ok(cs) = corners(all, i + 1) {
                            assert(face@ + (seq![c] + cs) =~= face@.push(c) + cs);
                        }
                    }
                    face.push(c);
                },
            }
            i = i + 1;
        }
        assert(face@ + seq![] =~= face@);
        return ObjLine::Face(Ok(face));
    }
    ObjLine::Other
}

/// Reads the lines of a mesh file. Comments, blank lines and unknown statements
/// say nothing.
pub fn read_obj(text: &str) -> (r: Vec<ObjLine>)
    ensures
        line_models(r@) == obj_lines(text@),
{
    let cs: Vec<char> = crate::text::chars_of(text);
    let mut out: Vec<ObjLine> = Vec::new();
    let mut at: usize = 0;
    let ghost whole = obj_lines(text@);
    assert(cs@.skip(0) =~= text@);
    assert(line_models(out@) =~= seq![]);
    assert(seq![] + whole =~= whole);
    loop
        invariant
            cs@ == text@,
            whole == obj_lines(text@),
            at <= cs@.len(),
            whole == line_models(out@) + obj_lines(cs@.skip(at as int)),
        decreases cs@.len() - at,
    {
        let end: usize = crate::text::find(&cs, at, '\n');
        let line: Vec<char> = crate::text::piece(&cs, at, end);
        let ghost rest = cs@.skip(at as int);
        assert(line@ =~= rest.take(end - at));
        let item = read_obj_line(&line);
        let ghost was = line_models(out@);
        let ghost m = item.model();
        out.push(item);
        assert(line_models(out@) =~= was.push(m));
        if end >= cs.len() {
            assert(rest.take(end - at) =~= rest);
            assert(was + seq![m] =~= was.push(m));
            return out;
        }
        assert(rest.skip(end - at + 1) =~= cs@.skip(end + 1));
        assert(was + (seq![m] + obj_lines(cs@.skip(end + 1))) =~= was.push(m) + obj_lines(
            cs@.skip(end + 1),
        ));
        at = end + 1;
    }
}

/// The text of an error on line `i`, counted from zero.
pub open spec fn line_error(what: Seq<char>, i: int) -> Seq<char> {
    what + " @ line "@ + crate::text::decimal((i + 1) as nat)
}

/// What is wrong with line `i`, if anything. `good` says whether all words of a
/// vertex are numbers.
pub open spec fn obj_problem(l: ObjModel, good: bool, i: int) -> Option<Seq<char>> {
    match l {
        ObjModel::Other => None,
        ObjModel::Vertex(ws) => if !good {
            Some(line_error("bad coord"@, i))
        } else if ws.len() != 3 {
            Some(line_error("vertex needs 3 coords"@, i))
        } else {
            None
        },
        ObjModel::Face(Err(FaceError::Bad)) => Some(line_error("bad face"@, i)),
        ObjModel::Face(Err(FaceError::ZeroIndex)) => Some(line_error("face index 1-based"@, i)),
        ObjModel::Face(Ok(_)) => None,
    }
}

/// The faces of at least three corners among the first `n` lines, or what is
/// wrong with the first bad line.
pub open spec fn obj_faces(ls: Seq<ObjModel>, good: Seq<bool>, n: nat) -> Result<
    Seq<Seq<u32>>,
    Seq<char>,
>
    decreases n,
{
    if n == 0 {
        Ok(seq![])
    } else {
        match obj_faces(ls, good, (n - 1) as nat) {
            Err(e) => Err(e),
            Ok(fs) => match obj_problem(ls[n - 1], good[n - 1], n - 1) {
                Some(e) => Err(e),
                None => match ls[n - 1] {
                    ObjModel::Face(Ok(cs)) => if cs.len() >= 3 {
                        Ok(fs.push(cs))
                    } else {
                        Ok(fs)
                    },
                    _ => Ok(fs),
                },
            },
        }
    }
}

/// The views of faces.
pub open spec fn face_models(fs: Seq<Vec<u32>>) -> Seq<Seq<u32>> {
    Seq::new(fs.len(), |i: int| fs[i]@)
}

proof fn lemma_faces_fail(ls: Seq<ObjModel>, good: Seq<bool>, n: nat, m: nat)
    requires
        n <= m,
        obj_faces(ls, good, n) is Err,
    ensures
        obj_faces(ls, good, m) == obj_faces(ls, good, n),
    decreases m,
{
    if n < m {
        lemma_faces_fail(ls, good, n, (m - 1) as nat);
    }
}

fn error_at(what: &str, i: usize) -> (r: String)
    requires
        i < usize::MAX,
    ensures
        r@ == line_error(what@, i as int),
{
    let mut s = crate::text::joined(what, " @ line ");
    let d = crate::text::decimal_text(i as u64 + 1);
    s.append(d.as_str());
    s
}

/// Collects the faces of a mesh file, or reports its first bad line. `good` says
/// for each line whether all words of a vertex are numbers.
pub fn collect_faces(lines: &Vec<ObjLine>, good: &Vec<bool>) -> (r: Result<Vec<Vec<u32>>, String>)
    requires
        good@.len() == lines@.len(),
    ensures
        match (r, obj_faces(line_models(lines@), good@, lines@.len())) {
            (Ok(a), Ok(b)) => face_models(a@) == b,
            (Err(a), Err(b)) => a@ == b,
            _ => false,
        },
{
    let mut faces: Vec<Vec<u32>> = Vec::new();
    let ghost ls = line_models(lines@);
    assert(face_models(faces@) =~= seq![]);
    let mut i: usize = 0;
    while i < lines.len()
        invariant
            i <= lines@.len(),
            good@.len() == lines@.len(),
            ls == line_models(lines@),
            obj_faces(ls, good@, i as nat) == Ok::<Seq<Seq<u32>>, Seq<char>>(
                face_models(faces@),
            ),
        decreases lines@.len() - i,
    {
        assert(ls[i as int] == lines@[i as int].model());
        let mut problem: Option<String> = None;
        match &lines[i] {
            ObjLine::Other => {},
            ObjLine::Vertex(ws) => {
                if !good[i] {
                    problem = Some(error_at("bad coord", i));
                } else if ws.len() != 3 {
                    problem = Some(error_at("vertex needs 3 coords", i));
                }
            },
            ObjLine::Face(Err(FaceError::Bad)) => {
                problem = Some(error_at("bad face", i));
            },
            ObjLine::Face(Err(FaceError::ZeroIndex)) => {
                problem = Some(error_at("face index 1-based", i));
            },
            ObjLine::Face(Ok(cs)) => {
                if cs.len() >= 3 {
                    let ghost was = face_models(faces@);
                    let copy: Vec<u32> = cs.clone();
                    assert(copy@ =~= cs@);
                    faces.push(copy);
                    assert(face_models(faces@) =~= was.push(cs@));
                }
            },
        }
        if let Some(e) = problem {
            proof {
                lemma_faces_fail(ls, good@, (i + 1) as nat, lines@.len());
            }
            return Err(e);
        }
        i = i + 1;
    }
    Ok(faces)
}

/// The first `n` triangles of a face: fans around its first corner.
pub open spec fn fan(face: Seq<u32>, n: nat) -> Seq<[u32; 3]> {
    Seq::new(n, |k: int| [face[0], face[k + 1], face[k + 2]])
}

/// The triangles of a face.
pub open spec fn face_fan(face: Seq<u32>) -> Seq<[u32; 3]> {
    if face.len() < 3 {
        seq![]
    } else {
        fan(face, (face.len() - 2) as nat)
    }
}

/// The triangles of the first `n` faces.
pub open spec fn fans(fs: Seq<Seq<u32>>, n: nat) -> Seq<[u32; 3]>
    decreases n,
{
    if n == 0 {
        seq![]
    } else {
        fans(fs, (n - 1) as nat) + face_fan(fs[n - 1])
    }
}

/// Splits faces into triangles.
pub fn triangulate(faces: &Vec<Vec<u32>>) -> (r: Vec<[u32; 3]>)
    ensures
        r@ == fans(face_models(faces@), faces@.len()),
{
    let mut out: Vec<[u32; 3]> = Vec::new();
    let ghost fs = face_models(faces@);
    let mut i: usize = 0;
    while i < faces.len()
        invariant
            i <= faces@.len(),
            fs == face_models(faces@),
            out@ == fans(fs, i as nat),
        decreases faces@.len() - i,
    {
        let face = &faces[i];
        let ghost was = out@;
        assert(fs[i as int] == face@);
        let n: usize = face.len();
        if n >= 3 {
            let mut k: usize = 1;
            assert(out@ =~= was + fan(face@, 0));
            while k < n - 1
                invariant
                    1 <= k <= n - 1,
                    n == face@.len(),
                    out@ == was + fan(face@, (k - 1) as nat),
                decreases n - k,
            {
                let t: [u32; 3] = [face[0], face[k], face[k + 1]];
                out.push(t);
                assert(t == fan(face@, k as nat)[k - 1]);
                k = k + 1;
                assert(out@ =~= was + fan(face@, (k - 1) as nat));
            }
        } else {
            assert(was + face_fan(face@) =~= was);
        }
        i = i + 1;
    }
    out
}

/// A face of `n` corners makes `n - 2` triangles, each with its first corner, and
/// a face of fewer than three makes none.
pub proof fn law_fan_size(face: Seq<u32>)
    ensures
        face.len() >= 3 ==> face_fan(face).len() == face.len() - 2,
        face.len() < 3 ==> face_fan(face).len() == 0,
        forall|k: int| 0 <= k < face_fan(face).len() ==> (#[trigger] face_fan(face)[k])[0]
            == face[0],
{
}

/// The slots `0..n`: every triangle of a flat-shaded mesh has vertices of its
/// own.
pub fn flat_indices(n: u32) -> (r: Vec<u32>)
    ensures
        r@ == Seq::new(n as nat, |i: int| i as u32),
{
    let mut out: Vec<u32> = Vec::new();
    let mut i: u32 = 0;
    while i < n
        invariant
            i <= n,
            out@ == Seq::new(i as nat, |i: int| i as u32),
        decreases n - i,
    {
        out.push(i);
        i = i + 1;
        assert(out@ =~= Seq::new(i as nat, |i: int| i as u32));
    }
    out
}

/// The two triangles of a cell of a vertex grid with `stride` vertices a row.
pub open spec fn cell(a: int, stride: int) -> Seq<u32> {
    let b = a + stride;
    seq![a as u32, b as u32, (a + 1) as u32, (a + 1) as u32, b as u32, (b + 1) as u32]
}

/// The triangles of the first `n` cells of row `r`.
pub open spec fn row_cells(r: int, stride: int, n: nat) -> Seq<u32>
    decreases n,
{
    if n == 0 {
        seq![]
    } else {
        row_cells(r, stride, (n - 1) as nat) + cell(r * stride + (n - 1), stride)
    }
}

/// The triangles of the first `n` rows of `cols` cells.
pub open spec fn grid_cells(cols: nat, n: nat) -> Seq<u32>
    decreases n,
{
    if n == 0 {
        seq![]
    } else {
        grid_cells(cols, (n - 1) as nat) + row_cells(n - 1, (cols + 1) as int, cols)
    }
}

/// The triangles of a grid of `rows` by `cols` cells, as spheres and planes have
/// it: one more vertex than cells in each direction, row by row.
pub fn grid_indices(rows: u32, cols: u32) -> (r: Vec<u32>)
    requires
        (rows + 1) * (cols + 1) <= u32::MAX,
    ensures
        r@ == grid_cells(cols as nat, rows as nat),
{
    let mut out: Vec<u32> = Vec::new();
    assert(rows <= u32::MAX - 1 && cols <= u32::MAX - 1) by (nonlinear_arith)
        requires
            (rows + 1) * (cols + 1) <= u32::MAX,
    ;
    let stride: u32 = cols + 1;
    let mut y: u32 = 0;
    while y < rows
        invariant
            y <= rows,
            stride == cols + 1,
            (rows + 1) * stride <= u32::MAX,
            out@ == grid_cells(cols as nat, y as nat),
        decreases rows - y,
    {
        let ghost was = out@;
        assert(y * stride + 2 * stride <= u32::MAX && 0 <= y * stride) by (nonlinear_arith)
            requires
                y + 1 <= rows,
                (rows + 1) * stride <= u32::MAX,
                0 <= y,
                0 <= stride,
        ;
        let mut x: u32 = 0;
        assert(out@ =~= was + row_cells(y as int, stride as int, 0));
        while x < cols
            invariant
                x <= cols,
                stride == cols + 1,
                0 <= y * stride,
                y * stride + 2 * stride <= u32::MAX,
                out@ == was + row_cells(y as int, stride as int, x as nat),
            decreases cols - x,
        {
            let a: u32 = y * stride + x;
            let b: u32 = a + stride;
            let ghost here = out@;
            out.push(a);
            out.push(b);
            out.push(a + 1);
            out.push(a + 1);
            out.push(b);
            out.push(b + 1);
            assert(out@ =~= here + cell(a as int, stride as int));
            x = x + 1;
            assert(out@ =~= was + row_cells(y as int, stride as int, x as nat));
        }
        y = y + 1;
        assert(out@ =~= grid_cells(cols as nat, y as nat));
    }
    out
}

/// A grid has six indices for each cell.
pub proof fn law_grid_size(cols: nat, n: nat)
    ensures
        grid_cells(cols, n).len() == 6 * cols * n,
    decreases n,
{
    if n > 0 {
        law_grid_size(cols, (n - 1) as nat);
        lemma_row_size(n - 1, (cols + 1) as int, cols);
        assert(6 * cols * (n - 1) + 6 * cols == 6 * cols * n) by (nonlinear_arith);
    } else {
        assert(6 * cols * 0 == 0) by (nonlinear_arith);
    }
}

proof fn lemma_row_size(r: int, stride: int, n: nat)
    ensures
        row_cells(r, stride, n).len() == 6 * n,
    decreases n,
{
    if n > 0 {
        lemma_row_size(r, stride, (n - 1) as nat);
    }
}

/// Every index of a grid names one of its vertices.
pub proof fn law_grid_indices_in_range(cols: nat, rows: nat, n: nat, i: int)
    requires
        n <= rows,
        (rows + 1) * (cols + 1) <= u32::MAX,
        0 <= i < grid_cells(cols, n).len(),
    ensures
        grid_cells(cols, n)[i] < (rows + 1) * (cols + 1),
    decreases n,
{
    let head = grid_cells(cols, (n - 1) as nat);
    if n > 0 {
        if i < head.len() {
            law_grid_indices_in_range(cols, rows, (n - 1) as nat, i);
        } else {
            assert((n - 1) * (cols + 1) + 2 * (cols + 1) <= (rows + 1) * (cols + 1) && 0 <= (n - 1)
                * (cols + 1)) by (nonlinear_arith)
                requires
                    1 <= n <= rows,
                    0 <= cols,
            ;
            lemma_row_in_range(
                n - 1,
                (cols + 1) as int,
                cols,
                i - head.len(),
                ((rows + 1) * (cols + 1)) as int,
            );
        }
    }
}

proof fn lemma_row_in_range(r: int, stride: int, n: nat, i: int, limit: int)
    requires
        0 <= r * stride,
        r * stride + 2 * stride <= limit <= u32::MAX,
        n + 1 <= stride,
        0 <= i < row_cells(r, stride, n).len(),
    ensures
        row_cells(r, stride, n)[i] < limit,
    decreases n,
{
    if n > 0 {
        let head = row_cells(r, stride, (n - 1) as nat);
        if i < head.len() {
            lemma_row_in_range(r, stride, (n - 1) as nat, i, limit);
        } else {
            let c = cell(r * stride + (n - 1), stride);
            let k = i - head.len();
            assert(row_cells(r, stride, n)[i] == c[k]);
        }
    }
}

/// A registry of loaded meshes by asset id.
pub struct AssetRegistry<A> {
    assets: BTreeMap<u64, A>,
    next: u64,
}

impl<A> AssetRegistry<A> {
    /// The meshes by id.
    pub closed spec fn assets(&self) -> Map<u64, A> {
        self.assets@
    }

    /// The id of the next mesh.
    pub closed spec fn next_id(&self) -> u64 {
        self.next
    }

    /// No mesh has an id that is still to come, nor the id zero.
    pub open spec fn wf(&self) -> bool {
        &&& 1 <= self.next_id()
        &&& forall|id: u64| #[trigger] self.assets().contains_key(id) ==> 1 <= id < self.next_id()
    }

    /// An empty registry.
    pub fn new() -> (r: Self)
        ensures
            r.wf(),
            r.assets() == Map::<u64, A>::empty(),
            r.next_id() == 1,
    {
        AssetRegistry { assets: BTreeMap::new(), next: 1 }
    }

    /// Adds a mesh under a fresh id.
    pub fn insert(&mut self, mesh: A) -> (r: u64)
        requires
            old(self).wf(),
            old(self).next_id() < u64::MAX,
        ensures
            final(self).wf(),
            r == old(self).next_id(),
            !old(self).assets().contains_key(r),
            final(self).assets() == old(self).assets().insert(r, mesh),
            final(self).next_id() == old(self).next_id() + 1,
    {
        let id: u64 = self.next;
        self.next = id + 1;
        self.assets.insert(id, mesh);
        proof {
            assert forall|k: u64| #[trigger] self.assets().contains_key(k) implies 1 <= k
                < self.next_id() by {
                if k != id {
                    assert(old(self).assets().contains_key(k));
                }
            }
        }
        id
    }

    /// The mesh of an id.
    pub fn get(&self, id: u64) -> (r: Option<&A>)
        ensures
            match r {
                Some(m) => self.assets().contains_key(id) && *m == self.assets()[id],
                None => !self.assets().contains_key(id),
            },
    {
        self.assets.get(&id)
    }

    /// Number of meshes.
    pub fn len(&self) -> (r: usize)
        ensures
            r == self.assets().len(),
    {
        self.assets.len()
    }
}

impl<A> Default for AssetRegistry<A> {
    /// An empty registry.
    fn default() -> (r: Self)
        ensures
            r.wf(),
            r.assets() == Map::<u64, A>::empty(),
            r.next_id() == 1,
    {
        AssetRegistry::new()
    }
}

/// Reading a number inverts writing it: the decimal notation of `n`, alone or
/// behind a plus sign, is read as `n`.
pub proof fn law_reads_decimal(n: nat)
    requires
        n <= usize::MAX,
    ensures
        number(crate::text::decimal(n)) == Some(n as usize),
        number(seq!['+'] + crate::text::decimal(n)) == Some(n as usize),
{
    let d = crate::text::decimal(n);
    crate::text::law_decimal_is_digits(n);
    lemma_digits_of_decimal(n);
    assert(d[0] != '+');
    assert((seq!['+'] + d).skip(1) =~= d);
}

/// The value of the decimal notation of a number is that number.
proof fn lemma_digits_of_decimal(n: nat)
    ensures
        digits_value(crate::text::decimal(n)) == Some(n),
    decreases n,
{
    let s = crate::text::decimal(n);
    let d = n % 10;
    crate::text::law_decimal(n / 10, d);
    reveal_with_fuel(digits_value, 2);
    if n >= 10 {
        lemma_digits_of_decimal(n / 10);
        assert(10 * (n / 10) + d == n);
    } else {
        assert(d == n);
        assert(s.drop_last().len() == 0);
    }
}

/// A text that is no digits at all, or holds a character that is none, is no
/// number.
pub proof fn law_bad_numbers(s: Seq<char>, i: int)
    requires
        0 <= i < s.len(),
        !('0' <= s[i] <= '9'),
        i > 0 || s[0] != '+' || s.len() == 1,
    ensures
        number(s) is None,
        number(seq![]) is None,
{
    if s[0] == '+' && i > 0 {
        let d = s.skip(1);
        assert(d[i - 1] == s[i]);
        lemma_bad_digit(d, i - 1);
    } else if s[0] != '+' {
        lemma_bad_digit(s, i);
    }
}

proof fn lemma_bad_digit(s: Seq<char>, i: int)
    requires
        0 <= i < s.len(),
        !('0' <= s[i] <= '9'),
    ensures
        digits_value(s) is None,
    decreases s.len(),
{
    if i < s.len() - 1 {
        assert(s.drop_last()[i] == s[i]);
        lemma_bad_digit(s.drop_last(), i);
    }
}

/// A word of a face that is the decimal notation of a number from one on, alone or
/// in front of a slash and anything else, names the corner of the number before it;
/// that of zero is an error.
pub proof fn law_corner_counts_from_one(n: nat, rest: Seq<char>)
    requires
        n <= u32::MAX,
    ensures
        n >= 1 ==> corner(crate::text::decimal(n)) == Ok::<u32, FaceError>((n - 1) as u32),
        n >= 1 ==> corner(crate::text::decimal(n) + seq!['/'] + rest) == Ok::<u32, FaceError>(
            (n - 1) as u32,
        ),
        n == 0 ==> corner(crate::text::decimal(n)) == Err::<u32, FaceError>(FaceError::ZeroIndex),
        n == 0 ==> corner(crate::text::decimal(n) + seq!['/'] + rest) == Err::<u32, FaceError>(
            FaceError::ZeroIndex,
        ),
{
    let d = crate::text::decimal(n);
    crate::text::law_decimal_is_digits(n);
    crate::text::lemma_index_behind(d, '/', rest);
    law_reads_decimal(n);
    assert(d.take(d.len() as int) =~= d);
    assert((d + seq!['/'] + rest).take(d.len() as int) =~= d);
}

/// The words of a line: white space in front of them says nothing, and what stands
/// before white space without any in it is one word.
pub proof fn law_words(w: Seq<char>, c: char, rest: Seq<char>)
    requires
        forall|i: int| 0 <= i < w.len() ==> !crate::text::white(#[trigger] w[i]),
        crate::text::white(c),
    ensures
        words(seq![]) == Seq::<Seq<char>>::empty(),
        words(seq![c] + rest) == words(rest),
        w.len() > 0 ==> words(w) == seq![w],
        w.len() > 0 ==> words(w + seq![c] + rest) == seq![w] + words(rest),
{
    let cr = seq![c] + rest;
    assert(cr.skip(1) =~= rest);
    assert(cr[0] == c);
    lemma_words_trimmed(cr);
    lemma_words_trimmed(rest);
    assert(crate::text::trim_front(cr) == crate::text::trim_front(rest));
    if w.len() > 0 {
        lemma_word_length(w, seq![]);
        assert(w + seq![] =~= w);
        assert(w.take(w.len() as int) =~= w);
        assert(w.skip(w.len() as int) =~= seq![]);
        assert(crate::text::trim_front(w) == w);
        assert(words(Seq::<char>::empty()) =~= seq![]);
        assert(words(w) =~= seq![w]);
        let all = w + seq![c] + rest;
        assert(all =~= w + cr);
        lemma_word_length(w, cr);
        assert(all[0] == w[0]);
        assert(all.take(w.len() as int) =~= w);
        assert(all.skip(w.len() as int) =~= cr);
        assert(crate::text::trim_front(all) == all);
    }
}

/// The words of a text are those of the text without white space in front.
proof fn lemma_words_trimmed(s: Seq<char>)
    ensures
        words(s) == words(crate::text::trim_front(s)),
{
    let t = crate::text::trim_front(s);
    lemma_trim_front(s);
    assert(crate::text::trim_front(t) == t);
}

/// A text without white space is one word, however it goes on behind white space.
proof fn lemma_word_length(w: Seq<char>, rest: Seq<char>)
    requires
        forall|i: int| 0 <= i < w.len() ==> !crate::text::white(#[trigger] w[i]),
        rest.len() > 0 ==> crate::text::white(rest[0]),
    ensures
        word_end(w + rest) == w.len(),
    decreases w.len(),
{
    if w.len() > 0 {
        assert((w + rest).skip(1) =~= w.skip(1) + rest);
        assert((w + rest)[0] == w[0]);
        lemma_word_length(w.skip(1), rest);
    } else {
        assert(w + rest =~= rest);
    }
}

/// A face has its corners in the order of its words, and all of them; it has an
/// error exactly when a word has, and then that of the first such word.
pub proof fn law_corners(ws: Seq<Seq<char>>, i: int)
    requires
        0 <= i <= ws.len(),
    ensures
        match corners(ws, i) {
            Ok(cs) => cs.len() == ws.len() - i && forall|k: int|
                0 <= k < cs.len() ==> corner(#[trigger] ws[i + k]) == Ok::<u32, FaceError>(cs[k]),
            Err(e) => exists|k: int|
                i <= k < ws.len() && corner(#[trigger] ws[k]) == Err::<u32, FaceError>(e) && forall|
                    j: int,
                |
                    i <= j < k ==> corner(#[trigger] ws[j]) is Ok,
        },
    decreases ws.len() - i,
{
    if i < ws.len() {
        law_corners(ws, i + 1);
        match corners(ws, i) {
            Ok(cs) => {
                let rest = corners(ws, i + 1)->Ok_0;
                assert forall|k: int| 0 <= k < cs.len() implies corner(#[trigger] ws[i + k]) == Ok::<
                    u32,
                    FaceError,
                >(cs[k]) by {
                    if k > 0 {
                        assert(corner(ws[i + 1 + (k - 1)]) == Ok::<u32, FaceError>(rest[k - 1]));
                    }
                }
            },
            Err(e) => {
                if corner(ws[i]) is Ok {
                    let k = choose|k: int|
                        i + 1 <= k < ws.len() && corner(#[trigger] ws[k]) == Err::<u32, FaceError>(
                            e,
                        ) && forall|j: int| i + 1 <= j < k ==> corner(#[trigger] ws[j]) is Ok;
                    assert(corner(ws[k]) == Err::<u32, FaceError>(e));
                    assert forall|j: int| i <= j < k implies corner(#[trigger] ws[j]) is Ok by {
                        if j > i {
                            assert(corner(ws[j]) is Ok);
                        }
                    }
                } else {
                    assert(corner(ws[i]) == Err::<u32, FaceError>(e));
                }
            },
        }
    }
}

/// What a line says is told by its first word: `v` is a vertex with the words
/// behind it, three at most, `f` is a face with the corners behind it, and anything
/// else says nothing.
pub proof fn law_line_kinds(line: Seq<char>)
    ensures
        ({
            let ws = words(line);
            &&& ws.len() > 0 && ws[0] == seq!['v'] ==> (obj_line(line) matches ObjModel::Vertex(cs)
                && cs.is_prefix_of(ws.skip(1)) && (cs.len() == 3 || (cs.len() < 3 && cs.len()
                == ws.len() - 1)))
            &&& ws.len() > 0 && ws[0] == seq!['f'] ==> obj_line(line) == ObjModel::Face(
                corners(ws, 1),
            )
            &&& ws.len() == 0 || (ws[0] != seq!['v'] && ws[0] != seq!['f']) ==> obj_line(line)
                == ObjModel::Other
        }),
{
    reveal_strlit("v");
    reveal_strlit("f");
    assert("v"@ =~= seq!['v']);
    assert("f"@ =~= seq!['f']);
    let ws = words(line);
    if ws.len() > 0 && ws[0] == seq!['v'] {
        let n = if ws.len() > 4 {
            4
        } else {
            ws.len() as int
        };
        assert(ws.subrange(1, n) =~= ws.skip(1).take(n - 1));
    }
    if ws.len() > 0 && ws[0] == seq!['f'] {
        assert(ws[0][0] == 'f');
        assert(seq!['v'][0] == 'v');
    }
}

/// A line break parts a text into lines, and each of them is read by itself.
pub proof fn law_lines_are_read_one_by_one(line: Seq<char>, rest: Seq<char>)
    requires
        forall|i: int| 0 <= i < line.len() ==> #[trigger] line[i] != '\n',
    ensures
        obj_lines(line) == seq![obj_line(line)],
        obj_lines(line + seq!['\n'] + rest) == seq![obj_line(line)] + obj_lines(rest),
{
    let all = line + seq!['\n'] + rest;
    crate::text::lemma_index_behind(line, '\n', rest);
    assert(all.take(line.len() as int) =~= line);
    assert(all.skip(line.len() as int + 1) =~= rest);
}

/// What is wrong with a line: a vertex whose words are not all numbers or not
/// three, and a face with a corner that is no number or zero. The message names the
/// line, counted from one.
pub proof fn law_line_problems(ws: Seq<Seq<char>>, cs: Seq<u32>, good: bool, i: nat)
    ensures
        obj_problem(ObjModel::Other, good, i as int) is None,
        obj_problem(ObjModel::Face(Ok(cs)), good, i as int) is None,
        obj_problem(ObjModel::Vertex(ws), good, i as int) is None <==> good && ws.len() == 3,
        obj_problem(ObjModel::Vertex(ws), false, i as int) == Some(
            "bad coord @ line "@ + crate::text::decimal(i + 1),
        ),
        ws.len() != 3 ==> obj_problem(ObjModel::Vertex(ws), true, i as int) == Some(
            "vertex needs 3 coords @ line "@ + crate::text::decimal(i + 1),
        ),
        obj_problem(ObjModel::Face(Err(FaceError::Bad)), good, i as int) == Some(
            "bad face @ line "@ + crate::text::decimal(i + 1),
        ),
        obj_problem(ObjModel::Face(Err(FaceError::ZeroIndex)), good, i as int) == Some(
            "face index 1-based @ line "@ + crate::text::decimal(i + 1),
        ),
{
    reveal_strlit(" @ line ");
    reveal_strlit("bad coord");
    reveal_strlit("bad coord @ line ");
    reveal_strlit("vertex needs 3 coords");
    reveal_strlit("vertex needs 3 coords @ line ");
    reveal_strlit("bad face");
    reveal_strlit("bad face @ line ");
    reveal_strlit("face index 1-based");
    reveal_strlit("face index 1-based @ line ");
    assert("bad coord"@ + " @ line "@ =~= "bad coord @ line "@);
    assert("vertex needs 3 coords"@ + " @ line "@ =~= "vertex needs 3 coords @ line "@);
    assert("bad face"@ + " @ line "@ =~= "bad face @ line "@);
    assert("face index 1-based"@ + " @ line "@ =~= "face index 1-based @ line "@);
}

/// Whether a line is a face that makes triangles.
pub open spec fn makes_triangles(l: ObjModel) -> bool {
    l matches ObjModel::Face(Ok(cs)) && cs.len() >= 3
}

/// The faces of a file are those of its lines that have three corners or more, in
/// their order; a file with a bad line has none, but the message of the first bad
/// line.
pub proof fn law_faces_of_a_file(ls: Seq<ObjModel>, good: Seq<bool>, n: nat)
    requires
        n <= ls.len(),
        n <= good.len(),
    ensures
        match obj_faces(ls, good, n) {
            Ok(fs) => (forall|i: int|
                0 <= i < n ==> obj_problem(#[trigger] ls[i], good[i], i) is None) && ls.take(
                n as int,
            ).filter(|l: ObjModel| makes_triangles(l)) == fs.map_values(
                |cs: Seq<u32>| ObjModel::Face(Ok(cs)),
            ),
            Err(e) => exists|i: int|
                0 <= i < n && obj_problem(#[trigger] ls[i], good[i], i) == Some(e) && forall|j: int|
                    0 <= j < i ==> obj_problem(#[trigger] ls[j], good[j], j) is None,
        },
    decreases n,
{
    let p = |l: ObjModel| makes_triangles(l);
    let f = |cs: Seq<u32>| ObjModel::Face(Ok(cs));
    reveal(Seq::filter);
    if n == 0 {
        assert(ls.take(0).filter(p) =~= Seq::<Seq<u32>>::empty().map_values(f));
    } else {
        let m = (n - 1) as nat;
        law_faces_of_a_file(ls, good, m);
        let l = ls[m as int];
        assert(ls.take(n as int).drop_last() =~= ls.take(m as int));
        assert(ls.take(n as int).last() == l);
        match obj_faces(ls, good, n) {
            Ok(fs) => {
                let before = obj_faces(ls, good, m)->Ok_0;
                if p(l) {
                    assert(fs.map_values(f) =~= before.map_values(f).push(l));
                } else {
                    assert(fs == before);
                }
            },
            Err(e) => {
                if obj_faces(ls, good, m) is Ok {
                    assert(obj_problem(ls[m as int], good[m as int], m as int) == Some(e));
                } else {
                    let i = choose|i: int|
                        0 <= i < m && obj_problem(#[trigger] ls[i], good[i], i) == Some(e)
                            && forall|j: int|
                            0 <= j < i ==> obj_problem(#[trigger] ls[j], good[j], j) is None;
                    assert(obj_problem(ls[i], good[i], i) == Some(e));
                }
            },
        }
    }
}

/// Triangle `k` of a face joins its first corner to two neighbours, and every
/// neighbouring pair behind the first corner has its triangle.
pub proof fn law_fan_triangles(face: Seq<u32>, k: int)
    requires
        0 <= k < face.len() - 2,
    ensures
        face_fan(face).len() == face.len() - 2,
        face_fan(face)[k]@ == seq![face[0], face[k + 1], face[k + 2]],
{
    assert(face_fan(face)[k]@ =~= seq![face[0], face[k + 1], face[k + 2]]);
}

/// The triangles of some faces are those of each face, in order: none for no faces,
/// those of a face for one face, and those of two lots one behind the other.
pub proof fn law_faces_are_split_in_order(a: Seq<Seq<u32>>, b: Seq<Seq<u32>>, f: Seq<u32>)
    ensures
        fans(seq![], 0) == Seq::<[u32; 3]>::empty(),
        fans(seq![f], 1) == face_fan(f),
        fans(a + b, (a + b).len()) == fans(a, a.len()) + fans(b, b.len()),
{
    let one = seq![f];
    assert(fans(one, 0) == Seq::<[u32; 3]>::empty());
    assert(fans(one, 1) =~= face_fan(f));
    lemma_fans_behind(a, b, b.len());
}

proof fn lemma_fans_behind(a: Seq<Seq<u32>>, b: Seq<Seq<u32>>, n: nat)
    requires
        n <= b.len(),
    ensures
        fans(a + b, a.len() + n) == fans(a, a.len()) + fans(b, n),
    decreases n,
{
    if n == 0 {
        lemma_fans_prefix(a, a + b, a.len());
        assert(fans(a, a.len()) + fans(b, 0) =~= fans(a, a.len()));
    } else {
        lemma_fans_behind(a, b, (n - 1) as nat);
        assert((a + b)[a.len() + n - 1] == b[n - 1]);
        assert(fans(a + b, a.len() + n) =~= fans(a, a.len()) + fans(b, n));
    }
}

proof fn lemma_fans_prefix(a: Seq<Seq<u32>>, b: Seq<Seq<u32>>, n: nat)
    requires
        forall|i: int| 0 <= i < n ==> a[i] == b[i],
    ensures
        fans(a, n) == fans(b, n),
    decreases n,
{
    if n > 0 {
        lemma_fans_prefix(a, b, (n - 1) as nat);
        assert(a[n - 1] == b[n - 1]);
    }
}

/// The cell in row `r` and column `c` of a grid is cut into two triangles, which
/// name the four vertices at its corners: vertex `(r, c)` has the number
/// `r * (cols + 1) + c`.
pub proof fn law_grid_cell(cols: nat, rows: nat, r: int, c: int)
    requires
        (rows + 1) * (cols + 1) <= u32::MAX,
        0 <= r < rows,
        0 <= c < cols,
    ensures
        ({
            let at = 6 * (r * cols + c);
            let g = grid_cells(cols, rows);
            let here = r * (cols + 1) + c;
            let below = (r + 1) * (cols + 1) + c;
            &&& 0 <= at && at + 6 <= g.len()
            &&& g[at] == here
            &&& g[at + 1] == below
            &&& g[at + 2] == here + 1
            &&& g[at + 3] == here + 1
            &&& g[at + 4] == below
            &&& g[at + 5] == below + 1
        }),
    decreases rows,
{
    let m = (rows - 1) as nat;
    law_grid_size(cols, rows);
    law_grid_size(cols, m);
    assert(6 * cols * m == 6 * (m * cols)) by (nonlinear_arith);
    assert(6 * cols * rows == 6 * (rows * cols)) by (nonlinear_arith);
    assert(r * cols + c < (r + 1) * cols && (r + 1) * cols <= rows * cols && 0 <= r * cols)
        by (nonlinear_arith)
        requires
            0 <= r < rows,
            0 <= c < cols,
    ;
    assert((r + 1) * (cols + 1) + cols + 1 <= (rows + 1) * (cols + 1) && 0 <= r * (cols + 1) && (r
        + 1) * (cols + 1) == r * (cols + 1) + (cols + 1)) by (nonlinear_arith)
        requires
            0 <= r < rows,
            0 <= c < cols,
    ;
    if r < m {
        assert((m + 1) * (cols + 1) <= (rows + 1) * (cols + 1)) by (nonlinear_arith)
            requires
                m <= rows,
        ;
        law_grid_cell(cols, m, r, c);
    } else {
        lemma_row_size(r, (cols + 1) as int, cols);
        lemma_row_cell(r, (cols + 1) as int, cols, c);
        assert(m * cols == r * cols);
        let head = grid_cells(cols, m);
        let row = row_cells(r, (cols + 1) as int, cols);
        let at = 6 * (r * cols + c);
        assert(at == head.len() + 6 * c);
        assert forall|k: int| 0 <= k < 6 implies #[trigger] grid_cells(cols, rows)[at + k]
            == row[6 * c + k] by {
        }
        assert(row[6 * c + 0] == r * (cols + 1) + c);
        assert(grid_cells(cols, rows)[at + 0] == row[6 * c + 0]);
    }
}

proof fn lemma_row_cell(r: int, stride: int, n: nat, c: int)
    requires
        0 <= c < n,
        0 <= r * stride,
        r * stride + stride + n <= u32::MAX,
        stride >= 0,
    ensures
        row_cells(r, stride, n).len() == 6 * n,
        forall|k: int|
            0 <= k < 6 ==> #[trigger] row_cells(r, stride, n)[6 * c + k] == cell(
                r * stride + c,
                stride,
            )[k],
    decreases n,
{
    lemma_row_size(r, stride, n);
    lemma_row_size(r, stride, (n - 1) as nat);
    if c < n - 1 {
        lemma_row_cell(r, stride, (n - 1) as nat, c);
        let head = row_cells(r, stride, (n - 1) as nat);
        assert forall|k: int| 0 <= k < 6 implies #[trigger] row_cells(r, stride, n)[6 * c + k]
            == cell(r * stride + c, stride)[k] by {
            assert(head[6 * c + k] == cell(r * stride + c, stride)[k]);
        }
    }
}

} // verus!
