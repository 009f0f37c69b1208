//! Small text building blocks.

use vstd::prelude::*;

verus! {

/// `String::push` appends one character.
pub assume_specification[ String::push ](s: &mut String, c: char)
    ensures
        final(s)@ == old(s)@.push(c),
;

/// Whether two strings are the same text.
pub fn same(a: &str, b: &str) -> (r: bool)
    ensures
        r == (a@ == b@),
{
    a.to_owned() == b.to_owned()
}

/// The digit of value `d`.
pub open spec fn digit(d: int) -> char {
    seq!['0', '1', '2', '3', '4', '5', '6', '7', '8', '9', 'A', 'B', 'C', 'D', 'E', 'F'][d]
}

/// `v` in base `base` (at most 16), most significant digit first.
pub open spec fn numeral(v: nat, base: nat) -> Seq<char>
    decreases v,
{
    if v < base || base < 2 {
        seq![digit(v as int)]
    } else {
        proof {
            assert(v / base < v) by (nonlinear_arith)
                requires
                    v >= base,
                    base >= 2,
            ;
        }
        numeral(v / base, base).push(digit((v % base) as int))
    }
}

/// `v` in decimal.
pub open spec fn decimal(v: nat) -> Seq<char> {
    numeral(v, 10)
}

/// `s` with zeros in front, up to `width` characters.
pub open spec fn zero_padded(s: Seq<char>, width: nat) -> Seq<char> {
    if s.len() >= width {
        s
    } else {
        Seq::new((width - s.len()) as nat, |i: int| '0') + s
    }
}

fn digit_char(d: u64) -> (r: char)
    requires
        d < 16,
    ensures
        r == digit(d as int),
{
    let table: [char; 16] = [
        '0',
        '1',
        '2',
        '3',
        '4',
        '5',
        '6',
        '7',
        '8',
        '9',
        'A',
        'B',
        'C',
        'D',
        'E',
        'F',
    ];
    table[d as usize]
}

/// Appends the digit of value `d`.
pub fn push_digit(out: &mut String, d: u64)
    requires
        d < 16,
    ensures
        final(out)@ == old(out)@.push(digit(d as int)),
{
    out.push(digit_char(d));
}

/// The digits of `v` in base `base`.
pub fn numeral_chars(v: u64, base: u64) -> (r: Vec<char>)
    requires
        2 <= base <= 16,
    ensures
        r@ == numeral(v as nat, base as nat),
    decreases v,
{
    if v < base {
        vec![digit_char(v)]
    } else {
        assert(v / base < v) by (nonlinear_arith)
            requires
                v >= base,
                base >= 2,
        ;
        let mut out: Vec<char> = numeral_chars(v / base, base);
        out.push(digit_char(v % base));
        out
    }
}

/// Appends characters to a string.
pub fn push_chars(out: &mut String, cs: &[char])
    ensures
        final(out)@ == old(out)@ + cs@,
{
    let ghost start = out@;
    let mut i: usize = 0;
    while i < cs.len()
        invariant
            i <= cs@.len(),
            out@ == start + cs@.take(i as int),
        decreases cs@.len() - i,
    {
        out.push(cs[i]);
        i = i + 1;
        assert(out@ =~= start + cs@.take(i as int));
    }
    assert(cs@.take(i as int) =~= cs@);
}

/// The string of some characters.
pub fn string_of(cs: &[char]) -> (r: String)
    ensures
        r@ == cs@,
{
    let mut s = String::new();
    push_chars(&mut s, cs);
    assert(s@ =~= cs@);
    s
}

/// The characters of a string.
pub fn chars_of(s: &str) -> (r: Vec<char>)
    ensures
        r@ == s@,
{
    let mut out: Vec<char> = Vec::new();
    for c in it: s.chars()
        invariant
            it.seq() == s@,
            out@ == s@.take(it.index() as int),
    {
        out.push(c);
        assert(out@ =~= s@.take(it.index() + 1));
    }
    assert(out@ =~= s@);
    out
}

/// `v` in decimal.
pub fn decimal_text(v: u64) -> (r: String)
    ensures
        r@ == decimal(v as nat),
{
    let cs = numeral_chars(v, 10);
    string_of(cs.as_slice())
}

/// `v` in hexadecimal, in capitals, with at least `width` digits.
pub fn hex_text(v: u64, width: usize) -> (r: String)
    ensures
        r@ == zero_padded(numeral(v as nat, 16), width as nat),
{
    let cs = numeral_chars(v, 16);
    let mut s = String::new();
    let mut i: usize = cs.len();
    let ghost n = cs@.len();
    while i < width
        invariant
            n == cs@.len(),
            n <= i,
            i <= width || i == n,
            s@ == Seq::new((i - n) as nat, |k: int| '0'),
        decreases width - i,
    {
        s.push('0');
        i = i + 1;
        assert(s@ =~= Seq::new((i - n) as nat, |k: int| '0'));
    }
    push_chars(&mut s, cs.as_slice());
    assert(s@ =~= zero_padded(cs@, width as nat));
    s
}

/// `a` followed by `b`.
pub fn joined(a: &str, b: &str) -> (r: String)
    ensures
        r@ == a@ + b@,
{
    let mut s = a.to_owned();
    s.append(b);
    s
}

/// Texts with a separator between them.
pub open spec fn joined_with(ts: Seq<Seq<char>>, sep: Seq<char>) -> Seq<char>
    decreases ts.len(),
{
    if ts.len() == 0 {
        seq![]
    } else if ts.len() == 1 {
        ts[0]
    } else {
        joined_with(ts.drop_last(), sep) + sep + ts.last()
    }
}

/// A bracketed list with a comma and a space between the items.
pub open spec fn listed(ts: Seq<Seq<char>>) -> Seq<char> {
    "["@ + joined_with(ts, ", "@) + "]"@
}

/// The views of some strings.
pub open spec fn texts(s: Seq<String>) -> Seq<Seq<char>> {
    Seq::new(s.len(), |i: int| s[i]@)
}

/// The decimals of four channels.
pub open spec fn channel_texts(c: [u8; 4]) -> Seq<Seq<char>> {
    Seq::new(4, |i: int| decimal(c[i] as nat))
}

/// Appends strings with a separator between them.
pub fn push_joined(out: &mut String, items: &Vec<String>, sep: &str)
    ensures
        final(out)@ == old(out)@ + joined_with(texts(items@), sep@),
{
    let ghost start = out@;
    let ghost ts = texts(items@);
    let mut i: usize = 0;
    assert(out@ =~= start + joined_with(ts.take(0), sep@));
    while i < items.len()
        invariant
            i <= items@.len(),
            ts == texts(items@),
            out@ == start + joined_with(ts.take(i as int), sep@),
        decreases items@.len() - i,
    {
        if i > 0 {
            out.append(sep);
        }
        out.append(items[i].as_str());
        i = i + 1;
        assert(ts.take(i as int).drop_last() =~= ts.take(i - 1));
        assert(ts.take(i as int).last() == items@[i - 1]@);
        assert(out@ =~= start + joined_with(ts.take(i as int), sep@));
    }
    assert(ts.take(i as int) =~= ts);
}

/// A bracketed list.
pub fn list_text(items: &Vec<String>) -> (r: String)
    ensures
        r@ == listed(texts(items@)),
{
    let mut s = "[".to_owned();
    push_joined(&mut s, items, ", ");
    s.append("]");
    s
}

/// The bracketed list of four channels.
pub fn channels_text(c: &[u8; 4]) -> (r: String)
    ensures
        r@ == listed(channel_texts(*c)),
{
    let items: Vec<String> = vec![
        decimal_text(c[0] as u64),
        decimal_text(c[1] as u64),
        decimal_text(c[2] as u64),
        decimal_text(c[3] as u64),
    ];
    assert(texts(items@) =~= channel_texts(*c));
    list_text(&items)
}

/// Whether a character is white space.
pub open spec fn white(c: char) -> bool {
    let u = c as u32;
    ||| 0x9 <= u <= 0xd
    ||| u == 0x20
    ||| u == 0x85
    ||| u == 0xa0
    ||| u == 0x1680
    ||| 0x2000 <= u <= 0x200a
    ||| u == 0x2028
    ||| u == 0x2029
    ||| u == 0x202f
    ||| u == 0x205f
    ||| u == 0x3000
}

/// `s` without white space in front.
pub open spec fn trim_front(s: Seq<char>) -> Seq<char>
    decreases s.len(),
{
    if s.len() > 0 && white(s[0]) {
        trim_front(s.skip(1))
    } else {
        s
    }
}

/// `s` without white space behind.
pub open spec fn trim_back(s: Seq<char>) -> Seq<char>
    decreases s.len(),
{
    if s.len() > 0 && white(s.last()) {
        trim_back(s.drop_last())
    } else {
        s
    }
}

/// `s` without white space on either side.
pub open spec fn trimmed(s: Seq<char>) -> Seq<char> {
    trim_back(trim_front(s))
}

/// The position of the first `c`, or the length.
pub open spec fn index_of(s: Seq<char>, c: char) -> int
    decreases s.len(),
{
    if s.len() == 0 || s[0] == c {
        0
    } else {
        1 + index_of(s.skip(1), c)
    }
}

/// Whether a character is white space.
pub fn is_white(c: char) -> (r: bool)
    ensures
        r == white(c),
{
    let u: u32 = c as u32;
    (0x9 <= u && u <= 0xd) || u == 0x20 || u == 0x85 || u == 0xa0 || u == 0x1680 || (0x2000 <= u
        && u <= 0x200a) || u == 0x2028 || u == 0x2029 || u == 0x202f || u == 0x205f || u == 0x3000
}

/// The characters from `lo` up to `hi`.
pub fn piece(cs: &Vec<char>, lo: usize, hi: usize) -> (r: Vec<char>)
    requires
        lo <= hi <= cs@.len(),
    ensures
        r@ == cs@.subrange(lo as int, hi as int),
{
    let mut out: Vec<char> = Vec::new();
    let mut i: usize = lo;
    while i < hi
        invariant
            lo <= i <= hi <= cs@.len(),
            out@ == cs@.subrange(lo as int, i as int),
        decreases hi - i,
    {
        out.push(cs[i]);
        i = i + 1;
        assert(out@ =~= cs@.subrange(lo as int, i as int));
    }
    out
}

/// The characters without white space on either side.
pub fn trim(cs: &Vec<char>) -> (r: Vec<char>)
    ensures
        r@ == trimmed(cs@),
{
    let mut lo: usize = 0;
    let n: usize = cs.len();
    assert(cs@.subrange(0, n as int) =~= cs@);
    while lo < n && is_white(cs[lo])
        invariant
            lo <= n,
            n == cs@.len(),
            trim_front(cs@) == trim_front(cs@.subrange(lo as int, n as int)),
        decreases n - lo,
    {
        assert(cs@.subrange(lo as int, n as int).skip(1) =~= cs@.subrange(lo + 1, n as int));
        lo = lo + 1;
    }
    let ghost front = cs@.subrange(lo as int, n as int);
    assert(trim_front(cs@) == front);
    let mut hi: usize = n;
    while lo < hi && is_white(cs[hi - 1])
        invariant
            lo <= hi <= n,
            n == cs@.len(),
            trim_back(front) == trim_back(cs@.subrange(lo as int, hi as int)),
        decreases hi - lo,
    {
        let ghost here = cs@.subrange(lo as int, hi as int);
        assert(here.drop_last() =~= cs@.subrange(lo as int, hi - 1));
        assert(here.last() == cs@[hi - 1]);
        hi = hi - 1;
    }
    assert(trim_back(front) == cs@.subrange(lo as int, hi as int));
    piece(cs, lo, hi)
}

/// The position of the first `c` at or behind `from`, or the length.
pub fn find(cs: &Vec<char>, from: usize, c: char) -> (r: usize)
    requires
        from <= cs@.len(),
    ensures
        from <= r <= cs@.len(),
        r - from == index_of(cs@.skip(from as int), c),
        r < cs@.len() ==> cs@[r as int] == c,
{
    let mut i: usize = from;
    while i < cs.len() && cs[i] != c
        invariant
            from <= i <= cs@.len(),
            index_of(cs@.skip(from as int), c) == i - from + index_of(cs@.skip(i as int), c),
        decreases cs@.len() - i,
    {
        assert(cs@.skip(i as int).skip(1) =~= cs@.skip(i + 1));
        i = i + 1;
    }
    i
}

/// Whether `part` stands in `s` at position `i`.
pub open spec fn stands_at(s: Seq<char>, part: Seq<char>, i: int) -> bool {
    0 <= i && i + part.len() <= s.len() && s.subrange(i, i + part.len()) == part
}

/// Whether `part` stands somewhere in `s`.
pub open spec fn occurs(s: Seq<char>, part: Seq<char>) -> bool {
    exists|i: int| #[trigger] stands_at(s, part, i)
}

/// Whether `part` stands somewhere in `text`.
pub fn holds(text: &str, part: &str) -> (r: bool)
    ensures
        r == occurs(text@, part@),
{
    let s: Vec<char> = chars_of(text);
    let p: Vec<char> = chars_of(part);
    if p.len() > s.len() {
        return false;
    }
    let n: usize = s.len();
    let last: usize = n - p.len();
    let mut i: usize = 0;
    while i <= last
        invariant
            s@ == text@,
            p@ == part@,
            p@.len() <= s@.len(),
            n == s@.len(),
            last == n - p@.len(),
            i <= last + 1,
            forall|k: int| 0 <= k < i ==> !#[trigger] stands_at(text@, part@, k),
        decreases last + 1 - i,
    {
        let mut j: usize = 0;
        while j < p.len() && s[i + j] == p[j]
            invariant
                j <= p@.len(),
                n == s@.len(),
                i + p@.len() <= n,
                forall|k: int| 0 <= k < j ==> s@[i + k] == #[trigger] p@[k],
            decreases p@.len() - j,
        {
            j = j + 1;
        }
        if j == p.len() {
            assert(text@.subrange(i as int, i + part@.len()) =~= part@);
            assert(stands_at(text@, part@, i as int));
            return true;
        }
        assert(!stands_at(text@, part@, i as int)) by {
            assert(text@.subrange(i as int, i + part@.len())[j as int] == s@[i + j]);
        }
        if i == last {
            assert forall|k: int| !#[trigger] stands_at(text@, part@, k) by {
                if k > last {
                    assert(k + part@.len() > text@.len());
                }
            }
            return false;
        }
        i = i + 1;
    }
    false
}

/// The digits are `0` to `9`, then `A` to `F`.
pub proof fn law_digits(d: int)
    ensures
        0 <= d < 10 ==> digit(d) as int == '0' as int + d,
        10 <= d < 16 ==> digit(d) as int == 'A' as int + (d - 10),
{
}

/// Decimal notation: a number below ten is one digit, and a digit written behind a
/// number makes ten times that number and the digit.
pub proof fn law_decimal(v: nat, d: nat)
    requires
        d < 10,
    ensures
        decimal(d).len() == 1 && decimal(d)[0] as int == '0' as int + d,
        v > 0 ==> decimal(10 * v + d).drop_last() == decimal(v) && decimal(10 * v + d).last() as int
            == '0' as int + d,
        v > 0 ==> decimal(10 * v + d).len() == decimal(v).len() + 1,
{
    if v > 0 {
        assert((10 * v + d) / 10 == v && (10 * v + d) % 10 == d);
        assert(decimal(10 * v + d).drop_last() =~= decimal(v));
    }
}

/// Hexadecimal notation: a number below sixteen is one digit, and a digit written
/// behind a number makes sixteen times that number and the digit.
pub proof fn law_hexadecimal(v: nat, d: nat)
    requires
        d < 16,
    ensures
        numeral(d, 16) == seq![digit(d as int)],
        v > 0 ==> numeral(16 * v + d, 16) == numeral(v, 16).push(digit(d as int)),
{
    if v > 0 {
        assert((16 * v + d) / 16 == v && (16 * v + d) % 16 == d);
    }
}

/// Decimal notation has digits only, at least one, and none in front that is zero
/// unless the number is.
pub proof fn law_decimal_is_digits(v: nat)
    ensures
        decimal(v).len() >= 1,
        forall|i: int| 0 <= i < decimal(v).len() ==> '0' <= #[trigger] decimal(v)[i] <= '9',
        v > 0 ==> decimal(v)[0] != '0',
    decreases v,
{
    if v >= 10 {
        law_decimal_is_digits(v / 10);
        assert(0 <= v % 10 < 10);
    }
}

/// Different numbers have different decimal notations.
pub proof fn law_decimal_distinguishes(a: nat, b: nat)
    requires
        decimal(a) == decimal(b),
    ensures
        a == b,
    decreases a,
{
    law_decimal_is_digits(a / 10);
    law_decimal_is_digits(b / 10);
    assert(0 <= a % 10 < 10 && 0 <= b % 10 < 10);
    if a < 10 {
        assert(decimal(a).len() == 1);
        if b >= 10 {
            assert(decimal(b).len() == decimal(b / 10).len() + 1);
        }
        assert(b < 10);
        assert(decimal(a)[0] == digit(a as int) && decimal(b)[0] == digit(b as int));
    } else {
        assert(decimal(a).len() == decimal(a / 10).len() + 1);
        assert(b >= 10);
        assert(decimal(a).drop_last() =~= decimal(a / 10));
        assert(decimal(b).drop_last() =~= decimal(b / 10));
        law_decimal_distinguishes(a / 10, b / 10);
        assert(decimal(a).last() == digit((a % 10) as int));
        assert(decimal(b).last() == digit((b % 10) as int));
    }
}

/// Padding puts zeros in front and nothing else, up to the width and not beyond.
pub proof fn law_zero_padded(s: Seq<char>, width: nat)
    ensures
        zero_padded(s, width).len() == if s.len() >= width {
            s.len()
        } else {
            width
        },
        zero_padded(s, width).skip(zero_padded(s, width).len() - s.len()) == s,
        forall|i: int|
            0 <= i < zero_padded(s, width).len() - s.len() ==> #[trigger] zero_padded(s, width)[i]
                == '0',
{
    assert(zero_padded(s, width).skip(zero_padded(s, width).len() - s.len()) =~= s);
}

/// Nothing joined is nothing, one text joined is that text, and texts joined in two
/// lots are the two lots with a separator between them.
pub proof fn law_joined(a: Seq<Seq<char>>, b: Seq<Seq<char>>, t: Seq<char>, sep: Seq<char>)
    ensures
        joined_with(seq![], sep) == Seq::<char>::empty(),
        joined_with(seq![t], sep) == t,
        a.len() > 0 && b.len() > 0 ==> joined_with(a + b, sep) == joined_with(a, sep) + sep
            + joined_with(b, sep),
    decreases b.len(),
{
    if a.len() > 0 && b.len() > 0 {
        let all = a + b;
        assert(all.drop_last() =~= a + b.drop_last());
        assert(all.last() == b.last());
        if b.len() > 1 {
            law_joined(a, b.drop_last(), t, sep);
            assert(joined_with(all, sep) =~= joined_with(a, sep) + sep + joined_with(b, sep));
        } else {
            assert(a + b.drop_last() =~= a);
            assert(joined_with(b, sep) == b[0]);
        }
    }
}

/// Every one of some joined texts stands in what they are joined to.
pub proof fn law_joined_holds_each(ts: Seq<Seq<char>>, sep: Seq<char>, i: int)
    requires
        0 <= i < ts.len(),
    ensures
        occurs(joined_with(ts, sep), ts[i]),
    decreases ts.len(),
{
    let whole = joined_with(ts, sep);
    if ts.len() == 1 {
        assert(whole.subrange(0, ts[0].len() as int) =~= ts[0]);
        assert(stands_at(whole, ts[i], 0));
    } else {
        let head = joined_with(ts.drop_last(), sep);
        if i == ts.len() - 1 {
            let at = head.len() + sep.len();
            assert(whole.subrange(at as int, (at + ts[i].len()) as int) =~= ts[i]);
            assert(stands_at(whole, ts[i], at as int));
        } else {
            law_joined_holds_each(ts.drop_last(), sep, i);
            assert(ts.drop_last()[i] == ts[i]);
            let k = choose|k: int| stands_at(head, ts[i], k);
            assert(whole.subrange(k, k + ts[i].len()) =~= head.subrange(k, k + ts[i].len()));
            assert(stands_at(whole, ts[i], k));
        }
    }
}

/// A list starts with a bracket and ends with one, and between them its items are
/// parted by a comma and a space.
pub proof fn law_listed(ts: Seq<Seq<char>>)
    ensures
        listed(ts) == seq!['['] + joined_with(ts, seq![',', ' ']) + seq![']'],
{
    reveal_strlit("[");
    reveal_strlit("]");
    reveal_strlit(", ");
    assert("["@ =~= seq!['[']);
    assert("]"@ =~= seq![']']);
    assert(", "@ =~= seq![',', ' ']);
}

/// White space is the space, the tab, the line breaks and the other separators of
/// Unicode; letters, digits and marks are not.
pub proof fn law_white(c: char)
    ensures
        white(c) <==> (c == ' ' || c == '\t' || c == '\n' || c == '\u{b}' || c == '\u{c}' || c
            == '\r' || c == '\u{85}' || c == '\u{a0}' || c == '\u{1680}' || ('\u{2000}' <= c
            <= '\u{200a}') || c == '\u{2028}' || c == '\u{2029}' || c == '\u{202f}' || c
            == '\u{205f}' || c == '\u{3000}'),
{
}

/// Trimming takes white space off both ends and nothing else: what white space
/// surrounds is left, if it neither starts nor ends with white space itself.
pub proof fn law_trimmed(front: Seq<char>, s: Seq<char>, back: Seq<char>)
    requires
        forall|i: int| 0 <= i < front.len() ==> white(#[trigger] front[i]),
        forall|i: int| 0 <= i < back.len() ==> white(#[trigger] back[i]),
        s.len() > 0 ==> !white(s[0]) && !white(s.last()),
    ensures
        trimmed(front + s + back) == s,
{
    let all = front + s + back;
    lemma_trim_front_of(front, s + back);
    assert(all =~= front + (s + back));
    if s.len() > 0 {
        assert((s + back)[0] == s[0]);
        lemma_trim_back_of(s, back);
    } else {
        assert(s + back =~= back);
        lemma_trim_front_of(back, seq![]);
        assert(back + seq![] =~= back);
        assert(trim_front(all) == Seq::<char>::empty());
    }
}

/// White space in front is taken off.
pub proof fn lemma_trim_front_of(front: Seq<char>, s: Seq<char>)
    requires
        forall|i: int| 0 <= i < front.len() ==> white(#[trigger] front[i]),
    ensures
        trim_front(front + s) == trim_front(s),
    decreases front.len(),
{
    if front.len() > 0 {
        assert((front + s).skip(1) =~= front.skip(1) + s);
        assert((front + s)[0] == front[0]);
        lemma_trim_front_of(front.skip(1), s);
    } else {
        assert(front + s =~= s);
    }
}

/// White space behind is taken off.
proof fn lemma_trim_back_of(s: Seq<char>, back: Seq<char>)
    requires
        s.len() > 0,
        !white(s.last()),
        forall|i: int| 0 <= i < back.len() ==> white(#[trigger] back[i]),
    ensures
        trim_back(s + back) == s,
    decreases back.len(),
{
    if back.len() > 0 {
        assert((s + back).drop_last() =~= s + back.drop_last());
        assert((s + back).last() == back.last());
        lemma_trim_back_of(s, back.drop_last());
    } else {
        assert(s + back =~= s);
    }
}

/// The position of a character is that of its first occurrence, or the length
/// where it does not occur.
pub proof fn law_index_of(s: Seq<char>, c: char)
    ensures
        0 <= index_of(s, c) <= s.len(),
        forall|i: int| 0 <= i < index_of(s, c) ==> #[trigger] s[i] != c,
        index_of(s, c) < s.len() ==> s[index_of(s, c)] == c,
    decreases s.len(),
{
    if s.len() > 0 && s[0] != c {
        law_index_of(s.skip(1), c);
        assert forall|i: int| 0 <= i < index_of(s, c) implies #[trigger] s[i] != c by {
            if i > 0 {
                assert(s.skip(1)[i - 1] == s[i]);
            }
        }
    }
}

/// The first occurrence of a character behind a text without it.
pub proof fn lemma_index_behind(a: Seq<char>, c: char, b: Seq<char>)
    requires
        forall|i: int| 0 <= i < a.len() ==> #[trigger] a[i] != c,
    ensures
        index_of(a + seq![c] + b, c) == a.len(),
        index_of(a, c) == a.len(),
{
    let s = a + seq![c] + b;
    law_index_of(s, c);
    law_index_of(a, c);
    assert(s[a.len() as int] == c);
    if index_of(s, c) < a.len() {
        assert(s[index_of(s, c)] == a[index_of(s, c)]);
    }
}

/// A text occurs in another exactly when the other is something, that text, and
/// something more.
pub proof fn law_occurs(a: Seq<char>, part: Seq<char>, b: Seq<char>, s: Seq<char>)
    ensures
        occurs(a + part + b, part),
        occurs(s, part) ==> exists|x: Seq<char>, y: Seq<char>| s == #[trigger] (x + part + y),
{
    let all = a + part + b;
    assert(all.subrange(a.len() as int, (a.len() + part.len()) as int) =~= part);
    assert(stands_at(all, part, a.len() as int));
    if occurs(s, part) {
        let i = choose|i: int| stands_at(s, part, i);
        let x = s.take(i);
        let y = s.skip(i + part.len());
        assert(s =~= x + part + y);
    }
}

/// Strings and channels are taken for what they hold, in order.
pub proof fn law_texts(s: Seq<String>, c: [u8; 4], i: int)
    ensures
        texts(s).len() == s.len(),
        0 <= i < s.len() ==> texts(s)[i] == s[i]@,
        channel_texts(c).len() == 4,
        0 <= i < 4 ==> channel_texts(c)[i] == decimal(c[i] as nat),
{
}

} // verus!
