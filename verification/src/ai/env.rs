//! The `.env` file: `KEY=VALUE` lines that are used where the environment has no
//! value of its own.

use vstd::prelude::*;

verus! {

/// Whether a character may stand in a key.
pub open spec fn key_char(c: char) -> bool {
    'a' <= c <= 'z' || 'A' <= c <= 'Z' || '0' <= c <= '9' || c == '_'
}

/// A value without one layer of matching quotes.
pub open spec fn unquoted(v: Seq<char>) -> Seq<char> {
    if v.len() >= 2 && ((v[0] == '"' && v.last() == '"') || (v[0] == '\'' && v.last() == '\'')) {
        v.subrange(1, v.len() - 1)
    } else {
        v
    }
}

/// What a line says.
#[verifier::ext_equal]
pub enum LineModel {
    /// Nothing: it is blank or a comment.
    Skip,
    /// It is not `KEY=VALUE`.
    Malformed,
    /// A key and its value.
    Entry(Seq<char>, Seq<char>),
}

/// What a line says.
pub open spec fn line_model(line: Seq<char>) -> LineModel {
    let t = crate::text::trimmed(line);
    let eq = crate::text::index_of(t, '=');
    let key = crate::text::trimmed(t.take(eq));
    if t.len() == 0 || t[0] == '#' {
        LineModel::Skip
    } else if eq == t.len() {
        LineModel::Malformed
    } else if key.len() == 0 || !(forall|i: int| 0 <= i < key.len() ==> key_char(#[trigger] key[i])) {
        LineModel::Malformed
    } else {
        LineModel::Entry(key, unquoted(crate::text::trimmed(t.skip(eq + 1))))
    }
}

/// The entries and the number of malformed lines of a text.
pub open spec fn file_model(text: Seq<char>) -> (Seq<(Seq<char>, Seq<char>)>, nat)
    decreases text.len(),
{
    let k = crate::text::index_of(text, '\n');
    let rest = if 0 <= k < text.len() {
        file_model(text.skip(k + 1))
    } else {
        (seq![], 0)
    };
    match line_model(text.take(k)) {
        LineModel::Skip => rest,
        LineModel::Malformed => (rest.0, rest.1 + 1),
        LineModel::Entry(key, value) => (seq![(key, value)] + rest.0, rest.1),
    }
}

fn is_key_char(c: char) -> (r: bool)
    ensures
        r == key_char(c),
{
    ('a' <= c && c <= 'z') || ('A' <= c && c <= 'Z') || ('0' <= c && c <= '9') || c == '_'
}

/// What a line says.
enum Line {
    Skip,
    Malformed,
    Entry(String, String),
}

impl Line {
    spec fn model(&self) -> LineModel {
        match *self {
            Line::Skip => LineModel::Skip,
            Line::Malformed => LineModel::Malformed,
            Line::Entry(k, v) => LineModel::Entry(k@, v@),
        }
    }
}

fn read_line(line: &Vec<char>) -> (r: Line)
    ensures
        r.model() == line_model(line@),
{
    let t: Vec<char> = crate::text::trim(line);
    if t.len() == 0 || t[0] == '#' {
        return Line::Skip;
    }
    assert(t@.skip(0) =~= t@);
    let eq: usize = crate::text::find(&t, 0, '=');
    if eq == t.len() {
        return Line::Malformed;
    }
    let left: Vec<char> = crate::text::piece(&t, 0, eq);
    assert(left@ =~= t@.take(eq as int));
    let key: Vec<char> = crate::text::trim(&left);
    if key.len() == 0 {
        return Line::Malformed;
    }
    let mut i: usize = 0;
    while i < key.len()
        invariant
            i <= key@.len(),
            forall|k: int| 0 <= k < i ==> key_char(#[trigger] key@[k]),
            t@ == crate::text::trimmed(line@),
            t@.len() > 0,
            t@[0] != '#',
            eq == crate::text::index_of(t@, '='),
            eq < t@.len(),
            key@ == crate::text::trimmed(t@.take(eq as int)),
        decreases key@.len() - i,
    {
        if !is_key_char(key[i]) {
            return Line::Malformed;
        }
        i = i + 1;
    }
    let right: Vec<char> = crate::text::piece(&t, eq + 1, t.len());
    assert(right@ =~= t@.skip(eq + 1));
    let mut value: Vec<char> = crate::text::trim(&right);
    let n: usize = value.len();
    if n >= 2 && ((value[0] == '"' && value[n - 1] == '"') || (value[0] == '\'' && value[n - 1]
        == '\'')) {
        value = crate::text::piece(&value, 1, n - 1);
    }
    Line::Entry(
        crate::text::string_of(key.as_slice()),
        crate::text::string_of(value.as_slice()),
    )
}

/// The entries of a `.env` text, and how many of its lines are malformed.
#[derive(Clone, Debug)]
pub struct EnvFile {
    /// Keys and values, in order.
    pub entries: Vec<(String, String)>,
    /// Number of lines that are not `KEY=VALUE`.
    pub malformed: usize,
}

/// The meanings of entries.
pub open spec fn entry_models(es: Seq<(String, String)>) -> Seq<(Seq<char>, Seq<char>)> {
    Seq::new(es.len(), |i: int| (es[i].0@, es[i].1@))
}

/// Reads a `.env` text: blank lines and comments are skipped, keys are letters,
/// digits and underscores, keys and values are trimmed, one layer of matching
/// quotes is taken off a value, and any other line is counted as malformed.
pub fn parse_env(text: &str) -> (r: EnvFile)
    ensures
        entry_models(r.entries@) == file_model(text@).0,
        r.malformed == file_model(text@).1,
{
    let cs: Vec<char> = crate::text::chars_of(text);
    let mut entries: Vec<(String, String)> = Vec::new();
    let mut malformed: usize = 0;
    let mut at: usize = 0;
    let mut more = true;
    let ghost whole = file_model(text@);
    assert(cs@.skip(0) =~= text@);
    assert(entry_models(entries@) =~= seq![]);
    assert(seq![] + whole.0 =~= whole.0);
    while more
        invariant
            cs@ == text@,
            whole == file_model(text@),
            at <= cs@.len(),
            more ==> malformed <= at,
            more ==> whole.0 == entry_models(entries@) + file_model(cs@.skip(at as int)).0,
            more ==> whole.1 == malformed + file_model(cs@.skip(at as int)).1,
            !more ==> whole.0 == entry_models(entries@) && whole.1 == malformed,
        decreases cs@.len() - at, more as int,
    {
        let end: usize = crate::text::find(&cs, at, '\n');
        let line: Vec<char> = crate::text::piece(&cs, at, end);
        let ghost rest = cs@.skip(at as int);
        assert(line@ =~= rest.take(end - at));
        let ghost was = entry_models(entries@);
        let ghost after = if end < cs@.len() {
            file_model(cs@.skip(end + 1))
        } else {
            (seq![], 0)
        };
        proof {
            if end < cs@.len() {
                assert(rest.skip(end - at + 1) =~= cs@.skip(end + 1));
            }
        }
        match read_line(&line) {
            Line::Skip => {},
            Line::Malformed => {
                assert(line@.len() > 0);
                malformed = malformed + 1;
            },
            Line::Entry(k, v) => {
                let ghost pair = (k@, v@);
                entries.push((k, v));
                assert(entry_models(entries@) =~= was.push(pair));
                assert(was + (seq![pair] + after.0) =~= was.push(pair) + after.0);
            },
        }
        if end < cs.len() {
            at = end + 1;
        } else {
            more = false;
            assert(entry_models(entries@) + seq![] =~= entry_models(entries@));
        }
    }
    EnvFile { entries, malformed }
}

/// The positions, among the first `n` entries, of those to be put into the
/// environment: a key that is set already is left alone, and of several entries
/// for a key the first counts.
pub open spec fn to_load(keys: Seq<Seq<char>>, is_set: Seq<bool>, n: nat) -> Seq<int>
    decreases n,
{
    if n == 0 {
        seq![]
    } else {
        let before = to_load(keys, is_set, (n - 1) as nat);
        if is_set[n - 1] || (exists|j: int| 0 <= j < n - 1 && #[trigger] keys[j] == keys[n - 1]) {
            before
        } else {
            before.push(n - 1)
        }
    }
}

/// The keys of entries.
pub open spec fn entry_keys(es: Seq<(String, String)>) -> Seq<Seq<char>> {
    Seq::new(es.len(), |i: int| es[i].0@)
}

/// Chooses the entries to be put into the environment. `is_set` says for each
/// entry whether its key is set already; see [`to_load`].
pub fn load_plan(entries: &Vec<(String, String)>, is_set: &Vec<bool>) -> (r: Vec<usize>)
    requires
        is_set@.len() == entries@.len(),
    ensures
        r@.map_values(|i: usize| i as int) == to_load(
            entry_keys(entries@),
            is_set@,
            entries@.len(),
        ),
{
    let mut out: Vec<usize> = Vec::new();
    let mut i: usize = 0;
    assert(out@.map_values(|i: usize| i as int) =~= seq![]);
    while i < entries.len()
        invariant
            i <= entries@.len(),
            is_set@.len() == entries@.len(),
            out@.map_values(|i: usize| i as int) == to_load(
                entry_keys(entries@),
                is_set@,
                i as nat,
            ),
        decreases entries@.len() - i,
    {
        let ghost keys = entry_keys(entries@);
        let mut seen = is_set[i];
        let mut j: usize = 0;
        while j < i
            invariant
                j <= i < entries@.len(),
                is_set@.len() == entries@.len(),
                keys == entry_keys(entries@),
                seen == (is_set@[i as int] || exists|k: int|
                    0 <= k < j && #[trigger] keys[k] == keys[i as int]),
            decreases i - j,
        {
            let dup = crate::text::same(entries[j].0.as_str(), entries[i].0.as_str());
            assert(dup == (keys[j as int] == keys[i as int]));
            if dup {
                seen = true;
            }
            j = j + 1;
        }
        let ghost was = out@.map_values(|i: usize| i as int);
        if !seen {
            out.push(i);
            assert(out@.map_values(|i: usize| i as int) =~= was.push(i as int));
        }
        i = i + 1;
    }
    out
}

/// The environment wins: no key that is set is loaded, and no key is loaded
/// twice.
pub proof fn law_env_wins(keys: Seq<Seq<char>>, is_set: Seq<bool>, n: nat)
    requires
        n <= keys.len(),
        n <= is_set.len(),
    ensures
        forall|p: int|
            0 <= p < to_load(keys, is_set, n).len() ==> {
                let i = #[trigger] to_load(keys, is_set, n)[p];
                0 <= i < n && !is_set[i]
            },
        forall|p: int, q: int|
            0 <= p < q < to_load(keys, is_set, n).len() ==> keys[#[trigger] to_load(
                keys,
                is_set,
                n,
            )[p]] != keys[#[trigger] to_load(keys, is_set, n)[q]],
    decreases n,
{
    if n > 0 {
        law_env_wins(keys, is_set, (n - 1) as nat);
        let before = to_load(keys, is_set, (n - 1) as nat);
        let all = to_load(keys, is_set, n);
        assert(forall|p: int| 0 <= p < before.len() ==> all[p] == before[p]);
        assert forall|p: int| 0 <= p < all.len() implies 0 <= #[trigger] all[p] < n
            && !is_set[all[p]] by {
            if p < before.len() {
                assert(0 <= before[p] < n - 1);
            }
        }
        assert forall|p: int, q: int| 0 <= p < q < all.len() implies keys[#[trigger] all[p]]
            != keys[#[trigger] all[q]] by {
            assert(0 <= before[p] < n - 1);
            if q < before.len() {
                assert(keys[before[p]] != keys[before[q]]);
            }
        }
    }
}

/// Every key that is not set is loaded, from its first entry.
pub proof fn law_first_entry_loaded(keys: Seq<Seq<char>>, is_set: Seq<bool>, n: nat, i: int)
    requires
        n <= keys.len(),
        n <= is_set.len(),
        0 <= i < n,
        !is_set[i],
        forall|j: int| 0 <= j < i ==> #[trigger] keys[j] != keys[i],
    ensures
        to_load(keys, is_set, n).contains(i),
    decreases n,
{
    if i < n - 1 {
        law_first_entry_loaded(keys, is_set, (n - 1) as nat, i);
        let before = to_load(keys, is_set, (n - 1) as nat);
        let p = choose|p: int| 0 <= p < before.len() && before[p] == i;
        assert(to_load(keys, is_set, n)[p] == i);
    } else {
        let before = to_load(keys, is_set, (n - 1) as nat);
        assert(to_load(keys, is_set, n)[before.len() as int] == i);
    }
}

/// Whether a manifest is there and declares a workspace.
pub open spec fn declares_workspace(manifest: Option<String>) -> bool {
    manifest is Some && crate::text::occurs(manifest->0@, "[workspace]"@)
}

/// The workspace among nested directories, given their manifests from the inside
/// out: the first that declares one.
pub fn workspace_root(manifests: &Vec<Option<String>>) -> (r: Option<usize>)
    ensures
        match r {
            Some(i) => i < manifests@.len() && declares_workspace(manifests@[i as int]) && forall|
                j: int,
            |
                0 <= j < i ==> !declares_workspace(#[trigger] manifests@[j]),
            None => forall|j: int|
                0 <= j < manifests@.len() ==> !declares_workspace(#[trigger] manifests@[j]),
        },
{
    let mut i: usize = 0;
    while i < manifests.len()
        invariant
            i <= manifests@.len(),
            forall|j: int| 0 <= j < i ==> !declares_workspace(#[trigger] manifests@[j]),
        decreases manifests@.len() - i,
    {
        if let Some(text) = &manifests[i] {
            if crate::text::holds(text.as_str(), "[workspace]") {
                return Some(i);
            }
        }
        i = i + 1;
    }
    None
}

/// A line that is blank, or whose first visible character is `#`, says nothing.
pub proof fn law_skipped_lines(front: Seq<char>, comment: Seq<char>)
    requires
        forall|i: int| 0 <= i < front.len() ==> crate::text::white(#[trigger] front[i]),
    ensures
        line_model(front) is Skip,
        line_model(front + seq!['#'] + comment) is Skip,
{
    crate::text::law_trimmed(front, seq![], seq![]);
    assert(front + Seq::<char>::empty() + Seq::<char>::empty() =~= front);
    let line = front + seq!['#'] + comment;
    crate::text::lemma_trim_front_of(front, seq!['#'] + comment);
    assert(line =~= front + (seq!['#'] + comment));
    let t = seq!['#'] + comment;
    assert(t[0] == '#');
    crate::text::law_white('#');
    lemma_trim_back_keeps_first(t);
}

/// Taking white space off the back keeps a first character that is none.
proof fn lemma_trim_back_keeps_first(s: Seq<char>)
    requires
        s.len() > 0,
        !crate::text::white(s[0]),
    ensures
        crate::text::trim_back(s).len() > 0,
        crate::text::trim_back(s)[0] == s[0],
    decreases s.len(),
{
    if crate::text::white(s.last()) {
        lemma_trim_back_keeps_first(s.drop_last());
    }
}

/// A line of a key, `=` and a value is an entry: white space around the line, the
/// key and the value is no part of them, and one layer of matching quotes around
/// the value neither.
pub proof fn law_entry_line(
    w1: Seq<char>,
    key: Seq<char>,
    w2: Seq<char>,
    w3: Seq<char>,
    value: Seq<char>,
    w4: Seq<char>,
)
    requires
        forall|i: int| 0 <= i < w1.len() ==> crate::text::white(#[trigger] w1[i]),
        forall|i: int| 0 <= i < w2.len() ==> crate::text::white(#[trigger] w2[i]),
        forall|i: int| 0 <= i < w3.len() ==> crate::text::white(#[trigger] w3[i]),
        forall|i: int| 0 <= i < w4.len() ==> crate::text::white(#[trigger] w4[i]),
        key.len() > 0,
        forall|i: int|
            0 <= i < key.len() ==> ('a' <= #[trigger] key[i] <= 'z' || 'A' <= key[i] <= 'Z' || '0'
                <= key[i] <= '9' || key[i] == '_'),
        value.len() > 0 && !crate::text::white(value[0]) && !crate::text::white(value.last()),
    ensures
        line_model(w1 + (key + w2 + seq!['='] + (w3 + value)) + w4) == LineModel::Entry(
            key,
            unquoted(value),
        ),
{
    let left = key + w2;
    let t = left + seq!['='] + (w3 + value);
    assert(t[0] == key[0]);
    assert(t.last() == value.last());
    crate::text::law_white(key[0]);
    crate::text::law_white(key.last());
    crate::text::law_white('=');
    crate::text::law_trimmed(w1, t, w4);
    assert forall|i: int| 0 <= i < left.len() implies #[trigger] left[i] != '=' by {
        if i < key.len() {
            assert(left[i] == key[i]);
        } else {
            assert(left[i] == w2[i - key.len()]);
        }
    }
    crate::text::lemma_index_behind(left, '=', w3 + value);
    assert(t.take(left.len() as int) =~= left);
    assert(key[key.len() - 1] == key.last());
    assert(crate::text::trimmed(left) == key) by {
        crate::text::law_trimmed(seq![], key, w2);
        assert(Seq::<char>::empty() + key + w2 =~= left);
    }
    assert(t.skip((left.len() + 1) as int) =~= w3 + value);
    assert(crate::text::trimmed(w3 + value) == value) by {
        crate::text::law_trimmed(w3, value, seq![]);
        assert(w3 + value + Seq::<char>::empty() =~= w3 + value);
    }
    assert forall|i: int| 0 <= i < key.len() implies key_char(#[trigger] key[i]) by {
        assert('a' <= key[i] <= 'z' || 'A' <= key[i] <= 'Z' || '0' <= key[i] <= '9' || key[i]
            == '_');
    }
    assert(t[0] != '#');
}

/// A key without a value has an empty one.
pub proof fn law_empty_value(key: Seq<char>)
    requires
        key.len() > 0,
        forall|i: int|
            0 <= i < key.len() ==> ('a' <= #[trigger] key[i] <= 'z' || 'A' <= key[i] <= 'Z' || '0'
                <= key[i] <= '9' || key[i] == '_'),
    ensures
        line_model(key + seq!['=']) == LineModel::Entry(key, Seq::<char>::empty()),
{
    let t = key + seq!['='];
    crate::text::law_white(key[0]);
    crate::text::law_white('=');
    crate::text::law_trimmed(seq![], t, seq![]);
    assert(Seq::<char>::empty() + t + Seq::<char>::empty() =~= t);
    assert forall|i: int| 0 <= i < key.len() implies #[trigger] key[i] != '=' by {
    }
    crate::text::lemma_index_behind(key, '=', seq![]);
    assert(key + seq!['='] + Seq::<char>::empty() =~= t);
    assert(t.take(key.len() as int) =~= key);
    assert(key[key.len() - 1] == key.last());
    crate::text::law_white(key.last());
    crate::text::law_trimmed(seq![], key, seq![]);
    assert(Seq::<char>::empty() + key + Seq::<char>::empty() =~= key);
    assert(t.skip((key.len() + 1) as int) =~= seq![]);
    crate::text::law_trimmed(seq![], seq![], seq![]);
    assert(Seq::<char>::empty() + Seq::<char>::empty() + Seq::<char>::empty() =~= seq![]);
    assert forall|i: int| 0 <= i < key.len() implies key_char(#[trigger] key[i]) by {
        assert('a' <= key[i] <= 'z' || 'A' <= key[i] <= 'Z' || '0' <= key[i] <= '9' || key[i]
            == '_');
    }
}

/// One layer of quotes is taken off, of either kind, and only where both ends have
/// the same.
pub proof fn law_quotes(v: Seq<char>)
    ensures
        unquoted(seq!['"'] + v + seq!['"']) == v,
        unquoted(seq!['\''] + v + seq!['\'']) == v,
        unquoted(seq!['"'] + v + seq!['\'']) == seq!['"'] + v + seq!['\''],
        unquoted(seq!['"']) == seq!['"'],
        unquoted(seq!['\'']) == seq!['\''],
        v.len() > 0 && v[0] != '"' && v[0] != '\'' ==> unquoted(v) == v,
        v.len() > 0 && v.last() != '"' && v.last() != '\'' ==> unquoted(v) == v,
{
    let a = seq!['"'] + v + seq!['"'];
    let b = seq!['\''] + v + seq!['\''];
    assert(a.subrange(1, a.len() - 1) =~= v);
    assert(b.subrange(1, b.len() - 1) =~= v);
}

/// A line that is neither blank nor a comment and has no `=`, no key before it, or
/// a key with another character than letters, digits and underscores, is malformed.
pub proof fn law_malformed_lines(s: Seq<char>, key: Seq<char>, value: Seq<char>, bad: int)
    requires
        s.len() > 0 && s[0] != '#' && !crate::text::white(s[0]) && !crate::text::white(s.last()),
        forall|i: int| 0 <= i < s.len() ==> #[trigger] s[i] != '=',
        !crate::text::white(key[0]) && !crate::text::white(key.last()) && key[0] != '#',
        forall|i: int| 0 <= i < key.len() ==> #[trigger] key[i] != '=',
        0 <= bad < key.len(),
        !('a' <= key[bad] <= 'z' || 'A' <= key[bad] <= 'Z' || '0' <= key[bad] <= '9' || key[bad]
            == '_'),
        value.len() > 0 && !crate::text::white(value.last()),
    ensures
        line_model(s) is Malformed,
        line_model(seq!['='] + value) is Malformed,
        line_model(key + seq!['='] + value) is Malformed,
{
    crate::text::law_trimmed(seq![], s, seq![]);
    assert(Seq::<char>::empty() + s + Seq::<char>::empty() =~= s);
    crate::text::lemma_index_behind(s, '=', seq![]);
    crate::text::law_white('=');
    let t = seq!['='] + value;
    crate::text::law_trimmed(seq![], t, seq![]);
    assert(Seq::<char>::empty() + t + Seq::<char>::empty() =~= t);
    assert(t.last() == value.last());
    crate::text::lemma_index_behind(seq![], '=', value);
    assert(Seq::<char>::empty() + seq!['='] + value =~= t);
    assert(t.take(0) =~= seq![]);
    crate::text::law_trimmed(seq![], seq![], seq![]);
    assert(Seq::<char>::empty() + Seq::<char>::empty() + Seq::<char>::empty() =~= seq![]);
    let u = key + seq!['='] + value;
    crate::text::law_trimmed(seq![], u, seq![]);
    assert(Seq::<char>::empty() + u + Seq::<char>::empty() =~= u);
    assert(u[0] == key[0] && u.last() == value.last());
    crate::text::lemma_index_behind(key, '=', value);
    assert(u.take(key.len() as int) =~= key);
    crate::text::law_trimmed(seq![], key, seq![]);
    assert(Seq::<char>::empty() + key + Seq::<char>::empty() =~= key);
    assert(!key_char(key[bad]));
}

/// A text is read line by line: the entries of the first line come first, and the
/// malformed lines of all of it are counted.
pub proof fn law_lines_of_a_file(line: Seq<char>, rest: Seq<char>)
    requires
        forall|i: int| 0 <= i < line.len() ==> #[trigger] line[i] != '\n',
    ensures
        ({
            let all = file_model(line + seq!['\n'] + rest);
            let later = file_model(rest);
            &&& line_model(line) is Skip ==> all == later
            &&& line_model(line) is Malformed ==> all.0 == later.0 && all.1 == later.1 + 1
            &&& line_model(line) is Entry ==> all.1 == later.1 && all.0.len() == later.0.len() + 1
                && all.0[0] == (line_model(line)->Entry_0, line_model(line)->Entry_1)
                && all.0.skip(1) == later.0
        }),
        ({
            let all = file_model(line);
            &&& line_model(line) is Skip ==> all.0.len() == 0 && all.1 == 0
            &&& line_model(line) is Malformed ==> all.0.len() == 0 && all.1 == 1
            &&& line_model(line) is Entry ==> all.1 == 0 && all.0 == seq![
                (line_model(line)->Entry_0, line_model(line)->Entry_1),
            ]
        }),
{
    let text = line + seq!['\n'] + rest;
    crate::text::lemma_index_behind(line, '\n', rest);
    assert(text.take(line.len() as int) =~= line);
    assert(text.skip((line.len() + 1) as int) =~= rest);
    assert(line.take(line.len() as int) =~= line);
    let all = file_model(text);
    if line_model(line) is Entry {
        assert(all.0.skip(1) =~= file_model(rest).0);
        assert(file_model(line).0 =~= seq![(line_model(line)->Entry_0, line_model(line)->Entry_1)]);
    }
}

/// What is loaded is loaded in the order of the file.
pub proof fn law_loaded_in_order(keys: Seq<Seq<char>>, is_set: Seq<bool>, n: nat)
    requires
        n <= keys.len(),
        n <= is_set.len(),
    ensures
        forall|p: int, q: int|
            0 <= p < q < to_load(keys, is_set, n).len() ==> #[trigger] to_load(keys, is_set, n)[p]
                < #[trigger] to_load(keys, is_set, n)[q],
    decreases n,
{
    if n > 0 {
        let m = (n - 1) as nat;
        law_loaded_in_order(keys, is_set, m);
        law_env_wins(keys, is_set, m);
        let before = to_load(keys, is_set, m);
        let all = to_load(keys, is_set, n);
        assert forall|p: int, q: int| 0 <= p < q < all.len() implies #[trigger] all[p]
            < #[trigger] all[q] by {
            assert(all[p] == before[p]);
            assert(before[p] < m);
            if q < before.len() {
                assert(before[p] < before[q]);
            }
        }
    }
}

/// A manifest declares a workspace exactly when it is there and holds `[workspace]`.
pub proof fn law_declares_workspace(m: Option<String>)
    ensures
        declares_workspace(m) <==> (m is Some && crate::text::occurs(m->0@, "[workspace]"@)),
{
}

/// Entries are taken for what they hold: a key and its value.
pub proof fn law_entry_parts(es: Seq<(String, String)>, i: int)
    requires
        0 <= i < es.len(),
    ensures
        entry_models(es).len() == es.len(),
        entry_models(es)[i].0 == es[i].0@,
        entry_models(es)[i].1 == es[i].1@,
        entry_keys(es).len() == es.len(),
        entry_keys(es)[i] == es[i].0@,
{
}

} // verus!
