//! Chat messages, and the JSON that a chat server takes for them.
//!
//! A message of text only has its text as content; one with an image has a list
//! of parts, each with a type.

use vstd::prelude::*;

verus! {

/// One piece of a message.
#[derive(Clone, Debug)]
pub enum ContentPart {
    /// Text.
    Text(String),
    /// An image in base64.
    Image {
        /// Its type, such as `image/png`.
        mime: String,
        /// Its bytes.
        base64: String,
    },
}

/// A caption and one image.
#[derive(Clone, Debug)]
pub struct TextImageContent {
    /// The caption.
    pub text: String,
    /// Type of the image.
    pub mime: String,
    /// The image in base64.
    pub base64: String,
}

/// A chat message.
#[derive(Clone, Debug)]
pub struct ChatTurn {
    /// `system`, `user` or `assistant`.
    pub role: String,
    /// The pieces, in order.
    pub parts: Vec<ContentPart>,
}

/// The characters that stand for `c` inside a JSON string.
pub open spec fn json_char(c: char) -> Seq<char> {
    if c == '"' {
        seq!['\\', '"']
    } else if c == '\\' {
        seq!['\\', '\\']
    } else if c == '\u{8}' {
        seq!['\\', 'b']
    } else if c == '\t' {
        seq!['\\', 't']
    } else if c == '\n' {
        seq!['\\', 'n']
    } else if c == '\u{c}' {
        seq!['\\', 'f']
    } else if c == '\r' {
        seq!['\\', 'r']
    } else if (c as u32) < 0x20 {
        seq!['\\', 'u', '0', '0', low_hex(c as int / 16), low_hex(c as int % 16)]
    } else {
        seq![c]
    }
}

/// The lower-case hexadecimal digit of value `d`.
pub open spec fn low_hex(d: int) -> char {
    seq!['0', '1', '2', '3', '4', '5', '6', '7', '8', '9', 'a', 'b', 'c', 'd', 'e', 'f'][d]
}

/// The inside of the JSON string for `s`.
pub open spec fn json_chars(s: Seq<char>) -> Seq<char>
    decreases s.len(),
{
    if s.len() == 0 {
        seq![]
    } else {
        json_chars(s.drop_last()) + json_char(s.last())
    }
}

/// The JSON string for `s`.
pub open spec fn json_string(s: Seq<char>) -> Seq<char> {
    seq!['"'] + json_chars(s) + seq!['"']
}

/// `serde_json::to_string` on a string: the string in quotes, with quotes,
/// backslashes and control characters escaped.
#[verifier::external_body]
pub(crate) fn json_text(s: &str) -> (r: String)
    ensures
        r@ == json_string(s@),
{
    serde_json::to_string(s).unwrap()
}

/// Whether a part is an image.
pub open spec fn is_image(p: ContentPart) -> bool {
    p is Image
}

/// Whether some part is an image.
pub open spec fn any_image(ps: Seq<ContentPart>) -> bool {
    exists|i: int| 0 <= i < ps.len() && is_image(#[trigger] ps[i])
}

/// The texts of the first `n` parts, on lines of their own.
pub open spec fn text_lines(ps: Seq<ContentPart>, n: nat) -> Seq<char>
    decreases n,
{
    if n == 0 {
        seq![]
    } else {
        let acc = text_lines(ps, (n - 1) as nat);
        match ps[n - 1] {
            ContentPart::Text(x) => (if acc.len() > 0 {
                acc.push('\n')
            } else {
                acc
            }) + x@,
            ContentPart::Image { .. } => acc,
        }
    }
}

/// The JSON of one part of a list.
pub open spec fn part_json(p: ContentPart) -> Seq<char> {
    match p {
        ContentPart::Text(x) => "{\"text\":"@ + json_string(x@) + ",\"type\":\"text\"}"@,
        ContentPart::Image { mime, base64 } => "{\"image_url\":{\"url\":"@ + json_string(
            "data:"@ + mime@ + ";base64,"@ + base64@,
        ) + "},\"type\":\"image_url\"}"@,
    }
}

/// The JSON of the parts.
pub open spec fn parts_json(ps: Seq<ContentPart>) -> Seq<Seq<char>> {
    Seq::new(ps.len(), |i: int| part_json(ps[i]))
}

/// The JSON of a message's content.
pub open spec fn content_json(ps: Seq<ContentPart>) -> Seq<char> {
    if any_image(ps) {
        "["@ + crate::text::joined_with(parts_json(ps), ","@) + "]"@
    } else {
        json_string(text_lines(ps, ps.len()))
    }
}

/// The JSON of a message.
pub open spec fn turn_json(t: ChatTurn) -> Seq<char> {
    "{\"role\":"@ + json_string(t.role@) + ",\"content\":"@ + content_json(t.parts@) + "}"@
}

impl ChatTurn {
    /// A message of text.
    pub fn text(role: &str, text: &str) -> (r: Self)
        ensures
            r.role@ == role@,
            r.parts@.len() == 1,
            r.parts@[0] matches ContentPart::Text(t) && t@ == text@,
    {
        ChatTurn { role: role.to_owned(), parts: vec![ContentPart::Text(text.to_owned())] }
    }

    /// A message of a caption and an image.
    pub fn with_image(role: &str, img: TextImageContent) -> (r: Self)
        ensures
            r.role@ == role@,
            r.parts@.len() == 2,
            r.parts@[0] == ContentPart::Text(img.text),
            r.parts@[1] == (ContentPart::Image { mime: img.mime, base64: img.base64 }),
    {
        ChatTurn {
            role: role.to_owned(),
            parts: vec![
                ContentPart::Text(img.text),
                ContentPart::Image { mime: img.mime, base64: img.base64 },
            ],
        }
    }

    /// Whether there is an image.
    pub fn has_image(&self) -> (r: bool)
        ensures
            r == any_image(self.parts@),
    {
        let mut i: usize = 0;
        while i < self.parts.len()
            invariant
                i <= self.parts@.len(),
                forall|k: int| 0 <= k < i ==> !is_image(#[trigger] self.parts@[k]),
            decreases self.parts@.len() - i,
        {
            if let ContentPart::Image { .. } = &self.parts[i] {
                assert(is_image(self.parts@[i as int]));
                return true;
            }
            i = i + 1;
        }
        false
    }

    /// The text of a message that is one text and nothing else.
    pub fn content_text(&self) -> (r: Option<String>)
        ensures
            match r {
                Some(t) => self.parts@.len() == 1 && (self.parts@[0] matches ContentPart::Text(x)
                    && x@ == t@),
                None => !(self.parts@.len() == 1 && self.parts@[0] is Text),
            },
    {
        if self.parts.len() == 1 {
            if let ContentPart::Text(t) = &self.parts[0] {
                return Some(t.clone());
            }
        }
        None
    }

    /// The JSON of the content.
    pub fn content(&self) -> (r: String)
        ensures
            r@ == content_json(self.parts@),
    {
        if !self.has_image() {
            let mut acc = String::new();
            let mut i: usize = 0;
            while i < self.parts.len()
                invariant
                    i <= self.parts@.len(),
                    acc@ == text_lines(self.parts@, i as nat),
                decreases self.parts@.len() - i,
            {
                if let ContentPart::Text(x) = &self.parts[i] {
                    if acc.as_str().unicode_len() > 0 {
                        acc.push('\n');
                    }
                    acc.append(x.as_str());
                }
                i = i + 1;
            }
            return json_text(acc.as_str());
        }
        let mut items: Vec<String> = Vec::new();
        let mut i: usize = 0;
        while i < self.parts.len()
            invariant
                i <= self.parts@.len(),
                crate::text::texts(items@) == parts_json(self.parts@).take(i as int),
            decreases self.parts@.len() - i,
        {
            let item = part_text(&self.parts[i]);
            let ghost was = crate::text::texts(items@);
            items.push(item);
            assert(crate::text::texts(items@) =~= was.push(item@));
            assert(parts_json(self.parts@).take(i + 1) =~= was.push(
                parts_json(self.parts@)[i as int],
            ));
            i = i + 1;
        }
        assert(parts_json(self.parts@).take(i as int) =~= parts_json(self.parts@));
        let mut s = "[".to_owned();
        crate::text::push_joined(&mut s, &items, ",");
        s.append("]");
        s
    }

    /// The JSON of the message.
    pub fn json(&self) -> (r: String)
        ensures
            r@ == turn_json(*self),
    {
        let role = json_text(self.role.as_str());
        let mut s = crate::text::joined("{\"role\":", role.as_str());
        s.append(",\"content\":");
        let content = self.content();
        s.append(content.as_str());
        s.append("}");
        s
    }
}

fn part_text(p: &ContentPart) -> (r: String)
    ensures
        r@ == part_json(*p),
{
    match p {
        ContentPart::Text(x) => {
            let q = json_text(x.as_str());
            let mut s = crate::text::joined("{\"text\":", q.as_str());
            s.append(",\"type\":\"text\"}");
            s
        },
        ContentPart::Image { mime, base64 } => {
            let mut url = crate::text::joined("data:", mime.as_str());
            url.append(";base64,");
            url.append(base64.as_str());
            let q = json_text(url.as_str());
            let mut s = crate::text::joined("{\"image_url\":{\"url\":", q.as_str());
            s.append("},\"type\":\"image_url\"}");
            s
        },
    }
}

/// The JSON of the messages.
pub open spec fn turns_json(ts: Seq<ChatTurn>) -> Seq<Seq<char>> {
    Seq::new(ts.len(), |i: int| turn_json(ts[i]))
}

/// The JSON of a request: the model and the messages.
pub open spec fn request_json(model: Seq<char>, ts: Seq<ChatTurn>) -> Seq<char> {
    "{\"model\":"@ + json_string(model) + ",\"messages\":["@ + crate::text::joined_with(
        turns_json(ts),
        ","@,
    ) + "]}"@
}

/// The body of a chat request.
pub fn chat_request(model: &str, turns: &[ChatTurn]) -> (r: String)
    ensures
        r@ == request_json(model@, turns@),
{
    let mut items: Vec<String> = Vec::new();
    let mut i: usize = 0;
    while i < turns.len()
        invariant
            i <= turns@.len(),
            crate::text::texts(items@) == turns_json(turns@).take(i as int),
        decreases turns@.len() - i,
    {
        let item = turns[i].json();
        let ghost was = crate::text::texts(items@);
        items.push(item);
        assert(crate::text::texts(items@) =~= was.push(item@));
        assert(turns_json(turns@).take(i + 1) =~= was.push(turns_json(turns@)[i as int]));
        i = i + 1;
    }
    assert(turns_json(turns@).take(i as int) =~= turns_json(turns@));
    let q = json_text(model);
    let mut s = crate::text::joined("{\"model\":", q.as_str());
    s.append(",\"messages\":[");
    crate::text::push_joined(&mut s, &items, ",");
    s.append("]}");
    s
}

/// A text message has its text, and nothing else, as content.
pub proof fn law_text_turn_is_a_string(t: ChatTurn, text: Seq<char>)
    requires
        t.parts@.len() == 1,
        t.parts@[0] matches ContentPart::Text(x) && x@ == text,
    ensures
        content_json(t.parts@) == json_string(text),
{
    assert(!any_image(t.parts@)) by {
        assert(!is_image(t.parts@[0]));
    }
    reveal_with_fuel(text_lines, 2);
    assert(text_lines(t.parts@, 1) =~= text);
}

/// The base64 character of value `d`.
pub open spec fn base64_char(d: int) -> char {
    "ABCDEFGHIJKLMNOPQRSTUVWXYZabcdefghijklmnopqrstuvwxyz0123456789+/"@[d]
}

/// Bytes in base64 with padding: four characters for every three bytes, six bits
/// a character; a last group of one or two bytes is filled up with `=`.
pub open spec fn base64_text(b: Seq<u8>) -> Seq<char>
    decreases b.len(),
{
    if b.len() == 0 {
        seq![]
    } else if b.len() == 1 {
        seq![base64_char(b[0] as int / 4), base64_char(b[0] as int % 4 * 16), '=', '=']
    } else if b.len() == 2 {
        seq![
            base64_char(b[0] as int / 4),
            base64_char(b[0] as int % 4 * 16 + b[1] as int / 16),
            base64_char(b[1] as int % 16 * 4),
            '=',
        ]
    } else {
        seq![
            base64_char(b[0] as int / 4),
            base64_char(b[0] as int % 4 * 16 + b[1] as int / 16),
            base64_char(b[1] as int % 16 * 4 + b[2] as int / 64),
            base64_char(b[2] as int % 64),
        ] + base64_text(b.skip(3))
    }
}

/// `Engine::encode` of the `base64` crate with its standard engine: the standard
/// alphabet, with padding. The crate panics when the text does not fit in
/// memory.
#[verifier::external_body]
fn base64_encode(b: &[u8]) -> (r: String)
    requires
        4 * (b@.len() / 3 + 1) <= isize::MAX,
    ensures
        r@ == base64_text(b@),
{
    base64::Engine::encode(&base64::engine::general_purpose::STANDARD, b)
}

/// The type of an image file, by its name.
pub open spec fn image_mime(path: Seq<char>) -> Seq<char> {
    if path.len() >= 4 && path.skip(path.len() - 4) == ".png"@ {
        "image/png"@
    } else {
        "image/jpeg"@
    }
}

/// A caption with the image of a file.
pub fn image_content(text: String, path: &str, bytes: &[u8]) -> (r: TextImageContent)
    requires
        4 * (bytes@.len() / 3 + 1) <= isize::MAX,
    ensures
        r.text == text,
        r.mime@ == image_mime(path@),
        r.base64@ == base64_text(bytes@),
{
    let cs: Vec<char> = crate::text::chars_of(path);
    let n: usize = cs.len();
    proof {
        reveal_strlit(".png");
    }
    let png = n >= 4 && cs[n - 4] == '.' && cs[n - 3] == 'p' && cs[n - 2] == 'n' && cs[n - 1]
        == 'g';
    assert(png == (path@.len() >= 4 && path@.skip(path@.len() - 4) == ".png"@)) by {
        if n >= 4 {
            let tail = path@.skip(path@.len() - 4);
            assert(tail.len() == 4 && ".png"@.len() == 4);
            if png {
                assert(tail =~= ".png"@);
            } else if tail == ".png"@ {
                assert(tail[0] == cs@[n - 4] && tail[1] == cs@[n - 3] && tail[2] == cs@[n - 2]
                    && tail[3] == cs@[n - 1]);
            }
        }
    }
    let mime = if png {
        "image/png".to_owned()
    } else {
        "image/jpeg".to_owned()
    };
    TextImageContent { text, mime, base64: base64_encode(bytes) }
}

/// The text of a part.
pub open spec fn part_text_of(p: ContentPart) -> Seq<char> {
    match p {
        ContentPart::Text(x) => x@,
        ContentPart::Image { .. } => seq![],
    }
}

/// Texts that are not empty stand on lines of their own, in order.
pub proof fn law_texts_on_lines(ps: Seq<ContentPart>, n: nat)
    requires
        0 < n <= ps.len(),
        forall|i: int|
            0 <= i < n ==> (#[trigger] ps[i]) is Text && part_text_of(ps[i]).len() > 0,
    ensures
        text_lines(ps, n) == crate::text::joined_with(
            Seq::new(n, |i: int| part_text_of(ps[i])),
            seq!['\n'],
        ),
        text_lines(ps, n).len() > 0,
    decreases n,
{
    let ts = Seq::new(n, |i: int| part_text_of(ps[i]));
    assert(ps[n - 1] is Text);
    if n == 1 {
        reveal_with_fuel(text_lines, 2);
        assert(text_lines(ps, 1) =~= part_text_of(ps[0]));
    } else {
        law_texts_on_lines(ps, (n - 1) as nat);
        assert(ts.drop_last() =~= Seq::new((n - 1) as nat, |i: int| part_text_of(ps[i])));
        let acc = text_lines(ps, (n - 1) as nat);
        assert(acc.push('\n') =~= acc + seq!['\n']);
    }
}

/// A message without an image is one string; with one it is a list that holds every
/// part, each under its type.
pub proof fn law_content(ps: Seq<ContentPart>, i: int)
    requires
        0 <= i < ps.len(),
    ensures
        (forall|k: int| 0 <= k < ps.len() ==> (#[trigger] ps[k]) is Text) ==> content_json(ps)
            == json_string(text_lines(ps, ps.len())),
        (exists|k: int| 0 <= k < ps.len() && (#[trigger] ps[k]) is Image) ==> content_json(ps)[0]
            == '[' && content_json(ps).last() == ']' && crate::text::occurs(
            content_json(ps),
            part_json(ps[i]),
        ),
{
    if forall|k: int| 0 <= k < ps.len() ==> (#[trigger] ps[k]) is Text {
        assert forall|k: int| 0 <= k < ps.len() implies !is_image(#[trigger] ps[k]) by {
            assert(ps[k] is Text);
        }
    }
    if exists|k: int| 0 <= k < ps.len() && (#[trigger] ps[k]) is Image {
        let k = choose|k: int| 0 <= k < ps.len() && (#[trigger] ps[k]) is Image;
        assert(is_image(ps[k]));
        let js = parts_json(ps);
        let inner = crate::text::joined_with(js, ","@);
        crate::text::law_joined_holds_each(js, ","@, i);
        crate::text::law_occurs(seq![], js[i], seq![], inner);
        let (x, y) = choose|x: Seq<char>, y: Seq<char>| inner == #[trigger] (x + js[i] + y);
        reveal_strlit("[");
        reveal_strlit("]");
        assert(content_json(ps) =~= ("["@ + x) + js[i] + (y + "]"@));
        crate::text::law_occurs("["@ + x, js[i], y + "]"@, seq![]);
    }
}

/// The JSON of one part: its text, or the data URL of its image.
pub proof fn law_part_json(text: String, mime: String, base64: String)
    ensures
        part_json(ContentPart::Text(text)) == "{\"text\":"@ + json_string(text@)
            + ",\"type\":\"text\"}"@,
        part_json((ContentPart::Image { mime, base64 })) == "{\"image_url\":{\"url\":"@
            + json_string("data:"@ + mime@ + ";base64,"@ + base64@)
            + "},\"type\":\"image_url\"}"@,
{
}

/// A request names the model first and then holds every message, each with its role
/// and its content, in order.
pub proof fn law_request(model: Seq<char>, ts: Seq<ChatTurn>, i: int)
    requires
        0 <= i < ts.len(),
    ensures
        ("{\"model\":"@ + json_string(model) + ",\"messages\":["@).is_prefix_of(
            request_json(model, ts),
        ),
        crate::text::occurs(
            request_json(model, ts),
            "{\"role\":"@ + json_string(ts[i].role@) + ",\"content\":"@ + content_json(
                ts[i].parts@,
            ) + "}"@,
        ),
        turns_json(ts).len() == ts.len(),
        request_json(model, ts) == "{\"model\":"@ + json_string(model) + ",\"messages\":["@
            + crate::text::joined_with(turns_json(ts), ","@) + "]}"@,
{
    let head = "{\"model\":"@ + json_string(model) + ",\"messages\":["@;
    let js = turns_json(ts);
    let inner = crate::text::joined_with(js, ","@);
    let all = request_json(model, ts);
    assert(all.subrange(0, head.len() as int) =~= head);
    crate::text::law_joined_holds_each(js, ","@, i);
    crate::text::law_occurs(seq![], js[i], seq![], inner);
    let (x, y) = choose|x: Seq<char>, y: Seq<char>| inner == #[trigger] (x + js[i] + y);
    assert(all =~= (head + x) + js[i] + (y + "]}"@));
    crate::text::law_occurs(head + x, js[i], y + "]}"@, seq![]);
}

/// An image file is PNG by its name's end, and else taken for JPEG.
pub proof fn law_image_mime(name: Seq<char>, other: Seq<char>)
    ensures
        image_mime(name + ".png"@) == "image/png"@,
        other.len() < 4 || other.last() != 'g' || other[other.len() - 2] != 'n' || other[other.len()
            - 3] != 'p' || other[other.len() - 4] != '.' ==> image_mime(other) == "image/jpeg"@,
{
    reveal_strlit(".png");
    let s = name + ".png"@;
    assert(s.skip(s.len() - 4) =~= ".png"@);
    if other.len() >= 4 && other.skip(other.len() - 4) == ".png"@ {
        let t = other.skip(other.len() - 4);
        assert(t[0] == other[other.len() - 4] && t[1] == other[other.len() - 3] && t[2]
            == other[other.len() - 2] && t[3] == other.last());
    }
}

} // verus!
