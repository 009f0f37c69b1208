//! The command line of the model client: arguments, tables and verdicts.

use crate::ai::config::{ModelConfig, ProviderConfig};
use crate::ai::content::{ChatTurn, TextImageContent};
use vstd::prelude::*;

verus! {

/// The parsed command line.
#[derive(Clone, Debug)]
pub struct Args {
    /// The command; empty if there is none.
    pub cmd: String,
    /// Configuration file.
    pub config: Option<String>,
    /// Model to use in place of the configured one.
    pub model: Option<String>,
    /// Everything that is no option.
    pub positionals: Vec<String>,
    /// System prompt.
    pub system: Option<String>,
    /// Image file.
    pub image: Option<String>,
    /// Address of a running engine.
    pub harness: String,
}

/// What [`Args`] mean.
#[verifier::ext_equal]
pub struct ArgsModel {
    /// The command.
    pub cmd: Seq<char>,
    /// Configuration file.
    pub config: Option<Seq<char>>,
    /// Model to use.
    pub model: Option<Seq<char>>,
    /// Everything that is no option.
    pub positionals: Seq<Seq<char>>,
    /// System prompt.
    pub system: Option<Seq<char>>,
    /// Image file.
    pub image: Option<Seq<char>>,
    /// Address of a running engine.
    pub harness: Seq<char>,
}

/// The view of an optional string.
pub open spec fn opt(s: Option<String>) -> Option<Seq<char>> {
    match s {
        Some(t) => Some(t@),
        None => None,
    }
}

impl View for Args {
    type V = ArgsModel;

    open spec fn view(&self) -> ArgsModel {
        ArgsModel {
            cmd: self.cmd@,
            config: opt(self.config),
            model: opt(self.model),
            positionals: crate::text::texts(self.positionals@),
            system: opt(self.system),
            image: opt(self.image),
            harness: self.harness@,
        }
    }
}

/// The options that take a value.
#[derive(Clone, Copy, PartialEq, Eq, Structural, Debug)]
pub enum Opt {
    /// Configuration file.
    Config,
    /// Model.
    Model,
    /// System prompt.
    System,
    /// Image file.
    Image,
    /// Address of a running engine.
    Harness,
}

/// The word of an option.
pub open spec fn opt_word(o: Opt) -> Seq<char> {
    match o {
        Opt::Config => "--config"@,
        Opt::Model => "--model"@,
        Opt::System => "--system"@,
        Opt::Image => "--image"@,
        Opt::Harness => "--harness"@,
    }
}

/// Arguments with an option set.
pub open spec fn with_opt(a: ArgsModel, o: Opt, v: Seq<char>) -> ArgsModel {
    match o {
        Opt::Config => ArgsModel { config: Some(v), ..a },
        Opt::Model => ArgsModel { model: Some(v), ..a },
        Opt::System => ArgsModel { system: Some(v), ..a },
        Opt::Image => ArgsModel { image: Some(v), ..a },
        Opt::Harness => ArgsModel { harness: v, ..a },
    }
}

/// What one word of the command line is.
#[verifier::ext_equal]
pub enum WordModel {
    /// An option whose value is the next word.
    Takes(Opt),
    /// An option with its value behind `=`.
    Given(Opt, Seq<char>),
    /// A request for help.
    Help,
    /// Anything else.
    Plain,
}

/// Whether `t` is the word of `o` with a value behind `=`.
pub open spec fn gives(t: Seq<char>, o: Opt) -> bool {
    let p = opt_word(o).push('=');
    p.len() <= t.len() && t.take(p.len() as int) == p
}

/// The value behind `=`.
pub open spec fn given_value(t: Seq<char>, o: Opt) -> Seq<char> {
    t.skip(opt_word(o).len() as int + 1)
}

/// What one word of the command line is.
pub open spec fn word_model(t: Seq<char>) -> WordModel {
    if t == opt_word(Opt::Config) {
        WordModel::Takes(Opt::Config)
    } else if t == opt_word(Opt::Model) {
        WordModel::Takes(Opt::Model)
    } else if t == opt_word(Opt::System) {
        WordModel::Takes(Opt::System)
    } else if t == opt_word(Opt::Image) {
        WordModel::Takes(Opt::Image)
    } else if t == opt_word(Opt::Harness) {
        WordModel::Takes(Opt::Harness)
    } else if gives(t, Opt::Config) {
        WordModel::Given(Opt::Config, given_value(t, Opt::Config))
    } else if gives(t, Opt::Model) {
        WordModel::Given(Opt::Model, given_value(t, Opt::Model))
    } else if gives(t, Opt::Image) {
        WordModel::Given(Opt::Image, given_value(t, Opt::Image))
    } else if gives(t, Opt::Harness) {
        WordModel::Given(Opt::Harness, given_value(t, Opt::Harness))
    } else if gives(t, Opt::System) {
        WordModel::Given(Opt::System, given_value(t, Opt::System))
    } else if t == "--help"@ || t == "-h"@ {
        WordModel::Help
    } else {
        WordModel::Plain
    }
}

/// The arguments after the words from position `i` on, or the option that lacks
/// its value.
pub open spec fn read_words(a: ArgsModel, words: Seq<Seq<char>>, i: int) -> Result<ArgsModel, Opt>
    decreases words.len() - i,
{
    if i < 0 || i >= words.len() {
        Ok(a)
    } else {
        match word_model(words[i]) {
            WordModel::Takes(o) => if i + 1 < words.len() {
                read_words(with_opt(a, o, words[i + 1]), words, i + 2)
            } else {
                Err(o)
            },
            WordModel::Given(o, v) => read_words(with_opt(a, o, v), words, i + 1),
            WordModel::Help => read_words(ArgsModel { cmd: "help"@, ..a }, words, i + 1),
            WordModel::Plain => read_words(
                ArgsModel { positionals: a.positionals.push(words[i]), ..a },
                words,
                i + 1,
            ),
        }
    }
}

/// The position of the command: the first word that does not start with a dash.
pub open spec fn command_position(words: Seq<Seq<char>>, i: int) -> int
    decreases words.len() - i,
{
    if 0 <= i < words.len() && words[i].len() > 0 && words[i][0] == '-' {
        command_position(words, i + 1)
    } else {
        i
    }
}

/// Arguments before anything is read.
pub open spec fn blank_args() -> ArgsModel {
    ArgsModel {
        cmd: seq![],
        config: None,
        model: None,
        positionals: seq![],
        system: None,
        image: None,
        harness: "http://127.0.0.1:8080"@,
    }
}

/// The arguments of a command line, or the option that lacks its value. Words
/// before the command are ignored.
pub open spec fn args_model(words: Seq<Seq<char>>) -> Result<ArgsModel, Opt> {
    let k = command_position(words, 0);
    if k < words.len() {
        read_words(ArgsModel { cmd: words[k], ..blank_args() }, words, k + 1)
    } else {
        Ok(blank_args())
    }
}

fn opt_text(o: Opt) -> (r: &'static str)
    ensures
        r@ == opt_word(o),
{
    match o {
        Opt::Config => "--config",
        Opt::Model => "--model",
        Opt::System => "--system",
        Opt::Image => "--image",
        Opt::Harness => "--harness",
    }
}

/// The value behind `=` in a word that gives `o`.
fn given(t: &Vec<char>, o: Opt) -> (r: Option<String>)
    ensures
        match r {
            Some(v) => gives(t@, o) && v@ == given_value(t@, o),
            None => !gives(t@, o),
        },
{
    let p: Vec<char> = crate::text::chars_of(opt_text(o));
    let n: usize = p.len();
    let ghost want = opt_word(o).push('=');
    if t.len() <= n {
        return None;
    }
    let mut i: usize = 0;
    while i < n
        invariant
            i <= n < t@.len(),
            n == p@.len(),
            p@ == opt_word(o),
            want == opt_word(o).push('='),
            forall|k: int| 0 <= k < i ==> t@[k] == p@[k],
        decreases n - i,
    {
        if t[i] != p[i] {
            assert(t@.take(want.len() as int)[i as int] != want[i as int]);
            return None;
        }
        i = i + 1;
    }
    if t[n] != '=' {
        assert(t@.take(want.len() as int)[n as int] != want[n as int]);
        return None;
    }
    assert(t@.take(want.len() as int) =~= want);
    let v: &[char] = vstd::slice::slice_subrange(t.as_slice(), n + 1, t.len());
    assert(v@ =~= given_value(t@, o));
    Some(crate::text::string_of(v))
}

/// What one word of the command line is.
enum Word {
    Takes(Opt),
    Given(Opt, String),
    Help,
    Plain,
}

impl Word {
    spec fn model(&self) -> WordModel {
        match *self {
            Word::Takes(o) => WordModel::Takes(o),
            Word::Given(o, v) => WordModel::Given(o, v@),
            Word::Help => WordModel::Help,
            Word::Plain => WordModel::Plain,
        }
    }
}

fn classify(t: &str) -> (r: Word)
    ensures
        r.model() == word_model(t@),
{
    if crate::text::same(t, "--config") {
        return Word::Takes(Opt::Config);
    }
    if crate::text::same(t, "--model") {
        return Word::Takes(Opt::Model);
    }
    if crate::text::same(t, "--system") {
        return Word::Takes(Opt::System);
    }
    if crate::text::same(t, "--image") {
        return Word::Takes(Opt::Image);
    }
    if crate::text::same(t, "--harness") {
        return Word::Takes(Opt::Harness);
    }
    let cs: Vec<char> = crate::text::chars_of(t);
    if let Some(v) = given(&cs, Opt::Config) {
        return Word::Given(Opt::Config, v);
    }
    if let Some(v) = given(&cs, Opt::Model) {
        return Word::Given(Opt::Model, v);
    }
    if let Some(v) = given(&cs, Opt::Image) {
        return Word::Given(Opt::Image, v);
    }
    if let Some(v) = given(&cs, Opt::Harness) {
        return Word::Given(Opt::Harness, v);
    }
    if let Some(v) = given(&cs, Opt::System) {
        return Word::Given(Opt::System, v);
    }
    if crate::text::same(t, "--help") || crate::text::same(t, "-h") {
        return Word::Help;
    }
    Word::Plain
}

impl Args {
    fn set(&mut self, o: Opt, v: String)
        ensures
            final(self)@ == with_opt(old(self)@, o, v@),
    {
        match o {
            Opt::Config => {
                self.config = Some(v);
            },
            Opt::Model => {
                self.model = Some(v);
            },
            Opt::System => {
                self.system = Some(v);
            },
            Opt::Image => {
                self.image = Some(v);
            },
            Opt::Harness => {
                self.harness = v;
            },
        }
    }
}

/// Parses a command line. An option at the end that lacks its value is an error.
pub fn parse(raw: &Vec<String>) -> (r: Result<Args, String>)
    ensures
        match (r, args_model(crate::text::texts(raw@))) {
            (Ok(a), Ok(m)) => a@ == m,
            (Err(t), Err(o)) => t@ == opt_word(o) + " needs a value"@,
            _ => false,
        },
{
    let ghost words = crate::text::texts(raw@);
    let mut args = Args {
        cmd: String::new(),
        config: None,
        model: None,
        positionals: Vec::new(),
        system: None,
        image: None,
        harness: "http://127.0.0.1:8080".to_owned(),
    };
    assert(args@ =~= blank_args());
    let mut i: usize = 0;
    while i < raw.len() && starts_with_dash(raw[i].as_str())
        invariant
            i <= raw@.len(),
            words == crate::text::texts(raw@),
            command_position(words, 0) == command_position(words, i as int),
        decreases raw@.len() - i,
    {
        assert(words[i as int] == raw@[i as int]@);
        i = i + 1;
    }
    if i >= raw.len() {
        return Ok(args);
    }
    assert(words[i as int] == raw@[i as int]@);
    args.cmd = raw[i].clone();
    i = i + 1;
    let ghost first = args@;
    let ghost from = i as int;
    assert(args@ =~= (ArgsModel { cmd: words[from - 1], ..blank_args() }));
    while i < raw.len()
        invariant
            from <= i <= raw@.len(),
            words == crate::text::texts(raw@),
            args_model(words) == read_words(first, words, from),
            read_words(first, words, from) == read_words(args@, words, i as int),
        decreases raw@.len() - i,
    {
        assert(words[i as int] == raw@[i as int]@);
        match classify(raw[i].as_str()) {
            Word::Takes(o) => {
                if i + 1 >= raw.len() {
                    return Err(crate::text::joined(opt_text(o), " needs a value"));
                }
                assert(words[i + 1] == raw@[i + 1]@);
                args.set(o, raw[i + 1].clone());
                i = i + 2;
            },
            Word::Given(o, v) => {
                args.set(o, v);
                i = i + 1;
            },
            Word::Help => {
                let ghost was = args@;
                args.cmd = "help".to_owned();
                assert(args@ =~= (ArgsModel { cmd: "help"@, ..was }));
                i = i + 1;
            },
            Word::Plain => {
                let ghost was = args@;
                args.positionals.push(raw[i].clone());
                assert(args@.positionals =~= was.positionals.push(words[i as int]));
                i = i + 1;
            },
        }
    }
    Ok(args)
}

fn starts_with_dash(t: &str) -> (r: bool)
    ensures
        r == (t@.len() > 0 && t@[0] == '-'),
{
    let cs: Vec<char> = crate::text::chars_of(t);
    cs.len() > 0 && cs[0] == '-'
}

/// The kind of provider of a configuration.
pub open spec fn label_of(c: ModelConfig) -> Seq<char> {
    match c.provider {
        ProviderConfig::ApiKey { .. } => "deepseek"@,
        ProviderConfig::Local { .. } => "llama.cpp"@,
    }
}

/// The kind of provider of a configuration.
pub fn provider_label(cfg: &ModelConfig) -> (r: &'static str)
    ensures
        r@ == label_of(*cfg),
{
    match &cfg.provider {
        ProviderConfig::ApiKey { .. } => "deepseek",
        ProviderConfig::Local { .. } => "llama.cpp",
    }
}

/// A configuration with another model, if one is given.
pub fn override_model(cfg: ModelConfig, model: Option<String>) -> (r: ModelConfig)
    ensures
        r.provider == cfg.provider,
        r.model == match model {
            Some(m) => m,
            None => cfg.model,
        },
{
    match model {
        Some(m) => ModelConfig { provider: cfg.provider, model: m },
        None => cfg,
    }
}

/// The endpoint line: the base URL, and whether the key is there.
pub open spec fn endpoint_line(c: ModelConfig, key_set: bool) -> Seq<char> {
    match c.provider {
        ProviderConfig::ApiKey { endpoint, key_env } => endpoint@ + " (key: "@ + (if key_set {
            "set"@
        } else {
            "MISSING"@
        }) + " env '"@ + key_env@ + "')"@,
        ProviderConfig::Local { endpoint, key_env } => endpoint@ + " (key: "@ + (match key_env {
            Some(e) => if key_set {
                "set via env '"@ + e@ + "'"@
            } else {
                "MISSING env '"@ + e@ + "'"@
            },
            None => "none"@,
        }) + ")"@,
    }
}

/// The endpoint line of a description.
pub fn describe_endpoint(cfg: &ModelConfig, key_set: bool) -> (r: String)
    ensures
        r@ == endpoint_line(*cfg, key_set),
{
    match &cfg.provider {
        ProviderConfig::ApiKey { endpoint, key_env } => {
            let mut s = crate::text::joined(endpoint.as_str(), " (key: ");
            if key_set {
                s.append("set");
            } else {
                s.append("MISSING");
            }
            s.append(" env '");
            s.append(key_env.as_str());
            s.append("')");
            s
        },
        ProviderConfig::Local { endpoint, key_env } => {
            let mut s = crate::text::joined(endpoint.as_str(), " (key: ");
            match key_env {
                Some(e) => {
                    let mut k = if key_set {
                        "set via env '".to_owned()
                    } else {
                        "MISSING env '".to_owned()
                    };
                    k.append(e.as_str());
                    k.append("'");
                    s.append(k.as_str());
                },
                None => {
                    s.append("none");
                },
            }
            s.append(")");
            s
        },
    }
}

/// `s` with spaces behind, up to `width` characters.
pub open spec fn left_aligned(s: Seq<char>, width: nat) -> Seq<char> {
    if s.len() >= width {
        s
    } else {
        s + Seq::new((width - s.len()) as nat, |i: int| ' ')
    }
}

fn push_aligned(out: &mut String, t: &str, width: usize)
    ensures
        final(out)@ == old(out)@ + left_aligned(t@, width as nat),
{
    let ghost start = out@;
    out.append(t);
    let mut i: usize = t.unicode_len();
    let ghost n = t@.len();
    while i < width
        invariant
            n == t@.len(),
            n <= i,
            i <= width || i == n,
            out@ == start + t@ + Seq::new((i - n) as nat, |k: int| ' '),
        decreases width - i,
    {
        out.push(' ');
        i = i + 1;
        assert(out@ =~= start + t@ + Seq::new((i - n) as nat, |k: int| ' '));
    }
    assert(out@ =~= start + left_aligned(t@, width as nat));
}

/// One line of the catalog table.
pub open spec fn table_line(
    kind: Seq<char>,
    id: Seq<char>,
    vision: Seq<char>,
    ctx: Seq<char>,
) -> Seq<char> {
    left_aligned(kind, 12) + " "@ + left_aligned(id, 22) + " "@ + left_aligned(vision, 6) + " "@
        + ctx
}

fn table_text(kind: &str, id: &str, vision: &str, ctx: &str) -> (r: String)
    ensures
        r@ == table_line(kind@, id@, vision@, ctx@),
{
    let mut s = String::new();
    push_aligned(&mut s, kind, 12);
    s.append(" ");
    push_aligned(&mut s, id, 22);
    s.append(" ");
    push_aligned(&mut s, vision, 6);
    s.append(" ");
    s.append(ctx);
    assert(s@ =~= table_line(kind@, id@, vision@, ctx@));
    s
}

/// The line of a catalog row.
pub open spec fn info_line(m: crate::ai::config::InfoModel) -> Seq<char> {
    table_line(
        m.provider_kind,
        m.id,
        if m.vision {
            "yes"@
        } else {
            "no"@
        },
        crate::text::decimal(m.context_window as nat),
    )
}

/// The catalog as a table: a heading, then one line for each row.
pub fn models_table() -> (r: Vec<String>)
    ensures
        crate::text::texts(r@) == seq![
            table_line("kind"@, "id"@, "vision"@, "ctx"@),
        ] + crate::ai::config::catalog_models().map_values(
            |m: crate::ai::config::InfoModel| info_line(m),
        ),
{
    let rows: Vec<crate::ai::config::ModelInfo> = crate::ai::config::catalog();
    let mut out: Vec<String> = Vec::new();
    out.push(table_text("kind", "id", "vision", "ctx"));
    let ghost head = seq![table_line("kind"@, "id"@, "vision"@, "ctx"@)];
    let ghost lines = crate::ai::config::infos(rows@).map_values(
        |m: crate::ai::config::InfoModel| info_line(m),
    );
    assert(crate::text::texts(out@) =~= head + lines.take(0));
    let mut i: usize = 0;
    while i < rows.len()
        invariant
            i <= rows@.len(),
            lines == crate::ai::config::infos(rows@).map_values(
                |m: crate::ai::config::InfoModel| info_line(m),
            ),
            crate::text::texts(out@) == head + lines.take(i as int),
        decreases rows@.len() - i,
    {
        let m = &rows[i];
        let ctx = crate::text::decimal_text(m.context_window as u64);
        let vision = if m.vision {
            "yes"
        } else {
            "no"
        };
        let line = table_text(m.provider_kind.as_str(), m.id.as_str(), vision, ctx.as_str());
        let ghost was = crate::text::texts(out@);
        out.push(line);
        assert(lines[i as int] == info_line(rows@[i as int]@));
        assert(crate::text::texts(out@) =~= was.push(line@));
        assert(head + lines.take(i + 1) =~= was.push(lines[i as int]));
        i = i + 1;
    }
    assert(lines.take(i as int) =~= lines);
    out
}

/// The built-in kinds of providers.
pub fn provider_kinds() -> (r: Vec<String>)
    ensures
        crate::text::texts(r@) == seq!["deepseek"@, "llama.cpp"@, "openai-compat"@],
{
    let r: Vec<String> = vec![
        "deepseek".to_owned(),
        "llama.cpp".to_owned(),
        "openai-compat".to_owned(),
    ];
    assert(crate::text::texts(r@) =~= seq!["deepseek"@, "llama.cpp"@, "openai-compat"@]);
    r
}

/// The upper case of a text.
pub uninterp spec fn upper_case(s: Seq<char>) -> Seq<char>;

/// `str::to_uppercase`: a text that depends on the argument alone.
#[verifier::external_body]
fn to_upper(s: &str) -> (r: String)
    ensures
        r@ == upper_case(s@),
{
    s.to_uppercase()
}

/// Whether the upper case of a reply starts with `OK`.
pub fn starts_ok(upper: &str) -> (r: bool)
    ensures
        r == (upper@.len() >= 2 && upper@[0] == 'O' && upper@[1] == 'K'),
{
    let cs: Vec<char> = crate::text::chars_of(upper);
    cs.len() >= 2 && cs[0] == 'O' && cs[1] == 'K'
}

/// Whether a text is `ok` in any mixture of small and capital letters.
pub open spec fn is_ok(t: Seq<char>) -> bool {
    t.len() == 2 && (t[0] == 'o' || t[0] == 'O') && (t[1] == 'k' || t[1] == 'K')
}

/// Whether a reply to the ping passes: without white space around it, it is `ok`
/// in some spelling, or its upper case starts with `OK`.
pub open spec fn ping_passes(reply: Seq<char>) -> bool {
    let t = crate::text::trimmed(reply);
    is_ok(t) || (upper_case(t).len() >= 2 && upper_case(t)[0] == 'O' && upper_case(t)[1] == 'K')
}

/// Whether a reply to the ping passes.
pub fn ping_ok(reply: &str) -> (r: bool)
    ensures
        r == ping_passes(reply@),
{
    let cs: Vec<char> = crate::text::chars_of(reply);
    let t: Vec<char> = crate::text::trim(&cs);
    if t.len() == 2 && (t[0] == 'o' || t[0] == 'O') && (t[1] == 'k' || t[1] == 'K') {
        return true;
    }
    let s = crate::text::string_of(t.as_slice());
    let upper = to_upper(s.as_str());
    starts_ok(upper.as_str())
}

/// The verdict line of the ping.
pub fn ping_verdict(pass: bool) -> (r: &'static str)
    ensures
        r@ == if pass {
            "PASS"@
        } else {
            "UNEXPECTED REPLY (still 200)"@
        },
{
    if pass {
        "PASS"
    } else {
        "UNEXPECTED REPLY (still 200)"
    }
}

/// The message to send, which must not be empty.
pub fn chat_prompt(a: &Args) -> (r: Result<String, String>)
    ensures
        if a.positionals@.len() > 0 && a.positionals@[0]@.len() > 0 {
            r is Ok && r->Ok_0@ == a.positionals@[0]@
        } else {
            r is Err && r->Err_0@ == "chat needs a message"@
        },
{
    if a.positionals.len() > 0 {
        if a.positionals[0].as_str().unicode_len() > 0 {
            return Ok(a.positionals[0].clone());
        }
    }
    Err("chat needs a message".to_owned())
}

/// The question about a picture.
pub fn see_prompt(a: &Args) -> (r: String)
    ensures
        r@ == if a.positionals@.len() > 0 {
            a.positionals@[0]@
        } else {
            "Describe this 3D scene in one sentence."@
        },
{
    if a.positionals.len() > 0 {
        a.positionals[0].clone()
    } else {
        "Describe this 3D scene in one sentence.".to_owned()
    }
}

/// Refuses to send an image to a model that takes none.
pub fn check_chat_image(cfg: &ModelConfig) -> (r: Result<(), String>)
    ensures
        match r {
            Ok(_) => crate::ai::config::takes_images(*cfg),
            Err(t) => !crate::ai::config::takes_images(*cfg) && t@ == "model '"@ + cfg.model@
                + "' is not marked vision-capable; cannot send an image. Use a vision model (see `openengine-ai models`)."@,
        },
{
    if crate::ai::config::vision_supported(cfg) {
        return Ok(());
    }
    let mut s = crate::text::joined("model '", cfg.model.as_str());
    s.append(
        "' is not marked vision-capable; cannot send an image. Use a vision model (see `openengine-ai models`).",
    );
    Err(s)
}

/// Refuses to show a picture to a model that takes none.
pub fn check_see_image(cfg: &ModelConfig) -> (r: Result<(), String>)
    ensures
        match r {
            Ok(_) => crate::ai::config::takes_images(*cfg),
            Err(t) => !crate::ai::config::takes_images(*cfg) && t@ == "configured model '"@
                + cfg.model@
                + "' is not vision-capable — /see needs a VLM. Pick a vision model or point at a VLM endpoint."@,
        },
{
    if crate::ai::config::vision_supported(cfg) {
        return Ok(());
    }
    let mut s = crate::text::joined("configured model '", cfg.model.as_str());
    s.append(
        "' is not vision-capable — /see needs a VLM. Pick a vision model or point at a VLM endpoint.",
    );
    Err(s)
}

/// The address of a frame of a running engine.
pub fn frame_url(harness: &str) -> (r: String)
    ensures
        r@ == crate::ai::providers::without_slashes(harness@) + "/frame?w=512&h=288"@,
{
    let cs: Vec<char> = crate::text::chars_of(harness);
    let n: usize = crate::ai::providers::trim_slashes(&cs);
    let host: &[char] = vstd::slice::slice_subrange(cs.as_slice(), 0, n);
    assert(host@ =~= cs@.take(n as int));
    let mut s = crate::text::string_of(host);
    s.append("/frame?w=512&h=288");
    s
}

/// The conversation of a text message: the system prompt, if there is one, and
/// the message.
pub fn text_turns(system: Option<String>, prompt: &str) -> (r: Vec<ChatTurn>)
    ensures
        match system {
            Some(s) => r@.len() == 2 && is_text_turn(r@[0], "system"@, s@) && is_text_turn(
                r@[1],
                "user"@,
                prompt@,
            ),
            None => r@.len() == 1 && is_text_turn(r@[0], "user"@, prompt@),
        },
{
    match system {
        Some(s) => vec![ChatTurn::text("system", s.as_str()), ChatTurn::text("user", prompt)],
        None => vec![ChatTurn::text("user", prompt)],
    }
}

/// The conversation of a message with an image: the system prompt, if there is
/// one, and the message.
pub fn image_turns(system: Option<String>, img: TextImageContent) -> (r: Vec<ChatTurn>)
    ensures
        match system {
            Some(s) => r@.len() == 2 && is_text_turn(r@[0], "system"@, s@) && is_image_turn(
                r@[1],
                "user"@,
                img,
            ),
            None => r@.len() == 1 && is_image_turn(r@[0], "user"@, img),
        },
{
    match system {
        Some(s) => vec![
            ChatTurn::text("system", s.as_str()),
            ChatTurn::with_image("user", img),
        ],
        None => vec![ChatTurn::with_image("user", img)],
    }
}

/// Whether a message is a text of a role.
pub open spec fn is_text_turn(t: ChatTurn, role: Seq<char>, text: Seq<char>) -> bool {
    &&& t.role@ == role
    &&& t.parts@.len() == 1
    &&& t.parts@[0] matches crate::ai::content::ContentPart::Text(x) && x@ == text
}

/// Whether a message is a caption and an image of a role.
pub open spec fn is_image_turn(t: ChatTurn, role: Seq<char>, img: TextImageContent) -> bool {
    &&& t.role@ == role
    &&& t.parts@.len() == 2
    &&& t.parts@[0] == crate::ai::content::ContentPart::Text(img.text)
    &&& t.parts@[1] == (crate::ai::content::ContentPart::Image {
        mime: img.mime,
        base64: img.base64,
    })
}

/// The commands.
#[derive(Clone, Copy, PartialEq, Eq, Structural, Debug)]
pub enum CliCommand {
    /// Show the configuration.
    Describe,
    /// List the kinds of providers.
    Providers,
    /// List the catalog.
    Models,
    /// Ping the model.
    Test,
    /// Send a message.
    Chat,
    /// Describe a picture of a running engine.
    See,
    /// Show the usage.
    Help,
}

/// The usage.
pub fn usage() -> (r: &'static str)
    ensures
        r@ == usage_text(),
{
    "openengine-ai <cmd> [--config <path>] [--model <id>] [args]\n\ncommands:\n  describe                print resolved provider/model/endpoint\n  providers               list built-in provider kinds\n  models                  model catalog table (id, vision, context)\n  test                    one-turn ping (key + model test)\n  chat <msg> [--system <s>] [--image <file>]\n  see [--harness <url>] [<prompt>]   describe a live /frame screenshot\nconfig: --config <path> | $OPENENGINE_AI_CONFIG | ./config/ai.json"
}

/// The usage.
pub open spec fn usage_text() -> Seq<char> {
    "openengine-ai <cmd> [--config <path>] [--model <id>] [args]\n\ncommands:\n  describe                print resolved provider/model/endpoint\n  providers               list built-in provider kinds\n  models                  model catalog table (id, vision, context)\n  test                    one-turn ping (key + model test)\n  chat <msg> [--system <s>] [--image <file>]\n  see [--harness <url>] [<prompt>]   describe a live /frame screenshot\nconfig: --config <path> | $OPENENGINE_AI_CONFIG | ./config/ai.json"@
}

/// The command of a word; no word at all asks for help.
pub open spec fn command_of(w: Seq<char>) -> Option<CliCommand> {
    if w == "describe"@ {
        Some(CliCommand::Describe)
    } else if w == "providers"@ {
        Some(CliCommand::Providers)
    } else if w == "models"@ {
        Some(CliCommand::Models)
    } else if w == "test"@ {
        Some(CliCommand::Test)
    } else if w == "chat"@ {
        Some(CliCommand::Chat)
    } else if w == "see"@ {
        Some(CliCommand::See)
    } else if w == "help"@ || w == ""@ {
        Some(CliCommand::Help)
    } else {
        None
    }
}

/// The command of a word, or an error with the usage.
pub fn command(w: &str) -> (r: Result<CliCommand, String>)
    ensures
        match r {
            Ok(c) => command_of(w@) == Some(c),
            Err(t) => command_of(w@) is None && t@ == "unknown command: "@ + w@ + "\n"@
                + usage_text(),
        },
{
    if crate::text::same(w, "describe") {
        return Ok(CliCommand::Describe);
    }
    if crate::text::same(w, "providers") {
        return Ok(CliCommand::Providers);
    }
    if crate::text::same(w, "models") {
        return Ok(CliCommand::Models);
    }
    if crate::text::same(w, "test") {
        return Ok(CliCommand::Test);
    }
    if crate::text::same(w, "chat") {
        return Ok(CliCommand::Chat);
    }
    if crate::text::same(w, "see") {
        return Ok(CliCommand::See);
    }
    if crate::text::same(w, "help") || crate::text::same(w, "") {
        return Ok(CliCommand::Help);
    }
    let mut s = crate::text::joined("unknown command: ", w);
    s.append("\n");
    s.append(usage());
    Err(s)
}

/// The words of the options, alone and with a value behind `=`.
pub proof fn law_option_words(v: Seq<char>)
    ensures
        word_model("--config"@) == WordModel::Takes(Opt::Config),
        word_model("--model"@) == WordModel::Takes(Opt::Model),
        word_model("--system"@) == WordModel::Takes(Opt::System),
        word_model("--image"@) == WordModel::Takes(Opt::Image),
        word_model("--harness"@) == WordModel::Takes(Opt::Harness),
        word_model("--config="@ + v) == WordModel::Given(Opt::Config, v),
        word_model("--model="@ + v) == WordModel::Given(Opt::Model, v),
        word_model("--system="@ + v) == WordModel::Given(Opt::System, v),
        word_model("--image="@ + v) == WordModel::Given(Opt::Image, v),
        word_model("--harness="@ + v) == WordModel::Given(Opt::Harness, v),
        word_model("--help"@) is Help,
        word_model("-h"@) is Help,
{
    lemma_words_apart();
    lemma_given(Opt::Config, "--config="@, v);
    lemma_given(Opt::Model, "--model="@, v);
    lemma_given(Opt::System, "--system="@, v);
    lemma_given(Opt::Image, "--image="@, v);
    lemma_given(Opt::Harness, "--harness="@, v);
    reveal_strlit("--help");
    reveal_strlit("-h");
    assert("--help"@.len() == 6 && "-h"@.len() == 2);
}

/// The lengths of the options' words and their third characters tell them apart.
proof fn lemma_words_apart()
    ensures
        "--config"@ == seq!['-', '-', 'c', 'o', 'n', 'f', 'i', 'g'],
        "--model"@ == seq!['-', '-', 'm', 'o', 'd', 'e', 'l'],
        "--system"@ == seq!['-', '-', 's', 'y', 's', 't', 'e', 'm'],
        "--image"@ == seq!['-', '-', 'i', 'm', 'a', 'g', 'e'],
        "--harness"@ == seq!['-', '-', 'h', 'a', 'r', 'n', 'e', 's', 's'],
        "--config="@ == "--config"@.push('='),
        "--model="@ == "--model"@.push('='),
        "--system="@ == "--system"@.push('='),
        "--image="@ == "--image"@.push('='),
        "--harness="@ == "--harness"@.push('='),
        forall|o: Opt| opt_word(o).len() >= 7 && #[trigger] opt_word(o)[2] == (match o {
            Opt::Config => 'c',
            Opt::Model => 'm',
            Opt::System => 's',
            Opt::Image => 'i',
            Opt::Harness => 'h',
        }),
{
    reveal_strlit("--config");
    reveal_strlit("--model");
    reveal_strlit("--system");
    reveal_strlit("--image");
    reveal_strlit("--harness");
    reveal_strlit("--config=");
    reveal_strlit("--model=");
    reveal_strlit("--system=");
    reveal_strlit("--image=");
    reveal_strlit("--harness=");
    assert("--config"@ =~= seq!['-', '-', 'c', 'o', 'n', 'f', 'i', 'g']);
    assert("--model"@ =~= seq!['-', '-', 'm', 'o', 'd', 'e', 'l']);
    assert("--system"@ =~= seq!['-', '-', 's', 'y', 's', 't', 'e', 'm']);
    assert("--image"@ =~= seq!['-', '-', 'i', 'm', 'a', 'g', 'e']);
    assert("--harness"@ =~= seq!['-', '-', 'h', 'a', 'r', 'n', 'e', 's', 's']);
    assert("--config="@ =~= "--config"@.push('='));
    assert("--model="@ =~= "--model"@.push('='));
    assert("--system="@ =~= "--system"@.push('='));
    assert("--image="@ =~= "--image"@.push('='));
    assert("--harness="@ =~= "--harness"@.push('='));
}

proof fn lemma_given(o: Opt, start: Seq<char>, v: Seq<char>)
    requires
        start == opt_word(o).push('='),
    ensures
        word_model(start + v) == WordModel::Given(o, v),
{
    lemma_words_apart();
    let t = start + v;
    assert(t.take(start.len() as int) =~= start);
    assert(t.skip(start.len() as int) =~= v);
    assert(gives(t, o));
    assert(t[2] == opt_word(o)[2]);
    assert(t.len() > opt_word(o).len());
    assert forall|p: Opt| p != o implies !gives(t, p) && t != #[trigger] opt_word(p) by {
        assert(opt_word(p)[2] != opt_word(o)[2]);
        if gives(t, p) {
            let q = opt_word(p).push('=');
            assert(t.take(q.len() as int)[2] == t[2]);
            assert(q[2] == opt_word(p)[2]);
        }
    }
    assert(t != opt_word(o));
    match o {
        Opt::Config => {},
        Opt::Model => {
            assert(opt_word(Opt::Config) != t && !gives(t, Opt::Config));
        },
        Opt::System => {
            assert(opt_word(Opt::Config) != t && !gives(t, Opt::Config));
            assert(opt_word(Opt::Model) != t && !gives(t, Opt::Model));
            assert(opt_word(Opt::Image) != t && !gives(t, Opt::Image));
            assert(opt_word(Opt::Harness) != t && !gives(t, Opt::Harness));
        },
        Opt::Image => {
            assert(opt_word(Opt::Config) != t && !gives(t, Opt::Config));
            assert(opt_word(Opt::Model) != t && !gives(t, Opt::Model));
            assert(opt_word(Opt::System) != t && !gives(t, Opt::System));
        },
        Opt::Harness => {
            assert(opt_word(Opt::Config) != t && !gives(t, Opt::Config));
            assert(opt_word(Opt::Model) != t && !gives(t, Opt::Model));
            assert(opt_word(Opt::System) != t && !gives(t, Opt::System));
            assert(opt_word(Opt::Image) != t && !gives(t, Opt::Image));
        },
    }
}

/// A word that is no option, no option with a value and no request for help is just
/// a word; so is every word that does not start with a dash.
pub proof fn law_plain_words(t: Seq<char>)
    ensures
        word_model(t) is Plain <==> !(t == "--config"@ || t == "--model"@ || t == "--system"@ || t
            == "--image"@ || t == "--harness"@ || t == "--help"@ || t == "-h"@
            || "--config="@.is_prefix_of(t) || "--model="@.is_prefix_of(t)
            || "--system="@.is_prefix_of(t) || "--image="@.is_prefix_of(t)
            || "--harness="@.is_prefix_of(t)),
        t.len() == 0 || t[0] != '-' ==> word_model(t) is Plain,
{
    lemma_words_apart();
    reveal_strlit("--help");
    reveal_strlit("-h");
    assert forall|o: Opt| gives(t, o) <==> (#[trigger] opt_word(o).push('=')).is_prefix_of(t) by {
        let p = opt_word(o).push('=');
        if p.len() <= t.len() {
            assert(t.take(p.len() as int) =~= t.subrange(0, p.len() as int));
        }
    }
    assert(opt_word(Opt::Config).push('=') == "--config="@);
    assert(opt_word(Opt::Model).push('=') == "--model="@);
    assert(opt_word(Opt::System).push('=') == "--system="@);
    assert(opt_word(Opt::Image).push('=') == "--image="@);
    assert(opt_word(Opt::Harness).push('=') == "--harness="@);
    if t.len() == 0 || t[0] != '-' {
        assert forall|o: Opt| t != #[trigger] opt_word(o) && !gives(t, o) by {
            assert(opt_word(o)[0] == '-');
            let p = opt_word(o).push('=');
            if gives(t, o) {
                assert(t.take(p.len() as int)[0] == t[0]);
            }
        }
        assert(t != opt_word(Opt::Config) && t != opt_word(Opt::Model) && t != opt_word(Opt::System)
            && t != opt_word(Opt::Image) && t != opt_word(Opt::Harness));
        assert("--help"@[0] == '-' && "-h"@[0] == '-');
    }
}

/// Setting an option sets that option, and no other.
pub proof fn law_options_are_apart(a: ArgsModel, v: Seq<char>)
    ensures
        with_opt(a, Opt::Config, v) == (ArgsModel { config: Some(v), ..a }),
        with_opt(a, Opt::Model, v) == (ArgsModel { model: Some(v), ..a }),
        with_opt(a, Opt::System, v) == (ArgsModel { system: Some(v), ..a }),
        with_opt(a, Opt::Image, v) == (ArgsModel { image: Some(v), ..a }),
        with_opt(a, Opt::Harness, v) == (ArgsModel { harness: v, ..a }),
{
}

/// What is read behind the first words does not depend on them.
proof fn lemma_read_behind(a: ArgsModel, x: Seq<Seq<char>>, y: Seq<Seq<char>>, j: int)
    requires
        0 <= j,
    ensures
        read_words(a, x + y, x.len() + j) == read_words(a, y, j),
    decreases y.len() - j,
{
    if j < y.len() {
        let all = x + y;
        assert(all[x.len() + j] == y[j]);
        match word_model(y[j]) {
            WordModel::Takes(o) => {
                if j + 1 < y.len() {
                    assert(all[x.len() + j + 1] == y[j + 1]);
                    lemma_read_behind(with_opt(a, o, y[j + 1]), x, y, j + 2);
                }
            },
            WordModel::Given(o, v) => {
                lemma_read_behind(with_opt(a, o, v), x, y, j + 1);
            },
            WordModel::Help => {
                lemma_read_behind(ArgsModel { cmd: "help"@, ..a }, x, y, j + 1);
            },
            WordModel::Plain => {
                lemma_read_behind(
                    ArgsModel { positionals: a.positionals.push(y[j]), ..a },
                    x,
                    y,
                    j + 1,
                );
            },
        }
    }
}

/// Words that are no options are kept, in order, whatever stands behind them.
pub proof fn law_words_are_kept(a: ArgsModel, plain: Seq<Seq<char>>, behind: Seq<Seq<char>>)
    requires
        forall|k: int| 0 <= k < plain.len() ==> word_model(#[trigger] plain[k]) is Plain,
    ensures
        read_words(a, plain + behind, 0) == read_words(
            ArgsModel { positionals: a.positionals + plain, ..a },
            behind,
            0,
        ),
        read_words(a, seq![], 0) == Ok::<ArgsModel, Opt>(a),
    decreases plain.len(),
{
    let all = plain + behind;
    if plain.len() == 0 {
        assert(all =~= behind);
        assert(a.positionals + plain =~= a.positionals);
        assert((ArgsModel { positionals: a.positionals + plain, ..a }) =~= a);
    } else {
        let first = seq![plain[0]];
        let rest = plain.skip(1);
        let next = ArgsModel { positionals: a.positionals.push(plain[0]), ..a };
        assert(all[0] == plain[0]);
        assert(all =~= first + (rest + behind));
        assert forall|k: int| 0 <= k < rest.len() implies word_model(#[trigger] rest[k]) is Plain by {
            assert(rest[k] == plain[k + 1]);
        }
        lemma_read_behind(next, first, rest + behind, 0);
        law_words_are_kept(next, rest, behind);
        assert(next.positionals + rest =~= a.positionals + plain);
    }
}

/// An option takes the word behind it, or what stands behind its `=`, and the rest is
/// read with that option set: so a later one replaces an earlier one. At the end, an
/// option without a value is an error.
pub proof fn law_options_take_values(
    a: ArgsModel,
    o: Opt,
    v: Seq<char>,
    behind: Seq<Seq<char>>,
)
    ensures
        read_words(a, seq![opt_word(o), v] + behind, 0) == read_words(with_opt(a, o, v), behind, 0),
        read_words(a, seq![opt_word(o) + seq!['='] + v] + behind, 0) == read_words(
            with_opt(a, o, v),
            behind,
            0,
        ),
        read_words(a, seq![opt_word(o)], 0) == Err::<ArgsModel, Opt>(o),
        read_words(a, seq!["--help"@] + behind, 0) == read_words(
            ArgsModel { cmd: "help"@, ..a },
            behind,
            0,
        ),
{
    law_option_words(v);
    lemma_words_apart();
    let two = seq![opt_word(o), v];
    assert((two + behind)[0] == opt_word(o) && (two + behind)[1] == v);
    lemma_read_behind(with_opt(a, o, v), two, behind, 0);
    let w = opt_word(o) + seq!['='] + v;
    assert(w =~= opt_word(o).push('=') + v);
    lemma_given(o, opt_word(o).push('='), v);
    let one = seq![w];
    assert((one + behind)[0] == w);
    lemma_read_behind(with_opt(a, o, v), one, behind, 0);
    assert(seq![opt_word(o)][0] == opt_word(o));
    let help = seq!["--help"@];
    assert((help + behind)[0] == "--help"@);
    lemma_read_behind(ArgsModel { cmd: "help"@, ..a }, help, behind, 0);
}

/// The command is the first word without a dash in front; what stands before it does
/// not count, and the words behind it are read on nothing set. Without a command
/// nothing is set at all.
pub proof fn law_command_line(dashes: Seq<Seq<char>>, cmd: Seq<char>, behind: Seq<Seq<char>>)
    requires
        forall|k: int| 0 <= k < dashes.len() ==> (#[trigger] dashes[k]).len() > 0 && dashes[k][0]
            == '-',
        cmd.len() == 0 || cmd[0] != '-',
    ensures
        args_model(dashes + seq![cmd] + behind) == read_words(
            (ArgsModel {
                cmd,
                config: None,
                model: None,
                positionals: seq![],
                system: None,
                image: None,
                harness: "http://127.0.0.1:8080"@,
            }),
            behind,
            0,
        ),
        args_model(dashes) == Ok::<ArgsModel, Opt>(
            (ArgsModel {
                cmd: seq![],
                config: None,
                model: None,
                positionals: seq![],
                system: None,
                image: None,
                harness: "http://127.0.0.1:8080"@,
            }),
        ),
{
    let n = dashes.len() as int;
    let all = dashes + seq![cmd] + behind;
    assert forall|k: int| 0 <= k < n implies (#[trigger] all[k]).len() > 0 && all[k][0] == '-' by {
        assert(all[k] == dashes[k]);
    }
    assert(all[n] == cmd);
    lemma_command_at(all, 0, n);
    let a = ArgsModel { cmd, ..blank_args() };
    assert(all =~= (dashes + seq![cmd]) + behind);
    lemma_read_behind(a, dashes + seq![cmd], behind, 0);
    lemma_command_at(dashes, 0, n);
}

proof fn lemma_command_at(words: Seq<Seq<char>>, i: int, n: int)
    requires
        0 <= i <= n <= words.len(),
        forall|k: int| i <= k < n ==> (#[trigger] words[k]).len() > 0 && words[k][0] == '-',
        n < words.len() ==> words[n].len() == 0 || words[n][0] != '-',
    ensures
        command_position(words, i) == n,
    decreases n - i,
{
    if i < n {
        lemma_command_at(words, i + 1, n);
    }
}

/// Aligning keeps the text and fills up with spaces, to the width and no further.
pub proof fn law_left_aligned(s: Seq<char>, width: nat)
    ensures
        s.is_prefix_of(left_aligned(s, width)),
        left_aligned(s, width).len() == (if s.len() < width {
            width
        } else {
            s.len()
        }),
        forall|i: int|
            s.len() <= i < left_aligned(s, width).len() ==> #[trigger] left_aligned(s, width)[i]
                == ' ',
{
    let t = left_aligned(s, width);
    assert(t.subrange(0, s.len() as int) =~= s);
}

/// The columns of a table line start at 0, 13, 36 and 43, with spaces between them,
/// wherever their contents fit.
pub proof fn law_table_columns(kind: Seq<char>, id: Seq<char>, vision: Seq<char>, ctx: Seq<char>)
    requires
        kind.len() <= 12,
        id.len() <= 22,
        vision.len() <= 6,
    ensures
        table_line(kind, id, vision, ctx).len() == 43 + ctx.len(),
        table_line(kind, id, vision, ctx).subrange(0, kind.len() as int) == kind,
        table_line(kind, id, vision, ctx).subrange(13, (13 + id.len()) as int) == id,
        table_line(kind, id, vision, ctx).subrange(36, (36 + vision.len()) as int) == vision,
        table_line(kind, id, vision, ctx).skip(43) == ctx,
        forall|i: int|
            kind.len() <= i < 13 || 13 + id.len() <= i < 36 || 36 + vision.len() <= i < 43
                ==> #[trigger] table_line(kind, id, vision, ctx)[i] == ' ',
{
    reveal_strlit(" ");
    let t = table_line(kind, id, vision, ctx);
    law_left_aligned(kind, 12);
    law_left_aligned(id, 22);
    law_left_aligned(vision, 6);
    let k = left_aligned(kind, 12);
    let d = left_aligned(id, 22);
    let v = left_aligned(vision, 6);
    assert(t.subrange(0, 12) =~= k);
    assert(t.subrange(13, 35) =~= d);
    assert(t.subrange(36, 42) =~= v);
    assert(t.subrange(0, kind.len() as int) =~= kind);
    assert(t.subrange(13, (13 + id.len()) as int) =~= id);
    assert(t.subrange(36, (36 + vision.len()) as int) =~= vision);
    assert(t.skip(43) =~= ctx);
    assert forall|i: int|
        kind.len() <= i < 13 || 13 + id.len() <= i < 36 || 36 + vision.len() <= i
            < 43 implies #[trigger] t[i] == ' ' by {
        if i < 12 {
            assert(t[i] == k[i]);
        } else if 13 <= i < 35 {
            assert(t[i] == d[i - 13]);
        } else if 36 <= i < 42 {
            assert(t[i] == v[i - 36]);
        }
    }
}

/// A catalog line shows the kind, the id, `yes` or `no` for images, and the context.
pub proof fn law_info_line(m: crate::ai::config::InfoModel)
    ensures
        m.vision ==> info_line(m) == table_line(
            m.provider_kind,
            m.id,
            "yes"@,
            crate::text::decimal(m.context_window as nat),
        ),
        !m.vision ==> info_line(m) == table_line(
            m.provider_kind,
            m.id,
            "no"@,
            crate::text::decimal(m.context_window as nat),
        ),
{
}

/// What is said of an endpoint: its base URL, and of the key whether it is there and
/// which variable holds it.
pub proof fn law_endpoint_line(endpoint: String, key: String, model: String)
    ensures
        ({
            let hosted = ModelConfig {
                provider: ProviderConfig::ApiKey { endpoint, key_env: key },
                model,
            };
            let keyed = ModelConfig {
                provider: ProviderConfig::Local { endpoint, key_env: Some(key) },
                model,
            };
            let open = ModelConfig {
                provider: ProviderConfig::Local { endpoint, key_env: None },
                model,
            };
            let start = endpoint@ + " (key: "@;
            &&& endpoint_line(hosted, true) == start + "set"@ + " env '"@ + key@ + "')"@
            &&& endpoint_line(hosted, false) == start + "MISSING"@ + " env '"@ + key@ + "')"@
            &&& endpoint_line(keyed, true) == start + ("set via env '"@ + key@ + "'"@) + ")"@
            &&& endpoint_line(keyed, false) == start + ("MISSING env '"@ + key@ + "'"@) + ")"@
            &&& endpoint_line(open, true) == start + "none"@ + ")"@
            &&& endpoint_line(open, false) == start + "none"@ + ")"@
            &&& label_of(hosted) == "deepseek"@
            &&& label_of(keyed) == "llama.cpp"@
            &&& label_of(open) == "llama.cpp"@
        }),
{
}

/// A word names a command exactly when it is that command's word; no word at all asks
/// for help.
pub proof fn law_commands(w: Seq<char>)
    ensures
        command_of(w) == Some(CliCommand::Describe) <==> w == "describe"@,
        command_of(w) == Some(CliCommand::Providers) <==> w == "providers"@,
        command_of(w) == Some(CliCommand::Models) <==> w == "models"@,
        command_of(w) == Some(CliCommand::Test) <==> w == "test"@,
        command_of(w) == Some(CliCommand::Chat) <==> w == "chat"@,
        command_of(w) == Some(CliCommand::See) <==> w == "see"@,
        command_of(w) == Some(CliCommand::Help) <==> (w == "help"@ || w.len() == 0),
        command_of(w) is None <==> !(w == "describe"@ || w == "providers"@ || w == "models"@ || w
            == "test"@ || w == "chat"@ || w == "see"@ || w == "help"@ || w.len() == 0),
{
    reveal_strlit("describe");
    reveal_strlit("providers");
    reveal_strlit("models");
    reveal_strlit("test");
    reveal_strlit("chat");
    reveal_strlit("see");
    reveal_strlit("help");
    reveal_strlit("");
    assert("describe"@.len() == 8 && "providers"@.len() == 9 && "models"@.len() == 6);
    assert("test"@.len() == 4 && "chat"@.len() == 4 && "see"@.len() == 3 && "help"@.len() == 4);
    assert("test"@[0] == 't' && "chat"@[0] == 'c' && "help"@[0] == 'h');
    assert(""@ =~= Seq::<char>::empty());
    assert(w.len() == 0 ==> w =~= ""@);
}

/// `ok` passes the ping in every spelling, with white space around it or not.
pub proof fn law_ok_passes(front: Seq<char>, o: char, k: char, back: Seq<char>)
    requires
        forall|i: int| 0 <= i < front.len() ==> crate::text::white(#[trigger] front[i]),
        forall|i: int| 0 <= i < back.len() ==> crate::text::white(#[trigger] back[i]),
        o == 'o' || o == 'O',
        k == 'k' || k == 'K',
    ensures
        ping_passes(front + seq![o, k] + back),
{
    crate::text::law_white(o);
    crate::text::law_white(k);
    crate::text::law_trimmed(front, seq![o, k], back);
}

/// A text message is sent as its role and its text, a message with an image as its
/// role and the list of the two.
pub proof fn law_turns_as_sent(t: ChatTurn, role: Seq<char>, text: Seq<char>, img: TextImageContent)
    ensures
        is_text_turn(t, role, text) ==> crate::ai::content::turn_json(t) == "{\"role\":"@
            + crate::ai::content::json_string(role) + ",\"content\":"@
            + crate::ai::content::json_string(text) + "}"@,
        is_image_turn(t, role, img) ==> t.role@ == role && crate::text::occurs(
            crate::ai::content::content_json(t.parts@),
            crate::ai::content::part_json(crate::ai::content::ContentPart::Text(img.text)),
        ) && crate::text::occurs(
            crate::ai::content::content_json(t.parts@),
            crate::ai::content::part_json(
                (crate::ai::content::ContentPart::Image { mime: img.mime, base64: img.base64 }),
            ),
        ),
{
    if is_text_turn(t, role, text) {
        crate::ai::content::law_text_turn_is_a_string(t, text);
    }
    if is_image_turn(t, role, img) {
        crate::ai::content::law_content(t.parts@, 0);
        crate::ai::content::law_content(t.parts@, 1);
        assert(t.parts@[1] is Image);
    }
}

/// Arguments are taken for what they hold, each under its own name.
pub proof fn law_args_parts(a: Args)
    ensures
        a@.cmd == a.cmd@ && a@.harness == a.harness@,
        a.config is Some ==> a@.config == Some(a.config->0@),
        a.model is Some ==> a@.model == Some(a.model->0@),
        a.system is Some ==> a@.system == Some(a.system->0@),
        a.image is Some ==> a@.image == Some(a.image->0@),
        a.config is None ==> a@.config is None,
        a.model is None ==> a@.model is None,
        a.system is None ==> a@.system is None,
        a.image is None ==> a@.image is None,
        a@.positionals == crate::text::texts(a.positionals@),
{
}

/// The usage names every command, and where the configuration comes from.
pub proof fn law_usage()
    ensures
        usage_text() == "openengine-ai <cmd> [--config <path>] [--model <id>] [args]\n\ncommands:\n  describe                print resolved provider/model/endpoint\n  providers               list built-in provider kinds\n  models                  model catalog table (id, vision, context)\n  test                    one-turn ping (key + model test)\n  chat <msg> [--system <s>] [--image <file>]\n  see [--harness <url>] [<prompt>]   describe a live /frame screenshot\nconfig: --config <path> | $OPENENGINE_AI_CONFIG | ./config/ai.json"@,
{
}

} // verus!
