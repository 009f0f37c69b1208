//! Talking to a provider: which client, which URL, which key, and what its
//! answers mean. The requests themselves are made elsewhere.

use crate::ai::config::{AdapterError, ModelConfig, ProviderConfig};
use vstd::prelude::*;

verus! {

/// What every client has: the configuration it was made from, and a name.
pub trait ModelAdapter {
    /// The configuration.
    spec fn config_model(&self) -> ModelConfig;

    /// The name.
    spec fn name_text(&self) -> Seq<char>;

    /// The configuration.
    fn config(&self) -> (r: &ModelConfig)
        ensures
            *r == self.config_model(),
    ;

    /// The name.
    fn name(&self) -> (r: &str)
        ensures
            r@ == self.name_text(),
    ;
}

/// The client of a hosted API.
pub struct DeepSeekAdapter {
    config: ModelConfig,
}

impl DeepSeekAdapter {
    /// The client of a configuration.
    pub fn new(config: ModelConfig) -> (r: Self)
        ensures
            r.config_model() == config,
    {
        DeepSeekAdapter { config }
    }
}

impl ModelAdapter for DeepSeekAdapter {
    closed spec fn config_model(&self) -> ModelConfig {
        self.config
    }

    open spec fn name_text(&self) -> Seq<char> {
        "deepseek"@
    }

    fn config(&self) -> (r: &ModelConfig) {
        &self.config
    }

    fn name(&self) -> (r: &str) {
        "deepseek"
    }
}

/// The client of a local server.
pub struct LlamaCppAdapter {
    config: ModelConfig,
}

impl LlamaCppAdapter {
    /// The client of a configuration.
    pub fn new(config: ModelConfig) -> (r: Self)
        ensures
            r.config_model() == config,
    {
        LlamaCppAdapter { config }
    }
}

impl ModelAdapter for LlamaCppAdapter {
    closed spec fn config_model(&self) -> ModelConfig {
        self.config
    }

    open spec fn name_text(&self) -> Seq<char> {
        "llama.cpp"@
    }

    fn config(&self) -> (r: &ModelConfig) {
        &self.config
    }

    fn name(&self) -> (r: &str) {
        "llama.cpp"
    }
}

/// One of the clients.
pub enum Adapter {
    /// A hosted API.
    DeepSeek(DeepSeekAdapter),
    /// A local server.
    LlamaCpp(LlamaCppAdapter),
}

impl ModelAdapter for Adapter {
    open spec fn config_model(&self) -> ModelConfig {
        match *self {
            Adapter::DeepSeek(a) => a.config_model(),
            Adapter::LlamaCpp(a) => a.config_model(),
        }
    }

    open spec fn name_text(&self) -> Seq<char> {
        match *self {
            Adapter::DeepSeek(a) => a.name_text(),
            Adapter::LlamaCpp(a) => a.name_text(),
        }
    }

    fn config(&self) -> (r: &ModelConfig) {
        match self {
            Adapter::DeepSeek(a) => a.config(),
            Adapter::LlamaCpp(a) => a.config(),
        }
    }

    fn name(&self) -> (r: &str) {
        match self {
            Adapter::DeepSeek(a) => a.name(),
            Adapter::LlamaCpp(a) => a.name(),
        }
    }
}

/// Makes the client of a configuration. A hosted API without its key is refused
/// at once; `key_set` says whether the key's environment variable is set.
pub fn from_config(config: &ModelConfig, key_set: bool) -> (r: Result<Adapter, AdapterError>)
    ensures
        match config.provider {
            ProviderConfig::ApiKey { key_env, .. } => if key_set {
                r is Ok && r->Ok_0 is DeepSeek && r->Ok_0.config_model() == *config
            } else {
                r is Err && (r->Err_0 matches AdapterError::Config(m) && m@ == "env var '"@
                    + key_env@ + "' (from provider config) is not set"@)
            },
            ProviderConfig::Local { .. } => r is Ok && r->Ok_0 is LlamaCpp
                && r->Ok_0.config_model() == *config,
        },
{
    match &config.provider {
        ProviderConfig::ApiKey { key_env, .. } => {
            if !key_set {
                let mut s = crate::text::joined("env var '", key_env.as_str());
                s.append("' (from provider config) is not set");
                return Err(AdapterError::Config(s));
            }
            Ok(Adapter::DeepSeek(DeepSeekAdapter::new(config.duplicate())))
        },
        ProviderConfig::Local { .. } => Ok(
            Adapter::LlamaCpp(LlamaCppAdapter::new(config.duplicate())),
        ),
    }
}

/// The key to send: none if none is configured, else the value of its environment
/// variable, which must be set.
pub fn bearer(key_env: Option<&str>, value: Option<String>) -> (r: Result<
    Option<String>,
    AdapterError,
>)
    ensures
        match key_env {
            None => r is Ok && r->Ok_0 is None,
            Some(env) => match value {
                Some(v) => r is Ok && r->Ok_0 == Some(v),
                None => r is Err && (r->Err_0 matches AdapterError::Config(m) && m@ == "env '"@
                    + env@ + "' unset"@),
            },
        },
{
    match key_env {
        None => Ok(None),
        Some(env) => match value {
            Some(v) => Ok(Some(v)),
            None => {
                let mut s = crate::text::joined("env '", env);
                s.append("' unset");
                Err(AdapterError::Config(s))
            },
        },
    }
}

/// The URL of the chat endpoint.
pub fn chat_url(endpoint: &str) -> (r: String)
    ensures
        r@ == endpoint@ + "/chat/completions"@,
{
    crate::text::joined(endpoint, "/chat/completions")
}

/// The URL of the list of models.
pub fn models_url(endpoint: &str) -> (r: String)
    ensures
        r@ == endpoint@ + "/models"@,
{
    crate::text::joined(endpoint, "/models")
}

/// `s` without slashes behind.
pub open spec fn without_slashes(s: Seq<char>) -> Seq<char>
    decreases s.len(),
{
    if s.len() > 0 && s.last() == '/' {
        without_slashes(s.drop_last())
    } else {
        s
    }
}

/// The root of a server: its base URL without slashes behind and without a
/// trailing `/v1`.
pub open spec fn server_root(endpoint: Seq<char>) -> Seq<char> {
    let host = without_slashes(endpoint);
    if host.len() >= 3 && host.skip(host.len() - 3) == "/v1"@ {
        host.take(host.len() - 3)
    } else {
        host
    }
}

/// Characters without slashes behind.
pub fn trim_slashes(cs: &Vec<char>) -> (r: usize)
    ensures
        r <= cs@.len(),
        cs@.take(r as int) == without_slashes(cs@),
{
    let mut n: usize = cs.len();
    assert(cs@.take(n as int) =~= cs@);
    while n > 0 && cs[n - 1] == '/'
        invariant
            n <= cs@.len(),
            without_slashes(cs@) == without_slashes(cs@.take(n as int)),
        decreases n,
    {
        assert(cs@.take(n as int).drop_last() =~= cs@.take(n - 1));
        n = n - 1;
    }
    n
}

/// The root of a server.
pub fn management_root(endpoint: &str) -> (r: String)
    ensures
        r@ == server_root(endpoint@),
{
    let cs: Vec<char> = crate::text::chars_of(endpoint);
    let n: usize = trim_slashes(&cs);
    let ghost host = cs@.take(n as int);
    proof {
        reveal_strlit("/v1");
    }
    let versioned = n >= 3 && cs[n - 3] == '/' && cs[n - 2] == 'v' && cs[n - 1] == '1';
    assert(versioned == (host.len() >= 3 && host.skip(host.len() - 3) == "/v1"@)) by {
        if n >= 3 {
            let tail = host.skip(host.len() - 3);
            assert(tail.len() == 3 && "/v1"@.len() == 3);
            assert(tail[0] == cs@[n - 3] && tail[1] == cs@[n - 2] && tail[2] == cs@[n - 1]);
            if versioned {
                assert(tail =~= "/v1"@);
            }
        }
    }
    let m: usize = if versioned {
        n - 3
    } else {
        n
    };
    let root: &[char] = vstd::slice::slice_subrange(cs.as_slice(), 0, m);
    assert(root@ =~= server_root(endpoint@));
    crate::text::string_of(root)
}

/// Whether a byte stands for itself in a URL path segment.
pub open spec fn unreserved(b: u8) -> bool {
    (65 <= b <= 90) || (97 <= b <= 122) || (48 <= b <= 57) || b == 45 || b == 95 || b == 46 || b
        == 126
}

/// The URL form of a byte.
pub open spec fn url_byte(b: u8) -> Seq<char> {
    if unreserved(b) {
        seq![b as char]
    } else {
        seq!['%', crate::text::digit(b as int / 16), crate::text::digit(b as int % 16)]
    }
}

/// The URL form of the first `n` bytes.
pub open spec fn url_bytes(b: Seq<u8>, n: nat) -> Seq<char>
    decreases n,
{
    if n == 0 {
        seq![]
    } else {
        url_bytes(b, (n - 1) as nat) + url_byte(b[n - 1])
    }
}

/// Percent-encodes a string for a URL path segment: every byte but letters,
/// digits, `-`, `_`, `.` and `~`.
pub fn urlencode(s: &str) -> (r: String)
    ensures
        r@ == url_bytes(
            vstd::utf8::encode_utf8(s@),
            vstd::utf8::encode_utf8(s@).len(),
        ),
{
    let b: &[u8] = s.as_bytes();
    let mut out = String::new();
    let mut i: usize = 0;
    while i < b.len()
        invariant
            i <= b@.len(),
            out@ == url_bytes(b@, i as nat),
        decreases b@.len() - i,
    {
        let x: u8 = b[i];
        let ghost was = out@;
        if (65 <= x && x <= 90) || (97 <= x && x <= 122) || (48 <= x && x <= 57) || x == 45 || x
            == 95 || x == 46 || x == 126 {
            out.push(x as char);
            assert(out@ =~= was + url_byte(x));
        } else {
            out.push('%');
            crate::text::push_digit(&mut out, (x / 16) as u64);
            crate::text::push_digit(&mut out, (x % 16) as u64);
            assert(out@ =~= was + url_byte(x));
        }
        i = i + 1;
    }
    out
}

/// The URL of the vision probe of a model.
pub fn check_vision_url(endpoint: &str, model: &str) -> (r: String)
    ensures
        r@ == server_root(endpoint@) + "/api/models/check-vision/"@ + url_bytes(
            vstd::utf8::encode_utf8(model@),
            vstd::utf8::encode_utf8(model@).len(),
        ),
{
    let mut s = management_root(endpoint);
    s.append("/api/models/check-vision/");
    let m = urlencode(model);
    s.append(m.as_str());
    s
}

/// The URL of the request to load a model.
pub fn load_model_url(endpoint: &str) -> (r: String)
    ensures
        r@ == server_root(endpoint@) + "/api/inference/load"@,
{
    let mut s = management_root(endpoint);
    s.append("/api/inference/load");
    s
}

/// The body of the request to load a model.
pub fn load_model_request(model: &str) -> (r: String)
    ensures
        r@ == "{\"model_path\":"@ + crate::ai::content::json_string(model@) + "}"@,
{
    let q = crate::ai::content::json_text(model);
    let mut s = crate::text::joined("{\"model_path\":", q.as_str());
    s.append("}");
    s
}

/// The first 200 characters.
pub open spec fn shortened(s: Seq<char>) -> Seq<char> {
    if s.len() > 200 {
        s.take(200)
    } else {
        s
    }
}

/// The error of a chat or load request that was refused, with the beginning of
/// what the server said.
pub fn refused(code: u16, body: &str) -> (r: AdapterError)
    ensures
        r matches AdapterError::Status { code: c, detail } && c == code && detail@ == shortened(
            body@,
        ),
{
    let cs: Vec<char> = crate::text::chars_of(body);
    let n: usize = if cs.len() > 200 {
        200
    } else {
        cs.len()
    };
    let head: &[char] = vstd::slice::slice_subrange(cs.as_slice(), 0, n);
    assert(head@ =~= shortened(body@));
    AdapterError::Status { code, detail: crate::text::string_of(head) }
}

/// The error of a vision probe that was refused.
pub fn vision_refused(code: u16) -> (r: AdapterError)
    ensures
        r matches AdapterError::Status { code: c, detail } && c == code && detail@
            == "vision check unsupported here (http "@ + crate::text::decimal(code as nat) + ")"@,
{
    let d = crate::text::decimal_text(code as u64);
    let mut s = crate::text::joined("vision check unsupported here (http ", d.as_str());
    s.append(")");
    AdapterError::Status { code, detail: s }
}

/// The words for a reply that is not JSON.
pub open spec fn undecoded() -> Seq<char> {
    "error decoding response body"@
}

/// The truth value under a key of a JSON object: `None` if the bytes are not JSON,
/// else the value if there is one.
pub uninterp spec fn json_flag(body: Seq<u8>, key: Seq<char>) -> Option<Option<bool>>;

/// `serde_json::from_slice` into a `Value`, then its index by a key and `as_bool`:
/// `None` if the bytes are not JSON, else the truth value under the key, which is
/// `None` if there is no such key or it holds something else. All of it depends on
/// the bytes and the key alone.
#[verifier::external_body]
fn read_flag(body: &[u8], key: &str) -> (r: Option<Option<bool>>)
    ensures
        r == json_flag(body@, key@),
{
    match serde_json::from_slice::<serde_json::Value>(body) {
        Ok(v) => Some(v[key].as_bool()),
        Err(_) => None,
    }
}

/// The text under a key of a JSON object, if there is one, and the JSON written
/// out again; `None` if the bytes are not JSON.
pub uninterp spec fn json_field(body: Seq<u8>, key: Seq<char>) -> Option<
    (Option<Seq<char>>, Seq<char>),
>;

/// `serde_json::from_slice` into a `Value`, then its index by a key and `as_str`,
/// and its `to_string`: `None` if the bytes are not JSON, else the text under the
/// key, which is `None` if there is no such key or it holds something else, and the
/// JSON written out again. All of it depends on the bytes and the key alone.
#[verifier::external_body]
fn read_field(body: &[u8], key: &str) -> (r: Option<(Option<String>, String)>)
    ensures
        match (r, json_field(body@, key@)) {
            (Some((Some(a), w)), Some((Some(b), whole))) => a@ == b && w@ == whole,
            (Some((None, w)), Some((None, whole))) => w@ == whole,
            (None, None) => true,
            _ => false,
        },
{
    match serde_json::from_slice::<serde_json::Value>(body) {
        Ok(v) => Some((v[key].as_str().map(str::to_owned), v.to_string())),
        Err(_) => None,
    }
}

/// The answer to a request that says whether a model takes images, given what was
/// read of it, or why nothing was: silence counts as no.
pub fn vision_answer(read: Result<Option<bool>, String>) -> (r: Result<bool, AdapterError>)
    ensures
        match read {
            Ok(Some(b)) => r is Ok && r->Ok_0 == b,
            Ok(None) => r is Ok && !r->Ok_0,
            Err(e) => r is Err && (r->Err_0 matches AdapterError::Transport(m) && m@
                == "bad json: "@ + e@),
        },
{
    match read {
        Ok(Some(b)) => Ok(b),
        Ok(None) => Ok(false),
        Err(e) => Err(AdapterError::Transport(crate::text::joined("bad json: ", e.as_str()))),
    }
}

/// Reads the answer to a vision probe or a load request.
pub fn read_vision(body: &[u8]) -> (r: Result<bool, AdapterError>)
    ensures
        match json_flag(body@, "is_vision"@) {
            Some(Some(b)) => r is Ok && r->Ok_0 == b,
            Some(None) => r is Ok && !r->Ok_0,
            None => r is Err && (r->Err_0 matches AdapterError::Transport(m) && m@
                == "bad json: "@ + undecoded()),
        },
{
    match read_flag(body, "is_vision") {
        Some(flag) => vision_answer(Ok(flag)),
        None => vision_answer(Err("error decoding response body".to_owned())),
    }
}

/// A model that a server offers.
#[derive(Clone, Debug)]
pub struct DiscoveredModel {
    /// Model id.
    pub id: String,
    /// Whether it is loaded.
    pub loaded: bool,
}

/// What a server says of one model: its id and whether it is loaded.
#[derive(Clone, Debug)]
pub struct ModelRow {
    /// The id, if it is a text.
    pub id: Option<String>,
    /// Whether it is loaded, if that is a truth value.
    pub loaded: Option<bool>,
}

/// The meaning of a row.
pub open spec fn row_model(r: ModelRow) -> (Option<Seq<char>>, Option<bool>) {
    (
        match r.id {
            Some(s) => Some(s@),
            None => None,
        },
        r.loaded,
    )
}

/// The meanings of rows.
pub open spec fn row_models(s: Seq<ModelRow>) -> Seq<(Option<Seq<char>>, Option<bool>)> {
    Seq::new(s.len(), |i: int| row_model(s[i]))
}

/// The text under one key and the truth value under another of each element of
/// the list that stands under a key of a JSON object, if there is such a list;
/// `None` if the bytes are not JSON.
pub uninterp spec fn json_models(
    body: Seq<u8>,
    list: Seq<char>,
    text: Seq<char>,
    flag: Seq<char>,
) -> Option<Option<Seq<(Option<Seq<char>>, Option<bool>)>>>;

/// `serde_json::from_slice` into a `Value`, then its index by the key of a list and
/// `as_array`, and for each element its index by one key with `as_str` and by
/// another with `as_bool`; `None` if the bytes are not JSON. All of it depends on
/// the bytes and the three keys alone.
#[verifier::external_body]
fn read_models(body: &[u8], list: &str, text: &str, flag: &str) -> (r: Option<
    Option<Vec<ModelRow>>,
>)
    ensures
        match (r, json_models(body@, list@, text@, flag@)) {
            (Some(Some(a)), Some(Some(b))) => row_models(a@) == b,
            (Some(None), Some(None)) => true,
            (None, None) => true,
            _ => false,
        },
{
    let row = |m: &serde_json::Value| ModelRow {
        id: m[text].as_str().map(str::to_owned),
        loaded: m[flag].as_bool(),
    };
    match serde_json::from_slice::<serde_json::Value>(body) {
        Ok(v) => Some(v[list].as_array().map(|a| a.iter().map(row).collect())),
        Err(_) => None,
    }
}

/// The models among the first `n` rows: those with an id that is not empty; one
/// that does not say whether it is loaded is not.
pub open spec fn discovered(
    rows: Seq<(Option<Seq<char>>, Option<bool>)>,
    n: nat,
) -> Seq<(Seq<char>, bool)>
    decreases n,
{
    if n == 0 {
        seq![]
    } else {
        let before = discovered(rows, (n - 1) as nat);
        let row = rows[n - 1];
        if row.0 is Some && row.0->0.len() > 0 {
            before.push(
                (
                    row.0->0,
                    match row.1 {
                        Some(b) => b,
                        None => false,
                    },
                ),
            )
        } else {
            before
        }
    }
}

/// The meanings of discovered models.
pub open spec fn found_models(s: Seq<DiscoveredModel>) -> Seq<(Seq<char>, bool)> {
    Seq::new(s.len(), |i: int| (s[i].id@, s[i].loaded))
}

/// The models in a server's list.
pub fn discover(rows: Vec<ModelRow>) -> (r: Vec<DiscoveredModel>)
    ensures
        found_models(r@) == discovered(row_models(rows@), rows@.len()),
{
    let mut out: Vec<DiscoveredModel> = Vec::new();
    let mut i: usize = 0;
    assert(found_models(out@) =~= seq![]);
    while i < rows.len()
        invariant
            i <= rows@.len(),
            found_models(out@) == discovered(row_models(rows@), i as nat),
        decreases rows@.len() - i,
    {
        let loaded = match rows[i].loaded {
            Some(b) => b,
            None => false,
        };
        if let Some(id) = &rows[i].id {
            if id.as_str().unicode_len() > 0 {
                let ghost was = found_models(out@);
                out.push(DiscoveredModel { id: id.clone(), loaded });
                assert(found_models(out@) =~= was.push((id@, loaded)));
            }
        }
        i = i + 1;
    }
    out
}

/// The models in a list, given what was read of it, or why nothing was: no list
/// means no models.
pub fn models_answer(read: Result<Option<Vec<ModelRow>>, String>) -> (r: Result<
    Vec<DiscoveredModel>,
    AdapterError,
>)
    ensures
        match read {
            Ok(Some(rows)) => r is Ok && found_models(r->Ok_0@) == discovered(
                row_models(rows@),
                rows@.len(),
            ),
            Ok(None) => r is Ok && r->Ok_0@.len() == 0,
            Err(e) => r is Err && (r->Err_0 matches AdapterError::Transport(m) && m@
                == "bad json: "@ + e@),
        },
{
    match read {
        Ok(Some(rows)) => Ok(discover(rows)),
        Ok(None) => Ok(Vec::new()),
        Err(e) => Err(AdapterError::Transport(crate::text::joined("bad json: ", e.as_str()))),
    }
}

/// Reads a list of models.
pub fn list_models(body: &[u8]) -> (r: Result<Vec<DiscoveredModel>, AdapterError>)
    ensures
        match json_models(body@, "data"@, "id"@, "loaded"@) {
            Some(Some(rows)) => r is Ok && found_models(r->Ok_0@) == discovered(rows, rows.len()),
            Some(None) => r is Ok && r->Ok_0@.len() == 0,
            None => r is Err && (r->Err_0 matches AdapterError::Transport(m) && m@
                == "bad json: "@ + undecoded()),
        },
{
    match read_models(body, "data", "id", "loaded") {
        Some(rows) => models_answer(Ok(rows)),
        None => models_answer(Err("error decoding response body".to_owned())),
    }
}

/// The reply of a chat: the content of the first choice, which must have one.
pub fn first_reply(choices: Vec<Option<String>>) -> (r: Result<String, AdapterError>)
    ensures
        if choices@.len() > 0 && choices@[0] is Some {
            r is Ok && r->Ok_0@ == choices@[0]->0@
        } else {
            r is Err && (r->Err_0 matches AdapterError::Transport(m) && m@
                == "empty assistant reply"@)
        },
{
    if choices.len() > 0 {
        if let Some(t) = &choices[0] {
            return Ok(t.clone());
        }
    }
    Err(AdapterError::Transport("empty assistant reply".to_owned()))
}

/// The picture in a frame that was fetched, given what was read of it.
pub fn picture_answer(read: Result<(Option<String>, String), String>) -> (r: Result<
    String,
    String,
>)
    ensures
        match read {
            Ok((Some(t), _)) => r is Ok && r->Ok_0@ == t@,
            Ok((None, whole)) => r is Err && r->Err_0@ == "no png_base64 in /frame: "@ + whole@,
            Err(e) => r is Err && r->Err_0@ == "bad /frame json: "@ + e@,
        },
{
    match read {
        Ok((Some(t), _)) => Ok(t),
        Ok((None, whole)) => Err(
            crate::text::joined("no png_base64 in /frame: ", whole.as_str()),
        ),
        Err(e) => Err(crate::text::joined("bad /frame json: ", e.as_str())),
    }
}

/// Reads the picture of a frame: the text under `png_base64`.
pub fn frame_picture(body: &[u8]) -> (r: Result<String, String>)
    ensures
        match json_field(body@, "png_base64"@) {
            Some((Some(t), _)) => r is Ok && r->Ok_0@ == t,
            Some((None, whole)) => r is Err && r->Err_0@ == "no png_base64 in /frame: "@ + whole,
            None => r is Err && r->Err_0@ == "bad /frame json: "@ + undecoded(),
        },
{
    match read_field(body, "png_base64") {
        Some(read) => picture_answer(Ok(read)),
        None => picture_answer(Err("error decoding response body".to_owned())),
    }
}

/// Encoding a string for a URL leaves letters, digits, `-`, `_`, `.`, `~` and
/// percent signs only, so that no slash splits the segment.
pub proof fn law_url_segment_is_safe(b: Seq<u8>, n: nat, i: int)
    requires
        n <= b.len(),
        0 <= i < url_bytes(b, n).len(),
    ensures
        url_bytes(b, n)[i] != '/',
        url_bytes(b, n)[i] == '%' || ((url_bytes(b, n)[i] as u32) < 128 && unreserved(
            url_bytes(b, n)[i] as u8,
        )),
    decreases n,
{
    if n > 0 {
        let head = url_bytes(b, (n - 1) as nat);
        if i < head.len() {
            law_url_segment_is_safe(b, (n - 1) as nat, i);
        } else {
            let x = b[n - 1];
            assert(url_bytes(b, n)[i] == url_byte(x)[i - head.len()]);
            if !unreserved(x) {
                assert(0 <= x as int / 16 < 16 && 0 <= x as int % 16 < 16);
            }
        }
    }
}

/// The value of an upper-case hexadecimal digit.
pub open spec fn hex_value(c: char) -> int {
    if '0' <= c <= '9' {
        c as int - '0' as int
    } else {
        c as int - 'A' as int + 10
    }
}

/// The bytes that a URL path segment stands for: a percent sign and the two digits
/// behind it are one byte, every other character is its own.
pub open spec fn url_decoded(s: Seq<char>) -> Seq<u8>
    decreases s.len(),
{
    if s.len() == 0 {
        seq![]
    } else if s[0] == '%' && s.len() >= 3 {
        seq![(16 * hex_value(s[1]) + hex_value(s[2])) as u8] + url_decoded(s.skip(3))
    } else {
        seq![s[0] as u8] + url_decoded(s.skip(1))
    }
}

/// How many of the first `n` bytes are escaped in a URL.
pub open spec fn escaped(b: Seq<u8>, n: nat) -> nat
    decreases n,
{
    if n == 0 {
        0
    } else {
        escaped(b, (n - 1) as nat) + if unreserved(b[n - 1]) {
            0nat
        } else {
            1nat
        }
    }
}

/// The URL form of a byte is read back as that byte, whatever stands behind it.
proof fn lemma_url_byte_decodes(x: u8, t: Seq<char>)
    ensures
        url_decoded(url_byte(x) + t) == seq![x] + url_decoded(t),
{
    let s = url_byte(x) + t;
    if unreserved(x) {
        assert(s.skip(1) =~= t);
    } else {
        let hi = x as int / 16;
        let lo = x as int % 16;
        assert(0 <= hi < 16 && 0 <= lo < 16 && 16 * hi + lo == x);
        assert(hex_value(crate::text::digit(hi)) == hi);
        assert(hex_value(crate::text::digit(lo)) == lo);
        assert(s.skip(3) =~= t);
    }
}

/// The URL form of some bytes is read back as those bytes, whatever stands behind
/// it.
proof fn lemma_url_bytes_decode(b: Seq<u8>, n: nat, t: Seq<char>)
    requires
        n <= b.len(),
    ensures
        url_decoded(url_bytes(b, n) + t) == b.take(n as int) + url_decoded(t),
    decreases n,
{
    if n == 0 {
        assert(url_bytes(b, n) + t =~= t);
        assert(b.take(0) + url_decoded(t) =~= url_decoded(t));
    } else {
        let x = b[n - 1];
        let head = url_bytes(b, (n - 1) as nat);
        assert(url_bytes(b, n) + t =~= head + (url_byte(x) + t));
        lemma_url_bytes_decode(b, (n - 1) as nat, url_byte(x) + t);
        lemma_url_byte_decodes(x, t);
        assert(b.take(n - 1) + (seq![x] + url_decoded(t)) =~= b.take(n as int) + url_decoded(t));
    }
}

/// Decoding an encoded segment gives back the bytes that were encoded.
pub proof fn law_url_decodes(b: Seq<u8>)
    ensures
        url_decoded(url_bytes(b, b.len())) == b,
{
    lemma_url_bytes_decode(b, b.len(), seq![]);
    assert(url_bytes(b, b.len()) + Seq::<char>::empty() =~= url_bytes(b, b.len()));
    assert(b.take(b.len() as int) + Seq::<u8>::empty() =~= b);
}

/// Different strings have different URL forms.
pub proof fn law_urlencode_is_injective(a: Seq<char>, c: Seq<char>)
    requires
        url_bytes(vstd::utf8::encode_utf8(a), vstd::utf8::encode_utf8(a).len()) == url_bytes(
            vstd::utf8::encode_utf8(c),
            vstd::utf8::encode_utf8(c).len(),
        ),
    ensures
        a == c,
{
    law_url_decodes(vstd::utf8::encode_utf8(a));
    law_url_decodes(vstd::utf8::encode_utf8(c));
    vstd::utf8::encode_utf8_decode_utf8(a);
    vstd::utf8::encode_utf8_decode_utf8(c);
}

/// Encoding adds two characters for each byte that is escaped.
pub proof fn law_url_length(b: Seq<u8>, n: nat)
    ensures
        url_bytes(b, n).len() == n + 2 * escaped(b, n),
    decreases n,
{
    if n > 0 {
        law_url_length(b, (n - 1) as nat);
    }
}

/// No byte is escaped exactly when each stands for itself.
proof fn lemma_nothing_escaped(b: Seq<u8>, n: nat)
    requires
        n <= b.len(),
    ensures
        escaped(b, n) == 0 <==> forall|i: int| 0 <= i < n ==> unreserved(#[trigger] b[i]),
        escaped(b, n) == 0 ==> url_bytes(b, n) == Seq::new(n, |i: int| b[i] as char),
    decreases n,
{
    if n == 0 {
        assert(url_bytes(b, n) =~= Seq::new(n, |i: int| b[i] as char));
    } else {
        lemma_nothing_escaped(b, (n - 1) as nat);
        if escaped(b, n) == 0 {
            assert(unreserved(b[n - 1]));
            assert(url_bytes(b, n) =~= Seq::new(n, |i: int| b[i] as char));
        }
    }
}

/// A string has at least one byte for each of its characters.
proof fn lemma_bytes_of_text(s: Seq<char>)
    ensures
        vstd::utf8::encode_utf8(s).len() >= s.len(),
    decreases s.len(),
{
    if s.len() > 0 {
        lemma_bytes_of_text(s.drop_first());
    }
}

/// Bytes below 128 are the characters they encode.
proof fn lemma_plain_bytes(b: Seq<u8>)
    requires
        forall|i: int| 0 <= i < b.len() ==> #[trigger] b[i] < 128,
        vstd::utf8::valid_utf8(b),
    ensures
        vstd::utf8::decode_utf8(b) == Seq::new(b.len(), |i: int| b[i] as char),
    decreases b.len(),
{
    if b.len() > 0 {
        let x = b[0];
        assert(x < 128);
        assert(x & 0x7f == x) by (bit_vector)
            requires
                x < 128,
        ;
        let rest = vstd::utf8::pop_first_scalar(b);
        assert(rest =~= b.skip(1));
        lemma_plain_bytes(rest);
    }
    assert(vstd::utf8::decode_utf8(b) =~= Seq::new(b.len(), |i: int| b[i] as char));
}

/// A string stays as it is in a URL exactly when none of its bytes is escaped.
pub proof fn law_url_leaves_plain_text(s: Seq<char>)
    ensures
        url_bytes(vstd::utf8::encode_utf8(s), vstd::utf8::encode_utf8(s).len()) == s <==> forall|
            i: int,
        |
            0 <= i < vstd::utf8::encode_utf8(s).len() ==> unreserved(
                #[trigger] vstd::utf8::encode_utf8(s)[i],
            ),
{
    let b = vstd::utf8::encode_utf8(s);
    law_url_length(b, b.len());
    lemma_nothing_escaped(b, b.len());
    lemma_bytes_of_text(s);
    if escaped(b, b.len()) == 0 {
        vstd::utf8::encode_utf8_valid_utf8(s);
        vstd::utf8::encode_utf8_decode_utf8(s);
        lemma_plain_bytes(b);
    }
}

/// Behind every percent sign of an encoded segment stand two upper-case
/// hexadecimal digits.
pub proof fn law_url_percent_and_digits(b: Seq<u8>, n: nat, i: int)
    requires
        n <= b.len(),
        0 <= i < url_bytes(b, n).len(),
        url_bytes(b, n)[i] == '%',
    ensures
        i + 2 < url_bytes(b, n).len(),
        '0' <= url_bytes(b, n)[i + 1] <= '9' || 'A' <= url_bytes(b, n)[i + 1] <= 'F',
        '0' <= url_bytes(b, n)[i + 2] <= '9' || 'A' <= url_bytes(b, n)[i + 2] <= 'F',
    decreases n,
{
    if n > 0 {
        let head = url_bytes(b, (n - 1) as nat);
        let x = b[n - 1];
        if i < head.len() {
            law_url_percent_and_digits(b, (n - 1) as nat, i);
        } else {
            assert(url_bytes(b, n)[i] == url_byte(x)[i - head.len()]);
            assert(0 <= x as int / 16 < 16 && 0 <= x as int % 16 < 16);
        }
    }
}

/// Trimming leaves no slash behind, and trimming again changes nothing.
pub proof fn law_trimming_slashes(endpoint: Seq<char>)
    ensures
        without_slashes(endpoint).len() > 0 ==> without_slashes(endpoint).last() != '/',
        without_slashes(without_slashes(endpoint)) == without_slashes(endpoint),
    decreases endpoint.len(),
{
    if endpoint.len() > 0 && endpoint.last() == '/' {
        law_trimming_slashes(endpoint.drop_last());
    }
}

/// Slashes behind a base URL do not count.
pub proof fn law_slashes_behind(root: Seq<char>, n: nat)
    ensures
        without_slashes(root + Seq::new(n, |i: int| '/')) == without_slashes(root),
        root.len() == 0 || root.last() != '/' ==> without_slashes(root) == root,
    decreases n,
{
    let s = root + Seq::new(n, |i: int| '/');
    if n == 0 {
        assert(s =~= root);
    } else {
        assert(s.last() == '/');
        assert(s.drop_last() =~= root + Seq::new((n - 1) as nat, |i: int| '/'));
        law_slashes_behind(root, (n - 1) as nat);
    }
}

/// What is left of a base URL is its beginning.
pub proof fn law_root_is_a_beginning(endpoint: Seq<char>)
    ensures
        without_slashes(endpoint).is_prefix_of(endpoint),
    decreases endpoint.len(),
{
    if endpoint.len() > 0 && endpoint.last() == '/' {
        law_root_is_a_beginning(endpoint.drop_last());
        let t = without_slashes(endpoint);
        assert(endpoint.subrange(0, t.len() as int) =~= endpoint.drop_last().subrange(
            0,
            t.len() as int,
        ));
    } else {
        assert(endpoint.subrange(0, endpoint.len() as int) =~= endpoint);
    }
}

/// The root of a server does not depend on slashes behind its base URL, nor on one
/// `/v1` behind it; nothing else is taken off.
pub proof fn law_server_root(root: Seq<char>, n: nat)
    ensures
        server_root(root + "/v1"@ + Seq::new(n, |i: int| '/')) == root,
        root.len() > 0 && root.last() != '/' && root.last() != '1' ==> server_root(
            root + Seq::new(n, |i: int| '/'),
        ) == root,
{
    reveal_strlit("/v1");
    let v = root + "/v1"@;
    assert(v.last() == '1');
    law_slashes_behind(v, n);
    assert(v.skip(v.len() - 3) =~= "/v1"@);
    assert(v.take(v.len() - 3) =~= root);
    law_slashes_behind(root, n);
    if root.len() >= 3 && root.skip(root.len() - 3) == "/v1"@ {
        assert(root.skip(root.len() - 3)[2] == root.last());
    }
}

/// What stands for itself in a URL are the letters, the digits and `-`, `_`, `.`
/// and `~`; anything else is a percent sign and two digits.
pub proof fn law_url_byte(b: u8)
    ensures
        url_byte(b).len() == 1 <==> ('A' <= b as char <= 'Z' || 'a' <= b as char <= 'z' || '0'
            <= b as char <= '9' || b as char == '-' || b as char == '_' || b as char == '.'
            || b as char == '~'),
        url_byte(b).len() == 1 ==> url_byte(b)[0] == b as char,
        url_byte(b).len() != 1 ==> url_byte(b).len() == 3 && url_byte(b)[0] == '%',
{
}

/// The URL form of bytes is that of each of them, in order.
pub proof fn law_url_in_order(a: Seq<u8>, b: Seq<u8>, n: nat)
    requires
        n <= b.len(),
    ensures
        url_bytes(a, 0) == Seq::<char>::empty(),
        url_bytes(a + b, a.len() + n) == url_bytes(a, a.len()) + url_bytes(b, n),
    decreases n,
{
    if n == 0 {
        lemma_url_prefix(a, a + b, a.len());
        assert(url_bytes(a, a.len()) + url_bytes(b, 0) =~= url_bytes(a, a.len()));
    } else {
        law_url_in_order(a, b, (n - 1) as nat);
        assert((a + b)[a.len() + n - 1] == b[n - 1]);
        assert(url_bytes(a + b, a.len() + n) =~= url_bytes(a, a.len()) + url_bytes(b, n));
    }
}

proof fn lemma_url_prefix(a: Seq<u8>, b: Seq<u8>, n: nat)
    requires
        forall|i: int| 0 <= i < n ==> a[i] == b[i],
    ensures
        url_bytes(a, n) == url_bytes(b, n),
    decreases n,
{
    if n > 0 {
        lemma_url_prefix(a, b, (n - 1) as nat);
    }
}

/// What is kept of a server's words is their beginning, of at most 200 characters.
pub proof fn law_shortened(s: Seq<char>)
    ensures
        shortened(s).is_prefix_of(s),
        s.len() <= 200 ==> shortened(s) == s,
        s.len() > 200 ==> shortened(s).len() == 200,
{
    assert(s.len() <= 200 ==> s.subrange(0, s.len() as int) =~= s);
}

/// A listed model is a row with an id that is not empty, as loaded as the row says,
/// and not loaded where it does not say; rows without an id are passed over.
pub proof fn law_discovered_row(id: Seq<char>, loaded: bool, any: Option<bool>)
    ensures
        id.len() > 0 ==> discovered(seq![(Some(id), Some(loaded))], 1) == seq![(id, loaded)],
        id.len() > 0 ==> discovered(seq![(Some(id), None)], 1) == seq![(id, false)],
        id.len() == 0 ==> discovered(seq![(Some(id), any)], 1).len() == 0,
        discovered(seq![(None, any)], 1).len() == 0,
{
    reveal_with_fuel(discovered, 2);
    assert(discovered(seq![(Some(id), Some(loaded))], 0) == Seq::<(Seq<char>, bool)>::empty());
    assert(id.len() > 0 ==> discovered(seq![(Some(id), Some(loaded))], 1) =~= seq![(id, loaded)]);
    assert(id.len() > 0 ==> discovered(seq![(Some(id), None)], 1) =~= seq![(id, false)]);
}

/// The models of a list are those of each of its rows, in order.
pub proof fn law_discovered_in_order(
    a: Seq<(Option<Seq<char>>, Option<bool>)>,
    b: Seq<(Option<Seq<char>>, Option<bool>)>,
    n: nat,
)
    requires
        n <= b.len(),
    ensures
        discovered(a, 0).len() == 0,
        discovered(a + b, a.len() + n) == discovered(a, a.len()) + discovered(b, n),
    decreases n,
{
    if n == 0 {
        lemma_discovered_prefix(a, a + b, a.len());
        assert(discovered(a, a.len()) + discovered(b, 0) =~= discovered(a, a.len()));
    } else {
        law_discovered_in_order(a, b, (n - 1) as nat);
        assert((a + b)[a.len() + n - 1] == b[n - 1]);
        assert(discovered(a + b, a.len() + n) =~= discovered(a, a.len()) + discovered(b, n));
    }
}

proof fn lemma_discovered_prefix(
    a: Seq<(Option<Seq<char>>, Option<bool>)>,
    b: Seq<(Option<Seq<char>>, Option<bool>)>,
    n: nat,
)
    requires
        forall|i: int| 0 <= i < n ==> a[i] == b[i],
    ensures
        discovered(a, n) == discovered(b, n),
    decreases n,
{
    if n > 0 {
        lemma_discovered_prefix(a, b, (n - 1) as nat);
    }
}

/// Rows and models are taken for what they hold.
pub proof fn law_rows_and_models(rows: Seq<ModelRow>, found: Seq<DiscoveredModel>, i: int)
    ensures
        row_models(rows).len() == rows.len(),
        0 <= i < rows.len() && rows[i].id is Some ==> row_models(rows)[i] == (
            Some(rows[i].id->0@),
            rows[i].loaded,
        ),
        0 <= i < rows.len() && rows[i].id is None ==> row_models(rows)[i].0 is None,
        found_models(found).len() == found.len(),
        0 <= i < found.len() ==> found_models(found)[i] == (found[i].id@, found[i].loaded),
        undecoded() == "error decoding response body"@,
{
}

/// A client is named by its kind.
pub proof fn law_adapter_names(a: DeepSeekAdapter, b: LlamaCppAdapter)
    ensures
        a.name_text() == "deepseek"@,
        b.name_text() == "llama.cpp"@,
        Adapter::DeepSeek(a).name_text() == "deepseek"@,
        Adapter::LlamaCpp(b).name_text() == "llama.cpp"@,
        Adapter::DeepSeek(a).config_model() == a.config_model(),
        Adapter::LlamaCpp(b).config_model() == b.config_model(),
{
}

} // verus!
