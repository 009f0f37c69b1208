//! Which model to talk to: configurations, where they come from, and the model
//! catalog.

use vstd::prelude::*;

verus! {

/// How to reach a model.
#[derive(Clone, Debug)]
pub enum ProviderConfig {
    /// A hosted API with a key.
    ApiKey {
        /// Base URL.
        endpoint: String,
        /// Name of the environment variable with the key.
        key_env: String,
    },
    /// A local server.
    Local {
        /// Base URL.
        endpoint: String,
        /// Name of the environment variable with the key, if the server wants one.
        key_env: Option<String>,
    },
}

impl ProviderConfig {
    /// The base URL.
    pub open spec fn endpoint_text(&self) -> Seq<char> {
        match *self {
            ProviderConfig::ApiKey { endpoint, .. } => endpoint@,
            ProviderConfig::Local { endpoint, .. } => endpoint@,
        }
    }

    /// The name of the environment variable with the key.
    pub open spec fn key_env_text(&self) -> Option<Seq<char>> {
        match *self {
            ProviderConfig::ApiKey { key_env, .. } => Some(key_env@),
            ProviderConfig::Local { key_env, .. } => match key_env {
                Some(k) => Some(k@),
                None => None,
            },
        }
    }

    /// The base URL.
    pub fn endpoint(&self) -> (r: &str)
        ensures
            r@ == self.endpoint_text(),
    {
        match self {
            ProviderConfig::ApiKey { endpoint, .. } => endpoint.as_str(),
            ProviderConfig::Local { endpoint, .. } => endpoint.as_str(),
        }
    }

    /// The name of the environment variable with the key, if a key is wanted.
    pub fn key_env(&self) -> (r: Option<&str>)
        ensures
            match (r, self.key_env_text()) {
                (Some(a), Some(b)) => a@ == b,
                (None, None) => true,
                _ => false,
            },
    {
        match self {
            ProviderConfig::ApiKey { key_env, .. } => Some(key_env.as_str()),
            ProviderConfig::Local { key_env, .. } => match key_env {
                Some(k) => Some(k.as_str()),
                None => None,
            },
        }
    }

    /// A copy.
    pub fn duplicate(&self) -> (r: ProviderConfig)
        ensures
            r == *self,
    {
        match self {
            ProviderConfig::ApiKey { endpoint, key_env } => ProviderConfig::ApiKey {
                endpoint: endpoint.clone(),
                key_env: key_env.clone(),
            },
            ProviderConfig::Local { endpoint, key_env } => ProviderConfig::Local {
                endpoint: endpoint.clone(),
                key_env: match key_env {
                    Some(k) => Some(k.clone()),
                    None => None,
                },
            },
        }
    }
}

/// A provider and a model.
#[derive(Clone, Debug)]
pub struct ModelConfig {
    /// How to reach it.
    pub provider: ProviderConfig,
    /// Its name.
    pub model: String,
}

impl ModelConfig {
    /// One line: the model and the base URL.
    pub fn describe(&self) -> (r: String)
        ensures
            r@ == self.model@ + " @ "@ + self.provider.endpoint_text(),
    {
        let mut s = crate::text::joined(self.model.as_str(), " @ ");
        s.append(self.provider.endpoint());
        s
    }

    /// A copy.
    pub fn duplicate(&self) -> (r: ModelConfig)
        ensures
            r == *self,
    {
        ModelConfig { provider: self.provider.duplicate(), model: self.model.clone() }
    }
}

/// What can go wrong between here and a model.
#[derive(Clone, Debug)]
pub enum AdapterError {
    /// The configuration is wrong.
    Config(String),
    /// The request did not get through.
    Transport(String),
    /// The server refused.
    Status {
        /// HTTP status.
        code: u16,
        /// What the server said.
        detail: String,
    },
}

/// The text of an [`AdapterError`].
pub open spec fn adapter_error_text(e: AdapterError) -> Seq<char> {
    match e {
        AdapterError::Config(m) => "config: "@ + m@,
        AdapterError::Transport(m) => "transport: "@ + m@,
        AdapterError::Status { code, detail } => "http "@ + crate::text::decimal(code as nat)
            + ": "@ + detail@,
    }
}

impl AdapterError {
    /// The text shown to people.
    pub fn to_text(&self) -> (r: String)
        ensures
            r@ == adapter_error_text(*self),
    {
        match self {
            AdapterError::Config(m) => crate::text::joined("config: ", m.as_str()),
            AdapterError::Transport(m) => crate::text::joined("transport: ", m.as_str()),
            AdapterError::Status { code, detail } => {
                let d = crate::text::decimal_text(*code as u64);
                let mut s = crate::text::joined("http ", d.as_str());
                s.append(": ");
                s.append(detail.as_str());
                s
            },
        }
    }
}

/// Where a configuration came from.
#[derive(Clone, Debug)]
pub enum ConfigSource {
    /// A file named on the command line.
    Flag(String),
    /// A file named by the environment.
    Env,
    /// The file at the usual place.
    Default,
}

impl ConfigSource {
    /// The text shown to people.
    pub fn to_text(&self) -> (r: String)
        ensures
            r@ == match *self {
                ConfigSource::Flag(p) => "--config "@ + p@,
                ConfigSource::Env => "$OPENENGINE_AI_CONFIG"@,
                ConfigSource::Default => "./config/ai.json"@,
            },
    {
        match self {
            ConfigSource::Flag(p) => crate::text::joined("--config ", p.as_str()),
            ConfigSource::Env => "$OPENENGINE_AI_CONFIG".to_owned(),
            ConfigSource::Default => "./config/ai.json".to_owned(),
        }
    }
}

/// Chooses the configuration file: the one named on the command line, else the
/// one named by the environment (if that is not empty), else the usual one (if it
/// exists). Gives its path and where that came from, or an error that names all
/// three.
pub fn resolve_config(
    flag_path: Option<String>,
    env_path: Option<String>,
    default_exists: bool,
) -> (r: Result<(String, ConfigSource), AdapterError>)
    ensures
        match flag_path {
            Some(p) => r is Ok && r->Ok_0.0@ == p@ && (r->Ok_0.1 matches ConfigSource::Flag(q) && q@
                == p@),
            None => if env_path is Some && env_path->0@.len() > 0 {
                r is Ok && r->Ok_0.0@ == env_path->0@ && r->Ok_0.1 == ConfigSource::Env
            } else if default_exists {
                r is Ok && r->Ok_0.0@ == "./config/ai.json"@ && r->Ok_0.1
                    == ConfigSource::Default
            } else {
                r is Err && (r->Err_0 matches AdapterError::Config(m) && m@
                    == "no AI config found. Provide --config <path>, set OPENENGINE_AI_CONFIG, or create ./config/ai.json (see config/ai.example.json)."@)
            },
        },
{
    if let Some(p) = flag_path {
        let named: String = p.clone();
        return Ok((p, ConfigSource::Flag(named)));
    }
    if let Some(p) = env_path {
        if p.as_str().unicode_len() > 0 {
            return Ok((p, ConfigSource::Env));
        }
    }
    if default_exists {
        return Ok(("./config/ai.json".to_owned(), ConfigSource::Default));
    }
    Err(
        AdapterError::Config(
            "no AI config found. Provide --config <path>, set OPENENGINE_AI_CONFIG, or create ./config/ai.json (see config/ai.example.json).".to_owned(),
        ),
    )
}

/// What is known of a model.
#[derive(Clone, Debug)]
pub struct ModelInfo {
    /// Kind of provider.
    pub provider_kind: String,
    /// Model id.
    pub id: String,
    /// Name for people.
    pub display_name: String,
    /// Whether it takes images.
    pub vision: bool,
    /// Context window in tokens.
    pub context_window: u32,
}

/// What a [`ModelInfo`] means.
#[verifier::ext_equal]
pub struct InfoModel {
    /// Kind of provider.
    pub provider_kind: Seq<char>,
    /// Model id.
    pub id: Seq<char>,
    /// Name for people.
    pub display_name: Seq<char>,
    /// Whether it takes images.
    pub vision: bool,
    /// Context window in tokens.
    pub context_window: u32,
}

impl View for ModelInfo {
    type V = InfoModel;

    open spec fn view(&self) -> InfoModel {
        InfoModel {
            provider_kind: self.provider_kind@,
            id: self.id@,
            display_name: self.display_name@,
            vision: self.vision,
            context_window: self.context_window,
        }
    }
}

/// The built-in catalog.
pub open spec fn catalog_models() -> Seq<InfoModel> {
    seq![
        InfoModel {
            provider_kind: "deepseek"@,
            id: "deepseek-chat"@,
            display_name: "DeepSeek Chat"@,
            vision: false,
            context_window: 64000,
        },
        InfoModel {
            provider_kind: "deepseek"@,
            id: "deepseek-reasoner"@,
            display_name: "DeepSeek Reasoner"@,
            vision: false,
            context_window: 64000,
        },
        InfoModel {
            provider_kind: "openai-compat"@,
            id: "gpt-4o-vision"@,
            display_name: "OpenAI-compatible vision (generic)"@,
            vision: true,
            context_window: 128000,
        },
        InfoModel {
            provider_kind: "llama.cpp"@,
            id: "local-llama"@,
            display_name: "Local llama.cpp/unsloth endpoint"@,
            vision: false,
            context_window: 8192,
        },
    ]
}

/// The meanings of catalog rows.
pub open spec fn infos(s: Seq<ModelInfo>) -> Seq<InfoModel> {
    Seq::new(s.len(), |i: int| s[i]@)
}

fn info(kind: &str, id: &str, name: &str, vision: bool, context_window: u32) -> (r: ModelInfo)
    ensures
        r@ == (InfoModel {
            provider_kind: kind@,
            id: id@,
            display_name: name@,
            vision,
            context_window,
        }),
{
    ModelInfo {
        provider_kind: kind.to_owned(),
        id: id.to_owned(),
        display_name: name.to_owned(),
        vision,
        context_window,
    }
}

/// The built-in catalog.
pub fn catalog() -> (r: Vec<ModelInfo>)
    ensures
        infos(r@) == catalog_models(),
{
    let r: Vec<ModelInfo> = vec![
        info("deepseek", "deepseek-chat", "DeepSeek Chat", false, 64000),
        info("deepseek", "deepseek-reasoner", "DeepSeek Reasoner", false, 64000),
        info(
            "openai-compat",
            "gpt-4o-vision",
            "OpenAI-compatible vision (generic)",
            true,
            128000,
        ),
        info("llama.cpp", "local-llama", "Local llama.cpp/unsloth endpoint", false, 8192),
    ];
    assert(infos(r@) =~= catalog_models());
    r
}

/// The first of some rows with a kind and an id.
pub open spec fn find_info(ms: Seq<InfoModel>, kind: Seq<char>, id: Seq<char>) -> Option<InfoModel>
    decreases ms.len(),
{
    if ms.len() == 0 {
        None
    } else if ms[0].provider_kind == kind && ms[0].id == id {
        Some(ms[0])
    } else {
        find_info(ms.skip(1), kind, id)
    }
}

/// Looks up a catalog row by kind and id.
pub fn find_catalog(provider_kind: &str, id: &str) -> (r: Option<ModelInfo>)
    ensures
        match (r, find_info(catalog_models(), provider_kind@, id@)) {
            (Some(a), Some(b)) => a@ == b,
            (None, None) => true,
            _ => false,
        },
{
    let mut rows: Vec<ModelInfo> = catalog();
    assert(infos(rows@) =~= catalog_models());
    while rows.len() > 0
        invariant
            find_info(catalog_models(), provider_kind@, id@) == find_info(
                infos(rows@),
                provider_kind@,
                id@,
            ),
        decreases rows@.len(),
    {
        let ghost all = infos(rows@);
        let row: ModelInfo = rows.remove(0);
        assert(all[0] == row@);
        assert(all.skip(1) =~= infos(rows@));
        if crate::text::same(row.provider_kind.as_str(), provider_kind) && crate::text::same(
            row.id.as_str(),
            id,
        ) {
            return Some(row);
        }
    }
    None
}

/// Whether a configured model takes images: only a hosted model that the catalog
/// lists as such does.
pub open spec fn takes_images(c: ModelConfig) -> bool {
    match c.provider {
        ProviderConfig::ApiKey { .. } => match find_info(
            catalog_models(),
            "openai-compat"@,
            c.model@,
        ) {
            Some(m) => m.vision,
            None => false,
        },
        ProviderConfig::Local { .. } => false,
    }
}

/// Whether a configured model takes images.
pub fn vision_supported(cfg: &ModelConfig) -> (r: bool)
    ensures
        r == takes_images(*cfg),
{
    match &cfg.provider {
        ProviderConfig::ApiKey { .. } => match find_catalog("openai-compat", cfg.model.as_str()) {
            Some(m) => m.vision,
            None => false,
        },
        ProviderConfig::Local { .. } => false,
    }
}

/// A local model never takes images, and a hosted one only if it is the listed
/// vision model.
pub proof fn law_only_listed_models_see(c: ModelConfig)
    ensures
        takes_images(c) <==> c.provider is ApiKey && c.model@ == "gpt-4o-vision"@,
{
    let ms = catalog_models();
    reveal_with_fuel(find_info, 5);
    reveal_strlit("deepseek");
    reveal_strlit("openai-compat");
    reveal_strlit("llama.cpp");
    assert("deepseek"@.len() == 8 && "openai-compat"@.len() == 13 && "llama.cpp"@.len() == 9);
    assert(ms.skip(1)[0] == ms[1]);
    assert(ms.skip(1).skip(1)[0] == ms[2]);
    assert(ms.skip(1).skip(1).skip(1)[0] == ms[3]);
}

/// A looked-up row is the first with the kind and the id, and there is none exactly
/// when no row has both.
pub proof fn law_find_first(ms: Seq<InfoModel>, kind: Seq<char>, id: Seq<char>)
    ensures
        match find_info(ms, kind, id) {
            Some(m) => m.provider_kind == kind && m.id == id && exists|i: int|
                0 <= i < ms.len() && #[trigger] ms[i] == m && forall|j: int|
                    0 <= j < i ==> (#[trigger] ms[j]).provider_kind != kind || ms[j].id != id,
            None => forall|j: int|
                0 <= j < ms.len() ==> (#[trigger] ms[j]).provider_kind != kind || ms[j].id != id,
        },
    decreases ms.len(),
{
    if ms.len() > 0 {
        if ms[0].provider_kind == kind && ms[0].id == id {
            assert(ms[0] == find_info(ms, kind, id)->0);
        } else {
            let rest = ms.skip(1);
            law_find_first(rest, kind, id);
            match find_info(rest, kind, id) {
                Some(m) => {
                    let i = choose|i: int|
                        0 <= i < rest.len() && #[trigger] rest[i] == m && forall|j: int|
                            0 <= j < i ==> (#[trigger] rest[j]).provider_kind != kind || rest[j].id
                                != id;
                    assert(ms[i + 1] == m);
                    assert forall|j: int| 0 <= j < i + 1 implies (
                    #[trigger] ms[j]).provider_kind != kind || ms[j].id != id by {
                        if j > 0 {
                            assert(rest[j - 1] == ms[j]);
                        }
                    }
                },
                None => {
                    assert forall|j: int| 0 <= j < ms.len() implies (
                    #[trigger] ms[j]).provider_kind != kind || ms[j].id != id by {
                        if j > 0 {
                            assert(rest[j - 1] == ms[j]);
                        }
                    }
                },
            }
        }
    }
}

/// The catalog lists four models, of which one takes images.
pub proof fn law_catalog(i: int)
    requires
        0 <= i < catalog_models().len(),
    ensures
        catalog_models().len() == 4,
        catalog_models()[i].vision <==> catalog_models()[i].id == "gpt-4o-vision"@,
        i == 0 ==> catalog_models()[i].provider_kind == "deepseek"@ && catalog_models()[i].id
            == "deepseek-chat"@ && catalog_models()[i].display_name == "DeepSeek Chat"@
            && catalog_models()[i].context_window == 64000,
        i == 1 ==> catalog_models()[i].provider_kind == "deepseek"@ && catalog_models()[i].id
            == "deepseek-reasoner"@ && catalog_models()[i].display_name == "DeepSeek Reasoner"@
            && catalog_models()[i].context_window == 64000,
        i == 2 ==> catalog_models()[i].provider_kind == "openai-compat"@ && catalog_models()[i].id
            == "gpt-4o-vision"@ && catalog_models()[i].display_name
            == "OpenAI-compatible vision (generic)"@ && catalog_models()[i].context_window
            == 128000,
        i == 3 ==> catalog_models()[i].provider_kind == "llama.cpp"@ && catalog_models()[i].id
            == "local-llama"@ && catalog_models()[i].display_name
            == "Local llama.cpp/unsloth endpoint"@ && catalog_models()[i].context_window == 8192,
{
    reveal_strlit("deepseek-chat");
    reveal_strlit("deepseek-reasoner");
    reveal_strlit("gpt-4o-vision");
    reveal_strlit("local-llama");
    assert("gpt-4o-vision"@[0] == 'g');
    assert("deepseek-chat"@[0] == 'd');
    assert("deepseek-reasoner"@[0] == 'd');
    assert("local-llama"@[0] == 'l');
}

/// A hosted model is reached at its base URL with its key, a local one with a key
/// only where one is named.
pub proof fn law_provider_parts(endpoint: String, key: String)
    ensures
        (ProviderConfig::ApiKey { endpoint, key_env: key }).endpoint_text() == endpoint@,
        (ProviderConfig::ApiKey { endpoint, key_env: key }).key_env_text() == Some(key@),
        (ProviderConfig::Local { endpoint, key_env: Some(key) }).endpoint_text() == endpoint@,
        (ProviderConfig::Local { endpoint, key_env: Some(key) }).key_env_text() == Some(key@),
        (ProviderConfig::Local { endpoint, key_env: None }).endpoint_text() == endpoint@,
        (ProviderConfig::Local { endpoint, key_env: None }).key_env_text() is None,
{
}

/// What is said of an error: what kind it is, and what there is to say of it.
pub proof fn law_adapter_error_text(m: String, code: u16)
    ensures
        adapter_error_text(AdapterError::Config(m)) == "config: "@ + m@,
        adapter_error_text(AdapterError::Transport(m)) == "transport: "@ + m@,
        adapter_error_text((AdapterError::Status { code, detail: m })) == "http "@
            + crate::text::decimal(code as nat) + ": "@ + m@,
{
}

/// A catalog row is taken for what it holds, each part under its own name.
pub proof fn law_info_parts(ms: Seq<ModelInfo>, i: int)
    requires
        0 <= i < ms.len(),
    ensures
        infos(ms).len() == ms.len(),
        infos(ms)[i].provider_kind == ms[i].provider_kind@,
        infos(ms)[i].id == ms[i].id@,
        infos(ms)[i].display_name == ms[i].display_name@,
        infos(ms)[i].vision == ms[i].vision,
        infos(ms)[i].context_window == ms[i].context_window,
{
}

} // verus!
