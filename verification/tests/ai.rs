use openengine::ai::config::{
    catalog, find_catalog, resolve_config, vision_supported, AdapterError, ConfigSource,
    ModelConfig, ProviderConfig,
};
use openengine::ai::content::{chat_request, image_content, ChatTurn, TextImageContent};
use openengine::ai::env::{load_plan, parse_env, workspace_root};
use openengine::ai::operator::{
    observe_context, position_text, validate, EntitySummary, ProposeBatch, ProposeError,
    ProposeOp, Scalar,
};
use openengine::ai::providers::{
    bearer, chat_url, check_vision_url, discover, first_reply, frame_picture, from_config,
    list_models, load_model_request, load_model_url, management_root, models_answer,
    models_url,
    picture_answer, read_vision, refused, urlencode, vision_answer, vision_refused, ModelAdapter,
    ModelRow,
};
use openengine::fx::Fx16;

fn scalar(v: f32) -> Scalar {
    Scalar {
        fixed: Fx16::from_bits(fixed::types::I16F16::from_num(v).to_bits()),
        channel: v.clamp(0.0, 255.0) as u8,
        text: format!("{v:?}"),
    }
}

fn api_config() -> ModelConfig {
    ModelConfig {
        provider: ProviderConfig::ApiKey {
            endpoint: "https://api.deepseek.com/v1".into(),
            key_env: "OPENENGINE_TEST_KEY".into(),
        },
        model: "deepseek-chat".into(),
    }
}

fn local_config() -> ModelConfig {
    ModelConfig {
        provider: ProviderConfig::Local {
            endpoint: "http://127.0.0.1:8080/v1".into(),
            key_env: None,
        },
        model: "llama-3".into(),
    }
}

fn local_cfg(model: &str) -> ModelConfig {
    ModelConfig {
        provider: ProviderConfig::Local {
            endpoint: "http://127.0.0.1:8889/v1".into(),
            key_env: None,
        },
        model: model.into(),
    }
}

#[test]
fn from_config_api_key_returns_deepseek_and_requires_the_key_env() {
    // With the key set, the adapter's fail-fast check passes.
    let a = from_config(&api_config(), true).ok().expect("deepseek adapter");
    // It reports the provider config we gave it (an ApiKey backend).
    assert!(matches!(a.config().provider, ProviderConfig::ApiKey { .. }));
    // It is a DeepSeek client (hosted API), not the local one.
    assert_eq!(a.name(), "deepseek");

    // Without the key it must now fail-fast with a config error.
    match from_config(&api_config(), false) {
        Err(AdapterError::Config(msg)) => assert!(msg.contains("OPENENGINE_TEST_KEY")),
        _ => panic!("expected a config error when the key env is unset"),
    }
}

#[test]
fn from_config_local_returns_llama_cpp() {
    let a = from_config(&local_config(), false).ok().expect("llama.cpp adapter");
    assert!(matches!(a.config().provider, ProviderConfig::Local { .. }));
    assert_eq!(a.name(), "llama.cpp");
}

fn config_for(var: &str) -> ModelConfig {
    ModelConfig {
        provider: ProviderConfig::ApiKey {
            endpoint: "https://api.deepseek.com/v1".into(),
            key_env: var.to_string(),
        },
        model: "deepseek-chat".into(),
    }
}

#[test]
fn from_config_uses_env_set_from_env_file() {
    let file = parse_env("OE_DOTENV_TEST_1=sk-dummy\n");
    assert_eq!(file.entries[0].0, "OE_DOTENV_TEST_1");
    let set = load_plan(&file.entries, &vec![false]) == vec![0];
    let adapter = from_config(&config_for(&file.entries[0].0), set)
        .ok()
        .expect("adapter builds when key env is set");
    assert_eq!(adapter.name(), "deepseek");
}

#[test]
fn from_config_missing_key_is_typed_config_error() {
    match from_config(&config_for("OE_DOTENV_TEST_2"), false) {
        Err(AdapterError::Config(msg)) => assert!(msg.contains("OE_DOTENV_TEST_2")),
        _ => panic!("expected Config error for missing key env"),
    }
}

#[test]
fn resolve_uses_flag_then_env_then_default() {
    // No flag/env/default -> typed Config error with help.
    let err = resolve_config(None, None, false).unwrap_err();
    match err {
        AdapterError::Config(msg) => {
            assert!(msg.contains("--config") && msg.contains("OPENENGINE_AI_CONFIG"))
        }
        other => panic!("expected Config error, got {other:?}"),
    }
    // A flag wins over everything.
    let (path, src) =
        resolve_config(Some("ai_cfg_test.json".into()), Some("e.json".into()), true).unwrap();
    assert_eq!(path, "ai_cfg_test.json");
    assert!(matches!(src, ConfigSource::Flag(p) if p == "ai_cfg_test.json"));
    // Then the environment, unless it is empty.
    let (path, src) = resolve_config(None, Some("e.json".into()), true).unwrap();
    assert_eq!(path, "e.json");
    assert_eq!(src.to_text(), "$OPENENGINE_AI_CONFIG");
    let (path, src) = resolve_config(None, Some("".into()), true).unwrap();
    assert_eq!(path, "./config/ai.json");
    assert_eq!(src.to_text(), "./config/ai.json");
}

#[test]
fn catalog_and_vision_heuristic() {
    // DeepSeek chat: not vision.
    let ds = ModelConfig {
        provider: ProviderConfig::ApiKey {
            endpoint: "https://api.deepseek.com/v1".into(),
            key_env: "DEEPSEEK_API_KEY".into(),
        },
        model: "deepseek-chat".into(),
    };
    assert!(!vision_supported(&ds));
    // Local llama: heuristic non-vision (VLM would need mmproj/config flag).
    assert!(!vision_supported(&local_cfg("any")));
    // Catalog lists a vision-capable openai-compat model.
    assert!(catalog().iter().any(|m| m.id == "gpt-4o-vision" && m.vision));
    assert!(find_catalog("deepseek", "deepseek-chat").is_some());
    assert!(find_catalog("deepseek", "gpt-4o-vision").is_none());
}

#[test]
fn configurations_describe_themselves() {
    assert_eq!(api_config().describe(), "deepseek-chat @ https://api.deepseek.com/v1");
    assert_eq!(AdapterError::Config("x".into()).to_text(), "config: x");
    assert_eq!(AdapterError::Transport("x".into()).to_text(), "transport: x");
    assert_eq!(
        AdapterError::Status { code: 404, detail: "gone".into() }.to_text(),
        "http 404: gone"
    );
    assert_eq!(ConfigSource::Flag("p".into()).to_text(), "--config p");
}

fn value(json: &str) -> serde_json::Value {
    serde_json::from_str(json).unwrap()
}

#[test]
fn text_only_turn_serializes_as_plain_content_string() {
    let t = ChatTurn::text("user", "hello");
    assert_eq!(value(&t.content()), serde_json::Value::String("hello".to_string()));
    // Legacy shape: content is a bare string.
    let full = value(&t.json());
    assert_eq!(full["content"], "hello");
    assert_eq!(full["role"], "user");
}

#[test]
fn multimodal_turn_serializes_openai_vision_array() {
    let t = ChatTurn::with_image(
        "user",
        TextImageContent {
            text: "describe".into(),
            mime: "image/png".into(),
            base64: "aGVsbG8=".into(),
        },
    );
    assert!(t.has_image());
    let v = value(&t.content());
    let arr = v.as_array().expect("vision content is an array");
    assert_eq!(arr.len(), 2);
    assert_eq!(arr[0], value(r#"{"type":"text","text":"describe"}"#));
    assert_eq!(
        arr[1],
        value(r#"{"type":"image_url","image_url":{"url":"data:image/png;base64,aGVsbG8="}}"#)
    );
    // End-to-end message JSON embeds that array under `content`.
    let msg = value(&t.json());
    let expected = value(
        r#"[
            {"type":"text","text":"describe"},
            {"type":"image_url","image_url":{"url":"data:image/png;base64,aGVsbG8="}}
        ]"#,
    );
    assert_eq!(msg["content"], expected);
    assert_eq!(msg["role"], "user");
    assert_eq!(t.content(), expected.to_string());
}

#[test]
fn requests_escape_their_texts() {
    let odd = "a\"b\\c\n\t\r\u{8}\u{c}\u{1}\u{7f}\u{e9}";
    let turns = vec![ChatTurn::text("system", odd), ChatTurn::text("user", "hi")];
    let v = value(&chat_request("m\"1", &turns));
    assert_eq!(v["model"], "m\"1");
    assert_eq!(v["messages"][0]["content"], odd);
    assert_eq!(v["messages"][1]["role"], "user");
    assert_eq!(turns[0].json(), serde_json_text(odd));
    assert_eq!(ChatTurn::text("user", "hi").content_text().as_deref(), Some("hi"));
    assert!(!turns[0].has_image());
}

fn serde_json_text(content: &str) -> String {
    format!(
        "{{\"role\":\"system\",\"content\":{}}}",
        serde_json::to_string(content).unwrap()
    )
}

#[test]
fn images_are_sent_in_base64() {
    let cases: [(&[u8], &str); 5] = [
        (b"", ""),
        (b"h", "aA=="),
        (b"he", "aGU="),
        (b"hel", "aGVs"),
        (b"hello", "aGVsbG8="),
    ];
    for (bytes, text) in cases {
        assert_eq!(image_content("t".to_string(), "a.png", bytes).base64, text);
    }
    assert_eq!(image_content("t".to_string(), "a.png", b"").mime, "image/png");
    assert_eq!(image_content("t".to_string(), "a.jpg", &[255, 254]).mime, "image/jpeg");
    assert_eq!(image_content("t".to_string(), "a.jpg", &[255, 254]).base64, "//4=");
}

#[test]
fn parses_key_value_and_comments() {
    let (a, b) = ("OE_A", "OE_B");
    let f = parse_env(&format!("# a comment\n\n{a}=hello\n{b}=\"quoted val\"\n"));
    let plan = load_plan(&f.entries, &vec![false, false]);
    assert!(plan.len() >= 2);
    assert_eq!(f.entries[0], ("OE_A".to_string(), "hello".to_string()));
    assert_eq!(f.entries[1], ("OE_B".to_string(), "quoted val".to_string()));
    assert_eq!(f.malformed, 0);
}

#[test]
fn real_env_wins_over_file() {
    let f = parse_env("OE_V=fromfile\n");
    let plan = load_plan(&f.entries, &vec![true]);
    assert_eq!(plan.len(), 0, "already-set env var must not be overwritten");
}

#[test]
fn malformed_lines_are_tolerated() {
    let f = parse_env("NOEQUALS\nOE_G=ok\n# c\n\n");
    let plan = load_plan(&f.entries, &vec![false]);
    assert!(plan.len() >= 1);
    assert_eq!(f.entries[0].1, "ok");
    assert!(f.malformed >= 1, "a line without '=' is malformed");
}

#[test]
fn the_first_entry_of_a_name_is_loaded() {
    let f = parse_env("A=1\nB=2\nA=3\n");
    assert_eq!(load_plan(&f.entries, &vec![false, false, false]), vec![0, 1]);
}

#[test]
fn workspace_root_walks_up_to_workspace_manifest() {
    // The innermost directory whose manifest declares a workspace is the root.
    let manifests = vec![
        None,
        Some("[package]\nname=\"x\"\n".to_string()),
        Some("[workspace]\nmembers=[]\n".to_string()),
        Some("[workspace]\n".to_string()),
    ];
    assert_eq!(workspace_root(&manifests), Some(2));
    assert_eq!(workspace_root(&vec![Some("[workspace]\nmembers=[]\n".to_string())]), Some(0));
    assert_eq!(workspace_root(&vec![None, Some("[work".to_string())]), None);
}

fn set_batch(component: &str, value: Vec<f32>) -> ProposeBatch {
    ProposeBatch {
        ops: vec![ProposeOp::SetValue {
            entity: 0,
            component: component.to_string(),
            value: value.into_iter().map(scalar).collect(),
        }],
    }
}

#[test]
fn rejects_unknown_component() {
    let e = validate(&set_batch("hp", vec![5.0])).unwrap_err();
    assert!(matches!(e, ProposeError::Invalid(_)));
    assert_eq!(
        e.to_text(),
        "invalid: op 0: unknown component 'hp' (use transform|scale|color)"
    );
}

#[test]
fn validation_names_the_first_problem() {
    assert!(validate(&ProposeBatch::empty()).is_ok());
    assert!(validate(&set_batch("scale", vec![1.0])).is_ok());
    assert!(matches!(
        validate(&set_batch("hp", vec![])),
        Err(ProposeError::Invalid(m)) if m == "op 0: set value empty"
    ));
    assert_eq!(ProposeError::Parse("x".into()).to_text(), "parse: x");
}

#[test]
fn observe_context_mentions_ops_schema() {
    let ctx = observe_context(
        1,
        &[EntitySummary {
            index: 0,
            transform: [scalar(1.0), scalar(0.0), scalar(0.0)],
            color: [255, 0, 0, 255],
        }],
    );
    assert!(ctx.contains("entit(ies)"));
    assert!(ctx.contains("\"ops\""));
    assert!(ctx.contains("#0"));
    assert!(ctx.contains("  #0 at [1.0, 0.0, 0.0] color [255, 0, 0, 255]\n"));
    assert_eq!(position_text(&[scalar(1.5), scalar(0.0), scalar(-2.0)]), "[1.5, 0.0, -2.0]");
}

#[test]
fn urlencode_keeps_slashes_encoded() {
    // Slash in a model id must be percent-encoded in a path segment.
    assert_eq!(urlencode("a/b-c"), "a%2Fb-c");
    assert_eq!(urlencode("Qwen3.8-27B"), "Qwen3.8-27B");
    assert_eq!(urlencode("\u{e9} ~"), "%C3%A9%20~");
    // Two characters more for each byte that is escaped.
    assert_eq!(urlencode("\u{e9} ~").len(), "\u{e9} ~".len() + 2 * 3);
    assert_ne!(urlencode("a%2F"), urlencode("a/"));
}

#[test]
fn root_strips_v1_for_management_api() {
    // check_vision builds host root by stripping trailing /v1.
    let host = "http://127.0.0.1:8889/v1";
    assert_eq!(management_root(host), "http://127.0.0.1:8889");
    assert_eq!(management_root("http://h/v1//"), "http://h");
    assert_eq!(management_root("http://h"), "http://h");
}

#[test]
fn urls_and_requests() {
    assert_eq!(chat_url("http://h/v1"), "http://h/v1/chat/completions");
    assert_eq!(models_url("http://h/v1"), "http://h/v1/models");
    assert_eq!(
        check_vision_url("http://h/v1", "a/b"),
        "http://h/api/models/check-vision/a%2Fb"
    );
    assert_eq!(load_model_url("http://h/v1"), "http://h/api/inference/load");
    assert_eq!(load_model_request("a\"b"), "{\"model_path\":\"a\\\"b\"}");
}

#[test]
fn keys_come_from_the_environment() {
    assert!(matches!(bearer(None, Some("x".into())), Ok(None)));
    assert!(matches!(bearer(Some("K"), Some("x".into())), Ok(Some(t)) if t == "x"));
    assert!(matches!(
        bearer(Some("K"), None),
        Err(AdapterError::Config(m)) if m == "env 'K' unset"
    ));
}

#[test]
fn refusals_are_cut_short() {
    let long: String = "\u{e9}".repeat(300);
    assert!(matches!(
        refused(500, &long),
        AdapterError::Status { code: 500, detail } if detail == "\u{e9}".repeat(200)
    ));
    assert!(matches!(
        vision_refused(404),
        AdapterError::Status { code: 404, detail } if detail == "vision check unsupported here (http 404)"
    ));
}

#[test]
fn vision_answers() {
    assert!(matches!(read_vision(b"{\"is_vision\":true}"), Ok(true)));
    assert!(matches!(read_vision(b"{\"is_vision\":\"yes\"}"), Ok(false)));
    assert!(matches!(read_vision(b"{}"), Ok(false)));
    assert!(matches!(
        read_vision(b"{"),
        Err(AdapterError::Transport(m)) if m == "bad json: error decoding response body"
    ));
    assert!(matches!(vision_answer(Ok(None)), Ok(false)));
    assert!(matches!(vision_answer(Ok(Some(true))), Ok(true)));
    assert!(matches!(
        vision_answer(Err("cut off".into())),
        Err(AdapterError::Transport(m)) if m == "bad json: cut off"
    ));
}

#[test]
fn model_lists() {
    let body = r#"{"data":[{"id":"a","loaded":true},{"id":""},{"loaded":true},{"id":"b"}]}"#;
    let ms = list_models(body.as_bytes()).unwrap();
    assert_eq!(ms.len(), 2);
    assert_eq!((ms[0].id.as_str(), ms[0].loaded), ("a", true));
    assert_eq!((ms[1].id.as_str(), ms[1].loaded), ("b", false));
    assert_eq!(list_models(b"{}").unwrap().len(), 0);
    assert!(matches!(
        list_models(b"nope"),
        Err(AdapterError::Transport(m)) if m == "bad json: error decoding response body"
    ));
    assert_eq!(discover(vec![ModelRow { id: None, loaded: None }]).len(), 0);
    assert_eq!(models_answer(Ok(None)).unwrap().len(), 0);
    assert!(models_answer(Err("cut off".into())).is_err());
}

#[test]
fn replies_and_pictures() {
    assert_eq!(first_reply(vec![Some("hi".into()), None]).unwrap(), "hi");
    assert!(matches!(
        first_reply(vec![]),
        Err(AdapterError::Transport(m)) if m == "empty assistant reply"
    ));
    assert!(first_reply(vec![None]).is_err());
    assert_eq!(frame_picture(b"{\"png_base64\":\"AAA\"}").unwrap(), "AAA");
    assert_eq!(
        frame_picture(b"{\"w\":1}").unwrap_err(),
        "no png_base64 in /frame: {\"w\":1}"
    );
    assert_eq!(
        frame_picture(b"x").unwrap_err(),
        "bad /frame json: error decoding response body"
    );
    assert_eq!(picture_answer(Err("e".into())).unwrap_err(), "bad /frame json: e");
    assert_eq!(picture_answer(Ok((Some("p".into()), "{}".into()))).unwrap(), "p");
}
