use openengine::ai::cli::{
    chat_prompt, check_chat_image, check_see_image, command, describe_endpoint, frame_url,
    image_turns, models_table, override_model, parse, ping_ok, ping_verdict, provider_kinds,
    provider_label, see_prompt, starts_ok, text_turns, usage, CliCommand,
};
use openengine::ai::config::{vision_supported, ModelConfig, ProviderConfig};
use openengine::ai::content::TextImageContent;
use openengine::text::{decimal_text, hex_text, joined, list_text, trim};

fn words(ws: &[&str]) -> Vec<String> {
    ws.iter().map(|w| w.to_string()).collect()
}

fn local(key_env: Option<&str>) -> ModelConfig {
    ModelConfig {
        provider: ProviderConfig::Local {
            endpoint: "http://h/v1".to_string(),
            key_env: key_env.map(|k| k.to_string()),
        },
        model: "m".to_string(),
    }
}

#[test]
fn the_first_plain_word_is_the_command() {
    let a = parse(&words(&["-x", "chat", "hi", "--model", "m", "--system=s", "there"])).unwrap();
    assert_eq!(a.cmd, "chat");
    assert_eq!(a.model.as_deref(), Some("m"));
    assert_eq!(a.system.as_deref(), Some("s"));
    assert_eq!(a.positionals, vec!["hi", "there"]);
    assert_eq!(a.harness, "http://127.0.0.1:8080");
    assert_eq!(a.config, None);
}

#[test]
fn options_take_the_next_word_or_what_is_behind_the_equals_sign() {
    let a = parse(&words(&["see", "--config", "c", "--image=i", "--harness", "h"])).unwrap();
    assert_eq!(a.config.as_deref(), Some("c"));
    assert_eq!(a.image.as_deref(), Some("i"));
    assert_eq!(a.harness, "h");
    assert_eq!(parse(&words(&["see", "--model"])).unwrap_err(), "--model needs a value");
    assert_eq!(parse(&words(&["see", "-h"])).unwrap().cmd, "help");
    assert_eq!(parse(&words(&[])).unwrap().cmd, "");
    assert_eq!(parse(&words(&["x", "--odd"])).unwrap().positionals, vec!["--odd"]);
}

#[test]
fn commands_by_name() {
    assert_eq!(command("describe"), Ok(CliCommand::Describe));
    assert_eq!(command("providers"), Ok(CliCommand::Providers));
    assert_eq!(command("models"), Ok(CliCommand::Models));
    assert_eq!(command("test"), Ok(CliCommand::Test));
    assert_eq!(command("chat"), Ok(CliCommand::Chat));
    assert_eq!(command("see"), Ok(CliCommand::See));
    assert_eq!(command("help"), Ok(CliCommand::Help));
    assert_eq!(command(""), Ok(CliCommand::Help));
    assert_eq!(command("fly").unwrap_err(), format!("unknown command: fly\n{}", usage()));
    assert!(usage().starts_with("openengine-ai <cmd>"));
}

#[test]
fn labels_and_endpoints() {
    let api = ModelConfig {
        provider: ProviderConfig::ApiKey { endpoint: "e".to_string(), key_env: "K".to_string() },
        model: "m".to_string(),
    };
    assert_eq!(provider_label(&api), "deepseek");
    assert_eq!(provider_label(&local(None)), "llama.cpp");
    assert_eq!(describe_endpoint(&api, true), "e (key: set env 'K')");
    assert_eq!(describe_endpoint(&api, false), "e (key: MISSING env 'K')");
    assert_eq!(describe_endpoint(&local(None), false), "http://h/v1 (key: none)");
    assert_eq!(
        describe_endpoint(&local(Some("K")), true),
        "http://h/v1 (key: set via env 'K')"
    );
    assert_eq!(
        describe_endpoint(&local(Some("K")), false),
        "http://h/v1 (key: MISSING env 'K')"
    );
    assert_eq!(override_model(local(None), Some("n".to_string())).model, "n");
    assert_eq!(override_model(local(None), None).model, "m");
    assert_eq!(provider_kinds(), vec!["deepseek", "llama.cpp", "openai-compat"]);
}

#[test]
fn the_table_of_models_is_aligned() {
    let t = models_table();
    assert_eq!(t[0], format!("{:<12} {:<22} {:<6} ctx", "kind", "id", "vision"));
    assert!(t.iter().any(|l| l.starts_with("deepseek     deepseek-chat")));
}

#[test]
fn pings_pass_on_ok() {
    assert!(ping_ok("ok"));
    assert!(ping_ok("  Ok \n"));
    assert!(ping_ok("okay, boss"));
    assert!(!ping_ok("no"));
    assert!(!ping_ok(""));
    assert!(starts_ok("OKAY"));
    assert!(!starts_ok("okay"));
    assert_eq!(ping_verdict(true), "PASS");
    assert_eq!(ping_verdict(false), "UNEXPECTED REPLY (still 200)");
}

#[test]
fn prompts() {
    let a = parse(&words(&["chat", "hello"])).unwrap();
    assert_eq!(chat_prompt(&a).unwrap(), "hello");
    assert_eq!(see_prompt(&a), "hello");
    let b = parse(&words(&["chat"])).unwrap();
    assert_eq!(chat_prompt(&b).unwrap_err(), "chat needs a message");
    assert_eq!(see_prompt(&b), "Describe this 3D scene in one sentence.");
    let c = parse(&words(&["chat", ""])).unwrap();
    assert!(chat_prompt(&c).is_err());
}

#[test]
fn blind_models_get_no_pictures() {
    assert!(check_chat_image(&local(None))
        .unwrap_err()
        .starts_with("model 'm' is not marked vision-capable"));
    assert!(check_see_image(&local(None))
        .unwrap_err()
        .starts_with("configured model 'm' is not vision-capable"));
}

#[test]
fn a_listed_model_behind_a_key_sees() {
    let cfg = ModelConfig {
        provider: ProviderConfig::ApiKey { endpoint: "e".to_string(), key_env: "K".to_string() },
        model: "gpt-4o-vision".to_string(),
    };
    assert!(vision_supported(&cfg));
    assert!(check_chat_image(&cfg).is_ok());
    assert!(check_see_image(&cfg).is_ok());
}

#[test]
fn frames_and_turns() {
    assert_eq!(frame_url("http://h//"), "http://h/frame?w=512&h=288");
    let ts = text_turns(Some("be brief".to_string()), "hi");
    assert_eq!(ts.len(), 2);
    assert_eq!(ts[0].role, "system");
    assert_eq!(ts[1].content_text().as_deref(), Some("hi"));
    assert_eq!(text_turns(None, "hi").len(), 1);
    let img = TextImageContent {
        text: "t".to_string(),
        mime: "image/png".to_string(),
        base64: "AA==".to_string(),
    };
    let its = image_turns(Some("s".to_string()), img);
    assert_eq!(its.len(), 2);
    assert!(its[1].has_image() && !its[0].has_image());
}

#[test]
fn texts() {
    assert_eq!(decimal_text(0), "0");
    assert_eq!(decimal_text(u64::MAX), u64::MAX.to_string());
    assert_eq!(hex_text(0xabc, 4), "0ABC");
    assert_eq!(joined("a", "b"), "ab");
    assert_eq!(list_text(&words(&["1", "2"])), "[1, 2]");
    let cs: Vec<char> = " \u{3000}x y\t".chars().collect();
    assert_eq!(trim(&cs), vec!['x', ' ', 'y']);
}
