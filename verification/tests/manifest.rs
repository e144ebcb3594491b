use a3_platform::error::ManifestError;
use a3_platform::headers::{parse_headers, HeaderError};
use a3_platform::manifest::{Manifest, Provider};
use a3_platform::runtime::Runtime;
use a3_platform::string_map::StringMap;
use a3_platform::text::{str_is_blank, trim_str};
use a3_platform::tools::{EnvValue, ToolDefinition};

fn manifest(address: &str, model: &str, description: &str, instruction: &str) -> Manifest {
    Manifest {
        address: address.to_string(),
        provider: Provider::OpenAI,
        model: model.to_string(),
        description: description.to_string(),
        instruction: instruction.to_string(),
        constraints: String::new(),
        context: String::new(),
        tools: None,
    }
}

fn missing(res: Result<(), ManifestError>) -> Option<&'static str> {
    match res {
        Err(ManifestError::MissingField(f)) => Some(f),
        _ => None,
    }
}

#[test]
fn validate_accepts_complete_manifest() {
    assert!(manifest("search@email.local", "m", "d", "i").validate().is_ok());
}

#[test]
fn validate_reports_first_blank_field() {
    assert_eq!(missing(manifest("", "", "", "").validate()), Some("address"));
    assert_eq!(missing(manifest("a@b.c", " \t", "", "").validate()), Some("model"));
    assert_eq!(missing(manifest("a@b.c", "m", "\u{3000}\n", "").validate()), Some("description"));
    assert_eq!(missing(manifest("a@b.c", "m", "d", "\u{a0}").validate()), Some("instruction"));
}

#[test]
fn trims_unicode_whitespace() {
    assert_eq!(trim_str("\u{2003} a b\u{85}\t"), "a b");
    assert_eq!(trim_str("   "), "");
    assert!(str_is_blank("\u{2028}\u{205f} "));
    assert!(!str_is_blank(" x "));
}

#[test]
fn env_value_without_variables_is_kept() {
    let value = EnvValue::expand("TOKEN").unwrap();
    assert_eq!(value.as_str(), "TOKEN");
}

#[test]
fn env_value_turns_dollar_pairs_into_one_dollar() {
    let value = EnvValue::expand("a$$b$$").unwrap();
    assert_eq!(value.as_str(), "a$b$");
}

#[test]
fn env_value_with_unset_variable_fails() {
    assert!(EnvValue::expand("${A3_PLATFORM_VARIABLE_THAT_IS_NOT_SET}").is_err());
}

#[test]
fn string_map_insert_and_get() {
    let mut m: StringMap<String> = StringMap::new();
    m.insert("Authorization".to_string(), "Bearer <token>".to_string());
    m.insert("X-Other".to_string(), "1".to_string());
    m.insert("Authorization".to_string(), "Bearer other".to_string());
    assert_eq!(m.len(), 2);
    assert_eq!(m.get("Authorization").map(String::as_str), Some("Bearer other"));
    assert!(m.contains_key("X-Other"));
    assert!(!m.contains_key("x-other"));
    assert_eq!(m.as_slice()[0].0, "Authorization");
    assert_eq!(m.as_slice()[0].1, "Bearer other");
    assert_eq!(m.as_slice()[1].0, "X-Other");
}

#[test]
fn tool_definitions_hold_their_settings() {
    let mut headers = StringMap::new();
    headers.insert("Authorization".to_string(), "Bearer <token>".to_string());
    let http = ToolDefinition::Http { url: "https://example.com".to_string(), headers: Some(headers) };
    match http {
        ToolDefinition::Http { url, headers } => {
            assert_eq!(url, "https://example.com");
            assert_eq!(headers.unwrap().get("Authorization").map(String::as_str), Some("Bearer <token>"));
        }
        ToolDefinition::Stdio { .. } => panic!("expected http tool definition"),
    }
    let mut env = StringMap::new();
    env.insert("ACCESS_TOKEN".to_string(), EnvValue::expand("TOKEN").unwrap());
    let stdio = ToolDefinition::Stdio {
        command: "docker".to_string(),
        args: Some(vec!["run".to_string(), "-i".to_string()]),
        env: Some(env),
    };
    match stdio {
        ToolDefinition::Stdio { command, args, env } => {
            assert_eq!(command, "docker");
            assert_eq!(args.unwrap(), vec!["run".to_string(), "-i".to_string()]);
            assert_eq!(env.unwrap().get("ACCESS_TOKEN").unwrap().as_str(), "TOKEN");
        }
        ToolDefinition::Http { .. } => panic!("expected stdio tool definition"),
    }
}

#[test]
fn parses_valid_headers_in_order() {
    let mut headers = StringMap::new();
    headers.insert("Authorization".to_string(), "Bearer <token>".to_string());
    headers.insert("X-Trace".to_string(), "a\tb".to_string());
    let parsed = parse_headers(&headers).unwrap();
    assert_eq!(
        parsed,
        vec![
            ("authorization".to_string(), "Bearer <token>".to_string()),
            ("x-trace".to_string(), "a\tb".to_string()),
        ]
    );
}

#[test]
fn header_value_keeps_non_ascii_bytes() {
    let mut headers = StringMap::new();
    headers.insert("X-Name".to_string(), "caf\u{e9}".to_string());
    assert_eq!(parse_headers(&headers).unwrap()[0].1, "caf\u{e9}");
}

#[test]
fn refuses_bad_header_name() {
    let mut headers = StringMap::new();
    headers.insert("bad name".to_string(), "value\n".to_string());
    assert!(matches!(parse_headers(&headers), Err(HeaderError::Name(_))));
}

#[test]
fn refuses_bad_header_value() {
    let mut headers = StringMap::new();
    headers.insert("good".to_string(), "ok".to_string());
    headers.insert("also-good".to_string(), "line\nbreak".to_string());
    assert!(matches!(parse_headers(&headers), Err(HeaderError::Value(_))));
    let mut del = StringMap::new();
    del.insert("good".to_string(), "\u{7f}".to_string());
    assert!(matches!(parse_headers(&del), Err(HeaderError::Value(_))));
}

#[test]
fn runtime_keeps_its_manifest() {
    let runtime = Runtime::from(manifest("search@email.local", "model", "d", "i"));
    assert_eq!(runtime.manifest().address, "search@email.local");
    assert_eq!(runtime.manifest().model, "model");
}
