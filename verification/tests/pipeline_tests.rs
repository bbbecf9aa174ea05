use rusthook::check::{check_trigger_rules, is_webhook_id_in_configs, preflight_check};
use rusthook::command::resolve_command_arguments;
use rusthook::config::configs::Configs;
use rusthook::config::global::GlobalConfig;
use rusthook::config::{Config, LogLevel};
use rusthook::errors::HookError;
use rusthook::response::{
    build_success_response, format_response_headers_to_string, http_response_with_err,
};
use rusthook::rule::single_rule::SingleRule;
use rusthook::rule::Rule;
use rusthook::strmap::StrMap;

fn hook(id: &str, message: &str) -> Config {
    let mut c = Config::new();
    c.id = id.to_string();
    c.response_message = message.to_string();
    c
}

fn configs(hooks: Vec<Config>) -> Configs {
    Configs {
        global: GlobalConfig::new(),
        hooks,
    }
}

fn header_entry(name: &str, value: &str) -> StrMap {
    let mut m = StrMap::new();
    m.insert("name", name);
    m.insert("value", value);
    m
}

fn token_rule(expected: &str) -> Rule {
    Rule::Single(SingleRule {
        kind: "value".to_string(),
        value: expected.to_string(),
        source: "header".to_string(),
        name: "X-Token".to_string(),
    })
}

#[test]
fn test_is_webhook_id_in_configs() {
    let configs = configs(vec![hook("webhook-test-1", ""), hook("webhook-test-2", "")]);
    let mut http_request = StrMap::new();
    http_request.insert("Url", "/webhook-test-1/?a=1&b=2");
    let r = is_webhook_id_in_configs(&configs, &http_request);
    assert!(r.is_ok())
}

#[test]
fn test_isnot_webhook_id_in_configs() {
    let configs = configs(vec![hook("webhook-test-1", ""), hook("webhook-test-2", "")]);
    let mut http_request = StrMap::new();
    http_request.insert("Url", "/webhook-test-3/");
    let r = is_webhook_id_in_configs(&configs, &http_request);
    assert!(r.is_err());
}

#[test]
fn test_webhook_id_leading_slash_trimmed() {
    let configs = configs(vec![hook("/slashed", "")]);
    let mut http_request = StrMap::new();
    http_request.insert("Url", "/slashed/");
    assert!(is_webhook_id_in_configs(&configs, &http_request).is_ok());
}

#[test]
fn test_duplicate_hook_ids_last_wins() {
    let configs = configs(vec![
        hook("a", "first"),
        hook("b", "other"),
        hook("a", "second"),
    ]);
    let mut http_request = StrMap::new();
    http_request.insert("Url", "/a/");
    let selected = configs.get_config_by_http_request(&http_request).unwrap();
    assert_eq!(selected.response_message, "second");
}

#[test]
fn test_hook_selection_none_for_unknown_id() {
    let configs = configs(vec![hook("a", "first")]);
    let mut http_request = StrMap::new();
    http_request.insert("Url", "/b/");
    assert!(configs.get_config_by_http_request(&http_request).is_none());
}

#[test]
fn test_get_webhook_ids_order() {
    let configs = configs(vec![hook("webhook-test-1", ""), hook("webhook-test-2", "")]);
    let exp = vec!["webhook-test-1".to_string(), "webhook-test-2".to_string()];
    assert_eq!(configs.get_webhook_ids(), exp);
}

#[test]
fn test_trigger_rule_gates_dispatch() {
    let mut config = hook("my-hook", "hi");
    config.trigger_rules = Some(token_rule("secret"));

    let mut request = StrMap::new();
    request.insert("Url", "/my-hook/");
    request.insert("Version", "HTTP/1.1");

    // Header absent: the rule rejects the request and the response is a 500.
    let err = check_trigger_rules(&config, &request).unwrap_err();
    assert!(matches!(err, HookError::InvalidInput(_)));
    let response = http_response_with_err("HTTP/1.1", &err, Some(&config));
    assert!(response.starts_with("HTTP/1.1 500 Internal Server Error\r\n"));

    // Header present: the rule admits the request.
    request.insert("X-Token", "secret");
    assert!(check_trigger_rules(&config, &request).is_ok());
}

#[test]
fn test_preflight_order() {
    let mut config = hook("h", "");
    let request = StrMap::new();
    assert!(preflight_check(true, true, &config, &request).is_ok());
    // The first failing step decides the error, in check order.
    let err = preflight_check(false, false, &config, &request).unwrap_err();
    assert_eq!(err.message(), "Invalid Command");
    let err = preflight_check(true, false, &config, &request).unwrap_err();
    assert_eq!(err.message(), "Invalid Log Config");
    config.trigger_rules = Some(token_rule("secret"));
    let err = preflight_check(true, true, &config, &request).unwrap_err();
    assert_eq!(err.message(), "Trigger Rules Mismatch");
}

#[test]
fn test_resolve_command_arguments_drops_failures() {
    let mut config = hook("h", "");
    let mut good = StrMap::new();
    good.insert("source", "header");
    good.insert("name", "X-Arg");
    let mut missing = StrMap::new();
    missing.insert("source", "header");
    missing.insert("name", "X-Absent");
    let mut malformed = StrMap::new();
    malformed.insert("source", "header");
    let mut literal = StrMap::new();
    literal.insert("source", "string");
    literal.insert("name", "fixed");
    let mut empty = StrMap::new();
    empty.insert("source", "string");
    empty.insert("name", "");
    config.pass_arguments_to_command = vec![good, missing, malformed, literal, empty];

    let mut request = StrMap::new();
    request.insert("X-Arg", "va");
    // A missing header and a malformed builder are dropped; values that
    // resolve successfully are all kept, the empty string included.
    let args = resolve_command_arguments(&config, &request);
    assert_eq!(
        args,
        vec!["va".to_string(), "fixed".to_string(), "".to_string()]
    );
}

#[test]
fn test_format_headers_to_string() {
    let header_host = header_entry("Host", "127.0.0.1:7878");
    let header_cache_control = header_entry("Cache-Control", "max-age=604800");
    let header_accept_ranges = header_entry("Accept-Ranges", "bytes");

    let headers = vec![header_host, header_accept_ranges, header_cache_control];
    let headers = format_response_headers_to_string(&headers);
    let exp = "Host: 127.0.0.1:7878\r\n\
    Accept-Ranges: bytes\r\n\
    Cache-Control: max-age=604800"
        .to_string();
    assert_eq!(exp, headers);
}

#[test]
fn test_build_success_response_exact() {
    let headers = vec![header_entry("X-One", "1")];
    let r = build_success_response("HTTP/1.1", &headers, "hello");
    assert_eq!(
        r,
        "HTTP/1.1 200 OK\r\nContent-Length: 5\r\nX-One: 1\r\n\r\nhello"
    );

    let none: Vec<StrMap> = vec![];
    let r = build_success_response("HTTP/1.0", &none, "");
    assert_eq!(r, "HTTP/1.0 200 OK\r\nContent-Length: 0\r\n\r\n");
}

#[test]
fn test_error_response_status_and_body() {
    let nf = HookError::NotFound("missing thing".to_string());
    let r = http_response_with_err("HTTP/1.1", &nf, None);
    assert_eq!(
        r,
        "HTTP/1.1 404 Not Found\r\nContent-Length: 13\r\n\r\nmissing thing"
    );

    let bad = HookError::InvalidInput("bad".to_string());
    let config = hook("h", "sorry");
    let r = http_response_with_err("HTTP/1.1", &bad, Some(&config));
    assert_eq!(
        r,
        "HTTP/1.1 500 Internal Server Error\r\nContent-Length: 5\r\n\r\nsorry"
    );
}

#[test]
fn test_content_length_multi_digit() {
    let body = "x".repeat(123);
    let err = HookError::NotFound(body.clone());
    let r = http_response_with_err("HTTP/1.1", &err, None);
    assert_eq!(
        r,
        format!("HTTP/1.1 404 Not Found\r\nContent-Length: 123\r\n\r\n{}", body)
    );
}

#[test]
fn test_str_map_insert_overwrites() {
    let mut m = StrMap::new();
    m.insert("k", "1");
    m.insert("k", "2");
    assert_eq!(m.get("k"), Some("2".to_string()));
    assert_eq!(m.len(), 1);
    assert!(m.contains_key("k"));
    assert!(!m.contains_key("x"));
}

#[test]
fn test_log_paths() {
    let g = GlobalConfig::new();
    assert_eq!(g.get_log_path(), "logs/webhook.log");

    let mut g2 = GlobalConfig::new();
    g2.log_dir = "var/log///".to_string();
    g2.log_prefix = Some("hooks".to_string());
    assert_eq!(g2.get_log_path(), "var/log/hooks.log");

    let mut c = Config::new();
    c.id = "h1".to_string();
    c.log_dir = "logs/".to_string();
    assert_eq!(c.get_log_path(), "logs/h1.log");
    assert_eq!(Config::new().get_log_level().unwrap(), LogLevel::Info);
    let mut c2 = Config::new();
    c2.log_level = "Chatty".to_string();
    assert!(c2.get_log_level().is_err());
}

#[test]
fn test_defaults() {
    assert_eq!(Config::default_id(), "default");
    assert_eq!(Config::default_execute_command(), "src/command/test.sh");
    assert_eq!(GlobalConfig::default_log_dir(), "logs");
    assert_eq!(GlobalConfig::default_log_level(), "Info");
    assert_eq!(SingleRule::default_source(), "");
    assert_eq!(SingleRule::default_name(), "");
    let c = Config::new();
    assert_eq!(c.id, "default");
    assert!(c.trigger_rules.is_none());
    assert!(c.get_trigger_rule().is_none());
}
