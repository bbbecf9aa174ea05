use rusthook::arguments::Argument;
use rusthook::errors::HookError;
use rusthook::strmap::StrMap;

fn sample_request() -> StrMap {
    let mut request = StrMap::new();
    request.insert("Url", "/webhook-test-1");
    request.insert("User-Agent", "curl/7.77.0");
    request.insert("Version", "HTTP/1.1");
    request.insert("Method", "POST");
    request.insert("Accept", "*/*");
    request.insert("Host", "127.0.0.1:7878");
    request.insert("Content-Type", "application/json");
    request.insert("Content-Length", "45");
    request.insert(
        "Body",
        "{\"data\":{\"data2\":[\"val1\", \"val2\"], \"data3\": \"val3\"},\"data_s\":\"s_d\"}",
    );
    request.insert("Peer-Address", "127.0.0.1:56020");
    request
}

fn builder(source: &str, name: &str) -> StrMap {
    let mut map = StrMap::new();
    map.insert("source", source);
    map.insert("name", name);
    map
}

#[test]
pub fn test_parse_arg() {
    let request = sample_request();

    let map = builder("payload", "");
    let arg = Argument::new(&map).unwrap();
    let res = arg.parse_from_request(&request).unwrap();
    println!("{}, {}", res, res.len());

    let map = builder("request", "Method");
    let arg = Argument::new(&map).unwrap();
    let res = arg.parse_from_request(&request).unwrap();
    println!("{}, {}", res, res.len());

    let map = builder("payload", "data.data2.1");
    let arg = Argument::new(&map).unwrap();
    let res = arg.parse_from_request(&request).unwrap();
    println!("{}, {}", res, res.len());

    let map = builder("payload", "data.data3");
    let arg = Argument::new(&map).unwrap();
    let res = arg.parse_from_request(&request).unwrap();
    println!("{}, {}", res, res.len());

    let map = builder("payload", "data_s");
    let arg = Argument::new(&map).unwrap();
    let res = arg.parse_from_request(&request).unwrap();
    println!("{}, {}", res, res.len());

    let map = builder("header", "Host");
    let arg = Argument::new(&map).unwrap();
    let res = arg.parse_from_request(&request).unwrap();
    println!("{}, {}", res, res.len());

    let map = builder("string", "str_param");
    let arg = Argument::new(&map).unwrap();
    let res = arg.parse_from_request(&request).unwrap();
    println!("{}, {}", res, res.len());
}

#[test]
fn test_parse_arg_values() {
    let request = sample_request();

    let arg = Argument::new(&builder("payload", "data.data2.1")).unwrap();
    assert_eq!(arg.parse_from_request(&request).unwrap(), "val2");

    let arg = Argument::new(&builder("request", "Method")).unwrap();
    assert_eq!(arg.parse_from_request(&request).unwrap(), "POST");

    let arg = Argument::new(&builder("request", "peer-address")).unwrap();
    assert_eq!(arg.parse_from_request(&request).unwrap(), "127.0.0.1:56020");

    let arg = Argument::new(&builder("header", "Host")).unwrap();
    assert_eq!(arg.parse_from_request(&request).unwrap(), "127.0.0.1:7878");

    let arg = Argument::new(&builder("string", "str_param")).unwrap();
    assert_eq!(arg.parse_from_request(&request).unwrap(), "str_param");
}

#[test]
fn test_payload_path_resolution() {
    let mut request = StrMap::new();
    request.insert("Method", "POST");
    request.insert("Body", "{\"a\":{\"b\":[\"x\",\"y\"]},\"c\":\"z\"}");

    let arg = Argument::new(&builder("payload", "a.b.1")).unwrap();
    assert_eq!(arg.parse_from_request(&request).unwrap(), "y");

    let arg = Argument::new(&builder("payload", "c")).unwrap();
    assert_eq!(arg.parse_from_request(&request).unwrap(), "z");

    let arg = Argument::new(&builder("payload", "")).unwrap();
    assert_eq!(
        arg.parse_from_request(&request).unwrap(),
        "{\"a\":{\"b\":[\"x\",\"y\"]},\"c\":\"z\"}"
    );

    let arg = Argument::new(&builder("payload", "a.b.5")).unwrap();
    assert!(arg.parse_from_request(&request).is_err());
}

#[test]
fn test_query_resolution() {
    let mut request = StrMap::new();
    request.insert("Url", "/hook/?x=1&y=2");

    let arg = Argument::new(&builder("query", "y")).unwrap();
    assert_eq!(arg.parse_from_request(&request).unwrap(), "2");

    let arg = Argument::new(&builder("query", "z")).unwrap();
    let err = arg.parse_from_request(&request).unwrap_err();
    assert!(matches!(err, HookError::NotFound(_)));
}

#[test]
fn test_reserved_header_rejected() {
    let request = sample_request();
    let arg = Argument::new(&builder("header", "Body")).unwrap();
    let err = arg.parse_from_request(&request).unwrap_err();
    assert!(matches!(err, HookError::InvalidInput(_)));
}

#[test]
fn test_missing_header_not_found() {
    let request = sample_request();
    let arg = Argument::new(&builder("header", "X-Absent")).unwrap();
    let err = arg.parse_from_request(&request).unwrap_err();
    assert!(matches!(err, HookError::NotFound(_)));
}

#[test]
fn test_payload_rejected_on_get() {
    let mut request = StrMap::new();
    request.insert("Method", "GET");
    request.insert("Body", "{}");
    let arg = Argument::new(&builder("payload", "a")).unwrap();
    let err = arg.parse_from_request(&request).unwrap_err();
    assert!(matches!(err, HookError::InvalidInput(_)));
}

#[test]
fn test_unknown_source_rejected() {
    let request = sample_request();
    let arg = Argument::new(&builder("cookie", "x")).unwrap();
    let err = arg.parse_from_request(&request).unwrap_err();
    assert!(matches!(err, HookError::InvalidInput(_)));
}

#[test]
fn test_request_source_allow_list() {
    let request = sample_request();
    let arg = Argument::new(&builder("request", "URL")).unwrap();
    assert_eq!(arg.parse_from_request(&request).unwrap(), "/webhook-test-1");

    let arg = Argument::new(&builder("request", "host")).unwrap();
    let err = arg.parse_from_request(&request).unwrap_err();
    assert!(matches!(err, HookError::InvalidInput(_)));
}

#[test]
fn test_argument_builder_shape() {
    assert!(Argument::new(&builder("header", "Host")).is_some());
    let mut short = StrMap::new();
    short.insert("source", "header");
    assert!(Argument::new(&short).is_none());
    let mut extra = builder("header", "Host");
    extra.insert("other", "x");
    assert!(Argument::new(&extra).is_none());
}
