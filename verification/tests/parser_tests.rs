use rusthook::json::parse_json;
use rusthook::parser::{
    get_header_from_http_request, get_item_from_json, get_payload_item_from_http_request,
    http_body_within_cap, merge_http_request, parse_hook_id_from_url, parse_http_header,
    parse_parameters_from_url,
};
use rusthook::strmap::StrMap;

#[test]
pub fn test_json_parse() {
    let item = "data.data2";
    let mut indexes = item.split(".").into_iter();
    println!("{}", indexes.next().unwrap());
}

#[test]
pub fn test_get_item_in_map() {
    let v = parse_json("{\"data\":{\"data2\":\"val\"}}").unwrap();
    let d = get_item_from_json(&v, "data.data2").unwrap();
    assert_eq!(String::from("val"), d);
}

#[test]
pub fn test_get_item_in_list() {
    let v = parse_json("{\"data\":{\"data2\":[\"val1\", \"val2\"]}}").unwrap();
    let d = get_item_from_json(&v, "data.data2.1").unwrap();
    assert_eq!(String::from("val2"), d);
}

#[test]
pub fn test_get_item_direct() {
    let v = parse_json("{\"data\":{\"data2\":[\"val1\", \"val2\"]}, \"data_s\":\"s_d\"}").unwrap();
    let d = get_item_from_json(&v, "data_s").unwrap();
    assert_eq!(String::from("s_d"), d);
}

#[test]
fn test_get_hook_id_from_http_request_url() {
    let id = parse_hook_id_from_url("/hook/?y=1&u=2");
    assert_eq!(String::from("hook"), id);
}

#[test]
fn test_parse_parameters_from_url() {
    let url = "/hooks/?x=1&y=2&z=aaa";
    let res = parse_parameters_from_url(url);
    assert_eq!(res.len(), 3);
    assert_eq!(res.get("x"), Some("1".to_string()));
    assert_eq!(res.get("y"), Some("2".to_string()));
    assert_eq!(res.get("z"), Some("aaa".to_string()));
}

#[test]
fn test_parse_parameters_no_query() {
    let res = parse_parameters_from_url("/hooks/");
    assert_eq!(res.len(), 0);
}

#[test]
fn test_parse_parameters_first_value_wins() {
    let res = parse_parameters_from_url("/h/?a=1&a=2");
    assert_eq!(res.get("a"), Some("1".to_string()));
}

#[test]
fn test_parse_http_header_basic() {
    let lines = vec![
        "POST /webhook-test-1/ HTTP/1.1".to_string(),
        "Host: 127.0.0.1:7878".to_string(),
        "Content-Type: application/json".to_string(),
    ];
    let m = parse_http_header(&lines).unwrap();
    assert_eq!(m.get("Method"), Some("POST".to_string()));
    assert_eq!(m.get("Url"), Some("/webhook-test-1/".to_string()));
    assert_eq!(m.get("Version"), Some("HTTP/1.1".to_string()));
    assert_eq!(m.get("Host"), Some("127.0.0.1:7878".to_string()));
    assert_eq!(m.get("Content-Type"), Some("application/json".to_string()));
}

#[test]
fn test_parse_http_header_first_header_wins() {
    let lines = vec![
        "GET / HTTP/1.1".to_string(),
        "X-A: one".to_string(),
        "X-A: two".to_string(),
        "Method: fake".to_string(),
    ];
    let m = parse_http_header(&lines).unwrap();
    assert_eq!(m.get("X-A"), Some("one".to_string()));
    assert_eq!(m.get("Method"), Some("GET".to_string()));
}

#[test]
fn test_parse_http_header_colon_inside_value() {
    let lines = vec![
        "GET / HTTP/1.1".to_string(),
        "Referer: http://x/y: z".to_string(),
    ];
    let m = parse_http_header(&lines).unwrap();
    assert_eq!(m.get("Referer"), Some("http://x/y: z".to_string()));
}

#[test]
fn test_parse_http_header_short_request_line() {
    let lines = vec!["GET /".to_string()];
    assert!(parse_http_header(&lines).is_none());
}

#[test]
fn test_merge_http_request_adds_body_and_peer() {
    let mut header = StrMap::new();
    header.insert("Method", "POST");
    let req = merge_http_request(&header, &Some("{}".to_string()), "127.0.0.1:56020");
    assert_eq!(req.get("Body"), Some("{}".to_string()));
    assert_eq!(req.get("Peer-Address"), Some("127.0.0.1:56020".to_string()));
    assert_eq!(req.get("Method"), Some("POST".to_string()));
}

#[test]
fn test_get_header_from_http_request_lookup() {
    let mut req = StrMap::new();
    req.insert("Host", "127.0.0.1:7878");
    assert_eq!(
        get_header_from_http_request("Host", &req),
        Some("127.0.0.1:7878".to_string())
    );
    assert_eq!(get_header_from_http_request("Absent", &req), None);
}

#[test]
fn test_payload_item_entire_and_paths() {
    let mut req = StrMap::new();
    req.insert("Body", "{\"a\":{\"b\":[\"x\",\"y\"]},\"c\":\"z\"}");
    assert_eq!(
        get_payload_item_from_http_request("a.b.1", &req),
        Some("y".to_string())
    );
    assert_eq!(
        get_payload_item_from_http_request("c", &req),
        Some("z".to_string())
    );
    assert_eq!(
        get_payload_item_from_http_request("", &req),
        Some("{\"a\":{\"b\":[\"x\",\"y\"]},\"c\":\"z\"}".to_string())
    );
    assert_eq!(
        get_payload_item_from_http_request("entire-payload", &req),
        Some("{\"a\":{\"b\":[\"x\",\"y\"]},\"c\":\"z\"}".to_string())
    );
    assert_eq!(get_payload_item_from_http_request("a.b.5", &req), None);
    assert_eq!(get_payload_item_from_http_request("a.b.x", &req), None);
    assert_eq!(get_payload_item_from_http_request("c.d", &req), None);
}

#[test]
fn test_payload_item_non_string_leaf_fails() {
    let mut req = StrMap::new();
    req.insert("Body", "{\"n\":5,\"b\":true,\"o\":{},\"a\":[],\"z\":null}");
    assert_eq!(get_payload_item_from_http_request("n", &req), None);
    assert_eq!(get_payload_item_from_http_request("b", &req), None);
    assert_eq!(get_payload_item_from_http_request("o", &req), None);
    assert_eq!(get_payload_item_from_http_request("a", &req), None);
    assert_eq!(get_payload_item_from_http_request("z", &req), None);
}

#[test]
fn test_payload_numeric_object_key() {
    // An object is always indexed by key, even when the segment reads as a
    // number; only arrays are indexed by position.
    let mut req = StrMap::new();
    req.insert("Body", "{\"1\":\"x\"}");
    assert_eq!(
        get_payload_item_from_http_request("1", &req),
        Some("x".to_string())
    );
}

#[test]
fn test_payload_plus_signed_index() {
    // Array positions are read the way the standard unsigned parse reads
    // them, so a leading plus sign is accepted.
    let mut req = StrMap::new();
    req.insert("Body", "{\"a\":[\"x\",\"y\"]}");
    assert_eq!(
        get_payload_item_from_http_request("a.+1", &req),
        Some("y".to_string())
    );
    assert_eq!(get_payload_item_from_http_request("a.01", &req), Some("y".to_string()));
    assert_eq!(get_payload_item_from_http_request("a.-1", &req), None);
}

#[test]
fn test_body_cap() {
    assert!(http_body_within_cap(2097152));
    assert!(!http_body_within_cap(2097153));
}
