use crypto::hmac::Hmac;
use crypto::mac::Mac;
use crypto::sha1::Sha1;
use crypto::sha2::Sha256;
use rusthook::rule::and_rule::AndRule;
use rusthook::rule::not_rule::NotRule;
use rusthook::rule::or_rule::OrRule;
use rusthook::rule::single_rule::{
    check_payload_signature256, extract_comma_separated_values, extract_signatures, validate_mac,
    SingleRule,
};
use rusthook::rule::Rule;
use rusthook::strmap::StrMap;

fn sample_request() -> StrMap {
    let mut request = StrMap::new();
    request.insert("Url", "/webhook-test-1");
    request.insert("User-Agent", "curl/7.77.0");
    request.insert("Version", "HTTP/1.1");
    request.insert("Method", "POST");
    request.insert("Accept", "*/*");
    request.insert("Host", "127.0.0.1:7878");
    request.insert("Content-Type", "application/json");
    request.insert("Content-Length", "45");
    request.insert(
        "Body",
        "{\"data\":{\"data2\":[\"val1\", \"val2\"], \"data3\": \"val3\"},\"data_s\":\"s_d\"}",
    );
    request.insert("Peer-Address", "127.0.0.1:56020");
    request
}

fn single(kind: &str, value: &str, source: &str, name: &str) -> SingleRule {
    SingleRule {
        kind: kind.to_string(),
        value: value.to_string(),
        source: source.to_string(),
        name: name.to_string(),
    }
}

fn hex_of(code: &[u8]) -> String {
    let mut s = String::new();
    for b in code.iter() {
        s.push_str(&format!("{:02x}", b));
    }
    s
}

#[test]
fn test_match_hmac_sha1() {
    let mut request = sample_request();
    request.insert("X-Signature", "");

    let single_rule = single("hmac-sha1", "1234", "header", "X-Signature");

    let mut hasher = Hmac::new(Sha1::new(), single_rule.value.as_bytes());
    hasher.input(request.get("Body").unwrap().as_bytes());
    let actual_mac = hasher.result();
    let actual_mac = hex_of(actual_mac.code());
    let sig = format!("sha1=dcwwcwee, sha1={}", actual_mac);
    request.insert("X-Signature", &sig);
    assert!(single_rule.match_hmac_sha1(&request));
}

#[test]
fn test_match_hmac_sha256_and_prefix_filter() {
    let mut request = sample_request();
    let secret = "topsecret";
    let mut hasher = Hmac::new(Sha256::new(), secret.as_bytes());
    hasher.input(request.get("Body").unwrap().as_bytes());
    let tag = hasher.result();
    let tag = hex_of(tag.code());

    let rule = single("hmac-sha256", secret, "header", "X-Signature");

    // The right digest under a wrong prefix is never accepted.
    let sig = format!("sha1={}", tag);
    request.insert("X-Signature", &sig);
    assert!(!rule.match_hmac_sha256(&request));

    let sig = format!("sha256={}", tag);
    request.insert("X-Signature", &sig);
    assert!(rule.match_hmac_sha256(&request));

    // An empty secret never matches.
    let empty = single("hmac-sha256", "", "header", "X-Signature");
    assert!(!empty.match_hmac_sha256(&request));

    // A missing signature header never matches.
    let absent = single("hmac-sha256", secret, "header", "X-Other");
    assert!(!absent.match_hmac_sha256(&request));
}

#[test]
fn test_match_hmac_sha512() {
    let mut request = sample_request();
    let secret = "0xdeadbeef";
    let mut hasher = Hmac::new(crypto::sha2::Sha512::new(), secret.as_bytes());
    hasher.input(request.get("Body").unwrap().as_bytes());
    let tag = hasher.result();
    let sig = format!("sha512={}", hex_of(tag.code()));
    request.insert("X-Signature", &sig);

    let rule = single("hmac-sha512", secret, "header", "X-Signature");
    assert!(rule.match_hmac_sha512(&request));

    let wrong = single("hmac-sha512", "other", "header", "X-Signature");
    assert!(!wrong.match_hmac_sha512(&request));
}

#[test]
fn test_hmac_missing_body_fails() {
    let mut request = StrMap::new();
    request.insert("X-Signature", "sha256=00");
    let payload = request.get("Body");
    assert_eq!(payload, None);
    assert!(!check_payload_signature256(
        &payload,
        "k",
        "sha256=00"
    ));
}

#[test]
fn test_extract_signature() {
    let source = "sha1=8888";
    let prefix = "sha1=";
    assert_eq!(vec!["8888"], extract_signatures(source, prefix));
    let source = "sha1=11111, sha1=22222, sha1=33333, sha256=44444, sha1=55555";
    assert_eq!(
        vec!["11111", "22222", "33333", "55555"],
        extract_signatures(source, prefix)
    );
}

#[test]
fn test_extract_comma_separated_values() {
    let source = "sha1=11111, sha1=22222, sha1=33333, sha256=44444, sha1=55555";
    let prefix = "sha1=";
    assert_eq!(
        vec!["11111", "22222", "33333", "55555"],
        extract_comma_separated_values(source, prefix)
    )
}

#[test]
fn test_extract_signature_strips_prefix_once() {
    // A doubled prefix loses only one copy; the rest is the candidate.
    assert_eq!(
        vec!["sha1=8888"],
        extract_signatures("sha1=sha1=8888", "sha1=")
    );
    // A value without the prefix yields no candidate at all, comma or not.
    assert_eq!(Vec::<String>::new(), extract_signatures("8888", "sha1="));
}

#[test]
fn test_hmac_unprefixed_header_never_matches() {
    let mut request = sample_request();
    let secret = "1234";
    let mut hasher = Hmac::new(Sha1::new(), secret.as_bytes());
    hasher.input(request.get("Body").unwrap().as_bytes());
    let tag = hasher.result();
    let tag = hex_of(tag.code());

    // The bare digest without its algorithm prefix is not a candidate.
    request.insert("X-Signature", &tag);
    let rule = single("hmac-sha1", secret, "header", "X-Signature");
    assert!(!rule.match_hmac_sha1(&request));
}

#[test]
fn test_extract_comma_separated_cidr() {
    let s = "1.1.1.1/24,2.2.2.2/24";
    println!("{:#?}", extract_comma_separated_values(s, ""));
}

#[test]
fn test_validate_mac_comparison() {
    let sigs = vec!["aa".to_string(), "bb".to_string()];
    assert!(validate_mac("bb", &sigs));
    assert!(!validate_mac("cc", &sigs));
}

#[test]
fn test_match_ip_white_list() {
    let mut request = sample_request();
    request.insert("Peer-Address", "10.0.2.6:56020");

    let single_rule = single("ip-whitelist", "10.0.1.2/24, 10.0.2.5/24, 10.0.0.1/32", "", "");
    assert!(single_rule.match_ip_whitelist(&request));
}

#[test]
fn test_ip_white_list_fails_closed() {
    let mut request = sample_request();
    request.insert("Peer-Address", "10.0.2.6:56020");

    // A malformed entry neither matches nor aborts the remaining entries.
    let rule = single("ip-whitelist", "not-a-range, 10.0.2.0/24", "", "");
    assert!(rule.match_ip_whitelist(&request));

    let rule = single("ip-whitelist", "not-a-range, 10.9.9.0/24", "", "");
    assert!(!rule.match_ip_whitelist(&request));

    // An unparsable peer address never matches.
    request.insert("Peer-Address", "nonsense");
    let rule = single("ip-whitelist", "0.0.0.0/0", "", "");
    assert!(!rule.match_ip_whitelist(&request));
}

#[test]
fn test_match_value() {
    let request = sample_request();

    let single_rule = single("value", "127.0.0.1:7878", "header", "Host");
    assert!(single_rule.match_value(&request));

    let single_rule = single("value", "val1", "payload", "data.data2.0");
    assert!(single_rule.match_value(&request));
}

#[test]
fn test_match_regex() {
    let request = sample_request();

    let single_rule = single("regex", "127.0.0.1:i*", "header", "Host");
    assert!(single_rule.match_regex(&request));

    let single_rule = single("regex", "127.0.0.1:ii*", "header", "Host");
    assert!(!single_rule.match_regex(&request));
}

#[test]
fn test_match_regex_invalid_pattern_fails_closed() {
    let request = sample_request();
    let single_rule = single("regex", "(", "header", "Host");
    assert!(!single_rule.match_regex(&request));
}

#[test]
fn test_empty_and_matches_everything() {
    let request = sample_request();
    let rule = Rule::And(AndRule { and: vec![] });
    assert!(rule.is_matched(&request));
    let empty = StrMap::new();
    assert!(rule.is_matched(&empty));
}

#[test]
fn test_empty_or_matches_nothing() {
    let request = sample_request();
    let rule = Rule::Or(OrRule { or: vec![] });
    assert!(!rule.is_matched(&request));
    let empty = StrMap::new();
    assert!(!rule.is_matched(&empty));
}

#[test]
fn test_not_negates() {
    let request = sample_request();
    let inner = Rule::Single(single("value", "127.0.0.1:7878", "header", "Host"));
    assert!(inner.is_matched(&request));
    let negated = Rule::Not(NotRule {
        not: Box::new(inner),
    });
    assert!(!negated.is_matched(&request));

    let never = Rule::Not(NotRule {
        not: Box::new(Rule::Invalid),
    });
    assert!(never.is_matched(&request));
}

#[test]
fn test_rule_tree_combination() {
    let request = sample_request();
    let both = Rule::And(AndRule {
        and: vec![
            Rule::Single(single("value", "POST", "header", "Method")),
            Rule::Or(OrRule {
                or: vec![
                    Rule::Single(single("value", "no-such", "header", "Host")),
                    Rule::Single(single("value", "curl/7.77.0", "header", "User-Agent")),
                ],
            }),
        ],
    });
    assert!(both.is_matched(&request));

    let broken = Rule::And(AndRule {
        and: vec![
            Rule::Single(single("value", "POST", "header", "Method")),
            Rule::Invalid,
        ],
    });
    assert!(!broken.is_matched(&request));
}

#[test]
fn test_unknown_kind_never_matches() {
    let request = sample_request();
    let rule = single("mystery", "x", "header", "Host");
    assert!(!rule.is_matched(&request));
}
