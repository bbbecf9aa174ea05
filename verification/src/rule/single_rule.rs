//! Leaf rules: exact value comparison, regular-expression match, HMAC
//! signature verification and CIDR allow-listing.  The cryptographic, regex
//! and network-range primitives are outside crates behind trusted
//! declarations; everything around them is verified.

use crate::parser::{get_payload_item_from_http_request, payload_item_of, req_lookup};
use crate::strmap::StrMap;
use crate::strutil::{
    bytes_to_hex, contains_char, find_char, first_index_of, hex_of_bytes, lemma_first_index_of,
    seq_has_char, split_on, split_str, starts_with, str_eq, str_starts_with, strip_prefix_once,
    strip_prefix_once_str, trim_ws, trim_ws_str,
};
use crypto::mac::Mac;
use vstd::prelude::*;

verus! {

/// A leaf rule: `kind` picks the matcher, `value` its right-hand side (an
/// expected value, a pattern, a secret or a CIDR list), and `source`/`name`
/// address the request part the matcher reads.
#[derive(Debug)]
pub struct SingleRule {
    pub kind: String,
    pub value: String,
    pub source: String,
    pub name: String,
}

// ---------------------------------------------------------------------------
// Reading a value out of the request
// ---------------------------------------------------------------------------

/// The value a leaf rule reads: a header by name, or a payload path; any
/// other source yields nothing.
pub open spec fn source_value(
    req: Map<Seq<char>, Seq<char>>,
    source: Seq<char>,
    name: Seq<char>,
) -> Option<Seq<char>> {
    if source == "header"@ {
        req_lookup(req, name)
    } else if source == "payload"@ {
        payload_item_of(req, name)
    } else {
        None
    }
}

// ---------------------------------------------------------------------------
// Signature extraction
// ---------------------------------------------------------------------------

/// Trim each piece, keep those carrying `prefix`, and strip one copy of the
/// prefix from each.
pub open spec fn keep_prefixed(parts: Seq<Seq<char>>, prefix: Seq<char>) -> Seq<Seq<char>>
    decreases parts.len(),
{
    if parts.len() == 0 {
        Seq::empty()
    } else {
        let rest = keep_prefixed(parts.drop_last(), prefix);
        let t = trim_ws(parts.last());
        if starts_with(t, prefix) {
            rest.push(strip_prefix_once(t, prefix))
        } else {
            rest
        }
    }
}

/// The candidates in a comma-separated list: split on `,`, trim, keep the
/// entries starting with `prefix`, strip the prefix from each.
pub open spec fn extract_csv_spec(source: Seq<char>, prefix: Seq<char>) -> Seq<Seq<char>> {
    keep_prefixed(split_on(source, ','), prefix)
}

/// The signature candidates of a header value: the comma-separated entries,
/// trimmed, those carrying the algorithm prefix kept with the prefix
/// stripped; a value without a comma is one entry, treated the same way.
pub open spec fn extract_signatures_spec(source: Seq<char>, prefix: Seq<char>) -> Seq<Seq<char>> {
    extract_csv_spec(source, prefix)
}

/// Split a comma-separated list, trim each entry, keep those starting with
/// `prefix` and strip it from them.
pub fn extract_comma_separated_values(source: &str, prefix: &str) -> (r: Vec<String>)
    ensures
        r.deep_view() == extract_csv_spec(source@, prefix@),
{
    let parts = split_str(source, ',');
    let ghost pdv = parts.deep_view();
    let mut out: Vec<String> = Vec::new();
    let mut i: usize = 0;
    while i < parts.len()
        invariant
            pdv == parts.deep_view(),
            parts@.len() == pdv.len(),
            0 <= i <= pdv.len(),
            out.deep_view() == keep_prefixed(pdv.take(i as int), prefix@),
        decreases pdv.len() - i,
    {
        proof {
            assert(pdv[i as int] == parts@[i as int]@);
            assert(pdv.take(i + 1).drop_last() =~~= pdv.take(i as int));
            assert(pdv.take(i + 1).last() == pdv[i as int]);
        }
        let t = trim_ws_str(parts[i].as_str());
        if str_starts_with(t.as_str(), prefix) {
            out.push(strip_prefix_once_str(t.as_str(), prefix));
            proof {
                assert(out.deep_view() =~~= keep_prefixed(pdv.take(i + 1), prefix@));
            }
        } else {
            proof {
                assert(out.deep_view() =~~= keep_prefixed(pdv.take(i + 1), prefix@));
            }
        }
        i = i + 1;
    }
    proof {
        assert(pdv.take(pdv.len() as int) =~~= pdv);
    }
    out
}

/// Extract the signature candidates out of a signature header value.
pub fn extract_signatures(source: &str, prefix: &str) -> (r: Vec<String>)
    ensures
        r.deep_view() == extract_signatures_spec(source@, prefix@),
{
    extract_comma_separated_values(source, prefix)
}

// ---------------------------------------------------------------------------
// HMAC verification
// ---------------------------------------------------------------------------

/// The HMAC-SHA1 tag of `msg` under `key`, as raw bytes.
pub uninterp spec fn hmac_sha1_tag(key: Seq<char>, msg: Seq<char>) -> Seq<u8>;

/// The HMAC-SHA256 tag of `msg` under `key`, as raw bytes.
pub uninterp spec fn hmac_sha256_tag(key: Seq<char>, msg: Seq<char>) -> Seq<u8>;

/// The HMAC-SHA512 tag of `msg` under `key`, as raw bytes.
pub uninterp spec fn hmac_sha512_tag(key: Seq<char>, msg: Seq<char>) -> Seq<u8>;

/// The hex digest the rules compare against: the tag's lowercase hex text.
pub open spec fn hmac_sha1_hex(key: Seq<char>, msg: Seq<char>) -> Seq<char> {
    hex_of_bytes(hmac_sha1_tag(key, msg))
}

pub open spec fn hmac_sha256_hex(key: Seq<char>, msg: Seq<char>) -> Seq<char> {
    hex_of_bytes(hmac_sha256_tag(key, msg))
}

pub open spec fn hmac_sha512_hex(key: Seq<char>, msg: Seq<char>) -> Seq<char> {
    hex_of_bytes(hmac_sha512_tag(key, msg))
}

/// Relies on `crypto::hmac::Hmac` over `crypto::sha1::Sha1`: the tag is a
/// function of key and message alone.
#[verifier::external_body]
fn hmac_sha1_tag_bytes(secret: &str, payload: &str) -> (r: Vec<u8>)
    ensures
        r@ == hmac_sha1_tag(secret@, payload@),
{
    let mut h = crypto::hmac::Hmac::new(crypto::sha1::Sha1::new(), secret.as_bytes());
    h.input(payload.as_bytes());
    h.result().code().to_vec()
}

/// Relies on `crypto::hmac::Hmac` over `crypto::sha2::Sha256`: the tag is a
/// function of key and message alone.
#[verifier::external_body]
fn hmac_sha256_tag_bytes(secret: &str, payload: &str) -> (r: Vec<u8>)
    ensures
        r@ == hmac_sha256_tag(secret@, payload@),
{
    let mut h = crypto::hmac::Hmac::new(crypto::sha2::Sha256::new(), secret.as_bytes());
    h.input(payload.as_bytes());
    h.result().code().to_vec()
}

/// Relies on `crypto::hmac::Hmac` over `crypto::sha2::Sha512`: the tag is a
/// function of key and message alone.
#[verifier::external_body]
fn hmac_sha512_tag_bytes(secret: &str, payload: &str) -> (r: Vec<u8>)
    ensures
        r@ == hmac_sha512_tag(secret@, payload@),
{
    let mut h = crypto::hmac::Hmac::new(crypto::sha2::Sha512::new(), secret.as_bytes());
    h.input(payload.as_bytes());
    h.result().code().to_vec()
}

/// Whether some candidate equals `digest` exactly.
pub open spec fn any_equals(candidates: Seq<Seq<char>>, digest: Seq<char>) -> bool {
    exists|i: int| 0 <= i < candidates.len() && candidates[i] == digest
}

/// Whether some signature candidate equals the computed digest, compared as
/// exact strings.
pub fn validate_mac(digest: &str, signatures: &Vec<String>) -> (r: bool)
    ensures
        r == any_equals(signatures.deep_view(), digest@),
{
    let mut i: usize = 0;
    while i < signatures.len()
        invariant
            0 <= i <= signatures@.len(),
            forall|j: int| 0 <= j < i ==> signatures.deep_view()[j] != digest@,
        decreases signatures@.len() - i,
    {
        if str_eq(signatures[i].as_str(), digest) {
            proof {
                assert(signatures.deep_view()[i as int] == digest@);
            }
            return true;
        }
        proof {
            assert(signatures.deep_view()[i as int] == signatures@[i as int]@);
        }
        i = i + 1;
    }
    false
}

/// An HMAC check passes exactly when the secret is non-empty, a payload is
/// present, and the hex tag of the payload under the secret equals one of
/// the prefix-stripped candidates of the signature header value.
pub open spec fn signature_check(
    payload: Option<Seq<char>>,
    secret: Seq<char>,
    signature: Seq<char>,
    prefix: Seq<char>,
    digest: Seq<char>,
) -> bool {
    match payload {
        Some(_) => secret.len() > 0 && any_equals(extract_signatures_spec(signature, prefix), digest),
        None => false,
    }
}

pub open spec fn sha1_signature_ok(
    payload: Option<Seq<char>>,
    secret: Seq<char>,
    signature: Seq<char>,
) -> bool {
    match payload {
        Some(p) => signature_check(payload, secret, signature, "sha1="@, hmac_sha1_hex(secret, p)),
        None => false,
    }
}

pub open spec fn sha256_signature_ok(
    payload: Option<Seq<char>>,
    secret: Seq<char>,
    signature: Seq<char>,
) -> bool {
    match payload {
        Some(p) => signature_check(
            payload,
            secret,
            signature,
            "sha256="@,
            hmac_sha256_hex(secret, p),
        ),
        None => false,
    }
}

pub open spec fn sha512_signature_ok(
    payload: Option<Seq<char>>,
    secret: Seq<char>,
    signature: Seq<char>,
) -> bool {
    match payload {
        Some(p) => signature_check(
            payload,
            secret,
            signature,
            "sha512="@,
            hmac_sha512_hex(secret, p),
        ),
        None => false,
    }
}

/// Check a `sha1=`-prefixed signature header against the payload's
/// HMAC-SHA1 tag under `secret`; an empty secret or a missing payload never
/// matches.
pub fn check_payload_signature(payload: &Option<String>, secret: &str, signature: &str) -> (r:
    bool)
    ensures
        r == sha1_signature_ok(payload.deep_view(), secret@, signature@),
{
    let p = match payload {
        Some(p) => p,
        None => {
            return false;
        },
    };
    if secret.unicode_len() == 0 {
        return false;
    }
    let tag = hmac_sha1_tag_bytes(secret, p.as_str());
    let digest = bytes_to_hex(&tag);
    let sigs = extract_signatures(signature, "sha1=");
    validate_mac(digest.as_str(), &sigs)
}

/// Check a `sha256=`-prefixed signature header against the payload's
/// HMAC-SHA256 tag under `secret`; an empty secret or a missing payload
/// never matches.
pub fn check_payload_signature256(payload: &Option<String>, secret: &str, signature: &str) -> (r:
    bool)
    ensures
        r == sha256_signature_ok(payload.deep_view(), secret@, signature@),
{
    let p = match payload {
        Some(p) => p,
        None => {
            return false;
        },
    };
    if secret.unicode_len() == 0 {
        return false;
    }
    let tag = hmac_sha256_tag_bytes(secret, p.as_str());
    let digest = bytes_to_hex(&tag);
    let sigs = extract_signatures(signature, "sha256=");
    validate_mac(digest.as_str(), &sigs)
}

/// Check a `sha512=`-prefixed signature header against the payload's
/// HMAC-SHA512 tag under `secret`; an empty secret or a missing payload
/// never matches.
pub fn check_payload_signature512(payload: &Option<String>, secret: &str, signature: &str) -> (r:
    bool)
    ensures
        r == sha512_signature_ok(payload.deep_view(), secret@, signature@),
{
    let p = match payload {
        Some(p) => p,
        None => {
            return false;
        },
    };
    if secret.unicode_len() == 0 {
        return false;
    }
    let tag = hmac_sha512_tag_bytes(secret, p.as_str());
    let digest = bytes_to_hex(&tag);
    let sigs = extract_signatures(signature, "sha512=");
    validate_mac(digest.as_str(), &sigs)
}

// ---------------------------------------------------------------------------
// CIDR allow-listing
// ---------------------------------------------------------------------------

/// Whether an address text parses as an IP address.
pub uninterp spec fn ip_text_ok(s: Seq<char>) -> bool;

/// Whether a CIDR text parses as a network range.
pub uninterp spec fn cidr_text_ok(s: Seq<char>) -> bool;

/// Whether the address named by `ip` lies in the range named by `cidr`.
pub uninterp spec fn cidr_has(cidr: Seq<char>, ip: Seq<char>) -> bool;

/// Relies on `ipnet::IpNet::from_str`, the address parse of
/// `core::net::IpAddr` and `ipnet::IpNet::contains`: whether the two texts
/// parse, and whether the address lies in the range, depend on the texts
/// alone.
#[verifier::external_body]
fn cidr_entry_contains(cidr: &str, ip: &str) -> (r: Option<bool>)
    ensures
        (r is Some) == (cidr_text_ok(cidr@) && ip_text_ok(ip@)),
        match r {
            Some(b) => b == cidr_has(cidr@, ip@),
            None => true,
        },
{
    let net: ipnet::IpNet = match cidr.parse() {
        Ok(n) => n,
        Err(_) => return None,
    };
    let addr: core::net::IpAddr = match ip.parse() {
        Ok(a) => a,
        Err(_) => return None,
    };
    Some(net.contains(&addr))
}

/// The peer address with the trailing `:port` removed: everything before
/// the first `:`.
pub open spec fn peer_ip(peer: Seq<char>) -> Seq<char> {
    let i = first_index_of(peer, ':');
    if i < 0 {
        peer
    } else {
        peer.subrange(0, i)
    }
}

/// The allow-list entries of a rule value: a comma-separated list is split
/// and trimmed per entry; a single entry is taken as is.
pub open spec fn ip_entries(value: Seq<char>) -> Seq<Seq<char>> {
    if seq_has_char(value, ',') {
        extract_csv_spec(value, ""@)
    } else {
        seq![value]
    }
}

/// An allow-list matches exactly when the peer address is present, its IP
/// part parses, and the IP lies in at least one entry that parses as a
/// range; a malformed entry never matches and never aborts the others.
pub open spec fn ip_whitelist_rule(req: Map<Seq<char>, Seq<char>>, value: Seq<char>) -> bool {
    match req_lookup(req, "Peer-Address"@) {
        None => false,
        Some(peer) => {
            let ip = peer_ip(peer);
            ip_text_ok(ip) && exists|i: int|
                0 <= i < ip_entries(value).len() && cidr_text_ok(#[trigger] ip_entries(value)[i])
                    && cidr_has(ip_entries(value)[i], ip)
        },
    }
}

// ---------------------------------------------------------------------------
// Regular expressions
// ---------------------------------------------------------------------------

/// Whether a pattern text compiles as a regular expression.
pub uninterp spec fn regex_ok(pattern: Seq<char>) -> bool;

/// Whether the expression named by `pattern` matches somewhere in `text`.
pub uninterp spec fn regex_match(pattern: Seq<char>, text: Seq<char>) -> bool;

/// Relies on `regex::Regex::new` and `regex::Regex::is_match`: whether the
/// pattern compiles, and whether it matches the text, depend on the two
/// texts alone.
#[verifier::external_body]
fn regex_is_match(pattern: &str, text: &str) -> (r: Option<bool>)
    ensures
        (r is Some) == regex_ok(pattern@),
        match r {
            Some(b) => b == regex_match(pattern@, text@),
            None => true,
        },
{
    match regex::Regex::new(pattern) {
        Ok(re) => Some(re.is_match(text)),
        Err(_) => None,
    }
}

/// A regex rule matches exactly when the addressed value resolves, the
/// pattern compiles, and it matches the value; an invalid pattern never
/// matches.
pub open spec fn regex_rule(
    req: Map<Seq<char>, Seq<char>>,
    value: Seq<char>,
    source: Seq<char>,
    name: Seq<char>,
) -> bool {
    match source_value(req, source, name) {
        Some(t) => regex_ok(value) && regex_match(value, t),
        None => false,
    }
}

// ---------------------------------------------------------------------------
// The leaf dispatch
// ---------------------------------------------------------------------------

pub open spec fn hmac_sha1_rule(
    req: Map<Seq<char>, Seq<char>>,
    secret: Seq<char>,
    name: Seq<char>,
) -> bool {
    match req_lookup(req, name) {
        Some(sig) => sha1_signature_ok(req_lookup(req, "Body"@), secret, sig),
        None => false,
    }
}

pub open spec fn hmac_sha256_rule(
    req: Map<Seq<char>, Seq<char>>,
    secret: Seq<char>,
    name: Seq<char>,
) -> bool {
    match req_lookup(req, name) {
        Some(sig) => sha256_signature_ok(req_lookup(req, "Body"@), secret, sig),
        None => false,
    }
}

pub open spec fn hmac_sha512_rule(
    req: Map<Seq<char>, Seq<char>>,
    secret: Seq<char>,
    name: Seq<char>,
) -> bool {
    match req_lookup(req, name) {
        Some(sig) => sha512_signature_ok(req_lookup(req, "Body"@), secret, sig),
        None => false,
    }
}

/// What a leaf rule means for a request, by kind.  A kind the library does
/// not know never matches; rules read from other files are substituted into
/// the tree when the configuration is loaded, before matching starts.
pub open spec fn single_matches(r: SingleRule, req: Map<Seq<char>, Seq<char>>) -> bool {
    if r.kind@ == "value"@ {
        source_value(req, r.source@, r.name@) == Some(r.value@)
    } else if r.kind@ == "regex"@ {
        regex_rule(req, r.value@, r.source@, r.name@)
    } else if r.kind@ == "hmac-sha1"@ {
        hmac_sha1_rule(req, r.value@, r.name@)
    } else if r.kind@ == "hmac-sha256"@ {
        hmac_sha256_rule(req, r.value@, r.name@)
    } else if r.kind@ == "hmac-sha512"@ {
        hmac_sha512_rule(req, r.value@, r.name@)
    } else if r.kind@ == "ip-whitelist"@ {
        ip_whitelist_rule(req, r.value@)
    } else {
        false
    }
}

impl SingleRule {
    /// The source a leaf rule reads when none is configured: none at all.
    pub fn default_source() -> (r: String)
        ensures
            r@ == Seq::<char>::empty(),
    {
        String::new()
    }

    /// The name a leaf rule addresses when none is configured: none at all.
    pub fn default_name() -> (r: String)
        ensures
            r@ == Seq::<char>::empty(),
    {
        String::new()
    }

    /// The value this rule reads from the request, per its `source`.
    fn get_value_from_source(&self, http_request: &StrMap) -> (r: Option<String>)
        ensures
            match r {
                Some(v) => source_value(http_request@, self.source@, self.name@) == Some(v@),
                None => source_value(http_request@, self.source@, self.name@) is None,
            },
    {
        if str_eq(self.source.as_str(), "header") {
            http_request.get(self.name.as_str())
        } else if str_eq(self.source.as_str(), "payload") {
            get_payload_item_from_http_request(self.name.as_str(), http_request)
        } else {
            None
        }
    }

    /// Exact comparison of the addressed value against `self.value`.
    pub fn match_value(&self, http_request: &StrMap) -> (r: bool)
        ensures
            r == (source_value(http_request@, self.source@, self.name@) == Some(self.value@)),
    {
        match self.get_value_from_source(http_request) {
            Some(v) => str_eq(v.as_str(), self.value.as_str()),
            None => false,
        }
    }

    /// Regular-expression match of the addressed value against the pattern
    /// in `self.value`; an invalid pattern never matches.
    pub fn match_regex(&self, http_request: &StrMap) -> (r: bool)
        ensures
            r == regex_rule(http_request@, self.value@, self.source@, self.name@),
    {
        match self.get_value_from_source(http_request) {
            Some(t) => match regex_is_match(self.value.as_str(), t.as_str()) {
                Some(b) => b,
                None => false,
            },
            None => false,
        }
    }

    /// HMAC-SHA1 verification of the request body against the signature
    /// header named by `self.name`, with `self.value` as the secret.
    pub fn match_hmac_sha1(&self, http_request: &StrMap) -> (r: bool)
        ensures
            r == hmac_sha1_rule(http_request@, self.value@, self.name@),
    {
        let payload = http_request.get("Body");
        let signature = match http_request.get(self.name.as_str()) {
            Some(s) => s,
            None => {
                return false;
            },
        };
        check_payload_signature(&payload, self.value.as_str(), signature.as_str())
    }

    /// HMAC-SHA256 verification, as for SHA1.
    pub fn match_hmac_sha256(&self, http_request: &StrMap) -> (r: bool)
        ensures
            r == hmac_sha256_rule(http_request@, self.value@, self.name@),
    {
        let payload = http_request.get("Body");
        let signature = match http_request.get(self.name.as_str()) {
            Some(s) => s,
            None => {
                return false;
            },
        };
        check_payload_signature256(&payload, self.value.as_str(), signature.as_str())
    }

    /// HMAC-SHA512 verification, as for SHA1.
    pub fn match_hmac_sha512(&self, http_request: &StrMap) -> (r: bool)
        ensures
            r == hmac_sha512_rule(http_request@, self.value@, self.name@),
    {
        let payload = http_request.get("Body");
        let signature = match http_request.get(self.name.as_str()) {
            Some(s) => s,
            None => {
                return false;
            },
        };
        check_payload_signature512(&payload, self.value.as_str(), signature.as_str())
    }

    /// CIDR allow-listing of the request's peer address against the
    /// comma-separated ranges in `self.value`.
    pub fn match_ip_whitelist(&self, http_request: &StrMap) -> (r: bool)
        ensures
            r == ip_whitelist_rule(http_request@, self.value@),
    {
        let peer = match http_request.get("Peer-Address") {
            Some(p) => p,
            None => {
                return false;
            },
        };
        proof {
            lemma_first_index_of(peer@, ':');
        }
        let ip = match find_char(peer.as_str(), ':') {
            Some(i) => peer.as_str().substring_char(0, i).to_owned(),
            None => peer.clone(),
        };
        proof {
            assert(ip@ == peer_ip(peer@));
        }
        let entries: Vec<String> = if contains_char(self.value.as_str(), ',') {
            extract_comma_separated_values(self.value.as_str(), "")
        } else {
            let mut v: Vec<String> = Vec::new();
            v.push(self.value.clone());
            v
        };
        let ghost edv = entries.deep_view();
        proof {
            assert(edv =~~= ip_entries(self.value@));
        }
        let mut i: usize = 0;
        while i < entries.len()
            invariant
                edv == entries.deep_view(),
                edv == ip_entries(self.value@),
                entries@.len() == edv.len(),
                req_lookup(http_request@, "Peer-Address"@) == Some(peer@),
                ip@ == peer_ip(peer@),
                0 <= i <= edv.len(),
                forall|j: int|
                    0 <= j < i ==> !(ip_text_ok(ip@) && cidr_text_ok(#[trigger] edv[j])
                        && cidr_has(edv[j], ip@)),
            decreases edv.len() - i,
        {
            proof {
                assert(edv[i as int] == entries@[i as int]@);
            }
            match cidr_entry_contains(entries[i].as_str(), ip.as_str()) {
                Some(b) => {
                    if b {
                        proof {
                            let ghost k = i as int;
                            assert(cidr_text_ok(ip_entries(self.value@)[k]) && cidr_has(
                                ip_entries(self.value@)[k],
                                ip@,
                            ));
                        }
                        return true;
                    }
                },
                None => (),
            }
            i = i + 1;
        }
        false
    }

    /// Evaluate this leaf against a request, dispatching on `kind`.
    pub fn is_matched(&self, http_request: &StrMap) -> (r: bool)
        ensures
            r == single_matches(*self, http_request@),
    {
        if str_eq(self.kind.as_str(), "value") {
            self.match_value(http_request)
        } else if str_eq(self.kind.as_str(), "regex") {
            self.match_regex(http_request)
        } else if str_eq(self.kind.as_str(), "hmac-sha1") {
            self.match_hmac_sha1(http_request)
        } else if str_eq(self.kind.as_str(), "hmac-sha256") {
            self.match_hmac_sha256(http_request)
        } else if str_eq(self.kind.as_str(), "hmac-sha512") {
            self.match_hmac_sha512(http_request)
        } else if str_eq(self.kind.as_str(), "ip-whitelist") {
            self.match_ip_whitelist(http_request)
        } else {
            false
        }
    }
}

} // verus!
