//! Parsing of the request line, header lines, URLs and JSON payload paths.
//!
//! The functions here work on plain values: the surrounding program reads
//! bytes from the transport and hands the decoded lines and body text in.

use crate::json::{json_parse, parse_json, Json};
use crate::strmap::StrMap;
use crate::strutil::{
    find_char, find_sub, find_sub_str, first_index_of, lemma_first_index_of, parse_usize, split_on,
    split_str, str_eq, trim_char, trim_char_str, usize_str_value,
};
use vstd::prelude::*;

verus! {

/// Upper bound on an accepted request body, in bytes.
pub const MAX_BODY_BYTES: usize = 2097152;

/// Whether a declared content length is within the accepted bound.
pub fn http_body_within_cap(content_length: usize) -> (r: bool)
    ensures
        r == (content_length <= 2097152),
{
    content_length <= MAX_BODY_BYTES
}

/// A map lookup as an optional value.
pub open spec fn req_lookup(req: Map<Seq<char>, Seq<char>>, k: Seq<char>) -> Option<Seq<char>> {
    if req.contains_key(k) {
        Some(req[k])
    } else {
        None
    }
}

// ---------------------------------------------------------------------------
// URLs
// ---------------------------------------------------------------------------

/// The path part of a URL: everything before the first `?`.
pub open spec fn url_path(url: Seq<char>) -> Seq<char> {
    let i = first_index_of(url, '?');
    if i < 0 {
        url
    } else {
        url.subrange(0, i)
    }
}

/// The hook id a URL addresses: its path with surrounding `/` trimmed.
pub open spec fn hook_id_of(url: Seq<char>) -> Seq<char> {
    trim_char(url_path(url), '/')
}

/// Extract the hook id from a request URL.
pub fn parse_hook_id_from_url(url: &str) -> (r: String)
    ensures
        r@ == hook_id_of(url@),
{
    proof {
        lemma_first_index_of(url@, '?');
    }
    let path = match find_char(url, '?') {
        Some(i) => s_substring(url, 0, i),
        None => url.to_owned(),
    };
    proof {
        assert(url@.subrange(0, url@.len() as int) =~= url@);
    }
    trim_char_str(path.as_str(), '/')
}

/// Key of a `key=value` query pair: everything before the first `=`.
pub open spec fn pair_key(p: Seq<char>) -> Seq<char> {
    let i = first_index_of(p, '=');
    if i < 0 {
        p
    } else {
        p.subrange(0, i)
    }
}

/// Value of a `key=value` query pair: everything after the first `=`, empty
/// when there is none.
pub open spec fn pair_val(p: Seq<char>) -> Seq<char> {
    let i = first_index_of(p, '=');
    if i < 0 {
        Seq::empty()
    } else {
        p.subrange(i + 1, p.len() as int)
    }
}

/// The map of query pairs, first occurrence of a key winning.
pub open spec fn params_of_pairs(ps: Seq<Seq<char>>) -> Map<Seq<char>, Seq<char>>
    decreases ps.len(),
{
    if ps.len() == 0 {
        Map::empty()
    } else {
        let m = params_of_pairs(ps.drop_last());
        if m.contains_key(pair_key(ps.last())) {
            m
        } else {
            m.insert(pair_key(ps.last()), pair_val(ps.last()))
        }
    }
}

/// The query parameters of a URL: the text after the first `?`, split on
/// `&`, each pair split on its first `=`; no `?` means no parameters.
pub open spec fn url_params(url: Seq<char>) -> Map<Seq<char>, Seq<char>> {
    let i = first_index_of(url, '?');
    if i < 0 {
        Map::empty()
    } else {
        params_of_pairs(split_on(url.subrange(i + 1, url.len() as int), '&'))
    }
}

/// Parse the query parameters out of a URL.
pub fn parse_parameters_from_url(url: &str) -> (r: StrMap)
    ensures
        r@ == url_params(url@),
{
    proof {
        lemma_first_index_of(url@, '?');
    }
    let qi = match find_char(url, '?') {
        None => {
            return StrMap::new();
        },
        Some(i) => i,
    };
    let n = url.unicode_len();
    let query = url.substring_char(qi + 1, n);
    let parts = split_str(query, '&');
    let ghost pdv = parts.deep_view();
    let mut m = StrMap::new();
    let mut i: usize = 0;
    while i < parts.len()
        invariant
            pdv == parts.deep_view(),
            parts@.len() == pdv.len(),
            0 <= i <= pdv.len(),
            m@ == params_of_pairs(pdv.take(i as int)),
        decreases pdv.len() - i,
    {
        proof {
            assert(pdv[i as int] == parts@[i as int]@);
            lemma_first_index_of(parts@[i as int]@, '=');
        }
        let part = &parts[i];
        let pn = part.as_str().unicode_len();
        let (k, v) = match find_char(part.as_str(), '=') {
            Some(e) => (s_substring(part.as_str(), 0, e), s_substring(part.as_str(), e + 1, pn)),
            None => (part.clone(), String::new()),
        };
        proof {
            assert(k@ == pair_key(pdv[i as int]));
            assert(v@ == pair_val(pdv[i as int]));
            assert(pdv.take(i + 1).drop_last() =~~= pdv.take(i as int));
            assert(pdv.take(i + 1).last() == pdv[i as int]);
        }
        m.insert_if_absent(k.as_str(), v.as_str());
        i = i + 1;
    }
    proof {
        assert(pdv.take(pdv.len() as int) =~~= pdv);
    }
    m
}

/// An owned substring by character positions.
fn s_substring(s: &str, from: usize, to: usize) -> (r: String)
    requires
        from <= to <= s@.len(),
    ensures
        r@ == s@.subrange(from as int, to as int),
{
    s.substring_char(from, to).to_owned()
}

// ---------------------------------------------------------------------------
// Header lines
// ---------------------------------------------------------------------------

pub open spec fn colon_space() -> Seq<char> {
    seq![':', ' ']
}

/// Key of a header line: everything before the first `": "`, or the whole
/// line when there is none.
pub open spec fn header_key(line: Seq<char>) -> Seq<char> {
    let i = find_sub(line, colon_space());
    if i < 0 {
        line
    } else {
        line.subrange(0, i)
    }
}

/// Value of a header line: everything after the first `": "`, empty when
/// there is none.
pub open spec fn header_val(line: Seq<char>) -> Seq<char> {
    let i = find_sub(line, colon_space());
    if i < 0 {
        Seq::empty()
    } else {
        line.subrange(i + 2, line.len() as int)
    }
}

/// Fold the header lines from index `i` on into `m`, first occurrence of a
/// key winning.
pub open spec fn fold_header_lines(
    lines: Seq<Seq<char>>,
    i: int,
    m: Map<Seq<char>, Seq<char>>,
) -> Map<Seq<char>, Seq<char>>
    decreases lines.len() - i,
{
    if i < 0 || i >= lines.len() {
        m
    } else {
        let k = header_key(lines[i]);
        let m2 = if m.contains_key(k) {
            m
        } else {
            m.insert(k, header_val(lines[i]))
        };
        fold_header_lines(lines, i + 1, m2)
    }
}

/// The request map seeded from the request line's first three tokens.
pub open spec fn base_request_map(toks: Seq<Seq<char>>) -> Map<Seq<char>, Seq<char>> {
    Map::empty().insert("Method"@, toks[0]).insert("Url"@, toks[1]).insert("Version"@, toks[2])
}

/// The request map a sequence of header lines denotes: the first line is the
/// request line `METHOD SP URL SP VERSION` (fewer than three tokens is a
/// fatal parse error), every further line a `Name: Value` header, duplicate
/// names keeping their first value.
pub open spec fn request_map_of(lines: Seq<Seq<char>>) -> Option<Map<Seq<char>, Seq<char>>> {
    if lines.len() == 0 {
        None
    } else {
        let toks = split_on(lines[0], ' ');
        if toks.len() < 3 {
            None
        } else {
            Some(fold_header_lines(lines, 1, base_request_map(toks)))
        }
    }
}

/// Parse the decoded header lines of a request (request line first, then
/// one line per header) into a request map.  `None` is a fatal parse error.
pub fn parse_http_header(lines: &Vec<String>) -> (r: Option<StrMap>)
    ensures
        match r {
            Some(m) => request_map_of(lines.deep_view()) == Some(m@),
            None => request_map_of(lines.deep_view()) is None,
        },
{
    let ghost ldv = lines.deep_view();
    if lines.len() == 0 {
        return None;
    }
    proof {
        assert(ldv[0] == lines@[0]@);
    }
    let toks = split_str(lines[0].as_str(), ' ');
    if toks.len() < 3 {
        return None;
    }
    let mut m = StrMap::new();
    m.insert("Method", toks[0].as_str());
    m.insert("Url", toks[1].as_str());
    m.insert("Version", toks[2].as_str());
    proof {
        assert(toks.deep_view()[0] == toks@[0]@);
        assert(toks.deep_view()[1] == toks@[1]@);
        assert(toks.deep_view()[2] == toks@[2]@);
        assert(m@ == base_request_map(split_on(ldv[0], ' ')));
    }
    let ghost base = base_request_map(split_on(ldv[0], ' '));
    let mut i: usize = 1;
    while i < lines.len()
        invariant
            ldv == lines.deep_view(),
            lines@.len() == ldv.len(),
            1 <= i <= ldv.len(),
            fold_header_lines(ldv, i as int, m@) == fold_header_lines(ldv, 1, base),
        decreases ldv.len() - i,
    {
        let line = &lines[i];
        let ln = line.as_str().unicode_len();
        proof {
            assert(ldv[i as int] == lines@[i as int]@);
            reveal_strlit(": ");
            assert(": "@ =~= colon_space());
        }
        let (k, v) = match find_sub_str(line.as_str(), ": ") {
            Some(p) => (s_substring(line.as_str(), 0, p), s_substring(line.as_str(), p + 2, ln)),
            None => (line.clone(), String::new()),
        };
        proof {
            assert(k@ == header_key(ldv[i as int]));
            assert(v@ == header_val(ldv[i as int]));
        }
        m.insert_if_absent(k.as_str(), v.as_str());
        i = i + 1;
    }
    Some(m)
}

/// Merge the header map, the optional body and the peer address into the
/// request map; the body and peer address never override existing entries.
pub fn merge_http_request(header: &StrMap, body: &Option<String>, peer_addr: &str) -> (r: StrMap)
    ensures
        r@ == {
            let m1 = match body {
                Some(b) => if header@.contains_key("Body"@) {
                    header@
                } else {
                    header@.insert("Body"@, b@)
                },
                None => header@,
            };
            if m1.contains_key("Peer-Address"@) {
                m1
            } else {
                m1.insert("Peer-Address"@, peer_addr@)
            }
        },
{
    let mut request = header.clone();
    match body {
        Some(b) => request.insert_if_absent("Body", b.as_str()),
        None => (),
    }
    request.insert_if_absent("Peer-Address", peer_addr);
    request
}

/// Look a header up in the request map.
pub fn get_header_from_http_request(name: &str, http_request: &StrMap) -> (r: Option<String>)
    ensures
        match r {
            Some(v) => req_lookup(http_request@, name@) == Some(v@),
            None => req_lookup(http_request@, name@) is None,
        },
{
    http_request.get(name)
}

// ---------------------------------------------------------------------------
// JSON payload paths
// ---------------------------------------------------------------------------

/// The value stored under `key` in an object's fields, first match winning.
pub open spec fn obj_lookup(fields: Seq<(String, Json)>, key: Seq<char>) -> Option<Json>
    decreases fields.len(),
{
    if fields.len() == 0 {
        None
    } else if fields[0].0@ == key {
        Some(fields[0].1)
    } else {
        obj_lookup(fields.drop_first(), key)
    }
}

proof fn lemma_obj_lookup_at(fields: Seq<(String, Json)>, key: Seq<char>, i: int)
    requires
        0 <= i < fields.len(),
        fields[i].0@ == key,
        forall|j: int| 0 <= j < i ==> fields[j].0@ != key,
    ensures
        obj_lookup(fields, key) == Some(fields[i].1),
    decreases i,
{
    if i > 0 {
        assert forall|j: int| 0 <= j < i - 1 implies fields.drop_first()[j].0@ != key by {
            assert(fields.drop_first()[j] == fields[j + 1]);
        }
        assert(fields.drop_first()[i - 1] == fields[i]);
        lemma_obj_lookup_at(fields.drop_first(), key, i - 1);
    }
}

proof fn lemma_obj_lookup_absent(fields: Seq<(String, Json)>, key: Seq<char>)
    requires
        forall|j: int| 0 <= j < fields.len() ==> fields[j].0@ != key,
    ensures
        obj_lookup(fields, key) is None,
    decreases fields.len(),
{
    if fields.len() > 0 {
        assert forall|j: int| 0 <= j < fields.drop_first().len() implies fields.drop_first()[j].0@
            != key by {
            assert(fields.drop_first()[j] == fields[j + 1]);
        }
        lemma_obj_lookup_absent(fields.drop_first(), key);
    }
}

/// First field of `fields` named `key`, if any.
fn obj_find<'a>(fields: &'a Vec<(String, Json)>, key: &str) -> (r: Option<&'a Json>)
    ensures
        match r {
            Some(c) => obj_lookup(fields@, key@) == Some(*c),
            None => obj_lookup(fields@, key@) is None,
        },
{
    let mut i: usize = 0;
    while i < fields.len()
        invariant
            0 <= i <= fields@.len(),
            forall|j: int| 0 <= j < i ==> fields@[j].0@ != key@,
        decreases fields@.len() - i,
    {
        if str_eq(fields[i].0.as_str(), key) {
            proof {
                lemma_obj_lookup_at(fields@, key@, i as int);
            }
            return Some(&fields[i].1);
        }
        i = i + 1;
    }
    proof {
        lemma_obj_lookup_absent(fields@, key@);
    }
    None
}

/// Navigate `j` along `segs`: an object is indexed by key, an array by a
/// segment that reads as a non-negative integer; the walk succeeds only when
/// it ends on a string leaf.
pub open spec fn json_lookup(j: Json, segs: Seq<Seq<char>>) -> Option<Seq<char>>
    decreases segs.len(),
{
    if segs.len() == 0 {
        match j {
            Json::Str(s) => Some(s@),
            _ => None,
        }
    } else {
        match j {
            Json::Obj(fields) => match obj_lookup(fields@, segs[0]) {
                Some(child) => json_lookup(child, segs.drop_first()),
                None => None,
            },
            Json::Arr(items) => match usize_str_value(segs[0]) {
                Some(n) => if n < items@.len() {
                    json_lookup(items@[n], segs.drop_first())
                } else {
                    None
                },
                None => None,
            },
            _ => None,
        }
    }
}

/// The navigation of a whole dot-separated path.
pub open spec fn json_path_lookup(j: Json, item: Seq<char>) -> Option<Seq<char>> {
    json_lookup(j, split_on(item, '.'))
}

/// Resolve the dot-separated path `item` inside the document `v`.
pub fn get_item_from_json(v: &Json, item: &str) -> (r: Option<String>)
    ensures
        match r {
            Some(s) => json_path_lookup(*v, item@) == Some(s@),
            None => json_path_lookup(*v, item@) is None,
        },
{
    let segs = split_str(item, '.');
    let ghost sdv = segs.deep_view();
    proof {
        assert(sdv.skip(0) =~~= sdv);
    }
    let mut cur: &Json = v;
    let mut i: usize = 0;
    while i < segs.len()
        invariant
            sdv == segs.deep_view(),
            sdv == split_on(item@, '.'),
            segs@.len() == sdv.len(),
            0 <= i <= sdv.len(),
            json_lookup(*cur, sdv.skip(i as int)) == json_lookup(*v, sdv),
        decreases sdv.len() - i,
    {
        proof {
            assert(sdv[i as int] == segs@[i as int]@);
            assert(sdv.skip(i as int)[0] == sdv[i as int]);
            assert(sdv.skip(i as int).drop_first() =~~= sdv.skip(i + 1));
        }
        let seg = &segs[i];
        match cur {
            Json::Obj(fields) => {
                match obj_find(fields, seg.as_str()) {
                    Some(child) => {
                        cur = child;
                    },
                    None => {
                        return None;
                    },
                }
            },
            Json::Arr(items) => {
                match parse_usize(seg.as_str()) {
                    Some(n) => {
                        if n < items.len() {
                            cur = &items[n];
                        } else {
                            return None;
                        }
                    },
                    None => {
                        return None;
                    },
                }
            },
            _ => {
                return None;
            },
        }
        i = i + 1;
    }
    proof {
        assert(sdv.skip(sdv.len() as int) =~~= Seq::<Seq<char>>::empty());
    }
    match cur {
        Json::Str(s) => Some(s.clone()),
        _ => None,
    }
}

/// What resolving `item` against the request body yields: no body fails;
/// an empty path or the name `entire-payload` is the whole raw body; any
/// other path navigates the body parsed as JSON.
pub open spec fn payload_item_of(req: Map<Seq<char>, Seq<char>>, item: Seq<char>) -> Option<
    Seq<char>,
> {
    if !req.contains_key("Body"@) {
        None
    } else if item.len() == 0 || item == "entire-payload"@ {
        Some(req["Body"@])
    } else {
        match json_parse(req["Body"@]) {
            Some(doc) => json_path_lookup(doc, item),
            None => None,
        }
    }
}

/// Resolve a payload path against the request's raw body.
pub fn get_payload_item_from_http_request(item: &str, http_request: &StrMap) -> (r: Option<String>)
    ensures
        match r {
            Some(s) => payload_item_of(http_request@, item@) == Some(s@),
            None => payload_item_of(http_request@, item@) is None,
        },
{
    let body = match http_request.get("Body") {
        Some(b) => b,
        None => {
            return None;
        },
    };
    if item.unicode_len() == 0 || str_eq(item, "entire-payload") {
        return Some(body);
    }
    match parse_json(body.as_str()) {
        Some(doc) => get_item_from_json(&doc, item),
        None => None,
    }
}

} // verus!
