//! Command-argument resolution: an `Argument` names a source (a literal
//! string, a header, a query parameter, a payload path or a structural
//! request field) and resolves to a string drawn from the request.

use crate::errors::{ErrKind, HookError};
use crate::json::{json_parse, parse_json};
use crate::parser::{
    get_item_from_json, json_path_lookup, parse_parameters_from_url, req_lookup, url_params,
};
use crate::strmap::StrMap;
use crate::strutil::{eq_ignore_case, lower, str_eq};
use vstd::prelude::*;

verus! {

/// A command-argument specification: where a value is drawn from (`source`)
/// and under what name.
#[derive(Debug)]
pub struct Argument {
    pub source: String,
    pub name: String,
}

/// A builder map describes an argument exactly when it holds the two keys
/// `source` and `name` and nothing else.
pub open spec fn arg_builder_ok(m: Map<Seq<char>, Seq<char>>) -> bool {
    m.dom().finite() && m.dom().len() == 2 && m.contains_key("source"@) && m.contains_key("name"@)
}

/// A map lookup as argument resolution sees it: a missing key is `NotFound`.
pub open spec fn map_arg_of(m: Map<Seq<char>, Seq<char>>, key: Seq<char>) -> Result<
    Seq<char>,
    ErrKind,
> {
    if m.contains_key(key) {
        Ok(m[key])
    } else {
        Err(ErrKind::NotFound)
    }
}

/// The four structural request fields may not be read as headers.
pub open spec fn is_reserved_header(name: Seq<char>) -> bool {
    name == "Method"@ || name == "Url"@ || name == "Version"@ || name == "Body"@
}

/// Header resolution: a reserved name is rejected, otherwise the request map
/// is consulted under `key`.
pub open spec fn header_arg_of(
    req: Map<Seq<char>, Seq<char>>,
    key: Seq<char>,
    name: Seq<char>,
) -> Result<Seq<char>, ErrKind> {
    if is_reserved_header(name) {
        Err(ErrKind::InvalidInput)
    } else {
        map_arg_of(req, key)
    }
}

/// Query resolution: the query parameters of the request's URL, consulted
/// under `key`; a request without a URL resolves nothing.
pub open spec fn query_arg_of(req: Map<Seq<char>, Seq<char>>, key: Seq<char>) -> Result<
    Seq<char>,
    ErrKind,
> {
    match req_lookup(req, "Url"@) {
        Some(url) => map_arg_of(url_params(url), key),
        None => Err(ErrKind::NotFound),
    }
}

/// Payload resolution: rejected on a GET request; requires a body; an empty
/// name is the whole raw body; any other name navigates the body parsed as
/// JSON, a malformed body being rejected and a failed walk being absent.
pub open spec fn payload_arg_of(req: Map<Seq<char>, Seq<char>>, name: Seq<char>) -> Result<
    Seq<char>,
    ErrKind,
> {
    if req_lookup(req, "Method"@) == Some("GET"@) {
        Err(ErrKind::InvalidInput)
    } else if !req.contains_key("Body"@) {
        Err(ErrKind::NotFound)
    } else if name.len() == 0 {
        Ok(req["Body"@])
    } else {
        match json_parse(req["Body"@]) {
            Some(doc) => match json_path_lookup(doc, name) {
                Some(s) => Ok(s),
                None => Err(ErrKind::NotFound),
            },
            None => Err(ErrKind::InvalidInput),
        }
    }
}

/// Whether `name` is one of the structural request fields, up to ASCII case.
pub open spec fn is_request_field(name: Seq<char>) -> bool {
    lower(name) == lower("method"@) || lower(name) == lower("peer-address"@) || lower(name)
        == lower("url"@) || lower(name) == lower("version"@)
}

/// The request-map key a structural field name canonicalizes to.
pub open spec fn canonical_request_key(name: Seq<char>) -> Seq<char> {
    if lower(name) == lower("method"@) {
        "Method"@
    } else if lower(name) == lower("peer-address"@) {
        "Peer-Address"@
    } else if lower(name) == lower("url"@) {
        "Url"@
    } else {
        "Version"@
    }
}

/// Structural-field resolution: only the case-insensitive allow-list
/// `method`, `peer-address`, `url`, `version` is admitted; the canonical
/// field is then read from the request map.
pub open spec fn request_arg_of(req: Map<Seq<char>, Seq<char>>, name: Seq<char>) -> Result<
    Seq<char>,
    ErrKind,
> {
    if !is_request_field(name) {
        Err(ErrKind::InvalidInput)
    } else {
        map_arg_of(req, canonical_request_key(name))
    }
}

/// Resolution of an argument specification against a request: dispatch on
/// the source; a literal string always succeeds with the name itself; an
/// unknown source is rejected.
pub open spec fn resolved_arg_of(
    req: Map<Seq<char>, Seq<char>>,
    source: Seq<char>,
    name: Seq<char>,
) -> Result<Seq<char>, ErrKind> {
    if source == "string"@ {
        Ok(name)
    } else if source == "payload"@ {
        payload_arg_of(req, name)
    } else if source == "query"@ {
        query_arg_of(req, name)
    } else if source == "header"@ {
        header_arg_of(req, name, name)
    } else if source == "request"@ {
        request_arg_of(req, name)
    } else {
        Err(ErrKind::InvalidInput)
    }
}

/// Assemble `<head><mid>]`, the shape of the resolver's error details.
fn bracket_msg(head: &str, mid: &str) -> (r: String)
    ensures
        r@ == head@ + mid@ + "]"@,
{
    let mut m = head.to_owned();
    m.append(mid);
    m.append("]");
    m
}

impl Argument {
    /// Build an argument from a builder map holding exactly the keys
    /// `source` and `name`.
    pub fn new(builder: &StrMap) -> (r: Option<Argument>)
        ensures
            match r {
                Some(a) => arg_builder_ok(builder@) && a.source@ == builder@["source"@] && a.name@
                    == builder@["name"@],
                None => !arg_builder_ok(builder@),
            },
    {
        if builder.len() != 2 {
            return None;
        }
        let source = match builder.get("source") {
            Some(s) => s,
            None => {
                return None;
            },
        };
        let name = match builder.get("name") {
            Some(s) => s,
            None => {
                return None;
            },
        };
        Some(Argument { source, name })
    }

    /// Look `self.name` up in a plain map; `name` only labels the error.
    fn get_argument_from_map(&self, map: &StrMap, name: &String) -> (r: Result<String, HookError>)
        ensures
            match r {
                Ok(v) => map_arg_of(map@, self.name@) == Ok::<_, ErrKind>(v@),
                Err(e) => map_arg_of(map@, self.name@) == Err::<Seq<char>, _>(e.kind()),
            },
    {
        match map.get(self.name.as_str()) {
            Some(v) => Ok(v),
            None => Err(HookError::NotFound(bracket_msg("Failed to get parameter [", name.as_str()))),
        }
    }

    /// Resolve from a request header; the reserved structural names are
    /// rejected.
    pub fn get_argument_from_header(&self, request: &StrMap, name: &String) -> (r: Result<
        String,
        HookError,
    >)
        ensures
            match r {
                Ok(v) => header_arg_of(request@, self.name@, name@) == Ok::<_, ErrKind>(v@),
                Err(e) => header_arg_of(request@, self.name@, name@) == Err::<Seq<char>, _>(
                    e.kind(),
                ),
            },
    {
        if str_eq(name.as_str(), "Method") || str_eq(name.as_str(), "Url") || str_eq(
            name.as_str(),
            "Version",
        ) || str_eq(name.as_str(), "Body") {
            return Err(HookError::InvalidInput(bracket_msg("Invalid Header Name [", name.as_str())));
        }
        self.get_argument_from_map(request, name)
    }

    /// Resolve from the query parameters of the request URL.
    pub fn get_argument_from_query(&self, request: &StrMap, name: &String) -> (r: Result<
        String,
        HookError,
    >)
        ensures
            match r {
                Ok(v) => query_arg_of(request@, self.name@) == Ok::<_, ErrKind>(v@),
                Err(e) => query_arg_of(request@, self.name@) == Err::<Seq<char>, _>(e.kind()),
            },
    {
        let url = match request.get("Url") {
            Some(u) => u,
            None => {
                return Err(HookError::NotFound(bracket_msg("Failed to get parameter [", name.as_str())));
            },
        };
        let params = parse_parameters_from_url(url.as_str());
        self.get_argument_from_map(&params, name)
    }

    /// Resolve from the request body, `self.name` read as a dot-separated
    /// path; an empty name takes the whole raw body.
    pub fn get_argument_from_payload(&self, request: &StrMap, name: &String) -> (r: Result<
        String,
        HookError,
    >)
        ensures
            match r {
                Ok(v) => payload_arg_of(request@, self.name@) == Ok::<_, ErrKind>(v@),
                Err(e) => payload_arg_of(request@, self.name@) == Err::<Seq<char>, _>(e.kind()),
            },
    {
        match request.get("Method") {
            Some(m) => {
                if str_eq(m.as_str(), "GET") {
                    return Err(
                        HookError::InvalidInput(
                            bracket_msg(
                                "Could not parse argument from GET request with no payload [",
                                name.as_str(),
                            ),
                        ),
                    );
                }
            },
            None => (),
        }
        let payload = match request.get("Body") {
            Some(b) => b,
            None => {
                return Err(HookError::NotFound(bracket_msg("No payload in request [", name.as_str())));
            },
        };
        if self.name.as_str().unicode_len() == 0 {
            return Ok(payload);
        }
        let doc = match parse_json(payload.as_str()) {
            Some(d) => d,
            None => {
                return Err(
                    HookError::InvalidInput(bracket_msg("Malformed payload [", name.as_str())),
                );
            },
        };
        match get_item_from_json(&doc, self.name.as_str()) {
            Some(s) => Ok(s),
            None => Err(HookError::NotFound(bracket_msg("Failed to get parameter [", name.as_str()))),
        }
    }

    /// Resolve a structural request field, case-insensitively restricted to
    /// `method`, `peer-address`, `url` and `version`.
    pub fn get_argument_from_request(&self, request: &StrMap, name: &String) -> (r: Result<
        String,
        HookError,
    >)
        ensures
            match r {
                Ok(v) => request_arg_of(request@, name@) == Ok::<_, ErrKind>(v@),
                Err(e) => request_arg_of(request@, name@) == Err::<Seq<char>, _>(e.kind()),
            },
    {
        let key: &str = if eq_ignore_case(name.as_str(), "method") {
            "Method"
        } else if eq_ignore_case(name.as_str(), "peer-address") {
            "Peer-Address"
        } else if eq_ignore_case(name.as_str(), "url") {
            "Url"
        } else if eq_ignore_case(name.as_str(), "version") {
            "Version"
        } else {
            return Err(
                HookError::InvalidInput(bracket_msg("Invalid request parameter [", name.as_str())),
            );
        };
        match request.get(key) {
            Some(v) => Ok(v),
            None => Err(HookError::NotFound(bracket_msg("Failed to get parameter [", name.as_str()))),
        }
    }

    /// Resolve this argument against a request, dispatching on its source.
    pub fn parse_from_request(&self, request: &StrMap) -> (r: Result<String, HookError>)
        ensures
            match r {
                Ok(v) => resolved_arg_of(request@, self.source@, self.name@) == Ok::<_, ErrKind>(
                    v@,
                ),
                Err(e) => resolved_arg_of(request@, self.source@, self.name@) == Err::<
                    Seq<char>,
                    _,
                >(e.kind()),
            },
    {
        if str_eq(self.source.as_str(), "string") {
            Ok(self.name.clone())
        } else if str_eq(self.source.as_str(), "payload") {
            let name = self.name.clone();
            self.get_argument_from_payload(request, &name)
        } else if str_eq(self.source.as_str(), "query") {
            let name = self.name.clone();
            self.get_argument_from_query(request, &name)
        } else if str_eq(self.source.as_str(), "header") {
            let name = self.name.clone();
            self.get_argument_from_header(request, &name)
        } else if str_eq(self.source.as_str(), "request") {
            let name = self.name.clone();
            self.get_argument_from_request(request, &name)
        } else {
            Err(
                HookError::InvalidInput(
                    bracket_msg("Invalid request parameter [", self.name.as_str()),
                ),
            )
        }
    }
}

} // verus!
