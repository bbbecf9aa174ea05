//! Wire-format HTTP responses: the status line, the exact `Content-Length`
//! and the configured extra headers, assembled as text.  Writing the bytes
//! to the connection happens outside the library.

use crate::config::Config;
use crate::errors::HookError;
use crate::strmap::StrMap;
use crate::strutil::{dec_str, join_strings, join_with, usize_to_string};
use vstd::prelude::*;
use vstd::string::StringSliceAdditionalSpecFns;

verus! {

/// The `Name: Value` rendering of one header entry.
pub open spec fn header_line(h: StrMap) -> Seq<char> {
    h@["name"@] + ": "@ + h@["value"@]
}

/// The rendered header entries, in order.
pub open spec fn header_lines(hs: Seq<StrMap>) -> Seq<Seq<char>> {
    Seq::new(hs.len(), |i: int| header_line(hs[i]))
}

/// Every header entry carries a `name` and a `value`.
pub open spec fn headers_well_formed(hs: Seq<StrMap>) -> bool {
    forall|i: int|
        0 <= i < hs.len() ==> (#[trigger] hs[i])@.contains_key("name"@) && hs[i]@.contains_key(
            "value"@,
        )
}

/// Render the configured response headers, `Name: Value` lines joined by
/// CRLF without a trailing one.
pub fn format_response_headers_to_string(headers: &Vec<StrMap>) -> (r: String)
    requires
        headers_well_formed(headers@),
    ensures
        r@ == join_with(header_lines(headers@), "\r\n"@),
{
    let mut lines: Vec<String> = Vec::new();
    let mut i: usize = 0;
    while i < headers.len()
        invariant
            headers_well_formed(headers@),
            0 <= i <= headers@.len(),
            lines@.len() == i,
            forall|j: int| 0 <= j < i ==> lines@[j]@ == header_line(headers@[j]),
        decreases headers@.len() - i,
    {
        let name = match headers[i].get("name") {
            Some(n) => n,
            None => String::new(),
        };
        let value = match headers[i].get("value") {
            Some(v) => v,
            None => String::new(),
        };
        let mut line = name;
        line.append(": ");
        line.append(value.as_str());
        lines.push(line);
        i = i + 1;
    }
    proof {
        assert(lines.deep_view() =~~= header_lines(headers@));
    }
    join_strings(&lines, "\r\n")
}

/// The byte length of a text encoded as UTF-8, as the executable length
/// computation reports it.
pub open spec fn byte_len(s: Seq<char>) -> int {
    (vstd::utf8::encode_utf8(s).len() as usize) as int
}

/// The block of header entries as they stand on the wire: each line
/// followed by CRLF, nothing for an empty list.
pub open spec fn header_block(hs: Seq<StrMap>) -> Seq<char>
    decreases hs.len(),
{
    if hs.len() == 0 {
        Seq::empty()
    } else {
        header_block(hs.drop_last()) + header_line(hs.last()) + "\r\n"@
    }
}

/// A whole response: status line, exact byte length of the body, the extra
/// headers, a blank line, the body.
pub open spec fn response_text(
    status_line: Seq<char>,
    headers: Seq<StrMap>,
    body: Seq<char>,
    body_bytes: int,
) -> Seq<char> {
    status_line + "\r\nContent-Length: "@ + dec_str(body_bytes) + "\r\n"@ + header_block(headers)
        + "\r\n"@ + body
}

/// Assemble a success response: the request's HTTP version, status
/// `200 OK`, the hook's extra headers, and `contents` as the body with its
/// exact byte length declared.
pub fn build_success_response(version: &str, headers: &Vec<StrMap>, contents: &str) -> (r: String)
    requires
        headers_well_formed(headers@),
    ensures
        r@ == response_text(version@ + " 200 OK"@, headers@, contents@, byte_len(contents@)),
{
    let mut r = version.to_owned();
    r.append(" 200 OK");
    r.append("\r\nContent-Length: ");
    let n = usize_to_string(contents.len());
    r.append(n.as_str());
    r.append("\r\n");
    let mut i: usize = 0;
    let ghost head = version@ + " 200 OK"@ + "\r\nContent-Length: "@ + dec_str(
        byte_len(contents@),
    ) + "\r\n"@;
    proof {
        assert(r@ =~= head);
    }
    while i < headers.len()
        invariant
            headers_well_formed(headers@),
            0 <= i <= headers@.len(),
            r@ == head + header_block(headers@.take(i as int)),
        decreases headers@.len() - i,
    {
        let name = match headers[i].get("name") {
            Some(n) => n,
            None => String::new(),
        };
        let value = match headers[i].get("value") {
            Some(v) => v,
            None => String::new(),
        };
        r.append(name.as_str());
        r.append(": ");
        r.append(value.as_str());
        r.append("\r\n");
        proof {
            assert(headers@.take(i + 1).drop_last() =~= headers@.take(i as int));
            assert(headers@.take(i + 1).last() == headers@[i as int]);
            assert(r@ =~= head + header_block(headers@.take(i + 1)));
        }
        i = i + 1;
    }
    proof {
        assert(headers@.take(headers@.len() as int) =~= headers@);
    }
    r.append("\r\n");
    r.append(contents);
    proof {
        assert(r@ =~= response_text(
            version@ + " 200 OK"@,
            headers@,
            contents@,
            byte_len(contents@),
        ));
    }
    r
}

/// The status text an error maps to: `404 Not Found` for a missing item,
/// `500 Internal Server Error` for everything else.
pub open spec fn error_status(err: HookError) -> Seq<char> {
    match err {
        HookError::NotFound(_) => " 404 Not Found"@,
        HookError::InvalidInput(_) => " 500 Internal Server Error"@,
    }
}

/// Assemble an error response: the request's HTTP version, a status decided
/// by the error's class, no extra headers, and the error body with its
/// exact byte length declared.
pub fn http_response_with_err(version: &str, err: &HookError, config: Option<&Config>) -> (r:
    String)
    ensures
        r@ == {
            let body = match config {
                Some(c) => c.response_message@,
                None => err.message_view(),
            };
            version@ + error_status(*err) + "\r\nContent-Length: "@ + dec_str(byte_len(body))
                + "\r\n\r\n"@ + body
        },
{
    let contents: String = match config {
        Some(c) => c.response_message.clone(),
        None => err.message(),
    };
    let mut r = version.to_owned();
    if err.is_not_found() {
        r.append(" 404 Not Found");
    } else {
        r.append(" 500 Internal Server Error");
    }
    r.append("\r\nContent-Length: ");
    let n = usize_to_string(contents.as_str().len());
    r.append(n.as_str());
    r.append("\r\n\r\n");
    r.append(contents.as_str());
    proof {
        assert(r@ =~= version@ + error_status(*err) + "\r\nContent-Length: "@ + dec_str(
            byte_len(contents@),
        ) + "\r\n\r\n"@ + contents@);
    }
    r
}

} // verus!
