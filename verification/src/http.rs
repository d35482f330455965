//! HTTP/1.x requests and responses, with the request's common headers
//! promoted to fields.

use vstd::prelude::*;
use vstd::utf8::{decode_utf8, valid_utf8};
use crate::centrifuge::ArwahCentrifugeError;
use crate::bytes::{arwah_tail, arwah_utf8_text};

verus! {

/// A parsed request: the request line, the raw headers, the promoted
/// headers, and the body bytes.
#[derive(Debug, Clone, PartialEq, Eq)]
pub struct ArwahRequest {
    pub method: String,
    pub path: String,
    pub version: u8,
    pub headers: Vec<(String, Vec<u8>)>,
    pub host: Option<String>,
    pub agent: Option<String>,
    pub referer: Option<String>,
    pub auth: Option<String>,
    pub cookies: Option<String>,
    pub body: Option<Vec<u8>>,
}

/// A parsed response: the status line, the raw headers, and the body
/// bytes.
#[derive(Debug, Clone, PartialEq, Eq)]
pub struct ArwahResponse {
    pub code: u16,
    pub reason: String,
    pub version: u8,
    pub headers: Vec<(String, Vec<u8>)>,
    pub body: Option<Vec<u8>>,
}

/// An HTTP message: one or the other.
#[derive(Debug, Clone, PartialEq, Eq)]
pub enum ArwahHttp {
    Request(ArwahRequest),
    Response(ArwahResponse),
}

/// What the request parser filled in: how much of the input the head took
/// (nothing for a partial head), and the request line and header fields it
/// saw.
#[derive(Debug, Clone, PartialEq, Eq)]
pub struct ArwahHttpReqRaw {
    pub consumed: Option<usize>,
    pub method: Option<String>,
    pub path: Option<String>,
    pub version: Option<u8>,
    pub headers: Vec<(String, Vec<u8>)>,
}

/// What the response parser filled in.
#[derive(Debug, Clone, PartialEq, Eq)]
pub struct ArwahHttpRespRaw {
    pub consumed: Option<usize>,
    pub code: Option<u16>,
    pub reason: Option<String>,
    pub version: Option<u8>,
    pub headers: Vec<(String, Vec<u8>)>,
}

/// What `httparse`'s request parser yields on the bytes, up to its
/// 256-header cap, or nothing where the head is malformed.
pub uninterp spec fn spec_http_req_of(b: Seq<u8>) -> Option<ArwahHttpReqRaw>;

/// What `httparse`'s response parser yields on the bytes.
pub uninterp spec fn spec_http_resp_of(b: Seq<u8>) -> Option<ArwahHttpRespRaw>;

/// Relies on `httparse::Request::parse` with 256 header slots: a malformed
/// head is an error; otherwise the filled request line, the headers, and
/// the head's length when it was complete are handed through, and the head
/// never takes more than the input.
#[verifier::external_body]
fn arwah_http_req(b: &Vec<u8>) -> (r: Option<ArwahHttpReqRaw>)
    ensures
        r == spec_http_req_of(b@),
        r matches Some(raw) ==> (match raw.consumed {
            Some(n) => n <= b@.len(),
            None => true,
        }),
{
    let mut slots = [httparse::EMPTY_HEADER; 256];
    let mut req = httparse::Request::new(&mut slots);
    match req.parse(b.as_slice()) {
        Err(_) => None,
        Ok(status) => Some(ArwahHttpReqRaw {
            consumed: match status {
                httparse::Status::Complete(n) => Some(n),
                httparse::Status::Partial => None,
            },
            method: req.method.map(|m| m.to_string()),
            path: req.path.map(|p| p.to_string()),
            version: req.version,
            headers: req.headers.iter().map(|h| (h.name.to_string(), h.value.to_vec())).collect(),
        }),
    }
}

/// Relies on `httparse::Response::parse` with 256 header slots, as the
/// request wrapper does.
#[verifier::external_body]
fn arwah_http_resp(b: &Vec<u8>) -> (r: Option<ArwahHttpRespRaw>)
    ensures
        r == spec_http_resp_of(b@),
        r matches Some(raw) ==> (match raw.consumed {
            Some(n) => n <= b@.len(),
            None => true,
        }),
{
    let mut slots = [httparse::EMPTY_HEADER; 256];
    let mut resp = httparse::Response::new(&mut slots);
    match resp.parse(b.as_slice()) {
        Err(_) => None,
        Ok(status) => Some(ArwahHttpRespRaw {
            consumed: match status {
                httparse::Status::Complete(n) => Some(n),
                httparse::Status::Partial => None,
            },
            code: resp.code,
            reason: resp.reason.map(|m| m.to_string()),
            version: resp.version,
            headers: resp.headers.iter().map(|h| (h.name.to_string(), h.value.to_vec())).collect(),
        }),
    }
}

/// A character with any ASCII capital folded to its small form.
pub open spec fn spec_ascii_lower(c: char) -> char {
    if 'A' <= c <= 'Z' {
        ((c as u8) + 32) as char
    } else {
        c
    }
}

/// ASCII-case-insensitive equality on character sequences.
pub open spec fn spec_eq_ignore_ascii_case(a: Seq<char>, b: Seq<char>) -> bool {
    a.map_values(|c: char| spec_ascii_lower(c)) == b.map_values(|c: char| spec_ascii_lower(c))
}

/// ASCII-case-insensitive string comparison.
fn arwah_eq_ignore_ascii_case(a: &str, b: &str) -> (r: bool)
    ensures
        r == spec_eq_ignore_ascii_case(a@, b@),
{
    let an = a.unicode_len();
    let bn = b.unicode_len();
    let ghost la = a@.map_values(|c: char| spec_ascii_lower(c));
    let ghost lb = b@.map_values(|c: char| spec_ascii_lower(c));
    if an != bn {
        proof {
            assert(la.len() != lb.len());
        }
        return false;
    }
    let mut j: usize = 0;
    while j < an
        invariant
            j <= an,
            an == a@.len(),
            bn == b@.len(),
            an == bn,
            la == a@.map_values(|c: char| spec_ascii_lower(c)),
            lb == b@.map_values(|c: char| spec_ascii_lower(c)),
            forall|k: int| 0 <= k < j ==> la[k] == lb[k],
        decreases an - j,
    {
        let ca = a.get_char(j);
        let cb = b.get_char(j);
        let fa = if 'A' <= ca && ca <= 'Z' {
            ((ca as u8) + 32) as char
        } else {
            ca
        };
        let fb = if 'A' <= cb && cb <= 'Z' {
            ((cb as u8) + 32) as char
        } else {
            cb
        };
        if fa != fb {
            proof {
                assert(la[j as int] == spec_ascii_lower(a@[j as int]));
                assert(lb[j as int] == spec_ascii_lower(b@[j as int]));
            }
            return false;
        }
        j += 1;
        proof {
            assert(la[j - 1] == spec_ascii_lower(a@[j - 1]));
            assert(lb[j - 1] == spec_ascii_lower(b@[j - 1]));
        }
    }
    proof {
        assert(la =~= lb);
    }
    true
}

/// What promoting one header into a field leaves behind: where the name
/// matches and the value is text, the value lands in the field, joined to
/// an earlier value with a separator.
pub open spec fn spec_append_if_header(
    mem: Option<Seq<char>>,
    expected: Seq<char>,
    name: Seq<char>,
    value: Seq<u8>,
) -> Option<Seq<char>> {
    if spec_eq_ignore_ascii_case(name, expected) && valid_utf8(value) {
        match mem {
            Some(prev) => if prev.len() > 0 {
                Some(prev + "; "@ + decode_utf8(value))
            } else {
                Some(prev + decode_utf8(value))
            },
            None => Some(decode_utf8(value)),
        }
    } else {
        mem
    }
}

/// Folds one header into a promoted field, joining repeats with `"; "`.
fn arwah_append_if_header(mem: &mut Option<String>, expected: &str, name: &String, value: &Vec<u8>)
    ensures
        match (*final(mem), spec_append_if_header(
            match *old(mem) {
                Some(m) => Some(m@),
                None => None,
            },
            expected@,
            name@,
            value@,
        )) {
            (Some(m), Some(s)) => m@ == s,
            (None, None) => true,
            _ => false,
        },
{
    if arwah_eq_ignore_ascii_case(name.as_str(), expected) {
        if let Some(text) = arwah_utf8_text(value) {
            match mem {
                Some(prev) => {
                    if !prev.as_str().is_empty() {
                        prev.append("; ");
                    }
                    prev.append(text.as_str());
                },
                None => {
                    *mem = Some(text);
                },
            }
        }
    }
}

/// Builds the request out of the parser's raw fields: a head missing its
/// request line is no request, headers are promoted in order, and what
/// follows a complete head becomes the body.
pub fn arwah_request_from_raw(raw: ArwahHttpReqRaw, input: &Vec<u8>) -> (r: Result<
    ArwahRequest,
    ArwahCentrifugeError,
>)
    requires
        match raw.consumed {
            Some(n) => n <= input@.len(),
            None => true,
        },
    ensures
        r is Ok <==> raw.method is Some && raw.path is Some && raw.version is Some,
        r matches Err(e) ==> e == ArwahCentrifugeError::InvalidPacket,
        r matches Ok(req) ==> req.method == raw.method->0 && req.path == raw.path->0
            && req.version == raw.version->0 && req.headers@ == raw.headers@ && (match raw.consumed {
            Some(n) => if n < input@.len() {
                req.body matches Some(b) && b@ == input@.skip(n as int)
            } else {
                req.body is None
            },
            None => req.body is None,
        }),
{
    let method = match raw.method {
        Some(m) => m,
        None => {
            return Err(ArwahCentrifugeError::InvalidPacket);
        },
    };
    let path = match raw.path {
        Some(p) => p,
        None => {
            return Err(ArwahCentrifugeError::InvalidPacket);
        },
    };
    let version = match raw.version {
        Some(v) => v,
        None => {
            return Err(ArwahCentrifugeError::InvalidPacket);
        },
    };
    let mut host: Option<String> = None;
    let mut agent: Option<String> = None;
    let mut referer: Option<String> = None;
    let mut auth: Option<String> = None;
    let mut cookies: Option<String> = None;
    let mut i: usize = 0;
    while i < raw.headers.len()
        invariant
            i <= raw.headers@.len(),
        decreases raw.headers@.len() - i,
    {
        arwah_append_if_header(&mut host, "host", &raw.headers[i].0, &raw.headers[i].1);
        arwah_append_if_header(&mut agent, "user-agent", &raw.headers[i].0, &raw.headers[i].1);
        arwah_append_if_header(&mut referer, "referer", &raw.headers[i].0, &raw.headers[i].1);
        arwah_append_if_header(&mut auth, "authorization", &raw.headers[i].0, &raw.headers[i].1);
        arwah_append_if_header(&mut cookies, "cookie", &raw.headers[i].0, &raw.headers[i].1);
        i += 1;
    }
    let headers = raw.headers;
    let body = match raw.consumed {
        Some(n) => {
            if n < input.len() {
                Some(arwah_tail(input, n))
            } else {
                None
            }
        },
        None => None,
    };
    Ok(ArwahRequest { method, path, version, headers, host, agent, referer, auth, cookies, body })
}

/// Builds the response out of the parser's raw fields.
pub fn arwah_response_from_raw(raw: ArwahHttpRespRaw, input: &Vec<u8>) -> (r: Result<
    ArwahResponse,
    ArwahCentrifugeError,
>)
    requires
        match raw.consumed {
            Some(n) => n <= input@.len(),
            None => true,
        },
    ensures
        r is Ok <==> raw.code is Some && raw.reason is Some && raw.version is Some,
        r matches Err(e) ==> e == ArwahCentrifugeError::InvalidPacket,
        r matches Ok(resp) ==> resp.code == raw.code->0 && resp.reason == raw.reason->0
            && resp.version == raw.version->0 && resp.headers@ == raw.headers@ && (match raw.consumed {
            Some(n) => if n < input@.len() {
                resp.body matches Some(b) && b@ == input@.skip(n as int)
            } else {
                resp.body is None
            },
            None => resp.body is None,
        }),
{
    let version = match raw.version {
        Some(v) => v,
        None => {
            return Err(ArwahCentrifugeError::InvalidPacket);
        },
    };
    let code = match raw.code {
        Some(c) => c,
        None => {
            return Err(ArwahCentrifugeError::InvalidPacket);
        },
    };
    let reason = match raw.reason {
        Some(m) => m,
        None => {
            return Err(ArwahCentrifugeError::InvalidPacket);
        },
    };
    let headers = raw.headers;
    let body = match raw.consumed {
        Some(n) => {
            if n < input.len() {
                Some(arwah_tail(input, n))
            } else {
                None
            }
        },
        None => None,
    };
    Ok(ArwahResponse { code, reason, version, headers, body })
}

/// Whether a parsed request head carries its whole request line.
pub open spec fn spec_http_req_line_ok(raw: ArwahHttpReqRaw) -> bool {
    raw.method is Some && raw.path is Some && raw.version is Some
}

/// Whether a parsed response head carries its whole status line.
pub open spec fn spec_http_resp_line_ok(raw: ArwahHttpRespRaw) -> bool {
    raw.code is Some && raw.reason is Some && raw.version is Some
}

/// Whether the bytes carry a message the extractor returns: a request
/// head with its request line, or — where no request head parses — a
/// response head with its status line.
pub open spec fn spec_http_accepts(b: Seq<u8>) -> bool {
    match spec_http_req_of(b) {
        Some(raw) => spec_http_req_line_ok(raw),
        None => match spec_http_resp_of(b) {
            Some(raw) => spec_http_resp_line_ok(raw),
            None => false,
        },
    }
}

/// What a successful HTTP extraction of the bytes holds: the first line
/// and headers straight from the parse, and what follows a complete head
/// as the body.
pub open spec fn spec_http_result_ok(b: Seq<u8>, v: ArwahHttp) -> bool {
    match v {
        ArwahHttp::Request(req) => match spec_http_req_of(b) {
            Some(raw) => spec_http_req_line_ok(raw) && req.method == raw.method->0 && req.path
                == raw.path->0 && req.version == raw.version->0 && req.headers@ == raw.headers@
                && (match raw.consumed {
                Some(n) => if n < b.len() {
                    req.body matches Some(body) && body@ == b.skip(n as int)
                } else {
                    req.body is None
                },
                None => req.body is None,
            }),
            None => false,
        },
        ArwahHttp::Response(resp) => spec_http_req_of(b) is None && (match spec_http_resp_of(b) {
            Some(raw) => spec_http_resp_line_ok(raw) && resp.code == raw.code->0 && resp.reason
                == raw.reason->0 && resp.version == raw.version->0 && resp.headers@ == raw.headers@
                && (match raw.consumed {
                Some(n) => if n < b.len() {
                    resp.body matches Some(body) && body@ == b.skip(n as int)
                } else {
                    resp.body is None
                },
                None => resp.body is None,
            }),
            None => false,
        }),
    }
}

/// Extracts an HTTP message: the request parse is tried first, then the
/// response parse; a head that parses but lacks its first line is an
/// invalid packet, and bytes that parse as neither are the wrong protocol.
pub fn arwah_extract(remaining: &Vec<u8>) -> (r: Result<ArwahHttp, ArwahCentrifugeError>)
    ensures
        r is Ok <==> spec_http_accepts(remaining@),
        spec_http_req_of(remaining@) is None && spec_http_resp_of(remaining@) is None ==> r
            == Err::<ArwahHttp, _>(ArwahCentrifugeError::WrongProtocol),
        !spec_http_accepts(remaining@) && !(spec_http_req_of(remaining@) is None
            && spec_http_resp_of(remaining@) is None) ==> r == Err::<ArwahHttp, _>(
            ArwahCentrifugeError::InvalidPacket,
        ),
        r matches Ok(v) ==> spec_http_result_ok(remaining@, v),
{
    if let Some(raw) = arwah_http_req(remaining) {
        return match arwah_request_from_raw(raw, remaining) {
            Ok(req) => Ok(ArwahHttp::Request(req)),
            Err(e) => Err(e),
        };
    }
    if let Some(raw) = arwah_http_resp(remaining) {
        return match arwah_response_from_raw(raw, remaining) {
            Ok(resp) => Ok(ArwahHttp::Response(resp)),
            Err(e) => Err(e),
        };
    }
    Err(ArwahCentrifugeError::WrongProtocol)
}

} // verus!
