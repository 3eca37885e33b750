//! The HTTP forward-proxy gateway's translation logic.
//!
//! Each local HTTP request becomes an `http_request` message to the parent:
//! hop-by-hop headers are dropped, the body travels as a string. The
//! parent's response payload is translated back into a local HTTP response,
//! with the framing headers recomputed here rather than trusted from the
//! payload. The listener itself (sockets, HTTP parsing) lives outside; it
//! hands this module plain values.

use vstd::prelude::*;

verus! {

use vstd::string::{StringExecFns, StrSliceExecFns};
use vstd::utf8::encode_utf8;
use crate::json::{
    json_escaped,
    json_escape,
    json_str_field,
    json_u64_field,
    json_str_members_field,
    get_str_field,
    get_u64_field,
    get_str_members,
};
use crate::text::{dec_seq, eq_ignore_ascii_case, lower_seq, u64_to_dec};
use crate::mux::RequestError;

/// Request headers the proxy must not forward to the parent.
pub open spec fn request_header_dropped(name: Seq<char>) -> bool {
    ||| lower_seq(name) == "host"@
    ||| lower_seq(name) == "proxy-connection"@
    ||| lower_seq(name) == "proxy-authorization"@
}

/// Response headers the gateway recomputes itself instead of copying.
pub open spec fn response_header_dropped(name: Seq<char>) -> bool {
    ||| lower_seq(name) == "transfer-encoding"@
    ||| lower_seq(name) == "content-length"@
}

/// The request headers that survive forwarding, in order.
pub open spec fn kept_request_headers(hs: Seq<(Seq<char>, Seq<char>)>) -> Seq<
    (Seq<char>, Seq<char>),
>
    decreases hs.len(),
{
    if hs.len() == 0 {
        Seq::empty()
    } else if request_header_dropped(hs.last().0) {
        kept_request_headers(hs.drop_last())
    } else {
        kept_request_headers(hs.drop_last()).push(hs.last())
    }
}

/// The response headers that are copied back, in order.
pub open spec fn kept_response_headers(hs: Seq<(Seq<char>, Seq<char>)>) -> Seq<
    (Seq<char>, Seq<char>),
>
    decreases hs.len(),
{
    if hs.len() == 0 {
        Seq::empty()
    } else if response_header_dropped(hs.last().0) {
        kept_response_headers(hs.drop_last())
    } else {
        kept_response_headers(hs.drop_last()).push(hs.last())
    }
}

/// A lowercase ASCII string folds to itself.
proof fn lemma_lower_fixed(s: Seq<char>)
    requires
        forall|i: int| 0 <= i < s.len() ==> !('A' <= #[trigger] s[i] <= 'Z'),
    ensures
        lower_seq(s) == s,
{
    assert(lower_seq(s) =~= s);
}

/// Whether a request header is dropped before forwarding.
pub fn is_dropped_request_header(name: &str) -> (r: bool)
    ensures
        r == request_header_dropped(name@),
{
    proof {
        reveal_strlit("host");
        reveal_strlit("proxy-connection");
        reveal_strlit("proxy-authorization");
        lemma_lower_fixed("host"@);
        lemma_lower_fixed("proxy-connection"@);
        lemma_lower_fixed("proxy-authorization"@);
    }
    eq_ignore_ascii_case(name, "host") || eq_ignore_ascii_case(name, "proxy-connection")
        || eq_ignore_ascii_case(name, "proxy-authorization")
}

/// Whether a response header is dropped instead of copied back.
pub fn is_dropped_response_header(name: &str) -> (r: bool)
    ensures
        r == response_header_dropped(name@),
{
    proof {
        reveal_strlit("transfer-encoding");
        reveal_strlit("content-length");
        lemma_lower_fixed("transfer-encoding"@);
        lemma_lower_fixed("content-length"@);
    }
    eq_ignore_ascii_case(name, "transfer-encoding") || eq_ignore_ascii_case(name, "content-length")
}

/// Keep the request headers that may be forwarded to the parent.
pub fn filter_request_headers(headers: &Vec<(String, String)>) -> (r: Vec<(String, String)>)
    ensures
        r.deep_view() == kept_request_headers(headers.deep_view()),
{
    let mut r: Vec<(String, String)> = Vec::new();
    let mut i: usize = 0;
    while i < headers.len()
        invariant
            i <= headers.deep_view().len(),
            headers.deep_view().len() == headers@.len(),
            r.deep_view() == kept_request_headers(headers.deep_view().take(i as int)),
        decreases headers@.len() - i,
    {
        let ghost pre = headers.deep_view().take(i as int);
        let ghost cur = headers.deep_view().take(i + 1);
        proof {
            assert(cur.drop_last() =~= pre);
            assert(cur.last() == headers.deep_view()[i as int]);
            assert(headers.deep_view()[i as int] == (headers@[i as int].0@, headers@[i as int].1@));
        }
        if !is_dropped_request_header(headers[i].0.as_str()) {
            r.push((headers[i].0.clone(), headers[i].1.clone()));
            proof {
                assert(r.deep_view() =~= kept_request_headers(pre).push(cur.last()));
            }
        }
        i = i + 1;
    }
    proof {
        assert(headers.deep_view().take(headers.deep_view().len() as int) =~= headers.deep_view());
    }
    r
}

/// Keep the response headers that are copied back to the local client.
pub fn filter_response_headers(headers: &Vec<(String, String)>) -> (r: Vec<(String, String)>)
    ensures
        r.deep_view() == kept_response_headers(headers.deep_view()),
{
    let mut r: Vec<(String, String)> = Vec::new();
    let mut i: usize = 0;
    while i < headers.len()
        invariant
            i <= headers.deep_view().len(),
            headers.deep_view().len() == headers@.len(),
            r.deep_view() == kept_response_headers(headers.deep_view().take(i as int)),
        decreases headers@.len() - i,
    {
        let ghost pre = headers.deep_view().take(i as int);
        let ghost cur = headers.deep_view().take(i + 1);
        proof {
            assert(cur.drop_last() =~= pre);
            assert(cur.last() == headers.deep_view()[i as int]);
            assert(headers.deep_view()[i as int] == (headers@[i as int].0@, headers@[i as int].1@));
        }
        if !is_dropped_response_header(headers[i].0.as_str()) {
            r.push((headers[i].0.clone(), headers[i].1.clone()));
            proof {
                assert(r.deep_view() =~= kept_response_headers(pre).push(cur.last()));
            }
        }
        i = i + 1;
    }
    proof {
        assert(headers.deep_view().take(headers.deep_view().len() as int) =~= headers.deep_view());
    }
    r
}

/// One header as a JSON object member: `"name":"value"`, both escaped.
pub open spec fn header_member_text(h: (Seq<char>, Seq<char>)) -> Seq<char> {
    json_escaped(h.0) + ":"@ + json_escaped(h.1)
}

/// Headers as the comma-separated members of a JSON object.
pub open spec fn header_members_text(hs: Seq<(Seq<char>, Seq<char>)>) -> Seq<char>
    decreases hs.len(),
{
    if hs.len() == 0 {
        Seq::empty()
    } else if hs.len() == 1 {
        header_member_text(hs[0])
    } else {
        header_members_text(hs.drop_last()) + ","@ + header_member_text(hs.last())
    }
}

/// Render headers as a JSON object's members.
pub fn render_header_members(headers: &Vec<(String, String)>) -> (r: String)
    ensures
        r@ == header_members_text(headers.deep_view()),
{
    let mut out = String::new();
    let mut i: usize = 0;
    while i < headers.len()
        invariant
            i <= headers.deep_view().len(),
            headers.deep_view().len() == headers@.len(),
            out@ == header_members_text(headers.deep_view().take(i as int)),
        decreases headers@.len() - i,
    {
        let ghost pre = headers.deep_view().take(i as int);
        let ghost cur = headers.deep_view().take(i + 1);
        proof {
            assert(cur.drop_last() =~= pre);
            assert(cur.last() == headers.deep_view()[i as int]);
            assert(headers.deep_view()[i as int] == (headers@[i as int].0@, headers@[i as int].1@));
        }
        if i > 0 {
            out.append(",");
        }
        out.append(json_escape(headers[i].0.as_str()).as_str());
        out.append(":");
        out.append(json_escape(headers[i].1.as_str()).as_str());
        proof {
            reveal_strlit(",");
            reveal_strlit(":");
            if i == 0 {
                assert(out@ =~= header_member_text(cur.last()));
                assert(out@ =~= header_members_text(cur));
            } else {
                assert(out@ =~= header_members_text(pre) + ","@ + header_member_text(cur.last()));
                assert(out@ =~= header_members_text(cur));
            }
        }
        i = i + 1;
    }
    proof {
        assert(headers.deep_view().take(headers.deep_view().len() as int) =~= headers.deep_view());
    }
    out
}

/// The payload of an `http_request` message: method, URL, the surviving
/// headers as an object, and the body as a string.
pub open spec fn http_request_payload_text(
    method: Seq<char>,
    url: Seq<char>,
    headers: Seq<(Seq<char>, Seq<char>)>,
    body: Seq<char>,
) -> Seq<char> {
    "{\"body\":"@ + json_escaped(body) + ",\"headers\":{"@ + header_members_text(
        kept_request_headers(headers),
    ) + "},\"method\":"@ + json_escaped(method) + ",\"url\":"@ + json_escaped(url) + "}"@
}

/// Build the payload of an `http_request` from a local request's parts.
/// Headers arrive as they came from the client; the hop-by-hop ones are
/// dropped here.
pub fn build_http_request_payload(
    method: &String,
    url: &String,
    headers: &Vec<(String, String)>,
    body: &String,
) -> (r: String)
    ensures
        r@ == http_request_payload_text(method@, url@, headers.deep_view(), body@),
{
    let kept = filter_request_headers(headers);
    let mut out = String::from_str("{\"body\":");
    out.append(json_escape(body.as_str()).as_str());
    out.append(",\"headers\":{");
    out.append(render_header_members(&kept).as_str());
    out.append("},\"method\":");
    out.append(json_escape(method.as_str()).as_str());
    out.append(",\"url\":");
    out.append(json_escape(url.as_str()).as_str());
    out.append("}");
    proof {
        assert(out@ =~= http_request_payload_text(method@, url@, headers.deep_view(), body@));
    }
    out
}

/// The local status for a proxied response payload's `status` member: the
/// value itself when it is a sensible HTTP status, 502 otherwise.
pub open spec fn local_status(status: Option<u64>) -> u16 {
    match status {
        Some(s) => if 100 <= s <= 999 {
            s as u16
        } else {
            502
        },
        None => 502,
    }
}

/// A local HTTP response, assembled from the parent's reply: the status,
/// the surviving headers with a freshly computed `content-length`, and the
/// body.
pub struct HttpResponseParts {
    pub status: u16,
    pub headers: Vec<(String, String)>,
    pub body: String,
}

/// The headers a translated response carries: the payload's headers minus
/// the recomputed ones, then `content-length` for the actual body bytes.
pub open spec fn response_headers_text(
    headers: Seq<(Seq<char>, Seq<char>)>,
    body_bytes: nat,
) -> Seq<(Seq<char>, Seq<char>)> {
    kept_response_headers(headers).push(("content-length"@, dec_seq(body_bytes)))
}

/// Assemble the local response from the extracted payload members. A
/// missing or out-of-range status becomes 502, missing headers or body
/// become empty, and `content-length` is computed from the body emitted
/// here — never copied from the payload.
pub fn assemble_http_response(
    status: Option<u64>,
    headers: Option<Vec<(String, String)>>,
    body: Option<String>,
) -> (r: HttpResponseParts)
    ensures
        r.status == local_status(status),
        r.body@ == (match body {
            Some(b) => b@,
            None => Seq::<char>::empty(),
        }),
        r.headers.deep_view() == response_headers_text(
            match headers {
                Some(hs) => hs.deep_view(),
                None => Seq::empty(),
            },
            encode_utf8(r.body@).len() as nat,
        ),
{
    let status_code: u16 = match status {
        Some(s) => if 100 <= s && s <= 999 {
            s as u16
        } else {
            502
        },
        None => 502,
    };
    let body_str: String = match body {
        Some(b) => b,
        None => String::new(),
    };
    let header_vec: Vec<(String, String)> = match headers {
        Some(hs) => hs,
        None => Vec::new(),
    };
    let mut kept = filter_response_headers(&header_vec);
    let ghost kept_before = kept.deep_view();
    let len: usize = body_str.as_str().as_bytes_vec().len();
    let cl_name = String::from_str("content-length");
    let cl_value = u64_to_dec(len as u64);
    let ghost cl_pair = (cl_name@, cl_value@);
    kept.push((cl_name, cl_value));
    proof {
        if headers is None {
            assert(header_vec.deep_view() =~= Seq::<(Seq<char>, Seq<char>)>::empty());
        }
        assert(kept.deep_view() =~= kept_before.push(cl_pair));
    }
    HttpResponseParts { status: status_code, headers: kept, body: body_str }
}

/// Translate the parent's `http_request` response payload into a local
/// response, going through the payload's `status`, `headers` and `body`
/// members.
pub fn http_response_from_payload(payload: &String) -> (r: HttpResponseParts)
    ensures
        r.status == local_status(json_u64_field(payload@, "status"@)),
        r.body@ == (match json_str_field(payload@, "body"@) {
            Some(b) => b,
            None => Seq::<char>::empty(),
        }),
        r.headers.deep_view() == response_headers_text(
            match json_str_members_field(payload@, "headers"@) {
                Some(hs) => hs,
                None => Seq::empty(),
            },
            encode_utf8(r.body@).len() as nat,
        ),
{
    let status = get_u64_field(payload.as_str(), "status");
    let headers = get_str_members(payload.as_str(), "headers");
    let body = get_str_field(payload.as_str(), "body");
    assemble_http_response(status, headers, body)
}

/// The local response when the proxied request itself failed: 504 with a
/// gateway-timeout body for a timeout, 502 otherwise.
pub fn proxy_failure_response(e: &RequestError) -> (r: (u16, String))
    ensures
        e is TimedOut ==> r.0 == 504 && r.1@ == "Gateway Timeout: no response from parent"@,
        !(e is TimedOut) ==> r.0 == 502 && r.1@ == "Bad Gateway: proxy request failed"@,
{
    match e {
        RequestError::TimedOut => (
            504,
            String::from_str("Gateway Timeout: no response from parent"),
        ),
        _ => (502, String::from_str("Bad Gateway: proxy request failed")),
    }
}

} // verus!
