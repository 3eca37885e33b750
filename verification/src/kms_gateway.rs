//! The KMS gateway's translation logic.
//!
//! A local `POST /<operation>` with a JSON body becomes a `kms_request`
//! message whose payload carries the operation (the path stripped of
//! slashes) and the body's JSON (an empty object when the body does not
//! parse). The parent's reply maps to a local JSON response: an `error`
//! member means 400, otherwise the `result` member is returned with 200.

use vstd::prelude::*;

verus! {

use vstd::string::{StringExecFns, StrSliceExecFns};
use crate::json::{
    json_escaped,
    json_escape,
    json_canon,
    json_str_field,
    json_field_text,
    canon_json,
    get_str_field,
    get_field_text,
};
use crate::text::chars_of;
use crate::mux::RequestError;

/// How many `/` characters the path starts with.
pub open spec fn leading_slashes(s: Seq<char>) -> int
    decreases s.len(),
{
    if s.len() == 0 || s[0] != '/' {
        0
    } else {
        1 + leading_slashes(s.drop_first())
    }
}

/// How many `/` characters the path ends with.
pub open spec fn trailing_slashes(s: Seq<char>) -> int
    decreases s.len(),
{
    if s.len() == 0 || s.last() != '/' {
        0
    } else {
        1 + trailing_slashes(s.drop_last())
    }
}

/// The KMS operation named by a request path: the path with all leading and
/// trailing slashes removed.
pub open spec fn kms_operation_text(path: Seq<char>) -> Seq<char> {
    if leading_slashes(path) == path.len() {
        Seq::empty()
    } else {
        path.subrange(leading_slashes(path), path.len() - trailing_slashes(path))
    }
}

proof fn lemma_leading_count(s: Seq<char>, m: int)
    requires
        0 <= m <= s.len(),
        forall|k: int| 0 <= k < m ==> s[k] == '/',
        m == s.len() || s[m] != '/',
    ensures
        leading_slashes(s) == m,
    decreases m,
{
    if m == 0 {
    } else {
        let t = s.drop_first();
        assert(s[0] == '/');
        assert forall|k: int| 0 <= k < m - 1 implies t[k] == '/' by {
            assert(t[k] == s[k + 1]);
        }
        if m - 1 < t.len() {
            assert(t[m - 1] == s[m]);
        }
        lemma_leading_count(t, m - 1);
    }
}

proof fn lemma_trailing_count(s: Seq<char>, m: int)
    requires
        0 <= m <= s.len(),
        forall|k: int| s.len() - m <= k < s.len() ==> s[k] == '/',
        m == s.len() || s[s.len() - m - 1] != '/',
    ensures
        trailing_slashes(s) == m,
    decreases m,
{
    if m == 0 {
    } else {
        let t = s.drop_last();
        assert(s.last() == '/');
        assert forall|k: int| t.len() - (m - 1) <= k < t.len() implies t[k] == '/' by {
            assert(t[k] == s[k]);
        }
        lemma_trailing_count(t, m - 1);
    }
}

/// Strip the slashes framing a request path to get the KMS operation.
pub fn kms_operation(path: &str) -> (r: String)
    ensures
        r@ == kms_operation_text(path@),
{
    let cs = chars_of(path);
    let n = cs.len();
    let mut start: usize = 0;
    while start < n && cs[start] == '/'
        invariant
            cs@ == path@,
            n == path@.len(),
            start <= n,
            forall|k: int| 0 <= k < start ==> path@[k] == '/',
        decreases n - start,
    {
        start = start + 1;
    }
    proof {
        lemma_leading_count(path@, start as int);
    }
    if start >= n {
        return String::new();
    }
    let mut end: usize = n;
    while end > start + 1 && cs[end - 1] == '/'
        invariant
            cs@ == path@,
            n == path@.len(),
            start < n,
            path@[start as int] != '/',
            start + 1 <= end <= n,
            forall|k: int| end <= k < n ==> path@[k] == '/',
        decreases end,
    {
        end = end - 1;
    }
    proof {
        if cs@[end - 1] == '/' {
            assert(end == start + 1);
            assert(path@[start as int] == '/');
            assert(false);
        }
        lemma_trailing_count(path@, n - end as int);
    }
    path.substring_char(start, end).to_owned()
}

/// The payload of a `kms_request` message: the request body's JSON under
/// `data`, the operation under `operation`.
pub open spec fn kms_payload_text(op: Seq<char>, data: Seq<char>) -> Seq<char> {
    "{\"data\":"@ + data + ",\"operation\":"@ + json_escaped(op) + "}"@
}

/// Build a `kms_request` payload from the operation and the raw request
/// body. A body that does not parse as JSON becomes the empty object — the
/// gateway does not reject it.
pub fn build_kms_request_payload(op: &String, body: &Vec<u8>) -> (r: String)
    ensures
        json_canon(body@) matches Some(d) ==> r@ == kms_payload_text(op@, d),
        json_canon(body@) is None ==> r@ == kms_payload_text(op@, "{}"@),
{
    let data = match canon_json(body.as_slice()) {
        Some(d) => d,
        None => String::from_str("{}"),
    };
    let mut out = String::from_str("{\"data\":");
    out.append(data.as_str());
    out.append(",\"operation\":");
    out.append(json_escape(op.as_str()).as_str());
    out.append("}");
    proof {
        if json_canon(body@) is Some {
            assert(out@ =~= kms_payload_text(op@, json_canon(body@).unwrap()));
        } else {
            assert(out@ =~= kms_payload_text(op@, "{}"@));
        }
    }
    out
}

/// A local KMS response: an HTTP status and a JSON body.
pub struct KmsResponseParts {
    pub status: u16,
    pub body: String,
}

/// An error body: `{"error": <text>}`.
pub open spec fn kms_error_body_text(error: Seq<char>) -> Seq<char> {
    "{\"error\":"@ + json_escaped(error) + "}"@
}

/// Assemble the local KMS response from the extracted payload members: a
/// string `error` member means 400 with that error; otherwise 200 with the
/// `result` member, or the empty object when there is none.
pub fn assemble_kms_response(error: Option<String>, result: Option<String>) -> (r:
    KmsResponseParts)
    ensures
        error matches Some(e) ==> r.status == 400 && r.body@ == kms_error_body_text(e@),
        error is None ==> (result matches Some(t) ==> r.status == 200 && r.body@ == t@),
        error is None && result is None ==> r.status == 200 && r.body@ == "{}"@,
{
    match error {
        Some(e) => {
            let mut body = String::from_str("{\"error\":");
            body.append(json_escape(e.as_str()).as_str());
            body.append("}");
            proof {
                assert(body@ =~= kms_error_body_text(e@));
            }
            KmsResponseParts { status: 400, body }
        },
        None => match result {
            Some(t) => KmsResponseParts { status: 200, body: t },
            None => KmsResponseParts { status: 200, body: String::from_str("{}") },
        },
    }
}

/// Map the parent's `kms_request` response payload to the local response,
/// going through the payload's `error` and `result` members.
pub fn kms_response_from_payload(payload: &String) -> (r: KmsResponseParts)
    ensures
        json_str_field(payload@, "error"@) matches Some(e) ==> r.status == 400 && r.body@
            == kms_error_body_text(e),
        json_str_field(payload@, "error"@) is None ==> r.status == 200 && (match json_field_text(
            payload@,
            "result"@,
        ) {
            Some(t) => r.body@ == t,
            None => r.body@ == "{}"@,
        }),
{
    let error = get_str_field(payload.as_str(), "error");
    let result = get_field_text(payload.as_str(), "result");
    assemble_kms_response(error, result)
}

/// What each request failure is called in local error bodies.
pub open spec fn request_error_text(e: RequestError) -> Seq<char> {
    match e {
        RequestError::TimedOut => "request timed out"@,
        RequestError::BrokenPipe => "response channel closed"@,
        RequestError::SendFailed => "failed to send request"@,
    }
}

/// Describe a request failure in one short phrase.
pub fn describe_request_error(e: &RequestError) -> (r: &'static str)
    ensures
        r@ == request_error_text(*e),
{
    match e {
        RequestError::TimedOut => "request timed out",
        RequestError::BrokenPipe => "response channel closed",
        RequestError::SendFailed => "failed to send request",
    }
}

/// The local response when the `kms_request` itself failed: 500 with
/// `{"error": "KMS error: <failure>"}`.
pub fn kms_failure_response(e: &RequestError) -> (r: KmsResponseParts)
    ensures
        r.status == 500,
        r.body@ == kms_error_body_text("KMS error: "@ + request_error_text(*e)),
{
    let mut text = String::from_str("KMS error: ");
    text.append(describe_request_error(e));
    let mut body = String::from_str("{\"error\":");
    body.append(json_escape(text.as_str()).as_str());
    body.append("}");
    proof {
        assert(body@ =~= kms_error_body_text("KMS error: "@ + request_error_text(*e)));
    }
    KmsResponseParts { status: 500, body }
}

} // verus!
