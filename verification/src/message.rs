//! The wire message and its JSON encoding.
//!
//! Every frame body is the JSON text of one message object
//! `{"type": ..., "id": ..., "payload": ...}`. The envelope is assembled
//! here by verified concatenation; only leaf string escaping and parsing go
//! through serde_json (see [`crate::json`]).

use vstd::prelude::*;

verus! {

use vstd::string::{StringExecFns, StrSliceExecFns};
use vstd::utf8::encode_utf8;
use crate::json::{json_escaped, json_escape, is_canonical_json};
use crate::frame::{
    decode_frame,
    encode_frame,
    frame_bytes,
    lemma_frame_round_trip,
    FrameDecode,
    FrameError,
    MAX_FRAME_LEN,
};
use crate::text::{dec_seq, digit_char, u64_to_dec};

/// One wire message: a type tag, a correlation ID, and its JSON payload,
/// carried as JSON text.
#[derive(Debug, Clone)]
pub struct Message {
    pub msg_type: String,
    pub id: String,
    pub payload: String,
}

/// The JSON text of a message: an object with the `type`, `id` and `payload`
/// members, in that order, the payload text embedded as it stands.
pub open spec fn message_text(t: Seq<char>, id: Seq<char>, payload: Seq<char>) -> Seq<char> {
    "{\"type\":"@ + json_escaped(t) + ",\"id\":"@ + json_escaped(id) + ",\"payload\":"@ + payload
        + "}"@
}

/// Serialize a message to its JSON text.
pub fn encode_message(m: &Message) -> (r: String)
    ensures
        r@ == message_text(m.msg_type@, m.id@, m.payload@),
{
    let mut out = String::from_str("{\"type\":");
    out.append(json_escape(m.msg_type.as_str()).as_str());
    out.append(",\"id\":");
    out.append(json_escape(m.id.as_str()).as_str());
    out.append(",\"payload\":");
    out.append(m.payload.as_str());
    out.append("}");
    proof {
        assert(out@ =~= message_text(m.msg_type@, m.id@, m.payload@));
    }
    out
}

/// The frame an outgoing message occupies on the wire.
pub open spec fn message_frame_bytes(t: Seq<char>, id: Seq<char>, payload: Seq<char>) -> Seq<u8> {
    frame_bytes(encode_utf8(message_text(t, id, payload)))
}

/// Serialize and frame a message for the wire. Refused exactly when the
/// encoded text overruns the frame length limit.
pub fn encode_message_frame(m: &Message) -> (r: Result<Vec<u8>, FrameError>)
    ensures
        encode_utf8(message_text(m.msg_type@, m.id@, m.payload@)).len() <= MAX_FRAME_LEN ==> (
        r matches Ok(f) && f@ == message_frame_bytes(m.msg_type@, m.id@, m.payload@)),
        encode_utf8(message_text(m.msg_type@, m.id@, m.payload@)).len() > MAX_FRAME_LEN ==> r
            is Err,
{
    let text = encode_message(m);
    let bytes = text.as_str().as_bytes_vec();
    encode_frame(&bytes)
}

/// Relies on serde_json::from_slice, Value::get, the Value variants and
/// serde_json::to_string: parse one frame body as a message object and take
/// its three members, the payload printed back to canonical text. `None`
/// when the bytes are not such an object. Parsing inverts serialization:
/// bytes that are exactly the encoded form of a (type, id, payload) triple
/// with canonical payload yield back precisely those fields.
#[verifier::external_body]
pub(crate) fn parse_message(bytes: &Vec<u8>) -> (r: Option<Message>)
    ensures
        r matches Some(m) ==> is_canonical_json(m.payload@),
        r matches Some(m) ==> forall|t: Seq<char>, i: Seq<char>, p: Seq<char>|
            is_canonical_json(p) && bytes@ == encode_utf8(#[trigger] message_text(t, i, p))
                ==> m.msg_type@ == t && m.id@ == i && m.payload@ == p,
        r is None ==> forall|t: Seq<char>, i: Seq<char>, p: Seq<char>|
            !(is_canonical_json(p) && bytes@ == encode_utf8(#[trigger] message_text(t, i, p))),
{
    let v: serde_json::Value = match serde_json::from_slice(bytes) {
        Ok(v) => v,
        Err(_) => return None,
    };
    let t = v.get("type")?.as_str()?;
    let id = v.get("id")?.as_str()?;
    let payload = serde_json::to_string(v.get("payload")?).ok()?;
    Some(Message { msg_type: t.to_string(), id: id.to_string(), payload })
}

/// What one read step of the response dispatcher concludes from the bytes
/// buffered so far.
pub enum WireEvent {
    /// Not enough buffered bytes yet; read more.
    NeedMore,
    /// Clean end of stream before the next length prefix. Terminal, but not
    /// an error.
    EndOfStream,
    /// A truncated or oversized frame, or a frame that is not one message
    /// object. Terminal: the dispatcher treats the wire as lost.
    Corrupt,
    /// One decoded message, and how many buffered bytes its frame used.
    Message { msg: Message, consumed: usize },
}

/// A buffer that starts with the frame of an encoded message decodes back
/// to that frame's parts.
proof fn lemma_frame_prefix(buf: Seq<u8>, t: Seq<char>, i: Seq<char>, p: Seq<char>)
    requires
        encode_utf8(message_text(t, i, p)).len() <= MAX_FRAME_LEN,
        message_frame_bytes(t, i, p).len() <= buf.len(),
        buf.take(message_frame_bytes(t, i, p).len() as int) == message_frame_bytes(t, i, p),
    ensures
        be32_value_of(buf) == encode_utf8(message_text(t, i, p)).len(),
        4 + encode_utf8(message_text(t, i, p)).len() <= buf.len(),
        buf.subrange(4, 4 + encode_utf8(message_text(t, i, p)).len() as int) == encode_utf8(
            message_text(t, i, p),
        ),
{
    let m = encode_utf8(message_text(t, i, p));
    let mb = message_frame_bytes(t, i, p);
    lemma_frame_round_trip(m);
    assert(buf.take(4) =~= mb.take(4));
    assert(buf.subrange(4, 4 + m.len() as int) =~= mb.subrange(4, 4 + m.len() as int));
}

/// The length prefix at the head of a buffer.
pub open spec fn be32_value_of(buf: Seq<u8>) -> int {
    crate::frame::be32_value(buf.take(4))
}

/// Decode the next message out of the read buffer. Besides the framing
/// cases, the contract states the wire round trip: a buffer that starts
/// with the frame of an encoded message (canonical payload, within the
/// length limit) yields back exactly the message it was built from.
pub fn read_wire_message(buf: &Vec<u8>, eof: bool) -> (r: WireEvent)
    ensures
        buf@.len() < 4 && eof ==> r is EndOfStream,
        buf@.len() < 4 && !eof ==> r is NeedMore,
        r matches WireEvent::Message { msg, consumed } ==> is_canonical_json(msg.payload@) && 4
            <= consumed <= buf@.len(),
        forall|t: Seq<char>, i: Seq<char>, p: Seq<char>|
            (is_canonical_json(p) && encode_utf8(message_text(t, i, p)).len() <= MAX_FRAME_LEN
                && #[trigger] message_frame_bytes(t, i, p).len() <= buf@.len() && buf@.take(
                message_frame_bytes(t, i, p).len() as int,
            ) == message_frame_bytes(t, i, p)) ==> (r matches WireEvent::Message {
                msg,
                consumed,
            } && msg.msg_type@ == t && msg.id@ == i && msg.payload@ == p && consumed
                == message_frame_bytes(t, i, p).len()),
{
    let r = match decode_frame(buf, eof) {
        FrameDecode::NeedMore => WireEvent::NeedMore,
        FrameDecode::EndOfStream => WireEvent::EndOfStream,
        FrameDecode::TruncatedFrame => WireEvent::Corrupt,
        FrameDecode::Oversize { len: _ } => WireEvent::Corrupt,
        FrameDecode::Frame { body, consumed } => {
            match parse_message(&body) {
                Some(msg) => WireEvent::Message { msg, consumed },
                None => WireEvent::Corrupt,
            }
        },
    };
    proof {
        assert forall|t: Seq<char>, i: Seq<char>, p: Seq<char>|
            (is_canonical_json(p) && encode_utf8(message_text(t, i, p)).len() <= MAX_FRAME_LEN
                && #[trigger] message_frame_bytes(t, i, p).len() <= buf@.len() && buf@.take(
                message_frame_bytes(t, i, p).len() as int,
            ) == message_frame_bytes(t, i, p)) implies (r matches WireEvent::Message {
            msg,
            consumed,
        } && msg.msg_type@ == t && msg.id@ == i && msg.payload@ == p && consumed
            == message_frame_bytes(t, i, p).len()) by {
            lemma_frame_prefix(buf@, t, i, p);
        }
    }
    r
}

/// The payload of the handshake, the first message on the wire: the
/// enclave's identity, the protocol revision, and what the agent serves.
pub open spec fn handshake_payload_text(enclave_id: Seq<char>) -> Seq<char> {
    "{\"capabilities\":[\"http_proxy\",\"kms_proxy\",\"log_stream\",\"health\"],\"enclave_id\":"@
        + json_escaped(enclave_id) + ",\"protocol_version\":\"2.0\"}"@
}

/// Build the handshake payload for this enclave.
pub fn handshake_payload(enclave_id: &str) -> (r: String)
    ensures
        r@ == handshake_payload_text(enclave_id@),
{
    let mut out = String::from_str(
        "{\"capabilities\":[\"http_proxy\",\"kms_proxy\",\"log_stream\",\"health\"],\"enclave_id\":",
    );
    out.append(json_escape(enclave_id).as_str());
    out.append(",\"protocol_version\":\"2.0\"}");
    proof {
        assert(out@ =~= handshake_payload_text(enclave_id@));
    }
    out
}

/// A Unix timestamp in milliseconds, printed as fractional seconds:
/// `<seconds>.<milliseconds, three digits>`.
pub open spec fn timestamp_text(millis: nat) -> Seq<char> {
    dec_seq(millis / 1000) + seq!['.', digit_char(millis % 1000 / 100), digit_char(
        millis % 1000 / 10 % 10,
    ), digit_char(millis % 1000 % 10)]
}

/// Print a millisecond Unix timestamp as fractional seconds.
pub fn format_timestamp(millis: u64) -> (r: String)
    ensures
        r@ == timestamp_text(millis as nat),
{
    let mut out = u64_to_dec(millis / 1000);
    out.append(".");
    let frac = millis % 1000;
    out.append(u64_to_dec(frac / 100).as_str());
    out.append(u64_to_dec(frac / 10 % 10).as_str());
    out.append(u64_to_dec(frac % 10).as_str());
    proof {
        reveal_strlit(".");
        assert(out@ =~= timestamp_text(millis as nat));
    }
    out
}

/// The payload of a fire-and-forget log message: level, line, and the time
/// it was emitted, as fractional seconds since the Unix epoch (millisecond
/// precision).
pub open spec fn log_payload_text(level: Seq<char>, message: Seq<char>, millis: nat) -> Seq<
    char,
> {
    "{\"level\":"@ + json_escaped(level) + ",\"message\":"@ + json_escaped(message)
        + ",\"timestamp\":"@ + timestamp_text(millis) + "}"@
}

/// Build a log payload.
pub fn log_payload(level: &str, message: &str, millis: u64) -> (r: String)
    ensures
        r@ == log_payload_text(level@, message@, millis as nat),
{
    let mut out = String::from_str("{\"level\":");
    out.append(json_escape(level).as_str());
    out.append(",\"message\":");
    out.append(json_escape(message).as_str());
    out.append(",\"timestamp\":");
    out.append(format_timestamp(millis).as_str());
    out.append("}");
    proof {
        assert(out@ =~= log_payload_text(level@, message@, millis as nat));
    }
    out
}

/// The `pcr_values` member of a PCR response payload, as JSON text.
pub fn pcr_values_of(payload: &String) -> (r: Option<String>)
    ensures
        r is Some <==> crate::json::json_field_text(payload@, "pcr_values"@) is Some,
        r matches Some(s) ==> crate::json::json_field_text(payload@, "pcr_values"@) == Some(s@),
{
    crate::json::get_field_text(payload.as_str(), "pcr_values")
}

/// The `PCR0` member of a PCR map, when it is a string.
pub fn pcr0_of(pcrs: &String) -> (r: Option<String>)
    ensures
        r is Some <==> crate::json::json_str_field(pcrs@, "PCR0"@) is Some,
        r matches Some(s) ==> crate::json::json_str_field(pcrs@, "PCR0"@) == Some(s@),
{
    crate::json::get_str_field(pcrs.as_str(), "PCR0")
}

/// The empty payload of a `pcr_request`.
pub fn empty_payload() -> (r: String)
    ensures
        r@ == "{}"@,
{
    String::from_str("{}")
}

} // verus!
