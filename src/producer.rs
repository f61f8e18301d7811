use vstd::prelude::*;
use vstd::utf8::{encode_utf8, is_ascii_chars, is_ascii_chars_encode_utf8};
use crate::config::NatsConfig;
use crate::reconcile::PublishOutcome;
use crate::models::{tracked_body, text_or_empty, uuid_string, uuid_text, EmailRequestWithContent};

verus! {

/// Declares rmp_serde's encoding error, which the map writer's signature
/// carries.
#[verifier::external_type_specification]
#[verifier::external_body]
pub struct ExEncodeError(rmp_serde::encode::Error);

/// The length of a text in UTF-8 bytes.
pub open spec fn utf8_len(s: Seq<char>) -> nat {
    encode_utf8(s).len()
}

/// `n` as `width` big-endian bytes.
pub open spec fn be_bytes(n: nat, width: nat) -> Seq<u8>
    decreases width,
{
    if width == 0 {
        Seq::empty()
    } else {
        be_bytes(n / 256, (width - 1) as nat).push((n % 256) as u8)
    }
}

/// A MessagePack string: the shortest header for its UTF-8 length (fixstr,
/// str8, str16 or str32), then its UTF-8 bytes.
pub open spec fn msgpack_str(s: Seq<char>) -> Seq<u8> {
    let n = utf8_len(s);
    let header = if n < 32 {
        seq![(0xa0 + n) as u8]
    } else if n < 256 {
        seq![0xd9u8, n as u8]
    } else if n < 65536 {
        seq![0xdau8] + be_bytes(n, 2)
    } else {
        seq![0xdbu8] + be_bytes(n, 4)
    };
    header + encode_utf8(s)
}

/// The header of a MessagePack map of `n` entries (fixmap, map16 or map32).
pub open spec fn msgpack_map_header(n: nat) -> Seq<u8> {
    if n < 16 {
        seq![(0x80 + n) as u8]
    } else if n < 65536 {
        seq![0xdeu8] + be_bytes(n, 2)
    } else {
        seq![0xdfu8] + be_bytes(n, 4)
    }
}

/// The entries of a map, key then value, in order.
pub open spec fn msgpack_entries(keys: Seq<Seq<char>>, values: Seq<Seq<char>>) -> Seq<u8>
    decreases keys.len(),
{
    if keys.len() == 0 {
        Seq::empty()
    } else {
        msgpack_entries(keys.drop_last(), values.drop_last()) + msgpack_str(keys.last())
            + msgpack_str(values.last())
    }
}

/// A MessagePack map from string keys to string values, entries in order.
pub open spec fn msgpack_string_map(keys: Seq<Seq<char>>, values: Seq<Seq<char>>) -> Seq<u8> {
    msgpack_map_header(keys.len()) + msgpack_entries(keys, values)
}

pub open spec fn texts(strs: Seq<&str>) -> Seq<Seq<char>> {
    strs.map_values(|s: &str| s@)
}

/// Relies on rmp_serde::Serializer writing into a Vec<u8>, driven by serde's
/// Serializer::collect_map: the pairs, in order, become one MessagePack map,
/// with the shortest headers (rmp's write_map_len, write_str). Writing into
/// a Vec<u8> does not fail. Lengths are written as u32, hence the bounds.
#[verifier::external_body]
fn encode_string_map(keys: &Vec<&str>, values: &Vec<&str>) -> (r: Result<Vec<u8>, rmp_serde::encode::Error>)
    requires
        keys@.len() == values@.len(),
        keys@.len() <= u32::MAX,
        forall|i: int| 0 <= i < keys@.len() ==> utf8_len((#[trigger] keys@[i])@) <= u32::MAX,
        forall|i: int| 0 <= i < values@.len() ==> utf8_len((#[trigger] values@[i])@) <= u32::MAX,
    ensures
        r is Ok,
        r matches Ok(bytes) ==> bytes@ == msgpack_string_map(texts(keys@), texts(values@)),
{
    let mut bytes: Vec<u8> = Vec::new();
    let pairs = keys.iter().copied().zip(values.iter().copied());
    let written = serde::Serializer::collect_map(&mut rmp_serde::Serializer::new(&mut bytes), pairs);
    match written {
        Ok(()) => Ok(bytes),
        Err(e) => Err(e),
    }
}

/// The wire form of a payload: a MessagePack map with the fields uuid,
/// email, subject and body, in that order.
pub open spec fn payload_bytes(uuid: Seq<char>, email: Seq<char>, subject: Seq<char>, body: Seq<char>) -> Seq<u8> {
    msgpack_string_map(
        seq!["uuid"@, "email"@, "subject"@, "body"@],
        seq![uuid, email, subject, body],
    )
}

/// Whether a text fits a MessagePack string (at most u32::MAX bytes).
pub open spec fn fits_msgpack(s: Seq<char>) -> bool {
    utf8_len(s) <= u32::MAX
}

fn fits(s: &str) -> (r: bool)
    ensures
        r == fits_msgpack(s@),
{
    s.as_bytes().len() as u64 <= u32::MAX as u64
}

proof fn lemma_ascii_key_fits(k: &str)
    requires
        is_ascii_chars(k@),
        k@.len() <= 16,
    ensures
        fits_msgpack(k@),
{
    is_ascii_chars_encode_utf8(k@);
}

/// The message that is published for one request: its UUID text, address,
/// subject (empty when absent) and the tracked body.
#[derive(Clone, Debug)]
pub struct EmailPublishPayload {
    pub uuid: String,
    pub email: String,
    pub subject: String,
    pub body: String,
}

impl EmailPublishPayload {
    /// The payload for `request`, with tracking links pointing at `server_host`.
    pub fn for_request(request: &EmailRequestWithContent, server_host: &str) -> (r: EmailPublishPayload)
        ensures
            r.uuid@ == uuid_text(request.id),
            r.email@ == request.to_email@,
            r.subject@ == text_or_empty(request.subject),
            r.body@ == tracked_body(text_or_empty(request.content), server_host@, request.id),
    {
        let subject = match &request.subject {
            Some(s) => s.clone(),
            None => String::new(),
        };
        EmailPublishPayload {
            uuid: uuid_string(request.id),
            email: request.to_email.clone(),
            subject,
            body: request.content_with_tracking(server_host),
        }
    }

    /// The wire bytes: a MessagePack map of uuid, email, subject and body.
    /// A field too long for a MessagePack string (over u32::MAX bytes) makes
    /// it fail.
    pub fn encode(&self) -> (r: Result<Vec<u8>, String>)
        ensures
            (r is Ok) == (fits_msgpack(self.uuid@) && fits_msgpack(self.email@) && fits_msgpack(
                self.subject@,
            ) && fits_msgpack(self.body@)),
            r matches Ok(bytes) ==> bytes@ == payload_bytes(self.uuid@, self.email@, self.subject@, self.body@),
    {
        if !(fits(self.uuid.as_str()) && fits(self.email.as_str()) && fits(self.subject.as_str()) && fits(
            self.body.as_str(),
        )) {
            return Err(String::from_str("payload field too long for MessagePack"));
        }
        let keys: Vec<&str> = vec!["uuid", "email", "subject", "body"];
        let values: Vec<&str> = vec![
            self.uuid.as_str(),
            self.email.as_str(),
            self.subject.as_str(),
            self.body.as_str(),
        ];
        proof {
            reveal_strlit("uuid");
            reveal_strlit("email");
            reveal_strlit("subject");
            reveal_strlit("body");
            lemma_ascii_key_fits("uuid");
            lemma_ascii_key_fits("email");
            lemma_ascii_key_fits("subject");
            lemma_ascii_key_fits("body");
            assert(texts(keys@) =~= seq!["uuid"@, "email"@, "subject"@, "body"@]);
            assert(texts(values@) =~= seq![self.uuid@, self.email@, self.subject@, self.body@]);
        }
        match encode_string_map(&keys, &values) {
            Ok(bytes) => Ok(bytes),
            Err(e) => Err(e.to_string()),
        }
    }
}

/// Retention of the stream: 24 hours.
pub const STREAM_MAX_AGE_SECS: u64 = 86400;

/// At most one million messages are kept.
pub const STREAM_MAX_MESSAGES: i64 = 1000000;

/// At most one gigabyte is kept.
pub const STREAM_MAX_BYTES: i64 = 1000000000;

/// The stream that the producer gets or creates at start.
#[derive(Clone, Debug)]
pub struct StreamSettings {
    pub name: String,
    pub subjects: Vec<String>,
    pub max_age_secs: u64,
    pub max_messages: i64,
    pub max_bytes: i64,
}

/// The stream named in `config`, bound to its one subject, with the
/// retention limits above.
pub fn stream_settings(config: &NatsConfig) -> (r: StreamSettings)
    ensures
        r.name@ == config.stream@,
        r.subjects@.len() == 1,
        r.subjects@[0]@ == config.subject@,
        r.max_age_secs == STREAM_MAX_AGE_SECS,
        r.max_messages == STREAM_MAX_MESSAGES,
        r.max_bytes == STREAM_MAX_BYTES,
{
    let mut subjects: Vec<String> = Vec::new();
    subjects.push(config.subject.clone());
    StreamSettings {
        name: config.stream.clone(),
        subjects,
        max_age_secs: STREAM_MAX_AGE_SECS,
        max_messages: STREAM_MAX_MESSAGES,
        max_bytes: STREAM_MAX_BYTES,
    }
}

/// The outcome of one publish: acknowledged with its stream sequence, or
/// failed with the reason (an encoding error, a nack, a transport error or
/// an ack timeout).
pub fn publish_outcome(ack: Result<u64, String>) -> (r: PublishOutcome)
    ensures
        r == match ack {
            Ok(seq) => PublishOutcome::Published(seq),
            Err(reason) => PublishOutcome::PublishFailed(reason),
        },
{
    match ack {
        Ok(seq) => PublishOutcome::Published(seq),
        Err(reason) => PublishOutcome::PublishFailed(reason),
    }
}

/// The bytes to publish for `request`; it fails only when a field is too
/// long for a MessagePack string.
pub fn prepare_publish(request: &EmailRequestWithContent, server_host: &str) -> (r: Result<Vec<u8>, String>)
    ensures
        ({
            let uuid = uuid_text(request.id);
            let subject = text_or_empty(request.subject);
            let body = tracked_body(text_or_empty(request.content), server_host@, request.id);
            &&& (r is Ok) == (fits_msgpack(uuid) && fits_msgpack(request.to_email@) && fits_msgpack(subject)
                && fits_msgpack(body))
            &&& r matches Ok(bytes) ==> bytes@ == payload_bytes(uuid, request.to_email@, subject, body)
        }),
{
    let payload = EmailPublishPayload::for_request(request, server_host);
    payload.encode()
}

} // verus!
