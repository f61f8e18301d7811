use vstd::prelude::*;
use crate::status::EmailStatus;
use crate::time::{clock_now, Timestamp};

verus! {

/// Declares serde_json's JSON value so that result rows can carry a raw
/// provider payload through the library unopened.
#[verifier::external_type_specification]
#[verifier::external_body]
pub struct ExJsonValue(serde_json::Value);

/// What `str::trim` returns for a string: it depends on the characters alone.
pub uninterp spec fn trim_of(s: Seq<char>) -> Seq<char>;

/// The lower-case hexadecimal digit for `n` (below 16).
pub open spec fn hex_digit(n: u128) -> char {
    seq!['0', '1', '2', '3', '4', '5', '6', '7', '8', '9', 'a', 'b', 'c', 'd', 'e', 'f'][n as int]
}

/// The `i`-th hexadecimal digit of `id`, most significant first (i < 32).
pub open spec fn uuid_nibble(id: u128, i: int) -> u128 {
    (id >> ((124 - 4 * i) as u128)) & 15u128
}

/// Positions 8, 13, 18 and 23 of a UUID's text hold hyphens.
pub open spec fn uuid_hyphen_at(k: int) -> bool {
    k == 8 || k == 13 || k == 18 || k == 23
}

/// Which hexadecimal digit stands at position `k` of a UUID's text.
pub open spec fn uuid_digit_index(k: int) -> int {
    if k < 8 {
        k
    } else if k < 13 {
        k - 1
    } else if k < 18 {
        k - 2
    } else if k < 23 {
        k - 3
    } else {
        k - 4
    }
}

/// The canonical text of a UUID held as a 128-bit big-endian value, as the
/// uuid crate prints it: its 32 lower-case hexadecimal digits, most
/// significant first, in groups of 8, 4, 4, 4 and 12 joined by hyphens.
pub open spec fn uuid_text(id: u128) -> Seq<char> {
    Seq::new(
        36,
        |k: int|
            if uuid_hyphen_at(k) {
                '-'
            } else {
                hex_digit(uuid_nibble(id, uuid_digit_index(k)))
            },
    )
}

/// Relies on str::trim: leading and trailing whitespace removed.
#[verifier::external_body]
pub(crate) fn trimmed(s: &str) -> (r: String)
    ensures
        r@ == trim_of(s@),
{
    s.trim().to_string()
}

/// Relies on uuid::Uuid::from_u128 (big-endian bytes) and its Display impl,
/// which writes the hyphenated lower-case form.
#[verifier::external_body]
pub(crate) fn uuid_string(id: u128) -> (r: String)
    ensures
        r@ == uuid_text(id),
{
    uuid::Uuid::from_u128(id).to_string()
}

/// Relies on uuid::Uuid::now_v7: a time-ordered identifier; nothing is known
/// of its value.
#[verifier::external_body]
pub(crate) fn fresh_request_id() -> (r: u128) {
    uuid::Uuid::now_v7().as_u128()
}

/// A subject and body pair that any number of requests may reference.
#[derive(Clone, Debug)]
pub struct EmailContent {
    pub id: i32,
    pub subject: String,
    pub content: String,
    pub created_at: Timestamp,
    pub updated_at: Timestamp,
}

impl EmailContent {
    /// A content row not yet stored (id 0), with subject and body trimmed.
    pub fn new(subject: String, content: String) -> (r: EmailContent)
        ensures
            r.id == 0,
            r.subject@ == trim_of(subject@),
            r.content@ == trim_of(content@),
            r.created_at == r.updated_at,
    {
        let now = clock_now();
        EmailContent {
            id: 0,
            subject: trimmed(subject.as_str()),
            content: trimmed(content.as_str()),
            created_at: now,
            updated_at: now,
        }
    }
}

/// A single email-to-address send intent. `id` is the request's UUID as a
/// 128-bit big-endian value.
#[derive(Clone, Debug)]
pub struct EmailRequest {
    pub id: u128,
    pub topic_id: String,
    pub to_email: String,
    pub content_id: i32,
    pub scheduled_at: Option<Timestamp>,
    pub status: EmailStatus,
    pub error: Option<String>,
    pub created_at: Timestamp,
    pub updated_at: Timestamp,
}

/// Whether a request in `status` scheduled at `scheduled_at` is due at `now`.
pub open spec fn due(status: EmailStatus, scheduled_at: Option<Timestamp>, now: Timestamp) -> bool {
    &&& status is Created
    &&& match scheduled_at {
        None => true,
        Some(t) => t.spec_le(now),
    }
}

impl EmailRequest {
    /// A new request in Created, with a fresh time-ordered id and the address
    /// trimmed.
    pub fn new(
        topic_id: String,
        to_email: String,
        content_id: i32,
        scheduled_at: Option<Timestamp>,
    ) -> (r: EmailRequest)
        ensures
            r.topic_id@ == topic_id@,
            r.to_email@ == trim_of(to_email@),
            r.content_id == content_id,
            r.scheduled_at == scheduled_at,
            r.status == EmailStatus::Created,
            r.error is None,
            r.created_at == r.updated_at,
    {
        let now = clock_now();
        EmailRequest {
            id: fresh_request_id(),
            topic_id,
            to_email: trimmed(to_email.as_str()),
            content_id,
            scheduled_at,
            status: EmailStatus::Created,
            error: None,
            created_at: now,
            updated_at: now,
        }
    }

    /// Sets the status and error and stamps the update time from the clock;
    /// every other field is kept.
    pub fn update_status(&mut self, status: EmailStatus, error: Option<String>)
        ensures
            final(self).status == status,
            final(self).error == error,
            final(self).id == old(self).id,
            final(self).topic_id == old(self).topic_id,
            final(self).to_email == old(self).to_email,
            final(self).content_id == old(self).content_id,
            final(self).scheduled_at == old(self).scheduled_at,
            final(self).created_at == old(self).created_at,
    {
        self.status = status;
        self.error = error;
        self.updated_at = clock_now();
    }

    /// Whether the request is in Created and its scheduled time, if any, is
    /// at or before `now`.
    pub fn is_ready_to_send(&self, now: Timestamp) -> (r: bool)
        ensures
            r == due(self.status, self.scheduled_at, now),
    {
        self.status == EmailStatus::Created && match self.scheduled_at {
            None => true,
            Some(t) => t.is_at_or_before(&now),
        }
    }
}

/// A delivery-lifecycle event reported for a request.
#[derive(Debug)]
pub struct EmailResult {
    pub id: i32,
    pub request_id: u128,
    pub status: String,
    pub raw: serde_json::Value,
    pub created_at: Timestamp,
    pub updated_at: Timestamp,
}

impl EmailResult {
    /// A result row not yet stored (id 0).
    pub fn new(request_id: u128, status: String, raw: serde_json::Value) -> (r: EmailResult)
        ensures
            r.id == 0,
            r.request_id == request_id,
            r.status@ == status@,
            r.raw == raw,
            r.created_at == r.updated_at,
    {
        let now = clock_now();
        EmailResult { id: 0, request_id, status, raw, created_at: now, updated_at: now }
    }
}

/// A request joined with its content's subject and body.
#[derive(Clone, Debug)]
pub struct EmailRequestWithContent {
    pub id: u128,
    pub topic_id: String,
    pub to_email: String,
    pub content_id: i32,
    pub scheduled_at: Option<Timestamp>,
    pub status: EmailStatus,
    pub error: Option<String>,
    pub created_at: Timestamp,
    pub updated_at: Timestamp,
    pub subject: Option<String>,
    pub content: Option<String>,
}

/// The open-tracking image tag for request `id` served from `host`.
pub open spec fn tracking_pixel(host: Seq<char>, id: u128) -> Seq<char> {
    pixel_prefix() + host + pixel_query() + uuid_text(id) + pixel_suffix()
}

pub open spec fn pixel_prefix() -> Seq<char> {
    "<img src=\""@
}

pub open spec fn pixel_query() -> Seq<char> {
    "/v1/events/open?requestId="@
}

pub open spec fn pixel_suffix() -> Seq<char> {
    "\" width=\"1\" height=\"1\" style=\"display:none;\" alt=\"\">"@
}

/// The text of an optional string, empty when absent.
pub open spec fn text_or_empty(s: Option<String>) -> Seq<char> {
    match s {
        Some(t) => t@,
        None => Seq::empty(),
    }
}

/// The body that goes on the bus: the content followed by the tracking pixel.
pub open spec fn tracked_body(content: Seq<char>, host: Seq<char>, id: u128) -> Seq<char> {
    content + tracking_pixel(host, id)
}

impl EmailRequestWithContent {
    /// The open-tracking image tag for this request.
    pub fn generate_tracking_pixel(&self, server_host: &str) -> (r: String)
        ensures
            r@ == tracking_pixel(server_host@, self.id),
    {
        let mut pixel = String::from_str("<img src=\"");
        pixel.append(server_host);
        pixel.append("/v1/events/open?requestId=");
        let id_text = uuid_string(self.id);
        pixel.append(id_text.as_str());
        pixel.append("\" width=\"1\" height=\"1\" style=\"display:none;\" alt=\"\">");
        pixel
    }

    /// The content (empty when absent) followed by the tracking pixel.
    pub fn content_with_tracking(&self, server_host: &str) -> (r: String)
        ensures
            r@ == tracked_body(text_or_empty(self.content), server_host@, self.id),
    {
        let mut body = match &self.content {
            Some(c) => c.clone(),
            None => String::new(),
        };
        let pixel = self.generate_tracking_pixel(server_host);
        body.append(pixel.as_str());
        body
    }
}

/// The body handed to the bus ends with the tracking pixel, and the pixel's
/// `requestId` value is exactly the request's UUID text.
pub proof fn lemma_tracked_body_ends_with_pixel(content: Seq<char>, host: Seq<char>, id: u128)
    ensures
        ({
            let b = tracked_body(content, host, id);
            let p = tracking_pixel(host, id);
            &&& b.len() >= p.len()
            &&& b.subrange(b.len() - p.len(), b.len() as int) == p
        }),
        ({
            let p = tracking_pixel(host, id);
            let k = (pixel_prefix().len() + host.len() + pixel_query().len()) as int;
            &&& p.subrange(0, k) == pixel_prefix() + host + pixel_query()
            &&& p.subrange(k, k + uuid_text(id).len() as int) == uuid_text(id)
            &&& p.subrange(k + uuid_text(id).len() as int, p.len() as int) == pixel_suffix()
        }),
        uuid_text(id).len() == 36,
        forall|k: int| 0 <= k < 36 ==> #[trigger] uuid_text(id)[k] != '"',
{
    assert forall|k: int| 0 <= k < 36 implies #[trigger] uuid_text(id)[k] != '"' by {
        if !uuid_hyphen_at(k) {
            let sh = (124 - 4 * uuid_digit_index(k)) as u128;
            let n = uuid_nibble(id, uuid_digit_index(k));
            assert(n == (id >> sh) & 15u128);
            assert((id >> sh) & 15u128 < 16) by (bit_vector);
        }
    }
    let b = tracked_body(content, host, id);
    let p = tracking_pixel(host, id);
    assert(b.subrange(b.len() - p.len(), b.len() as int) =~= p);
    let k = (pixel_prefix().len() + host.len() + pixel_query().len()) as int;
    let u = uuid_text(id);
    assert(p.subrange(0, k) =~= pixel_prefix() + host + pixel_query());
    assert(p.subrange(k, k + u.len() as int) =~= u);
    assert(p.subrange(k + u.len() as int, p.len() as int) =~= pixel_suffix());
}

/// With empty content the body is exactly the tracking pixel.
pub proof fn lemma_empty_content_body_is_pixel(host: Seq<char>, id: u128)
    ensures
        tracked_body(Seq::empty(), host, id) == tracking_pixel(host, id),
{
    assert(tracked_body(Seq::empty(), host, id) =~= tracking_pixel(host, id));
}

} // verus!
