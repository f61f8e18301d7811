use vstd::prelude::*;
use std::collections::HashMap;
use crate::error::AppError;
use crate::scheduler::last_count;
use crate::time::Timestamp;

verus! {

/// Relies on subtle's ConstantTimeEq for byte slices: it yields 1 exactly
/// when both slices have the same length and the same bytes, and compares
/// equal-length slices in time independent of their contents.
#[verifier::external_body]
fn bytes_equal_constant_time(a: &[u8], b: &[u8]) -> (r: bool)
    ensures
        r == (a@ == b@),
{
    bool::from(subtle::ConstantTimeEq::ct_eq(a, b))
}

/// Whether the presented API key equals the expected one. Keys of equal
/// length are compared in constant time.
pub fn api_key_matches(given: &str, expected: &str) -> (r: bool)
    ensures
        r == (given@ == expected@),
{
    if given.len() != expected.len() {
        return false;
    }
    let r = bytes_equal_constant_time(given.as_bytes(), expected.as_bytes());
    proof {
        vstd::utf8::encode_utf8_decode_utf8(given@);
        vstd::utf8::encode_utf8_decode_utf8(expected@);
    }
    r
}

/// Query of the sent-count endpoint: the window in hours.
#[derive(Clone, Copy, Debug, PartialEq, Eq, Structural)]
pub struct SentCountQuery {
    pub hours: Option<i32>,
}

/// The window of the sent-count query, 24 hours when absent.
pub open spec fn window_hours(hours: Option<i32>) -> i32 {
    match hours {
        Some(h) => h,
        None => 24,
    }
}

impl SentCountQuery {
    /// The validated window in hours: between 1 and 168 (one week).
    pub fn window(&self) -> (r: Result<i32, AppError>)
        ensures
            (r is Ok) == (1 <= window_hours(self.hours) <= 168),
            r matches Ok(h) ==> h == window_hours(self.hours),
            r matches Err(e) ==> e matches AppError::Validation(m) && m@
                == "hours must be between 1 and 168"@,
    {
        let hours = match self.hours {
            Some(h) => h,
            None => 24,
        };
        if hours <= 0 || hours > 168 {
            return Err(AppError::Validation(String::from_str("hours must be between 1 and 168")));
        }
        Ok(hours)
    }
}

/// The start of a window of `hours` hours ending at `now`.
pub fn window_start(now: Timestamp, hours: i32) -> (r: Timestamp)
    requires
        1 <= hours <= 168,
        now.secs >= i64::MIN + 168 * 3600,
    ensures
        r.secs == now.secs - hours * 3600,
        r.nanos == now.nanos,
{
    Timestamp { secs: now.secs - (hours as i64) * 3600, nanos: now.nanos }
}

/// Requests of one topic by status (Processing is not reported).
#[derive(Clone, Copy, Debug, PartialEq, Eq, Structural)]
pub struct RequestCounts {
    pub total: i64,
    pub created: i64,
    pub sent: i64,
    pub failed: i64,
    pub stopped: i64,
}

impl RequestCounts {
    /// Counts from the topic's total and its (status code, count) rows. A
    /// topic with no requests reports zeros everywhere.
    pub fn from_counts(total: i64, rows: &Vec<(i16, Option<i64>)>) -> (r: RequestCounts)
        ensures
            total == 0 ==> r == (RequestCounts { total: 0, created: 0, sent: 0, failed: 0, stopped: 0 }),
            total != 0 ==> r == (RequestCounts {
                total,
                created: last_count(rows@, 0),
                sent: last_count(rows@, 2),
                failed: last_count(rows@, 3),
                stopped: last_count(rows@, 4),
            }),
    {
        let mut counts = RequestCounts { total, created: 0, sent: 0, failed: 0, stopped: 0 };
        if total == 0 {
            return counts;
        }
        let mut i: usize = 0;
        while i < rows.len()
            invariant
                i <= rows@.len(),
                counts.total == total,
                counts.created == last_count(rows@.take(i as int), 0),
                counts.sent == last_count(rows@.take(i as int), 2),
                counts.failed == last_count(rows@.take(i as int), 3),
                counts.stopped == last_count(rows@.take(i as int), 4),
            decreases rows@.len() - i,
        {
            proof {
                assert(rows@.take(i + 1).drop_last() =~= rows@.take(i as int));
            }
            let (code, count) = rows[i];
            let c = match count {
                Some(c) => c,
                None => 0,
            };
            match code {
                0 => { counts.created = c; },
                2 => { counts.sent = c; },
                3 => { counts.failed = c; },
                4 => { counts.stopped = c; },
                _ => {},
            }
            i = i + 1;
        }
        proof {
            assert(rows@.take(i as int) =~= rows@);
        }
        counts
    }
}

/// Result events of one topic: requests per result status.
#[derive(Clone, Debug)]
pub struct ResultCounts {
    pub statuses: HashMap<String, i64>,
}

/// The answer of the topic-count endpoint.
#[derive(Clone, Debug)]
pub struct ResultCountResponse {
    pub request: RequestCounts,
    pub result: ResultCounts,
}

/// The answer of the message-creation endpoint.
#[derive(Clone, Debug)]
pub struct CreateMessageResponse {
    pub count: usize,
    pub elapsed: String,
}

/// The answer of the sent-count endpoint.
#[derive(Clone, Copy, Debug, PartialEq, Eq, Structural)]
pub struct SentCountResponse {
    pub count: i64,
}

/// The answer of the health endpoint.
#[derive(Clone, Debug)]
pub struct HealthResponse {
    pub status: String,
    pub timestamp: Timestamp,
}

/// An envelope from the provider's notification service.
#[derive(Clone, Debug)]
pub struct SnsMessage {
    pub message_type: String,
    pub message: String,
    pub message_id: String,
    pub subscribe_url: Option<String>,
}

/// A delivery notification carried inside an envelope.
#[derive(Clone, Debug)]
pub struct SesNotification {
    pub notification_type: String,
    pub mail: SesMailInfo,
}

/// The mail a notification is about, with the tags it was sent with.
#[derive(Clone, Debug)]
pub struct SesMailInfo {
    pub tags: HashMap<String, Vec<String>>,
}

/// What the webhook does with an envelope.
#[derive(Clone, Copy, Debug, PartialEq, Eq, Structural)]
pub enum EnvelopeAction {
    /// Acknowledge a subscription confirmation.
    ConfirmSubscription,
    /// Record the notification it carries.
    Record,
    /// Acknowledge and ignore any other envelope.
    Ignore,
}

pub open spec fn envelope_action(message_type: Seq<char>) -> EnvelopeAction {
    if message_type == "SubscriptionConfirmation"@ {
        EnvelopeAction::ConfirmSubscription
    } else if message_type == "Notification"@ {
        EnvelopeAction::Record
    } else {
        EnvelopeAction::Ignore
    }
}

impl SnsMessage {
    /// What the webhook does with this envelope, by its type.
    pub fn action(&self) -> (r: EnvelopeAction)
        ensures
            r == envelope_action(self.message_type@),
    {
        if self.message_type == String::from_str("SubscriptionConfirmation") {
            EnvelopeAction::ConfirmSubscription
        } else if self.message_type == String::from_str("Notification") {
            EnvelopeAction::Record
        } else {
            EnvelopeAction::Ignore
        }
    }
}

/// Declares uuid's parse error so that its text can be reported.
#[verifier::external_type_specification]
#[verifier::external_body]
pub struct ExUuidError(uuid::Error);

/// The UUID (as a 128-bit big-endian value) that uuid's parser reads from a
/// text, or None where it rejects the text.
pub uninterp spec fn uuid_parse(s: Seq<char>) -> Option<u128>;

/// Relies on uuid::Uuid::parse_str and Uuid::as_u128.
#[verifier::external_body]
fn parse_uuid(s: &str) -> (r: Result<u128, uuid::Error>)
    ensures
        (r is Ok) == (uuid_parse(s@) is Some),
        r matches Ok(v) ==> uuid_parse(s@) == Some(v),
{
    match uuid::Uuid::parse_str(s) {
        Ok(u) => Ok(u.as_u128()),
        Err(e) => Err(e),
    }
}

/// The request that an open-tracking hit names through its `requestId`
/// parameter, if the parameter is present and is a UUID.
pub fn open_event_request_id(request_id: Option<&String>) -> (r: Option<u128>)
    ensures
        r == match request_id {
            Some(s) => uuid_parse(s@),
            None => None,
        },
{
    match request_id {
        Some(s) => match parse_uuid(s.as_str()) {
            Ok(v) => Some(v),
            Err(_) => None,
        },
        None => None,
    }
}

/// The request that a notification names: the first value of its
/// `request_id` tag.
pub fn tagged_request_id(tag_values: Option<&Vec<String>>) -> (r: Result<u128, AppError>)
    ensures
        match tag_values {
            Some(v) if v@.len() > 0 => match uuid_parse(v@[0]@) {
                Some(id) => r == Ok::<u128, AppError>(id),
                None => r matches Err(AppError::Uuid(_)),
            },
            _ => r matches Err(AppError::Validation(m)) && m@ == "Custom message_id not found in tags"@,
        },
{
    match tag_values {
        Some(v) => {
            if v.len() == 0 {
                return Err(AppError::Validation(String::from_str("Custom message_id not found in tags")));
            }
            match parse_uuid(v[0].as_str()) {
                Ok(id) => Ok(id),
                Err(e) => Err(AppError::Uuid(e.to_string())),
            }
        },
        None => Err(AppError::Validation(String::from_str("Custom message_id not found in tags"))),
    }
}

} // verus!
