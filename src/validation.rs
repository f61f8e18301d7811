use vstd::prelude::*;
use crate::error::AppError;
use crate::models::{trim_of, trimmed};
use crate::time::Timestamp;

verus! {

/// Topic ids: letters, digits, hyphens and underscores.
pub const TOPIC_ID_PATTERN: &'static str = "^[a-zA-Z0-9_-]+$";

/// Addresses: a local part, an at sign, and a dotted domain.
pub const EMAIL_PATTERN: &'static str = "^[a-zA-Z0-9._%+-]+@[a-zA-Z0-9.-]+\\.[a-zA-Z]{2,}$";

/// Whether regex compiles `pattern` and finds a match for it in `text`.
pub uninterp spec fn regex_accepts(pattern: Seq<char>, text: Seq<char>) -> bool;

/// Relies on regex::Regex::new and Regex::is_match; a pattern that does not
/// compile matches nothing.
#[verifier::external_body]
fn pattern_matches(pattern: &str, text: &str) -> (r: bool)
    ensures
        r == regex_accepts(pattern@, text@),
{
    match regex::Regex::new(pattern) {
        Ok(re) => re.is_match(text),
        Err(_) => false,
    }
}

/// What is wrong with one address, if anything: checked on the trimmed
/// address, which must be non-empty, at most 254 bytes long in UTF-8, and
/// well-formed.
pub open spec fn email_problem(email: Seq<char>) -> Option<Seq<char>> {
    let t = trim_of(email);
    if t.len() == 0 {
        Some("email_empty"@)
    } else if vstd::utf8::encode_utf8(t).len() > 254 {
        Some("email_too_long"@)
    } else if !regex_accepts(EMAIL_PATTERN@, t) {
        Some("email_invalid_format"@)
    } else {
        None
    }
}

/// Checks every address in order; the first bad one decides the error code.
pub fn validate_emails(emails: &Vec<String>) -> (r: Result<(), String>)
    ensures
        (r is Ok) == forall|i: int| 0 <= i < emails@.len() ==> email_problem((#[trigger] emails@[i])@) is None,
        r matches Err(code) ==> exists|i: int|
            0 <= i < emails@.len() && email_problem((#[trigger] emails@[i])@) == Some(code@) && forall|j: int|
                0 <= j < i ==> email_problem(emails@[j]@) is None,
{
    let mut i: usize = 0;
    while i < emails.len()
        invariant
            i <= emails@.len(),
            forall|j: int| 0 <= j < i ==> email_problem((#[trigger] emails@[j])@) is None,
        decreases emails@.len() - i,
    {
        let t = trimmed(emails[i].as_str());
        let code = if t.as_str().is_empty() {
            Some(String::from_str("email_empty"))
        } else if t.as_str().as_bytes().len() > 254 {
            Some(String::from_str("email_too_long"))
        } else if !pattern_matches(EMAIL_PATTERN, t.as_str()) {
            Some(String::from_str("email_invalid_format"))
        } else {
            None
        };
        match code {
            Some(c) => {
                assert(email_problem(emails@[i as int]@) == Some(c@));
                return Err(c);
            },
            None => {},
        }
        i = i + 1;
    }
    Ok(())
}

/// One message of a creation request: a content and the addresses it goes to.
#[derive(Clone, Debug)]
pub struct MessageRequest {
    pub topic_id: Option<String>,
    pub emails: Vec<String>,
    pub subject: String,
    pub content: String,
    pub scheduled_at: Option<Timestamp>,
}

/// A creation request: a batch of messages.
#[derive(Clone, Debug)]
pub struct CreateMessageRequest {
    pub messages: Vec<MessageRequest>,
}

/// What is wrong with a message, if anything, in the order the fields are
/// checked. Lengths count characters.
pub open spec fn message_problem(m: MessageRequest) -> Option<Seq<char>> {
    if m.topic_id matches Some(t) && t@.len() > 50 {
        Some("Topic ID must be between 0 and 50 characters"@)
    } else if m.topic_id matches Some(t) && !regex_accepts(TOPIC_ID_PATTERN@, t@) {
        Some("Topic ID must contain only alphanumeric characters, hyphens, and underscores"@)
    } else if !(1 <= m.emails@.len() <= 1000) {
        Some("Must have between 1 and 1000 emails"@)
    } else if exists|i: int| 0 <= i < m.emails@.len() && email_problem((#[trigger] m.emails@[i])@) is Some {
        Some("Invalid email address"@)
    } else if !(1 <= m.subject@.len() <= 255) {
        Some("Subject must be between 1 and 255 characters"@)
    } else if !(1 <= m.content@.len() <= 65535) {
        Some("Content must be between 1 and 65535 characters"@)
    } else {
        None
    }
}

fn invalid(message: &str) -> (r: AppError)
    ensures
        r matches AppError::Validation(m) && m@ == message@,
{
    AppError::Validation(String::from_str(message))
}

impl MessageRequest {
    /// Checks the message's fields; the first problem found is the error.
    pub fn validate(&self) -> (r: Result<(), AppError>)
        ensures
            (r is Ok) == (message_problem(*self) is None),
            r matches Err(e) ==> e matches AppError::Validation(m) && message_problem(*self) == Some(m@),
    {
        match &self.topic_id {
            Some(t) => {
                if t.as_str().unicode_len() > 50 {
                    return Err(invalid("Topic ID must be between 0 and 50 characters"));
                }
                if !pattern_matches(TOPIC_ID_PATTERN, t.as_str()) {
                    return Err(
                        invalid(
                            "Topic ID must contain only alphanumeric characters, hyphens, and underscores",
                        ),
                    );
                }
            },
            None => {},
        }
        if self.emails.len() < 1 || self.emails.len() > 1000 {
            return Err(invalid("Must have between 1 and 1000 emails"));
        }
        match validate_emails(&self.emails) {
            Ok(()) => {},
            Err(_) => {
                return Err(invalid("Invalid email address"));
            },
        }
        let subject_len = self.subject.as_str().unicode_len();
        if subject_len < 1 || subject_len > 255 {
            return Err(invalid("Subject must be between 1 and 255 characters"));
        }
        let content_len = self.content.as_str().unicode_len();
        if content_len < 1 || content_len > 65535 {
            return Err(invalid("Content must be between 1 and 65535 characters"));
        }
        Ok(())
    }
}

/// Whether a scheduled time lies more than one hour before `now`.
pub open spec fn too_far_in_past(scheduled_at: Option<Timestamp>, now: Timestamp) -> bool {
    match scheduled_at {
        Some(t) => t.ord_key() + 3600 * 0x1_0000_0000 < now.ord_key(),
        None => false,
    }
}

/// Refuses a scheduled time more than one hour in the past.
pub fn check_schedule(scheduled_at: Option<Timestamp>, now: Timestamp) -> (r: Result<(), AppError>)
    ensures
        (r is Err) == too_far_in_past(scheduled_at, now),
        r matches Err(e) ==> e matches AppError::Validation(m) && m@
            == "Scheduled time cannot be more than 1 hour in the past"@,
{
    match scheduled_at {
        Some(t) => {
            let shifted = t.secs as i128 + 3600;
            let now_secs = now.secs as i128;
            if shifted < now_secs || (shifted == now_secs && t.nanos < now.nanos) {
                return Err(invalid("Scheduled time cannot be more than 1 hour in the past"));
            }
            Ok(())
        },
        None => Ok(()),
    }
}

/// The rows one message becomes: a trimmed content, and one request per
/// trimmed address under the topic (empty when absent).
#[derive(Clone, Debug)]
pub struct MessagePlan {
    pub subject: String,
    pub content: String,
    pub topic_id: String,
    pub emails: Vec<String>,
    pub scheduled_at: Option<Timestamp>,
}

impl MessageRequest {
    /// The rows to insert for this message.
    pub fn plan(&self) -> (r: MessagePlan)
        ensures
            r.subject@ == trim_of(self.subject@),
            r.content@ == trim_of(self.content@),
            r.topic_id@ == match self.topic_id {
                Some(t) => t@,
                None => Seq::<char>::empty(),
            },
            r.emails@.len() == self.emails@.len(),
            forall|i: int| 0 <= i < self.emails@.len() ==> (#[trigger] r.emails@[i])@ == trim_of(self.emails@[i]@),
            r.scheduled_at == self.scheduled_at,
    {
        let mut emails: Vec<String> = Vec::new();
        let mut i: usize = 0;
        while i < self.emails.len()
            invariant
                i <= self.emails@.len(),
                emails@.len() == i,
                forall|j: int| 0 <= j < i ==> (#[trigger] emails@[j])@ == trim_of(self.emails@[j]@),
            decreases self.emails@.len() - i,
        {
            emails.push(trimmed(self.emails[i].as_str()));
            i = i + 1;
        }
        let topic_id = match &self.topic_id {
            Some(t) => t.clone(),
            None => String::new(),
        };
        MessagePlan {
            subject: trimmed(self.subject.as_str()),
            content: trimmed(self.content.as_str()),
            topic_id,
            emails,
            scheduled_at: self.scheduled_at,
        }
    }
}

impl CreateMessageRequest {
    /// Checks the batch: between 1 and 100 messages, each of them valid.
    pub fn validate(&self) -> (r: Result<(), AppError>)
        ensures
            (r is Ok) == (1 <= self.messages@.len() <= 100 && forall|i: int|
                0 <= i < self.messages@.len() ==> message_problem(#[trigger] self.messages@[i]) is None),
            r matches Err(e) ==> e matches AppError::Validation(m) && if 1 <= self.messages@.len() <= 100 {
                exists|i: int|
                    0 <= i < self.messages@.len() && message_problem(#[trigger] self.messages@[i]) == Some(
                        m@,
                    ) && forall|j: int| 0 <= j < i ==> message_problem(self.messages@[j]) is None
            } else {
                m@ == "Must have between 1 and 100 messages"@
            },
    {
        if self.messages.len() < 1 || self.messages.len() > 100 {
            return Err(invalid("Must have between 1 and 100 messages"));
        }
        let mut i: usize = 0;
        while i < self.messages.len()
            invariant
                i <= self.messages@.len(),
                1 <= self.messages@.len() <= 100,
                forall|j: int| 0 <= j < i ==> message_problem(#[trigger] self.messages@[j]) is None,
            decreases self.messages@.len() - i,
        {
            match self.messages[i].validate() {
                Ok(()) => {},
                Err(e) => {
                    return Err(e);
                },
            }
            i = i + 1;
        }
        Ok(())
    }
}

} // verus!
