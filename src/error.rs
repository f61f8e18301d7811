use vstd::prelude::*;

verus! {

/// Failures of the gateway. Causes that come from collaborators (store, bus,
/// JSON, UUID, time parsing, configuration, I/O) are carried as their text.
#[derive(Clone, Debug)]
pub enum AppError {
    Database(String),
    Validation(String),
    NotFound(String),
    Unauthorized,
    Internal(String),
    Nats(String),
    Json(String),
    Uuid(String),
    TimeParse(String),
    Config(String),
    Io(String),
    Semaphore(String),
}

/// How an error is answered: HTTP status, the message shown to the client,
/// and whether the details are logged server-side. Server-side failures get
/// a generic message; their details only reach the log.
pub open spec fn response_of(e: AppError) -> (u16, Seq<char>, bool) {
    match e {
        AppError::Database(_) => (500, "Database error"@, true),
        AppError::Validation(m) => (400, m@, false),
        AppError::NotFound(m) => (404, m@, false),
        AppError::Unauthorized => (401, "Unauthorized"@, false),
        AppError::Internal(_) => (500, "Internal server error"@, true),
        AppError::Nats(_) => (500, "Message queue error"@, true),
        AppError::Json(_) => (400, "Invalid JSON"@, false),
        AppError::Uuid(_) => (500, "UUID generation error"@, true),
        AppError::TimeParse(_) => (400, "Invalid time format"@, false),
        AppError::Config(_) => (500, "Configuration error"@, true),
        AppError::Io(_) => (500, "IO error"@, true),
        AppError::Semaphore(_) => (500, "Semaphore error"@, true),
    }
}

/// The text of an error: its kind followed by the cause.
pub open spec fn describe(e: AppError) -> Seq<char> {
    match e {
        AppError::Database(m) => "Database error: "@ + m@,
        AppError::Validation(m) => "Validation error: "@ + m@,
        AppError::NotFound(m) => "Not found: "@ + m@,
        AppError::Unauthorized => "Unauthorized"@,
        AppError::Internal(m) => "Internal server error: "@ + m@,
        AppError::Nats(m) => "NATS error: "@ + m@,
        AppError::Json(m) => "JSON error: "@ + m@,
        AppError::Uuid(m) => "UUID error: "@ + m@,
        AppError::TimeParse(m) => "Time parse error: "@ + m@,
        AppError::Config(m) => "Configuration error: "@ + m@,
        AppError::Io(m) => "IO error: "@ + m@,
        AppError::Semaphore(m) => "Semaphore error: "@ + m@,
    }
}

fn prefixed(prefix: &str, cause: &String) -> (r: String)
    ensures
        r@ == prefix@ + cause@,
{
    let mut s = String::from_str(prefix);
    s.append(cause.as_str());
    s
}

impl AppError {
    /// The HTTP status, client message and log flag for this error.
    pub fn response_parts(&self) -> (r: (u16, String, bool))
        ensures
            r.0 == response_of(*self).0,
            r.1@ == response_of(*self).1,
            r.2 == response_of(*self).2,
    {
        match self {
            AppError::Database(_) => (500, String::from_str("Database error"), true),
            AppError::Validation(m) => (400, m.clone(), false),
            AppError::NotFound(m) => (404, m.clone(), false),
            AppError::Unauthorized => (401, String::from_str("Unauthorized"), false),
            AppError::Internal(_) => (500, String::from_str("Internal server error"), true),
            AppError::Nats(_) => (500, String::from_str("Message queue error"), true),
            AppError::Json(_) => (400, String::from_str("Invalid JSON"), false),
            AppError::Uuid(_) => (500, String::from_str("UUID generation error"), true),
            AppError::TimeParse(_) => (400, String::from_str("Invalid time format"), false),
            AppError::Config(_) => (500, String::from_str("Configuration error"), true),
            AppError::Io(_) => (500, String::from_str("IO error"), true),
            AppError::Semaphore(_) => (500, String::from_str("Semaphore error"), true),
        }
    }

    /// The text of this error, as logs show it.
    pub fn to_string(&self) -> (r: String)
        ensures
            r@ == describe(*self),
    {
        match self {
            AppError::Database(m) => prefixed("Database error: ", m),
            AppError::Validation(m) => prefixed("Validation error: ", m),
            AppError::NotFound(m) => prefixed("Not found: ", m),
            AppError::Unauthorized => String::from_str("Unauthorized"),
            AppError::Internal(m) => prefixed("Internal server error: ", m),
            AppError::Nats(m) => prefixed("NATS error: ", m),
            AppError::Json(m) => prefixed("JSON error: ", m),
            AppError::Uuid(m) => prefixed("UUID error: ", m),
            AppError::TimeParse(m) => prefixed("Time parse error: ", m),
            AppError::Config(m) => prefixed("Configuration error: ", m),
            AppError::Io(m) => prefixed("IO error: ", m),
            AppError::Semaphore(m) => prefixed("Semaphore error: ", m),
        }
    }
}

/// Every error answered with status 500 shows the client a text that does
/// not depend on its cause; the cause only reaches the log.
pub proof fn lemma_server_errors_hide_causes(e1: AppError, e2: AppError)
    requires
        response_of(e1).0 == 500,
        e1 is Database && e2 is Database || e1 is Internal && e2 is Internal || e1 is Nats && e2 is Nats
            || e1 is Uuid && e2 is Uuid || e1 is Config && e2 is Config || e1 is Io && e2 is Io
            || e1 is Semaphore && e2 is Semaphore,
    ensures
        response_of(e1) == response_of(e2),
        response_of(e1).2,
{
}

} // verus!
