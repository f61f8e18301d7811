use vstd::prelude::*;

verus! {

/// Lifecycle of an email request. The integer codes are part of the storage
/// contract: Created 0, Processing 1, Sent 2, Failed 3, Stopped 4.
#[derive(Clone, Copy, Debug, PartialEq, Eq, Structural)]
pub enum EmailStatus {
    Created,
    Processing,
    Sent,
    Failed,
    Stopped,
}

/// The transitions that the state machine permits.
pub open spec fn permitted_transition(from: EmailStatus, to: EmailStatus) -> bool {
    ||| (from is Created && to is Processing)
    ||| (from is Processing && (to is Sent || to is Failed))
    ||| ((from is Created || from is Processing) && to is Stopped)
}

/// Sent, Failed and Stopped admit no further transition.
pub open spec fn terminal(s: EmailStatus) -> bool {
    s is Sent || s is Failed || s is Stopped
}

impl EmailStatus {
    pub open spec fn spec_code(self) -> i16 {
        match self {
            EmailStatus::Created => 0,
            EmailStatus::Processing => 1,
            EmailStatus::Sent => 2,
            EmailStatus::Failed => 3,
            EmailStatus::Stopped => 4,
        }
    }

    pub open spec fn spec_label(self) -> Seq<char> {
        match self {
            EmailStatus::Created => "created"@,
            EmailStatus::Processing => "processing"@,
            EmailStatus::Sent => "sent"@,
            EmailStatus::Failed => "failed"@,
            EmailStatus::Stopped => "stopped"@,
        }
    }

    /// The storage code of this status.
    pub fn code(&self) -> (r: i16)
        ensures
            r == self.spec_code(),
    {
        match self {
            EmailStatus::Created => 0,
            EmailStatus::Processing => 1,
            EmailStatus::Sent => 2,
            EmailStatus::Failed => 3,
            EmailStatus::Stopped => 4,
        }
    }

    /// The status stored under `code`, if the code is one of the five.
    pub fn from_code(code: i16) -> (r: Option<EmailStatus>)
        ensures
            r matches Some(s) ==> s.spec_code() == code,
            r is None <==> !(0 <= code <= 4),
    {
        match code {
            0 => Some(EmailStatus::Created),
            1 => Some(EmailStatus::Processing),
            2 => Some(EmailStatus::Sent),
            3 => Some(EmailStatus::Failed),
            4 => Some(EmailStatus::Stopped),
            _ => None,
        }
    }

    /// Whether no transition leaves this status.
    pub fn is_terminal(&self) -> (r: bool)
        ensures
            r == terminal(*self),
    {
        match self {
            EmailStatus::Sent | EmailStatus::Failed | EmailStatus::Stopped => true,
            _ => false,
        }
    }

    /// Whether the state machine permits moving from this status to `new_status`.
    pub fn can_transition_to(&self, new_status: EmailStatus) -> (r: bool)
        ensures
            r == permitted_transition(*self, new_status),
    {
        match (self, new_status) {
            (EmailStatus::Created, EmailStatus::Processing) => true,
            (EmailStatus::Processing, EmailStatus::Sent) => true,
            (EmailStatus::Processing, EmailStatus::Failed) => true,
            (EmailStatus::Created, EmailStatus::Stopped) => true,
            (EmailStatus::Processing, EmailStatus::Stopped) => true,
            _ => false,
        }
    }

    /// The lower-case label of this status ("created", "processing", ...).
    pub fn to_string(&self) -> (r: String)
        ensures
            r@ == self.spec_label(),
    {
        match self {
            EmailStatus::Created => String::from_str("created"),
            EmailStatus::Processing => String::from_str("processing"),
            EmailStatus::Sent => String::from_str("sent"),
            EmailStatus::Failed => String::from_str("failed"),
            EmailStatus::Stopped => String::from_str("stopped"),
        }
    }
}

/// No status is both terminal and the source of a permitted transition.
pub proof fn lemma_terminal_states_are_final(from: EmailStatus, to: EmailStatus)
    requires
        terminal(from),
    ensures
        !permitted_transition(from, to),
{
}

} // verus!
