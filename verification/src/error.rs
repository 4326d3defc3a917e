use vstd::prelude::*;

verus! {

/// Every way a command can fail. The payloads are the messages shown to the user.
#[derive(Debug)]
pub enum ThingError {
    NotFound(String),
    Conflict(String),
    InvalidInput(String),
    Automation(String),
    /// Reading or writing `path` failed with the operating system's `message`.
    Io { path: String, message: String },
    /// `path` held text that is not the JSON that was expected.
    Json { path: String, message: String },
}

/// The stable machine-readable kind of an error.
pub open spec fn kind_of(e: ThingError) -> Seq<char> {
    match e {
        ThingError::NotFound(_) => "not_found"@,
        ThingError::Conflict(_) => "conflict"@,
        ThingError::InvalidInput(_) => "invalid_input"@,
        _ => "internal"@,
    }
}

/// The process exit code for an error.
pub open spec fn exit_code_of(e: ThingError) -> u8 {
    match e {
        ThingError::NotFound(_) => 2,
        ThingError::Conflict(_) => 3,
        ThingError::InvalidInput(_) => 4,
        _ => 1,
    }
}

/// The exit code that the documentation gives each kind of failure.
pub open spec fn exit_code_for_kind(kind: Seq<char>) -> u8 {
    if kind == "not_found"@ {
        2
    } else if kind == "conflict"@ {
        3
    } else if kind == "invalid_input"@ {
        4
    } else {
        1
    }
}

/// The text that the error displays.
pub open spec fn message_of(e: ThingError) -> Seq<char> {
    match e {
        ThingError::NotFound(m) => m@,
        ThingError::Conflict(m) => m@,
        ThingError::InvalidInput(m) => m@,
        ThingError::Automation(m) => "Things automation failed: "@ + m@,
        ThingError::Io { path, message } => "failed to read or write "@ + path@ + ": "@ + message@,
        ThingError::Json { path, message } => "failed to parse JSON in "@ + path@ + ": "@
            + message@,
    }
}

/// `e` is an invalid-input error with message `msg`.
pub open spec fn is_invalid_input(e: ThingError, msg: Seq<char>) -> bool {
    e is InvalidInput && message_of(e) == msg
}

/// `e` is a not-found error with message `msg`.
pub open spec fn is_not_found(e: ThingError, msg: Seq<char>) -> bool {
    e is NotFound && message_of(e) == msg
}

/// `e` is a conflict error with message `msg`.
pub open spec fn is_conflict(e: ThingError, msg: Seq<char>) -> bool {
    e is Conflict && message_of(e) == msg
}

impl ThingError {
    pub fn kind(&self) -> (r: &'static str)
        ensures
            r@ == kind_of(*self),
    {
        match self {
            ThingError::NotFound(_) => "not_found",
            ThingError::Conflict(_) => "conflict",
            ThingError::InvalidInput(_) => "invalid_input",
            _ => "internal",
        }
    }

    pub fn exit_code(&self) -> (r: u8)
        ensures
            r == exit_code_of(*self),
    {
        match self {
            ThingError::NotFound(_) => 2,
            ThingError::Conflict(_) => 3,
            ThingError::InvalidInput(_) => 4,
            _ => 1,
        }
    }

    /// The error's message, as `Display` shows it.
    pub fn message(&self) -> (r: String)
        ensures
            r@ == message_of(*self),
    {
        match self {
            ThingError::NotFound(m) => m.clone(),
            ThingError::Conflict(m) => m.clone(),
            ThingError::InvalidInput(m) => m.clone(),
            ThingError::Automation(m) => String::from_str("Things automation failed: ").concat(
                m.as_str(),
            ),
            ThingError::Io { path, message } => String::from_str("failed to read or write ").concat(
                path.as_str(),
            ).concat(": ").concat(message.as_str()),
            ThingError::Json { path, message } => String::from_str(
                "failed to parse JSON in ",
            ).concat(path.as_str()).concat(": ").concat(message.as_str()),
        }
    }
}

/// The exit code of every error is the one that its kind is documented with, and
/// no error exits with the success code 0.
pub proof fn lemma_exit_code_follows_kind(e: ThingError)
    ensures
        exit_code_of(e) == exit_code_for_kind(kind_of(e)),
        exit_code_of(e) != 0,
{
    reveal_strlit("not_found");
    reveal_strlit("conflict");
    reveal_strlit("invalid_input");
    reveal_strlit("internal");
    assert("conflict"@[0] != "not_found"@[0]);
    assert("invalid_input"@[0] != "not_found"@[0]);
    assert("invalid_input"@[0] != "conflict"@[0]);
    assert("internal"@[0] != "not_found"@[0]);
    assert("internal"@[0] != "conflict"@[0]);
    assert("internal"@.len() != "invalid_input"@.len());
}

} // verus!
