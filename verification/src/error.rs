use vstd::prelude::*;

verus! {

/// The ways an operation of this crate, or of the shell around it, can fail.
///
/// Variants that carry text from an outside source (I/O, the database, the
/// JSON codec, the prompt library) hold it as a plain `String`, so that the
/// enum itself stays a value the verifier can reason about.
#[derive(Debug, PartialEq, Eq)]
pub enum Error {
    ProfileNotFound(String),
    ProfileAlreadyExists(String),
    CcSwitchReadError(String),
    CcSwitchDbNotFound,
    ClaudeNotFound,
    LaunchError(String),
    ConfigError(String),
    IoError(String),
    JsonError(String),
    DatabaseError(String),
    InquireError(String),
}

/// The mathematical shape of an [`Error`]: the same variants over character
/// sequences.
pub enum ErrorView {
    ProfileNotFound(Seq<char>),
    ProfileAlreadyExists(Seq<char>),
    CcSwitchReadError(Seq<char>),
    CcSwitchDbNotFound,
    ClaudeNotFound,
    LaunchError(Seq<char>),
    ConfigError(Seq<char>),
    IoError(Seq<char>),
    JsonError(Seq<char>),
    DatabaseError(Seq<char>),
    InquireError(Seq<char>),
}

impl View for Error {
    type V = ErrorView;

    open spec fn view(&self) -> ErrorView {
        match self {
            Error::ProfileNotFound(n) => ErrorView::ProfileNotFound(n@),
            Error::ProfileAlreadyExists(n) => ErrorView::ProfileAlreadyExists(n@),
            Error::CcSwitchReadError(m) => ErrorView::CcSwitchReadError(m@),
            Error::CcSwitchDbNotFound => ErrorView::CcSwitchDbNotFound,
            Error::ClaudeNotFound => ErrorView::ClaudeNotFound,
            Error::LaunchError(m) => ErrorView::LaunchError(m@),
            Error::ConfigError(m) => ErrorView::ConfigError(m@),
            Error::IoError(m) => ErrorView::IoError(m@),
            Error::JsonError(m) => ErrorView::JsonError(m@),
            Error::DatabaseError(m) => ErrorView::DatabaseError(m@),
            Error::InquireError(m) => ErrorView::InquireError(m@),
        }
    }
}

/// The user-visible text of each error.
pub open spec fn message_spec(e: ErrorView) -> Seq<char> {
    match e {
        ErrorView::ProfileNotFound(n) => "Profile not found: "@ + n,
        ErrorView::ProfileAlreadyExists(n) => "Profile already exists: "@ + n,
        ErrorView::CcSwitchReadError(m) => "Failed to read CC-Switch database: "@ + m,
        ErrorView::CcSwitchDbNotFound => "CC-Switch database not found"@,
        ErrorView::ClaudeNotFound => "Failed to find the assistant executable"@,
        ErrorView::LaunchError(m) => "Failed to launch the assistant: "@ + m,
        ErrorView::ConfigError(m) => "Config error: "@ + m,
        ErrorView::IoError(m) => "IO error: "@ + m,
        ErrorView::JsonError(m) => "JSON error: "@ + m,
        ErrorView::DatabaseError(m) => "Database error: "@ + m,
        ErrorView::InquireError(m) => "Inquire error: "@ + m,
    }
}

impl Error {
    /// The error rendered for the user, one line with the operation's context.
    pub fn message(&self) -> (r: String)
        ensures
            r@ == message_spec(self@),
    {
        match self {
            Error::ProfileNotFound(n) => prefixed("Profile not found: ", n),
            Error::ProfileAlreadyExists(n) => prefixed("Profile already exists: ", n),
            Error::CcSwitchReadError(m) => prefixed("Failed to read CC-Switch database: ", m),
            Error::CcSwitchDbNotFound => String::from_str("CC-Switch database not found"),
            Error::ClaudeNotFound => String::from_str("Failed to find the assistant executable"),
            Error::LaunchError(m) => prefixed("Failed to launch the assistant: ", m),
            Error::ConfigError(m) => prefixed("Config error: ", m),
            Error::IoError(m) => prefixed("IO error: ", m),
            Error::JsonError(m) => prefixed("JSON error: ", m),
            Error::DatabaseError(m) => prefixed("Database error: ", m),
            Error::InquireError(m) => prefixed("Inquire error: ", m),
        }
    }
}

/// A fixed prefix followed by the detail text.
fn prefixed(prefix: &str, detail: &String) -> (r: String)
    ensures
        r@ == prefix@ + detail@,
{
    let mut s = String::from_str(prefix);
    s.append(detail.as_str());
    s
}

} // verus!
