//! Errors, their exit codes, and how they are explained to the user.
use vstd::prelude::*;
use crate::text::{chars_of, push_chars, push_str, string_from_chars};

verus! {

#[derive(Clone, Debug, PartialEq, Eq)]
pub enum AppError {
    AccessDenied,
    AccessRejected,
    AccessTimeout,
    CalendarNotFound(String),
    EventNotFound(String),
    TemplateNotFound(String),
    InvalidDate(String),
    InvalidArgument(String),
    Io(String),
    EventKit(String),
}

/// The one-line message of an error.
pub open spec fn message_spec(e: AppError) -> Seq<char> {
    match e {
        AppError::AccessDenied => "Calendar access denied. Grant in System Settings > Privacy > Calendars."@,
        AppError::AccessRejected => "Calendar access was denied."@,
        AppError::AccessTimeout => "Timeout waiting for calendar access."@,
        AppError::CalendarNotFound(v) => "Calendar not found: "@ + v@,
        AppError::EventNotFound(v) => "Event not found: "@ + v@,
        AppError::TemplateNotFound(v) => "Template not found: "@ + v@,
        AppError::InvalidDate(v) => "Invalid date: "@ + v@
            + ". Use YYYY-MM-DD, YYYY-MM-DD HH:MM, or natural language"@,
        AppError::InvalidArgument(v) => "Invalid argument: "@ + v@,
        AppError::Io(v) => "I/O error: "@ + v@,
        AppError::EventKit(v) => "EventKit: "@ + v@,
    }
}

/// The short title of an error.
pub open spec fn title_spec(e: AppError) -> Seq<char> {
    match e {
        AppError::AccessDenied | AppError::AccessRejected | AppError::AccessTimeout => "Calendar access"@,
        AppError::CalendarNotFound(_) => "Calendar not found"@,
        AppError::EventNotFound(_) => "Event not found"@,
        AppError::TemplateNotFound(_) => "Template not found"@,
        AppError::InvalidDate(_) => "Invalid date"@,
        AppError::InvalidArgument(_) => "Invalid argument"@,
        AppError::Io(_) => "I/O error"@,
        AppError::EventKit(_) => "EventKit error"@,
    }
}

/// Why the error happened.
pub open spec fn why_spec(e: AppError) -> Seq<char> {
    match e {
        AppError::AccessDenied => "The calx binary does not currently have Calendar access."@,
        AppError::AccessRejected => "Calendar access was denied."@,
        AppError::AccessTimeout => "Timed out while waiting for Calendar access."@,
        AppError::CalendarNotFound(name) => "No calendar matched '"@ + name@ + "'."@,
        AppError::EventNotFound(value) => "No event matched '"@ + value@ + "'."@,
        AppError::TemplateNotFound(name) => "No template named '"@ + name@ + "' exists."@,
        AppError::InvalidDate(value) => value@,
        AppError::InvalidArgument(value) => value@,
        AppError::Io(value) => value@,
        AppError::EventKit(value) => value@,
    }
}

/// What the user can do about the error; `help` points at the command's help.
pub open spec fn hint_spec(e: AppError, help: Seq<char>) -> Option<Seq<char>> {
    match e {
        AppError::AccessDenied | AppError::AccessRejected | AppError::AccessTimeout => Some(
            "Grant access in System Settings > Privacy & Security > Calendars, then retry."@,
        ),
        AppError::CalendarNotFound(_) => Some(
            "Run `calx calendars -o json` to list calendar names and IDs. Use the calendar ID when names are ambiguous."@,
        ),
        AppError::EventNotFound(_) => Some(
            "Try `calx search <query> -o json` or widen `--from/--to` to locate the event."@,
        ),
        AppError::TemplateNotFound(_) => Some(
            "Run `calx template list` to inspect available templates."@,
        ),
        AppError::InvalidDate(_) => Some(
            "Use YYYY-MM-DD, YYYY-MM-DD HH:MM, or natural language like `tomorrow 3pm`. "@ + help,
        ),
        AppError::InvalidArgument(_) => Some(help),
        AppError::Io(_) => None,
        AppError::EventKit(_) => Some(
            "Retry once, then run `calx doctor` to verify permission, default calendar, and calendar writability."@,
        ),
    }
}

/// The process exit code of an error.
pub open spec fn exit_code_spec(e: AppError) -> i32 {
    match e {
        AppError::AccessDenied | AppError::AccessRejected | AppError::AccessTimeout => 2,
        AppError::CalendarNotFound(_) | AppError::EventNotFound(_) | AppError::TemplateNotFound(
            _,
        ) => 3,
        AppError::InvalidDate(_) | AppError::InvalidArgument(_) => 4,
        AppError::Io(_) => 6,
        AppError::EventKit(_) => 5,
    }
}

fn joined(a: &str, b: &String, c: &str) -> (r: String)
    ensures
        r@ == a@ + b@ + c@,
{
    let mut out = chars_of(a);
    let bv = chars_of(b.as_str());
    push_chars(&mut out, &bv);
    push_str(&mut out, c);
    string_from_chars(&out)
}

fn prefixed(a: &str, b: &String) -> (r: String)
    ensures
        r@ == a@ + b@,
{
    let mut out = chars_of(a);
    let bv = chars_of(b.as_str());
    push_chars(&mut out, &bv);
    string_from_chars(&out)
}

fn literal(a: &str) -> (r: String)
    ensures
        r@ == a@,
{
    let out = chars_of(a);
    string_from_chars(&out)
}

impl AppError {
    /// The one-line message, as the error's `Display` shows it.
    pub fn message(&self) -> (r: String)
        ensures
            r@ == message_spec(*self),
    {
        let e = self;
        match e {
            AppError::AccessDenied => literal(
                "Calendar access denied. Grant in System Settings > Privacy > Calendars.",
            ),
            AppError::AccessRejected => literal("Calendar access was denied."),
            AppError::AccessTimeout => literal("Timeout waiting for calendar access."),
            AppError::CalendarNotFound(v) => prefixed("Calendar not found: ", v),
            AppError::EventNotFound(v) => prefixed("Event not found: ", v),
            AppError::TemplateNotFound(v) => prefixed("Template not found: ", v),
            AppError::InvalidDate(v) => joined(
                "Invalid date: ",
                v,
                ". Use YYYY-MM-DD, YYYY-MM-DD HH:MM, or natural language",
            ),
            AppError::InvalidArgument(v) => prefixed("Invalid argument: ", v),
            AppError::Io(v) => prefixed("I/O error: ", v),
            AppError::EventKit(v) => prefixed("EventKit: ", v),
        }
    }

    pub fn title(&self) -> (r: &'static str)
        ensures
            r@ == title_spec(*self),
    {
        match self {
            AppError::AccessDenied | AppError::AccessRejected | AppError::AccessTimeout => {
                "Calendar access"
            },
            AppError::CalendarNotFound(_) => "Calendar not found",
            AppError::EventNotFound(_) => "Event not found",
            AppError::TemplateNotFound(_) => "Template not found",
            AppError::InvalidDate(_) => "Invalid date",
            AppError::InvalidArgument(_) => "Invalid argument",
            AppError::Io(_) => "I/O error",
            AppError::EventKit(_) => "EventKit error",
        }
    }

    pub fn why(&self) -> (r: String)
        ensures
            r@ == why_spec(*self),
    {
        match self {
            AppError::AccessDenied => literal(
                "The calx binary does not currently have Calendar access.",
            ),
            AppError::AccessRejected => literal("Calendar access was denied."),
            AppError::AccessTimeout => literal("Timed out while waiting for Calendar access."),
            AppError::CalendarNotFound(name) => joined("No calendar matched '", name, "'."),
            AppError::EventNotFound(value) => joined("No event matched '", value, "'."),
            AppError::TemplateNotFound(name) => joined("No template named '", name, "' exists."),
            AppError::InvalidDate(value) => value.clone(),
            AppError::InvalidArgument(value) => value.clone(),
            AppError::Io(value) => value.clone(),
            AppError::EventKit(value) => value.clone(),
        }
    }

    pub fn hint(&self, help_command: &str) -> (r: Option<String>)
        ensures
            match hint_spec(*self, help_command@) {
                Some(h) => r matches Some(s) && s@ == h,
                None => r is None,
            },
    {
        match self {
            AppError::AccessDenied | AppError::AccessRejected | AppError::AccessTimeout => Some(
                literal(
                    "Grant access in System Settings > Privacy & Security > Calendars, then retry.",
                ),
            ),
            AppError::CalendarNotFound(_) => Some(
                literal(
                    "Run `calx calendars -o json` to list calendar names and IDs. Use the calendar ID when names are ambiguous.",
                ),
            ),
            AppError::EventNotFound(_) => Some(
                literal(
                    "Try `calx search <query> -o json` or widen `--from/--to` to locate the event.",
                ),
            ),
            AppError::TemplateNotFound(_) => Some(
                literal("Run `calx template list` to inspect available templates."),
            ),
            AppError::InvalidDate(_) => {
                let mut out = chars_of(
                    "Use YYYY-MM-DD, YYYY-MM-DD HH:MM, or natural language like `tomorrow 3pm`. ",
                );
                push_str(&mut out, help_command);
                Some(string_from_chars(&out))
            },
            AppError::InvalidArgument(_) => Some(literal(help_command)),
            AppError::Io(_) => None,
            AppError::EventKit(_) => Some(
                literal(
                    "Retry once, then run `calx doctor` to verify permission, default calendar, and calendar writability.",
                ),
            ),
        }
    }

    pub fn exit_code(&self) -> (r: i32)
        ensures
            r == exit_code_spec(*self),
    {
        match self {
            AppError::AccessDenied | AppError::AccessRejected | AppError::AccessTimeout => 2,
            AppError::CalendarNotFound(_)
            | AppError::EventNotFound(_)
            | AppError::TemplateNotFound(_) => 3,
            AppError::InvalidDate(_) | AppError::InvalidArgument(_) => 4,
            AppError::Io(_) => 6,
            AppError::EventKit(_) => 5,
        }
    }
}


/// The variant of an error, without its text.
#[derive(Clone, Copy, Debug, PartialEq, Eq, Structural)]
pub enum ErrorKind {
    AccessDenied,
    AccessRejected,
    AccessTimeout,
    CalendarNotFound,
    EventNotFound,
    TemplateNotFound,
    InvalidDate,
    InvalidArgument,
    Io,
    EventKit,
}

/// An error as contracts describe it: its variant and its text (empty for variants without one).
pub type Failure = (ErrorKind, Seq<char>);

impl AppError {
    pub open spec fn kind(self) -> ErrorKind {
        match self {
            AppError::AccessDenied => ErrorKind::AccessDenied,
            AppError::AccessRejected => ErrorKind::AccessRejected,
            AppError::AccessTimeout => ErrorKind::AccessTimeout,
            AppError::CalendarNotFound(_) => ErrorKind::CalendarNotFound,
            AppError::EventNotFound(_) => ErrorKind::EventNotFound,
            AppError::TemplateNotFound(_) => ErrorKind::TemplateNotFound,
            AppError::InvalidDate(_) => ErrorKind::InvalidDate,
            AppError::InvalidArgument(_) => ErrorKind::InvalidArgument,
            AppError::Io(_) => ErrorKind::Io,
            AppError::EventKit(_) => ErrorKind::EventKit,
        }
    }

    pub open spec fn detail(self) -> Seq<char> {
        match self {
            AppError::CalendarNotFound(v) => v@,
            AppError::EventNotFound(v) => v@,
            AppError::TemplateNotFound(v) => v@,
            AppError::InvalidDate(v) => v@,
            AppError::InvalidArgument(v) => v@,
            AppError::Io(v) => v@,
            AppError::EventKit(v) => v@,
            _ => Seq::empty(),
        }
    }

    pub open spec fn is(self, f: Failure) -> bool {
        self.kind() == f.0 && self.detail() == f.1
    }
}

/// A result agrees with its specification: the same value, or an error of the stated kind and text.
pub open spec fn agrees<T>(r: Result<T, AppError>, s: Result<T, Failure>) -> bool {
    match (r, s) {
        (Ok(a), Ok(b)) => a == b,
        (Err(e), Err(f)) => e.is(f),
        _ => false,
    }
}

/// A text result agrees with its specification: the same text, or an error of the stated
/// kind and text.
pub open spec fn agrees_text(r: Result<String, AppError>, s: Result<Seq<char>, Failure>) -> bool {
    match (r, s) {
        (Ok(a), Ok(b)) => a@ == b,
        (Err(e), Err(f)) => e.is(f),
        _ => false,
    }
}

/// An invalid-argument error with the given text.
pub fn invalid_argument(msg: Vec<char>) -> (r: AppError)
    ensures
        r.is((ErrorKind::InvalidArgument, msg@)),
{
    AppError::InvalidArgument(string_from_chars(&msg))
}

/// An invalid-date error with the given text.
pub fn invalid_date(msg: Vec<char>) -> (r: AppError)
    ensures
        r.is((ErrorKind::InvalidDate, msg@)),
{
    AppError::InvalidDate(string_from_chars(&msg))
}

/// An invalid-argument error with a fixed text.
pub fn invalid_argument_str(msg: &str) -> (r: AppError)
    ensures
        r.is((ErrorKind::InvalidArgument, msg@)),
{
    AppError::InvalidArgument(string_from_chars(&chars_of(msg)))
}

/// An invalid-date error with a fixed text.
pub fn invalid_date_str(msg: &str) -> (r: AppError)
    ensures
        r.is((ErrorKind::InvalidDate, msg@)),
{
    AppError::InvalidDate(string_from_chars(&chars_of(msg)))
}

} // verus!
