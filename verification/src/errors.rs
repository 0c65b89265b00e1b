//! What can go wrong: a domain error, which users are shown, or a failure
//! of the database or of the insights service, which they are not.
use vstd::prelude::*;

use crate::markdown::push_str;

verus! {

broadcast use vstd::string::group_string_axioms;

/// The errors that the bot's rules give; each has a text for users.
#[derive(Debug, PartialEq, Eq)]
pub enum CustomError {
    WrongDateFormat,
    EventInPast,
    /// An event is active already; it holds that event's date as shown.
    ActiveEventFound(String),
    NoActiveEventFound,
    /// The active event's subject is picked already; it holds the subject.
    AlreadyPickedSubject(String),
    NoSuggestionsFound,
    EventWithoutInsights,
    UnknownSender,
}

/// An error of a command: one of the rules, or a failure elsewhere (the
/// database, the insights service), described for the log.
#[derive(Debug)]
pub enum AppError {
    Domain(CustomError),
    Infra(String),
}

/// The text that users are shown for a domain error.
pub open spec fn error_text(e: CustomError) -> Seq<char> {
    match e {
        CustomError::WrongDateFormat => "Wrong date format, please use -\n/event 2023.07.16 15:00"@,
        CustomError::EventInPast => "The event can't be in the past"@,
        CustomError::ActiveEventFound(date) => "There is already an active event on "@ + date@,
        CustomError::NoActiveEventFound => "There is no active event, create one with /event"@,
        CustomError::AlreadyPickedSubject(subject) => "The subject is already picked - "@ + subject@,
        CustomError::NoSuggestionsFound => "There are no suggestions yet, make one with /suggest"@,
        CustomError::EventWithoutInsights => "Insights are turned off for this event"@,
        CustomError::UnknownSender => "Can't tell who sent this message"@,
    }
}

/// What users are shown when a command fails for a reason other than the
/// rules.
pub open spec fn generic_error_text() -> Seq<char> {
    "Something went wrong, please try again later"@
}

/// The text that users are shown for an error: a domain error's own text,
/// anything else hidden behind a generic text.
pub open spec fn user_text(err: AppError) -> Seq<char> {
    match err {
        AppError::Domain(e) => error_text(e),
        AppError::Infra(_) => generic_error_text(),
    }
}

impl CustomError {
    /// The text that users are shown for this error.
    pub fn message(&self) -> (r: String)
        ensures
            r@ == error_text(*self),
    {
        match self {
            CustomError::WrongDateFormat => "Wrong date format, please use -\n/event 2023.07.16 15:00".to_string(),
            CustomError::EventInPast => "The event can't be in the past".to_string(),
            CustomError::ActiveEventFound(date) => {
                let mut r = "There is already an active event on ".to_string();
                push_str(&mut r, date.as_str());
                r
            },
            CustomError::NoActiveEventFound => "There is no active event, create one with /event".to_string(),
            CustomError::AlreadyPickedSubject(subject) => {
                let mut r = "The subject is already picked - ".to_string();
                push_str(&mut r, subject.as_str());
                r
            },
            CustomError::NoSuggestionsFound => "There are no suggestions yet, make one with /suggest".to_string(),
            CustomError::EventWithoutInsights => "Insights are turned off for this event".to_string(),
            CustomError::UnknownSender => "Can't tell who sent this message".to_string(),
        }
    }
}

/// Domain errors are shown as they are; anything else is hidden behind a
/// generic text (the caller logs it).
pub fn user_message(err: &AppError) -> (r: String)
    ensures
        r@ == user_text(*err),
{
    match err {
        AppError::Domain(e) => e.message(),
        AppError::Infra(_) => "Something went wrong, please try again later".to_string(),
    }
}

/// The domain error inside `err`.
pub fn domain(err: &AppError) -> (r: &CustomError)
    requires
        err is Domain,
    ensures
        *err == AppError::Domain(*r),
{
    match err {
        AppError::Domain(e) => e,
        AppError::Infra(_) => vstd::pervasive::unreached(),
    }
}

} // verus!
