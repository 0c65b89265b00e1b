//! What the bot answers in plain text to its commands: the checks on what
//! users write after a command, and the answers on success.
use vstd::prelude::*;

use crate::markdown::push_str;

verus! {

broadcast use vstd::string::group_string_axioms;

/// Whitespace as std's `char::is_whitespace` has it: the characters with
/// Unicode's White_Space property.
pub open spec fn is_white_space(c: char) -> bool {
    let n = c as int;
    ||| 0x9 <= n <= 0xD
    ||| n == 0x20
    ||| n == 0x85
    ||| n == 0xA0
    ||| n == 0x1680
    ||| 0x2000 <= n <= 0x200A
    ||| n == 0x2028
    ||| n == 0x2029
    ||| n == 0x202F
    ||| n == 0x205F
    ||| n == 0x3000
}

/// `text` without its leading whitespace.
pub open spec fn trim_start(text: Seq<char>) -> Seq<char>
    decreases text.len(),
{
    if text.len() > 0 && is_white_space(text[0]) {
        trim_start(text.skip(1))
    } else {
        text
    }
}

/// `text` without its trailing whitespace.
pub open spec fn trim_end(text: Seq<char>) -> Seq<char>
    decreases text.len(),
{
    if text.len() > 0 && is_white_space(text.last()) {
        trim_end(text.drop_last())
    } else {
        text
    }
}

/// `text` without its leading and trailing whitespace.
pub open spec fn trimmed(text: Seq<char>) -> Seq<char> {
    trim_end(trim_start(text))
}

/// std's `str::trim`: the text without its leading and trailing whitespace,
/// whitespace being what `char::is_whitespace` accepts.
#[verifier::external_body]
fn trim_text(text: &str) -> (r: &str)
    ensures
        r@ == trimmed(text@),
{
    text.trim()
}

/// The answer to `/event` without a date.
pub open spec fn event_prompt_text() -> Seq<char> {
    "Please write a date in format -\n/event 2023.07.16 15:00"@
}

/// The answer to `/suggest` without a suggestion.
pub open spec fn suggestion_prompt_text() -> Seq<char> {
    "Your suggestion is empty ;(\nFormat - /suggest smth"@
}

/// The argument of a command, trimmed; `Err(prompt)` where it is empty.
fn command_argument(raw: &str, prompt: &str) -> (r: Result<String, String>)
    ensures
        trimmed(raw@).len() == 0 <==> r is Err,
        r matches Err(m) ==> m@ == prompt@,
        r matches Ok(a) ==> a@ == trimmed(raw@),
{
    let argument = trim_text(raw);
    if argument.is_empty() {
        Err(prompt.to_string())
    } else {
        Ok(argument.to_string())
    }
}

/// The date written after `/event`, trimmed; where there is none, the
/// answer that asks for one (`Err`).
pub fn event_input(raw: &str) -> (r: Result<String, String>)
    ensures
        trimmed(raw@).len() == 0 <==> r is Err,
        r matches Err(m) ==> m@ == event_prompt_text(),
        r matches Ok(a) ==> a@ == trimmed(raw@),
{
    command_argument(raw, "Please write a date in format -\n/event 2023.07.16 15:00")
}

/// The suggestion written after `/suggest`, trimmed; where there is none,
/// the answer that asks for one (`Err`).
pub fn suggestion_input(raw: &str) -> (r: Result<String, String>)
    ensures
        trimmed(raw@).len() == 0 <==> r is Err,
        r matches Err(m) ==> m@ == suggestion_prompt_text(),
        r matches Ok(a) ==> a@ == trimmed(raw@),
{
    command_argument(raw, "Your suggestion is empty ;(\nFormat - /suggest smth")
}

/// The answer to `/start`: a new club is set up, and a club that the
/// database refuses as registered already is told so.
pub fn club_start_reply(already_registered: bool) -> (r: String)
    ensures
        !already_registered ==> r@ == "You're all set up! Now you can create event for your club"@,
        already_registered ==> r@ == "You've already started a club"@,
{
    if already_registered {
        "You've already started a club".to_string()
    } else {
        "You're all set up! Now you can create event for your club".to_string()
    }
}

/// The answer to `/insights`: whether the current event now has insights.
pub fn insights_toggled_reply(with_insights: bool) -> (r: String)
    ensures
        with_insights ==> r@ == "Insights are now on for the current event"@,
        !with_insights ==> r@ == "Insights are now off for the current event"@,
{
    if with_insights {
        "Insights are now on for the current event".to_string()
    } else {
        "Insights are now off for the current event".to_string()
    }
}

/// The answer to a new event, with its date as shown.
pub fn event_created_reply(date: &str) -> (r: String)
    ensures
        r@ == "New club event created on "@ + date@,
{
    let mut r = "New club event created on ".to_string();
    push_str(&mut r, date);
    r
}

/// The answer to an accepted suggestion, which repeats it.
pub fn suggestion_reply(suggestion: &str) -> (r: String)
    ensures
        r@ == "Got it. Your suggestion:\n"@ + suggestion@,
{
    let mut r = "Got it. Your suggestion:\n".to_string();
    push_str(&mut r, suggestion);
    r
}

/// The answer to an achieved event, with its date as shown.
pub fn event_achieved_reply(date: &str) -> (r: String)
    ensures
        r@ == "Ok, event on "@ + date@ + " is achieved"@,
{
    let mut r = "Ok, event on ".to_string();
    push_str(&mut r, date);
    push_str(&mut r, " is achieved");
    r
}

} // verus!
