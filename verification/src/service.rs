//! The rules of the club bot's commands. Each command reads the club's
//! active event, decides, writes to the database or calls the insights
//! service, and answers; the functions here make every decision and build
//! every request and answer, and the caller performs the reads, writes and
//! calls between them.
use vstd::prelude::*;
use rand::seq::SliceRandom;

use crate::dates::{
    beautified, beautify_date, now_utc, parse_event_date, parsed_utc, later_than, EventDate,
};
use crate::errors::CustomError;
use crate::markdown::{
    escape_markdown_v2, escaped, is_markdown_v2, is_plain_markdown_v2,
    lemma_escape_pair_is_plain, lemma_escaped_is_plain_markdown_v2,
    lemma_link_url_escaped_is_link_url, lemma_message_with_link, lemma_no_reserved_is_plain,
    lemma_link_url_round_trip, lemma_plain_concat, lemma_plain_is_markdown_v2, lemma_unescape_escape,
    link_url_escaped, link_url_unescaped, push_link,
    push_str, stored_text, unescaped,
};
use crate::models::{
    AchieveEventRequest, EventSuggestionsRequest, EventSuggestionsResponse, LastEventResponse,
    ManageEventRequest, NewEventRequest, NewMemberSuggestion, PickedSubjectRequest,
    RegisterEventRequest, ToggleInsightsRequest,
};

verus! {

broadcast use vstd::string::group_string_axioms;

// ---------------------------------------------------------------------
// the model
// ---------------------------------------------------------------------

/// The format in which users write an event's date.
pub open spec fn event_date_format() -> Seq<char> {
    "%Y.%m.%d %H:%M"@
}

/// The club has an active event (its id is not the nil UUID).
pub open spec fn is_active(latest: &LastEventResponse) -> bool {
    latest.event_id != 0
}

/// The active event's subject has been picked.
pub open spec fn is_picked(latest: &LastEventResponse) -> bool {
    latest.subject@.len() > 0
}

/// The error for an event whose subject is picked already: the subject as
/// read back from storage.
pub open spec fn is_already_picked_error(e: CustomError, latest: &LastEventResponse) -> bool {
    e matches CustomError::AlreadyPickedSubject(s) && s@ == unescaped(latest.subject@)
}

/// The answer to a pick without insights.
pub open spec fn picked_text(picked: Seq<char>) -> Seq<char> {
    "Randomly picked\n"@ + escaped(picked)
}

/// The answer to a pick with insights, with the link to them.
pub open spec fn picked_with_link_text(picked: Seq<char>, link: Seq<char>) -> Seq<char> {
    picked_text(picked) + "\n\nAnd here is your "@ + seq!['['] + "insights link"@ + seq![']', '(']
        + link_url_escaped(link) + seq![')']
}

/// The answer to the start of an event, with the link to the summary of its
/// insights.
pub open spec fn summary_text(link: Seq<char>) -> Seq<char> {
    "Here is your "@ + seq!['['] + "insights summary"@ + seq![']', '('] + link_url_escaped(link)
        + seq![')'] + "\\."@ + "\nHave a great club"@ + "\\!"@
}

/// The first line of the description of the active event.
pub open spec fn next_event_line(latest: &LastEventResponse) -> Seq<char> {
    "The next event is on "@ + beautified(latest.event_date@) + "\\."@
}

/// The description of the active event: its date and whether its subject
/// is picked; a picked subject is shown as read back from storage, and the
/// link to the insights where the event has insights and a link.
pub open spec fn current_info_text(latest: &LastEventResponse) -> Seq<char> {
    if latest.subject@.len() == 0 {
        next_event_line(latest) + "\nThe subject hasn't been picked yet"@
    } else {
        let described = next_event_line(latest) + "\nThe subject is "@ + "\\-"@ + " "@ + escaped(
            unescaped(latest.subject@),
        );
        if latest.with_insights && latest.insights_link is Some {
            described + "\nHere is the "@ + seq!['['] + "insights link"@ + seq![']', '(']
                + link_url_escaped(latest.insights_link->0@) + seq![')']
        } else {
            described
        }
    }
}

/// What comes after a subject is picked: with insights off the subject is
/// stored at once, with insights on the event is first registered with the
/// insights service.
pub enum PickStep {
    /// Store the subject and answer.
    Store(PickedSubjectRequest, String),
    /// Register the event with the insights service, then
    /// `picked_with_insights`.
    Register(RegisterEventRequest),
}

// ---------------------------------------------------------------------
// trusted: uuid and rand
// ---------------------------------------------------------------------

/// `uuid::Uuid::from_u128(id).is_nil()`: the nil UUID is the one whose value
/// is 0.
#[verifier::external_body]
fn uuid_is_nil(id: u128) -> (r: bool)
    ensures
        r == (id == 0),
{
    uuid::Uuid::from_u128(id).is_nil()
}

/// `uuid::Uuid::new_v4()`, as its value: random, but never nil, since the
/// version and variant bits are set.
#[verifier::external_body]
fn new_event_id() -> (r: u128)
    ensures
        r != 0,
{
    uuid::Uuid::new_v4().as_u128()
}

/// rand's `SliceRandom::choose` with the thread's generator: one of the
/// suggestions, chosen at random, or `None` where there are none.
#[verifier::external_body]
fn choose_suggestion(suggestions: &Vec<String>) -> (r: Option<String>)
    ensures
        r is None <==> suggestions@.len() == 0,
        r matches Some(s) ==> exists|i: int|
            0 <= i < suggestions@.len() && #[trigger] suggestions@[i]@ == s@,
{
    suggestions.choose(&mut rand::thread_rng()).cloned()
}

// ---------------------------------------------------------------------
// verified functions
// ---------------------------------------------------------------------

/// Whether the club has an active event.
pub fn has_active_event(latest: &LastEventResponse) -> (r: bool)
    ensures
        r == is_active(latest),
{
    !uuid_is_nil(latest.event_id)
}

/// Insights can be switched only for an active event: they are turned off
/// where they are on, and on where they are off.
pub fn plan_toggle_insights(latest: &LastEventResponse) -> (r: Result<
    ToggleInsightsRequest,
    CustomError,
>)
    ensures
        !is_active(latest) <==> r is Err,
        r is Err ==> r == Err::<ToggleInsightsRequest, CustomError>(CustomError::NoActiveEventFound),
        r matches Ok(req) ==> req.event_id == latest.event_id && req.with_insights
            == !latest.with_insights,
{
    if !has_active_event(latest) {
        return Err(CustomError::NoActiveEventFound);
    }
    Ok(ToggleInsightsRequest { event_id: latest.event_id, with_insights: !latest.with_insights })
}

/// Whether an event on `date` may be created at `now`: only after it.
pub fn check_event_date(date: &EventDate, now: &EventDate) -> (r: Result<(), CustomError>)
    ensures
        r is Ok <==> later_than(date@, now@),
        r is Err ==> r == Err::<(), CustomError>(CustomError::EventInPast),
{
    if date.is_after(now) {
        Ok(())
    } else {
        Err(CustomError::EventInPast)
    }
}

/// Reads the date of a new event, written as `YYYY.MM.DD HH:MM` (UTC), and
/// checks it against the current time: a text that is no such date is
/// refused with `WrongDateFormat`, a date that is not later than now with
/// `EventInPast` (see `check_event_date`).
pub fn prepare_new_event(date: &str) -> (r: Result<EventDate, CustomError>)
    ensures
        parsed_utc(date@, event_date_format()) is None <==> r == Err::<EventDate, CustomError>(
            CustomError::WrongDateFormat,
        ),
        r matches Ok(d) ==> d@ == parsed_utc(date@, event_date_format())->0,
        r matches Err(e) ==> e == CustomError::WrongDateFormat || e == CustomError::EventInPast,
{
    let parsed = parse_event_date(date);
    match parsed {
        None => Err(CustomError::WrongDateFormat),
        Some(event_date) => {
            let now = now_utc();
            match check_event_date(&event_date, &now) {
                Ok(()) => Ok(event_date),
                Err(e) => Err(e),
            }
        },
    }
}

/// A new event may be created only where the club has no active event; the
/// refusal shows the date of the active one.
pub fn ensure_no_active_event(latest: &LastEventResponse) -> (r: Result<(), CustomError>)
    ensures
        r is Ok <==> !is_active(latest),
        r matches Err(e) ==> e matches CustomError::ActiveEventFound(d) && d@ == beautified(
            latest.event_date@,
        ),
{
    if has_active_event(latest) {
        Err(CustomError::ActiveEventFound(beautify_date(&latest.event_date)))
    } else {
        Ok(())
    }
}

/// The request that writes a new event of the club, with a fresh random id.
pub fn new_event_request(chat_id: i64, event_date: EventDate) -> (r: NewEventRequest)
    ensures
        r.chat_id == chat_id,
        r.event_date == event_date,
        r.event_id != 0,
{
    NewEventRequest { chat_id, event_id: new_event_id(), event_date }
}

/// The answer to a new event: its date, as shown.
pub fn new_event_reply(event_date: &EventDate) -> (r: String)
    ensures
        r@ == beautified(event_date@),
{
    beautify_date(event_date)
}

/// A suggestion is accepted only for an active event whose subject is not
/// picked yet; it is stored raw, as it was written, with the full user id.
pub fn plan_member_suggestion(
    latest: &LastEventResponse,
    chat_id: i64,
    user_id: u64,
    suggestion: &str,
) -> (r: Result<NewMemberSuggestion, CustomError>)
    ensures
        !is_active(latest) <==> r == Err::<NewMemberSuggestion, CustomError>(
            CustomError::NoActiveEventFound,
        ),
        is_active(latest) && is_picked(latest) <==> (r matches Err(e) && is_already_picked_error(
            e,
            latest,
        )),
        is_active(latest) && !is_picked(latest) <==> r is Ok,
        r matches Ok(req) ==> {
            &&& req.event_id == latest.event_id
            &&& req.chat_id == chat_id
            &&& req.user_id == user_id
            &&& req.suggestion@ == suggestion@
        },
{
    if !has_active_event(latest) {
        return Err(CustomError::NoActiveEventFound);
    }
    if !latest.subject.as_str().is_empty() {
        return Err(CustomError::AlreadyPickedSubject(stored_text(latest.subject.as_str())));
    }
    Ok(
        NewMemberSuggestion {
            event_id: latest.event_id,
            chat_id,
            user_id,
            suggestion: suggestion.to_string(),
        },
    )
}

/// An event can be started only where it is active and has insights; the
/// start is asked of the insights service for that event.
pub fn plan_start_event(latest: &LastEventResponse) -> (r: Result<ManageEventRequest, CustomError>)
    ensures
        !is_active(latest) <==> r == Err::<ManageEventRequest, CustomError>(
            CustomError::NoActiveEventFound,
        ),
        is_active(latest) && !latest.with_insights <==> r == Err::<
            ManageEventRequest,
            CustomError,
        >(CustomError::EventWithoutInsights),
        is_active(latest) && latest.with_insights <==> r is Ok,
        r matches Ok(req) ==> req.event_id == latest.event_id,
{
    if !has_active_event(latest) {
        return Err(CustomError::NoActiveEventFound);
    }
    if !latest.with_insights {
        return Err(CustomError::EventWithoutInsights);
    }
    Ok(ManageEventRequest { event_id: latest.event_id })
}

/// The answer to the start of an event: the link to the summary of its
/// insights. It is well-formed MarkdownV2.
pub fn summary_message(summary_link: &str) -> (r: String)
    ensures
        r@ == summary_text(summary_link@),
        is_markdown_v2(r@),
{
    let mut r = "Here is your ".to_string();
    push_link(&mut r, "insights summary", summary_link);
    push_str(&mut r, "\\.");
    push_str(&mut r, "\nHave a great club");
    push_str(&mut r, "\\!");
    proof {
        reveal_strlit("Here is your ");
        reveal_strlit("insights summary");
        reveal_strlit("\\.");
        reveal_strlit("\nHave a great club");
        reveal_strlit("\\!");
        lemma_no_reserved_is_plain("Here is your "@);
        lemma_no_reserved_is_plain("insights summary"@);
        lemma_no_reserved_is_plain("\nHave a great club"@);
        assert("\\."@ == seq!['\\', '.']);
        assert("\\!"@ == seq!['\\', '!']);
        lemma_escape_pair_is_plain('.');
        lemma_escape_pair_is_plain('!');
        lemma_plain_concat("\\."@, "\nHave a great club"@);
        lemma_plain_concat("\\."@ + "\nHave a great club"@, "\\!"@);
        lemma_link_url_escaped_is_link_url(summary_link@);
        let suffix = "\\."@ + "\nHave a great club"@ + "\\!"@;
        lemma_message_with_link(
            "Here is your "@,
            "insights summary"@,
            link_url_escaped(summary_link@),
            suffix,
        );
        assert(r@ == "Here is your "@ + seq!['['] + "insights summary"@ + seq![']', '(']
            + link_url_escaped(summary_link@) + seq![')'] + suffix);
    }
    r
}

/// An event can be achieved only where it is active.
pub fn plan_achieve(latest: &LastEventResponse, chat_id: i64) -> (r: Result<
    AchieveEventRequest,
    CustomError,
>)
    ensures
        !is_active(latest) <==> r is Err,
        r is Err ==> r == Err::<AchieveEventRequest, CustomError>(CustomError::NoActiveEventFound),
        r matches Ok(req) ==> req.event_id == latest.event_id && req.chat_id == chat_id,
{
    if !has_active_event(latest) {
        return Err(CustomError::NoActiveEventFound);
    }
    Ok(AchieveEventRequest { chat_id, event_id: latest.event_id })
}

/// After an event is achieved, the insights service is told to finish it
/// where the event has insights and a picked subject.
pub fn should_finish_insights(latest: &LastEventResponse) -> (r: bool)
    ensures
        r == (latest.with_insights && is_picked(latest)),
{
    latest.with_insights && !latest.subject.as_str().is_empty()
}

/// The answer to an achieved event: its date, as shown.
pub fn achieved_reply(latest: &LastEventResponse) -> (r: String)
    ensures
        r@ == beautified(latest.event_date@),
{
    beautify_date(&latest.event_date)
}

/// A subject can be picked only for an active event whose subject is not
/// picked yet; the pick is made among the event's suggestions.
pub fn plan_pick(latest: &LastEventResponse) -> (r: Result<EventSuggestionsRequest, CustomError>)
    ensures
        !is_active(latest) <==> r == Err::<EventSuggestionsRequest, CustomError>(
            CustomError::NoActiveEventFound,
        ),
        is_active(latest) && is_picked(latest) <==> (r matches Err(e) && is_already_picked_error(
            e,
            latest,
        )),
        is_active(latest) && !is_picked(latest) <==> r is Ok,
        r matches Ok(req) ==> req.event_id == latest.event_id,
{
    if !has_active_event(latest) {
        return Err(CustomError::NoActiveEventFound);
    }
    if !latest.subject.as_str().is_empty() {
        return Err(CustomError::AlreadyPickedSubject(stored_text(latest.subject.as_str())));
    }
    Ok(EventSuggestionsRequest { event_id: latest.event_id })
}

/// The subject picked out of a chosen suggestion: the suggestion as read
/// back from storage; no suggestion to choose from is refused.
pub fn picked_subject(choice: Option<String>) -> (r: Result<String, CustomError>)
    ensures
        choice is None <==> r == Err::<String, CustomError>(CustomError::NoSuggestionsFound),
        choice matches Some(s) ==> r matches Ok(p) && p@ == unescaped(s@),
{
    match choice {
        None => Err(CustomError::NoSuggestionsFound),
        Some(s) => Ok(stored_text(s.as_str())),
    }
}

/// Picks one of the suggestions at random, as read back from storage;
/// refused where there are none.
pub fn pick_subject(suggestions: &EventSuggestionsResponse) -> (r: Result<String, CustomError>)
    ensures
        suggestions.suggestions@.len() == 0 <==> r == Err::<String, CustomError>(
            CustomError::NoSuggestionsFound,
        ),
        suggestions.suggestions@.len() > 0 <==> r is Ok,
        r matches Ok(p) ==> exists|i: int|
            0 <= i < suggestions.suggestions@.len() && p@ == unescaped(
                #[trigger] suggestions.suggestions@[i]@,
            ),
{
    let choice = choose_suggestion(&suggestions.suggestions);
    picked_subject(choice)
}

/// The answer to a pick: the subject, escaped. It is well-formed MarkdownV2.
pub fn picked_message(picked: &str) -> (r: String)
    ensures
        r@ == picked_text(picked@),
        is_markdown_v2(r@),
{
    let mut r = "Randomly picked\n".to_string();
    let subject = escape_markdown_v2(picked);
    push_str(&mut r, subject.as_str());
    proof {
        lemma_picked_text_is_plain(picked@);
        lemma_plain_is_markdown_v2(r@);
    }
    r
}

/// What follows a pick: without insights the subject is stored with no
/// link and the answer is given; with insights the event is registered
/// with the insights service first, under the subject as read back from
/// storage and the club's chat.
pub fn plan_picked(latest: &LastEventResponse, chat_id: i64, picked: String) -> (r: PickStep)
    ensures
        !latest.with_insights ==> (r matches PickStep::Store(req, answer) && req.event_id
            == latest.event_id && req.subject@ == picked@ && req.insights_link is None
            && answer@ == picked_text(picked@) && is_markdown_v2(answer@)),
        latest.with_insights ==> (r matches PickStep::Register(req) && req.event_id
            == latest.event_id && req.event_subject@ == picked@ && req.club_id == chat_id),
{
    if !latest.with_insights {
        let answer = picked_message(picked.as_str());
        PickStep::Store(
            PickedSubjectRequest { event_id: latest.event_id, subject: picked, insights_link: None },
            answer,
        )
    } else {
        PickStep::Register(
            RegisterEventRequest { event_id: latest.event_id, event_subject: picked, club_id: chat_id },
        )
    }
}

/// Once the insights service has registered the event: the subject is
/// stored with the link, and the answer gives both. It is well-formed
/// MarkdownV2.
pub fn picked_with_insights(event_id: u128, picked: String, insights_link: String) -> (r: (
    PickedSubjectRequest,
    String,
))
    ensures
        r.0.event_id == event_id,
        r.0.subject@ == picked@,
        r.0.insights_link matches Some(l) && l@ == insights_link@,
        r.1@ == picked_with_link_text(picked@, insights_link@),
        is_markdown_v2(r.1@),
{
    let mut answer = "Randomly picked\n".to_string();
    let subject = escape_markdown_v2(picked.as_str());
    push_str(&mut answer, subject.as_str());
    push_str(&mut answer, "\n\nAnd here is your ");
    push_link(&mut answer, "insights link", insights_link.as_str());
    proof {
        lemma_picked_text_is_plain(picked@);
        reveal_strlit("\n\nAnd here is your ");
        reveal_strlit("insights link");
        lemma_no_reserved_is_plain("\n\nAnd here is your "@);
        lemma_no_reserved_is_plain("insights link"@);
        lemma_plain_concat(picked_text(picked@), "\n\nAnd here is your "@);
        lemma_link_url_escaped_is_link_url(insights_link@);
        lemma_message_with_link(
            picked_text(picked@) + "\n\nAnd here is your "@,
            "insights link"@,
            link_url_escaped(insights_link@),
            Seq::empty(),
        );
        assert(answer@ == picked_text(picked@) + "\n\nAnd here is your "@ + seq!['[']
            + "insights link"@ + seq![']', '('] + link_url_escaped(insights_link@) + seq![')']
            + Seq::<char>::empty());
    }
    let request = PickedSubjectRequest { event_id, subject: picked, insights_link: Some(insights_link) };
    (request, answer)
}

/// Describes the active event: its date, and its subject with the insights
/// link, or that the subject is not picked yet. Without an active event it
/// is refused. The description is well-formed MarkdownV2.
pub fn current_event_info(latest: &LastEventResponse) -> (r: Result<String, CustomError>)
    ensures
        !is_active(latest) <==> r is Err,
        r is Err ==> r == Err::<String, CustomError>(CustomError::NoActiveEventFound),
        r matches Ok(text) ==> text@ == current_info_text(latest) && is_markdown_v2(text@),
{
    if !has_active_event(latest) {
        return Err(CustomError::NoActiveEventFound);
    }
    let formatted_date = beautify_date(&latest.event_date);
    let mut message = "The next event is on ".to_string();
    push_str(&mut message, formatted_date.as_str());
    push_str(&mut message, "\\.");
    proof {
        reveal_strlit("The next event is on ");
        reveal_strlit("\\.");
        lemma_no_reserved_is_plain("The next event is on "@);
        lemma_no_reserved_is_plain(formatted_date@);
        assert("\\."@ == seq!['\\', '.']);
        lemma_escape_pair_is_plain('.');
        lemma_plain_concat("The next event is on "@, formatted_date@);
        lemma_plain_concat("The next event is on "@ + formatted_date@, "\\."@);
        assert(message@ == next_event_line(latest));
    }
    if latest.subject.as_str().is_empty() {
        push_str(&mut message, "\nThe subject hasn't been picked yet");
        proof {
            reveal_strlit("\nThe subject hasn't been picked yet");
            lemma_no_reserved_is_plain("\nThe subject hasn't been picked yet"@);
            lemma_plain_concat(next_event_line(latest), "\nThe subject hasn't been picked yet"@);
            lemma_plain_is_markdown_v2(message@);
        }
        return Ok(message);
    }
    push_str(&mut message, "\nThe subject is ");
    push_str(&mut message, "\\-");
    push_str(&mut message, " ");
    let subject = stored_text(latest.subject.as_str());
    let shown = escape_markdown_v2(subject.as_str());
    push_str(&mut message, shown.as_str());
    let ghost described = message@;
    proof {
        reveal_strlit("\nThe subject is ");
        reveal_strlit("\\-");
        reveal_strlit(" ");
        lemma_no_reserved_is_plain("\nThe subject is "@);
        lemma_no_reserved_is_plain(" "@);
        assert("\\-"@ == seq!['\\', '-']);
        lemma_escape_pair_is_plain('-');
        lemma_escaped_is_plain_markdown_v2(unescaped(latest.subject@));
        let line = next_event_line(latest);
        lemma_plain_concat(line, "\nThe subject is "@);
        lemma_plain_concat(line + "\nThe subject is "@, "\\-"@);
        lemma_plain_concat(line + "\nThe subject is "@ + "\\-"@, " "@);
        lemma_plain_concat(
            line + "\nThe subject is "@ + "\\-"@ + " "@,
            escaped(unescaped(latest.subject@)),
        );
        assert(described == line + "\nThe subject is "@ + "\\-"@ + " "@ + escaped(
            unescaped(latest.subject@),
        ));
    }
    if latest.with_insights {
        match &latest.insights_link {
            Some(link) => {
                push_str(&mut message, "\nHere is the ");
                push_link(&mut message, "insights link", link.as_str());
                proof {
                    reveal_strlit("\nHere is the ");
                    reveal_strlit("insights link");
                    lemma_no_reserved_is_plain("\nHere is the "@);
                    lemma_no_reserved_is_plain("insights link"@);
                    lemma_plain_concat(described, "\nHere is the "@);
                    lemma_link_url_escaped_is_link_url(link@);
                    lemma_message_with_link(
                        described + "\nHere is the "@,
                        "insights link"@,
                        link_url_escaped(link@),
                        Seq::empty(),
                    );
                    assert(message@ == described + "\nHere is the "@ + seq!['['] + "insights link"@
                        + seq![']', '('] + link_url_escaped(link@) + seq![')']
                        + Seq::<char>::empty());
                }
                return Ok(message);
            },
            None => {},
        }
    }
    proof {
        lemma_plain_is_markdown_v2(message@);
    }
    Ok(message)
}

// ---------------------------------------------------------------------
// lemmas
// ---------------------------------------------------------------------

/// The answer to a pick is plain MarkdownV2.
pub proof fn lemma_picked_text_is_plain(picked: Seq<char>)
    ensures
        is_plain_markdown_v2(picked_text(picked)),
{
    reveal_strlit("Randomly picked\n");
    lemma_no_reserved_is_plain("Randomly picked\n"@);
    lemma_escaped_is_plain_markdown_v2(picked);
    lemma_plain_concat("Randomly picked\n"@, escaped(picked));
}

/// The answer to the start of an event shows the summary link as it is:
/// reading the url of its link gives back `link`.
pub proof fn lemma_summary_shows_the_link(link: Seq<char>)
    ensures
        exists|u: Seq<char>|
            #![trigger link_url_unescaped(u)]
            summary_text(link) == "Here is your "@ + seq!['['] + "insights summary"@ + seq![']', '(']
                + u + seq![')'] + "\\."@ + "\nHave a great club"@ + "\\!"@
                && link_url_unescaped(u) == link,
{
    let u = link_url_escaped(link);
    lemma_link_url_round_trip(link);
    assert(link_url_unescaped(u) == link);
}

/// The answer to a pick shows the picked subject: reading the MarkdownV2
/// text after "Randomly picked" gives back the subject.
pub proof fn lemma_picked_answer_shows_the_subject(picked: Seq<char>)
    ensures
        exists|e: Seq<char>|
            #![trigger unescaped(e)]
            picked_text(picked) == "Randomly picked\n"@ + e && unescaped(e) == picked,
{
    let e = escaped(picked);
    lemma_unescape_escape(picked);
    assert(unescaped(e) == picked);
}

/// The answer to a pick with insights shows the subject and the insights
/// link as they are: reading them back gives the subject and the link.
pub proof fn lemma_picked_answer_shows_the_link(picked: Seq<char>, link: Seq<char>)
    ensures
        exists|e: Seq<char>, u: Seq<char>|
            #![trigger unescaped(e), link_url_unescaped(u)]
            picked_with_link_text(picked, link) == "Randomly picked\n"@ + e
                + "\n\nAnd here is your "@ + seq!['['] + "insights link"@ + seq![']', '('] + u
                + seq![')'] && unescaped(e) == picked && link_url_unescaped(u) == link,
{
    let e = escaped(picked);
    let u = link_url_escaped(link);
    lemma_unescape_escape(picked);
    lemma_link_url_round_trip(link);
    assert(unescaped(e) == picked && link_url_unescaped(u) == link);
}

/// The description of an event with a picked subject shows the subject as
/// read back from storage, and, where the event has insights and a link,
/// the link as it is: reading them back gives the subject and the link.
pub proof fn lemma_current_info_shows_subject_and_link(latest: &LastEventResponse)
    requires
        is_picked(latest),
    ensures
        !(latest.with_insights && latest.insights_link is Some) ==> exists|e: Seq<char>|
            #![trigger unescaped(e)]
            current_info_text(latest) == next_event_line(latest) + "\nThe subject is "@ + "\\-"@
                + " "@ + e && unescaped(e) == unescaped(latest.subject@),
        latest.with_insights && latest.insights_link is Some ==> exists|e: Seq<char>, u: Seq<char>|
            #![trigger unescaped(e), link_url_unescaped(u)]
            current_info_text(latest) == next_event_line(latest) + "\nThe subject is "@ + "\\-"@
                + " "@ + e + "\nHere is the "@ + seq!['['] + "insights link"@ + seq![']', '('] + u
                + seq![')'] && unescaped(e) == unescaped(latest.subject@) && link_url_unescaped(u)
                == latest.insights_link->0@,
{
    let e = escaped(unescaped(latest.subject@));
    lemma_unescape_escape(unescaped(latest.subject@));
    assert(unescaped(e) == unescaped(latest.subject@));
    if latest.with_insights && latest.insights_link is Some {
        let link = latest.insights_link->0@;
        let u = link_url_escaped(link);
        lemma_link_url_round_trip(link);
        assert(link_url_unescaped(u) == link);
    }
}

} // verus!
