//! The requests and answers exchanged with the database and the insights
//! service. An event id is the UUID's 128-bit value; 0 is the nil UUID,
//! which stands for "no event".
use vstd::prelude::*;

use crate::dates::EventDate;

verus! {

pub struct NewClubRequest {
    pub chat_id: i64,
}

pub struct NewEventRequest {
    pub chat_id: i64,
    pub event_id: u128,
    pub event_date: EventDate,
}

pub struct LastEventRequest {
    pub chat_id: i64,
}

pub struct AchieveEventRequest {
    pub event_id: u128,
    pub chat_id: i64,
}

/// The club's active event; an `event_id` of 0 means that there is none.
pub struct LastEventResponse {
    pub event_id: u128,
    pub event_date: EventDate,
    pub subject: String,
    pub with_insights: bool,
    pub insights_link: Option<String>,
}

pub struct NewMemberSuggestion {
    pub event_id: u128,
    pub chat_id: i64,
    pub user_id: u64,
    pub suggestion: String,
}

pub struct EventSuggestionsRequest {
    pub event_id: u128,
}

pub struct EventSuggestionsResponse {
    pub suggestions: Vec<String>,
}

pub struct PickedSubjectRequest {
    pub event_id: u128,
    pub subject: String,
    pub insights_link: Option<String>,
}

/// Turns the insights of an event on or off.
pub struct ToggleInsightsRequest {
    pub event_id: u128,
    pub with_insights: bool,
}

pub struct RegisterEventRequest {
    pub event_id: u128,
    pub event_subject: String,
    pub club_id: i64,
}

pub struct RegisterEventResponse {
    pub insights_link: String,
}

pub struct ManageEventRequest {
    pub event_id: u128,
}

pub struct StartEventResponse {
    pub summary_link: String,
    pub error: Option<String>,
}

} // verus!
