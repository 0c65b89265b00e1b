use club_bot::dates::EventDate;
use club_bot::errors::{domain, user_message, AppError, CustomError};
use club_bot::markdown::{check_markdown_v2, escape_markdown_v2};
use club_bot::models::{EventSuggestionsResponse, LastEventResponse};
use club_bot::service::{
    achieved_reply, check_event_date, current_event_info, ensure_no_active_event,
    has_active_event, new_event_reply, new_event_request, pick_subject, picked_message,
    picked_subject, picked_with_insights, plan_achieve, plan_member_suggestion, plan_pick,
    plan_picked, plan_start_event, plan_toggle_insights, prepare_new_event,
    should_finish_insights, summary_message, PickStep,
};

const EVENT_ID: u128 = 0x1234_5678_9abc_def0_1234_5678_9abc_def0;

fn date(year: i32, month: u32, day: u32, hour: u32, minute: u32) -> EventDate {
    EventDate::new(year, month, day, hour, minute).expect("a real date")
}

fn future() -> String {
    (chrono::Utc::now() + chrono::Duration::days(30))
        .format("%Y.%m.%d %H:%M")
        .to_string()
}

fn no_event() -> LastEventResponse {
    LastEventResponse {
        event_id: 0,
        event_date: date(1970, 1, 1, 0, 0),
        subject: String::new(),
        with_insights: false,
        insights_link: None,
    }
}

fn event(subject: &str, link: Option<&str>) -> LastEventResponse {
    LastEventResponse {
        event_id: EVENT_ID,
        event_date: date(2030, 7, 16, 15, 0),
        subject: subject.to_string(),
        with_insights: true,
        insights_link: link.map(|l| l.to_string()),
    }
}

#[test]
fn every_command_needs_an_active_event() {
    let latest = no_event();
    assert!(!has_active_event(&latest));
    let errors = [
        plan_member_suggestion(&latest, -1, 1, "x").err().unwrap(),
        plan_pick(&latest).err().unwrap(),
        current_event_info(&latest).err().unwrap(),
        plan_start_event(&latest).err().unwrap(),
        plan_achieve(&latest, -1).err().unwrap(),
        plan_toggle_insights(&latest).err().unwrap(),
    ];
    for err in &errors {
        assert!(matches!(err, CustomError::NoActiveEventFound));
    }
}

#[test]
fn event_rejects_wrong_date_format() {
    let err = prepare_new_event("2030-01-01 15:00").unwrap_err();
    assert!(matches!(err, CustomError::WrongDateFormat));
}

#[test]
fn event_rejects_a_date_in_the_past() {
    let err = prepare_new_event("2020.01.01 15:00").unwrap_err();
    assert!(matches!(err, CustomError::EventInPast));
}

#[test]
fn event_is_created_with_a_readable_date() {
    let event_date = prepare_new_event(&future()).unwrap();
    let request = new_event_request(-7, event_date);
    assert_eq!(request.chat_id, -7);
    assert_ne!(request.event_id, 0);
    assert_eq!(request.event_date, event_date);
    let text = new_event_reply(&event_date);
    assert!(text.contains(" of "), "beautified date, got {:?}", text);
}

#[test]
fn event_date_must_be_later_than_now() {
    let now = date(2030, 7, 16, 15, 0);
    assert!(check_event_date(&date(2030, 7, 16, 15, 1), &now).is_ok());
    assert!(matches!(
        check_event_date(&now, &now),
        Err(CustomError::EventInPast)
    ));
}

#[test]
fn second_event_is_refused_while_one_is_active() {
    assert!(ensure_no_active_event(&no_event()).is_ok());
    let err = ensure_no_active_event(&event("", None)).unwrap_err();
    assert!(matches!(&err, CustomError::ActiveEventFound(d) if d.contains(" of ")));
    assert!(
        matches!(&err, CustomError::ActiveEventFound(d) if d == "Tuesday, 16th of July at 15:00")
    );
}

#[test]
fn current_before_pick_says_subject_is_not_picked() {
    let info = current_event_info(&event("", None)).unwrap();
    assert!(check_markdown_v2(&info));
    assert!(info.contains("hasn't been picked"));
    assert_eq!(
        info,
        "The next event is on Tuesday, 16th of July at 15:00\\.\nThe subject hasn't been picked yet"
    );
}

#[test]
fn pick_without_suggestions_is_refused() {
    let request = plan_pick(&event("", None)).ok().unwrap();
    assert_eq!(request.event_id, EVENT_ID);
    let err = pick_subject(&EventSuggestionsResponse { suggestions: vec![] }).unwrap_err();
    assert!(matches!(err, CustomError::NoSuggestionsFound));
    assert!(matches!(
        picked_subject(None),
        Err(CustomError::NoSuggestionsFound)
    ));
}

#[test]
fn suggestion_is_stored_raw_with_full_user_id() {
    let raw = "Ф. Бакман — «Здесь была Бритт-Мари» (2014)!";
    let big_user_id = 7_000_000_000;
    let request = plan_member_suggestion(&event("", None), -5, big_user_id, raw)
        .ok()
        .unwrap();
    assert_eq!(request.suggestion, raw, "no escaping in the database");
    assert_eq!(request.user_id, big_user_id, "telegram ids above u32 survive");
    assert_eq!(request.event_id, EVENT_ID);
    assert_eq!(request.chat_id, -5);
}

#[test]
fn pick_renders_reserved_chars_and_sends_raw_subject_to_insights() {
    let raw = "Ф. Бакман — «Здесь была Бритт-Мари» (2014)!";
    let picked = pick_subject(&EventSuggestionsResponse {
        suggestions: vec![raw.to_string()],
    })
    .unwrap();
    assert_eq!(picked, raw);
    let register = match plan_picked(&event("", None), -5, picked.clone()) {
        PickStep::Register(request) => request,
        PickStep::Store(..) => panic!("insights are on"),
    };
    assert_eq!(register.event_subject, raw, "insights gets raw text");
    assert_eq!(register.club_id, -5);
    let (store, msg) =
        picked_with_insights(register.event_id, picked, "http://stub/insights/1".to_string());
    assert!(check_markdown_v2(&msg));
    assert!(msg.contains(&escape_markdown_v2(raw)), "{:?}", msg);
    assert!(msg.contains("(http://stub/insights/1)"), "{:?}", msg);
    assert_eq!(store.subject, raw);
    assert_eq!(store.insights_link.as_deref(), Some("http://stub/insights/1"));
}

#[test]
fn pick_without_insights_stores_the_subject_at_once() {
    let mut latest = event("", None);
    latest.with_insights = false;
    match plan_picked(&latest, -5, "Процесс".to_string()) {
        PickStep::Store(request, answer) => {
            assert_eq!(request.subject, "Процесс");
            assert_eq!(request.insights_link, None);
            assert_eq!(answer, "Randomly picked\nПроцесс");
        }
        PickStep::Register(_) => panic!("insights are off"),
    }
    assert_eq!(picked_message("a.b"), "Randomly picked\na\\.b");
}

#[test]
fn picked_event_refuses_another_pick_and_late_suggestions() {
    let raw = "Ф. Бакман — «Здесь была Бритт-Мари» (2014)!";
    let latest = event(raw, Some("http://stub/insights/1"));
    let pick_err = plan_pick(&latest).err().unwrap();
    let suggest_err = plan_member_suggestion(&latest, -5, 1, "late").err().unwrap();
    assert!(matches!(&pick_err, CustomError::AlreadyPickedSubject(s) if s == raw));
    assert!(matches!(&suggest_err, CustomError::AlreadyPickedSubject(s) if s == raw));
}

#[test]
fn current_shows_picked_subject_and_insights_link() {
    let raw = "Ф. Бакман — «Здесь была Бритт-Мари» (2014)!";
    let info = current_event_info(&event(raw, Some("http://stub/insights/1"))).unwrap();
    assert!(check_markdown_v2(&info));
    assert!(info.contains(&escape_markdown_v2(raw)), "{:?}", info);
    assert!(info.contains("[insights link](http://stub/insights/1)"));
}

#[test]
fn current_hides_the_link_of_an_event_without_insights() {
    let mut latest = event("Процесс", Some("http://stub/insights/1"));
    latest.with_insights = false;
    let info = current_event_info(&latest).unwrap();
    assert_eq!(
        info,
        "The next event is on Tuesday, 16th of July at 15:00\\.\nThe subject is \\- Процесс"
    );
}

#[test]
fn old_suggestion_is_picked_and_normalized() {
    let picked = pick_subject(&EventSuggestionsResponse {
        suggestions: vec!["Ф. Бакман \\- Бритт\\-Мари".to_string()],
    })
    .unwrap();
    assert_eq!(picked, "Ф. Бакман - Бритт-Мари");
    let msg = picked_message(&picked);
    assert!(check_markdown_v2(&msg));
    assert!(msg.contains("Ф\\. Бакман \\- Бритт\\-Мари"), "{:?}", msg);
}

#[test]
fn old_subject_still_renders_in_current_and_pick() {
    let latest = event("Кафка. Процесс \\- 1925", None);
    let info = current_event_info(&latest).unwrap();
    let err = plan_pick(&latest).err().unwrap();
    assert!(check_markdown_v2(&info));
    assert!(info.contains("Кафка\\. Процесс \\- 1925"), "{:?}", info);
    assert!(
        matches!(&err, CustomError::AlreadyPickedSubject(s) if s == "Кафка. Процесс - 1925")
    );
}

#[test]
fn start_returns_summary_link() {
    let request = plan_start_event(&event("Процесс", None)).ok().unwrap();
    assert_eq!(request.event_id, EVENT_ID);
    let summary = summary_message("http://stub/summary/1");
    assert!(check_markdown_v2(&summary));
    assert!(summary.contains("(http://stub/summary/1)"), "{:?}", summary);
    assert_eq!(
        summary,
        "Here is your [insights summary](http://stub/summary/1)\\.\nHave a great club\\!"
    );
}

#[test]
fn start_is_refused_without_insights() {
    let mut latest = event("Процесс", None);
    latest.with_insights = false;
    assert!(matches!(
        plan_start_event(&latest),
        Err(CustomError::EventWithoutInsights)
    ));
}

#[test]
fn achieve_archives_the_active_event() {
    let latest = event("Процесс", None);
    let request = plan_achieve(&latest, -9).ok().unwrap();
    assert_eq!(request.event_id, EVENT_ID);
    assert_eq!(request.chat_id, -9);
    assert!(should_finish_insights(&latest));
    assert!(!should_finish_insights(&event("", None)));
    let date = achieved_reply(&latest);
    assert!(date.contains(" of "), "{:?}", date);
}

#[test]
fn insights_are_turned_on_and_off() {
    let on = event("", None);
    let request = plan_toggle_insights(&on).ok().unwrap();
    assert_eq!(request.event_id, EVENT_ID);
    assert!(!request.with_insights);
    let mut off = event("", None);
    off.with_insights = false;
    assert!(plan_toggle_insights(&off).ok().unwrap().with_insights);
    assert!(matches!(
        plan_toggle_insights(&no_event()),
        Err(CustomError::NoActiveEventFound)
    ));
}

#[test]
fn users_see_domain_errors_and_a_generic_text_otherwise() {
    let err = AppError::Domain(CustomError::NoActiveEventFound);
    assert!(matches!(domain(&err), CustomError::NoActiveEventFound));
    assert_eq!(user_message(&err), CustomError::NoActiveEventFound.message());
    assert_eq!(
        user_message(&AppError::Infra("connection refused".to_string())),
        "Something went wrong, please try again later"
    );
    assert_eq!(
        CustomError::AlreadyPickedSubject("Процесс".to_string()).message(),
        "The subject is already picked - Процесс"
    );
}
