use club_bot::commands::{
    club_start_reply, event_achieved_reply, event_created_reply, event_input,
    insights_toggled_reply, suggestion_input, suggestion_reply,
};

#[test]
fn empty_event_date_asks_for_one() {
    assert_eq!(
        event_input("   ").unwrap_err(),
        "Please write a date in format -\n/event 2023.07.16 15:00"
    );
    assert_eq!(event_input("  2023.07.16 15:00 \n").unwrap(), "2023.07.16 15:00");
}

#[test]
fn empty_suggestion_asks_for_one() {
    assert_eq!(
        suggestion_input("").unwrap_err(),
        "Your suggestion is empty ;(\nFormat - /suggest smth"
    );
    assert_eq!(suggestion_input(" Процесс ").unwrap(), "Процесс");
    assert_eq!(suggestion_input("\u{3000}\u{a0}x y\t\n").unwrap(), "x y");
}

#[test]
fn plain_answers_name_what_happened() {
    assert_eq!(
        club_start_reply(false),
        "You're all set up! Now you can create event for your club"
    );
    assert_eq!(club_start_reply(true), "You've already started a club");
    assert_eq!(
        insights_toggled_reply(true),
        "Insights are now on for the current event"
    );
    assert_eq!(
        insights_toggled_reply(false),
        "Insights are now off for the current event"
    );
    assert_eq!(
        event_created_reply("Tuesday, 16th of July at 15:00"),
        "New club event created on Tuesday, 16th of July at 15:00"
    );
    assert_eq!(suggestion_reply("Процесс"), "Got it. Your suggestion:\nПроцесс");
    assert_eq!(
        event_achieved_reply("Tuesday, 16th of July at 15:00"),
        "Ok, event on Tuesday, 16th of July at 15:00 is achieved"
    );
}
