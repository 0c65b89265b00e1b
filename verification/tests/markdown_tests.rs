use club_bot::markdown::{
    assert_markdown_v2, check_markdown_v2, escape_link_url, escape_markdown_v2, stored_text, unescape_markdown_v2,
};

#[test]
fn every_kind_of_dash_survives_escaping() {
    // Arrange.
    let inputs = [
        "Здесь была Бритт-Мари, Фредрик Бакман",
        "Мастер и Маргарита — Булгаков",
        "Сто лет одиночества – Маркес",
        "a - b – c — d ‒ e − f",
        "--двойной-- и ---тройной---",
        "-в начале и в конце-",
        "с точкой. и скобками (x) и !",
        "\\уже с бэкслешем\\-",
    ];

    for input in inputs {
        // Act.
        let escaped = escape_markdown_v2(input);

        // Assert.
        assert!(check_markdown_v2(&escaped));
        assert_eq!(
            unescape_markdown_v2(&escaped),
            input,
            "roundtrip {:?}",
            input
        );
    }
}

#[test]
fn text_stored_by_old_code_is_normalized() {
    // Arrange.
    let old_row = "Ф. Бакман \\- Бритт\\-Мари";
    let raw_row = "Просто текст, без магии";

    // Act.
    let from_old = stored_text(old_row);
    let from_raw = stored_text(raw_row);

    // Assert.
    assert_eq!(from_old, "Ф. Бакман - Бритт-Мари");
    assert_eq!(from_raw, raw_row);
    assert!(check_markdown_v2(&escape_markdown_v2(&from_old)));
}

#[test]
fn link_url_escapes_only_parenthesis_and_backslash() {
    // Arrange.
    let url = "https://x.y/a-b_c.(d)";

    // Act.
    let escaped = escape_link_url(url);

    // Assert.
    assert_eq!(escaped, "https://x.y/a-b_c.(d\\)");
    assert!(check_markdown_v2(&format!("[x]({})", escaped)));
}

#[test]
fn escaping_puts_a_backslash_before_every_reserved_char() {
    let all = "_*[]()~`>#+-=|{}.!\\";
    assert_eq!(
        escape_markdown_v2(all),
        "\\_\\*\\[\\]\\(\\)\\~\\`\\>\\#\\+\\-\\=\\|\\{\\}\\.\\!\\\\"
    );
    assert_eq!(escape_markdown_v2("abc, где?"), "abc, где?");
    assert_eq!(escape_markdown_v2(""), "");
}

#[test]
fn unescaping_keeps_a_backslash_before_an_ordinary_char() {
    assert_eq!(unescape_markdown_v2("a\\b"), "a\\b");
    assert_eq!(unescape_markdown_v2("end\\"), "end\\");
    assert_eq!(unescape_markdown_v2("\\\\-"), "\\-");
    assert_eq!(unescape_markdown_v2("\\."), ".");
}

#[test]
fn raw_text_without_escapes_is_kept() {
    for raw in ["Просто текст", "a - b (c)!", "x\\y", ""] {
        assert_eq!(stored_text(raw), raw);
    }
}

#[test]
fn link_url_escape_changes_nothing_else() {
    assert_eq!(escape_link_url("a\\b)c"), "a\\\\b\\)c");
    assert_eq!(escape_link_url("http://stub/insights/1"), "http://stub/insights/1");
}

#[test]
fn markdown_check_accepts_escaped_text_and_links() {
    assert!(check_markdown_v2("plain text"));
    assert!(check_markdown_v2("a\\.b"));
    assert!(check_markdown_v2("see [the link](http://x.y/a_b.c) now\\!"));
    assert!(check_markdown_v2("[x](a\\)b)"));
    assert!(check_markdown_v2(""));
}

#[test]
fn markdown_check_refuses_unescaped_reserved_chars() {
    assert!(!check_markdown_v2("a.b"));
    assert!(!check_markdown_v2("a-b"));
    assert!(!check_markdown_v2("[x] no url"));
    assert!(!check_markdown_v2("[x](unclosed"));
    assert!(!check_markdown_v2("[x.y](u)"));
    assert!(!check_markdown_v2("[unclosed"));
    assert!(!check_markdown_v2("a\\"));
    assert!(!check_markdown_v2("[a-b](u)"));
    assert!(!check_markdown_v2("[x]y"));
    assert!(check_markdown_v2("[a\\-b](u.v-w)"));
    assert!(!check_markdown_v2("Ф. Бакман"));
    assert!(check_markdown_v2("Ф\\. Бакман \\- Бритт\\-Мари"));
}

#[test]
fn asserting_well_formed_markdown_returns() {
    assert_markdown_v2("a\\.b");
    assert_markdown_v2("Ф\\. Бакман \\- Бритт\\-Мари");
}
