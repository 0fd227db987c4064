use shared_service::read_time::{
    calculate_read_time_minutes, extract_text_from_html, read_time_minutes_for_text,
};

#[test]
fn text_nodes_are_joined_by_spaces() {
    assert_eq!(extract_text_from_html("<p>Hello</p><p>world</p>"), "Hello world");
    assert_eq!(extract_text_from_html("plain"), "plain");
    assert_eq!(extract_text_from_html(""), "");
}

#[test]
fn read_time_is_at_least_one_minute() {
    assert_eq!(calculate_read_time_minutes(""), 1);
    assert_eq!(calculate_read_time_minutes("<p>one two three</p>"), 1);
}

#[test]
fn read_time_rounds_up_per_two_hundred_words() {
    let words_200 = vec!["word"; 200].join(" ");
    let words_201 = vec!["word"; 201].join(" ");
    let words_400 = vec!["word"; 400].join(" ");
    assert_eq!(read_time_minutes_for_text(&words_200), 1);
    assert_eq!(read_time_minutes_for_text(&words_201), 2);
    assert_eq!(read_time_minutes_for_text(&words_400), 2);
    let html = format!("<p>{}</p>", words_201);
    assert_eq!(calculate_read_time_minutes(&html), 2);
}

#[test]
fn words_are_split_on_unicode_whitespace() {
    let text = "a\u{3000}b\tc\nd\u{a0}e   f";
    let words_1000 = vec![text; 200].join(" ");
    // 6 words per copy, 1200 words in all: 6 minutes.
    assert_eq!(read_time_minutes_for_text(&words_1000), 6);
}
