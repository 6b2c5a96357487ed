use llmwrap::extract::{extract_text, text_of_first_message, text_of_message, texts_in};
use llmwrap::json::{Json, Member};

fn text(value: &str) -> Json {
    Json::Text(value.to_string())
}

fn object(members: Vec<(&str, Json)>) -> Json {
    Json::Object(
        members.into_iter().map(|(key, value)| Member { key: key.to_string(), value }).collect(),
    )
}

fn message(parts: Vec<Json>) -> Json {
    object(vec![("content", Json::Array(parts))])
}

fn part(value: &str) -> Json {
    object(vec![("text", text(value))])
}

#[test]
fn output_list_yields_first_message_text() {
    let doc = object(vec![("output", Json::Array(vec![message(vec![part("ls -la\n")])]))]);
    assert_eq!(extract_text(&doc), Some("ls -la\n".to_string()));
}

#[test]
fn output_list_skips_messages_without_text() {
    let doc = object(vec![(
        "output",
        Json::Array(vec![
            object(vec![("type", text("reasoning"))]),
            message(vec![]),
            object(vec![("content", text("not a list"))]),
            Json::Null,
            message(vec![part("pwd")]),
            message(vec![part("later")]),
        ]),
    )]);
    assert_eq!(extract_text(&doc), Some("pwd".to_string()));
}

#[test]
fn message_text_is_that_of_the_first_part() {
    let with_text_first = message(vec![part("first"), part("second")]);
    assert_eq!(text_of_message(&with_text_first), Some(&"first".to_string()));
    let with_text_second = message(vec![object(vec![("type", text("image"))]), part("second")]);
    assert_eq!(text_of_message(&with_text_second), None);
    let with_number = message(vec![object(vec![("text", Json::Number("1".to_string()))])]);
    assert_eq!(text_of_message(&with_number), None);
}

#[test]
fn first_message_text_of_no_messages_is_none() {
    assert_eq!(text_of_first_message(&vec![]), None);
}

#[test]
fn output_object_yields_its_text() {
    let doc = object(vec![("output", message(vec![part("whoami")]))]);
    assert_eq!(extract_text(&doc), Some("whoami".to_string()));
}

#[test]
fn output_text_string_is_returned() {
    let doc = object(vec![("output_text", text("date"))]);
    assert_eq!(extract_text(&doc), Some("date".to_string()));
}

#[test]
fn output_text_list_is_joined_with_line_feeds() {
    let doc = object(vec![("output_text", Json::Array(vec![text("a"), text("b")]))]);
    assert_eq!(extract_text(&doc), Some("a\nb".to_string()));
}

#[test]
fn output_text_list_skips_what_is_no_string() {
    let items = vec![Json::Null, text("a"), Json::Bool(true), text("b"), Json::Array(vec![])];
    assert_eq!(texts_in(&items), vec!["a".to_string(), "b".to_string()]);
    let doc = object(vec![("output_text", Json::Array(items))]);
    assert_eq!(extract_text(&doc), Some("a\nb".to_string()));
}

#[test]
fn output_text_list_that_joins_to_nothing_yields_none() {
    let empty = object(vec![("output_text", Json::Array(vec![]))]);
    assert_eq!(extract_text(&empty), None);
    let blank = object(vec![("output_text", Json::Array(vec![text("")]))]);
    assert_eq!(extract_text(&blank), None);
    let two_blanks = object(vec![("output_text", Json::Array(vec![text(""), text("")]))]);
    assert_eq!(extract_text(&two_blanks), Some("\n".to_string()));
}

#[test]
fn output_list_wins_over_output_text() {
    let doc = object(vec![
        ("output_text", text("from output_text")),
        ("output", Json::Array(vec![message(vec![part("from output")])])),
    ]);
    assert_eq!(extract_text(&doc), Some("from output".to_string()));
}

#[test]
fn output_object_wins_over_output_text() {
    let doc = object(vec![
        ("output", message(vec![part("from output")])),
        ("output_text", text("from output_text")),
    ]);
    assert_eq!(extract_text(&doc), Some("from output".to_string()));
}

#[test]
fn output_without_text_falls_back_to_output_text() {
    let doc = object(vec![
        ("output", Json::Array(vec![message(vec![])])),
        ("output_text", text("fallback")),
    ]);
    assert_eq!(extract_text(&doc), Some("fallback".to_string()));
    let doc = object(vec![("output", text("a string")), ("output_text", text("fallback"))]);
    assert_eq!(extract_text(&doc), Some("fallback".to_string()));
}

#[test]
fn empty_document_yields_none() {
    assert_eq!(extract_text(&object(vec![])), None);
}

#[test]
fn documents_that_are_no_object_yield_none() {
    assert_eq!(extract_text(&Json::Null), None);
    assert_eq!(extract_text(&text("ls")), None);
    assert_eq!(extract_text(&Json::Array(vec![part("ls")])), None);
    assert_eq!(extract_text(&Json::Bool(false)), None);
    assert_eq!(extract_text(&Json::Number("3".to_string())), None);
}

#[test]
fn empty_text_under_output_is_a_hit() {
    let doc = object(vec![
        ("output", Json::Array(vec![message(vec![part("")])])),
        ("output_text", text("fallback")),
    ]);
    assert_eq!(extract_text(&doc), Some(String::new()));
}
