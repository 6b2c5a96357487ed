use llmwrap::failure::Failure;
use llmwrap::json::{Json, Member};
use llmwrap::response::{command_from_body, command_from_document, command_from_parsed};

#[test]
fn body_with_output_list_gives_the_sanitized_command() {
    let body = r#"{"output":[{"content":[{"text":"ls -la\n"}]}]}"#;
    assert_eq!(command_from_body(body), Ok("ls -la".to_string()));
}

#[test]
fn body_with_output_text_list_gives_the_first_line() {
    assert_eq!(command_from_body(r#"{"output_text": ["a","b"]}"#), Ok("a".to_string()));
}

#[test]
fn body_with_fenced_command_is_unwrapped() {
    let body = r#"{"output_text": "  `git status`  \nThis shows the state."}"#;
    assert_eq!(command_from_body(body), Ok("git status".to_string()));
}

#[test]
fn body_with_values_of_every_kind_is_read() {
    let body = r#"{"id": 7, "ratio": -1.5e3, "ok": true, "none": null,
        "output": [1, null, "x", [], {"content": "text"}, {"content": [{"text": "uname -a"}]}]}"#;
    assert_eq!(command_from_body(body), Ok("uname -a".to_string()));
}

#[test]
fn body_with_escapes_is_decoded() {
    let body = r#"{"output_text": "echo \"hé\" \\ \t"}"#;
    assert_eq!(command_from_body(body), Ok("echo \"hé\" \\".to_string()));
}

#[test]
fn repeated_key_takes_the_last_value() {
    let body = r#"{"output_text": "first", "output_text": "second"}"#;
    assert_eq!(command_from_body(body), Ok("second".to_string()));
}

#[test]
fn empty_document_is_an_extraction_failure_with_the_body() {
    let result = command_from_body("{}");
    assert_eq!(result, Err(Failure::NoText { body: "{}".to_string() }));
    let message = result.unwrap_err().message();
    assert_eq!(message, "No text output returned from model. Full body: {}");
    assert!(message.contains("{}"));
}

#[test]
fn body_that_is_no_json_is_a_decoding_failure_with_the_body() {
    let body = "<html>Bad Gateway</html>";
    match command_from_body(body) {
        Err(Failure::Decode { body: kept, cause }) => {
            assert_eq!(kept, body);
            assert_eq!(cause, "expected value at line 1 column 1");
        }
        other => panic!("unexpected result: {:?}", other),
    }
    let message = command_from_body(body).unwrap_err().message();
    assert_eq!(message, "Failed to decode responses body: <html>Bad Gateway</html>");
}

#[test]
fn body_with_trailing_text_is_a_decoding_failure() {
    assert!(matches!(command_from_body("{} {}"), Err(Failure::Decode { .. })));
    assert!(matches!(command_from_body(""), Err(Failure::Decode { .. })));
    assert!(matches!(command_from_body("{\"output_text\": "), Err(Failure::Decode { .. })));
}

#[test]
fn body_nested_too_deep_is_a_decoding_failure() {
    let body = format!("{}{}", "[".repeat(200), "]".repeat(200));
    assert!(matches!(command_from_body(&body), Err(Failure::Decode { .. })));
}

#[test]
fn document_without_text_gives_no_command() {
    assert_eq!(command_from_document(&Json::Object(vec![])), None);
    assert_eq!(command_from_document(&Json::Null), None);
}

#[test]
fn document_with_text_gives_the_sanitized_command() {
    let doc = Json::Object(vec![Member {
        key: "output_text".to_string(),
        value: Json::Text("`df -h`\nshows disk usage".to_string()),
    }]);
    assert_eq!(command_from_document(&doc), Some("df -h".to_string()));
}

#[test]
fn parsed_outcome_decides_the_result() {
    let doc = Json::Object(vec![Member {
        key: "output_text".to_string(),
        value: Json::Text(" ls ".to_string()),
    }]);
    assert_eq!(command_from_parsed(Ok(doc), "body"), Ok("ls".to_string()));
    assert_eq!(
        command_from_parsed(Ok(Json::Array(vec![])), "[]"),
        Err(Failure::NoText { body: "[]".to_string() })
    );
    assert_eq!(
        command_from_parsed(Err("bad".to_string()), "??"),
        Err(Failure::Decode { body: "??".to_string(), cause: "bad".to_string() })
    );
}
