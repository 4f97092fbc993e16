use rustparse::codec::{request_from_json, ParseOutput};
use rustparse::diag::{Diagnostic, DiagnosticsEmitter, Level, MsgPart, Span, Style};
use rustparse::driver::{handle_line, LineAction};
use rustparse::json::{parse_json, Json};
use rustparse::parse::{parse_source, Ast, ParseStatus, ParsedAST};

fn chars_of(s: &str) -> Vec<char> {
    s.chars().collect()
}

fn obj_line(fields: Vec<(&str, Json)>) -> String {
    let v: Vec<(Vec<char>, Json)> = fields.into_iter().map(|(k, j)| (chars_of(k), j)).collect();
    rustparse::json::render_chars(&Json::Obj(v)).into_iter().collect()
}

fn str_json(s: &str) -> Json {
    Json::Str(chars_of(s))
}

fn respond_value(line: &str) -> serde_json::Value {
    match handle_line(line) {
        LineAction::Respond(out) => {
            assert!(!out.contains('\n'));
            serde_json::from_str(&out).unwrap()
        }
        LineAction::NoRequest => panic!("expected a response"),
    }
}

fn simple_diag(level: Level, text: &str) -> Diagnostic {
    Diagnostic {
        level,
        message: vec![MsgPart { text: text.into(), style: Style::NoStyle }],
        span: vec![],
        children: vec![],
        code: None,
    }
}

#[test]
fn round_trip_preserves_content() {
    let content = "line one\nline two\t\"quoted\" back\\slash \u{1} control";
    let line = obj_line(vec![("content", str_json(content))]);
    let parsed = parse_json(&chars_of(&line)).unwrap();
    let req = request_from_json(&parsed).unwrap();
    assert_eq!(req.content, content);
    assert_eq!(req.action, None);
}

#[test]
fn round_trip_preserves_metadata() {
    let line = obj_line(vec![
        ("action", str_json("ParseAST")),
        ("language", str_json("Rust")),
        ("language_version", str_json("1.0")),
        ("content", str_json("fn a() {}")),
    ]);
    let parsed = parse_json(&chars_of(&line)).unwrap();
    let req = request_from_json(&parsed).unwrap();
    assert_eq!(req.action.as_deref(), Some("ParseAST"));
    assert_eq!(req.language.as_deref(), Some("Rust"));
    assert_eq!(req.language_version.as_deref(), Some("1.0"));
    assert_eq!(req.content, "fn a() {}");
}

#[test]
fn unicode_escapes_decode_in_requests() {
    let line = "{\"content\":\"\\u0041\\nb\"}";
    let parsed = parse_json(&chars_of(line)).unwrap();
    let req = request_from_json(&parsed).unwrap();
    assert_eq!(req.content, "A\nb");
}

#[test]
fn first_occurrence_of_a_duplicate_key_wins() {
    let line = "{\"content\":\"first\",\"content\":\"second\"}";
    let parsed = parse_json(&chars_of(line)).unwrap();
    let req = request_from_json(&parsed).unwrap();
    assert_eq!(req.content, "first");
}

#[test]
fn extra_fields_and_numbers_are_tolerated() {
    let line = "{\"content\":\"fn a() {}\",\"attempt\":3,\"flags\":[true,null,-1.5e2]}";
    let parsed = parse_json(&chars_of(line)).unwrap();
    let req = request_from_json(&parsed).unwrap();
    assert_eq!(req.content, "fn a() {}");
}

#[test]
fn empty_content_is_a_valid_request() {
    let line = obj_line(vec![("content", str_json(""))]);
    let v = respond_value(&line);
    assert_eq!(v["status"].as_str().unwrap(), "ok");
    assert!(v["ast"].is_object());
}

#[test]
fn content_must_be_a_string() {
    let line = "{\"content\":42}";
    let v = respond_value(line);
    assert_eq!(v["status"].as_str().unwrap(), "fatal");
    assert!(v["ast"].is_null());
}

#[test]
fn blank_line_asks_for_polling() {
    assert!(matches!(handle_line(""), LineAction::NoRequest));
    assert!(matches!(handle_line("\n"), LineAction::NoRequest));
    assert!(matches!(handle_line("\r\n"), LineAction::NoRequest));
}

#[test]
fn whitespace_only_line_is_a_bad_request() {
    let v = respond_value(" \t\r\n");
    assert_eq!(v["status"].as_str().unwrap(), "fatal");
    assert!(v["ast"].is_null());
}

#[test]
fn surrogate_pairs_decode_in_requests() {
    let line = "{\"content\":\"\\uD83D\\uDE00 ok\"}";
    let parsed = parse_json(&chars_of(line)).unwrap();
    let req = request_from_json(&parsed).unwrap();
    assert_eq!(req.content, "\u{1F600} ok");
}

#[test]
fn lone_surrogate_is_refused() {
    let v = respond_value("{\"content\":\"\\uD800\"}");
    assert_eq!(v["status"].as_str().unwrap(), "fatal");
    assert_eq!(
        v["errors"][0]["message"][0]["text"].as_str().unwrap(),
        "error decoding input from json"
    );
}

#[test]
fn malformed_numbers_are_refused() {
    for line in ["{\"n\":-}", "{\"n\":1e+e5}", "{\"n\":01}", "{\"n\":1.}", "{\"n\":+1}"] {
        let v = respond_value(line);
        assert_eq!(v["status"].as_str().unwrap(), "fatal");
    }
    let ok = "{\"content\":\"fn a() {}\",\"n\":[-1.25e-3,0,10.5E2]}";
    let parsed = parse_json(&chars_of(ok)).unwrap();
    assert_eq!(request_from_json(&parsed).unwrap().content, "fn a() {}");
}

#[test]
fn non_json_line_gets_fatal_response() {
    let v = respond_value("wow such json, very well-formed\n");
    assert_eq!(v["status"].as_str().unwrap(), "fatal");
    assert!(v["ast"].is_null());
    assert_eq!(
        v["errors"][0]["message"][0]["text"].as_str().unwrap(),
        "error decoding input from json"
    );
    assert_eq!(v["driver"].as_str().unwrap(), "parser-rust:1.0");
}

#[test]
fn missing_content_gets_fatal_response() {
    let line = obj_line(vec![("action", str_json("ParseAST"))]);
    let v = respond_value(&line);
    assert_eq!(v["status"].as_str().unwrap(), "fatal");
    assert!(v["ast"].is_null());
}

#[test]
fn unknown_action_gets_fatal_response() {
    let line = obj_line(vec![("action", str_json("Bogus")), ("content", str_json("x"))]);
    let v = respond_value(&line);
    assert_eq!(v["status"].as_str().unwrap(), "fatal");
    assert!(v["ast"].is_null());
    assert_eq!(
        v["errors"][0]["message"][0]["text"].as_str().unwrap(),
        "unknown action Bogus"
    );

    // The loop is still alive: the next valid request is answered normally.
    let ok_line = obj_line(vec![("content", str_json("pub fn f() -> i32 { 42 }"))]);
    let v2 = respond_value(&ok_line);
    assert_eq!(v2["status"].as_str().unwrap(), "ok");
}

#[test]
fn clean_source_gets_ok_response() {
    let line = obj_line(vec![("content", str_json("pub fn f() -> i32 { 42 }"))]);
    let v = respond_value(&line);
    assert_eq!(v["status"].as_str().unwrap(), "ok");
    assert!(v["ast"].is_object());
    assert_eq!(v["errors"].as_array().unwrap().len(), 0);
    assert_eq!(v["language"].as_str().unwrap(), "Rust");
    assert_eq!(v["language_version"].as_str().unwrap(), "1.0");
}

#[test]
fn missing_arrow_gets_fatal_response() {
    let line = obj_line(vec![("content", str_json("pub fn f() i32 { 42 }"))]);
    let v = respond_value(&line);
    assert_eq!(v["status"].as_str().unwrap(), "fatal");
    assert!(v["ast"].is_null());
    assert!(v["errors"].as_array().unwrap().len() >= 1);
}

#[test]
fn parse_twice_agrees() {
    let a = parse_source("pub fn f() i32 { 42 }".into());
    let b = parse_source("pub fn f() i32 { 42 }".into());
    assert_eq!(a.status, b.status);
    assert_eq!(a.errors.len(), b.errors.len());
    assert_eq!(a.errors[0].message[0].text, b.errors[0].message[0].text);

    let c = parse_source("fn g() {}".into());
    let d = parse_source("fn g() {}".into());
    assert_eq!(c.status, d.status);
    assert_eq!(c.ast.unwrap().text, d.ast.unwrap().text);
}

#[test]
fn sink_retains_error_levels_in_order() {
    let mut sink = DiagnosticsEmitter::new();
    sink.emit(simple_diag(Level::Error, "first"));
    sink.emit(simple_diag(Level::Warning, "dropped"));
    sink.emit(simple_diag(Level::Note, "dropped too"));
    sink.emit(simple_diag(Level::Bug, "second"));
    sink.emit(simple_diag(Level::Help, "dropped as well"));
    sink.emit(simple_diag(Level::Cancelled, "gone"));
    sink.emit(simple_diag(Level::PhaseFatal, "third"));
    sink.emit(simple_diag(Level::Fatal, "fourth"));
    let kept = sink.drain();
    assert_eq!(kept.len(), 4);
    assert_eq!(kept[0].message[0].text, "first");
    assert_eq!(kept[1].message[0].text, "second");
    assert_eq!(kept[2].message[0].text, "third");
    assert_eq!(kept[3].message[0].text, "fourth");
}

#[test]
fn classifier_covers_all_three_states() {
    let ok = ParsedAST::new(Some(Ast { text: "{}".into() }), vec![]);
    assert_eq!(ok.status, ParseStatus::Success);

    let err = ParsedAST::new(
        Some(Ast { text: "{}".into() }),
        vec![simple_diag(Level::Error, "site one"), simple_diag(Level::Error, "site two")],
    );
    assert_eq!(err.status, ParseStatus::Error);
    assert_eq!(err.errors.len(), 2);
    assert!(err.ast.is_some());

    let fatal = ParsedAST::new(None, vec![simple_diag(Level::Fatal, "boom")]);
    assert_eq!(fatal.status, ParseStatus::Fatal);
    assert!(fatal.ast.is_none());
}

#[test]
fn status_tokens() {
    assert_eq!(ParseStatus::Success.encode(), "ok");
    assert_eq!(ParseStatus::Error.encode(), "error");
    assert_eq!(ParseStatus::Fatal.encode(), "fatal");
}

#[test]
fn fatal_response_is_one_json_line() {
    let out = rustparse::codec::encode_output(&ParseOutput::from_error(
        "boom\nwith \"newline\" and back\\slash".into(),
    ));
    assert!(!out.contains('\n'));
    let v: serde_json::Value = serde_json::from_str(&out).unwrap();
    assert_eq!(v["status"].as_str().unwrap(), "fatal");
    assert_eq!(v["errors"][0]["level"].as_str().unwrap(), "Fatal");
    assert_eq!(
        v["errors"][0]["message"][0]["text"].as_str().unwrap(),
        "boom\nwith \"newline\" and back\\slash"
    );
    assert_eq!(v["errors"][0]["message"][0]["style"].as_str().unwrap(), "Level:Fatal");
}

#[test]
fn spans_children_and_code_are_encoded() {
    let child = simple_diag(Level::Note, "see here");
    let d = Diagnostic {
        level: Level::Error,
        message: vec![MsgPart { text: "bad expression".into(), style: Style::Highlight }],
        span: vec![Span { start_line: 1, start_col: 2, end_line: 3, end_col: 44 }],
        children: vec![child],
        code: Some("E0001".into()),
    };
    let parsed = ParsedAST::new(Some(Ast { text: "{}".into() }), vec![d]);
    let out = rustparse::codec::encode_output(&ParseOutput::from_ast(parsed));
    assert!(!out.contains('\n'));
    let v: serde_json::Value = serde_json::from_str(&out).unwrap();
    assert_eq!(v["status"].as_str().unwrap(), "error");
    let e = &v["errors"][0];
    assert_eq!(e["level"].as_str().unwrap(), "Error");
    assert_eq!(e["span"][0]["start_line"].as_u64().unwrap(), 1);
    assert_eq!(e["span"][0]["end_col"].as_u64().unwrap(), 44);
    assert_eq!(e["children"][0]["level"].as_str().unwrap(), "Note");
    assert_eq!(e["children"][0]["message"][0]["text"].as_str().unwrap(), "see here");
    assert_eq!(e["code"].as_str().unwrap(), "E0001");
    assert_eq!(e["message"][0]["style"].as_str().unwrap(), "Highlight");
}
