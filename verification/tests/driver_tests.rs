// The parser collaborator is all-or-nothing: no source text yields a tree
// together with flagged error diagnostics, so no test here can drive
// `parse_source` to the `Error` status. That classification is covered by
// `classifier_covers_all_three_states` in protocol_tests.rs.
use rustparse::driver::handle_request;
use rustparse::json::Json;
use rustparse::parse::{parse_source, ParseStatus};

fn chars_of(s: &str) -> Vec<char> {
    s.chars().collect()
}

fn obj_line(fields: Vec<(&str, Json)>) -> String {
    let v: Vec<(Vec<char>, Json)> = fields.into_iter().map(|(k, j)| (chars_of(k), j)).collect();
    rustparse::json::render_chars(&Json::Obj(v)).into_iter().collect()
}

fn str_json(s: &str) -> Json {
    Json::Str(chars_of(s))
}

#[test]
fn test_parse_source_ok() {
    let result = parse_source("pub fn meaning_of_life() -> i32 {\n\t42\n}".into());
    assert_eq!(result.status, ParseStatus::Success);
    assert_eq!(result.errors.len(), 0);

    let ast = result.ast.unwrap();
    let v: serde_json::Value = serde_json::from_str(&ast.text).unwrap();
    let items = v["items"].as_array().unwrap();
    assert_eq!(items.len(), 1);
    assert_eq!(items[0]["fn"]["ident"].as_str().unwrap(), "meaning_of_life");
}

#[test]
fn test_parse_source_fatal() {
    let result = parse_source("pub fn meaning_of_life() i32 {\n\t42\n}".into());
    assert_eq!(result.status, ParseStatus::Fatal);
    assert_eq!(result.errors.len(), 1);
    assert_eq!(result.ast.is_none(), true);
}

#[test]
fn test_handle_request() {
    let source = r#"
        #[derive(Debug, Clone, Copy)]
        pub struct Point {
            x: i64,
            y: i64,
        }

        impl Point {
            pub fn new(x: i64, y: i64) -> Point {
                Point{x: x, y: y}
            }
        }
        "#;
    let result = handle_request(obj_line(vec![("content", str_json(source))]));
    assert!(result.is_ok());

    let output = result.unwrap();
    assert_eq!(output.errors.len(), 0);
    assert!(output.ast.is_some());
}

#[test]
fn main_test_handle_request() {
    let source = r#"
        #[derive(Debug, Clone, Copy)]
        pub struct Point {
            x: i64,
            y: i64,
        }

        impl Point {
            pub fn new(x: i64, y: i64) -> Point {
                Point{x: x, y: y}
            }
        }
        "#;
    let result = handle_request(obj_line(vec![
        ("action", str_json("ParseAST")),
        ("language", Json::Null),
        ("language_version", Json::Null),
        ("content", str_json(source)),
    ]));
    assert!(result.is_ok());

    let output = result.unwrap();
    assert_eq!(output.errors.len(), 0);
    assert!(output.ast.is_some());
    assert_eq!(output.language, String::from("Rust"));
    assert_eq!(output.language_version, String::from("1.0"));
    assert_eq!(output.driver, String::from("parser-rust:1.0"));
}

#[test]
fn test_handle_request_fail() {
    let result = handle_request("wow such json, very well-formed".into());
    assert!(result.is_err());
}

#[test]
fn main_test_handle_request_fail() {
    let result = handle_request("wow such json, very well-formed".into());
    assert!(result.is_err());
}
