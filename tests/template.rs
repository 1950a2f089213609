use multihook::json::{body_json, json_to_string, JsonValue};
use multihook::template::{evaluate_path, render_selection, CommandTemplate};

fn body(text: &str) -> JsonValue {
    body_json(text)
}

#[test]
fn plain_template_is_verbatim() {
    let t = CommandTemplate::new("echo hello { world } }}{");
    assert_eq!(t.evaluate(&body(r#"{"a": 1}"#)), "echo hello { world } }}{");
    assert_eq!(t.evaluate(&JsonValue::Null), "echo hello { world } }}{");
}

#[test]
fn empty_template_is_empty() {
    let t = CommandTemplate::new("");
    assert_eq!(t.evaluate(&body(r#"{"a": 1}"#)), "");
}

#[test]
fn placeholder_substitution() {
    let t = CommandTemplate::new("echo {{$.a}}");
    assert_eq!(t.evaluate(&body(r#"{"a": 5}"#)), "echo 5");
}

#[test]
fn several_placeholders_keep_literal_text() {
    let t = CommandTemplate::new("{{$.a}}-{{$.b}} and {{$.c}}!");
    let v = body(r#"{"a": "x", "b": true, "c": null}"#);
    assert_eq!(t.evaluate(&v), "x-true and !");
}

#[test]
fn array_selection_is_one_value_per_line() {
    let t = CommandTemplate::new("{{$.a}}");
    assert_eq!(t.evaluate(&body(r#"{"a":[1,2]}"#)), "1\n2");
}

#[test]
fn object_selection_is_key_value_lines_in_source_order() {
    let t = CommandTemplate::new("{{$.o}}");
    assert_eq!(t.evaluate(&body(r#"{"o":{"x":1,"y":2}}"#)), "x = 1\ny = 2");
    assert_eq!(t.evaluate(&body(r#"{"o":{"y":2,"x":1}}"#)), "y = 2\nx = 1");
}

#[test]
fn nested_values_render_recursively() {
    let t = CommandTemplate::new("{{$.o}}");
    assert_eq!(
        t.evaluate(&body(r#"{"o":{"k":[1,"s"],"n":null}}"#)),
        "k = 1\ns\nn = "
    );
}

#[test]
fn unmatched_query_gives_empty_text() {
    let t = CommandTemplate::new("echo [{{$.missing}}]");
    assert_eq!(t.evaluate(&body(r#"{"a": 5}"#)), "echo []");
}

#[test]
fn malformed_query_gives_empty_text() {
    let t = CommandTemplate::new("echo [{{$[}}] [{{not a path}}]");
    assert_eq!(t.evaluate(&body(r#"{"a": 5}"#)), "echo [] []");
}

#[test]
fn first_closing_braces_end_a_placeholder() {
    let t = CommandTemplate::new("{{$.a}}}}");
    assert_eq!(t.evaluate(&body(r#"{"a": 7}"#)), "7}}");
}

#[test]
fn placeholder_does_not_span_lines() {
    let t = CommandTemplate::new("{{$.a\n}} {{$.a}}");
    assert_eq!(t.evaluate(&body(r#"{"a": 3}"#)), "{{$.a\n}} 3");
}

#[test]
fn shell_text_is_not_escaped() {
    let t = CommandTemplate::new("echo {{$.a}}");
    assert_eq!(t.evaluate(&body(r#"{"a": "x; rm -rf /tmp/y"}"#)), "echo x; rm -rf /tmp/y");
}

#[test]
fn evaluate_with_splices_given_values() {
    let t = CommandTemplate::new("a{{q}}b{{r}}c");
    let r = t.evaluate_with(&vec![String::from("1"), String::from("22")]);
    assert_eq!(r, "a1b22c");
}

#[test]
fn multibyte_text_is_kept() {
    let t = CommandTemplate::new("é{{$.a}}ü");
    assert_eq!(t.evaluate(&body(r#"{"a": "ß"}"#)), "éßü");
}

#[test]
fn json_to_string_formats() {
    assert_eq!(json_to_string(&JsonValue::Null), "");
    assert_eq!(json_to_string(&JsonValue::Bool(false)), "false");
    assert_eq!(json_to_string(&JsonValue::Number(String::from("-1.5"))), "-1.5");
    assert_eq!(json_to_string(&JsonValue::Str(String::from("hi"))), "hi");
    let arr = JsonValue::Array(vec![
        JsonValue::Number(String::from("1")),
        JsonValue::Number(String::from("2")),
    ]);
    assert_eq!(json_to_string(&arr), "1\n2");
    let obj = JsonValue::Object(vec![
        (String::from("x"), JsonValue::Number(String::from("1"))),
        (String::from("y"), JsonValue::Number(String::from("2"))),
    ]);
    assert_eq!(json_to_string(&obj), "x = 1\ny = 2");
    assert_eq!(json_to_string(&JsonValue::Array(vec![])), "");
}

#[test]
fn render_selection_of_nothing_is_empty() {
    assert_eq!(render_selection(&None), "");
    assert_eq!(render_selection(&Some(vec![])), "");
    let one = Some(vec![JsonValue::Str(String::from("a")), JsonValue::Bool(true)]);
    assert_eq!(render_selection(&one), "a\ntrue");
}

#[test]
fn overflowing_filter_number_gives_empty_text() {
    let t = CommandTemplate::new("a{{$[?(@.a==99999999999999999999)]}}b");
    assert_eq!(t.evaluate(&body(r#"[{"a": 1}]"#)), "ab");
    assert_eq!(evaluate_path("$.a99999999999999999999", &body(r#"{"a": 1}"#)), "");
    let t = CommandTemplate::new("{{$[?(@.a<99999999999999999999.5)]}}");
    assert_eq!(t.evaluate(&body(r#"[{"a": 1}]"#)), "a = 1");
}

#[test]
fn rooted_ordered_filter_gives_empty_text() {
    let t = CommandTemplate::new("echo {{$[?($.b > 1)]}}");
    assert_eq!(t.evaluate(&body("[1]")), "echo ");
    let t = CommandTemplate::new("echo {{$.xs[?($.n[0]<2)]}}!");
    assert_eq!(t.evaluate(&body(r#"{"xs":[1,2],"n":[1]}"#)), "echo !");
}

#[test]
fn filter_with_small_number_runs_like_jsonpath() {
    let text = r#"{"xs":[{"a":1,"b":10},{"a":2,"b":20}],"n":[3,4]}"#;
    let root: serde_json::Value = serde_json::from_str(text).unwrap();
    for q in [
        "$.xs[?(@.a==2)]",
        "$.n[1]",
        "$.xs.*.b",
        "$.xs[?(@.a<9000000000000000000)]",
        "$.xs[?(@.a>1)]",
        "$.xs[?($.n[0] == 'x')]",
        "$.a9999999999999999999",
    ] {
        let expected: Vec<String> = jsonpath::Selector::new(q)
            .unwrap()
            .find(&root)
            .map(|v| match v {
                serde_json::Value::Object(o) => o
                    .iter()
                    .map(|(k, x)| format!("{} = {}", k, x))
                    .collect::<Vec<_>>()
                    .join("\n"),
                other => other.to_string(),
            })
            .collect();
        let t = CommandTemplate::new(&format!("{{{{{}}}}}", q));
        assert_eq!(t.evaluate(&body(text)), expected.join("\n"), "{}", q);
    }
    assert_eq!(CommandTemplate::new("{{$.n[1]}}").evaluate(&body(text)), "4");
}

#[test]
fn malformed_json_body_is_null() {
    assert!(matches!(body_json("not json"), JsonValue::Null));
    let t = CommandTemplate::new("x{{$}}y{{$.a}}z");
    assert_eq!(t.evaluate(&body_json("{oops")), "xyz");
}

#[test]
fn body_json_keeps_numbers_and_order() {
    match body_json(r#"{"b": 1.5, "a": [true, null]}"#) {
        JsonValue::Object(members) => {
            assert_eq!(members.len(), 2);
            assert_eq!(members[0].0, "b");
            assert!(matches!(&members[0].1, JsonValue::Number(n) if n == "1.5"));
            assert_eq!(members[1].0, "a");
        }
        _ => panic!("not an object"),
    }
}

#[test]
fn many_query_shapes_evaluate_without_failing() {
    let bodies = [
        "null",
        "1",
        r#""s""#,
        "[]",
        "[1,[2,[3]],{\"a\":4}]",
        r#"{"a":{"b":{"c":1}},"xs":[{"a":1},{"a":"x"},{"b":2}],"e":{}}"#,
    ];
    let queries = [
        "$", "$.a", "$.a.b", "$.a.b.c", "$.a.b.c.d", "$.*", "$.*.*", "$.*.b", "$[0]", "$[1][1][0]",
        "$[0:2]", "$[:1]", "$[1:]", "$.xs[?(@.a==1)]", "$.xs[?(@.a!=1)]", "$.xs[?(@.a>0)]",
        "$.xs[?(@.a<5)].a", "$.xs[?(@.a=='x')]", "$.xs[?($.a.b.c==1)]", "$.xs[?(@.a==1.5)]",
        "$.xs.*.a", "$.e.*", "$.e.x", "$[9]", "$.xs[5:9]", "$.xs[?(@.b==2)].b", "",
        "$.", "$[", "a", "$[?(@.a==99999999999999999999)]",
    ];
    for b in bodies {
        for q in queries {
            let _ = evaluate_path(q, &body(b));
        }
    }
}
