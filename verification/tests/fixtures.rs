use rendering::html5::tokenizer::{StartTag, State, Token, TokenError};
use rendering::testing::tokenizer::{
    initial_state_named, token_from_fields, tokens_match, Field, FixtureFile, JsonFixtures,
    JsonTest, Member, Scalar, XmlValidationFixtures,
};
use rendering::types::{AttributeMap, Error};
use serde_json::Value;

fn scalar(value: &Value) -> Scalar {
    match value {
        Value::Null => Scalar::Null,
        Value::String(text) => Scalar::Text(text.to_owned()),
        _ => Scalar::Other,
    }
}

fn field(value: &Value) -> Field {
    match value {
        Value::Null => Field::Null,
        Value::Bool(flag) => Field::Flag(*flag),
        Value::String(text) => Field::Text(text.to_owned()),
        Value::Object(members) => Field::Object(
            members
                .iter()
                .map(|(name, value)| Member {
                    name: name.to_owned(),
                    value: scalar(value),
                })
                .collect(),
        ),
        _ => Field::Other,
    }
}

fn fields(value: &Value) -> Vec<Field> {
    value.as_array().unwrap().iter().map(field).collect()
}

fn json_test(value: &Value) -> JsonTest {
    let errors = match value.get("errors") {
        Some(errors) => errors
            .as_array()
            .unwrap()
            .iter()
            .map(|e| TokenError {
                code: e["code"].as_str().unwrap().to_owned(),
                line: e["line"].as_u64().unwrap() as usize,
                col: e["col"].as_u64().unwrap() as usize,
            })
            .collect(),
        None => vec![],
    };
    let initial_states = match value.get("initialStates") {
        Some(states) => states
            .as_array()
            .unwrap()
            .iter()
            .map(|s| initial_state_named(s.as_str().unwrap()).unwrap())
            .collect(),
        None => vec![],
    };
    JsonTest {
        description: value["description"].as_str().unwrap().to_owned(),
        errors,
        initial_states,
        input: value["input"].as_str().unwrap().to_owned(),
        last_start_tag: value
            .get("lastStartTag")
            .and_then(|s| s.as_str())
            .map(str::to_owned),
        output: value["output"]
            .as_array()
            .unwrap()
            .iter()
            .map(|token| token_from_fields(&fields(token)).unwrap())
            .collect(),
        double_escaped: value.get("doubleEscaped").and_then(|b| b.as_bool()),
    }
}

fn parse(i: &str) -> JsonTest {
    json_test(&serde_json::from_str::<Value>(i).expect("error parsing"))
}

fn attributes(pairs: &[(&str, &str)]) -> AttributeMap {
    let mut map = AttributeMap::new();
    for (name, value) in pairs {
        assert!(map.insert(name.to_string(), value.to_string()));
    }
    map
}

#[test]
fn entities1_test_3() {
    let test = parse(
        r#"{
                "description": "Undefined named entity in a double-quoted attribute value ending in semicolon and whose name starts with a known entity name.",
                "input":"<h a=\"&noti;\">",
                "output": [["StartTag", "h", {"a": "&noti;"}]]
            }"#,
    );

    assert!(test.description.starts_with("Undefined"));
    assert_eq!(test.input, "<h a=\"&noti;\">");
    assert_eq!(
        test.output,
        &[Token::StartTag(StartTag {
            name: "h".into(),
            attributes: attributes(&[("a", "&noti;")]),
            self_closing: false,
        })],
    );
}

#[test]
fn domjs_test_3() {
    let test = parse(
        r#"{
                "description":"CR in bogus comment state",
                "input":"<?\u000d",
                "output":[["Comment", "?\u000a"]],
                "errors":[
                    { "code": "unexpected-question-mark-instead-of-tag-name", "line": 1, "col": 2 }
                ]
            }"#,
    );

    assert_eq!(test.description, "CR in bogus comment state");
}

#[test]
fn domjs_test_267() {
    let test = parse(
        r#"{
                "description":"space EOF after doctype ",
                "input":"<!DOCTYPE html ",
                "output":[["DOCTYPE", "html", null, null , false]],
                "errors":[
                    { "code": "eof-in-doctype", "line": 1, "col": 16 }
                ]
            }"#,
    );

    assert_eq!(test.description, "space EOF after doctype ");

    if let Token::Doctype { name, .. } = &test.output[0] {
        assert_eq!(name, &Some("html".into()));
    } else {
        panic!();
    };

    let error = &test.errors[0];
    assert_eq!(
        error,
        &TokenError {
            code: "eof-in-doctype".into(),
            line: 1,
            col: 16
        }
    );
}

#[test]
fn xml_violation_tests() {
    let input = r#"
        {"xmlViolationTests": [
            {"description":"Non-XML character",
            "input":"a\uFFFFb",
            "output":[["Character","a\uFFFDb"]]},

            {"description":"Non-XML space",
            "input":"a\u000Cb",
            "output":[["Character","a b"]]},

            {"description":"Double hyphen in comment",
            "input":"<!-- foo -- bar -->",
            "output":[["Comment"," foo - - bar "]]},

            {"description":"FF between attributes",
            "input":"<a b=''\u000Cc=''>",
            "output":[["StartTag","a",{"b":"","c":""}]]}
        ]}"#;

    let value: Value = serde_json::from_str(input).expect("failed to parse");
    let fixtures = XmlValidationFixtures {
        tests: value["xmlViolationTests"]
            .as_array()
            .expect("failed to parse")
            .iter()
            .map(json_test)
            .collect(),
    };
    assert_eq!(fixtures.tests.len(), 4);
}

#[test]
fn test2_test_3() {
    let input = r#"
        {"description":"DOCTYPE without name",
        "input":"<!DOCTYPE>",
        "output":[["DOCTYPE", null, null, null, false]],
        "errors":[
            { "code": "missing-doctype-name", "line": 1, "col": 10 }
        ]}"#;

    let test: JsonTest = parse(input);

    let output = &test.output[0];
    assert!(matches!(output, Token::Doctype { .. }));
}

#[test]
fn double_escaped() {
    let input = r#"{
            "description":"NUL in CDATA section",
            "doubleEscaped":true,
            "initialStates":["CDATA section state"],
            "input":"\\u0000]]>",
            "output":[["Character", "\\u0000"]]
        }"#;

    let test: JsonTest = parse(input);
    assert_eq!(test.double_escaped, Some(true));
    assert_eq!(test.initial_states(), vec![State::CDATASection]);
}

fn text_field(s: &str) -> Field {
    Field::Text(s.into())
}

#[test]
fn tokens_of_each_kind_are_read() {
    assert_eq!(
        token_from_fields(&vec![text_field("Character"), text_field("ab")]).unwrap(),
        Token::Character("ab".into())
    );
    assert_eq!(
        token_from_fields(&vec![text_field("Comment"), text_field("c")]).unwrap(),
        Token::Comment("c".into())
    );
    assert_eq!(
        token_from_fields(&vec![text_field("EndTag"), text_field("p")]).unwrap(),
        Token::EndTag("p".into())
    );
    let members = vec![
        Member {
            name: "b".into(),
            value: Scalar::Text("1".into()),
        },
        Member {
            name: "skipped".into(),
            value: Scalar::Null,
        },
        Member {
            name: "c".into(),
            value: Scalar::Text("".into()),
        },
    ];
    assert_eq!(
        token_from_fields(&vec![
            text_field("StartTag"),
            text_field("a"),
            Field::Object(members),
            Field::Flag(true),
        ])
        .unwrap(),
        Token::StartTag(StartTag {
            name: "a".into(),
            attributes: attributes(&[("b", "1"), ("c", "")]),
            self_closing: true,
        })
    );
    for (flag, self_closing) in [
        (Some(Field::Flag(false)), false),
        (Some(Field::Null), false),
        (None, false),
        (Some(Field::Flag(true)), true),
    ] {
        let mut fields = vec![text_field("StartTag"), text_field("a"), Field::Object(vec![])];
        fields.extend(flag);
        assert_eq!(
            token_from_fields(&fields).unwrap(),
            Token::StartTag(StartTag {
                name: "a".into(),
                attributes: attributes(&[]),
                self_closing,
            })
        );
    }
    assert_eq!(
        token_from_fields(&vec![
            text_field("DOCTYPE"),
            text_field("html"),
            Field::Null,
            text_field("sys"),
            Field::Flag(true),
        ])
        .unwrap(),
        Token::Doctype {
            name: Some("html".into()),
            public_id: None,
            system_id: Some("sys".into()),
            correctness: true,
        }
    );
}

#[test]
fn lists_that_record_no_token_are_refused() {
    let refused = |fields: Vec<Field>| matches!(token_from_fields(&fields), Err(Error::Json(_)));
    assert!(refused(vec![]));
    assert!(refused(vec![text_field("Character")]));
    assert!(refused(vec![Field::Null, text_field("x")]));
    assert!(refused(vec![text_field("StartTag"), text_field("x")]));
    assert!(refused(vec![text_field("Character"), Field::Flag(true)]));
    assert!(refused(vec![
        text_field("EndTag"),
        text_field("a"),
        Field::Object(vec![])
    ]));
    assert!(refused(vec![
        text_field("StartTag"),
        text_field("a"),
        text_field("b")
    ]));
    assert!(refused(vec![
        text_field("StartTag"),
        text_field("a"),
        Field::Object(vec![Member {
            name: "b".into(),
            value: Scalar::Other
        }])
    ]));
    assert!(refused(vec![
        text_field("Comment"),
        Field::Null,
        Field::Null,
        Field::Null,
        Field::Null
    ]));
    assert!(refused(vec![
        text_field("DOCTYPE"),
        Field::Null,
        Field::Null,
        Field::Null,
        Field::Null,
        Field::Null
    ]));
}

#[test]
fn states_are_known_by_their_names() {
    assert_eq!(initial_state_named("Data state"), Some(State::Data));
    assert_eq!(initial_state_named("PLAINTEXT state"), Some(State::PLAINTEXT));
    assert_eq!(initial_state_named("RCDATA state"), Some(State::RCDATA));
    assert_eq!(initial_state_named("RAWTEXT state"), Some(State::RAWTEXT));
    assert_eq!(
        initial_state_named("Script data state"),
        Some(State::ScriptData)
    );
    assert_eq!(
        initial_state_named("CDATA section state"),
        Some(State::CDATASection)
    );
    assert_eq!(initial_state_named("Tag name state"), None);
    assert_eq!(initial_state_named("data state"), None);
}

fn case(input: &str, states: Vec<State>, last: Option<&str>, output: Vec<Token>) -> JsonTest {
    JsonTest {
        description: "case".into(),
        errors: vec![],
        initial_states: states,
        input: input.into(),
        last_start_tag: last.map(str::to_owned),
        output,
        double_escaped: None,
    }
}

#[test]
fn a_case_starts_in_data_unless_it_names_states() {
    let test = case("", vec![], None, vec![]);
    assert_eq!(test.initial_states(), vec![State::Data]);
    let test = case("", vec![State::ScriptData, State::Data], None, vec![]);
    assert_eq!(
        test.initial_states(),
        vec![State::ScriptData, State::Data]
    );
}

#[test]
fn pumping_runs_the_tokenizer_to_its_end() {
    let test = case("x</script>", vec![], Some("script"), vec![]);
    let result = test.pump_tokenizer(State::ScriptData).unwrap();
    assert_eq!(result.output.len(), 3);
    let result = test.pump_tokenizer(State::Data).unwrap();
    assert_eq!(result.output.len(), 3);
    let result = test.pump_tokenizer(State::RCDATA).unwrap();
    assert_eq!(result.output.len(), 1);
}

#[test]
fn a_case_holds_where_the_tokens_are_the_expected_ones() {
    let start_tag = |pairs: &[(&str, &str)]| {
        Token::StartTag(StartTag {
            name: "a".into(),
            attributes: attributes(pairs),
            self_closing: false,
        })
    };
    let input = "<a y=1 x=2>";
    assert!(case(input, vec![], None, vec![start_tag(&[("y", "1"), ("x", "2")])]).assert_valid());
    assert!(case(input, vec![], None, vec![start_tag(&[("x", "2"), ("y", "1")])]).assert_valid());
    assert!(!case(input, vec![], None, vec![start_tag(&[("x", "1"), ("y", "2")])]).assert_valid());
    assert!(!case(input, vec![], None, vec![start_tag(&[("x", "2")])]).assert_valid());
    assert!(!case(input, vec![], None, vec![Token::EndTag("a".into())]).assert_valid());
    assert!(case(input, vec![], None, vec![]).assert_valid());
    assert!(case(
        input,
        vec![],
        None,
        vec![start_tag(&[("y", "1"), ("x", "2")]), Token::Eof, Token::Eof]
    )
    .assert_valid());
    assert!(!case(
        "ab",
        vec![State::ScriptData, State::Data, State::TagName],
        None,
        vec![Token::Character("ab".into()), Token::Comment("c".into())]
    )
    .assert_valid());
    assert!(case(
        "ab",
        vec![State::ScriptData, State::Data, State::RCDATA],
        None,
        vec![Token::Character("ab".into()), Token::Eof]
    )
    .assert_valid());
}

#[test]
fn tokens_match_whatever_the_order_of_the_attributes() {
    let tag = |pairs: &[(&str, &str)], self_closing: bool| {
        Token::StartTag(StartTag {
            name: "a".into(),
            attributes: attributes(pairs),
            self_closing,
        })
    };
    assert!(tokens_match(
        &tag(&[("x", "1"), ("y", "2")], false),
        &tag(&[("y", "2"), ("x", "1")], false)
    ));
    assert!(!tokens_match(
        &tag(&[("x", "1"), ("y", "2")], false),
        &tag(&[("y", "2"), ("x", "1")], true)
    ));
    assert!(!tokens_match(
        &tag(&[("x", "1"), ("y", "2")], false),
        &tag(&[("y", "2"), ("z", "1")], false)
    ));
    assert!(tokens_match(&Token::Eof, &Token::Eof));
    assert!(!tokens_match(&Token::Eof, &Token::Comment("".into())));
    assert!(!tokens_match(
        &Token::Character("a".into()),
        &Token::Comment("a".into())
    ));
    let doctype = |name: Option<&str>, correctness: bool| Token::Doctype {
        name: name.map(str::to_owned),
        public_id: None,
        system_id: None,
        correctness,
    };
    assert!(tokens_match(&doctype(Some("a"), true), &doctype(Some("a"), true)));
    assert!(!tokens_match(&doctype(Some("a"), true), &doctype(None, true)));
    assert!(!tokens_match(&doctype(Some("a"), true), &doctype(Some("a"), false)));
}

#[test]
fn a_file_of_cases_is_of_one_of_two_kinds() {
    let file = FixtureFile::JsonFixtures(JsonFixtures {
        tests: vec![case("a", vec![], None, vec![])],
    });
    let FixtureFile::JsonFixtures(JsonFixtures { tests }) = &file else {
        panic!("expected json fixtures");
    };
    assert_eq!(tests.len(), 1);
}
