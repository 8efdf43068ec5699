use rendering::html5::Document;
use rendering::testing::tree_construction::parser::{
    fixture_from_text, make_test, parse_errors, parse_sections, parse_tests, split_lines,
};
use rendering::testing::tree_construction::{
    ParseError, Position, ScriptMode, Test, TestSerialization, TreeConstructionResult,
};
use rendering::types::{AttributeMap, Error};

const FILE: &str = "#data
<p>One<p>Two
#errors
(1,3): expected-doctype-but-got-start-tag
#document
| <html>
|   <head>
|   <body>
|     <p>
|       \"One\"

#data
<tr>a
b
#errors
#new-errors
(1:6) unexpected-character
#document-fragment
table
#script-off
#document
| <tr>
";

fn location(line: usize, col: usize, message: &str) -> ParseError {
    ParseError::Location {
        pos: Position { line, col },
        message: message.into(),
    }
}

#[test]
fn lines_are_split_as_the_standard_library_splits_them() {
    for text in [
        "",
        "a",
        "a\n",
        "a\nb",
        "a\r\nb\r\n",
        "a\rb",
        "a\r",
        "\n",
        "\n\n",
        "\r\n",
        "\r\r\n",
        "a\n\nb\n",
        "é\n€",
        "a\n\r",
    ] {
        let expected: Vec<String> = text.lines().map(str::to_owned).collect();
        assert_eq!(split_lines(text), expected, "{:?}", text);
    }
}

#[test]
fn errors_are_read_in_each_form() {
    assert_eq!(
        ParseError::from_str("(1,3): expected-doctype").unwrap(),
        location(1, 3, "expected-doctype")
    );
    assert_eq!(
        ParseError::from_str(" (4:5) a b").unwrap(),
        location(4, 5, "a b")
    );
    assert_eq!(
        ParseError::from_str("Line: 1 Col: 9 Unexpected end tag (strong).").unwrap(),
        location(1, 9, "Unexpected end tag (strong).")
    );
    assert_eq!(
        ParseError::from_str("Line 12 Col 0 x").unwrap(),
        location(12, 0, "x")
    );
    assert_eq!(
        ParseError::from_str("1:3: Unexpected start tag").unwrap(),
        location(1, 3, "Unexpected start tag")
    );
    assert_eq!(
        ParseError::from_str("12: Unexpected start tag").unwrap(),
        ParseError::Line {
            line: 12,
            message: "Unexpected start tag".into()
        }
    );
    assert_eq!(
        ParseError::from_str("expected-doctype").unwrap(),
        ParseError::Message("expected-doctype".into())
    );
    assert_eq!(
        ParseError::from_str("").unwrap(),
        ParseError::Message("".into())
    );
}

#[test]
fn a_place_that_no_number_can_hold_is_refused() {
    assert!(matches!(
        ParseError::from_str("(99999999999999999999999999,1): x"),
        Err(Error::TreeConstruction(_))
    ));
    assert!(matches!(
        ParseError::from_str("1:99999999999999999999999999: x"),
        Err(Error::TreeConstruction(_))
    ));
    assert!(matches!(
        ParseError::from_str("99999999999999999999999999: x"),
        Err(Error::TreeConstruction(_))
    ));
    assert!(matches!(
        ParseError::from_str("(١,1): x"),
        Err(Error::TreeConstruction(_))
    ));
}

#[test]
fn groups_spell_a_place() {
    let groups =
        |parts: &[&str]| -> Vec<Option<String>> { parts.iter().map(|p| Some(p.to_string())).collect() };
    assert_eq!(
        ParseError::located(&groups(&["(1,2): m", "1", "2", "m"])).unwrap(),
        location(1, 2, "m")
    );
    assert!(ParseError::located(&groups(&["1", "2", "m"])).is_err());
    assert!(ParseError::located(&groups(&["", "1", "x", "m"])).is_err());
    assert!(ParseError::located(&groups(&["", "", "2", "m"])).is_err());
    assert!(ParseError::located(&vec![None, Some("1".into()), Some("2".into()), None]).is_err());
    assert!(ParseError::located(&vec![None, None, Some("2".into()), Some("m".into())]).is_err());
    assert_eq!(
        ParseError::located(&vec![None, Some("1".into()), Some("2".into()), Some("m".into())])
            .unwrap(),
        location(1, 2, "m")
    );
    assert_eq!(
        ParseError::on_line(&groups(&["7: m", "7", "m"])).unwrap(),
        ParseError::Line {
            line: 7,
            message: "m".into()
        }
    );
    assert!(ParseError::on_line(&groups(&["7", "m"])).is_err());
    assert!(ParseError::on_line(&groups(&["", "-7", "m"])).is_err());
    assert!(ParseError::on_line(&vec![None, Some("7".into()), None]).is_err());
}

#[test]
fn the_errors_of_a_section_are_read_line_by_line() {
    assert_eq!(
        parse_errors("(1,3): a\n2: b\nc\n").unwrap(),
        vec![
            location(1, 3, "a"),
            ParseError::Line {
                line: 2,
                message: "b".into()
            },
            ParseError::Message("c".into()),
        ]
    );
    assert_eq!(parse_errors("").unwrap(), vec![]);
    assert!(parse_errors("a\n99999999999999999999999999: x\nb").is_err());
}

fn pairs(map: &AttributeMap) -> Vec<(String, String)> {
    (0..map.len())
        .map(|i| {
            let (name, value) = map.entry(i);
            (name.clone(), value.clone())
        })
        .collect()
}

#[test]
fn a_file_is_read_into_the_sections_of_its_cases() {
    let cases = parse_tests(FILE).unwrap();
    assert_eq!(cases.len(), 2);
    assert_eq!(
        pairs(&cases[0]),
        vec![
            ("data".to_string(), "<p>One<p>Two\n".to_string()),
            (
                "errors".to_string(),
                "(1,3): expected-doctype-but-got-start-tag\n".to_string()
            ),
            (
                "document".to_string(),
                "| <html>\n|   <head>\n|   <body>\n|     <p>\n|       \"One\"\n\n".to_string()
            ),
        ]
    );
    assert_eq!(
        pairs(&cases[1]),
        vec![
            ("data".to_string(), "<tr>a\nb\n".to_string()),
            ("errors".to_string(), "".to_string()),
            (
                "new-errors".to_string(),
                "(1:6) unexpected-character\n".to_string()
            ),
            ("document-fragment".to_string(), "table\n".to_string()),
            ("script-off".to_string(), "".to_string()),
            ("document".to_string(), "| <tr>\n".to_string()),
        ]
    );
}

#[test]
fn text_before_the_first_section_joins_that_section() {
    let cases = parse_tests("x\n#data\ny").unwrap();
    assert_eq!(cases.len(), 1);
    assert_eq!(
        pairs(&cases[0]),
        vec![("data".to_string(), "x\ny\n".to_string())]
    );
    assert_eq!(parse_tests("").unwrap().len(), 0);
    assert_eq!(parse_tests("no section").unwrap().len(), 0);
}

#[test]
fn a_section_named_twice_is_refused() {
    assert!(matches!(
        parse_tests("#data\na\n#errors\n#errors\n"),
        Err(Error::TreeConstruction(_))
    ));
    let lines: Vec<String> = vec!["#data".into(), "#document".into(), "#data".into()];
    assert_eq!(parse_sections(&lines).unwrap().len(), 2);
}

#[test]
fn cases_are_made_of_their_sections() {
    let tests = fixture_from_text("here.dat", FILE).unwrap();
    assert_eq!(tests.path, "here.dat");
    assert_eq!(tests.iter().len(), 2);

    let first = &tests.tests[0];
    assert_eq!(first.data, "<p>One<p>Two");
    assert_eq!(
        first.errors,
        vec![location(1, 3, "expected-doctype-but-got-start-tag")]
    );
    assert_eq!(first.new_errors, vec![]);
    assert_eq!(first.document_fragment, None);
    assert_eq!(first.script_mode, ScriptMode::Both);
    assert_eq!(
        first.document,
        "| <html>\n|   <head>\n|   <body>\n|     <p>\n|       \"One\""
    );

    let second = &tests.tests[1];
    assert_eq!(second.data, "<tr>a\nb");
    assert_eq!(second.errors, vec![]);
    assert_eq!(
        second.new_errors,
        vec![location(1, 6, "unexpected-character")]
    );
    assert_eq!(second.document_fragment, Some("table".to_string()));
    assert_eq!(second.script_mode, ScriptMode::ScriptOff);
    assert_eq!(second.document, "| <tr>");
}

#[test]
fn a_case_needs_data_and_a_document() {
    let mut sections = AttributeMap::new();
    sections.insert("data".into(), "x\n".into());
    assert!(matches!(
        make_test(&sections),
        Err(Error::TreeConstruction(_))
    ));
    sections.insert("script-on".into(), "".into());
    sections.insert("document".into(), "d\n\n\n".into());
    let test = make_test(&sections).unwrap();
    assert_eq!(test.data, "x");
    assert_eq!(test.document, "d");
    assert_eq!(test.script_mode, ScriptMode::ScriptOn);

    let mut sections = AttributeMap::new();
    sections.insert("document".into(), "d".into());
    assert!(make_test(&sections).is_err());
    assert!(fixture_from_text("p", "#data\nx\n").is_err());
}

struct Echo {
    text: String,
}

impl<'i> Document<'i, Echo> for Echo {
    fn parse_document(data: &'i str, scripting_enabled: bool) -> Result<Echo, Error> {
        if data == "fail" {
            return Err(Error::General("no".into()));
        }
        Ok(Echo {
            text: format!("{data}|{scripting_enabled}"),
        })
    }
}

struct InContext {
    text: String,
}

impl<'i> Document<'i, InContext> for InContext {
    fn parse_document(data: &'i str, scripting_enabled: bool) -> Result<InContext, Error> {
        Ok(InContext {
            text: format!("{data}|{scripting_enabled}"),
        })
    }

    fn parse_fragment(
        data: &'i str,
        scripting_enabled: bool,
        context: &'i str,
    ) -> Result<InContext, Error> {
        Ok(InContext {
            text: format!("{data}|{scripting_enabled}|{context}"),
        })
    }
}

impl TestSerialization for Echo {
    fn serialize(&mut self) -> String {
        self.text.clone()
    }
}

fn test(data: &str, fragment: Option<&str>, script_mode: ScriptMode) -> Test {
    Test {
        data: data.into(),
        errors: vec![],
        new_errors: vec![],
        document_fragment: fragment.map(str::to_owned),
        script_mode,
        document: "expected".into(),
    }
}

#[test]
fn a_case_is_run_in_each_script_mode_that_it_is_meant_for() {
    let case = test("x", None, ScriptMode::Both);
    let mut results = case.results::<Echo>().unwrap();
    assert_eq!(results.len(), 2);
    assert_eq!(
        results[0].run(),
        ("x|true".to_string(), "expected".to_string())
    );
    assert_eq!(
        results[1].run(),
        ("x|false".to_string(), "expected".to_string())
    );

    let case = test("x", None, ScriptMode::ScriptOn);
    let results = case.results::<Echo>().unwrap();
    assert_eq!(results.len(), 1);
    assert_eq!(results[0].dom.text, "x|true");

    let case = test("x", None, ScriptMode::ScriptOff);
    let results = case.results::<Echo>().unwrap();
    assert_eq!(results.len(), 1);
    assert_eq!(results[0].dom.text, "x|false");

    let case = test("fail", None, ScriptMode::Both);
    assert!(matches!(case.results::<Echo>(), Err(Error::General(_))));
}

#[test]
fn a_fragment_is_parsed_in_its_context() {
    let case = test("x", Some("td"), ScriptMode::Both);
    let result: TreeConstructionResult<InContext> = case.parse(true).unwrap();
    assert_eq!(result.dom.text, "x|true|td");
    assert_eq!(result.test.document, "expected");

    let case = test("x", None, ScriptMode::Both);
    let result: TreeConstructionResult<InContext> = case.parse(false).unwrap();
    assert_eq!(result.dom.text, "x|false");

    let case = test("x", Some("td"), ScriptMode::Both);
    let result: TreeConstructionResult<Echo> = case.parse(false).unwrap();
    assert_eq!(result.dom.text, "x|false");
}
