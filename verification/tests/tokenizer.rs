use rendering::html5::tokenizer::{
    NextChar, StartTag, State, Token, TokenError, TokenIterator, TokenResult, Tokenizer,
};
use rendering::types::AttributeMap;

fn iter(i: &str, state: State) -> TokenIterator {
    Tokenizer::from_str(i, state, None).iter()
}

fn collect(mut it: TokenIterator) -> Vec<TokenResult> {
    let mut out = vec![];
    while let Some(r) = it.next() {
        out.push(r);
        assert!(out.len() < 10_000);
    }
    out
}

fn error(code: &str, line: usize, col: usize) -> TokenError {
    TokenError {
        code: code.into(),
        line,
        col,
    }
}

#[test]
fn good() {
    let mut iter = iter("<!DOCTYPE html ", State::Data);
    let TokenResult::Emitted { token, errors } = iter.next().unwrap() else {
        panic!()
    };

    assert!(matches!(
        iter.next(),
        Some(TokenResult::Emitted {
            token: Token::Eof,
            ..
        }),
    ));

    assert!(iter.next().is_none());

    assert_eq!(
        token,
        Token::Doctype {
            name: Some("html".into()),
            public_id: None,
            system_id: None,
            correctness: false,
        }
    );

    assert!(!errors.is_empty());
    let error = &errors[0];

    assert_eq!(
        error,
        &TokenError {
            code: "eof-in-doctype".into(),
            line: 1,
            col: 16,
        }
    );
}

#[test]
fn empty_end_tag() {
    let mut iter = iter("</>", State::Data);
    let result = iter.next().unwrap();
    let TokenResult::Emitted { token, errors } = result else {
        panic!("result: {:?}", result);
    };

    assert_eq!(token, Token::Eof);

    let error = &errors[0];

    assert_eq!(
        error,
        &TokenError {
            code: "missing-end-tag-name".into(),
            line: 1,
            col: 3,
        }
    );
}

#[test]
fn empty_start_tag() {
    let mut iter = iter("<>", State::Data);
    let result = iter.next().unwrap();

    let TokenResult::Emitted { token, errors } = result else {
        panic!("result: {:?}", result);
    };

    if let Token::Character(string) = token {
        assert_eq!(string, "<>");
    } else {
        panic!("{:?}", token);
    };

    let error = &errors[0];

    assert_eq!(
        error,
        &TokenError {
            code: "invalid-first-character-of-tag-name".into(),
            line: 1,
            col: 2,
        }
    );
}

#[test]
fn empty_end_tag_is_the_only_result() {
    let results = collect(iter("</>", State::Data));
    assert_eq!(
        results,
        vec![TokenResult::Emitted {
            token: Token::Eof,
            errors: vec![error("missing-end-tag-name", 1, 3)],
        }]
    );
}

#[test]
fn duplicate_attribute_keeps_the_first_value() {
    let results = collect(iter("<a x=\"1\" x=\"2\">", State::Data));
    let mut attributes = AttributeMap::new();
    assert!(attributes.insert("x".into(), "1".into()));
    assert_eq!(
        results[0],
        TokenResult::Emitted {
            token: Token::StartTag(StartTag {
                name: "a".into(),
                attributes,
                self_closing: false,
            }),
            errors: vec![error("duplicate-attribute", 1, 15)],
        }
    );
    assert_eq!(results.len(), 2);
}

#[test]
fn script_end_tag_after_script_start_tag() {
    let last = StartTag::from(&"script".to_string());
    let it = Tokenizer::from_str("a</script>", State::ScriptData, Some(last)).iter();
    let results = collect(it);
    assert_eq!(
        results,
        vec![
            TokenResult::Emitted {
                token: Token::Character("a".into()),
                errors: vec![],
            },
            TokenResult::Emitted {
                token: Token::EndTag("script".into()),
                errors: vec![],
            },
            TokenResult::Emitted {
                token: Token::Eof,
                errors: vec![],
            },
        ]
    );
}

#[test]
fn script_end_tag_without_start_tag_is_text() {
    let results = collect(iter("a</script>", State::ScriptData));
    assert_eq!(
        results,
        vec![
            TokenResult::Emitted {
                token: Token::Character("a</script>".into()),
                errors: vec![],
            },
            TokenResult::Emitted {
                token: Token::Eof,
                errors: vec![],
            },
        ]
    );
}

fn emitted(token: Token, errors: Vec<TokenError>) -> TokenResult {
    TokenResult::Emitted { token, errors }
}

fn text(s: &str) -> Token {
    Token::Character(s.into())
}

#[test]
fn truncated_doctype_is_flagged() {
    let results = collect(iter("<!DOCTYPE html ", State::Data));
    assert_eq!(
        results,
        vec![
            emitted(
                Token::Doctype {
                    name: Some("html".into()),
                    public_id: None,
                    system_id: None,
                    correctness: false,
                },
                vec![error("eof-in-doctype", 1, 16)],
            ),
            emitted(Token::Eof, vec![]),
        ]
    );
}

#[test]
fn doctype_name_is_lower_cased() {
    let results = collect(iter("<!doctype HtMl>", State::Data));
    assert_eq!(
        results,
        vec![
            emitted(
                Token::Doctype {
                    name: Some("html".into()),
                    public_id: None,
                    system_id: None,
                    correctness: true,
                },
                vec![],
            ),
            emitted(Token::Eof, vec![]),
        ]
    );
}

#[test]
fn ascii_blanks_may_stand_around_a_doctype_name() {
    let results = collect(iter("<!DOCTYPE\t \n\rX\n >a", State::Data));
    assert_eq!(
        results,
        vec![
            emitted(
                Token::Doctype {
                    name: Some("x".into()),
                    public_id: None,
                    system_id: None,
                    correctness: true,
                },
                vec![],
            ),
            emitted(text("a"), vec![]),
            emitted(Token::Eof, vec![]),
        ]
    );
    let results = collect(iter("<!DOCTYPE x PUBLIC>", State::Data));
    assert_eq!(
        results,
        vec![TokenResult::Errors(vec![error(
            "unimplemented-transition",
            1,
            13
        )])]
    );
    let results = collect(iter("<!DOCTYPE\t \n\rx>", State::Data));
    assert_eq!(
        results[0],
        emitted(
            Token::Doctype {
                name: Some("x".into()),
                public_id: None,
                system_id: None,
                correctness: true,
            },
            vec![],
        ),
    );
    let results = collect(iter("<!DOCTYPE \u{a0}x>", State::Data));
    assert_eq!(
        results[0],
        emitted(
            Token::Doctype {
                name: Some("\u{a0}x".into()),
                public_id: None,
                system_id: None,
                correctness: true,
            },
            vec![],
        ),
    );
}

#[test]
fn invalid_tag_open_is_text() {
    let results = collect(iter("<>", State::Data));
    assert_eq!(
        results,
        vec![
            emitted(
                text("<>"),
                vec![error("invalid-first-character-of-tag-name", 1, 2)]
            ),
            emitted(Token::Eof, vec![]),
        ]
    );
}

#[test]
fn empty_input_gives_the_end_alone() {
    let results = collect(iter("", State::Data));
    assert_eq!(results, vec![emitted(Token::Eof, vec![])]);
}

#[test]
fn text_comes_out_as_one_token() {
    let results = collect(iter("abc", State::ScriptData));
    assert_eq!(
        results,
        vec![emitted(text("abc"), vec![]), emitted(Token::Eof, vec![])]
    );
}

#[test]
fn text_around_a_tentative_end_tag_is_one_token() {
    let results = collect(iter("a</b>c</d", State::ScriptData));
    assert_eq!(
        results,
        vec![
            emitted(text("a</b>c</d"), vec![]),
            emitted(Token::Eof, vec![])
        ]
    );
    for pair in results.windows(2) {
        let both = matches!(
            pair,
            [
                TokenResult::Emitted {
                    token: Token::Character(_),
                    ..
                },
                TokenResult::Emitted {
                    token: Token::Character(_),
                    ..
                }
            ]
        );
        assert!(!both);
    }
}

#[test]
fn script_escapes_are_text() {
    let results = collect(iter("<!--x-->y<z", State::ScriptData));
    assert_eq!(
        results,
        vec![
            emitted(text("<!--x-->y<z"), vec![]),
            emitted(Token::Eof, vec![])
        ]
    );
}

#[test]
fn start_tag_with_attributes() {
    let results = collect(iter("<A Href=x Id='y' >", State::Data));
    let mut attributes = AttributeMap::new();
    attributes.insert("href".into(), "x".into());
    attributes.insert("id".into(), "y".into());
    assert_eq!(
        results,
        vec![
            emitted(
                Token::StartTag(StartTag {
                    name: "a".into(),
                    attributes,
                    self_closing: false,
                }),
                vec![],
            ),
            emitted(Token::Eof, vec![]),
        ]
    );
}

#[test]
fn self_closing_start_tag() {
    let results = collect(iter("<br />", State::Data));
    assert_eq!(
        results,
        vec![
            emitted(
                Token::StartTag(StartTag {
                    name: "br".into(),
                    attributes: AttributeMap::new(),
                    self_closing: true,
                }),
                vec![],
            ),
            emitted(Token::Eof, vec![]),
        ]
    );
}

#[test]
fn end_tag_with_attributes_is_an_error() {
    let results = collect(iter("</a x>", State::Data));
    assert_eq!(
        results,
        vec![
            emitted(
                Token::EndTag("a".into()),
                vec![error("end-tag-with-attributes", 1, 6)]
            ),
            emitted(Token::Eof, vec![]),
        ]
    );
}

#[test]
fn a_self_closing_end_tag_is_an_error() {
    for input in ["</a />", "</a/  >".trim_end_matches("  >"), "</A x='1'/>"] {
        let results = collect(iter(input, State::Data));
        assert_eq!(results.len(), 2, "{input}");
    }
    let results = collect(iter("</a />", State::Data));
    assert_eq!(
        results,
        vec![
            emitted(
                Token::EndTag("a".into()),
                vec![error("end-tag-with-trailing-solidus", 1, 6)]
            ),
            emitted(Token::Eof, vec![]),
        ]
    );
    let results = collect(iter("<br/>", State::Data));
    assert_eq!(
        results,
        vec![
            emitted(
                Token::StartTag(StartTag {
                    name: "br".into(),
                    attributes: AttributeMap::new(),
                    self_closing: true,
                }),
                vec![],
            ),
            emitted(Token::Eof, vec![]),
        ]
    );
}

#[test]
fn errors_come_in_the_order_of_their_columns() {
    let results = collect(iter("ab</>c<a x x y y><>", State::Data));
    let mut cols = vec![];
    for r in &results {
        let errors = match r {
            TokenResult::Emitted { errors, .. } => errors,
            TokenResult::Errors(errors) => errors,
        };
        for e in errors {
            assert_eq!(e.line, 1);
            cols.push(e.col);
        }
    }
    assert_eq!(cols, vec![5, 14, 17, 19]);
    let mut sorted = cols.clone();
    sorted.sort();
    assert_eq!(cols, sorted);
}

#[test]
fn plain_text_has_no_errors() {
    let results = collect(iter("a b\nc", State::Data));
    assert_eq!(
        results,
        vec![emitted(text("a b\nc"), vec![]), emitted(Token::Eof, vec![])]
    );
}

#[test]
fn a_line_feed_moves_the_line_and_not_the_column() {
    let results = collect(iter("a\n<>\n</>", State::Data));
    assert_eq!(
        results,
        vec![
            emitted(
                text("a\n<>\n"),
                vec![
                    error("invalid-first-character-of-tag-name", 2, 3),
                    error("missing-end-tag-name", 3, 6),
                ]
            ),
            emitted(Token::Eof, vec![]),
        ]
    );
}

#[test]
fn the_column_moves_once_for_a_character_that_is_fed_twice() {
    let results = collect(iter("<>x<>", State::Data));
    assert_eq!(
        results,
        vec![
            emitted(
                text("<>x<>"),
                vec![
                    error("invalid-first-character-of-tag-name", 1, 2),
                    error("invalid-first-character-of-tag-name", 1, 5),
                ]
            ),
            emitted(Token::Eof, vec![]),
        ]
    );
}

#[test]
fn a_less_than_sign_at_the_end_is_text() {
    let results = collect(iter("a<", State::Data));
    assert_eq!(
        results,
        vec![
            emitted(
                text("a<"),
                vec![error("invalid-first-character-of-tag-name", 1, 3)]
            ),
            emitted(Token::Eof, vec![]),
        ]
    );
}

#[test]
fn tags_are_lower_cased_and_end_tags_have_names() {
    let results = collect(iter("<DiV></DIV></p>", State::Data));
    assert_eq!(
        results,
        vec![
            emitted(
                Token::StartTag(StartTag {
                    name: "div".into(),
                    attributes: AttributeMap::new(),
                    self_closing: false,
                }),
                vec![]
            ),
            emitted(Token::EndTag("div".into()), vec![]),
            emitted(Token::EndTag("p".into()), vec![]),
            emitted(Token::Eof, vec![]),
        ]
    );
    let last = StartTag::from(&"script".to_string());
    let it = Tokenizer::from_str("</SCRIPT>", State::ScriptData, Some(last)).iter();
    assert_eq!(
        collect(it),
        vec![
            emitted(Token::EndTag("script".into()), vec![]),
            emitted(Token::Eof, vec![]),
        ]
    );
    let results = collect(iter("x</Sc>", State::ScriptData));
    assert_eq!(
        results,
        vec![emitted(text("x</Sc>"), vec![]), emitted(Token::Eof, vec![])]
    );
}


#[test]
fn an_undefined_transition_ends_the_sequence() {
    let mut it = iter("x<a b=\"&\">y", State::Data);
    assert_eq!(it.next(), Some(emitted(text("x"), vec![])));
    assert_eq!(
        it.next(),
        Some(TokenResult::Errors(vec![error(
            "unimplemented-transition",
            1,
            8
        )]))
    );
    assert_eq!(it.next(), None);
    assert_eq!(it.next(), None);
    assert!(it.halted);
}

#[test]
fn pending_text_is_kept_where_the_sequence_is_cut_short() {
    let results = collect(iter("<>a<!-- x -->", State::Data));
    assert_eq!(
        results,
        vec![
            emitted(
                text("<>a"),
                vec![error("invalid-first-character-of-tag-name", 1, 2)]
            ),
            TokenResult::Errors(vec![error("unimplemented-transition", 1, 8)]),
        ]
    );
}

#[test]
fn markup_that_opens_nothing_is_reported() {
    for (input, col) in [("<!", 3), ("<!x", 3), ("<!-", 4), ("<!doc type", 6)] {
        let results = collect(iter(input, State::Data));
        assert_eq!(
            results,
            vec![TokenResult::Errors(vec![
                error("incorrectly-opened-comment", 1, col),
                error("unimplemented-transition", 1, col),
            ])],
            "{input}"
        );
    }
    for (input, col) in [("</", 3), ("</1", 3), ("a</ b", 4)] {
        let results = collect(iter(input, State::Data));
        assert_eq!(
            results.last(),
            Some(&TokenResult::Errors(vec![error(
                "unimplemented-transition",
                1,
                col
            )])),
            "{input}"
        );
    }
}

#[test]
fn a_doctype_after_text_is_recognised() {
    let results = collect(iter("a<!DOCTYPE b>c", State::Data));
    assert_eq!(
        results,
        vec![
            emitted(text("a"), vec![]),
            emitted(
                Token::Doctype {
                    name: Some("b".into()),
                    public_id: None,
                    system_id: None,
                    correctness: true,
                },
                vec![],
            ),
            emitted(text("c"), vec![]),
            emitted(Token::Eof, vec![]),
        ]
    );
}

#[test]
fn the_end_comes_once_and_last() {
    for state in [State::Data, State::ScriptData, State::TagName, State::AttributeName] {
        for input in ["", "a", "<a b", "</a", "<a/", "a</b", "<!doctype x", "<a b='c"] {
            let results = collect(iter(input, state));
            let ends: Vec<bool> = results
                .iter()
                .map(|r| {
                    matches!(
                        r,
                        TokenResult::Errors(_)
                            | TokenResult::Emitted {
                                token: Token::Eof,
                                ..
                            }
                    )
                })
                .collect();
            assert_eq!(ends.iter().filter(|e| **e).count(), 1, "{input} {state:?}");
            assert_eq!(ends.last(), Some(&true), "{input} {state:?}");
        }
    }
}


#[test]
fn attributes_without_values() {
    let results = collect(iter("<a x y =z w >", State::Data));
    let mut attributes = AttributeMap::new();
    attributes.insert("x".into(), "".into());
    attributes.insert("y".into(), "z".into());
    attributes.insert("w".into(), "".into());
    assert_eq!(
        results,
        vec![
            emitted(
                Token::StartTag(StartTag {
                    name: "a".into(),
                    attributes,
                    self_closing: false,
                }),
                vec![],
            ),
            emitted(Token::Eof, vec![]),
        ]
    );
}

#[test]
fn a_character_reference_in_a_quoted_value_is_not_supported() {
    let results = collect(iter("<a x=\"&amp;\">", State::Data));
    assert_eq!(
        results,
        vec![TokenResult::Errors(vec![error(
            "unimplemented-transition",
            1,
            7
        )])]
    );
}

#[test]
fn a_comment_is_not_supported() {
    let results = collect(iter("<!-- x -->", State::Data));
    assert_eq!(
        results,
        vec![TokenResult::Errors(vec![error(
            "unimplemented-transition",
            1,
            5
        )])]
    );
    let results = collect(iter("a", State::CommentStart));
    assert_eq!(
        results,
        vec![TokenResult::Errors(vec![error(
            "unimplemented-transition",
            1,
            1
        )])]
    );
}

#[test]
fn full_position_counters_end_the_sequence() {
    let mut it = iter("ab", State::ScriptData);
    it.builder.col = usize::MAX;
    assert_eq!(
        it.next(),
        Some(TokenResult::Errors(vec![error(
            "position-overflow",
            1,
            usize::MAX
        )]))
    );
    assert_eq!(it.next(), None);

    let mut it = iter("a\nb", State::ScriptData);
    it.builder.line = usize::MAX;
    assert_eq!(it.next(), Some(emitted(text("a"), vec![])));
    assert_eq!(
        it.next(),
        Some(TokenResult::Errors(vec![error(
            "position-overflow",
            usize::MAX,
            1
        )]))
    );
}

#[test]
fn text_beyond_ascii_is_decoded() {
    let results = collect(iter("é€😀", State::ScriptData));
    assert_eq!(
        results,
        vec![emitted(text("é€😀"), vec![]), emitted(Token::Eof, vec![])]
    );
}

#[test]
fn long_text_is_decoded_window_by_window() {
    for lead in 0..5 {
        let mut input = "a".repeat(lead);
        for _ in 0..3000 {
            input.push_str("é€😀x");
        }
        let results = collect(iter(&input, State::ScriptData));
        assert_eq!(
            results,
            vec![emitted(text(&input), vec![]), emitted(Token::Eof, vec![])]
        );
    }
}

#[test]
fn collect_gives_what_pulling_gives() {
    let input = "<a b='c'>d</e><!DOCTYPE f>";
    let pulled = collect(iter(input, State::Data));
    let collected = iter(input, State::Data).collect();
    assert_eq!(pulled, collected);
    assert_eq!(pulled.len(), 5);
}

#[test]
fn feed_reports_a_ready_token() {
    let mut it = iter("", State::Data);
    assert!(!it.feed(NextChar::Ch('<')));
    assert!(!it.feed(NextChar::Ch('p')));
    assert!(it.feed(NextChar::Ch('>')));
    assert_eq!(it.state, State::Data);
    assert_eq!(it.builder.results.len(), 1);
    assert_eq!(it.builder.col, 3);
}

#[test]
fn bytes_are_decoded_as_utf8() {
    let it = Tokenizer::from_bytes("aé€".as_bytes(), State::ScriptData, None)
        .unwrap()
        .iter();
    assert_eq!(
        collect(it),
        vec![emitted(text("aé€"), vec![]), emitted(Token::Eof, vec![])]
    );
    let it = Tokenizer::from_bytes(b"", State::Data, None).unwrap().iter();
    assert_eq!(collect(it), vec![emitted(Token::Eof, vec![])]);
}

#[test]
fn malformed_bytes_are_refused() {
    for bytes in [
        &b"a\xffb"[..],
        &b"\xc3"[..],
        &b"\x80"[..],
        &b"\xed\xa0\x80"[..],
        &b"\xc0\xaf"[..],
        &b"\xf4\x90\x80\x80"[..],
    ] {
        assert!(matches!(
            Tokenizer::from_bytes(bytes, State::Data, None),
            Err(rendering::types::Error::Utf8Error(_))
        ));
        assert_eq!(std::str::from_utf8(bytes).is_ok(), false);
    }
}

#[test]
fn a_doctype_without_a_name_is_flagged() {
    for input in ["<!DOCTYPE>", "<!doctype >"] {
        let results = collect(iter(input, State::Data));
        assert_eq!(
            results,
            vec![
                emitted(
                    Token::Doctype {
                        name: None,
                        public_id: None,
                        system_id: None,
                        correctness: false,
                    },
                    vec![error("missing-doctype-name", 1, input.len())],
                ),
                emitted(Token::Eof, vec![]),
            ],
            "{input}"
        );
    }
    let results = collect(iter("<!DOCTYPEx>", State::Data));
    assert_eq!(
        results,
        vec![TokenResult::Errors(vec![error(
            "unimplemented-transition",
            1,
            10
        )])]
    );
}

#[test]
fn blanks_may_stand_before_an_attribute_value() {
    let results = collect(iter("<a x= \ty z = 'w'>", State::Data));
    let mut attributes = AttributeMap::new();
    attributes.insert("x".into(), "y".into());
    attributes.insert("z".into(), "w".into());
    assert_eq!(
        results[0],
        emitted(
            Token::StartTag(StartTag {
                name: "a".into(),
                attributes,
                self_closing: false,
            }),
            vec![],
        )
    );
}

#[test]
fn a_missing_attribute_value_is_an_error() {
    let results = collect(iter("<a x=>b", State::Data));
    let mut attributes = AttributeMap::new();
    attributes.insert("x".into(), "".into());
    assert_eq!(
        results,
        vec![
            emitted(
                Token::StartTag(StartTag {
                    name: "a".into(),
                    attributes,
                    self_closing: false,
                }),
                vec![error("missing-attribute-value", 1, 6)],
            ),
            emitted(text("b"), vec![]),
            emitted(Token::Eof, vec![]),
        ]
    );
}
