use rendering::html5::tokenizer::builder::Builder;
use rendering::html5::tokenizer::source::CharSource;
use rendering::html5::tokenizer::state::UnimplementedTransition;
use rendering::html5::tokenizer::{NextChar, StartTag, State, Token, TokenError, TokenResult};
use rendering::types::AttributeMap;

fn start_tag(name: &str) -> Token {
    Token::StartTag(StartTag {
        name: name.into(),
        attributes: AttributeMap::new(),
        self_closing: false,
    })
}

fn error(code: &str, line: usize, col: usize) -> TokenError {
    TokenError {
        code: code.into(),
        line,
        col,
    }
}

fn queued(b: &Builder) -> Vec<&TokenResult> {
    b.results.iter().collect()
}

#[test]
fn a_new_builder_is_empty_at_line_one() {
    let b = Builder::new();
    assert_eq!(b.line, 1);
    assert_eq!(b.col, 0);
    assert_eq!(b.token, None);
    assert!(b.results.is_empty());
    assert!(b.errors.is_empty());
    assert!(!b.emit_token);
    assert!(!b.reconsume_char);
    assert_eq!(b.buf, "");
    assert_eq!(b.last_start_tag, None);
}

#[test]
fn characters_join_pending_text() {
    let mut b = Builder::new();
    b.push_char('a');
    b.push_str("bc");
    b.push_token(Token::Character("d".into()));
    b.push_char('e');
    assert_eq!(b.token, Some(Token::Character("abcde".into())));
    assert!(b.results.is_empty());
}

#[test]
fn another_token_finishes_the_pending_one() {
    let mut b = Builder::new();
    b.push_char('a');
    b.add_error("first");
    b.push_token(start_tag("p"));
    assert_eq!(b.token, Some(start_tag("p")));
    assert_eq!(
        queued(&b),
        vec![&TokenResult::Emitted {
            token: Token::Character("a".into()),
            errors: vec![error("first", 1, 0)],
        }]
    );
    assert!(b.errors.is_empty());
    assert_eq!(b.last_start_tag, None);

    b.push_char('x');
    assert_eq!(b.token, Some(Token::Character("x".into())));
    assert_eq!(b.results.len(), 2);
    assert_eq!(b.last_start_tag, Some("p".to_string()));
    assert!(!b.emit_token);
}

#[test]
fn errors_are_recorded_at_the_current_position() {
    let mut b = Builder::new();
    b.next_char(NextChar::Ch('a'));
    b.next_char(NextChar::Ch('\n'));
    b.next_char(NextChar::Eof);
    b.next_char(NextChar::Stop);
    b.add_error("here");
    assert_eq!(b.errors, vec![error("here", 2, 3)]);
    b.reconsume_char();
    assert!(b.reconsume_char);
    b.next_char(NextChar::Ch('b'));
    assert!(!b.reconsume_char);
    assert_eq!((b.line, b.col), (2, 3));
    b.next_char(NextChar::Ch('b'));
    assert_eq!((b.line, b.col), (2, 4));
}

#[test]
fn the_first_value_of_an_attribute_stays() {
    let mut b = Builder::new();
    b.push_token(start_tag("a"));
    b.add_to_attribute_name('x');
    b.add_to_attribute_value('1');
    b.finalize_attribute();
    assert_eq!(b.attribute_name, "");
    assert_eq!(b.attribute_value, "");
    b.add_to_attribute_name('x');
    b.add_to_attribute_value('2');
    b.finalize_attribute();
    b.finalize_attribute();
    let Some(Token::StartTag(tag)) = &b.token else {
        panic!()
    };
    assert_eq!(tag.attributes.len(), 1);
    assert_eq!(tag.attributes.get(&"x".to_string()), Some(&"1".to_string()));
    assert_eq!(b.errors, vec![error("duplicate-attribute", 1, 0)]);
}

#[test]
fn an_attribute_on_an_end_tag_is_an_error() {
    let mut b = Builder::new();
    b.push_token(Token::EndTag("a".into()));
    b.add_to_attribute_name('x');
    b.finalize_attribute();
    assert_eq!(b.token, Some(Token::EndTag("a".into())));
    assert_eq!(b.errors, vec![error("end-tag-with-attributes", 1, 0)]);

    let mut b = Builder::new();
    b.add_to_attribute_value('v');
    b.finalize_attribute();
    assert_eq!(b.attribute_value, "v");
    b.add_to_attribute_name('x');
    b.finalize_attribute();
    assert_eq!(b.attribute_value, "");
    assert!(b.errors.is_empty());
}

#[test]
fn emitting_finishes_the_token_and_raises_the_flag() {
    let mut b = Builder::new();
    b.push_token(start_tag("a"));
    b.add_to_attribute_name('x');
    b.emit_token();
    assert!(b.emit_token);
    assert_eq!(b.token, None);
    let mut attributes = AttributeMap::new();
    attributes.insert("x".into(), "".into());
    assert_eq!(
        queued(&b),
        vec![&TokenResult::Emitted {
            token: Token::StartTag(StartTag {
                name: "a".into(),
                attributes,
                self_closing: false,
            }),
            errors: vec![],
        }]
    );
    assert_eq!(b.last_start_tag, Some("a".to_string()));
}

#[test]
fn flushing_resets_what_belongs_to_one_character() {
    let mut b = Builder::new();
    b.push_buf(NextChar::Ch('<'));
    b.push_buf(NextChar::Eof);
    b.push_buf(NextChar::Stop);
    assert_eq!(b.buf, "<");
    b.push_char('a');
    b.reconsume_char();
    b.emit_token = true;
    b.flush();
    assert_eq!(b.buf, "");
    assert!(!b.emit_token);
    assert!(!b.reconsume_char);
    assert_eq!(b.token, None);
    assert_eq!(b.results.len(), 1);
    b.flush();
    assert_eq!(b.results.len(), 1);
}

#[test]
fn rewinding_takes_the_newest_result_back() {
    let mut b = Builder::new();
    b.push_char('a');
    b.add_error("kept");
    b.push_token(Token::EndTag("b".into()));
    b.add_error("dropped");
    b.discard_and_rewind();
    assert_eq!(b.token, Some(Token::Character("a".into())));
    assert_eq!(b.errors, vec![error("kept", 1, 0)]);
    assert!(b.results.is_empty());

    b.discard_and_rewind();
    assert_eq!(b.token, None);
    assert_eq!(b.errors, vec![error("kept", 1, 0)]);

    let mut b = Builder::new();
    b.results.push_back(TokenResult::Errors(vec![]));
    b.push_char('a');
    b.discard_and_rewind();
    assert_eq!(b.token, None);
    assert!(b.results.is_empty());
}

#[test]
fn an_end_tag_is_appropriate_after_its_start_tag() {
    let mut b = Builder::new();
    assert!(!b.appropriate_end_tag());
    b.push_token(Token::EndTag("a".into()));
    assert!(!b.appropriate_end_tag());
    b.last_start_tag = Some("a".into());
    assert!(b.appropriate_end_tag());
    b.last_start_tag = Some("A".into());
    assert!(!b.appropriate_end_tag());
    b.token = Some(start_tag("A"));
    assert!(!b.appropriate_end_tag());
}

#[test]
fn a_transition_buffers_its_character() {
    let mut b = Builder::new();
    assert!(State::Data.handles(NextChar::Ch('<'), &b));
    assert_eq!(State::Data.next_char(NextChar::Ch('<'), &mut b).unwrap(), State::TagOpen);
    assert_eq!(State::TagOpen.next_char(NextChar::Ch('!'), &mut b).unwrap(), State::MarkupDeclarationOpen);
    let mut state = State::MarkupDeclarationOpen;
    for c in "DocType".chars() {
        assert_eq!(state, State::MarkupDeclarationOpen);
        state = state.next_char(NextChar::Ch(c), &mut b).unwrap();
    }
    assert_eq!(state, State::DOCTYPE);
    assert_eq!(b.buf, "DocType");
    assert!(!State::DOCTYPE.handles(NextChar::Ch('x'), &b));
    assert!(!State::DOCTYPE.handles(NextChar::Eof, &b));
    assert!(State::DOCTYPE.handles(NextChar::Ch(' '), &b));
    assert!(State::DOCTYPE.handles(NextChar::Ch('\n'), &b));
}

#[test]
fn markup_declaration_open_looks_for_a_comment() {
    let mut b = Builder::new();
    let mut state = State::Data;
    for c in "<!-".chars() {
        state = state.next_char(NextChar::Ch(c), &mut b).unwrap();
    }
    assert_eq!(state, State::MarkupDeclarationOpen);
    let state = state.next_char(NextChar::Ch('-'), &mut b).unwrap();
    assert_eq!(state, State::CommentStart);
    assert!(!state.handles(NextChar::Ch('x'), &b));

    let mut b = Builder::new();
    let state = State::MarkupDeclarationOpen.next_char(NextChar::Ch('-'), &mut b).unwrap();
    assert_eq!(state, State::MarkupDeclarationOpen);
    let state = state.next_char(NextChar::Ch('-'), &mut b).unwrap();
    assert_eq!(state, State::CommentStart);
}

#[test]
fn markup_that_is_neither_comment_nor_doctype_is_an_error() {
    for text in ["x", "-x", "dx", "doctypo", "DOCTYP "] {
        let mut b = Builder::new();
        b.push_char('t');
        let mut state = State::Data;
        for c in "<!".chars().chain(text.chars()) {
            assert!(b.errors.is_empty());
            assert!(!b.reconsume_char);
            state = state.next_char(NextChar::Ch(c), &mut b).unwrap();
        }
        assert_eq!(state, State::BogusComment, "{text}");
        assert!(b.reconsume_char);
        assert_eq!(b.errors, vec![error("incorrectly-opened-comment", 1, 0)]);
    }
    let mut b = Builder::new();
    let state = State::MarkupDeclarationOpen.next_char(NextChar::Eof, &mut b).unwrap();
    assert_eq!(state, State::BogusComment);
    assert!(b.reconsume_char);
    assert_eq!(b.errors, vec![error("incorrectly-opened-comment", 1, 0)]);
}

#[test]
fn plain_text_is_no_error() {
    let mut b = Builder::new();
    let state = State::Data.next_char(NextChar::Ch('a'), &mut b).unwrap();
    assert_eq!(state, State::Data);
    assert_eq!(b.token, Some(Token::Character("a".into())));
    assert!(b.results.is_empty());
    assert!(b.errors.is_empty());
}

#[test]
fn tag_names_are_lower_cased() {
    let mut b = Builder::new();
    b.push_token(start_tag("a"));
    assert_eq!(State::TagName.next_char(NextChar::Ch('B'), &mut b), Ok(State::TagName));
    assert_eq!(b.token, Some(start_tag("ab")));

    let mut b = Builder::new();
    b.push_token(Token::EndTag("a".into()));
    assert_eq!(State::TagName.next_char(NextChar::Ch('b'), &mut b), Ok(State::TagName));
    assert_eq!(State::TagName.next_char(NextChar::Ch('C'), &mut b), Ok(State::TagName));
    assert_eq!(b.token, Some(Token::EndTag("abc".into())));
    assert!(b.results.is_empty());

    let mut b = Builder::new();
    assert_eq!(State::EndTagOpen.next_char(NextChar::Ch('P'), &mut b), Ok(State::TagName));
    assert_eq!(b.token, Some(Token::EndTag("p".into())));

    let mut b = Builder::new();
    let state = State::ScriptDataEndTagOpen.next_char(NextChar::Ch('S'), &mut b).unwrap();
    assert_eq!(state, State::ScriptDataEndTagName);
    assert_eq!(state.next_char(NextChar::Ch('C'), &mut b), Ok(State::ScriptDataEndTagName));
    assert_eq!(b.token, Some(Token::EndTag("sc".into())));
    assert_eq!(b.buf, "SC");
}

#[test]
fn a_transition_that_is_not_defined_is_reported() {
    let mut b = Builder::new();
    b.push_char('a');
    b.col = 7;
    b.add_error("e");
    for (state, signal) in [
        (State::BogusComment, NextChar::Ch('x')),
        (State::CommentStart, NextChar::Eof),
        (State::TagName, NextChar::Ch('x')),
        (State::SelfClosingStartTag, NextChar::Ch('>')),
        (State::DOCTYPE, NextChar::Stop),
        (State::AfterDOCTYPEName, NextChar::Ch('x')),
        (State::AttributeValueDoubleQuoted, NextChar::Ch('&')),
    ] {
        assert!(!state.handles(signal, &b));
        assert_eq!(
            state.next_char(signal, &mut b),
            Err(UnimplementedTransition { state, signal })
        );
        assert_eq!(b.token, Some(Token::Character("a".into())));
        assert_eq!(b.errors, vec![error("e", 1, 7)]);
        assert_eq!(b.buf, "");
        assert!(b.results.is_empty());
        assert!(!b.reconsume_char);
    }
}

#[test]
fn a_slash_in_a_tag_name_closes_the_tag() {
    let mut b = Builder::new();
    b.push_token(start_tag("br"));
    assert_eq!(
        State::TagName.next_char(NextChar::Ch('/'), &mut b),
        Ok(State::SelfClosingStartTag)
    );
    assert_eq!(
        State::SelfClosingStartTag.next_char(NextChar::Ch('>'), &mut b),
        Ok(State::Data)
    );
    assert!(b.emit_token);
    assert_eq!(b.results.len(), 1);

    let mut b = Builder::new();
    b.push_token(Token::EndTag("a".into()));
    b.col = 4;
    assert_eq!(
        State::SelfClosingStartTag.next_char(NextChar::Ch('>'), &mut b),
        Ok(State::Data)
    );
    assert_eq!((b.line, b.col), (1, 4));
    assert_eq!(
        queued(&b),
        vec![&TokenResult::Emitted {
            token: Token::EndTag("a".into()),
            errors: vec![error("end-tag-with-trailing-solidus", 1, 4)],
        }]
    );
    let mut b = Builder::new();
    assert_eq!(
        State::SelfClosingStartTag.next_char(NextChar::Eof, &mut b),
        Ok(State::Data)
    );
    assert!(b.reconsume_char);
}

#[test]
fn the_end_state_stays() {
    let mut b = Builder::new();
    for c in [NextChar::Ch('a'), NextChar::Eof, NextChar::Stop] {
        assert!(State::Eof.handles(c, &b));
        assert_eq!(State::Eof.next_char(c, &mut b).unwrap(), State::Eof);
    }
    assert_eq!(b.token, None);
    assert!(b.results.is_empty());
}

#[test]
fn transitions_are_defined_where_the_pending_token_allows() {
    let mut b = Builder::new();
    let gt = NextChar::Ch('>');
    assert!(!State::TagName.handles(gt, &b));
    assert!(!State::TagName.handles(NextChar::Ch('x'), &b));
    assert!(State::TagName.handles(NextChar::Ch(' '), &b));
    assert!(!State::SelfClosingStartTag.handles(gt, &b));
    assert!(!State::DOCTYPEName.handles(NextChar::Eof, &b));
    assert!(!State::ScriptDataEndTagName.handles(NextChar::Ch('a'), &b));
    assert!(!State::ScriptDataEndTagName.handles(NextChar::Ch('A'), &b));
    assert!(State::ScriptDataEndTagName.handles(NextChar::Ch('1'), &b));
    assert!(State::ScriptDataEndTagOpen.handles(NextChar::Ch('A'), &b));
    assert!(!State::BeforeDOCTYPEName.handles(NextChar::Stop, &b));
    assert!(!State::AttributeValueSingleQuoted.handles(NextChar::Ch('&'), &b));
    for s in [
        State::BogusComment,
        State::CDATASection,
        State::CommentStart,
        State::PLAINTEXT,
        State::RAWTEXT,
        State::RCDATA,
    ] {
        assert!(!s.handles(NextChar::Ch('a'), &b));
        assert!(!s.handles(NextChar::Eof, &b));
    }

    b.col = 1;
    assert!(!State::SelfClosingStartTag.handles(gt, &b));
    b.token = Some(Token::Character("a".into()));
    assert!(!State::SelfClosingStartTag.handles(gt, &b));
    assert!(!State::TagName.handles(NextChar::Ch('x'), &b));
    b.token = Some(Token::EndTag("a".into()));
    assert!(State::SelfClosingStartTag.handles(gt, &b));
    assert!(State::TagName.handles(gt, &b));
    assert!(State::TagName.handles(NextChar::Ch('x'), &b));
    assert!(State::ScriptDataEndTagName.handles(NextChar::Ch('a'), &b));
    b.token = Some(start_tag("a"));
    assert!(State::TagName.handles(NextChar::Ch('x'), &b));
    assert!(State::SelfClosingStartTag.handles(gt, &b));
    b.token = Some(Token::Doctype {
        name: None,
        public_id: None,
        system_id: None,
        correctness: true,
    });
    assert!(State::DOCTYPEName.handles(NextChar::Eof, &b));
    assert!(State::DOCTYPEName.handles(NextChar::Ch('\t'), &b));
    assert!(!State::DOCTYPEName.handles(NextChar::Ch('x'), &b));
    assert!(State::AfterDOCTYPEName.handles(NextChar::Stop, &b));
    assert!(!State::AfterDOCTYPEName.handles(NextChar::Ch('x'), &b));
}

#[test]
fn a_stall_is_taken_as_the_end() {
    let mut b = Builder::new();
    assert_eq!(State::Data.next_char(NextChar::Stop, &mut b).unwrap(), State::Eof);
    assert_eq!(b.token, Some(Token::Eof));
    let mut b = Builder::new();
    assert_eq!(State::TagOpen.next_char(NextChar::Stop, &mut b).unwrap(), State::Data);
    assert!(b.reconsume_char);
    assert_eq!(b.token, Some(Token::Character("<".into())));
    assert_eq!(
        b.errors,
        vec![error("invalid-first-character-of-tag-name", 1, 0)]
    );
}

#[test]
fn the_source_hands_out_characters_and_then_the_end() {
    let mut source = CharSource::new("aé");
    assert_eq!(source.next(), NextChar::Ch('a'));
    assert_eq!(source.next(), NextChar::Ch('é'));
    assert_eq!(source.next(), NextChar::Eof);
    assert_eq!(source.next(), NextChar::Eof);
    let mut source = CharSource::new("");
    assert_eq!(source.next(), NextChar::Eof);
}

#[test]
fn the_source_keeps_characters_whole_across_windows() {
    for lead in 0..4 {
        let mut text = "x".repeat(2045 + lead);
        text.push_str("😀€é");
        text.push_str(&"y".repeat(3000));
        let mut source = CharSource::new(&text);
        let mut out = String::new();
        while let NextChar::Ch(c) = source.next() {
            out.push(c);
        }
        assert_eq!(out, text);
    }
}

#[test]
fn attributes_are_kept_in_order_once_each() {
    let mut map = AttributeMap::new();
    assert!(map.is_empty());
    assert!(map.insert("b".into(), "1".into()));
    assert!(map.insert("a".into(), "2".into()));
    assert!(!map.insert("b".into(), "3".into()));
    assert_eq!(map.len(), 2);
    assert!(!map.is_empty());
    assert!(map.contains_key(&"a".to_string()));
    assert!(!map.contains_key(&"c".to_string()));
    assert_eq!(map.get(&"b".to_string()), Some(&"1".to_string()));
    assert_eq!(map.get(&"c".to_string()), None);
    assert_eq!(map.entry(0), (&"b".to_string(), &"1".to_string()));
    assert_eq!(map.entry(1), (&"a".to_string(), &"2".to_string()));

    let mut other = AttributeMap::new();
    other.insert("a".into(), "2".into());
    assert!(!map.same_as(&other));
    other.insert("b".into(), "1".into());
    assert!(map.same_as(&other));
    assert!(other.same_as(&map));
    assert_ne!(map, other);
    let mut third = AttributeMap::new();
    third.insert("a".into(), "2".into());
    third.insert("b".into(), "x".into());
    assert!(!map.same_as(&third));
}

#[test]
fn a_start_tag_from_a_name_is_bare() {
    assert_eq!(Token::StartTag(StartTag::from(&"p".to_string())), start_tag("p"));
}

#[test]
fn a_source_over_bytes_needs_well_formed_utf8() {
    let mut source = CharSource::from_bytes("é".as_bytes()).unwrap();
    assert_eq!(source.next(), NextChar::Ch('é'));
    assert_eq!(source.next(), NextChar::Eof);
    assert!(CharSource::from_bytes(&"é".as_bytes()[..1]).is_none());
    assert!(CharSource::from_bytes(&"é".as_bytes()[1..]).is_none());
}

#[test]
fn an_unquoted_value_ends_with_the_tag() {
    let mut b = Builder::new();
    let mut state = State::Data;
    for c in "<a x=y".chars() {
        state = state.next_char(NextChar::Ch(c), &mut b).unwrap();
    }
    assert_eq!(state, State::AttributeValueUnquoted);
    assert!(!b.emit_token);
    assert_eq!(state.next_char(NextChar::Ch('>'), &mut b).unwrap(), State::Data);
    assert!(b.emit_token);
    assert_eq!(b.token, None);
    assert_eq!(b.results.len(), 1);
    assert!(!State::AttributeValueUnquoted.handles(NextChar::Ch('>'), &b));
}
