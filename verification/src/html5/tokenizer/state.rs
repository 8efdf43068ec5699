//! The lexer states and their transitions.
//!
//! A transition takes a state, the signal for one character and the
//! accumulator, and gives the next state; what it does to the accumulator is
//! part of the transition. `State::transition` says what each transition is,
//! `State::covers` for which inputs one is defined, and `State::next_char`
//! carries it out, or reports that none is defined.

use super::builder::{Builder, BuilderView};
use super::{NextChar, StartTag, StartTagView, Token, TokenView};
use crate::text::{
    ascii_alpha, ascii_lower, ascii_whitespace, is_ascii_alpha,
    is_ascii_whitespace, lowered, lowered_eq, one_char, text_eq, to_ascii_lower,
    lowered_prefix,
};
use crate::types::AttributeMap;
use vstd::prelude::*;

verus! {

#[derive(Debug, Copy, Clone, PartialEq, Eq, Structural)]
pub enum State {
    /// After attribute name state
    AfterAttributeName,
    /// After DOCTYPE name state
    AfterDOCTYPEName,
    /// After attribute value (quoted) state
    AfterAttributeValueQuoted,
    /// Attribute name state
    AttributeName,
    /// Attribute value (double-quoted) state
    AttributeValueDoubleQuoted,
    /// Attribute value (single-quoted) state
    AttributeValueSingleQuoted,
    /// Attribute value (unquoted) state
    AttributeValueUnquoted,
    /// Before attribute name state
    BeforeAttributeName,
    /// Before attribute value state
    BeforeAttributeValue,
    /// Before DOCTYPE name state
    BeforeDOCTYPEName,
    /// Bogus comment state
    BogusComment,
    /// CDATA section state
    CDATASection,
    /// Comment start state
    CommentStart,
    /// Data state
    Data,
    /// DOCTYPE state
    DOCTYPE,
    /// DOCTYPE name state
    DOCTYPEName,
    /// End tag open state
    EndTagOpen,
    /// The end of the input has been handled.
    Eof,
    /// Markup declaration open state
    MarkupDeclarationOpen,
    /// PLAINTEXT state
    PLAINTEXT,
    /// RAWTEXT state
    RAWTEXT,
    /// RCDATA state
    RCDATA,
    /// Script data state
    ScriptData,
    /// Script data end tag name state
    ScriptDataEndTagName,
    /// Script data end tag open state
    ScriptDataEndTagOpen,
    /// Script data escaped state
    ScriptDataEscaped,
    /// Script data escape start state
    ScriptDataEscapeStart,
    /// Script data escaped dash state
    ScriptDataEscapedDash,
    /// Script data escaped dash dash state
    ScriptDataEscapeDashDash,
    /// Script data escape start dash state
    ScriptDataEscapeStartDash,
    /// Script data less-than sign state
    ScriptDataLessThanSign,
    /// Self-closing start tag state
    SelfClosingStartTag,
    /// Tag name state
    TagName,
    /// Tag open state
    TagOpen,
}

/// A doctype token that has only a name, with the correctness flag set.
pub open spec fn named_doctype(name: Seq<char>) -> TokenView {
    TokenView::Doctype { name: Some(name), public_id: None, system_id: None, correctness: true }
}

/// A start tag token of this name with no attributes.
pub open spec fn bare_start_tag(name: Seq<char>) -> TokenView {
    TokenView::StartTag(StartTagView { name, attributes: Seq::empty(), self_closing: false })
}

impl BuilderView {
    /// The pending token is a doctype.
    pub open spec fn doctype_pending(self) -> bool {
        self.token matches Some(TokenView::Doctype { .. })
    }

    /// The pending token is a doctype with a name.
    pub open spec fn named_doctype_pending(self) -> bool {
        self.token matches Some(TokenView::Doctype { name: Some(_), .. })
    }

    /// The pending token is a start tag.
    pub open spec fn start_tag_pending(self) -> bool {
        self.token matches Some(TokenView::StartTag(_))
    }

    /// The pending token is an end tag.
    pub open spec fn end_tag_pending(self) -> bool {
        self.token matches Some(TokenView::EndTag(_))
    }

    /// The pending doctype loses its correctness flag.
    pub open spec fn incorrect_doctype(self) -> BuilderView {
        match self.token {
            Some(TokenView::Doctype { name, public_id, system_id, correctness }) => BuilderView {
                token: Some(
                    TokenView::Doctype { name, public_id, system_id, correctness: false },
                ),
                ..self
            },
            _ => self,
        }
    }

    /// One more character for the name of the pending start tag, end tag or
    /// named doctype.
    pub open spec fn name_char(self, c: char) -> BuilderView {
        match self.token {
            Some(TokenView::StartTag(tag)) => BuilderView {
                token: Some(TokenView::StartTag(StartTagView { name: tag.name.push(c), ..tag })),
                ..self
            },
            Some(TokenView::EndTag(name)) => BuilderView {
                token: Some(TokenView::EndTag(name.push(c))),
                ..self
            },
            Some(
                TokenView::Doctype { name: Some(name), public_id, system_id, correctness },
            ) => BuilderView {
                token: Some(
                    TokenView::Doctype {
                        name: Some(name.push(c)),
                        public_id,
                        system_id,
                        correctness,
                    },
                ),
                ..self
            },
            _ => self,
        }
    }

    /// The pending start tag becomes self-closing.
    pub open spec fn self_closing(self) -> BuilderView {
        match self.token {
            Some(TokenView::StartTag(tag)) => BuilderView {
                token: Some(TokenView::StartTag(StartTagView { self_closing: true, ..tag })),
                ..self
            },
            _ => self,
        }
    }

    /// What has been looked ahead after `<!` cannot be the start of a comment
    /// or a doctype: that is an error, and the character goes to the bogus
    /// comment state.
    pub open spec fn incorrectly_opened(self) -> BuilderView {
        self.add_error("incorrectly-opened-comment"@).reconsume_char()
    }

    /// A `<` that opens no tag is text: the character after it is fed again,
    /// to the data state, and the error is recorded with the text.
    pub open spec fn less_than_sign_as_text(self) -> BuilderView {
        self.reconsume_char().push_char('<').add_error("invalid-first-character-of-tag-name"@)
    }

    /// A doctype that ends before it has a name: it is emitted without a
    /// name and without its correctness flag, with the error.
    pub open spec fn nameless_doctype(self) -> BuilderView {
        self.push_token(
            TokenView::Doctype { name: None, public_id: None, system_id: None, correctness: false },
        ).add_error("missing-doctype-name"@).emit_token()
    }

    /// The input ends inside a doctype: that is an error, the doctype loses
    /// its correctness flag, and the end of the input goes to the data state.
    pub open spec fn eof_in_doctype(self) -> BuilderView {
        self.add_error("eof-in-doctype"@).incorrect_doctype().reconsume_char()
    }

    /// The look-ahead buffer can still grow into `--` or, whatever its case,
    /// into `doctype`.
    pub open spec fn may_open_markup(self) -> bool {
        lowered(self.buf).is_prefix_of("--"@) || lowered(self.buf).is_prefix_of("doctype"@)
    }

    /// The look-ahead buffer is emptied.
    pub open spec fn clear_buf(self) -> BuilderView {
        BuilderView { buf: Seq::empty(), ..self }
    }

    /// A tentative end tag in script data turns out to be text: the end tag is
    /// dropped, the text before it is pending again, and `</` with what was
    /// buffered since joins it.
    pub open spec fn end_tag_as_text(self) -> BuilderView {
        self.discard_and_rewind().push_str("</"@).push_str(self.buf)
    }
}

/// No transition is defined from this state for this signal, with the
/// accumulator as it is.
#[derive(Debug, Clone, Copy, PartialEq, Eq, Structural)]
pub struct UnimplementedTransition {
    pub state: State,
    pub signal: NextChar,
}

/// The signal is the end of the input or a stall.
pub open spec fn no_char(c: NextChar) -> bool {
    c == NextChar::Eof || c == NextChar::Stop
}

impl State {
    /// The states that no transition is defined for.
    pub open spec fn unsupported(self) -> bool {
        self == State::BogusComment || self == State::CDATASection || self == State::CommentStart
            || self == State::PLAINTEXT || self == State::RAWTEXT || self == State::RCDATA
    }

    /// Whether a transition is defined from this state for this signal and
    /// this accumulator. It depends on the state, the signal and the kind of
    /// the pending token.
    pub open spec fn covers(self, c: NextChar, b: BuilderView) -> bool {
        let gt = c == NextChar::Ch('>');
        match self {
            State::BogusComment
            | State::CDATASection
            | State::CommentStart
            | State::PLAINTEXT
            | State::RAWTEXT
            | State::RCDATA => false,
            State::AfterAttributeName
            | State::AfterAttributeValueQuoted
            | State::AttributeName
            | State::AttributeValueUnquoted
            | State::BeforeAttributeName
            | State::BeforeAttributeValue => gt ==> b.token is Some,
            State::AfterDOCTYPEName => match c {
                NextChar::Ch('>') => b.token is Some,
                NextChar::Ch(ch) => is_ascii_whitespace(ch),
                _ => b.doctype_pending(),
            },
            State::AttributeValueDoubleQuoted
            | State::AttributeValueSingleQuoted => c != NextChar::Ch('&'),
            State::BeforeDOCTYPEName => !no_char(c),
            State::DOCTYPE => match c {
                NextChar::Ch(ch) => is_ascii_whitespace(ch) || ch == '>',
                _ => false,
            },
            State::DOCTYPEName => match c {
                NextChar::Ch('>') => b.token is Some,
                NextChar::Ch(ch) => is_ascii_whitespace(ch) || b.named_doctype_pending(),
                _ => b.doctype_pending(),
            },
            State::ScriptDataEndTagName => match c {
                NextChar::Ch('>') => true,
                NextChar::Ch(ch) => is_ascii_alpha(ch) ==> b.end_tag_pending(),
                _ => true,
            },
            State::SelfClosingStartTag => gt ==> b.start_tag_pending() || b.end_tag_pending(),
            State::TagName => match c {
                NextChar::Ch('>') => b.token is Some,
                NextChar::Ch(ch) => is_ascii_whitespace(ch) || ch == '/' || b.start_tag_pending()
                    || b.end_tag_pending(),
                _ => true,
            },
            _ => true,
        }
    }

    /// The attribute states, for an accumulator that has buffered the
    /// character.
    pub open spec fn attribute_step(self, c: NextChar, b: BuilderView) -> (State, BuilderView) {
        match c {
            NextChar::Ch(ch) => match self {
                State::AfterAttributeName => if is_ascii_whitespace(ch) {
                    (State::AfterAttributeName, b)
                } else if ch == '/' {
                    (State::SelfClosingStartTag, b.finalize_attribute())
                } else if ch == '=' {
                    (State::BeforeAttributeValue, b)
                } else if ch == '>' {
                    (State::Data, b.finalize_attribute().emit_token())
                } else {
                    (
                        State::AttributeName,
                        b.finalize_attribute().add_to_attribute_name(ascii_lower(ch)),
                    )
                },
                State::AfterAttributeValueQuoted => if is_ascii_whitespace(ch) {
                    (State::BeforeAttributeName, b.finalize_attribute())
                } else if ch == '/' {
                    (State::SelfClosingStartTag, b.finalize_attribute())
                } else if ch == '>' {
                    (State::Data, b.finalize_attribute().emit_token())
                } else {
                    (State::BeforeAttributeName, b.reconsume_char())
                },
                State::AttributeName => if is_ascii_whitespace(ch) {
                    (State::AfterAttributeName, b)
                } else if ch == '/' {
                    (State::SelfClosingStartTag, b)
                } else if ch == '=' {
                    (State::BeforeAttributeValue, b)
                } else if ch == '>' {
                    (State::Data, b.emit_token())
                } else {
                    (State::AttributeName, b.add_to_attribute_name(ascii_lower(ch)))
                },
                State::AttributeValueDoubleQuoted => if ch == '"' {
                    (State::AfterAttributeValueQuoted, b)
                } else {
                    (State::AttributeValueDoubleQuoted, b.add_to_attribute_value(ch))
                },
                State::AttributeValueSingleQuoted => if ch == '\'' {
                    (State::AfterAttributeValueQuoted, b)
                } else {
                    (State::AttributeValueSingleQuoted, b.add_to_attribute_value(ch))
                },
                State::AttributeValueUnquoted => if is_ascii_whitespace(ch) {
                    (State::BeforeAttributeName, b.finalize_attribute())
                } else if ch == '>' {
                    (State::Data, b.finalize_attribute().emit_token())
                } else {
                    (State::AttributeValueUnquoted, b.add_to_attribute_value(ch))
                },
                State::BeforeAttributeName => if is_ascii_whitespace(ch) {
                    (State::BeforeAttributeName, b)
                } else if ch == '/' {
                    (State::SelfClosingStartTag, b)
                } else if ch == '>' {
                    (State::Data, b.emit_token())
                } else {
                    (
                        State::AttributeName,
                        b.finalize_attribute().add_to_attribute_name(ascii_lower(ch)),
                    )
                },
                _ => if is_ascii_whitespace(ch) {
                    (State::BeforeAttributeValue, b)
                } else if ch == '\'' {
                    (State::AttributeValueSingleQuoted, b)
                } else if ch == '"' {
                    (State::AttributeValueDoubleQuoted, b)
                } else if ch == '>' {
                    (State::Data, b.add_error("missing-attribute-value"@).emit_token())
                } else {
                    (State::AttributeValueUnquoted, b.add_to_attribute_value(ch))
                },
            },
            _ => (State::Data, b.reconsume_char()),
        }
    }

    /// The doctype states, for an accumulator that has buffered the character.
    pub open spec fn doctype_step(self, c: NextChar, b: BuilderView) -> (State, BuilderView) {
        match self {
            State::MarkupDeclarationOpen => match c {
                NextChar::Ch(_) => if b.buf == "--"@ {
                    (State::CommentStart, b)
                } else if lowered(b.buf) == "doctype"@ {
                    (State::DOCTYPE, b)
                } else if b.may_open_markup() {
                    (State::MarkupDeclarationOpen, b)
                } else {
                    (State::BogusComment, b.incorrectly_opened())
                },
                _ => (State::BogusComment, b.incorrectly_opened()),
            },
            State::DOCTYPE => if c == NextChar::Ch('>') {
                (State::BeforeDOCTYPEName, b.reconsume_char())
            } else {
                (State::BeforeDOCTYPEName, b)
            },
            State::BeforeDOCTYPEName => match c {
                NextChar::Ch(ch) => if is_ascii_whitespace(ch) {
                    (State::BeforeDOCTYPEName, b)
                } else if ch == '>' {
                    (State::Data, b.nameless_doctype())
                } else {
                    (State::DOCTYPEName, b.push_token(named_doctype(seq![ascii_lower(ch)])))
                },
                _ => (State::BeforeDOCTYPEName, b),
            },
            State::DOCTYPEName => match c {
                NextChar::Ch(ch) => if is_ascii_whitespace(ch) {
                    (State::AfterDOCTYPEName, b)
                } else if ch == '>' {
                    (State::Data, b.emit_token())
                } else {
                    (State::DOCTYPEName, b.name_char(ascii_lower(ch)))
                },
                _ => (State::Data, b.eof_in_doctype()),
            },
            _ => match c {
                NextChar::Ch(ch) => if ch == '>' {
                    (State::Data, b.emit_token())
                } else {
                    (State::AfterDOCTYPEName, b)
                },
                _ => (State::Data, b.eof_in_doctype()),
            },
        }
    }

    /// The tag states, for an accumulator that has buffered the character.
    pub open spec fn tag_step(self, c: NextChar, b: BuilderView) -> (State, BuilderView) {
        match self {
            State::TagOpen => match c {
                NextChar::Ch(ch) => if ch == '!' {
                    (State::MarkupDeclarationOpen, b.clear_buf())
                } else if ch == '/' {
                    (State::EndTagOpen, b)
                } else if is_ascii_alpha(ch) {
                    (State::TagName, b.push_token(bare_start_tag(seq![ascii_lower(ch)])))
                } else {
                    (State::Data, b.less_than_sign_as_text())
                },
                _ => (State::Data, b.less_than_sign_as_text()),
            },
            State::EndTagOpen => match c {
                NextChar::Ch(ch) => if is_ascii_alpha(ch) {
                    (State::TagName, b.push_token(TokenView::EndTag(seq![ascii_lower(ch)])))
                } else if ch == '>' {
                    (State::Data, b.add_error("missing-end-tag-name"@))
                } else {
                    (State::BogusComment, b.reconsume_char())
                },
                _ => (State::BogusComment, b.reconsume_char()),
            },
            State::TagName => match c {
                NextChar::Ch(ch) => if is_ascii_whitespace(ch) {
                    (State::BeforeAttributeName, b)
                } else if ch == '/' {
                    (State::SelfClosingStartTag, b)
                } else if ch == '>' {
                    (State::Data, b.emit_token())
                } else {
                    (State::TagName, b.name_char(ascii_lower(ch)))
                },
                _ => (State::Data, b.reconsume_char()),
            },
            _ => match c {
                NextChar::Ch(ch) => if ch == '>' {
                    if b.start_tag_pending() {
                        (State::Data, b.self_closing().emit_token())
                    } else {
                        (
                            State::Data,
                            b.add_error("end-tag-with-trailing-solidus"@).emit_token(),
                        )
                    }
                } else {
                    (State::BeforeAttributeName, b.reconsume_char())
                },
                _ => (State::Data, b.reconsume_char()),
            },
        }
    }

    /// The data and script data states, for an accumulator that has buffered
    /// the character.
    pub open spec fn text_step(self, c: NextChar, b: BuilderView) -> (State, BuilderView) {
        match c {
            NextChar::Ch(ch) => match self {
                State::Data => if ch == '<' {
                    (State::TagOpen, b)
                } else {
                    (State::Data, b.push_char(ch))
                },
                State::ScriptData => if ch == '<' {
                    (State::ScriptDataLessThanSign, b)
                } else {
                    (State::ScriptData, b.push_char(ch))
                },
                State::ScriptDataEndTagName => if ch == '>' {
                    if b.appropriate_end_tag() {
                        (State::Data, b.emit_token())
                    } else {
                        (State::ScriptData, b.end_tag_as_text())
                    }
                } else if is_ascii_alpha(ch) {
                    (State::ScriptDataEndTagName, b.name_char(ascii_lower(ch)))
                } else {
                    (State::ScriptData, b.end_tag_as_text())
                },
                State::ScriptDataEndTagOpen => if is_ascii_alpha(ch) {
                    (
                        State::ScriptDataEndTagName,
                        b.push_token(TokenView::EndTag(seq![ascii_lower(ch)])),
                    )
                } else {
                    (State::ScriptData, b.push_str("</"@).reconsume_char())
                },
                State::ScriptDataEscaped => if ch == '-' {
                    (State::ScriptDataEscapedDash, b.push_char(ch))
                } else if ch == '<' {
                    (State::ScriptDataLessThanSign, b)
                } else {
                    (State::ScriptDataEscaped, b.push_char(ch))
                },
                State::ScriptDataEscapeStart => if ch == '-' {
                    (State::ScriptDataEscapeStartDash, b.push_char(ch))
                } else {
                    (State::ScriptData, b.reconsume_char())
                },
                State::ScriptDataEscapedDash => if ch == '-' {
                    (State::ScriptDataEscapeDashDash, b.push_char(ch))
                } else {
                    (State::ScriptDataEscaped, b.push_char(ch))
                },
                State::ScriptDataEscapeDashDash => if ch == '-' {
                    (State::ScriptDataEscapeDashDash, b.push_char(ch))
                } else if ch == '<' {
                    (State::ScriptDataLessThanSign, b)
                } else if ch == '>' {
                    (State::ScriptData, b.push_char(ch))
                } else {
                    (State::ScriptDataEscaped, b.push_char(ch))
                },
                State::ScriptDataEscapeStartDash => if ch == '-' {
                    (State::ScriptDataEscapeDashDash, b.push_char(ch))
                } else {
                    (State::ScriptData, b.reconsume_char())
                },
                _ => if ch == '/' {
                    (State::ScriptDataEndTagOpen, b.clear_buf())
                } else if ch == '!' {
                    (State::ScriptDataEscapeStart, b.push_str("<!"@))
                } else {
                    (State::ScriptData, b.push_char('<').reconsume_char())
                },
            },
            _ => match self {
                State::Data => (State::Eof, b.push_token(TokenView::Eof)),
                State::ScriptData => (State::Eof, b.push_token(TokenView::Eof).emit_token()),
                State::ScriptDataEndTagName => (
                    State::ScriptData,
                    b.end_tag_as_text().reconsume_char(),
                ),
                State::ScriptDataEndTagOpen => (
                    State::ScriptData,
                    b.push_str("</"@).reconsume_char(),
                ),
                State::ScriptDataEscapeStart | State::ScriptDataEscapeStartDash => (
                    State::ScriptData,
                    b.reconsume_char(),
                ),
                State::ScriptDataLessThanSign => (
                    State::ScriptData,
                    b.push_char('<').reconsume_char(),
                ),
                _ => (State::Data, b.reconsume_char()),
            },
        }
    }

    /// The transition from this state, for an accumulator that has buffered
    /// the character.
    pub open spec fn dispatch(self, c: NextChar, b: BuilderView) -> (State, BuilderView) {
        match self {
            State::AfterAttributeName
            | State::AfterAttributeValueQuoted
            | State::AttributeName
            | State::AttributeValueDoubleQuoted
            | State::AttributeValueSingleQuoted
            | State::AttributeValueUnquoted
            | State::BeforeAttributeName
            | State::BeforeAttributeValue => self.attribute_step(c, b),
            State::MarkupDeclarationOpen
            | State::DOCTYPE
            | State::BeforeDOCTYPEName
            | State::DOCTYPEName
            | State::AfterDOCTYPEName => self.doctype_step(c, b),
            State::TagOpen
            | State::EndTagOpen
            | State::TagName
            | State::SelfClosingStartTag => self.tag_step(c, b),
            State::Data
            | State::ScriptData
            | State::ScriptDataEndTagName
            | State::ScriptDataEndTagOpen
            | State::ScriptDataEscaped
            | State::ScriptDataEscapeStart
            | State::ScriptDataEscapedDash
            | State::ScriptDataEscapeDashDash
            | State::ScriptDataEscapeStartDash
            | State::ScriptDataLessThanSign => self.text_step(c, b),
            _ => (self, b),
        }
    }

    /// The next state and the accumulator after one signal: the character is
    /// buffered, then the state's transition is taken. Where none is defined,
    /// nothing changes.
    pub open spec fn transition(self, c: NextChar, b: BuilderView) -> (State, BuilderView) {
        if self.covers(c, b) {
            self.dispatch(c, b.push_buf(c))
        } else {
            (self, b)
        }
    }
}

/// The end state absorbs: whatever is fed, the state stays and the
/// accumulator only buffers the character.
pub proof fn lemma_eof_absorbs(c: NextChar, b: BuilderView)
    ensures
        State::Eof.covers(c, b),
        State::Eof.transition(c, b) == (State::Eof, b.push_buf(c)),
{
}

/// Whether the character is `>`.
fn is_gt(c: NextChar) -> (b: bool)
    ensures
        b == (c == NextChar::Ch('>')),
{
    match c {
        NextChar::Ch(ch) => ch == '>',
        _ => false,
    }
}

impl State {
    /// Whether a transition is defined.
    pub fn handles(self, c: NextChar, builder: &Builder) -> (b: bool)
        ensures
            b == self.covers(c, builder@),
    {
        let pending = builder.token.is_some();
        let doctype = match &builder.token {
            Some(Token::Doctype { .. }) => true,
            _ => false,
        };
        let named = match &builder.token {
            Some(Token::Doctype { name: Some(_), .. }) => true,
            _ => false,
        };
        let start_tag = match &builder.token {
            Some(Token::StartTag(_)) => true,
            _ => false,
        };
        let end_tag = match &builder.token {
            Some(Token::EndTag(_)) => true,
            _ => false,
        };
        match self {
            State::BogusComment
            | State::CDATASection
            | State::CommentStart
            | State::PLAINTEXT
            | State::RAWTEXT
            | State::RCDATA => false,
            State::AfterAttributeName
            | State::AfterAttributeValueQuoted
            | State::AttributeName
            | State::AttributeValueUnquoted
            | State::BeforeAttributeName
            | State::BeforeAttributeValue => !is_gt(c) || pending,
            State::AfterDOCTYPEName => match c {
                NextChar::Ch(ch) => if ch == '>' {
                    pending
                } else {
                    ascii_whitespace(ch)
                },
                _ => doctype,
            },
            State::AttributeValueDoubleQuoted | State::AttributeValueSingleQuoted => match c {
                NextChar::Ch(ch) => ch != '&',
                _ => true,
            },
            State::BeforeDOCTYPEName => match c {
                NextChar::Ch(_) => true,
                _ => false,
            },
            State::DOCTYPE => match c {
                NextChar::Ch(ch) => ascii_whitespace(ch) || ch == '>',
                _ => false,
            },
            State::DOCTYPEName => match c {
                NextChar::Ch(ch) => if ch == '>' {
                    pending
                } else {
                    ascii_whitespace(ch) || named
                },
                _ => doctype,
            },
            State::ScriptDataEndTagName => match c {
                NextChar::Ch(ch) => ch == '>' || !ascii_alpha(ch) || end_tag,
                _ => true,
            },
            State::SelfClosingStartTag => !is_gt(c) || start_tag || end_tag,
            State::TagName => match c {
                NextChar::Ch(ch) => if ch == '>' {
                    pending
                } else {
                    ascii_whitespace(ch) || ch == '/' || start_tag || end_tag
                },
                _ => true,
            },
            _ => true,
        }
    }

    fn attribute_states(self, c: NextChar, builder: &mut Builder) -> (next: State)
        requires
            self == State::AfterAttributeName || self == State::AfterAttributeValueQuoted || self
                == State::AttributeName || self == State::AttributeValueDoubleQuoted || self
                == State::AttributeValueSingleQuoted || self == State::AttributeValueUnquoted
                || self == State::BeforeAttributeName || self == State::BeforeAttributeValue,
            self.covers(c, old(builder)@),
        ensures
            (next, final(builder)@) == self.attribute_step(c, old(builder)@),
    {
        let ch = match c {
            NextChar::Ch(ch) => ch,
            _ => {
                builder.reconsume_char();
                return State::Data;
            },
        };
        match self {
            State::AfterAttributeName => {
                if ascii_whitespace(ch) {
                    State::AfterAttributeName
                } else if ch == '/' {
                    builder.finalize_attribute();
                    State::SelfClosingStartTag
                } else if ch == '=' {
                    State::BeforeAttributeValue
                } else if ch == '>' {
                    builder.finalize_attribute();
                    builder.emit_token();
                    State::Data
                } else {
                    builder.finalize_attribute();
                    builder.add_to_attribute_name(to_ascii_lower(ch));
                    State::AttributeName
                }
            },
            State::AfterAttributeValueQuoted => {
                if ascii_whitespace(ch) {
                    builder.finalize_attribute();
                    State::BeforeAttributeName
                } else if ch == '/' {
                    builder.finalize_attribute();
                    State::SelfClosingStartTag
                } else if ch == '>' {
                    builder.finalize_attribute();
                    builder.emit_token();
                    State::Data
                } else {
                    builder.reconsume_char();
                    State::BeforeAttributeName
                }
            },
            State::AttributeName => {
                if ascii_whitespace(ch) {
                    State::AfterAttributeName
                } else if ch == '/' {
                    State::SelfClosingStartTag
                } else if ch == '=' {
                    State::BeforeAttributeValue
                } else if ch == '>' {
                    builder.emit_token();
                    State::Data
                } else {
                    builder.add_to_attribute_name(to_ascii_lower(ch));
                    State::AttributeName
                }
            },
            State::AttributeValueDoubleQuoted => {
                if ch == '"' {
                    State::AfterAttributeValueQuoted
                } else {
                    builder.add_to_attribute_value(ch);
                    State::AttributeValueDoubleQuoted
                }
            },
            State::AttributeValueSingleQuoted => {
                if ch == '\'' {
                    State::AfterAttributeValueQuoted
                } else {
                    builder.add_to_attribute_value(ch);
                    State::AttributeValueSingleQuoted
                }
            },
            State::AttributeValueUnquoted => {
                if ascii_whitespace(ch) {
                    builder.finalize_attribute();
                    State::BeforeAttributeName
                } else if ch == '>' {
                    builder.finalize_attribute();
                    builder.emit_token();
                    State::Data
                } else {
                    builder.add_to_attribute_value(ch);
                    State::AttributeValueUnquoted
                }
            },
            State::BeforeAttributeName => {
                if ascii_whitespace(ch) {
                    State::BeforeAttributeName
                } else if ch == '/' {
                    State::SelfClosingStartTag
                } else if ch == '>' {
                    builder.emit_token();
                    State::Data
                } else {
                    builder.finalize_attribute();
                    builder.add_to_attribute_name(to_ascii_lower(ch));
                    State::AttributeName
                }
            },
            _ => {
                if ascii_whitespace(ch) {
                    State::BeforeAttributeValue
                } else if ch == '\'' {
                    State::AttributeValueSingleQuoted
                } else if ch == '"' {
                    State::AttributeValueDoubleQuoted
                } else if ch == '>' {
                    builder.add_error("missing-attribute-value");
                    builder.emit_token();
                    State::Data
                } else {
                    builder.add_to_attribute_value(ch);
                    State::AttributeValueUnquoted
                }
            },
        }
    }

    /// The end of the input inside a doctype.
    fn eof_in_doctype(builder: &mut Builder)
        requires
            old(builder)@.doctype_pending(),
        ensures
            final(builder)@ == old(builder)@.eof_in_doctype(),
    {
        builder.add_error("eof-in-doctype");
        match &mut builder.token {
            Some(Token::Doctype { correctness, .. }) => {
                *correctness = false;
            },
            _ => {},
        }
        builder.reconsume_char();
    }

    fn doctype_states(self, c: NextChar, builder: &mut Builder) -> (next: State)
        requires
            self == State::MarkupDeclarationOpen || self == State::DOCTYPE || self
                == State::BeforeDOCTYPEName || self == State::DOCTYPEName || self
                == State::AfterDOCTYPEName,
            self.covers(c, old(builder)@),
        ensures
            (next, final(builder)@) == self.doctype_step(c, old(builder)@),
    {
        match self {
            State::MarkupDeclarationOpen => {
                let more = match c {
                    NextChar::Ch(_) => true,
                    _ => false,
                };
                if more && text_eq(builder.buf.as_str(), "--") {
                    State::CommentStart
                } else if more && lowered_eq(builder.buf.as_str(), "doctype") {
                    State::DOCTYPE
                } else if more && (lowered_prefix(builder.buf.as_str(), "--") || lowered_prefix(
                    builder.buf.as_str(),
                    "doctype",
                )) {
                    State::MarkupDeclarationOpen
                } else {
                    builder.add_error("incorrectly-opened-comment");
                    builder.reconsume_char();
                    State::BogusComment
                }
            },
            State::DOCTYPE => {
                if is_gt(c) {
                    builder.reconsume_char();
                }
                State::BeforeDOCTYPEName
            },
            State::BeforeDOCTYPEName => match c {
                NextChar::Ch(ch) => {
                    if ascii_whitespace(ch) {
                        State::BeforeDOCTYPEName
                    } else if ch == '>' {
                        builder.push_token(
                            Token::Doctype {
                                name: None,
                                public_id: None,
                                system_id: None,
                                correctness: false,
                            },
                        );
                        builder.add_error("missing-doctype-name");
                        builder.emit_token();
                        State::Data
                    } else {
                        builder.push_token(
                            Token::Doctype {
                                name: Some(one_char(to_ascii_lower(ch))),
                                public_id: None,
                                system_id: None,
                                correctness: true,
                            },
                        );
                        State::DOCTYPEName
                    }
                },
                _ => State::BeforeDOCTYPEName,
            },
            State::DOCTYPEName => match c {
                NextChar::Ch(ch) => {
                    if ascii_whitespace(ch) {
                        State::AfterDOCTYPEName
                    } else if ch == '>' {
                        builder.emit_token();
                        State::Data
                    } else {
                        match &mut builder.token {
                            Some(Token::Doctype { name: Some(name), .. }) => {
                                name.push(to_ascii_lower(ch));
                            },
                            _ => {},
                        }
                        State::DOCTYPEName
                    }
                },
                _ => {
                    Self::eof_in_doctype(builder);
                    State::Data
                },
            },
            _ => match c {
                NextChar::Ch(ch) => {
                    if ch == '>' {
                        builder.emit_token();
                        State::Data
                    } else {
                        State::AfterDOCTYPEName
                    }
                },
                _ => {
                    Self::eof_in_doctype(builder);
                    State::Data
                },
            },
        }
    }

    fn tag_states(self, c: NextChar, builder: &mut Builder) -> (next: State)
        requires
            self == State::TagOpen || self == State::EndTagOpen || self == State::TagName || self
                == State::SelfClosingStartTag,
            self.covers(c, old(builder)@),
        ensures
            (next, final(builder)@) == self.tag_step(c, old(builder)@),
    {
        match self {
            State::TagOpen => {
                match c {
                    NextChar::Ch(ch) => {
                        if ch == '!' {
                            builder.buf.clear();
                            return State::MarkupDeclarationOpen;
                        } else if ch == '/' {
                            return State::EndTagOpen;
                        } else if ascii_alpha(ch) {
                            builder.push_token(
                                Token::StartTag(
                                    StartTag {
                                        name: one_char(to_ascii_lower(ch)),
                                        attributes: AttributeMap::new(),
                                        self_closing: false,
                                    },
                                ),
                            );
                            return State::TagName;
                        }
                    },
                    _ => {},
                }
                builder.reconsume_char();
                builder.push_char('<');
                builder.add_error("invalid-first-character-of-tag-name");
                State::Data
            },
            State::EndTagOpen => match c {
                NextChar::Ch(ch) => {
                    if ascii_alpha(ch) {
                        builder.push_token(Token::EndTag(one_char(to_ascii_lower(ch))));
                        State::TagName
                    } else if ch == '>' {
                        builder.add_error("missing-end-tag-name");
                        State::Data
                    } else {
                        builder.reconsume_char();
                        State::BogusComment
                    }
                },
                _ => {
                    builder.reconsume_char();
                    State::BogusComment
                },
            },
            State::TagName => match c {
                NextChar::Ch(ch) => {
                    if ascii_whitespace(ch) {
                        State::BeforeAttributeName
                    } else if ch == '/' {
                        State::SelfClosingStartTag
                    } else if ch == '>' {
                        builder.emit_token();
                        State::Data
                    } else {
                        match &mut builder.token {
                            Some(Token::StartTag(tag)) => {
                                tag.name.push(to_ascii_lower(ch));
                            },
                            Some(Token::EndTag(name)) => {
                                name.push(to_ascii_lower(ch));
                            },
                            _ => {},
                        }
                        State::TagName
                    }
                },
                _ => {
                    builder.reconsume_char();
                    State::Data
                },
            },
            _ => match c {
                NextChar::Ch(ch) => {
                    if ch == '>' {
                        let mut marked = false;
                        match &mut builder.token {
                            Some(Token::StartTag(tag)) => {
                                tag.self_closing = true;
                                marked = true;
                            },
                            _ => {},
                        }
                        if !marked {
                            builder.add_error("end-tag-with-trailing-solidus");
                        }
                        builder.emit_token();
                        State::Data
                    } else {
                        builder.reconsume_char();
                        State::BeforeAttributeName
                    }
                },
                _ => {
                    builder.reconsume_char();
                    State::Data
                },
            },
        }
    }

    /// A tentative end tag in script data is given back as text.
    fn end_tag_as_text(builder: &mut Builder)
        ensures
            final(builder)@ == old(builder)@.end_tag_as_text(),
    {
        builder.discard_and_rewind();
        builder.push_str("</");
        let buffered = builder.buf.clone();
        builder.push_str(buffered.as_str());
    }

    fn text_states(self, c: NextChar, builder: &mut Builder) -> (next: State)
        requires
            self == State::Data || self == State::ScriptData || self == State::ScriptDataEndTagName
                || self == State::ScriptDataEndTagOpen || self == State::ScriptDataEscaped || self
                == State::ScriptDataEscapeStart || self == State::ScriptDataEscapedDash || self
                == State::ScriptDataEscapeDashDash || self == State::ScriptDataEscapeStartDash
                || self == State::ScriptDataLessThanSign,
            self.covers(c, old(builder)@),
        ensures
            (next, final(builder)@) == self.text_step(c, old(builder)@),
    {
        let ch = match c {
            NextChar::Ch(ch) => ch,
            _ => {
                match self {
                    State::Data => {
                        builder.push_token(Token::Eof);
                        return State::Eof;
                    },
                    State::ScriptData => {
                        builder.push_token(Token::Eof);
                        builder.emit_token();
                        return State::Eof;
                    },
                    State::ScriptDataEndTagName => {
                        Self::end_tag_as_text(builder);
                        builder.reconsume_char();
                        return State::ScriptData;
                    },
                    State::ScriptDataEndTagOpen => {
                        builder.push_str("</");
                        builder.reconsume_char();
                        return State::ScriptData;
                    },
                    State::ScriptDataEscapeStart | State::ScriptDataEscapeStartDash => {
                        builder.reconsume_char();
                        return State::ScriptData;
                    },
                    State::ScriptDataLessThanSign => {
                        builder.push_char('<');
                        builder.reconsume_char();
                        return State::ScriptData;
                    },
                    _ => {
                        builder.reconsume_char();
                        return State::Data;
                    },
                }
            },
        };
        match self {
            State::Data => {
                if ch == '<' {
                    State::TagOpen
                } else {
                    builder.push_char(ch);
                    State::Data
                }
            },
            State::ScriptData => {
                if ch == '<' {
                    State::ScriptDataLessThanSign
                } else {
                    builder.push_char(ch);
                    State::ScriptData
                }
            },
            State::ScriptDataEndTagName => {
                if ch == '>' {
                    if builder.appropriate_end_tag() {
                        builder.emit_token();
                        State::Data
                    } else {
                        Self::end_tag_as_text(builder);
                        State::ScriptData
                    }
                } else if ascii_alpha(ch) {
                    match &mut builder.token {
                        Some(Token::EndTag(name)) => {
                            name.push(to_ascii_lower(ch));
                        },
                        _ => {},
                    }
                    State::ScriptDataEndTagName
                } else {
                    Self::end_tag_as_text(builder);
                    State::ScriptData
                }
            },
            State::ScriptDataEndTagOpen => {
                if ascii_alpha(ch) {
                    builder.push_token(Token::EndTag(one_char(to_ascii_lower(ch))));
                    State::ScriptDataEndTagName
                } else {
                    builder.push_str("</");
                    builder.reconsume_char();
                    State::ScriptData
                }
            },
            State::ScriptDataEscaped => {
                if ch == '-' {
                    builder.push_char(ch);
                    State::ScriptDataEscapedDash
                } else if ch == '<' {
                    State::ScriptDataLessThanSign
                } else {
                    builder.push_char(ch);
                    State::ScriptDataEscaped
                }
            },
            State::ScriptDataEscapeStart => {
                if ch == '-' {
                    builder.push_char(ch);
                    State::ScriptDataEscapeStartDash
                } else {
                    builder.reconsume_char();
                    State::ScriptData
                }
            },
            State::ScriptDataEscapedDash => {
                builder.push_char(ch);
                if ch == '-' {
                    State::ScriptDataEscapeDashDash
                } else {
                    State::ScriptDataEscaped
                }
            },
            State::ScriptDataEscapeDashDash => {
                if ch == '<' {
                    State::ScriptDataLessThanSign
                } else {
                    builder.push_char(ch);
                    if ch == '-' {
                        State::ScriptDataEscapeDashDash
                    } else if ch == '>' {
                        State::ScriptData
                    } else {
                        State::ScriptDataEscaped
                    }
                }
            },
            State::ScriptDataEscapeStartDash => {
                if ch == '-' {
                    builder.push_char(ch);
                    State::ScriptDataEscapeDashDash
                } else {
                    builder.reconsume_char();
                    State::ScriptData
                }
            },
            _ => {
                if ch == '/' {
                    builder.buf.clear();
                    State::ScriptDataEndTagOpen
                } else if ch == '!' {
                    builder.push_str("<!");
                    State::ScriptDataEscapeStart
                } else {
                    builder.push_char('<');
                    builder.reconsume_char();
                    State::ScriptData
                }
            },
        }
    }

    /// Takes the transition from this state for one signal: the character is
    /// buffered, the accumulator is changed as the transition says, and the
    /// next state is returned.
    ///
    /// Where no transition is defined, nothing changes and that is what comes
    /// back.
    pub fn next_char(self, c: NextChar, builder: &mut Builder) -> (r: Result<
        State,
        UnimplementedTransition,
    >)
        ensures
            match r {
                Ok(next) => self.covers(c, old(builder)@) && (next, final(builder)@)
                    == self.transition(c, old(builder)@),
                Err(e) => !self.covers(c, old(builder)@) && e == (UnimplementedTransition {
                    state: self,
                    signal: c,
                }) && final(builder)@ == old(builder)@,
            },
    {
        if !self.handles(c, builder) {
            return Err(UnimplementedTransition { state: self, signal: c });
        }
        Ok(self.step(c, builder))
    }

    /// Takes a transition that is defined.
    fn step(self, c: NextChar, builder: &mut Builder) -> (next: State)
        requires
            self.covers(c, old(builder)@),
        ensures
            (next, final(builder)@) == self.transition(c, old(builder)@),
    {
        builder.push_buf(c);
        match self {
            State::AfterAttributeName
            | State::AfterAttributeValueQuoted
            | State::AttributeName
            | State::AttributeValueDoubleQuoted
            | State::AttributeValueSingleQuoted
            | State::AttributeValueUnquoted
            | State::BeforeAttributeName
            | State::BeforeAttributeValue => self.attribute_states(c, builder),
            State::MarkupDeclarationOpen
            | State::DOCTYPE
            | State::BeforeDOCTYPEName
            | State::DOCTYPEName
            | State::AfterDOCTYPEName => self.doctype_states(c, builder),
            State::TagOpen
            | State::EndTagOpen
            | State::TagName
            | State::SelfClosingStartTag => self.tag_states(c, builder),
            State::Eof => self,
            _ => self.text_states(c, builder),
        }
    }
}

} // verus!
