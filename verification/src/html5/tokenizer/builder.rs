//! The token accumulator: the one place that the lexer states write to. It
//! holds the token being assembled, the staged attribute, the errors waiting
//! for their token, the finished results and the position counters.

use super::{
    errors_view, results_view, text_view, token_view, ErrorView, NextChar, ResultView, StartTag,
    StartTagView, Token, TokenError, TokenResult, TokenView,
};
use std::collections::VecDeque;
use vstd::prelude::*;
use vstd::string::StringExecFns;

verus! {

/// What a `Builder` holds, as plain values, with each of its operations as a
/// function from one such value to the next.
pub struct BuilderView {
    pub attribute_name: Seq<char>,
    pub attribute_value: Seq<char>,
    pub buf: Seq<char>,
    pub col: nat,
    pub emit_token: bool,
    pub errors: Seq<ErrorView>,
    pub line: nat,
    pub reconsume_char: bool,
    pub token: Option<TokenView>,
    pub results: Seq<ResultView>,
    pub last_start_tag: Option<Seq<char>>,
}

impl BuilderView {
    /// An empty accumulator at line 1, column 0.
    pub open spec fn new() -> BuilderView {
        BuilderView {
            attribute_name: Seq::empty(),
            attribute_value: Seq::empty(),
            buf: Seq::empty(),
            col: 0,
            emit_token: false,
            errors: Seq::empty(),
            line: 1,
            reconsume_char: false,
            token: None,
            results: Seq::empty(),
            last_start_tag: None,
        }
    }

    /// One more pending error, at the current position.
    pub open spec fn add_error(self, code: Seq<char>) -> BuilderView {
        BuilderView {
            errors: self.errors.push(ErrorView { code, line: self.line, col: self.col }),
            ..self
        }
    }

    pub open spec fn add_to_attribute_name(self, c: char) -> BuilderView {
        BuilderView { attribute_name: self.attribute_name.push(c), ..self }
    }

    pub open spec fn add_to_attribute_value(self, c: char) -> BuilderView {
        BuilderView { attribute_value: self.attribute_value.push(c), ..self }
    }

    /// The pending token is an end tag named as the last start tag was.
    pub open spec fn appropriate_end_tag(self) -> bool {
        match self.token {
            Some(TokenView::EndTag(name)) => self.last_start_tag == Some(name),
            _ => false,
        }
    }

    /// The pending token is dropped and the newest queued result leaves the
    /// queue; if that result holds a token, the token is pending again and its
    /// errors replace the pending errors.
    pub open spec fn discard_and_rewind(self) -> BuilderView {
        if self.results.len() == 0 {
            BuilderView { token: None, ..self }
        } else {
            match self.results.last() {
                ResultView::Emitted { token, errors } => BuilderView {
                    token: Some(token),
                    errors,
                    results: self.results.drop_last(),
                    ..self
                },
                ResultView::Errors(_) => BuilderView {
                    token: None,
                    results: self.results.drop_last(),
                    ..self
                },
            }
        }
    }

    /// The staged attribute goes to the pending start tag unless its name is
    /// already there, which is an error; on an end tag it is an error too. The
    /// staging buffers are emptied. Nothing happens while no name is staged.
    pub open spec fn finalize_attribute(self) -> BuilderView {
        if self.attribute_name.len() == 0 {
            self
        } else {
            let noted = match self.token {
                Some(TokenView::StartTag(tag)) => if crate::types::has_name(
                    tag.attributes,
                    self.attribute_name,
                ) {
                    self.add_error("duplicate-attribute"@)
                } else {
                    BuilderView {
                        token: Some(
                            TokenView::StartTag(
                                StartTagView {
                                    attributes: tag.attributes.push(
                                        (self.attribute_name, self.attribute_value),
                                    ),
                                    ..tag
                                },
                            ),
                        ),
                        ..self
                    }
                },
                Some(TokenView::EndTag(_)) => self.add_error("end-tag-with-attributes"@),
                _ => self,
            };
            BuilderView { attribute_name: Seq::empty(), attribute_value: Seq::empty(), ..noted }
        }
    }

    /// The pending token, if there is one, joins the queue with the pending
    /// errors, after a staged attribute has been finalized. A start tag's name
    /// is remembered as the last start tag.
    pub open spec fn push_result(self) -> BuilderView {
        let b = if self.attribute_name.len() != 0 || self.attribute_value.len() != 0 {
            self.finalize_attribute()
        } else {
            self
        };
        match b.token {
            Some(token) => BuilderView {
                token: None,
                errors: Seq::empty(),
                results: b.results.push(ResultView::Emitted { token, errors: b.errors }),
                last_start_tag: match token {
                    TokenView::StartTag(tag) => Some(tag.name),
                    _ => b.last_start_tag,
                },
                ..b
            },
            None => b,
        }
    }

    /// Text joins pending text; any other pair finishes the pending token and
    /// makes `token` the pending one.
    pub open spec fn push_token(self, token: TokenView) -> BuilderView {
        match (self.token, token) {
            (Some(TokenView::Character(lhs)), TokenView::Character(rhs)) => BuilderView {
                token: Some(TokenView::Character(lhs + rhs)),
                ..self
            },
            _ => BuilderView { token: Some(token), ..self.push_result() },
        }
    }

    pub open spec fn push_str(self, s: Seq<char>) -> BuilderView {
        self.push_token(TokenView::Character(s))
    }

    pub open spec fn push_char(self, c: char) -> BuilderView {
        self.push_str(seq![c])
    }

    /// The pending token is finished and the driver is told that a result is
    /// ready.
    pub open spec fn emit_token(self) -> BuilderView {
        BuilderView { emit_token: true, ..self.push_result() }
    }

    /// The pending token is finished and what belongs to one character is
    /// reset. The queue stays.
    pub open spec fn flush(self) -> BuilderView {
        BuilderView {
            buf: Seq::empty(),
            emit_token: false,
            reconsume_char: false,
            attribute_name: Seq::empty(),
            ..self.push_result()
        }
    }

    /// The position moves on for a character that is fed for the first time: a
    /// line feed counts as a line, anything else as a column.
    pub open spec fn next_char(self, c: NextChar) -> BuilderView {
        if self.reconsume_char {
            BuilderView { reconsume_char: false, ..self }
        } else if c == NextChar::Ch('\n') {
            BuilderView { line: self.line + 1, ..self }
        } else {
            BuilderView { col: self.col + 1, ..self }
        }
    }

    pub open spec fn push_buf(self, c: NextChar) -> BuilderView {
        match c {
            NextChar::Ch(ch) => BuilderView { buf: self.buf.push(ch), ..self },
            _ => self,
        }
    }

    pub open spec fn reconsume_char(self) -> BuilderView {
        BuilderView { reconsume_char: true, ..self }
    }
}

/// The names of a pending start tag's attributes are unique.
pub open spec fn unique_attributes(token: Option<TokenView>) -> bool {
    match token {
        Some(TokenView::StartTag(tag)) => crate::types::unique_names(tag.attributes),
        _ => true,
    }
}

/// Committing the staged attribute keeps the names of the pending start
/// tag's attributes unique: a name that is already there is not added again.
pub proof fn lemma_finalize_attribute_unique(b: BuilderView)
    requires
        unique_attributes(b.token),
    ensures
        unique_attributes(b.finalize_attribute().token),
{
    match b.token {
        Some(TokenView::StartTag(tag)) => {
            crate::types::lemma_with_attribute_unique(
                tag.attributes,
                b.attribute_name,
                b.attribute_value,
            );
        },
        _ => {},
    }
}

/// The token accumulator.
#[derive(Debug)]
pub struct Builder {
    pub attribute_name: String,
    pub attribute_value: String,
    pub buf: String,
    pub col: usize,
    pub emit_token: bool,
    pub errors: Vec<TokenError>,
    pub line: usize,
    pub reconsume_char: bool,
    pub token: Option<Token>,
    pub results: VecDeque<TokenResult>,
    pub last_start_tag: Option<String>,
}

impl View for Builder {
    type V = BuilderView;

    open spec fn view(&self) -> BuilderView {
        BuilderView {
            attribute_name: self.attribute_name@,
            attribute_value: self.attribute_value@,
            buf: self.buf@,
            col: self.col as nat,
            emit_token: self.emit_token,
            errors: errors_view(self.errors@),
            line: self.line as nat,
            reconsume_char: self.reconsume_char,
            token: token_view(self.token),
            results: results_view(self.results@),
            last_start_tag: text_view(self.last_start_tag),
        }
    }
}

impl Builder {
    /// An empty accumulator at line 1, column 0.
    pub fn new() -> (b: Builder)
        ensures
            b@ == BuilderView::new(),
    {
        let b = Builder {
            attribute_name: String::new(),
            attribute_value: String::new(),
            buf: String::new(),
            col: 0,
            emit_token: false,
            errors: Vec::new(),
            line: 1,
            reconsume_char: false,
            token: None,
            results: VecDeque::new(),
            last_start_tag: None,
        };
        assert(b@.errors =~= Seq::empty());
        assert(b@.results =~= Seq::empty());
        b
    }

    /// Records an error at the current position. It goes out with the token
    /// that is finished next.
    pub fn add_error(&mut self, code: &str)
        ensures
            final(self)@ == old(self)@.add_error(code@),
    {
        let error = TokenError { code: code.to_owned(), line: self.line, col: self.col };
        self.errors.push(error);
        assert(self@.errors =~= old(self)@.add_error(code@).errors);
    }

    /// Appends a character to the staged attribute name.
    pub fn add_to_attribute_name(&mut self, c: char)
        ensures
            final(self)@ == old(self)@.add_to_attribute_name(c),
    {
        self.attribute_name.push(c);
    }

    /// Appends a character to the staged attribute value.
    pub fn add_to_attribute_value(&mut self, c: char)
        ensures
            final(self)@ == old(self)@.add_to_attribute_value(c),
    {
        self.attribute_value.push(c);
    }

    /// Whether the pending token is an end tag named as the last start tag was.
    pub fn appropriate_end_tag(&self) -> (b: bool)
        ensures
            b == self@.appropriate_end_tag(),
    {
        match &self.token {
            Some(Token::EndTag(name)) => match &self.last_start_tag {
                Some(last) => *last == *name,
                None => false,
            },
            _ => false,
        }
    }

    /// Drops the pending token and takes the newest queued result back as the
    /// pending token with its errors.
    pub fn discard_and_rewind(&mut self)
        ensures
            final(self)@ == old(self)@.discard_and_rewind(),
    {
        self.token = None;
        let ghost queued = self.results@;
        match self.results.pop_back() {
            Some(TokenResult::Emitted { token, errors }) => {
                self.token = Some(token);
                self.errors = errors;
            },
            _ => {},
        }
        assert(self@.results =~= old(self)@.discard_and_rewind().results);
    }

    /// Appends a character to pending text, or finishes the pending token and
    /// starts text with it.
    pub fn push_char(&mut self, c: char)
        ensures
            final(self)@ == old(self)@.push_char(c),
    {
        match &mut self.token {
            Some(Token::Character(string)) => {
                string.push(c);
                assert(string@ =~= old(self)@.token->0->Character_0 + seq![c]);
            },
            _ => {
                let mut s = String::new();
                s.push(c);
                assert(s@ =~= seq![c]);
                self.push_token(Token::Character(s));
            },
        }
    }

    /// Appends to pending text, or finishes the pending token and starts text.
    pub fn push_str(&mut self, s: &str)
        ensures
            final(self)@ == old(self)@.push_str(s@),
    {
        match &mut self.token {
            Some(Token::Character(string)) => {
                string.append(s);
            },
            _ => {
                self.push_token(Token::Character(s.to_owned()));
            },
        }
    }

    /// Joins text to pending text; any other pair finishes the pending token
    /// and makes `token` the pending one.
    pub fn push_token(&mut self, token: Token)
        ensures
            final(self)@ == old(self)@.push_token(token@),
    {
        match (&mut self.token, &token) {
            (Some(Token::Character(lhs)), Token::Character(rhs)) => {
                lhs.append(rhs.as_str());
            },
            _ => {
                self.push_result();
                self.token = Some(token);
            },
        }
    }

    /// Finishes the pending token: it joins the queue with the pending errors.
    pub fn push_result(&mut self)
        ensures
            final(self)@ == old(self)@.push_result(),
    {
        if !self.attribute_name.as_str().is_empty() || !self.attribute_value.as_str().is_empty() {
            self.finalize_attribute();
        }
        let ghost b = self@;
        match self.token.take() {
            Some(token) => {
                match &token {
                    Token::StartTag(tag) => {
                        self.last_start_tag = Some(tag.name.clone());
                    },
                    _ => {},
                }
                let mut errors: Vec<TokenError> = Vec::new();
                std::mem::swap(&mut self.errors, &mut errors);
                self.results.push_back(TokenResult::Emitted { token, errors });
                assert(self@.errors =~= Seq::empty());
                assert(self@.results =~= b.push_result().results);
            },
            None => {},
        }
    }

    /// Finishes the pending token and tells the driver that a result is ready.
    pub fn emit_token(&mut self)
        requires
            old(self)@.token is Some,
        ensures
            final(self)@ == old(self)@.emit_token(),
    {
        self.push_result();
        self.emit_token = true;
    }

    /// Commits the staged attribute to the pending start tag.
    pub fn finalize_attribute(&mut self)
        ensures
            final(self)@ == old(self)@.finalize_attribute(),
    {
        if self.attribute_name.as_str().is_empty() {
            return ;
        }
        let mut duplicate = false;
        let mut on_end_tag = false;
        match &mut self.token {
            Some(Token::StartTag(tag)) => {
                let added = tag.attributes.insert(
                    self.attribute_name.clone(),
                    self.attribute_value.clone(),
                );
                duplicate = !added;
            },
            Some(Token::EndTag(_)) => {
                on_end_tag = true;
            },
            _ => {},
        }
        if duplicate {
            self.add_error("duplicate-attribute");
        } else if on_end_tag {
            self.add_error("end-tag-with-attributes");
        }
        self.attribute_name.clear();
        self.attribute_value.clear();
    }

    /// Finishes the pending token and resets what belongs to one character.
    pub fn flush(&mut self)
        ensures
            final(self)@ == old(self)@.flush(),
    {
        self.push_result();
        self.buf.clear();
        self.emit_token = false;
        self.reconsume_char = false;
        self.attribute_name.clear();
    }

    /// Moves the position on for a character that is fed for the first time.
    pub fn next_char(&mut self, c: NextChar)
        requires
            !old(self).reconsume_char ==> if c == NextChar::Ch('\n') {
                old(self).line < usize::MAX
            } else {
                old(self).col < usize::MAX
            },
        ensures
            final(self)@ == old(self)@.next_char(c),
    {
        if !self.reconsume_char {
            match c {
                NextChar::Ch('\n') => {
                    self.line += 1;
                },
                _ => {
                    self.col += 1;
                },
            }
        }
        self.reconsume_char = false;
    }

    /// Buffers the character for the states that look ahead.
    pub fn push_buf(&mut self, c: NextChar)
        ensures
            final(self)@ == old(self)@.push_buf(c),
    {
        match c {
            NextChar::Ch(ch) => {
                self.buf.push(ch);
            },
            _ => {},
        }
    }

    /// Asks the driver to feed the character again, to the next state.
    pub fn reconsume_char(&mut self)
        ensures
            final(self)@ == old(self)@.reconsume_char(),
    {
        self.reconsume_char = true;
    }
}

} // verus!
