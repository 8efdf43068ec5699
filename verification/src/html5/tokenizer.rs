//! The tokenizer: its data (tokens, parse errors, results, the signal that the
//! character source gives for each step) and its driver, which feeds the
//! characters of a text to the lexer states and hands out the results.
//!
//! `DriverView` says what the driver does, one pull at a time; the laws that
//! hold of the whole sequence of results are proved in `progress`, `order` and
//! `coalescing`.

pub mod builder;
pub mod coalescing;
pub mod ending;
pub mod order;
pub mod progress;
pub mod source;
pub mod state;

pub use self::state::State;

use self::builder::{Builder, BuilderView};
use self::source::CharSource;
use crate::types::{AttributeMap, Error};
use vstd::prelude::*;
use vstd::utf8::{decode_utf8, valid_utf8};

verus! {

/// A parse error with the place where it was found. Lines count from 1, columns
/// from 0.
#[derive(Debug, PartialEq)]
pub struct TokenError {
    pub code: String,
    pub line: usize,
    pub col: usize,
}

/// What a `TokenError` says.
pub struct ErrorView {
    pub code: Seq<char>,
    pub line: nat,
    pub col: nat,
}

impl View for TokenError {
    type V = ErrorView;

    open spec fn view(&self) -> ErrorView {
        ErrorView { code: self.code@, line: self.line as nat, col: self.col as nat }
    }
}

/// The errors of a list, in order.
pub open spec fn errors_view(errors: Seq<TokenError>) -> Seq<ErrorView> {
    errors.map_values(|e: TokenError| e@)
}

/// A start tag: its name, its attributes and whether it closes itself.
#[derive(Debug, PartialEq)]
pub struct StartTag {
    pub name: String,
    pub attributes: AttributeMap,
    pub self_closing: bool,
}

/// What a `StartTag` says.
pub struct StartTagView {
    pub name: Seq<char>,
    pub attributes: Seq<(Seq<char>, Seq<char>)>,
    pub self_closing: bool,
}

impl View for StartTag {
    type V = StartTagView;

    open spec fn view(&self) -> StartTagView {
        StartTagView {
            name: self.name@,
            attributes: self.attributes@,
            self_closing: self.self_closing,
        }
    }
}

impl StartTag {
    /// A start tag of this name with no attributes, not self-closing.
    pub fn from(name: &String) -> (tag: StartTag)
        ensures
            tag@ == (StartTagView {
                name: name@,
                attributes: Seq::empty(),
                self_closing: false,
            }),
    {
        StartTag { name: name.clone(), attributes: AttributeMap::new(), self_closing: false }
    }
}

/// One unit of markup.
#[derive(Debug, PartialEq)]
pub enum Token {
    Character(String),
    Comment(String),
    Doctype {
        name: Option<String>,
        public_id: Option<String>,
        system_id: Option<String>,
        /// False asks for quirks mode.
        correctness: bool,
    },
    EndTag(String),
    Eof,
    StartTag(StartTag),
}

/// What a `Token` says.
pub enum TokenView {
    Character(Seq<char>),
    Comment(Seq<char>),
    Doctype {
        name: Option<Seq<char>>,
        public_id: Option<Seq<char>>,
        system_id: Option<Seq<char>>,
        correctness: bool,
    },
    EndTag(Seq<char>),
    Eof,
    StartTag(StartTagView),
}

/// The text of an optional string.
pub open spec fn text_view(s: Option<String>) -> Option<Seq<char>> {
    match s {
        Some(s) => Some(s@),
        None => None,
    }
}

impl View for Token {
    type V = TokenView;

    open spec fn view(&self) -> TokenView {
        match *self {
            Token::Character(s) => TokenView::Character(s@),
            Token::Comment(s) => TokenView::Comment(s@),
            Token::Doctype { name, public_id, system_id, correctness } => TokenView::Doctype {
                name: text_view(name),
                public_id: text_view(public_id),
                system_id: text_view(system_id),
                correctness,
            },
            Token::EndTag(s) => TokenView::EndTag(s@),
            Token::Eof => TokenView::Eof,
            Token::StartTag(tag) => TokenView::StartTag(tag@),
        }
    }
}

/// The token of an optional token.
pub open spec fn token_view(t: Option<Token>) -> Option<TokenView> {
    match t {
        Some(t) => Some(t@),
        None => None,
    }
}

/// A token with the errors met on the way to it, or errors alone.
#[derive(Debug, PartialEq)]
pub enum TokenResult {
    Emitted { token: Token, errors: Vec<TokenError> },
    Errors(Vec<TokenError>),
}

/// What a `TokenResult` says.
pub enum ResultView {
    Emitted { token: TokenView, errors: Seq<ErrorView> },
    Errors(Seq<ErrorView>),
}

impl View for TokenResult {
    type V = ResultView;

    open spec fn view(&self) -> ResultView {
        match *self {
            TokenResult::Emitted { token, errors } => ResultView::Emitted {
                token: token@,
                errors: errors_view(errors@),
            },
            TokenResult::Errors(errors) => ResultView::Errors(errors_view(errors@)),
        }
    }
}

/// The results of a queue, in order.
pub open spec fn results_view(results: Seq<TokenResult>) -> Seq<ResultView> {
    results.map_values(|r: TokenResult| r@)
}

/// The result of an optional result.
pub open spec fn result_view(r: Option<TokenResult>) -> Option<ResultView> {
    match r {
        Some(r) => Some(r@),
        None => None,
    }
}

/// What the character source gives for one step: a character, the end of the
/// input, or a stall (no character for now, and not the end).
#[derive(Clone, Copy, Debug, PartialEq, Eq, Structural)]
pub enum NextChar {
    Ch(char),
    Eof,
    Stop,
}

/// What a `TokenIterator` holds: the lexer state, the accumulator, whether the
/// sequence has been cut short, and the characters that are still to come.
pub struct DriverView {
    pub state: State,
    pub builder: BuilderView,
    pub halted: bool,
    pub input: Seq<char>,
}

/// Whether the position counters can take one more signal.
pub open spec fn room(b: BuilderView, c: NextChar) -> bool {
    b.reconsume_char || if c == NextChar::Ch('\n') {
        b.line < usize::MAX
    } else {
        b.col < usize::MAX
    }
}

impl DriverView {
    /// The start: an empty accumulator that remembers `last_start_tag`, in
    /// `state`, before the first character of `input`.
    pub open spec fn start(
        input: Seq<char>,
        state: State,
        last_start_tag: Option<Seq<char>>,
    ) -> DriverView {
        DriverView {
            state,
            builder: BuilderView { last_start_tag, ..BuilderView::new() },
            halted: false,
            input,
        }
    }

    /// The sequence is cut short. Pending text is finished as it is; any other
    /// pending token is not complete and is dropped. Then the pending errors
    /// with one more, `code`, at the current position, join the queue as a
    /// result without a token.
    pub open spec fn halt(self, code: Seq<char>) -> DriverView {
        let kept = if self.builder.token matches Some(TokenView::Character(_)) {
            self.builder.push_result()
        } else {
            self.builder
        };
        let b = kept.add_error(code);
        DriverView {
            halted: true,
            builder: BuilderView {
                token: None,
                errors: Seq::empty(),
                results: b.results.push(ResultView::Errors(b.errors)),
                ..b
            },
            ..self
        }
    }

    /// The end of a step that took its transitions: a token that was emitted
    /// is flushed; the request to feed the character again has been served.
    pub open spec fn settle(self, state: State, b: BuilderView) -> (DriverView, bool) {
        if b.emit_token {
            (DriverView { state, builder: b.flush(), ..self }, true)
        } else {
            (DriverView { state, builder: BuilderView { reconsume_char: false, ..b }, ..self }, false)
        }
    }

    /// One signal is fed: the position moves on, the state takes its
    /// transition, and takes one more for the same signal if the first asked
    /// for that. Where the position counters are full, or a transition is not
    /// defined, the sequence is cut short instead. The flag says that a result
    /// is ready.
    pub open spec fn feed(self, c: NextChar) -> (DriverView, bool) {
        if !room(self.builder, c) {
            (self.halt("position-overflow"@), true)
        } else {
            let b1 = self.builder.next_char(c);
            if !self.state.covers(c, b1) {
                (DriverView { builder: b1, ..self }.halt("unimplemented-transition"@), true)
            } else {
                let (s1, b2) = self.state.transition(c, b1);
                if !b2.reconsume_char {
                    self.settle(s1, b2)
                } else if !s1.covers(c, b2) {
                    (
                        DriverView { state: s1, builder: b2, ..self }.halt(
                            "unimplemented-transition"@,
                        ),
                        true,
                    )
                } else {
                    let (s2, b3) = s1.transition(c, b2);
                    self.settle(s2, b3)
                }
            }
        }
    }

    /// The signal that the source gives next.
    pub open spec fn signal(self) -> NextChar {
        if self.input.len() > 0 {
            NextChar::Ch(self.input[0])
        } else {
            NextChar::Eof
        }
    }

    /// The source has given its signal.
    pub open spec fn advance(self) -> DriverView {
        if self.input.len() > 0 {
            DriverView { input: self.input.drop_first(), ..self }
        } else {
            self
        }
    }

    /// The oldest result leaves the queue, if there is one.
    pub open spec fn pop(self) -> (DriverView, Option<ResultView>) {
        if self.builder.results.len() > 0 {
            (
                DriverView {
                    builder: BuilderView {
                        results: self.builder.results.drop_first(),
                        ..self.builder
                    },
                    ..self
                },
                Some(self.builder.results[0]),
            )
        } else {
            (self, None)
        }
    }

    /// A last flush, and the oldest result leaves the queue.
    pub open spec fn finish(self) -> (DriverView, Option<ResultView>) {
        DriverView { builder: self.builder.flush(), ..self }.pop()
    }

    /// Signals are fed until a result is ready or the end of the input has
    /// been fed.
    pub open spec fn run(self) -> (DriverView, Option<ResultView>)
        decreases self.input.len(),
    {
        let c = self.signal();
        let (fed, ready) = self.advance().feed(c);
        if ready && fed.builder.results.len() > 0 {
            fed.pop()
        } else if c == NextChar::Eof {
            fed.finish()
        } else {
            fed.run()
        }
    }

    /// One pull: a queued result if there is one; nothing once the sequence
    /// has been cut short; in the end state what is still pending, and
    /// nothing is fed any more; else what feeding the input brings.
    pub open spec fn pull(self) -> (DriverView, Option<ResultView>) {
        if self.builder.results.len() > 0 {
            self.pop()
        } else if self.halted {
            (self, None)
        } else if self.state == State::Eof {
            self.finish()
        } else {
            self.run()
        }
    }
}

/// A text to tokenize, the state to start in, and the last start tag of the
/// text before it, if it continues one.
pub struct Tokenizer {
    pub source: CharSource,
    pub initial_state: State,
    pub last_start_tag: Option<StartTag>,
}

impl Tokenizer {
    /// The name of the last start tag.
    pub open spec fn last_name(self) -> Option<Seq<char>> {
        match self.last_start_tag {
            Some(tag) => Some(tag.name@),
            None => None,
        }
    }

    /// A tokenizer for the text `i`, to start in `initial_state`. Where the
    /// text continues another, `last_start_tag` is the last start tag of that
    /// one: an end tag in script data is taken as one only if it bears its
    /// name.
    pub fn from_str(i: &str, initial_state: State, last_start_tag: Option<StartTag>) -> (t:
        Tokenizer)
        ensures
            t.source.remaining() == i@,
            t.initial_state == initial_state,
            t.last_start_tag == last_start_tag,
    {
        Tokenizer { source: CharSource::new(i), initial_state, last_start_tag }
    }

    /// A tokenizer for the text that the bytes encode in UTF-8. Bytes that are
    /// not well-formed UTF-8 are refused.
    pub fn from_bytes(bytes: &[u8], initial_state: State, last_start_tag: Option<StartTag>) -> (r:
        Result<Tokenizer, Error>)
        ensures
            match r {
                Ok(t) => valid_utf8(bytes@) && t.source.remaining() == decode_utf8(bytes@)
                    && t.initial_state == initial_state && t.last_start_tag == last_start_tag,
                Err(e) => !valid_utf8(bytes@) && e is Utf8Error,
            },
    {
        match CharSource::from_bytes(bytes) {
            Some(source) => Ok(Tokenizer { source, initial_state, last_start_tag }),
            None => Err(Error::Utf8Error("the input is not well-formed UTF-8".to_owned())),
        }
    }

    /// The sequence of results for this text, before its first pull.
    pub fn iter(self) -> (it: TokenIterator)
        ensures
            it@ == DriverView::start(self.source.remaining(), self.initial_state, self.last_name()),
    {
        let mut builder = Builder::new();
        builder.last_start_tag = match self.last_start_tag {
            Some(tag) => Some(tag.name),
            None => None,
        };
        TokenIterator { builder, state: self.initial_state, halted: false, source: self.source }
    }
}

/// The driver: it pulls characters from the source, feeds them to the lexer
/// state and hands out the results in the order in which they were finished.
pub struct TokenIterator {
    pub builder: Builder,
    pub state: State,
    pub halted: bool,
    pub source: CharSource,
}

impl View for TokenIterator {
    type V = DriverView;

    open spec fn view(&self) -> DriverView {
        DriverView {
            state: self.state,
            builder: self.builder@,
            halted: self.halted,
            input: self.source.remaining(),
        }
    }
}

impl TokenIterator {
    /// Cuts the sequence short with an error of this code.
    fn halt(&mut self, code: &str)
        ensures
            final(self)@ == old(self)@.halt(code@),
    {
        let text = match &self.builder.token {
            Some(Token::Character(_)) => true,
            _ => false,
        };
        if text {
            self.builder.push_result();
        }
        self.builder.add_error(code);
        self.builder.token = None;
        let mut errors: Vec<TokenError> = Vec::new();
        std::mem::swap(&mut self.builder.errors, &mut errors);
        self.builder.results.push_back(TokenResult::Errors(errors));
        self.halted = true;
        assert(self@.builder.errors =~= Seq::empty());
        assert(self@.builder.results =~= old(self)@.halt(code@).builder.results);
    }

    /// Whether the position counters can take this signal.
    fn has_room(&self, c: NextChar) -> (b: bool)
        ensures
            b == room(self.builder@, c),
    {
        self.builder.reconsume_char || match c {
            NextChar::Ch('\n') => self.builder.line < usize::MAX,
            _ => self.builder.col < usize::MAX,
        }
    }

    /// Ends a step that took its transitions.
    fn settle(&mut self, state: State) -> (ready: bool)
        ensures
            (final(self)@, ready) == old(self)@.settle(state, old(self)@.builder),
    {
        self.state = state;
        if self.builder.emit_token {
            self.builder.flush();
            true
        } else {
            self.builder.reconsume_char = false;
            false
        }
    }

    /// Feeds one signal to the lexer state. Says whether a result is ready.
    pub fn feed(&mut self, c: NextChar) -> (ready: bool)
        ensures
            (final(self)@, ready) == old(self)@.feed(c),
    {
        if !self.has_room(c) {
            self.halt("position-overflow");
            return true;
        }
        self.builder.next_char(c);
        let mut state = match self.state.next_char(c, &mut self.builder) {
            Ok(state) => state,
            Err(_) => {
                self.halt("unimplemented-transition");
                return true;
            },
        };
        if self.builder.reconsume_char {
            state = match state.next_char(c, &mut self.builder) {
                Ok(next) => next,
                Err(_) => {
                    self.state = state;
                    self.halt("unimplemented-transition");
                    return true;
                },
            };
        }
        self.settle(state)
    }

    /// Takes the oldest result from the queue.
    fn pop(&mut self) -> (r: Option<TokenResult>)
        ensures
            (final(self)@, result_view(r)) == old(self)@.pop(),
    {
        let r = self.builder.results.pop_front();
        assert(self@.builder.results =~= old(self)@.pop().0.builder.results);
        r
    }

    /// The next result: a token with the errors met on the way to it, or, where
    /// the sequence is cut short, the errors alone. `None` when nothing is left.
    ///
    /// A queued result is handed out at once. Else characters are fed until a
    /// token is ready or the end of the input has been fed; a stall of the
    /// source would end the pull before anything is fed. What is pending then
    /// is flushed, and the oldest result is handed out. Once the end state is
    /// reached nothing is fed any more.
    pub fn next(&mut self) -> (r: Option<TokenResult>)
        ensures
            (final(self)@, result_view(r)) == old(self)@.pull(),
    {
        if self.builder.results.len() > 0 {
            return self.pop();
        }
        if self.halted {
            return None;
        }
        if self.state == State::Eof {
            self.builder.flush();
            return self.pop();
        }
        let ghost goal = self@.run();
        loop
            invariant_except_break
                self@.run() == goal,
            invariant
                goal == old(self)@.pull(),
            ensures
                self@.finish() == goal,
            decreases self@.input.len(),
        {
            let ghost before = self@;
            let c = self.source.next();
            assert(c == before.signal());
            assert(self@ == before.advance());
            match c {
                NextChar::Stop => {
                    break ;
                },
                _ => {},
            }
            let ready = self.feed(c);
            if ready && self.builder.results.len() > 0 {
                return self.pop();
            }
            match c {
                NextChar::Eof => {
                    break ;
                },
                _ => {},
            }
        }
        self.builder.flush();
        self.pop()
    }
}

} // verus!
