//! The positions of the errors: in the order in which the errors are handed
//! out, neither the line nor the column ever goes back.

use super::builder::BuilderView;
use super::state::State;
use super::{room, DriverView, ErrorView, NextChar, ResultView};
use vstd::prelude::*;

verus! {

/// The errors that a result carries.
pub open spec fn errors_of(r: ResultView) -> Seq<ErrorView> {
    match r {
        ResultView::Emitted { errors, .. } => errors,
        ResultView::Errors(errors) => errors,
    }
}

/// The errors of all the results, in order.
pub open spec fn all_errors(rs: Seq<ResultView>) -> Seq<ErrorView>
    decreases rs.len(),
{
    if rs.len() == 0 {
        Seq::empty()
    } else {
        all_errors(rs.drop_last()) + errors_of(rs.last())
    }
}

/// The second error is not before the first, by line or by column.
pub open spec fn not_before(first: ErrorView, second: ErrorView) -> bool {
    first.line <= second.line && first.col <= second.col
}

/// No error of the list is at a place before that of an earlier error.
pub open spec fn in_order(es: Seq<ErrorView>) -> bool {
    forall|i: int, j: int| 0 <= i <= j < es.len() ==> not_before(es[i], es[j])
}

/// Every error of the list is at or before this place.
pub open spec fn up_to(es: Seq<ErrorView>, line: nat, col: nat) -> bool {
    forall|i: int| 0 <= i < es.len() ==> (#[trigger] es[i]).line <= line && es[i].col <= col
}

/// Every error of the list is at or after this place.
pub open spec fn from(es: Seq<ErrorView>, line: nat, col: nat) -> bool {
    forall|i: int| 0 <= i < es.len() ==> line <= (#[trigger] es[i]).line && col <= es[i].col
}

/// Every error of the list is on this line or on one before it.
pub open spec fn lines_up_to(es: Seq<ErrorView>, line: nat) -> bool {
    forall|i: int| 0 <= i < es.len() ==> (#[trigger] es[i]).line <= line
}

/// The input holds no line feed.
pub open spec fn single_line(input: Seq<char>) -> bool {
    forall|i: int| 0 <= i < input.len() ==> input[i] != '\n'
}

impl BuilderView {
    /// The errors that the accumulator holds, queued or pending, in the
    /// order in which they will be handed out.
    pub open spec fn trail(self) -> Seq<ErrorView> {
        all_errors(self.results) + self.errors
    }

    /// The trail is in order and lies between the place `(line, col)` and the
    /// current position.
    #[verifier::opaque]
    pub open spec fn tidy(self, line: nat, col: nat) -> bool {
        &&& in_order(self.trail())
        &&& up_to(self.trail(), self.line, self.col)
        &&& from(self.trail(), line, col)
        &&& line <= self.line
        &&& col <= self.col
    }
}

/// The errors of a queue with one more result.
pub proof fn lemma_all_errors_push(rs: Seq<ResultView>, r: ResultView)
    ensures
        all_errors(rs.push(r)) == all_errors(rs) + errors_of(r),
{
    assert(rs.push(r).drop_last() =~= rs);
}

/// The errors of a queue, first result first.
pub proof fn lemma_all_errors_first(rs: Seq<ResultView>)
    requires
        rs.len() > 0,
    ensures
        all_errors(rs) == errors_of(rs[0]) + all_errors(rs.drop_first()),
    decreases rs.len(),
{
    if rs.len() == 1 {
        assert(rs.drop_last() =~= Seq::<ResultView>::empty());
        assert(rs.drop_first() =~= Seq::<ResultView>::empty());
        assert(all_errors(rs) =~= errors_of(rs[0]) + all_errors(rs.drop_first()));
    } else {
        lemma_all_errors_first(rs.drop_last());
        assert(rs.drop_last().drop_first() =~= rs.drop_first().drop_last());
        assert(all_errors(rs) =~= errors_of(rs[0]) + all_errors(rs.drop_first()));
    }
}

/// The errors of two queues joined.
pub proof fn lemma_all_errors_add(a: Seq<ResultView>, b: Seq<ResultView>)
    ensures
        all_errors(a + b) == all_errors(a) + all_errors(b),
    decreases b.len(),
{
    if b.len() == 0 {
        assert(a + b =~= a);
        assert(all_errors(a) + all_errors(b) =~= all_errors(a));
    } else {
        lemma_all_errors_add(a, b.drop_last());
        assert((a + b).drop_last() =~= a + b.drop_last());
        assert(all_errors(a + b) =~= all_errors(a) + all_errors(b));
    }
}

proof fn lemma_tidy_add_error(b: BuilderView, code: Seq<char>, line: nat, col: nat)
    requires
        b.tidy(line, col),
    ensures
        b.add_error(code).tidy(line, col),
{
    reveal(BuilderView::tidy);
    let e = ErrorView { code, line: b.line, col: b.col };
    assert(b.add_error(code).trail() =~= b.trail().push(e));
}

proof fn lemma_tidy_finalize(b: BuilderView, line: nat, col: nat)
    requires
        b.tidy(line, col),
    ensures
        b.finalize_attribute().tidy(line, col),
{
    lemma_tidy_add_error(b, "duplicate-attribute"@, line, col);
    lemma_tidy_add_error(b, "end-tag-with-attributes"@, line, col);
    reveal(BuilderView::tidy);
}

proof fn lemma_tidy_push_result(b: BuilderView, line: nat, col: nat)
    requires
        b.tidy(line, col),
    ensures
        b.push_result().tidy(line, col),
{
    lemma_tidy_finalize(b, line, col);
    reveal(BuilderView::tidy);
    let f = if b.attribute_name.len() != 0 || b.attribute_value.len() != 0 {
        b.finalize_attribute()
    } else {
        b
    };
    match f.token {
        Some(token) => {
            lemma_all_errors_push(f.results, ResultView::Emitted { token, errors: f.errors });
            assert(b.push_result().trail() =~= f.trail());
        },
        None => {},
    }
}

proof fn lemma_tidy_rewind(b: BuilderView, line: nat, col: nat)
    requires
        b.tidy(line, col),
    ensures
        b.discard_and_rewind().tidy(line, col),
{
    reveal(BuilderView::tidy);
    if b.results.len() > 0 {
        let front = all_errors(b.results.drop_last());
        let last = errors_of(b.results.last());
        assert(b.trail() =~= front + last + b.errors);
        let r = b.discard_and_rewind();
        match b.results.last() {
            ResultView::Emitted { token, errors } => {
                assert(r.trail() =~= front + last);
                assert forall|i: int, j: int| 0 <= i <= j < r.trail().len() implies not_before(
                    r.trail()[i],
                    r.trail()[j],
                ) by {
                    assert(r.trail()[i] == b.trail()[i]);
                    assert(r.trail()[j] == b.trail()[j]);
                }
                assert forall|i: int| 0 <= i < r.trail().len() implies (#[trigger] r.trail()[i]).line
                    <= b.line && r.trail()[i].col <= b.col && line <= r.trail()[i].line && col
                    <= r.trail()[i].col by {
                    assert(r.trail()[i] == b.trail()[i]);
                }
            },
            ResultView::Errors(_) => {
                assert(r.trail() =~= front + b.errors);
                let k = front.len() as int;
                let m = last.len() as int;
                assert forall|i: int, j: int| 0 <= i <= j < r.trail().len() implies not_before(
                    r.trail()[i],
                    r.trail()[j],
                ) by {
                    let i2 = if i < k {
                        i
                    } else {
                        i + m
                    };
                    let j2 = if j < k {
                        j
                    } else {
                        j + m
                    };
                    assert(r.trail()[i] == b.trail()[i2]);
                    assert(r.trail()[j] == b.trail()[j2]);
                }
                assert forall|i: int| 0 <= i < r.trail().len() implies (#[trigger] r.trail()[i]).line
                    <= b.line && r.trail()[i].col <= b.col && line <= r.trail()[i].line && col
                    <= r.trail()[i].col by {
                    let i2 = if i < k {
                        i
                    } else {
                        i + m
                    };
                    assert(r.trail()[i] == b.trail()[i2]);
                }
            },
        }
    }
}

proof fn lemma_tidy_push_token(b: BuilderView, token: super::TokenView, line: nat, col: nat)
    requires
        b.tidy(line, col),
    ensures
        b.push_token(token).tidy(line, col),
{
    lemma_tidy_push_result(b, line, col);
    reveal(BuilderView::tidy);
}

/// A change that leaves the queue, the pending errors and the position as
/// they are keeps the trail tidy.
proof fn lemma_tidy_same(b: BuilderView, c: BuilderView, line: nat, col: nat)
    requires
        b.tidy(line, col),
        c.results == b.results,
        c.errors == b.errors,
        c.line == b.line,
        c.col == b.col,
    ensures
        c.tidy(line, col),
{
    reveal(BuilderView::tidy);
}

/// What each operation of the accumulator does to a tidy trail.
pub broadcast proof fn lemma_tidy_ops(b: BuilderView, line: nat, col: nat)
    requires
        b.tidy(line, col),
    ensures
        #![trigger b.finalize_attribute().tidy(line, col)]
        #![trigger b.push_result().tidy(line, col)]
        #![trigger b.emit_token().tidy(line, col)]
        #![trigger b.flush().tidy(line, col)]
        #![trigger b.discard_and_rewind().tidy(line, col)]
        #![trigger b.reconsume_char().tidy(line, col)]
        #![trigger b.incorrect_doctype().tidy(line, col)]
        #![trigger b.self_closing().tidy(line, col)]
        #![trigger b.clear_buf().tidy(line, col)]
        b.finalize_attribute().tidy(line, col),
        b.push_result().tidy(line, col),
        b.emit_token().tidy(line, col),
        b.flush().tidy(line, col),
        b.discard_and_rewind().tidy(line, col),
        b.reconsume_char().tidy(line, col),
        b.incorrect_doctype().tidy(line, col),
        b.self_closing().tidy(line, col),
        b.clear_buf().tidy(line, col),
{
    lemma_tidy_finalize(b, line, col);
    lemma_tidy_push_result(b, line, col);
    lemma_tidy_rewind(b, line, col);
    lemma_tidy_same(b.push_result(), b.emit_token(), line, col);
    lemma_tidy_same(b.push_result(), b.flush(), line, col);
    lemma_tidy_same(b, b.reconsume_char(), line, col);
    lemma_tidy_same(b, b.incorrect_doctype(), line, col);
    lemma_tidy_same(b, b.self_closing(), line, col);
    lemma_tidy_same(b, b.clear_buf(), line, col);
}

pub broadcast proof fn lemma_tidy_error(b: BuilderView, code: Seq<char>, line: nat, col: nat)
    requires
        b.tidy(line, col),
    ensures
        #[trigger] b.add_error(code).tidy(line, col),
{
    lemma_tidy_add_error(b, code, line, col);
}

pub broadcast proof fn lemma_tidy_char(b: BuilderView, c: char, line: nat, col: nat)
    requires
        b.tidy(line, col),
    ensures
        #![trigger b.push_char(c).tidy(line, col)]
        #![trigger b.name_char(c).tidy(line, col)]
        #![trigger b.add_to_attribute_name(c).tidy(line, col)]
        #![trigger b.add_to_attribute_value(c).tidy(line, col)]
        b.push_char(c).tidy(line, col),
        b.name_char(c).tidy(line, col),
        b.add_to_attribute_name(c).tidy(line, col),
        b.add_to_attribute_value(c).tidy(line, col),
{
    lemma_tidy_push_token(b, super::TokenView::Character(seq![c]), line, col);
    lemma_tidy_same(b, b.name_char(c), line, col);
    lemma_tidy_same(b, b.add_to_attribute_name(c), line, col);
    lemma_tidy_same(b, b.add_to_attribute_value(c), line, col);
}

pub broadcast proof fn lemma_tidy_signal(b: BuilderView, c: NextChar, line: nat, col: nat)
    requires
        b.tidy(line, col),
    ensures
        #![trigger b.push_buf(c).tidy(line, col)]
        #![trigger b.next_char(c).tidy(line, col)]
        b.push_buf(c).tidy(line, col),
        b.next_char(c).tidy(line, col),
{
    lemma_tidy_same(b, b.push_buf(c), line, col);
    reveal(BuilderView::tidy);
}

pub broadcast proof fn lemma_tidy_text(b: BuilderView, s: Seq<char>, line: nat, col: nat)
    requires
        b.tidy(line, col),
    ensures
        #[trigger] b.push_str(s).tidy(line, col),
{
    lemma_tidy_push_token(b, super::TokenView::Character(s), line, col);
}

pub broadcast proof fn lemma_tidy_token(
    b: BuilderView,
    token: super::TokenView,
    line: nat,
    col: nat,
)
    requires
        b.tidy(line, col),
    ensures
        #[trigger] b.push_token(token).tidy(line, col),
{
    lemma_tidy_push_token(b, token, line, col);
}

pub broadcast group group_tidy {
    lemma_tidy_ops,
    lemma_tidy_error,
    lemma_tidy_char,
    lemma_tidy_signal,
    lemma_tidy_text,
    lemma_tidy_token,
}

/// A transition keeps the trail tidy and the line.
pub proof fn lemma_transition_tidy(s: State, c: NextChar, b: BuilderView, line: nat, col: nat)
    requires
        b.tidy(line, col),
        s.covers(c, b),
    ensures
        s.transition(c, b).1.tidy(line, col),
        s.transition(c, b).1.line == b.line,
{
    broadcast use group_tidy;

    let b1 = b.push_buf(c);
    assert(b1.tidy(line, col));
    match s {
        State::AfterAttributeName
        | State::AfterAttributeValueQuoted
        | State::AttributeName
        | State::AttributeValueDoubleQuoted
        | State::AttributeValueSingleQuoted
        | State::AttributeValueUnquoted
        | State::BeforeAttributeName
        | State::BeforeAttributeValue => {
            assert(s.attribute_step(c, b1).1.tidy(line, col));
        },
        State::MarkupDeclarationOpen
        | State::DOCTYPE
        | State::BeforeDOCTYPEName
        | State::DOCTYPEName
        | State::AfterDOCTYPEName => {
            assert(s.doctype_step(c, b1).1.tidy(line, col));
        },
        State::TagOpen | State::EndTagOpen | State::TagName | State::SelfClosingStartTag => {
            assert(s.tag_step(c, b1).1.tidy(line, col));
        },
        State::Eof => {},
        _ => {
            assert(b1.end_tag_as_text().tidy(line, col));
            assert(s.text_step(c, b1).1.tidy(line, col));
        },
    }
}

impl DriverView {
    /// The trail is tidy from the place `(line, col)` on.
    pub open spec fn orderly(self, line: nat, col: nat) -> bool {
        self.builder.tidy(line, col)
    }

    /// The driver before it handed out `r`.
    pub open spec fn with_front(self, r: Option<ResultView>) -> DriverView {
        match r {
            Some(x) => DriverView {
                builder: BuilderView { results: seq![x] + self.builder.results, ..self.builder },
                ..self
            },
            None => self,
        }
    }
}

proof fn lemma_halt_orderly(d: DriverView, code: Seq<char>, line: nat, col: nat)
    requires
        d.builder.tidy(line, col),
    ensures
        d.halt(code).orderly(line, col),
        d.halt(code).builder.line == d.builder.line,
{
    lemma_tidy_push_result(d.builder, line, col);
    let kept = if d.builder.token matches Some(super::TokenView::Character(_)) {
        d.builder.push_result()
    } else {
        d.builder
    };
    lemma_tidy_add_error(kept, code, line, col);
    let b = kept.add_error(code);
    lemma_all_errors_push(b.results, ResultView::Errors(b.errors));
    reveal(BuilderView::tidy);
    assert(d.halt(code).builder.trail() =~= b.trail());
}

/// Feeding one signal keeps the driver orderly, and only a line feed moves
/// the line.
pub proof fn lemma_feed_orderly(d: DriverView, c: NextChar, line: nat, col: nat)
    requires
        d.orderly(line, col),
        !d.halted,
    ensures
        d.feed(c).0.orderly(line, col),
        c != NextChar::Ch('\n') ==> d.feed(c).0.builder.line == d.builder.line,
        d.feed(c).0.input == d.input,
{
    broadcast use group_tidy;

    if !room(d.builder, c) {
        lemma_halt_orderly(d, "position-overflow"@, line, col);
    } else {
        let b1 = d.builder.next_char(c);
        assert(b1.tidy(line, col));
        if !d.state.covers(c, b1) {
            lemma_halt_orderly(
                DriverView { builder: b1, ..d },
                "unimplemented-transition"@,
                line,
                col,
            );
        } else {
            lemma_transition_tidy(d.state, c, b1, line, col);
            let (s1, b2) = d.state.transition(c, b1);
            if !b2.reconsume_char {
                lemma_tidy_same(b2, BuilderView { reconsume_char: false, ..b2 }, line, col);
                assert(b2.flush().tidy(line, col));
            } else if !s1.covers(c, b2) {
                lemma_halt_orderly(
                    DriverView { state: s1, builder: b2, ..d },
                    "unimplemented-transition"@,
                    line,
                    col,
                );
            } else {
                lemma_transition_tidy(s1, c, b2, line, col);
                let (s2, b3) = s1.transition(c, b2);
                lemma_tidy_same(b3, BuilderView { reconsume_char: false, ..b3 }, line, col);
                assert(b3.flush().tidy(line, col));
            }
        }
    }
}

/// Taking the oldest result from the queue and putting it back are inverse.
proof fn lemma_pop_with_front(m: DriverView)
    ensures
        m.pop().0.with_front(m.pop().1) == m,
{
    if m.builder.results.len() > 0 {
        assert(seq![m.builder.results[0]] + m.builder.results.drop_first() =~= m.builder.results);
    }
}

/// A run keeps the driver orderly: with the result that it hands out put
/// back, the trail is tidy.
pub proof fn lemma_run_orderly(d: DriverView, line: nat, col: nat)
    requires
        d.orderly(line, col),
        !d.halted,
    ensures
        d.run().0.with_front(d.run().1).orderly(line, col),
        single_line(d.input) ==> d.run().0.builder.line == d.builder.line && single_line(
            d.run().0.input,
        ),
    decreases d.input.len(),
{
    broadcast use group_tidy;

    let c = d.signal();
    let a = d.advance();
    lemma_feed_orderly(a, c, line, col);
    let (fed, ready) = a.feed(c);
    if single_line(d.input) {
        assert(c != NextChar::Ch('\n'));
        assert(single_line(a.input)) by {
            assert forall|i: int| 0 <= i < a.input.len() implies a.input[i] != '\n' by {
                if d.input.len() > 0 {
                    assert(a.input[i] == d.input[i + 1]);
                }
            }
        }
    }
    if ready && fed.builder.results.len() > 0 {
        lemma_pop_with_front(fed);
    } else if c == NextChar::Eof {
        let m = DriverView { builder: fed.builder.flush(), ..fed };
        assert(fed.builder.flush().tidy(line, col));
        lemma_pop_with_front(m);
    } else {
        assert(!fed.halted) by {
            if fed.halted {
                assert(fed.builder.results.len() > 0);
            }
        }
        lemma_run_orderly(fed, line, col);
    }
}

/// A pull keeps the driver orderly.
pub proof fn lemma_pull_orderly(d: DriverView, line: nat, col: nat)
    requires
        d.orderly(line, col),
    ensures
        d.pull().0.with_front(d.pull().1).orderly(line, col),
        single_line(d.input) ==> d.pull().0.builder.line == d.builder.line && single_line(
            d.pull().0.input,
        ),
{
    if d.builder.results.len() > 0 {
        lemma_pop_with_front(d);
    } else if d.halted {
    } else if d.state == State::Eof {
        lemma_tidy_ops(d.builder, line, col);
        lemma_pop_with_front(DriverView { builder: d.builder.flush(), ..d });
    } else {
        lemma_run_orderly(d, line, col);
    }
}

/// From an orderly driver on, the errors are handed out in order, none
/// before the place `(line, col)`, and on a single line all with the
/// driver's line.
pub proof fn lemma_results_in_order(d: DriverView, line: nat, col: nat)
    requires
        d.orderly(line, col),
    ensures
        in_order(all_errors(d.results())),
        from(all_errors(d.results()), line, col),
        single_line(d.input) ==> lines_up_to(all_errors(d.results()), d.builder.line),
    decreases d.input.len(), d.rank(), d.backlog(),
{
    let (next, r) = d.pull();
    match r {
        Some(x) => {
            super::progress::lemma_pull_progress(d);
            lemma_pull_orderly(d, line, col);
            let m = next.with_front(r);
            let xs = errors_of(x);
            reveal(BuilderView::tidy);
            assert(m.builder.results.drop_first() =~= next.builder.results);
            lemma_all_errors_first(m.builder.results);
            let whole = m.builder.trail();
            assert(whole =~= xs + next.builder.trail());
            let (l2, c2) = if xs.len() > 0 {
                (xs.last().line, xs.last().col)
            } else {
                (line, col)
            };
            assert forall|i: int| 0 <= i < xs.len() implies xs[i] == whole[i] by {}
            assert forall|i: int| 0 <= i < next.builder.trail().len() implies next.builder.trail()[i]
                == whole[i + xs.len()] by {}
            let tail = next.builder.trail();
            let n = xs.len() as int;
            assert forall|i: int, j: int| 0 <= i <= j < tail.len() implies not_before(
                tail[i],
                tail[j],
            ) by {
                assert(not_before(whole[i + n], whole[j + n]));
            }
            assert forall|i: int| 0 <= i < tail.len() implies (#[trigger] tail[i]).line
                <= next.builder.line && tail[i].col <= next.builder.col && l2 <= tail[i].line && c2
                <= tail[i].col by {
                assert(tail[i] == whole[i + n]);
                if n > 0 {
                    assert(not_before(whole[n - 1], whole[i + n]));
                }
            }
            if n > 0 {
                assert(xs.last() == whole[n - 1]);
            }
            assert(next.builder.tidy(l2, c2));
            lemma_results_in_order(next, l2, c2);
            let rest = all_errors(next.results());
            assert(d.results() == seq![x] + next.results());
            lemma_all_errors_add(seq![x], next.results());
            lemma_all_errors_push(Seq::<ResultView>::empty(), x);
            assert(Seq::<ResultView>::empty().push(x) =~= seq![x]);
            assert(all_errors(Seq::<ResultView>::empty()) =~= Seq::<ErrorView>::empty());
            assert(all_errors(seq![x]) =~= xs);
            let total = all_errors(d.results());
            assert(total =~= xs + rest);
            assert forall|i: int, j: int| 0 <= i <= j < total.len() implies not_before(
                total[i],
                total[j],
            ) by {
                if j < xs.len() {
                    assert(not_before(whole[i], whole[j]));
                } else if i < xs.len() {
                    assert(not_before(whole[i], whole[xs.len() - 1]));
                    assert(total[j] == rest[j - xs.len()]);
                } else {
                    assert(total[i] == rest[i - xs.len()]);
                    assert(total[j] == rest[j - xs.len()]);
                }
            }
            assert forall|i: int| 0 <= i < total.len() implies line <= (#[trigger] total[i]).line
                && col <= total[i].col by {
                if i < xs.len() {
                    assert(total[i] == whole[i]);
                } else {
                    assert(total[i] == rest[i - xs.len()]);
                }
            }
            if single_line(d.input) {
                assert forall|i: int| 0 <= i < total.len() implies (#[trigger] total[i]).line
                    <= d.builder.line by {
                    if i < xs.len() {
                        assert(total[i] == whole[i]);
                    } else {
                        assert(total[i] == rest[i - xs.len()]);
                    }
                }
            }
        },
        None => {},
    }
}

/// In the order in which the errors of a text are handed out, neither the
/// line nor the column of an error is before that of an earlier one. Where
/// the text holds no line feed, every error is on line 1.
pub proof fn lemma_error_positions(
    input: Seq<char>,
    state: State,
    last_start_tag: Option<Seq<char>>,
)
    ensures
        in_order(all_errors(DriverView::start(input, state, last_start_tag).results())),
        single_line(input) ==> forall|i: int|
            0 <= i < all_errors(DriverView::start(input, state, last_start_tag).results()).len()
                ==> (#[trigger] all_errors(
                DriverView::start(input, state, last_start_tag).results(),
            )[i]).line == 1,
{
    let d = DriverView::start(input, state, last_start_tag);
    assert(d.builder.trail() =~= Seq::<ErrorView>::empty());
    assert(d.orderly(1, 0)) by {
        reveal(BuilderView::tidy);
    }
    lemma_results_in_order(d, 1, 0);
}

} // verus!
