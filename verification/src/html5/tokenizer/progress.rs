//! Why pulling comes to an end: every pull that hands out a result brings the
//! driver closer to the point where nothing is left. With that, the whole
//! sequence of results is a value of its own, and it can be collected.

use super::state::State;
use super::{results_view, DriverView, NextChar, ResultView, TokenIterator, TokenResult};
use vstd::prelude::*;

verus! {

impl DriverView {
    /// How far the state is from rest, counted in feeds of the end of the
    /// input.
    pub open spec fn rank(self) -> nat {
        if self.halted {
            0
        } else if self.state == State::Eof || self.state.unsupported() || self.state
            == State::DOCTYPE || self.state == State::BeforeDOCTYPEName {
            1
        } else if self.state == State::Data || self.state == State::ScriptData {
            2
        } else {
            3
        }
    }

    /// The results that are finished or pending.
    pub open spec fn backlog(self) -> nat {
        self.builder.results.len() + if self.builder.token is Some {
            1nat
        } else {
            0nat
        }
    }

    /// One measure is smaller than the other: less input; or as much input
    /// and a lower rank; or as much of both and a smaller backlog.
    pub open spec fn closer_than(self, other: DriverView) -> bool {
        self.input.len() < other.input.len() || (self.input.len() == other.input.len() && (
        self.rank() < other.rank() || (self.rank() == other.rank() && self.backlog()
            < other.backlog())))
    }

    /// Every result that pulling hands out, up to the first pull that hands
    /// out none.
    pub open spec fn results(self) -> Seq<ResultView>
        decreases self.input.len(), self.rank(), self.backlog(),
        via Self::results_decreases
    {
        let (next, r) = self.pull();
        match r {
            Some(x) => seq![x] + next.results(),
            None => Seq::empty(),
        }
    }

    #[via_fn]
    proof fn results_decreases(self) {
        lemma_pull_progress(self);
    }
}

/// Feeding the end of the input from a state that has not been cut short
/// either cuts it short, or lowers the rank, or stays in a state in which the
/// end of the input changes nothing in the accumulator but what every step
/// does.
proof fn lemma_feed_end(d: DriverView)
    requires
        !d.halted,
    ensures
        ({
            let (fed, ready) = d.feed(NextChar::Eof);
            ||| fed.rank() < d.rank()
            ||| {
                &&& fed.rank() == d.rank()
                &&& (fed, ready) == d.settle(d.state, d.builder.next_char(NextChar::Eof))
            }
        }),
{
    let c = NextChar::Eof;
    if super::room(d.builder, c) {
        let b1 = d.builder.next_char(c);
        assert(b1.push_buf(c) == b1);
        if d.state.covers(c, b1) {
            let (s1, b2) = d.state.transition(c, b1);
            if b2.reconsume_char && s1.covers(c, b2) {
                assert(b2.push_buf(c) == b2);
                let (s2, b3) = s1.transition(c, b2);
            }
        }
    }
}

/// A run takes at least one character from input that is not empty, and
/// leaves empty input empty.
pub proof fn lemma_run_consumes(d: DriverView)
    ensures
        d.input.len() > 0 ==> d.run().0.input.len() < d.input.len(),
        d.input.len() == 0 ==> d.run().0.input.len() == 0,
    decreases d.input.len(),
{
    let c = d.signal();
    let (fed, ready) = d.advance().feed(c);
    if !(ready && fed.builder.results.len() > 0) && c != NextChar::Eof {
        lemma_run_consumes(fed);
    }
}

/// A run at the end of the input that hands out a result lowers the rank, or
/// keeps it and shortens the backlog.
proof fn lemma_run_at_end(d: DriverView)
    requires
        !d.halted,
        d.input.len() == 0,
        d.builder.results.len() == 0,
        d.run().1 is Some,
    ensures
        d.run().0.closer_than(d),
{
    lemma_feed_end(d);
    lemma_run_consumes(d);
    let (fed, ready) = d.feed(NextChar::Eof);
    if fed.rank() == d.rank() {
        let b1 = d.builder.next_char(NextChar::Eof);
        assert(b1.results.len() == 0);
        assert(b1.token == d.builder.token);
    }
}

/// A pull that hands out a result brings the driver closer to the end.
pub proof fn lemma_pull_progress(d: DriverView)
    ensures
        d.pull().1 is Some ==> d.pull().0.closer_than(d),
{
    if d.builder.results.len() == 0 && !d.halted && d.state != State::Eof && d.pull().1 is Some {
        lemma_run_consumes(d);
        if d.input.len() == 0 {
            lemma_run_at_end(d);
        }
    }
}

impl TokenIterator {
    /// All the results that are left, in order.
    pub fn collect(self) -> (out: Vec<TokenResult>)
        ensures
            results_view(out@) == self@.results(),
    {
        let mut it = self;
        let mut out: Vec<TokenResult> = Vec::new();
        assert(results_view(out@) =~= Seq::empty());
        loop
            invariant_except_break
                results_view(out@) + it@.results() == self@.results(),
            ensures
                results_view(out@) == self@.results(),
            decreases it@.input.len(), it@.rank(), it@.backlog(),
        {
            let ghost before = it@;
            let ghost gathered = results_view(out@);
            proof {
                lemma_pull_progress(before);
            }
            match it.next() {
                Some(r) => {
                    out.push(r);
                    assert(results_view(out@) =~= gathered.push(r@));
                    assert(gathered.push(r@) + it@.results() =~= gathered + before.results());
                },
                None => {
                    assert(gathered + before.results() =~= gathered);
                    break ;
                },
            }
        }
        out
    }
}

} // verus!
