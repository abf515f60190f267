//! `zip`: pairs of values of two generators.

use crate::generator::{lemma_run_bounds, run_of, Generator};
use crate::script::{gives, Step};
use crate::signal::{GeneratorResult, ValueResult};
use crate::sink::{Sink, Sound};
use crate::sinks::Probe;
use vstd::prelude::*;

verus! {

/// The script of the pairs of `left` and `right`. Each value of the left side
/// costs the right side one step. Where that step is a value, the pair is
/// given; where it is a pause, the left value is dropped and the pair is a
/// pause; where the right side has nothing left, the script ends. A pair made
/// of the last value of either side is the last.
pub open spec fn zip_steps<A, B>(left: Seq<Step<A>>, right: Seq<Step<B>>) -> Seq<Step<(A, B)>>
    decreases left.len(),
{
    if left.len() == 0 {
        Seq::empty()
    } else {
        match left[0] {
            Step::Pause => seq![Step::Pause] + zip_steps(left.skip(1), right),
            Step::Give(a) => {
                if right.len() == 0 {
                    Seq::empty()
                } else {
                    match right[0] {
                        Step::Pause => seq![Step::Pause] + zip_steps(left.skip(1), right.skip(1)),
                        Step::Give(b) => seq![Step::Give((a, b))] + zip_steps(
                            left.skip(1),
                            right.skip(1),
                        ),
                        Step::Last(b) => seq![Step::Last((a, b))],
                    }
                }
            },
            Step::Last(a) => {
                if right.len() == 0 {
                    Seq::empty()
                } else {
                    match right[0] {
                        Step::Pause => Seq::empty(),
                        Step::Give(b) => seq![Step::Last((a, b))],
                        Step::Last(b) => seq![Step::Last((a, b))],
                    }
                }
            },
        }
    }
}

/// Takes the values of the left side: for each it advances the right side by
/// one step with a probe, and hands the pair to the inner sink. Without a
/// partner it asks the left side to stop. It keeps the last outcome of the
/// right side.
pub struct Pairing<Right, S> {
    right: Right,
    right_result: GeneratorResult,
    inner: S,
}

impl<Right, S: Sound> Sound for Pairing<Right, S> {
    closed spec fn inv(&self) -> bool {
        self.inner.inv()
    }
}

impl<A, Right: Generator, S: Sink<(A, Right::Output)>> Sink<A> for Pairing<Right, S> {
    type State = (Seq<Step<Right::Output>>, GeneratorResult, S::State);

    closed spec fn state(&self) -> (Seq<Step<Right::Output>>, GeneratorResult, S::State) {
        (self.right.pending(), self.right_result, self.inner.state())
    }

    open spec fn verdict(
        s: (Seq<Step<Right::Output>>, GeneratorResult, S::State),
        value: A,
    ) -> ValueResult {
        if s.0.len() == 0 {
            ValueResult::Stop
        } else {
            match s.0[0] {
                Step::Pause => ValueResult::Stop,
                Step::Give(b) => S::verdict(s.2, (value, b)),
                Step::Last(b) => S::verdict(s.2, (value, b)),
            }
        }
    }

    open spec fn step(s: (Seq<Step<Right::Output>>, GeneratorResult, S::State), value: A) -> (
        Seq<Step<Right::Output>>,
        GeneratorResult,
        S::State,
    ) {
        if s.0.len() == 0 {
            (s.0, GeneratorResult::Complete, s.2)
        } else {
            match s.0[0] {
                Step::Pause => (s.0.skip(1), GeneratorResult::Stopped, s.2),
                Step::Give(b) => (s.0.skip(1), GeneratorResult::Stopped, S::step(s.2, (value, b))),
                Step::Last(b) => (
                    s.0.skip(s.0.len() as int),
                    GeneratorResult::Complete,
                    S::step(s.2, (value, b)),
                ),
            }
        }
    }

    fn accept(&mut self, value: A) -> (r: ValueResult) {
        assert(self.right.pending().skip(0) =~= self.right.pending());
        let (result, probe) = self.right.run(Probe::new());
        self.right_result = result;
        match probe.into_value() {
            Some(partner) => self.inner.accept((value, partner)),
            None => ValueResult::Stop,
        }
    }
}

/// What `zip` reports after its left side reported `left_result` and the last
/// probe of the right side reported `right_result`.
pub open spec fn zip_result(
    left_result: GeneratorResult,
    right_result: GeneratorResult,
) -> GeneratorResult {
    if left_result == GeneratorResult::Complete || right_result == GeneratorResult::Complete {
        GeneratorResult::Complete
    } else {
        GeneratorResult::Stopped
    }
}

/// A run of the left side into a pairing sink is a run of the pairs into the
/// inner sink.
pub proof fn lemma_zip_run<A, Right: Generator, S: Sink<(A, Right::Output)>>(
    left: Seq<Step<A>>,
    right: Seq<Step<Right::Output>>,
    s: S::State,
)
    ensures
        ({
            let o = run_of::<A, Pairing<Right, S>>(left, (right, GeneratorResult::Stopped, s));
            let p = run_of::<(A, Right::Output), S>(zip_steps(left, right), s);
            &&& o.taken <= left.len()
            &&& o.state.2 == p.state
            &&& p.result == zip_result(o.result, o.state.1)
            &&& p.result == GeneratorResult::Stopped ==> zip_steps(
                left.skip(o.taken as int),
                o.state.0,
            ) == zip_steps(left, right).skip(p.taken as int)
            &&& p.result == GeneratorResult::Complete ==> p.taken == zip_steps(left, right).len()
        }),
    decreases left.len(),
{
    let o = run_of::<A, Pairing<Right, S>>(left, (right, GeneratorResult::Stopped, s));
    let zipped = zip_steps(left, right);
    let p = run_of::<(A, Right::Output), S>(zipped, s);
    lemma_run_bounds::<A, Pairing<Right, S>>(left, (right, GeneratorResult::Stopped, s));
    lemma_run_bounds::<(A, Right::Output), S>(zipped, s);
    if left.len() > 0 {
        let rest = left.skip(1);
        match left[0] {
            Step::Pause => {
                assert(zipped[0] == Step::<(A, Right::Output)>::Pause);
                assert(zipped.skip(1) =~= zip_steps(rest, right));
            },
            Step::Give(a) => {
                if right.len() > 0 {
                    let others = right.skip(1);
                    match right[0] {
                        Step::Pause => {
                            assert(zipped[0] == Step::<(A, Right::Output)>::Pause);
                            assert(zipped.skip(1) =~= zip_steps(rest, others));
                        },
                        Step::Give(b) => {
                            assert(zipped[0] == Step::Give((a, b)));
                            assert(zipped.skip(1) =~= zip_steps(rest, others));
                            if S::verdict(s, (a, b)) == ValueResult::MoreValues {
                                let t = S::step(s, (a, b));
                                lemma_zip_run::<A, Right, S>(rest, others, t);
                                let o_tail = run_of::<A, Pairing<Right, S>>(
                                    rest,
                                    (others, GeneratorResult::Stopped, t),
                                );
                                let p_tail = run_of::<(A, Right::Output), S>(
                                    zip_steps(rest, others),
                                    t,
                                );
                                lemma_run_bounds::<A, Pairing<Right, S>>(
                                    rest,
                                    (others, GeneratorResult::Stopped, t),
                                );
                                lemma_run_bounds::<(A, Right::Output), S>(
                                    zip_steps(rest, others),
                                    t,
                                );
                                assert(left.skip(o.taken as int) =~= rest.skip(
                                    o_tail.taken as int,
                                ));
                                assert(zipped.skip(p.taken as int) =~= zip_steps(
                                    rest,
                                    others,
                                ).skip(p_tail.taken as int));
                            }
                        },
                        Step::Last(b) => {
                            assert(zipped[0] == Step::Last((a, b)));
                            lemma_zip_done::<A, Right, S>(rest, S::step(s, (a, b)));
                            assert(right.skip(right.len() as int) =~= Seq::<
                                Step<Right::Output>,
                            >::empty());
                        },
                    }
                }
            },
            Step::Last(a) => {
                if right.len() > 0 {
                    match right[0] {
                        Step::Pause => {},
                        Step::Give(b) => {
                            assert(zipped[0] == Step::Last((a, b)));
                        },
                        Step::Last(b) => {
                            assert(zipped[0] == Step::Last((a, b)));
                        },
                    }
                }
            },
        }
    }
}

/// Once the right side is complete, whatever the left side goes on to hand
/// to a pairing sink leaves the inner sink as it was and the right side
/// complete.
pub proof fn lemma_zip_done<A, Right: Generator, S: Sink<(A, Right::Output)>>(
    left: Seq<Step<A>>,
    s: S::State,
)
    ensures
        ({
            let nothing = Seq::<Step<Right::Output>>::empty();
            let o = run_of::<A, Pairing<Right, S>>(left, (nothing, GeneratorResult::Complete, s));
            &&& o.state.1 == GeneratorResult::Complete
            &&& o.state.2 == s
        }),
{
    let nothing = Seq::<Step<Right::Output>>::empty();
    assert(nothing.len() == 0);
}

/// The pairs of two sequences, as many as the shorter one has items.
pub open spec fn pairs<A, B>(left: Seq<A>, right: Seq<B>) -> Seq<(A, B)> {
    Seq::new(
        if left.len() <= right.len() {
            left.len()
        } else {
            right.len()
        },
        |i: int| (left[i], right[i]),
    )
}

/// Over two sources without pauses, `zip` gives the pairs of their items, as
/// many as the shorter source has, and then is complete.
pub proof fn law_zip_gives<A, B>(left: Seq<A>, right: Seq<B>)
    ensures
        zip_steps(gives(left), gives(right)) == gives(pairs(left, right)),
    decreases left.len(),
{
    if left.len() > 0 && right.len() > 0 {
        law_zip_gives(left.skip(1), right.skip(1));
        assert(gives(left).skip(1) =~= gives(left.skip(1)));
        assert(gives(right).skip(1) =~= gives(right.skip(1)));
    }
}

/// Delivers the values of two generators in pairs. The left side drives: for
/// each of its values the right side is advanced by one step. As soon as
/// either side is complete, so is the whole, and neither side is run again.
pub struct Zip<Left, Right> {
    left: Left,
    right: Option<Right>,
    done: bool,
}

impl<Left: Generator, Right: Generator> Zip<Left, Right> {
    /// The pairs of `left` and `right`.
    pub fn new(left: Left, right: Right) -> (g: Self)
        ensures
            g.pending() == zip_steps(left.pending(), right.pending()),
            g.left_pending() == left.pending(),
            g.right_pending() == right.pending(),
            !g.done(),
    {
        Zip { left, right: Some(right), done: false }
    }

    /// What the left side has left.
    pub closed spec fn left_pending(&self) -> Seq<Step<Left::Output>> {
        self.left.pending()
    }

    /// What the right side has left.
    pub closed spec fn right_pending(&self) -> Seq<Step<Right::Output>> {
        match self.right {
            Some(right) => right.pending(),
            None => Seq::empty(),
        }
    }

    /// A run has been complete, and the sides are run no more.
    pub closed spec fn done(&self) -> bool {
        self.done || self.right is None
    }
}

impl<Left: Generator, Right: Generator> Generator for Zip<Left, Right> {
    type Output = (Left::Output, Right::Output);

    open spec fn pending(&self) -> Seq<Step<(Left::Output, Right::Output)>> {
        if self.done() {
            Seq::empty()
        } else {
            zip_steps(self.left_pending(), self.right_pending())
        }
    }

    /// Once done, neither side is touched. Else the left side is run once
    /// into the pairing sink: it moves on by the steps of that run, the right
    /// side by one step for each value the left side handed over, and the
    /// whole is done if the run is complete.
    fn run<S: Sink<(Left::Output, Right::Output)>>(&mut self, sink: S) -> (ret: (
        GeneratorResult,
        S,
    ))
        ensures
            old(self).done() ==> {
                &&& final(self).done()
                &&& final(self).left_pending() == old(self).left_pending()
                &&& final(self).right_pending() == old(self).right_pending()
            },
            !old(self).done() ==> ({
                let o = run_of::<Left::Output, Pairing<Right, S>>(
                    old(self).left_pending(),
                    (old(self).right_pending(), GeneratorResult::Stopped, sink.state()),
                );
                &&& final(self).left_pending() == old(self).left_pending().skip(o.taken as int)
                &&& final(self).right_pending() == o.state.0
                &&& final(self).done() == (ret.0 == GeneratorResult::Complete)
            }),
    {
        if self.done {
            assert(self.pending().skip(0) =~= self.pending());
            return (GeneratorResult::Complete, sink);
        }
        let taken: Option<Right> = self.right.take();
        let right = match taken {
            Some(right) => right,
            None => {
                assert(self.pending().skip(0) =~= self.pending());
                return (GeneratorResult::Complete, sink);
            },
        };
        proof {
            lemma_zip_run::<Left::Output, Right, S>(
                self.left.pending(),
                right.pending(),
                sink.state(),
            );
        }
        let pairing = Pairing { right, right_result: GeneratorResult::Stopped, inner: sink };
        let (left_result, pairing) = self.left.run(pairing);
        let Pairing { right, right_result, inner } = pairing;
        self.right = Some(right);
        if left_result == GeneratorResult::Complete || right_result == GeneratorResult::Complete {
            self.done = true;
            assert(self.pending() =~= old(self).pending().skip(old(self).pending().len() as int));
            (GeneratorResult::Complete, inner)
        } else {
            (GeneratorResult::Stopped, inner)
        }
    }
}

} // verus!
