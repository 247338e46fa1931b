//! Falling back: those of a list are asked one after the other until one succeeds.

use vstd::prelude::*;

verus! {

/// Asking those of a list one after the other. A success ends it; a failure is kept, and
/// the next is asked.
pub struct Fallback<I, T, F> {
    /// Whom to ask, in order.
    pub order: Vec<I>,
    /// What those who were asked failed with.
    pub failures: Vec<F>,
    /// The success, once there is one.
    pub found: Option<T>,
}

/// What a [`Fallback`] says.
pub struct FallbackView<I, T, F> {
    pub order: Seq<I>,
    pub failures: Seq<F>,
    pub found: Option<T>,
}

impl<I, T, F> View for Fallback<I, T, F> {
    type V = FallbackView<I, T, F>;

    open spec fn view(&self) -> FallbackView<I, T, F> {
        FallbackView { order: self.order@, failures: self.failures@, found: self.found }
    }
}

/// Before anyone was asked.
pub open spec fn fresh<I, T, F>(order: Seq<I>) -> FallbackView<I, T, F> {
    FallbackView { order, failures: Seq::<F>::empty(), found: None }
}

/// Who is asked next: nobody after a success, and nobody after the last.
pub open spec fn upcoming<I, T, F>(s: FallbackView<I, T, F>) -> Option<I> {
    if s.found is None && s.failures.len() < s.order.len() {
        Some(s.order[s.failures.len() as int])
    } else {
        None
    }
}

/// After the answer of the one who was next.
pub open spec fn absorbed<I, T, F>(s: FallbackView<I, T, F>, answer: Result<T, F>) -> FallbackView<
    I,
    T,
    F,
> {
    match answer {
        Ok(t) => FallbackView { found: Some(t), ..s },
        Err(f) => FallbackView { failures: s.failures.push(f), ..s },
    }
}

/// After answers, one after the other.
pub open spec fn fallen<I, T, F>(order: Seq<I>, answers: Seq<Result<T, F>>) -> FallbackView<I, T, F>
    decreases answers.len(),
{
    if answers.len() == 0 {
        fresh(order)
    } else {
        absorbed(fallen(order, answers.drop_last()), answers.last())
    }
}

/// How it ends: with the success, else with every failure.
pub open spec fn ended<I, T, F>(s: FallbackView<I, T, F>) -> Result<T, Seq<F>> {
    match s.found {
        Some(t) => Ok(t),
        None => Err(s.failures),
    }
}

/// What an end says.
pub open spec fn end_view<T, F>(r: Result<T, Vec<F>>) -> Result<T, Seq<F>> {
    match r {
        Ok(t) => Ok(t),
        Err(fs) => Err(fs@),
    }
}

/// Whether the last of the answers is a success.
pub open spec fn succeeded<T, F>(answers: Seq<Result<T, F>>) -> bool {
    answers.len() > 0 && answers.last() is Ok
}

/// Whether answers can be those so far: no more than there are to ask, and none behind a
/// success.
pub open spec fn in_turn<T, F>(n: nat, answers: Seq<Result<T, F>>) -> bool {
    &&& answers.len() <= n
    &&& forall|i: int| 0 <= i < answers.len() - 1 ==> (#[trigger] answers[i]) is Err
}

/// Whether answers are all that are asked for: those up to the first success and none
/// behind it, or, where there is no success, one of each.
pub open spec fn exhausted<T, F>(n: nat, answers: Seq<Result<T, F>>) -> bool {
    in_turn(n, answers) && (succeeded(answers) || answers.len() == n)
}

/// The failures among answers that all fail.
pub open spec fn failures_of<T, F>(answers: Seq<Result<T, F>>) -> Seq<F> {
    Seq::new(answers.len(), |i: int| answers[i]->Err_0)
}

impl<I: Copy, T, F> Fallback<I, T, F> {
    /// Nobody has been asked.
    pub fn start(order: Vec<I>) -> (r: Fallback<I, T, F>)
        ensures
            r@ == fresh::<I, T, F>(order@),
    {
        Fallback { order, failures: Vec::new(), found: None }
    }

    /// Whom to ask next; nobody after a success or after the last.
    pub fn next(&self) -> (r: Option<I>)
        ensures
            r == upcoming(self@),
    {
        if self.found.is_none() && self.failures.len() < self.order.len() {
            Some(self.order[self.failures.len()])
        } else {
            None
        }
    }

    /// Takes in what the next one answered.
    pub fn absorb(&mut self, answer: Result<T, F>)
        requires
            upcoming(old(self)@) is Some,
        ensures
            final(self)@ == absorbed(old(self)@, answer),
    {
        match answer {
            Ok(t) => {
                self.found = Some(t);
            },
            Err(f) => {
                self.failures.push(f);
            },
        }
    }

    /// How it ends.
    pub fn finish(self) -> (r: Result<T, Vec<F>>)
        ensures
            end_view(r) == ended(self@),
    {
        match self.found {
            Some(t) => Ok(t),
            None => Err(self.failures),
        }
    }
}

/// Those of a list are asked once each and in order, and nobody after the first success:
/// after `n` failures the next is the one at place `n`, after a success or after the last
/// it is nobody. It ends with that success, else with the failures of all in order.
pub proof fn lemma_asks_until_success<I, T, F>(order: Seq<I>, answers: Seq<Result<T, F>>)
    requires
        in_turn(order.len(), answers),
    ensures
        upcoming(fallen(order, answers)) == if succeeded(answers) || answers.len() == order.len() {
            None
        } else {
            Some(order[answers.len() as int])
        },
        upcoming(fallen(order, answers)) is None <==> exhausted(order.len(), answers),
        ended(fallen(order, answers)) == if succeeded(answers) {
            Ok(answers.last()->Ok_0)
        } else {
            Err(failures_of(answers))
        },
{
    lemma_fallen(order, answers);
}

/// What is held after answers.
proof fn lemma_fallen<I, T, F>(order: Seq<I>, answers: Seq<Result<T, F>>)
    requires
        in_turn(order.len(), answers),
    ensures
        ({
            let s = fallen(order, answers);
            &&& s.order == order
            &&& s.found == if succeeded(answers) {
                Some(answers.last()->Ok_0)
            } else {
                None
            }
            &&& s.failures == if succeeded(answers) {
                failures_of(answers.drop_last())
            } else {
                failures_of(answers)
            }
        }),
    decreases answers.len(),
{
    if answers.len() > 0 {
        let front = answers.drop_last();
        assert forall|i: int| 0 <= i < front.len() implies (#[trigger] front[i]) is Err by {
            assert(answers[i] is Err);
        }
        lemma_fallen(order, front);
        assert(!succeeded(front));
        if answers.last() is Err {
            assert(failures_of(answers) == failures_of(front).push(answers.last()->Err_0));
        }
    } else {
        assert(failures_of(answers) == Seq::<F>::empty());
    }
}

/// One more answer, while there is someone to ask, keeps answers in turn.
pub proof fn lemma_in_turn<I, T, F>(order: Seq<I>, answers: Seq<Result<T, F>>, answer: Result<T, F>)
    requires
        in_turn(order.len(), answers),
        upcoming(fallen(order, answers)) is Some,
    ensures
        in_turn(order.len(), answers.push(answer)),
        fallen(order, answers.push(answer)) == absorbed(fallen(order, answers), answer),
{
    lemma_asks_until_success(order, answers);
    let all = answers.push(answer);
    assert(all.drop_last() == answers);
    assert forall|i: int| 0 <= i < all.len() - 1 implies (#[trigger] all[i]) is Err by {
        assert(all[i] == answers[i]);
    }
}

/// A copy of a list.
pub fn copy<I: Copy>(v: &[I]) -> (r: Vec<I>)
    ensures
        r@ == v@,
{
    let mut out: Vec<I> = Vec::new();
    let mut i: usize = 0;
    while i < v.len()
        invariant
            i <= v@.len(),
            out@ == v@.take(i as int),
        decreases v@.len() - i,
    {
        out.push(v[i]);
        i += 1;
    }
    assert(v@.take(v@.len() as int) == v@);
    out
}

} // verus!
