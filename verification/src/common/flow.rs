//! A conversation with a site, one request at a time. The conversation decides
//! what to ask and what the replies come to; asking is left to the caller.

use crate::common::contract;
use crate::common::contract::ProviderError;
use vstd::prelude::*;

verus! {

/// What to ask a site.
#[derive(Debug)]
pub enum Request {
    /// The text of a page.
    Get(String),
    /// The text that answers a form, given as names and values.
    Post(String, Vec<(String, String)>),
    /// Where a URL leads after redirects.
    Resolve(String),
}

/// What a [`Request`] says.
pub enum RequestView {
    Get(Seq<char>),
    Post(Seq<char>, Seq<(Seq<char>, Seq<char>)>),
    Resolve(Seq<char>),
}

impl View for Request {
    type V = RequestView;

    open spec fn view(&self) -> RequestView {
        match *self {
            Request::Get(u) => RequestView::Get(u@),
            Request::Post(u, form) => RequestView::Post(u@, contract::header_texts(form@)),
            Request::Resolve(u) => RequestView::Resolve(u@),
        }
    }
}

/// Where a conversation stands: something to ask, or its outcome.
pub enum Step<S, T, E = ProviderError> {
    /// Ask this, and go on from the state with the reply.
    Ask(Request, S),
    /// The outcome.
    Done(Result<T, E>),
    /// A page lacks what no page of its kind has ever lacked: there is nothing to
    /// return.
    Abort,
}

/// What a [`Step`] says.
pub enum StepView<S, T, E = contract::ErrorView> {
    Ask(RequestView, S),
    Done(Result<T, E>),
    Abort,
}

/// What a step says.
pub open spec fn step<S: View, T: View, E: View>(s: Step<S, T, E>) -> StepView<S::V, T::V, E::V> {
    match s {
        Step::Ask(q, state) => StepView::Ask(q@, state@),
        Step::Done(r) => StepView::Done(contract::outcome(r)),
        Step::Abort => StepView::Abort,
    }
}

/// What a step towards a list says.
pub open spec fn list_step<S: View, T: View, E: View>(s: Step<S, Vec<T>, E>) -> StepView<
    S::V,
    Seq<T::V>,
    E::V,
> {
    match s {
        Step::Ask(q, state) => StepView::Ask(q@, state@),
        Step::Done(r) => StepView::Done(contract::outcomes(r)),
        Step::Abort => StepView::Abort,
    }
}

/// The reply to a request.
pub type Reply<E = ProviderError> = Result<String, E>;

/// What a reply says.
pub type ReplyView<E = contract::ErrorView> = Result<Seq<char>, E>;

/// What a reply says.
pub open spec fn reply_view<E: View>(r: Reply<E>) -> ReplyView<E::V> {
    contract::outcome(r)
}

/// A site as one sees it: its reply to every request.
pub type World<E = contract::ErrorView> = spec_fn(RequestView) -> ReplyView<E>;

/// Where a conversation stands after at most `n` replies of a site.
pub open spec fn run<S, T, E>(
    world: World<E>,
    next: spec_fn(S, ReplyView<E>) -> StepView<S, T, E>,
    at: StepView<S, T, E>,
    n: nat,
) -> StepView<S, T, E>
    decreases n,
{
    match at {
        StepView::Ask(q, state) if n > 0 => run(
            world,
            next,
            next(state, world(q)),
            (n - 1) as nat,
        ),
        _ => at,
    }
}

/// A form with one field more.
pub(crate) fn field(form: &mut Vec<(String, String)>, name: &str, value: &str)
    ensures
        contract::header_texts(final(form)@) == contract::header_texts(old(form)@).push(
            (name@, value@),
        ),
{
    let ghost before = form@;
    form.push((name.to_owned(), value.to_owned()));
    assert(contract::header_texts(form@) == contract::header_texts(before).push((name@, value@)));
}

} // verus!
