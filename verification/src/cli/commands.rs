//! The commands: what they ask for, what they report, and how they end.

use crate::cli::exit;
use crate::cli::exit::{provider_error_code, AppError, EXIT_NETWORK, EXIT_NOT_FOUND};
use crate::common::contract;
use crate::common::contract::{
    download_filename, AppResult, Arch, DownloadTarget, ProviderError, ProviderFailure, ProviderId,
    ResolveError, VersionInfo,
};
use crate::common::registry;
use crate::common::registry::{Provider, ProviderRegistry};
use crate::model;
use crate::outside;
use crate::outside::width;
use crate::strings::{join, plus, plus3, plus4};
use vstd::prelude::*;
use vstd::string::StringExecFns;

verus! {

/// A text of `n` spaces.
pub open spec fn spaces(n: nat) -> Seq<char> {
    Seq::new(n, |i: int| ' ')
}

/// `s` with spaces behind it, up to `w` columns of the terminal.
pub open spec fn padded(s: Seq<char>, w: nat) -> Seq<char> {
    s + spaces(if outside::columns(s) < w { (w - outside::columns(s)) as nat } else { 0 })
}

/// `s` with spaces behind it, up to `w` columns of the terminal.
pub fn pad(s: &str, w: usize) -> (r: String)
    ensures
        r@ == padded(s@, w as nat),
{
    let cols: usize = width(s);
    let n: usize = if cols < w { w - cols } else { 0 };
    let mut out = s.to_owned();
    let mut i: usize = 0;
    assert(out@ == s@ + spaces(0));
    while i < n
        invariant
            i <= n,
            out@ == s@ + spaces(i as nat),
        decreases n - i,
    {
        out.push(' ');
        assert(out@ == s@ + spaces((i + 1) as nat));
        i += 1;
    }
    out
}

/// The columns that the widest of the cells takes; 0 where all are absent.
pub open spec fn widest(cells: Seq<Option<Seq<char>>>) -> nat
    decreases cells.len(),
{
    if cells.len() == 0 {
        0
    } else {
        let front = widest(cells.drop_last());
        match cells.last() {
            Some(t) => if outside::columns(t) > front {
                outside::columns(t)
            } else {
                front
            },
            None => front,
        }
    }
}

/// The columns that the widest of the cells takes; 0 where all are absent.
pub fn col_width(cells: &[Option<String>]) -> (r: usize)
    ensures
        r == widest(model::opts(cells@)),
{
    let ghost cs = model::opts(cells@);
    let mut w: usize = 0;
    let mut i: usize = 0;
    while i < cells.len()
        invariant
            i <= cells@.len(),
            cs == model::opts(cells@),
            w == widest(cs.take(i as int)),
        decreases cells@.len() - i,
    {
        assert(cs.take(i + 1).drop_last() == cs.take(i as int));
        assert(cs.take(i + 1).last() == model::opt(cells@[i as int]));
        if let Some(t) = &cells[i] {
            let n: usize = width(t.as_str());
            if n > w {
                w = n;
            }
        }
        i += 1;
    }
    assert(cs.take(cs.len() as int) == cs);
    w
}

/// A row of a report: what it is about, and what is said of it.
#[derive(Debug)]
pub struct Row {
    pub label: String,
    pub sub: String,
}

/// What a [`Row`] says.
pub struct RowView {
    pub label: Seq<char>,
    pub sub: Seq<char>,
}

impl View for Row {
    type V = RowView;

    open spec fn view(&self) -> RowView {
        RowView { label: self.label@, sub: self.sub@ }
    }
}

/// The labels of rows.
pub open spec fn labels(rows: Seq<RowView>) -> Seq<Option<Seq<char>>> {
    Seq::new(rows.len(), |i: int| Some(rows[i].label))
}

/// The rows with their labels in a column.
pub open spec fn aligned(rows: Seq<RowView>) -> Seq<RowView> {
    Seq::new(
        rows.len(),
        |i: int| RowView { label: padded(rows[i].label, widest(labels(rows))), sub: rows[i].sub },
    )
}

/// The rows with their labels in a column.
pub fn emit(rows: &[Row]) -> (r: Vec<Row>)
    ensures
        model::views(r@) == aligned(model::views(rows@)),
{
    let ghost rv = model::views(rows@);
    let mut cells: Vec<Option<String>> = Vec::new();
    let mut i: usize = 0;
    assert(model::opts(cells@) == labels(rv).take(0));
    while i < rows.len()
        invariant
            i <= rows@.len(),
            rv == model::views(rows@),
            model::opts(cells@) == labels(rv).take(i as int),
        decreases rows@.len() - i,
    {
        let ghost before = cells@;
        cells.push(Some(rows[i].label.clone()));
        assert(model::opts(cells@) == model::opts(before).push(Some(rv[i as int].label)));
        assert(model::opts(cells@) == labels(rv).take(i + 1));
        i += 1;
    }
    assert(labels(rv).take(labels(rv).len() as int) == labels(rv));
    let w: usize = col_width(&cells);
    let ghost all = aligned(rv);
    let mut out: Vec<Row> = Vec::new();
    let mut k: usize = 0;
    assert(model::views(out@) == all.take(0));
    while k < rows.len()
        invariant
            k <= rows@.len(),
            rv == model::views(rows@),
            w == widest(labels(rv)),
            all == aligned(rv),
            model::views(out@) == all.take(k as int),
        decreases rows@.len() - k,
    {
        let row = Row { label: pad(rows[k].label.as_str(), w), sub: rows[k].sub.clone() };
        assert(row@ == all[k as int]);
        proof {
            model::lemma_views_push(out@, row);
        }
        out.push(row);
        assert(model::views(out@) == all.take(k + 1));
        k += 1;
    }
    assert(all.take(all.len() as int) == all);
    out
}

/// What to tell the user of one provider's answer.
pub enum Note<T> {
    /// Nothing.
    Quiet,
    /// A warning.
    Warn(String),
    /// Rows to show.
    Show(Vec<T>),
}

/// A sweep over providers: each is asked once, one after the other. An error is
/// reported but ends nothing.
pub struct Sweep<T> {
    /// Whether the answers are collected rather than shown.
    pub json: bool,
    /// The providers to ask, in order.
    pub ids: Vec<ProviderId>,
    /// How many of them have been asked.
    pub asked: usize,
    /// Whether anything was found.
    pub hit: bool,
    /// The last error.
    pub last: Option<AppError>,
    /// What was collected.
    pub merged: Vec<(ProviderId, Vec<T>)>,
}

/// What a [`Sweep`] says.
pub struct SweepView<T> {
    pub json: bool,
    pub ids: Seq<ProviderId>,
    pub asked: nat,
    pub hit: bool,
    pub last: Option<exit::AppErrorView>,
    pub merged: Seq<(ProviderId, Vec<T>)>,
}

impl<T> View for Sweep<T> {
    type V = SweepView<T>;

    open spec fn view(&self) -> SweepView<T> {
        SweepView {
            json: self.json,
            ids: self.ids@,
            asked: self.asked as nat,
            hit: self.hit,
            last: match self.last {
                Some(e) => Some(e@),
                None => None,
            },
            merged: self.merged@,
        }
    }
}

/// What a provider's answer says.
pub open spec fn answer_view<T>(a: Result<Vec<T>, ProviderFailure>) -> Result<
    Vec<T>,
    contract::FailureView,
> {
    match a {
        Ok(rows) => Ok(rows),
        Err(f) => Err(f@),
    }
}

/// What providers' answers say.
pub open spec fn answer_views<T>(answers: Seq<Result<Vec<T>, ProviderFailure>>) -> Seq<
    Result<Vec<T>, contract::FailureView>,
> {
    Seq::new(answers.len(), |i: int| answer_view(answers[i]))
}

/// A sweep before anyone was asked.
pub open spec fn fresh<T>(json: bool, ids: Seq<ProviderId>) -> SweepView<T> {
    SweepView {
        json,
        ids,
        asked: 0,
        hit: false,
        last: None,
        merged: Seq::<(ProviderId, Vec<T>)>::empty(),
    }
}

/// The provider that is asked next.
pub open spec fn upcoming<T>(s: SweepView<T>) -> Option<ProviderId> {
    if s.asked < s.ids.len() {
        Some(s.ids[s.asked as int])
    } else {
        None
    }
}

/// A sweep after the answer of the provider that was next.
pub open spec fn absorbed<T>(
    s: SweepView<T>,
    a: Result<Vec<T>, contract::FailureView>,
) -> SweepView<T> {
    let s1 = SweepView { asked: s.asked + 1, ..s };
    match a {
        Ok(rows) => if rows@.len() == 0 {
            s1
        } else {
            SweepView {
                hit: true,
                merged: if s.json {
                    s.merged.push((s.ids[s.asked as int], rows))
                } else {
                    s.merged
                },
                ..s1
            }
        },
        Err(f) => SweepView { last: Some(exit::failed(f)), ..s1 },
    }
}

/// How a sweep ends: with what was collected, where it was, and, where nothing came
/// back at all, with the last error. Without any error it ends with `notfound`, unless
/// answers are collected.
pub open spec fn ended<T>(s: SweepView<T>, notfound: Seq<char>) -> (
    Option<Seq<(ProviderId, Vec<T>)>>,
    Option<exit::AppErrorView>,
) {
    (
        if s.json {
            Some(s.merged)
        } else {
            None
        },
        if s.hit {
            None
        } else {
            match s.last {
                Some(e) => Some(e),
                None => if s.json {
                    None
                } else {
                    Some(exit::AppErrorView { code: EXIT_NOT_FOUND, source: notfound })
                },
            }
        },
    )
}

/// What the end of a sweep says.
pub open spec fn end_view<T>(
    r: (Option<Vec<(ProviderId, Vec<T>)>>, Option<AppError>),
) -> (Option<Seq<(ProviderId, Vec<T>)>>, Option<exit::AppErrorView>) {
    (
        match r.0 {
            Some(merged) => Some(merged@),
            None => None,
        },
        match r.1 {
            Some(e) => Some(e@),
            None => None,
        },
    )
}

/// What is told before a provider is asked.
pub open spec fn announcement(verb: Seq<char>, id: ProviderId) -> Seq<char> {
    verb + " "@ + contract::id_name(id) + "..."@
}

/// What is told before a provider is asked.
pub fn announce(verb: &str, id: ProviderId) -> (r: String)
    ensures
        r@ == announcement(verb@, id),
{
    plus4(verb, " ", id.as_str(), "...")
}

/// What is told where nothing was found for a search.
pub fn search_notfound(query: &str) -> (r: String)
    ensures
        r@ == "no results for '"@ + query@ + "'"@,
{
    plus3("no results for '", query, "'")
}

/// What is told where a package has no versions.
pub fn versions_notfound(pkg: &str) -> (r: String)
    ensures
        r@ == "no versions for '"@ + pkg@ + "'"@,
{
    plus3("no versions for '", pkg, "'")
}

impl<T> Sweep<T> {
    /// Nobody has been asked.
    pub fn start(json: bool, ids: Vec<ProviderId>) -> (r: Sweep<T>)
        ensures
            r@ == fresh::<T>(json, ids@),
    {
        Sweep { json, ids, asked: 0, hit: false, last: None, merged: Vec::new() }
    }

    /// The provider to ask next; none where everyone has been asked.
    pub fn next(&self) -> (r: Option<ProviderId>)
        ensures
            r == upcoming(self@),
    {
        if self.asked < self.ids.len() {
            Some(self.ids[self.asked])
        } else {
            None
        }
    }

    /// Takes in what the next provider answered, and says what to tell of it: rows
    /// are shown and everything else is a warning, unless the answers are collected.
    pub fn absorb(&mut self, answer: Result<Vec<T>, ProviderFailure>) -> (r: Note<T>)
        requires
            upcoming(old(self)@) is Some,
        ensures
            final(self)@ == absorbed(old(self)@, answer_view(answer)),
            if old(self).json {
                r is Quiet
            } else {
                match answer {
                    Ok(rows) => if rows@.len() == 0 {
                        r matches Note::Warn(t) && t@ == contract::id_name(
                            upcoming(old(self)@)->0,
                        ) + ": no results"@
                    } else {
                        r == Note::Show(rows)
                    },
                    Err(f) => r matches Note::Warn(t) && t@ == contract::failure_text(f@),
                }
            },
    {
        assert(self.asked < self.ids.len());
        let id = self.ids[self.asked];
        self.asked += 1;
        match answer {
            Ok(rows) => {
                if rows.len() == 0 {
                    if self.json {
                        Note::Quiet
                    } else {
                        Note::Warn(plus(id.as_str(), ": no results"))
                    }
                } else {
                    self.hit = true;
                    if self.json {
                        self.merged.push((id, rows));
                        Note::Quiet
                    } else {
                        Note::Show(rows)
                    }
                }
            },
            Err(f) => {
                self.last = Some(AppError::from_failure(&f));
                if self.json {
                    Note::Quiet
                } else {
                    Note::Warn(f.to_string())
                }
            },
        }
    }

    /// How the sweep ends.
    pub fn finish(self, notfound: &str) -> (r: (
        Option<Vec<(ProviderId, Vec<T>)>>,
        Option<AppError>,
    ))
        ensures
            end_view(r) == ended(self@, notfound@),
    {
        let failure = if self.hit {
            None
        } else {
            match self.last {
                Some(e) => Some(e),
                None => if self.json {
                    None
                } else {
                    Some(AppError { code: EXIT_NOT_FOUND, source: notfound.to_owned() })
                },
            }
        };
        if self.json {
            (Some(self.merged), failure)
        } else {
            (None, failure)
        }
    }
}

/// A sweep over providers after answers, one after the other.
pub open spec fn swept<T>(
    json: bool,
    ids: Seq<ProviderId>,
    answers: Seq<Result<Vec<T>, contract::FailureView>>,
) -> SweepView<T>
    decreases answers.len(),
{
    if answers.len() == 0 {
        fresh::<T>(json, ids)
    } else {
        absorbed(swept(json, ids, answers.drop_last()), answers.last())
    }
}

/// The last failure among answers.
pub open spec fn last_failure<T>(answers: Seq<Result<Vec<T>, contract::FailureView>>) -> Option<
    contract::FailureView,
>
    decreases answers.len(),
{
    if answers.len() == 0 {
        None
    } else {
        match answers.last() {
            Err(f) => Some(f),
            Ok(_) => last_failure(answers.drop_last()),
        }
    }
}

/// Whether an answer has rows.
pub open spec fn fruitful<T>(a: Result<Vec<T>, contract::FailureView>) -> bool {
    a matches Ok(rows) && rows@.len() > 0
}

/// The answers that have rows, in order, each with its provider.
pub open spec fn harvest<T>(
    ids: Seq<ProviderId>,
    answers: Seq<Result<Vec<T>, contract::FailureView>>,
) -> Seq<(ProviderId, Vec<T>)>
    decreases answers.len(),
{
    if answers.len() == 0 {
        Seq::<(ProviderId, Vec<T>)>::empty()
    } else {
        let front = harvest(ids, answers.drop_last());
        if fruitful(answers.last()) {
            front.push((ids[answers.len() - 1], answers.last()->Ok_0))
        } else {
            front
        }
    }
}

/// Errors end no sweep: whatever the others answer, it ends well where a provider has
/// rows. Where none has, it ends with the last failure, also where answers are collected.
/// Where none failed either, it ends as not found, but well where answers are collected:
/// to have collected nothing is an answer. What is collected is every answer that has
/// rows.
pub proof fn lemma_fan_out<T>(
    json: bool,
    ids: Seq<ProviderId>,
    answers: Seq<Result<Vec<T>, contract::FailureView>>,
    notfound: Seq<char>,
)
    ensures
        ended(swept(json, ids, answers), notfound) == (
            if json {
                Some(harvest(ids, answers))
            } else {
                None
            },
            if exists|i: int| 0 <= i < answers.len() && fruitful(#[trigger] answers[i]) {
                None
            } else {
                match last_failure(answers) {
                    Some(f) => Some(exit::failed(f)),
                    None => if json {
                        None
                    } else {
                        Some(exit::AppErrorView { code: EXIT_NOT_FOUND, source: notfound })
                    },
                }
            },
        ),
{
    lemma_swept(json, ids, answers);
}

/// Everyone is asked once, in order, whatever was answered before: after `n` answers
/// the next to be asked is the provider at place `n`, and nobody after the last.
pub proof fn lemma_asks_each_once<T>(
    json: bool,
    ids: Seq<ProviderId>,
    answers: Seq<Result<Vec<T>, contract::FailureView>>,
)
    ensures
        upcoming(swept(json, ids, answers)) == if answers.len() < ids.len() {
            Some(ids[answers.len() as int])
        } else {
            None
        },
{
    lemma_swept(json, ids, answers);
}

/// What a sweep holds after answers.
proof fn lemma_swept<T>(
    json: bool,
    ids: Seq<ProviderId>,
    answers: Seq<Result<Vec<T>, contract::FailureView>>,
)
    ensures
        ({
            let s = swept(json, ids, answers);
            &&& s.json == json
            &&& s.ids == ids
            &&& s.asked == answers.len()
            &&& s.hit <==> exists|i: int| 0 <= i < answers.len() && fruitful(#[trigger] answers[i])
            &&& s.last == match last_failure(answers) {
                Some(f) => Some(exit::failed(f)),
                None => None,
            }
            &&& json ==> s.merged == harvest(ids, answers)
        }),
    decreases answers.len(),
{
    if answers.len() > 0 {
        let front = answers.drop_last();
        lemma_swept(json, ids, front);
        let s = swept(json, ids, front);
        if s.hit {
            let i = choose|i: int| 0 <= i < front.len() && fruitful(#[trigger] front[i]);
            assert(answers[i] == front[i]);
        }
        if fruitful(answers.last()) {
            assert(fruitful(answers[answers.len() - 1]));
        }
        assert forall|i: int| 0 <= i < answers.len() && fruitful(#[trigger] answers[i]) implies s.hit
            || fruitful(answers.last()) by {
            if i < front.len() {
                assert(fruitful(front[i]));
            }
        }
    }
}

/// What the user is told while a sweep goes on.
pub enum Notice<T> {
    /// A provider is about to be asked.
    Asking(String),
    /// A warning.
    Warn(String),
    /// A provider's rows to show.
    Show(ProviderId, Vec<T>),
}

/// Whether `tell` was told of a provider that it is asked, and of what it answered.
pub open spec fn told<T, N: Fn(Notice<T>)>(
    tell: N,
    verb: Seq<char>,
    id: ProviderId,
    answer: Result<Vec<T>, ProviderFailure>,
) -> bool {
    &&& exists|t: String|
        t@ == announcement(verb, id) && #[trigger] call_ensures(tell, (Notice::Asking(t),), ())
    &&& match answer {
        Ok(rows) => if rows@.len() == 0 {
            exists|t: String|
                t@ == contract::id_name(id) + ": no results"@ && #[trigger] call_ensures(
                    tell,
                    (Notice::Warn(t),),
                    (),
                )
        } else {
            call_ensures(tell, (Notice::Show(id, rows),), ())
        },
        Err(f) => exists|t: String|
            t@ == contract::failure_text(f@) && #[trigger] call_ensures(
                tell,
                (Notice::Warn(t),),
                (),
            ),
    }
}

/// Whether `answers` are what `fetch` gave for the providers, one for each in order,
/// and the user was told of each as it came, unless they are collected.
pub open spec fn fetched<T, F: Fn(ProviderId) -> Result<Vec<T>, ProviderFailure>, N: Fn(Notice<T>)>(
    fetch: F,
    tell: N,
    ids: Seq<ProviderId>,
    json: bool,
    verb: Seq<char>,
    answers: Seq<Result<Vec<T>, ProviderFailure>>,
) -> bool {
    &&& answers.len() == ids.len()
    &&& forall|i: int|
        0 <= i < ids.len() ==> call_ensures(fetch, (ids[i],), #[trigger] answers[i]) && (json
            || told(tell, verb, ids[i], answers[i]))
}

/// Asks every provider once, in order, and shows, or collects, whatever each one
/// answers. Errors are reported but do not stop the sweep; if nothing came back at
/// all, the last one is how it ends. The contract says what `tell` is told, not that it
/// is told nothing else; that is with [`Sweep::absorb`], which gives one note an answer.
pub fn fan_out<T, F: Fn(ProviderId) -> Result<Vec<T>, ProviderFailure>, N: Fn(Notice<T>)>(
    ids: Vec<ProviderId>,
    json: bool,
    verb: &str,
    notfound: &str,
    fetch: F,
    tell: N,
) -> (r: (Option<Vec<(ProviderId, Vec<T>)>>, Option<AppError>))
    requires
        forall|i: int| 0 <= i < ids@.len() ==> call_requires(fetch, (#[trigger] ids@[i],)),
        forall|n: Notice<T>| #[trigger] call_requires(tell, (n,)),
    ensures
        exists|answers: Seq<Result<Vec<T>, ProviderFailure>>|
            #[trigger] fetched(fetch, tell, ids@, json, verb@, answers) && end_view(r) == ended(
                swept(json, ids@, answer_views(answers)),
                notfound@,
            ),
{
    let ghost all = ids@;
    let mut sweep: Sweep<T> = Sweep::start(json, ids);
    let ghost mut answers = Seq::<Result<Vec<T>, ProviderFailure>>::empty();
    assert(answer_views(answers) == Seq::<Result<Vec<T>, contract::FailureView>>::empty());
    loop
        invariant_except_break
            sweep@ == swept(json, all, answer_views(answers)),
            answers.len() <= all.len(),
        invariant
            forall|i: int| 0 <= i < all.len() ==> call_requires(fetch, (#[trigger] all[i],)),
            forall|n: Notice<T>| #[trigger] call_requires(tell, (n,)),
            forall|i: int|
                0 <= i < answers.len() ==> call_ensures(fetch, (all[i],), #[trigger] answers[i])
                    && (json || told(tell, verb@, all[i], answers[i])),
        ensures
            sweep@ == swept(json, all, answer_views(answers)),
            answers.len() == all.len(),
        decreases all.len() - answers.len(),
    {
        proof {
            lemma_asks_each_once(json, all, answer_views(answers));
            lemma_swept(json, all, answer_views(answers));
        }
        let id = match sweep.next() {
            Some(id) => id,
            None => {
                break ;
            },
        };
        assert(id == all[answers.len() as int]);
        if !json {
            let t = announce(verb, id);
            tell(Notice::Asking(t));
            assert(call_ensures(tell, (Notice::<T>::Asking(t),), ()));
        }
        let answer = fetch(id);
        let ghost a = answer;
        let ghost before = answers;
        match sweep.absorb(answer) {
            Note::Quiet => {},
            Note::Warn(t) => {
                tell(Notice::Warn(t));
                assert(call_ensures(tell, (Notice::<T>::Warn(t),), ()));
            },
            Note::Show(rows) => {
                tell(Notice::Show(id, rows));
            },
        }
        proof {
            answers = before.push(a);
            assert(answer_views(answers) == answer_views(before).push(answer_view(a)));
            assert(answer_views(answers).drop_last() == answer_views(before));
            assert(json || told(tell, verb@, id, a));
        }
    }
    assert(fetched(fetch, tell, all, json, verb@, answers));
    sweep.finish(notfound)
}

/// `answer` is one that the provider `id` can give to a search.
pub open spec fn searches<P: Provider>(
    registry: ProviderRegistry<P>,
    id: ProviderId,
    query: &str,
    answer: Result<Vec<AppResult>, ProviderFailure>,
) -> bool {
    exists|a: Result<Vec<AppResult>, ProviderError>|
        #[trigger] call_ensures(P::search, (&registry.chosen(id), query), a) && answer
            == registry::tagged(a, id)
}

/// `answer` is one that the provider `id` can give to a listing of versions.
pub open spec fn lists<P: Provider>(
    registry: ProviderRegistry<P>,
    id: ProviderId,
    pkg: &str,
    answer: Result<Vec<VersionInfo>, ProviderFailure>,
) -> bool {
    exists|a: Result<Vec<VersionInfo>, ProviderError>|
        #[trigger] call_ensures(P::versions, (&registry.chosen(id), pkg), a) && answer
            == registry::tagged(a, id)
}

/// Searches with every provider of the registry.
pub fn search<P: Provider, N: Fn(Notice<AppResult>)>(
    registry: &ProviderRegistry<P>,
    query: &str,
    json: bool,
    tell: N,
) -> (r: (Option<Vec<(ProviderId, Vec<AppResult>)>>, Option<AppError>))
    requires
        registry.wf(),
        forall|n: Notice<AppResult>| #[trigger] call_requires(tell, (n,)),
    ensures
        exists|answers: Seq<Result<Vec<AppResult>, ProviderFailure>>|
            {
                &&& answers.len() == registry.ids().len()
                &&& forall|i: int|
                    0 <= i < answers.len() ==> searches(
                        *registry,
                        registry.ids()[i],
                        query,
                        #[trigger] answers[i],
                    ) && (json || told(tell, "searching"@, registry.ids()[i], answers[i]))
                &&& end_view(r) == ended(
                    swept(json, registry.ids(), #[trigger] answer_views(answers)),
                    "no results for '"@ + query@ + "'"@,
                )
            },
{
    let fetch = |id: ProviderId| -> (a: Result<Vec<AppResult>, ProviderFailure>)
        requires
            registry.wf(),
            registry.ids().contains(id),
        ensures
            searches(*registry, id, query, a),
        { registry.search(id, query) };
    let notfound = search_notfound(query);
    let ids = registry.names();
    assert forall|i: int| 0 <= i < ids@.len() implies call_requires(fetch, (#[trigger] ids@[i],)) by {
        assert(registry.ids().contains(ids@[i]));
    }
    let r = fan_out(ids, json, "searching", notfound.as_str(), fetch, tell);
    proof {
        let answers = choose|answers: Seq<Result<Vec<AppResult>, ProviderFailure>>|
            #[trigger] fetched(fetch, tell, registry.ids(), json, "searching"@, answers)
                && end_view(r) == ended(
                swept(json, registry.ids(), answer_views(answers)),
                notfound@,
            );
        assert forall|i: int| 0 <= i < answers.len() implies searches(
            *registry,
            registry.ids()[i],
            query,
            #[trigger] answers[i],
        ) && (json || told(tell, "searching"@, registry.ids()[i], answers[i])) by {
            assert(call_ensures(fetch, (registry.ids()[i],), answers[i]));
        }
        assert(answer_views(answers).len() == answers.len());
    }
    r
}

/// Lists the versions that every provider of the registry has.
pub fn versions<P: Provider, N: Fn(Notice<VersionInfo>)>(
    registry: &ProviderRegistry<P>,
    pkg: &str,
    json: bool,
    tell: N,
) -> (r: (Option<Vec<(ProviderId, Vec<VersionInfo>)>>, Option<AppError>))
    requires
        registry.wf(),
        forall|n: Notice<VersionInfo>| #[trigger] call_requires(tell, (n,)),
    ensures
        exists|answers: Seq<Result<Vec<VersionInfo>, ProviderFailure>>|
            {
                &&& answers.len() == registry.ids().len()
                &&& forall|i: int|
                    0 <= i < answers.len() ==> lists(
                        *registry,
                        registry.ids()[i],
                        pkg,
                        #[trigger] answers[i],
                    ) && (json || told(
                        tell,
                        "listing versions from"@,
                        registry.ids()[i],
                        answers[i],
                    ))
                &&& end_view(r) == ended(
                    swept(json, registry.ids(), #[trigger] answer_views(answers)),
                    "no versions for '"@ + pkg@ + "'"@,
                )
            },
{
    let fetch = |id: ProviderId| -> (a: Result<Vec<VersionInfo>, ProviderFailure>)
        requires
            registry.wf(),
            registry.ids().contains(id),
        ensures
            lists(*registry, id, pkg, a),
        { registry.versions(id, pkg) };
    let notfound = versions_notfound(pkg);
    let ids = registry.names();
    assert forall|i: int| 0 <= i < ids@.len() implies call_requires(fetch, (#[trigger] ids@[i],)) by {
        assert(registry.ids().contains(ids@[i]));
    }
    let r = fan_out(ids, json, "listing versions from", notfound.as_str(), fetch, tell);
    proof {
        let answers = choose|answers: Seq<Result<Vec<VersionInfo>, ProviderFailure>>|
            #[trigger] fetched(fetch, tell, registry.ids(), json, "listing versions from"@, answers)
                && end_view(r) == ended(
                swept(json, registry.ids(), answer_views(answers)),
                notfound@,
            );
        assert forall|i: int| 0 <= i < answers.len() implies lists(
            *registry,
            registry.ids()[i],
            pkg,
            #[trigger] answers[i],
        ) && (json || told(tell, "listing versions from"@, registry.ids()[i], answers[i])) by {
            assert(call_ensures(fetch, (registry.ids()[i],), answers[i]));
        }
        assert(answer_views(answers).len() == answers.len());
    }
    r
}

/// The names of providers.
pub open spec fn names_of(ids: Seq<ProviderId>) -> Seq<Seq<char>> {
    Seq::new(ids.len(), |i: int| contract::id_name(ids[i]))
}

/// What is told before a package is resolved.
pub open spec fn resolving(pkg: Seq<char>, ids: Seq<ProviderId>) -> Seq<char> {
    "resolving "@ + pkg + " ("@ + model::joined(names_of(ids), " -> "@) + ")..."@
}

/// What is told before a package is resolved.
pub fn resolving_text(pkg: &str, ids: &[ProviderId]) -> (r: String)
    ensures
        r@ == resolving(pkg@, ids@),
{
    let mut names: Vec<String> = Vec::new();
    let mut i: usize = 0;
    while i < ids.len()
        invariant
            i <= ids@.len(),
            model::texts(names@) == names_of(ids@).take(i as int),
        decreases ids@.len() - i,
    {
        let ghost before = names@;
        names.push(ids[i].to_string());
        assert(model::texts(names@) == model::texts(before).push(contract::id_name(ids@[i as int])));
        assert(model::texts(names@) == names_of(ids@).take(i + 1));
        i += 1;
    }
    assert(names_of(ids@).take(ids@.len() as int) == names_of(ids@));
    let order = join(&names, " -> ");
    let mut out = plus3("resolving ", pkg, " (");
    out.append(order.as_str());
    out.append(")...");
    out
}

/// A package that is to be downloaded: where from, and the name to save it under.
#[derive(Debug)]
pub struct Plan {
    pub target: DownloadTarget,
    pub filename: String,
}

/// Whether `plan` is how it goes on after the resolution of `pkg`: with the target and
/// the name to save it under, or with every failure.
pub open spec fn plans(
    pkg: Seq<char>,
    resolved: Result<DownloadTarget, ResolveError>,
    plan: Result<Plan, AppError>,
) -> bool {
    match resolved {
        Ok(t) => plan matches Ok(p) && p.target == t && p.filename@ == contract::filename(
            pkg,
            t.version@,
            t.arch,
        ),
        Err(e) => plan matches Err(f) && f@ == exit::unresolved(e.pkg@, model::views(e.attempts@)),
    }
}

/// Goes on after the resolution of `pkg`.
pub fn planned(pkg: &str, resolved: Result<DownloadTarget, ResolveError>) -> (r: Result<
    Plan,
    AppError,
>)
    ensures
        plans(pkg@, resolved, r),
{
    match resolved {
        Ok(target) => {
            let filename = download_filename(pkg, target.version.as_str(), target.arch);
            Ok(Plan { target, filename })
        },
        Err(e) => Err(AppError::from_resolve(&e)),
    }
}

/// Resolves a download with every provider of the registry in priority order, until
/// one has it. The user is told whom is asked.
pub fn get<P: Provider, N: Fn(String)>(
    registry: &ProviderRegistry<P>,
    pkg: &str,
    version: Option<&str>,
    arch: Arch,
    tell: N,
) -> (r: Result<Plan, AppError>)
    requires
        registry.wf(),
        forall|t: String| #[trigger] call_requires(tell, (t,)),
    ensures
        exists|t: String| #[trigger]
            call_ensures(tell, (t,), ()) && t@ == resolving(pkg@, registry.ids()),
        exists|outcome: Result<DownloadTarget, ResolveError>| #[trigger]
            registry.resolves(pkg, version, arch, outcome) && plans(pkg@, outcome, r),
{
    let names = registry.names();
    let t = resolving_text(pkg, &names);
    tell(t);
    assert(call_ensures(tell, (t,), ()));
    let outcome = registry.resolve_with_fallback(pkg, version, arch);
    assert(registry.resolves(pkg, version, arch, outcome));
    planned(pkg, outcome)
}

/// The directory to save to could not be made.
pub fn directory_failed(message: &str) -> (r: AppError)
    ensures
        r@ == (exit::AppErrorView { code: EXIT_NETWORK, source: message@ }),
{
    AppError { code: EXIT_NETWORK, source: message.to_owned() }
}

/// How a download that failed ends. To cancel is no failure and is not told as one.
pub open spec fn download_failure(e: contract::ErrorView) -> exit::AppErrorView {
    exit::AppErrorView {
        code: exit::error_code(e),
        source: match e {
            contract::ErrorView::Cancelled => "cancelled"@,
            _ => "download failed: "@ + contract::error_text(e),
        },
    }
}

/// How a download that failed ends.
pub fn download_failed(e: &ProviderError) -> (r: AppError)
    ensures
        r@ == download_failure(e@),
{
    let code: u8 = provider_error_code(e);
    let source = match e {
        ProviderError::Cancelled => "cancelled".to_owned(),
        _ => {
            let why = e.to_string();
            plus("download failed: ", why.as_str())
        },
    };
    AppError { code, source }
}

/// What is told of a package that was saved.
#[derive(Debug)]
pub struct Saved {
    pub path: String,
    pub provider: ProviderId,
    pub version: String,
    pub arch: Arch,
}

/// Ends after the download of a plan.
pub fn saved(plan: Plan, download: Result<String, ProviderError>) -> (r: Result<Saved, AppError>)
    ensures
        match download {
            Ok(path) => r matches Ok(s) && s.path == path && s.provider == plan.target.provider
                && s.version == plan.target.version && s.arch == plan.target.arch,
            Err(e) => r matches Err(f) && f@ == download_failure(e@),
        },
{
    match download {
        Ok(path) => Ok(
            Saved {
                path,
                provider: plan.target.provider,
                version: plan.target.version,
                arch: plan.target.arch,
            },
        ),
        Err(e) => Err(download_failed(&e)),
    }
}

/// The providers with their priority, from 1 on.
pub open spec fn priorities(ids: Seq<ProviderId>) -> Seq<(ProviderId, int)> {
    Seq::new(ids.len(), |i: int| (ids[i], i + 1))
}

/// The providers with their priority, from 1 on.
pub fn providers_list(ids: &[ProviderId]) -> (r: Vec<(ProviderId, usize)>)
    ensures
        r@.len() == ids@.len(),
        forall|i: int|
            0 <= i < ids@.len() ==> (#[trigger] r@[i]).0 == priorities(ids@)[i].0 && r@[i].1
                == priorities(ids@)[i].1,
{
    let mut out: Vec<(ProviderId, usize)> = Vec::new();
    let mut i: usize = 0;
    while i < ids.len()
        invariant
            i <= ids@.len(),
            out@.len() == i,
            forall|j: int|
                0 <= j < i ==> (#[trigger] out@[j]).0 == priorities(ids@)[j].0 && out@[j].1
                    == priorities(ids@)[j].1,
        decreases ids@.len() - i,
    {
        out.push((ids[i], i + 1));
        i += 1;
    }
    out
}

/// What is told of a provider that was checked.
#[derive(Debug)]
pub struct Check {
    pub name: ProviderId,
    pub ok: bool,
    /// `ok`, or the error.
    pub status: String,
    /// The same on a line that names the provider.
    pub line: String,
}

/// Whether a report is that of a provider which was checked.
pub open spec fn reports(c: Check, id: ProviderId, answer: Result<(), ProviderFailure>) -> bool {
    &&& c.name == id
    &&& c.ok == (answer is Ok)
    &&& match answer {
        Ok(_) => c.status@ == "ok"@ && c.line@ == contract::id_name(id) + ": ok"@,
        Err(f) => c.status@ == contract::error_text(f.source@) && c.line@
            == contract::failure_text(f@),
    }
}

/// What is told of a provider that was checked.
pub fn checked(id: ProviderId, answer: &Result<(), ProviderFailure>) -> (r: Check)
    ensures
        reports(r, id, *answer),
{
    match answer {
        Ok(_) => Check {
            name: id,
            ok: true,
            status: "ok".to_owned(),
            line: plus(id.as_str(), ": ok"),
        },
        Err(f) => Check {
            name: id,
            ok: false,
            status: f.source.to_string(),
            line: f.to_string(),
        },
    }
}

/// `answer` is one that the provider `id` can give to a check.
pub open spec fn checks<P: Provider>(
    registry: ProviderRegistry<P>,
    id: ProviderId,
    answer: Result<(), ProviderFailure>,
) -> bool {
    exists|a: Result<(), ProviderError>|
        #[trigger] call_ensures(P::check, (&registry.chosen(id),), a) && answer
            == registry::tagged(a, id)
}

/// Whether `answers` are those of the providers to a check, one for each in order.
pub open spec fn checked_all<P: Provider>(
    registry: ProviderRegistry<P>,
    answers: Seq<Result<(), ProviderFailure>>,
) -> bool {
    &&& answers.len() == registry.ids().len()
    &&& forall|i: int|
        0 <= i < answers.len() ==> checks(registry, registry.ids()[i], #[trigger] answers[i])
}

/// Whether `tell` was told of a provider that was checked.
pub open spec fn told_check<N: Fn(Check)>(
    tell: N,
    id: ProviderId,
    answer: Result<(), ProviderFailure>,
) -> bool {
    exists|c: Check| reports(c, id, answer) && #[trigger] call_ensures(tell, (c,), ())
}

/// Checks every provider of the registry once, in order, and tells of each, or
/// collects, what was found. A failure ends nothing.
pub fn providers_check<P: Provider, N: Fn(Check)>(
    registry: &ProviderRegistry<P>,
    json: bool,
    tell: N,
) -> (r: Vec<Check>)
    requires
        registry.wf(),
        forall|c: Check| #[trigger] call_requires(tell, (c,)),
    ensures
        r@.len() == if json {
            registry.ids().len()
        } else {
            0
        },
        exists|answers: Seq<Result<(), ProviderFailure>>|
            #[trigger] checked_all(*registry, answers) && forall|i: int|
                0 <= i < answers.len() ==> if json {
                    reports(r@[i], registry.ids()[i], #[trigger] answers[i])
                } else {
                    told_check(tell, registry.ids()[i], answers[i])
                },
{
    let ids = registry.names();
    let mut rows: Vec<Check> = Vec::new();
    let ghost mut answers = Seq::<Result<(), ProviderFailure>>::empty();
    let mut i: usize = 0;
    while i < ids.len()
        invariant
            i <= ids@.len(),
            registry.wf(),
            ids@ == registry.ids(),
            forall|c: Check| #[trigger] call_requires(tell, (c,)),
            answers.len() == i,
            rows@.len() == if json {
                i as nat
            } else {
                0
            },
            forall|j: int|
                0 <= j < i ==> {
                    &&& checks(*registry, ids@[j], #[trigger] answers[j])
                    &&& if json {
                        reports(rows@[j], ids@[j], answers[j])
                    } else {
                        told_check(tell, ids@[j], answers[j])
                    }
                },
        decreases ids@.len() - i,
    {
        let id = ids[i];
        assert(registry.ids().contains(id));
        let answer = registry.check(id);
        let found = checked(id, &answer);
        if json {
            rows.push(found);
        } else {
            tell(found);
            assert(call_ensures(tell, (found,), ()));
        }
        proof {
            answers = answers.push(answer);
        }
        i += 1;
    }
    assert(checked_all(*registry, answers));
    rows
}

} // verus!
