//! The paginated fetcher: a path-based listing arrives page by page, each
//! page carrying parameters and, while more remain, a continuation token.
//! The fetcher concatenates the pages into one result; the first failing
//! page aborts the whole listing and discards everything gathered. A path
//! listing never reports invalid names, so the invalid list of its result
//! is always empty. A token that repeats the one just used would loop the
//! listing forever, so it is treated as a fatal protocol error.

use crate::ssm_parameters::SSMParameter;
use crate::ssm_parameters::SSMParametersResult;
use crate::ssm_parameters::SSMRequestError;
use vstd::prelude::*;
use vstd::string::*;

verus! {

/// One page of a path listing, as the store hands it back: the parameters
/// of the page, if the store found any, and the token under which the next
/// page can be requested, if more remain.
#[derive(Debug, PartialEq)]
pub struct PathPage {
    pub parameters: Option<Vec<SSMParameter>>,
    pub next_token: Option<String>,
}

/// What one page request came back with: a page, or a terminal failure.
#[derive(Debug, PartialEq)]
pub enum PageOutcome {
    Received(PathPage),
    Failed(SSMRequestError),
}

/// The fetcher's state between two page requests: everything gathered so
/// far, and the token the pending request was made with (none for the
/// first request).
#[derive(Debug, PartialEq)]
pub struct PathFetch {
    pub gathered: Vec<SSMParameter>,
    pub last_token: Option<String>,
}

/// What the fetcher decides after a page arrives: request the next page
/// from the returned state, or stop with the whole result, or abort with
/// the first error.
#[derive(Debug, PartialEq)]
pub enum FetchStep {
    Continue(PathFetch),
    Done(SSMParametersResult),
    Failed(SSMRequestError),
}

/// The fetcher's state, mathematically.
pub struct FetchModel {
    pub gathered: Seq<SSMParameter>,
    pub last_token: Option<Seq<char>>,
}

/// Where a finished run of the fetcher ended: with the parameters of all
/// pages, with the first error, or — only if the given outcomes ran out
/// before the store stopped — nowhere.
pub enum RunOutcome {
    Finished(Seq<SSMParameter>),
    Aborted(Seq<char>),
    Exhausted,
}

/// The reason given when the store repeats the continuation token it was
/// just asked with: the real store never does this, and continuing would
/// loop forever.
pub open spec fn repeated_token_reason() -> Seq<char> {
    "The page token repeated itself; the listing cannot make progress."@
}

/// The state before the first page request: nothing gathered, no token.
pub open spec fn initial_fetch_model() -> FetchModel {
    FetchModel { gathered: Seq::empty(), last_token: None }
}

pub open spec fn model_of(f: PathFetch) -> FetchModel {
    FetchModel {
        gathered: f.gathered@,
        last_token: match f.last_token {
            Some(t) => Some(t@),
            None => None,
        },
    }
}

/// How one page moves the fetcher on from state `pre`: a failed page
/// aborts with its error; a page without parameters, or without a token,
/// finishes the run; a repeated token aborts; otherwise the page's
/// parameters join what was gathered and the run continues under the new
/// token.
pub open spec fn step_matches(pre: FetchModel, outcome: PageOutcome, r: FetchStep) -> bool {
    match outcome {
        PageOutcome::Failed(e) => r == FetchStep::Failed(e),
        PageOutcome::Received(page) => match page.parameters {
            None => r matches FetchStep::Done(res) && res.parameters@ == pre.gathered
                && res.invalid_parameters@ == Seq::<String>::empty(),
            Some(ps) => match page.next_token {
                None => r matches FetchStep::Done(res) && res.parameters@ == pre.gathered + ps@
                    && res.invalid_parameters@ == Seq::<String>::empty(),
                Some(t) => {
                    if pre.last_token matches Some(lt) && lt == t@ {
                        r matches FetchStep::Failed(e) && e.reason@ == repeated_token_reason()
                    } else {
                        r matches FetchStep::Continue(next) && model_of(next) == (FetchModel {
                            gathered: pre.gathered + ps@,
                            last_token: Some(t@),
                        })
                    }
                },
            },
        },
    }
}

/// Where a run from state `m` over the successive page outcomes `outs`
/// ends.
pub open spec fn run_model(m: FetchModel, outs: Seq<PageOutcome>) -> RunOutcome
    decreases outs.len(),
{
    if outs.len() == 0 {
        RunOutcome::Exhausted
    } else {
        match outs[0] {
            PageOutcome::Failed(e) => RunOutcome::Aborted(e.reason@),
            PageOutcome::Received(page) => match page.parameters {
                None => RunOutcome::Finished(m.gathered),
                Some(ps) => match page.next_token {
                    None => RunOutcome::Finished(m.gathered + ps@),
                    Some(t) => {
                        if m.last_token matches Some(lt) && lt == t@ {
                            RunOutcome::Aborted(repeated_token_reason())
                        } else {
                            run_model(
                                FetchModel { gathered: m.gathered + ps@, last_token: Some(t@) },
                                outs.drop_first(),
                            )
                        }
                    },
                },
            },
        }
    }
}

/// How many page requests a run from state `m` over `outs` makes before it
/// ends.
pub open spec fn run_consumed(m: FetchModel, outs: Seq<PageOutcome>) -> int
    decreases outs.len(),
{
    if outs.len() == 0 {
        0
    } else {
        match outs[0] {
            PageOutcome::Failed(e) => 1,
            PageOutcome::Received(page) => match page.parameters {
                None => 1,
                Some(ps) => match page.next_token {
                    None => 1,
                    Some(t) => {
                        if m.last_token matches Some(lt) && lt == t@ {
                            1
                        } else {
                            1 + run_consumed(
                                FetchModel { gathered: m.gathered + ps@, last_token: Some(t@) },
                                outs.drop_first(),
                            )
                        }
                    },
                },
            },
        }
    }
}

/// The parameters one page outcome carries.
pub open spec fn page_parameters(o: PageOutcome) -> Seq<SSMParameter> {
    match o {
        PageOutcome::Received(page) => match page.parameters {
            Some(ps) => ps@,
            None => Seq::empty(),
        },
        PageOutcome::Failed(_) => Seq::empty(),
    }
}

/// The parameters of all the outcomes, in page order.
pub open spec fn concat_page_parameters(outs: Seq<PageOutcome>) -> Seq<SSMParameter>
    decreases outs.len(),
{
    if outs.len() == 0 {
        Seq::empty()
    } else {
        page_parameters(outs[0]) + concat_page_parameters(outs.drop_first())
    }
}

/// A page that keeps the listing going: it arrived, carries parameters,
/// and names a next page.
pub open spec fn page_continues(o: PageOutcome) -> bool {
    o matches PageOutcome::Received(page) && page.parameters is Some && page.next_token is Some
}

/// The continuation token of a continuing page.
pub open spec fn page_token(o: PageOutcome) -> Seq<char>
    recommends
        page_continues(o),
{
    o->Received_0.next_token.unwrap()@
}

/// A page on which the listing stops cleanly: it arrived, and carries no
/// parameters or no token.
pub open spec fn page_terminates(o: PageOutcome) -> bool {
    o matches PageOutcome::Received(page) && (page.parameters is None || page.next_token is None)
}

/// Through the first `k` pages, no continuation token repeats the token
/// its own request was made with — what every honest store guarantees.
pub open spec fn no_repeated_tokens(m: FetchModel, outs: Seq<PageOutcome>, k: int) -> bool {
    &&& (k > 0 && outs.len() > 0 ==> !(m.last_token matches Some(lt) && lt == page_token(outs[0])))
    &&& forall|i: int|
        1 <= i < k ==> page_token(#[trigger] outs[i]) != page_token(outs[i - 1])
}

proof fn lemma_run_all_pages_from(m: FetchModel, outs: Seq<PageOutcome>)
    requires
        outs.len() >= 1,
        forall|i: int| 0 <= i < outs.len() - 1 ==> page_continues(#[trigger] outs[i]),
        page_terminates(outs[outs.len() - 1]),
        no_repeated_tokens(m, outs, outs.len() - 1),
    ensures
        run_model(m, outs) == RunOutcome::Finished(m.gathered + concat_page_parameters(outs)),
        run_consumed(m, outs) == outs.len(),
    decreases outs.len(),
{
    let rest = outs.drop_first();
    if outs.len() == 1 {
        assert(concat_page_parameters(rest) =~= Seq::<SSMParameter>::empty());
        assert(m.gathered + concat_page_parameters(outs) =~= m.gathered + page_parameters(
            outs[0],
        ));
        assert(m.gathered + Seq::<SSMParameter>::empty() =~= m.gathered);
    } else {
        let m2 = FetchModel {
            gathered: m.gathered + page_parameters(outs[0]),
            last_token: Some(page_token(outs[0])),
        };
        assert forall|i: int| 0 <= i < rest.len() - 1 implies page_continues(
            #[trigger] rest[i],
        ) by {
            assert(rest[i] == outs[i + 1]);
        }
        assert(rest[rest.len() - 1] == outs[outs.len() - 1]);
        assert(rest.len() - 1 > 0 ==> page_token(rest[0]) != page_token(outs[0])) by {
            if rest.len() - 1 > 0 {
                assert(rest[0] == outs[1]);
            }
        }
        assert forall|i: int|
            1 <= i < rest.len() - 1 implies page_token(#[trigger] rest[i]) != page_token(
            rest[i - 1],
        ) by {
            assert(rest[i] == outs[i + 1]);
            assert(rest[i - 1] == outs[i]);
        }
        lemma_run_all_pages_from(m2, rest);
        assert(m.gathered + concat_page_parameters(outs) =~= m2.gathered + concat_page_parameters(
            rest,
        ));
    }
}

/// For a listing of `N` well-formed pages — every page but the last
/// continues with a fresh token, the last stops — the fetcher finishes
/// with the concatenation of all pages' parameters in page order, and it
/// issues exactly `N` page requests.
pub proof fn lemma_fetch_concatenates_pages(outs: Seq<PageOutcome>)
    requires
        outs.len() >= 1,
        forall|i: int| 0 <= i < outs.len() - 1 ==> page_continues(#[trigger] outs[i]),
        page_terminates(outs[outs.len() - 1]),
        forall|i: int|
            1 <= i < outs.len() - 1 ==> page_token(#[trigger] outs[i]) != page_token(outs[i - 1]),
    ensures
        run_model(initial_fetch_model(), outs) == RunOutcome::Finished(
            concat_page_parameters(outs),
        ),
        run_consumed(initial_fetch_model(), outs) == outs.len(),
{
    lemma_run_all_pages_from(initial_fetch_model(), outs);
    assert(initial_fetch_model().gathered + concat_page_parameters(outs) =~= concat_page_parameters(
        outs,
    ));
}

proof fn lemma_run_stops_at_first_error_from(m: FetchModel, outs: Seq<PageOutcome>, k: int)
    requires
        0 <= k < outs.len(),
        outs[k] matches PageOutcome::Failed(e),
        forall|i: int| 0 <= i < k ==> page_continues(#[trigger] outs[i]),
        no_repeated_tokens(m, outs, k),
    ensures
        run_model(m, outs) == RunOutcome::Aborted(outs[k]->Failed_0.reason@),
        run_consumed(m, outs) == k + 1,
    decreases k,
{
    if k > 0 {
        let rest = outs.drop_first();
        let m2 = FetchModel {
            gathered: m.gathered + page_parameters(outs[0]),
            last_token: Some(page_token(outs[0])),
        };
        assert(rest[k - 1] == outs[k]);
        assert forall|i: int| 0 <= i < k - 1 implies page_continues(#[trigger] rest[i]) by {
            assert(rest[i] == outs[i + 1]);
        }
        assert(k - 1 > 0 ==> page_token(rest[0]) != page_token(outs[0])) by {
            if k - 1 > 0 {
                assert(rest[0] == outs[1]);
            }
        }
        assert forall|i: int|
            1 <= i < k - 1 implies page_token(#[trigger] rest[i]) != page_token(rest[i - 1]) by {
            assert(rest[i] == outs[i + 1]);
            assert(rest[i - 1] == outs[i]);
        }
        lemma_run_stops_at_first_error_from(m2, rest, k - 1);
    }
}

/// If the page at position `k` is the first to fail — every page before
/// it continued with a fresh token — the whole listing ends with exactly
/// that page's error: everything gathered from the earlier pages is
/// discarded, and exactly `k + 1` page requests were issued.
pub proof fn lemma_fetch_first_error_discards(outs: Seq<PageOutcome>, k: int)
    requires
        0 <= k < outs.len(),
        outs[k] matches PageOutcome::Failed(e),
        forall|i: int| 0 <= i < k ==> page_continues(#[trigger] outs[i]),
        forall|i: int| 1 <= i < k ==> page_token(#[trigger] outs[i]) != page_token(outs[i - 1]),
    ensures
        run_model(initial_fetch_model(), outs) == RunOutcome::Aborted(outs[k]->Failed_0.reason@),
        run_consumed(initial_fetch_model(), outs) == k + 1,
{
    lemma_run_stops_at_first_error_from(initial_fetch_model(), outs, k);
}

impl PathFetch {
    /// The state before the first page request.
    pub fn start() -> (r: PathFetch)
        ensures
            model_of(r) == initial_fetch_model(),
    {
        let r = PathFetch { gathered: Vec::new(), last_token: None };
        proof {
            assert(model_of(r).gathered =~= initial_fetch_model().gathered);
        }
        r
    }

    /// Decide from one page outcome whether the listing goes on, is done,
    /// or has failed, exactly as `step_matches` states it.
    pub fn step(self, outcome: PageOutcome) -> (r: FetchStep)
        ensures
            step_matches(model_of(self), outcome, r),
    {
        let ghost pre = model_of(self);
        match outcome {
            PageOutcome::Failed(e) => FetchStep::Failed(e),
            PageOutcome::Received(page) => {
                match page.parameters {
                    None => FetchStep::Done(
                        SSMParametersResult {
                            parameters: self.gathered,
                            invalid_parameters: Vec::new(),
                        },
                    ),
                    Some(mut ps) => {
                        let mut gathered = self.gathered;
                        gathered.append(&mut ps);
                        match page.next_token {
                            None => FetchStep::Done(
                                SSMParametersResult {
                                    parameters: gathered,
                                    invalid_parameters: Vec::new(),
                                },
                            ),
                            Some(t) => {
                                let repeated = match &self.last_token {
                                    Some(lt) => *lt == t,
                                    None => false,
                                };
                                if repeated {
                                    FetchStep::Failed(
                                        SSMRequestError {
                                            reason: String::from_str(
                                                "The page token repeated itself; the listing cannot make progress.",
                                            ),
                                        },
                                    )
                                } else {
                                    FetchStep::Continue(
                                        PathFetch { gathered, last_token: Some(t) },
                                    )
                                }
                            },
                        }
                    },
                }
            },
        }
    }
}

/// Run the fetcher over the successive page outcomes of one listing.
/// Returns where the run ended together with how many pages it consumed;
/// outcomes past the first terminal one are never looked at. Every
/// successful listing has an empty invalid list.
#[verifier::loop_isolation(false)]
pub fn fetch_by_path_pages(outcomes: Vec<PageOutcome>) -> (r: (
    Result<SSMParametersResult, SSMRequestError>,
    usize,
))
    requires
        !(run_model(initial_fetch_model(), outcomes@) is Exhausted),
    ensures
        run_model(initial_fetch_model(), outcomes@) matches RunOutcome::Finished(ps) ==> (
        r.0 matches Ok(res) && res.parameters@ == ps && res.invalid_parameters@ == Seq::<
            String,
        >::empty()),
        run_model(initial_fetch_model(), outcomes@) matches RunOutcome::Aborted(reason) ==> (
        r.0 matches Err(e) && e.reason@ == reason),
        r.1 == run_consumed(initial_fetch_model(), outcomes@),
{
    let ghost orig = outcomes@;
    let mut remaining = outcomes;
    let total = remaining.len();
    let mut state = PathFetch::start();
    let mut used: usize = 0;
    loop
        invariant
            run_model(model_of(state), remaining@) == run_model(initial_fetch_model(), orig),
            !(run_model(model_of(state), remaining@) is Exhausted),
            run_consumed(initial_fetch_model(), orig) == used + run_consumed(
                model_of(state),
                remaining@,
            ),
            used + remaining@.len() == total,
        decreases remaining@.len(),
    {
        assert(remaining@.len() > 0);
        let ghost before = remaining@;
        let ghost pre = model_of(state);
        let outcome = remaining.remove(0);
        used = used + 1;
        proof {
            assert(outcome == before[0]);
            assert(remaining@ =~= before.drop_first());
        }
        match state.step(outcome) {
            FetchStep::Continue(next) => {
                state = next;
            },
            FetchStep::Done(res) => {
                return (Ok(res), used);
            },
            FetchStep::Failed(e) => {
                return (Err(e), used);
            },
        }
    }
}

} // verus!
