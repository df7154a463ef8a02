use vstd::prelude::*;

verus! {

/// What the fetcher reports back for the request it was asked to make.
#[derive(Debug)]
pub enum FetchEvent {
    Fetched(String),
    Failed,
}

/// What the orchestrator asks for next.
#[derive(Debug)]
pub enum FetchAction {
    /// Fetch this URL and report the body.
    Get(String),
    /// Every response is in: hand them to the source's parser.
    Parse,
    /// A fetch failed: this cycle of the source ends here.
    Abort,
}

/// The model of a detail-fetch run: the detail URLs to fetch, how many were
/// fetched, the response bodies gathered so far (in order), and whether a
/// fetch failed.
pub struct FetchState {
    pub urls: Seq<String>,
    pub next: int,
    pub responses: Seq<String>,
    pub failed: bool,
}

/// The run that starts from an index response: with no detail stage the index
/// response alone is parsed; otherwise each detail URL is fetched in turn.
pub open spec fn start_state(index_response: String, detail_urls: Option<Seq<String>>) -> FetchState {
    match detail_urls {
        None => FetchState {
            urls: Seq::empty(),
            next: 0,
            responses: seq![index_response],
            failed: false,
        },
        Some(urls) => FetchState { urls, next: 0, responses: Seq::empty(), failed: false },
    }
}

pub open spec fn action_of(s: FetchState) -> FetchAction {
    if s.failed {
        FetchAction::Abort
    } else if s.next < s.urls.len() {
        FetchAction::Get(s.urls[s.next])
    } else {
        FetchAction::Parse
    }
}

pub open spec fn after_event(s: FetchState, e: FetchEvent) -> FetchState {
    match e {
        FetchEvent::Fetched(body) => FetchState {
            next: s.next + 1,
            responses: s.responses.push(body),
            ..s
        },
        FetchEvent::Failed => FetchState { failed: true, ..s },
    }
}

/// The state after the given bodies came back, one per request, in order.
pub open spec fn run(s: FetchState, bodies: Seq<String>) -> FetchState
    decreases bodies.len(),
{
    if bodies.len() == 0 {
        s
    } else {
        after_event(run(s, bodies.drop_last()), FetchEvent::Fetched(bodies.last()))
    }
}

/// Drives the second stage of a source's fetch: the index response has been
/// fetched and the source has said whether, and which, detail pages it needs.
pub struct DetailFetch {
    urls: Vec<String>,
    next: usize,
    responses: Vec<String>,
    failed: bool,
}

impl View for DetailFetch {
    type V = FetchState;

    closed spec fn view(&self) -> FetchState {
        FetchState {
            urls: self.urls@,
            next: self.next as int,
            responses: self.responses@,
            failed: self.failed,
        }
    }
}

impl DetailFetch {
    pub open spec fn wf(&self) -> bool {
        0 <= self@.next <= self@.urls.len()
    }

    /// `detail_urls` is the source's answer for the index response: `None`
    /// when it never needs detail pages, `Some(urls)` (possibly empty) when
    /// those pages are to be fetched and parsed instead.
    pub fn new(index_response: String, detail_urls: Option<Vec<String>>) -> (r: DetailFetch)
        ensures
            r.wf(),
            r@ == start_state(
                index_response,
                match detail_urls {
                    None => None,
                    Some(v) => Some(v@),
                },
            ),
    {
        match detail_urls {
            None => {
                let mut responses: Vec<String> = Vec::new();
                responses.push(index_response);
                DetailFetch { urls: Vec::new(), next: 0, responses, failed: false }
            },
            Some(urls) => DetailFetch { urls, next: 0, responses: Vec::new(), failed: false },
        }
    }

    pub fn next_action(&self) -> (r: FetchAction)
        requires
            self.wf(),
        ensures
            r == action_of(self@),
    {
        if self.failed {
            FetchAction::Abort
        } else if self.next < self.urls.len() {
            FetchAction::Get(self.urls[self.next].clone())
        } else {
            FetchAction::Parse
        }
    }

    /// Takes the outcome of the fetch that `next_action` asked for.
    pub fn record(&mut self, e: FetchEvent)
        requires
            old(self).wf(),
            action_of(old(self)@) is Get,
        ensures
            final(self).wf(),
            final(self)@ == after_event(old(self)@, e),
    {
        assert(self.next < self.urls.len());
        match e {
            FetchEvent::Fetched(body) => {
                self.responses.push(body);
                self.next = self.next + 1;
            },
            FetchEvent::Failed => {
                self.failed = true;
            },
        }
    }

    /// The responses to parse, in order.
    pub fn into_responses(self) -> (r: Vec<String>)
        ensures
            r@ == self@.responses,
    {
        self.responses
    }
}

/// Feeding back the bodies of the first `k` detail requests leaves the run
/// at detail URL `k`, with exactly those bodies gathered.
pub proof fn lemma_run_detail(index_response: String, urls: Seq<String>, bodies: Seq<String>)
    requires
        bodies.len() <= urls.len(),
    ensures
        run(start_state(index_response, Some(urls)), bodies) == (FetchState {
            urls,
            next: bodies.len() as int,
            responses: bodies,
            failed: false,
        }),
    decreases bodies.len(),
{
    if bodies.len() > 0 {
        lemma_run_detail(index_response, urls, bodies.drop_last());
        assert(bodies.drop_last().push(bodies.last()) =~= bodies);
    } else {
        assert(bodies =~= Seq::<String>::empty());
    }
}

/// With detail URLs, the orchestrator asks for exactly those URLs, one
/// after another in the given order, and then parses all their bodies in
/// that order; without a detail stage it parses the index response alone.
pub proof fn lemma_detail_fetch_in_order(
    index_response: String,
    urls: Seq<String>,
    bodies: Seq<String>,
)
    requires
        bodies.len() == urls.len(),
    ensures
        forall|k: int|
            0 <= k < urls.len() ==> action_of(
                #[trigger] run(start_state(index_response, Some(urls)), bodies.take(k)),
            ) == FetchAction::Get(urls[k]),
        action_of(run(start_state(index_response, Some(urls)), bodies)) == FetchAction::Parse,
        run(start_state(index_response, Some(urls)), bodies).responses == bodies,
        action_of(start_state(index_response, None)) == FetchAction::Parse,
        start_state(index_response, None).responses == seq![index_response],
{
    assert forall|k: int| 0 <= k < urls.len() implies action_of(
        #[trigger] run(start_state(index_response, Some(urls)), bodies.take(k)),
    ) == FetchAction::Get(urls[k]) by {
        lemma_run_detail(index_response, urls, bodies.take(k));
    }
    lemma_run_detail(index_response, urls, bodies);
}

} // verus!
