//! Cursor-driven paginated enumeration, generic in the item type.
//!
//! One enumeration issues list requests one at a time. Each request carries
//! the continuation cursor of the page before it (none on the first
//! request) and is answered either by a page — a batch of items plus an
//! optional cursor — or by a failure. Enumeration ends at the first page
//! that carries no cursor, and also at the first failure: a failure is
//! tolerated, the items gathered so far are kept, and no further request is
//! issued. The `truncated` flag records that a failure cut the run short,
//! so a caller can tell a complete run from a truncated one.

use vstd::prelude::*;

verus! {

/// One response unit of the listing protocol: a batch of items plus the
/// continuation cursor for the next request. An absent cursor signals the
/// end of the stream.
pub struct Page<T> {
    pub items: Vec<T>,
    pub cursor: Option<String>,
}

/// What one list request came back with: a page, or a failure whose detail
/// the caller may report on its diagnostic channel.
pub enum PageResult<T> {
    Fetched(Page<T>),
    Failed(String),
}

/// The items one response contributes: the page's batch, or nothing for a
/// failure.
pub open spec fn result_items<T>(r: PageResult<T>) -> Seq<T> {
    match r {
        PageResult::Fetched(p) => p.items@,
        PageResult::Failed(_) => Seq::empty(),
    }
}

/// Whether the response asks for a further request: a page that carries a
/// continuation cursor.
pub open spec fn continues<T>(r: PageResult<T>) -> bool {
    r matches PageResult::Fetched(p) && p.cursor is Some
}

/// Whether the response is a page without a continuation cursor: the page
/// that ends an intact stream.
pub open spec fn is_last_page<T>(r: PageResult<T>) -> bool {
    r matches PageResult::Fetched(p) && p.cursor is None
}

/// The items a whole enumeration yields when request number j is answered
/// by `responses[j]`: the pages' batches concatenated in order, up to and
/// including the first page without a cursor, or up to and excluding the
/// first failure. A sequence that runs out before either simply yields
/// everything it holds.
pub open spec fn collected_items<T>(responses: Seq<PageResult<T>>) -> Seq<T>
    decreases responses.len(),
{
    if responses.len() == 0 {
        Seq::empty()
    } else if continues(responses[0]) {
        result_items(responses[0]) + collected_items(responses.drop_first())
    } else {
        result_items(responses[0])
    }
}

/// How many requests a whole enumeration issues against these responses.
pub open spec fn requests_made<T>(responses: Seq<PageResult<T>>) -> nat
    decreases responses.len(),
{
    if responses.len() == 0 {
        0
    } else if continues(responses[0]) {
        1 + requests_made(responses.drop_first())
    } else {
        1
    }
}

/// Whether a failure cuts the enumeration short.
pub open spec fn run_truncated<T>(responses: Seq<PageResult<T>>) -> bool
    decreases responses.len(),
{
    if responses.len() == 0 {
        false
    } else if continues(responses[0]) {
        run_truncated(responses.drop_first())
    } else {
        responses[0] is Failed
    }
}

/// What an enumeration will do next: issue the first request (which carries
/// no cursor), issue a follow-up request carrying the given cursor, or
/// nothing — the stream has ended.
pub enum NextRequest {
    First,
    Continue(String),
    Finished,
}

/// The state one enumeration owns: what to request next, the items
/// gathered so far, and whether a failure cut the run short. The state is
/// not restartable: a fresh `Lister` re-enumerates from the start.
pub struct Lister<T> {
    pub next: NextRequest,
    pub items: Vec<T>,
    pub truncated: bool,
}

impl<T> Lister<T> {
    /// A fresh enumeration: about to issue the first request, nothing
    /// gathered, nothing truncated.
    pub fn new() -> (l: Lister<T>)
        ensures
            l.next is First,
            l.items@ == Seq::<T>::empty(),
            !l.truncated,
    {
        Lister { next: NextRequest::First, items: Vec::new(), truncated: false }
    }

    /// Whether the enumeration has ended, that is, no further request may
    /// be issued.
    pub fn done(&self) -> (b: bool)
        ensures
            b == (self.next is Finished),
    {
        match self.next {
            NextRequest::Finished => true,
            _ => false,
        }
    }

    /// Advances the enumeration by one response. A page's items are
    /// appended in order and its cursor decides whether a further request
    /// follows; a failure ends the run, keeps what was gathered, and sets
    /// the truncation flag.
    pub fn feed(&mut self, r: PageResult<T>)
        requires
            !(old(self).next is Finished),
        ensures
            final(self).items@ == old(self).items@ + result_items(r),
            final(self).truncated == (old(self).truncated || r is Failed),
            continues(r) ==> (r matches PageResult::Fetched(p) && final(self).next
                == NextRequest::Continue(p.cursor->0)),
            !continues(r) ==> final(self).next is Finished,
    {
        match r {
            PageResult::Fetched(p) => {
                let Page { items: mut batch, cursor } = p;
                self.items.append(&mut batch);
                match cursor {
                    Some(c) => {
                        self.next = NextRequest::Continue(c);
                    },
                    None => {
                        self.next = NextRequest::Finished;
                    },
                }
            },
            PageResult::Failed(_) => {
                self.truncated = true;
                self.next = NextRequest::Finished;
            },
        }
    }
}

/// Runs one enumeration to completion against a pre-supplied sequence of
/// responses, `responses[j]` answering the j-th request. Returns the
/// finished lister and the number of requests issued. No failure is ever
/// surfaced: a failed page only truncates the run.
pub fn enumerate<T>(responses: Vec<PageResult<T>>) -> (r: (Lister<T>, usize))
    ensures
        r.0.items@ == collected_items(responses@),
        r.0.truncated == run_truncated(responses@),
        r.1 == requests_made(responses@),
{
    let ghost all = responses@;
    let mut lister = Lister::<T>::new();
    let mut rest = responses;
    let total: usize = rest.len();
    let mut n: usize = 0;
    while !lister.done() && rest.len() > 0
        invariant
            all.len() == total,
            lister.next is Finished ==> lister.items@ == collected_items(all),
            lister.next is Finished ==> lister.truncated == run_truncated(all),
            lister.next is Finished ==> n == requests_made(all),
            !(lister.next is Finished) ==> !lister.truncated,
            !(lister.next is Finished) ==> collected_items(all) == lister.items@
                + collected_items(rest@),
            !(lister.next is Finished) ==> run_truncated(all) == run_truncated(rest@),
            !(lister.next is Finished) ==> requests_made(all) == n + requests_made(rest@),
            !(lister.next is Finished) ==> n == all.len() - rest@.len(),
            rest@.len() <= all.len(),
        decreases rest@.len(),
    {
        let ghost rest_before = rest@;
        let r = rest.remove(0);
        proof {
            assert(rest@ =~= rest_before.drop_first());
        }
        lister.feed(r);
        n = n + 1;
    }
    proof {
        if !(lister.next is Finished) {
            assert(rest@.len() == 0);
            assert(collected_items(rest@) =~= Seq::<T>::empty());
            assert(lister.items@ =~= lister.items@ + collected_items(rest@));
        }
    }
    (lister, n)
}

/// The concatenation of every response's batch, page order and item order
/// kept, paying no attention to cursors or failures.
pub open spec fn all_items<T>(responses: Seq<PageResult<T>>) -> Seq<T>
    decreases responses.len(),
{
    if responses.len() == 0 {
        Seq::empty()
    } else {
        result_items(responses[0]) + all_items(responses.drop_first())
    }
}

/// Completeness under no failures: when every response before the last is
/// a page carrying a cursor and the last is a page without one,
/// enumeration yields exactly the concatenation of all the pages' items,
/// in page order with item order kept within each page; the run is not
/// truncated and issues exactly one request per page.
pub proof fn lemma_complete_when_no_failures<T>(responses: Seq<PageResult<T>>)
    requires
        responses.len() > 0,
        forall|j: int| 0 <= j < responses.len() - 1 ==> continues(#[trigger] responses[j]),
        is_last_page(responses[responses.len() - 1]),
    ensures
        collected_items(responses) == all_items(responses),
        !run_truncated(responses),
        requests_made(responses) == responses.len(),
    decreases responses.len(),
{
    if responses.len() == 1 {
        assert(responses.drop_first().len() == 0);
        assert(all_items(responses.drop_first()) == Seq::<T>::empty());
        assert(!continues(responses[0]));
        assert(collected_items(responses) =~= all_items(responses));
    } else {
        let rest = responses.drop_first();
        assert(forall|j: int| 0 <= j < rest.len() - 1 ==> continues(#[trigger] rest[j]));
        assert(is_last_page(rest[rest.len() - 1]));
        lemma_complete_when_no_failures(rest);
        assert(continues(responses[0]));
    }
}

/// Termination: the first response that does not carry a cursor onward — a
/// page without a continuation cursor, or a failure — ends the run. No
/// request is issued past it, and the responses beyond it contribute
/// nothing: the enumeration is the same as over the first i + 1 responses
/// alone.
pub proof fn lemma_stops_at_first_terminal<T>(responses: Seq<PageResult<T>>, i: int)
    requires
        0 <= i < responses.len(),
        !continues(responses[i]),
        forall|j: int| 0 <= j < i ==> continues(#[trigger] responses[j]),
    ensures
        requests_made(responses) == i + 1,
        collected_items(responses) == collected_items(responses.take(i + 1)),
        run_truncated(responses) == run_truncated(responses.take(i + 1)),
    decreases i,
{
    let front = responses.take(i + 1);
    if i == 0 {
        assert(!continues(front[0]));
        assert(collected_items(responses) == result_items(responses[0]));
        assert(collected_items(front) == result_items(front[0]));
    } else {
        let rest = responses.drop_first();
        assert(continues(responses[0]));
        assert(!continues(rest[i - 1]));
        assert(forall|j: int| 0 <= j < i - 1 ==> continues(#[trigger] rest[j]));
        lemma_stops_at_first_terminal(rest, i - 1);
        assert(front.drop_first() =~= rest.take(i));
        assert(continues(front[0]));
        assert(result_items(front[0]) == result_items(responses[0]));
    }
}

/// Truncation on failure: when the first i responses are pages carrying
/// cursors and response i is a failure, enumeration yields exactly the
/// items of those first i pages and stops — nothing from the failed
/// request or beyond appears, the run is marked truncated, and exactly
/// i + 1 requests are issued.
pub proof fn lemma_truncated_on_failure<T>(responses: Seq<PageResult<T>>, i: int)
    requires
        0 <= i < responses.len(),
        responses[i] is Failed,
        forall|j: int| 0 <= j < i ==> continues(#[trigger] responses[j]),
    ensures
        collected_items(responses) == all_items(responses.take(i)),
        run_truncated(responses),
        requests_made(responses) == i + 1,
    decreases i,
{
    if i == 0 {
        assert(!continues(responses[0]));
        assert(collected_items(responses) == result_items(responses[0]));
        assert(collected_items(responses) =~= all_items(responses.take(0)));
    } else {
        let rest = responses.drop_first();
        assert(continues(responses[0]));
        assert(rest[i - 1] is Failed);
        assert(forall|j: int| 0 <= j < i - 1 ==> continues(#[trigger] rest[j]));
        lemma_truncated_on_failure(rest, i - 1);
        let front = responses.take(i);
        assert(front.drop_first() =~= rest.take(i - 1));
        assert(result_items(front[0]) == result_items(responses[0]));
        assert(collected_items(responses) == result_items(responses[0]) + all_items(
            rest.take(i - 1),
        ));
        assert(all_items(front) == result_items(front[0]) + all_items(front.drop_first()));
    }
}

} // verus!
