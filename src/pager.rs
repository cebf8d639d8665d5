use vstd::prelude::*;

use crate::json::{Fork, Forks};

verus! {

/// The progress of listing the forks of a project page by page.
///
/// Pages are requested in order, from the first. An empty page ends the
/// listing; so does reaching the page limit, which the pager reports as a
/// truncated listing.
pub struct ForkPager {
    /// The most pages that will be requested.
    pub max_pages: usize,
    /// How many pages have been received.
    pub requested: usize,
    /// The records of the pages received, in page order, then in-page order.
    pub forks: Vec<Fork>,
    /// Whether an empty page has been received.
    pub exhausted: bool,
}

/// A pager as mathematical values.
pub struct PagerState {
    pub max_pages: nat,
    pub requested: nat,
    pub forks: Seq<Fork>,
    pub exhausted: bool,
}

impl PagerState {
    /// No more page is to be requested.
    pub open spec fn finished(self) -> bool {
        self.exhausted || self.requested >= self.max_pages
    }
}

/// A pager that has received nothing yet.
pub open spec fn start(max_pages: nat) -> PagerState {
    PagerState { max_pages, requested: 0, forks: Seq::empty(), exhausted: false }
}

/// The pager after one more page: an empty page ends the listing, any other is
/// appended.
pub open spec fn step(s: PagerState, page: Seq<Fork>) -> PagerState {
    PagerState {
        max_pages: s.max_pages,
        requested: s.requested + 1,
        forks: s.forks + page,
        exhausted: page.len() == 0,
    }
}

/// The pager after being handed pages in order for as long as it asks for one.
pub open spec fn feed(s: PagerState, pages: Seq<Seq<Fork>>) -> PagerState
    decreases pages.len(),
{
    if s.finished() || pages.len() == 0 {
        s
    } else {
        feed(step(s, pages[0]), pages.drop_first())
    }
}

impl View for ForkPager {
    type V = PagerState;

    open spec fn view(&self) -> PagerState {
        PagerState {
            max_pages: self.max_pages as nat,
            requested: self.requested as nat,
            forks: self.forks@,
            exhausted: self.exhausted,
        }
    }
}

impl ForkPager {
    /// Requests never go past the limit.
    pub open spec fn wf(&self) -> bool {
        self.requested <= self.max_pages
    }

    /// A pager that will request at most `max_pages` pages.
    pub fn new(max_pages: usize) -> (r: ForkPager)
        ensures
            r.wf(),
            r@ == start(max_pages as nat),
    {
        ForkPager { max_pages, requested: 0, forks: Vec::new(), exhausted: false }
    }

    /// The number of the page to request next, counting from one, or `None`
    /// once the listing is over.
    pub fn next_page(&self) -> (r: Option<usize>)
        requires
            self.wf(),
        ensures
            r == if self@.finished() {
                None
            } else {
                Some((self.requested + 1) as usize)
            },
    {
        if self.exhausted || self.requested >= self.max_pages {
            None
        } else {
            Some(self.requested + 1)
        }
    }

    /// Takes the records of the page that was last asked for.
    pub fn on_page(&mut self, page: Vec<Fork>)
        requires
            old(self).wf(),
            !old(self)@.finished(),
        ensures
            final(self).wf(),
            final(self)@ == step(old(self)@, page@),
    {
        let mut page = page;
        self.exhausted = page.len() == 0;
        self.forks.append(&mut page);
        self.requested = self.requested + 1;
    }

    /// The listing ended at the page limit rather than on an empty page, so
    /// more forks may exist.
    pub fn is_truncated(&self) -> (r: bool)
        ensures
            r == (!self.exhausted && self.requested >= self.max_pages),
    {
        !self.exhausted && self.requested >= self.max_pages
    }

    /// The records received.
    pub fn into_forks(self) -> (r: Forks)
        ensures
            r.0@ == self.forks@,
    {
        Forks(self.forks)
    }
}

proof fn lemma_feed_until_empty(s: PagerState, pages: Seq<Seq<Fork>>, k: nat)
    requires
        !s.finished(),
        1 <= k <= pages.len(),
        s.requested + k <= s.max_pages,
        pages[k - 1].len() == 0,
        forall|j: int| 0 <= j < k - 1 ==> #[trigger] pages[j].len() > 0,
    ensures
        feed(s, pages) == (PagerState {
            max_pages: s.max_pages,
            requested: s.requested + k,
            forks: s.forks + pages.take(k - 1).flatten(),
            exhausted: true,
        }),
    decreases k,
{
    let t = step(s, pages[0]);
    if k == 1 {
        assert(pages.take(0) =~= Seq::<Seq<Fork>>::empty());
        assert(s.forks + pages[0] =~= s.forks);
        assert(feed(t, pages.drop_first()) == t);
    } else {
        assert(pages[0].len() > 0);
        let rest = pages.drop_first();
        assert forall|j: int| 0 <= j < k - 2 implies #[trigger] rest[j].len() > 0 by {
            assert(rest[j] == pages[j + 1]);
        }
        lemma_feed_until_empty(t, rest, (k - 1) as nat);
        let front = pages.take(k - 1);
        assert(front.first() == pages[0]);
        assert(front.drop_first() =~= rest.take(k - 2));
        assert(t.forks + rest.take(k - 2).flatten() =~= s.forks + front.flatten());
    }
}

/// Listing stops at the first empty page: when page `k` is the first empty one
/// and the limit allows `k` requests, the pager makes exactly `k` requests and
/// returns the records of pages `1..k-1`, concatenated in order.
pub proof fn lemma_pagination_stops_at_first_empty(
    max_pages: nat,
    pages: Seq<Seq<Fork>>,
    k: nat,
)
    requires
        1 <= k <= pages.len(),
        k <= max_pages,
        pages[k - 1].len() == 0,
        forall|j: int| 0 <= j < k - 1 ==> #[trigger] pages[j].len() > 0,
    ensures
        feed(start(max_pages), pages).finished(),
        feed(start(max_pages), pages).exhausted,
        feed(start(max_pages), pages).requested == k,
        feed(start(max_pages), pages).forks == pages.take(k - 1).flatten(),
{
    lemma_feed_until_empty(start(max_pages), pages, k);
    assert(Seq::<Fork>::empty() + pages.take(k - 1).flatten() =~= pages.take(k - 1).flatten());
}

} // verus!
