//! The remote state fetcher: follows the paginated chapter listing of one
//! manga until every page has arrived.
//!
//! The caller performs the requests; this state machine decides which page to
//! ask for next and keeps what has arrived. Any failure discards the pages
//! already received, so a run never reconciles against a partial listing.
use vstd::prelude::*;

use crate::model::{Chapter, ChapterPage};

verus! {

/// Why a listing could not be read.
#[derive(Debug, PartialEq, Eq)]
pub enum FetchError {
    SendFailed,
    BadStatus(u16),
    DecodeFailed,
}

/// A listing in progress.
pub struct ChapterFetch {
    items: Vec<Chapter>,
    received: usize,
    total_pages: usize,
    failed: Option<FetchError>,
}

/// The state of a listing: the items so far, how many pages arrived, the page
/// count that the first page announced, and the failure, if any.
pub struct FetchView {
    pub items: Seq<Chapter>,
    pub received: nat,
    pub total_pages: nat,
    pub failed: Option<FetchError>,
}

/// How many pages the listing takes: at least the first one.
pub open spec fn pages_wanted(v: FetchView) -> nat {
    if v.total_pages <= 1 {
        1
    } else {
        v.total_pages
    }
}

/// The page to ask for next, counting from 1; `None` once the listing is
/// complete or has failed.
pub open spec fn next_page_of(v: FetchView) -> Option<nat> {
    if v.failed is Some || v.received >= pages_wanted(v) {
        None
    } else {
        Some(v.received + 1)
    }
}

/// The state after a page arrives; only the first page's count is kept.
pub open spec fn after_page(v: FetchView, page: ChapterPage) -> FetchView {
    FetchView {
        items: v.items + page.items@,
        received: v.received + 1,
        total_pages: if v.received == 0 {
            page.total_pages as nat
        } else {
            v.total_pages
        },
        failed: None,
    }
}

/// The state after a request fails: what arrived is dropped.
pub open spec fn after_failure(v: FetchView, e: FetchError) -> FetchView {
    FetchView { items: Seq::empty(), received: v.received, total_pages: v.total_pages, failed: Some(e) }
}

impl View for ChapterFetch {
    type V = FetchView;

    closed spec fn view(&self) -> FetchView {
        FetchView {
            items: self.items@,
            received: self.received as nat,
            total_pages: self.total_pages as nat,
            failed: self.failed,
        }
    }
}

impl ChapterFetch {
    /// A listing before its first request.
    pub fn new() -> (r: Self)
        ensures
            r@ == (FetchView { items: Seq::empty(), received: 0, total_pages: 0, failed: None }),
    {
        ChapterFetch { items: Vec::new(), received: 0, total_pages: 0, failed: None }
    }

    /// The page to ask for next, if any.
    pub fn next_page(&self) -> (r: Option<usize>)
        ensures
            match next_page_of(self@) {
                Some(p) => r == Some(p as usize),
                None => r is None,
            },
    {
        if self.failed.is_some() {
            return None;
        }
        let wanted = if self.total_pages <= 1 {
            1
        } else {
            self.total_pages
        };
        if self.received >= wanted {
            None
        } else {
            Some(self.received + 1)
        }
    }

    /// Takes in the page that was asked for.
    pub fn on_page(&mut self, page: ChapterPage)
        requires
            next_page_of(old(self)@) is Some,
        ensures
            final(self)@ == after_page(old(self)@, page),
    {
        let ghost page_items = page.items@;
        let mut page = page;
        if self.received == 0 {
            self.total_pages = page.total_pages;
        }
        self.items.append(&mut page.items);
        self.received = self.received + 1;
        assert(self.items@ == old(self)@.items + page_items);
    }

    /// Records that the request for the next page failed.
    pub fn on_failure(&mut self, e: FetchError)
        requires
            next_page_of(old(self)@) is Some,
        ensures
            final(self)@ == after_failure(old(self)@, e),
    {
        self.items = Vec::new();
        self.failed = Some(e);
    }

    /// The whole listing, once no page is left to ask for.
    pub fn finish(self) -> (r: Result<Vec<Chapter>, FetchError>)
        requires
            next_page_of(self@) is None,
        ensures
            match self@.failed {
                Some(e) => r == Err::<Vec<Chapter>, FetchError>(e),
                None => r is Ok && r->Ok_0@ == self@.items,
            },
    {
        match self.failed {
            Some(e) => Err(e),
            None => Ok(self.items),
        }
    }
}

/// The items of `pages`, one page after another.
pub open spec fn concat_items(pages: Seq<ChapterPage>) -> Seq<Chapter>
    decreases pages.len(),
{
    if pages.len() == 0 {
        Seq::empty()
    } else {
        pages[0].items@ + concat_items(pages.drop_first())
    }
}

/// How many items `pages` hold together.
pub open spec fn item_count(pages: Seq<ChapterPage>) -> nat
    decreases pages.len(),
{
    if pages.len() == 0 {
        0
    } else {
        pages[0].items@.len() + item_count(pages.drop_first())
    }
}

/// Feeds `replies` to a listing, one per page it asks for, until it asks for
/// no more or the replies run out. Gives the final state and the number of
/// requests made.
pub open spec fn run_listing(v: FetchView, replies: Seq<ChapterPage>) -> (FetchView, nat)
    decreases replies.len(),
{
    if replies.len() == 0 || next_page_of(v) is None {
        (v, 0)
    } else {
        let (w, n) = run_listing(after_page(v, replies[0]), replies.drop_first());
        (w, n + 1)
    }
}

proof fn lemma_item_count(pages: Seq<ChapterPage>)
    ensures
        concat_items(pages).len() == item_count(pages),
    decreases pages.len(),
{
    if pages.len() > 0 {
        lemma_item_count(pages.drop_first());
    }
}

proof fn lemma_run_rest(v: FetchView, replies: Seq<ChapterPage>)
    requires
        v.failed is None,
        v.received >= 1,
        v.received <= pages_wanted(v),
        replies.len() >= pages_wanted(v) - v.received,
    ensures
        run_listing(v, replies).1 == pages_wanted(v) - v.received,
        run_listing(v, replies).0.items == v.items + concat_items(
            replies.take(pages_wanted(v) - v.received),
        ),
        next_page_of(run_listing(v, replies).0) is None,
    decreases pages_wanted(v) - v.received,
{
    let k = pages_wanted(v) - v.received;
    if k == 0 {
        assert(replies.take(0) =~= Seq::<ChapterPage>::empty());
        assert(v.items + Seq::<Chapter>::empty() =~= v.items);
    } else {
        let v2 = after_page(v, replies[0]);
        lemma_run_rest(v2, replies.drop_first());
        assert(replies.take(k as int).drop_first() =~= replies.drop_first().take(k - 1));
        assert(v2.items + concat_items(replies.drop_first().take(k - 1)) =~= v.items + concat_items(
            replies.take(k as int),
        ));
    }
}

/// A listing whose first page announces `t` pages makes exactly `max(t, 1)`
/// requests, asks for nothing more, and holds the items of those pages in the
/// order they arrived, as many as the pages hold together.
pub proof fn lemma_listing_requests_every_page(replies: Seq<ChapterPage>)
    requires
        replies.len() >= 1,
        replies.len() >= replies[0].total_pages,
    ensures
        ({
            let wanted = if replies[0].total_pages <= 1 {
                1
            } else {
                replies[0].total_pages as nat
            };
            let (end, requests) = run_listing(
                FetchView { items: Seq::empty(), received: 0, total_pages: 0, failed: None },
                replies,
            );
            &&& requests == wanted
            &&& next_page_of(end) is None
            &&& end.items == concat_items(replies.take(wanted as int))
            &&& end.items.len() == item_count(replies.take(wanted as int))
        }),
{
    let v0 = FetchView { items: Seq::empty(), received: 0, total_pages: 0, failed: None };
    let v1 = after_page(v0, replies[0]);
    let wanted = pages_wanted(v1);
    lemma_run_rest(v1, replies.drop_first());
    assert(replies.take(wanted as int) =~= seq![replies[0]] + replies.drop_first().take(
        wanted - 1,
    ));
    assert(replies.take(wanted as int).drop_first() =~= replies.drop_first().take(wanted - 1));
    assert(v1.items =~= replies[0].items@);
    lemma_item_count(replies.take(wanted as int));
}

} // verus!
