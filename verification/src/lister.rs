//! Listing the candidates of a search, page by page.
//!
//! The provider answers a search with one page and, where more follow, a
//! cursor. The listing asks again with the same query and that cursor until
//! a page comes without one.

use vstd::prelude::*;
use crate::message::{GmailMessage, GmailMessagesResponse, MessageRef};
use crate::text::{copy_opt_text, opt_text, views};

verus! {

/// One call of the provider's search: the query, and the cursor of the page
/// that is asked for (none for the first page).
#[derive(Debug)]
pub struct PageRequest {
    pub query: String,
    pub page_token: Option<String>,
}

/// The mathematical form of a `PageRequest`.
pub struct PageCall {
    pub query: Seq<char>,
    pub page_token: Option<Seq<char>>,
}

impl View for PageRequest {
    type V = PageCall;

    open spec fn view(&self) -> PageCall {
        PageCall { query: self.query@, page_token: opt_text(self.page_token) }
    }
}

/// The mathematical form of a `GmailMessagesResponse`.
pub struct Page {
    pub messages: Seq<MessageRef>,
    pub next_page_token: Option<Seq<char>>,
}

impl View for GmailMessagesResponse {
    type V = Page;

    open spec fn view(&self) -> Page {
        Page {
            messages: match self.messages {
                Some(list) => views(list@),
                None => Seq::empty(),
            },
            next_page_token: opt_text(self.next_page_token),
        }
    }
}

/// A listing under way: the query, and the references collected so far.
#[derive(Debug)]
pub struct Listing {
    pub query: String,
    pub collected: Vec<GmailMessage>,
}

/// The mathematical form of a `Listing`.
pub struct ListingState {
    pub query: Seq<char>,
    pub collected: Seq<MessageRef>,
}

impl View for Listing {
    type V = ListingState;

    open spec fn view(&self) -> ListingState {
        ListingState { query: self.query@, collected: views(self.collected@) }
    }
}

/// What a listing does after a page.
#[derive(Debug)]
pub enum ListStep {
    /// Another page is to be fetched.
    Fetch(Listing, PageRequest),
    /// The listing is complete: these are all the candidates.
    Done(Vec<GmailMessage>),
}

/// The mathematical form of a `ListStep`.
pub enum ListOutcome {
    Fetch(ListingState, PageCall),
    Done(Seq<MessageRef>),
}

impl View for ListStep {
    type V = ListOutcome;

    open spec fn view(&self) -> ListOutcome {
        match self {
            ListStep::Fetch(listing, request) => ListOutcome::Fetch(listing@, request@),
            ListStep::Done(all) => ListOutcome::Done(views(all@)),
        }
    }
}

/// What a listing does after the page `page`: the references of the page are
/// added to those collected; where the page has a cursor, the next page is
/// asked for with it; where it has none, the listing is complete.
pub open spec fn after_page(listing: ListingState, page: Page) -> ListOutcome {
    let collected = listing.collected + page.messages;
    match page.next_page_token {
        Some(cursor) => ListOutcome::Fetch(
            ListingState { query: listing.query, collected },
            PageCall { query: listing.query, page_token: Some(cursor) },
        ),
        None => ListOutcome::Done(collected),
    }
}

/// What the listing `listing` hands out when the pages `pages` arrive one
/// after another, each taken by `after_page`: the candidates with which it
/// completes, or nothing where the pages end before it does.
pub open spec fn listed_from(listing: ListingState, pages: Seq<Page>) -> Option<Seq<MessageRef>>
    decreases pages.len(),
{
    if pages.len() == 0 {
        None
    } else {
        match after_page(listing, pages[0]) {
            ListOutcome::Done(all) => Some(all),
            ListOutcome::Fetch(next, _) => listed_from(next, pages.drop_first()),
        }
    }
}

/// All the references of `pages`, in order.
pub open spec fn all_messages(pages: Seq<Page>) -> Seq<MessageRef>
    decreases pages.len(),
{
    if pages.len() == 0 {
        Seq::empty()
    } else {
        all_messages(pages.drop_last()) + pages.last().messages
    }
}

/// A listing whose pages all have a cursor but the last hands out the
/// references of all the pages, in the order in which they came.
pub proof fn lemma_listing_collects_every_page(listing: ListingState, pages: Seq<Page>)
    requires
        pages.len() > 0,
        forall|k: int| 0 <= k < pages.len() - 1 ==> pages[k].next_page_token.is_some(),
        pages.last().next_page_token.is_none(),
    ensures
        listed_from(listing, pages) == Some(listing.collected + all_messages(pages)),
    decreases pages.len(),
{
    if pages.len() == 1 {
        lemma_all_messages_single(pages);
    } else {
        let rest = pages.drop_first();
        let next = ListingState {
            query: listing.query,
            collected: listing.collected + pages[0].messages,
        };
        lemma_listing_collects_every_page(next, rest);
        lemma_all_messages_front(pages);
        assert(listing.collected + pages[0].messages + all_messages(rest) == listing.collected + (
        pages[0].messages + all_messages(rest)));
    }
}

/// The references of a single page.
pub proof fn lemma_all_messages_single(pages: Seq<Page>)
    requires
        pages.len() == 1,
    ensures
        all_messages(pages) == pages[0].messages,
{
    assert(all_messages(pages.drop_last()) == Seq::<MessageRef>::empty());
    assert(Seq::<MessageRef>::empty() + pages[0].messages == pages[0].messages);
}

/// `all_messages` taken from the front.
pub proof fn lemma_all_messages_front(pages: Seq<Page>)
    requires
        pages.len() > 0,
    ensures
        all_messages(pages) == pages[0].messages + all_messages(pages.drop_first()),
    decreases pages.len(),
{
    if pages.len() == 1 {
        lemma_all_messages_single(pages);
        assert(all_messages(pages.drop_first()) == Seq::<MessageRef>::empty());
        assert(pages[0].messages + Seq::<MessageRef>::empty() == pages[0].messages);
    } else {
        let front = pages.drop_last();
        lemma_all_messages_front(front);
        assert(front.drop_first() == pages.drop_first().drop_last());
        assert(pages.drop_first().last() == pages.last());
        assert(front[0] == pages[0]);
        assert(pages[0].messages + all_messages(front.drop_first()) + pages.last().messages
            == pages[0].messages + (all_messages(front.drop_first()) + pages.last().messages));
    }
}

/// Adds copies of the references of `more` to `all`.
pub fn collect_messages(all: &mut Vec<GmailMessage>, more: &Vec<GmailMessage>)
    ensures
        views(final(all)@) == views(old(all)@) + views(more@),
{
    let mut i: usize = 0;
    proof {
        assert(views(more@).take(0) == Seq::<MessageRef>::empty());
        assert(views(all@) == views(old(all)@) + views(more@).take(0));
    }
    while i < more.len()
        invariant
            i <= more.len(),
            views(all@) == views(old(all)@) + views(more@).take(i as int),
        decreases more.len() - i,
    {
        let copy: GmailMessage = more[i].clone();
        proof {
            assert(views(all@.push(copy)) == views(all@).push(copy@));
            assert(views(more@).take(i + 1) == views(more@).take(i as int).push(more@[i as int]@));
            assert(views(old(all)@) + views(more@).take(i as int).push(more@[i as int]@) == (views(
                old(all)@,
            ) + views(more@).take(i as int)).push(more@[i as int]@));
        }
        all.push(copy);
        i += 1;
    }
    proof {
        assert(views(more@).take(more.len() as int) == views(more@));
    }
}

impl Listing {
    /// Starts the listing for `query`: nothing is collected yet, and the
    /// first page is asked for without a cursor.
    pub fn start(query: String) -> (begun: (Listing, PageRequest))
        ensures
            begun.0@ == (ListingState { query: query@, collected: Seq::empty() }),
            begun.1@ == (PageCall { query: query@, page_token: None }),
    {
        let request = PageRequest { query: query.clone(), page_token: None };
        let listing = Listing { query, collected: Vec::new() };
        proof {
            assert(views(listing.collected@) == Seq::<MessageRef>::empty());
        }
        (listing, request)
    }

    /// Takes one page: its references are added to those collected, and the
    /// listing goes on with the page's cursor, or ends where there is none.
    pub fn on_page(self, page: &GmailMessagesResponse) -> (step: ListStep)
        ensures
            step@ == after_page(self@, page@),
    {
        let mut collected: Vec<GmailMessage> = self.collected;
        match &page.messages {
            Some(list) => {
                collect_messages(&mut collected, list);
            },
            None => {
                proof {
                    assert(views(collected@) + Seq::<MessageRef>::empty() == views(collected@));
                }
            },
        }
        match copy_opt_text(&page.next_page_token) {
            Some(cursor) => {
                let request = PageRequest { query: self.query.clone(), page_token: Some(cursor) };
                ListStep::Fetch(Listing { query: self.query, collected }, request)
            },
            None => ListStep::Done(collected),
        }
    }
}

} // verus!
