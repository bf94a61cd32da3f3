//! The sync of one user as a state machine.
//!
//! The caller performs each action and hands back what came of it as the
//! next event. A sync lists the candidates page by page, loads the tracked
//! set, hands out the candidates that are not tracked yet, and, once they
//! were all processed, stores the tracked set with their ids added. It takes
//! no notice of what became of a single message: a message that failed or
//! was filtered out is tracked like one that gave receipts.

use vstd::prelude::*;
use crate::dedup::{ids_of, untracked, untracked_of, TrackedEmails, TrackedSet};
use crate::email_service::EmailService;
use crate::lister::{
    after_page, ListOutcome, ListStep, Listing, ListingState, Page, PageCall, PageRequest,
};
use crate::message::{GmailMessage, GmailMessagesResponse, MessageRef};
use crate::receipt::{Receipt, ReceiptRecord};
use crate::text::{join_strings, joined, views};

verus! {

/// Why the sync of a user failed.
#[derive(Debug, Clone, Copy, PartialEq, Eq, Structural)]
pub enum SyncFailure {
    /// No token could be had, or the provider refused a page.
    Listing,
    /// The tracked set could not be loaded.
    TrackedSetUnavailable,
    /// The tracked set could not be stored.
    Commit,
}

/// Where the sync of a user stands.
#[derive(Debug)]
pub enum UserSync {
    /// Nothing was done yet.
    Idle { owner: String, queries: Vec<String> },
    /// A page of the listing is awaited.
    Listing { owner: String, listing: Listing },
    /// The tracked set is awaited.
    Filtering { owner: String, candidates: Vec<GmailMessage> },
    /// The messages in `fresh` are being processed.
    Fetching { owner: String, known: TrackedSet, fresh: Vec<GmailMessage> },
    /// The store is to confirm the new tracked set.
    Committing { owner: String, receipts: Vec<Receipt> },
    /// The sync is complete, with these receipts.
    Done { receipts: Vec<Receipt> },
    /// The sync failed.
    Failed { reason: SyncFailure },
}

/// What came of the last action.
#[derive(Debug)]
pub enum SyncEvent {
    /// The sync is to begin.
    Start,
    /// The provider answered with a page.
    Page(GmailMessagesResponse),
    /// No token could be had, or the provider refused the page.
    ListingFailed,
    /// The store answered with the record of the tracked set, if there is one.
    TrackedLoaded(Option<TrackedEmails>),
    /// The store did not answer.
    TrackedUnavailable,
    /// Every message handed out was processed; these are the receipts.
    Processed(Vec<Receipt>),
    /// The tracked set was stored.
    Stored,
    /// The tracked set could not be stored.
    StoreFailed,
}

/// What the caller is to do next.
#[derive(Debug)]
pub enum SyncAction {
    /// Fetch a page of the listing with a valid token of `owner`.
    FetchPage { owner: String, request: PageRequest },
    /// Load the tracked set of `owner`.
    LoadTracked { owner: String },
    /// Process every message of `messages`, then report the receipts.
    Process { owner: String, messages: Vec<GmailMessage> },
    /// Replace the tracked set of `owner` by `ids`.
    StoreTracked { owner: String, ids: Vec<String> },
    /// The sync is complete: take the receipts from the state.
    Finish,
    /// The sync failed: take the reason from the state.
    Abort,
    /// The event does not belong to the state; nothing changed.
    Ignore,
}

/// The mathematical form of a `UserSync`.
pub enum SyncState {
    Idle { owner: Seq<char>, queries: Seq<Seq<char>> },
    Listing { owner: Seq<char>, listing: ListingState },
    Filtering { owner: Seq<char>, candidates: Seq<MessageRef> },
    Fetching { owner: Seq<char>, known: Set<Seq<char>>, fresh: Seq<MessageRef> },
    Committing { owner: Seq<char>, receipts: Seq<ReceiptRecord> },
    Done { receipts: Seq<ReceiptRecord> },
    Failed { reason: SyncFailure },
}

/// The mathematical form of a `SyncEvent`.
pub enum SyncInput {
    Start,
    Page(Page),
    ListingFailed,
    TrackedLoaded(Set<Seq<char>>),
    TrackedUnavailable,
    Processed(Seq<ReceiptRecord>),
    Stored,
    StoreFailed,
}

/// The mathematical form of a `SyncAction`. The ids to store are a set:
/// their order in the list is of no account.
pub enum SyncOutput {
    FetchPage { owner: Seq<char>, request: PageCall },
    LoadTracked { owner: Seq<char> },
    Process { owner: Seq<char>, messages: Seq<MessageRef> },
    StoreTracked { owner: Seq<char>, ids: Set<Seq<char>> },
    Finish,
    Abort,
    Ignore,
}

impl View for UserSync {
    type V = SyncState;

    open spec fn view(&self) -> SyncState {
        match self {
            UserSync::Idle { owner, queries } => SyncState::Idle {
                owner: owner@,
                queries: views(queries@),
            },
            UserSync::Listing { owner, listing } => SyncState::Listing {
                owner: owner@,
                listing: listing@,
            },
            UserSync::Filtering { owner, candidates } => SyncState::Filtering {
                owner: owner@,
                candidates: views(candidates@),
            },
            UserSync::Fetching { owner, known, fresh } => SyncState::Fetching {
                owner: owner@,
                known: known@,
                fresh: views(fresh@),
            },
            UserSync::Committing { owner, receipts } => SyncState::Committing {
                owner: owner@,
                receipts: views(receipts@),
            },
            UserSync::Done { receipts } => SyncState::Done { receipts: views(receipts@) },
            UserSync::Failed { reason } => SyncState::Failed { reason: *reason },
        }
    }
}

impl View for SyncEvent {
    type V = SyncInput;

    open spec fn view(&self) -> SyncInput {
        match self {
            SyncEvent::Start => SyncInput::Start,
            SyncEvent::Page(page) => SyncInput::Page(page@),
            SyncEvent::ListingFailed => SyncInput::ListingFailed,
            SyncEvent::TrackedLoaded(record) => SyncInput::TrackedLoaded(
                match record {
                    Some(r) => views(r.email_ids@).to_set(),
                    None => Set::empty(),
                },
            ),
            SyncEvent::TrackedUnavailable => SyncInput::TrackedUnavailable,
            SyncEvent::Processed(receipts) => SyncInput::Processed(views(receipts@)),
            SyncEvent::Stored => SyncInput::Stored,
            SyncEvent::StoreFailed => SyncInput::StoreFailed,
        }
    }
}

impl View for SyncAction {
    type V = SyncOutput;

    open spec fn view(&self) -> SyncOutput {
        match self {
            SyncAction::FetchPage { owner, request } => SyncOutput::FetchPage {
                owner: owner@,
                request: request@,
            },
            SyncAction::LoadTracked { owner } => SyncOutput::LoadTracked { owner: owner@ },
            SyncAction::Process { owner, messages } => SyncOutput::Process {
                owner: owner@,
                messages: views(messages@),
            },
            SyncAction::StoreTracked { owner, ids } => SyncOutput::StoreTracked {
                owner: owner@,
                ids: views(ids@).to_set(),
            },
            SyncAction::Finish => SyncOutput::Finish,
            SyncAction::Abort => SyncOutput::Abort,
            SyncAction::Ignore => SyncOutput::Ignore,
        }
    }
}

/// The set `known` with the ids of `messages` added.
pub open spec fn with_ids(known: Set<Seq<char>>, messages: Seq<MessageRef>) -> Set<Seq<char>> {
    known.union(ids_of(messages).to_set())
}

/// The step of the machine: the state and the action that follow from a
/// state and an event.
pub open spec fn sync_step(state: SyncState, event: SyncInput) -> (SyncState, SyncOutput) {
    match (state, event) {
        (SyncState::Idle { owner, queries }, SyncInput::Start) => {
            let query = joined(queries, " "@);
            (
                SyncState::Listing {
                    owner,
                    listing: ListingState { query, collected: Seq::empty() },
                },
                SyncOutput::FetchPage { owner, request: PageCall { query, page_token: None } },
            )
        },
        (SyncState::Listing { owner, listing }, SyncInput::Page(page)) => match after_page(
            listing,
            page,
        ) {
            ListOutcome::Fetch(next, request) => (
                SyncState::Listing { owner, listing: next },
                SyncOutput::FetchPage { owner, request },
            ),
            ListOutcome::Done(candidates) => (
                SyncState::Filtering { owner, candidates },
                SyncOutput::LoadTracked { owner },
            ),
        },
        (SyncState::Listing { owner, listing }, SyncInput::ListingFailed) => (
            SyncState::Failed { reason: SyncFailure::Listing },
            SyncOutput::Abort,
        ),
        (SyncState::Filtering { owner, candidates }, SyncInput::TrackedLoaded(known)) => {
            let fresh = untracked_of(candidates, known);
            if fresh.len() == 0 {
                (SyncState::Done { receipts: Seq::empty() }, SyncOutput::Finish)
            } else {
                (
                    SyncState::Fetching { owner, known, fresh },
                    SyncOutput::Process { owner, messages: fresh },
                )
            }
        },
        (SyncState::Filtering { owner, candidates }, SyncInput::TrackedUnavailable) => (
            SyncState::Failed { reason: SyncFailure::TrackedSetUnavailable },
            SyncOutput::Abort,
        ),
        (SyncState::Fetching { owner, known, fresh }, SyncInput::Processed(receipts)) => (
            SyncState::Committing { owner, receipts },
            SyncOutput::StoreTracked { owner, ids: with_ids(known, fresh) },
        ),
        (SyncState::Committing { owner, receipts }, SyncInput::Stored) => (
            SyncState::Done { receipts },
            SyncOutput::Finish,
        ),
        (SyncState::Committing { owner, receipts }, SyncInput::StoreFailed) => (
            SyncState::Failed { reason: SyncFailure::Commit },
            SyncOutput::Abort,
        ),
        _ => (state, SyncOutput::Ignore),
    }
}

/// `untracked_of` with one more candidate at the end.
pub proof fn lemma_untracked_push(candidates: Seq<MessageRef>, last: MessageRef, known: Set<Seq<char>>)
    ensures
        untracked_of(candidates.push(last), known) == if known.contains(last.id) {
            untracked_of(candidates, known)
        } else {
            untracked_of(candidates, known).push(last)
        },
{
    Seq::lemma_filter_push(candidates, last, |m: MessageRef| !known.contains(m.id));
}

/// `with_ids` with one more message at the end.
pub proof fn lemma_with_ids_push(known: Set<Seq<char>>, messages: Seq<MessageRef>, last: MessageRef)
    ensures
        with_ids(known, messages.push(last)) == with_ids(known, messages).insert(last.id),
{
    assert(ids_of(messages.push(last)) == ids_of(messages).push(last.id));
    crate::dedup::lemma_to_set_push(ids_of(messages), last.id);
}

/// To add the ids of the candidates that are not tracked yet is to add the
/// ids of all the candidates.
pub proof fn lemma_tracking_covers_candidates(candidates: Seq<MessageRef>, known: Set<Seq<char>>)
    ensures
        with_ids(known, untracked_of(candidates, known)) == with_ids(known, candidates),
    decreases candidates.len(),
{
    if candidates.len() == 0 {
        assert(untracked_of(candidates, known) == candidates) by {
            reveal(Seq::filter);
        }
    } else {
        let front = candidates.drop_last();
        let last = candidates.last();
        assert(candidates == front.push(last));
        lemma_tracking_covers_candidates(front, known);
        lemma_untracked_push(front, last, known);
        lemma_with_ids_push(known, front, last);
        if known.contains(last.id) {
            assert(with_ids(known, front).insert(last.id) == with_ids(known, front));
        } else {
            lemma_with_ids_push(known, untracked_of(front, known), last);
        }
    }
}

/// Where the id of every candidate is tracked, no candidate is left.
pub proof fn lemma_nothing_untracked(candidates: Seq<MessageRef>, known: Set<Seq<char>>)
    requires
        forall|k: int| 0 <= k < candidates.len() ==> known.contains(#[trigger] candidates[k].id),
    ensures
        untracked_of(candidates, known) == Seq::<MessageRef>::empty(),
    decreases candidates.len(),
{
    if candidates.len() == 0 {
        assert(untracked_of(candidates, known) == candidates) by {
            reveal(Seq::filter);
        }
    } else {
        let front = candidates.drop_last();
        let last = candidates.last();
        assert(candidates == front.push(last));
        assert forall|k: int| 0 <= k < front.len() implies known.contains(
            #[trigger] front[k].id,
        ) by {
            assert(front[k] == candidates[k]);
        }
        lemma_nothing_untracked(front, known);
        lemma_untracked_push(front, last, known);
    }
}

/// The ids of all the messages are in `with_ids`, and so is all of `known`.
pub proof fn lemma_with_ids_holds_all(known: Set<Seq<char>>, messages: Seq<MessageRef>)
    ensures
        known.subset_of(with_ids(known, messages)),
        forall|k: int|
            0 <= k < messages.len() ==> with_ids(known, messages).contains(
                #[trigger] messages[k].id,
            ),
{
    assert forall|k: int| 0 <= k < messages.len() implies with_ids(known, messages).contains(
        #[trigger] messages[k].id,
    ) by {
        assert(ids_of(messages)[k] == messages[k].id);
        assert(ids_of(messages).contains(messages[k].id));
    }
}

/// A message whose id is tracked is never handed out again: every candidate
/// that a sync hands out has an id that the tracked set does not hold.
pub proof fn lemma_tracked_messages_are_not_fetched(
    candidates: Seq<MessageRef>,
    known: Set<Seq<char>>,
)
    ensures
        forall|k: int|
            0 <= k < untracked_of(candidates, known).len() ==> !known.contains(
                (#[trigger] untracked_of(candidates, known)[k]).id,
            ),
{
    let keep = |m: MessageRef| !known.contains(m.id);
    assert forall|k: int| 0 <= k < untracked_of(candidates, known).len() implies !known.contains(
        (#[trigger] untracked_of(candidates, known)[k]).id,
    ) by {
        candidates.lemma_filter_pred(keep, k);
    }
}

/// Nothing that is reported of the messages makes a sync fail: while the
/// messages are processed, an event either ends the processing, and the
/// tracked set is stored, or does not belong there and changes nothing.
pub proof fn lemma_messages_cannot_fail_the_sync(
    owner: Seq<char>,
    known: Set<Seq<char>>,
    fresh: Seq<MessageRef>,
    event: SyncInput,
)
    ensures
        ({
            let state = SyncState::Fetching { owner, known, fresh };
            let next = sync_step(state, event);
            match event {
                SyncInput::Processed(receipts) => next == (
                    SyncState::Committing { owner, receipts },
                    SyncOutput::StoreTracked { owner, ids: with_ids(known, fresh) },
                ),
                _ => next == (state, SyncOutput::Ignore),
            }
        }),
{
}

/// The tracked set of a user after a sync that completed, where it was
/// `known` before and the listing gave `candidates`: `known` still where no
/// candidate was new, for nothing is stored then; else `known` with the ids
/// of all candidates.
pub open spec fn stored_after(candidates: Seq<MessageRef>, known: Set<Seq<char>>) -> Set<Seq<char>> {
    if untracked_of(candidates, known).len() == 0 {
        known
    } else {
        with_ids(known, candidates)
    }
}

/// A sync hands out the candidates that are not tracked and no others, and
/// what it stores afterwards is the old tracked set with the ids of all
/// candidates, whatever became of the messages: the receipts reported have
/// no part in it. The tracked set never loses an id.
pub proof fn lemma_sync_tracks_every_candidate(
    owner: Seq<char>,
    candidates: Seq<MessageRef>,
    known: Set<Seq<char>>,
    receipts: Seq<ReceiptRecord>,
)
    requires
        untracked_of(candidates, known).len() > 0,
    ensures
        ({
            let filtered = sync_step(
                SyncState::Filtering { owner, candidates },
                SyncInput::TrackedLoaded(known),
            );
            let processed = sync_step(filtered.0, SyncInput::Processed(receipts));
            &&& filtered.1 == (SyncOutput::Process {
                owner,
                messages: untracked_of(candidates, known),
            })
            &&& processed.0 == (SyncState::Committing { owner, receipts })
            &&& processed.1 == (SyncOutput::StoreTracked {
                owner,
                ids: with_ids(known, candidates),
            })
            &&& known.subset_of(with_ids(known, candidates))
        }),
{
    lemma_tracking_covers_candidates(candidates, known);
    lemma_with_ids_holds_all(known, candidates);
}

/// A second sync right after a first, with the same candidates, hands out no
/// message, reports no receipt and stores nothing: it ends at once. So the
/// tracked set stays what the first sync made it, and no receipt is
/// reported twice.
pub proof fn lemma_second_sync_does_nothing(
    owner: Seq<char>,
    candidates: Seq<MessageRef>,
    known: Set<Seq<char>>,
)
    ensures
        sync_step(
            SyncState::Filtering { owner, candidates },
            SyncInput::TrackedLoaded(stored_after(candidates, known)),
        ) == (SyncState::Done { receipts: Seq::<ReceiptRecord>::empty() }, SyncOutput::Finish),
{
    if untracked_of(candidates, known).len() > 0 {
        lemma_with_ids_holds_all(known, candidates);
        lemma_nothing_untracked(candidates, with_ids(known, candidates));
    }
}

/// Adds the ids of `messages` to `known`.
pub fn track_all(known: TrackedSet, messages: &Vec<GmailMessage>) -> (all: TrackedSet)
    ensures
        all@ == with_ids(known@, views(messages@)),
{
    let mut all: TrackedSet = known;
    let mut i: usize = 0;
    proof {
        assert(ids_of(views(messages@).take(0)).to_set() == Set::<Seq<char>>::empty());
        assert(all@ == with_ids(known@, views(messages@).take(0)));
    }
    while i < messages.len()
        invariant
            i <= messages.len(),
            all@ == with_ids(known@, views(messages@).take(i as int)),
        decreases messages.len() - i,
    {
        proof {
            let done = views(messages@).take(i as int);
            let next = views(messages@).take(i + 1);
            assert(next == done.push(messages@[i as int]@));
            assert(ids_of(next) == ids_of(done).push(messages@[i as int].id@));
            crate::dedup::lemma_to_set_push(ids_of(done), messages@[i as int].id@);
            assert(with_ids(known@, next) == with_ids(known@, done).insert(
                messages@[i as int].id@,
            ));
        }
        all = all.insert(messages[i].id.clone());
        i += 1;
    }
    proof {
        assert(views(messages@).take(messages.len() as int) == views(messages@));
    }
    all
}

impl EmailService {
    /// The state of a sync of `owner` that has not begun, for the search
    /// clauses `queries`.
    pub fn begin_sync(owner: String, queries: Vec<String>) -> (state: UserSync)
        ensures
            state@ == (SyncState::Idle { owner: owner@, queries: views(queries@) }),
    {
        UserSync::Idle { owner, queries }
    }

    /// One step of the sync of a user: takes what came of the last action
    /// and says what is to be done next.
    pub fn query_and_process_untracked(state: UserSync, event: SyncEvent) -> (next: (
        UserSync,
        SyncAction,
    ))
        ensures
            (next.0@, next.1@) == sync_step(state@, event@),
    {
        match (state, event) {
            (UserSync::Idle { owner, queries }, SyncEvent::Start) => {
                let query: String = join_strings(&queries, " ");
                let (listing, request) = Listing::start(query);
                let to: String = owner.clone();
                (UserSync::Listing { owner, listing }, SyncAction::FetchPage { owner: to, request })
            },
            (UserSync::Listing { owner, listing }, SyncEvent::Page(page)) => {
                let to: String = owner.clone();
                match listing.on_page(&page) {
                    ListStep::Fetch(next, request) => (
                        UserSync::Listing { owner, listing: next },
                        SyncAction::FetchPage { owner: to, request },
                    ),
                    ListStep::Done(candidates) => (
                        UserSync::Filtering { owner, candidates },
                        SyncAction::LoadTracked { owner: to },
                    ),
                }
            },
            (UserSync::Listing { owner, listing }, SyncEvent::ListingFailed) => (
                UserSync::Failed { reason: SyncFailure::Listing },
                SyncAction::Abort,
            ),
            (UserSync::Filtering { owner, candidates }, SyncEvent::TrackedLoaded(record)) => {
                let known: TrackedSet = TrackedSet::from_record(record);
                let fresh: Vec<GmailMessage> = untracked(&candidates, &known);
                if fresh.len() == 0 {
                    let receipts: Vec<Receipt> = Vec::new();
                    proof {
                        assert(views(receipts@) == Seq::<ReceiptRecord>::empty());
                    }
                    (UserSync::Done { receipts }, SyncAction::Finish)
                } else {
                    let to: String = owner.clone();
                    let messages: Vec<GmailMessage> = copy_messages(&fresh);
                    (
                        UserSync::Fetching { owner, known, fresh },
                        SyncAction::Process { owner: to, messages },
                    )
                }
            },
            (UserSync::Filtering { owner, candidates }, SyncEvent::TrackedUnavailable) => (
                UserSync::Failed { reason: SyncFailure::TrackedSetUnavailable },
                SyncAction::Abort,
            ),
            (UserSync::Fetching { owner, known, fresh }, SyncEvent::Processed(receipts)) => {
                let to: String = owner.clone();
                let ids: Vec<String> = track_all(known, &fresh).into_list();
                (UserSync::Committing { owner, receipts }, SyncAction::StoreTracked { owner: to, ids })
            },
            (UserSync::Committing { owner, receipts }, SyncEvent::Stored) => (
                UserSync::Done { receipts },
                SyncAction::Finish,
            ),
            (UserSync::Committing { owner, receipts }, SyncEvent::StoreFailed) => (
                UserSync::Failed { reason: SyncFailure::Commit },
                SyncAction::Abort,
            ),
            (state, _) => (state, SyncAction::Ignore),
        }
    }
}

/// Copies of the references of `messages`.
pub fn copy_messages(messages: &Vec<GmailMessage>) -> (copy: Vec<GmailMessage>)
    ensures
        views(copy@) == views(messages@),
{
    let mut copy: Vec<GmailMessage> = Vec::new();
    proof {
        assert(views(copy@) == Seq::<MessageRef>::empty());
    }
    crate::lister::collect_messages(&mut copy, messages);
    proof {
        assert(Seq::<MessageRef>::empty() + views(messages@) == views(messages@));
    }
    copy
}

} // verus!
