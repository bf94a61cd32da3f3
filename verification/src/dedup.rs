//! The tracked set of a user: the ids of the messages that were processed
//! already, and the filtering of candidates against it.

use vstd::prelude::*;
use crate::message::{GmailMessage, MessageRef};
use crate::text::{same_text, views};

verus! {

/// The record that persists a user's tracked set.
#[derive(Debug, Clone)]
pub struct TrackedEmails {
    /// The user's email address.
    pub id: String,
    pub email_ids: Vec<String>,
    pub created_at: i64,
    pub updated_at: i64,
}

/// A set of message ids. No id is held twice.
#[derive(Debug)]
pub struct TrackedSet {
    ids: Vec<String>,
}

impl View for TrackedSet {
    type V = Set<Seq<char>>;

    closed spec fn view(&self) -> Set<Seq<char>> {
        views(self.ids@).to_set()
    }
}

/// The ids of `messages`, in order.
pub open spec fn ids_of(messages: Seq<MessageRef>) -> Seq<Seq<char>> {
    messages.map_values(|m: MessageRef| m.id)
}

/// The members of `candidates` whose id is not in `tracked`, in order.
pub open spec fn untracked_of(candidates: Seq<MessageRef>, seen: Set<Seq<char>>) -> Seq<
    MessageRef,
> {
    candidates.filter(|m: MessageRef| !seen.contains(m.id))
}

impl TrackedSet {
    #[verifier::type_invariant]
    closed spec fn no_id_twice(&self) -> bool {
        views(self.ids@).no_duplicates()
    }

    /// The empty set.
    pub fn new() -> (set: TrackedSet)
        ensures
            set@ == Set::<Seq<char>>::empty(),
    {
        let set = TrackedSet { ids: Vec::new() };
        proof {
            assert(views(set.ids@) == Seq::<Seq<char>>::empty());
            assert(set@ == Set::<Seq<char>>::empty());
        }
        set
    }

    /// Whether `id` is in the set.
    pub fn contains(&self, id: &str) -> (found: bool)
        ensures
            found == self@.contains(id@),
    {
        let mut i: usize = 0;
        while i < self.ids.len()
            invariant
                i <= self.ids.len(),
                forall|k: int| 0 <= k < i ==> views(self.ids@)[k] != id@,
            decreases self.ids.len() - i,
        {
            if same_text(self.ids[i].as_str(), id) {
                proof {
                    assert(views(self.ids@)[i as int] == id@);
                }
                return true;
            }
            i += 1;
        }
        false
    }

    /// The set with `id` added to it.
    pub fn insert(self, id: String) -> (set: TrackedSet)
        ensures
            set@ == self@.insert(id@),
    {
        proof {
            use_type_invariant(&self);
        }
        if self.contains(id.as_str()) {
            proof {
                assert(self@.insert(id@) == self@);
            }
            self
        } else {
            proof {
                lemma_to_set_push(views(self.ids@), id@);
                assert(views(self.ids@.push(id)) == views(self.ids@).push(id@));
            }
            let mut ids: Vec<String> = self.ids;
            ids.push(id);
            TrackedSet { ids }
        }
    }

    /// The set that holds the ids of `list`.
    pub fn from_list(list: Vec<String>) -> (set: TrackedSet)
        ensures
            set@ == views(list@).to_set(),
    {
        let mut set = TrackedSet::new();
        let mut i: usize = 0;
        while i < list.len()
            invariant
                i <= list.len(),
                set@ == views(list@).take(i as int).to_set(),
            decreases list.len() - i,
        {
            proof {
                let seen = views(list@).take(i as int);
                let next = views(list@).take(i + 1);
                assert(next == seen.push(list@[i as int]@));
                lemma_to_set_push(seen, list@[i as int]@);
            }
            set = set.insert(list[i].clone());
            i += 1;
        }
        proof {
            assert(views(list@).take(list.len() as int) == views(list@));
        }
        set
    }

    /// The tracked set of a user, from the stored record: empty where there
    /// is no record yet.
    pub fn from_record(record: Option<TrackedEmails>) -> (set: TrackedSet)
        ensures
            set@ == match record {
                Some(r) => views(r.email_ids@).to_set(),
                None => Set::<Seq<char>>::empty(),
            },
    {
        match record {
            Some(r) => TrackedSet::from_list(r.email_ids),
            None => TrackedSet::new(),
        }
    }

    /// The ids of the set as a list, each once.
    pub fn into_list(self) -> (list: Vec<String>)
        ensures
            views(list@).no_duplicates(),
            views(list@).to_set() == self@,
    {
        proof {
            use_type_invariant(&self);
        }
        self.ids
    }

    /// How many ids the set holds.
    pub fn len(&self) -> (n: usize)
        ensures
            n == self@.len(),
            self@.finite(),
    {
        proof {
            use_type_invariant(self);
            views(self.ids@).unique_seq_to_set();
        }
        self.ids.len()
    }
}

/// The set of a list with one more item at the end.
pub proof fn lemma_to_set_push(list: Seq<Seq<char>>, last: Seq<char>)
    ensures
        list.push(last).to_set() == list.to_set().insert(last),
{
    assert forall|x: Seq<char>|
        list.push(last).to_set().contains(x) == list.to_set().insert(last).contains(x) by {
        if list.push(last).contains(x) {
            let k = choose|k: int| 0 <= k < list.push(last).len() && list.push(last)[k] == x;
            if k < list.len() {
                assert(list[k] == x);
            }
        }
        if list.contains(x) {
            let k = choose|k: int| 0 <= k < list.len() && list[k] == x;
            assert(list.push(last)[k] == x);
        }
        if x == last {
            assert(list.push(last)[list.len() as int] == x);
        }
    }
}

/// The candidates that are not tracked yet, in the order in which they were
/// listed.
pub fn untracked(candidates: &Vec<GmailMessage>, seen: &TrackedSet) -> (fresh: Vec<GmailMessage>)
    ensures
        views(fresh@) == untracked_of(views(candidates@), seen@),
{
    let mut fresh: Vec<GmailMessage> = Vec::new();
    let mut i: usize = 0;
    proof {
        assert(views(candidates@).take(0) == Seq::<MessageRef>::empty());
    }
    while i < candidates.len()
        invariant
            i <= candidates.len(),
            views(fresh@) == untracked_of(views(candidates@).take(i as int), seen@),
        decreases candidates.len() - i,
    {
        let known: bool = seen.contains(candidates[i].id.as_str());
        proof {
            let done = views(candidates@).take(i as int);
            assert(views(candidates@).take(i + 1) == done.push(candidates@[i as int]@));
            Seq::lemma_filter_push(
                done,
                candidates@[i as int]@,
                |m: MessageRef| !seen@.contains(m.id),
            );
        }
        if !known {
            let copy: GmailMessage = candidates[i].clone();
            proof {
                assert(views(fresh@.push(copy)) == views(fresh@).push(copy@));
            }
            fresh.push(copy);
        }
        i += 1;
    }
    proof {
        assert(views(candidates@).take(candidates.len() as int) == views(candidates@));
    }
    fresh
}

} // verus!
