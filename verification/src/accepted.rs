//! The mints the service accepted, each with the time its request began.

use vstd::prelude::*;
use crate::clock::Timestamp;
use crate::ids::{lemma_slot_is, lemma_slot_of, slot_of};

verus! {

/// One accepted mint.
#[derive(Clone, Copy, Debug, PartialEq, Eq, Structural)]
pub struct Acceptance {
    /// The identifier the service gave the mint.
    pub mint_id: u128,
    /// When the request for it began.
    pub start_time: Timestamp,
}

/// The identifiers of a sequence of acceptances, in order.
pub open spec fn accepted_ids(entries: Seq<Acceptance>) -> Seq<u128> {
    entries.map_values(|e: Acceptance| e.mint_id)
}

/// The entries after `mint_id` was accepted at `start_time`: a mint already
/// present keeps its place and takes the new time, a new one goes to the end.
pub open spec fn with_acceptance(entries: Seq<Acceptance>, mint_id: u128, start_time: Timestamp) -> Seq<
    Acceptance,
> {
    let slot = slot_of(accepted_ids(entries), mint_id);
    if slot < entries.len() {
        entries.update(slot, Acceptance { mint_id, start_time })
    } else {
        entries.push(Acceptance { mint_id, start_time })
    }
}

/// The accepted mints of a run, in the order of their first acceptance; no
/// identifier occurs twice.
#[derive(Debug)]
pub struct Accepted {
    entries: Vec<Acceptance>,
}

impl View for Accepted {
    type V = Seq<Acceptance>;

    closed spec fn view(&self) -> Seq<Acceptance> {
        self.entries@
    }
}

impl Accepted {
    #[verifier::type_invariant]
    spec fn distinct(&self) -> bool {
        accepted_ids(self.entries@).no_duplicates()
    }

    /// No mints.
    pub fn new() -> (accepted: Accepted)
        ensures
            accepted@ == Seq::<Acceptance>::empty(),
    {
        Accepted { entries: Vec::new() }
    }

    /// The number of accepted mints.
    pub fn len(&self) -> (n: usize)
        ensures
            n == self@.len(),
    {
        self.entries.len()
    }

    /// The accepted mints, in the order of their first acceptance; no
    /// identifier occurs twice among them.
    pub fn entries(&self) -> (entries: &Vec<Acceptance>)
        ensures
            entries@ == self@,
            accepted_ids(entries@).no_duplicates(),
    {
        proof {
            use_type_invariant(self);
        }
        &self.entries
    }

    /// The time at which `mint_id` was accepted, if it was.
    pub fn start_time(&self, mint_id: u128) -> (start: Option<Timestamp>)
        ensures
            start == if slot_of(accepted_ids(self@), mint_id) < self@.len() {
                Some(self@[slot_of(accepted_ids(self@), mint_id)].start_time)
            } else {
                None
            },
    {
        match self.locate(mint_id) {
            Some(i) => Some(self.entries[i].start_time),
            None => None,
        }
    }

    fn locate(&self, mint_id: u128) -> (slot: Option<usize>)
        ensures
            match slot {
                Some(i) => i == slot_of(accepted_ids(self.entries@), mint_id) && i
                    < self.entries@.len(),
                None => slot_of(accepted_ids(self.entries@), mint_id) == self.entries@.len(),
            },
    {
        let mut i: usize = 0;
        while i < self.entries.len()
            invariant
                i <= self.entries.len(),
                forall|j: int| 0 <= j < i ==> #[trigger] accepted_ids(self.entries@)[j] != mint_id,
            decreases self.entries.len() - i,
        {
            if self.entries[i].mint_id == mint_id {
                proof {
                    lemma_slot_is(accepted_ids(self.entries@), mint_id, i as int);
                }
                return Some(i);
            }
            i += 1;
        }
        proof {
            lemma_slot_is(accepted_ids(self.entries@), mint_id, i as int);
        }
        None
    }

    /// Records that `mint_id` was accepted by a request that began at
    /// `start_time`. A mint recorded before keeps its place and takes the new time.
    pub fn insert(&mut self, mint_id: u128, start_time: Timestamp)
        ensures
            final(self)@ == with_acceptance(old(self)@, mint_id, start_time),
    {
        proof {
            use_type_invariant(&*self);
            lemma_slot_of(accepted_ids(self.entries@), mint_id);
        }
        let ghost before = self.entries@;
        let slot = self.locate(mint_id);
        let mut entries: Vec<Acceptance> = Vec::new();
        core::mem::swap(&mut entries, &mut self.entries);
        match slot {
            Some(i) => {
                entries.set(i, Acceptance { mint_id, start_time });
                assert(accepted_ids(entries@) =~= accepted_ids(before));
            },
            None => {
                entries.push(Acceptance { mint_id, start_time });
                assert(accepted_ids(entries@) =~= accepted_ids(before).push(mint_id));
            },
        }
        self.entries = entries;
    }
}

} // verus!
