//! Loading a roster: the identifiers of the user's friends are asked for in
//! batches, and what comes back is gathered. The requests themselves are the
//! caller's business; the steps between them are decided here.

use crate::giveaway::filters::region::listed;
use crate::giveaway::friends::{FriendsAndTheirRegions, Progress};
use crate::giveaway::regions::{ascending, regions_of, seen_in};
use crate::steam::{Friend, Relationship, SteamId, SteamUser};
use vstd::prelude::*;

verus! {

/// The largest number of identifiers in one request for summaries.
pub const BATCH_SIZE: usize = 100;

/// The number of batches that `ids` identifiers make.
pub open spec fn batch_count(ids: nat) -> nat {
    (ids + 99) / 100
}

/// Whether an entry of a relationship list is a friend.
pub open spec fn is_friend(entry: Friend) -> bool {
    entry.relationship == Relationship::Friend
}

/// The identifiers of the friends in a relationship list, in its order.
pub open spec fn friend_ids(list: Seq<Friend>) -> Seq<SteamId> {
    list.filter(|entry: Friend| is_friend(entry)).map_values(|entry: Friend| entry.id)
}

/// A roster that is being loaded.
///
/// `position` is the number of identifiers whose batches are done, and
/// `roster` holds the summaries that those batches brought.
pub struct Acquisition {
    pub ids: Vec<SteamId>,
    pub position: usize,
    pub roster: Vec<SteamUser>,
}

/// The loading is complete exactly when its progress shows every batch
/// done.
pub proof fn lemma_progress_complete(run: Acquisition)
    requires
        run.wf(),
    ensures
        run.is_complete() <==> run.progress().done == run.progress().total,
        run.progress().done <= run.progress().total,
{
    let size = run.ids@.len();
    assert(size == run.ids.len());
    assert(batch_count(run.position as nat) <= batch_count(size) <= size);
}

/// The batches done and the next one make up the batches done after it:
/// no identifier is asked for twice, and none is passed over.
pub proof fn lemma_next_batch_follows(run: Acquisition)
    requires
        run.wf(),
        !run.is_complete(),
    ensures
        run.position < run.next_end() <= run.ids@.len(),
        run.ids@.take(run.position as int) + run.ids@.subrange(
            run.position as int,
            run.next_end(),
        ) == run.ids@.take(run.next_end()),
{
    assert(run.ids@.take(run.position as int) + run.ids@.subrange(
        run.position as int,
        run.next_end(),
    ) =~= run.ids@.take(run.next_end()));
}

impl Acquisition {
    /// Whole batches are done, or all of them.
    pub open spec fn wf(&self) -> bool {
        self.position <= self.ids@.len() && (self.position % 100 == 0 || self.position
            == self.ids@.len())
    }

    /// Whether every batch is done.
    pub open spec fn is_complete(&self) -> bool {
        self.position == self.ids@.len()
    }

    /// Where the next batch ends.
    pub open spec fn next_end(&self) -> int {
        if self.ids@.len() - self.position > 100 {
            self.position + 100
        } else {
            self.ids@.len() as int
        }
    }

    /// How far the loading has come, in batches.
    pub open spec fn progress(&self) -> Progress {
        Progress {
            done: batch_count(self.position as nat) as usize,
            total: batch_count(self.ids@.len()) as usize,
        }
    }

    /// Starts loading the friends of a relationship list. Entries that are
    /// not friends are left out.
    pub fn begin(list: &Vec<Friend>) -> (run: Acquisition)
        ensures
            run.wf(),
            run.ids@ == friend_ids(list@),
            run.position == 0,
            run.roster@.len() == 0,
    {
        let ghost pick = |entry: Friend| is_friend(entry);
        let ghost id_of = |entry: Friend| entry.id;
        let mut ids: Vec<SteamId> = Vec::new();
        let mut i: usize = 0;
        proof {
            reveal(Seq::filter);
            assert(list@.take(0).filter(pick).map_values(id_of) =~= ids@);
        }
        while i < list.len()
            invariant
                i <= list.len(),
                pick == |entry: Friend| is_friend(entry),
                id_of == |entry: Friend| entry.id,
                ids@ == list@.take(i as int).filter(pick).map_values(id_of),
            decreases list.len() - i,
        {
            let entry = list[i];
            proof {
                reveal(Seq::filter);
                assert(list@.take(i + 1).drop_last() == list@.take(i as int));
                assert(list@.take(i + 1).last() == entry);
            }
            let ghost kept = list@.take(i as int).filter(pick);
            if matches!(entry.relationship, Relationship::Friend) {
                ids.push(entry.id);
                proof {
                    assert(list@.take(i + 1).filter(pick) == kept.push(entry));
                    assert(kept.push(entry).map_values(id_of) =~= kept.map_values(id_of).push(
                        entry.id,
                    ));
                }
            }
            i += 1;
        }
        proof {
            assert(list@.take(i as int) == list@);
        }
        Acquisition { ids, position: 0, roster: Vec::new() }
    }

    /// The identifiers to ask summaries for next: the next hundred, or the
    /// rest where fewer are left; `None` when every batch is done.
    pub fn next_batch(&self) -> (batch: Option<Vec<SteamId>>)
        requires
            self.wf(),
        ensures
            self.is_complete() ==> batch is None,
            !self.is_complete() ==> batch is Some && batch.unwrap()@ == self.ids@.subrange(
                self.position as int,
                self.next_end(),
            ),
    {
        if self.position == self.ids.len() {
            return None;
        }
        let end: usize = if self.ids.len() - self.position > BATCH_SIZE {
            self.position + BATCH_SIZE
        } else {
            self.ids.len()
        };
        let mut batch: Vec<SteamId> = Vec::new();
        let mut i: usize = self.position;
        while i < end
            invariant
                self.position <= i <= end <= self.ids.len(),
                batch@ == self.ids@.subrange(self.position as int, i as int),
            decreases end - i,
        {
            batch.push(self.ids[i]);
            i += 1;
            proof {
                assert(batch@ =~= self.ids@.subrange(self.position as int, i as int));
            }
        }
        Some(batch)
    }

    /// Takes the answer to the request for the next batch. Summaries are
    /// added to the roster in the order they came; a request that failed
    /// adds nothing, and the loading goes on. Returns the progress made.
    pub fn record(&mut self, summaries: Option<Vec<SteamUser>>) -> (progress: Progress)
        requires
            old(self).wf(),
            !old(self).is_complete(),
        ensures
            final(self).wf(),
            final(self).ids@ == old(self).ids@,
            final(self).position == old(self).next_end(),
            final(self).roster@ == match summaries {
                Some(users) => old(self).roster@ + users@,
                None => old(self).roster@,
            },
            progress == final(self).progress(),
            progress.done == old(self).progress().done + 1,
            progress.done <= progress.total,
    {
        match summaries {
            Some(users) => {
                let mut users = users;
                self.roster.append(&mut users);
            },
            None => {},
        }
        self.position = if self.ids.len() - self.position > BATCH_SIZE {
            self.position + BATCH_SIZE
        } else {
            self.ids.len()
        };
        self.current_progress()
    }

    /// How far the loading has come.
    pub fn current_progress(&self) -> (progress: Progress)
        requires
            self.wf(),
        ensures
            progress == self.progress(),
            progress.done <= progress.total,
    {
        let done = self.position / BATCH_SIZE + if self.position % BATCH_SIZE == 0 {
            0
        } else {
            1
        };
        let total = self.ids.len() / BATCH_SIZE + if self.ids.len() % BATCH_SIZE == 0 {
            0
        } else {
            1
        };
        Progress { done, total }
    }

    /// Ends the loading: the roster as gathered, with the country codes seen
    /// in it, each once and in ascending order.
    pub fn finish(self) -> (loaded: FriendsAndTheirRegions)
        ensures
            loaded.0@ == self.roster@,
            ascending(loaded.1@),
            forall|c: Seq<char>| listed(loaded.1@, c) <==> seen_in(self.roster@, c),
    {
        let regions = regions_of(&self.roster);
        FriendsAndTheirRegions(self.roster, regions)
    }
}

} // verus!
