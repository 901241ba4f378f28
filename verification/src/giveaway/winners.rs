use crate::giveaway::friends::Friends;
use crate::steam::{SteamId, SteamUser};
use crate::utils::{plural, pluralize};
use std::collections::HashMap;
use vstd::prelude::*;

verus! {

/// The ledger of draws.
///
/// `all_time` maps a user's identifier to the number of saved draws that the
/// user was part of; it is the only part that outlives a session. `saved`
/// tells whether `current` has been counted into `all_time`.
pub struct Winners {
    pub next_number: usize,
    pub current: Vec<SteamUser>,
    pub all_time: HashMap<u64, usize>,
    pub saved: bool,
    pub auto_save_current: bool,
}

/// The identifiers of `users`, in order.
pub open spec fn ids_of(users: Seq<SteamUser>) -> Seq<u64> {
    users.map_values(|user: SteamUser| user.id.0)
}

/// The number of wins that `ledger` holds for `id`: none where it has no
/// entry.
pub open spec fn wins_of(ledger: Map<u64, usize>, id: u64) -> nat {
    if ledger.contains_key(id) {
        ledger[id] as nat
    } else {
        0
    }
}

/// How often `id` occurs in `ids`.
pub open spec fn occurrences(ids: Seq<u64>, id: u64) -> nat
    decreases ids.len(),
{
    if ids.len() == 0 {
        0
    } else {
        occurrences(ids.drop_last(), id) + if ids.last() == id {
            1nat
        } else {
            0nat
        }
    }
}

/// `after` is `before` with one win added for each occurrence of an
/// identifier in `drawn`, and an entry made for each one that had none.
pub open spec fn committed(before: Map<u64, usize>, after: Map<u64, usize>, drawn: Seq<u64>) -> bool {
    &&& forall|id: u64| #[trigger]
        after.contains_key(id) <==> before.contains_key(id) || occurrences(drawn, id) > 0
    &&& forall|id: u64| #[trigger]
        wins_of(after, id) == wins_of(before, id) + occurrences(drawn, id)
}

/// The size of a draw of `amount` from a roster of `len` members: `amount`,
/// or `len` where the roster holds fewer.
pub open spec fn draw_size(len: nat, amount: nat) -> nat {
    if amount <= len {
        amount
    } else {
        len
    }
}

/// `picks` names `draw_size(len, amount)` different positions below `len`.
pub open spec fn is_selection(picks: Seq<usize>, len: nat, amount: nat) -> bool {
    &&& picks.len() == draw_size(len, amount)
    &&& forall|i: int| 0 <= i < picks.len() ==> (#[trigger] picks[i]) < len
    &&& picks.no_duplicates()
}

/// The members of `roster` at the positions `picks`, in the order of `picks`.
pub open spec fn selected(roster: Seq<SteamUser>, picks: Seq<usize>) -> Seq<SteamUser> {
    Seq::new(picks.len(), |i: int| roster[picks[i] as int])
}

/// `drawn` holds `draw_size(|roster|, amount)` members of `roster`, no
/// position of the roster taken twice.
pub open spec fn is_draw_of(drawn: Seq<SteamUser>, roster: Seq<SteamUser>, amount: nat) -> bool {
    exists|picks: Seq<usize>| #[trigger]
        is_selection(picks, roster.len(), amount) && drawn == selected(roster, picks)
}

/// An identifier occurs in a prefix at most as often as in the whole.
pub proof fn lemma_occurrences_prefix(ids: Seq<u64>, n: int, id: u64)
    requires
        0 <= n <= ids.len(),
    ensures
        occurrences(ids.take(n), id) <= occurrences(ids, id) <= ids.len(),
    decreases ids.len(),
{
    if ids.len() == 0 {
        assert(ids.take(n) == ids);
    } else if n == ids.len() {
        assert(ids.take(n) == ids);
        lemma_occurrences_prefix(ids.drop_last(), n - 1, id);
    } else {
        assert(ids.take(n) == ids.drop_last().take(n));
        lemma_occurrences_prefix(ids.drop_last(), n, id);
    }
}

/// An identifier occurs exactly once in a list without repetitions that
/// holds it, and not at all in a list that does not hold it.
pub proof fn lemma_occurrences_distinct(ids: Seq<u64>, id: u64)
    ensures
        !ids.contains(id) ==> occurrences(ids, id) == 0,
        ids.no_duplicates() && ids.contains(id) ==> occurrences(ids, id) == 1,
    decreases ids.len(),
{
    if ids.len() > 0 {
        let rest = ids.drop_last();
        lemma_occurrences_distinct(rest, id);
        if !ids.contains(id) {
            assert(ids[ids.len() - 1] != id);
            if rest.contains(id) {
                let j = choose|j: int| 0 <= j < rest.len() && rest[j] == id;
                assert(ids[j] == id);
            }
        }
        if ids.no_duplicates() && ids.contains(id) {
            assert(rest.no_duplicates());
            let j = choose|j: int| 0 <= j < ids.len() && ids[j] == id;
            if ids.last() == id {
                if rest.contains(id) {
                    let k = choose|k: int| 0 <= k < rest.len() && rest[k] == id;
                    assert(ids[k] == ids[ids.len() - 1]);
                }
            } else {
                assert(rest[j] == id);
            }
        }
    }
}

/// Saving a draw in which no user occurs twice adds exactly one win for each
/// of its members, and leaves every other entry of the ledger as it was.
pub proof fn lemma_commit_counts_once(
    before: Map<u64, usize>,
    after: Map<u64, usize>,
    drawn: Seq<u64>,
)
    requires
        committed(before, after, drawn),
        drawn.no_duplicates(),
    ensures
        forall|i: int|
            0 <= i < drawn.len() ==> after.contains_key(#[trigger] drawn[i]) && after[drawn[i]]
                == wins_of(before, drawn[i]) + 1,
        forall|id: u64|
            !drawn.contains(id) ==> (after.contains_key(id) <==> before.contains_key(id))
                && wins_of(after, id) == wins_of(before, id),
{
    assert forall|i: int| 0 <= i < drawn.len() implies after.contains_key(#[trigger] drawn[i])
        && after[drawn[i]] == wins_of(before, drawn[i]) + 1 by {
        assert(drawn.contains(drawn[i]));
        lemma_occurrences_distinct(drawn, drawn[i]);
        assert(after.contains_key(drawn[i]));
        assert(wins_of(after, drawn[i]) == wins_of(before, drawn[i]) + 1);
    }
    assert forall|id: u64| !drawn.contains(id) implies (after.contains_key(id)
        <==> before.contains_key(id)) && wins_of(after, id) == wins_of(before, id) by {
        lemma_occurrences_distinct(drawn, id);
        assert(after.contains_key(id) <==> before.contains_key(id));
        assert(wins_of(after, id) == wins_of(before, id) + occurrences(drawn, id));
    }
}

/// A draw has `amount` members, or as many as the roster where that holds
/// fewer, each of them a member of the roster; and where no user occurs
/// twice in the roster, none occurs twice in the draw.
pub proof fn lemma_draw_is_sound(drawn: Seq<SteamUser>, roster: Seq<SteamUser>, amount: nat)
    requires
        is_draw_of(drawn, roster, amount),
    ensures
        drawn.len() == draw_size(roster.len(), amount),
        forall|i: int| 0 <= i < drawn.len() ==> roster.contains(#[trigger] drawn[i]),
        ids_of(roster).no_duplicates() ==> ids_of(drawn).no_duplicates(),
{
    let picks = choose|picks: Seq<usize>| #[trigger]
        is_selection(picks, roster.len(), amount) && drawn == selected(roster, picks);
    assert forall|i: int| 0 <= i < drawn.len() implies roster.contains(#[trigger] drawn[i]) by {
        assert(roster[picks[i] as int] == drawn[i]);
    }
    if ids_of(roster).no_duplicates() {
        assert forall|i: int, j: int|
            0 <= i < drawn.len() && 0 <= j < drawn.len() && i != j implies ids_of(drawn)[i]
            != ids_of(drawn)[j] by {
            assert(picks[i] != picks[j]);
            assert(ids_of(roster)[picks[i] as int] == drawn[i].id.0);
            assert(ids_of(roster)[picks[j] as int] == drawn[j].id.0);
        }
    }
}

/// Draws positions with `rand::seq::IteratorRandom::choose_multiple` from the
/// range `0..len`, using the generator of the calling thread (`rand::rng`).
/// Trusted: whatever the generator yields, the result holds `amount`
/// positions of the range, none of them twice. The generator does not
/// return where the system gives it no seed.
#[verifier::external_body]
pub(crate) fn choose_positions(len: usize, amount: usize) -> (picks: Vec<usize>)
    requires
        amount <= len,
    ensures
        is_selection(picks@, len as nat, amount as nat),
{
    rand::seq::IteratorRandom::choose_multiple(0..len, &mut rand::rng(), amount)
}

/// The members of `roster` at the positions `picks`, in the order of `picks`.
pub fn draw_from(roster: &Vec<SteamUser>, picks: &Vec<usize>) -> (drawn: Vec<SteamUser>)
    requires
        forall|i: int| 0 <= i < picks.len() ==> (#[trigger] picks[i]) < roster.len(),
    ensures
        drawn@ == selected(roster@, picks@),
{
    let mut drawn: Vec<SteamUser> = Vec::new();
    let mut i: usize = 0;
    while i < picks.len()
        invariant
            i <= picks.len(),
            forall|k: int| 0 <= k < picks.len() ==> (#[trigger] picks[k]) < roster.len(),
            drawn@ == selected(roster@, picks@.take(i as int)),
        decreases picks.len() - i,
    {
        drawn.push(roster[picks[i]].clone());
        i += 1;
        proof {
            assert(drawn@ =~= selected(roster@, picks@.take(i as int)));
        }
    }
    proof {
        assert(picks@.take(i as int) == picks@);
    }
    drawn
}

/// `number` brought into the range from 1 to `size`, or to 1 where `size` is
/// zero.
pub open spec fn clamped_number(number: usize, size: nat) -> usize {
    if number < 1 || size < 1 {
        1
    } else if number > size {
        size as usize
    } else {
        number
    }
}

/// How the ledger's entry for a user reads: the number of wins with its
/// word, or "Never" where there is no entry.
pub open spec fn wins_text(ledger: Map<u64, usize>, id: u64) -> Seq<char> {
    if ledger.contains_key(id) {
        plural("time"@, ledger[id] as nat)
    } else {
        "Never"@
    }
}

impl Winners {
    /// Brings the number of winners to draw next into the range from 1 to
    /// the size of the filtered roster, or to 1 where that roster is empty.
    pub fn clamp_next_number(&mut self, friends: &Friends)
        ensures
            final(self).next_number == clamped_number(
                old(self).next_number,
                friends.filtered@.len(),
            ),
            final(self).next_number >= 1,
            final(self).current@ == old(self).current@,
            final(self).all_time@ == old(self).all_time@,
            final(self).saved == old(self).saved,
            final(self).auto_save_current == old(self).auto_save_current,
    {
        let size = friends.filtered.len();
        if self.next_number < 1 || size < 1 {
            self.next_number = 1;
        } else if self.next_number > size {
            self.next_number = size;
        }
    }

    /// Counts the current draw into the ledger unless that has been done:
    /// a draw that is marked as saved is left alone, so that calling this
    /// again counts nothing twice. Tells whether it counted.
    pub fn save_current_once(&mut self) -> (counted: bool)
        requires
            !old(self).saved ==> old(self).can_save(),
        ensures
            counted == !old(self).saved,
            final(self).saved,
            final(self).current@ == old(self).current@,
            final(self).next_number == old(self).next_number,
            final(self).auto_save_current == old(self).auto_save_current,
            old(self).saved ==> final(self).all_time@ == old(self).all_time@,
            !old(self).saved ==> committed(
                old(self).all_time@,
                final(self).all_time@,
                ids_of(old(self).current@),
            ),
    {
        if self.saved {
            return false;
        }
        self.save_current();
        true
    }

    /// How the ledger's entry for `id` reads.
    pub fn wins_label(&self, id: SteamId) -> (label: String)
        ensures
            label@ == wins_text(self.all_time@, id.0),
    {
        broadcast use vstd::std_specs::hash::group_hash_axioms;

        match self.all_time.get(&id.0) {
            Some(times) => pluralize("time", *times),
            None => "Never".to_owned(),
        }
    }

    /// Whether counting `self.current` into the ledger stays within the
    /// machine's numbers.
    pub open spec fn can_save(&self) -> bool {
        forall|id: u64|
            wins_of(self.all_time@, id) + #[trigger] occurrences(ids_of(self.current@), id)
                <= usize::MAX
    }

    /// Whether counting any draw of at most `size` members into the ledger
    /// stays within the machine's numbers.
    pub open spec fn can_save_any(&self, size: nat) -> bool {
        forall|id: u64| #[trigger] wins_of(self.all_time@, id) + size <= usize::MAX
    }

    /// Draws `next_number` winners at random from the filtered roster, or all
    /// of it where it holds fewer, and makes them the current draw. With
    /// automatic saving the draw is counted into the ledger at once;
    /// otherwise it is marked as not saved.
    pub fn update_current(&mut self, friends: &Friends)
        requires
            old(self).next_number >= 1,
            old(self).auto_save_current ==> old(self).can_save_any(
                draw_size(friends.filtered@.len(), old(self).next_number as nat),
            ),
        ensures
            is_draw_of(final(self).current@, friends.filtered@, old(self).next_number as nat),
            final(self).next_number == old(self).next_number,
            final(self).auto_save_current == old(self).auto_save_current,
            final(self).saved == old(self).auto_save_current,
            old(self).auto_save_current ==> committed(
                old(self).all_time@,
                final(self).all_time@,
                ids_of(final(self).current@),
            ),
            !old(self).auto_save_current ==> final(self).all_time@ == old(self).all_time@,
    {
        let size = friends.filtered.len();
        let amount = if self.next_number > size {
            size
        } else {
            self.next_number
        };
        let picks = choose_positions(size, amount);
        let drawn = draw_from(&friends.filtered, &picks);
        proof {
            assert(is_selection(picks@, friends.filtered@.len(), self.next_number as nat));
        }
        self.record_draw(drawn);
    }

    /// Makes `drawn` the current draw. With automatic saving the draw is
    /// counted into the ledger at once; otherwise it is marked as not saved.
    pub fn record_draw(&mut self, drawn: Vec<SteamUser>)
        requires
            old(self).auto_save_current ==> old(self).can_save_any(drawn@.len()),
        ensures
            final(self).current@ == drawn@,
            final(self).next_number == old(self).next_number,
            final(self).auto_save_current == old(self).auto_save_current,
            final(self).saved == old(self).auto_save_current,
            old(self).auto_save_current ==> committed(
                old(self).all_time@,
                final(self).all_time@,
                ids_of(drawn@),
            ),
            !old(self).auto_save_current ==> final(self).all_time@ == old(self).all_time@,
    {
        self.current = drawn;
        if self.auto_save_current {
            proof {
                assert forall|id: u64|
                    wins_of(self.all_time@, id) + #[trigger] occurrences(
                        ids_of(self.current@),
                        id,
                    ) <= usize::MAX by {
                    lemma_occurrences_prefix(ids_of(self.current@), 0, id);
                }
            }
            self.save_current();
        } else {
            self.saved = false;
        }
    }

    /// Counts the current draw into the ledger: one more win for each of its
    /// members, a first entry where a member had none, and marks the draw as
    /// saved. It counts again when called again: callers test `saved` first.
    pub fn save_current(&mut self)
        requires
            old(self).can_save(),
        ensures
            final(self).saved,
            committed(old(self).all_time@, final(self).all_time@, ids_of(old(self).current@)),
            final(self).current@ == old(self).current@,
            final(self).next_number == old(self).next_number,
            final(self).auto_save_current == old(self).auto_save_current,
    {
        broadcast use vstd::std_specs::hash::group_hash_axioms;

        self.saved = true;
        let ghost ids = ids_of(self.current@);
        let mut i: usize = 0;
        proof {
            assert(ids.take(0) =~= Seq::<u64>::empty());
        }
        while i < self.current.len()
            invariant
                i <= self.current.len(),
                self.saved,
                self.current@ == old(self).current@,
                self.next_number == old(self).next_number,
                self.auto_save_current == old(self).auto_save_current,
                ids == ids_of(self.current@),
                old(self).can_save(),
                committed(old(self).all_time@, self.all_time@, ids.take(i as int)),
            decreases self.current.len() - i,
        {
            let id = self.current[i].id.0;
            let ghost ledger = self.all_time@;
            proof {
                assert(ids.take(i + 1).drop_last() == ids.take(i as int));
                assert(ids.take(i + 1).last() == id);
                lemma_occurrences_prefix(ids, i + 1, id);
                assert(wins_of(ledger, id) + 1 <= usize::MAX) by {
                    assert(wins_of(old(self).all_time@, id) + occurrences(ids, id) <= usize::MAX);
                }
            }
            let count: usize = match self.all_time.get(&id) {
                Some(times) => *times,
                None => 0,
            };
            self.all_time.insert(id, count + 1);
            i += 1;
            proof {
                assert forall|other: u64|
                    wins_of(self.all_time@, other) == wins_of(old(self).all_time@, other)
                        + occurrences(ids.take(i as int), other) by {
                    assert(wins_of(ledger, other) == wins_of(old(self).all_time@, other)
                        + occurrences(ids.take(i - 1), other));
                }
            }
        }
        proof {
            assert(ids.take(i as int) == ids);
        }
    }
}

impl Default for Winners {
    fn default() -> (winners: Self)
        ensures
            winners.next_number == 0,
            winners.current@.len() == 0,
            winners.all_time@ == Map::<u64, usize>::empty(),
            !winners.saved,
            !winners.auto_save_current,
    {
        Winners {
            next_number: 0,
            current: Vec::new(),
            all_time: HashMap::new(),
            saved: false,
            auto_save_current: false,
        }
    }
}

} // verus!
