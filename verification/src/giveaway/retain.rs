use crate::steam::SteamUser;
use vstd::prelude::*;

verus! {

/// The members of `roster` whose mark is set, in roster order.
pub open spec fn marked(roster: Seq<SteamUser>, marks: Seq<bool>) -> Seq<SteamUser>
    recommends
        roster.len() == marks.len(),
    decreases roster.len(),
{
    if roster.len() == 0 || marks.len() == 0 {
        Seq::empty()
    } else if marks.last() {
        marked(roster.drop_last(), marks.drop_last()).push(roster.last())
    } else {
        marked(roster.drop_last(), marks.drop_last())
    }
}

/// Marking each member by a predicate selects exactly what filtering by that
/// predicate selects.
pub proof fn lemma_marked_is_filter(
    roster: Seq<SteamUser>,
    marks: Seq<bool>,
    keep: spec_fn(SteamUser) -> bool,
)
    requires
        roster.len() == marks.len(),
        forall|i: int| 0 <= i < roster.len() ==> marks[i] == keep(#[trigger] roster[i]),
    ensures
        marked(roster, marks) == roster.filter(keep),
    decreases roster.len(),
{
    reveal(Seq::filter);
    if roster.len() > 0 {
        lemma_marked_is_filter(roster.drop_last(), marks.drop_last(), keep);
    }
}

/// A predicate that holds of every member removes nothing.
pub proof fn lemma_filter_keeps_all(roster: Seq<SteamUser>, keep: spec_fn(SteamUser) -> bool)
    requires
        forall|i: int| 0 <= i < roster.len() ==> keep(#[trigger] roster[i]),
    ensures
        roster.filter(keep) == roster,
    decreases roster.len(),
{
    reveal(Seq::filter);
    if roster.len() > 0 {
        lemma_filter_keeps_all(roster.drop_last(), keep);
        assert(roster.drop_last().push(roster.last()) == roster);
    }
}

/// Filtering twice is filtering once by both predicates.
pub proof fn lemma_filter_twice(
    roster: Seq<SteamUser>,
    first: spec_fn(SteamUser) -> bool,
    second: spec_fn(SteamUser) -> bool,
    both: spec_fn(SteamUser) -> bool,
)
    requires
        forall|user: SteamUser| #[trigger] both(user) == (first(user) && second(user)),
    ensures
        roster.filter(first).filter(second) == roster.filter(both),
    decreases roster.len(),
{
    reveal(Seq::filter);
    if roster.len() > 0 {
        let rest = roster.drop_last();
        lemma_filter_twice(rest, first, second, both);
        if first(roster.last()) {
            assert(rest.filter(first).push(roster.last()).drop_last() == rest.filter(first));
        }
    }
}

/// Filtering what a filter left, by the same predicate, changes nothing.
pub proof fn lemma_filter_idempotent(roster: Seq<SteamUser>, keep: spec_fn(SteamUser) -> bool)
    ensures
        roster.filter(keep).filter(keep) == roster.filter(keep),
{
    let kept = roster.filter(keep);
    assert forall|i: int| 0 <= i < kept.len() implies keep(#[trigger] kept[i]) by {
        roster.lemma_filter_pred(keep, i);
    }
    lemma_filter_keeps_all(kept, keep);
}

/// Every member that a filter leaves was a member before, and meets the
/// predicate.
pub proof fn lemma_filter_member(
    roster: Seq<SteamUser>,
    keep: spec_fn(SteamUser) -> bool,
    i: int,
)
    requires
        0 <= i < roster.filter(keep).len(),
    ensures
        keep(roster.filter(keep)[i]),
        roster.contains(roster.filter(keep)[i]),
    decreases roster.len(),
{
    reveal(Seq::filter);
    if roster.len() > 0 {
        let rest = roster.drop_last();
        if i < rest.filter(keep).len() {
            lemma_filter_member(rest, keep, i);
            let j = choose|j: int| 0 <= j < rest.len() && rest[j] == rest.filter(keep)[i];
            assert(roster[j] == roster.filter(keep)[i]);
        } else {
            assert(roster[roster.len() - 1] == roster.filter(keep)[i]);
        }
    }
}

/// Replaces `friends` by its marked members, keeping their order.
pub fn keep_marked(friends: &mut Vec<SteamUser>, marks: &Vec<bool>)
    requires
        marks.len() == old(friends).len(),
    ensures
        final(friends)@ == marked(old(friends)@, marks@),
{
    let mut kept: Vec<SteamUser> = Vec::new();
    let mut i: usize = 0;
    while i < friends.len()
        invariant
            i <= friends.len(),
            marks.len() == friends.len(),
            friends@ == old(friends)@,
            kept@ == marked(friends@.take(i as int), marks@.take(i as int)),
        decreases friends.len() - i,
    {
        proof {
            let next_users = friends@.take(i + 1);
            let next_marks = marks@.take(i + 1);
            assert(next_users.drop_last() == friends@.take(i as int));
            assert(next_marks.drop_last() == marks@.take(i as int));
        }
        if marks[i] {
            kept.push(friends[i].clone());
        }
        i += 1;
    }
    proof {
        assert(friends@.take(i as int) == friends@);
        assert(marks@.take(i as int) == marks@);
    }
    *friends = kept;
}

} // verus!
