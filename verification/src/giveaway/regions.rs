//! The list of country codes seen in a roster: each code once, in
//! lexicographic order.

use crate::giveaway::filters::region::listed;
use crate::steam::SteamUser;
use vstd::prelude::*;
use vstd::string::*;

verus! {

/// Whether `a` comes before `b` in lexicographic order, characters compared
/// by their code points.
pub open spec fn lex_less(a: Seq<char>, b: Seq<char>) -> bool
    decreases a.len(),
{
    if b.len() == 0 {
        false
    } else if a.len() == 0 {
        true
    } else if a[0] != b[0] {
        a[0] < b[0]
    } else {
        lex_less(a.drop_first(), b.drop_first())
    }
}

/// Of two different strings, one comes before the other.
pub proof fn lemma_lex_total(a: Seq<char>, b: Seq<char>)
    ensures
        lex_less(a, b) || lex_less(b, a) || a == b,
    decreases a.len(),
{
    if a.len() > 0 && b.len() > 0 && a[0] == b[0] {
        lemma_lex_total(a.drop_first(), b.drop_first());
        if a.drop_first() == b.drop_first() {
            assert(a =~= seq![a[0]] + a.drop_first());
            assert(b =~= seq![b[0]] + b.drop_first());
        }
    } else if a.len() == 0 && b.len() == 0 {
        assert(a =~= b);
    }
}

/// No string comes before itself.
pub proof fn lemma_lex_irreflexive(a: Seq<char>)
    ensures
        !lex_less(a, a),
    decreases a.len(),
{
    if a.len() > 0 {
        lemma_lex_irreflexive(a.drop_first());
    }
}

/// What comes before a string comes before all that the string comes before.
pub proof fn lemma_lex_transitive(a: Seq<char>, b: Seq<char>, c: Seq<char>)
    requires
        lex_less(a, b),
        lex_less(b, c),
    ensures
        lex_less(a, c),
    decreases a.len(),
{
    if a.len() > 0 && b.len() > 0 && c.len() > 0 && a[0] == b[0] && b[0] == c[0] {
        lemma_lex_transitive(a.drop_first(), b.drop_first(), c.drop_first());
    }
}

/// Whether each entry comes before every later one.
pub open spec fn ascending(codes: Seq<String>) -> bool {
    forall|i: int, j: int|
        0 <= i < j < codes.len() ==> lex_less((#[trigger] codes[i])@, (#[trigger] codes[j])@)
}

/// No code occurs twice in an ascending list.
pub proof fn lemma_ascending_distinct(codes: Seq<String>, i: int, j: int)
    requires
        ascending(codes),
        0 <= i < codes.len(),
        0 <= j < codes.len(),
        i != j,
    ensures
        codes[i]@ != codes[j]@,
{
    lemma_lex_irreflexive(codes[i]@);
    if i < j {
        assert(lex_less(codes[i]@, codes[j]@));
    } else {
        assert(lex_less(codes[j]@, codes[i]@));
    }
}

/// Whether some member of `roster` has the country code `code`.
pub open spec fn seen_in(roster: Seq<SteamUser>, code: Seq<char>) -> bool {
    exists|k: int|
        0 <= k < roster.len() && (#[trigger] roster[k]).country_code is Some
            && roster[k].country_code.unwrap()@ == code
}

/// Decides `lex_less`. It reads the strings character by character, which
/// suits the short codes it is meant for.
pub fn comes_before(a: &str, b: &str) -> (before: bool)
    ensures
        before == lex_less(a@, b@),
{
    let a_len = a.unicode_len();
    let b_len = b.unicode_len();
    let mut i: usize = 0;
    proof {
        assert(a@.skip(0) == a@);
        assert(b@.skip(0) == b@);
    }
    while i < a_len && i < b_len
        invariant
            i <= a_len,
            i <= b_len,
            a_len == a@.len(),
            b_len == b@.len(),
            lex_less(a@, b@) == lex_less(a@.skip(i as int), b@.skip(i as int)),
        decreases a_len - i,
    {
        let x = a.get_char(i);
        let y = b.get_char(i);
        proof {
            assert(a@.skip(i as int)[0] == x);
            assert(b@.skip(i as int)[0] == y);
            assert(a@.skip(i as int).drop_first() == a@.skip(i + 1));
            assert(b@.skip(i as int).drop_first() == b@.skip(i + 1));
        }
        if x != y {
            return x < y;
        }
        i += 1;
    }
    i < b_len
}

/// Puts `code` into an ascending list at its place, unless it is there.
pub fn insert_code(regions: &mut Vec<String>, code: &String)
    requires
        ascending(old(regions)@),
    ensures
        ascending(final(regions)@),
        forall|c: Seq<char>|
            listed(final(regions)@, c) <==> listed(old(regions)@, c) || c == code@,
{
    let mut i: usize = 0;
    while i < regions.len() && comes_before(regions[i].as_str(), code.as_str())
        invariant
            i <= regions.len(),
            regions@ == old(regions)@,
            forall|k: int| 0 <= k < i ==> lex_less((#[trigger] regions@[k])@, code@),
        decreases regions.len() - i,
    {
        i += 1;
    }
    let ghost before = regions@;
    if i < regions.len() && regions[i] == *code {
        proof {
            assert forall|c: Seq<char>| listed(before, c) || c == code@ implies listed(
                before,
                c,
            ) by {
                assert(before[i as int]@ == code@);
            }
        }
        return ;
    }
    let entry = code.clone();
    regions.insert(i, entry);
    proof {
        let after = regions@;
        assert(after == before.insert(i as int, entry));
        assert(after.len() == before.len() + 1);
        assert(forall|k: int| 0 <= k < i ==> after[k] == before[k]);
        assert(after[i as int] == entry);
        assert(forall|k: int| i < k < after.len() ==> after[k] == before[k - 1]);
        assert forall|k: int| i <= k < before.len() implies lex_less(
            code@,
            (#[trigger] before[k])@,
        ) by {
            lemma_lex_total(before[i as int]@, code@);
            if k > i {
                lemma_lex_transitive(code@, before[i as int]@, before[k]@);
            }
        }
        assert forall|x: int, y: int| 0 <= x < y < after.len() implies lex_less(
            (#[trigger] after[x])@,
            (#[trigger] after[y])@,
        ) by {
            if x < i && y > i {
                assert(lex_less(before[x]@, code@));
                assert(lex_less(code@, before[y - 1]@));
                lemma_lex_transitive(before[x]@, code@, before[y - 1]@);
            } else if x > i {
                assert(lex_less(before[x - 1]@, before[y - 1]@));
            } else if x == i {
                assert(lex_less(code@, before[y - 1]@));
            }
        }
        assert forall|c: Seq<char>| listed(after, c) <==> listed(before, c) || c == code@ by {
            if listed(after, c) {
                let k = choose|k: int| 0 <= k < after.len() && (#[trigger] after[k])@ == c;
                if k < i {
                    assert(before[k]@ == c);
                } else if k > i {
                    assert(before[k - 1]@ == c);
                }
            }
            if listed(before, c) {
                let k = choose|k: int| 0 <= k < before.len() && (#[trigger] before[k])@ == c;
                if k < i {
                    assert(after[k]@ == c);
                } else {
                    assert(after[k + 1]@ == c);
                }
            }
            if c == code@ {
                assert(after[i as int]@ == c);
            }
        }
    }
}

/// The country codes of the members of `roster`, each once, in ascending
/// order. Members without a country code add nothing.
pub fn regions_of(roster: &Vec<SteamUser>) -> (regions: Vec<String>)
    ensures
        ascending(regions@),
        forall|c: Seq<char>| listed(regions@, c) <==> seen_in(roster@, c),
{
    let mut regions: Vec<String> = Vec::new();
    let mut i: usize = 0;
    while i < roster.len()
        invariant
            i <= roster.len(),
            ascending(regions@),
            forall|c: Seq<char>| listed(regions@, c) <==> seen_in(roster@.take(i as int), c),
        decreases roster.len() - i,
    {
        let ghost before = regions@;
        let ghost head = roster@.take(i as int);
        let ghost next = roster@.take(i + 1);
        match &roster[i].country_code {
            Some(code) => {
                insert_code(&mut regions, code);
            },
            None => {},
        }
        proof {
            assert forall|c: Seq<char>| listed(regions@, c) <==> seen_in(next, c) by {
                assert(listed(before, c) <==> seen_in(head, c));
                if seen_in(head, c) {
                    let k = choose|k: int|
                        0 <= k < head.len() && (#[trigger] head[k]).country_code is Some
                            && head[k].country_code.unwrap()@ == c;
                    assert(next[k] == head[k]);
                }
                if seen_in(next, c) {
                    let k = choose|k: int|
                        0 <= k < next.len() && (#[trigger] next[k]).country_code is Some
                            && next[k].country_code.unwrap()@ == c;
                    if k < i {
                        assert(head[k] == next[k]);
                    }
                }
                if roster@[i as int].country_code is Some
                    && roster@[i as int].country_code.unwrap()@ == c {
                    assert(next[i as int] == roster@[i as int]);
                }
            }
        }
        i += 1;
    }
    proof {
        assert(roster@.take(i as int) == roster@);
    }
    regions
}

} // verus!
