//! Ordering episodes by season, then by episode number.

use vstd::prelude::*;
use vstd::multiset::Multiset;
use vstd::seq_lib::*;
use crate::episode::Episode;

verus! {

/// `a` comes no later than `b`: by season, then by episode number. The file
/// name plays no part in the order.
pub open spec fn key_le(a: Episode, b: Episode) -> bool {
    a.season < b.season || (a.season == b.season && a.episode <= b.episode)
}

/// Episodes in ascending (season, episode) order.
pub open spec fn sorted_by_key(s: Seq<Episode>) -> bool {
    forall|i: int, j: int| 0 <= i < j < s.len() ==> key_le(#[trigger] s[i], #[trigger] s[j])
}

/// Any two episodes are comparable: one of them comes no later than the
/// other.
pub proof fn lemma_key_le_total(a: Episode, b: Episode)
    ensures
        key_le(a, b) || key_le(b, a),
{
}

/// The order is transitive.
pub proof fn lemma_key_le_transitive(a: Episode, b: Episode, c: Episode)
    requires
        key_le(a, b),
        key_le(b, c),
    ensures
        key_le(a, c),
{
}

/// Two episodes that each come no later than the other share season and
/// episode number.
pub proof fn lemma_key_le_antisymmetric(a: Episode, b: Episode)
    requires
        key_le(a, b),
        key_le(b, a),
    ensures
        a.season == b.season && a.episode == b.episode,
{
}

/// No two episodes share both season and episode number.
pub open spec fn distinct_keys(s: Seq<Episode>) -> bool {
    forall|i: int, j: int|
        0 <= i < j < s.len() ==> !(#[trigger] s[i].season == #[trigger] s[j].season && s[i].episode
            == s[j].episode)
}

/// Where no two episodes share a key, there is one sorted arrangement of
/// them: two sorted sequences of the same episodes are equal.
pub proof fn lemma_sorted_unique(a: Seq<Episode>, b: Seq<Episode>)
    requires
        a.to_multiset() == b.to_multiset(),
        sorted_by_key(a),
        sorted_by_key(b),
        distinct_keys(a),
    ensures
        a == b,
    decreases a.len(),
{
    broadcast use group_to_multiset_ensures;

    a.to_multiset_ensures();
    b.to_multiset_ensures();
    if a.len() == 0 {
        assert(b.to_multiset().len() == 0);
        assert(b =~= a);
    } else {
        assert(b.len() == a.len());
        assert(a.to_multiset().count(a[0]) > 0);
        assert(b.contains(a[0]));
        let j = choose|j: int| 0 <= j < b.len() && b[j] == a[0];
        assert(b.to_multiset().count(b[0]) > 0);
        assert(a.contains(b[0]));
        let i = choose|i: int| 0 <= i < a.len() && a[i] == b[0];
        if i != 0 {
            assert(key_le(a[0], a[i]));
            if j != 0 {
                assert(key_le(b[0], b[j]));
            }
            assert(false);
        }
        assert(a[0] == b[0]);
        let a1 = a.remove(0);
        let b1 = b.remove(0);
        to_multiset_remove(a, 0);
        to_multiset_remove(b, 0);
        assert forall|x: int, y: int| 0 <= x < y < a1.len() implies key_le(
            #[trigger] a1[x],
            #[trigger] a1[y],
        ) by {
            assert(a1[x] == a[x + 1] && a1[y] == a[y + 1]);
        }
        assert forall|x: int, y: int| 0 <= x < y < b1.len() implies key_le(
            #[trigger] b1[x],
            #[trigger] b1[y],
        ) by {
            assert(b1[x] == b[x + 1] && b1[y] == b[y + 1]);
        }
        assert forall|x: int, y: int| 0 <= x < y < a1.len() implies !(#[trigger] a1[x].season
            == #[trigger] a1[y].season && a1[x].episode == a1[y].episode) by {
            assert(a1[x] == a[x + 1] && a1[y] == a[y + 1]);
        }
        lemma_sorted_unique(a1, b1);
        assert(a =~= b) by {
            assert forall|k: int| 0 <= k < a.len() implies a[k] == b[k] by {
                if k > 0 {
                    assert(a[k] == a1[k - 1]);
                    assert(b[k] == b1[k - 1]);
                }
            }
        }
    }
}

fn comes_no_later(a: &Episode, b: &Episode) -> (r: bool)
    ensures
        r == key_le(*a, *b),
{
    a.season < b.season || (a.season == b.season && a.episode <= b.episode)
}

/// Puts the episodes in ascending (season, episode) order, keeping each one.
pub fn sort_episodes(episodes: &mut Vec<Episode>)
    ensures
        final(episodes)@.to_multiset() == old(episodes)@.to_multiset(),
        sorted_by_key(final(episodes)@),
{
    broadcast use to_multiset_build, to_multiset_insert;

    let mut sorted: Vec<Episode> = Vec::new();
    assert(sorted@.to_multiset() =~= Multiset::empty()) by {
        broadcast use group_to_multiset_ensures;
    }
    while episodes.len() > 0
        invariant
            sorted_by_key(sorted@),
            sorted@.to_multiset().add(episodes@.to_multiset()) == old(episodes)@.to_multiset(),
        decreases episodes@.len(),
    {
        let ghost before = episodes@;
        let e = episodes.pop().unwrap();
        assert(before =~= episodes@.push(e));
        let mut i: usize = 0;
        while i < sorted.len() && comes_no_later(&sorted[i], &e)
            invariant
                i <= sorted@.len(),
                forall|k: int| 0 <= k < i ==> key_le(#[trigger] sorted@[k], e),
            decreases sorted@.len() - i,
        {
            i = i + 1;
        }
        let ghost prev = sorted@;
        sorted.insert(i, e);
        assert(sorted_by_key(sorted@)) by {
            assert forall|a: int, b: int| 0 <= a < b < sorted@.len() implies key_le(
                #[trigger] sorted@[a],
                #[trigger] sorted@[b],
            ) by {
                if a < i && b == i {
                } else if a == i && b > i {
                    assert(key_le(e, prev[b - 1])) by {
                        assert(!key_le(prev[i as int], e));
                        assert(i == b - 1 || key_le(prev[i as int], prev[b - 1]));
                    }
                } else if a < i && b > i {
                    assert(sorted@[b] == prev[b - 1]);
                } else if a > i {
                    assert(sorted@[a] == prev[a - 1]);
                    assert(sorted@[b] == prev[b - 1]);
                }
            }
        }
        assert(sorted@.to_multiset() == prev.to_multiset().insert(e)) by {
            assert(sorted@ == prev.insert(i as int, e));
            to_multiset_insert(prev, i as int, e);
        }
        assert(before.to_multiset() == episodes@.to_multiset().insert(e)) by {
            to_multiset_build(episodes@, e);
        }
        assert(sorted@.to_multiset().add(episodes@.to_multiset()) =~= prev.to_multiset().add(
            before.to_multiset(),
        ));
    }
    assert(episodes@.to_multiset() =~= Multiset::empty()) by {
        broadcast use group_to_multiset_ensures;
    }
    assert(sorted@.to_multiset().add(episodes@.to_multiset()) =~= sorted@.to_multiset());
    *episodes = sorted;
}

} // verus!
