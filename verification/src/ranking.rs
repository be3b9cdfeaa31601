//! Putting a fetched leaderboard in order: most points first, researchers
//! with the same points in the order in which they were fetched.

use vstd::prelude::*;
use crate::models::Hero;

verus! {

/// Where an entry with `points` goes into `sorted`: behind every entry with
/// at least as many points.
pub open spec fn insertion_point(sorted: Seq<Hero>, points: u64) -> int
    decreases sorted.len(),
{
    if sorted.len() == 0 || sorted[0].points < points {
        0
    } else {
        1 + insertion_point(sorted.drop_first(), points)
    }
}

/// The entries of `heros`, most points first; entries with the same points
/// stay in the order of `heros`.
pub open spec fn by_points(heros: Seq<Hero>) -> Seq<Hero>
    decreases heros.len(),
{
    if heros.len() == 0 {
        seq![]
    } else {
        let sorted = by_points(heros.drop_last());
        sorted.insert(insertion_point(sorted, heros.last().points), heros.last())
    }
}

/// The entry `hero` at position `rank` of the leaderboard.
pub open spec fn with_rank(hero: Hero, rank: usize) -> Hero {
    Hero {
        accent_color: hero.accent_color,
        avatar: hero.avatar,
        points: hero.points,
        profile_url: hero.profile_url,
        username: hero.username,
        rank,
    }
}

/// The leaderboard made of `heros`: ordered by points, each entry ranked by
/// its 1-based position.
pub open spec fn ranked(heros: Seq<Hero>) -> Seq<Hero> {
    let sorted = by_points(heros);
    Seq::new(sorted.len(), |i: int| with_rank(sorted[i], (i + 1) as usize))
}

/// Whether no entry of `heros` has more points than one before it.
pub open spec fn descending(heros: Seq<Hero>) -> bool {
    forall|i: int, j: int| 0 <= i < j < heros.len() ==> heros[i].points >= heros[j].points
}

/// Whether `board` is a leaderboard: every entry carries its 1-based
/// position as its rank, and no entry has more points than one before it.
pub open spec fn well_ranked(board: Seq<Hero>) -> bool {
    &&& descending(board)
    &&& forall|i: int| 0 <= i < board.len() ==> (#[trigger] board[i]).rank == i + 1
}

/// The insertion point lies within the list, behind entries with at least
/// as many points and, in a descending list, before all entries with fewer.
pub proof fn lemma_insertion_point(sorted: Seq<Hero>, points: u64)
    ensures
        0 <= insertion_point(sorted, points) <= sorted.len(),
        forall|i: int| 0 <= i < insertion_point(sorted, points) ==> sorted[i].points >= points,
        descending(sorted) ==> forall|i: int|
            insertion_point(sorted, points) <= i < sorted.len() ==> sorted[i].points < points,
    decreases sorted.len(),
{
    if sorted.len() > 0 && sorted[0].points >= points {
        let rest = sorted.drop_first();
        lemma_insertion_point(rest, points);
        let at = insertion_point(rest, points);
        assert forall|i: int| 0 <= i < 1 + at implies sorted[i].points >= points by {
            if i > 0 {
                assert(rest[i - 1] == sorted[i]);
            }
        }
        if descending(sorted) {
            assert(descending(rest)) by {
                assert forall|i: int, j: int| 0 <= i < j < rest.len() implies rest[i].points
                    >= rest[j].points by {
                    assert(rest[i] == sorted[i + 1] && rest[j] == sorted[j + 1]);
                }
            }
            assert forall|i: int| 1 + at <= i < sorted.len() implies sorted[i].points < points by {
                assert(rest[i - 1] == sorted[i]);
            }
        }
    }
}

/// Ordering keeps the number of entries, and the result is descending.
pub proof fn lemma_by_points_descending(heros: Seq<Hero>)
    ensures
        by_points(heros).len() == heros.len(),
        descending(by_points(heros)),
    decreases heros.len(),
{
    if heros.len() > 0 {
        let sorted = by_points(heros.drop_last());
        let last = heros.last();
        lemma_by_points_descending(heros.drop_last());
        lemma_insertion_point(sorted, last.points);
        let at = insertion_point(sorted, last.points);
        let out = sorted.insert(at, last);
        assert forall|i: int, j: int| 0 <= i < j < out.len() implies out[i].points
            >= out[j].points by {
            if i < at && j > at {
                assert(out[i] == sorted[i] && out[j] == sorted[j - 1]);
            } else if i < at && j < at {
                assert(out[i] == sorted[i] && out[j] == sorted[j]);
            } else if i > at {
                assert(out[i] == sorted[i - 1] && out[j] == sorted[j - 1]);
            }
        }
    }
}

/// Ordering neither drops nor invents an entry.
pub proof fn lemma_by_points_permutes(heros: Seq<Hero>)
    ensures
        by_points(heros).to_multiset() == heros.to_multiset(),
    decreases heros.len(),
{
    broadcast use vstd::seq_lib::group_to_multiset_ensures;

    if heros.len() == 0 {
        assert(by_points(heros) =~= heros);
    } else {
        let front = heros.drop_last();
        let sorted = by_points(front);
        let last = heros.last();
        lemma_by_points_permutes(front);
        lemma_insertion_point(sorted, last.points);
        let at = insertion_point(sorted, last.points);
        assert(heros =~= front.push(last));
        assert(sorted.insert(at, last).to_multiset() =~= sorted.to_multiset().insert(last));
    }
}

/// Ordering is stable: the entries with any given number of points keep the
/// order in which they were fetched.
pub proof fn lemma_by_points_stable(heros: Seq<Hero>, points: u64)
    ensures
        by_points(heros).filter(|h: Hero| h.points == points) == heros.filter(
            |h: Hero| h.points == points,
        ),
    decreases heros.len(),
{
    let same = |h: Hero| h.points == points;
    if heros.len() == 0 {
        assert(by_points(heros) =~= heros);
    } else {
        let front = heros.drop_last();
        let sorted = by_points(front);
        let last = heros.last();
        lemma_by_points_stable(front, points);
        lemma_by_points_descending(front);
        lemma_insertion_point(sorted, last.points);
        let at = insertion_point(sorted, last.points);
        let before = sorted.take(at);
        let behind = sorted.skip(at);
        assert(sorted =~= before + behind);
        assert(sorted.insert(at, last) =~= before.push(last) + behind);
        assert(heros =~= front.push(last));
        Seq::filter_distributes_over_add(before, behind, same);
        Seq::filter_distributes_over_add(before.push(last), behind, same);
        before.lemma_filter_push(last, same);
        front.lemma_filter_push(last, same);
        if same(last) {
            assert(behind.all(|x: Hero| !same(x))) by {
                assert forall|i: int| 0 <= i < behind.len() implies !same(behind[i]) by {
                    assert(behind[i] == sorted[at + i]);
                }
            }
            behind.lemma_all_neg_filter_empty(same);
            assert(behind.filter(same) =~= Seq::<Hero>::empty());
            assert(before.filter(same) + behind.filter(same) =~= before.filter(same));
            assert(before.filter(same).push(last) + behind.filter(same) =~= before.filter(
                same,
            ).push(last));
        }
    }
}

/// On the leaderboard every entry carries its 1-based position, no entry has
/// more points than one before it, and but for the ranks the entries are
/// those that were fetched.
pub proof fn lemma_ranked(heros: Seq<Hero>)
    requires
        heros.len() <= usize::MAX,
    ensures
        ranked(heros).len() == heros.len(),
        well_ranked(ranked(heros)),
        forall|i: int|
            0 <= i < heros.len() ==> #[trigger] ranked(heros)[i] == with_rank(
                by_points(heros)[i],
                (i + 1) as usize,
            ),
        by_points(heros).to_multiset() == heros.to_multiset(),
{
    lemma_by_points_descending(heros);
    lemma_by_points_permutes(heros);
}

/// Where `hero` goes into the descending list `sorted`.
fn find_insertion_point(sorted: &Vec<Hero>, points: u64) -> (at: usize)
    ensures
        at == insertion_point(sorted@, points),
        at <= sorted.len(),
{
    let mut at: usize = 0;
    assert(sorted@.skip(0) =~= sorted@);
    while at < sorted.len() && sorted[at].points >= points
        invariant
            at <= sorted.len(),
            insertion_point(sorted@, points) == at + insertion_point(
                sorted@.skip(at as int),
                points,
            ),
        decreases sorted.len() - at,
    {
        proof {
            let rest = sorted@.skip(at as int);
            assert(rest[0] == sorted@[at as int]);
            assert(rest.drop_first() =~= sorted@.skip(at + 1));
        }
        at += 1;
    }
    proof {
        let rest = sorted@.skip(at as int);
        if at < sorted.len() {
            assert(rest[0] == sorted@[at as int]);
        }
    }
    at
}

/// Orders the fetched entries by points, most first, and ranks each by its
/// position. Entries with the same points keep the order in which they were
/// fetched.
pub fn rank_heroes(heros: Vec<Hero>) -> (r: Vec<Hero>)
    ensures
        r@ == ranked(heros@),
        r@.len() == heros@.len(),
        well_ranked(r@),
{
    let mut sorted: Vec<Hero> = Vec::new();
    let mut i: usize = 0;
    assert(heros@.take(0) =~= Seq::<Hero>::empty());
    while i < heros.len()
        invariant
            i <= heros.len(),
            sorted@ == by_points(heros@.take(i as int)),
        decreases heros.len() - i,
    {
        proof {
            let upto = heros@.take(i + 1);
            assert(upto.drop_last() =~= heros@.take(i as int));
            assert(upto.last() == heros@[i as int]);
        }
        let hero = heros[i].clone();
        let at = find_insertion_point(&sorted, hero.points);
        sorted.insert(at, hero);
        i += 1;
    }
    assert(heros@.take(i as int) =~= heros@);
    proof {
        lemma_by_points_descending(heros@);
    }
    let mut r: Vec<Hero> = Vec::new();
    let mut k: usize = 0;
    while k < sorted.len()
        invariant
            k <= sorted.len(),
            sorted@.len() == heros@.len(),
            sorted@ == by_points(heros@),
            r@ == ranked(heros@).take(k as int),
        decreases sorted.len() - k,
    {
        let entry = &sorted[k];
        r.push(
            Hero {
                accent_color: crate::models::clone_optional(&entry.accent_color),
                avatar: entry.avatar.clone(),
                points: entry.points,
                profile_url: crate::models::clone_optional(&entry.profile_url),
                username: entry.username.clone(),
                rank: k + 1,
            },
        );
        assert(r@ =~= ranked(heros@).take(k + 1));
        k += 1;
    }
    assert(ranked(heros@).take(k as int) =~= ranked(heros@));
    proof {
        lemma_ranked(heros@);
    }
    r
}

} // verus!
