//! What reconciliation yields on leaderboards that differ in one known way.

use vstd::prelude::*;
use crate::models::Hero;
use crate::poll::hall_of_fame::{
    arrival_events, position, reconcile_events, removal_events, residual, update_event, Event,
    Exclusion,
};

verus! {

/// The updates between two leaderboards that hold the same researchers at
/// the same positions.
pub open spec fn aligned_updates(fresh: Seq<Hero>, snapshot: Seq<Hero>, exclusion: Exclusion) -> Seq<
    Event,
>
    recommends
        fresh.len() == snapshot.len(),
    decreases fresh.len(),
{
    if fresh.len() == 0 || snapshot.len() == 0 {
        seq![]
    } else {
        update_event(snapshot[0], fresh[0], exclusion) + aligned_updates(
            fresh.drop_first(),
            snapshot.drop_first(),
            exclusion,
        )
    }
}

/// Whether two leaderboards hold the same researchers at the same
/// positions.
pub open spec fn aligned(fresh: Seq<Hero>, snapshot: Seq<Hero>) -> bool {
    &&& fresh.len() == snapshot.len()
    &&& forall|i: int| 0 <= i < fresh.len() ==> fresh[i].username@ == snapshot[i].username@
}

/// Between leaderboards that hold the same researchers at the same
/// positions, every entry is matched with the one at its own position:
/// nothing is added or removed, and the updates are those of the positions
/// whose points differ.
pub proof fn lemma_aligned(fresh: Seq<Hero>, snapshot: Seq<Hero>, exclusion: Exclusion)
    requires
        aligned(fresh, snapshot),
    ensures
        arrival_events(fresh, snapshot, exclusion) == aligned_updates(fresh, snapshot, exclusion),
        residual(fresh, snapshot) == Seq::<Hero>::empty(),
        reconcile_events(fresh, snapshot, exclusion) == aligned_updates(
            fresh,
            snapshot,
            exclusion,
        ),
    decreases fresh.len(),
{
    if fresh.len() > 0 {
        assert(position(snapshot, fresh[0].username@) == Some(0int));
        assert(snapshot.remove(0) =~= snapshot.drop_first());
        assert(aligned(fresh.drop_first(), snapshot.drop_first()));
        lemma_aligned(fresh.drop_first(), snapshot.drop_first(), exclusion);
    }
    assert(removal_events(Seq::<Hero>::empty()) =~= Seq::<Event>::empty());
    assert(reconcile_events(fresh, snapshot, exclusion) =~= aligned_updates(
        fresh,
        snapshot,
        exclusion,
    ));
}

/// Aligned leaderboards whose points agree everywhere but at position `at`
/// have the update of that position as their only possible update.
pub proof fn lemma_aligned_single(
    fresh: Seq<Hero>,
    snapshot: Seq<Hero>,
    exclusion: Exclusion,
    at: int,
)
    requires
        aligned(fresh, snapshot),
        0 <= at < fresh.len(),
        forall|i: int| 0 <= i < fresh.len() && i != at ==> fresh[i].points == snapshot[i].points,
    ensures
        aligned_updates(fresh, snapshot, exclusion) == update_event(
            snapshot[at],
            fresh[at],
            exclusion,
        ),
    decreases fresh.len(),
{
    let f = fresh.drop_first();
    let s = snapshot.drop_first();
    assert(aligned(f, s));
    if at == 0 {
        lemma_aligned_unchanged(f, s, exclusion);
        assert(update_event(snapshot[0], fresh[0], exclusion) + Seq::<Event>::empty()
            =~= update_event(snapshot[0], fresh[0], exclusion));
    } else {
        lemma_aligned_single(f, s, exclusion, at - 1);
        assert(Seq::<Event>::empty() + update_event(snapshot[at], fresh[at], exclusion)
            =~= update_event(snapshot[at], fresh[at], exclusion));
    }
}

/// Aligned leaderboards whose points agree everywhere have no updates.
pub proof fn lemma_aligned_unchanged(fresh: Seq<Hero>, snapshot: Seq<Hero>, exclusion: Exclusion)
    requires
        aligned(fresh, snapshot),
        forall|i: int| 0 <= i < fresh.len() ==> fresh[i].points == snapshot[i].points,
    ensures
        aligned_updates(fresh, snapshot, exclusion) == Seq::<Event>::empty(),
    decreases fresh.len(),
{
    if fresh.len() > 0 {
        assert(aligned(fresh.drop_first(), snapshot.drop_first()));
        lemma_aligned_unchanged(fresh.drop_first(), snapshot.drop_first(), exclusion);
    }
}

/// A leaderboard reconciled with itself yields no event.
pub proof fn lemma_reconcile_same(collection: Seq<Hero>, exclusion: Exclusion)
    ensures
        reconcile_events(collection, collection, exclusion) == Seq::<Event>::empty(),
{
    lemma_aligned(collection, collection, exclusion);
    lemma_aligned_unchanged(collection, collection, exclusion);
}

/// When one entry of the leaderboard is replaced by an entry of the same
/// researcher with other points, and that researcher is not excluded, the
/// one event is the update from the old entry to the new one.
pub proof fn lemma_points_changed(snapshot: Seq<Hero>, at: int, entry: Hero, exclusion: Exclusion)
    requires
        0 <= at < snapshot.len(),
        entry.username@ == snapshot[at].username@,
        entry.points != snapshot[at].points,
        !exclusion.covers(&entry),
    ensures
        reconcile_events(snapshot.update(at, entry), snapshot, exclusion) == seq![
            Event::HeroUpdated(snapshot[at], entry),
        ],
{
    let fresh = snapshot.update(at, entry);
    lemma_aligned(fresh, snapshot, exclusion);
    lemma_aligned_single(fresh, snapshot, exclusion, at);
}

/// When one entry of the leaderboard is replaced by an entry of the same
/// researcher with the same points, whatever else differs (its rank, say),
/// there is no event.
pub proof fn lemma_points_kept(snapshot: Seq<Hero>, at: int, entry: Hero, exclusion: Exclusion)
    requires
        0 <= at < snapshot.len(),
        entry.username@ == snapshot[at].username@,
        entry.points == snapshot[at].points,
    ensures
        reconcile_events(snapshot.update(at, entry), snapshot, exclusion) == Seq::<Event>::empty(),
{
    let fresh = snapshot.update(at, entry);
    lemma_aligned(fresh, snapshot, exclusion);
    lemma_aligned_unchanged(fresh, snapshot, exclusion);
}

/// Point changes of an excluded researcher yield no event.
pub proof fn lemma_points_changed_excluded(
    snapshot: Seq<Hero>,
    at: int,
    entry: Hero,
    exclusion: Exclusion,
)
    requires
        0 <= at < snapshot.len(),
        entry.username@ == snapshot[at].username@,
        exclusion.covers(&entry),
    ensures
        reconcile_events(snapshot.update(at, entry), snapshot, exclusion) == Seq::<Event>::empty(),
{
    let fresh = snapshot.update(at, entry);
    lemma_aligned(fresh, snapshot, exclusion);
    lemma_aligned_single(fresh, snapshot, exclusion, at);
}

/// Whether `list` holds an entry of `username`.
pub open spec fn has_researcher(list: Seq<Hero>, username: Seq<char>) -> bool {
    exists|i: int| 0 <= i < list.len() && list[i].username@ == username
}

/// A researcher has a position in a list exactly when the list holds an
/// entry of theirs.
pub proof fn lemma_position_found(list: Seq<Hero>, username: Seq<char>)
    ensures
        position(list, username).is_some() == has_researcher(list, username),
    decreases list.len(),
{
    crate::poll::hall_of_fame::lemma_position(list, username);
    match position(list, username) {
        Some(i) => {
            assert(list[i].username@ == username);
        },
        None => {},
    }
}

/// When one entry of a researcher who was not on the leaderboard is put in
/// at any position, the one event is the addition of that entry.
pub proof fn lemma_one_added(snapshot: Seq<Hero>, at: int, entry: Hero, exclusion: Exclusion)
    requires
        0 <= at <= snapshot.len(),
        !has_researcher(snapshot, entry.username@),
    ensures
        reconcile_events(snapshot.insert(at, entry), snapshot, exclusion) == seq![
            Event::HeroAdded(entry),
        ],
{
    lemma_one_added_parts(snapshot, at, entry, exclusion);
    assert(removal_events(Seq::<Hero>::empty()) =~= Seq::<Event>::empty());
    assert(seq![Event::HeroAdded(entry)] + Seq::<Event>::empty() =~= seq![Event::HeroAdded(entry)]);
}

proof fn lemma_one_added_parts(snapshot: Seq<Hero>, at: int, entry: Hero, exclusion: Exclusion)
    requires
        0 <= at <= snapshot.len(),
        !has_researcher(snapshot, entry.username@),
    ensures
        arrival_events(snapshot.insert(at, entry), snapshot, exclusion) == seq![
            Event::HeroAdded(entry),
        ],
        residual(snapshot.insert(at, entry), snapshot) == Seq::<Hero>::empty(),
    decreases at,
{
    let fresh = snapshot.insert(at, entry);
    if at == 0 {
        assert(fresh[0] == entry);
        assert(fresh.drop_first() =~= snapshot);
        lemma_position_found(snapshot, entry.username@);
        lemma_aligned(snapshot, snapshot, exclusion);
        lemma_aligned_unchanged(snapshot, snapshot, exclusion);
        assert(seq![Event::HeroAdded(entry)] + Seq::<Event>::empty() =~= seq![
            Event::HeroAdded(entry),
        ]);
    } else {
        let rest = snapshot.drop_first();
        assert(fresh[0] == snapshot[0]);
        assert(position(snapshot, fresh[0].username@) == Some(0int));
        assert(snapshot.remove(0) =~= rest);
        assert(fresh.drop_first() =~= rest.insert(at - 1, entry));
        assert(!has_researcher(rest, entry.username@)) by {
            if has_researcher(rest, entry.username@) {
                let i = choose|i: int| 0 <= i < rest.len() && rest[i].username@ == entry.username@;
                assert(snapshot[i + 1].username@ == entry.username@);
            }
        }
        lemma_one_added_parts(rest, at - 1, entry, exclusion);
        assert(update_event(snapshot[0], fresh[0], exclusion) =~= Seq::<Event>::empty());
        assert(Seq::<Event>::empty() + seq![Event::HeroAdded(entry)] =~= seq![
            Event::HeroAdded(entry),
        ]);
    }
}

/// The updates that arise while the entries of `later` are matched and
/// `holder` stands unmatched in front of them: each entry of the same
/// researcher is matched with the one before it, and stands unmatched in
/// its place.
pub open spec fn handover_events(holder: Hero, later: Seq<Hero>, exclusion: Exclusion) -> Seq<Event>
    decreases later.len(),
{
    if later.len() == 0 {
        seq![]
    } else if later[0].username@ == holder.username@ {
        update_event(holder, later[0], exclusion) + handover_events(
            later[0],
            later.drop_first(),
            exclusion,
        )
    } else {
        handover_events(holder, later.drop_first(), exclusion)
    }
}

/// The entry that stays unmatched in the end: the last one of `later` that
/// belongs to the researcher of `holder`, or `holder` itself.
pub open spec fn last_holder(holder: Hero, later: Seq<Hero>) -> Hero
    decreases later.len(),
{
    if later.len() == 0 {
        holder
    } else if later[0].username@ == holder.username@ {
        last_holder(later[0], later.drop_first())
    } else {
        last_holder(holder, later.drop_first())
    }
}

/// With one unmatched entry in front of the entries that are matched, every
/// entry of another researcher matches itself, every entry of the same
/// researcher matches the one before it, and the last of them stays.
proof fn lemma_handover(holder: Hero, later: Seq<Hero>, exclusion: Exclusion)
    ensures
        arrival_events(later, seq![holder] + later, exclusion) == handover_events(
            holder,
            later,
            exclusion,
        ),
        residual(later, seq![holder] + later) == seq![last_holder(holder, later)],
    decreases later.len(),
{
    let all = seq![holder] + later;
    if later.len() == 0 {
        assert(all =~= seq![holder]);
    } else {
        let tail = later.drop_first();
        assert(all.drop_first() =~= later);
        assert(all[0] == holder);
        if later[0].username@ == holder.username@ {
            assert(position(all, later[0].username@) == Some(0int));
            assert(all.remove(0) =~= seq![later[0]] + tail);
            lemma_handover(later[0], tail, exclusion);
        } else {
            assert(position(later, later[0].username@) == Some(0int));
            assert(position(all, later[0].username@) == Some(1int));
            assert(all.remove(1) =~= seq![holder] + tail);
            assert(all[1] == later[0]);
            assert(update_event(all[1], later[0], exclusion) =~= Seq::<Event>::empty());
            lemma_handover(holder, tail, exclusion);
            assert(Seq::<Event>::empty() + handover_events(holder, tail, exclusion)
                =~= handover_events(holder, tail, exclusion));
        }
    }
}

proof fn lemma_removed_parts(snapshot: Seq<Hero>, at: int, exclusion: Exclusion)
    requires
        0 <= at < snapshot.len(),
    ensures
        arrival_events(snapshot.remove(at), snapshot, exclusion) == handover_events(
            snapshot[at],
            snapshot.skip(at + 1),
            exclusion,
        ),
        residual(snapshot.remove(at), snapshot) == seq![
            last_holder(snapshot[at], snapshot.skip(at + 1)),
        ],
    decreases at,
{
    let fresh = snapshot.remove(at);
    let rest = snapshot.drop_first();
    if at == 0 {
        assert(fresh =~= rest);
        assert(snapshot.skip(1) =~= rest);
        assert(snapshot =~= seq![snapshot[0]] + rest);
        lemma_handover(snapshot[0], rest, exclusion);
    } else {
        assert(fresh[0] == snapshot[0]);
        assert(position(snapshot, fresh[0].username@) == Some(0int));
        assert(snapshot.remove(0) =~= rest);
        assert(fresh.drop_first() =~= rest.remove(at - 1));
        assert(rest[at - 1] == snapshot[at]);
        assert(rest.skip(at) =~= snapshot.skip(at + 1));
        lemma_removed_parts(rest, at - 1, exclusion);
        assert(update_event(snapshot[0], fresh[0], exclusion) =~= Seq::<Event>::empty());
        assert(Seq::<Event>::empty() + handover_events(
            snapshot[at],
            snapshot.skip(at + 1),
            exclusion,
        ) =~= handover_events(snapshot[at], snapshot.skip(at + 1), exclusion));
    }
}

/// When the entry at `at` is taken off the leaderboard, the entries before
/// it and those of other researchers match themselves. The later entries of
/// the same researcher, if there are any, each match the one before: that
/// gives an update wherever their points differ, and leaves the last of them
/// to be removed.
pub proof fn lemma_removed_in_general(snapshot: Seq<Hero>, at: int, exclusion: Exclusion)
    requires
        0 <= at < snapshot.len(),
    ensures
        reconcile_events(snapshot.remove(at), snapshot, exclusion) == handover_events(
            snapshot[at],
            snapshot.skip(at + 1),
            exclusion,
        ) + seq![Event::HeroRemoved(last_holder(snapshot[at], snapshot.skip(at + 1)))],
{
    lemma_removed_parts(snapshot, at, exclusion);
    let last = last_holder(snapshot[at], snapshot.skip(at + 1));
    assert(removal_events(seq![last]) =~= seq![Event::HeroRemoved(last)]);
}

/// When the entry at `at` is taken off the leaderboard, the one event is the
/// removal of that entry, and this on every leaderboard on which the later
/// entries of the same researcher hand nothing over: there is no update among
/// them, and the one that stays is the entry itself.
pub proof fn lemma_one_removed(snapshot: Seq<Hero>, at: int, exclusion: Exclusion)
    requires
        0 <= at < snapshot.len(),
    ensures
        (reconcile_events(snapshot.remove(at), snapshot, exclusion) == seq![
            Event::HeroRemoved(snapshot[at]),
        ]) <==> (handover_events(snapshot[at], snapshot.skip(at + 1), exclusion)
            == Seq::<Event>::empty() && last_holder(snapshot[at], snapshot.skip(at + 1))
            == snapshot[at]),
{
    lemma_removed_in_general(snapshot, at, exclusion);
    let handed = handover_events(snapshot[at], snapshot.skip(at + 1), exclusion);
    let last = last_holder(snapshot[at], snapshot.skip(at + 1));
    let events = handed + seq![Event::HeroRemoved(last)];
    if events == seq![Event::HeroRemoved(snapshot[at])] {
        assert(events.len() == 1);
        assert(handed =~= Seq::<Event>::empty());
        assert(events[0] == Event::HeroRemoved(snapshot[at]));
    }
    if handed == Seq::<Event>::empty() && last == snapshot[at] {
        assert(events =~= seq![Event::HeroRemoved(snapshot[at])]);
    }
}

/// Where no later entry belongs to the researcher of `holder`, nothing is
/// handed over.
pub proof fn lemma_nothing_handed_over(holder: Hero, later: Seq<Hero>, exclusion: Exclusion)
    requires
        !has_researcher(later, holder.username@),
    ensures
        handover_events(holder, later, exclusion) == Seq::<Event>::empty(),
        last_holder(holder, later) == holder,
    decreases later.len(),
{
    if later.len() > 0 {
        let tail = later.drop_first();
        assert(later[0].username@ != holder.username@);
        assert(!has_researcher(tail, holder.username@)) by {
            if has_researcher(tail, holder.username@) {
                let i = choose|i: int| 0 <= i < tail.len() && tail[i].username@ == holder.username@;
                assert(later[i + 1].username@ == holder.username@);
            }
        }
        lemma_nothing_handed_over(holder, tail, exclusion);
    }
}

/// When an entry is taken off a leaderboard that holds no later entry of the
/// same researcher, as on every leaderboard on which each researcher stands
/// once, the one event is the removal of that entry.
pub proof fn lemma_one_removed_of_researcher(snapshot: Seq<Hero>, at: int, exclusion: Exclusion)
    requires
        0 <= at < snapshot.len(),
        !has_researcher(snapshot.skip(at + 1), snapshot[at].username@),
    ensures
        reconcile_events(snapshot.remove(at), snapshot, exclusion) == seq![
            Event::HeroRemoved(snapshot[at]),
        ],
{
    lemma_nothing_handed_over(snapshot[at], snapshot.skip(at + 1), exclusion);
    lemma_one_removed(snapshot, at, exclusion);
}

/// Additions and updates come before removals: the events of the fresh
/// entries hold no removal, and what follows them holds nothing else.
pub proof fn lemma_removals_last(fresh: Seq<Hero>, snapshot: Seq<Hero>, exclusion: Exclusion)
    ensures
        forall|i: int|
            0 <= i < arrival_events(fresh, snapshot, exclusion).len() ==> !(
            #[trigger] reconcile_events(fresh, snapshot, exclusion)[i] is HeroRemoved),
        forall|i: int|
            arrival_events(fresh, snapshot, exclusion).len() <= i < reconcile_events(
                fresh,
                snapshot,
                exclusion,
            ).len() ==> #[trigger] reconcile_events(fresh, snapshot, exclusion)[i] is HeroRemoved,
{
    lemma_arrivals_hold_no_removal(fresh, snapshot, exclusion);
}

proof fn lemma_arrivals_hold_no_removal(fresh: Seq<Hero>, unmatched: Seq<Hero>, exclusion: Exclusion)
    ensures
        forall|i: int|
            0 <= i < arrival_events(fresh, unmatched, exclusion).len() ==> !(
            #[trigger] arrival_events(fresh, unmatched, exclusion)[i] is HeroRemoved),
    decreases fresh.len(),
{
    if fresh.len() > 0 {
        match position(unmatched, fresh[0].username@) {
            None => {
                lemma_arrivals_hold_no_removal(fresh.drop_first(), unmatched, exclusion);
            },
            Some(i) => {
                lemma_arrivals_hold_no_removal(fresh.drop_first(), unmatched.remove(i), exclusion);
            },
        }
    }
}

/// Whether no two entries of `list` belong to the same researcher.
pub open spec fn distinct(list: Seq<Hero>) -> bool {
    forall|i: int, j: int| 0 <= i < j < list.len() ==> list[i].username@ != list[j].username@
}

/// The first entry of `list` that belongs to `username`.
pub open spec fn entry_of(list: Seq<Hero>, username: Seq<char>) -> Option<Hero> {
    match position(list, username) {
        Some(i) => Some(list[i]),
        None => None,
    }
}

/// What one fresh entry gives rise to when it is looked up in the whole
/// snapshot: an addition where the snapshot does not hold the researcher, an
/// update where the points differ.
pub open spec fn entry_events(hero: Hero, snapshot: Seq<Hero>, exclusion: Exclusion) -> Seq<Event> {
    match entry_of(snapshot, hero.username@) {
        None => seq![Event::HeroAdded(hero)],
        Some(old) => update_event(old, hero, exclusion),
    }
}

/// What the fresh entries give rise to, one after the other, each looked up
/// in the whole snapshot.
pub open spec fn lookup_events(fresh: Seq<Hero>, snapshot: Seq<Hero>, exclusion: Exclusion) -> Seq<
    Event,
>
    decreases fresh.len(),
{
    if fresh.len() == 0 {
        seq![]
    } else {
        entry_events(fresh[0], snapshot, exclusion) + lookup_events(
            fresh.drop_first(),
            snapshot,
            exclusion,
        )
    }
}

/// The entries of `snapshot` whose researcher `fresh` does not hold, in the
/// order of `snapshot`.
pub open spec fn departed(fresh: Seq<Hero>, snapshot: Seq<Hero>) -> Seq<Hero> {
    snapshot.filter(|hero: Hero| !has_researcher(fresh, hero.username@))
}

/// The first entry of a researcher is found where it stands.
pub proof fn lemma_position_is(list: Seq<Hero>, username: Seq<char>, at: int)
    requires
        0 <= at < list.len(),
        list[at].username@ == username,
        forall|j: int| 0 <= j < at ==> list[j].username@ != username,
    ensures
        position(list, username) == Some(at),
{
    crate::poll::hall_of_fame::lemma_position(list, username);
}

/// Taking an entry out of a list changes nothing for other researchers.
pub proof fn lemma_entry_kept(list: Seq<Hero>, at: int, username: Seq<char>)
    requires
        0 <= at < list.len(),
        list[at].username@ != username,
    ensures
        entry_of(list.remove(at), username) == entry_of(list, username),
{
    let shorter = list.remove(at);
    crate::poll::hall_of_fame::lemma_position(list, username);
    crate::poll::hall_of_fame::lemma_position(shorter, username);
    match position(list, username) {
        Some(i) => {
            let moved = if i < at {
                i
            } else {
                i - 1
            };
            assert(shorter[moved] == list[i]);
            assert forall|j: int| 0 <= j < moved implies shorter[j].username@ != username by {
                if j < at {
                    assert(shorter[j] == list[j]);
                } else {
                    assert(shorter[j] == list[j + 1]);
                }
            }
            lemma_position_is(shorter, username, moved);
        },
        None => {
            match position(shorter, username) {
                Some(j) => {
                    if j < at {
                        assert(shorter[j] == list[j]);
                    } else {
                        assert(shorter[j] == list[j + 1]);
                    }
                },
                None => {},
            }
        },
    }
}

/// Where no two fresh entries belong to the same researcher, matching
/// against what is left unmatched comes to the same as looking each entry up
/// in the whole snapshot.
pub proof fn lemma_arrivals_by_lookup(fresh: Seq<Hero>, snapshot: Seq<Hero>, exclusion: Exclusion)
    requires
        distinct(fresh),
    ensures
        arrival_events(fresh, snapshot, exclusion) == lookup_events(fresh, snapshot, exclusion),
{
    lemma_arrivals_agree(fresh, snapshot, snapshot, exclusion);
}

proof fn lemma_arrivals_agree(
    fresh: Seq<Hero>,
    unmatched: Seq<Hero>,
    snapshot: Seq<Hero>,
    exclusion: Exclusion,
)
    requires
        distinct(fresh),
        forall|k: int|
            0 <= k < fresh.len() ==> entry_of(unmatched, (#[trigger] fresh[k]).username@)
                == entry_of(snapshot, fresh[k].username@),
    ensures
        arrival_events(fresh, unmatched, exclusion) == lookup_events(fresh, snapshot, exclusion),
    decreases fresh.len(),
{
    if fresh.len() > 0 {
        let rest = fresh.drop_first();
        let first = fresh[0];
        assert(entry_of(unmatched, first.username@) == entry_of(snapshot, first.username@));
        assert(distinct(rest)) by {
            assert forall|i: int, j: int| 0 <= i < j < rest.len() implies rest[i].username@
                != rest[j].username@ by {
                assert(rest[i] == fresh[i + 1] && rest[j] == fresh[j + 1]);
            }
        }
        crate::poll::hall_of_fame::lemma_position(unmatched, first.username@);
        match position(unmatched, first.username@) {
            None => {
                assert forall|k: int| 0 <= k < rest.len() implies entry_of(
                    unmatched,
                    (#[trigger] rest[k]).username@,
                ) == entry_of(snapshot, rest[k].username@) by {
                    assert(rest[k] == fresh[k + 1]);
                }
                lemma_arrivals_agree(rest, unmatched, snapshot, exclusion);
            },
            Some(i) => {
                assert forall|k: int| 0 <= k < rest.len() implies entry_of(
                    unmatched.remove(i),
                    (#[trigger] rest[k]).username@,
                ) == entry_of(snapshot, rest[k].username@) by {
                    assert(rest[k] == fresh[k + 1]);
                    assert(fresh[k + 1].username@ != fresh[0].username@);
                    lemma_entry_kept(unmatched, i, rest[k].username@);
                }
                lemma_arrivals_agree(rest, unmatched.remove(i), snapshot, exclusion);
            },
        }
    }
}

/// Two tests that agree on every entry of a list keep the same entries.
proof fn lemma_filter_agrees(list: Seq<Hero>, p: spec_fn(Hero) -> bool, q: spec_fn(Hero) -> bool)
    requires
        forall|i: int| 0 <= i < list.len() ==> p(#[trigger] list[i]) == q(list[i]),
    ensures
        list.filter(p) == list.filter(q),
    decreases list.len(),
{
    reveal(Seq::filter);
    if list.len() > 0 {
        let front = list.drop_last();
        assert forall|i: int| 0 <= i < front.len() implies p(#[trigger] front[i]) == q(
            front[i],
        ) by {
            assert(front[i] == list[i]);
        }
        lemma_filter_agrees(front, p, q);
    }
}

/// An entry that a test turns down can be taken out before the test.
proof fn lemma_filter_without(list: Seq<Hero>, at: int, p: spec_fn(Hero) -> bool)
    requires
        0 <= at < list.len(),
        !p(list[at]),
    ensures
        list.remove(at).filter(p) == list.filter(p),
{
    let before = list.take(at);
    let one = seq![list[at]];
    let behind = list.skip(at + 1);
    assert(list =~= before + one + behind);
    assert(list.remove(at) =~= before + behind);
    Seq::filter_distributes_over_add(before + one, behind, p);
    Seq::filter_distributes_over_add(before, one, p);
    Seq::filter_distributes_over_add(before, behind, p);
    assert(one.filter(p) =~= Seq::<Hero>::empty()) by {
        reveal(Seq::filter);
        assert(one.drop_last() =~= Seq::<Hero>::empty());
        assert(one.drop_last().filter(p) =~= Seq::<Hero>::empty());
    }
    assert(before.filter(p) + one.filter(p) =~= before.filter(p));
}

/// Where no two entries of the snapshot belong to the same researcher, the
/// entries that stay unmatched are those whose researcher the fresh
/// leaderboard does not hold, in the order of the snapshot.
pub proof fn lemma_residual_is_departed(fresh: Seq<Hero>, snapshot: Seq<Hero>)
    requires
        distinct(snapshot),
    ensures
        residual(fresh, snapshot) == departed(fresh, snapshot),
    decreases fresh.len(),
{
    let absent = |hero: Hero| !has_researcher(fresh, hero.username@);
    if fresh.len() == 0 {
        let all = |hero: Hero| true;
        lemma_filter_agrees(snapshot, absent, all);
        assert(snapshot.filter(all) =~= snapshot) by {
            lemma_filter_all(snapshot);
        }
    } else {
        let rest = fresh.drop_first();
        let first = fresh[0];
        let absent_rest = |hero: Hero| !has_researcher(rest, hero.username@);
        crate::poll::hall_of_fame::lemma_position(snapshot, first.username@);
        assert forall|username: Seq<char>| username != first.username@ implies has_researcher(
            fresh,
            username,
        ) == has_researcher(rest, username) by {
            if has_researcher(fresh, username) {
                let k = choose|k: int| 0 <= k < fresh.len() && fresh[k].username@ == username;
                assert(rest[k - 1] == fresh[k]);
            }
            if has_researcher(rest, username) {
                let k = choose|k: int| 0 <= k < rest.len() && rest[k].username@ == username;
                assert(fresh[k + 1] == rest[k]);
            }
        }
        match position(snapshot, first.username@) {
            None => {
                lemma_residual_is_departed(rest, snapshot);
                lemma_filter_agrees(snapshot, absent, absent_rest);
            },
            Some(i) => {
                let shorter = snapshot.remove(i);
                assert(distinct(shorter)) by {
                    assert forall|a: int, b: int| 0 <= a < b < shorter.len() implies shorter[a].username@
                        != shorter[b].username@ by {
                        let a0 = if a < i {
                            a
                        } else {
                            a + 1
                        };
                        let b0 = if b < i {
                            b
                        } else {
                            b + 1
                        };
                        assert(shorter[a] == snapshot[a0] && shorter[b] == snapshot[b0]);
                    }
                }
                lemma_residual_is_departed(rest, shorter);
                assert(has_researcher(fresh, snapshot[i].username@)) by {
                    assert(fresh[0].username@ == snapshot[i].username@);
                }
                lemma_filter_without(snapshot, i, absent);
                assert forall|j: int| 0 <= j < shorter.len() implies absent(
                    #[trigger] shorter[j],
                ) == absent_rest(shorter[j]) by {
                    let j0 = if j < i {
                        j
                    } else {
                        j + 1
                    };
                    assert(shorter[j] == snapshot[j0]);
                    assert(snapshot[j0].username@ != snapshot[i].username@);
                }
                lemma_filter_agrees(shorter, absent, absent_rest);
            },
        }
    }
}

/// A test that every entry passes keeps the whole list.
proof fn lemma_filter_all(list: Seq<Hero>)
    ensures
        list.filter(|hero: Hero| true) == list,
    decreases list.len(),
{
    reveal(Seq::filter);
    if list.len() > 0 {
        lemma_filter_all(list.drop_last());
        assert(list.drop_last().push(list.last()) =~= list);
    }
}

/// Between leaderboards on which every researcher stands once, the events
/// are what the lookup of each fresh entry in the snapshot gives, in the
/// order of the fresh leaderboard, and then the removal of every snapshot
/// entry whose researcher is gone, in the order of the snapshot.
pub proof fn lemma_reconcile_by_lookup(fresh: Seq<Hero>, snapshot: Seq<Hero>, exclusion: Exclusion)
    requires
        distinct(fresh),
        distinct(snapshot),
    ensures
        reconcile_events(fresh, snapshot, exclusion) == lookup_events(fresh, snapshot, exclusion)
            + removal_events(departed(fresh, snapshot)),
{
    lemma_arrivals_by_lookup(fresh, snapshot, exclusion);
    lemma_residual_is_departed(fresh, snapshot);
}

} // verus!
