//! Diffing a freshly fetched leaderboard against the last one seen.

use vstd::prelude::*;
use crate::models::Hero;

verus! {

/// A change on the leaderboard.
#[derive(Debug, PartialEq, Eq)]
pub enum Event {
    /// A researcher who was not on the last leaderboard.
    HeroAdded(Hero),
    /// A researcher whose points changed: the old entry, then the new one.
    HeroUpdated(Hero, Hero),
    /// A researcher who is no longer on the leaderboard.
    HeroRemoved(Hero),
}

/// The researchers whose point changes are not reported. Their arrival and
/// departure still are.
#[derive(Debug, PartialEq, Eq)]
pub struct Exclusion {
    pub usernames: Vec<String>,
}

/// What one reconciliation yields: the events in the order they are due,
/// and the leaderboard to keep for the next cycle.
#[derive(Debug, PartialEq, Eq)]
pub struct Reconciliation {
    pub events: Vec<Event>,
    pub snapshot: Vec<Hero>,
}

impl Exclusion {
    /// Whether point changes of `hero` are left unreported.
    pub open spec fn covers(&self, hero: &Hero) -> bool {
        exists|i: int| 0 <= i < self.usernames.len() && self.usernames[i]@ == hero.username@
    }

    /// The policy that reports every point change.
    pub fn none() -> (r: Exclusion)
        ensures
            r.usernames@.len() == 0,
            forall|hero: Hero| !r.covers(&hero),
    {
        Exclusion { usernames: Vec::new() }
    }

    /// The policy that leaves out the point changes of one username.
    pub fn of(username: String) -> (r: Exclusion)
        ensures
            r.usernames@ == seq![username],
            forall|hero: Hero| r.covers(&hero) <==> hero.username@ == username@,
    {
        let mut usernames = Vec::new();
        usernames.push(username);
        let r = Exclusion { usernames };
        assert forall|hero: Hero| r.covers(&hero) <==> hero.username@ == username@ by {
            if hero.username@ == username@ {
                assert(r.usernames[0]@ == hero.username@);
            }
        }
        r
    }

    /// Whether point changes of `hero` are left unreported.
    pub fn is_excluded(&self, hero: &Hero) -> (r: bool)
        ensures
            r == self.covers(hero),
    {
        let mut i: usize = 0;
        while i < self.usernames.len()
            invariant
                i <= self.usernames.len(),
                forall|j: int| 0 <= j < i ==> self.usernames[j]@ != hero.username@,
            decreases self.usernames.len() - i,
        {
            if self.usernames[i] == hero.username {
                return true;
            }
            i += 1;
        }
        false
    }
}

/// The position of the first entry of `list` that belongs to `username`.
pub open spec fn position(list: Seq<Hero>, username: Seq<char>) -> Option<int>
    decreases list.len(),
{
    if list.len() == 0 {
        None
    } else if list[0].username@ == username {
        Some(0)
    } else {
        match position(list.drop_first(), username) {
            Some(i) => Some(i + 1),
            None => None,
        }
    }
}

/// The event that a fresh entry gives rise to when it is matched with the
/// entry `old` of the last leaderboard, if any.
pub open spec fn update_event(old: Hero, new: Hero, exclusion: Exclusion) -> Seq<Event> {
    if old.points != new.points && !exclusion.covers(&new) {
        seq![Event::HeroUpdated(old, new)]
    } else {
        seq![]
    }
}

/// The events that the entries of `fresh` give rise to, in their order, when
/// `unmatched` is what is left of the last leaderboard. Each fresh entry
/// takes the first unmatched entry of the same researcher with it.
pub open spec fn arrival_events(fresh: Seq<Hero>, unmatched: Seq<Hero>, exclusion: Exclusion) -> Seq<
    Event,
>
    decreases fresh.len(),
{
    if fresh.len() == 0 {
        seq![]
    } else {
        match position(unmatched, fresh[0].username@) {
            None => seq![Event::HeroAdded(fresh[0])] + arrival_events(
                fresh.drop_first(),
                unmatched,
                exclusion,
            ),
            Some(i) => update_event(unmatched[i], fresh[0], exclusion) + arrival_events(
                fresh.drop_first(),
                unmatched.remove(i),
                exclusion,
            ),
        }
    }
}

/// What is left of `unmatched` once every entry of `fresh` has taken its
/// match out.
pub open spec fn residual(fresh: Seq<Hero>, unmatched: Seq<Hero>) -> Seq<Hero>
    decreases fresh.len(),
{
    if fresh.len() == 0 {
        unmatched
    } else {
        match position(unmatched, fresh[0].username@) {
            None => residual(fresh.drop_first(), unmatched),
            Some(i) => residual(fresh.drop_first(), unmatched.remove(i)),
        }
    }
}

/// One removal event for each entry of `gone`, in its order.
pub open spec fn removal_events(gone: Seq<Hero>) -> Seq<Event> {
    Seq::new(gone.len(), |i: int| Event::HeroRemoved(gone[i]))
}

/// The events of one reconciliation: additions and updates in the order of
/// `fresh`, then the removals in the order of `snapshot`.
pub open spec fn reconcile_events(fresh: Seq<Hero>, snapshot: Seq<Hero>, exclusion: Exclusion) -> Seq<
    Event,
> {
    arrival_events(fresh, snapshot, exclusion) + removal_events(residual(fresh, snapshot))
}

/// A position found by `position` is the first one of that researcher.
pub proof fn lemma_position(list: Seq<Hero>, username: Seq<char>)
    ensures
        match position(list, username) {
            Some(i) => 0 <= i < list.len() && list[i].username@ == username && forall|j: int|
                0 <= j < i ==> list[j].username@ != username,
            None => forall|j: int| 0 <= j < list.len() ==> list[j].username@ != username,
        },
    decreases list.len(),
{
    if list.len() > 0 && list[0].username@ != username {
        let rest = list.drop_first();
        lemma_position(rest, username);
        match position(rest, username) {
            Some(i) => {
                assert forall|j: int| 0 <= j < i + 1 implies list[j].username@ != username by {
                    if j > 0 {
                        assert(rest[j - 1] == list[j]);
                    }
                }
            },
            None => {
                assert forall|j: int| 0 <= j < list.len() implies list[j].username@
                    != username by {
                    if j > 0 {
                        assert(rest[j - 1] == list[j]);
                    }
                }
            },
        }
    }
}

/// The first position at which `list` holds an entry of `username`.
pub fn find_hero(list: &Vec<Hero>, username: &String) -> (r: Option<usize>)
    ensures
        match r {
            Some(i) => i < list.len() && position(list@, username@) == Some(i as int),
            None => position(list@, username@).is_none(),
        },
{
    let mut i: usize = 0;
    while i < list.len()
        invariant
            i <= list.len(),
            forall|j: int| 0 <= j < i ==> list[j].username@ != username@,
        decreases list.len() - i,
    {
        if list[i].username == *username {
            proof {
                lemma_position(list@, username@);
            }
            return Some(i);
        }
        i += 1;
    }
    proof {
        lemma_position(list@, username@);
    }
    None
}

/// Compares the freshly fetched leaderboard with the one last seen.
///
/// Each fresh entry is matched with the first entry of the same researcher
/// that is still unmatched: without a match it is an addition, with one it is
/// an update when the points differ and the researcher is not excluded.
/// What stays unmatched is removed. The leaderboard to keep is `fresh` as it
/// came.
pub fn reconcile(fresh: Vec<Hero>, snapshot: Vec<Hero>, exclusion: &Exclusion) -> (r:
    Reconciliation)
    ensures
        r.events@ == reconcile_events(fresh@, snapshot@, *exclusion),
        r.snapshot@ == fresh@,
{
    let mut events: Vec<Event> = Vec::new();
    let mut unmatched = snapshot;
    let mut i: usize = 0;
    assert(fresh@.skip(0) =~= fresh@);
    assert(events@ + arrival_events(fresh@, snapshot@, *exclusion) =~= arrival_events(
        fresh@,
        snapshot@,
        *exclusion,
    ));
    while i < fresh.len()
        invariant
            i <= fresh.len(),
            events@ + arrival_events(fresh@.skip(i as int), unmatched@, *exclusion)
                == arrival_events(fresh@, snapshot@, *exclusion),
            residual(fresh@.skip(i as int), unmatched@) == residual(fresh@, snapshot@),
        decreases fresh.len() - i,
    {
        let ghost rest = fresh@.skip(i as int);
        let ghost before = events@;
        let ghost left = unmatched@;
        assert(rest[0] == fresh@[i as int]);
        assert(rest.drop_first() =~= fresh@.skip(i + 1));
        let hero = fresh[i].clone();
        match find_hero(&unmatched, &hero.username) {
            None => {
                events.push(Event::HeroAdded(hero));
                assert(events@ + arrival_events(rest.drop_first(), left, *exclusion) =~= before
                    + arrival_events(rest, left, *exclusion));
            },
            Some(at) => {
                let old = unmatched.remove(at);
                if hero.points != old.points && !exclusion.is_excluded(&hero) {
                    events.push(Event::HeroUpdated(old, hero));
                }
                assert(events@ + arrival_events(rest.drop_first(), left.remove(at as int), *exclusion)
                    =~= before + arrival_events(rest, left, *exclusion));
            },
        }
        i += 1;
    }
    assert(fresh@.skip(i as int) =~= Seq::<Hero>::empty());
    assert(events@ =~= arrival_events(fresh@, snapshot@, *exclusion));
    let ghost arrived = events@;
    let mut k: usize = 0;
    while k < unmatched.len()
        invariant
            k <= unmatched.len(),
            events@ == arrived + removal_events(unmatched@.take(k as int)),
        decreases unmatched.len() - k,
    {
        events.push(Event::HeroRemoved(unmatched[k].clone()));
        assert(events@ =~= arrived + removal_events(unmatched@.take(k + 1)));
        k += 1;
    }
    assert(unmatched@.take(k as int) =~= unmatched@);
    Reconciliation { events, snapshot: fresh }
}

} // verus!
