//! Stateless query handlers over the current lifecycle state.
//!
//! Every handler follows one pattern: look at the lifecycle state once; if
//! it is not `Loaded`, fail with `NotReady`; otherwise run the lookup
//! against the snapshot. An identifier that resolves to nothing is
//! `NotFound`, a condition distinct from `NotReady`. Handlers never retry
//! and never block; the caller is expected to copy the state out of the
//! shared cell before calling, so no lock is held during a lookup.

use vstd::prelude::*;

use crate::ratio::Ratio;
use crate::snapshot::first_comp_with_id;
use crate::snapshot::first_person_with_id;
use crate::snapshot::upcoming_of;
use crate::snapshot::Competition;
use crate::snapshot::CompetitorView;
use crate::snapshot::Person;
use crate::snapshot::PersonView;
use crate::store::LifecycleState;
use crate::store::StateView;

verus! {

/// Why a query could not be answered.
#[derive(Clone, Copy, Debug, PartialEq, Eq, Structural)]
pub enum QueryError {
    /// No snapshot is available: none was ever loaded, or a refresh is
    /// replacing the one there was.
    NotReady,
    /// The snapshot is there, but the identifier resolves to nothing.
    NotFound,
}

/// The progress of the refresh in flight, as `(fraction, rate)`.
/// Any non-`Loading` state is `NotReady`.
pub fn progress_report(state: &LifecycleState) -> (r: Result<(Ratio, Ratio), QueryError>)
    ensures
        match state@ {
            StateView::Loading(f, rt) => r matches Ok(p) && p == (f, rt),
            _ => r matches Err(e) && e == QueryError::NotReady,
        },
{
    match state {
        LifecycleState::Loading(f, rt) => Ok((*f, *rt)),
        _ => Err(QueryError::NotReady),
    }
}

/// Direct lookup of one person by identifier.
pub fn person_by_id<'a>(state: &'a LifecycleState, id: &String) -> (r: Result<
    &'a Person,
    QueryError,
>)
    ensures
        !(state@ is Loaded) ==> (r matches Err(e) && e == QueryError::NotReady),
        state@ matches StateView::Loaded(snap) ==> match first_person_with_id(
            snap.people,
            id@,
        ) {
            Some(p) => r matches Ok(q) && q@ == p,
            None => r matches Err(e) && e == QueryError::NotFound,
        },
{
    match state {
        LifecycleState::Loaded(snap) => match snap.find_person(id) {
            Some(p) => Ok(p),
            None => Err(QueryError::NotFound),
        },
        _ => Err(QueryError::NotReady),
    }
}

/// Direct lookup of one competition by identifier.
pub fn comp_by_id<'a>(state: &'a LifecycleState, id: &String) -> (r: Result<
    &'a Competition,
    QueryError,
>)
    ensures
        !(state@ is Loaded) ==> (r matches Err(e) && e == QueryError::NotReady),
        state@ matches StateView::Loaded(snap) ==> match first_comp_with_id(snap.comps, id@) {
            Some(c) => r matches Ok(q) && q@ == c,
            None => r matches Err(e) && e == QueryError::NotFound,
        },
{
    match state {
        LifecycleState::Loaded(snap) => match snap.find_comp(id) {
            Some(c) => Ok(c),
            None => Err(QueryError::NotFound),
        },
        _ => Err(QueryError::NotReady),
    }
}

/// The competitions that have not yet taken place, in snapshot order.
pub fn upcoming<'a>(state: &'a LifecycleState) -> (r: Result<Vec<&'a Competition>, QueryError>)
    ensures
        !(state@ is Loaded) ==> (r matches Err(e) && e == QueryError::NotReady),
        state@ matches StateView::Loaded(snap) ==> r matches Ok(v) && Seq::new(
            v@.len(),
            |i: int| v@[i]@,
        ) == upcoming_of(snap.comps),
{
    match state {
        LifecycleState::Loaded(snap) => Ok(snap.upcoming()),
        _ => Err(QueryError::NotReady),
    }
}

/// Resolves the two sides of a pairwise comparison. The probability
/// computation itself is the analytics collaborator's; this resolves and
/// selects what it consumes.
pub fn beat_pair<'a>(state: &'a LifecycleState, id1: &String, id2: &String) -> (r: Result<
    (&'a Person, &'a Person),
    QueryError,
>)
    ensures
        !(state@ is Loaded) ==> (r matches Err(e) && e == QueryError::NotReady),
        state@ matches StateView::Loaded(snap) ==> match (
            first_person_with_id(snap.people, id1@),
            first_person_with_id(snap.people, id2@),
        ) {
            (Some(p1), Some(p2)) => r matches Ok(pair) && pair.0@ == p1 && pair.1@ == p2,
            _ => r matches Err(e) && e == QueryError::NotFound,
        },
{
    match state {
        LifecycleState::Loaded(snap) => {
            let p1 = snap.find_person(id1);
            let p2 = snap.find_person(id2);
            match (p1, p2) {
                (Some(a), Some(b)) => Ok((a, b)),
                _ => Err(QueryError::NotFound),
            }
        },
        _ => Err(QueryError::NotReady),
    }
}

/// The other profiles a placement probability is computed against: the
/// competition's registrations for `event`, the person themself excluded,
/// each resolved to its profile, unresolvable ones dropped, snapshot order
/// kept.
pub open spec fn placement_pool(
    people: Seq<PersonView>,
    competitors: Seq<CompetitorView>,
    id: Seq<char>,
    event: Seq<char>,
) -> Seq<PersonView>
    decreases competitors.len(),
{
    if competitors.len() == 0 {
        Seq::empty()
    } else {
        let rest = placement_pool(people, competitors.drop_last(), id, event);
        let c = competitors.last();
        if c.id != id && c.events.contains(event) {
            match first_person_with_id(people, c.id) {
                Some(p) => rest.push(p),
                None => rest,
            }
        } else {
            rest
        }
    }
}

/// Whether `events` contains `event`.
fn has_event(events: &Vec<String>, event: &String) -> (r: bool)
    ensures
        r == events.deep_view().contains(event@),
{
    let n: usize = events.len();
    for i in 0..n
        invariant
            n == events.len(),
            forall|j: int| 0 <= j < i ==> events.deep_view()[j] != event@,
    {
        if events[i] == *event {
            assert(events.deep_view()[i as int] == event@);
            return true;
        }
    }
    false
}

/// Resolves a placement-probability query: the person, and the pool of
/// competing profiles the probability is computed against. The probability
/// computation itself is the analytics collaborator's.
pub fn placement<'a>(
    state: &'a LifecycleState,
    comp_id: &String,
    id: &String,
    event: &String,
) -> (r: Result<(&'a Person, Vec<&'a Person>), QueryError>)
    ensures
        !(state@ is Loaded) ==> (r matches Err(e) && e == QueryError::NotReady),
        state@ matches StateView::Loaded(snap) ==> match (
            first_person_with_id(snap.people, id@),
            first_comp_with_id(snap.comps, comp_id@),
        ) {
            (Some(pv), Some(cv)) => r matches Ok(pr) && pr.0@ == pv && Seq::new(
                pr.1@.len(),
                |i: int| pr.1@[i]@,
            ) == placement_pool(snap.people, cv.competitors, id@, event@),
            _ => r matches Err(e) && e == QueryError::NotFound,
        },
{
    match state {
        LifecycleState::Loaded(snap) => {
            let person = snap.find_person(id);
            let comp = snap.find_comp(comp_id);
            match (person, comp) {
                (Some(p), Some(c)) => {
                    let mut pool: Vec<&'a Person> = Vec::new();
                    let n: usize = c.competitors.len();
                    for i in 0..n
                        invariant
                            n == c.competitors.len(),
                            state@ matches StateView::Loaded(sv) && sv == snap@,
                            Seq::new(pool@.len(), |k: int| pool@[k]@) =~= placement_pool(
                                snap@.people,
                                c@.competitors.take(i as int),
                                id@,
                                event@,
                            ),
                    {
                        proof {
                            assert(c@.competitors.take(i + 1).drop_last() =~= c@.competitors.take(
                                i as int,
                            ));
                        }
                        let ct = &c.competitors[i];
                        if !(ct.id == *id) && has_event(&ct.events, event) {
                            match snap.find_person(&ct.id) {
                                Some(q) => pool.push(q),
                                None => {},
                            }
                        }
                        proof {
                            assert(Seq::new(pool@.len(), |k: int| pool@[k]@) =~= placement_pool(
                                snap@.people,
                                c@.competitors.take(i + 1),
                                id@,
                                event@,
                            ));
                        }
                    }
                    proof {
                        assert(c@.competitors.take(n as int) =~= c@.competitors);
                    }
                    Ok((p, pool))
                },
                _ => Err(QueryError::NotFound),
            }
        },
        _ => Err(QueryError::NotReady),
    }
}

} // verus!
