//! The immutable dataset snapshot: competitor profiles and competitions.
//!
//! A snapshot is fully built by one refresh cycle and never mutated
//! afterwards; a new one replaces the old wholesale. Records are indexable
//! by a stable identifier and iterable in a stable order (the order the
//! fetch produced), which the query layer uses both for direct lookup and
//! as the deterministic tie-break of the fuzzy search.
//!
//! Each exec type has a ghost view mirroring it field by field over
//! mathematical sequences, so contracts can speak of whole values exactly.

use vstd::prelude::*;

verus! {

/// Ghost mirror of [`Person`].
pub ghost struct PersonView {
    pub id: Seq<char>,
    pub name: Seq<char>,
}

/// Ghost mirror of [`Competitor`].
pub ghost struct CompetitorView {
    pub id: Seq<char>,
    pub events: Seq<Seq<char>>,
}

/// Ghost mirror of [`Competition`].
pub ghost struct CompetitionView {
    pub id: Seq<char>,
    pub has_been: bool,
    pub competitors: Seq<CompetitorView>,
}

/// Ghost mirror of [`DatasetSnapshot`].
pub ghost struct SnapshotView {
    pub people: Seq<PersonView>,
    pub comps: Seq<CompetitionView>,
}

/// One competitor profile: a stable identifier and a display name.
#[derive(Clone, Debug, PartialEq, Eq)]
pub struct Person {
    pub id: String,
    pub name: String,
}

/// One registration inside a competition: who, and for which events.
#[derive(Clone, Debug, PartialEq, Eq)]
pub struct Competitor {
    pub id: String,
    pub events: Vec<String>,
}

/// One competition: identifier, whether it has already taken place, and its
/// registered competitors.
#[derive(Clone, Debug, PartialEq, Eq)]
pub struct Competition {
    pub id: String,
    pub has_been: bool,
    pub competitors: Vec<Competitor>,
}

/// One immutable, fully built copy of the dataset.
#[derive(Clone, Debug, PartialEq, Eq)]
pub struct DatasetSnapshot {
    pub people: Vec<Person>,
    pub comps: Vec<Competition>,
}

impl View for Person {
    type V = PersonView;

    open spec fn view(&self) -> PersonView {
        PersonView { id: self.id@, name: self.name@ }
    }
}

impl View for Competitor {
    type V = CompetitorView;

    open spec fn view(&self) -> CompetitorView {
        CompetitorView { id: self.id@, events: self.events.deep_view() }
    }
}

impl View for Competition {
    type V = CompetitionView;

    open spec fn view(&self) -> CompetitionView {
        CompetitionView {
            id: self.id@,
            has_been: self.has_been,
            competitors: Seq::new(
                self.competitors@.len(),
                |i: int| self.competitors@[i]@,
            ),
        }
    }
}

impl View for DatasetSnapshot {
    type V = SnapshotView;

    open spec fn view(&self) -> SnapshotView {
        SnapshotView {
            people: Seq::new(self.people@.len(), |i: int| self.people@[i]@),
            comps: Seq::new(self.comps@.len(), |i: int| self.comps@[i]@),
        }
    }
}

impl Person {
    /// An exact copy, equal to `self` view for view.
    pub fn duplicate(&self) -> (r: Person)
        ensures
            r@ == self@,
    {
        Person { id: self.id.clone(), name: self.name.clone() }
    }
}

impl Competitor {
    /// An exact copy, equal to `self` view for view.
    pub fn duplicate(&self) -> (r: Competitor)
        ensures
            r@ == self@,
    {
        let mut events: Vec<String> = Vec::new();
        let n: usize = self.events.len();
        for i in 0..n
            invariant
                n == self.events.len(),
                events@.len() == i,
                forall|k: int| 0 <= k < i ==> events@[k]@ == self.events@[k]@,
        {
            events.push(self.events[i].clone());
        }
        proof {
            assert(events.deep_view() =~= self.events.deep_view());
        }
        Competitor { id: self.id.clone(), events }
    }
}

impl Competition {
    /// An exact copy, equal to `self` view for view.
    pub fn duplicate(&self) -> (r: Competition)
        ensures
            r@ == self@,
    {
        let mut competitors: Vec<Competitor> = Vec::new();
        let n: usize = self.competitors.len();
        for i in 0..n
            invariant
                n == self.competitors.len(),
                competitors@.len() == i,
                forall|k: int| 0 <= k < i ==> competitors@[k]@ == self.competitors@[k]@,
        {
            competitors.push(self.competitors[i].duplicate());
        }
        let r = Competition { id: self.id.clone(), has_been: self.has_been, competitors };
        proof {
            assert(r@.competitors =~= self@.competitors);
        }
        r
    }
}

impl DatasetSnapshot {
    /// An exact copy, equal to `self` view for view.
    pub fn duplicate(&self) -> (r: DatasetSnapshot)
        ensures
            r@ == self@,
    {
        let mut people: Vec<Person> = Vec::new();
        let np: usize = self.people.len();
        for i in 0..np
            invariant
                np == self.people.len(),
                people@.len() == i,
                forall|k: int| 0 <= k < i ==> people@[k]@ == self.people@[k]@,
        {
            people.push(self.people[i].duplicate());
        }
        let mut comps: Vec<Competition> = Vec::new();
        let nc: usize = self.comps.len();
        for i in 0..nc
            invariant
                nc == self.comps.len(),
                comps@.len() == i,
                forall|k: int| 0 <= k < i ==> comps@[k]@ == self.comps@[k]@,
        {
            comps.push(self.comps[i].duplicate());
        }
        let r = DatasetSnapshot { people, comps };
        proof {
            assert(r@.people =~= self@.people);
            assert(r@.comps =~= self@.comps);
        }
        r
    }
}

/// The first person of `people` whose identifier is `id`, if any.
pub open spec fn first_person_with_id(people: Seq<PersonView>, id: Seq<char>) -> Option<
    PersonView,
>
    decreases people.len(),
{
    if people.len() == 0 {
        None
    } else if people[0].id == id {
        Some(people[0])
    } else {
        first_person_with_id(people.drop_first(), id)
    }
}

/// The first competition of `comps` whose identifier is `id`, if any.
pub open spec fn first_comp_with_id(comps: Seq<CompetitionView>, id: Seq<char>) -> Option<
    CompetitionView,
>
    decreases comps.len(),
{
    if comps.len() == 0 {
        None
    } else if comps[0].id == id {
        Some(comps[0])
    } else {
        first_comp_with_id(comps.drop_first(), id)
    }
}

/// The competitions that have not yet taken place, in snapshot order.
pub open spec fn upcoming_of(comps: Seq<CompetitionView>) -> Seq<CompetitionView>
    decreases comps.len(),
{
    if comps.len() == 0 {
        Seq::empty()
    } else {
        let rest = upcoming_of(comps.drop_last());
        if !comps.last().has_been {
            rest.push(comps.last())
        } else {
            rest
        }
    }
}

/// Skipping past a prefix without a matching person leaves the first match
/// unchanged.
pub proof fn lemma_first_person_skip(people: Seq<PersonView>, id: Seq<char>, i: int)
    requires
        0 <= i <= people.len(),
        forall|j: int| 0 <= j < i ==> people[j].id != id,
    ensures
        first_person_with_id(people, id) == first_person_with_id(people.skip(i), id),
    decreases i,
{
    if i > 0 {
        lemma_first_person_skip(people.drop_first(), id, i - 1);
        assert(people.drop_first().skip(i - 1) =~= people.skip(i));
    } else {
        assert(people.skip(0) =~= people);
    }
}

/// Skipping past a prefix without a matching competition leaves the first
/// match unchanged.
pub proof fn lemma_first_comp_skip(comps: Seq<CompetitionView>, id: Seq<char>, i: int)
    requires
        0 <= i <= comps.len(),
        forall|j: int| 0 <= j < i ==> comps[j].id != id,
    ensures
        first_comp_with_id(comps, id) == first_comp_with_id(comps.skip(i), id),
    decreases i,
{
    if i > 0 {
        lemma_first_comp_skip(comps.drop_first(), id, i - 1);
        assert(comps.drop_first().skip(i - 1) =~= comps.skip(i));
    } else {
        assert(comps.skip(0) =~= comps);
    }
}

impl DatasetSnapshot {
    /// Direct lookup: the first person whose identifier equals `id`.
    pub fn find_person<'a>(&'a self, id: &String) -> (r: Option<&'a Person>)
        ensures
            match first_person_with_id(self@.people, id@) {
                Some(p) => r matches Some(q) && q@ == p,
                None => r is None,
            },
    {
        let n: usize = self.people.len();
        for i in 0..n
            invariant
                n == self.people.len(),
                forall|j: int| 0 <= j < i ==> self@.people[j].id != id@,
        {
            if self.people[i].id == *id {
                proof {
                    lemma_first_person_skip(self@.people, id@, i as int);
                }
                return Some(&self.people[i]);
            }
        }
        proof {
            lemma_first_person_skip(self@.people, id@, n as int);
        }
        None
    }

    /// Direct lookup: the first competition whose identifier equals `id`.
    pub fn find_comp<'a>(&'a self, id: &String) -> (r: Option<&'a Competition>)
        ensures
            match first_comp_with_id(self@.comps, id@) {
                Some(c) => r matches Some(q) && q@ == c,
                None => r is None,
            },
    {
        let n: usize = self.comps.len();
        for i in 0..n
            invariant
                n == self.comps.len(),
                forall|j: int| 0 <= j < i ==> self@.comps[j].id != id@,
        {
            if self.comps[i].id == *id {
                proof {
                    lemma_first_comp_skip(self@.comps, id@, i as int);
                }
                return Some(&self.comps[i]);
            }
        }
        proof {
            lemma_first_comp_skip(self@.comps, id@, n as int);
        }
        None
    }

    /// The competitions that have not yet taken place, in snapshot order.
    pub fn upcoming<'a>(&'a self) -> (r: Vec<&'a Competition>)
        ensures
            Seq::new(r@.len(), |i: int| r@[i]@) == upcoming_of(self@.comps),
    {
        let mut out: Vec<&'a Competition> = Vec::new();
        let n: usize = self.comps.len();
        for i in 0..n
            invariant
                n == self.comps.len(),
                Seq::new(out@.len(), |k: int| out@[k]@) =~= upcoming_of(
                    self@.comps.take(i as int),
                ),
        {
            proof {
                assert(self@.comps.take(i + 1).drop_last() =~= self@.comps.take(i as int));
            }
            if !self.comps[i].has_been {
                out.push(&self.comps[i]);
            }
            proof {
                assert(Seq::new(out@.len(), |k: int| out@[k]@) =~= upcoming_of(
                    self@.comps.take(i + 1),
                ));
            }
        }
        proof {
            assert(self@.comps.take(n as int) =~= self@.comps);
        }
        out
    }
}

} // verus!
