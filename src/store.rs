use vstd::prelude::*;
use crate::records::{Event, EventVariant, Item, Location, Playthrough, Species, TeamMember, TeamMemberChange, Trainer, TrainerClass};

verus! {

/// Every table of the record, held in memory. Rows are only ever appended.
pub struct EventStore {
    pub playthroughs: Vec<Playthrough>,
    pub locations: Vec<Location>,
    pub species: Vec<Species>,
    pub trainer_classes: Vec<TrainerClass>,
    pub trainers: Vec<Trainer>,
    pub items: Vec<Item>,
    pub events: Vec<Event>,
    pub variants: Vec<EventVariant>,
    pub team_members: Vec<TeamMember>,
    pub changes: Vec<TeamMemberChange>,
}

/// How many events of the log belong to playthrough `pt`.
pub open spec fn count_of(events: Seq<Event>, pt: Seq<char>) -> nat
    decreases events.len(),
{
    if events.len() == 0 {
        0
    } else {
        count_of(events.drop_last(), pt) + if events.last().playthrough_id_no@ == pt {
            1nat
        } else {
            0nat
        }
    }
}

/// Each event carries the number one past the count of its playthrough's earlier events.
pub open spec fn numbered(events: Seq<Event>) -> bool {
    forall|i: int|
        0 <= i < events.len() ==> #[trigger] events[i].no == count_of(events.take(i), events[i].playthrough_id_no@) + 1
}

pub open spec fn has_playthrough(ps: Seq<Playthrough>, id: Seq<char>) -> bool {
    exists|i: int| 0 <= i < ps.len() && #[trigger] ps[i].id_no@ == id
}

pub open spec fn has_location(ls: Seq<Location>, name: Seq<char>, region: Seq<char>) -> bool {
    exists|i: int| 0 <= i < ls.len() && #[trigger] ls[i].name@ == name && ls[i].region@ == region
}

pub open spec fn has_species(ss: Seq<Species>, name: Seq<char>) -> bool {
    exists|i: int| 0 <= i < ss.len() && #[trigger] ss[i].name@ == name
}

pub open spec fn has_trainer_class(cs: Seq<TrainerClass>, name: Seq<char>) -> bool {
    exists|i: int| 0 <= i < cs.len() && #[trigger] cs[i].name@ == name
}

pub open spec fn has_trainer(ts: Seq<Trainer>, name: Seq<char>, class: Seq<char>) -> bool {
    exists|i: int| 0 <= i < ts.len() && #[trigger] ts[i].name@ == name && ts[i].class@ == class
}

pub open spec fn has_item(its: Seq<Item>, name: Seq<char>) -> bool {
    exists|i: int| 0 <= i < its.len() && #[trigger] its[i].name@ == name
}

pub open spec fn has_event(es: Seq<Event>, pt: Seq<char>, no: i32) -> bool {
    exists|i: int| 0 <= i < es.len() && #[trigger] es[i].playthrough_id_no@ == pt && es[i].no == no
}

pub open spec fn has_member(ms: Seq<TeamMember>, pt: Seq<char>, slot: i32) -> bool {
    exists|i: int| 0 <= i < ms.len() && #[trigger] ms[i].playthrough_id_no@ == pt && ms[i].slot == slot
}

pub open spec fn has_variant(vs: Seq<EventVariant>, pt: Seq<char>, no: i32) -> bool {
    exists|i: int| 0 <= i < vs.len() && #[trigger] vs[i].playthrough_id_no@ == pt && vs[i].no == no
}

pub open spec fn unique_playthroughs(ps: Seq<Playthrough>) -> bool {
    forall|i: int, j: int| 0 <= i < j < ps.len() ==> #[trigger] ps[i].id_no@ != #[trigger] ps[j].id_no@
}

pub open spec fn unique_locations(ls: Seq<Location>) -> bool {
    forall|i: int, j: int|
        0 <= i < j < ls.len() ==> !(#[trigger] ls[i].name@ == #[trigger] ls[j].name@ && ls[i].region@
            == ls[j].region@)
}

pub open spec fn unique_species(ss: Seq<Species>) -> bool {
    forall|i: int, j: int| 0 <= i < j < ss.len() ==> #[trigger] ss[i].name@ != #[trigger] ss[j].name@
}

pub open spec fn unique_trainer_classes(cs: Seq<TrainerClass>) -> bool {
    forall|i: int, j: int| 0 <= i < j < cs.len() ==> #[trigger] cs[i].name@ != #[trigger] cs[j].name@
}

pub open spec fn unique_trainers(ts: Seq<Trainer>) -> bool {
    forall|i: int, j: int|
        0 <= i < j < ts.len() ==> !(#[trigger] ts[i].name@ == #[trigger] ts[j].name@ && ts[i].class@
            == ts[j].class@)
}

pub open spec fn unique_items(its: Seq<Item>) -> bool {
    forall|i: int, j: int| 0 <= i < j < its.len() ==> #[trigger] its[i].name@ != #[trigger] its[j].name@
}

/// `b` holds the same log, payloads, roster and change stream as `a`.
pub open spec fn log_unchanged(a: EventStore, b: EventStore) -> bool {
    &&& b.playthroughs == a.playthroughs
    &&& b.events == a.events
    &&& b.variants == a.variants
    &&& b.team_members == a.team_members
    &&& b.changes == a.changes
}

/// `b` holds the same reference data as `a`.
pub open spec fn registry_unchanged(a: EventStore, b: EventStore) -> bool {
    &&& b.locations == a.locations
    &&& b.species == a.species
    &&& b.trainer_classes == a.trainer_classes
    &&& b.trainers == a.trainers
    &&& b.items == a.items
}

impl EventStore {
    /// The invariants of the record: a gapless numbering per playthrough, payloads and
    /// deltas that point at existing rows, and keys that are never repeated.
    pub open spec fn wf(&self) -> bool {
        &&& numbered(self.events@)
        &&& forall|i: int|
            0 <= i < self.variants@.len() ==> has_event(
                self.events@,
                #[trigger] self.variants@[i].playthrough_id_no@,
                self.variants@[i].no,
            )
        &&& forall|i: int, j: int|
            0 <= i < j < self.variants@.len() ==> !(#[trigger] self.variants@[i].playthrough_id_no@
                == #[trigger] self.variants@[j].playthrough_id_no@ && self.variants@[i].no
                == self.variants@[j].no)
        &&& forall|i: int|
            0 <= i < self.changes@.len() ==> {
                let c = #[trigger] self.changes@[i];
                &&& c.id == i + 1
                &&& c.level is Some || c.species_name is Some
                &&& has_event(self.events@, c.team_member_playthrough_id_no@, c.event_no)
                &&& has_member(self.team_members@, c.team_member_playthrough_id_no@, c.team_member_slot)
            }
        &&& forall|i: int, j: int|
            0 <= i < j < self.team_members@.len() ==> !(
            #[trigger] self.team_members@[i].playthrough_id_no@
                == #[trigger] self.team_members@[j].playthrough_id_no@
                && self.team_members@[i].slot == self.team_members@[j].slot)
        &&& unique_playthroughs(self.playthroughs@)
        &&& unique_locations(self.locations@)
        &&& unique_species(self.species@)
        &&& unique_trainer_classes(self.trainer_classes@)
        &&& unique_trainers(self.trainers@)
        &&& unique_items(self.items@)
    }

    /// An empty record.
    pub fn new() -> (r: Self)
        ensures
            r.wf(),
            r.playthroughs@.len() == 0,
            r.locations@.len() == 0,
            r.species@.len() == 0,
            r.trainer_classes@.len() == 0,
            r.trainers@.len() == 0,
            r.items@.len() == 0,
            r.events@.len() == 0,
            r.variants@.len() == 0,
            r.team_members@.len() == 0,
            r.changes@.len() == 0,
    {
        EventStore {
            playthroughs: Vec::new(),
            locations: Vec::new(),
            species: Vec::new(),
            trainer_classes: Vec::new(),
            trainers: Vec::new(),
            items: Vec::new(),
            events: Vec::new(),
            variants: Vec::new(),
            team_members: Vec::new(),
            changes: Vec::new(),
        }
    }
}

} // verus!
