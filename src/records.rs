use vstd::prelude::*;

verus! {

/// Why a store operation was refused. A refused operation leaves the store as it was.
#[derive(PartialEq, Eq, Structural, Debug, Clone, Copy)]
pub enum StoreError {
    /// The operation names an entity that the store does not hold.
    ReferenceNotFound,
    /// Storage found the rows of an operation already taken by another writer; the whole
    /// operation may be run again.
    SequenceConflict,
    /// A write would break a key, a reference or a numbering limit.
    ConstraintViolation,
    /// Storage failed part way through an operation and rolled all of it back.
    PartialWriteAborted,
}

/// One tracked run through the game: the root of all its events.
#[derive(Debug)]
pub struct Playthrough {
    pub id_no: String,
    pub name: String,
    pub version: String,
    pub adventure_started: String,
}

/// A place, keyed by name and region together.
#[derive(Debug)]
pub struct Location {
    pub name: String,
    pub region: String,
}

/// A creature species, keyed by name.
#[derive(Debug)]
pub struct Species {
    pub name: String,
    pub dex_no: i32,
    pub generation: i32,
    pub type1: String,
    pub type2: Option<String>,
}

/// A trainer class, keyed by name.
#[derive(Debug)]
pub struct TrainerClass {
    pub name: String,
}

/// A trainer, keyed by name and class together.
#[derive(Debug)]
pub struct Trainer {
    pub name: String,
    pub class: String,
}

/// An item, keyed by name.
#[derive(Debug)]
pub struct Item {
    pub name: String,
}

/// A base event: number `no` within its playthrough, and where it happened.
#[derive(Debug)]
pub struct Event {
    pub playthrough_id_no: String,
    pub no: i32,
    pub location_name: String,
    pub location_region: String,
}

/// The typed payload of a battle.
#[derive(Debug)]
pub struct BattleEvent {
    pub battle_type: String,
    pub opponent1_name: String,
    pub opponent1_class: String,
    pub opponent2_name: Option<String>,
    pub opponent2_class: Option<String>,
    pub partner_name: Option<String>,
    pub partner_class: Option<String>,
    pub round: i32,
    pub lost: bool,
}

/// The closed set of event kinds.
#[derive(Debug)]
pub enum EventPayload {
    Catch { catch_type: String },
    Battle(BattleEvent),
    ItemUse { item: String },
}

/// The payload attached to the event `no` of a playthrough.
#[derive(Debug)]
pub struct EventVariant {
    pub playthrough_id_no: String,
    pub no: i32,
    pub payload: EventPayload,
}

/// The facts of a roster member fixed when it was caught.
#[derive(Debug)]
pub struct TeamMember {
    pub playthrough_id_no: String,
    pub slot: i32,
    pub nickname: Option<String>,
    pub caught_date: String,
    pub caught_location_name: String,
    pub caught_location_region: String,
    pub caught_species_name: String,
    pub caught_level: i32,
    pub gender: String,
    pub ball: String,
}

/// A delta to be appended to a member's change stream; an absent field means no change.
#[derive(Debug)]
pub struct InsertTeamMemberChange {
    pub event_no: i32,
    pub team_member_playthrough_id_no: String,
    pub team_member_slot: i32,
    pub level: Option<i32>,
    pub species_name: Option<String>,
}

/// A stored delta: `id` gives the order of insertion.
#[derive(Debug)]
pub struct TeamMemberChange {
    pub id: i32,
    pub team_member_playthrough_id_no: String,
    pub team_member_slot: i32,
    pub event_no: i32,
    pub level: Option<i32>,
    pub species_name: Option<String>,
}

/// What a roster member looks like at some point of its history.
#[derive(Debug)]
pub struct RosterState {
    pub level: i32,
    pub species: String,
}

pub fn copy_opt_string(s: &Option<String>) -> (r: Option<String>)
    ensures
        r == *s,
{
    match s {
        Some(v) => Some(v.clone()),
        None => None,
    }
}

pub fn opt_str_to_string(s: Option<&str>) -> (r: Option<String>)
    ensures
        s is None <==> r is None,
        s is Some ==> r->Some_0@ == s->Some_0@,
{
    match s {
        Some(v) => Some(v.to_owned()),
        None => None,
    }
}

impl Playthrough {
    pub fn copy(&self) -> (r: Self)
        ensures
            r == *self,
    {
        Playthrough {
            id_no: self.id_no.clone(),
            name: self.name.clone(),
            version: self.version.clone(),
            adventure_started: self.adventure_started.clone(),
        }
    }
}

impl Location {
    pub fn copy(&self) -> (r: Self)
        ensures
            r == *self,
    {
        Location { name: self.name.clone(), region: self.region.clone() }
    }
}

impl Species {
    pub fn copy(&self) -> (r: Self)
        ensures
            r == *self,
    {
        Species {
            name: self.name.clone(),
            dex_no: self.dex_no,
            generation: self.generation,
            type1: self.type1.clone(),
            type2: copy_opt_string(&self.type2),
        }
    }
}

impl TrainerClass {
    pub fn copy(&self) -> (r: Self)
        ensures
            r == *self,
    {
        TrainerClass { name: self.name.clone() }
    }
}

impl Trainer {
    pub fn copy(&self) -> (r: Self)
        ensures
            r == *self,
    {
        Trainer { name: self.name.clone(), class: self.class.clone() }
    }
}

impl Item {
    pub fn copy(&self) -> (r: Self)
        ensures
            r == *self,
    {
        Item { name: self.name.clone() }
    }
}

impl Event {
    pub fn copy(&self) -> (r: Self)
        ensures
            r == *self,
    {
        Event {
            playthrough_id_no: self.playthrough_id_no.clone(),
            no: self.no,
            location_name: self.location_name.clone(),
            location_region: self.location_region.clone(),
        }
    }
}

impl TeamMember {
    pub fn copy(&self) -> (r: Self)
        ensures
            r == *self,
    {
        TeamMember {
            playthrough_id_no: self.playthrough_id_no.clone(),
            slot: self.slot,
            nickname: copy_opt_string(&self.nickname),
            caught_date: self.caught_date.clone(),
            caught_location_name: self.caught_location_name.clone(),
            caught_location_region: self.caught_location_region.clone(),
            caught_species_name: self.caught_species_name.clone(),
            caught_level: self.caught_level,
            gender: self.gender.clone(),
            ball: self.ball.clone(),
        }
    }
}

impl TeamMemberChange {
    pub fn copy(&self) -> (r: Self)
        ensures
            r == *self,
    {
        TeamMemberChange {
            id: self.id,
            team_member_playthrough_id_no: self.team_member_playthrough_id_no.clone(),
            team_member_slot: self.team_member_slot,
            event_no: self.event_no,
            level: self.level,
            species_name: copy_opt_string(&self.species_name),
        }
    }
}

} // verus!
