use vstd::prelude::*;
use crate::log::find_event;
use crate::projection::{find_member, projected_state, projection_at_catch_is_baseline};
use crate::records::{
    opt_str_to_string, BattleEvent, Event, EventPayload, InsertTeamMemberChange, Item, Location,
    Playthrough, Species, StoreError, TeamMember, TeamMemberChange, Trainer,
};
use crate::registry::{find_item, find_location, find_playthrough, find_species, find_trainer};
use crate::store::{
    count_of, has_event, has_item, has_location, has_member, has_playthrough, has_species, has_trainer,
    registry_unchanged, EventStore,
};

verus! {

/// The row that appending `c` as the next delta of `cs` adds.
pub open spec fn change_row(cs: Seq<TeamMemberChange>, c: InsertTeamMemberChange) -> TeamMemberChange {
    TeamMemberChange {
        id: (cs.len() + 1) as i32,
        team_member_playthrough_id_no: c.team_member_playthrough_id_no,
        team_member_slot: c.team_member_slot,
        event_no: c.event_no,
        level: c.level,
        species_name: c.species_name,
    }
}

impl EventStore {
    fn push_change(&mut self, c: TeamMemberChange)
        requires
            old(self).wf(),
            c.id == old(self).changes@.len() + 1,
            c.level is Some || c.species_name is Some,
            has_event(old(self).events@, c.team_member_playthrough_id_no@, c.event_no),
            has_member(old(self).team_members@, c.team_member_playthrough_id_no@, c.team_member_slot),
        ensures
            final(self).wf(),
            final(self).changes@ == old(self).changes@.push(c),
            registry_unchanged(*old(self), *final(self)),
            final(self).playthroughs == old(self).playthroughs,
            final(self).events == old(self).events,
            final(self).variants == old(self).variants,
            final(self).team_members == old(self).team_members,
    {
        let ghost before = self.changes@;
        self.changes.push(c);
        proof {
            assert forall|i: int| 0 <= i < self.changes@.len() implies {
                let d = #[trigger] self.changes@[i];
                &&& d.id == i + 1
                &&& d.level is Some || d.species_name is Some
                &&& has_event(self.events@, d.team_member_playthrough_id_no@, d.event_no)
                &&& has_member(self.team_members@, d.team_member_playthrough_id_no@, d.team_member_slot)
            } by {
                if i < before.len() {
                    assert(self.changes@[i] == before[i]);
                }
            }
        }
    }

    fn push_member(&mut self, m: TeamMember)
        requires
            old(self).wf(),
            !has_member(old(self).team_members@, m.playthrough_id_no@, m.slot),
        ensures
            final(self).wf(),
            final(self).team_members@ == old(self).team_members@.push(m),
            registry_unchanged(*old(self), *final(self)),
            final(self).playthroughs == old(self).playthroughs,
            final(self).events == old(self).events,
            final(self).variants == old(self).variants,
            final(self).changes == old(self).changes,
    {
        let ghost before = self.team_members@;
        self.team_members.push(m);
        proof {
            let ms = self.team_members@;
            assert forall|i: int, j: int| 0 <= i < j < ms.len() implies !(#[trigger] ms[i].playthrough_id_no@
                == #[trigger] ms[j].playthrough_id_no@ && ms[i].slot == ms[j].slot) by {
                assert(ms[i] == before[i] || i == before.len());
                if j == before.len() {
                    assert(ms[i] == before[i]);
                }
            }
            assert forall|i: int| 0 <= i < self.changes@.len() implies has_member(
                ms,
                (#[trigger] self.changes@[i]).team_member_playthrough_id_no@,
                self.changes@[i].team_member_slot,
            ) by {
                let d = self.changes@[i];
                let w = choose|w: int|
                    0 <= w < before.len() && #[trigger] before[w].playthrough_id_no@ == d.team_member_playthrough_id_no@
                        && before[w].slot == d.team_member_slot;
                assert(ms[w] == before[w]);
            }
        }
    }
}

/// Appends a delta to the change stream. A delta that sets neither level nor species is
/// refused; so is one whose event or roster member the store does not hold.
pub fn append_change(store: &mut EventStore, change: InsertTeamMemberChange) -> (r: Result<
    TeamMemberChange,
    StoreError,
>)
    requires
        old(store).wf(),
    ensures
        final(store).wf(),
        change.level is None && change.species_name is None ==> r == Err::<TeamMemberChange, StoreError>(
            StoreError::ConstraintViolation,
        ),
        (change.level is Some || change.species_name is Some) ==> {
            let pt = change.team_member_playthrough_id_no@;
            &&& !(has_event(old(store).events@, pt, change.event_no) && has_member(
                old(store).team_members@,
                pt,
                change.team_member_slot,
            )) <==> r == Err::<TeamMemberChange, StoreError>(StoreError::ReferenceNotFound)
        },
        (change.level is Some || change.species_name is Some) && has_event(
            old(store).events@,
            change.team_member_playthrough_id_no@,
            change.event_no,
        ) && has_member(old(store).team_members@, change.team_member_playthrough_id_no@, change.team_member_slot)
            && old(store).changes@.len() >= i32::MAX ==> r == Err::<TeamMemberChange, StoreError>(
            StoreError::ConstraintViolation,
        ),
        r is Err ==> *final(store) == *old(store),
        r is Ok <==> {
            &&& change.level is Some || change.species_name is Some
            &&& has_event(old(store).events@, change.team_member_playthrough_id_no@, change.event_no)
            &&& has_member(old(store).team_members@, change.team_member_playthrough_id_no@, change.team_member_slot)
            &&& old(store).changes@.len() < i32::MAX
        },
        r is Ok ==> r->Ok_0 == change_row(old(store).changes@, change) && final(store).changes@
            == old(store).changes@.push(r->Ok_0),
        registry_unchanged(*old(store), *final(store)),
        final(store).playthroughs == old(store).playthroughs,
        final(store).events == old(store).events,
        final(store).variants == old(store).variants,
        final(store).team_members == old(store).team_members,
{
    if change.level.is_none() && change.species_name.is_none() {
        return Err(StoreError::ConstraintViolation);
    }
    if !find_event(&store.events, &change.team_member_playthrough_id_no, change.event_no) || find_member(
        &store.team_members,
        &change.team_member_playthrough_id_no,
        change.team_member_slot,
    ).is_none() {
        return Err(StoreError::ReferenceNotFound);
    }
    if store.changes.len() >= i32::MAX as usize {
        return Err(StoreError::ConstraintViolation);
    }
    let row = TeamMemberChange {
        id: (store.changes.len() + 1) as i32,
        team_member_playthrough_id_no: change.team_member_playthrough_id_no,
        team_member_slot: change.team_member_slot,
        event_no: change.event_no,
        level: change.level,
        species_name: change.species_name,
    };
    let out = row.copy();
    store.push_change(row);
    Ok(out)
}

/// Catches a creature into slot `slot` of `playthrough`, as one write: a new event with a
/// catch payload, the member's catch-time baseline, and a first delta that carries the caught
/// level and species. The playthrough, location and species must be in the store and the
/// slot free; when anything is refused, nothing is written.
pub fn catch_pokemon(
    store: &mut EventStore,
    playthrough: &Playthrough,
    slot: &i32,
    species: &Species,
    nickname: Option<&str>,
    catch_type: &str,
    caught_date: &str,
    caught_location: &Location,
    caught_level: &i32,
    gender: &str,
    ball: &str,
) -> (r: Result<TeamMember, StoreError>)
    requires
        old(store).wf(),
    ensures
        final(store).wf(),
        registry_unchanged(*old(store), *final(store)),
        final(store).playthroughs == old(store).playthroughs,
        ({
            let pt = playthrough.id_no@;
            let found = has_playthrough(old(store).playthroughs@, pt) && has_location(
                old(store).locations@,
                caught_location.name@,
                caught_location.region@,
            ) && has_species(old(store).species@, species.name@);
            let room = !has_member(old(store).team_members@, pt, *slot) && count_of(old(store).events@, pt)
                < i32::MAX && old(store).changes@.len() < i32::MAX;
            &&& !found <==> r == Err::<TeamMember, StoreError>(StoreError::ReferenceNotFound)
            &&& found && !room <==> r == Err::<TeamMember, StoreError>(StoreError::ConstraintViolation)
            &&& r is Ok <==> found && room
        }),
        r is Err ==> *final(store) == *old(store),
        r is Ok ==> {
            let m = r->Ok_0;
            let e = final(store).events@.last();
            let c = final(store).changes@.last();
            &&& m.playthrough_id_no@ == playthrough.id_no@
            &&& m.slot == *slot
            &&& (m.nickname is None <==> nickname is None)
            &&& (nickname is Some ==> m.nickname->Some_0@ == nickname->Some_0@)
            &&& m.caught_date@ == caught_date@
            &&& m.caught_location_name == caught_location.name
            &&& m.caught_location_region == caught_location.region
            &&& m.caught_species_name == species.name
            &&& m.caught_level == *caught_level
            &&& m.gender@ == gender@
            &&& m.ball@ == ball@
            &&& final(store).team_members@ == old(store).team_members@.push(m)
            &&& e.playthrough_id_no@ == playthrough.id_no@
            &&& e.no == count_of(old(store).events@, playthrough.id_no@) + 1
            &&& e.location_name == caught_location.name
            &&& e.location_region == caught_location.region
            &&& final(store).events@ == old(store).events@.push(e)
            &&& final(store).variants@.drop_last() == old(store).variants@
            &&& final(store).variants@.len() == old(store).variants@.len() + 1
            &&& final(store).variants@.last().playthrough_id_no@ == playthrough.id_no@
            &&& final(store).variants@.last().no == e.no
            &&& final(store).variants@.last().payload is Catch
            &&& final(store).variants@.last().payload->catch_type@ == catch_type@
            &&& final(store).changes@ == old(store).changes@.push(c)
            &&& c.id == old(store).changes@.len() + 1
            &&& c.team_member_playthrough_id_no@ == playthrough.id_no@
            &&& c.team_member_slot == *slot
            &&& c.event_no == e.no
            &&& c.level == Some(*caught_level)
            &&& c.species_name == Some(species.name)
            &&& projected_state(m, final(store).changes@, Some(e.no)) == (*caught_level, species.name@)
        },
{
    let pt = &playthrough.id_no;
    if !find_playthrough(&store.playthroughs, pt) || find_location(
        &store.locations,
        &caught_location.name,
        &caught_location.region,
    ).is_none() || find_species(&store.species, &species.name).is_none() {
        return Err(StoreError::ReferenceNotFound);
    }
    if find_member(&store.team_members, pt, *slot).is_some() || store.changes.len() >= i32::MAX as usize {
        return Err(StoreError::ConstraintViolation);
    }
    let payload = EventPayload::Catch { catch_type: catch_type.to_owned() };
    let e = match store.append_event(pt, &caught_location.name, &caught_location.region, payload) {
        Ok(e) => e,
        Err(err) => return Err(err),
    };
    let m = TeamMember {
        playthrough_id_no: pt.clone(),
        slot: *slot,
        nickname: opt_str_to_string(nickname),
        caught_date: caught_date.to_owned(),
        caught_location_name: caught_location.name.clone(),
        caught_location_region: caught_location.region.clone(),
        caught_species_name: species.name.clone(),
        caught_level: *caught_level,
        gender: gender.to_owned(),
        ball: ball.to_owned(),
    };
    store.push_member(m.copy());
    proof {
        assert(store.events@.last() == e);
        assert(store.team_members@.last() == m);
        let l = store.team_members@.len() - 1;
        assert(store.team_members@[l].playthrough_id_no@ == pt@ && store.team_members@[l].slot == *slot);
    }
    let c = TeamMemberChange {
        id: (store.changes.len() + 1) as i32,
        team_member_playthrough_id_no: pt.clone(),
        team_member_slot: *slot,
        event_no: e.no,
        level: Some(*caught_level),
        species_name: Some(species.name.clone()),
    };
    store.push_change(c);
    proof {
        let cs = store.changes@;
        let k = cs.len() - 1;
        assert(cs[k].event_no == e.no);
        projection_at_catch_is_baseline(m, cs, k);
    }
    Ok(m)
}

/// Records a battle: a new event at `location` with a battle payload. The playthrough, the
/// location and every trainer named must be in the store; when anything is refused,
/// nothing is written.
pub fn create_battle(
    store: &mut EventStore,
    playthrough: &Playthrough,
    location: &Location,
    opponent1: &Trainer,
    opponent2: Option<&Trainer>,
    partner: Option<&Trainer>,
    battle_type: &str,
    round: &i32,
    lost: &bool,
) -> (r: Result<Event, StoreError>)
    requires
        old(store).wf(),
    ensures
        final(store).wf(),
        registry_unchanged(*old(store), *final(store)),
        final(store).playthroughs == old(store).playthroughs,
        final(store).team_members == old(store).team_members,
        final(store).changes == old(store).changes,
        ({
            let pt = playthrough.id_no@;
            let ts = old(store).trainers@;
            let found = has_playthrough(old(store).playthroughs@, pt) && has_location(
                old(store).locations@,
                location.name@,
                location.region@,
            ) && has_trainer(ts, opponent1.name@, opponent1.class@) && (opponent2 is None || has_trainer(
                ts,
                opponent2->Some_0.name@,
                opponent2->Some_0.class@,
            )) && (partner is None || has_trainer(ts, partner->Some_0.name@, partner->Some_0.class@));
            &&& !found <==> r == Err::<Event, StoreError>(StoreError::ReferenceNotFound)
            &&& found && count_of(old(store).events@, pt) >= i32::MAX <==> r == Err::<Event, StoreError>(
                StoreError::ConstraintViolation,
            )
            &&& r is Ok <==> found && count_of(old(store).events@, pt) < i32::MAX
        }),
        r is Err ==> *final(store) == *old(store),
        r is Ok ==> {
            let e = r->Ok_0;
            let v = final(store).variants@.last();
            &&& e.playthrough_id_no@ == playthrough.id_no@
            &&& e.no == count_of(old(store).events@, playthrough.id_no@) + 1
            &&& e.location_name == location.name
            &&& e.location_region == location.region
            &&& final(store).events@ == old(store).events@.push(e)
            &&& final(store).variants@.drop_last() == old(store).variants@
            &&& final(store).variants@.len() == old(store).variants@.len() + 1
            &&& v.playthrough_id_no@ == playthrough.id_no@
            &&& v.no == e.no
            &&& v.payload is Battle
            &&& v.payload->Battle_0.battle_type@ == battle_type@
            &&& v.payload->Battle_0.opponent1_name == opponent1.name
            &&& v.payload->Battle_0.opponent1_class == opponent1.class
            &&& v.payload->Battle_0.opponent2_name == (match opponent2 {
                Some(t) => Some(t.name),
                None => None,
            })
            &&& v.payload->Battle_0.opponent2_class == (match opponent2 {
                Some(t) => Some(t.class),
                None => None,
            })
            &&& v.payload->Battle_0.partner_name == (match partner {
                Some(t) => Some(t.name),
                None => None,
            })
            &&& v.payload->Battle_0.partner_class == (match partner {
                Some(t) => Some(t.class),
                None => None,
            })
            &&& v.payload->Battle_0.round == *round
            &&& v.payload->Battle_0.lost == *lost
        },
{
    let pt = &playthrough.id_no;
    let ts = &store.trainers;
    let found = find_playthrough(&store.playthroughs, pt) && find_location(
        &store.locations,
        &location.name,
        &location.region,
    ).is_some() && find_trainer(ts, &opponent1.name, &opponent1.class).is_some() && match opponent2 {
        Some(t) => find_trainer(ts, &t.name, &t.class).is_some(),
        None => true,
    } && match partner {
        Some(t) => find_trainer(ts, &t.name, &t.class).is_some(),
        None => true,
    };
    if !found {
        return Err(StoreError::ReferenceNotFound);
    }
    let payload = EventPayload::Battle(
        BattleEvent {
            battle_type: battle_type.to_owned(),
            opponent1_name: opponent1.name.clone(),
            opponent1_class: opponent1.class.clone(),
            opponent2_name: match opponent2 {
                Some(t) => Some(t.name.clone()),
                None => None,
            },
            opponent2_class: match opponent2 {
                Some(t) => Some(t.class.clone()),
                None => None,
            },
            partner_name: match partner {
                Some(t) => Some(t.name.clone()),
                None => None,
            },
            partner_class: match partner {
                Some(t) => Some(t.class.clone()),
                None => None,
            },
            round: *round,
            lost: *lost,
        },
    );
    store.append_event(pt, &location.name, &location.region, payload)
}

/// Records that `item` was used: a new event at the place of `event`, in its playthrough,
/// with an item-use payload. The item, the playthrough and the place must be in the store;
/// when anything is refused, nothing is written.
pub fn use_item(store: &mut EventStore, event: &Event, item: &Item) -> (r: Result<Event, StoreError>)
    requires
        old(store).wf(),
    ensures
        final(store).wf(),
        registry_unchanged(*old(store), *final(store)),
        final(store).playthroughs == old(store).playthroughs,
        final(store).team_members == old(store).team_members,
        final(store).changes == old(store).changes,
        ({
            let pt = event.playthrough_id_no@;
            let found = has_item(old(store).items@, item.name@) && has_playthrough(old(store).playthroughs@, pt)
                && has_location(old(store).locations@, event.location_name@, event.location_region@);
            &&& !found <==> r == Err::<Event, StoreError>(StoreError::ReferenceNotFound)
            &&& found && count_of(old(store).events@, pt) >= i32::MAX <==> r == Err::<Event, StoreError>(
                StoreError::ConstraintViolation,
            )
            &&& r is Ok <==> found && count_of(old(store).events@, pt) < i32::MAX
        }),
        r is Err ==> *final(store) == *old(store),
        r is Ok ==> {
            let e = r->Ok_0;
            let v = final(store).variants@.last();
            &&& e.playthrough_id_no@ == event.playthrough_id_no@
            &&& e.no == count_of(old(store).events@, event.playthrough_id_no@) + 1
            &&& e.location_name == event.location_name
            &&& e.location_region == event.location_region
            &&& final(store).events@ == old(store).events@.push(e)
            &&& final(store).variants@.drop_last() == old(store).variants@
            &&& final(store).variants@.len() == old(store).variants@.len() + 1
            &&& v.playthrough_id_no@ == event.playthrough_id_no@
            &&& v.no == e.no
            &&& v.payload is ItemUse
            &&& v.payload->item == item.name
        },
{
    let pt = &event.playthrough_id_no;
    if find_item(&store.items, &item.name).is_none() || !find_playthrough(&store.playthroughs, pt)
        || find_location(&store.locations, &event.location_name, &event.location_region).is_none() {
        return Err(StoreError::ReferenceNotFound);
    }
    let payload = EventPayload::ItemUse { item: item.name.clone() };
    store.append_event(pt, &event.location_name, &event.location_region, payload)
}

/// Records that `team_member` reached `level` on `battle`: a delta that sets the level and
/// leaves the species. The event must be one of the member's playthrough, and both must be
/// in the store.
pub fn level_up(store: &mut EventStore, battle: &Event, team_member: &TeamMember, level: &i32) -> (r: Result<
    (),
    StoreError,
>)
    requires
        old(store).wf(),
    ensures
        final(store).wf(),
        ({
            let pt = team_member.playthrough_id_no@;
            let found = battle.playthrough_id_no@ == pt && has_event(old(store).events@, pt, battle.no)
                && has_member(old(store).team_members@, pt, team_member.slot);
            &&& !found <==> r == Err::<(), StoreError>(StoreError::ReferenceNotFound)
            &&& found && old(store).changes@.len() >= i32::MAX <==> r == Err::<(), StoreError>(
                StoreError::ConstraintViolation,
            )
            &&& r is Ok <==> found && old(store).changes@.len() < i32::MAX
        }),
        r is Err ==> *final(store) == *old(store),
        r is Ok ==> final(store).changes@ == old(store).changes@.push(
            TeamMemberChange {
                id: (old(store).changes@.len() + 1) as i32,
                team_member_playthrough_id_no: team_member.playthrough_id_no,
                team_member_slot: team_member.slot,
                event_no: battle.no,
                level: Some(*level),
                species_name: None,
            },
        ),
        registry_unchanged(*old(store), *final(store)),
        final(store).playthroughs == old(store).playthroughs,
        final(store).events == old(store).events,
        final(store).variants == old(store).variants,
        final(store).team_members == old(store).team_members,
{
    if battle.playthrough_id_no != team_member.playthrough_id_no {
        return Err(StoreError::ReferenceNotFound);
    }
    let change = InsertTeamMemberChange {
        event_no: battle.no,
        team_member_playthrough_id_no: team_member.playthrough_id_no.clone(),
        team_member_slot: team_member.slot,
        level: Some(*level),
        species_name: None,
    };
    match append_change(store, change) {
        Ok(_) => Ok(()),
        Err(e) => Err(e),
    }
}

/// Records that `team_member` evolved into `species` on `event`: a delta that sets the
/// species and leaves the level. The event must be one of the member's playthrough, and
/// event, member and species must be in the store.
pub fn evolve(store: &mut EventStore, event: &Event, team_member: &TeamMember, species: &Species) -> (r: Result<
    (),
    StoreError,
>)
    requires
        old(store).wf(),
    ensures
        final(store).wf(),
        ({
            let pt = team_member.playthrough_id_no@;
            let found = has_species(old(store).species@, species.name@) && event.playthrough_id_no@ == pt
                && has_event(old(store).events@, pt, event.no) && has_member(
                old(store).team_members@,
                pt,
                team_member.slot,
            );
            &&& !found <==> r == Err::<(), StoreError>(StoreError::ReferenceNotFound)
            &&& found && old(store).changes@.len() >= i32::MAX <==> r == Err::<(), StoreError>(
                StoreError::ConstraintViolation,
            )
            &&& r is Ok <==> found && old(store).changes@.len() < i32::MAX
        }),
        r is Err ==> *final(store) == *old(store),
        r is Ok ==> final(store).changes@ == old(store).changes@.push(
            TeamMemberChange {
                id: (old(store).changes@.len() + 1) as i32,
                team_member_playthrough_id_no: team_member.playthrough_id_no,
                team_member_slot: team_member.slot,
                event_no: event.no,
                level: None,
                species_name: Some(species.name),
            },
        ),
        registry_unchanged(*old(store), *final(store)),
        final(store).playthroughs == old(store).playthroughs,
        final(store).events == old(store).events,
        final(store).variants == old(store).variants,
        final(store).team_members == old(store).team_members,
{
    if find_species(&store.species, &species.name).is_none()
        || event.playthrough_id_no != team_member.playthrough_id_no {
        return Err(StoreError::ReferenceNotFound);
    }
    let change = InsertTeamMemberChange {
        event_no: event.no,
        team_member_playthrough_id_no: team_member.playthrough_id_no.clone(),
        team_member_slot: team_member.slot,
        level: None,
        species_name: Some(species.name.clone()),
    };
    match append_change(store, change) {
        Ok(_) => Ok(()),
        Err(e) => Err(e),
    }
}

} // verus!
