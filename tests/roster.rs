use playthrough_log::mutation::{append_change, catch_pokemon, create_battle, evolve, level_up, use_item};
use playthrough_log::projection::project;
use playthrough_log::records::{EventPayload, InsertTeamMemberChange, Location, Playthrough, Species, StoreError, TeamMember};
use playthrough_log::registry::{
    create_item, create_location, create_playthrough, create_species, create_trainer, create_trainer_class,
};
use playthrough_log::store::EventStore;

fn setup() -> (EventStore, Playthrough, Location, Species) {
    let mut s = EventStore::new();
    let p = create_playthrough(&mut s, "P1", "Red run", "Red", "2024-01-01").unwrap();
    let l = create_location(&mut s, "Viridian Forest", "Kanto");
    let sp = create_species(&mut s, "Pikachu", &25, &1, "Electric", None);
    (s, p, l, sp)
}

fn catch_in(s: &mut EventStore, p: &Playthrough, l: &Location, sp: &Species, slot: i32, level: i32) -> TeamMember {
    catch_pokemon(s, p, &slot, sp, Some("Sparky"), "wild", "2024-01-02", l, &level, "M", "Poke Ball").unwrap()
}

#[test]
fn pikachu_levels_then_evolves() {
    let (mut s, p, l, sp) = setup();
    let m = catch_in(&mut s, &p, &l, &sp, 1, 5);
    let cls = create_trainer_class(&mut s, "Bug Catcher");
    let t = create_trainer(&mut s, "Rick", &cls).unwrap();
    let battle = create_battle(&mut s, &p, &l, &t, None, None, "single", &1, &false).unwrap();
    level_up(&mut s, &battle, &m, &10).unwrap();
    let now = project(&s, &p, &1, None).unwrap();
    assert_eq!(now.level, 10);
    assert_eq!(now.species, "Pikachu");
    let raichu = create_species(&mut s, "Raichu", &26, &1, "Electric", None);
    let stone_item = create_item(&mut s, "Thunder Stone");
    let stone = use_item(&mut s, &battle, &stone_item).unwrap();
    evolve(&mut s, &stone, &m, &raichu).unwrap();
    let now = project(&s, &p, &1, None).unwrap();
    assert_eq!(now.level, 10);
    assert_eq!(now.species, "Raichu");
    let then = project(&s, &p, &1, Some(battle.no)).unwrap();
    assert_eq!(then.level, 10);
    assert_eq!(then.species, "Pikachu");
}

#[test]
fn event_numbers_are_gapless_per_playthrough() {
    let (mut s, p, l, sp) = setup();
    let q = create_playthrough(&mut s, "P2", "Blue run", "Blue", "2024-02-01").unwrap();
    assert_eq!(s.next_event_no(&p.id_no), Some(1));
    let cls = create_trainer_class(&mut s, "Youngster");
    let t = create_trainer(&mut s, "Joey", &cls).unwrap();
    let e1 = create_battle(&mut s, &p, &l, &t, None, None, "single", &1, &false).unwrap();
    let f1 = create_battle(&mut s, &q, &l, &t, None, None, "single", &1, &true).unwrap();
    catch_in(&mut s, &p, &l, &sp, 1, 3);
    let f2 = create_battle(&mut s, &q, &l, &t, None, None, "single", &2, &false).unwrap();
    let e3 = create_battle(&mut s, &p, &l, &t, None, None, "single", &1, &false).unwrap();
    assert_eq!((e1.no, e3.no), (1, 3));
    assert_eq!((f1.no, f2.no), (1, 2));
    let nos: Vec<i32> = s.events.iter().filter(|e| e.playthrough_id_no == "P1").map(|e| e.no).collect();
    assert_eq!(nos, vec![1, 2, 3]);
    assert_eq!(s.next_event_no(&q.id_no), Some(3));
}

#[test]
fn projection_is_repeatable() {
    let (mut s, p, l, sp) = setup();
    let m = catch_in(&mut s, &p, &l, &sp, 2, 7);
    let cls = create_trainer_class(&mut s, "Lass");
    let t = create_trainer(&mut s, "Anne", &cls).unwrap();
    let b = create_battle(&mut s, &p, &l, &t, None, None, "single", &1, &false).unwrap();
    level_up(&mut s, &b, &m, &8).unwrap();
    let a = project(&s, &p, &2, None).unwrap();
    let c = project(&s, &p, &2, None).unwrap();
    assert_eq!((a.level, a.species.clone()), (c.level, c.species.clone()));
    assert_eq!((a.level, a.species), (8, "Pikachu".to_string()));
}

#[test]
fn projection_at_catch_event_is_baseline() {
    let (mut s, p, l, sp) = setup();
    let m = catch_in(&mut s, &p, &l, &sp, 1, 5);
    let cls = create_trainer_class(&mut s, "Hiker");
    let t = create_trainer(&mut s, "Marcos", &cls).unwrap();
    let b = create_battle(&mut s, &p, &l, &t, None, None, "single", &1, &false).unwrap();
    level_up(&mut s, &b, &m, &9).unwrap();
    let caught = project(&s, &p, &1, Some(1)).unwrap();
    assert_eq!((caught.level, caught.species), (5, "Pikachu".to_string()));
}

#[test]
fn get_or_create_is_idempotent() {
    let (mut s, _p, _l, _sp) = setup();
    let a = create_location(&mut s, "Route 1", "Kanto");
    let b = create_location(&mut s, "Route 1", "Kanto");
    assert_eq!((a.name, a.region), (b.name, b.region));
    assert_eq!(s.locations.len(), 2);
    let x = create_species(&mut s, "Pikachu", &99, &9, "Water", Some("Fire"));
    assert_eq!((x.dex_no, x.generation, x.type1.as_str(), x.type2), (25, 1, "Electric", None));
    assert_eq!(s.species.len(), 1);
    let c1 = create_trainer_class(&mut s, "Ace Trainer");
    let c2 = create_trainer_class(&mut s, "Ace Trainer");
    assert_eq!(c1.name, c2.name);
    assert_eq!(s.trainer_classes.len(), 1);
    create_trainer(&mut s, "Blue", &c1).unwrap();
    create_trainer(&mut s, "Blue", &c2).unwrap();
    assert_eq!(s.trainers.len(), 1);
    create_item(&mut s, "Potion");
    create_item(&mut s, "Potion");
    assert_eq!(s.items.len(), 1);
}

#[test]
fn refused_catch_writes_nothing() {
    let (mut s, p, l, sp) = setup();
    catch_in(&mut s, &p, &l, &sp, 1, 5);
    let counts = (s.events.len(), s.variants.len(), s.team_members.len(), s.changes.len());
    let again = catch_pokemon(&mut s, &p, &1, &sp, None, "gift", "2024-01-03", &l, &6, "F", "Great Ball");
    assert_eq!(again.unwrap_err(), StoreError::ConstraintViolation);
    let ghost = Species { name: "Missingno".to_string(), dex_no: 0, generation: 1, type1: "Bird".to_string(), type2: None };
    let unknown = catch_pokemon(&mut s, &p, &2, &ghost, None, "glitch", "2024-01-03", &l, &80, "N", "Poke Ball");
    assert_eq!(unknown.unwrap_err(), StoreError::ReferenceNotFound);
    assert_eq!(counts, (s.events.len(), s.variants.len(), s.team_members.len(), s.changes.len()));
}

#[test]
fn catch_writes_event_payload_member_and_delta() {
    let (mut s, p, l, sp) = setup();
    let m = catch_in(&mut s, &p, &l, &sp, 3, 12);
    assert_eq!((m.slot, m.caught_level, m.caught_species_name.as_str()), (3, 12, "Pikachu"));
    assert_eq!(m.nickname.as_deref(), Some("Sparky"));
    assert_eq!(s.events.len(), 1);
    let v = s.variant_of(&p.id_no, 1).unwrap();
    assert!(matches!(&v.payload, EventPayload::Catch { catch_type } if catch_type == "wild"));
    let c = &s.changes[0];
    assert_eq!((c.id, c.event_no, c.level, c.species_name.as_deref()), (1, 1, Some(12), Some("Pikachu")));
    assert!(s.variant_of(&p.id_no, 2).is_none());
}

#[test]
fn empty_delta_is_refused() {
    let (mut s, p, l, sp) = setup();
    catch_in(&mut s, &p, &l, &sp, 1, 5);
    let empty = InsertTeamMemberChange {
        event_no: 1,
        team_member_playthrough_id_no: "P1".to_string(),
        team_member_slot: 1,
        level: None,
        species_name: None,
    };
    assert_eq!(append_change(&mut s, empty).unwrap_err(), StoreError::ConstraintViolation);
    let dangling = InsertTeamMemberChange {
        event_no: 9,
        team_member_playthrough_id_no: "P1".to_string(),
        team_member_slot: 1,
        level: Some(6),
        species_name: None,
    };
    assert_eq!(append_change(&mut s, dangling).unwrap_err(), StoreError::ReferenceNotFound);
    let ok = InsertTeamMemberChange {
        event_no: 1,
        team_member_playthrough_id_no: "P1".to_string(),
        team_member_slot: 1,
        level: Some(6),
        species_name: None,
    };
    let row = append_change(&mut s, ok).unwrap();
    assert_eq!((row.id, row.level), (2, Some(6)));
    assert_eq!(s.changes.len(), 2);
}

#[test]
fn deltas_fold_by_event_number_then_insertion() {
    let (mut s, p, l, sp) = setup();
    let m = catch_in(&mut s, &p, &l, &sp, 1, 5);
    let cls = create_trainer_class(&mut s, "Rival");
    let t = create_trainer(&mut s, "Gary", &cls).unwrap();
    let b2 = create_battle(&mut s, &p, &l, &t, None, None, "single", &1, &false).unwrap();
    let b3 = create_battle(&mut s, &p, &l, &t, None, None, "single", &2, &false).unwrap();
    level_up(&mut s, &b3, &m, &12).unwrap();
    level_up(&mut s, &b2, &m, &10).unwrap();
    level_up(&mut s, &b2, &m, &11).unwrap();
    assert_eq!(project(&s, &p, &1, None).unwrap().level, 12);
    assert_eq!(project(&s, &p, &1, Some(b2.no)).unwrap().level, 11);
}

#[test]
fn unknown_references_are_refused() {
    let (mut s, p, l, sp) = setup();
    let m = catch_in(&mut s, &p, &l, &sp, 1, 5);
    assert_eq!(project(&s, &p, &4, None).unwrap_err(), StoreError::ReferenceNotFound);
    let cls = create_trainer_class(&mut s, "Gym Leader");
    let stranger = playthrough_log::records::TrainerClass { name: "Ghost".to_string() };
    assert_eq!(create_trainer(&mut s, "Brock", &stranger).unwrap_err(), StoreError::ReferenceNotFound);
    let t = create_trainer(&mut s, "Brock", &cls).unwrap();
    let b = create_battle(&mut s, &p, &l, &t, None, None, "single", &1, &false).unwrap();
    let other = TeamMember { slot: 6, ..m.copy() };
    assert_eq!(level_up(&mut s, &b, &other, &7).unwrap_err(), StoreError::ReferenceNotFound);
    let fake = playthrough_log::records::Item { name: "Master Ball".to_string() };
    assert_eq!(use_item(&mut s, &b, &fake).unwrap_err(), StoreError::ReferenceNotFound);
    assert_eq!(create_playthrough(&mut s, "P1", "again", "Red", "2024-03-01").unwrap_err(), StoreError::ConstraintViolation);
}

#[test]
fn battle_payload_records_every_side() {
    let (mut s, p, l, _sp) = setup();
    let cls = create_trainer_class(&mut s, "Twins");
    let a = create_trainer(&mut s, "Amy", &cls).unwrap();
    let b = create_trainer(&mut s, "May", &cls).unwrap();
    let c = create_trainer(&mut s, "Red", &cls).unwrap();
    let e = create_battle(&mut s, &p, &l, &a, Some(&b), Some(&c), "double", &2, &true).unwrap();
    match &s.variant_of(&p.id_no, e.no).unwrap().payload {
        EventPayload::Battle(be) => {
            assert_eq!(be.opponent2_name.as_deref(), Some("May"));
            assert_eq!(be.partner_name.as_deref(), Some("Red"));
            assert_eq!((be.round, be.lost), (2, true));
        },
        _ => panic!("expected a battle payload"),
    }
}
