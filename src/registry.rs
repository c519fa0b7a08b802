use vstd::prelude::*;
use crate::records::{opt_str_to_string, Item, Location, Playthrough, Species, StoreError, Trainer, TrainerClass};
use crate::store::{
    has_item, has_location, has_playthrough, has_species, has_trainer, has_trainer_class, log_unchanged,
    registry_unchanged, unique_items, unique_locations, unique_playthroughs, unique_species, unique_trainer_classes,
    unique_trainers, EventStore,
};

verus! {

/// The location table after a get-or-create that found or added `row`.
pub open spec fn location_get_or_create(ls: Seq<Location>, row: Location) -> Seq<Location> {
    if has_location(ls, row.name@, row.region@) {
        ls
    } else {
        ls.push(row)
    }
}

pub(crate) fn find_location(ls: &Vec<Location>, name: &String, region: &String) -> (r: Option<usize>)
    ensures
        match r {
            Some(i) => i < ls@.len() && ls@[i as int].name@ == name@ && ls@[i as int].region@ == region@,
            None => !has_location(ls@, name@, region@),
        },
{
    let mut i: usize = 0;
    while i < ls.len()
        invariant
            i <= ls@.len(),
            forall|k: int| 0 <= k < i ==> !(#[trigger] ls@[k].name@ == name@ && ls@[k].region@ == region@),
        decreases ls@.len() - i,
    {
        if ls[i].name == *name && ls[i].region == *region {
            return Some(i);
        }
        i += 1;
    }
    None
}

/// Get-or-create of a location is idempotent: a second call with the same key adds no row,
/// keeps the keys unique, and finds the very row that the first call returned.
pub proof fn location_get_or_create_idempotent(ls: Seq<Location>, first: Location, second: Location)
    requires
        unique_locations(ls),
        has_location(ls, first.name@, first.region@) ==> ls.contains(first),
        second.name@ == first.name@,
        second.region@ == first.region@,
        location_get_or_create(ls, first).contains(second),
    ensures
        unique_locations(location_get_or_create(ls, first)),
        location_get_or_create(ls, first).contains(first),
        location_get_or_create(location_get_or_create(ls, first), second) == location_get_or_create(ls, first),
        second == first,
{
    let once = location_get_or_create(ls, first);
    if !has_location(ls, first.name@, first.region@) {
        assert(once[ls.len() as int] == first);
        assert forall|i: int, j: int| 0 <= i < j < once.len() implies !(#[trigger] once[i].name@ == #[trigger] once[j].name@ && once[i].region@ == once[j].region@) by {
            if j == ls.len() {
                assert(once[i] == ls[i]);
            }
        }
    }
    assert(once.contains(first));
    let i = choose|i: int| 0 <= i < once.len() && once[i] == first;
    let j = choose|j: int| 0 <= j < once.len() && once[j] == second;
    assert(has_location(once, first.name@, first.region@));
    if i < j {
        assert(!(once[i].name@ == once[j].name@ && once[i].region@ == once[j].region@));
    } else if j < i {
        assert(!(once[j].name@ == once[i].name@ && once[j].region@ == once[i].region@));
    }
}

/// The species table after a get-or-create that found or added `row`.
pub open spec fn species_get_or_create(ls: Seq<Species>, row: Species) -> Seq<Species> {
    if has_species(ls, row.name@) {
        ls
    } else {
        ls.push(row)
    }
}

pub(crate) fn find_species(ls: &Vec<Species>, name: &String) -> (r: Option<usize>)
    ensures
        match r {
            Some(i) => i < ls@.len() && ls@[i as int].name@ == name@,
            None => !has_species(ls@, name@),
        },
{
    let mut i: usize = 0;
    while i < ls.len()
        invariant
            i <= ls@.len(),
            forall|k: int| 0 <= k < i ==> !(#[trigger] ls@[k].name@ == name@),
        decreases ls@.len() - i,
    {
        if ls[i].name == *name {
            return Some(i);
        }
        i += 1;
    }
    None
}

/// Get-or-create of a species is idempotent: a second call with the same key adds no row,
/// keeps the keys unique, and finds the very row that the first call returned.
pub proof fn species_get_or_create_idempotent(ls: Seq<Species>, first: Species, second: Species)
    requires
        unique_species(ls),
        has_species(ls, first.name@) ==> ls.contains(first),
        second.name@ == first.name@,
        species_get_or_create(ls, first).contains(second),
    ensures
        unique_species(species_get_or_create(ls, first)),
        species_get_or_create(ls, first).contains(first),
        species_get_or_create(species_get_or_create(ls, first), second) == species_get_or_create(ls, first),
        second == first,
{
    let once = species_get_or_create(ls, first);
    if !has_species(ls, first.name@) {
        assert(once[ls.len() as int] == first);
        assert forall|i: int, j: int| 0 <= i < j < once.len() implies !(#[trigger] once[i].name@ == #[trigger] once[j].name@) by {
            if j == ls.len() {
                assert(once[i] == ls[i]);
            }
        }
    }
    assert(once.contains(first));
    let i = choose|i: int| 0 <= i < once.len() && once[i] == first;
    let j = choose|j: int| 0 <= j < once.len() && once[j] == second;
    assert(has_species(once, first.name@));
    if i < j {
        assert(!(once[i].name@ == once[j].name@));
    } else if j < i {
        assert(!(once[j].name@ == once[i].name@));
    }
}

/// The trainer class table after a get-or-create that found or added `row`.
pub open spec fn trainer_class_get_or_create(ls: Seq<TrainerClass>, row: TrainerClass) -> Seq<TrainerClass> {
    if has_trainer_class(ls, row.name@) {
        ls
    } else {
        ls.push(row)
    }
}

pub(crate) fn find_trainer_class(ls: &Vec<TrainerClass>, name: &String) -> (r: Option<usize>)
    ensures
        match r {
            Some(i) => i < ls@.len() && ls@[i as int].name@ == name@,
            None => !has_trainer_class(ls@, name@),
        },
{
    let mut i: usize = 0;
    while i < ls.len()
        invariant
            i <= ls@.len(),
            forall|k: int| 0 <= k < i ==> !(#[trigger] ls@[k].name@ == name@),
        decreases ls@.len() - i,
    {
        if ls[i].name == *name {
            return Some(i);
        }
        i += 1;
    }
    None
}

/// Get-or-create of a trainer class is idempotent: a second call with the same key adds no row,
/// keeps the keys unique, and finds the very row that the first call returned.
pub proof fn trainer_class_get_or_create_idempotent(ls: Seq<TrainerClass>, first: TrainerClass, second: TrainerClass)
    requires
        unique_trainer_classes(ls),
        has_trainer_class(ls, first.name@) ==> ls.contains(first),
        second.name@ == first.name@,
        trainer_class_get_or_create(ls, first).contains(second),
    ensures
        unique_trainer_classes(trainer_class_get_or_create(ls, first)),
        trainer_class_get_or_create(ls, first).contains(first),
        trainer_class_get_or_create(trainer_class_get_or_create(ls, first), second) == trainer_class_get_or_create(ls, first),
        second == first,
{
    let once = trainer_class_get_or_create(ls, first);
    if !has_trainer_class(ls, first.name@) {
        assert(once[ls.len() as int] == first);
        assert forall|i: int, j: int| 0 <= i < j < once.len() implies !(#[trigger] once[i].name@ == #[trigger] once[j].name@) by {
            if j == ls.len() {
                assert(once[i] == ls[i]);
            }
        }
    }
    assert(once.contains(first));
    let i = choose|i: int| 0 <= i < once.len() && once[i] == first;
    let j = choose|j: int| 0 <= j < once.len() && once[j] == second;
    assert(has_trainer_class(once, first.name@));
    if i < j {
        assert(!(once[i].name@ == once[j].name@));
    } else if j < i {
        assert(!(once[j].name@ == once[i].name@));
    }
}

/// The trainer table after a get-or-create that found or added `row`.
pub open spec fn trainer_get_or_create(ls: Seq<Trainer>, row: Trainer) -> Seq<Trainer> {
    if has_trainer(ls, row.name@, row.class@) {
        ls
    } else {
        ls.push(row)
    }
}

pub(crate) fn find_trainer(ls: &Vec<Trainer>, name: &String, class: &String) -> (r: Option<usize>)
    ensures
        match r {
            Some(i) => i < ls@.len() && ls@[i as int].name@ == name@ && ls@[i as int].class@ == class@,
            None => !has_trainer(ls@, name@, class@),
        },
{
    let mut i: usize = 0;
    while i < ls.len()
        invariant
            i <= ls@.len(),
            forall|k: int| 0 <= k < i ==> !(#[trigger] ls@[k].name@ == name@ && ls@[k].class@ == class@),
        decreases ls@.len() - i,
    {
        if ls[i].name == *name && ls[i].class == *class {
            return Some(i);
        }
        i += 1;
    }
    None
}

/// Get-or-create of a trainer is idempotent: a second call with the same key adds no row,
/// keeps the keys unique, and finds the very row that the first call returned.
pub proof fn trainer_get_or_create_idempotent(ls: Seq<Trainer>, first: Trainer, second: Trainer)
    requires
        unique_trainers(ls),
        has_trainer(ls, first.name@, first.class@) ==> ls.contains(first),
        second.name@ == first.name@,
        second.class@ == first.class@,
        trainer_get_or_create(ls, first).contains(second),
    ensures
        unique_trainers(trainer_get_or_create(ls, first)),
        trainer_get_or_create(ls, first).contains(first),
        trainer_get_or_create(trainer_get_or_create(ls, first), second) == trainer_get_or_create(ls, first),
        second == first,
{
    let once = trainer_get_or_create(ls, first);
    if !has_trainer(ls, first.name@, first.class@) {
        assert(once[ls.len() as int] == first);
        assert forall|i: int, j: int| 0 <= i < j < once.len() implies !(#[trigger] once[i].name@ == #[trigger] once[j].name@ && once[i].class@ == once[j].class@) by {
            if j == ls.len() {
                assert(once[i] == ls[i]);
            }
        }
    }
    assert(once.contains(first));
    let i = choose|i: int| 0 <= i < once.len() && once[i] == first;
    let j = choose|j: int| 0 <= j < once.len() && once[j] == second;
    assert(has_trainer(once, first.name@, first.class@));
    if i < j {
        assert(!(once[i].name@ == once[j].name@ && once[i].class@ == once[j].class@));
    } else if j < i {
        assert(!(once[j].name@ == once[i].name@ && once[j].class@ == once[i].class@));
    }
}

/// The item table after a get-or-create that found or added `row`.
pub open spec fn item_get_or_create(ls: Seq<Item>, row: Item) -> Seq<Item> {
    if has_item(ls, row.name@) {
        ls
    } else {
        ls.push(row)
    }
}

pub(crate) fn find_item(ls: &Vec<Item>, name: &String) -> (r: Option<usize>)
    ensures
        match r {
            Some(i) => i < ls@.len() && ls@[i as int].name@ == name@,
            None => !has_item(ls@, name@),
        },
{
    let mut i: usize = 0;
    while i < ls.len()
        invariant
            i <= ls@.len(),
            forall|k: int| 0 <= k < i ==> !(#[trigger] ls@[k].name@ == name@),
        decreases ls@.len() - i,
    {
        if ls[i].name == *name {
            return Some(i);
        }
        i += 1;
    }
    None
}

/// Get-or-create of a item is idempotent: a second call with the same key adds no row,
/// keeps the keys unique, and finds the very row that the first call returned.
pub proof fn item_get_or_create_idempotent(ls: Seq<Item>, first: Item, second: Item)
    requires
        unique_items(ls),
        has_item(ls, first.name@) ==> ls.contains(first),
        second.name@ == first.name@,
        item_get_or_create(ls, first).contains(second),
    ensures
        unique_items(item_get_or_create(ls, first)),
        item_get_or_create(ls, first).contains(first),
        item_get_or_create(item_get_or_create(ls, first), second) == item_get_or_create(ls, first),
        second == first,
{
    let once = item_get_or_create(ls, first);
    if !has_item(ls, first.name@) {
        assert(once[ls.len() as int] == first);
        assert forall|i: int, j: int| 0 <= i < j < once.len() implies !(#[trigger] once[i].name@ == #[trigger] once[j].name@) by {
            if j == ls.len() {
                assert(once[i] == ls[i]);
            }
        }
    }
    assert(once.contains(first));
    let i = choose|i: int| 0 <= i < once.len() && once[i] == first;
    let j = choose|j: int| 0 <= j < once.len() && once[j] == second;
    assert(has_item(once, first.name@));
    if i < j {
        assert(!(once[i].name@ == once[j].name@));
    } else if j < i {
        assert(!(once[j].name@ == once[i].name@));
    }
}

pub(crate) fn find_playthrough(ps: &Vec<Playthrough>, id: &String) -> (r: bool)
    ensures
        r == has_playthrough(ps@, id@),
{
    let mut i: usize = 0;
    while i < ps.len()
        invariant
            i <= ps@.len(),
            forall|k: int| 0 <= k < i ==> #[trigger] ps@[k].id_no@ != id@,
        decreases ps@.len() - i,
    {
        if ps[i].id_no == *id {
            return true;
        }
        i += 1;
    }
    false
}

/// Starts a playthrough. Its id must be new: a second playthrough with the same id is
/// refused and the store left as it was.
pub fn create_playthrough(
    store: &mut EventStore,
    id_no: &str,
    name: &str,
    version: &str,
    adventure_started: &str,
) -> (r: Result<Playthrough, StoreError>)
    requires
        old(store).wf(),
    ensures
        final(store).wf(),
        registry_unchanged(*old(store), *final(store)),
        final(store).events == old(store).events,
        final(store).variants == old(store).variants,
        final(store).team_members == old(store).team_members,
        final(store).changes == old(store).changes,
        r is Err <==> has_playthrough(old(store).playthroughs@, id_no@),
        r is Err ==> r->Err_0 == StoreError::ConstraintViolation && *final(store) == *old(store),
        r is Ok ==> {
            let p = r->Ok_0;
            &&& p.id_no@ == id_no@
            &&& p.name@ == name@
            &&& p.version@ == version@
            &&& p.adventure_started@ == adventure_started@
            &&& final(store).playthroughs@ == old(store).playthroughs@.push(p)
        },
{
    let id = id_no.to_owned();
    let mut i: usize = 0;
    while i < store.playthroughs.len()
        invariant
            i <= store.playthroughs@.len(),
            id@ == id_no@,
            store.wf(),
            *store == *old(store),
            forall|k: int| 0 <= k < i ==> #[trigger] store.playthroughs@[k].id_no@ != id_no@,
        decreases store.playthroughs@.len() - i,
    {
        if store.playthroughs[i].id_no == id {
            return Err(StoreError::ConstraintViolation);
        }
        i += 1;
    }
    let p = Playthrough {
        id_no: id,
        name: name.to_owned(),
        version: version.to_owned(),
        adventure_started: adventure_started.to_owned(),
    };
    let ghost before = store.playthroughs@;
    store.playthroughs.push(p.copy());
    proof {
        let ps = store.playthroughs@;
        assert forall|i: int, j: int| 0 <= i < j < ps.len() implies #[trigger] ps[i].id_no@
            != #[trigger] ps[j].id_no@ by {
            if j == before.len() {
                assert(ps[i] == before[i]);
            }
        }
        assert(unique_playthroughs(ps));
    }
    Ok(p)
}

/// Finds the location `(name, region)`, or adds it when the store has none.
pub fn create_location(store: &mut EventStore, name: &str, region: &str) -> (r: Location)
    requires
        old(store).wf(),
    ensures
        final(store).wf(),
        r.name@ == name@,
        r.region@ == region@,
        has_location(old(store).locations@, name@, region@) ==> old(store).locations@.contains(r),
        final(store).locations@ == location_get_or_create(old(store).locations@, r),
        log_unchanged(*old(store), *final(store)),
        final(store).species == old(store).species,
        final(store).trainer_classes == old(store).trainer_classes,
        final(store).trainers == old(store).trainers,
        final(store).items == old(store).items,
{
    let n = name.to_owned();
    let g = region.to_owned();
    match find_location(&store.locations, &n, &g) {
        Some(i) => {
            let r = store.locations[i].copy();
            proof {
                assert(store.locations@[i as int] == r);
            }
            r
        },
        None => {
            let l = Location { name: n, region: g };
            let ghost before = store.locations@;
            store.locations.push(l.copy());
            proof {
                assert(store.locations@[before.len() as int] == l);
                location_get_or_create_idempotent(before, l, l);
            }
            l
        },
    }
}

/// Finds the species `name`, or adds it with the given attributes when the store has none.
/// A species that is found keeps the attributes it was added with.
pub fn create_species(
    store: &mut EventStore,
    name: &str,
    dex_no: &i32,
    generation: &i32,
    type1: &str,
    type2: Option<&str>,
) -> (r: Species)
    requires
        old(store).wf(),
    ensures
        final(store).wf(),
        r.name@ == name@,
        has_species(old(store).species@, name@) ==> old(store).species@.contains(r),
        !has_species(old(store).species@, name@) ==> {
            &&& r.dex_no == *dex_no
            &&& r.generation == *generation
            &&& r.type1@ == type1@
            &&& (r.type2 is None <==> type2 is None)
            &&& (type2 is Some ==> r.type2->Some_0@ == type2->Some_0@)
        },
        final(store).species@ == species_get_or_create(old(store).species@, r),
        log_unchanged(*old(store), *final(store)),
        final(store).locations == old(store).locations,
        final(store).trainer_classes == old(store).trainer_classes,
        final(store).trainers == old(store).trainers,
        final(store).items == old(store).items,
{
    let n = name.to_owned();
    match find_species(&store.species, &n) {
        Some(i) => {
            let r = store.species[i].copy();
            proof {
                assert(store.species@[i as int] == r);
            }
            r
        },
        None => {
            let s = Species {
                name: n,
                dex_no: *dex_no,
                generation: *generation,
                type1: type1.to_owned(),
                type2: opt_str_to_string(type2),
            };
            let ghost before = store.species@;
            store.species.push(s.copy());
            proof {
                assert(store.species@[before.len() as int] == s);
                species_get_or_create_idempotent(before, s, s);
            }
            s
        },
    }
}

/// Finds the trainer class `name`, or adds it when the store has none.
pub fn create_trainer_class(store: &mut EventStore, name: &str) -> (r: TrainerClass)
    requires
        old(store).wf(),
    ensures
        final(store).wf(),
        r.name@ == name@,
        has_trainer_class(old(store).trainer_classes@, name@) ==> old(store).trainer_classes@.contains(r),
        final(store).trainer_classes@ == trainer_class_get_or_create(old(store).trainer_classes@, r),
        log_unchanged(*old(store), *final(store)),
        final(store).locations == old(store).locations,
        final(store).species == old(store).species,
        final(store).trainers == old(store).trainers,
        final(store).items == old(store).items,
{
    let n = name.to_owned();
    match find_trainer_class(&store.trainer_classes, &n) {
        Some(i) => {
            let r = store.trainer_classes[i].copy();
            proof {
                assert(store.trainer_classes@[i as int] == r);
            }
            r
        },
        None => {
            let c = TrainerClass { name: n };
            let ghost before = store.trainer_classes@;
            store.trainer_classes.push(c.copy());
            proof {
                assert(store.trainer_classes@[before.len() as int] == c);
                trainer_class_get_or_create_idempotent(before, c, c);
            }
            c
        },
    }
}

/// Finds the trainer `(name, class)`, or adds it when the store has none. The class must
/// already be in the store.
pub fn create_trainer(store: &mut EventStore, name: &str, class: &TrainerClass) -> (r: Result<
    Trainer,
    StoreError,
>)
    requires
        old(store).wf(),
    ensures
        final(store).wf(),
        r is Err <==> !has_trainer_class(old(store).trainer_classes@, class.name@),
        r is Err ==> r->Err_0 == StoreError::ReferenceNotFound && *final(store) == *old(store),
        r is Ok ==> {
            let t = r->Ok_0;
            &&& t.name@ == name@
            &&& t.class@ == class.name@
            &&& has_trainer(old(store).trainers@, name@, class.name@) ==> old(store).trainers@.contains(t)
            &&& final(store).trainers@ == trainer_get_or_create(old(store).trainers@, t)
        },
        log_unchanged(*old(store), *final(store)),
        final(store).locations == old(store).locations,
        final(store).species == old(store).species,
        final(store).trainer_classes == old(store).trainer_classes,
        final(store).items == old(store).items,
{
    if find_trainer_class(&store.trainer_classes, &class.name).is_none() {
        return Err(StoreError::ReferenceNotFound);
    }
    let n = name.to_owned();
    match find_trainer(&store.trainers, &n, &class.name) {
        Some(i) => {
            let r = store.trainers[i].copy();
            proof {
                assert(store.trainers@[i as int] == r);
            }
            Ok(r)
        },
        None => {
            let t = Trainer { name: n, class: class.name.clone() };
            let ghost before = store.trainers@;
            store.trainers.push(t.copy());
            proof {
                assert(store.trainers@[before.len() as int] == t);
                trainer_get_or_create_idempotent(before, t, t);
            }
            Ok(t)
        },
    }
}

/// Finds the item `name`, or adds it when the store has none.
pub fn create_item(store: &mut EventStore, name: &str) -> (r: Item)
    requires
        old(store).wf(),
    ensures
        final(store).wf(),
        r.name@ == name@,
        has_item(old(store).items@, name@) ==> old(store).items@.contains(r),
        final(store).items@ == item_get_or_create(old(store).items@, r),
        log_unchanged(*old(store), *final(store)),
        final(store).locations == old(store).locations,
        final(store).species == old(store).species,
        final(store).trainer_classes == old(store).trainer_classes,
        final(store).trainers == old(store).trainers,
{
    let n = name.to_owned();
    match find_item(&store.items, &n) {
        Some(i) => {
            let r = store.items[i].copy();
            proof {
                assert(store.items@[i as int] == r);
            }
            r
        },
        None => {
            let it = Item { name: n };
            let ghost before = store.items@;
            store.items.push(it.copy());
            proof {
                assert(store.items@[before.len() as int] == it);
                item_get_or_create_idempotent(before, it, it);
            }
            it
        },
    }
}

} // verus!
