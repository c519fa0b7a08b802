use vstd::prelude::*;
use crate::records::{Playthrough, RosterState, StoreError, TeamMember, TeamMemberChange};
use crate::store::{has_member, EventStore};

verus! {

/// Whether delta `c` belongs to slot `slot` of playthrough `pt` and falls at or before
/// event `as_of` (`None` stands for no bound).
pub open spec fn applies(c: TeamMemberChange, pt: Seq<char>, slot: i32, as_of: Option<i32>) -> bool {
    &&& c.team_member_playthrough_id_no@ == pt
    &&& c.team_member_slot == slot
    &&& (as_of is None || c.event_no <= as_of->Some_0)
}

/// The last level written by the applicable deltas of `cs`, taken in ascending order of
/// event number and, among equal numbers, in order of insertion; with its event number.
pub open spec fn latest_level(cs: Seq<TeamMemberChange>, pt: Seq<char>, slot: i32, as_of: Option<i32>) -> Option<(i32, i32)>
    decreases cs.len(),
{
    if cs.len() == 0 {
        None
    } else {
        let prev = latest_level(cs.drop_last(), pt, slot, as_of);
        let c = cs.last();
        if applies(c, pt, slot, as_of) && c.level is Some && (prev is None || prev->Some_0.0 <= c.event_no) {
            Some((c.event_no, c.level->Some_0))
        } else {
            prev
        }
    }
}

/// The last species written by the applicable deltas of `cs`, in the same order as
/// `latest_level`; with its event number.
pub open spec fn latest_species(cs: Seq<TeamMemberChange>, pt: Seq<char>, slot: i32, as_of: Option<i32>) -> Option<(i32, Seq<char>)>
    decreases cs.len(),
{
    if cs.len() == 0 {
        None
    } else {
        let prev = latest_species(cs.drop_last(), pt, slot, as_of);
        let c = cs.last();
        if applies(c, pt, slot, as_of) && c.species_name is Some && (prev is None || prev->Some_0.0 <= c.event_no) {
            Some((c.event_no, c.species_name->Some_0@))
        } else {
            prev
        }
    }
}

/// A member's level and species at event `as_of`: its catch-time baseline, with each field
/// overwritten by the last delta that sets it.
pub open spec fn projected_state(m: TeamMember, cs: Seq<TeamMemberChange>, as_of: Option<i32>) -> (i32, Seq<char>) {
    let pt = m.playthrough_id_no@;
    (
        match latest_level(cs, pt, m.slot, as_of) {
            Some(p) => p.1,
            None => m.caught_level,
        },
        match latest_species(cs, pt, m.slot, as_of) {
            Some(p) => p.1,
            None => m.caught_species_name@,
        },
    )
}

/// The deltas of `cs` that apply to slot `slot` of `pt` up to `as_of`, in stream order.
pub open spec fn relevant(cs: Seq<TeamMemberChange>, pt: Seq<char>, slot: i32, as_of: Option<i32>) -> Seq<TeamMemberChange>
    decreases cs.len(),
{
    if cs.len() == 0 {
        Seq::empty()
    } else {
        let r = relevant(cs.drop_last(), pt, slot, as_of);
        if applies(cs.last(), pt, slot, as_of) {
            r.push(cs.last())
        } else {
            r
        }
    }
}

proof fn lemma_latest_of_relevant(cs: Seq<TeamMemberChange>, pt: Seq<char>, slot: i32, as_of: Option<i32>)
    ensures
        latest_level(cs, pt, slot, as_of) == latest_level(relevant(cs, pt, slot, as_of), pt, slot, as_of),
        latest_species(cs, pt, slot, as_of) == latest_species(relevant(cs, pt, slot, as_of), pt, slot, as_of),
    decreases cs.len(),
{
    if cs.len() > 0 {
        lemma_latest_of_relevant(cs.drop_last(), pt, slot, as_of);
        let r = relevant(cs.drop_last(), pt, slot, as_of);
        if applies(cs.last(), pt, slot, as_of) {
            assert(r.push(cs.last()).drop_last() == r);
        }
    }
}

/// A projection is a function of the member's baseline and of the deltas of its slot up to
/// `as_of` alone: streams that agree on those deltas project to the same state, whatever
/// else they hold.
pub proof fn projection_depends_only_on_relevant_changes(
    m: TeamMember,
    cs1: Seq<TeamMemberChange>,
    cs2: Seq<TeamMemberChange>,
    as_of: Option<i32>,
)
    requires
        relevant(cs1, m.playthrough_id_no@, m.slot, as_of) == relevant(cs2, m.playthrough_id_no@, m.slot, as_of),
    ensures
        projected_state(m, cs1, as_of) == projected_state(m, cs2, as_of),
{
    lemma_latest_of_relevant(cs1, m.playthrough_id_no@, m.slot, as_of);
    lemma_latest_of_relevant(cs2, m.playthrough_id_no@, m.slot, as_of);
}

proof fn lemma_level_writer(cs: Seq<TeamMemberChange>, pt: Seq<char>, slot: i32, as_of: Option<i32>) -> (k: int)
    ensures
        latest_level(cs, pt, slot, as_of) is None ==> forall|j: int|
            0 <= j < cs.len() && #[trigger] applies(cs[j], pt, slot, as_of) ==> cs[j].level is None,
        latest_level(cs, pt, slot, as_of) is Some ==> {
            &&& 0 <= k < cs.len()
            &&& applies(cs[k], pt, slot, as_of)
            &&& cs[k].level is Some
            &&& latest_level(cs, pt, slot, as_of) == Some(((cs[k].event_no, cs[k].level->Some_0)))
            &&& forall|j: int|
                0 <= j < cs.len() && #[trigger] applies(cs[j], pt, slot, as_of) && cs[j].level is Some
                    ==> cs[j].event_no < cs[k].event_no || (cs[j].event_no == cs[k].event_no && j <= k)
        },
    decreases cs.len(),
{
    if cs.len() == 0 {
        0
    } else {
        let p = cs.drop_last();
        let k0 = lemma_level_writer(p, pt, slot, as_of);
        let l = cs.len() - 1;
        assert forall|j: int| 0 <= j < l implies #[trigger] cs[j] == p[j] by {}
        if applies(cs[l], pt, slot, as_of) && cs[l].level is Some && (latest_level(p, pt, slot, as_of) is None
            || latest_level(p, pt, slot, as_of)->Some_0.0 <= cs[l].event_no) {
            assert forall|j: int|
                0 <= j < cs.len() && #[trigger] applies(cs[j], pt, slot, as_of) && cs[j].level is Some
                    implies cs[j].event_no < cs[l].event_no || (cs[j].event_no == cs[l].event_no && j <= l) by {
                if j < l {
                    assert(applies(p[j], pt, slot, as_of));
                }
            }
            l
        } else {
            assert forall|j: int|
                0 <= j < cs.len() && #[trigger] applies(cs[j], pt, slot, as_of) && cs[j].level is Some
                    implies cs[j].event_no < cs[k0].event_no || (cs[j].event_no == cs[k0].event_no && j <= k0) by {
                if j < l {
                    assert(applies(p[j], pt, slot, as_of));
                }
            }
            assert forall|j: int| 0 <= j < cs.len() && #[trigger] applies(cs[j], pt, slot, as_of) implies cs[j].level is None
                || latest_level(cs, pt, slot, as_of) is Some by {
                if j < l {
                    assert(applies(p[j], pt, slot, as_of));
                }
            }
            k0
        }
    }
}

proof fn lemma_species_writer(cs: Seq<TeamMemberChange>, pt: Seq<char>, slot: i32, as_of: Option<i32>) -> (k: int)
    ensures
        latest_species(cs, pt, slot, as_of) is None ==> forall|j: int|
            0 <= j < cs.len() && #[trigger] applies(cs[j], pt, slot, as_of) ==> cs[j].species_name is None,
        latest_species(cs, pt, slot, as_of) is Some ==> {
            &&& 0 <= k < cs.len()
            &&& applies(cs[k], pt, slot, as_of)
            &&& cs[k].species_name is Some
            &&& latest_species(cs, pt, slot, as_of) == Some(((cs[k].event_no, cs[k].species_name->Some_0@)))
            &&& forall|j: int|
                0 <= j < cs.len() && #[trigger] applies(cs[j], pt, slot, as_of) && cs[j].species_name is Some
                    ==> cs[j].event_no < cs[k].event_no || (cs[j].event_no == cs[k].event_no && j <= k)
        },
    decreases cs.len(),
{
    if cs.len() == 0 {
        0
    } else {
        let p = cs.drop_last();
        let k0 = lemma_species_writer(p, pt, slot, as_of);
        let l = cs.len() - 1;
        assert forall|j: int| 0 <= j < l implies #[trigger] cs[j] == p[j] by {}
        if applies(cs[l], pt, slot, as_of) && cs[l].species_name is Some && (latest_species(p, pt, slot, as_of) is None
            || latest_species(p, pt, slot, as_of)->Some_0.0 <= cs[l].event_no) {
            assert forall|j: int|
                0 <= j < cs.len() && #[trigger] applies(cs[j], pt, slot, as_of) && cs[j].species_name is Some
                    implies cs[j].event_no < cs[l].event_no || (cs[j].event_no == cs[l].event_no && j <= l) by {
                if j < l {
                    assert(applies(p[j], pt, slot, as_of));
                }
            }
            l
        } else {
            assert forall|j: int|
                0 <= j < cs.len() && #[trigger] applies(cs[j], pt, slot, as_of) && cs[j].species_name is Some
                    implies cs[j].event_no < cs[k0].event_no || (cs[j].event_no == cs[k0].event_no && j <= k0) by {
                if j < l {
                    assert(applies(p[j], pt, slot, as_of));
                }
            }
            assert forall|j: int| 0 <= j < cs.len() && #[trigger] applies(cs[j], pt, slot, as_of) implies cs[j].species_name is None
                || latest_species(cs, pt, slot, as_of) is Some by {
                if j < l {
                    assert(applies(p[j], pt, slot, as_of));
                }
            }
            k0
        }
    }
}

/// Each field of a projection comes from the last delta that sets it, in the order that sorts
/// deltas by event number and, among equal numbers, by insertion: the delta `k` that
/// supplies it sets the field, and every other applicable delta that sets it comes before `k`
/// in that order. A field that no applicable delta sets keeps its catch-time value.
pub proof fn projection_takes_last_writer_in_order(m: TeamMember, cs: Seq<TeamMemberChange>, as_of: Option<i32>)
    ensures
        ({
            let pt = m.playthrough_id_no@;
            let st = projected_state(m, cs, as_of);
            &&& (forall|j: int| 0 <= j < cs.len() && #[trigger] applies(cs[j], pt, m.slot, as_of) ==> cs[j].level is None)
                ==> st.0 == m.caught_level
            &&& (forall|j: int| 0 <= j < cs.len() && #[trigger] applies(cs[j], pt, m.slot, as_of) ==> cs[j].species_name is None)
                ==> st.1 == m.caught_species_name@
            &&& (exists|j: int| 0 <= j < cs.len() && #[trigger] applies(cs[j], pt, m.slot, as_of) && cs[j].level is Some)
                ==> exists|k: int| {
                    &&& 0 <= k < cs.len()
                    &&& #[trigger] applies(cs[k], pt, m.slot, as_of)
                    &&& cs[k].level == Some(st.0)
                    &&& forall|j: int| 0 <= j < cs.len() && #[trigger] applies(cs[j], pt, m.slot, as_of) && cs[j].level is Some
                        ==> cs[j].event_no < cs[k].event_no || (cs[j].event_no == cs[k].event_no && j <= k)
                }
            &&& (exists|j: int| 0 <= j < cs.len() && #[trigger] applies(cs[j], pt, m.slot, as_of) && cs[j].species_name is Some)
                ==> exists|k: int| {
                    &&& 0 <= k < cs.len()
                    &&& #[trigger] applies(cs[k], pt, m.slot, as_of)
                    &&& cs[k].species_name is Some
                    &&& cs[k].species_name->Some_0@ == st.1
                    &&& forall|j: int| 0 <= j < cs.len() && #[trigger] applies(cs[j], pt, m.slot, as_of) && cs[j].species_name is Some
                        ==> cs[j].event_no < cs[k].event_no || (cs[j].event_no == cs[k].event_no && j <= k)
                }
        }),
{
    let pt = m.playthrough_id_no@;
    let kl = lemma_level_writer(cs, pt, m.slot, as_of);
    let ks = lemma_species_writer(cs, pt, m.slot, as_of);
    if latest_level(cs, pt, m.slot, as_of) is Some {
        assert(applies(cs[kl], pt, m.slot, as_of));
    }
    if latest_species(cs, pt, m.slot, as_of) is Some {
        assert(applies(cs[ks], pt, m.slot, as_of));
    }
}

proof fn lemma_latest_bounded(cs: Seq<TeamMemberChange>, pt: Seq<char>, slot: i32, a: i32)
    ensures
        latest_level(cs, pt, slot, Some(a)) is Some ==> latest_level(cs, pt, slot, Some(a))->Some_0.0 <= a,
        latest_species(cs, pt, slot, Some(a)) is Some ==> latest_species(cs, pt, slot, Some(a))->Some_0.0 <= a,
    decreases cs.len(),
{
    if cs.len() > 0 {
        lemma_latest_bounded(cs.drop_last(), pt, slot, a);
    }
}

proof fn lemma_catch_delta_stands(cs: Seq<TeamMemberChange>, m: TeamMember, k: int, n: int)
    requires
        0 <= k < n <= cs.len(),
        applies(cs[k], m.playthrough_id_no@, m.slot, None),
        cs[k].level == Some(m.caught_level),
        cs[k].species_name is Some,
        cs[k].species_name->Some_0@ == m.caught_species_name@,
        forall|j: int|
            k < j < cs.len() && applies(#[trigger] cs[j], m.playthrough_id_no@, m.slot, None) ==> cs[j].event_no
                != cs[k].event_no,
    ensures
        latest_level(cs.take(n), m.playthrough_id_no@, m.slot, Some(cs[k].event_no)) == Some(
            (cs[k].event_no, m.caught_level),
        ),
        latest_species(cs.take(n), m.playthrough_id_no@, m.slot, Some(cs[k].event_no)) == Some(
            (cs[k].event_no, m.caught_species_name@),
        ),
    decreases n - k,
{
    let t = cs.take(n);
    assert(t.drop_last() == cs.take(n - 1));
    assert(t.last() == cs[n - 1]);
    if n == k + 1 {
        lemma_latest_bounded(cs.take(k), m.playthrough_id_no@, m.slot, cs[k].event_no);
    } else {
        lemma_catch_delta_stands(cs, m, k, n - 1);
    }
}

/// Projected at the event that caught it, a member shows its catch-time baseline, as long
/// as the catch delta is the last delta of its slot on that event.
pub proof fn projection_at_catch_is_baseline(m: TeamMember, cs: Seq<TeamMemberChange>, k: int)
    requires
        0 <= k < cs.len(),
        applies(cs[k], m.playthrough_id_no@, m.slot, None),
        cs[k].level == Some(m.caught_level),
        cs[k].species_name is Some,
        cs[k].species_name->Some_0@ == m.caught_species_name@,
        forall|j: int|
            k < j < cs.len() && applies(#[trigger] cs[j], m.playthrough_id_no@, m.slot, None) ==> cs[j].event_no
                != cs[k].event_no,
    ensures
        projected_state(m, cs, Some(cs[k].event_no)) == (m.caught_level, m.caught_species_name@),
{
    lemma_catch_delta_stands(cs, m, k, cs.len() as int);
    assert(cs.take(cs.len() as int) == cs);
}

pub(crate) fn find_member(ms: &Vec<TeamMember>, pt: &String, slot: i32) -> (r: Option<usize>)
    ensures
        match r {
            Some(i) => i < ms@.len() && ms@[i as int].playthrough_id_no@ == pt@ && ms@[i as int].slot == slot,
            None => !has_member(ms@, pt@, slot),
        },
{
    let mut i: usize = 0;
    while i < ms.len()
        invariant
            i <= ms@.len(),
            forall|k: int| 0 <= k < i ==> !(#[trigger] ms@[k].playthrough_id_no@ == pt@ && ms@[k].slot == slot),
        decreases ms@.len() - i,
    {
        if ms[i].playthrough_id_no == *pt && ms[i].slot == slot {
            return Some(i);
        }
        i += 1;
    }
    None
}

/// The state of slot `slot` of `playthrough` at event `as_of_no`, or now when that is `None`.
pub fn project(store: &EventStore, playthrough: &Playthrough, slot: &i32, as_of_no: Option<i32>) -> (r: Result<
    RosterState,
    StoreError,
>)
    requires
        store.wf(),
    ensures
        r is Err <==> !has_member(store.team_members@, playthrough.id_no@, *slot),
        r is Err ==> r->Err_0 == StoreError::ReferenceNotFound,
        r is Ok ==> forall|i: int|
            0 <= i < store.team_members@.len() && #[trigger] store.team_members@[i].playthrough_id_no@
                == playthrough.id_no@ && store.team_members@[i].slot == *slot ==> (r->Ok_0.level, r->Ok_0.species@)
                == projected_state(store.team_members@[i], store.changes@, as_of_no),
{
    let pt = &playthrough.id_no;
    let ms = &store.team_members;
    let found = find_member(ms, pt, *slot);
    let mi = match found {
        Some(mi) => mi,
        None => return Err(StoreError::ReferenceNotFound),
    };
    let m = &ms[mi];
    let cs = &store.changes;
    let mut lvl: Option<(i32, i32)> = None;
    let mut sp: Option<(i32, usize)> = None;
    let mut j: usize = 0;
    while j < cs.len()
        invariant
            j <= cs@.len(),
            lvl == latest_level(cs@.take(j as int), pt@, *slot, as_of_no),
            sp is None <==> latest_species(cs@.take(j as int), pt@, *slot, as_of_no) is None,
            sp is Some ==> {
                let p = sp->Some_0;
                &&& p.1 < cs@.len()
                &&& cs@[p.1 as int].species_name is Some
                &&& latest_species(cs@.take(j as int), pt@, *slot, as_of_no) == Some(
                    (p.0, cs@[p.1 as int].species_name->Some_0@),
                )
            },
        decreases cs@.len() - j,
    {
        proof {
            assert(cs@.take(j + 1).drop_last() == cs@.take(j as int));
        }
        let c = &cs[j];
        let hit = c.team_member_playthrough_id_no == *pt && c.team_member_slot == *slot && match as_of_no {
            None => true,
            Some(a) => c.event_no <= a,
        };
        if hit {
            if let Some(l) = c.level {
                let newer = match lvl {
                    None => true,
                    Some(p) => p.0 <= c.event_no,
                };
                if newer {
                    lvl = Some((c.event_no, l));
                }
            }
            if c.species_name.is_some() {
                let newer = match sp {
                    None => true,
                    Some(p) => p.0 <= c.event_no,
                };
                if newer {
                    sp = Some((c.event_no, j));
                }
            }
        }
        j += 1;
    }
    proof {
        assert(cs@.take(cs@.len() as int) == cs@);
    }
    let level = match lvl {
        Some(p) => p.1,
        None => m.caught_level,
    };
    let species = match sp {
        Some(p) => match &cs[p.1].species_name {
            Some(s) => s.clone(),
            None => m.caught_species_name.clone(),
        },
        None => m.caught_species_name.clone(),
    };
    proof {
        assert forall|k: int|
            0 <= k < store.team_members@.len() && #[trigger] store.team_members@[k].playthrough_id_no@
                == pt@ && store.team_members@[k].slot == *slot implies k == mi by {
            if k < mi {
                assert(!(store.team_members@[k].playthrough_id_no@ == store.team_members@[mi as int].playthrough_id_no@
                    && store.team_members@[k].slot == store.team_members@[mi as int].slot));
            } else if mi < k {
                assert(!(store.team_members@[mi as int].playthrough_id_no@ == store.team_members@[k].playthrough_id_no@
                    && store.team_members@[mi as int].slot == store.team_members@[k].slot));
            }
        }
    }
    Ok(RosterState { level, species })
}

} // verus!
