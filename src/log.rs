use vstd::prelude::*;
use crate::records::{Event, EventPayload, EventVariant, StoreError};
use crate::store::{count_of, has_event, has_variant, numbered, EventStore};

verus! {

proof fn lemma_count_take_mono(s: Seq<Event>, pt: Seq<char>, i: int, j: int)
    requires
        0 <= i <= j <= s.len(),
    ensures
        count_of(s.take(i), pt) <= count_of(s.take(j), pt),
    decreases j - i,
{
    if i < j {
        lemma_count_take_mono(s, pt, i, j - 1);
        assert(s.take(j).drop_last() == s.take(j - 1));
    }
}

/// An event of `pt` at index `i` is counted in every prefix that holds it.
proof fn lemma_count_take_strict(s: Seq<Event>, pt: Seq<char>, i: int, j: int)
    requires
        0 <= i < j <= s.len(),
        s[i].playthrough_id_no@ == pt,
    ensures
        count_of(s.take(i), pt) + 1 <= count_of(s.take(j), pt),
{
    assert(s.take(i + 1).drop_last() == s.take(i));
    lemma_count_take_mono(s, pt, i + 1, j);
}

/// Under a gapless numbering no event of `pt` carries a number above the count of `pt`.
pub proof fn lemma_numbers_bounded(s: Seq<Event>, pt: Seq<char>)
    requires
        numbered(s),
    ensures
        forall|i: int|
            0 <= i < s.len() && #[trigger] s[i].playthrough_id_no@ == pt ==> 1 <= s[i].no <= count_of(s, pt),
{
    assert forall|i: int| 0 <= i < s.len() && #[trigger] s[i].playthrough_id_no@ == pt implies 1 <= s[i].no
        <= count_of(s, pt) by {
        assert(s[i].no == count_of(s.take(i), s[i].playthrough_id_no@) + 1);
        lemma_count_take_strict(s, pt, i, s.len() as int);
        assert(s.take(s.len() as int) == s);
    }
}

/// Appending an event numbered one past its playthrough's count keeps the numbering gapless.
proof fn lemma_push_numbered(s: Seq<Event>, e: Event)
    requires
        numbered(s),
        e.no == count_of(s, e.playthrough_id_no@) + 1,
    ensures
        numbered(s.push(e)),
        count_of(s.push(e), e.playthrough_id_no@) == count_of(s, e.playthrough_id_no@) + 1,
{
    let t = s.push(e);
    assert(t.drop_last() == s);
    assert forall|i: int| 0 <= i < t.len() implies #[trigger] t[i].no == count_of(
        t.take(i),
        t[i].playthrough_id_no@,
    ) + 1 by {
        if i < s.len() {
            assert(t.take(i) == s.take(i));
        } else {
            assert(t.take(i) == s);
        }
    }
}

/// The event numbering is gapless and free of duplicates: the events of a playthrough
/// carry exactly the numbers `1..=N`, each once, where `N` is how many it has.
pub proof fn event_numbers_are_gapless(s: Seq<Event>, pt: Seq<char>)
    requires
        numbered(s),
    ensures
        forall|i: int| 0 <= i < s.len() && #[trigger] s[i].playthrough_id_no@ == pt ==> 1 <= s[i].no <= count_of(s, pt),
        forall|i: int, j: int|
            0 <= i < j < s.len() && #[trigger] s[i].playthrough_id_no@ == pt && #[trigger] s[j].playthrough_id_no@ == pt
                ==> s[i].no != s[j].no,
        forall|k: int| 1 <= k <= count_of(s, pt) ==> #[trigger] has_event(s, pt, k as i32),
    decreases s.len(),
{
    lemma_numbers_bounded(s, pt);
    assert forall|i: int, j: int|
        0 <= i < j < s.len() && #[trigger] s[i].playthrough_id_no@ == pt && #[trigger] s[j].playthrough_id_no@ == pt
            implies s[i].no != s[j].no by {
        lemma_count_take_strict(s, pt, i, j);
    }
    if s.len() > 0 {
        let p = s.drop_last();
        assert forall|i: int| 0 <= i < p.len() implies #[trigger] p[i].no == count_of(
            p.take(i),
            p[i].playthrough_id_no@,
        ) + 1 by {
            assert(p.take(i) == s.take(i));
            assert(s[i].no == count_of(s.take(i), s[i].playthrough_id_no@) + 1);
        }
        event_numbers_are_gapless(p, pt);
        assert forall|k: int| 1 <= k <= count_of(s, pt) implies #[trigger] has_event(s, pt, k as i32) by {
            if k <= count_of(p, pt) {
                assert(has_event(p, pt, k as i32));
                let w = choose|w: int| 0 <= w < p.len() && #[trigger] p[w].playthrough_id_no@ == pt && p[w].no == k as i32;
                assert(s[w] == p[w]);
            } else {
                let l = s.len() - 1;
                assert(s.take(l) == p);
                assert(s[l].no == count_of(s.take(l), s[l].playthrough_id_no@) + 1);
                assert(s[l].playthrough_id_no@ == pt);
            }
        }
    }
}

pub(crate) fn find_event(es: &Vec<Event>, pt: &String, no: i32) -> (r: bool)
    ensures
        r == has_event(es@, pt@, no),
{
    let mut i: usize = 0;
    while i < es.len()
        invariant
            i <= es@.len(),
            forall|k: int| 0 <= k < i ==> !(#[trigger] es@[k].playthrough_id_no@ == pt@ && es@[k].no == no),
        decreases es@.len() - i,
    {
        if es[i].playthrough_id_no == *pt && es[i].no == no {
            return true;
        }
        i += 1;
    }
    false
}

impl EventStore {
    /// The number the next event of playthrough `pt` gets: one past the largest number
    /// it holds, `1` when it has none, and `None` when that would not fit.
    pub fn next_event_no(&self, pt: &String) -> (r: Option<i32>)
        requires
            numbered(self.events@),
        ensures
            r == (if count_of(self.events@, pt@) < i32::MAX {
                Some((count_of(self.events@, pt@) + 1) as i32)
            } else {
                None::<i32>
            }),
    {
        let mut m: i32 = 0;
        let mut i: usize = 0;
        while i < self.events.len()
            invariant
                i <= self.events@.len(),
                numbered(self.events@),
                m as int == count_of(self.events@.take(i as int), pt@),
            decreases self.events@.len() - i,
        {
            let e = &self.events[i];
            proof {
                assert(self.events@.take(i + 1).drop_last() == self.events@.take(i as int));
                assert(self.events@[i as int].no == count_of(
                    self.events@.take(i as int),
                    self.events@[i as int].playthrough_id_no@,
                ) + 1);
            }
            if e.playthrough_id_no == *pt && e.no > m {
                m = e.no;
            }
            i += 1;
        }
        proof {
            assert(self.events@.take(self.events@.len() as int) == self.events@);
        }
        if m == i32::MAX {
            None
        } else {
            Some(m + 1)
        }
    }

    /// The payload attached to event `no` of playthrough `pt`, if any.
    pub fn variant_of(&self, pt: &String, no: i32) -> (r: Option<&EventVariant>)
        ensures
            r is None <==> !has_variant(self.variants@, pt@, no),
            r is Some ==> exists|i: int|
                0 <= i < self.variants@.len() && self.variants@[i] == *r->Some_0
                    && #[trigger] self.variants@[i].playthrough_id_no@ == pt@ && self.variants@[i].no == no,
    {
        let mut i: usize = 0;
        while i < self.variants.len()
            invariant
                i <= self.variants@.len(),
                forall|k: int|
                    0 <= k < i ==> !(#[trigger] self.variants@[k].playthrough_id_no@ == pt@
                        && self.variants@[k].no == no),
            decreases self.variants@.len() - i,
        {
            if self.variants[i].playthrough_id_no == *pt && self.variants[i].no == no {
                return Some(&self.variants[i]);
            }
            i += 1;
        }
        None
    }

    /// Appends the next event of playthrough `pt` and attaches `payload` to it, as one
    /// write: either both rows are added or, when no number is left, neither.
    pub(crate) fn append_event(
        &mut self,
        pt: &String,
        location_name: &String,
        location_region: &String,
        payload: EventPayload,
    ) -> (r: Result<Event, StoreError>)
        requires
            old(self).wf(),
        ensures
            final(self).wf(),
            final(self).playthroughs == old(self).playthroughs,
            final(self).locations == old(self).locations,
            final(self).species == old(self).species,
            final(self).trainer_classes == old(self).trainer_classes,
            final(self).trainers == old(self).trainers,
            final(self).items == old(self).items,
            final(self).team_members == old(self).team_members,
            final(self).changes == old(self).changes,
            count_of(old(self).events@, pt@) >= i32::MAX <==> r is Err,
            r is Err ==> r->Err_0 == StoreError::ConstraintViolation && *final(self) == *old(self),
            r is Ok ==> {
                let e = r->Ok_0;
                &&& e.playthrough_id_no@ == pt@
                &&& e.no == count_of(old(self).events@, pt@) + 1
                &&& e.location_name == *location_name
                &&& e.location_region == *location_region
                &&& final(self).events@ == old(self).events@.push(e)
                &&& final(self).variants@.len() == old(self).variants@.len() + 1
                &&& final(self).variants@.drop_last() == old(self).variants@
                &&& final(self).variants@.last().playthrough_id_no@ == pt@
                &&& final(self).variants@.last().no == e.no
                &&& final(self).variants@.last().payload == payload
                &&& !has_event(old(self).events@, pt@, e.no)
            },
    {
        let no = match self.next_event_no(pt) {
            Some(n) => n,
            None => return Err(StoreError::ConstraintViolation),
        };
        let e = Event {
            playthrough_id_no: pt.clone(),
            no,
            location_name: location_name.clone(),
            location_region: location_region.clone(),
        };
        let ghost old_events = self.events@;
        let ghost old_variants = self.variants@;
        proof {
            lemma_numbers_bounded(old_events, pt@);
            lemma_push_numbered(old_events, e);
            // no existing payload can sit on the fresh number
            assert forall|i: int| 0 <= i < old_variants.len() implies !(
            #[trigger] old_variants[i].playthrough_id_no@ == pt@ && old_variants[i].no == no) by {
                if old_variants[i].playthrough_id_no@ == pt@ && old_variants[i].no == no {
                    let w = choose|w: int|
                        0 <= w < old_events.len() && #[trigger] old_events[w].playthrough_id_no@
                            == old_variants[i].playthrough_id_no@ && old_events[w].no == old_variants[i].no;
                    assert(old_events[w].playthrough_id_no@ == pt@);
                }
            }
        }
        self.events.push(e.copy());
        let v = EventVariant { playthrough_id_no: pt.clone(), no, payload };
        self.variants.push(v);
        proof {
            let es = self.events@;
            let vs = self.variants@;
            assert(vs.drop_last() == old_variants);
            assert forall|i: int| 0 <= i < vs.len() implies has_event(
                es,
                #[trigger] vs[i].playthrough_id_no@,
                vs[i].no,
            ) by {
                if i < old_variants.len() {
                    assert(vs[i] == old_variants[i]);
                    let w = choose|w: int|
                        0 <= w < old_events.len() && #[trigger] old_events[w].playthrough_id_no@
                            == old_variants[i].playthrough_id_no@ && old_events[w].no == old_variants[i].no;
                    assert(es[w] == old_events[w]);
                } else {
                    assert(es[old_events.len() as int] == e);
                }
            }
            assert forall|i: int| 0 <= i < self.changes@.len() implies has_event(
                es,
                (#[trigger] self.changes@[i]).team_member_playthrough_id_no@,
                self.changes@[i].event_no,
            ) by {
                let c = self.changes@[i];
                let w = choose|w: int|
                    0 <= w < old_events.len() && #[trigger] old_events[w].playthrough_id_no@
                        == c.team_member_playthrough_id_no@ && old_events[w].no == c.event_no;
                assert(es[w] == old_events[w]);
            }
            assert(!has_event(old_events, pt@, no));
        }
        Ok(e)
    }
}

} // verus!
