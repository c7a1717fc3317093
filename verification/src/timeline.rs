//! The ordered collection of committed events.
//!
//! A timeline keeps its events sorted by date-time under a fixed policy,
//! ascending (oldest first, the default) or descending. Insertion order is
//! irrelevant except among equal date-times, where it is preserved: a new
//! event is placed after every event it does not strictly precede.

use crate::datetime::dt_le;
use crate::datetime::DateTime;
use crate::event::Event;
use crate::event::EventView;
use vstd::prelude::*;

verus! {

/// Display order of the timeline: oldest first, or newest first.
#[derive(Clone, Copy, Debug, PartialEq, Eq, Structural)]
pub enum SortOrder {
    Ascending,
    Descending,
}

/// `a` may stand at or before `b` under policy `o`.
pub open spec fn key_le(o: SortOrder, a: DateTime, b: DateTime) -> bool {
    match o {
        SortOrder::Ascending => dt_le(a, b),
        SortOrder::Descending => dt_le(b, a),
    }
}

/// `a` must stand strictly before `b` under policy `o`.
pub open spec fn key_lt(o: SortOrder, a: DateTime, b: DateTime) -> bool {
    !key_le(o, b, a)
}

/// The sequence is sorted by date-time under policy `o`.
pub open spec fn sorted_by(o: SortOrder, s: Seq<EventView>) -> bool {
    forall|i: int, j: int| 0 <= i < j < s.len() ==> key_le(o, s[i].datetime, s[j].datetime)
}

/// Where a new event with date-time `d` goes: the first index whose event it
/// strictly precedes, so that it lands after every equal date-time already
/// present (stable tie-break by insertion order).
pub open spec fn insert_pos(o: SortOrder, s: Seq<EventView>, d: DateTime) -> int
    decreases s.len(),
{
    if s.len() == 0 {
        0
    } else if key_lt(o, d, s[0].datetime) {
        0
    } else {
        1 + insert_pos(o, s.drop_first(), d)
    }
}

/// `insert_pos` is the least index whose event `d` strictly precedes
/// (the length if there is none).
pub proof fn lemma_insert_pos(o: SortOrder, s: Seq<EventView>, d: DateTime)
    ensures
        0 <= insert_pos(o, s, d) <= s.len(),
        forall|j: int| 0 <= j < insert_pos(o, s, d) ==> !key_lt(o, d, s[j].datetime),
        insert_pos(o, s, d) < s.len() ==> key_lt(o, d, s[insert_pos(o, s, d)].datetime),
    decreases s.len(),
{
    if s.len() > 0 && !key_lt(o, d, s[0].datetime) {
        lemma_insert_pos(o, s.drop_first(), d);
        let p = insert_pos(o, s, d);
        assert forall|j: int| 0 <= j < p implies !key_lt(o, d, s[j].datetime) by {
            if j > 0 {
                assert(s.drop_first()[j - 1] == s[j]);
            }
        }
        if p < s.len() {
            assert(s.drop_first()[p - 1] == s[p]);
        }
    }
}

/// Inserting at `insert_pos` keeps the sequence sorted.
pub proof fn lemma_insert_sorted(o: SortOrder, s: Seq<EventView>, e: EventView)
    requires
        sorted_by(o, s),
    ensures
        sorted_by(o, s.insert(insert_pos(o, s, e.datetime), e)),
{
    let p = insert_pos(o, s, e.datetime);
    lemma_insert_pos(o, s, e.datetime);
    let t = s.insert(p, e);
    s.insert_ensures(p, e);
    assert forall|i: int, j: int| 0 <= i < j < t.len() implies key_le(
        o,
        t[i].datetime,
        t[j].datetime,
    ) by {
        if i < p && j > p {
            assert(key_le(o, s[i].datetime, s[j - 1].datetime));
        }
        if i == p && j > p {
            assert(key_lt(o, e.datetime, s[p].datetime));
            assert(key_le(o, s[p].datetime, s[j - 1].datetime));
        }
    }
}

/// Under adjacent sortedness, `s[i]` may stand at or before `s[j]` for `i <= j`.
proof fn lemma_le_chain(o: SortOrder, s: Seq<EventView>, i: int, j: int)
    requires
        forall|k: int| 0 < k < s.len() ==> key_le(o, s[k - 1].datetime, (#[trigger] s[k]).datetime),
        0 <= i <= j < s.len(),
    ensures
        key_le(o, s[i].datetime, s[j].datetime),
    decreases j - i,
{
    if i < j {
        lemma_le_chain(o, s, i, j - 1);
        assert(key_le(o, s[j - 1].datetime, s[j].datetime));
    }
}

/// A sequence whose every adjacent pair is in order is sorted.
pub proof fn lemma_adjacent_implies_sorted(o: SortOrder, s: Seq<EventView>)
    requires
        forall|k: int| 0 < k < s.len() ==> key_le(o, s[k - 1].datetime, (#[trigger] s[k]).datetime),
    ensures
        sorted_by(o, s),
{
    assert forall|i: int, j: int| 0 <= i < j < s.len() implies key_le(
        o,
        s[i].datetime,
        s[j].datetime,
    ) by {
        lemma_le_chain(o, s, i, j);
    }
}

/// The ordered collection of committed events, sorted under a fixed policy.
pub struct Timeline {
    pub events: Vec<Event>,
    pub order: SortOrder,
}

impl View for Timeline {
    type V = Seq<EventView>;

    open spec fn view(&self) -> Seq<EventView> {
        self.events@.map_values(|e: Event| e@)
    }
}

impl Timeline {
    /// Every event is well-formed and the sequence is sorted by policy.
    pub open spec fn wf(&self) -> bool {
        &&& sorted_by(self.order, self@)
        &&& forall|i: int| 0 <= i < self@.len() ==> (#[trigger] self@[i]).datetime.wf()
    }

    /// An empty timeline under the given display policy.
    pub fn new(order: SortOrder) -> (t: Timeline)
        ensures
            t@ == Seq::<EventView>::empty(),
            t.order == order,
            t.wf(),
    {
        let t = Timeline { events: Vec::new(), order };
        proof {
            assert(t@ =~= Seq::<EventView>::empty());
        }
        t
    }

    /// Number of committed events.
    pub fn len(&self) -> (n: usize)
        ensures
            n == self@.len(),
    {
        self.events.len()
    }

    /// The committed events in display order, read-only.
    pub fn all(&self) -> (r: &Vec<Event>)
        ensures
            r@.len() == self@.len(),
            forall|i: int| 0 <= i < r@.len() ==> (#[trigger] r@[i])@ == self@[i],
    {
        &self.events
    }

    /// The event at display position `i`.
    pub fn get(&self, i: usize) -> (r: &Event)
        requires
            i < self@.len(),
        ensures
            r@ == self@[i as int],
    {
        &self.events[i]
    }

    /// Append a committed event and re-establish the sort order: the event is
    /// placed at `insert_pos`, after every event with an equal date-time.
    pub fn commit(&mut self, e: Event)
        requires
            old(self).wf(),
            e.wf(),
        ensures
            final(self).order == old(self).order,
            final(self)@ == old(self)@.insert(
                insert_pos(old(self).order, old(self)@, e@.datetime),
                e@,
            ),
            final(self).wf(),
    {
        let d = e.datetime;
        let ghost s0 = self@;
        let ghost o = self.order;
        let mut i: usize = 0;
        loop
            invariant
                *self == *old(self),
                s0 == self@,
                o == self.order,
                i <= self.events.len(),
                forall|j: int| 0 <= j < i ==> !key_lt(o, d, s0[j].datetime),
            ensures
                *self == *old(self),
                i <= self.events.len(),
                forall|j: int| 0 <= j < i ==> !key_lt(o, d, s0[j].datetime),
                i < self.events.len() ==> key_lt(o, d, s0[i as int].datetime),
            decreases self.events.len() - i,
        {
            if i == self.events.len() {
                break ;
            }
            proof {
                assert(s0[i as int] == self.events@[i as int]@);
            }
            if before(self.order, &d, &self.events[i].datetime) {
                break ;
            }
            i += 1;
        }
        proof {
            lemma_insert_pos(o, s0, d);
            let p = insert_pos(o, s0, d);
            if i < p {
                assert(key_lt(o, d, s0[i as int].datetime));
                assert(false);
            }
            if p < i {
                assert(!key_lt(o, d, s0[p].datetime));
                assert(false);
            }
        }
        self.events.insert(i, e);
        proof {
            let p = i as int;
            s0.insert_ensures(p, e@);
            assert(self@ =~= s0.insert(p, e@));
            lemma_insert_sorted(o, s0, e@);
            assert forall|k: int| 0 <= k < self@.len() implies (
            #[trigger] self@[k]).datetime.wf() by {
                if k < p {
                    assert(self@[k] == s0[k]);
                } else if k > p {
                    assert(self@[k] == s0[k - 1]);
                }
            }
        }
    }

    /// Replace the name and description of the event at display position `i`,
    /// leaving its date-time — and so the sort order — untouched. This is the
    /// inline-edit mode; a timeline whose events are read-only never calls it.
    pub fn edit_texts(&mut self, i: usize, name: String, desc: String)
        requires
            old(self).wf(),
            i < old(self)@.len(),
        ensures
            final(self).order == old(self).order,
            final(self)@ == old(self)@.update(
                i as int,
                (EventView { name: name@, desc: desc@, datetime: old(self)@[i as int].datetime }),
            ),
            final(self).wf(),
    {
        let ghost s0 = self@;
        let ghost o = self.order;
        let dt = self.events[i].datetime;
        self.events[i] = Event { name, datetime: dt, desc };
        proof {
            let t = s0.update(
                i as int,
                EventView { name: name@, desc: desc@, datetime: s0[i as int].datetime },
            );
            assert(self@ =~= t);
            assert forall|k: int| 0 <= k < t.len() implies (#[trigger] t[k]).datetime
                == s0[k].datetime by {}
            assert forall|a: int, b: int| 0 <= a < b < t.len() implies key_le(
                o,
                t[a].datetime,
                t[b].datetime,
            ) by {
                assert(key_le(o, s0[a].datetime, s0[b].datetime));
            }
        }
    }

    /// Runtime check of the timeline invariant.
    pub fn valid(&self) -> (r: bool)
        ensures
            r == self.wf(),
    {
        let r = check_event_list(&self.events, self.order);
        proof {
            let s = self@;
            let v = self.events@;
            if forall|i: int| 0 <= i < s.len() ==> (#[trigger] s[i]).datetime.wf() {
                assert forall|i: int| 0 <= i < v.len() implies (
                #[trigger] v[i])@.datetime.wf() by {
                    assert(s[i] == v[i]@);
                }
            }
            if forall|i: int| 0 <= i < v.len() ==> (#[trigger] v[i])@.datetime.wf() {
                assert forall|i: int| 0 <= i < s.len() implies (#[trigger] s[i]).datetime.wf() by {
                    assert(s[i] == v[i]@);
                }
            }
        }
        r
    }

    /// Clear to the empty timeline; the display policy is kept.
    pub fn reset(&mut self)
        ensures
            final(self)@ == Seq::<EventView>::empty(),
            final(self).order == old(self).order,
            final(self).wf(),
    {
        self.events.clear();
        proof {
            assert(self@ =~= Seq::<EventView>::empty());
        }
    }
}

/// Whether the list satisfies the timeline invariant under policy `o`:
/// every date-time real, every adjacent pair in order.
pub(crate) fn check_event_list(v: &Vec<Event>, o: SortOrder) -> (r: bool)
    ensures
        r == (sorted_by(o, v@.map_values(|e: Event| e@)) && (forall|i: int|
            0 <= i < v@.len() ==> (#[trigger] v@[i])@.datetime.wf())),
{
    let ghost s = v@.map_values(|e: Event| e@);
    let mut i: usize = 0;
    while i < v.len()
        invariant
            i <= v@.len(),
            s == v@.map_values(|e: Event| e@),
            forall|j: int| 0 <= j < i ==> (#[trigger] s[j]).datetime.wf(),
            forall|j: int| 1 <= j < i ==> key_le_at(o, s, j),
        decreases v@.len() - i,
    {
        proof {
            assert(s[i as int] == v@[i as int]@);
        }
        if !v[i].datetime.valid() {
            return false;
        }
        if i > 0 {
            proof {
                assert(s[i as int - 1] == v@[i as int - 1]@);
            }
            if !key_le_exec(o, &v[i - 1].datetime, &v[i].datetime) {
                proof {
                    assert(!sorted_by(o, s)) by {
                        if sorted_by(o, s) {
                            assert(key_le(o, s[i as int - 1].datetime, s[i as int].datetime));
                        }
                    }
                }
                return false;
            }
        }
        i += 1;
    }
    proof {
        assert forall|k: int| 0 < k < s.len() implies key_le(
            o,
            s[k - 1].datetime,
            (#[trigger] s[k]).datetime,
        ) by {
            assert(key_le_at(o, s, k));
        }
        lemma_adjacent_implies_sorted(o, s);
        assert forall|k: int| 0 <= k < v@.len() implies (#[trigger] v@[k])@.datetime.wf() by {
            assert(s[k] == v@[k]@);
        }
    }
    true
}

/// Pair `j-1`, `j` of `s` is in order under `o`.
pub open spec fn key_le_at(o: SortOrder, s: Seq<EventView>, j: int) -> bool {
    key_le(o, s[j - 1].datetime, s[j].datetime)
}

/// Runtime form of `key_le`.
pub(crate) fn key_le_exec(o: SortOrder, a: &DateTime, b: &DateTime) -> (r: bool)
    ensures
        r == key_le(o, *a, *b),
{
    match o {
        SortOrder::Ascending => a.le(b),
        SortOrder::Descending => b.le(a),
    }
}

/// Runtime form of `key_lt`.
fn before(o: SortOrder, a: &DateTime, b: &DateTime) -> (r: bool)
    ensures
        r == key_lt(o, *a, *b),
{
    !key_le_exec(o, b, a)
}

} // verus!
