//! The persisted snapshot: a self-describing key-value blob.
//!
//! [`snapshot`] turns the whole application state into a [`Blob`], a list of
//! keyed fields; [`restore`] rebuilds the state from one. The format is
//! tolerant in both directions: entries under unknown keys are ignored, and a
//! field that is absent or malformed (an event with an impossible date-time,
//! an event list out of order) falls back to its documented default — it
//! never aborts the whole load. Moving a blob to and from durable storage is
//! the host's business.

use crate::about::About;
use crate::datetime::DateTime;
use crate::event::AddEvent;
use crate::event::Event;
use crate::event::EventView;
use crate::state::TimelineApp;
use crate::timeline::sorted_by;
use crate::timeline::SortOrder;
use crate::timeline::Timeline;
use vstd::prelude::*;

verus! {

pub const KEY_ABOUT_OPEN: u64 = 1;

pub const KEY_DRAFT_OPEN: u64 = 2;

pub const KEY_DRAFT_SUBMITTED: u64 = 3;

pub const KEY_DRAFT_EVENT: u64 = 4;

pub const KEY_ORDER: u64 = 5;

pub const KEY_EVENTS: u64 = 6;

pub const KEY_LIGHT: u64 = 7;

pub const KEY_EDITABLE: u64 = 8;

/// One persisted field's payload.
pub enum FieldValue {
    Flag(bool),
    Order(SortOrder),
    Ev(Event),
    Events(Vec<Event>),
}

/// Mathematical image of a [`FieldValue`].
#[verifier::ext_equal]
pub enum FieldValueView {
    Flag(bool),
    Order(SortOrder),
    Ev(EventView),
    Events(Seq<EventView>),
}

impl View for FieldValue {
    type V = FieldValueView;

    open spec fn view(&self) -> FieldValueView {
        match self {
            FieldValue::Flag(x) => FieldValueView::Flag(*x),
            FieldValue::Order(o) => FieldValueView::Order(*o),
            FieldValue::Ev(e) => FieldValueView::Ev(e@),
            FieldValue::Events(v) => FieldValueView::Events(v@.map_values(|e: Event| e@)),
        }
    }
}

/// One keyed field of the blob.
pub struct BlobEntry {
    pub key: u64,
    pub value: FieldValue,
}

/// Mathematical image of a [`BlobEntry`].
#[verifier::ext_equal]
pub struct EntryView {
    pub key: u64,
    pub value: FieldValueView,
}

impl View for BlobEntry {
    type V = EntryView;

    open spec fn view(&self) -> EntryView {
        EntryView { key: self.key, value: self.value@ }
    }
}

/// The persisted unit: named fields in no required order.
pub struct Blob {
    pub entries: Vec<BlobEntry>,
}

impl View for Blob {
    type V = Seq<EntryView>;

    open spec fn view(&self) -> Seq<EntryView> {
        self.entries@.map_values(|e: BlobEntry| e@)
    }
}

/// The first entry under `key`, if any.
pub open spec fn spec_lookup(b: Seq<EntryView>, key: u64) -> Option<FieldValueView>
    decreases b.len(),
{
    if b.len() == 0 {
        None
    } else if b[0].key == key {
        Some(b[0].value)
    } else {
        spec_lookup(b.drop_first(), key)
    }
}

/// A boolean field, or its default when absent or of another shape.
pub open spec fn flag_of(b: Seq<EntryView>, key: u64, dflt: bool) -> bool {
    match spec_lookup(b, key) {
        Some(FieldValueView::Flag(x)) => x,
        _ => dflt,
    }
}

/// The display policy field; ascending when absent or malformed.
pub open spec fn order_of(b: Seq<EntryView>) -> SortOrder {
    match spec_lookup(b, KEY_ORDER) {
        Some(FieldValueView::Order(o)) => o,
        _ => SortOrder::Ascending,
    }
}

/// The draft's working event as a fresh one with the given date-time.
pub open spec fn default_event_view(dt: DateTime) -> EventView {
    EventView { name: Seq::<char>::empty(), datetime: dt, desc: Seq::<char>::empty() }
}

/// The draft event field; one whose date-time is impossible, like a missing
/// one, is replaced by a fresh event stamped `fallback`.
pub open spec fn event_of(b: Seq<EntryView>, fallback: DateTime) -> EventView {
    match spec_lookup(b, KEY_DRAFT_EVENT) {
        Some(FieldValueView::Ev(e)) => if e.datetime.wf() {
            e
        } else {
            default_event_view(fallback)
        },
        _ => default_event_view(fallback),
    }
}

/// The committed events field. A list that breaks the timeline's invariant —
/// an impossible date-time, or events out of the order `o` — is malformed as
/// a whole and takes the default, the empty timeline.
pub open spec fn events_of(b: Seq<EntryView>, o: SortOrder) -> Seq<EventView> {
    match spec_lookup(b, KEY_EVENTS) {
        Some(FieldValueView::Events(s)) => if sorted_by(o, s) && (forall|i: int|
            0 <= i < s.len() ==> (#[trigger] s[i]).datetime.wf()) {
            s
        } else {
            Seq::<EventView>::empty()
        },
        _ => Seq::<EventView>::empty(),
    }
}

/// The blob that [`snapshot`] writes: every field of the state under its key.
pub open spec fn spec_snapshot(s: TimelineApp) -> Seq<EntryView> {
    seq![
        EntryView { key: KEY_ABOUT_OPEN, value: FieldValueView::Flag(s.about.open) },
        EntryView { key: KEY_DRAFT_OPEN, value: FieldValueView::Flag(s.add_event.open) },
        EntryView { key: KEY_DRAFT_SUBMITTED, value: FieldValueView::Flag(s.add_event.submitted) },
        EntryView { key: KEY_DRAFT_EVENT, value: FieldValueView::Ev(s.add_event.event@) },
        EntryView { key: KEY_ORDER, value: FieldValueView::Order(s.events.order) },
        EntryView { key: KEY_EVENTS, value: FieldValueView::Events(s.events@) },
        EntryView { key: KEY_LIGHT, value: FieldValueView::Flag(s.light) },
        EntryView { key: KEY_EDITABLE, value: FieldValueView::Flag(s.events_editable) },
    ]
}

/// Skipping entries that miss the key does not change the lookup.
proof fn lemma_lookup_skip(b: Seq<EntryView>, key: u64, i: int)
    requires
        0 <= i <= b.len(),
        forall|j: int| 0 <= j < i ==> b[j].key != key,
    ensures
        spec_lookup(b, key) == spec_lookup(b.skip(i), key),
    decreases i,
{
    if i == 0 {
        assert(b.skip(0) =~= b);
    } else {
        lemma_lookup_skip(b, key, i - 1);
        assert(b[i - 1].key != key);
        assert(b.skip(i - 1)[0] == b[i - 1]);
        assert(b.skip(i - 1).drop_first() =~= b.skip(i));
        assert(spec_lookup(b.skip(i - 1), key) == spec_lookup(b.skip(i - 1).drop_first(), key));
    }
}

/// Element-by-element copy of an event list.
fn copy_events(v: &Vec<Event>) -> (r: Vec<Event>)
    ensures
        r@.len() == v@.len(),
        forall|j: int| 0 <= j < v@.len() ==> (#[trigger] r@[j])@ == v@[j]@,
        r@.map_values(|e: Event| e@) == v@.map_values(|e: Event| e@),
{
    let mut r: Vec<Event> = Vec::new();
    let mut i: usize = 0;
    while i < v.len()
        invariant
            i <= v@.len(),
            r@.len() == i,
            forall|j: int| 0 <= j < i ==> (#[trigger] r@[j])@ == v@[j]@,
        decreases v@.len() - i,
    {
        r.push(v[i].snapshot());
        i += 1;
    }
    proof {
        assert(r@.map_values(|e: Event| e@) =~= v@.map_values(|e: Event| e@));
    }
    r
}

/// The first entry of the blob under `key`, if any.
fn lookup<'a>(b: &'a Blob, key: u64) -> (r: Option<&'a FieldValue>)
    ensures
        match r {
            Some(v) => spec_lookup(b@, key) == Some(v@),
            None => spec_lookup(b@, key) is None,
        },
{
    let mut i: usize = 0;
    while i < b.entries.len()
        invariant
            i <= b@.len(),
            forall|j: int| 0 <= j < i ==> (#[trigger] b@[j]).key != key,
        decreases b@.len() - i,
    {
        proof {
            assert(b@[i as int] == b.entries@[i as int]@);
        }
        if b.entries[i].key == key {
            proof {
                lemma_lookup_skip(b@, key, i as int);
                assert(b@.skip(i as int)[0] == b@[i as int]);
            }
            return Some(&b.entries[i].value);
        }
        i += 1;
    }
    proof {
        lemma_lookup_skip(b@, key, b@.len() as int);
        assert(b@.skip(b@.len() as int).len() == 0);
    }
    None
}

/// A complete, self-describing snapshot of the application state.
pub fn snapshot(s: &TimelineApp) -> (b: Blob)
    ensures
        b@ == spec_snapshot(*s),
{
    let events_copy = copy_events(s.events.all());
    proof {
        assert(events_copy@.map_values(|e: Event| e@) =~= s.events@);
    }
    let mut entries: Vec<BlobEntry> = Vec::new();
    entries.push(BlobEntry { key: KEY_ABOUT_OPEN, value: FieldValue::Flag(s.about.open) });
    entries.push(BlobEntry { key: KEY_DRAFT_OPEN, value: FieldValue::Flag(s.add_event.open) });
    entries.push(
        BlobEntry { key: KEY_DRAFT_SUBMITTED, value: FieldValue::Flag(s.add_event.submitted) },
    );
    entries.push(
        BlobEntry { key: KEY_DRAFT_EVENT, value: FieldValue::Ev(s.add_event.event.snapshot()) },
    );
    entries.push(BlobEntry { key: KEY_ORDER, value: FieldValue::Order(s.events.order) });
    entries.push(BlobEntry { key: KEY_EVENTS, value: FieldValue::Events(events_copy) });
    entries.push(BlobEntry { key: KEY_LIGHT, value: FieldValue::Flag(s.light) });
    entries.push(BlobEntry { key: KEY_EDITABLE, value: FieldValue::Flag(s.events_editable) });
    let b = Blob { entries };
    proof {
        assert(b@ =~= spec_snapshot(*s));
    }
    b
}

/// Rebuild the application state from a blob. Every field falls back to its
/// documented default when absent or malformed; `fallback` stamps the draft
/// event if its stored date-time is missing or impossible. Unknown keys are
/// ignored. The result always satisfies the state invariant.
pub fn restore(b: &Blob, fallback: DateTime) -> (s: TimelineApp)
    requires
        fallback.wf(),
    ensures
        s.about.open == flag_of(b@, KEY_ABOUT_OPEN, false),
        s.add_event.open == flag_of(b@, KEY_DRAFT_OPEN, false),
        s.add_event.submitted == flag_of(b@, KEY_DRAFT_SUBMITTED, false),
        s.add_event.event@ == event_of(b@, fallback),
        s.events.order == order_of(b@),
        s.events@ == events_of(b@, order_of(b@)),
        s.light == flag_of(b@, KEY_LIGHT, false),
        s.events_editable == flag_of(b@, KEY_EDITABLE, false),
        s.wf(),
{
    let about_open = read_flag(b, KEY_ABOUT_OPEN);
    let draft_open = read_flag(b, KEY_DRAFT_OPEN);
    let draft_submitted = read_flag(b, KEY_DRAFT_SUBMITTED);
    let light = read_flag(b, KEY_LIGHT);
    let events_editable = read_flag(b, KEY_EDITABLE);
    let order = read_order(b);
    let draft_event = read_draft_event(b, fallback);
    let events = read_events(b, order);
    TimelineApp {
        about: About { open: about_open },
        add_event: AddEvent { open: draft_open, event: draft_event, submitted: draft_submitted },
        events: Timeline { events, order },
        light,
        events_editable,
    }
}

/// The display policy field of the blob; ascending when absent or malformed.
fn read_order(b: &Blob) -> (o: SortOrder)
    ensures
        o == order_of(b@),
{
    match lookup(b, KEY_ORDER) {
        Some(FieldValue::Order(o)) => *o,
        _ => SortOrder::Ascending,
    }
}

/// The draft event field of the blob; a fresh event stamped `fallback` when
/// absent or holding an impossible date-time.
fn read_draft_event(b: &Blob, fallback: DateTime) -> (e: Event)
    requires
        fallback.wf(),
    ensures
        e@ == event_of(b@, fallback),
        e.wf(),
{
    match lookup(b, KEY_DRAFT_EVENT) {
        Some(FieldValue::Ev(e)) => if e.datetime.valid() {
            e.snapshot()
        } else {
            Event::new(String::new(), fallback, String::new())
        },
        _ => Event::new(String::new(), fallback, String::new()),
    }
}

/// The committed events field of the blob; the empty list when absent or in
/// breach of the timeline invariant under policy `o`.
fn read_events(b: &Blob, o: SortOrder) -> (r: Vec<Event>)
    ensures
        r@.map_values(|e: Event| e@) == events_of(b@, o),
        sorted_by(o, r@.map_values(|e: Event| e@)),
        forall|i: int| 0 <= i < r@.len() ==> (#[trigger] r@[i])@.datetime.wf(),
{
    match lookup(b, KEY_EVENTS) {
        Some(fv) => match fv {
            FieldValue::Events(v) => if crate::timeline::check_event_list(v, o) {
                let r = copy_events(v);
                proof {
                    assert(spec_lookup(b@, KEY_EVENTS) == Some(
                        FieldValueView::Events(v@.map_values(|e: Event| e@)),
                    ));
                    assert forall|i: int| 0 <= i < r@.len() implies (
                    #[trigger] r@[i])@.datetime.wf() by {
                        assert(r@[i]@ == v@[i]@);
                        assert(v@[i]@.datetime.wf());
                    }
                }
                r
            } else {
                proof {
                    let sv = v@.map_values(|e: Event| e@);
                    if forall|i: int| 0 <= i < sv.len() ==> (#[trigger] sv[i]).datetime.wf() {
                        assert forall|i: int| 0 <= i < v@.len() implies (
                        #[trigger] v@[i])@.datetime.wf() by {
                            assert(sv[i] == v@[i]@);
                        }
                        assert(!sorted_by(o, sv));
                    }
                    assert(events_of(b@, o) == Seq::<EventView>::empty());
                }
                empty_events()
            },
            _ => {
                proof {
                    assert(!(fv@ is Events));
                    assert(events_of(b@, o) == Seq::<EventView>::empty());
                }
                empty_events()
            },
        },
        None => {
            proof {
                assert(events_of(b@, o) == Seq::<EventView>::empty());
            }
            empty_events()
        },
    }
}

/// The default for the committed events field: none.
fn empty_events() -> (r: Vec<Event>)
    ensures
        r@.map_values(|e: Event| e@) == Seq::<EventView>::empty(),
{
    let r: Vec<Event> = Vec::new();
    proof {
        assert(r@.map_values(|e: Event| e@) =~= Seq::<EventView>::empty());
    }
    r
}

/// A boolean field of the blob, `false` when absent or of another shape.
fn read_flag(b: &Blob, key: u64) -> (r: bool)
    ensures
        r == flag_of(b@, key, false),
{
    match lookup(b, key) {
        Some(FieldValue::Flag(x)) => *x,
        _ => false,
    }
}

/// Round trip: restoring a snapshot of any well-formed state rebuilds that
/// state — the same events in the same order (so the same multiset of
/// events), the same draft, the same policy and flags — whatever date-time
/// the restore would have used as a fallback.
pub proof fn lemma_round_trip(s: TimelineApp, fallback: DateTime)
    requires
        s.wf(),
    ensures
        flag_of(spec_snapshot(s), KEY_ABOUT_OPEN, false) == s.about.open,
        flag_of(spec_snapshot(s), KEY_DRAFT_OPEN, false) == s.add_event.open,
        flag_of(spec_snapshot(s), KEY_DRAFT_SUBMITTED, false) == s.add_event.submitted,
        event_of(spec_snapshot(s), fallback) == s.add_event.event@,
        order_of(spec_snapshot(s)) == s.events.order,
        events_of(spec_snapshot(s), order_of(spec_snapshot(s))) == s.events@,
        events_of(spec_snapshot(s), order_of(spec_snapshot(s))).to_multiset()
            == s.events@.to_multiset(),
        flag_of(spec_snapshot(s), KEY_LIGHT, false) == s.light,
        flag_of(spec_snapshot(s), KEY_EDITABLE, false) == s.events_editable,
{
    let b = spec_snapshot(s);
    lemma_lookup_unfold(b);
}

/// Unfold `spec_lookup` across the eight entries of a written snapshot.
proof fn lemma_lookup_unfold(b: Seq<EntryView>)
    requires
        b.len() == 8,
        forall|i: int, j: int| 0 <= i < j < 8 ==> (#[trigger] b[i]).key != (#[trigger] b[j]).key,
    ensures
        forall|i: int| 0 <= i < 8 ==> spec_lookup(b, (#[trigger] b[i]).key) == Some(b[i].value),
{
    assert forall|i: int| 0 <= i < 8 implies spec_lookup(b, (#[trigger] b[i]).key) == Some(
        b[i].value,
    ) by {
        lemma_lookup_at(b, i);
    }
}

/// `spec_lookup` under the key of entry `i` yields entry `i` when no earlier
/// entry shares that key.
proof fn lemma_lookup_at(b: Seq<EntryView>, i: int)
    requires
        0 <= i < b.len(),
        forall|j: int| 0 <= j < i ==> (#[trigger] b[j]).key != b[i].key,
    ensures
        spec_lookup(b, b[i].key) == Some(b[i].value),
{
    lemma_lookup_skip(b, b[i].key, i);
    assert(b.skip(i)[0] == b[i]);
}

} // verus!
