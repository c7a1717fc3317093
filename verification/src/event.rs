//! Events and the entry-form draft.
//!
//! An [`Event`] is a name, a well-formed calendar date-time, and a free-text
//! description. Events are staged in an [`AddEvent`] draft: the form opens,
//! fields are edited one at a time (date-time edits go through composition and
//! are ignored on failure), and the draft is either submitted or cancelled.

use crate::datetime::compose;
use crate::datetime::DateTime;
use vstd::prelude::*;

verus! {

/// A single user-recorded occurrence. Never mutated once committed, apart
/// from the optional inline name/description edit mode of the timeline.
#[derive(Clone, Debug, PartialEq, Eq)]
pub struct Event {
    pub name: String,
    pub datetime: DateTime,
    pub desc: String,
}

/// Mathematical image of an [`Event`]: both texts as character sequences.
#[verifier::ext_equal]
pub struct EventView {
    pub name: Seq<char>,
    pub datetime: DateTime,
    pub desc: Seq<char>,
}

impl View for Event {
    type V = EventView;

    open spec fn view(&self) -> EventView {
        EventView { name: self.name@, datetime: self.datetime, desc: self.desc@ }
    }
}

impl Event {
    /// The stored date-time is a real calendar date-time.
    pub open spec fn wf(&self) -> bool {
        self.datetime.wf()
    }

    /// Build an event from already validated parts.
    pub fn new(name: String, datetime: DateTime, desc: String) -> (e: Event)
        requires
            datetime.wf(),
        ensures
            e@ == (EventView { name: name@, datetime, desc: desc@ }),
            e.wf(),
    {
        Event { name, datetime, desc }
    }

    /// An independent copy with the same name, date-time and description.
    pub fn snapshot(&self) -> (r: Event)
        ensures
            r@ == self@,
    {
        Event { name: self.name.clone(), datetime: self.datetime, desc: self.desc.clone() }
    }
}

impl Default for Event {
    /// Empty name and description, stamped with the current UTC date-time
    /// (or the epoch if the machine clock yields no representable value).
    fn default() -> (e: Event)
        ensures
            e@.name == Seq::<char>::empty(),
            e@.desc == Seq::<char>::empty(),
            e.wf(),
    {
        Event {
            name: String::new(),
            datetime: crate::datetime::now_or_epoch(),
            desc: String::new(),
        }
    }
}

/// One field edit of the draft's working event: a single date or time
/// component, the full date picked atomically, or one of the two texts.
pub enum FieldUpdate {
    Year(i32),
    Month(u32),
    Day(u32),
    Hour(u32),
    Minute(u32),
    Second(u32),
    FullDate(i32, u32, u32),
    Name(String),
    Description(String),
}

/// The date-time the edit asks for: `dt` with the named component replaced.
/// Text edits leave the date-time alone.
pub open spec fn candidate(dt: DateTime, f: FieldUpdate) -> DateTime {
    match f {
        FieldUpdate::Year(y) => DateTime { year: y, ..dt },
        FieldUpdate::Month(m) => DateTime { month: m, ..dt },
        FieldUpdate::Day(d) => DateTime { day: d, ..dt },
        FieldUpdate::Hour(h) => DateTime { hour: h, ..dt },
        FieldUpdate::Minute(mi) => DateTime { minute: mi, ..dt },
        FieldUpdate::Second(s) => DateTime { second: s, ..dt },
        FieldUpdate::FullDate(y, m, d) => DateTime { year: y, month: m, day: d, ..dt },
        FieldUpdate::Name(_) => dt,
        FieldUpdate::Description(_) => dt,
    }
}

/// Whether the edit is taken: text edits always, date-time edits exactly when
/// the candidate is a real calendar date-time.
pub open spec fn update_accepted(e: EventView, f: FieldUpdate) -> bool {
    match f {
        FieldUpdate::Name(_) => true,
        FieldUpdate::Description(_) => true,
        _ => candidate(e.datetime, f).wf(),
    }
}

/// The working event after the edit: the named member replaced, or unchanged
/// if a date-time edit failed composition.
pub open spec fn apply_update(e: EventView, f: FieldUpdate) -> EventView {
    match f {
        FieldUpdate::Name(n) => EventView { name: n@, ..e },
        FieldUpdate::Description(d) => EventView { desc: d@, ..e },
        _ => if candidate(e.datetime, f).wf() {
            EventView { datetime: candidate(e.datetime, f), ..e }
        } else {
            e
        },
    }
}

/// The entry-form draft: whether the form is shown, the working event, and
/// whether the user confirmed it this cycle.
pub struct AddEvent {
    pub open: bool,
    pub event: Event,
    pub submitted: bool,
}

/// Mathematical image of an [`AddEvent`].
#[verifier::ext_equal]
pub struct AddEventView {
    pub open: bool,
    pub event: EventView,
    pub submitted: bool,
}

/// A fresh draft: form closed, nothing confirmed, working event with empty
/// texts and some well-formed date-time.
pub open spec fn draft_fresh(d: AddEventView) -> bool {
    &&& !d.open
    &&& !d.submitted
    &&& d.event.name == Seq::<char>::empty()
    &&& d.event.desc == Seq::<char>::empty()
    &&& d.event.datetime.wf()
}

impl View for AddEvent {
    type V = AddEventView;

    open spec fn view(&self) -> AddEventView {
        AddEventView { open: self.open, event: self.event@, submitted: self.submitted }
    }
}

impl AddEvent {
    /// The draft's working event is well-formed.
    pub open spec fn wf(&self) -> bool {
        self.event.wf()
    }

    pub fn title(&self) -> (r: &'static str)
        ensures
            r@ == "Add New Event Information"@,
    {
        "Add New Event Information"
    }

    /// Present the entry form; a no-op if it is already open.
    pub fn open_form(&mut self)
        ensures
            final(self)@ == (AddEventView { open: true, ..old(self)@ }),
    {
        self.open = true;
    }

    /// Confirm the working event. Consuming it into the timeline and
    /// resetting the draft is the owner's step.
    pub fn submit(&mut self)
        ensures
            final(self)@ == (AddEventView { submitted: true, ..old(self)@ }),
    {
        self.submitted = true;
    }

    /// Discard all edits: close the form and reset the working event to a
    /// fresh default. The confirmation flag is not touched.
    pub fn cancel(&mut self)
        ensures
            !final(self).open,
            final(self).submitted == old(self).submitted,
            final(self)@.event.name == Seq::<char>::empty(),
            final(self)@.event.desc == Seq::<char>::empty(),
            final(self).wf(),
    {
        self.open = false;
        self.event = Event::default();
    }

    /// Apply one field edit to the working event. A date-time edit whose
    /// candidate fails composition is ignored: the previous valid value
    /// stays, and `false` is returned.
    pub fn update_field(&mut self, f: FieldUpdate) -> (accepted: bool)
        ensures
            final(self).event@ == apply_update(old(self).event@, f),
            accepted == update_accepted(old(self).event@, f),
            final(self).open == old(self).open,
            final(self).submitted == old(self).submitted,
            old(self).wf() ==> final(self).wf(),
    {
        match f {
            FieldUpdate::Name(n) => {
                self.event.name = n;
                true
            },
            FieldUpdate::Description(d) => {
                self.event.desc = d;
                true
            },
            _ => {
                let dt = self.event.datetime;
                let c = match f {
                    FieldUpdate::Year(y) => DateTime { year: y, ..dt },
                    FieldUpdate::Month(m) => DateTime { month: m, ..dt },
                    FieldUpdate::Day(d) => DateTime { day: d, ..dt },
                    FieldUpdate::Hour(h) => DateTime { hour: h, ..dt },
                    FieldUpdate::Minute(mi) => DateTime { minute: mi, ..dt },
                    FieldUpdate::Second(s) => DateTime { second: s, ..dt },
                    FieldUpdate::FullDate(y, m, d) => DateTime {
                        year: y,
                        month: m,
                        day: d,
                        ..dt
                    },
                    FieldUpdate::Name(_) => dt,
                    FieldUpdate::Description(_) => dt,
                };
                match compose(c.year, c.month, c.day, c.hour, c.minute, c.second) {
                    Some(dt2) => {
                        self.event.datetime = dt2;
                        true
                    },
                    None => false,
                }
            },
        }
    }
}

impl Default for AddEvent {
    /// A fresh draft.
    fn default() -> (d: AddEvent)
        ensures
            draft_fresh(d@),
            d.wf(),
    {
        AddEvent { open: false, event: Event::default(), submitted: false }
    }
}

} // verus!
