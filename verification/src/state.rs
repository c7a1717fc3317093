//! The whole application state and the host-facing commands.
//!
//! A [`TimelineApp`] bundles the timeline, the entry-form draft and the
//! presentation flags into the one unit that is persisted. The host
//! (render loop, storage scheduler) drives it exclusively through the
//! commands here, one user action at a time.

use crate::about::About;
use crate::event::apply_update;
use crate::event::draft_fresh;
use crate::event::update_accepted;
use crate::event::AddEvent;
use crate::event::AddEventView;
use crate::event::Event;
use crate::event::EventView;
use crate::event::FieldUpdate;
use crate::timeline::insert_pos;
use crate::timeline::SortOrder;
use crate::timeline::Timeline;
use vstd::prelude::*;

verus! {

/// The persisted unit: timeline, draft and presentation flags.
pub struct TimelineApp {
    pub about: About,
    pub add_event: AddEvent,
    pub events: Timeline,
    pub light: bool,
    pub events_editable: bool,
}

impl TimelineApp {
    /// Timeline sorted and every stored date-time real.
    pub open spec fn wf(&self) -> bool {
        &&& self.events.wf()
        &&& self.add_event.wf()
    }

    /// A fresh application state under the given configuration: empty
    /// timeline, fresh draft, all dialogs closed, dark visuals.
    pub fn new(order: SortOrder, events_editable: bool) -> (s: TimelineApp)
        ensures
            s.events@ == Seq::<EventView>::empty(),
            s.events.order == order,
            draft_fresh(s.add_event@),
            !s.about.open,
            !s.light,
            s.events_editable == events_editable,
            s.wf(),
    {
        TimelineApp {
            about: About::default(),
            add_event: AddEvent::default(),
            events: Timeline::new(order),
            light: false,
            events_editable,
        }
    }

    /// Present the entry form.
    pub fn open_add_event_form(&mut self)
        ensures
            final(self).add_event@ == (AddEventView { open: true, ..old(self).add_event@ }),
            final(self).events == old(self).events,
            final(self).about == old(self).about,
            final(self).light == old(self).light,
            final(self).events_editable == old(self).events_editable,
            old(self).wf() ==> final(self).wf(),
    {
        self.add_event.open_form();
    }

    /// Discard the draft's edits and close the form. The timeline is never
    /// touched: a cancelled draft produces no entry.
    pub fn cancel_add_event_form(&mut self)
        ensures
            final(self).events == old(self).events,
            !final(self).add_event.open,
            final(self).add_event.submitted == old(self).add_event.submitted,
            final(self).add_event@.event.name == Seq::<char>::empty(),
            final(self).add_event@.event.desc == Seq::<char>::empty(),
            final(self).about == old(self).about,
            final(self).light == old(self).light,
            final(self).events_editable == old(self).events_editable,
            final(self).add_event.wf(),
            old(self).wf() ==> final(self).wf(),
    {
        self.add_event.cancel();
    }

    /// Apply one field edit to the draft's working event. A date-time edit
    /// whose candidate is no real calendar date-time is ignored — the prior
    /// valid value stays — and nothing is committed either way.
    pub fn update_draft_field(&mut self, f: FieldUpdate) -> (accepted: bool)
        ensures
            final(self).add_event.event@ == apply_update(old(self).add_event.event@, f),
            accepted == update_accepted(old(self).add_event.event@, f),
            final(self).add_event.open == old(self).add_event.open,
            final(self).add_event.submitted == old(self).add_event.submitted,
            final(self).events == old(self).events,
            final(self).about == old(self).about,
            final(self).light == old(self).light,
            final(self).events_editable == old(self).events_editable,
            old(self).wf() ==> final(self).wf(),
    {
        self.add_event.update_field(f)
    }

    /// Confirm the draft: its working event is committed into the timeline at
    /// its sort position, and the draft is reset to a fresh default.
    pub fn submit_draft(&mut self)
        requires
            old(self).wf(),
        ensures
            final(self).events.order == old(self).events.order,
            final(self).events@ == old(self).events@.insert(
                insert_pos(
                    old(self).events.order,
                    old(self).events@,
                    old(self).add_event.event@.datetime,
                ),
                old(self).add_event.event@,
            ),
            draft_fresh(final(self).add_event@),
            final(self).about == old(self).about,
            final(self).light == old(self).light,
            final(self).events_editable == old(self).events_editable,
            final(self).wf(),
    {
        self.add_event.submit();
        let e = self.add_event.event.snapshot();
        self.events.commit(e);
        self.add_event = AddEvent::default();
    }

    /// The single user-facing reset: empty timeline and a fresh draft,
    /// atomically. The display policy and the presentation flags survive.
    pub fn reset_timeline(&mut self)
        ensures
            final(self).events@ == Seq::<EventView>::empty(),
            final(self).events.order == old(self).events.order,
            draft_fresh(final(self).add_event@),
            final(self).about == old(self).about,
            final(self).light == old(self).light,
            final(self).events_editable == old(self).events_editable,
            final(self).wf(),
    {
        self.events.reset();
        self.add_event = AddEvent::default();
    }

    /// Inline edit of a committed event's name and description, available
    /// only in the editable mode. The event's date-time is never changed, so
    /// the timeline's order is undisturbed. Returns whether the edit took.
    pub fn edit_event(&mut self, i: usize, name: String, desc: String) -> (done: bool)
        requires
            old(self).wf(),
        ensures
            done == (old(self).events_editable && i < old(self).events@.len()),
            done ==> final(self).events@ == old(self).events@.update(
                i as int,
                (EventView {
                    name: name@,
                    desc: desc@,
                    datetime: old(self).events@[i as int].datetime,
                }),
            ),
            !done ==> final(self).events == old(self).events,
            final(self).events.order == old(self).events.order,
            final(self).add_event == old(self).add_event,
            final(self).about == old(self).about,
            final(self).light == old(self).light,
            final(self).events_editable == old(self).events_editable,
            final(self).wf(),
    {
        if self.events_editable && i < self.events.len() {
            self.events.edit_texts(i, name, desc);
            true
        } else {
            false
        }
    }

    /// Runtime check of the state invariant.
    pub fn valid(&self) -> (r: bool)
        ensures
            r == self.wf(),
    {
        self.events.valid() && self.add_event.event.datetime.valid()
    }

    /// The draft, for rendering the form when it is open.
    pub fn current_draft(&self) -> (r: &AddEvent)
        ensures
            r == &self.add_event,
    {
        &self.add_event
    }

    /// The committed events in display order, read-only.
    pub fn ordered_events(&self) -> (r: &Vec<Event>)
        ensures
            r@.len() == self.events@.len(),
            forall|i: int| 0 <= i < r@.len() ==> (#[trigger] r@[i])@ == self.events@[i],
    {
        self.events.all()
    }

    /// Remember whether the about dialog is shown.
    pub fn set_about_open(&mut self, on: bool)
        ensures
            *final(self) == (TimelineApp { about: (About { open: on }), ..*old(self) }),
    {
        self.about = About { open: on };
    }

    /// Remember the light/dark visuals choice.
    pub fn set_light(&mut self, on: bool)
        ensures
            *final(self) == (TimelineApp { light: on, ..*old(self) }),
    {
        self.light = on;
    }
}

impl Default for TimelineApp {
    /// The documented default configuration: ascending order, read-only events.
    fn default() -> (s: TimelineApp)
        ensures
            s.events@ == Seq::<EventView>::empty(),
            s.events.order == SortOrder::Ascending,
            draft_fresh(s.add_event@),
            !s.about.open,
            !s.light,
            !s.events_editable,
            s.wf(),
    {
        TimelineApp::new(SortOrder::Ascending, false)
    }
}

} // verus!
