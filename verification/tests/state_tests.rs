use timeline_rs::datetime::compose;
use timeline_rs::event::FieldUpdate;
use timeline_rs::state::TimelineApp;
use timeline_rs::timeline::SortOrder;

fn app() -> TimelineApp {
    TimelineApp::new(SortOrder::Ascending, false)
}

fn fill_draft(s: &mut TimelineApp, name: &str, year: i32, month: u32, day: u32, desc: &str) {
    s.open_add_event_form();
    assert!(s.update_draft_field(FieldUpdate::FullDate(year, month, day)));
    assert!(s.update_draft_field(FieldUpdate::Hour(10)));
    assert!(s.update_draft_field(FieldUpdate::Minute(0)));
    assert!(s.update_draft_field(FieldUpdate::Second(0)));
    assert!(s.update_draft_field(FieldUpdate::Name(String::from(name))));
    assert!(s.update_draft_field(FieldUpdate::Description(String::from(desc))));
}

#[test]
fn submitted_draft_lands_in_the_timeline() {
    let mut s = app();
    fill_draft(&mut s, "Launch", 2024, 1, 1, "v1 ships");
    s.submit_draft();
    assert_eq!(s.ordered_events().len(), 1);
    assert_eq!(s.ordered_events()[0].name, "Launch");
    assert_eq!(s.ordered_events()[0].desc, "v1 ships");
    // the draft is fresh again
    assert!(!s.current_draft().open);
    assert!(!s.current_draft().submitted);
    assert_eq!(s.current_draft().event.name, "");
}

#[test]
fn empty_texts_commit_fine() {
    // No non-empty constraint: a draft with empty name and description goes in.
    let mut s = app();
    s.open_add_event_form();
    s.submit_draft();
    assert_eq!(s.ordered_events().len(), 1);
    assert_eq!(s.ordered_events()[0].name, "");
    assert_eq!(s.ordered_events()[0].desc, "");
}

#[test]
fn two_commits_show_in_ascending_order() {
    let mut s = app();
    fill_draft(&mut s, "Launch", 2024, 1, 1, "v1 ships");
    s.submit_draft();
    fill_draft(&mut s, "Planning", 2023, 12, 25, "kickoff");
    assert!(s.update_draft_field(FieldUpdate::Hour(9)));
    s.submit_draft();
    let v = s.ordered_events();
    assert_eq!(v[0].name, "Planning");
    assert_eq!(v[1].name, "Launch");
}

#[test]
fn two_commits_show_in_descending_order() {
    let mut s = TimelineApp::new(SortOrder::Descending, false);
    fill_draft(&mut s, "Launch", 2024, 1, 1, "v1 ships");
    s.submit_draft();
    fill_draft(&mut s, "Planning", 2023, 12, 25, "kickoff");
    s.submit_draft();
    let v = s.ordered_events();
    assert_eq!(v[0].name, "Launch");
    assert_eq!(v[1].name, "Planning");
}

#[test]
fn cancel_never_touches_the_timeline() {
    let mut s = app();
    fill_draft(&mut s, "kept", 2024, 1, 1, "");
    s.submit_draft();
    fill_draft(&mut s, "discarded", 2024, 2, 2, "edits");
    s.cancel_add_event_form();
    assert_eq!(s.ordered_events().len(), 1);
    assert_eq!(s.ordered_events()[0].name, "kept");
    assert!(!s.current_draft().open);
    assert_eq!(s.current_draft().event.name, "");
}

#[test]
fn invalid_day_for_month_commits_nothing() {
    // Ask for day 31 of a 30-day month: the draft keeps its prior valid
    // date-time and the timeline does not grow.
    let mut s = app();
    fill_draft(&mut s, "April", 2024, 4, 15, "");
    let before = s.current_draft().event.datetime;
    assert!(!s.update_draft_field(FieldUpdate::Day(31)));
    assert_eq!(s.current_draft().event.datetime, before);
    assert_eq!(s.ordered_events().len(), 0);
}

#[test]
fn reset_gives_empty_timeline_and_fresh_draft() {
    let mut s = app();
    fill_draft(&mut s, "a", 2024, 1, 1, "");
    s.submit_draft();
    fill_draft(&mut s, "half-typed", 2024, 2, 2, "in progress");
    s.reset_timeline();
    assert_eq!(s.ordered_events().len(), 0);
    assert!(!s.current_draft().open);
    assert!(!s.current_draft().submitted);
    assert_eq!(s.current_draft().event.name, "");
    assert_eq!(s.current_draft().event.desc, "");
    assert!(s.current_draft().event.datetime.valid());
}

#[test]
fn inline_edit_only_in_editable_mode() {
    let mut s = app();
    fill_draft(&mut s, "name", 2024, 1, 1, "desc");
    s.submit_draft();
    assert!(!s.edit_event(0, String::from("x"), String::from("y")));
    assert_eq!(s.ordered_events()[0].name, "name");

    let mut e = TimelineApp::new(SortOrder::Ascending, true);
    fill_draft(&mut e, "name", 2024, 1, 1, "desc");
    e.submit_draft();
    assert!(e.edit_event(0, String::from("x"), String::from("y")));
    assert_eq!(e.ordered_events()[0].name, "x");
    assert_eq!(e.ordered_events()[0].desc, "y");
    assert_eq!(e.ordered_events()[0].datetime, compose(2024, 1, 1, 10, 0, 0).unwrap());
    assert!(!e.edit_event(5, String::from("x"), String::from("y")));
}

#[test]
fn presentation_flags_are_remembered() {
    let mut s = app();
    s.set_about_open(true);
    s.set_light(true);
    assert!(s.about.open);
    assert!(s.light);
    assert_eq!(s.about.title(), "About TimelineRS");
    s.set_about_open(false);
    assert!(!s.about.open);
}

#[test]
fn default_app_is_fresh_and_ascending() {
    let s = TimelineApp::default();
    assert_eq!(s.events.order, SortOrder::Ascending);
    assert!(!s.events_editable);
    assert!(!s.light);
    assert!(!s.about.open);
    assert_eq!(s.ordered_events().len(), 0);
}
