use timeline_rs::datetime::compose;
use timeline_rs::event::Event;
use timeline_rs::timeline::{SortOrder, Timeline};

fn ev(name: &str, year: i32, month: u32, day: u32, hour: u32, desc: &str) -> Event {
    Event::new(
        String::from(name),
        compose(year, month, day, hour, 0, 0).unwrap(),
        String::from(desc),
    )
}

fn names(t: &Timeline) -> Vec<String> {
    t.all().iter().map(|e| e.name.clone()).collect()
}

#[test]
fn ascending_orders_oldest_first() {
    // Commit A (2024-01-01 10:00) then B (2023-12-25 09:00): ascending shows B, A.
    let mut t = Timeline::new(SortOrder::Ascending);
    t.commit(ev("Launch", 2024, 1, 1, 10, "v1 ships"));
    t.commit(ev("Planning", 2023, 12, 25, 9, "kickoff"));
    assert_eq!(names(&t), vec!["Planning", "Launch"]);
}

#[test]
fn descending_orders_newest_first() {
    let mut t = Timeline::new(SortOrder::Descending);
    t.commit(ev("Launch", 2024, 1, 1, 10, "v1 ships"));
    t.commit(ev("Planning", 2023, 12, 25, 9, "kickoff"));
    assert_eq!(names(&t), vec!["Launch", "Planning"]);
}

#[test]
fn sorted_after_every_commit() {
    let mut t = Timeline::new(SortOrder::Ascending);
    let years = [2024, 2021, 2023, 2021, 2025, 2022];
    for (i, y) in years.iter().enumerate() {
        t.commit(ev(&format!("e{}", i), *y, 6, 15, 12, ""));
        let v = t.all();
        for w in v.windows(2) {
            assert!(w[0].datetime.le(&w[1].datetime));
        }
    }
    assert_eq!(t.len(), years.len());
}

#[test]
fn equal_datetimes_keep_insertion_order() {
    let mut t = Timeline::new(SortOrder::Ascending);
    t.commit(ev("first", 2024, 3, 3, 8, ""));
    t.commit(ev("second", 2024, 3, 3, 8, ""));
    t.commit(ev("third", 2024, 3, 3, 8, ""));
    assert_eq!(names(&t), vec!["first", "second", "third"]);
}

#[test]
fn equal_datetimes_keep_insertion_order_descending() {
    let mut t = Timeline::new(SortOrder::Descending);
    t.commit(ev("first", 2024, 3, 3, 8, ""));
    t.commit(ev("second", 2024, 3, 3, 8, ""));
    assert_eq!(names(&t), vec!["first", "second"]);
}

#[test]
fn duplicates_are_permitted() {
    let mut t = Timeline::new(SortOrder::Ascending);
    t.commit(ev("same", 2024, 3, 3, 8, "same"));
    t.commit(ev("same", 2024, 3, 3, 8, "same"));
    assert_eq!(t.len(), 2);
    assert_eq!(t.get(0), t.get(1));
}

#[test]
fn reset_clears_everything() {
    let mut t = Timeline::new(SortOrder::Ascending);
    t.commit(ev("a", 2024, 1, 1, 0, ""));
    t.commit(ev("b", 2024, 2, 1, 0, ""));
    t.reset();
    assert_eq!(t.len(), 0);
    assert!(t.all().is_empty());
}

#[test]
fn edit_texts_changes_only_the_texts() {
    let mut t = Timeline::new(SortOrder::Ascending);
    t.commit(ev("old", 2024, 1, 1, 0, "old text"));
    t.commit(ev("stay", 2024, 2, 1, 0, "stays"));
    t.edit_texts(0, String::from("new"), String::from("new text"));
    assert_eq!(t.get(0).name, "new");
    assert_eq!(t.get(0).desc, "new text");
    assert_eq!(t.get(0).datetime, compose(2024, 1, 1, 0, 0, 0).unwrap());
    assert_eq!(t.get(1).name, "stay");
}
