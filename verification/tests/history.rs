use std::cell::RefCell;
use std::rc::Rc;
use bettershot::history::{Entry, History};

fn entry(tag: u8, label: &str) -> Entry {
    Entry {
        png: vec![tag; 16],
        width: 100,
        height: 50,
        label: label.to_owned(),
    }
}

#[test]
fn captures_come_back_most_recent_first() {
    let mut history = History::new(5);
    history.push(entry(1, "first"));
    history.push(entry(2, "second"));

    let labels: Vec<&str> = history.iter().iter().map(|e| e.label.as_str()).collect();
    assert_eq!(labels, ["second", "first"]);
    assert_eq!(history.get(0).unwrap().label, "second");
}

#[test]
fn the_oldest_capture_is_evicted_when_full() {
    let mut history = History::new(3);
    for i in 1..=5u8 {
        history.push(entry(i, &format!("shot {i}")));
    }
    assert_eq!(history.len(), 3);
    let labels: Vec<&str> = history.iter().iter().map(|e| e.label.as_str()).collect();
    assert_eq!(labels, ["shot 5", "shot 4", "shot 3"]);
}

#[test]
fn re_copying_the_same_image_does_not_duplicate_it() {
    let mut history = History::new(5);
    assert!(history.push(entry(1, "shot")));
    assert!(!history.push(entry(1, "shot again")), "identical bytes");
    assert_eq!(history.len(), 1);

    assert!(history.push(entry(2, "different")));
    assert_eq!(history.len(), 2);
}

#[test]
fn a_capacity_of_zero_keeps_nothing() {
    let mut history = History::new(0);
    assert_eq!(history.capacity(), 0);
    assert!(!history.push(entry(1, "shot")));
    assert!(history.is_empty());
}

#[test]
fn lowering_the_capacity_drops_what_is_already_held() {
    let mut history = History::new(5);
    for i in 1..=5u8 {
        history.push(entry(i, &format!("shot {i}")));
    }
    assert_eq!(history.len(), 5);

    history.set_capacity(2);
    assert_eq!(history.len(), 2, "surplus captures must be released");
    let labels: Vec<&str> = history.iter().iter().map(|e| e.label.as_str()).collect();
    assert_eq!(labels, ["shot 5", "shot 4"], "the newest are kept");

    history.set_capacity(0);
    assert!(history.is_empty());
    assert_eq!(history.memory_used(), 0);
}

#[test]
fn clearing_forgets_everything() {
    let mut history = History::new(3);
    history.push(entry(1, "a"));
    history.push(entry(2, "b"));
    history.clear();
    assert!(history.is_empty());
    assert_eq!(history.memory_used(), 0);
}

#[test]
fn memory_use_tracks_what_is_held() {
    let mut history = History::new(2);
    history.push(entry(1, "a"));
    assert_eq!(history.memory_used(), 16);
    history.push(entry(2, "b"));
    assert_eq!(history.memory_used(), 32);
    history.push(entry(3, "c"));
    assert_eq!(history.memory_used(), 32);
}

#[test]
fn entries_describe_their_size_for_the_menu() {
    assert_eq!(entry(1, "a").size_label(), "100×50");
}

#[test]
fn a_shared_history_is_visible_through_every_handle() {
    let shared = Rc::new(RefCell::new(History::new(3)));
    let other = Rc::clone(&shared);
    shared.borrow_mut().push(entry(1, "from the first editor"));
    assert_eq!(other.borrow().len(), 1);
    assert_eq!(
        other.borrow().get(0).unwrap().label,
        "from the first editor"
    );
}

#[test]
fn older_captures_keep_their_order() {
    let mut history = History::new(3);
    for tag in 1..=3u8 {
        history.push(entry(tag, "x"));
    }
    history.push(entry(9, "x"));
    let tags: Vec<u8> = history.iter().iter().map(|e| e.png[0]).collect();
    assert_eq!(tags, [9, 3, 2]);
}

#[test]
fn neighbours_always_differ() {
    let mut history = History::new(3);
    let check = |history: &History| {
        for i in 1..history.len() {
            assert_ne!(history.get(i - 1).unwrap().png, history.get(i).unwrap().png);
        }
    };
    for tag in [1, 1, 2, 2, 1, 3, 3, 1] {
        history.push(entry(tag, "shot"));
        check(&history);
        assert!(history.len() <= history.capacity());
    }
    assert_eq!(history.len(), 3);
    history.set_capacity(2);
    check(&history);
    assert_eq!(history.len(), 2);
}
