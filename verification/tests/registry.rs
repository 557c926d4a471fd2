use waifu_pics::registry::Root;
use waifu_pics::state::{State, Task};

fn names(snap: &[Task]) -> Vec<String> {
    snap.iter().map(|t| t.name.clone()).collect()
}

#[test]
fn ids_are_distinct_and_increasing() {
    let mut root = Root::default();
    let a = root.new_task(String::from("a"));
    let b = root.new_task(String::from("b"));
    let c = root.new_task(String::from("c"));
    assert!(a < b && b < c);
    assert_ne!(a, b);
    assert_ne!(b, c);
    assert_ne!(a, c);
    assert_eq!((a, b, c), (1, 2, 3));
}

#[test]
fn ids_are_never_reused_after_removal() {
    let mut root = Root::default();
    let a = root.new_task(String::from("a"));
    root.remove(a);
    let b = root.new_task(String::from("b"));
    assert_ne!(a, b);
    assert!(b > a);
}

#[test]
fn new_task_starts_fetching() {
    let mut root = Root::default();
    let id = root.new_task(String::from("Waifu.Pic"));
    let snap = root.snapshot();
    assert_eq!(snap.len(), 1);
    assert_eq!(snap[0].id, id);
    assert_eq!(snap[0].name, "Waifu.Pic");
    assert!(matches!(snap[0].state, State::FetchingURL));
}

#[test]
fn snapshot_is_an_exact_copy_of_what_was_written() {
    let mut root = Root::default();
    let a = root.new_task(String::from("a"));
    let b = root.new_task(String::from("b"));
    let r = root.set_state_by_id(a, State::Download { current: 7, total: Some(9) });
    assert_eq!(r, Some(()));
    let snap = root.snapshot();
    assert_eq!(snap.len(), 2);
    assert_eq!(names(&snap), vec!["a", "b"]);
    match &snap[0].state {
        State::Download { current, total } => {
            assert_eq!(*current, 7);
            assert_eq!(*total, Some(9));
        }
        other => panic!("state was not the one written: {:?}", state_tag(other)),
    }
    assert!(matches!(snap[1].state, State::FetchingURL));
    assert_eq!(snap[1].id, b);
}

fn state_tag(s: &State) -> &'static str {
    match s {
        State::FetchingURL => "FetchingURL",
        State::Failed => "Failed",
        State::Download { .. } => "Download",
        State::Done { .. } => "Done",
    }
}

#[test]
fn set_state_reports_a_missing_task() {
    let mut root = Root::default();
    assert_eq!(root.set_state_by_id(5, State::Failed), None);
    let id = root.new_task(String::from("a"));
    assert_eq!(root.set_state_by_id(id, State::Failed), Some(()));
    root.remove(id);
    assert_eq!(root.set_state_by_id(id, State::Failed), None);
}

#[test]
fn terminal_failed_is_frozen() {
    let mut root = Root::default();
    let id = root.new_task(String::from("a"));
    assert_eq!(root.set_state_by_id(id, State::Failed), Some(()));
    assert_eq!(
        root.set_state_by_id(id, State::Download { current: 1, total: None }),
        Some(())
    );
    let snap = root.snapshot();
    assert!(matches!(snap[0].state, State::Failed));
}

#[test]
fn terminal_done_is_frozen() {
    let mut root = Root::default();
    let id = root.new_task(String::from("a"));
    let done = State::Done { target_file: String::from("f.png"), data: b"xy".to_vec() };
    assert_eq!(root.set_state_by_id(id, done), Some(()));
    assert_eq!(root.set_state_by_id(id, State::FetchingURL), Some(()));
    let snap = root.snapshot();
    match &snap[0].state {
        State::Done { target_file, data } => {
            assert_eq!(target_file, "f.png");
            assert_eq!(data, &b"xy".to_vec());
        }
        other => panic!("terminal state was overwritten: {:?}", state_tag(other)),
    }
}

#[test]
fn remove_is_idempotent() {
    let mut root = Root::default();
    let a = root.new_task(String::from("a"));
    let b = root.new_task(String::from("b"));
    assert_eq!(root.len(), 2);
    root.remove(a);
    assert_eq!(root.len(), 1);
    root.remove(a);
    assert_eq!(root.len(), 1);
    let snap = root.snapshot();
    assert_eq!(snap[0].id, b);
    assert!(!root.is_empty());
    root.remove(b);
    assert!(root.is_empty());
}
