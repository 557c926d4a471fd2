use waifu_pics::drain::{drain_tick, Tick};
use waifu_pics::registry::Root;
use waifu_pics::state::State;
use waifu_pics::worker::{fail_task, Transfer};

#[test]
fn an_empty_table_idles_until_a_worker_registers() {
    let root = Root::default();
    assert!(matches!(drain_tick(&root, false), Tick::Idle));
    assert!(matches!(drain_tick(&root, false), Tick::Idle));
}

#[test]
fn the_ready_flag_finishes_the_loop() {
    let root = Root::default();
    assert!(matches!(drain_tick(&root, true), Tick::Finish));
}

#[test]
fn a_pass_renders_every_live_task() {
    let mut root = Root::default();
    root.new_task(String::from("a"));
    root.new_task(String::from("b"));
    match drain_tick(&root, false) {
        Tick::Pass { lines, writes, failures } => {
            assert_eq!(lines.len(), 2);
            assert!(lines[0].starts_with(" a: "));
            assert!(lines[1].starts_with(" b: "));
            assert!(writes.is_empty());
            assert!(failures.is_empty());
        }
        _ => panic!("a non-empty table must get a pass"),
    }
    assert!(!root.sweep_terminal());
    assert_eq!(root.len(), 2);
}

#[test]
fn a_pass_hands_out_done_payloads_and_failures_and_removes_them() {
    let mut root = Root::default();
    let a = root.new_task(String::from("a"));
    let b = root.new_task(String::from("b"));
    let c = root.new_task(String::from("c"));
    let mut t = Transfer::begin(a, String::from("http://x/img/cat.png"), Some(4));
    t.on_chunk(&mut root, b"abcd".to_vec()).unwrap();
    t.finish(&mut root).unwrap();
    fail_task(&mut root, b).unwrap();
    root.set_state_by_id(c, State::Download { current: 1, total: None })
        .unwrap();
    match drain_tick(&root, false) {
        Tick::Pass { lines, writes, failures } => {
            assert_eq!(lines.len(), 3);
            assert_eq!(writes.len(), 1);
            assert_eq!(writes[0].0, "cat.png");
            assert_eq!(writes[0].1, b"abcd".to_vec());
            assert_eq!(failures, vec![String::from("b")]);
        }
        _ => panic!("a non-empty table must get a pass"),
    }
    assert!(!root.sweep_terminal());
    let snap = root.snapshot();
    assert_eq!(snap.len(), 1);
    assert_eq!(snap[0].id, c);
}

// The end-to-end happy path: the locator resolves, two chunks arrive with a
// total-size hint, the task ends Done, and one pass hands the payload out
// under the locator's file name.
#[test]
fn scenario_resolved_locator_two_chunks() {
    let mut root = Root::default();
    let id = root.new_task(String::from("Waifu.Pic"));
    assert!(matches!(root.snapshot()[0].state, State::FetchingURL));
    let mut t = Transfer::begin(id, String::from("http://x/img/cat.png"), Some(4));
    t.on_chunk(&mut root, b"ab".to_vec()).unwrap();
    match root.snapshot()[0].state {
        State::Download { current, total } => assert_eq!((current, total), (2, Some(4))),
        _ => panic!("expected a Downloading state"),
    }
    t.on_chunk(&mut root, b"cd".to_vec()).unwrap();
    match root.snapshot()[0].state {
        State::Download { current, total } => assert_eq!((current, total), (4, Some(4))),
        _ => panic!("expected a Downloading state"),
    }
    t.finish(&mut root).unwrap();
    match drain_tick(&root, false) {
        Tick::Pass { writes, failures, .. } => {
            assert_eq!(writes.len(), 1);
            assert_eq!(writes[0].0, "cat.png");
            assert_eq!(writes[0].1, b"abcd".to_vec());
            assert!(failures.is_empty());
        }
        _ => panic!("a non-empty table must get a pass"),
    }
    assert!(root.sweep_terminal());
    assert!(root.is_empty());
}

// The failure path: no locator could be resolved, the task goes straight to
// Failed, a pass reports and removes it, and nothing is written.
#[test]
fn scenario_no_locator() {
    let mut root = Root::default();
    let id = root.new_task(String::from("Waifu.Pic"));
    fail_task(&mut root, id).unwrap();
    assert!(matches!(root.snapshot()[0].state, State::Failed));
    match drain_tick(&root, false) {
        Tick::Pass { writes, failures, .. } => {
            assert!(writes.is_empty());
            assert_eq!(failures, vec![String::from("Waifu.Pic")]);
        }
        _ => panic!("a non-empty table must get a pass"),
    }
    assert!(root.sweep_terminal());
    assert!(root.is_empty());
    assert!(matches!(drain_tick(&root, true), Tick::Finish));
}

// Any number of all-successful workers: one pass writes one file per task,
// empties the table, and the loop finishes on the very next poll.
#[test]
fn scenario_all_workers_succeed() {
    for w in 1..6usize {
        let mut root = Root::default();
        for n in 0..w {
            let id = root.new_task(format!("task{n}"));
            let mut t = Transfer::begin(id, format!("http://x/f{n}.png"), Some(1));
            t.on_chunk(&mut root, vec![n as u8]).unwrap();
            t.finish(&mut root).unwrap();
        }
        let mut polls = 0;
        let mut ready = false;
        loop {
            match drain_tick(&root, ready) {
                Tick::Finish => break,
                Tick::Idle => panic!("the table was never empty before the pass"),
                Tick::Pass { writes, .. } => {
                    assert_eq!(writes.len(), w);
                    for (n, (name, data)) in writes.iter().enumerate() {
                        assert_eq!(name, &format!("f{n}.png"));
                        assert_eq!(data, &vec![n as u8]);
                    }
                    ready = root.sweep_terminal();
                }
            }
            polls += 1;
            assert!(polls <= 2, "the loop did not finish within a bounded number of polls");
        }
        assert!(root.is_empty());
    }
}
