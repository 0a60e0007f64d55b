use mm3sim::runs::RunHistory;

type History = RunHistory<u32, u8, (i32, i32)>;

#[test]
fn runs_are_numbered_in_spawn_order() {
    let mut h = History::new();
    assert_eq!(h.push_new_run(6), 0);
    assert_eq!(h.push_new_run(13), 1);
    assert_eq!(h.push_new_run(0), 2);
    assert_eq!(h.next_index, 3);
    assert_eq!(h.runs.len(), 3);
    let r = h.get_run_mut(1).unwrap();
    assert_eq!(r.spawn_channel, 13);
    assert!(r.hit.is_none());
    assert!(!r.graph_open && !r.show_ghost);
    assert!(h.get_run_mut(3).is_none());
    assert_eq!(h.find_run(2), Some(2));
}

#[test]
fn get_run_mut_updates_in_place() {
    let mut h = History::default();
    h.push_new_run(6);
    let idx = h.push_new_run(7);
    h.get_run_mut(idx).unwrap().path.push((1, 2));
    assert_eq!(h.runs[1].path, vec![(1, 2)]);
    assert!(h.runs[0].path.is_empty());
}

#[test]
fn first_hit_wins() {
    let mut h = History::new();
    let idx = h.push_new_run(6);
    assert!(h.record_hit(idx, 10));
    assert!(!h.record_hit(idx, 20));
    assert_eq!(h.runs[0].hit, Some(10));
    assert!(!h.record_hit(99, 5));
}

#[test]
fn reset_restarts_numbering() {
    let mut h = History::new();
    h.push_new_run(1);
    h.push_new_run(2);
    h.reset();
    assert!(h.runs.is_empty());
    assert_eq!(h.push_new_run(3), 0);
}

#[test]
fn ghost_toggle_hides_when_any_shown() {
    let mut h = History::new();
    h.push_new_run(1);
    h.push_new_run(2);
    assert!(h.toggle_all_ghosts());
    assert!(h.runs.iter().all(|r| r.show_ghost));
    h.runs[0].show_ghost = false;
    assert!(!h.toggle_all_ghosts());
    assert!(h.runs.iter().all(|r| !r.show_ghost));
}

#[test]
fn summary_groups_by_channel_in_order() {
    let mut h = History::new();
    for ch in [13usize, 6, 13, 0, 6, 6] {
        h.push_new_run(ch);
    }
    h.record_hit(0, 1);
    h.record_hit(1, 1);
    h.record_hit(2, 1);
    h.record_hit(4, 1);
    // run 3 (channel 0) and run 5 are still in flight
    let groups: Vec<(usize, Vec<usize>)> = h.completed_by_channel().into_iter().collect();
    assert_eq!(groups, vec![(6, vec![1, 4]), (13, vec![0, 2])]);
    assert_eq!(h.completed_runs_on(0), Vec::<usize>::new());
}

#[test]
fn summary_of_empty_history() {
    let h = History::new();
    assert!(h.completed_by_channel().is_empty());
}
