use stressor::run::{Progress, RunError, RunHandle, RunState, Sample, NANOS_PER_SEC};

const SEC: u64 = NANOS_PER_SEC;

#[test]
fn a_new_handle_is_idle() {
    let h = RunHandle::new();
    assert_eq!(h.state(), RunState::Idle);
    assert!(h.stop_signal());
    assert_eq!(h.total(), None);
    assert!(h.counters().is_empty());
    assert!(h.samples().is_empty());
    assert_eq!(h.progress(), Progress { done_nanos: 0, whole_nanos: 0 });
    assert!(h.progress().full());
}

#[test]
fn tight_loop_with_two_threads_for_one_second_completes() {
    let mut h = RunHandle::new();
    let t0 = 5 * SEC;
    assert_eq!(h.start(t0, 1, 2), Ok(()));
    assert_eq!(h.state(), RunState::Running);
    assert!(!h.stop_signal());
    assert_eq!(h.counters(), &vec![0, 0]);

    let mut last = 0;
    for step in 1..10u64 {
        let now = t0 + step * SEC / 10;
        let p = h.poll(now);
        assert!(p.done_nanos >= last);
        assert_eq!(p.whole_nanos, SEC);
        last = p.done_nanos;
        assert_eq!(h.state(), RunState::Running);
        assert!(h.sample(now, &vec![step * 1000, step * 900]).is_ok());
    }
    assert_eq!(last, 9 * SEC / 10);

    let p = h.poll(t0 + SEC);
    assert!(p.full());
    assert_eq!(h.state(), RunState::Stopping);
    assert!(h.stop_signal());

    let counters = vec![10_000, 9_500];
    assert_eq!(h.complete(t0 + SEC + 1_000, &counters), Ok(19_500));
    assert_eq!(h.state(), RunState::Completed);
    assert_eq!(h.total(), Some(19_500));
    assert_eq!(h.counters(), &counters);
    assert_eq!(h.counters()[0] + h.counters()[1], 19_500);
    assert!(h.progress().full());
    assert_eq!(h.progress(), Progress { done_nanos: SEC, whole_nanos: SEC });
    assert_eq!(h.samples().len(), 10);
}

#[test]
fn a_cancelled_run_completes_with_what_was_counted() {
    let mut h = RunHandle::new();
    h.start(0, 4, 1).unwrap();
    h.poll(SEC);
    assert!(h.request_stop());
    assert_eq!(h.state(), RunState::Stopping);
    assert!(!h.request_stop());
    assert_eq!(h.complete(SEC + 5, &vec![42]), Ok(42));
    assert_eq!(h.state(), RunState::Completed);
    assert!(h.progress().full());
    assert_eq!(h.samples(), &vec![Sample { elapsed_nanos: SEC + 5, operations: 42, interval_nanos: SEC + 5 }]);
}

#[test]
fn starting_while_active_is_turned_down() {
    let mut h = RunHandle::new();
    h.start(10, 3, 2).unwrap();
    h.sample(20, &vec![1, 1]).unwrap();
    assert_eq!(h.start(30, 9, 5), Err(RunError::Busy));
    assert_eq!(h.state(), RunState::Running);
    assert_eq!(h.counters(), &vec![1, 1]);
    assert_eq!(h.progress().whole_nanos, 3 * SEC);
    h.request_stop();
    assert_eq!(h.start(30, 9, 5), Err(RunError::Busy));
    assert_eq!(h.state(), RunState::Stopping);
}

#[test]
fn a_completed_run_can_be_followed_by_another() {
    let mut h = RunHandle::new();
    h.start(0, 1, 1).unwrap();
    h.request_stop();
    h.complete(7, &vec![3]).unwrap();
    assert_eq!(h.start(100, 2, 3), Ok(()));
    assert_eq!(h.state(), RunState::Running);
    assert_eq!(h.total(), None);
    assert_eq!(h.counters(), &vec![0, 0, 0]);
    assert!(h.samples().is_empty());
    assert_eq!(h.progress(), Progress { done_nanos: 0, whole_nanos: 2 * SEC });
}

#[test]
fn publishing_frees_the_slot() {
    let mut h = RunHandle::new();
    assert_eq!(h.publish(), None);
    h.start(0, 1, 1).unwrap();
    assert_eq!(h.publish(), None);
    assert_eq!(h.state(), RunState::Running);
    h.request_stop();
    h.complete(1, &vec![9]).unwrap();
    assert_eq!(h.publish(), Some(9));
    assert_eq!(h.state(), RunState::Idle);
    assert_eq!(h.total(), Some(9));
    assert_eq!(h.publish(), None);
}

#[test]
fn samples_hold_the_operations_of_their_interval() {
    let mut h = RunHandle::new();
    h.start(1_000, 10, 2).unwrap();
    assert_eq!(
        h.sample(1_000 + 200, &vec![30, 10]),
        Ok(Sample { elapsed_nanos: 200, operations: 40, interval_nanos: 200 })
    );
    assert_eq!(
        h.sample(1_000 + 500, &vec![30, 25]),
        Ok(Sample { elapsed_nanos: 500, operations: 15, interval_nanos: 300 })
    );
    assert_eq!(
        h.sample(1_000 + 501, &vec![30, 25]),
        Ok(Sample { elapsed_nanos: 501, operations: 0, interval_nanos: 1 })
    );
    assert_eq!(h.samples().len(), 3);
    assert!(h.samples().windows(2).all(|w| w[0].elapsed_nanos < w[1].elapsed_nanos));
}

#[test]
fn every_refusal_of_a_sample_has_its_input() {
    let mut h = RunHandle::new();
    assert_eq!(h.sample(0, &Vec::new()), Err(RunError::NotActive));
    h.start(100, 10, 2).unwrap();
    h.sample(150, &vec![5, 5]).unwrap();
    assert_eq!(h.sample(200, &vec![6]), Err(RunError::WrongThreadCount));
    assert_eq!(h.sample(200, &vec![6, 4]), Err(RunError::CounterWentBack));
    assert_eq!(h.sample(150, &vec![6, 6]), Err(RunError::NoTimePassed));
    assert_eq!(h.sample(50, &vec![6, 6]), Err(RunError::NoTimePassed));
    assert_eq!(h.counters(), &vec![5, 5]);
    assert_eq!(h.samples().len(), 1);
    h.request_stop();
    h.complete(300, &vec![6, 6]).unwrap();
    assert_eq!(h.sample(400, &vec![7, 7]), Err(RunError::NotActive));
}

#[test]
fn every_refusal_of_a_completion_has_its_input() {
    let mut h = RunHandle::new();
    assert_eq!(h.complete(0, &Vec::new()), Err(RunError::NotActive));
    h.start(0, 10, 2).unwrap();
    assert_eq!(h.complete(1, &vec![1, 1]), Err(RunError::NotActive));
    h.sample(1, &vec![3, 3]).unwrap();
    h.request_stop();
    assert_eq!(h.complete(2, &vec![1, 1, 1]), Err(RunError::WrongThreadCount));
    assert_eq!(h.complete(2, &vec![3, 2]), Err(RunError::CounterWentBack));
    assert_eq!(h.state(), RunState::Stopping);
    assert_eq!(h.complete(1, &vec![4, 4]), Ok(8));
    assert_eq!(h.samples().len(), 1);
    assert_eq!(h.complete(3, &vec![4, 4]), Err(RunError::NotActive));
}

#[test]
fn progress_never_goes_back() {
    let mut h = RunHandle::new();
    h.start(1_000, 2, 1).unwrap();
    assert_eq!(h.poll(1_000 + SEC).done_nanos, SEC);
    assert_eq!(h.poll(1_000 + SEC / 2).done_nanos, SEC);
    assert_eq!(h.poll(0).done_nanos, SEC);
    assert_eq!(h.elapsed(0), 0);
    assert_eq!(h.elapsed(1_500), 500);
    assert_eq!(h.poll(1_000 + 3 * SEC).done_nanos, 2 * SEC);
    assert_eq!(h.state(), RunState::Stopping);
    assert_eq!(h.poll(1_000 + 9 * SEC).done_nanos, 2 * SEC);
}

#[test]
fn the_deadline_is_met_exactly_at_the_duration() {
    let mut h = RunHandle::new();
    h.start(0, 3, 1).unwrap();
    h.poll(3 * SEC - 1);
    assert_eq!(h.state(), RunState::Running);
    h.poll(3 * SEC);
    assert_eq!(h.state(), RunState::Stopping);
}

#[test]
fn a_run_without_duration_stops_at_once() {
    let mut h = RunHandle::new();
    h.start(77, 0, 1).unwrap();
    let p = h.poll(77);
    assert!(p.full());
    assert_eq!(h.state(), RunState::Stopping);
}

#[test]
fn polling_outside_a_run_changes_nothing() {
    let mut h = RunHandle::new();
    assert_eq!(h.poll(123), Progress { done_nanos: 0, whole_nanos: 0 });
    assert_eq!(h.state(), RunState::Idle);
    h.start(0, 1, 1).unwrap();
    h.request_stop();
    h.complete(5, &vec![1]).unwrap();
    assert_eq!(h.poll(999 * SEC), Progress { done_nanos: SEC, whole_nanos: SEC });
    assert_eq!(h.state(), RunState::Completed);
}

#[test]
fn the_longest_duration_fits() {
    let mut h = RunHandle::new();
    h.start(u64::MAX, u32::MAX, 0).unwrap();
    assert_eq!(h.progress().whole_nanos, u32::MAX as u64 * SEC);
    assert_eq!(h.poll(u64::MAX).done_nanos, 0);
    h.request_stop();
    assert_eq!(h.complete(u64::MAX, &Vec::new()), Ok(0));
}

#[test]
fn each_thread_advances_by_its_own_count() {
    let mut h = RunHandle::new();
    h.start(0, 5, 3).unwrap();
    assert_eq!(h.deltas(&vec![4, 0, 9]), Ok(vec![4, 0, 9]));
    h.sample(10, &vec![4, 0, 9]).unwrap();
    assert_eq!(h.counted(), 13);
    assert_eq!(h.deltas(&vec![10, 0, 9]), Ok(vec![6, 0, 0]));
    assert_eq!(h.deltas(&vec![10, 0]), Err(RunError::WrongThreadCount));
    assert_eq!(h.deltas(&vec![3, 0, 9]), Err(RunError::CounterWentBack));
    assert_eq!(h.deltas(&vec![u64::MAX, 1, 9]), Ok(vec![u64::MAX - 4, 1, 0]));
    assert_eq!(h.counters(), &vec![4, 0, 9]);
    assert_eq!(RunHandle::new().deltas(&Vec::new()), Ok(Vec::new()));
}

#[test]
fn a_run_polled_five_times_a_second_stops_within_a_fifth_of_its_deadline() {
    let interval = SEC / 5;
    for offset in [0u64, 1, interval / 2, interval - 1] {
        let mut h = RunHandle::new();
        let t0 = 1_000;
        h.start(t0, 2, 4).unwrap();
        let mut now = t0 + offset;
        let mut last_progress = 0;
        loop {
            let p = h.poll(now);
            assert!(p.done_nanos >= last_progress);
            last_progress = p.done_nanos;
            if h.stop_signal() {
                break;
            }
            assert!(h.elapsed(now) < 2 * SEC);
            now += interval;
        }
        assert!(h.elapsed(now) >= 2 * SEC);
        assert!(h.elapsed(now) < 2 * SEC + interval);
        let join = 3_000_000;
        let total = h.complete(now + join, &vec![1, 2, 3, 4]).unwrap();
        assert_eq!(total, 10);
        assert!(h.elapsed(now + join) < 2 * SEC + interval + join + 1);
        assert!(h.progress().full());
    }
}

#[test]
fn a_cancelled_run_stops_before_its_deadline() {
    let mut h = RunHandle::new();
    h.start(0, 4, 1).unwrap();
    h.poll(SEC / 2);
    h.request_stop();
    let p = h.poll(SEC);
    assert_eq!(p.done_nanos, SEC);
    assert!(!p.full());
    assert_eq!(h.complete(SEC + 10, &vec![5]), Ok(5));
    assert!(h.elapsed(SEC + 10) < 4 * SEC);
    assert!(h.progress().full());
}

#[test]
fn a_total_beyond_sixty_four_bits_is_the_sum() {
    let mut h = RunHandle::new();
    h.start(0, 1, 3).unwrap();
    let first = h.sample(10, &vec![u64::MAX, 0, 1]).unwrap();
    assert_eq!(first.operations, 1u128 << 64);
    let second = h.sample(20, &vec![u64::MAX, u64::MAX, 1]).unwrap();
    assert_eq!(second.operations, u64::MAX as u128);
    assert_eq!(h.counted(), 2 * (u64::MAX as u128) + 1);
    h.request_stop();
    let total = h.complete(30, &vec![u64::MAX, u64::MAX, u64::MAX]).unwrap();
    assert_eq!(total, 3 * (u64::MAX as u128));
    assert_eq!(h.total(), Some(total));
    assert_eq!(h.samples().iter().map(|s| s.operations).sum::<u128>(), total);
}
