use swim::scheduler::{min_vruntime, Scheduler, NUM_WINDOWS};
use swim::SCHED_LATENCY;

#[test]
fn min_vruntime_picks_least_lowest_index_on_ties() {
    let run = [true, true, false, true];
    let v = [5, 3, 0, 3];
    assert_eq!(min_vruntime(&run, &v), (3, 1, 3));
}

#[test]
fn min_vruntime_with_nothing_runnable() {
    let run = [false; 4];
    let v = [1, 2, 3, 4];
    assert_eq!(min_vruntime(&run, &v), (0, NUM_WINDOWS, 0));
}

#[test]
fn select_hands_out_a_slice_per_runnable_count() {
    let mut s = Scheduler::new();
    let r = s.select(&[true, true, false, false], &[4, 2, 0, 0]);
    assert_eq!(r, Some(1));
    assert_eq!(s.current_process, 1);
    assert_eq!(s.running_countdown, SCHED_LATENCY / 2);
    let mut s = Scheduler::new();
    s.select(&[true, true, true, false], &[0, 0, 0, 0]);
    assert_eq!(s.running_countdown, 8);
}

#[test]
fn select_keeps_slice_holder() {
    let mut s = Scheduler { current_process: 2, running_countdown: 3 };
    let r = s.select(&[true, true, true, true], &[0, 0, 50, 0]);
    assert_eq!(r, Some(2));
    assert_eq!(s.running_countdown, 2);
}

#[test]
fn select_never_runs_blocked_holder() {
    let mut s = Scheduler { current_process: 2, running_countdown: 3 };
    let r = s.select(&[true, false, false, false], &[0, 0, 0, 0]);
    assert_eq!(r, None);
    assert_eq!(s.running_countdown, 2);
}

#[test]
fn select_with_nothing_runnable() {
    let mut s = Scheduler::new();
    assert_eq!(s.select(&[false; 4], &[0; 4]), None);
    assert_eq!(s.running_countdown, 0);
}

fn simulate(run: [bool; 4], ticks: usize) -> [usize; 4] {
    let mut s = Scheduler::new();
    let mut v = [0usize; 4];
    for _ in 0..ticks {
        if let Some(w) = s.select(&run, &v) {
            assert!(run[w]);
            v[w] += 1;
        }
    }
    v
}

#[test]
fn single_program_runs_every_tick() {
    let v = simulate([false, false, true, false], SCHED_LATENCY);
    assert_eq!(v, [0, 0, SCHED_LATENCY, 0]);
}

#[test]
fn runnable_programs_stay_within_a_slice() {
    for n in 1..=4usize {
        let mut run = [false; 4];
        for i in 0..n {
            run[i] = true;
        }
        let mut s = Scheduler::new();
        let mut v = [0usize; 4];
        for _ in 0..500 {
            let w = s.select(&run, &v).expect("a runnable program runs");
            v[w] += 1;
            let live: Vec<usize> = (0..4).filter(|i| run[*i]).map(|i| v[i]).collect();
            let spread = live.iter().max().unwrap() - live.iter().min().unwrap();
            assert!(spread <= SCHED_LATENCY / n + 1);
        }
        assert_eq!(v.iter().sum::<usize>(), 500);
    }
}

#[test]
fn blocked_programs_never_run() {
    let v = simulate([true, false, true, false], 300);
    assert_eq!(v[1], 0);
    assert_eq!(v[3], 0);
    assert_eq!(v[0] + v[2], 300);
}
