use trivy_scheduler::sched::Scheduler;

// 2021-01-01 00:00:00 UTC
const T0: i64 = 1_609_459_200;

#[test]
fn invalid_expression_is_rejected() {
    assert!(Scheduler::start("not a cron line", T0).is_none());
    assert!(Scheduler::start("", T0).is_none());
}

#[test]
fn zero_step_period_is_rejected_not_a_panic() {
    assert!(Scheduler::start("0/0 * * * * *", T0).is_none());
    assert!(Scheduler::start("* * * * * 2000/00", T0).is_none());
    assert!(Scheduler::start("5/ 0 * * * *", T0).is_none());
}

#[test]
fn nonzero_step_with_leading_zero_is_accepted() {
    let s = Scheduler::start("0/05 * * * * *", T0).unwrap();
    assert_eq!(s.next_due(), Some(T0 + 5));
}

#[test]
fn every_second_schedule_fires_next_second() {
    let s = Scheduler::start("* * * * * *", T0).unwrap();
    assert!(!s.poll(T0));
    assert!(s.poll(T0 + 1));
    assert!(s.poll(T0 + 5));
}

#[test]
fn next_time_is_deterministic_and_strictly_after() {
    let a = Scheduler::start("0 0 * * * *", T0).unwrap();
    let b = Scheduler::start("0 0 * * * *", T0).unwrap();
    // hourly schedule: the next match after midnight is 01:00:00
    assert!(a.poll(T0 + 3600));
    assert!(!a.poll(T0 + 3599));
    // same expression, same instant: the same decision every time
    assert_eq!(a.poll(T0 + 3600), b.poll(T0 + 3600));
}

#[test]
fn start_reports_first_due_instant() {
    let s = Scheduler::start("* * * * * *", T0).unwrap();
    assert_eq!(s.next_due(), Some(T0 + 1));
}

#[test]
fn complete_run_absorbs_missed_ticks() {
    let mut s = Scheduler::start("* * * * * *", T0).unwrap();
    assert!(s.poll(T0 + 1));
    // the run took 30 seconds; every tick in between is absorbed
    let next = s.complete_run(T0 + 31).unwrap();
    assert_eq!(next, T0 + 32);
    assert!(!s.poll(T0 + 31));
    assert!(s.poll(T0 + 32));
}

#[test]
fn complete_run_is_deterministic() {
    let mut a = Scheduler::start("0 30 9 * * *", T0).unwrap();
    let mut b = Scheduler::start("0 30 9 * * *", T0).unwrap();
    let na = a.complete_run(T0 + 100);
    let nb = b.complete_run(T0 + 100);
    assert_eq!(na, nb);
    // 09:30:00 on the same day
    assert_eq!(na.unwrap(), T0 + 9 * 3600 + 30 * 60);
}
