use athene_bot::scheduler::{
    plan_startup_jobs, JobAction, Scheduler, StartupEntry, CHECK_IN_INTERVAL_SECS,
    CLAIM_INTERVAL_SECS, CONVERT_INTERVAL_SECS,
};
use athene_bot::session::should_claim;

#[test]
fn tick_dispatches_only_idle_jobs() {
    let mut sched = Scheduler::new();
    sched.register("alice".to_owned(), JobAction::Claim, CLAIM_INTERVAL_SECS);

    // first tick dispatches; a tick during a slow execution is skipped
    assert!(sched.tick(0));
    assert!(!sched.tick(0));
    assert!(!sched.tick(0));
    assert_eq!(sched.states[0].runs_started, 1);

    sched.complete(0);
    assert!(!sched.states[0].running);
    assert_eq!(sched.states[0].runs_completed, 1);

    // back to idle: the next tick dispatches again
    assert!(sched.tick(0));
    assert_eq!(sched.states[0].runs_started, 2);
}

#[test]
fn jobs_do_not_disturb_each_other() {
    let mut sched = Scheduler::new();
    sched.register("alice".to_owned(), JobAction::CheckIn, CHECK_IN_INTERVAL_SECS);
    sched.register("alice".to_owned(), JobAction::Convert, CONVERT_INTERVAL_SECS);

    assert!(sched.tick(0));
    // the other job is untouched and still dispatches
    assert!(!sched.states[1].running);
    assert!(sched.tick(1));
    sched.complete(1);
    assert!(sched.states[0].running);
}

#[test]
fn end_to_end_one_claim_for_alice_none_for_bob() {
    let mut sched = Scheduler::new();
    sched.register("alice".to_owned(), JobAction::Claim, CLAIM_INTERVAL_SECS);
    sched.register("bob".to_owned(), JobAction::Claim, CLAIM_INTERVAL_SECS);

    let mut claim_calls = [0, 0];
    let cooldowns = [-5000i64, 10000i64];
    for i in 0..2 {
        if sched.tick(i) {
            // the job body: query the cooldown, claim only if it has elapsed
            if should_claim(cooldowns[i]) {
                claim_calls[i] += 1;
            }
            sched.complete(i);
        }
    }

    assert_eq!(claim_calls[0], 1);
    assert_eq!(claim_calls[1], 0);
}

#[test]
fn startup_plan_skips_only_failed_accounts() {
    let entries = vec![
        StartupEntry { name: "alice".to_owned(), token: Some("tok-a".to_owned()) },
        // mallory's login failed: her jobs are absent, nobody else's are
        StartupEntry { name: "mallory".to_owned(), token: None },
        StartupEntry { name: "bob".to_owned(), token: Some("tok-b".to_owned()) },
    ];
    let jobs = plan_startup_jobs(&entries);
    assert_eq!(jobs.len(), 6);

    let accounts: Vec<&str> = jobs.iter().map(|j| j.account.as_str()).collect();
    assert_eq!(accounts, ["alice", "alice", "alice", "bob", "bob", "bob"]);

    assert_eq!(jobs[0].action, JobAction::CheckIn);
    assert_eq!(jobs[0].interval_secs, CHECK_IN_INTERVAL_SECS);
    assert_eq!(jobs[1].action, JobAction::Claim);
    assert_eq!(jobs[1].interval_secs, CLAIM_INTERVAL_SECS);
    assert_eq!(jobs[2].action, JobAction::Convert);
    assert_eq!(jobs[2].interval_secs, CONVERT_INTERVAL_SECS);
}

#[test]
fn job_intervals_hold_observed_values() {
    assert_eq!(CHECK_IN_INTERVAL_SECS, 60 * 60 * 12);
    assert_eq!(CLAIM_INTERVAL_SECS, 60 * 60 * 6);
    assert_eq!(CONVERT_INTERVAL_SECS, 60 * 2);
}

#[test]
fn registering_many_jobs_keeps_them_independent() {
    let mut sched = Scheduler::new();
    for name in ["a", "b", "c"] {
        sched.register(name.to_owned(), JobAction::CheckIn, CHECK_IN_INTERVAL_SECS);
        sched.register(name.to_owned(), JobAction::Claim, CLAIM_INTERVAL_SECS);
        sched.register(name.to_owned(), JobAction::Convert, CONVERT_INTERVAL_SECS);
    }
    assert_eq!(sched.job_count(), 9);
    assert!(sched.tick(4));
    for i in 0..9 {
        if i != 4 {
            assert!(!sched.states[i].running);
        }
    }
}
