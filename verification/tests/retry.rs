use tari_scenario::error::HarnessError;
use tari_scenario::retry::{Decision, Phase, RetryPolicy, RetryPoll};

fn policy(interval_ms: u64, max_retries: u64) -> RetryPolicy {
    RetryPolicy { interval_ms, max_retries }
}

#[test]
fn a_wait_that_is_met_at_once_does_not_sleep() {
    let mut wait = RetryPoll::begin(policy(5000, 100));
    assert_eq!(wait.phase(), Phase::Waiting);
    assert_eq!(wait.observe(true), Decision::Succeed);
    assert_eq!(wait.phase(), Phase::Satisfied);
    assert_eq!(wait.retries_used(), 0);
    assert_eq!(wait.slept_millis(), 0);
}

#[test]
fn a_wait_that_is_never_met_observes_once_more_than_it_retries() {
    let n = 7;
    let mut wait = RetryPoll::begin(policy(250, n));
    let mut observations = 0;
    let mut sleeps = 0;
    loop {
        observations += 1;
        match wait.observe(false) {
            Decision::SleepThenRetry { millis } => {
                assert_eq!(millis, 250);
                sleeps += 1;
            },
            Decision::GiveUp => break,
            Decision::Succeed => panic!("the condition never held"),
        }
    }
    assert_eq!(observations, n + 1);
    assert_eq!(sleeps, n);
    assert_eq!(wait.phase(), Phase::TimedOut);
    assert_eq!(wait.retries_used(), n);
    assert_eq!(wait.slept_millis(), 7 * 250);
}

#[test]
fn a_wait_stops_at_the_first_success() {
    let mut wait = RetryPoll::begin(policy(100, 5));
    assert_eq!(wait.observe(false), Decision::SleepThenRetry { millis: 100 });
    assert_eq!(wait.observe(false), Decision::SleepThenRetry { millis: 100 });
    assert_eq!(wait.observe(true), Decision::Succeed);
    assert_eq!(wait.retries_used(), 2);
    assert_eq!(wait.slept_millis(), 200);
    assert_eq!(wait.observe(false), Decision::Succeed);
    assert_eq!(wait.phase(), Phase::Satisfied);
    assert_eq!(wait.retries_used(), 2);
}

#[test]
fn a_wait_succeeds_at_its_last_observation() {
    let mut wait = RetryPoll::begin(policy(10, 2));
    assert_eq!(wait.observe(false), Decision::SleepThenRetry { millis: 10 });
    assert_eq!(wait.observe(false), Decision::SleepThenRetry { millis: 10 });
    assert_eq!(wait.observe(true), Decision::Succeed);
    assert_eq!(wait.slept_millis(), 20);
}

#[test]
fn a_wait_without_retries_observes_once() {
    let mut wait = RetryPoll::begin(policy(1000, 0));
    assert_eq!(wait.observe(false), Decision::GiveUp);
    assert_eq!(wait.phase(), Phase::TimedOut);
    assert_eq!(wait.slept_millis(), 0);
    assert_eq!(wait.observe(true), Decision::GiveUp);
    assert_eq!(wait.phase(), Phase::TimedOut);
}

#[test]
fn a_cancelled_wait_gives_up_without_using_its_retries() {
    let mut wait = RetryPoll::begin(policy(5000, 100));
    assert_eq!(wait.observe(false), Decision::SleepThenRetry { millis: 5000 });
    wait.cancel();
    assert_eq!(wait.phase(), Phase::Cancelled);
    assert_eq!(wait.observe(true), Decision::GiveUp);
    assert_eq!(wait.retries_used(), 1);
    let mut done = RetryPoll::begin(policy(1, 1));
    done.observe(true);
    done.cancel();
    assert_eq!(done.phase(), Phase::Satisfied);
}

#[test]
fn replay_of_recorded_observations() {
    let timed_out = RetryPoll::replay(policy(250, 3), &vec![false; 10]);
    assert_eq!(timed_out.phase(), Phase::TimedOut);
    assert_eq!(timed_out.retries_used(), 3);
    assert_eq!(timed_out.slept_millis(), 750);
    let met = RetryPoll::replay(policy(250, 3), &vec![false, false, true, false, true]);
    assert_eq!(met.phase(), Phase::Satisfied);
    assert_eq!(met.retries_used(), 2);
    let open = RetryPoll::replay(policy(250, 3), &vec![false, false]);
    assert_eq!(open.phase(), Phase::Waiting);
    assert_eq!(open.retries_used(), 2);
    let fresh = RetryPoll::replay(policy(250, 3), &vec![]);
    assert_eq!(fresh.phase(), Phase::Waiting);
    assert_eq!(fresh.retries_used(), 0);
}

#[test]
fn slept_time_does_not_overflow() {
    let wait = RetryPoll::replay(policy(u64::MAX, 2), &vec![false, false, false]);
    assert_eq!(wait.phase(), Phase::TimedOut);
    assert_eq!(wait.slept_millis(), 2 * (u64::MAX as u128));
}

#[test]
fn a_judged_wait_fails_with_the_last_observed_values() {
    let mut wait = RetryPoll::begin(policy(250, 2));
    assert_eq!(wait.judge(false, 5, vec![1]), Ok(Some(250)));
    assert_eq!(wait.judge(false, 5, vec![2]), Ok(Some(250)));
    assert_eq!(
        wait.judge(false, 5, vec![3, 4]),
        Err(HarnessError::AssertionTimeout { expected: 5, last_observed: vec![3, 4] })
    );
    assert_eq!(wait.phase(), Phase::TimedOut);
    let mut met = RetryPoll::begin(policy(250, 2));
    assert_eq!(met.judge(true, 5, vec![5]), Ok(None));
    assert_eq!(met.retries_used(), 0);
}
