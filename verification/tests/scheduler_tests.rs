use sitecheck::engine::{judge_response, Judgement, Probe};
use sitecheck::retry::{after_attempt, RetryStep};
use sitecheck::scheduler::{Action, Phase, Plan, Scheduler, SLEEP_STEP_MS};
use sitecheck::book::StatsBook;
use sitecheck::status::WebsiteStatus;
use std::collections::VecDeque;

fn actions(plan: &Plan, stop_after: Option<usize>, close_after: Option<usize>, limit: usize) -> Vec<Action> {
    let mut s = Scheduler::new();
    let mut out = Vec::new();
    let mut awaited = 0usize;
    while !s.is_terminated() && out.len() < limit {
        let stop = stop_after.map_or(false, |n| out.len() >= n);
        let closed = matches!(s.phase, Phase::Collecting { .. })
            && close_after.map_or(false, |n| awaited > n);
        let m = s.next(plan, stop, closed);
        if matches!(m.action, Action::AwaitResult) {
            awaited += 1;
        }
        out.push(m.action);
        s = m.state;
    }
    out
}

fn count(v: &[Action], f: fn(&Action) -> bool) -> usize {
    v.iter().filter(|a| f(a)).count()
}

#[test]
fn test_concurrency_50() {
    let urls: Vec<String> = (0..50).map(|i| format!("http://127.0.0.1/ok{i}")).collect();
    let plan = Plan { url_count: urls.len(), period_secs: None };
    let mut queue: VecDeque<String> = VecDeque::new();
    let mut results: Vec<WebsiteStatus> = Vec::new();
    let mut book = StatsBook::new();
    let mut s = Scheduler::new();
    let mut summaries = 0;
    loop {
        let m = s.next(&plan, false, false);
        s = m.state;
        match m.action {
            Action::Enqueue(i) => queue.push_back(urls[i].clone()),
            Action::AwaitResult => {
                // workers finish in another order than the jobs were queued
                let url = if results.len() % 2 == 0 {
                    queue.pop_back().unwrap()
                } else {
                    queue.pop_front().unwrap()
                };
                let probe = Probe::Answered { status: 200, headers: vec![] };
                let got = match judge_response(&probe, &None) {
                    Judgement::Done(r) => r.map(|c| (c, 3u128)),
                    Judgement::ReadBody => panic!("no body was asked for"),
                };
                let v = match after_attempt(0, 0, got) {
                    RetryStep::Finish(v) => v,
                    RetryStep::Backoff { .. } => panic!("a success is final"),
                };
                let status = WebsiteStatus::stamped(&url, v, 0, 0);
                book.fold(&status);
                results.push(status);
            }
            Action::Summarize => summaries += 1,
            Action::Sleep(_) => panic!("a single round does not sleep"),
            Action::Shutdown => break,
        }
    }
    assert_eq!(results.len(), 50);
    assert!(results.iter().all(|s| s.status.is_ok()));
    let mut seen: Vec<&String> = results.iter().map(|s| &s.url).collect();
    seen.sort();
    seen.dedup();
    assert_eq!(seen.len(), 50);
    assert!(urls.iter().all(|u| seen.contains(&u)));
    assert_eq!(book.len(), 50);
    assert_eq!(summaries, 1);
    assert_eq!(s.round, 1);
    assert!(queue.is_empty());
}

#[test]
fn single_round_then_shutdown() {
    let plan = Plan { url_count: 3, period_secs: None };
    let a = actions(&plan, None, None, 100);
    assert_eq!(a.len(), 2 * 3 + 2);
    assert!(matches!(a[0], Action::Enqueue(0)));
    assert!(matches!(a[1], Action::Enqueue(1)));
    assert!(matches!(a[2], Action::Enqueue(2)));
    assert!(matches!(a[3], Action::AwaitResult));
    assert!(matches!(a[4], Action::AwaitResult));
    assert!(matches!(a[5], Action::AwaitResult));
    assert!(matches!(a[6], Action::Summarize));
    assert!(matches!(a[7], Action::Shutdown));
    assert_eq!(count(&a, |x| matches!(x, Action::Sleep(_))), 0);
}

#[test]
fn no_urls_still_summarizes_once() {
    let plan = Plan { url_count: 0, period_secs: None };
    let a = actions(&plan, None, None, 100);
    assert_eq!(a.len(), 2);
    assert!(matches!(a[0], Action::Summarize));
    assert!(matches!(a[1], Action::Shutdown));
}

#[test]
fn period_sleeps_in_steps_between_rounds() {
    let plan = Plan { url_count: 1, period_secs: Some(1) };
    let a = actions(&plan, None, None, 16);
    // round one, five sleeps of 200 ms, round two, ...
    assert!(matches!(a[0], Action::Enqueue(0)));
    assert!(matches!(a[1], Action::AwaitResult));
    assert!(matches!(a[2], Action::Summarize));
    for k in 3..8 {
        assert!(matches!(a[k], Action::Sleep(200)));
    }
    assert!(matches!(a[8], Action::Enqueue(0)));
    assert!(matches!(a[9], Action::AwaitResult));
    assert!(matches!(a[10], Action::Summarize));
    assert!(matches!(a[11], Action::Sleep(200)));
    assert_eq!(SLEEP_STEP_MS, 200);
}

#[test]
fn stop_before_start_ends_at_once() {
    let plan = Plan { url_count: 4, period_secs: Some(60) };
    let s = Scheduler::new();
    let m = s.next(&plan, true, false);
    assert!(matches!(m.action, Action::Shutdown));
    assert!(m.state.is_terminated());
    assert_eq!(m.state.round, 1);
}

#[test]
fn stop_during_enqueue_still_collects() {
    let plan = Plan { url_count: 4, period_secs: None };
    let a = actions(&plan, Some(2), None, 100);
    assert_eq!(count(&a, |x| matches!(x, Action::Enqueue(_))), 2);
    assert_eq!(count(&a, |x| matches!(x, Action::AwaitResult)), 4);
    assert!(matches!(a[a.len() - 1], Action::Shutdown));
}

#[test]
fn stop_during_sleep_terminates() {
    let plan = Plan { url_count: 1, period_secs: Some(10) };
    let a = actions(&plan, Some(5), None, 100);
    assert!(matches!(a[3], Action::Sleep(200)));
    assert!(matches!(a[4], Action::Sleep(200)));
    assert!(matches!(a[5], Action::Shutdown));
    assert_eq!(a.len(), 6);
}

#[test]
fn closed_channel_ends_the_round_short() {
    let plan = Plan { url_count: 5, period_secs: None };
    let a = actions(&plan, None, Some(1), 100);
    assert_eq!(count(&a, |x| matches!(x, Action::AwaitResult)), 2);
    assert_eq!(count(&a, |x| matches!(x, Action::Summarize)), 1);
    assert!(matches!(a[a.len() - 1], Action::Shutdown));
}

#[test]
fn terminated_stays_terminated() {
    let plan = Plan { url_count: 1, period_secs: Some(1) };
    let s = Scheduler { round: 9, phase: Phase::Terminated };
    let m = s.next(&plan, false, false);
    assert!(matches!(m.action, Action::Shutdown));
    assert!(m.state.is_terminated());
    assert_eq!(m.state.round, 9);
}
