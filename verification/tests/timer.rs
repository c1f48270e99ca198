use rsipstack::transaction::timer::Timer;

#[test]
fn test_timer() {
    let mut timer = Timer::new();
    let now: u64 = 1_000_000;
    let task_id = timer.timeout_at(now, "task1");
    assert_eq!(task_id, 1);
    assert_eq!(timer.cancel(task_id), Some("task1"));
    assert_eq!(timer.cancel(task_id), None);

    timer.timeout_at(now, "task2");
    let must_hass_task_2 = timer.poll(now + 1000);
    assert_eq!(must_hass_task_2.len(), 1);

    timer.timeout_at(now + 1001, "task3");
    let non_tasks = timer.poll(now + 1000);
    assert_eq!(non_tasks.len(), 0);
    assert_eq!(timer.len(), 1);
}

#[test]
fn timer_polls_in_deadline_order() {
    let mut timer = Timer::new();
    timer.timeout_at(30, "c");
    timer.timeout_at(10, "a");
    timer.timeout_at(20, "b");
    assert_eq!(timer.next_deadline(), Some(10));
    assert_eq!(timer.poll(25), vec!["a", "b"]);
    assert_eq!(timer.poll(25), Vec::<&str>::new());
    assert_eq!(timer.poll(30), vec!["c"]);
    assert_eq!(timer.len(), 0);
    assert_eq!(timer.next_deadline(), None);
}

#[test]
fn timer_cancel_after_fire_returns_none() {
    let mut timer = Timer::new();
    let id = timer.timeout_at(5, 7u32);
    assert_eq!(timer.poll(5), vec![7]);
    assert_eq!(timer.cancel(id), None);
    let second = timer.timeout_at(6, 8u32);
    assert_eq!(second, id + 1);
}

#[test]
fn timer_cancel_undoes_schedule() {
    let mut timer = Timer::new();
    timer.timeout_at(10, "a");
    timer.timeout_at(30, "c");
    let before = timer.len();
    let id = timer.timeout_at(20, "b");
    assert_eq!(timer.next_task_id(), id + 1);
    assert_eq!(timer.cancel(id), Some("b"));
    assert_eq!(timer.len(), before);
    assert_eq!(timer.poll(100), vec!["a", "c"]);
}

#[test]
fn timer_poll_returns_every_due_value() {
    let mut timer = Timer::new();
    for (at, v) in [(50u64, 5u32), (10, 1), (40, 4), (20, 2), (60, 6)] {
        timer.timeout_at(at, v);
    }
    assert_eq!(timer.poll(40), vec![1, 2, 4]);
    assert_eq!(timer.next_deadline(), Some(50));
}

#[test]
fn timer_keeps_tasks_with_equal_deadlines() {
    let mut timer = Timer::new();
    let first = timer.timeout_at(20, "first");
    let second = timer.timeout_at(20, "second");
    assert!(second > first);
    assert_eq!(timer.len(), 2);
    let earlier = timer.timeout_at(5, "earlier");
    assert!(earlier > second);
    assert_eq!(timer.len(), 3);
    assert_eq!(timer.next_deadline(), Some(5));
    assert_eq!(timer.cancel(first), Some("first"));
    assert_eq!(timer.len(), 2);
    assert_eq!(timer.poll(20), vec!["earlier", "second"]);
    assert_eq!(timer.cancel(second), None);
    assert_eq!(timer.len(), 0);
}
