use smol_concurrency_tools::Repeat;
use smol_concurrency_tools::TaskPoll;

#[test]
fn constant_factory_yields_every_poll() {
    // A factory whose computation is always immediately ready with 1:
    // the first poll launches and reports pending, every later poll
    // yields the value.
    let mut rep: Repeat<u32> = Repeat::new();
    assert!(!rep.is_running());
    assert_eq!(rep.poll(None), TaskPoll::Pending);
    assert!(rep.is_running());
    for _ in 0..1000 {
        assert_eq!(rep.poll(Some(TaskPoll::Ready(1))), TaskPoll::Ready(1));
    }
}

#[test]
fn alternating_factory_prefix() {
    // A factory alternating 1, 2, 1, 2, ...: polling yields exactly that
    // alternating prefix after the startup round-trip.
    let mut rep: Repeat<u32> = Repeat::new();
    assert_eq!(rep.poll(None), TaskPoll::Pending);
    let mut got: Vec<u32> = Vec::new();
    for k in 0..10 {
        let v = if k % 2 == 0 { 1 } else { 2 };
        match rep.poll(Some(TaskPoll::Ready(v))) {
            TaskPoll::Ready(out) => got.push(out),
            TaskPoll::Pending => panic!("a ready computation must yield"),
        }
    }
    assert_eq!(got, vec![1, 2, 1, 2, 1, 2, 1, 2, 1, 2]);
}

#[test]
fn restart_count_is_completions_plus_one() {
    // After k completions the factory has been invoked exactly k + 1
    // times: once per completion, plus the initial launch.
    let mut rep: Repeat<u32> = Repeat::new();
    assert_eq!(rep.spawn_count(), 0);
    assert_eq!(rep.poll(None), TaskPoll::Pending);
    assert_eq!(rep.spawn_count(), 1);
    let k = 5;
    for _ in 0..k {
        assert_eq!(rep.poll(Some(TaskPoll::Ready(9))), TaskPoll::Ready(9));
    }
    assert_eq!(rep.spawn_count(), k + 1);
}

#[test]
fn pending_poll_changes_nothing() {
    let mut rep: Repeat<u32> = Repeat::new();
    assert_eq!(rep.poll(None), TaskPoll::Pending);
    for _ in 0..3 {
        assert_eq!(rep.poll(Some(TaskPoll::Pending)), TaskPoll::Pending);
    }
    assert_eq!(rep.spawn_count(), 1);
    assert!(rep.is_running());
    assert_eq!(rep.poll(Some(TaskPoll::Ready(4))), TaskPoll::Ready(4));
    assert_eq!(rep.spawn_count(), 2);
}
