use smol_concurrency_tools::MergeAction;
use smol_concurrency_tools::Repeats;
use smol_concurrency_tools::repeats;

/// Drives one top-level poll of the merger. `ready(i)` plays the role of
/// advancing unit `i`'s in-flight computation: `Some(v)` when it
/// completes with `v`, `None` when it stays pending. Returns `None` for
/// an exhausted merger, `Some(None)` for a pending poll, `Some(Some(v))`
/// for a yielded value.
fn poll_once(m: &mut Repeats<u32>, ready: &mut dyn FnMut(usize) -> Option<u32>) -> Option<Option<u32>> {
    loop {
        match m.next_action() {
            MergeAction::Finished => return None,
            MergeAction::Spawn(_) => {
                if m.note_spawned() {
                    return Some(None);
                }
            }
            MergeAction::Advance(i) => match ready(i) {
                None => {
                    if m.note_pending() {
                        return Some(None);
                    }
                }
                Some(v) => return Some(Some(m.note_ready(v))),
            },
        }
    }
}

/// Polls a merger of `u` always-ready units (unit `i` yielding `i`)
/// `u * 1000` times and returns how often each unit's value was yielded.
fn yield_counts(u: usize) -> Vec<usize> {
    let mut b = repeats::<u32>();
    for _ in 0..u {
        b = b.add();
    }
    let mut m = b.finish();
    assert_eq!(m.unit_count(), u);
    let mut counts = vec![0usize; u];
    for _ in 0..u * 1000 {
        match poll_once(&mut m, &mut |i| Some(i as u32)) {
            Some(Some(v)) => counts[v as usize] += 1,
            Some(None) => {}
            None => panic!("a merger with units never ends"),
        }
    }
    counts
}

#[test]
fn zero_unit_merger_is_exhausted() {
    let mut m = repeats::<u32>().finish();
    assert_eq!(m.unit_count(), 0);
    for _ in 0..5 {
        assert_eq!(poll_once(&mut m, &mut |_| None), None);
    }
}

#[test]
fn fairness_one_unit() {
    for c in yield_counts(1) {
        assert!(c >= 900);
    }
}

#[test]
fn fairness_two_units() {
    for c in yield_counts(2) {
        assert!(c >= 900);
    }
}

#[test]
fn fairness_five_units() {
    for c in yield_counts(5) {
        assert!(c >= 900);
    }
}

#[test]
fn rotation_is_round_robin() {
    // Three always-ready units: after the launch round, yields rotate
    // through the units in order, starting at the first.
    let mut m = repeats::<u32>().add().add().add().finish();
    assert_eq!(poll_once(&mut m, &mut |i| Some(i as u32)), Some(None));
    let mut got: Vec<u32> = Vec::new();
    for _ in 0..9 {
        match poll_once(&mut m, &mut |i| Some(i as u32)) {
            Some(Some(v)) => got.push(v),
            _ => panic!("an always-ready merger yields on every poll after the first"),
        }
    }
    assert_eq!(got, vec![0, 1, 2, 0, 1, 2, 0, 1, 2]);
}

#[test]
fn two_speed_scenario() {
    // Unit 0 completes on every advance with A; unit 1 completes on
    // every other advance with B. Over 100 polls both values appear and
    // A appears at least as often as B.
    const A: u32 = 10;
    const B: u32 = 20;
    let mut m = repeats::<u32>().add().add().finish();
    let mut b_turn = false;
    let mut a_count = 0usize;
    let mut b_count = 0usize;
    for _ in 0..100 {
        let out = poll_once(&mut m, &mut |i| {
            if i == 0 {
                Some(A)
            } else {
                b_turn = !b_turn;
                if b_turn { None } else { Some(B) }
            }
        });
        match out {
            Some(Some(v)) if v == A => a_count += 1,
            Some(Some(v)) if v == B => b_count += 1,
            Some(Some(_)) => panic!("only A and B are ever completed"),
            Some(None) => {}
            None => panic!("a merger with units never ends"),
        }
    }
    assert!(a_count > 0);
    assert!(b_count > 0);
    assert!(a_count >= b_count);
}

#[test]
fn builder_chains_units() {
    let m = repeats::<u32>().add().add().finish();
    assert_eq!(m.unit_count(), 2);
    match m.next_action() {
        MergeAction::Spawn(0) => {}
        other => panic!("a fresh merger first launches unit 0, got {:?}", other),
    }
}
