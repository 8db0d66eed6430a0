use core::task::Waker;

use futures_util::task::noop_waker;
use task_group::SignalPhase;
use task_group::Task;
use task_group::TaskGroup;

// A group hands out live task records and counts them.
#[test]
fn spawns_tasks() {
    let mut g: TaskGroup<u32> = TaskGroup::new();
    let mut t = g.create();
    assert!(t.is_live());
    assert_eq!(g.live_count(), 1);
    let wake = t.complete(&mut g);
    assert!(!t.is_live());
    assert_eq!(g.live_count(), 0);
    assert_eq!(wake, None);
}

// One task that never terminates: the quiescence wait never reports ready,
// however often it is polled.
#[test]
fn done_waits() {
    let mut g: TaskGroup<u32> = TaskGroup::new();
    let t = g.create();
    assert!(t.is_live());
    for w in 0..100u32 {
        assert!(!g.poll_quiescence(w));
    }
    assert_eq!(g.live_count(), 1);
}

// Five tasks that each terminate: the quiescence wait reports ready only
// once the last of them has completed, and the last completion wakes the
// registered waiter.
#[test]
fn done_exits() {
    let mut g: TaskGroup<u32> = TaskGroup::new();
    let mut tasks: Vec<Task> = Vec::new();
    for _ in 0..5 {
        tasks.push(g.create());
    }
    assert!(!g.poll_quiescence(7));
    let mut woken: Option<u32> = None;
    for mut t in tasks {
        assert!(woken.is_none());
        woken = t.complete(&mut g);
    }
    assert_eq!(woken, Some(7));
    assert!(g.poll_quiescence(8));
}

// With no tasks outstanding the quiescence wait resolves immediately.
#[test]
fn quiescence_immediate_when_idle() {
    let mut g: TaskGroup<u32> = TaskGroup::new();
    assert!(g.poll_quiescence(1));
}

// The quiescence wait is restartable: after resolving once, new tasks make
// it pend again and their completion resolves it again.
#[test]
fn quiescence_wait_is_restartable() {
    let mut g: TaskGroup<u32> = TaskGroup::new();
    assert!(g.poll_quiescence(1));
    let mut t = g.create();
    assert!(!g.poll_quiescence(2));
    assert_eq!(t.complete(&mut g), Some(2));
    assert!(g.poll_quiescence(3));
}

// A task created while the wait is suspended does not lose the wake: the
// waiter registered before the creation is still invoked when the count
// returns to zero, with no re-registration.
#[test]
fn created_during_wait_still_wakes() {
    let mut g: TaskGroup<u32> = TaskGroup::new();
    let mut first = g.create();
    assert!(!g.poll_quiescence(42));
    let mut second = g.create();
    assert_eq!(first.complete(&mut g), None);
    assert_eq!(second.complete(&mut g), Some(42));
}

// The quiescence slot holds one waiter; the last registrant wins.
#[test]
fn last_quiescence_waiter_wins() {
    let mut g: TaskGroup<u32> = TaskGroup::new();
    let mut t = g.create();
    assert!(!g.poll_quiescence(1));
    assert!(!g.poll_quiescence(2));
    assert_eq!(t.complete(&mut g), Some(2));
}

// Five shutdown-aware tasks race a long delay against their signal; the
// shutdown comes first. Every signal resolves through the broadcast —
// none of the tasks reaches its long-delay branch — and the shutdown
// operation completes only after all five tasks have exited.
#[test]
fn shutdown_signals() {
    let mut g: TaskGroup<u32> = TaskGroup::new();
    let mut tasks: Vec<Task> = Vec::new();
    let mut signals = Vec::new();
    for k in 0..5u32 {
        let (t, mut s) = g.create_with_shutdown();
        assert!(!s.poll(&mut g, k));
        tasks.push(t);
        signals.push(s);
    }
    let mut sh = g.shutdown();
    let (mut wakes, done) = sh.poll(&mut g, 99);
    assert!(!done);
    wakes.sort();
    assert_eq!(wakes, vec![0, 1, 2, 3, 4]);
    for s in signals.iter_mut() {
        // Each task, once resumed, sees its signal resolved and takes the
        // shutdown branch.
        assert!(s.poll(&mut g, 77));
        assert!(matches!(s.phase(), SignalPhase::Resolved));
    }
    let mut woken: Option<u32> = None;
    for mut t in tasks {
        let (_, not_done) = sh.poll(&mut g, 99);
        assert!(!not_done);
        woken = t.complete(&mut g);
    }
    assert_eq!(woken, Some(99));
    let (no_wakes, done_now) = sh.poll(&mut g, 100);
    assert!(no_wakes.is_empty());
    assert!(done_now);
}

// The core instantiated with the handle type a real runtime would use:
// the handles returned by the transitions are invocable wakers.
#[test]
fn carries_real_wakers() {
    let mut g: TaskGroup<Waker> = TaskGroup::new();
    let mut t = g.create();
    assert!(!g.poll_quiescence(noop_waker()));
    let (mut t2, mut s) = g.create_with_shutdown();
    assert!(!s.poll(&mut g, noop_waker()));
    let mut sh = g.shutdown();
    let (wakes, done) = sh.poll(&mut g, noop_waker());
    assert_eq!(wakes.len(), 1);
    assert!(!done);
    for w in wakes {
        w.wake();
    }
    assert!(t.complete(&mut g).is_none());
    let wake = t2.complete(&mut g);
    assert!(wake.is_some());
    wake.unwrap().wake();
}

// A signal created after the flag transition resolves immediately on its
// first poll, without ever registering.
#[test]
fn late_signal_resolves_immediately() {
    let mut g: TaskGroup<u32> = TaskGroup::new();
    let mut sh = g.shutdown();
    let (wakes, done) = sh.poll(&mut g, 9);
    assert!(wakes.is_empty());
    assert!(done);
    let (mut t, mut s) = g.create_with_shutdown();
    assert!(s.poll(&mut g, 5));
    assert!(matches!(s.phase(), SignalPhase::Resolved));
    assert_eq!(t.complete(&mut g), Some(9));
}

// Shutdown waits for every tracked task, shutdown-aware or not, and a
// second shutdown call performs no second broadcast.
#[test]
fn shutdown_waits_for_unaware_tasks() {
    let mut g: TaskGroup<u32> = TaskGroup::new();
    let mut plain = g.create();
    let (mut aware, mut s) = g.create_with_shutdown();
    assert!(!s.poll(&mut g, 1));
    let mut sh = g.shutdown();
    let (wakes, done) = sh.poll(&mut g, 50);
    assert_eq!(wakes, vec![1]);
    assert!(!done);
    let mut sh2 = g.shutdown();
    let (wakes2, done2) = sh2.poll(&mut g, 51);
    assert!(wakes2.is_empty());
    assert!(!done2);
    assert!(s.poll(&mut g, 2));
    assert_eq!(aware.complete(&mut g), None);
    let (_, still) = sh.poll(&mut g, 52);
    assert!(!still);
    assert_eq!(plain.complete(&mut g), Some(52));
    let (_, done_now) = sh.poll(&mut g, 53);
    assert!(done_now);
}

// A signal destroyed before resolution and before any shutdown leaves no
// trace: the later broadcast invokes the other handles and not the
// abandoned one.
#[test]
fn abandoned_signal_leaves_no_trace() {
    let mut g: TaskGroup<u32> = TaskGroup::new();
    let (mut t1, mut s1) = g.create_with_shutdown();
    let (t2, mut s2) = g.create_with_shutdown();
    assert!(!s1.poll(&mut g, 10));
    assert!(!s2.poll(&mut g, 20));
    s2.abandon(&mut g);
    assert!(matches!(s2.phase(), SignalPhase::Detached));
    let mut t2 = t2;
    assert_eq!(t2.complete(&mut g), None);
    let mut sh = g.shutdown();
    let (wakes, done) = sh.poll(&mut g, 30);
    assert_eq!(wakes, vec![10]);
    assert!(!done);
    assert!(s1.poll(&mut g, 11));
    assert_eq!(t1.complete(&mut g), Some(30));
    let (_, done_now) = sh.poll(&mut g, 31);
    assert!(done_now);
}

// Abandoning a signal that never registered, or abandoning twice, is
// harmless.
#[test]
fn abandon_is_harmless_when_unregistered() {
    let mut g: TaskGroup<u32> = TaskGroup::new();
    let (mut t, mut s) = g.create_with_shutdown();
    s.abandon(&mut g);
    s.abandon(&mut g);
    assert!(matches!(s.phase(), SignalPhase::Detached));
    assert_eq!(t.complete(&mut g), None);
    let mut sh = g.shutdown();
    let (wakes, done) = sh.poll(&mut g, 1);
    assert!(wakes.is_empty());
    assert!(done);
}

// A registered signal refreshes its stored handle on every poll: the
// broadcast invokes the last handle it was polled with.
#[test]
fn registered_signal_refreshes_handle() {
    let mut g: TaskGroup<u32> = TaskGroup::new();
    let (_t, mut s) = g.create_with_shutdown();
    assert!(!s.poll(&mut g, 1));
    assert!(!s.poll(&mut g, 2));
    let mut sh = g.shutdown();
    let (wakes, _) = sh.poll(&mut g, 9);
    assert_eq!(wakes, vec![2]);
}
