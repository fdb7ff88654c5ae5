use fiber_sched::{
    FifoQueue, LockAction, LockPhase, LockStep, Mutex, Queue, Request, Response, Scheduler, WaitState,
};

type M = Mutex<i32, u32, FifoQueue<u32>>;

#[test]
fn try_lock_on_held_mutex_gives_no_guard() {
    let m: M = Mutex::new(5);
    let g = m.try_lock().expect("a free mutex is claimed");
    assert!(m.try_lock().is_none());
    assert!(m.try_lock().is_none());
    assert_eq!(g.unlock(), None);
    assert!(m.try_lock().is_some());
}

#[test]
fn try_lock_on_held_mutex_leaves_wait_queue() {
    let m: M = Mutex::new(0);
    let g = m.try_lock().unwrap();
    assert_eq!(m.park(8), None);
    assert!(m.try_lock().is_none());
    assert_eq!(g.unlock(), Some(8));
}

#[test]
fn mutual_exclusion_counter_never_exceeds_one() {
    let m: M = Mutex::new(0);
    for _ in 0..5 {
        let mut g = m.try_lock().unwrap();
        *g.get_mut() += 1;
        assert_eq!(*g.get(), 1);
        assert!(m.try_lock().is_none());
        *g.get_mut() -= 1;
        assert_eq!(g.unlock(), None);
    }
    let g = m.try_lock().unwrap();
    assert_eq!(*g.get(), 0);
}

#[test]
fn fifo_wake_order_a_b_c() {
    let m: M = Mutex::new(0);
    let holder = m.try_lock().unwrap();
    assert_eq!(m.park(1), None);
    assert_eq!(m.park(2), None);
    assert_eq!(m.park(3), None);
    assert_eq!(holder.unlock(), Some(1));
    let g = m.try_lock().unwrap();
    assert_eq!(g.unlock(), Some(2));
    let g = m.try_lock().unwrap();
    assert_eq!(g.unlock(), Some(3));
    let g = m.try_lock().unwrap();
    assert_eq!(g.unlock(), None);
}

#[test]
fn park_on_free_mutex_hands_node_back() {
    let m: M = Mutex::new(0);
    assert_eq!(m.park(4), Some(4));
    let g = m.try_lock().unwrap();
    assert_eq!(g.unlock(), None);
}

#[test]
fn guarded_value_persists_across_guards() {
    let m: M = Mutex::new(10);
    let mut g = m.try_lock().unwrap();
    *g.get_mut() = 11;
    g.unlock();
    let g = m.try_lock().unwrap();
    assert_eq!(*g.get(), 11);
}

#[test]
fn wait_state_claims_and_releases() {
    let mut w: WaitState<u32, FifoQueue<u32>> = WaitState::new();
    assert!(w.try_take());
    assert!(!w.try_take());
    assert_eq!(w.park(1), None);
    assert_eq!(w.release(), Some(1));
    assert_eq!(w.release(), None);
    assert_eq!(w.park(2), Some(2));
    assert!(w.try_take());
}

#[test]
fn two_phase_removal_moves_one_node() {
    let mut ready = FifoQueue::empty();
    ready.push(1u32);
    ready.push(2);
    let mut s = Scheduler::new(ready);
    let m: M = Mutex::new(0);
    let holder = m.try_lock().unwrap();
    assert!(matches!(s.step(Some(Request::<u32, &M>::StageUnschedule)), Response::Staged));
    // the staged context is still the front while it runs
    assert_eq!(s.current_node().copied(), Some(1));
    assert!(matches!(s.step(Some(Request::CompleteUnschedule(&m))), Response::Nothing));
    assert_eq!(s.current_node().copied(), Some(2));
    s.step(Some(Request::<u32, &M>::Yield));
    assert_eq!(s.current_node().copied(), Some(2));
    let woken = holder.unlock().unwrap();
    assert_eq!(woken, 1);
    s.step(Some(Request::<u32, &M>::Schedule(woken)));
    s.step(Some(Request::<u32, &M>::Yield));
    assert_eq!(s.current_node().copied(), Some(1));
    assert!(m.try_lock().is_some());
}

#[test]
fn completing_into_free_mutex_reschedules_node() {
    let mut ready = FifoQueue::empty();
    ready.push(1u32);
    ready.push(2);
    let mut s = Scheduler::new(ready);
    let m: M = Mutex::new(0);
    s.step(Some(Request::<u32, &M>::StageUnschedule));
    s.step(Some(Request::CompleteUnschedule(&m)));
    assert_eq!(s.current_node().copied(), Some(2));
    s.step(Some(Request::<u32, &M>::Yield));
    assert_eq!(s.current_node().copied(), Some(1));
    let g = m.try_lock().unwrap();
    assert_eq!(g.unlock(), None);
}

#[test]
fn guard_dereferences_to_value() {
    let m: M = Mutex::new(3);
    let mut g = m.try_lock().unwrap();
    *g += 4;
    assert_eq!(*g, 7);
    g.unlock();
    assert_eq!(*m.try_lock().unwrap(), 7);
}

#[test]
fn lock_step_claims_free_mutex() {
    let m: M = Mutex::new(1);
    match m.lock(LockPhase::Claim, Response::Nothing) {
        LockStep::Acquired(g) => assert_eq!(*g, 1),
        LockStep::Suspend(..) => panic!("a free mutex is claimed"),
    };
}

#[test]
fn lock_step_blocks_stages_and_completes() {
    let m: M = Mutex::new(0);
    let holder = m.try_lock().unwrap();
    match m.lock(LockPhase::Claim, Response::Nothing) {
        LockStep::Suspend(p, Request::StageUnschedule) => assert_eq!(p, LockPhase::Staged),
        _ => panic!("a held mutex stages the caller's removal"),
    };
    match m.lock(LockPhase::Staged, Response::Staged) {
        LockStep::Suspend(p, Request::CompleteUnschedule(target)) => {
            assert_eq!(p, LockPhase::Filed);
            assert!(std::ptr::eq(target, &m));
        }
        _ => panic!("a staged context completes its removal into the mutex"),
    };
    assert_eq!(m.park(9), None);
    assert_eq!(holder.unlock(), Some(9));
    match m.lock(LockPhase::Filed, Response::Nothing) {
        LockStep::Acquired(g) => assert_eq!(g.unlock(), None),
        LockStep::Suspend(..) => panic!("the woken context claims the freed mutex"),
    };
}

#[test]
fn lock_step_staged_without_token_claims_again() {
    let m: M = Mutex::new(0);
    match m.lock(LockPhase::Staged, Response::Nothing) {
        LockStep::Acquired(g) => assert_eq!(g.unlock(), None),
        LockStep::Suspend(..) => panic!("a free mutex is claimed"),
    };
}

#[test]
fn wait_state_lock_next_sequence() {
    let mut w: WaitState<u32, FifoQueue<u32>> = WaitState::new();
    assert_eq!(w.lock_next(LockPhase::Claim, Response::Nothing), (LockPhase::Claim, LockAction::Acquired));
    assert_eq!(w.lock_next(LockPhase::Claim, Response::Nothing), (LockPhase::Staged, LockAction::Stage));
    assert_eq!(w.lock_next(LockPhase::Staged, Response::Nothing), (LockPhase::Staged, LockAction::Stage));
    assert_eq!(w.lock_next(LockPhase::Staged, Response::Staged), (LockPhase::Filed, LockAction::Complete));
    assert_eq!(w.park(5), None);
    assert_eq!(w.release(), Some(5));
    assert_eq!(w.lock_next(LockPhase::Filed, Response::Nothing), (LockPhase::Claim, LockAction::Acquired));
}

#[test]
fn second_try_lock_fails_while_guard_live() {
    let m: M = Mutex::new(5);
    let g = m.try_lock();
    assert!(g.is_some());
    assert!(m.try_lock().is_none());
}
