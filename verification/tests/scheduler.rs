use zeroos_core::anchor::ThreadAnchor;
use zeroos_core::arch::ArchAction;
use zeroos_core::scheduler::{Scheduler, MAX_THREADS};
use zeroos_core::thread::{ThreadState, KSTACK_SIZE};

fn anchor(base: usize) -> ThreadAnchor {
    ThreadAnchor {
        kstack_base: base,
        kstack_size: KSTACK_SIZE,
        task_ptr: 0,
        kernel_sp: base + KSTACK_SIZE,
        user_sp: 0,
        stash0: 0,
        stash1: 0,
        stash2: 0,
        trap_frame_addr: base + KSTACK_SIZE - 0x120,
    }
}

fn booted() -> Scheduler {
    let (s, _) = Scheduler::init(&anchor(0x10_0000), 0x9000);
    s
}

fn spawn(s: &mut Scheduler, base: usize, ctx: usize) -> isize {
    s.reserve_tid().unwrap();
    let (r, _) = s.spawn_thread(0x500, 0, 0, 0, 0x8000_0000, &anchor(base), ctx);
    r
}

fn switch_target(actions: &[ArchAction]) -> Option<usize> {
    match actions.last() {
        Some(ArchAction::SwitchContext { to, .. }) => Some(*to),
        _ => None,
    }
}

#[test]
fn new_scheduler_is_empty() {
    let s = Scheduler::new();
    assert_eq!(s.thread_count(), 0);
    assert!(s.current_thread().is_none());
    assert_eq!(s.current_tid_or_1(), 1);
    let d = Scheduler::default();
    assert_eq!(d.thread_count(), 0);
}

#[test]
fn reserve_without_boot_thread_is_eperm() {
    let mut s = Scheduler::new();
    assert_eq!(s.reserve_tid(), Err(-1));
}

#[test]
fn init_installs_running_boot_thread() {
    let a = anchor(0x10_0000);
    let (s, actions) = Scheduler::init(&a, 0x9000);
    assert_eq!(s.thread_count(), 1);
    let t = s.current_thread().unwrap();
    assert_eq!(t.tid, 1);
    assert_eq!(t.state, ThreadState::Running);
    assert_eq!(t.kstack_base, 0x10_0000);
    assert_eq!(t.kstack_size, KSTACK_SIZE);
    assert_eq!(t.thread_ctx_ptr(), 0x9000);
    assert_eq!(s.current_tid_or_1(), 1);
    assert_eq!(
        actions,
        vec![
            ArchAction::InitTrapFrame { frame: a.trap_frame_addr, user_sp: 0, user_tls: 0, pc: 0 },
            ArchAction::InitContext { ctx: 0x9000, anchor: 0x10_0000, kstack_top: 0x10_0000 + KSTACK_SIZE },
            ArchAction::LinkAnchor { anchor: 0x10_0000, tid: 1 },
        ]
    );
}

#[test]
fn spawn_prepares_child_and_returns_its_tid() {
    let mut s = booted();
    assert_eq!(s.reserve_tid(), Ok(2));
    let a = anchor(0x20_0000);
    let tf = a.trap_frame_addr;
    let (r, actions) = s.spawn_thread(0x700, 0x3000_100f, 0x4000, 0x5000, 0x8000_0010, &a, 0xa000);
    assert_eq!(r, 2);
    assert_eq!(s.thread_count(), 2);
    assert_eq!(
        actions,
        vec![
            ArchAction::InitTrapFrame { frame: tf, user_sp: 0x3000_1000, user_tls: 0x4000, pc: 0x8000_0010 },
            ArchAction::InitContext { ctx: 0xa000, anchor: 0x20_0000, kstack_top: 0x20_0000 + KSTACK_SIZE },
            ArchAction::CloneTrapFrame { frame: tf, parent: 0x700 },
            ArchAction::SetTrapFrameSp { frame: tf, sp: 0x3000_1000 },
            ArchAction::SetTrapFrameTp { frame: tf, tp: 0x4000 },
            ArchAction::SetTrapFrameRetval { frame: tf, value: 0 },
            ArchAction::LinkAnchor { anchor: 0x20_0000, tid: 2 },
            ArchAction::SetContextRetval { ctx: 0xa000, value: tf },
            ArchAction::SetContextReturnToFork { ctx: 0xa000 },
            ArchAction::SetContextRetval { ctx: 0x9000, value: 2 },
        ]
    );
    // The parent keeps running.
    assert_eq!(s.current_tid_or_1(), 1);
}

#[test]
fn spawn_without_stack_or_tls_keeps_parent_pointers() {
    let mut s = booted();
    s.reserve_tid().unwrap();
    let a = anchor(0x20_0000);
    let (_, actions) = s.spawn_thread(0x700, 0, 0, 0, 0x10, &a, 0xa000);
    assert!(!actions.iter().any(|x| matches!(x, ArchAction::SetTrapFrameSp { .. })));
    assert!(!actions.iter().any(|x| matches!(x, ArchAction::SetTrapFrameTp { .. })));
}

#[test]
fn spawn_into_full_scheduler_is_eperm_and_uses_up_the_tid() {
    let mut s = booted();
    for i in 1..MAX_THREADS {
        assert_eq!(spawn(&mut s, 0x100_0000 * (i + 1), 0xa000 + i), (i + 1) as isize);
    }
    assert_eq!(s.thread_count(), MAX_THREADS);
    assert_eq!(s.reserve_tid(), Ok(MAX_THREADS + 1));
    let (r, actions) = s.spawn_thread(0x700, 0, 0, 0, 0x10, &anchor(0x7000_0000), 0xf000);
    assert_eq!(r, -1);
    assert_eq!(s.thread_count(), MAX_THREADS);
    assert!(!actions.iter().any(|x| matches!(x, ArchAction::SetContextRetval { ctx: 0x9000, .. })));
    assert_eq!(s.reserve_tid(), Ok(MAX_THREADS + 2));
}

#[test]
fn yield_is_round_robin() {
    let mut s = booted();
    spawn(&mut s, 0x20_0000, 0xa000);
    spawn(&mut s, 0x30_0000, 0xb000);
    let a1 = s.yield_now();
    assert_eq!(a1[0], ArchAction::SetContextRetval { ctx: 0x9000, value: 0 });
    assert_eq!(a1[1], ArchAction::SwitchContext { from: 0x9000, to: 0xa000 });
    assert_eq!(s.current_tid_or_1(), 2);
    assert_eq!(s.current_thread().unwrap().state, ThreadState::Running);
    let a2 = s.yield_now();
    assert_eq!(switch_target(&a2), Some(0xb000));
    assert_eq!(s.current_tid_or_1(), 3);
    let a3 = s.yield_now();
    assert_eq!(a3, vec![
        ArchAction::SetContextRetval { ctx: 0xb000, value: 0 },
        ArchAction::SwitchContext { from: 0xb000, to: 0x9000 },
    ]);
    assert_eq!(s.current_tid_or_1(), 1);
}

#[test]
fn yield_alone_keeps_running() {
    let mut s = booted();
    let actions = s.yield_now();
    assert_eq!(actions, vec![ArchAction::SetContextRetval { ctx: 0x9000, value: 0 }]);
    assert_eq!(s.current_thread().unwrap().state, ThreadState::Running);
    let mut empty = Scheduler::new();
    assert!(empty.yield_now().is_empty());
}

#[test]
fn wait_with_changed_word_is_eagain() {
    let mut s = booted();
    spawn(&mut s, 0x20_0000, 0xa000);
    let (r, actions) = s.wait_on_addr(0x1234, 5, 6);
    assert_eq!(r, -11);
    assert_eq!(actions, vec![ArchAction::SetContextRetval { ctx: 0x9000, value: (-11isize) as usize }]);
    assert_eq!(s.current_thread().unwrap().state, ThreadState::Running);
}

#[test]
fn wait_alone_is_edeadlk() {
    let mut s = booted();
    let (r, actions) = s.wait_on_addr(0x1234, 5, 5);
    assert_eq!(r, -35);
    assert_eq!(actions, vec![ArchAction::SetContextRetval { ctx: 0x9000, value: (-35isize) as usize }]);
    assert_eq!(s.current_thread().unwrap().state, ThreadState::Running);
}

#[test]
fn wait_then_wake_round_trip() {
    let mut s = booted();
    spawn(&mut s, 0x20_0000, 0xa000);
    let (r, actions) = s.wait_on_addr(0x1234, 7, 7);
    assert_eq!(r, 0);
    assert_eq!(actions, vec![
        ArchAction::SetContextRetval { ctx: 0x9000, value: 0 },
        ArchAction::SetContextRetval { ctx: 0x9000, value: 0 },
        ArchAction::SwitchContext { from: 0x9000, to: 0xa000 },
    ]);
    assert_eq!(s.current_tid_or_1(), 2);
    // A wake on another address wakes nobody.
    let (n0, a0) = s.wake_on_addr(0x9999, 10);
    assert_eq!(n0, 0);
    assert_eq!(a0, vec![ArchAction::SetContextRetval { ctx: 0xa000, value: 0 }]);
    let (n, a) = s.wake_on_addr(0x1234, usize::MAX);
    assert_eq!(n, 1);
    assert_eq!(a, vec![ArchAction::SetContextRetval { ctx: 0xa000, value: 1 }]);
    // The woken thread is ready again and gets the processor.
    let y = s.yield_now();
    assert_eq!(switch_target(&y), Some(0x9000));
    assert_eq!(s.current_tid_or_1(), 1);
}

#[test]
fn wake_futex_wakes_at_most_count_earliest_first() {
    let mut s = booted();
    spawn(&mut s, 0x20_0000, 0xa000);
    spawn(&mut s, 0x30_0000, 0xb000);
    spawn(&mut s, 0x40_0000, 0xc000);
    // Threads 1, 2 and 3 each block on the same word in turn.
    for _ in 0..3 {
        let (r, _) = s.wait_on_addr(0x88, 0, 0);
        assert_eq!(r, 0);
    }
    assert_eq!(s.current_tid_or_1(), 4);
    assert_eq!(s.wake_futex(0x88, 2), 2);
    // Only threads 1 and 2 were woken: the round goes 1, 2, then back to 4.
    assert_eq!(switch_target(&s.yield_now()), Some(0x9000));
    assert_eq!(switch_target(&s.yield_now()), Some(0xa000));
    assert_eq!(switch_target(&s.yield_now()), Some(0xc000));
    assert_eq!(s.wake_futex(0x88, 2), 1);
    assert_eq!(s.wake_futex(0x88, 2), 0);
}

#[test]
fn exit_of_boot_thread_exits_program() {
    let mut s = booted();
    let (r, actions) = s.exit_current_and_yield(3);
    assert_eq!(r, 0);
    assert_eq!(actions, vec![ArchAction::Exit { code: 3 }]);
    assert_eq!(s.current_thread().unwrap().state, ThreadState::Exited);
}

#[test]
fn exit_without_threads_exits_program() {
    let mut s = Scheduler::new();
    let (_, actions) = s.exit_current_and_yield(7);
    assert_eq!(actions, vec![ArchAction::Exit { code: 7 }]);
}

#[test]
fn exit_of_child_clears_word_wakes_joiner_and_switches() {
    let mut s = booted();
    s.reserve_tid().unwrap();
    let (tid, _) = s.spawn_thread(0x700, 0, 0, 0x6000, 0x10, &anchor(0x20_0000), 0xa000);
    assert_eq!(tid, 2);
    // The parent joins: it waits on the child's clear-on-exit word.
    let (r, _) = s.wait_on_addr(0x6000, 2, 2);
    assert_eq!(r, 0);
    assert_eq!(s.current_tid_or_1(), 2);
    let (r, actions) = s.exit_current_and_yield(0);
    assert_eq!(r, 0);
    assert_eq!(actions, vec![
        ArchAction::ClearWord { addr: 0x6000 },
        ArchAction::SetContextRetval { ctx: 0xa000, value: 0 },
        ArchAction::SwitchContext { from: 0xa000, to: 0x9000 },
    ]);
    assert_eq!(s.current_tid_or_1(), 1);
    assert_eq!(s.current_thread().unwrap().state, ThreadState::Running);
}

#[test]
fn boot_thread_keeps_tid_1_and_spawns_get_increasing_tids() {
    let mut s = booted();
    let mut last = 1isize;
    for i in 0..5 {
        let t = spawn(&mut s, 0x100_0000 * (i + 2), 0xa000 + i);
        assert!(t >= 2 && t > last);
        last = t;
        s.yield_now();
    }
    // Walk the round back to the first slot: it is still the boot thread.
    while s.current_tid_or_1() != 1 {
        s.yield_now();
    }
    assert_eq!(s.current_thread().unwrap().tid, 1);
}

#[test]
fn exited_thread_is_never_chosen_again() {
    let mut s = booted();
    spawn(&mut s, 0x20_0000, 0xa000);
    spawn(&mut s, 0x30_0000, 0xb000);
    s.yield_now();
    assert_eq!(s.current_tid_or_1(), 2);
    let (_, actions) = s.exit_current_and_yield(0);
    assert_eq!(switch_target(&actions), Some(0xb000));
    for _ in 0..6 {
        let y = s.yield_now();
        assert_ne!(switch_target(&y), Some(0xa000));
        assert_ne!(s.current_tid_or_1(), 2);
    }
}
