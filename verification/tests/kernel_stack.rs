use zeroos_core::anchor::{compute_trap_frame_addr, kalloc_kstack, ktrap_frame_addr, trap_frame_placement_is_ok, ThreadAnchor};
use zeroos_core::thread::{kstack_is_usable, ThreadContext, ThreadControlBlock, ThreadState, KSTACK_SIZE};
use zeroos_core::arch::ArchAction;
use zeroos_core::trap::{TrapFrame, MSTATUS_MPP_MACHINE};

#[test]
fn trap_frame_sits_aligned_at_stack_top() {
    // top = 0x5000; 0x5000 - 0x118 = 0x4ee8, aligned down to 16.
    assert_eq!(compute_trap_frame_addr(0x1000, 0x4000, 0x118, 16), 0x4ee0);
    // Already aligned: nothing is lost.
    assert_eq!(compute_trap_frame_addr(0x1000, 0x4000, 0x100, 16), 0x4f00);
    assert_eq!(compute_trap_frame_addr(0, 0x100, 0x100, 1), 0);
}

#[test]
fn placement_check_matches_the_panicking_cases() {
    assert!(trap_frame_placement_is_ok(0x1000, 0x4000, 0x118, 16));
    assert!(!trap_frame_placement_is_ok(usize::MAX - 4, 0x10, 1, 1));
    assert!(!trap_frame_placement_is_ok(0, 0x10, 0, 1));
    assert!(!trap_frame_placement_is_ok(0, 0x10, 1, 12));
    assert!(!trap_frame_placement_is_ok(0, 0x10, 0x11, 1));
}

#[test]
fn kalloc_kstack_sets_up_the_anchor() {
    assert_eq!(kalloc_kstack(KSTACK_SIZE, 0x118, 16, 0), None);
    let a = kalloc_kstack(KSTACK_SIZE, 0x118, 16, 0x8_0000).unwrap();
    assert_eq!(
        a,
        ThreadAnchor {
            kstack_base: 0x8_0000,
            kstack_size: KSTACK_SIZE,
            task_ptr: 0,
            kernel_sp: 0x8_4000,
            user_sp: 0,
            stash0: 0,
            stash1: 0,
            stash2: 0,
            trap_frame_addr: 0x8_3ee0,
        }
    );
    assert_eq!(ktrap_frame_addr(&a), 0x8_3ee0);
    assert!(kstack_is_usable(&a));
    assert!(!kstack_is_usable(&ThreadAnchor { trap_frame_addr: 0, ..a }));
}

#[test]
fn new_thread_control_block() {
    let a = kalloc_kstack(KSTACK_SIZE, 0x118, 16, 0x8_0000).unwrap();
    let (t, actions) = ThreadControlBlock::new(9, 0x7000, 0x7100, 0x400, &a, 0xc000);
    assert_eq!(t.tid, 9);
    assert_eq!(t.state, ThreadState::Ready);
    assert_eq!(t.saved_pc, 0x400);
    assert_eq!(t.futex_wait_addr, 0);
    assert_eq!(t.clear_child_tid, 0);
    assert_eq!(t.kstack_base, 0x8_0000);
    assert_eq!(t.kstack_size, KSTACK_SIZE);
    assert_eq!(t.thread_ctx, ThreadContext(0xc000));
    assert_eq!(
        actions,
        vec![
            ArchAction::InitTrapFrame { frame: 0x8_3ee0, user_sp: 0x7000, user_tls: 0x7100, pc: 0x400 },
            ArchAction::InitContext { ctx: 0xc000, anchor: 0x8_0000, kstack_top: 0x8_4000 },
        ]
    );
    let mut t2 = t;
    assert_eq!(t2.thread_ctx_ptr_mut(), 0xc000);
    assert_eq!(t2.thread_ctx_ptr(), 0xc000);
    assert_eq!(ThreadContext(5).as_ptr(), 5);
    assert_eq!(ThreadContext(5).as_mut_ptr(), 5);
}

#[test]
fn fresh_trap_frame_returns_to_machine_mode() {
    let f = TrapFrame::new(0x1234);
    assert_eq!(f.gp, 0x1234);
    assert_eq!(f.mstatus, 0x1800);
    assert_eq!(MSTATUS_MPP_MACHINE, 3 << 11);
    assert_eq!(f.a0, 0);
    assert_eq!(f.sp, 0);
    assert_eq!(f.mepc, 0);
    assert_eq!(f.from_kernel, 0);
}

#[test]
fn syscall_view_of_trap_frame() {
    let mut f = TrapFrame::new(0);
    f.a0 = 10;
    f.a1 = 11;
    f.a2 = 12;
    f.a3 = 13;
    f.a4 = 14;
    f.a5 = 15;
    f.a6 = 16;
    f.a7 = 93;
    f.mepc = 0x8000_0000;
    assert_eq!(f.syscall_number(), 93);
    assert_eq!(f.pc(), 0x8000_0000);
    let args: Vec<usize> = (0..8).map(|i| f.arg(i)).collect();
    assert_eq!(args, vec![10, 11, 12, 13, 14, 15, 0, 0]);
    f.set_ret(-38);
    assert_eq!(f.arg(0), (-38isize) as usize);
    assert_eq!(f.a0, usize::MAX - 37);
    assert_eq!(f.arg(1), 11);
    assert_eq!(f.syscall_number(), 93);
}
