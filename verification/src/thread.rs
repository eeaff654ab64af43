//! Thread control blocks of the cooperative scheduler.

use vstd::prelude::*;

use crate::anchor::{anchor_has_trap_frame, ktrap_frame_addr, ThreadAnchor};
use crate::arch::ArchAction;

verus! {

/// Thread ID type (arch-independent).
pub type Tid = usize;

/// Size of every kernel stack: 16 KiB.
pub const KSTACK_SIZE: usize = 16384;

/// Arch switch context, named by its address (opaque to the scheduler).
#[derive(Clone, Copy, Debug, PartialEq, Eq, Structural)]
pub struct ThreadContext(pub usize);

impl ThreadContext {
    /// The context's address, for operations that write it.
    pub fn as_mut_ptr(self) -> (r: usize)
        ensures
            r == self.0,
    {
        self.0
    }

    /// The context's address, for operations that read it.
    pub fn as_ptr(self) -> (r: usize)
        ensures
            r == self.0,
    {
        self.0
    }
}

/// Scheduling state of a thread.
#[derive(Clone, Copy, Debug, PartialEq, Eq, Structural)]
pub enum ThreadState {
    Ready,
    Running,
    Blocked,
    Exited,
}

/// Per-thread bookkeeping of the scheduler.
#[derive(Clone, Copy, Debug, PartialEq, Eq, Structural)]
pub struct ThreadControlBlock {
    pub thread_ctx: ThreadContext,
    pub tid: Tid,
    pub state: ThreadState,
    pub saved_pc: usize,
    pub futex_wait_addr: usize,
    pub clear_child_tid: usize,
    /// Kernel stack base (the thread's anchor lives there) and size.
    pub kstack_base: usize,
    pub kstack_size: usize,
}

/// The kernel stack of `anchor` can hold a thread: it records its trap frame
/// and its top fits in a `usize`.
pub open spec fn kstack_usable(anchor: ThreadAnchor) -> bool {
    &&& anchor_has_trap_frame(anchor)
    &&& anchor.kstack_base + KSTACK_SIZE <= usize::MAX
}

/// Whether the kernel stack of `anchor` can hold a thread.
pub fn kstack_is_usable(anchor: &ThreadAnchor) -> (r: bool)
    ensures
        r == kstack_usable(*anchor),
{
    let top = anchor.kstack_base.wrapping_add(anchor.kstack_size);
    anchor.trap_frame_addr != 0 && anchor.trap_frame_addr >= anchor.kstack_base
        && anchor.trap_frame_addr <= top && anchor.kstack_base <= usize::MAX - KSTACK_SIZE
}

/// The control block of a new thread whose kernel stack has `anchor` at its
/// base and whose switch context is at `ctx_ptr`.
pub open spec fn new_tcb(
    tid: Tid,
    initial_pc: usize,
    anchor: ThreadAnchor,
    ctx_ptr: usize,
) -> ThreadControlBlock {
    ThreadControlBlock {
        thread_ctx: ThreadContext(ctx_ptr),
        tid,
        state: ThreadState::Ready,
        saved_pc: initial_pc,
        futex_wait_addr: 0,
        clear_child_tid: 0,
        kstack_base: anchor.kstack_base,
        kstack_size: KSTACK_SIZE,
    }
}

/// What setting up a thread's stack and context asks of the platform: its
/// trap frame is initialised with the user state, then its switch context is
/// pointed at its kernel stack.
pub open spec fn new_tcb_actions(
    user_stack_top: usize,
    user_tls: usize,
    initial_pc: usize,
    anchor: ThreadAnchor,
    ctx_ptr: usize,
) -> Seq<ArchAction> {
    seq![
        ArchAction::InitTrapFrame {
            frame: anchor.trap_frame_addr,
            user_sp: user_stack_top,
            user_tls,
            pc: initial_pc,
        },
        ArchAction::InitContext {
            ctx: ctx_ptr,
            anchor: anchor.kstack_base,
            kstack_top: (anchor.kstack_base + KSTACK_SIZE) as usize,
        },
    ]
}

impl ThreadControlBlock {
    /// A new thread `tid` that will start at `initial_pc` with the given user
    /// stack and thread pointer. Its kernel stack (of `KSTACK_SIZE` bytes) has
    /// `anchor` at its base, and its switch context was allocated at
    /// `ctx_ptr`; the operations that initialise both come back with it.
    pub fn new(
        tid: Tid,
        user_stack_top: usize,
        user_tls: usize,
        initial_pc: usize,
        anchor: &ThreadAnchor,
        ctx_ptr: usize,
    ) -> (r: (ThreadControlBlock, Vec<ArchAction>))
        requires
            kstack_usable(*anchor),
        ensures
            r.0 == new_tcb(tid, initial_pc, *anchor, ctx_ptr),
            r.1@ == new_tcb_actions(user_stack_top, user_tls, initial_pc, *anchor, ctx_ptr),
    {
        let anchor_addr = anchor.kstack_base;
        let tf_addr = ktrap_frame_addr(anchor);
        let mut actions: Vec<ArchAction> = Vec::new();
        actions.push(
            ArchAction::InitTrapFrame {
                frame: tf_addr,
                user_sp: user_stack_top,
                user_tls,
                pc: initial_pc,
            },
        );
        let kstack_top = anchor_addr + KSTACK_SIZE;
        actions.push(ArchAction::InitContext { ctx: ctx_ptr, anchor: anchor_addr, kstack_top });
        let tcb = ThreadControlBlock {
            thread_ctx: ThreadContext(ctx_ptr),
            tid,
            state: ThreadState::Ready,
            saved_pc: initial_pc,
            futex_wait_addr: 0,
            clear_child_tid: 0,
            kstack_base: anchor_addr,
            kstack_size: KSTACK_SIZE,
        };
        (tcb, actions)
    }

    /// Address of the thread's switch context, for reading.
    pub fn thread_ctx_ptr(&self) -> (r: usize)
        ensures
            r == self.thread_ctx.0,
    {
        self.thread_ctx.as_ptr()
    }

    /// Address of the thread's switch context, for writing.
    pub fn thread_ctx_ptr_mut(&mut self) -> (r: usize)
        ensures
            r == old(self).thread_ctx.0,
            *final(self) == *old(self),
    {
        self.thread_ctx.as_mut_ptr()
    }
}

} // verus!
