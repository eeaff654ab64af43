//! The cooperative round-robin scheduler.
//!
//! The scheduler owns the control blocks of all threads and decides which
//! thread runs. Whatever its decisions ask of the hardware (writing return
//! values into switch contexts, switching stacks, exiting) comes back as a
//! sequence of `ArchAction`s for the platform layer to perform.

use vstd::prelude::*;

use crate::anchor::ThreadAnchor;
use crate::arch::ArchAction;
use crate::errno::{eagain, edeadlk, eperm, neg_errno};
use crate::thread::{kstack_usable, new_tcb, new_tcb_actions, ThreadControlBlock, ThreadState, Tid};

verus! {

/// Most threads the scheduler keeps track of.
pub const MAX_THREADS: usize = 64;

/// The scheduler: the threads in scheduling order, the index of the one
/// that runs, and the thread IDs handed out so far.
pub struct Scheduler {
    threads: Vec<ThreadControlBlock>,
    current_index: usize,
    next_tid: Tid,
    reserved_tid: Option<Tid>,
}

// ---------------------------------------------------------------------------
// Model
// ---------------------------------------------------------------------------

/// `t` with its state replaced by `s`.
pub open spec fn with_state(t: ThreadControlBlock, s: ThreadState) -> ThreadControlBlock {
    ThreadControlBlock { state: s, ..t }
}

/// `t` is blocked waiting on the futex word at `addr`.
pub open spec fn waits_on(t: ThreadControlBlock, addr: usize) -> bool {
    t.state == ThreadState::Blocked && t.futex_wait_addr == addr
}

/// `t` after a wake-up: ready, and no longer waiting on any address.
pub open spec fn woken(t: ThreadControlBlock) -> ThreadControlBlock {
    ThreadControlBlock { state: ThreadState::Ready, futex_wait_addr: 0, ..t }
}

/// Number of threads among the first `n` that wait on `addr`.
pub open spec fn waiters_before(ts: Seq<ThreadControlBlock>, addr: usize, n: int) -> nat
    decreases n,
{
    if n <= 0 {
        0
    } else {
        waiters_before(ts, addr, n - 1) + if waits_on(ts[n - 1], addr) {
            1nat
        } else {
            0nat
        }
    }
}

/// Thread `i` is among the first `max` waiters on `addr`, counted in order.
pub open spec fn is_woken(ts: Seq<ThreadControlBlock>, addr: usize, max: usize, i: int) -> bool {
    waits_on(ts[i], addr) && waiters_before(ts, addr, i) < max
}

/// The threads after waking at most `max` waiters on `addr`, earliest first.
pub open spec fn wake_result(ts: Seq<ThreadControlBlock>, addr: usize, max: usize) -> Seq<
    ThreadControlBlock,
> {
    Seq::new(
        ts.len(),
        |i: int|
            if is_woken(ts, addr, max, i) {
                woken(ts[i])
            } else {
                ts[i]
            },
    )
}

/// How many threads a wake of at most `max` waiters on `addr` wakes.
pub open spec fn wake_count(ts: Seq<ThreadControlBlock>, addr: usize, max: usize) -> nat {
    let w = waiters_before(ts, addr, ts.len() as int);
    if w < max {
        w
    } else {
        max as nat
    }
}

/// The first ready thread with index in `lo..hi`.
pub open spec fn first_ready_in(ts: Seq<ThreadControlBlock>, lo: int, hi: int) -> Option<int>
    decreases hi - lo,
{
    if lo >= hi {
        None
    } else if ts[lo].state == ThreadState::Ready {
        Some(lo)
    } else {
        first_ready_in(ts, lo + 1, hi)
    }
}

/// The first ready thread at or after `start`, wrapping around once.
pub open spec fn next_ready(ts: Seq<ThreadControlBlock>, start: int) -> Option<int> {
    match first_ready_in(ts, start, ts.len() as int) {
        Some(i) => Some(i),
        None => first_ready_in(ts, 0, start),
    }
}

/// The threads once the current one has given up the processor: a running
/// current thread becomes ready; a blocked or exited one stays so.
pub open spec fn yielded(ts: Seq<ThreadControlBlock>, cur: int) -> Seq<ThreadControlBlock> {
    if ts[cur].state == ThreadState::Running {
        ts.update(cur, with_state(ts[cur], ThreadState::Ready))
    } else {
        ts
    }
}

/// Which thread runs after the current thread `cur` yields: the first ready
/// thread after it in round-robin order, or none.
pub open spec fn yield_target(ts: Seq<ThreadControlBlock>, cur: int) -> Option<int> {
    next_ready(yielded(ts, cur), (cur + 1) % (ts.len() as int))
}

/// The threads after the current thread `cur` yields.
pub open spec fn yield_threads(ts: Seq<ThreadControlBlock>, cur: int) -> Seq<ThreadControlBlock> {
    if ts.len() == 0 {
        ts
    } else {
        let ts1 = yielded(ts, cur);
        match yield_target(ts, cur) {
            None => if ts1[cur].state == ThreadState::Ready {
                ts1.update(cur, with_state(ts1[cur], ThreadState::Running))
            } else {
                ts1
            },
            Some(n) => ts1.update(n, with_state(ts1[n], ThreadState::Running)),
        }
    }
}

/// The index of the current thread after the current thread `cur` yields.
pub open spec fn yield_current(ts: Seq<ThreadControlBlock>, cur: int) -> int {
    if ts.len() == 0 {
        cur
    } else {
        match yield_target(ts, cur) {
            None => cur,
            Some(n) => n,
        }
    }
}

/// The switch context of the thread at `i`.
pub open spec fn ctx_of(ts: Seq<ThreadControlBlock>, i: int) -> usize {
    ts[i].thread_ctx.0
}

/// The operations of a yield: the yielding thread sees 0 returned, then, if
/// another thread was chosen, the processor switches to it.
pub open spec fn yield_actions(ts: Seq<ThreadControlBlock>, cur: int) -> Seq<ArchAction> {
    if ts.len() == 0 {
        seq![]
    } else {
        let set_ret = seq![ArchAction::SetContextRetval { ctx: ctx_of(ts, cur), value: 0 }];
        match yield_target(ts, cur) {
            Some(n) if n != cur => set_ret + seq![
                ArchAction::SwitchContext { from: ctx_of(ts, cur), to: ctx_of(ts, n) },
            ],
            _ => set_ret,
        }
    }
}

/// `-e` as the unsigned word written into a thread's return-value register.
pub open spec fn errno_word(e: int) -> usize {
    (-e) as isize as usize
}

impl Scheduler {
    /// The control blocks, in scheduling order.
    pub closed spec fn threads(&self) -> Seq<ThreadControlBlock> {
        self.threads@
    }

    /// Index of the current thread.
    pub closed spec fn current(&self) -> int {
        self.current_index as int
    }

    /// The thread ID that the next reservation hands out.
    pub closed spec fn next_tid(&self) -> int {
        self.next_tid as int
    }

    /// A thread ID reserved for a thread that is being set up.
    pub closed spec fn reserved(&self) -> Option<Tid> {
        self.reserved_tid
    }

    /// The scheduler's invariant:
    /// - it tracks at most `MAX_THREADS` threads;
    /// - the current index names a thread whenever there is one (and is 0
    ///   otherwise);
    /// - no thread but the current one is running;
    /// - ready and running threads record no futex address;
    /// - the first thread is the boot thread, ID 1;
    /// - thread IDs increase in scheduling order and stay below the next one
    ///   to hand out, and a reserved ID is above all of them.
    pub open spec fn wf(&self) -> bool {
        let ts = self.threads();
        &&& ts.len() <= MAX_THREADS
        &&& if ts.len() == 0 {
            self.current() == 0
        } else {
            0 <= self.current() < ts.len()
        }
        &&& forall|i: int|
            0 <= i < ts.len() && i != self.current() ==> #[trigger] ts[i].state
                != ThreadState::Running
        &&& forall|i: int|
            0 <= i < ts.len() && (ts[i].state == ThreadState::Ready || ts[i].state
                == ThreadState::Running) ==> #[trigger] ts[i].futex_wait_addr == 0
        &&& forall|i: int| 0 <= i < ts.len() ==> #[trigger] ts[i].tid < self.next_tid()
        &&& forall|i: int, j: int|
            0 <= i < j < ts.len() ==> #[trigger] ts[i].tid < #[trigger] ts[j].tid
        &&& ts.len() > 0 ==> ts[0].tid == 1
        &&& self.next_tid() >= 1
        &&& match self.reserved() {
            Some(t) => t < self.next_tid() && ts.len() > 0 && forall|i: int|
                0 <= i < ts.len() ==> #[trigger] ts[i].tid < t,
            None => true,
        }
    }

    /// The current thread, when there is one.
    pub open spec fn current_tcb(&self) -> Option<ThreadControlBlock> {
        if 0 <= self.current() < self.threads().len() {
            Some(self.threads()[self.current()])
        } else {
            None
        }
    }

    /// An empty scheduler: no threads, and thread IDs start at 1.
    pub fn new() -> (r: Self)
        ensures
            r.wf(),
            r.threads() == Seq::<ThreadControlBlock>::empty(),
            r.current() == 0,
            r.next_tid() == 1,
            r.reserved() is None,
    {
        Scheduler { threads: Vec::new(), current_index: 0, next_tid: 1, reserved_tid: None }
    }

    /// The current thread, if any.
    pub fn current_thread(&self) -> (r: Option<&ThreadControlBlock>)
        ensures
            match r {
                Some(t) => self.current_tcb() == Some(*t),
                None => self.current_tcb() is None,
            },
    {
        if self.current_index < self.threads.len() {
            Some(&self.threads[self.current_index])
        } else {
            None
        }
    }

    /// Number of threads the scheduler tracks.
    pub fn thread_count(&self) -> (r: usize)
        ensures
            r == self.threads().len(),
    {
        self.threads.len()
    }

    /// The thread ID of the current thread, or 1 when there is none.
    pub fn current_tid_or_1(&self) -> (r: usize)
        ensures
            r == match self.current_tcb() {
                Some(t) => t.tid,
                None => 1,
            },
    {
        match self.current_thread() {
            Some(tcb) => tcb.tid,
            None => 1,
        }
    }
}


/// The operations that hand `value` back to the thread `t`, if there is one.
pub open spec fn retval_actions(t: Option<ThreadControlBlock>, value: usize) -> Seq<ArchAction> {
    match t {
        Some(t) => seq![ArchAction::SetContextRetval { ctx: t.thread_ctx.0, value }],
        None => seq![],
    }
}

/// Counting waiters over a longer prefix never gives fewer.
pub proof fn lemma_waiters_before_monotonic(
    ts: Seq<ThreadControlBlock>,
    addr: usize,
    i: int,
    j: int,
)
    requires
        0 <= i <= j,
    ensures
        waiters_before(ts, addr, i) <= waiters_before(ts, addr, j),
    decreases j - i,
{
    if i < j {
        lemma_waiters_before_monotonic(ts, addr, i, j - 1);
    }
}

/// The first ready thread in `lo..hi` lies in that range, is ready, and no
/// thread before it in the range is.
pub proof fn lemma_first_ready_in(ts: Seq<ThreadControlBlock>, lo: int, hi: int)
    requires
        0 <= lo,
        hi <= ts.len(),
    ensures
        match first_ready_in(ts, lo, hi) {
            Some(i) => lo <= i < hi && ts[i].state == ThreadState::Ready && forall|j: int|
                lo <= j < i ==> #[trigger] ts[j].state != ThreadState::Ready,
            None => forall|j: int| lo <= j < hi ==> #[trigger] ts[j].state != ThreadState::Ready,
        },
    decreases hi - lo,
{
    if lo < hi {
        lemma_first_ready_in(ts, lo + 1, hi);
    }
}

/// The round-robin choice is a ready thread, and every thread passed over on
/// the way to it (cyclically, from `start`) is not ready; when there is no
/// choice, no thread is ready.
pub proof fn lemma_next_ready(ts: Seq<ThreadControlBlock>, start: int)
    requires
        0 <= start <= ts.len(),
    ensures
        match next_ready(ts, start) {
            Some(i) => 0 <= i < ts.len() && ts[i].state == ThreadState::Ready && (if i >= start {
                forall|j: int| start <= j < i ==> #[trigger] ts[j].state != ThreadState::Ready
            } else {
                forall|j: int|
                    (start <= j < ts.len() || 0 <= j < i) ==> #[trigger] ts[j].state
                        != ThreadState::Ready
            }),
            None => forall|j: int| 0 <= j < ts.len() ==> #[trigger] ts[j].state != ThreadState::Ready,
        },
{
    lemma_first_ready_in(ts, start, ts.len() as int);
    lemma_first_ready_in(ts, 0, start);
}

impl Scheduler {
    /// Sets the state of thread `i`, leaving everything else alone.
    fn set_state(&mut self, i: usize, s: ThreadState)
        requires
            i < old(self).threads@.len(),
        ensures
            final(self).threads@ == old(self).threads@.update(i as int, with_state(old(self).threads@[i as int], s)),
            final(self).current_index == old(self).current_index,
            final(self).next_tid == old(self).next_tid,
            final(self).reserved_tid == old(self).reserved_tid,
    {
        let mut t = self.threads[i];
        t.state = s;
        self.threads.set(i, t);
    }

    /// The first ready thread at or after `start_from`, wrapping around once.
    fn find_next_ready(&self, start_from: usize) -> (r: Option<usize>)
        requires
            start_from <= self.threads@.len(),
        ensures
            match r {
                Some(i) => next_ready(self.threads@, start_from as int) == Some(i as int),
                None => next_ready(self.threads@, start_from as int) is None,
            },
    {
        let n = self.threads.len();
        let mut i = start_from;
        while i < n
            invariant
                start_from <= i <= n,
                n == self.threads@.len(),
                first_ready_in(self.threads@, start_from as int, n as int) == first_ready_in(
                    self.threads@,
                    i as int,
                    n as int,
                ),
            decreases n - i,
        {
            if self.threads[i].state == ThreadState::Ready {
                return Some(i);
            }
            i = i + 1;
        }
        let mut i: usize = 0;
        while i < start_from
            invariant
                i <= start_from <= n,
                n == self.threads@.len(),
                first_ready_in(self.threads@, start_from as int, n as int) is None,
                first_ready_in(self.threads@, 0, start_from as int) == first_ready_in(
                    self.threads@,
                    i as int,
                    start_from as int,
                ),
            decreases start_from - i,
        {
            if self.threads[i].state == ThreadState::Ready {
                return Some(i);
            }
            i = i + 1;
        }
        None
    }

    /// Wakes at most `max_count` threads waiting on `futex_addr`, earliest
    /// first, and returns how many were woken.
    pub fn wake_futex(&mut self, futex_addr: usize, max_count: usize) -> (r: usize)
        requires
            old(self).wf(),
        ensures
            final(self).wf(),
            final(self).threads() == wake_result(old(self).threads(), futex_addr, max_count),
            r == wake_count(old(self).threads(), futex_addr, max_count),
            final(self).current() == old(self).current(),
            final(self).next_tid() == old(self).next_tid(),
            final(self).reserved() == old(self).reserved(),
    {
        let ghost ts = self.threads@;
        let n = self.threads.len();
        let mut woken_count: usize = 0;
        let mut i: usize = 0;
        while i < n && woken_count < max_count
            invariant
                i <= n,
                n == ts.len(),
                self.threads@.len() == n,
                woken_count == waiters_before(ts, futex_addr, i as int),
                woken_count <= max_count,
                forall|j: int|
                    0 <= j < i ==> #[trigger] self.threads@[j] == wake_result(ts, futex_addr, max_count)[j],
                forall|j: int| i <= j < n ==> #[trigger] self.threads@[j] == ts[j],
                self.current_index == old(self).current_index,
                self.next_tid == old(self).next_tid,
                self.reserved_tid == old(self).reserved_tid,
            decreases n - i,
        {
            let t = self.threads[i];
            if t.state == ThreadState::Blocked && t.futex_wait_addr == futex_addr {
                let mut w = t;
                w.state = ThreadState::Ready;
                w.futex_wait_addr = 0;
                self.threads.set(i, w);
                woken_count = woken_count + 1;
            }
            i = i + 1;
        }
        proof {
            assert forall|j: int| i <= j < n implies #[trigger] self.threads@[j] == wake_result(
                ts,
                futex_addr,
                max_count,
            )[j] by {
                lemma_waiters_before_monotonic(ts, futex_addr, i as int, j);
            }
            lemma_waiters_before_monotonic(ts, futex_addr, i as int, n as int);
            assert(self.threads@ =~= wake_result(ts, futex_addr, max_count));
            assert forall|a: int| 0 <= a < n implies #[trigger] self.threads@[a].tid == ts[a].tid by {
                assert(self.threads@[a] == wake_result(ts, futex_addr, max_count)[a]);
            }
            assert forall|a: int| 0 <= a < n && a != self.current() implies #[trigger] self.threads@[a].state
                != ThreadState::Running by {
                assert(self.threads@[a] == wake_result(ts, futex_addr, max_count)[a]);
            }
            assert forall|a: int|
                0 <= a < n && (self.threads@[a].state == ThreadState::Ready
                    || self.threads@[a].state == ThreadState::Running) implies #[trigger] self.threads@[a].futex_wait_addr
                == 0 by {
                assert(self.threads@[a] == wake_result(ts, futex_addr, max_count)[a]);
            }
        }
        woken_count
    }
}

impl Scheduler {
    /// Gives up the processor: the current thread (if running) becomes ready
    /// and the next ready thread in round-robin order, starting after the
    /// current one, runs. The yielding thread sees 0 returned.
    pub fn yield_now(&mut self) -> (r: Vec<ArchAction>)
        requires
            old(self).wf(),
        ensures
            final(self).wf(),
            final(self).threads() == yield_threads(old(self).threads(), old(self).current()),
            final(self).current() == yield_current(old(self).threads(), old(self).current()),
            final(self).next_tid() == old(self).next_tid(),
            final(self).reserved() == old(self).reserved(),
            r@ == yield_actions(old(self).threads(), old(self).current()),
    {
        let ghost ts = self.threads@;
        let ghost cur0 = self.current_index as int;
        let mut actions: Vec<ArchAction> = Vec::new();
        if let Some(tcb) = self.current_thread() {
            actions.push(ArchAction::SetContextRetval { ctx: tcb.thread_ctx_ptr(), value: 0 });
        }
        let n = self.threads.len();
        if n == 0 {
            return actions;
        }
        let cur = self.current_index;
        if self.threads[cur].state == ThreadState::Running {
            self.set_state(cur, ThreadState::Ready);
        }
        assert(self.threads@ == yielded(ts, cur0));
        let start = (cur + 1) % n;
        proof {
            lemma_next_ready(self.threads@, start as int);
        }
        match self.find_next_ready(start) {
            None => {
                if self.threads[cur].state == ThreadState::Ready {
                    self.set_state(cur, ThreadState::Running);
                }
                assert(self.threads@ =~= yield_threads(ts, cur0));
                assert(actions@ =~= yield_actions(ts, cur0));
                actions
            },
            Some(next) => {
                if next == cur {
                    self.set_state(cur, ThreadState::Running);
                    assert(self.threads@ =~= yield_threads(ts, cur0));
                    assert(actions@ =~= yield_actions(ts, cur0));
                    return actions;
                }
                let from = self.threads[cur].thread_ctx.as_mut_ptr();
                let to = self.threads[next].thread_ctx.as_ptr();
                self.set_state(next, ThreadState::Running);
                self.current_index = next;
                actions.push(ArchAction::SwitchContext { from, to });
                assert(self.threads@ =~= yield_threads(ts, cur0));
                assert(actions@ =~= yield_actions(ts, cur0));
                actions
            },
        }
    }
}

/// The threads once the current thread `cur` blocks waiting on `addr`.
pub open spec fn blocked_on(ts: Seq<ThreadControlBlock>, cur: int, addr: usize) -> Seq<
    ThreadControlBlock,
> {
    ts.update(
        cur,
        ThreadControlBlock { state: ThreadState::Blocked, futex_wait_addr: addr, ..ts[cur] },
    )
}

/// The control block of a spawned thread.
pub open spec fn spawned_tcb(
    tid: Tid,
    clear_child_tid_ptr: usize,
    mepc: usize,
    anchor: ThreadAnchor,
    ctx_ptr: usize,
) -> ThreadControlBlock {
    ThreadControlBlock { clear_child_tid: clear_child_tid_ptr, ..new_tcb(tid, mepc, anchor, ctx_ptr) }
}

/// The user stack of a spawned thread: `stack` aligned down to 16 bytes.
pub open spec fn child_stack_base(stack: usize) -> usize {
    stack & !0xFusize
}

/// The operations that prepare a spawned thread `tid`: its stack and context
/// are set up, the parent's trap frame is copied into the child's, the
/// child's stack and thread pointers are replaced when given (non-zero), the
/// child sees 0 returned, its anchor is linked to it, and its context is made
/// to resume through the fork-return path with its trap frame.
pub open spec fn spawn_actions(
    tid: Tid,
    parent_frame_ptr: usize,
    stack: usize,
    tls: usize,
    mepc: usize,
    anchor: ThreadAnchor,
    ctx_ptr: usize,
) -> Seq<ArchAction> {
    let tf = anchor.trap_frame_addr;
    let sb = child_stack_base(stack);
    new_tcb_actions(sb, tls, mepc, anchor, ctx_ptr) + seq![
        ArchAction::CloneTrapFrame { frame: tf, parent: parent_frame_ptr },
    ] + (if stack != 0 {
        seq![ArchAction::SetTrapFrameSp { frame: tf, sp: sb }]
    } else {
        seq![]
    }) + (if tls != 0 {
        seq![ArchAction::SetTrapFrameTp { frame: tf, tp: tls }]
    } else {
        seq![]
    }) + seq![
        ArchAction::SetTrapFrameRetval { frame: tf, value: 0 },
        ArchAction::LinkAnchor { anchor: anchor.kstack_base, tid },
        ArchAction::SetContextRetval { ctx: ctx_ptr, value: tf },
        ArchAction::SetContextReturnToFork { ctx: ctx_ptr },
    ]
}

/// Whether some operation of `ops` replaces a saved stack pointer.
pub open spec fn replaces_sp(ops: Seq<ArchAction>) -> bool {
    exists|k: int| 0 <= k < ops.len() && #[trigger] ops[k] is SetTrapFrameSp
}

/// Whether some operation of `ops` replaces a saved thread pointer.
pub open spec fn replaces_tp(ops: Seq<ArchAction>) -> bool {
    exists|k: int| 0 <= k < ops.len() && #[trigger] ops[k] is SetTrapFrameTp
}

/// In `ops`, the child's trap frame at `tf` is built from the parent's at
/// `parent`: nothing initialises it again once the parent's is copied in,
/// every replacement of its stack pointer (by `sp`), thread pointer (by `tp`)
/// or return value (by 0) comes after that copy, and its return value is
/// replaced, so that the child sees 0 returned.
pub open spec fn child_frame_ops(ops: Seq<ArchAction>, tf: usize, parent: usize, sp: usize, tp: usize) -> bool {
    let clone = ArchAction::CloneTrapFrame { frame: tf, parent };
    &&& ops.contains(ArchAction::SetTrapFrameRetval { frame: tf, value: 0 })
    &&& forall|k: int|
        0 <= k < ops.len() ==> {
            &&& (#[trigger] ops[k] is SetTrapFrameSp ==> ops[k] == ArchAction::SetTrapFrameSp {
                frame: tf,
                sp,
            })
            &&& (ops[k] is SetTrapFrameTp ==> ops[k] == ArchAction::SetTrapFrameTp { frame: tf, tp })
            &&& (ops[k] is SetTrapFrameRetval ==> ops[k] == ArchAction::SetTrapFrameRetval {
                frame: tf,
                value: 0,
            })
            &&& (ops[k] is SetTrapFrameSp || ops[k] is SetTrapFrameTp || ops[k] is SetTrapFrameRetval
                ==> exists|j: int| 0 <= j < k && ops[j] == clone)
            &&& (ops[k] is CloneTrapFrame ==> forall|m: int|
                k < m < ops.len() ==> !(ops[m] is InitTrapFrame))
        }
}

/// A spawn replaces the child's saved stack pointer exactly when a stack is
/// given (non-zero), with that stack aligned down to 16 bytes, whatever the
/// thread pointer; and it replaces the child's saved thread pointer exactly
/// when a thread pointer is given, with that pointer, whatever the stack.
/// The child's trap frame is otherwise the parent's, with 0 as the value
/// returned.
pub proof fn lemma_spawn_pointer_replacement(
    tid: Tid,
    parent_frame_ptr: usize,
    stack: usize,
    tls: usize,
    mepc: usize,
    anchor: ThreadAnchor,
    ctx_ptr: usize,
)
    ensures
        ({
            let ops = spawn_actions(tid, parent_frame_ptr, stack, tls, mepc, anchor, ctx_ptr);
            let tf = anchor.trap_frame_addr;
            &&& replaces_sp(ops) <==> stack != 0
            &&& replaces_tp(ops) <==> tls != 0
            &&& ops.contains(ArchAction::SetTrapFrameSp { frame: tf, sp: stack & !0xFusize })
                <==> stack != 0
            &&& ops.contains(ArchAction::SetTrapFrameTp { frame: tf, tp: tls }) <==> tls != 0
            &&& child_frame_ops(ops, tf, parent_frame_ptr, stack & !0xFusize, tls)
        }),
{
    let ops = spawn_actions(tid, parent_frame_ptr, stack, tls, mepc, anchor, ctx_ptr);
    let tf = anchor.trap_frame_addr;
    let sb = child_stack_base(stack);
    let head = new_tcb_actions(sb, tls, mepc, anchor, ctx_ptr);
    let clone = ArchAction::CloneTrapFrame { frame: tf, parent: parent_frame_ptr };
    let sp = ArchAction::SetTrapFrameSp { frame: tf, sp: sb };
    let tp = ArchAction::SetTrapFrameTp { frame: tf, tp: tls };
    let ret = ArchAction::SetTrapFrameRetval { frame: tf, value: 0 };
    let tail = seq![
        ret,
        ArchAction::LinkAnchor { anchor: anchor.kstack_base, tid },
        ArchAction::SetContextRetval { ctx: ctx_ptr, value: tf },
        ArchAction::SetContextReturnToFork { ctx: ctx_ptr },
    ];
    let mid = (if stack != 0 {
        seq![sp]
    } else {
        seq![]
    }) + (if tls != 0 {
        seq![tp]
    } else {
        seq![]
    });
    let t = 3 + mid.len() as int;
    assert(ops =~= head + seq![clone] + mid + tail);
    assert(ops.len() == t + 4);
    assert(ops[0] is InitTrapFrame);
    assert(ops[1] is InitContext);
    assert(ops[2] == clone);
    assert(forall|k: int| 3 <= k < t ==> #[trigger] ops[k] == mid[k - 3]);
    assert(forall|k: int| 3 <= k < t ==> #[trigger] mid[k - 3] == sp || mid[k - 3] == tp);
    assert(ops[t] == ret);
    assert(ops[t + 1] is LinkAnchor);
    assert(ops[t + 2] is SetContextRetval);
    assert(ops[t + 3] is SetContextReturnToFork);
    if stack != 0 {
        assert(ops[3] == sp);
    }
    if tls != 0 {
        assert(ops[t - 1] == tp);
    }
    if stack == 0 {
        assert forall|k: int| 0 <= k < ops.len() implies !(#[trigger] ops[k] is SetTrapFrameSp) by {
            if 3 <= k < t {
                assert(mid[k - 3] == tp);
            }
        }
        if ops.contains(sp) {
            let k = choose|k: int| 0 <= k < ops.len() && ops[k] == sp;
            assert(ops[k] is SetTrapFrameSp);
        }
    }
    if tls == 0 {
        assert forall|k: int| 0 <= k < ops.len() implies !(#[trigger] ops[k] is SetTrapFrameTp) by {
            if 3 <= k < t {
                assert(mid[k - 3] == sp);
            }
        }
        if ops.contains(tp) {
            let k = choose|k: int| 0 <= k < ops.len() && ops[k] == tp;
            assert(ops[k] is SetTrapFrameTp);
        }
    }
    assert(ops.contains(ret));
    assert forall|k: int| 0 <= k < ops.len() implies {
        &&& (#[trigger] ops[k] is SetTrapFrameSp ==> ops[k] == sp)
        &&& (ops[k] is SetTrapFrameTp ==> ops[k] == tp)
        &&& (ops[k] is SetTrapFrameRetval ==> ops[k] == ret)
        &&& (ops[k] is SetTrapFrameSp || ops[k] is SetTrapFrameTp || ops[k] is SetTrapFrameRetval
            ==> exists|j: int| 0 <= j < k && ops[j] == clone)
        &&& (ops[k] is CloneTrapFrame ==> forall|m: int| k < m < ops.len() ==> !(ops[m] is InitTrapFrame))
    } by {
        if 3 <= k < t {
            assert(ops[k] == mid[k - 3]);
        }
        if ops[k] is SetTrapFrameSp || ops[k] is SetTrapFrameTp || ops[k] is SetTrapFrameRetval {
            assert(3 <= k);
            assert(ops[2] == clone);
        }
        if ops[k] is CloneTrapFrame {
            assert(k == 2);
            assert forall|m: int| k < m < ops.len() implies !(ops[m] is InitTrapFrame) by {
                if 3 <= m < t {
                    assert(ops[m] == mid[m - 3]);
                }
            }
        }
    }
}

/// Handing the parent its return value after the child's preparation
/// changes nothing about the child's trap frame.
proof fn lemma_retval_keeps_child_frame(
    ops: Seq<ArchAction>,
    a: ArchAction,
    tf: usize,
    parent: usize,
    sp: usize,
    tp: usize,
)
    requires
        a is SetContextRetval,
    ensures
        replaces_sp(ops.push(a)) == replaces_sp(ops),
        replaces_tp(ops.push(a)) == replaces_tp(ops),
        ops.push(a).contains(ArchAction::SetTrapFrameSp { frame: tf, sp }) == ops.contains(
            ArchAction::SetTrapFrameSp { frame: tf, sp },
        ),
        ops.push(a).contains(ArchAction::SetTrapFrameTp { frame: tf, tp }) == ops.contains(
            ArchAction::SetTrapFrameTp { frame: tf, tp },
        ),
        child_frame_ops(ops, tf, parent, sp, tp) ==> child_frame_ops(ops.push(a), tf, parent, sp, tp),
{
    let r = ops.push(a);
    let spa = ArchAction::SetTrapFrameSp { frame: tf, sp };
    let tpa = ArchAction::SetTrapFrameTp { frame: tf, tp };
    let clone = ArchAction::CloneTrapFrame { frame: tf, parent };
    assert(forall|k: int| 0 <= k < ops.len() ==> #[trigger] r[k] == ops[k]);
    assert(r[ops.len() as int] == a);
    if replaces_sp(r) {
        let k = choose|k: int| 0 <= k < r.len() && #[trigger] r[k] is SetTrapFrameSp;
        assert(ops[k] is SetTrapFrameSp);
    }
    if replaces_sp(ops) {
        let k = choose|k: int| 0 <= k < ops.len() && #[trigger] ops[k] is SetTrapFrameSp;
        assert(r[k] is SetTrapFrameSp);
    }
    if replaces_tp(r) {
        let k = choose|k: int| 0 <= k < r.len() && #[trigger] r[k] is SetTrapFrameTp;
        assert(ops[k] is SetTrapFrameTp);
    }
    if replaces_tp(ops) {
        let k = choose|k: int| 0 <= k < ops.len() && #[trigger] ops[k] is SetTrapFrameTp;
        assert(r[k] is SetTrapFrameTp);
    }
    if r.contains(spa) {
        let k = choose|k: int| 0 <= k < r.len() && r[k] == spa;
        assert(ops[k] == spa);
    }
    if ops.contains(spa) {
        let k = choose|k: int| 0 <= k < ops.len() && ops[k] == spa;
        assert(r[k] == spa);
    }
    if r.contains(tpa) {
        let k = choose|k: int| 0 <= k < r.len() && r[k] == tpa;
        assert(ops[k] == tpa);
    }
    if ops.contains(tpa) {
        let k = choose|k: int| 0 <= k < ops.len() && ops[k] == tpa;
        assert(r[k] == tpa);
    }
    if child_frame_ops(ops, tf, parent, sp, tp) {
        let ret = ArchAction::SetTrapFrameRetval { frame: tf, value: 0 };
        let k0 = choose|k: int| 0 <= k < ops.len() && ops[k] == ret;
        assert(r[k0] == ret);
        assert forall|k: int| 0 <= k < r.len() implies {
            &&& (#[trigger] r[k] is SetTrapFrameSp ==> r[k] == spa)
            &&& (r[k] is SetTrapFrameTp ==> r[k] == tpa)
            &&& (r[k] is SetTrapFrameRetval ==> r[k] == ret)
            &&& (r[k] is SetTrapFrameSp || r[k] is SetTrapFrameTp || r[k] is SetTrapFrameRetval
                ==> exists|j: int| 0 <= j < k && r[j] == clone)
            &&& (r[k] is CloneTrapFrame ==> forall|m: int| k < m < r.len() ==> !(r[m] is InitTrapFrame))
        } by {
            if k < ops.len() {
                assert(r[k] == ops[k]);
                if ops[k] is SetTrapFrameSp || ops[k] is SetTrapFrameTp || ops[k] is SetTrapFrameRetval {
                    let j = choose|j: int| 0 <= j < k && ops[j] == clone;
                    assert(r[j] == clone);
                }
                if ops[k] is CloneTrapFrame {
                    assert forall|m: int| k < m < r.len() implies !(r[m] is InitTrapFrame) by {
                        if m < ops.len() {
                            assert(r[m] == ops[m]);
                        }
                    }
                }
            }
        }
    }
}

/// The boot thread: thread 1, already running, on the kernel stack of
/// `anchor` with its switch context at `ctx_ptr`.
pub open spec fn boot_tcb(anchor: ThreadAnchor, ctx_ptr: usize) -> ThreadControlBlock {
    ThreadControlBlock { state: ThreadState::Running, ..new_tcb(1, 0, anchor, ctx_ptr) }
}

/// The operations that prepare the boot thread: its trap frame starts
/// zeroed, its context is pointed at its kernel stack, and its anchor is
/// linked to it.
pub open spec fn boot_actions(anchor: ThreadAnchor, ctx_ptr: usize) -> Seq<ArchAction> {
    new_tcb_actions(0, 0, 0, anchor, ctx_ptr) + seq![
        ArchAction::LinkAnchor { anchor: anchor.kstack_base, tid: 1 },
    ]
}

/// The threads once the current thread `cur` exits and, when it asked for
/// it, its clear-on-exit word is zeroed and all waiters on that word woken.
pub open spec fn exited(ts: Seq<ThreadControlBlock>, cur: int) -> Seq<ThreadControlBlock> {
    let ts1 = ts.update(cur, with_state(ts[cur], ThreadState::Exited));
    let clear = ts[cur].clear_child_tid;
    if clear != 0 {
        wake_result(ts1, clear, usize::MAX)
    } else {
        ts1
    }
}

/// The operations for the clear-on-exit word of thread `t`.
pub open spec fn clear_actions(t: ThreadControlBlock) -> Seq<ArchAction> {
    if t.clear_child_tid != 0 {
        seq![ArchAction::ClearWord { addr: t.clear_child_tid }]
    } else {
        seq![]
    }
}

impl Scheduler {
    /// Blocks the current thread on the futex word at `addr` if that word
    /// (whose value was read as `actual`) still holds `expected`, then yields.
    ///
    /// Returns `-EAGAIN` when the word changed, `-EDEADLK` when no other thread
    /// could ever wake the caller, and 0 once the caller was blocked. The same
    /// value is handed back to the caller's context.
    pub fn wait_on_addr(&mut self, addr: usize, expected: i32, actual: i32) -> (r: (
        isize,
        Vec<ArchAction>,
    ))
        requires
            old(self).wf(),
        ensures
            final(self).wf(),
            final(self).next_tid() == old(self).next_tid(),
            final(self).reserved() == old(self).reserved(),
            actual != expected ==> {
                &&& r.0 == -11
                &&& final(self).threads() == old(self).threads()
                &&& final(self).current() == old(self).current()
                &&& r.1@ == retval_actions(old(self).current_tcb(), errno_word(11))
            },
            actual == expected && old(self).threads().len() <= 1 ==> {
                &&& r.0 == -35
                &&& final(self).threads() == old(self).threads()
                &&& final(self).current() == old(self).current()
                &&& r.1@ == retval_actions(old(self).current_tcb(), errno_word(35))
            },
            actual == expected && old(self).threads().len() > 1 ==> {
                let ts1 = blocked_on(old(self).threads(), old(self).current(), addr);
                &&& r.0 == 0
                &&& final(self).threads() == yield_threads(ts1, old(self).current())
                &&& final(self).current() == yield_current(ts1, old(self).current())
                &&& r.1@ == retval_actions(old(self).current_tcb(), 0) + yield_actions(
                    ts1,
                    old(self).current(),
                )
            },
    {
        let mut actions: Vec<ArchAction> = Vec::new();
        if actual != expected {
            let ret = neg_errno(eagain());
            if let Some(tcb) = self.current_thread() {
                actions.push(
                    ArchAction::SetContextRetval { ctx: tcb.thread_ctx_ptr(), value: ret as usize },
                );
            }
            return (ret, actions);
        }
        if self.thread_count() <= 1 {
            let ret = neg_errno(edeadlk());
            if let Some(tcb) = self.current_thread() {
                actions.push(
                    ArchAction::SetContextRetval { ctx: tcb.thread_ctx_ptr(), value: ret as usize },
                );
            }
            return (ret, actions);
        }
        let cur = self.current_index;
        actions.push(
            ArchAction::SetContextRetval { ctx: self.threads[cur].thread_ctx_ptr(), value: 0 },
        );
        let mut t = self.threads[cur];
        t.state = ThreadState::Blocked;
        t.futex_wait_addr = addr;
        self.threads.set(cur, t);
        let mut more = self.yield_now();
        actions.append(&mut more);
        (0, actions)
    }

    /// Wakes at most `count` threads waiting on `addr` and returns how many
    /// were woken; the count is also handed back to the caller's context.
    pub fn wake_on_addr(&mut self, addr: usize, count: usize) -> (r: (usize, Vec<ArchAction>))
        requires
            old(self).wf(),
        ensures
            final(self).wf(),
            final(self).threads() == wake_result(old(self).threads(), addr, count),
            r.0 == wake_count(old(self).threads(), addr, count),
            final(self).current() == old(self).current(),
            final(self).next_tid() == old(self).next_tid(),
            final(self).reserved() == old(self).reserved(),
            r.1@ == retval_actions(old(self).current_tcb(), r.0),
    {
        let ret = self.wake_futex(addr, count);
        let mut actions: Vec<ArchAction> = Vec::new();
        if let Some(tcb) = self.current_thread() {
            actions.push(ArchAction::SetContextRetval { ctx: tcb.thread_ctx_ptr(), value: ret });
        }
        (ret, actions)
    }

    /// Whether another thread ID can still be handed out (IDs are never
    /// reused, so they run out once the next one would overflow).
    pub fn can_reserve_tid(&self) -> (r: bool)
        ensures
            r == (self.next_tid() < usize::MAX),
    {
        self.next_tid < usize::MAX
    }

    /// Hands out the thread ID for a thread about to be spawned, or `-EPERM`
    /// when the scheduler has no boot thread yet.
    ///
    /// The ID is used up even if the spawn later fails.
    pub fn reserve_tid(&mut self) -> (r: Result<Tid, isize>)
        requires
            old(self).wf(),
            old(self).next_tid() < usize::MAX,
        ensures
            final(self).wf(),
            final(self).threads() == old(self).threads(),
            final(self).current() == old(self).current(),
            old(self).threads().len() == 0 ==> {
                &&& r == Err::<Tid, isize>(-1isize)
                &&& final(self).next_tid() == old(self).next_tid()
                &&& final(self).reserved() == old(self).reserved()
            },
            old(self).threads().len() > 0 ==> {
                &&& r == Ok::<Tid, isize>(old(self).next_tid() as Tid)
                &&& final(self).next_tid() == old(self).next_tid() + 1
                &&& final(self).reserved() == Some(old(self).next_tid() as Tid)
            },
    {
        if self.threads.len() == 0 {
            return Err(neg_errno(eperm()));
        }
        let tid = self.next_tid;
        self.next_tid = self.next_tid + 1;
        self.reserved_tid = Some(tid);
        Ok(tid)
    }

    /// Spawns a thread with the reserved ID as a copy of the caller whose trap
    /// frame is at `parent_frame_ptr`. Its kernel stack has `kstack` at its
    /// base and its switch context lives at `ctx_ptr`; `stack` and `tls`, when
    /// non-zero, replace the child's stack and thread pointers, and
    /// `clear_child_tid_ptr` is the word to clear when the child exits.
    ///
    /// Returns the child's ID (also handed to the parent's context), or
    /// `-EPERM` when the scheduler is full. Either way the reservation is
    /// used up and the child's stack and context have been prepared.
    pub fn spawn_thread(
        &mut self,
        parent_frame_ptr: usize,
        stack: usize,
        tls: usize,
        clear_child_tid_ptr: usize,
        mepc: usize,
        kstack: &ThreadAnchor,
        ctx_ptr: usize,
    ) -> (r: (isize, Vec<ArchAction>))
        requires
            old(self).wf(),
            old(self).reserved() is Some,
            kstack_usable(*kstack),
        ensures
            final(self).wf(),
            final(self).current() == old(self).current(),
            final(self).next_tid() == old(self).next_tid(),
            final(self).reserved() is None,
            ({
                let tid = old(self).reserved()->0;
                let prep = spawn_actions(tid, parent_frame_ptr, stack, tls, mepc, *kstack, ctx_ptr);
                if old(self).threads().len() >= MAX_THREADS {
                    &&& r.0 == -1
                    &&& final(self).threads() == old(self).threads()
                    &&& r.1@ == prep
                } else {
                    &&& r.0 == tid as isize
                    &&& final(self).threads() == old(self).threads().push(
                        spawned_tcb(tid, clear_child_tid_ptr, mepc, *kstack, ctx_ptr),
                    )
                    &&& r.1@ == prep + retval_actions(old(self).current_tcb(), tid)
                }
            }),
            replaces_sp(r.1@) <==> stack != 0,
            replaces_tp(r.1@) <==> tls != 0,
            r.1@.contains(ArchAction::SetTrapFrameSp { frame: kstack.trap_frame_addr, sp: stack & !0xFusize })
                <==> stack != 0,
            r.1@.contains(ArchAction::SetTrapFrameTp { frame: kstack.trap_frame_addr, tp: tls })
                <==> tls != 0,
            child_frame_ops(r.1@, kstack.trap_frame_addr, parent_frame_ptr, stack & !0xFusize, tls),
    {
        let new_tid = match self.reserved_tid {
            Some(t) => t,
            None => 0,
        };
        self.reserved_tid = None;
        let stack_base = stack & !0xF;
        let (mut child, mut actions) = ThreadControlBlock::new(
            new_tid,
            stack_base,
            tls,
            mepc,
            kstack,
            ctx_ptr,
        );
        let tf_addr = crate::anchor::ktrap_frame_addr(kstack);
        actions.push(ArchAction::CloneTrapFrame { frame: tf_addr, parent: parent_frame_ptr });
        if stack != 0 {
            actions.push(ArchAction::SetTrapFrameSp { frame: tf_addr, sp: stack_base });
        }
        if tls != 0 {
            actions.push(ArchAction::SetTrapFrameTp { frame: tf_addr, tp: tls });
        }
        actions.push(ArchAction::SetTrapFrameRetval { frame: tf_addr, value: 0 });
        actions.push(ArchAction::LinkAnchor { anchor: child.kstack_base, tid: new_tid });
        let child_ctx = child.thread_ctx_ptr_mut();
        actions.push(ArchAction::SetContextRetval { ctx: child_ctx, value: tf_addr });
        actions.push(ArchAction::SetContextReturnToFork { ctx: child_ctx });
        child.clear_child_tid = clear_child_tid_ptr;
        assert(actions@ =~= spawn_actions(
            new_tid,
            parent_frame_ptr,
            stack,
            tls,
            mepc,
            *kstack,
            ctx_ptr,
        ));
        proof {
            lemma_spawn_pointer_replacement(
                new_tid,
                parent_frame_ptr,
                stack,
                tls,
                mepc,
                *kstack,
                ctx_ptr,
            );
        }
        if self.threads.len() >= MAX_THREADS {
            return (neg_errno(eperm()), actions);
        }
        self.threads.push(child);
        let ghost prep = actions@;
        if let Some(parent) = self.current_thread() {
            actions.push(ArchAction::SetContextRetval { ctx: parent.thread_ctx_ptr(), value: new_tid });
        }
        proof {
            if actions@.len() > prep.len() {
                lemma_retval_keeps_child_frame(
                    prep,
                    actions@.last(),
                    kstack.trap_frame_addr,
                    parent_frame_ptr,
                    stack & !0xFusize,
                    tls,
                );
                assert(actions@ =~= prep.push(actions@.last()));
            }
        }
        (new_tid as isize, actions)
    }

    /// A scheduler whose only thread is the boot thread (ID 1, running) on
    /// the kernel stack of `boot_stack`, with its switch context at `ctx_ptr`;
    /// the operations that prepare the boot thread come back with it.
    pub fn init(boot_stack: &ThreadAnchor, ctx_ptr: usize) -> (r: (Scheduler, Vec<ArchAction>))
        requires
            kstack_usable(*boot_stack),
        ensures
            r.0.wf(),
            r.0.threads() == seq![boot_tcb(*boot_stack, ctx_ptr)],
            r.0.current() == 0,
            r.0.next_tid() == 2,
            r.0.reserved() is None,
            r.1@ == boot_actions(*boot_stack, ctx_ptr),
    {
        let mut scheduler = Scheduler::new();
        let (mut boot, mut actions) = ThreadControlBlock::new(1, 0, 0, 0, boot_stack, ctx_ptr);
        boot.state = ThreadState::Running;
        scheduler.threads.push(boot);
        scheduler.current_index = 0;
        scheduler.next_tid = 2;
        actions.push(ArchAction::LinkAnchor { anchor: boot_stack.kstack_base, tid: 1 });
        assert(scheduler.threads@ =~= seq![boot_tcb(*boot_stack, ctx_ptr)]);
        assert(actions@ =~= boot_actions(*boot_stack, ctx_ptr));
        (scheduler, actions)
    }

    /// Ends the current thread: it is marked exited, its clear-on-exit word
    /// (when set) is zeroed and every waiter on it woken; then the program
    /// exits if it was the boot thread (ID 1) or there was no current thread,
    /// and otherwise the processor goes to the next ready thread.
    pub fn exit_current_and_yield(&mut self, exit_code: i32) -> (r: (isize, Vec<ArchAction>))
        requires
            old(self).wf(),
        ensures
            final(self).wf(),
            r.0 == 0,
            final(self).next_tid() == old(self).next_tid(),
            final(self).reserved() == old(self).reserved(),
            match old(self).current_tcb() {
                None => {
                    &&& final(self).threads() == old(self).threads()
                    &&& final(self).current() == old(self).current()
                    &&& r.1@ == seq![ArchAction::Exit { code: exit_code }]
                },
                Some(t) => {
                    let ts2 = exited(old(self).threads(), old(self).current());
                    if t.tid == 1 {
                        &&& final(self).threads() == ts2
                        &&& final(self).current() == old(self).current()
                        &&& r.1@ == clear_actions(t) + seq![ArchAction::Exit { code: exit_code }]
                    } else {
                        &&& final(self).threads() == yield_threads(ts2, old(self).current())
                        &&& final(self).current() == yield_current(ts2, old(self).current())
                        &&& r.1@ == clear_actions(t) + yield_actions(ts2, old(self).current())
                    }
                },
            },
    {
        let mut actions: Vec<ArchAction> = Vec::new();
        if self.current_index >= self.threads.len() {
            actions.push(ArchAction::Exit { code: exit_code });
            return (0, actions);
        }
        let cur = self.current_index;
        let is_main_thread = self.threads[cur].tid == 1;
        self.set_state(cur, ThreadState::Exited);
        let clear = self.threads[cur].clear_child_tid;
        if clear != 0 {
            actions.push(ArchAction::ClearWord { addr: clear });
            self.wake_futex(clear, usize::MAX);
        }
        if is_main_thread {
            actions.push(ArchAction::Exit { code: exit_code });
            return (0, actions);
        }
        let mut more = self.yield_now();
        actions.append(&mut more);
        (0, actions)
    }
}

impl Default for Scheduler {
    fn default() -> (r: Self)
        ensures
            r.wf(),
            r.threads() == Seq::<ThreadControlBlock>::empty(),
            r.current() == 0,
            r.next_tid() == 1,
            r.reserved() is None,
    {
        Self::new()
    }
}

// ---------------------------------------------------------------------------
// Laws
// ---------------------------------------------------------------------------

/// A wake that may wake at least as many threads as wait on `addr` wakes
/// every one of them: afterwards each former waiter is ready, no thread waits
/// on `addr` any more, and the count returned is the number of waiters.
pub proof fn lemma_wake_all_waiters(ts: Seq<ThreadControlBlock>, addr: usize, max: usize)
    requires
        waiters_before(ts, addr, ts.len() as int) <= max,
    ensures
        wake_count(ts, addr, max) == waiters_before(ts, addr, ts.len() as int),
        forall|i: int|
            0 <= i < ts.len() ==> {
                &&& waits_on(ts[i], addr) ==> #[trigger] wake_result(ts, addr, max)[i].state
                    == ThreadState::Ready
                &&& !waits_on(wake_result(ts, addr, max)[i], addr)
            },
{
    assert forall|i: int| 0 <= i < ts.len() implies {
        &&& waits_on(ts[i], addr) ==> #[trigger] wake_result(ts, addr, max)[i].state
            == ThreadState::Ready
        &&& !waits_on(wake_result(ts, addr, max)[i], addr)
    } by {
        if waits_on(ts[i], addr) {
            lemma_waiters_before_monotonic(ts, addr, i + 1, ts.len() as int);
        }
    }
}

/// Round-robin fairness: when the current thread yields, the thread that
/// runs next is a ready one, and every thread passed over on the way to it
/// (cyclically, starting just after the current thread) is not ready. When
/// no thread is chosen, no thread is ready.
pub proof fn lemma_yield_round_robin(ts: Seq<ThreadControlBlock>, cur: int)
    requires
        0 <= cur < ts.len(),
    ensures
        ({
            let ys = yielded(ts, cur);
            let start = (cur + 1) % (ts.len() as int);
            match yield_target(ts, cur) {
                Some(n) => {
                    &&& 0 <= n < ts.len()
                    &&& ys[n].state == ThreadState::Ready
                    &&& forall|j: int|
                        (if n >= start {
                            start <= j < n
                        } else {
                            start <= j < ts.len() || 0 <= j < n
                        }) ==> #[trigger] ys[j].state != ThreadState::Ready
                    &&& yield_current(ts, cur) == n
                    &&& yield_threads(ts, cur)[n].state == ThreadState::Running
                },
                None => {
                    &&& forall|j: int| 0 <= j < ts.len() ==> #[trigger] ys[j].state != ThreadState::Ready
                    &&& yield_current(ts, cur) == cur
                },
            }
        }),
{
    lemma_next_ready(yielded(ts, cur), (cur + 1) % (ts.len() as int));
}

/// A thread that blocks on `addr` and yields is made ready again by a later
/// wake of all waiters on `addr`, wherever the processor went in between.
pub proof fn lemma_wait_then_wake(ts: Seq<ThreadControlBlock>, cur: int, addr: usize)
    requires
        0 <= cur < ts.len(),
        ts.len() <= MAX_THREADS,
    ensures
        ({
            let after_wait = yield_threads(blocked_on(ts, cur, addr), cur);
            wake_result(after_wait, addr, usize::MAX)[cur].state == ThreadState::Ready
        }),
{
    let ts1 = blocked_on(ts, cur, addr);
    let ts2 = yield_threads(ts1, cur);
    lemma_next_ready(yielded(ts1, cur), (cur + 1) % (ts1.len() as int));
    assert(ts2[cur] == ts1[cur]);
    lemma_waiters_bounded(ts2, addr, ts2.len() as int);
    lemma_wake_all_waiters(ts2, addr, usize::MAX);
}

/// No more threads wait than there are threads.
pub proof fn lemma_waiters_bounded(ts: Seq<ThreadControlBlock>, addr: usize, n: int)
    requires
        0 <= n,
    ensures
        waiters_before(ts, addr, n) <= n,
    decreases n,
{
    if n > 0 {
        lemma_waiters_bounded(ts, addr, n - 1);
    }
}

/// In every reachable state at most one thread runs, and it is the current
/// one.
pub proof fn lemma_only_current_runs(s: Scheduler, i: int, j: int)
    requires
        s.wf(),
        0 <= i < s.threads().len(),
        0 <= j < s.threads().len(),
        s.threads()[i].state == ThreadState::Running,
        s.threads()[j].state == ThreadState::Running,
    ensures
        i == j,
        i == s.current(),
{
}

/// Thread IDs are never handed out twice: no two threads share an ID, and
/// the ID reserved for a new thread belongs to no thread yet.
pub proof fn lemma_tids_unique(s: Scheduler)
    requires
        s.wf(),
    ensures
        forall|i: int, j: int|
            0 <= i < s.threads().len() && 0 <= j < s.threads().len() && i != j ==> s.threads()[i].tid
                != s.threads()[j].tid,
        s.reserved() matches Some(t) ==> forall|i: int|
            0 <= i < s.threads().len() ==> s.threads()[i].tid != t,
{
    assert forall|i: int, j: int|
        0 <= i < s.threads().len() && 0 <= j < s.threads().len() && i != j implies s.threads()[i].tid
        != s.threads()[j].tid by {
        if i < j {
            assert(s.threads()[i].tid < s.threads()[j].tid);
        } else {
            assert(s.threads()[j].tid < s.threads()[i].tid);
        }
    }
}

/// The boot thread keeps ID 1 in the first slot, and spawned threads get
/// increasing IDs from 2 on: every thread after the first has an ID of at
/// least 2 and above those of the threads before it, and the ID reserved
/// for the next spawn is above every ID handed out so far.
pub proof fn lemma_spawn_tids_increase(s: Scheduler)
    requires
        s.wf(),
    ensures
        s.threads().len() > 0 ==> s.threads()[0].tid == 1,
        forall|i: int| 1 <= i < s.threads().len() ==> #[trigger] s.threads()[i].tid >= 2,
        forall|i: int, j: int|
            0 <= i < j < s.threads().len() ==> #[trigger] s.threads()[i].tid
                < #[trigger] s.threads()[j].tid,
        s.reserved() matches Some(t) ==> t >= 2 && forall|i: int|
            0 <= i < s.threads().len() ==> #[trigger] s.threads()[i].tid < t,
        s.threads().len() > 0 ==> s.next_tid() >= 2,
{
    assert forall|i: int| 1 <= i < s.threads().len() implies #[trigger] s.threads()[i].tid >= 2 by {
        assert(s.threads()[0].tid < s.threads()[i].tid);
    }
    if s.threads().len() > 0 {
        assert(s.threads()[0].tid < s.next_tid());
    }
}

/// An exited thread is never chosen again: a yield does not pick it and
/// leaves it exited, and a wake leaves it as it is.
pub proof fn lemma_exited_stays_exited(
    ts: Seq<ThreadControlBlock>,
    cur: int,
    i: int,
    addr: usize,
    max: usize,
)
    requires
        0 <= cur < ts.len(),
        0 <= i < ts.len(),
        ts[i].state == ThreadState::Exited,
    ensures
        yield_target(ts, cur) != Some(i),
        yield_threads(ts, cur)[i].state == ThreadState::Exited,
        wake_result(ts, addr, max)[i] == ts[i],
{
    lemma_next_ready(yielded(ts, cur), (cur + 1) % (ts.len() as int));
}
} // verus!
