//! The architecture operations that the scheduler decides on and the platform
//! performs: trap-frame and thread-context set-up, context switches, and exit.

use vstd::prelude::*;

verus! {

/// One operation on architecture state, named by the addresses it touches.
///
/// The scheduler's decisions come back as a sequence of these; the platform
/// layer carries them out in order. A `SwitchContext` or an `Exit` is always
/// the last operation of a sequence.
#[derive(Clone, Copy, Debug, PartialEq, Eq, Structural)]
pub enum ArchAction {
    /// Initialise the trap frame at `frame` for a thread that starts at `pc`
    /// with user stack `user_sp` and thread pointer `user_tls`.
    InitTrapFrame { frame: usize, user_sp: usize, user_tls: usize, pc: usize },
    /// Copy the trap frame at `parent` into the trap frame at `frame`.
    CloneTrapFrame { frame: usize, parent: usize },
    /// Set the stack pointer saved in the trap frame at `frame`.
    SetTrapFrameSp { frame: usize, sp: usize },
    /// Set the thread pointer saved in the trap frame at `frame`.
    SetTrapFrameTp { frame: usize, tp: usize },
    /// Set the return-value register saved in the trap frame at `frame`.
    SetTrapFrameRetval { frame: usize, value: usize },
    /// Initialise the switch context at `ctx` for a thread whose kernel stack
    /// has its anchor at `anchor` and its top at `kstack_top`.
    InitContext { ctx: usize, anchor: usize, kstack_top: usize },
    /// Set the value that the thread of context `ctx` sees returned.
    SetContextRetval { ctx: usize, value: usize },
    /// Make the thread of context `ctx` resume in the fork-return path.
    SetContextReturnToFork { ctx: usize },
    /// Record in the anchor at `anchor` that it belongs to thread `tid`.
    LinkAnchor { anchor: usize, tid: usize },
    /// Save the running context into `from` and resume the one in `to`.
    SwitchContext { from: usize, to: usize },
    /// Store a zero 32-bit word at `addr`.
    ClearWord { addr: usize },
    /// Terminate the whole program with `code`.
    Exit { code: i32 },
}

} // verus!
