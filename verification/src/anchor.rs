//! Per-thread kernel-stack bookkeeping: the anchor that sits at the base of
//! every kernel stack and the placement of the trap frame at its top.

use vstd::prelude::*;

verus! {

/// `x` is a power of two.
pub open spec fn is_power_of_two(x: usize) -> bool {
    x != 0 && x & ((x - 1) as usize) == 0
}

/// `x` rounded down to a multiple of the power of two `align`.
pub open spec fn align_down(x: usize, align: usize) -> usize {
    x & !((align - 1) as usize)
}

/// Rounding down to a power of two never goes up, loses less than `align`,
/// and lands on a multiple of `align`.
pub proof fn lemma_align_down(x: usize, align: usize)
    requires
        is_power_of_two(align),
    ensures
        align_down(x, align) <= x,
        x - align_down(x, align) < align,
        align_down(x, align) & ((align - 1) as usize) == 0,
{
    assert(x & !((align - 1) as usize) <= x) by (bit_vector);
    assert(align != 0 && align & ((align - 1) as usize) == 0 ==> x - (x & !((align - 1) as usize))
        < align) by (bit_vector);
    assert((x & !((align - 1) as usize)) & ((align - 1) as usize) == 0) by (bit_vector);
}

/// Per-thread state stored at the base of the kernel stack.
#[derive(Clone, Copy, Debug, PartialEq, Eq)]
pub struct ThreadAnchor {
    /// Kernel stack base (low address).
    pub kstack_base: usize,
    /// Kernel stack size in bytes.
    pub kstack_size: usize,
    /// Identifies the scheduler's task that owns this stack (0 while unlinked).
    pub task_ptr: usize,
    /// Current/last saved kernel stack pointer.
    pub kernel_sp: usize,
    /// Saved user stack pointer.
    pub user_sp: usize,
    /// Architecture-specific stash slots used during trap entry/exit.
    pub stash0: usize,
    pub stash1: usize,
    pub stash2: usize,
    /// Cached trap-frame address (computed when the stack is allocated).
    pub trap_frame_addr: usize,
}

/// The trap frame sits at the top of the kernel stack, aligned down.
pub open spec fn trap_frame_addr_of(
    kstack_base: usize,
    kstack_size: usize,
    trap_frame_size: usize,
    trap_frame_align: usize,
) -> usize {
    align_down((kstack_base + kstack_size - trap_frame_size) as usize, trap_frame_align)
}

/// The inputs for which the trap-frame placement is defined: the stack top
/// fits in a `usize`, the frame is non-empty and fits below the top, and the
/// alignment is a power of two.
pub open spec fn trap_frame_placement_ok(
    kstack_base: usize,
    kstack_size: usize,
    trap_frame_size: usize,
    trap_frame_align: usize,
) -> bool {
    &&& kstack_base + kstack_size <= usize::MAX
    &&& trap_frame_size != 0
    &&& is_power_of_two(trap_frame_align)
    &&& kstack_base + kstack_size >= trap_frame_size
}

/// Whether the trap-frame placement is defined for these inputs.
pub fn trap_frame_placement_is_ok(
    kstack_base: usize,
    kstack_size: usize,
    trap_frame_size: usize,
    trap_frame_align: usize,
) -> (r: bool)
    ensures
        r == trap_frame_placement_ok(kstack_base, kstack_size, trap_frame_size, trap_frame_align),
{
    kstack_base <= usize::MAX - kstack_size && trap_frame_size != 0 && trap_frame_align != 0
        && trap_frame_align & (trap_frame_align - 1) == 0 && kstack_base + kstack_size
        >= trap_frame_size
}

/// Computes where the trap frame lives: `trap_frame_size` bytes below the top
/// of the kernel stack, rounded down to `trap_frame_align`.
pub fn compute_trap_frame_addr(
    kstack_base: usize,
    kstack_size: usize,
    trap_frame_size: usize,
    trap_frame_align: usize,
) -> (r: usize)
    requires
        trap_frame_placement_ok(kstack_base, kstack_size, trap_frame_size, trap_frame_align),
    ensures
        r == trap_frame_addr_of(kstack_base, kstack_size, trap_frame_size, trap_frame_align),
        r & ((trap_frame_align - 1) as usize) == 0,
        r + trap_frame_size <= kstack_base + kstack_size,
        kstack_base + kstack_size - trap_frame_size - r < trap_frame_align,
{
    let top = kstack_base + kstack_size;
    let below = top - trap_frame_size;
    proof {
        lemma_align_down(below, trap_frame_align);
    }
    below & !(trap_frame_align - 1)
}

/// The anchor written at the base of a freshly allocated kernel stack.
pub open spec fn fresh_anchor(
    base: usize,
    kstack_size: usize,
    trap_frame_size: usize,
    trap_frame_align: usize,
) -> ThreadAnchor {
    ThreadAnchor {
        kstack_base: base,
        kstack_size,
        task_ptr: 0,
        kernel_sp: (base + kstack_size) as usize,
        user_sp: 0,
        stash0: 0,
        stash1: 0,
        stash2: 0,
        trap_frame_addr: trap_frame_addr_of(base, kstack_size, trap_frame_size, trap_frame_align),
    }
}

/// Sets up a kernel stack of `kstack_size` bytes whose memory the allocator
/// handed out at `base` (0 when the allocation failed).
///
/// Returns the anchor to store at `base`, or `None` when there is no memory.
pub fn kalloc_kstack(
    kstack_size: usize,
    trap_frame_size: usize,
    trap_frame_align: usize,
    base: usize,
) -> (r: Option<ThreadAnchor>)
    requires
        is_power_of_two(kstack_size),
        base != 0 ==> trap_frame_placement_ok(base, kstack_size, trap_frame_size, trap_frame_align),
    ensures
        base == 0 ==> r is None,
        base != 0 ==> r == Some(fresh_anchor(base, kstack_size, trap_frame_size, trap_frame_align)),
{
    if base == 0 {
        return None;
    }
    let tf_addr = compute_trap_frame_addr(base, kstack_size, trap_frame_size, trap_frame_align);
    Some(
        ThreadAnchor {
            kstack_base: base,
            kstack_size,
            task_ptr: 0,
            kernel_sp: base + kstack_size,
            user_sp: 0,
            stash0: 0,
            stash1: 0,
            stash2: 0,
            trap_frame_addr: tf_addr,
        },
    )
}

/// `a + b` modulo the width of `usize`.
pub open spec fn wrapping_add_usize(a: usize, b: usize) -> usize {
    if a + b <= usize::MAX {
        (a + b) as usize
    } else {
        (a + b - usize::MAX - 1) as usize
    }
}

/// The anchor records a trap frame that lies inside its kernel stack.
pub open spec fn anchor_has_trap_frame(anchor: ThreadAnchor) -> bool {
    &&& anchor.trap_frame_addr != 0
    &&& anchor.trap_frame_addr >= anchor.kstack_base
    &&& anchor.trap_frame_addr <= wrapping_add_usize(anchor.kstack_base, anchor.kstack_size)
}

/// The trap-frame address recorded in `anchor`.
pub fn ktrap_frame_addr(anchor: &ThreadAnchor) -> (r: usize)
    requires
        anchor_has_trap_frame(*anchor),
    ensures
        r == anchor.trap_frame_addr,
{
    anchor.trap_frame_addr
}

} // verus!
