//! The register state saved on a trap, and the syscall view of it.

use vstd::prelude::*;

verus! {

/// Machine-mode value of the `MPP` field of `mstatus`, in place.
pub const MSTATUS_MPP_MACHINE: usize = 6144;

/// Registers saved on trap entry (x0 is hardwired to zero and not stored),
/// followed by the trap CSRs.
#[derive(Clone, Copy, Debug, PartialEq, Eq, Structural)]
pub struct TrapFrame {
    pub ra: usize, // x1
    pub sp: usize, // x2
    pub gp: usize, // x3
    pub tp: usize, // x4
    pub t0: usize, // x5
    pub t1: usize, // x6
    pub t2: usize, // x7
    pub s0: usize, // x8
    pub s1: usize, // x9
    pub a0: usize, // x10
    pub a1: usize, // x11
    pub a2: usize, // x12
    pub a3: usize, // x13
    pub a4: usize, // x14
    pub a5: usize, // x15
    pub a6: usize, // x16
    pub a7: usize, // x17
    pub s2: usize, // x18
    pub s3: usize, // x19
    pub s4: usize, // x20
    pub s5: usize, // x21
    pub s6: usize, // x22
    pub s7: usize, // x23
    pub s8: usize, // x24
    pub s9: usize, // x25
    pub s10: usize, // x26
    pub s11: usize, // x27
    pub t3: usize, // x28
    pub t4: usize, // x29
    pub t5: usize, // x30
    pub t6: usize, // x31
    pub mepc: usize,
    pub mstatus: usize,
    pub mcause: usize,
    pub mtval: usize,
    pub from_kernel: usize,
}

/// A fresh trap frame: every register zero except `gp`, and `mstatus` set
/// so that `mret` returns to machine mode.
pub open spec fn fresh_trap_frame(gp: usize) -> TrapFrame {
    TrapFrame {
        ra: 0,
        sp: 0,
        gp: gp,
        tp: 0,
        t0: 0,
        t1: 0,
        t2: 0,
        s0: 0,
        s1: 0,
        a0: 0,
        a1: 0,
        a2: 0,
        a3: 0,
        a4: 0,
        a5: 0,
        a6: 0,
        a7: 0,
        s2: 0,
        s3: 0,
        s4: 0,
        s5: 0,
        s6: 0,
        s7: 0,
        s8: 0,
        s9: 0,
        s10: 0,
        s11: 0,
        t3: 0,
        t4: 0,
        t5: 0,
        t6: 0,
        mepc: 0,
        mstatus: MSTATUS_MPP_MACHINE,
        mcause: 0,
        mtval: 0,
        from_kernel: 0,
    }
}

/// Syscall argument `idx` of `f`: registers `a0` to `a5`, and 0 past them.
pub open spec fn syscall_arg(f: TrapFrame, idx: usize) -> usize {
    if idx == 0 {
        f.a0
    } else if idx == 1 {
        f.a1
    } else if idx == 2 {
        f.a2
    } else if idx == 3 {
        f.a3
    } else if idx == 4 {
        f.a4
    } else if idx == 5 {
        f.a5
    } else {
        0
    }
}

impl TrapFrame {
    /// A fresh trap frame for code that runs with global pointer `gp` (the
    /// value of the `gp` register when the frame is made).
    pub fn new(gp: usize) -> (r: Self)
        ensures
            r == fresh_trap_frame(gp),
    {
        let mut mstatus: usize = 0;
        // MPP = 3 (machine mode), so that `mret` returns to M-mode.
        mstatus = mstatus | (3usize << 11usize);
        assert(0usize | (3usize << 11usize) == 6144usize) by (bit_vector);
        TrapFrame {
            ra: 0,
            sp: 0,
            gp: gp,
            tp: 0,
            t0: 0,
            t1: 0,
            t2: 0,
            s0: 0,
            s1: 0,
            a0: 0,
            a1: 0,
            a2: 0,
            a3: 0,
            a4: 0,
            a5: 0,
            a6: 0,
            a7: 0,
            s2: 0,
            s3: 0,
            s4: 0,
            s5: 0,
            s6: 0,
            s7: 0,
            s8: 0,
            s9: 0,
            s10: 0,
            s11: 0,
            t3: 0,
            t4: 0,
            t5: 0,
            t6: 0,
            mepc: 0,
            mstatus,
            mcause: 0,
            mtval: 0,
            from_kernel: 0,
        }
    }

    /// The program counter at the trap.
    pub fn pc(&self) -> (r: usize)
        ensures
            r == self.mepc,
    {
        self.mepc
    }

    /// The syscall number (register `a7`).
    pub fn syscall_number(&self) -> (r: usize)
        ensures
            r == self.a7,
    {
        self.a7
    }

    /// Syscall argument `idx` (registers `a0` to `a5`; 0 for any other index).
    pub fn arg(&self, idx: usize) -> (r: usize)
        ensures
            r == syscall_arg(*self, idx),
    {
        match idx {
            0 => self.a0,
            1 => self.a1,
            2 => self.a2,
            3 => self.a3,
            4 => self.a4,
            5 => self.a5,
            _ => 0,
        }
    }

    /// Sets the syscall return value (register `a0`, as a machine word).
    pub fn set_ret(&mut self, ret: isize)
        ensures
            *final(self) == (TrapFrame { a0: ret as usize, ..*old(self) }),
    {
        self.a0 = ret as usize;
    }
}

/// Setting the return value is what the first syscall argument reads back,
/// and it leaves the syscall number, the other arguments and the program
/// counter alone.
pub proof fn lemma_set_ret_reads_back(f: TrapFrame, ret: isize)
    ensures
        ({
            let g = TrapFrame { a0: ret as usize, ..f };
            &&& syscall_arg(g, 0) == ret as usize
            &&& g.a7 == f.a7
            &&& g.mepc == f.mepc
            &&& forall|i: usize| 1 <= i ==> #[trigger] syscall_arg(g, i) == syscall_arg(f, i)
        }),
{
}

} // verus!
