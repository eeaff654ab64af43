//! Verified core of a small library operating system: the cooperative
//! scheduler, kernel-stack and trap-frame bookkeeping, and the planning logic
//! of the workspace's build tooling.

pub mod anchor;
pub mod arch;
pub mod errno;
pub mod thread;
pub mod scheduler;
pub mod trap;
pub mod text;
pub mod matrix;
pub mod act;
pub mod massage;
pub mod sh;
