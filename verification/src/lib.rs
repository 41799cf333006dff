//! A small in-process concurrency toolkit: an aligned buffer type and three
//! disciplines for mutating its elements from multiple workers — per-element
//! locking, lock-free disjoint-chunk partitioning, and a capability style
//! disjoint index assignment.  The worker-pool scheduler itself is an external
//! collaborator: the mutation passes here are the per-worker kernels and the
//! whole-pass semantics, stated and proved over sequence views.

pub mod lockfree;
pub mod multibuffer;
pub mod partition;
pub mod structure;
pub mod threadlock;
