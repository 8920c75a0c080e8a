//! The sizes that a kernel is made with.

use vstd::prelude::*;

verus! {

/// The sizes of a kernel: what its mailboxes hold, how many threads it has, and
/// how many rows go together.
#[derive(Clone, Copy, Debug, PartialEq, Eq, Structural)]
pub struct KernelOptions {
    pub mailbox_items: usize,
    pub mailbox_bytes: usize,
    pub worker_threads: usize,
    pub rows_per_batch: usize,
}

/// The sizes of a compact process: two threads and small mailboxes.
pub fn compact_kernel() -> (r: KernelOptions)
    ensures
        r == (KernelOptions {
            mailbox_items: 8,
            mailbox_bytes: 65536,
            worker_threads: 2,
            rows_per_batch: 4,
        }),
{
    KernelOptions { mailbox_items: 8, mailbox_bytes: 65536, worker_threads: 2, rows_per_batch: 4 }
}

/// Threads for a host that can run so many at once, where that is known: four to
/// sixteen.
pub open spec fn host_threads(parallelism: Option<usize>) -> usize {
    match parallelism {
        None => 4,
        Some(n) => if n < 4 {
            4
        } else if n > 16 {
            16
        } else {
            n
        },
    }
}

/// The sizes of a server on a host that can run so many threads at once, where
/// that is known.
pub fn host_kernel(parallelism: Option<usize>) -> (r: KernelOptions)
    ensures
        r == (KernelOptions {
            mailbox_items: 32,
            mailbox_bytes: 262144,
            worker_threads: host_threads(parallelism),
            rows_per_batch: 8,
        }),
{
    let worker_threads: usize = match parallelism {
        None => 4,
        Some(n) => if n < 4 {
            4
        } else if n > 16 {
            16
        } else {
            n
        },
    };
    KernelOptions { mailbox_items: 32, mailbox_bytes: 262144, worker_threads, rows_per_batch: 8 }
}

} // verus!
