//! Scheduling of the cyclic thread, as far as it is decided here: which CPU lists are
//! accepted, and touching the stack before the loop starts.

use vstd::prelude::*;

verus! {

/// Bytes of the calling thread's stack touched by [`prefault_stack`], so the cyclic loop
/// never takes a page fault growing its stack after memory has been locked.
pub const STACK_PREFAULT_BYTES: usize = 262144;

/// Distance between two touched bytes: one per page.
pub const PAGE: usize = 4096;

/// Why a CPU list is refused.
#[derive(Debug, Clone, Copy, PartialEq, Eq, Structural)]
pub enum CpuListError {
    /// No CPU at all.
    Empty,
    /// A CPU beyond the affinity bitmap.
    OutOfRange {
        /// The first such CPU of the list.
        cpu: usize,
        /// The width of the bitmap.
        max_cpu: usize,
    },
}

/// The first CPU of a list that a bitmap of `max_cpu` bits does not hold.
pub open spec fn first_beyond(cpus: Seq<usize>, max_cpu: usize) -> Option<usize>
    decreases cpus.len(),
{
    if cpus.len() == 0 {
        None
    } else if cpus[0] >= max_cpu {
        Some(cpus[0])
    } else {
        first_beyond(cpus.skip(1), max_cpu)
    }
}

/// Check a CPU list against an affinity bitmap of `max_cpu` bits: it must not be empty, and
/// the bitmap must hold each CPU.
pub fn check_cpus(cpus: &[usize], max_cpu: usize) -> (res: Result<(), CpuListError>)
    ensures
        res == if cpus@.len() == 0 {
            Err(CpuListError::Empty)
        } else {
            match first_beyond(cpus@, max_cpu) {
                Some(cpu) => Err(CpuListError::OutOfRange { cpu, max_cpu }),
                None => Ok(()),
            }
        },
        res is Ok <==> cpus@.len() > 0 && forall|i: int|
            0 <= i < cpus@.len() ==> #[trigger] cpus@[i] < max_cpu,
{
    if cpus.len() == 0 {
        return Err(CpuListError::Empty);
    }
    proof {
        a_list_is_refused_for_its_first_cpu_beyond(cpus@, max_cpu);
    }
    let mut i: usize = 0;
    assert(cpus@.skip(0) =~= cpus@);
    while i < cpus.len()
        invariant
            i <= cpus@.len(),
            first_beyond(cpus@, max_cpu) == first_beyond(cpus@.skip(i as int), max_cpu),
        decreases cpus@.len() - i,
    {
        if cpus[i] >= max_cpu {
            return Err(CpuListError::OutOfRange { cpu: cpus[i], max_cpu });
        }
        assert(cpus@.skip(i as int).skip(1) =~= cpus@.skip(i + 1));
        i = i + 1;
    }
    Ok(())
}

/// Keeps the touched bytes from being optimized away: `std::hint::black_box` hands its
/// argument back and is opaque to the optimizer. Nothing is claimed of it.
#[verifier::external_body]
fn keep(buf: &[u8; 262144]) {
    std::hint::black_box(buf);
}

/// Touch [`STACK_PREFAULT_BYTES`] of the calling thread's stack, one byte per page, so the
/// pages exist (and, once memory is locked, stay resident) before the loop starts.
pub fn prefault_stack() {
    let mut buf: [u8; 262144] = [0u8; 262144];
    let mut i: usize = 0;
    while i < STACK_PREFAULT_BYTES
        invariant
            i <= STACK_PREFAULT_BYTES,
            i % PAGE == 0,
        decreases STACK_PREFAULT_BYTES - i,
    {
        buf[i] = 1;
        i = i + PAGE;
    }
    keep(&buf);
}

/// A CPU is reported just where it is the first of the list that lies beyond the bitmap.
pub proof fn a_list_is_refused_for_its_first_cpu_beyond(cpus: Seq<usize>, max_cpu: usize)
    ensures
        match first_beyond(cpus, max_cpu) {
            Some(c) => c >= max_cpu && exists|i: int|
                0 <= i < cpus.len() && #[trigger] cpus[i] == c && forall|j: int|
                    0 <= j < i ==> #[trigger] cpus[j] < max_cpu,
            None => forall|i: int| 0 <= i < cpus.len() ==> #[trigger] cpus[i] < max_cpu,
        },
    decreases cpus.len(),
{
    if cpus.len() > 0 && cpus[0] < max_cpu {
        let rest = cpus.skip(1);
        a_list_is_refused_for_its_first_cpu_beyond(rest, max_cpu);
        match first_beyond(rest, max_cpu) {
            Some(c) => {
                let i = choose|i: int|
                    0 <= i < rest.len() && #[trigger] rest[i] == c && forall|j: int|
                        0 <= j < i ==> #[trigger] rest[j] < max_cpu;
                assert(cpus[i + 1] == c);
                assert forall|j: int| 0 <= j < i + 1 implies #[trigger] cpus[j] < max_cpu by {
                    if j > 0 {
                        assert(rest[j - 1] == cpus[j]);
                    }
                }
            },
            None => {
                assert forall|i: int| 0 <= i < cpus.len() implies #[trigger] cpus[i] < max_cpu by {
                    if i > 0 {
                        assert(rest[i - 1] == cpus[i]);
                    }
                }
            },
        }
    } else if cpus.len() > 0 {
        assert(cpus[0] == cpus[0]);
    }
}

/// The stack is touched over 256 KiB, once per page of 4 KiB.
pub proof fn the_stack_is_touched_page_by_page()
    ensures
        STACK_PREFAULT_BYTES == 64 * PAGE,
        PAGE == 4 * 1024,
{
}

} // verus!
