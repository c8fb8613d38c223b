//! The fake-OS shim: deterministic stand-ins for the operating-system
//! services a full-featured script engine expects underneath it, in a guest
//! that has no kernel at all.
//!
//! The shim owns no dispatch or engine state and assumes a single thread;
//! a process-control request aborts the current call only, never the
//! sandbox, and can therefore never corrupt the dispatch table or the
//! latched script.  Entropy is the one service that cannot be modelled
//! deterministically; it comes from the host's hardware instruction outside
//! this library.

use vstd::prelude::*;
use vstd::arithmetic::div_mod::{lemma_fundamental_div_mod, lemma_mod_multiples_basic};
use vstd::arithmetic::mul::{lemma_mul_is_commutative, lemma_mul_is_distributive_add};

verus! {

/// The fixed page size the shim reports; also the largest alignment the
/// allocator supports.
pub const PAGE_SIZE: u32 = 4096;

/// Whether `a` is a power of two (and in particular not zero).
pub open spec fn is_pow2(a: u32) -> bool {
    a != 0 && a & ((a - 1) as u32) == 0
}

/// The smallest multiple of `a` that is at least `n`.
pub open spec fn align_up(n: int, a: int) -> int {
    if n % a == 0 {
        n
    } else {
        n + (a - n % a)
    }
}

/// Rounding up to an alignment yields an aligned offset less than one
/// alignment away.
pub proof fn lemma_align_up(n: int, a: int)
    requires
        0 <= n,
        0 < a,
    ensures
        align_up(n, a) % a == 0,
        n <= align_up(n, a) < n + a,
{
    let r = n % a;
    if r != 0 {
        let q = n / a;
        lemma_fundamental_div_mod(n, a);
        assert(align_up(n, a) == a * q + a);
        lemma_mul_is_distributive_add(a, q, 1);
        assert(a * (q + 1) == a * q + a * 1);
        assert(align_up(n, a) == a * (q + 1));
        lemma_mul_is_commutative(a, q + 1);
        lemma_mod_multiples_basic(q + 1, a);
    }
}

/// The shim's aligned allocator: a bump allocator over a heap of the size
/// the sandbox was created with.  Offsets stand for pointers; offset zero
/// is the heap's base, which is page-aligned by construction.
pub struct ShimAllocator {
    heap_bytes: u32,
    next: u32,
}

impl ShimAllocator {
    /// The heap size this allocator serves, fixed at creation.
    pub closed spec fn heap_size(self) -> u32 {
        self.heap_bytes
    }

    /// The offset of the first byte not yet handed out.
    pub closed spec fn next_free(self) -> u32 {
        self.next
    }

    /// The bump pointer never passes the end of the heap.
    pub open spec fn wf(self) -> bool {
        self.next_free() <= self.heap_size()
    }

    /// A fresh allocator over `heap_bytes` bytes.
    pub fn new(heap_bytes: u32) -> (a: ShimAllocator)
        ensures
            a.wf(),
            a.heap_size() == heap_bytes,
            a.next_free() == 0,
    {
        ShimAllocator { heap_bytes, next: 0 }
    }

    /// Allocate `size` bytes at alignment `align`.  Succeeds exactly when
    /// an aligned block of that size still fits in the heap; the returned
    /// offset is always a multiple of the requested alignment, and a
    /// failed request changes nothing, so exhaustion is deterministic and
    /// never corrupts adjacent memory.
    pub fn allocate(&mut self, size: u32, align: u32) -> (r: Option<u32>)
        requires
            old(self).wf(),
            is_pow2(align),
            align <= PAGE_SIZE,
        ensures
            final(self).wf(),
            final(self).heap_size() == old(self).heap_size(),
            r is Some <==> align_up(old(self).next_free() as int, align as int) + size <= old(
                self,
            ).heap_size(),
            match r {
                Some(p) => {
                    &&& p as int == align_up(old(self).next_free() as int, align as int)
                    &&& p % align == 0
                    &&& old(self).next_free() <= p
                    &&& p + size <= old(self).heap_size()
                    &&& final(self).next_free() == p + size
                },
                None => *final(self) == *old(self),
            },
    {
        proof {
            assert(align > 0);
            lemma_align_up(self.next as int, align as int);
        }
        let rem = self.next % align;
        let pad = if rem == 0 {
            0u32
        } else {
            align - rem
        };
        if pad > u32::MAX - self.next {
            return None;
        }
        let aligned = self.next + pad;
        proof {
            assert(aligned as int == align_up(old(self).next_free() as int, align as int));
            assert(aligned as int % align as int == 0);
            assert(aligned % align == 0);
        }
        if aligned > self.heap_bytes || size > self.heap_bytes - aligned {
            return None;
        }
        self.next = aligned + size;
        Some(aligned)
    }
}

/// Every block the shim hands out matches the requested alignment, for
/// every power-of-two alignment up to the supported maximum: the offset an
/// allocation returns is `align_up` of the bump pointer, and that is a
/// multiple of the alignment.
pub proof fn lemma_alloc_aligned(next: u32, align: u32)
    requires
        is_pow2(align),
        align <= PAGE_SIZE,
    ensures
        align_up(next as int, align as int) % (align as int) == 0,
        next <= align_up(next as int, align as int) < next + align,
{
    lemma_align_up(next as int, align as int);
}

/// The shim's clock: monotonically non-decreasing readings with no
/// real-time source behind them.  Each reading advances the count by one
/// until it saturates, so timing and backoff logic in the engine always
/// sees time moving forward.
pub struct ShimClock {
    ticks: u64,
}

impl ShimClock {
    /// The last value handed out.
    pub closed spec fn ticks(self) -> u64 {
        self.ticks
    }

    /// A clock starting at zero.
    pub fn new() -> (c: ShimClock)
        ensures
            c.ticks() == 0,
    {
        ShimClock { ticks: 0 }
    }

    /// Read the clock.  Readings never decrease.
    pub fn now(&mut self) -> (t: u64)
        ensures
            t == final(self).ticks(),
            old(self).ticks() <= t,
            t == if old(self).ticks() < u64::MAX {
                old(self).ticks() + 1
            } else {
                u64::MAX as int
            },
    {
        if self.ticks < u64::MAX {
            self.ticks = self.ticks + 1;
        }
        self.ticks
    }
}

/// Consecutive clock readings never go backwards.
pub proof fn lemma_clock_monotonic(t0: u64, t1: u64, t2: u64)
    requires
        t1 == if t0 < u64::MAX {
            t0 + 1
        } else {
            u64::MAX as int
        },
        t2 == if t1 < u64::MAX {
            t1 + 1
        } else {
            u64::MAX as int
        },
    ensures
        t0 <= t1 <= t2,
{
}

/// The shim's output sink: the guest has no terminal, so bytes the engine
/// writes are collected for the host to fetch, and a write never fails or
/// truncates.
pub struct ShimOutput {
    written: Vec<u8>,
}

impl ShimOutput {
    /// Everything written so far, in order.
    pub closed spec fn contents(self) -> Seq<u8> {
        self.written@
    }

    /// An empty sink.
    pub fn new() -> (o: ShimOutput)
        ensures
            o.contents() == Seq::<u8>::empty(),
    {
        ShimOutput { written: Vec::new() }
    }

    /// Write bytes to the sink; reports the full count, like a write that
    /// never short-writes.
    pub fn write(&mut self, data: &[u8]) -> (n: usize)
        ensures
            final(self).contents() == old(self).contents() + data@,
            n == data@.len(),
    {
        let mut i: usize = 0;
        while i < data.len()
            invariant
                i <= data.len(),
                self.written@ =~= old(self).written@ + data@.take(i as int),
            decreases data.len() - i,
        {
            self.written.push(data[i]);
            proof {
                assert(data@.take(i + 1 as int) =~= data@.take(i as int).push(data@[i as int]));
            }
            i += 1;
        }
        proof {
            assert(data@.take(data@.len() as int) =~= data@);
        }
        data.len()
    }

    /// Hand the collected bytes to the host.
    pub fn drain(&mut self) -> (out: Vec<u8>)
        ensures
            out@ == old(self).contents(),
            final(self).contents() == Seq::<u8>::empty(),
    {
        let mut out: Vec<u8> = Vec::new();
        core::mem::swap(&mut out, &mut self.written);
        out
    }
}

/// What a system-configuration query may ask for.
#[derive(Clone, Copy, Debug, PartialEq, Eq, Structural)]
pub enum SysconfQuery {
    PageSize,
    ProcessorCount,
}

/// Answer a system-configuration query with a fixed, plausible constant:
/// the guest has no hardware to probe.  One page is [`PAGE_SIZE`] bytes and
/// the guest runs single-threaded on one processor.
pub fn sysconf(q: SysconfQuery) -> (r: u32)
    ensures
        q == SysconfQuery::PageSize ==> r == PAGE_SIZE,
        q == SysconfQuery::ProcessorCount ==> r == 1,
{
    match q {
        SysconfQuery::PageSize => PAGE_SIZE,
        SysconfQuery::ProcessorCount => 1,
    }
}

/// The shim's verdict for a process-control request: the current call
/// terminates with this status.  The sandbox outlives the call, and the
/// verdict carries no reference to dispatch or engine state, so neither
/// can be corrupted on the way out.
#[derive(Clone, Copy, Debug, PartialEq, Eq, Structural)]
pub struct CallAbort {
    pub status: i32,
}

/// Process exit: deterministic, and scoped to the current call rather
/// than the host.
pub fn process_exit(status: i32) -> (r: CallAbort)
    ensures
        r.status == status,
{
    CallAbort { status }
}

/// Signal delivery: there is no second process to signal, so `kill` maps
/// to the exit path with the conventional fatal-signal status.
pub fn signal_kill(pid: i32, signal: i32) -> (r: CallAbort)
    requires
        0 <= signal < 128,
    ensures
        r.status == 128 + signal,
{
    process_exit(128 + signal)
}

} // verus!
