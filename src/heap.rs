//! The heap's policy. The heap serves a request from its own pool; when the
//! pool cannot, it pulls one block from the global frame allocator, sized to
//! the next power of two of the request, puts it into its pool and tries
//! once more. Failing that, the request is fatal. Freed memory always goes
//! back to the heap's pool.

use vstd::prelude::*;

verus! {

/// The first power of two, from `p` on by doubling, that is at least `n`.
pub open spec fn pow2_from(n: int, p: int) -> int
    decreases if p < n {
        n - p
    } else {
        0
    },
{
    if p <= 0 || p >= n {
        p
    } else {
        pow2_from(n, 2 * p)
    }
}

/// The least power of two that is at least `n`: 1 for 0.
pub open spec fn next_pow2(n: int) -> int {
    pow2_from(n, 1)
}

proof fn lemma_pow2_from_bounds(n: int, p: int)
    requires
        p >= 1,
    ensures
        pow2_from(n, p) >= p,
        pow2_from(n, p) >= n,
    decreases if p < n {
        n - p
    } else {
        0
    },
{
    if p < n {
        lemma_pow2_from_bounds(n, 2 * p);
    }
}

/// The least power of two that is at least `n`, or `None` where it does not
/// fit in 64 bits.
pub fn checked_next_pow2(n: u64) -> (r: Option<u64>)
    ensures
        r matches Some(p) ==> p == next_pow2(n as int),
        r is None <==> next_pow2(n as int) > u64::MAX,
        next_pow2(n as int) >= n,
{
    proof {
        lemma_pow2_from_bounds(n as int, 1);
    }
    let mut p: u64 = 1;
    while p < n
        invariant
            p >= 1,
            pow2_from(n as int, p as int) == next_pow2(n as int),
        decreases u64::MAX - p,
    {
        if p > u64::MAX / 2 {
            proof {
                lemma_pow2_from_bounds(n as int, 2 * p);
            }
            return None;
        }
        p = p * 2;
    }
    Some(p)
}

/// What the heap's pool or the global frame allocator answered.
#[derive(Clone, Copy, Debug, PartialEq, Eq, Structural)]
pub enum HeapEvent {
    /// A block of `size` bytes at `addr`.
    Granted { addr: u64, size: u64 },
    /// No block.
    Refused,
}

/// What the heap does next.
#[derive(Clone, Copy, Debug, PartialEq, Eq, Structural)]
pub enum HeapAction {
    /// Hand the block at `addr` to the caller.
    Return(u64),
    /// Ask the global frame allocator for a block of `size` bytes aligned to
    /// `align`.
    PullFrame { size: u64, align: u64 },
    /// Put the block of `size` bytes at `addr` into the heap's pool, then ask
    /// the pool again.
    TransferAndRetry { addr: u64, size: u64 },
    /// The request cannot be served: allocation failure.
    Fail,
}

/// How far a request has gone.
#[derive(Clone, Copy, Debug, PartialEq, Eq, Structural)]
pub enum HeapPhase {
    /// The pool was asked.
    Local,
    /// The global frame allocator was asked.
    Refill,
    /// The pool was asked again, after it received a block.
    Retry,
    /// The request is over.
    Done,
}

/// What the heap does next, and how far the request of `size` bytes aligned
/// to `align` has then gone, on `event` in `phase`. A block from either try
/// of the pool goes to the caller. A refusal of the first try pulls a block
/// of the next power of two of the size from the global frame allocator,
/// whose block goes into the pool before the second try. A refusal of the
/// global frame allocator or of the second try, a size whose next power of
/// two does not fit, or any event once the request is over, fails.
pub open spec fn heap_step(phase: HeapPhase, size: u64, align: u64, event: HeapEvent) -> (
    HeapAction,
    HeapPhase,
) {
    match (phase, event) {
        (HeapPhase::Local, HeapEvent::Granted { addr, size: _ }) => (
            HeapAction::Return(addr),
            HeapPhase::Done,
        ),
        (HeapPhase::Local, HeapEvent::Refused) => if next_pow2(size as int) <= u64::MAX {
            (
                HeapAction::PullFrame { size: next_pow2(size as int) as u64, align },
                HeapPhase::Refill,
            )
        } else {
            (HeapAction::Fail, HeapPhase::Done)
        },
        (HeapPhase::Refill, HeapEvent::Granted { addr, size }) => (
            HeapAction::TransferAndRetry { addr, size },
            HeapPhase::Retry,
        ),
        (HeapPhase::Retry, HeapEvent::Granted { addr, size: _ }) => (
            HeapAction::Return(addr),
            HeapPhase::Done,
        ),
        _ => (HeapAction::Fail, HeapPhase::Done),
    }
}

/// How far along a request a phase lies.
pub open spec fn phase_rank(phase: HeapPhase) -> int {
    match phase {
        HeapPhase::Local => 0,
        HeapPhase::Refill => 1,
        HeapPhase::Retry => 2,
        HeapPhase::Done => 3,
    }
}

/// A request never goes back, pulls a block from the global frame allocator
/// only on the pool's first refusal, and so at most once, and that block is
/// at least as large as the request. Every refusal after the first ends the
/// request in failure, and nothing but failure follows its end.
pub proof fn lemma_heap_policy(phase: HeapPhase, size: u64, align: u64, event: HeapEvent)
    ensures
        ({
            let (action, next) = heap_step(phase, size, align, event);
            &&& phase_rank(next) > phase_rank(phase) || (phase is Done && next is Done)
            &&& action is PullFrame ==> phase is Local && event is Refused
            &&& action matches HeapAction::PullFrame { size: pulled, align: _ } ==> pulled >= size
            &&& phase !is Local && event is Refused ==> action is Fail && next is Done
            &&& phase is Done ==> action is Fail
        }),
{
    if phase is Local && event is Refused && next_pow2(size as int) <= u64::MAX {
        lemma_pow2_from_bounds(size as int, 1);
    }
}

/// One allocation request of `size` bytes aligned to `align`, from asking
/// the heap's pool to the answer.
#[derive(Clone, Copy, Debug)]
pub struct HeapRequest {
    size: u64,
    align: u64,
    phase: HeapPhase,
}

impl HeapRequest {
    /// Bytes requested.
    pub closed spec fn size_spec(&self) -> u64 {
        self.size
    }

    /// Alignment requested.
    pub closed spec fn align_spec(&self) -> u64 {
        self.align
    }

    /// How far the request has gone.
    pub closed spec fn phase_spec(&self) -> HeapPhase {
        self.phase
    }

    /// A request of `size` bytes aligned to `align`; the heap's pool is asked
    /// first.
    pub fn new(size: u64, align: u64) -> (r: Self)
        ensures
            r.size_spec() == size,
            r.align_spec() == align,
            r.phase_spec() == HeapPhase::Local,
    {
        HeapRequest { size, align, phase: HeapPhase::Local }
    }

    /// How far the request has gone.
    pub fn phase(&self) -> (r: HeapPhase)
        ensures
            r == self.phase_spec(),
    {
        self.phase
    }

    /// Takes the answer to the last question and says what to do next, as
    /// `heap_step` describes.
    pub fn step(&mut self, event: HeapEvent) -> (r: HeapAction)
        ensures
            final(self).size_spec() == old(self).size_spec(),
            final(self).align_spec() == old(self).align_spec(),
            (r, final(self).phase_spec()) == heap_step(
                old(self).phase_spec(),
                old(self).size_spec(),
                old(self).align_spec(),
                event,
            ),
    {
        match (self.phase, event) {
            (HeapPhase::Local, HeapEvent::Granted { addr, size: _ }) => {
                self.phase = HeapPhase::Done;
                HeapAction::Return(addr)
            },
            (HeapPhase::Local, HeapEvent::Refused) => match checked_next_pow2(self.size) {
                Some(size) => {
                    self.phase = HeapPhase::Refill;
                    HeapAction::PullFrame { size, align: self.align }
                },
                None => {
                    self.phase = HeapPhase::Done;
                    HeapAction::Fail
                },
            },
            (HeapPhase::Refill, HeapEvent::Granted { addr, size }) => {
                self.phase = HeapPhase::Retry;
                HeapAction::TransferAndRetry { addr, size }
            },
            (HeapPhase::Retry, HeapEvent::Granted { addr, size: _ }) => {
                self.phase = HeapPhase::Done;
                HeapAction::Return(addr)
            },
            _ => {
                self.phase = HeapPhase::Done;
                HeapAction::Fail
            },
        }
    }
}

} // verus!
