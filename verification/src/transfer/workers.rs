//! What upload and download workers share: progress that is reported in
//! steps, the slots of visible progress bars, and the figures of a worker.
use vstd::prelude::*;

pub mod download;
pub mod pipeline;
pub mod upload;

verus! {

// ---------------------------------------------------------------------------
// Progress
// ---------------------------------------------------------------------------

/// Progress is reported once this many bytes have come together.
pub const FLUSH_BYTES: u64 = 0x1_0000;

/// Progress is reported once this many milliseconds have passed.
pub const FLUSH_MS: u64 = 50;

/// Whether progress is reported: what has come together, and the milliseconds
/// since the last report.
pub open spec fn is_due(total: nat, elapsed: nat) -> bool {
    total >= FLUSH_BYTES || elapsed >= FLUSH_MS
}

/// Progress that was made and not yet reported.
pub struct Throttler {
    pub pending: u64,
}

impl Throttler {
    /// Whether what is pending is small enough to wait.
    pub open spec fn wf(self) -> bool {
        self.pending < FLUSH_BYTES
    }

    pub fn new() -> (r: Self)
        ensures
            r.pending == 0,
            r.wf(),
    {
        Throttler { pending: 0 }
    }

    /// Takes in that `n` more bytes have moved. What it returns is to be
    /// reported, and the time since the last report starts anew; none is
    /// nothing.
    pub fn tick(&mut self, n: u64, elapsed_ms: u64) -> (r: Option<u64>)
        requires
            old(self).wf(),
            n <= u64::MAX - FLUSH_BYTES,
        ensures
            final(self).wf(),
            r == if is_due((old(self).pending + n) as nat, elapsed_ms as nat) {
                Some((old(self).pending + n) as u64)
            } else {
                None::<u64>
            },
            final(self).pending == if r is Some {
                0
            } else {
                old(self).pending + n
            },
    {
        let total: u64 = self.pending + n;
        if total >= FLUSH_BYTES || elapsed_ms >= FLUSH_MS {
            self.pending = 0;
            Some(total)
        } else {
            self.pending = total;
            None
        }
    }

    /// Takes what is pending, to be reported at the end of a file.
    pub fn flush(&mut self) -> (r: Option<u64>)
        ensures
            final(self).pending == 0,
            r == if old(self).pending > 0 {
                Some(old(self).pending)
            } else {
                None::<u64>
            },
    {
        let total: u64 = self.pending;
        if total > 0 {
            self.pending = 0;
            Some(total)
        } else {
            None
        }
    }
}

/// What is pending after steps of these sizes and waiting times.
pub open spec fn pending_after(steps: Seq<(nat, nat)>) -> nat
    decreases steps.len(),
{
    if steps.len() == 0 {
        0
    } else {
        let total = pending_after(steps.drop_last()) + steps.last().0;
        if is_due(total, steps.last().1) {
            0
        } else {
            total
        }
    }
}

/// What was reported after steps of these sizes and waiting times.
pub open spec fn reported_after(steps: Seq<(nat, nat)>) -> nat
    decreases steps.len(),
{
    if steps.len() == 0 {
        0
    } else {
        let total = pending_after(steps.drop_last()) + steps.last().0;
        reported_after(steps.drop_last()) + (if is_due(total, steps.last().1) {
            total
        } else {
            0
        })
    }
}

/// What was moved in these steps.
pub open spec fn moved(steps: Seq<(nat, nat)>) -> nat
    decreases steps.len(),
{
    if steps.len() == 0 {
        0
    } else {
        moved(steps.drop_last()) + steps.last().0
    }
}

/// No progress is lost and none is reported twice: what was reported and what
/// is still pending add up to what was moved.
pub proof fn progress_adds_up(steps: Seq<(nat, nat)>)
    ensures
        reported_after(steps) + pending_after(steps) == moved(steps),
        pending_after(steps) < FLUSH_BYTES,
    decreases steps.len(),
{
    if steps.len() > 0 {
        progress_adds_up(steps.drop_last());
    }
}

/// Progress is reported just where 64 KiB have come together or 50 milliseconds
/// have passed, and then all of it is; otherwise it waits.
pub proof fn progress_waits_until_it_is_due(steps: Seq<(nat, nat)>, n: nat, ms: nat)
    ensures
        ({
            let total = pending_after(steps) + n;
            let after = steps.push((n, ms));
            &&& total >= 64 * 1024 || ms >= 50 ==> pending_after(after) == 0 && reported_after(
                after,
            ) == reported_after(steps) + total
            &&& total < 64 * 1024 && ms < 50 ==> pending_after(after) == total && reported_after(
                after,
            ) == reported_after(steps)
            &&& moved(after) == moved(steps) + n
        }),
        pending_after(Seq::empty()) == 0,
        reported_after(Seq::empty()) == 0,
        moved(Seq::empty()) == 0,
{
    assert(steps.push((n, ms)).drop_last() =~= steps);
}

// ---------------------------------------------------------------------------
// Slots of progress bars
// ---------------------------------------------------------------------------

/// How many progress bars of single files are visible at a time.
pub const VISIBLE_BARS: usize = 8;

/// Whether a worker holds the slot of a visible progress bar.
pub struct BarSlot {
    pub held: bool,
}

impl BarSlot {
    pub fn new() -> (r: Self)
        ensures
            !r.held,
    {
        BarSlot { held: false }
    }

    /// Whether a slot is to be asked for.
    pub fn wants(&self) -> (r: bool)
        ensures
            r == !self.held,
    {
        !self.held
    }

    /// Takes in whether a slot was free when one was asked for.
    pub fn granted(&mut self, free: bool)
        requires
            !old(self).held,
        ensures
            final(self).held == free,
    {
        self.held = free;
    }

    /// Gives the slot up. Whether there is one to give back.
    pub fn release(&mut self) -> (r: bool)
        ensures
            r == old(self).held,
            !final(self).held,
    {
        let held = self.held;
        self.held = false;
        held
    }
}

// ---------------------------------------------------------------------------
// Figures
// ---------------------------------------------------------------------------

/// The figures of a worker.
#[derive(Debug, Clone, Copy, PartialEq, Eq, Structural)]
pub struct WorkerMetrics {
    pub bytes: u64,
    pub session_rebuilds: u32,
    pub sftp_rebuilds: u32,
}

impl Default for WorkerMetrics {
    fn default() -> (r: Self)
        ensures
            r == (WorkerMetrics { bytes: 0, session_rebuilds: 0, sftp_rebuilds: 0 }),
    {
        WorkerMetrics { bytes: 0, session_rebuilds: 0, sftp_rebuilds: 0 }
    }
}

/// The sums of the figures of workers: bytes, sessions, channels.
pub open spec fn sums(v: Seq<WorkerMetrics>) -> (nat, nat, nat)
    decreases v.len(),
{
    if v.len() == 0 {
        (0, 0, 0)
    } else {
        let before = sums(v.drop_last());
        (
            before.0 + v.last().bytes as nat,
            before.1 + v.last().session_rebuilds as nat,
            before.2 + v.last().sftp_rebuilds as nat,
        )
    }
}

/// Whether sums fit into the figures of a worker.
pub open spec fn fits(t: (nat, nat, nat)) -> bool {
    t.0 <= u64::MAX && t.1 <= u32::MAX && t.2 <= u32::MAX
}

proof fn lemma_sums_grow(v: Seq<WorkerMetrics>, i: int)
    requires
        0 <= i <= v.len(),
    ensures
        sums(v.take(i)).0 <= sums(v).0,
        sums(v.take(i)).1 <= sums(v).1,
        sums(v.take(i)).2 <= sums(v).2,
    decreases v.len(),
{
    if i == v.len() {
        assert(v.take(i) =~= v);
    } else {
        lemma_sums_grow(v.drop_last(), i);
        assert(v.drop_last().take(i) =~= v.take(i));
    }
}

/// Adds up the figures of workers; nothing where the sums are too large.
pub fn total_metrics(v: &Vec<WorkerMetrics>) -> (r: Option<WorkerMetrics>)
    ensures
        match r {
            Some(m) => (m.bytes as nat, m.session_rebuilds as nat, m.sftp_rebuilds as nat) == sums(
                v@,
            ),
            None => !fits(sums(v@)),
        },
{
    let mut m = WorkerMetrics::default();
    let mut i: usize = 0;
    while i < v.len()
        invariant
            i <= v.len(),
            (m.bytes as nat, m.session_rebuilds as nat, m.sftp_rebuilds as nat) == sums(
                v@.take(i as int),
            ),
        decreases v.len() - i,
    {
        proof {
            assert(v@.take(i + 1).drop_last() =~= v@.take(i as int));
            lemma_sums_grow(v@, i + 1);
        }
        match (
            m.bytes.checked_add(v[i].bytes),
            m.session_rebuilds.checked_add(v[i].session_rebuilds),
            m.sftp_rebuilds.checked_add(v[i].sftp_rebuilds),
        ) {
            (Some(bytes), Some(session_rebuilds), Some(sftp_rebuilds)) => {
                m = WorkerMetrics { bytes, session_rebuilds, sftp_rebuilds };
            },
            _ => {
                return None;
            },
        }
        i = i + 1;
    }
    proof {
        assert(v@.take(i as int) =~= v@);
    }
    Some(m)
}

/// The figures of workers add up, each by itself: what two groups of workers
/// did is the sum of what each did, and one worker's figures are its own.
pub proof fn figures_add_up(a: Seq<WorkerMetrics>, b: Seq<WorkerMetrics>, m: WorkerMetrics)
    ensures
        sums(a + b).0 == sums(a).0 + sums(b).0,
        sums(a + b).1 == sums(a).1 + sums(b).1,
        sums(a + b).2 == sums(a).2 + sums(b).2,
        sums(seq![m]).0 == m.bytes,
        sums(seq![m]).1 == m.session_rebuilds,
        sums(seq![m]).2 == m.sftp_rebuilds,
    decreases b.len(),
{
    if b.len() == 0 {
        assert(a + b =~= a);
    } else {
        figures_add_up(a, b.drop_last(), m);
        assert((a + b).drop_last() =~= a + b.drop_last());
        assert((a + b).last() == b.last());
    }
    assert(seq![m].drop_last() =~= Seq::<WorkerMetrics>::empty());
    assert(sums(Seq::<WorkerMetrics>::empty()) == (0nat, 0nat, 0nat));
}

} // verus!
