//! Splitting the windows of a recording into chunks that fit the memory of the device.
//!
//! If all windows fit within the memory budget they are one chunk.  If not, they are split into
//! chunks whose core windows fit, and every chunk is processed with guard windows at either side,
//! which give the steering the context it needs; only the core windows of a chunk are kept.
//! The guard windows come on top of the budget, into the room that it leaves on the device.
use vstd::arithmetic::div_mod::lemma_fundamental_div_mod;
use vstd::prelude::*;

use crate::rounding::{round_to_limit, DOUBLE_LIMIT};

verus! {

/// Buffers that the budget counts: two inputs by frequency, six outputs by frequency and six by
/// time.  The two inputs by time, from which those by frequency are made, are not counted: like the
/// work areas of the transforms, they use the room that the budget leaves.
pub const BUFFERS: u64 = 14;

/// Buffers that live on the device during a pass: those that are counted, and the two inputs by
/// time.
pub const LIVE_BUFFERS: u64 = 16;

/// Bytes of one complex entry of a buffer.
pub const ENTRY_BYTES: u64 = 8;

/// The budget where the device does not tell its memory: 8 GiB.
pub const FALLBACK_BUDGET: u64 = 0x2_0000_0000;

/// The double-precision number nearest to 0.67, in units of `1 / DOUBLE_LIMIT`.
pub const BUDGET_SHARE: u128 = 6034823500676465;

/// The part of `total` bytes that may be used: the product with 0.67 in double precision, rounded
/// down.
pub open spec fn budget_of(total: nat) -> nat {
    crate::rounding::rounded(
        crate::rounding::rounded(total, DOUBLE_LIMIT as nat) * BUDGET_SHARE as nat,
        DOUBLE_LIMIT as nat,
    ) / DOUBLE_LIMIT as nat
}

/// The memory budget is two thirds of the memory, within one per cent.
pub proof fn budget_is_about_two_thirds(total: nat)
    requires
        total <= u64::MAX,
    ensures
        100 * budget_of(total) <= 68 * total,
        66 * total <= 100 * budget_of(total) + 100,
{
    let limit = DOUBLE_LIMIT as nat;
    let r = crate::rounding::rounded(total, limit);
    let p = r * BUDGET_SHARE as nat;
    let b = crate::rounding::rounded(p, limit);
    crate::rounding::lemma_rounded_near(total, limit);
    crate::rounding::lemma_rounded_near(p, limit);
    lemma_fundamental_div_mod(b as int, limit as int);
}

/// The memory budget is 67 per cent of the memory, rounded down, but for what double precision
/// loses: less than one part in two to the 45th.
proof fn lemma_budget_is_67_per_cent(total: nat)
    requires
        total <= u64::MAX,
    ensures
        100 * budget_of(total) * 0x2000_0000_0000 <= 67 * total * 0x2000_0000_0000 + total,
        67 * total * 0x2000_0000_0000 <= 100 * budget_of(total) * 0x2000_0000_0000 + 100
            * 0x2000_0000_0000 + total,
{
    let limit = DOUBLE_LIMIT as nat;
    let r = crate::rounding::rounded(total, limit);
    let p = r * BUDGET_SHARE as nat;
    let b = crate::rounding::rounded(p, limit);
    crate::rounding::lemma_rounded_near(total, limit);
    crate::rounding::lemma_rounded_near(p, limit);
    lemma_fundamental_div_mod(b as int, limit as int);
}

/// How many bytes of the device may be used, given what it tells of its memory.
pub fn memory_budget(total: Option<u64>) -> (budget: u64)
    ensures
        match total {
            Some(bytes) => budget == budget_of(bytes as nat),
            None => budget == FALLBACK_BUDGET,
        },
        match total {
            Some(bytes) => {
                &&& 100 * budget * 0x2000_0000_0000 <= 67 * bytes * 0x2000_0000_0000 + bytes
                &&& 67 * bytes * 0x2000_0000_0000 <= 100 * budget * 0x2000_0000_0000 + 100
                    * 0x2000_0000_0000 + bytes
            },
            None => budget == 8 * 1024 * 1024 * 1024,
        },
        total matches Some(bytes) ==> exists|memory: u128, share: u128|
            {
                &&& #[trigger] call_ensures(
                    round_to_limit,
                    (bytes as u128, 0x20_0000_0000_0000u128),
                    memory,
                )
                &&& #[trigger] call_ensures(
                    round_to_limit,
                    ((memory * 6034823500676465) as u128, 0x20_0000_0000_0000u128),
                    share,
                )
                &&& budget == share as int / 0x20_0000_0000_0000
            },
{
    match total {
        Some(bytes) => {
            let memory: u128 = round_to_limit(bytes as u128, DOUBLE_LIMIT);
            proof {
                crate::rounding::lemma_rounded_near(bytes as nat, DOUBLE_LIMIT as nat);
                budget_is_about_two_thirds(bytes as nat);
                lemma_budget_is_67_per_cent(bytes as nat);
            }
            let share: u128 = round_to_limit(memory * BUDGET_SHARE, DOUBLE_LIMIT);
            (share / DOUBLE_LIMIT) as u64
        },
        None => FALLBACK_BUDGET,
    }
}

/// Bytes on the device for one window of every buffer that is counted.
pub open spec fn bytes_per_window(window_size: nat) -> nat {
    window_size * ENTRY_BYTES as nat * BUFFERS as nat
}

/// How many windows are processed at a time: as many as fit the budget, but at least one, and no
/// more than there are.
pub open spec fn windows_per_chunk(budget: nat, window_size: nat, num_windows: nat) -> nat {
    let fitting = budget / bytes_per_window(window_size);
    let some = if fitting < 1 { 1 } else { fitting };
    if some < num_windows { some } else { num_windows }
}

/// A run of windows that is processed in one pass.
///
/// Windows `core_start..core_end` are kept; the guard windows around them, down to `proc_start`
/// and up to `proc_end`, are processed along for context.
#[derive(Clone, Copy, Debug, PartialEq, Eq, Structural)]
pub struct Chunk {
    pub core_start: usize,
    pub core_end: usize,
    pub proc_start: usize,
    pub proc_end: usize,
}

impl Chunk {
    pub open spec fn proc_len(self) -> int {
        self.proc_end - self.proc_start
    }

    /// How many windows are processed.
    pub fn len(&self) -> (n: usize)
        requires
            self.proc_start <= self.proc_end,
        ensures
            n == self.proc_len(),
            n == self.proc_end - self.proc_start,
    {
        self.proc_end - self.proc_start
    }
}

/// How the windows of a recording are split into chunks.
#[derive(Clone, Copy, Debug, PartialEq, Eq, Structural)]
pub struct ChunkPlan {
    /// Bytes of the device that may be used.
    pub budget: u64,
    /// Windows of the recording.
    pub num_windows: usize,
    /// Core windows of every chunk but the last, which may have fewer.
    pub chunk_windows: usize,
    /// Windows of context on either side of a core.
    pub guard: usize,
    /// Number of chunks.
    pub num_chunks: usize,
}

/// `plan` is the plan for `num_windows` windows: chunks of as many windows as fit the budget, and
/// guards of as many windows as the steering looks at, but at least one.
pub open spec fn planned(
    plan: ChunkPlan,
    num_windows: nat,
    window_size: nat,
    total_memory: Option<u64>,
    context: nat,
) -> bool {
    &&& match total_memory {
        Some(bytes) => plan.budget == budget_of(bytes as nat),
        None => plan.budget == FALLBACK_BUDGET,
    }
    &&& plan.num_windows == num_windows
    &&& plan.chunk_windows == windows_per_chunk(plan.budget as nat, window_size, num_windows)
    &&& plan.guard == if context < 1 { 1 } else { context }
    &&& plan.num_chunks == crate::rounding::ceil_div(num_windows, plan.chunk_windows as nat)
}

impl ChunkPlan {
    /// The chunks cover the windows, and no chunk is empty.
    pub open spec fn wf(self) -> bool {
        &&& 0 < self.chunk_windows <= self.num_windows
        &&& self.guard >= 1
        &&& self.num_windows + self.guard <= usize::MAX
        &&& self.num_chunks > 0
        &&& (self.num_chunks - 1) * self.chunk_windows < self.num_windows
        &&& self.num_windows <= self.num_chunks * self.chunk_windows
    }

    pub open spec fn core_start(self, index: int) -> int {
        index * self.chunk_windows
    }

    pub open spec fn core_end(self, index: int) -> int {
        let end = index * self.chunk_windows + self.chunk_windows;
        if end < self.num_windows { end } else { self.num_windows as int }
    }

    pub open spec fn proc_start(self, index: int) -> int {
        let start = self.core_start(index) - self.guard;
        if start > 0 { start } else { 0 }
    }

    pub open spec fn proc_end(self, index: int) -> int {
        let end = self.core_end(index) + self.guard;
        if end < self.num_windows { end } else { self.num_windows as int }
    }

    /// How many core windows chunk `index` has.
    pub open spec fn core_len(self, index: int) -> int {
        self.core_end(index) - self.core_start(index)
    }

    /// How many guard windows precede the core of chunk `index`.
    pub open spec fn guard_before(self, index: int) -> int {
        self.core_start(index) - self.proc_start(index)
    }

    /// How many windows are processed with chunk `index`.
    pub open spec fn proc_len(self, index: int) -> int {
        self.proc_end(index) - self.proc_start(index)
    }

    /// `chunk` is chunk `index` of the plan.
    pub open spec fn is_chunk(self, index: int, chunk: Chunk) -> bool {
        &&& chunk.core_start == self.core_start(index)
        &&& chunk.core_end == self.core_end(index)
        &&& chunk.proc_start == self.proc_start(index)
        &&& chunk.proc_end == self.proc_end(index)
    }

    /// Plans the chunks for a recording of `num_windows` windows.
    ///
    /// `total_memory` is what the device tells of its memory, `context` the number of windows that
    /// the steering looks at on either side of a window.
    pub fn new(
        num_windows: usize,
        window_size: usize,
        total_memory: Option<u64>,
        context: usize,
    ) -> (plan: ChunkPlan)
        requires
            num_windows > 0,
            window_size > 0,
            bytes_per_window(window_size as nat) <= u64::MAX,
            num_windows + context <= usize::MAX,
            num_windows < usize::MAX,
        ensures
            plan.wf(),
            planned(
                plan,
                num_windows as nat,
                window_size as nat,
                total_memory,
                context as nat,
            ),
            call_ensures(memory_budget, (total_memory,), plan.budget),
            plan.num_windows == num_windows,
            context <= plan.guard,
            plan.guard == context || (context == 0 && plan.guard == 1),
            1 <= plan.chunk_windows <= num_windows,
            plan.chunk_windows == 1 || plan.chunk_windows * (window_size * 8 * 14) <= plan.budget,
            plan.chunk_windows == num_windows || plan.budget < (plan.chunk_windows + 1) * (
            window_size * 8 * 14),
            (plan.num_chunks - 1) * plan.chunk_windows < num_windows,
            num_windows <= plan.num_chunks * plan.chunk_windows,
    {
        let budget: u64 = memory_budget(total_memory);
        let bytes: u64 = window_size as u64 * ENTRY_BYTES * BUFFERS;
        let fitting: u64 = budget / bytes;
        let some: u64 = if fitting < 1 { 1 } else { fitting };
        let chunk_windows: usize = if some < num_windows as u64 {
            some as usize
        } else {
            num_windows
        };
        let guard: usize = if context < 1 { 1 } else { context };
        let num_chunks: usize = (num_windows - 1) / chunk_windows + 1;
        proof {
            let (n, c) = (num_windows as int, chunk_windows as int);
            let q = (n - 1) / c;
            lemma_fundamental_div_mod(n - 1, c);
            assert(q * c < n && n <= (q + 1) * c && q <= n - 1) by (nonlinear_arith)
                requires
                    n - 1 == c * q + (n - 1) % c,
                    0 <= (n - 1) % c < c,
                    c > 0,
                    q >= 0,
            ;
            lemma_fundamental_div_mod(n + c - 1, c);
            let up = (n + c - 1) / c;
            assert(up == q + 1) by (nonlinear_arith)
                requires
                    n + c - 1 == c * up + (n + c - 1) % c,
                    0 <= (n + c - 1) % c < c,
                    q * c < n,
                    n <= (q + 1) * c,
                    c > 0,
            ;
        }
        let plan = ChunkPlan { budget, num_windows, chunk_windows, guard, num_chunks };
        proof {
            cores_fit_the_budget(
                plan,
                num_windows as nat,
                window_size as nat,
                total_memory,
                context as nat,
            );
            assert(window_size * 8 * 14 == bytes_per_window(window_size as nat));
        }
        plan
    }

    /// Chunk `index` of the plan.
    pub fn chunk(&self, index: usize) -> (chunk: Chunk)
        requires
            self.wf(),
            index < self.num_chunks,
        ensures
            self.is_chunk(index as int, chunk),
            chunk.proc_start <= chunk.core_start < chunk.core_end <= chunk.proc_end
                <= self.num_windows,
            chunk.core_start == index * self.chunk_windows,
            chunk.core_end == chunk.core_start + self.chunk_windows || (chunk.core_end
                == self.num_windows && chunk.core_end <= chunk.core_start + self.chunk_windows),
            chunk.proc_start == chunk.core_start - self.guard || (chunk.proc_start == 0
                && chunk.core_start <= self.guard),
            chunk.proc_end == chunk.core_end + self.guard || (chunk.proc_end == self.num_windows
                && self.num_windows <= chunk.core_end + self.guard),
    {
        proof {
            self.lemma_core_start_inside(index as int);
        }
        let core_start: usize = index * self.chunk_windows;
        let core_end: usize = if self.num_windows - core_start > self.chunk_windows {
            core_start + self.chunk_windows
        } else {
            self.num_windows
        };
        let proc_start: usize = if core_start > self.guard { core_start - self.guard } else { 0 };
        let past: usize = core_end + self.guard;
        let proc_end: usize = if past < self.num_windows { past } else { self.num_windows };
        Chunk { core_start, core_end, proc_start, proc_end }
    }

    proof fn lemma_core_start_inside(self, index: int)
        requires
            self.wf(),
            0 <= index < self.num_chunks,
        ensures
            0 <= self.core_start(index) < self.num_windows,
    {
        let c = self.chunk_windows as int;
        assert(0 <= index * c <= (self.num_chunks - 1) * c) by (nonlinear_arith)
            requires
                0 <= index <= self.num_chunks - 1,
                c > 0,
        ;
    }
}

/// A core of several windows fits the budget, and a larger one would not, unless it has all windows.
pub proof fn cores_fit_the_budget(
    plan: ChunkPlan,
    num_windows: nat,
    window_size: nat,
    total_memory: Option<u64>,
    context: nat,
)
    requires
        num_windows > 0,
        window_size > 0,
        planned(plan, num_windows, window_size, total_memory, context),
    ensures
        plan.chunk_windows > 1 ==> plan.chunk_windows * bytes_per_window(window_size)
            <= plan.budget,
        plan.chunk_windows < num_windows ==> plan.budget < (plan.chunk_windows + 1)
            * bytes_per_window(window_size),
{
    let bytes = bytes_per_window(window_size) as int;
    let fitting = plan.budget as int / bytes;
    lemma_fundamental_div_mod(plan.budget as int, bytes);
    let c = plan.chunk_windows as int;
    if c > 1 {
        assert(c * bytes <= plan.budget) by (nonlinear_arith)
            requires
                c <= fitting,
                plan.budget == bytes * fitting + plan.budget as int % bytes,
                0 <= plan.budget as int % bytes,
                bytes > 0,
        ;
    }
    if c < num_windows {
        assert(plan.budget < (c + 1) * bytes) by (nonlinear_arith)
            requires
                fitting <= c,
                plan.budget == bytes * fitting + plan.budget as int % bytes,
                (plan.budget as int % bytes) < bytes,
                bytes > 0,
        ;
    }
}

/// If all windows fit the budget, they are one chunk, which is processed without any guard.
pub proof fn what_fits_is_one_chunk(
    plan: ChunkPlan,
    num_windows: nat,
    window_size: nat,
    total_memory: Option<u64>,
    context: nat,
)
    requires
        num_windows > 0,
        window_size > 0,
        planned(plan, num_windows, window_size, total_memory, context),
        num_windows * bytes_per_window(window_size) <= plan.budget,
    ensures
        plan.num_chunks == 1,
        plan.core_start(0) == 0 && plan.core_end(0) == num_windows,
        plan.proc_start(0) == 0 && plan.proc_end(0) == num_windows,
{
    let bytes = bytes_per_window(window_size) as int;
    let fitting = plan.budget as int / bytes;
    lemma_fundamental_div_mod(plan.budget as int, bytes);
    assert(num_windows <= fitting) by (nonlinear_arith)
        requires
            num_windows * bytes <= plan.budget,
            plan.budget == bytes * fitting + plan.budget as int % bytes,
            (plan.budget as int % bytes) < bytes,
            bytes > 0,
    ;
    let n = num_windows as int;
    assert((n + n - 1) / n == 1) by (nonlinear_arith)
        requires
            n > 0,
    ;
}

/// The cores of the chunks follow each other without gap or overlap: the first begins with the
/// first window, every next one begins where the one before ends, and the last ends with the last
/// window.
pub proof fn cores_follow_each_other(plan: ChunkPlan)
    requires
        plan.wf(),
    ensures
        plan.core_start(0) == 0,
        forall|k: int|
            0 <= k < plan.num_chunks - 1 ==> #[trigger] plan.core_end(k) == plan.core_start(k + 1),
        plan.core_end(plan.num_chunks - 1) == plan.num_windows,
        forall|k: int|
            0 <= k < plan.num_chunks ==> plan.core_start(k) < #[trigger] plan.core_end(k),
{
    let c = plan.chunk_windows as int;
    let n = plan.num_chunks as int;
    assert(0 * c == 0);
    assert forall|k: int| 0 <= k < n - 1 implies #[trigger] plan.core_end(k) == plan.core_start(
        k + 1,
    ) by {
        assert((k + 1) * c == k * c + c) by (nonlinear_arith);
        plan.lemma_core_start_inside(k + 1);
    }
    assert((n - 1) * c + c == n * c) by (nonlinear_arith);
    assert forall|k: int| 0 <= k < n implies plan.core_start(k) < #[trigger] plan.core_end(k) by {
        plan.lemma_core_start_inside(k);
    }
}

/// Bytes on the device during the pass for chunk `index`: its core and guard windows in all buffers
/// that live then.
pub open spec fn bytes_of_pass(plan: ChunkPlan, index: int, window_size: nat) -> int {
    plan.proc_len(index) * (window_size * ENTRY_BYTES as nat * LIVE_BUFFERS as nat)
}

/// A pass takes no more than eight sevenths of the budget with a full guard on either side; where
/// not even one window fits the budget, that window stands for it.
pub proof fn a_pass_takes_bounded_memory(
    plan: ChunkPlan,
    index: int,
    num_windows: nat,
    window_size: nat,
    total_memory: Option<u64>,
    context: nat,
)
    requires
        plan.wf(),
        0 <= index < plan.num_chunks,
        window_size > 0,
        planned(plan, num_windows, window_size, total_memory, context),
    ensures
        ({
            let bytes = bytes_per_window(window_size) as int;
            let room = if plan.budget > bytes { plan.budget as int } else { bytes };
            7 * bytes_of_pass(plan, index, window_size) <= 8 * (room + 2 * plan.guard * bytes)
        }),
{
    a_pass_is_bounded(plan, index);
    cores_fit_the_budget(plan, num_windows, window_size, total_memory, context);
    let bytes = bytes_per_window(window_size) as int;
    let live = (window_size * ENTRY_BYTES as nat * LIVE_BUFFERS as nat) as int;
    let room = if plan.budget > bytes { plan.budget as int } else { bytes };
    let (n, c, g) = (plan.proc_len(index), plan.chunk_windows as int, plan.guard as int);
    assert(7 * live == 8 * bytes);
    assert(c * bytes <= room) by {
        if c == 1 {
            assert(1 * bytes == bytes);
        }
    }
    assert(7 * (n * live) <= 8 * (room + 2 * g * bytes)) by (nonlinear_arith)
        requires
            7 * live == 8 * bytes,
            n <= c + 2 * g,
            c * bytes <= room,
            bytes >= 0,
    ;
}

/// A pass processes some windows, and no more than a full core with a full guard on either side.
pub proof fn a_pass_is_bounded(plan: ChunkPlan, index: int)
    requires
        plan.wf(),
        0 <= index < plan.num_chunks,
    ensures
        0 < plan.proc_len(index) <= plan.chunk_windows + 2 * plan.guard,
{
    plan.lemma_core_start_inside(index);
}

/// Every window is in the core of exactly one chunk.
pub proof fn every_window_is_kept_once(plan: ChunkPlan, window: int)
    requires
        plan.wf(),
        0 <= window < plan.num_windows,
    ensures
        exists|k: int|
            0 <= k < plan.num_chunks && #[trigger] plan.core_start(k) <= window < plan.core_end(k),
        forall|j: int, k: int|
            0 <= j < plan.num_chunks && 0 <= k < plan.num_chunks && #[trigger] plan.core_start(j)
                <= window < plan.core_end(j) && #[trigger] plan.core_start(k) <= window
                < plan.core_end(k) ==> j == k,
{
    let c = plan.chunk_windows as int;
    let k = window / c;
    lemma_fundamental_div_mod(window, c);
    assert(k * c <= window < k * c + c && 0 <= k < plan.num_chunks) by (nonlinear_arith)
        requires
            window == c * k + window % c,
            0 <= window % c < c,
            0 <= window < plan.num_windows,
            plan.num_windows <= plan.num_chunks * c,
            c > 0,
    ;
    assert(plan.core_start(k) <= window < plan.core_end(k));
    assert forall|i: int, j: int|
        0 <= i < plan.num_chunks && 0 <= j < plan.num_chunks && #[trigger] plan.core_start(i)
            <= window < plan.core_end(i) && #[trigger] plan.core_start(j) <= window
            < plan.core_end(j) implies i == j by {
        assert(i == j) by (nonlinear_arith)
            requires
                i * c <= window < i * c + c,
                j * c <= window < j * c + c,
                c > 0,
        ;
    }
}

/// The first window that the steering of `window` looks at: `radius` windows back, or the first.
pub open spec fn context_first(window: int, radius: int) -> int {
    if window - radius > 0 { window - radius } else { 0 }
}

/// The last window that the steering of `window` looks at: `radius` windows on, or the last.
pub open spec fn context_last(window: int, radius: int, num_windows: int) -> int {
    if window + radius < num_windows - 1 { window + radius } else { num_windows - 1 }
}

/// Chunks leave no seam: a core window sees within its chunk just the windows that it would see
/// if the recording were processed in one pass.
pub proof fn chunks_leave_no_seam(plan: ChunkPlan, index: int, window: int, radius: int)
    requires
        plan.wf(),
        0 <= index < plan.num_chunks,
        plan.core_start(index) <= window < plan.core_end(index),
        0 <= radius <= plan.guard,
    ensures
        ({
            let first = plan.proc_start(index);
            let count = plan.proc_len(index);
            &&& 0 <= window - first < count
            &&& first + context_first(window - first, radius) == context_first(window, radius)
            &&& first + context_last(window - first, radius, count) == context_last(
                window,
                radius,
                plan.num_windows as int,
            )
        }),
{
    plan.lemma_core_start_inside(index);
}

/// A core window finds its context: of the windows up to `context` away from a core window, all that
/// the recording has are processed with its chunk, whatever the memory of the device.
pub proof fn a_core_window_finds_its_context(
    num_windows: usize,
    window_size: usize,
    total_memory: Option<u64>,
    context: usize,
    plan: ChunkPlan,
    index: usize,
    chunk: Chunk,
    window: int,
    neighbour: int,
)
    requires
        call_ensures(ChunkPlan::new, (num_windows, window_size, total_memory, context), plan),
        call_ensures(ChunkPlan::chunk, (&plan, index), chunk),
        chunk.core_start <= window < chunk.core_end,
        0 <= neighbour < num_windows,
        window - context <= neighbour <= window + context,
    ensures
        context <= plan.guard,
        chunk.proc_start <= neighbour < chunk.proc_end,
{
}

/// The guard is as wide as the context, and one window if there is no context; it depends on nothing
/// else.
pub proof fn the_guard_is_the_context(
    num_windows: usize,
    window_size: usize,
    total_memory: Option<u64>,
    context: usize,
    plan: ChunkPlan,
)
    requires
        call_ensures(ChunkPlan::new, (num_windows, window_size, total_memory, context), plan),
    ensures
        context > 0 ==> plan.guard == context,
        context == 0 ==> plan.guard == 1,
        plan.num_windows == num_windows,
{
}

/// No window is processed in vain: with a core go only windows of the recording, at most as far away
/// from it as the guard is wide.
pub proof fn nothing_is_processed_in_vain(
    plan: ChunkPlan,
    index: usize,
    chunk: Chunk,
    window: int,
)
    requires
        call_ensures(ChunkPlan::chunk, (&plan, index), chunk),
        chunk.proc_start <= window < chunk.proc_end,
    ensures
        chunk.core_start - plan.guard <= window < chunk.core_end + plan.guard,
        0 <= window < plan.num_windows,
{
}

/// Chunks are as large as the memory allows: a core of several windows, in fourteen buffers of eight
/// bytes an entry, fits the budget, and a core of one window more would not, unless all windows are
/// in it.
pub proof fn chunks_are_as_large_as_memory_allows(
    num_windows: usize,
    window_size: usize,
    total_memory: Option<u64>,
    context: usize,
    plan: ChunkPlan,
    budget: u64,
)
    requires
        call_ensures(ChunkPlan::new, (num_windows, window_size, total_memory, context), plan),
        call_ensures(memory_budget, (total_memory,), budget),
    ensures
        plan.budget == budget,
        1 <= plan.chunk_windows <= num_windows,
        plan.chunk_windows > 1 ==> plan.chunk_windows * (window_size * 8 * 14) <= budget,
        plan.chunk_windows < num_windows ==> budget < (plan.chunk_windows + 1) * (window_size * 8
            * 14),
{
}

/// The cores of neighbouring chunks adjoin, the first begins with the first window, and the last ends
/// with the last: no window is left out, and none is kept twice.
pub proof fn cores_adjoin(
    num_windows: usize,
    window_size: usize,
    total_memory: Option<u64>,
    context: usize,
    plan: ChunkPlan,
    index: usize,
    chunk: Chunk,
    next: Chunk,
)
    requires
        call_ensures(ChunkPlan::new, (num_windows, window_size, total_memory, context), plan),
        index < plan.num_chunks,
        call_ensures(ChunkPlan::chunk, (&plan, index), chunk),
        index + 1 < plan.num_chunks ==> call_ensures(
            ChunkPlan::chunk,
            (&plan, (index + 1) as usize),
            next,
        ),
    ensures
        chunk.core_start < chunk.core_end,
        index == 0 ==> chunk.core_start == 0,
        index + 1 < plan.num_chunks ==> chunk.core_end == next.core_start,
        index + 1 == plan.num_chunks ==> chunk.core_end == num_windows,
{
    let c = plan.chunk_windows as int;
    assert((index + 1) * c == index * c + c) by (nonlinear_arith);
    if index + 1 < plan.num_chunks {
        assert((index + 1) * c <= (plan.num_chunks - 1) * c) by (nonlinear_arith)
            requires
                index + 1 <= plan.num_chunks - 1,
                c > 0,
        ;
    }
    if index == 0 {
        assert(0 * c == 0);
    }
}

/// A recording that fits the budget is one chunk, processed once.
pub proof fn a_recording_that_fits_is_processed_once(
    num_windows: usize,
    window_size: usize,
    total_memory: Option<u64>,
    context: usize,
    plan: ChunkPlan,
    chunk: Chunk,
)
    requires
        num_windows > 0,
        call_ensures(ChunkPlan::new, (num_windows, window_size, total_memory, context), plan),
        num_windows * (window_size * 8 * 14) <= plan.budget,
        call_ensures(ChunkPlan::chunk, (&plan, 0usize), chunk),
    ensures
        plan.num_chunks == 1,
        chunk.core_start == 0 && chunk.core_end == num_windows,
        chunk.proc_start == 0 && chunk.proc_end == num_windows,
{
    let c = plan.chunk_windows as int;
    let bytes = window_size * 8 * 14;
    if c < num_windows {
        assert((c + 1) * bytes <= num_windows * bytes) by (nonlinear_arith)
            requires
                c + 1 <= num_windows,
                bytes >= 0,
        ;
    }
    assert(plan.num_chunks <= 1) by (nonlinear_arith)
        requires
            (plan.num_chunks - 1) * c < num_windows,
            c == num_windows,
            num_windows > 0,
    ;
    assert(plan.num_chunks >= 1) by (nonlinear_arith)
        requires
            num_windows <= plan.num_chunks * c,
            num_windows > 0,
            c > 0,
    ;
    assert(0 * c == 0);
}

/// The budget is 67 per cent of the memory, rounded down, but for what double precision loses, and
/// eight gibibytes where the memory is not known.
pub proof fn the_budget_is_67_per_cent(total: Option<u64>, budget: u64)
    requires
        call_ensures(memory_budget, (total,), budget),
    ensures
        total matches Some(bytes) ==> {
            &&& 100 * budget * 0x2000_0000_0000 <= 67 * bytes * 0x2000_0000_0000 + bytes
            &&& 67 * bytes * 0x2000_0000_0000 <= 100 * budget * 0x2000_0000_0000 + 100
                * 0x2000_0000_0000 + bytes
        },
        total is None ==> budget == 8 * 1024 * 1024 * 1024,
{
}

/// The budget is found in double precision: the memory is rounded, its product with the number
/// nearest to 0.67 is rounded, and the fraction is dropped.
pub proof fn the_budget_is_rounded_twice(bytes: u64, budget: u64)
    requires
        call_ensures(memory_budget, (Some(bytes),), budget),
    ensures
        2 * vstd::math::abs(100 * 6034823500676465 - 67 * 0x20_0000_0000_0000) <= 100,
        exists|memory: u128, share: u128|
            {
                &&& #[trigger] call_ensures(
                    round_to_limit,
                    (bytes as u128, 0x20_0000_0000_0000u128),
                    memory,
                )
                &&& #[trigger] call_ensures(
                    round_to_limit,
                    ((memory * 6034823500676465) as u128, 0x20_0000_0000_0000u128),
                    share,
                )
                &&& budget == share as int / 0x20_0000_0000_0000
            },
{
}

/// The length of a chunk is the number of windows from its first to its last.
pub proof fn a_chunk_is_as_long_as_its_windows(chunk: Chunk, n: usize)
    requires
        call_ensures(Chunk::len, (&chunk,), n),
    ensures
        chunk.proc_start + n == chunk.proc_end,
{
}

} // verus!
