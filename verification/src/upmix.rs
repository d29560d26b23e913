//! The course of an upmix: what is handed to the device, and what becomes of its answers.
//!
//! The windows of a recording are cut once.  An [`Upmixer`] then says which chunk the device is to
//! process next, adds its answer up, and at last yields the six channels.  The device itself, and
//! the arithmetic on single samples, are the caller's.
use vstd::prelude::*;
use vstd::slice::slice_subrange;

use crate::chunk::{Chunk, ChunkPlan};
use crate::overlap::lay_down;
use crate::window::extract_windows;

verus! {

/// Why a recording cannot be upmixed.
#[derive(Clone, Copy, Debug, PartialEq, Eq, Structural)]
pub enum UpmixError {
    /// There is not one whole window.
    TooShort,
}

impl UpmixError {
    /// What the user is told.
    pub fn message(&self) -> (text: &'static str)
        ensures
            text@ == "Input is too short to process"@,
    {
        "Input is too short to process"
    }
}

/// The weighted windows of both channels of a recording.
pub struct Recording<F, C> {
    /// Samples of the recording.
    pub len: usize,
    /// The weights of a window.
    pub hann: Vec<F>,
    /// Number of windows.
    pub num_windows: usize,
    /// The windows of the left channel, laid end to end.
    pub left: Vec<C>,
    /// The windows of the right channel, laid end to end.
    pub right: Vec<C>,
}

/// The distance between the beginnings of neighbouring windows: half a window.
pub open spec fn hop_of(window_size: int) -> int {
    window_size / 2
}

/// How many samples `num_windows` overlapping windows span.
pub open spec fn span(num_windows: int, window_size: int) -> int {
    (num_windows - 1) * hop_of(window_size) + window_size
}

impl<F, C> Recording<F, C> {
    pub open spec fn window_size(&self) -> int {
        self.hann.len() as int
    }

    pub open spec fn hop_size(&self) -> int {
        hop_of(self.window_size())
    }

    /// The windows are those of a recording of `len` samples, and both channels have them all.
    pub open spec fn wf(&self) -> bool {
        &&& self.window_size() >= 2
        &&& self.window_size() % 2 == 0
        &&& self.len + self.window_size() <= usize::MAX
        &&& self.num_windows == crate::window::window_count(
            self.len as nat,
            self.window_size() as nat,
            self.hop_size() as nat,
        )
        &&& self.num_windows > 0
        &&& self.num_windows * self.window_size() <= usize::MAX
        &&& self.num_windows < usize::MAX
        &&& self.left.len() == self.num_windows * self.window_size()
        &&& self.num_windows * self.window_size() <= self.right.len()
    }

    /// The windows were cut from these channels, between stretches of this silence, and every
    /// sample was weighed by `weigh`.
    pub open spec fn cut_from<W: Fn(F, F) -> C>(
        &self,
        left: Seq<F>,
        right: Seq<F>,
        silence: F,
        weigh: W,
    ) -> bool {
        let hop = self.hop_size();
        &&& self.wf()
        &&& self.len == left.len()
        &&& crate::window::weighted_windows(
            self.left@,
            self.num_windows as int,
            crate::window::padded(left, hop as nat, silence),
            self.hann@,
            hop,
            weigh,
        )
        &&& self.num_windows <= crate::window::window_count(
            right.len(),
            self.window_size() as nat,
            hop as nat,
        )
        &&& crate::window::weighted_windows(
            self.right@,
            crate::window::window_count(
                right.len(),
                self.window_size() as nat,
                hop as nat,
            ) as int,
            crate::window::padded(right, hop as nat, silence),
            self.hann@,
            hop,
            weigh,
        )
    }
}

/// With windows of two hops there is a window for the silence before the recording, and one more
/// for every full hop of the recording.
pub proof fn windows_of_a_recording(len: nat, window_size: nat)
    requires
        window_size >= 2,
        window_size % 2 == 0,
    ensures
        crate::window::window_count(len, window_size, hop_of(window_size as int) as nat) == len
            / hop_of(window_size as int) as nat + 1,
{
}

/// The windows span the recording and the silence before it, so that no sample of the recording
/// is lost when the silence is cut off.
pub proof fn windows_span_the_recording(len: nat, window_size: nat)
    requires
        window_size >= 2,
        window_size % 2 == 0,
    ensures
        ({
            let hop = hop_of(window_size as int);
            let count = crate::window::window_count(len, window_size, hop as nat);
            len + hop < span(count as int, window_size as int) <= len + window_size
        }),
{
    let hop = hop_of(window_size as int);
    windows_of_a_recording(len, window_size);
    let full = len as int / hop;
    vstd::arithmetic::div_mod::lemma_fundamental_div_mod(len as int, hop);
    assert(full * hop == hop * full) by (nonlinear_arith);
}

impl<F: Copy, C> Recording<F, C> {
    /// Cuts both channels of a recording into weighted windows, half a window apart.
    ///
    /// There are as many windows as the left channel yields.
    pub fn new<W: Fn(F, F) -> C>(
        left: &[F],
        right: &[F],
        hann: Vec<F>,
        silence: F,
        weigh: &W,
    ) -> (r: Result<Recording<F, C>, UpmixError>)
        requires
            hann.len() == 1 || (hann.len() >= 2 && hann.len() % 2 == 0),
            hann.len() == 1 ==> left.len() == 0 && right.len() == 0,
            ({
                let hop = hop_of(hann.len() as int) as nat;
                let size = hann.len() as nat;
                let ours = crate::window::window_count(left.len() as nat, size, hop);
                let theirs = crate::window::window_count(right.len() as nat, size, hop);
                &&& left.len() + size <= usize::MAX
                &&& right.len() + size <= usize::MAX
                &&& ours <= theirs < usize::MAX
                &&& theirs * size <= usize::MAX
            }),
            forall|x: F, h: F| call_requires(weigh, (x, h)),
        ensures
            r is Err <==> hann.len() == 1,
            r matches Ok(recording) ==> {
                &&& recording.hann == hann
                &&& recording.cut_from(left@, right@, silence, *weigh)
                &&& recording.len == left.len()
                &&& recording.num_windows == left.len() as int / (hann.len() as int / 2) + 1
                &&& recording.left@.len() == recording.num_windows * hann.len()
                &&& recording.num_windows * hann.len() <= recording.right@.len()
                &&& forall|p: int|
                    #![trigger recording.left@[p]]
                    0 <= p < recording.left@.len() ==> ({
                        let n = hann.len() as int;
                        let s = p % n;
                        let j = (p / n) * (n / 2) + s - n / 2;
                        call_ensures(
                            weigh,
                            (
                                if 0 <= j < left.len() {
                                    left@[j]
                                } else {
                                    silence
                                },
                                hann@[s],
                            ),
                            recording.left@[p],
                        )
                    })
                &&& forall|p: int|
                    #![trigger recording.right@[p]]
                    0 <= p < recording.right@.len() ==> ({
                        let n = hann.len() as int;
                        let s = p % n;
                        let j = (p / n) * (n / 2) + s - n / 2;
                        call_ensures(
                            weigh,
                            (
                                if 0 <= j < right.len() {
                                    right@[j]
                                } else {
                                    silence
                                },
                                hann@[s],
                            ),
                            recording.right@[p],
                        )
                    })
            },
    {
        let hop: usize = hann.len() / 2;
        proof {
            let size = hann.len() as int;
            let ours = crate::window::window_count(left.len() as nat, size as nat, hop as nat);
            let theirs = crate::window::window_count(right.len() as nat, size as nat, hop as nat);
            assert(ours * size <= theirs * size) by (nonlinear_arith)
                requires
                    ours <= theirs,
                    size >= 0,
            ;
        }
        let (left_windows, num_windows) = extract_windows(left, hann.as_slice(), hop, silence, weigh);
        let (right_windows, _) = extract_windows(right, hann.as_slice(), hop, silence, weigh);
        if num_windows == 0 {
            proof {
                if hann.len() >= 2 {
                    windows_of_a_recording(left.len() as nat, hann.len() as nat);
                }
            }
            return Err(UpmixError::TooShort);
        }
        proof {
            windows_of_a_recording(left.len() as nat, hann.len() as nat);
        }
        Ok(
            Recording {
                len: left.len(),
                hann,
                num_windows,
                left: left_windows,
                right: right_windows,
            },
        )
    }
}

/// The core windows of chunk `index`, out of the device's answer to it.
pub open spec fn kept<C>(
    plan: ChunkPlan,
    index: int,
    answer: Seq<C>,
    window_size: int,
) -> Seq<Seq<C>> {
    Seq::new(
        plan.core_len(index) as nat,
        |w: int| crate::window::block(answer, plan.guard_before(index) + w, window_size),
    )
}

/// The core windows of the first chunks, one chunk after the other, out of the device's answers.
pub open spec fn gathered<C>(
    plan: ChunkPlan,
    answers: Seq<Seq<C>>,
    window_size: int,
) -> Seq<Seq<C>>
    decreases answers.len(),
{
    if answers.len() == 0 {
        Seq::empty()
    } else {
        gathered(plan, answers.drop_last(), window_size) + kept(
            plan,
            answers.len() - 1,
            answers.last(),
            window_size,
        )
    }
}

/// After `answers.len()` chunks, as many windows are gathered as those chunks have core windows.
pub proof fn lemma_gathered_len<C>(plan: ChunkPlan, answers: Seq<Seq<C>>, window_size: int)
    requires
        plan.wf(),
        answers.len() <= plan.num_chunks,
    ensures
        gathered(plan, answers, window_size).len() == if answers.len() == 0 {
            0
        } else {
            plan.core_end(answers.len() - 1)
        },
        answers.len() < plan.num_chunks ==> gathered(plan, answers, window_size).len()
            == plan.core_start(answers.len() as int),
    decreases answers.len(),
{
    crate::chunk::cores_follow_each_other(plan);
    if answers.len() > 0 {
        lemma_gathered_len(plan, answers.drop_last(), window_size);
        assert(plan.core_start(answers.len() - 1) < plan.core_end(answers.len() - 1));
        if answers.len() < plan.num_chunks {
            assert(plan.core_end(answers.len() - 1) == plan.core_start(answers.len() as int));
        }
    }
}

/// How the windows are split into chunks does not matter: if the device answers every core window
/// as `whole` has it, then `whole` is what is gathered from all chunks.
pub proof fn splitting_does_not_matter<C>(
    plan: ChunkPlan,
    answers: Seq<Seq<C>>,
    window_size: int,
    whole: Seq<Seq<C>>,
)
    requires
        plan.wf(),
        answers.len() == plan.num_chunks,
        whole.len() == plan.num_windows,
        forall|k: int, w: int|
            0 <= k < plan.num_chunks && plan.core_start(k) <= w < plan.core_end(k)
                ==> #[trigger] crate::window::block(
                answers[k],
                w - plan.proc_start(k),
                window_size,
            ) == whole[w],
    ensures
        gathered(plan, answers, window_size) == whole,
{
    crate::chunk::cores_follow_each_other(plan);
    lemma_gathered_prefix(plan, answers, window_size, whole);
    assert(plan.core_end(plan.num_chunks - 1) == plan.num_windows);
    assert(whole.take(plan.num_windows as int) == whole);
}

proof fn lemma_gathered_prefix<C>(
    plan: ChunkPlan,
    answers: Seq<Seq<C>>,
    window_size: int,
    whole: Seq<Seq<C>>,
)
    requires
        plan.wf(),
        0 < answers.len() <= plan.num_chunks,
        whole.len() == plan.num_windows,
        forall|k: int, w: int|
            0 <= k < answers.len() && plan.core_start(k) <= w < plan.core_end(k)
                ==> #[trigger] crate::window::block(
                answers[k],
                w - plan.proc_start(k),
                window_size,
            ) == whole[w],
    ensures
        gathered(plan, answers, window_size) == whole.take(plan.core_end(answers.len() - 1)),
    decreases answers.len(),
{
    crate::chunk::cores_follow_each_other(plan);
    let last = answers.len() - 1;
    let fewer = answers.drop_last();
    let start = plan.core_start(last);
    let end = plan.core_end(last);
    assert(start < end);
    lemma_gathered_len(plan, fewer, window_size);
    lemma_gathered_len(plan, answers, window_size);
    if last > 0 {
        assert forall|k: int, w: int|
            0 <= k < fewer.len() && plan.core_start(k) <= w < plan.core_end(k)
                implies #[trigger] crate::window::block(
            fewer[k],
            w - plan.proc_start(k),
            window_size,
        ) == whole[w] by {
            assert(fewer[k] == answers[k]);
        }
        lemma_gathered_prefix(plan, fewer, window_size, whole);
        assert(plan.core_end(last - 1) == plan.core_start(last - 1 + 1));
    }
    assert forall|w: int| 0 <= w < end implies gathered(plan, answers, window_size)[w]
        == #[trigger] whole[w] by {
        if w < start {
            assert(gathered(plan, fewer, window_size)[w] == whole[w]);
        } else {
            assert(crate::window::block(
                answers[last],
                w - plan.proc_start(last),
                window_size,
            ) == whole[w]);
            assert(kept(plan, last, answers[last], window_size)[w - start] == whole[w]);
        }
    }
    assert(gathered(plan, answers, window_size) =~= whole.take(end));
}

/// Every window has `window_size` entries.
pub open spec fn whole_windows<C>(windows: Seq<Seq<C>>, window_size: int) -> bool {
    forall|w: int| 0 <= w < windows.len() ==> (#[trigger] windows[w]).len() == window_size
}

/// The answers of the device for one channel.
pub open spec fn answers_for<C>(taken: Seq<Seq<Seq<C>>>, channel: int) -> Seq<Seq<C>> {
    Seq::new(taken.len(), |k: int| taken[k][channel])
}

/// The device's answer to one chunk, channel by channel.
pub open spec fn answer_view<C>(answer: [Vec<C>; 6]) -> Seq<Seq<C>> {
    Seq::new(6, |c: int| answer[c]@)
}

/// An upmix under way.
#[verifier::reject_recursive_types(F)]
#[verifier::reject_recursive_types(C)]
pub struct Upmixer<F, C, M: Fn(F, C) -> F, A: Fn(F, F) -> F> {
    recording: Recording<F, C>,
    plan: ChunkPlan,
    /// How many chunks are done.
    done: usize,
    /// Sums of what the device answered, for every channel.
    output: [Vec<F>; 6],
    /// Sums of the weights.
    norm: Vec<F>,
    zero: F,
    mix: M,
    accumulate: A,
    /// The answers of the device, chunk by chunk and channel by channel.
    taken: Ghost<Seq<Seq<Seq<C>>>>,
}

impl<F, C, M: Fn(F, C) -> F, A: Fn(F, F) -> F> Upmixer<F, C, M, A> {
    pub closed spec fn recording(&self) -> Recording<F, C> {
        self.recording
    }

    pub closed spec fn plan(&self) -> ChunkPlan {
        self.plan
    }

    pub closed spec fn zero(&self) -> F {
        self.zero
    }

    /// How an entry of the device's answer is added to a sum.
    pub closed spec fn mix(&self) -> M {
        self.mix
    }

    /// How a weight is added to a sum of weights.
    pub closed spec fn accumulate(&self) -> A {
        self.accumulate
    }

    /// The answers of the device so far, chunk by chunk and channel by channel.
    pub closed spec fn taken(&self) -> Seq<Seq<Seq<C>>> {
        self.taken@
    }

    /// The windows of a channel so far.
    pub open spec fn windows(&self, channel: int) -> Seq<Seq<C>> {
        gathered(
            self.plan(),
            answers_for(self.taken(), channel),
            self.recording().window_size(),
        )
    }

    /// Two upmixes differ in what they have taken and summed up, at most.
    pub open spec fn same_task(&self, other: &Self) -> bool {
        &&& self.recording() == other.recording()
        &&& self.plan() == other.plan()
        &&& self.zero() == other.zero()
        &&& self.mix() == other.mix()
        &&& self.accumulate() == other.accumulate()
    }

    /// The sums are those of the windows so far.
    pub closed spec fn wf(&self) -> bool {
        let hop = self.recording.hop_size();
        &&& self.recording.wf()
        &&& self.plan.wf()
        &&& self.plan.num_windows == self.recording.num_windows
        &&& self.done == self.taken@.len()
        &&& self.done <= self.plan.num_chunks
        &&& forall|k: int, c: int|
            0 <= k < self.taken@.len() && 0 <= c < 6 ==> (self.plan.core_end(k)
                - self.plan.proc_start(k)) * self.recording.window_size()
                <= #[trigger] self.taken@[k][c].len()
        &&& self.norm.len() == span(self.plan.num_windows as int, self.recording.window_size())
        &&& forall|x: F, c: C| call_requires(self.mix, (x, c))
        &&& forall|x: F, h: F| call_requires(self.accumulate, (x, h))
        &&& crate::overlap::summed(
            self.norm@,
            self.accumulate,
            self.zero,
            Seq::new(self.windows(0).len(), |w: int| self.recording.hann@),
            hop,
        )
        &&& forall|c: int|
            0 <= c < 6 ==> {
                &&& (#[trigger] self.output[c]).len() == self.norm.len()
                &&& crate::overlap::summed(
                    self.output[c]@,
                    self.mix,
                    self.zero,
                    self.windows(c),
                    hop,
                )
                &&& whole_windows(self.windows(c), self.recording.window_size())
            }
    }
}

impl<F, C, M: Fn(F, C) -> F, A: Fn(F, F) -> F> Upmixer<F, C, M, A> {
    /// An upmix under way has a recording with all its windows and a plan for them, no more chunks
    /// are done than are planned, and what was gathered from them are whole windows.
    pub proof fn task_is_valid(&self)
        requires
            self.wf(),
        ensures
            self.recording().wf(),
            self.plan().wf(),
            self.plan().num_windows == self.recording().num_windows,
            self.taken().len() <= self.plan().num_chunks,
            forall|c: int|
                0 <= c < 6 ==> whole_windows(
                    #[trigger] self.windows(c),
                    self.recording().window_size(),
                ),
            forall|k: int, c: int|
                0 <= k < self.taken().len() && 0 <= c < 6 ==> (self.plan().core_end(k)
                    - self.plan().proc_start(k)) * self.recording().window_size()
                    <= #[trigger] self.taken()[k][c].len(),
    {
        assert forall|c: int| 0 <= c < 6 implies whole_windows(
            #[trigger] self.windows(c),
            self.recording().window_size(),
        ) by {
            assert(self.output[c].len() == self.norm.len());
        }
    }
}

/// `n` times `value`.
fn filled<F: Copy>(n: usize, value: F) -> (v: Vec<F>)
    ensures
        v.len() == n,
        forall|i: int| 0 <= i < n ==> #[trigger] v[i] == value,
{
    let mut v: Vec<F> = Vec::with_capacity(n);
    for i in 0..n
        invariant
            v.len() == i,
            forall|j: int| 0 <= j < i ==> #[trigger] v[j] == value,
    {
        v.push(value);
    }
    v
}

impl<F: Copy, C: Copy, M: Fn(F, C) -> F, A: Fn(F, F) -> F> Upmixer<F, C, M, A> {
    /// Begins the upmix of a recording.
    ///
    /// `total_memory` is what the device tells of its memory, `context` the number of windows that
    /// the steering looks at on either side of a window.
    pub fn new(
        recording: Recording<F, C>,
        total_memory: Option<u64>,
        context: usize,
        zero: F,
        mix: M,
        accumulate: A,
    ) -> (upmixer: Self)
        requires
            recording.wf(),
            crate::chunk::bytes_per_window(recording.window_size() as nat) <= u64::MAX,
            recording.num_windows + context <= usize::MAX,
            forall|x: F, c: C| call_requires(mix, (x, c)),
            forall|x: F, h: F| call_requires(accumulate, (x, h)),
        ensures
            upmixer.wf(),
            upmixer.recording() == recording,
            crate::chunk::planned(
                upmixer.plan(),
                recording.num_windows as nat,
                recording.window_size() as nat,
                total_memory,
                context as nat,
            ),
            upmixer.zero() == zero,
            upmixer.mix() == mix,
            upmixer.accumulate() == accumulate,
            upmixer.taken().len() == 0,
            call_ensures(
                ChunkPlan::new,
                (recording.num_windows, recording.hann@.len() as usize, total_memory, context),
                upmixer.plan(),
            ),
            context <= upmixer.plan().guard,
    {
        let window_size: usize = recording.hann.len();
        let plan: ChunkPlan = ChunkPlan::new(
            recording.num_windows,
            window_size,
            total_memory,
            context,
        );
        let hop: usize = window_size / 2;
        proof {
            windows_span_the_recording(recording.len as nat, window_size as nat);
            let before = recording.num_windows - 1;
            assert(0 <= before * hop) by (nonlinear_arith)
                requires
                    before >= 0,
                    hop >= 0,
            ;
        }
        let samples: usize = (recording.num_windows - 1) * hop + window_size;
        let output: [Vec<F>; 6] = [
            filled(samples, zero),
            filled(samples, zero),
            filled(samples, zero),
            filled(samples, zero),
            filled(samples, zero),
            filled(samples, zero),
        ];
        let norm: Vec<F> = filled(samples, zero);
        let upmixer = Upmixer {
            recording,
            plan,
            done: 0,
            output,
            norm,
            zero,
            mix,
            accumulate,
            taken: Ghost(Seq::empty()),
        };
        proof {
            assert forall|c: int| 0 <= c < 6 implies {
                &&& (#[trigger] upmixer.output[c]).len() == samples
                &&& crate::overlap::summed(
                    upmixer.output[c]@,
                    mix,
                    zero,
                    upmixer.windows(c),
                    hop as int,
                )
            } by {
                assert(upmixer.windows(c).len() == 0);
            }
            assert(upmixer.windows(0).len() == 0);
        }
        upmixer
    }

    /// How the windows are split.
    pub fn chunk_plan(&self) -> (plan: ChunkPlan)
        ensures
            plan == self.plan(),
    {
        self.plan
    }

    /// The chunk that the device is to process next; none if all are done.
    pub fn next_chunk(&self) -> (r: Option<Chunk>)
        requires
            self.wf(),
        ensures
            r is Some <==> self.taken().len() < self.plan().num_chunks,
            r matches Some(chunk) ==> {
                &&& self.plan().is_chunk(self.taken().len() as int, chunk)
                &&& chunk.proc_start <= chunk.core_start < chunk.core_end <= chunk.proc_end
                    <= self.plan().num_windows
                &&& call_ensures(
                    ChunkPlan::chunk,
                    (&self.plan(), self.taken().len() as usize),
                    chunk,
                )
            },
    {
        if self.done < self.plan.num_chunks {
            Some(self.plan.chunk(self.done))
        } else {
            None
        }
    }

    /// The windows of the left and of the right channel that are processed with a chunk.
    pub fn chunk_windows(&self, chunk: &Chunk) -> (r: (&[C], &[C]))
        requires
            self.wf(),
            chunk.proc_start <= chunk.proc_end <= self.plan().num_windows,
        ensures
            ({
                let size = self.recording().window_size();
                let from = chunk.proc_start * size;
                let to = chunk.proc_end * size;
                &&& r.0@ == self.recording().left@.subrange(from, to)
                &&& r.1@ == self.recording().right@.subrange(from, to)
            }),
            r.0@ == self.recording().left@.subrange(
                chunk.proc_start * self.recording().hann@.len(),
                chunk.proc_end * self.recording().hann@.len(),
            ),
            r.1@ == self.recording().right@.subrange(
                chunk.proc_start * self.recording().hann@.len(),
                chunk.proc_end * self.recording().hann@.len(),
            ),
    {
        let size: usize = self.recording.hann.len();
        assert(0 <= chunk.proc_start * size <= chunk.proc_end * size <= self.plan.num_windows * size)
            by (nonlinear_arith)
            requires
                0 <= chunk.proc_start <= chunk.proc_end <= self.plan.num_windows,
                size >= 0,
        ;
        let from: usize = chunk.proc_start * size;
        let to: usize = chunk.proc_end * size;
        (
            slice_subrange(self.recording.left.as_slice(), from, to),
            slice_subrange(self.recording.right.as_slice(), from, to),
        )
    }

    /// Takes the device's answer to the next chunk: the time-domain windows of the six channels.
    ///
    /// The core windows are added to the sums; the guard windows are discarded.
    pub fn accept(&mut self, answer: &[Vec<C>; 6])
        requires
            old(self).wf(),
            old(self).taken().len() < old(self).plan().num_chunks,
            forall|c: int|
                0 <= c < 6 ==> ({
                    let k = old(self).taken().len() as int;
                    let read = old(self).plan().guard_before(k) + old(self).plan().core_len(k);
                    read * old(self).recording().window_size() <= #[trigger] answer[c].len()
                }),
        ensures
            final(self).wf(),
            final(self).same_task(old(self)),
            final(self).taken() == old(self).taken().push(answer_view(*answer)),
            final(self).recording() == old(self).recording(),
            final(self).plan() == old(self).plan(),
            final(self).zero() == old(self).zero(),
            final(self).mix() == old(self).mix(),
            final(self).accumulate() == old(self).accumulate(),
            final(self).taken().len() == old(self).taken().len() + 1,
            forall|k: int|
                0 <= k < old(self).taken().len() ==> #[trigger] final(self).taken()[k]
                    == old(self).taken()[k],
            forall|c: int|
                0 <= c < 6 ==> final(self).taken()[old(self).taken().len() as int][c]
                    == #[trigger] answer[c]@,
    {
        let chunk: Chunk = self.plan.chunk(self.done);
        let ghost k = self.done as int;
        let ghost plan = self.plan;
        let ghost size = self.recording.window_size();
        let ghost hop = self.recording.hop_size();
        let ghost before = *self;
        let window_size: usize = self.recording.hann.len();
        let hop_size: usize = window_size / 2;
        let guard_before: usize = chunk.core_start - chunk.proc_start;
        let core_n: usize = chunk.core_end - chunk.core_start;
        proof {
            assert forall|c: int| 0 <= c < 6 implies (#[trigger] self.windows(c)).len()
                == chunk.core_start by {
                lemma_gathered_len(plan, answers_for(self.taken@, c), size);
            }
        }
        for w in 0..core_n
            invariant
                chunk.proc_start <= chunk.core_start < chunk.core_end <= chunk.proc_end
                    <= plan.num_windows,
                plan.is_chunk(k, chunk),
                guard_before == chunk.core_start - chunk.proc_start,
                core_n == chunk.core_end - chunk.core_start,
                window_size == size,
                hop_size == hop,
                before.wf(),
                before.taken@.len() == k,
                k < plan.num_chunks,
                plan == before.plan,
                size == before.recording.window_size(),
                hop == before.recording.hop_size(),
                self.recording == before.recording,
                self.plan == before.plan,
                self.done == before.done,
                self.zero == before.zero,
                self.mix == before.mix,
                self.accumulate == before.accumulate,
                self.taken == before.taken,
                self.norm.len() == before.norm.len(),
                forall|c: int| 0 <= c < 6 ==> (#[trigger] before.windows(c)).len()
                    == chunk.core_start,
                forall|c: int|
                    0 <= c < 6 ==> (chunk.core_end - chunk.proc_start) * size
                        <= #[trigger] answer[c].len(),
                crate::overlap::summed(
                    self.norm@,
                    self.accumulate,
                    self.zero,
                    Seq::new((chunk.core_start + w) as nat, |i: int| self.recording.hann@),
                    hop,
                ),
                forall|c: int|
                    0 <= c < 6 ==> {
                        &&& (#[trigger] self.output[c]).len() == self.norm.len()
                        &&& crate::overlap::summed(
                            self.output[c]@,
                            self.mix,
                            self.zero,
                            before.windows(c) + kept(plan, k, answer[c]@, size).take(w as int),
                            hop,
                        )
                    },
        {
            let ghost place = chunk.core_start + w;
            proof {
                lemma_window_inside(place as int, plan.num_windows as int, size);
                assert((guard_before + w) * size + size <= (chunk.core_end - chunk.proc_start) * size)
                    by (nonlinear_arith)
                    requires
                        guard_before + w + 1 <= chunk.core_end - chunk.proc_start,
                        size >= 0,
                ;
                assert(0 <= (guard_before + w) * size) by (nonlinear_arith)
                    requires
                        guard_before + w >= 0,
                        size >= 0,
                ;
                assert(answer[0].len() >= (chunk.core_end - chunk.proc_start) * size);
            }
            let base: usize = (chunk.core_start + w) * hop_size;
            let from: usize = (guard_before + w) * window_size;
            for c in 0..6usize
                invariant
                    base == place * hop,
                    place == chunk.core_start + w,
                    from == (guard_before + w) * size,
                    base + window_size <= before.norm.len(),
                    w < core_n,
                    plan.is_chunk(k, chunk),
                    guard_before == chunk.core_start - chunk.proc_start,
                    core_n == chunk.core_end - chunk.core_start,
                    window_size == size,
                    window_size >= 0,
                    before.wf(),
                    plan == before.plan,
                    hop == before.recording.hop_size(),
                    self.recording == before.recording,
                    self.plan == before.plan,
                    self.done == before.done,
                    self.zero == before.zero,
                    self.mix == before.mix,
                    self.accumulate == before.accumulate,
                    self.taken == before.taken,
                    self.norm.len() == before.norm.len(),
                    forall|d: int| 0 <= d < 6 ==> (#[trigger] before.windows(d)).len()
                        == chunk.core_start,
                    forall|d: int| 0 <= d < 6 ==> from + size <= #[trigger] answer[d].len(),
                    crate::overlap::summed(
                        self.norm@,
                        self.accumulate,
                        self.zero,
                        Seq::new((chunk.core_start + w) as nat, |i: int| self.recording.hann@),
                        hop,
                    ),
                    forall|d: int|
                        0 <= d < 6 ==> {
                            &&& (#[trigger] self.output[d]).len() == self.norm.len()
                            &&& crate::overlap::summed(
                                self.output[d]@,
                                self.mix,
                                self.zero,
                                before.windows(d) + kept(plan, k, answer[d]@, size).take(
                                    if d < c { w + 1 } else { w as int },
                                ),
                                hop,
                            )
                        },
            {
                let ghost sums = self.output[c as int]@;
                assert(from + size <= answer[c as int].len());
                lay_down(
                    &mut self.output[c],
                    base,
                    answer[c].as_slice(),
                    from,
                    window_size,
                    &self.mix,
                );
                proof {
                    let core = kept(plan, k, answer[c as int]@, size);
                    let blocks = before.windows(c as int) + core.take(w as int);
                    let next = crate::window::block(
                        answer[c as int]@,
                        guard_before + w,
                        size,
                    );
                    assert(blocks.len() == place);
                    assert(next == core[w as int]);
                    assert(core.take(w + 1) == core.take(w as int).push(next));
                    assert(blocks.push(next) == before.windows(c as int) + core.take(w + 1));
                    assert forall|g: int| base <= g < base + size implies #[trigger] next[g - base]
                        == answer[c as int]@[from + (g - base)] by {}
                    assert forall|g: int| 0 <= g < sums.len() implies if place * hop <= g < place
                        * hop + next.len() {
                        call_ensures(
                            self.mix,
                            (sums[g], next[g - place * hop]),
                            #[trigger] self.output[c as int]@[g],
                        )
                    } else {
                        self.output[c as int]@[g] == sums[g]
                    } by {
                        assert(self.output[c as int][g] == self.output[c as int]@[g]);
                    }
                    crate::overlap::lemma_one_more_block(
                        sums,
                        self.output[c as int]@,
                        self.mix,
                        self.zero,
                        blocks,
                        next,
                        hop,
                    );
                }
            }
            let ghost sums = self.norm@;
            lay_down(
                &mut self.norm,
                base,
                self.recording.hann.as_slice(),
                0,
                window_size,
                &self.accumulate,
            );
            proof {
                let hann = self.recording.hann@;
                let blocks = Seq::new(place as nat, |i: int| hann);
                assert(blocks.push(hann) == Seq::new((place + 1) as nat, |i: int| hann));
                crate::overlap::lemma_one_more_block(
                    sums,
                    self.norm@,
                    self.accumulate,
                    self.zero,
                    blocks,
                    hann,
                    hop,
                );
            }
        }
        self.done = self.done + 1;
        self.taken = Ghost(self.taken@.push(answer_view(*answer)));
        proof {
            assert forall|j: int, c: int| 0 <= j < self.taken@.len() && 0 <= c < 6 implies (
            plan.core_end(j) - plan.proc_start(j)) * size <= #[trigger] self.taken@[j][c].len() by {
                if j < k {
                    assert(self.taken@[j][c] == before.taken@[j][c]);
                } else {
                    assert(self.taken@[j][c] == answer[c]@);
                    assert((chunk.core_end - chunk.proc_start) * size <= answer[c].len());
                }
            }
            assert forall|c: int| 0 <= c < 6 implies #[trigger] self.windows(c) == before.windows(c)
                + kept(plan, k, answer[c]@, size).take(core_n as int) by {
                let all = answers_for(self.taken@, c);
                assert(all.drop_last() == answers_for(before.taken@, c));
                assert(all.last() == answer[c]@);
                let core = kept(plan, k, answer[c]@, size);
                assert(core.take(core_n as int) == core);
            }
            assert forall|c: int| 0 <= c < 6 implies whole_windows(
                #[trigger] self.windows(c),
                size,
            ) by {
                before.task_is_valid();
                assert(whole_windows(before.windows(c), size));
                assert((chunk.core_end - chunk.proc_start) * size <= answer[c].len());
                assert forall|w: int| 0 <= w < self.windows(c).len() implies (
                #[trigger] self.windows(c)[w]).len() == size by {
                    let n = before.windows(c).len();
                    if w < n {
                        assert(self.windows(c)[w] == before.windows(c)[w]);
                    } else {
                        let local = guard_before + (w - n);
                        assert(0 <= local * size && local * size + size <= (chunk.core_end
                            - chunk.proc_start) * size) by (nonlinear_arith)
                            requires
                                0 <= local,
                                local + 1 <= chunk.core_end - chunk.proc_start,
                                size >= 0,
                        ;
                        assert(self.windows(c)[w] == crate::window::block(
                            answer[c]@,
                            local,
                            size,
                        ));
                    }
                }
            }
        }
    }

    /// Ends the upmix: settles every sum with its sum of weights, and cuts the silence off that was
    /// put before the recording, and whatever follows it.
    pub fn finish<S: Fn(F, F) -> F>(self, settle: &S) -> (channels: [Vec<F>; 6])
        requires
            self.wf(),
            self.taken().len() == self.plan().num_chunks,
            forall|x: F, h: F| call_requires(settle, (x, h)),
        ensures
            forall|c: int|
                0 <= c < 6 ==> settled(
                    (#[trigger] channels[c])@,
                    self.recording(),
                    self.windows(c),
                    self.zero(),
                    self.mix(),
                    self.accumulate(),
                    *settle,
                ),
            forall|c: int| 0 <= c < 6 ==> (#[trigger] channels[c])@.len() == self.recording().len,
    {
        let hop_size: usize = self.recording.hann.len() / 2;
        let len: usize = self.recording.len;
        proof {
            windows_span_the_recording(len as nat, self.recording.hann.len() as nat);
            crate::chunk::cores_follow_each_other(self.plan);
            assert forall|c: int| 0 <= c < 6 implies (#[trigger] self.windows(c)).len()
                == self.recording.num_windows by {
                lemma_gathered_len(
                    self.plan,
                    answers_for(self.taken@, c),
                    self.recording.window_size(),
                );
            }
        }
        let channels: [Vec<F>; 6] = [
            self.settle_channel(0, hop_size, len, settle),
            self.settle_channel(1, hop_size, len, settle),
            self.settle_channel(2, hop_size, len, settle),
            self.settle_channel(3, hop_size, len, settle),
            self.settle_channel(4, hop_size, len, settle),
            self.settle_channel(5, hop_size, len, settle),
        ];
        proof {
            assert forall|c: int| 0 <= c < 6 implies settled(
                (#[trigger] channels[c])@,
                self.recording(),
                self.windows(c),
                self.zero(),
                self.mix(),
                self.accumulate(),
                *settle,
            ) by {
                let out = channels[c]@;
                assert(self.windows(c).len() == self.windows(0).len());
                assert forall|i: int| 0 <= i < len implies settled_sample(
                    #[trigger] out[i],
                    i + hop_size,
                    self.recording(),
                    self.windows(c),
                    self.zero(),
                    self.mix(),
                    self.accumulate(),
                    *settle,
                ) by {
                    let g = i + hop_size;
                    assert(call_ensures(settle, (self.output[c][g], self.norm[g]), out[i]));
                }
            }
        }
        channels
    }

    fn settle_channel<S: Fn(F, F) -> F>(
        &self,
        channel: usize,
        from: usize,
        len: usize,
        settle: &S,
    ) -> (out: Vec<F>)
        requires
            channel < 6,
            self.output[channel as int].len() == self.norm.len(),
            from + len <= self.norm.len(),
            forall|x: F, h: F| call_requires(settle, (x, h)),
        ensures
            out.len() == len,
            forall|i: int|
                0 <= i < len ==> call_ensures(
                    settle,
                    (self.output[channel as int][from + i], self.norm[from + i]),
                    #[trigger] out[i],
                ),
    {
        let sums: &Vec<F> = &self.output[channel];
        let mut out: Vec<F> = Vec::with_capacity(len);
        for i in 0..len
            invariant
                sums == self.output[channel as int],
                sums.len() == self.norm.len(),
                from + len <= self.norm.len(),
                forall|x: F, h: F| call_requires(settle, (x, h)),
                out.len() == i,
                forall|j: int|
                    0 <= j < i ==> call_ensures(
                        settle,
                        (sums[from + j], self.norm[from + j]),
                        #[trigger] out[j],
                    ),
        {
            out.push(settle(sums[from + i], self.norm[from + i]));
        }
        out
    }
}

/// `sample` is what `settle` makes of the two sums in place `g`: that of the entries of the windows
/// that meet there, and that of their weights.
pub open spec fn settled_sample<
    F,
    C,
    M: Fn(F, C) -> F,
    A: Fn(F, F) -> F,
    S: Fn(F, F) -> F,
>(
    sample: F,
    g: int,
    recording: Recording<F, C>,
    windows: Seq<Seq<C>>,
    zero: F,
    mix: M,
    accumulate: A,
    settle: S,
) -> bool {
    let hop = recording.hop_size();
    let hann = Seq::new(windows.len(), |w: int| recording.hann@);
    exists|sum: F, weight: F|
        {
            &&& crate::overlap::folded(mix, zero, crate::overlap::layers(windows, hop, g), sum)
            &&& crate::overlap::folded(
                accumulate,
                zero,
                crate::overlap::layers(hann, hop, g),
                weight,
            )
            &&& #[trigger] call_ensures(settle, (sum, weight), sample)
        }
}

/// `channel` has as many samples as the recording, and sample `i` is settled from what meets in
/// place `i` behind the silence before the recording.
pub open spec fn settled<
    F,
    C,
    M: Fn(F, C) -> F,
    A: Fn(F, F) -> F,
    S: Fn(F, F) -> F,
>(
    channel: Seq<F>,
    recording: Recording<F, C>,
    windows: Seq<Seq<C>>,
    zero: F,
    mix: M,
    accumulate: A,
    settle: S,
) -> bool {
    &&& windows.len() == recording.num_windows
    &&& channel.len() == recording.len
    &&& forall|i: int|
        0 <= i < channel.len() ==> settled_sample(
            #[trigger] channel[i],
            i + recording.hop_size(),
            recording,
            windows,
            zero,
            mix,
            accumulate,
            settle,
        )
}

/// No sample is lost: in the place of every sample of the recording one or two windows meet, two
/// wherever a full hop of the recording lies, and one in what is left at its end.
pub proof fn every_sample_is_heard<F, C>(
    recording: Recording<F, C>,
    windows: Seq<Seq<C>>,
    sample: int,
)
    requires
        recording.wf(),
        windows.len() == recording.num_windows,
        forall|w: int|
            0 <= w < windows.len() ==> (#[trigger] windows[w]).len() == recording.window_size(),
        0 <= sample < recording.len,
    ensures
        ({
            let hop = recording.hop_size();
            crate::overlap::layers(windows, hop, sample + hop).len() == if sample < (recording.len
                as int / hop) * hop {
                2int
            } else {
                1int
            }
        }),
{
    let hop = recording.hop_size();
    let g = sample + hop;
    crate::overlap::two_blocks_meet(windows, hop, g);
    windows_of_a_recording(recording.len as nat, recording.window_size() as nat);
    let own = g / hop;
    let full = recording.len as int / hop;
    vstd::arithmetic::div_mod::lemma_fundamental_div_mod(g, hop);
    vstd::arithmetic::div_mod::lemma_fundamental_div_mod(recording.len as int, hop);
    assert(1 <= own <= full + 1 && (own <= full <==> sample < full * hop)) by (nonlinear_arith)
        requires
            g == hop * own + g % hop,
            0 <= g % hop < hop,
            g == sample + hop,
            recording.len == hop * full + recording.len as int % hop,
            0 <= (recording.len as int % hop) < hop,
            0 <= sample < recording.len,
            hop > 0,
    ;
}

/// Samples stay in their place: the entry that a window lays down in the place of sample `i` was
/// made of sample `i` of the recording.
pub proof fn samples_stay_in_place<F, C, W: Fn(F, F) -> C>(
    flat: Seq<C>,
    count: int,
    channel: Seq<F>,
    hann: Seq<F>,
    hop: int,
    silence: F,
    weigh: W,
    window: int,
    entry: int,
    sample: int,
)
    requires
        hop > 0,
        crate::window::weighted_windows(
            flat,
            count,
            crate::window::padded(channel, hop as nat, silence),
            hann,
            hop,
            weigh,
        ),
        0 <= window < count,
        0 <= entry < hann.len(),
        0 <= sample < channel.len(),
        window * hop + entry == sample + hop,
    ensures
        call_ensures(
            weigh,
            (channel[sample], hann[entry]),
            crate::window::block(flat, window, hann.len() as int)[entry],
        ),
{
    let source = crate::window::padded(channel, hop as nat, silence);
    assert(source[window * hop + entry] == channel[sample]);
    assert(call_ensures(
        weigh,
        (source[window * hop + entry], hann[entry]),
        crate::window::block(flat, window, hann.len() as int)[entry],
    ));
}

proof fn lemma_window_inside(window: int, num_windows: int, window_size: int)
    requires
        0 <= window < num_windows,
        window_size >= 2,
    ensures
        0 <= window * hop_of(window_size),
        window * hop_of(window_size) + window_size <= span(num_windows, window_size),
{
    let hop = hop_of(window_size);
    assert(0 <= window * hop <= (num_windows - 1) * hop) by (nonlinear_arith)
        requires
            0 <= window <= num_windows - 1,
            hop >= 0,
    ;
}

/// A gathered window comes from the chunk whose core it is in.
proof fn lemma_gathered_window<C>(
    plan: ChunkPlan,
    answers: Seq<Seq<C>>,
    window_size: int,
    window: int,
)
    requires
        plan.wf(),
        answers.len() == plan.num_chunks,
        0 <= window < plan.num_windows,
    ensures
        ({
            let k = window / plan.chunk_windows as int;
            &&& 0 <= k < plan.num_chunks
            &&& plan.core_start(k) <= window < plan.core_end(k)
            &&& gathered(plan, answers, window_size).len() == plan.num_windows
            &&& gathered(plan, answers, window_size)[window] == crate::window::block(
                answers[k],
                window - plan.proc_start(k),
                window_size,
            )
        }),
{
    let c = plan.chunk_windows as int;
    let whole = Seq::new(
        plan.num_windows as nat,
        |w: int|
            crate::window::block(answers[w / c], w - plan.proc_start(w / c), window_size),
    );
    assert forall|k: int, w: int|
        0 <= k < plan.num_chunks && plan.core_start(k) <= w < plan.core_end(k)
            implies #[trigger] crate::window::block(
        answers[k],
        w - plan.proc_start(k),
        window_size,
    ) == whole[w] by {
        vstd::arithmetic::div_mod::lemma_fundamental_div_mod_converse(w, c, k, w - k * c);
        assert(0 <= k * c) by (nonlinear_arith)
            requires
                k >= 0,
                c > 0,
        ;
    }
    splitting_does_not_matter(plan, answers, window_size, whole);
    let k = window / c;
    vstd::arithmetic::div_mod::lemma_fundamental_div_mod(window, c);
    assert(k * c <= window < k * c + c && 0 <= k < plan.num_chunks) by (nonlinear_arith)
        requires
            window == c * k + window % c,
            0 <= window % c < c,
            0 <= window < plan.num_windows,
            plan.num_windows <= plan.num_chunks * c,
            c > 0,
    ;
}

/// Entry `entry` of a gathered window, out of the device's answer to the chunk of that window.
proof fn lemma_gathered_entry<F, C, M: Fn(F, C) -> F, A: Fn(F, F) -> F>(
    upmixer: Upmixer<F, C, M, A>,
    c: int,
    window: int,
    entry: int,
)
    requires
        upmixer.wf(),
        upmixer.taken().len() == upmixer.plan().num_chunks,
        0 <= c < 6,
        0 <= window < upmixer.plan().num_windows,
        0 <= entry < upmixer.recording().window_size(),
    ensures
        ({
            let n = upmixer.recording().window_size();
            let k = window / upmixer.plan().chunk_windows as int;
            let place = (window - upmixer.plan().proc_start(k)) * n + entry;
            &&& 0 <= k < upmixer.plan().num_chunks
            &&& 0 <= place < (upmixer.plan().core_end(k) - upmixer.plan().proc_start(k)) * n
            &&& upmixer.windows(c).len() == upmixer.plan().num_windows
            &&& upmixer.windows(c)[window][entry] == upmixer.taken()[k][c][place]
        }),
{
    upmixer.task_is_valid();
    let n = upmixer.recording().window_size();
    let plan = upmixer.plan();
    let k = window / plan.chunk_windows as int;
    lemma_gathered_window(plan, answers_for(upmixer.taken(), c), n, window);
    let local = window - plan.proc_start(k);
    let past = plan.core_end(k) - plan.proc_start(k);
    assert(past * n <= upmixer.taken()[k][c].len());
    assert(0 <= local * n && local * n + n <= past * n) by (nonlinear_arith)
        requires
            0 <= local,
            local + 1 <= past,
            n >= 0,
    ;
}

/// What a fold makes of one item, and of two.
proof fn lemma_short_folds<X, Y, M: Fn(X, Y) -> X>(step: M, start: X, items: Seq<Y>, end: X)
    requires
        crate::overlap::folded(step, start, items, end),
    ensures
        items.len() == 1 ==> call_ensures(step, (start, items[0]), end),
        items.len() == 2 ==> exists|mid: X| #[trigger]
            call_ensures(step, (start, items[0]), mid) && call_ensures(step, (mid, items[1]), end),
{
    if items.len() == 1 {
        let mid = choose|mid: X|
            crate::overlap::folded(step, start, items.drop_last(), mid) && #[trigger] call_ensures(
                step,
                (mid, items.last()),
                end,
            );
        assert(mid == start);
    } else if items.len() == 2 {
        let mid = choose|mid: X|
            crate::overlap::folded(step, start, items.drop_last(), mid) && #[trigger] call_ensures(
                step,
                (mid, items.last()),
                end,
            );
        let one = items.drop_last();
        let first = choose|first: X|
            crate::overlap::folded(step, start, one.drop_last(), first) && #[trigger] call_ensures(
                step,
                (first, one.last()),
                mid,
            );
        assert(first == start);
        assert(call_ensures(step, (start, items[0]), mid));
    }
}

/// A sample is made of the two windows that overlap in its place, out of the answers for its own
/// channel: the later half of the window before and the earlier half of the window after are mixed in
/// this order, their weights are added up in the same way, and the two sums are settled.  Behind the
/// last full hop there is no window after.
pub proof fn two_windows_make_a_sample<
    F: Copy,
    C: Copy,
    M: Fn(F, C) -> F,
    A: Fn(F, F) -> F,
    S: Fn(F, F) -> F,
>(
    upmixer: Upmixer<F, C, M, A>,
    settle: &S,
    channels: [Vec<F>; 6],
    c: int,
    sample: int,
    hop: int,
    before: C,
    after: C,
    fading: F,
    rising: F,
)
    requires
        upmixer.wf(),
        upmixer.taken().len() == upmixer.plan().num_chunks,
        call_ensures(Upmixer::<F, C, M, A>::finish::<S>, (upmixer, settle), channels),
        0 <= c < 6,
        0 <= sample < upmixer.recording().len,
        2 * hop == upmixer.recording().hann@.len(),
        fading == upmixer.recording().hann@[hop + sample % hop],
        rising == upmixer.recording().hann@[sample % hop],
        ({
            let plan = upmixer.plan();
            let w = sample / hop;
            let k = w / plan.chunk_windows as int;
            let core = k * plan.chunk_windows;
            let first = if core > plan.guard {
                core - plan.guard
            } else {
                0
            };
            before == upmixer.taken()[k][c][(w - first) * (2 * hop) + hop + sample % hop]
        }),
        sample / hop + 1 < upmixer.recording().num_windows ==> ({
            let plan = upmixer.plan();
            let w = sample / hop + 1;
            let k = w / plan.chunk_windows as int;
            let core = k * plan.chunk_windows;
            let first = if core > plan.guard {
                core - plan.guard
            } else {
                0
            };
            after == upmixer.taken()[k][c][(w - first) * (2 * hop) + sample % hop]
        }),
    ensures
        channels[c]@.len() == upmixer.recording().len,
        exists|once: F, sum: F, weight_once: F, weight: F|
            {
                &&& #[trigger] call_ensures(upmixer.mix(), (upmixer.zero(), before), once)
                &&& #[trigger] call_ensures(
                    upmixer.accumulate(),
                    (upmixer.zero(), fading),
                    weight_once,
                )
                &&& if sample / hop + 1 < upmixer.recording().num_windows {
                    &&& call_ensures(upmixer.mix(), (once, after), sum)
                    &&& call_ensures(upmixer.accumulate(), (weight_once, rising), weight)
                } else {
                    sum == once && weight == weight_once
                }
                &&& #[trigger] call_ensures(settle, (sum, weight), channels[c]@[sample])
            },
{
    upmixer.task_is_valid();
    let recording = upmixer.recording();
    let hann = recording.hann@;
    let windows = upmixer.windows(c);
    let w = sample / hop;
    let s = sample % hop;
    let g = sample + hop;
    assert(recording.hop_size() == hop);
    vstd::arithmetic::div_mod::lemma_fundamental_div_mod(sample, hop);
    assert(g == (w + 1) * hop + s && 0 <= s < hop && 0 <= w) by (nonlinear_arith)
        requires
            g == sample + hop,
            sample == hop * w + s,
            s == sample % hop,
            0 <= sample,
            hop > 0,
    ;
    vstd::arithmetic::div_mod::lemma_fundamental_div_mod_converse(g, hop, w + 1, s);
    windows_of_a_recording(recording.len as nat, recording.window_size() as nat);
    vstd::arithmetic::div_mod::lemma_fundamental_div_mod(recording.len as int, hop);
    let full = recording.len as int / hop;
    assert(w <= full) by (nonlinear_arith)
        requires
            sample == hop * w + s,
            0 <= s,
            sample < recording.len,
            recording.len == hop * full + recording.len as int % hop,
            (recording.len as int % hop) < hop,
            hop > 0,
    ;
    lemma_gathered_entry(upmixer, c, w, hop + s);
    if w + 1 < recording.num_windows {
        lemma_gathered_entry(upmixer, c, w + 1, s);
    }
    assert(windows[w][hop + s] == before);
    let weights = Seq::new(windows.len(), |v: int| hann);
    crate::overlap::two_blocks_meet(windows, hop, g);
    crate::overlap::two_blocks_meet(weights, hop, g);
    let out = channels[c]@;
    assert(settled_sample(
        out[sample],
        g,
        recording,
        windows,
        upmixer.zero(),
        upmixer.mix(),
        upmixer.accumulate(),
        *settle,
    ));
    let (sum, weight) = choose|sum: F, weight: F|
        {
            &&& crate::overlap::folded(
                upmixer.mix(),
                upmixer.zero(),
                crate::overlap::layers(windows, hop, g),
                sum,
            )
            &&& crate::overlap::folded(
                upmixer.accumulate(),
                upmixer.zero(),
                crate::overlap::layers(weights, hop, g),
                weight,
            )
            &&& #[trigger] call_ensures(settle, (sum, weight), out[sample])
        };
    let entries = crate::overlap::layers(windows, hop, g);
    let gains = crate::overlap::layers(weights, hop, g);
    lemma_short_folds(upmixer.mix(), upmixer.zero(), entries, sum);
    lemma_short_folds(upmixer.accumulate(), upmixer.zero(), gains, weight);
    if w + 1 < recording.num_windows {
        assert(entries.len() == 2 && entries[0] == before && entries[1] == after);
        assert(gains.len() == 2 && gains[0] == hann[hop + s] && gains[1] == hann[s]);
    } else {
        assert(entries.len() == 1 && entries[0] == before);
        assert(gains.len() == 1 && gains[0] == hann[hop + s]);
    }
}

/// What goes in comes out in its place: if the device answers with the windows of one side of the
/// recording as they are, then every sample of the output is made of the sample of that side in the
/// same place, weighed twice, and of nothing else.
pub proof fn an_echo_is_in_place<
    F: Copy,
    C: Copy,
    W: Fn(F, F) -> C,
    M: Fn(F, C) -> F,
    A: Fn(F, F) -> F,
    S: Fn(F, F) -> F,
>(
    left: &[F],
    right: &[F],
    hann: Vec<F>,
    silence: F,
    weigh: &W,
    recording: Recording<F, C>,
    side: Seq<F>,
    windows: Seq<C>,
    upmixer: Upmixer<F, C, M, A>,
    settle: &S,
    channels: [Vec<F>; 6],
    c: int,
    sample: int,
    hop: int,
    fading: F,
    rising: F,
)
    requires
        call_ensures(
            Recording::<F, C>::new::<W>,
            (left, right, hann, silence, weigh),
            Ok::<Recording<F, C>, UpmixError>(recording),
        ),
        (side == left@ && windows == recording.left@) || (side == right@ && windows
            == recording.right@),
        upmixer.wf(),
        upmixer.recording() == recording,
        upmixer.taken().len() == upmixer.plan().num_chunks,
        call_ensures(Upmixer::<F, C, M, A>::finish::<S>, (upmixer, settle), channels),
        0 <= c < 6,
        2 * hop == hann@.len(),
        fading == hann@[hop + sample % hop],
        rising == hann@[sample % hop],
        forall|k: int, p: int|
            0 <= k < upmixer.taken().len() && 0 <= p < upmixer.taken()[k][c].len()
                ==> #[trigger] upmixer.taken()[k][c][p] == windows[p + (2 * hop) * if k
                * upmixer.plan().chunk_windows > upmixer.plan().guard {
                k * upmixer.plan().chunk_windows - upmixer.plan().guard
            } else {
                0
            }],
        0 <= sample < left@.len(),
        sample < side.len(),
    ensures
        channels[c]@.len() == left@.len(),
        exists|before: C, after: C, once: F, sum: F, weight_once: F, weight: F|
            {
                &&& #[trigger] call_ensures(weigh, (side[sample], fading), before)
                &&& #[trigger] call_ensures(upmixer.mix(), (upmixer.zero(), before), once)
                &&& #[trigger] call_ensures(
                    upmixer.accumulate(),
                    (upmixer.zero(), fading),
                    weight_once,
                )
                &&& if sample / hop < left@.len() as int / hop {
                    &&& #[trigger] call_ensures(weigh, (side[sample], rising), after)
                    &&& call_ensures(upmixer.mix(), (once, after), sum)
                    &&& call_ensures(upmixer.accumulate(), (weight_once, rising), weight)
                } else {
                    sum == once && weight == weight_once
                }
                &&& #[trigger] call_ensures(settle, (sum, weight), channels[c]@[sample])
            },
{
    upmixer.task_is_valid();
    let plan = upmixer.plan();
    let n = 2 * hop;
    let w = sample / hop;
    let s = sample % hop;
    let full = left@.len() as int / hop;
    vstd::arithmetic::div_mod::lemma_fundamental_div_mod(sample, hop);
    vstd::arithmetic::div_mod::lemma_fundamental_div_mod(left@.len() as int, hop);
    assert(0 <= w <= full) by (nonlinear_arith)
        requires
            sample == hop * w + s,
            0 <= s < hop,
            0 <= sample < left@.len(),
            left@.len() == hop * full + left@.len() as int % hop,
            (left@.len() as int % hop) < hop,
            hop > 0,
    ;
    assert(w * hop == hop * w && (w + 1) * hop == hop * w + hop) by (nonlinear_arith);
    let before = lemma_echoed_entry(
        left,
        right,
        hann,
        silence,
        weigh,
        recording,
        side,
        windows,
        upmixer,
        c,
        sample,
        hop,
        w,
        hop + s,
    );
    let after = if w < full {
        lemma_echoed_entry(
            left,
            right,
            hann,
            silence,
            weigh,
            recording,
            side,
            windows,
            upmixer,
            c,
            sample,
            hop,
            w + 1,
            s,
        )
    } else {
        before
    };
    two_windows_make_a_sample(
        upmixer,
        settle,
        channels,
        c,
        sample,
        hop,
        before,
        after,
        fading,
        rising,
    );
    let (once, sum, weight_once, weight) = choose|once: F, sum: F, weight_once: F, weight: F|
        {
            &&& #[trigger] call_ensures(upmixer.mix(), (upmixer.zero(), before), once)
            &&& #[trigger] call_ensures(
                upmixer.accumulate(),
                (upmixer.zero(), fading),
                weight_once,
            )
            &&& if sample / hop + 1 < upmixer.recording().num_windows {
                &&& call_ensures(upmixer.mix(), (once, after), sum)
                &&& call_ensures(upmixer.accumulate(), (weight_once, rising), weight)
            } else {
                sum == once && weight == weight_once
            }
            &&& #[trigger] call_ensures(settle, (sum, weight), channels[c]@[sample])
        };
    let again = call_ensures(weigh, (side[sample], rising), after);
    assert(call_ensures(weigh, (side[sample], fading), before));
    assert(call_ensures(upmixer.mix(), (upmixer.zero(), before), once));
}

/// Where the device answers with the windows of one side as they are, the entry in the place of a
/// sample is made of that sample.
proof fn lemma_echoed_entry<
    F: Copy,
    C: Copy,
    W: Fn(F, F) -> C,
    M: Fn(F, C) -> F,
    A: Fn(F, F) -> F,
>(
    left: &[F],
    right: &[F],
    hann: Vec<F>,
    silence: F,
    weigh: &W,
    recording: Recording<F, C>,
    side: Seq<F>,
    windows: Seq<C>,
    upmixer: Upmixer<F, C, M, A>,
    c: int,
    sample: int,
    hop: int,
    window: int,
    entry: int,
) -> (echoed: C)
    requires
        call_ensures(
            Recording::<F, C>::new::<W>,
            (left, right, hann, silence, weigh),
            Ok::<Recording<F, C>, UpmixError>(recording),
        ),
        (side == left@ && windows == recording.left@) || (side == right@ && windows
            == recording.right@),
        upmixer.wf(),
        upmixer.recording() == recording,
        upmixer.taken().len() == upmixer.plan().num_chunks,
        0 <= c < 6,
        2 * hop == hann@.len(),
        forall|k: int, p: int|
            0 <= k < upmixer.taken().len() && 0 <= p < upmixer.taken()[k][c].len()
                ==> #[trigger] upmixer.taken()[k][c][p] == windows[p + (2 * hop) * if k
                * upmixer.plan().chunk_windows > upmixer.plan().guard {
                k * upmixer.plan().chunk_windows - upmixer.plan().guard
            } else {
                0
            }],
        0 <= window < recording.num_windows,
        0 <= entry < 2 * hop,
        0 <= sample < side.len(),
        window * hop + entry == sample + hop,
    ensures
        call_ensures(weigh, (side[sample], hann@[entry]), echoed),
        ({
            let plan = upmixer.plan();
            let k = window / plan.chunk_windows as int;
            let core = k * plan.chunk_windows;
            let first = if core > plan.guard {
                core - plan.guard
            } else {
                0
            };
            echoed == upmixer.taken()[k][c][(window - first) * (2 * hop) + entry]
        }),
{
    upmixer.task_is_valid();
    let plan = upmixer.plan();
    let n = 2 * hop;
    let k = window / plan.chunk_windows as int;
    let first = plan.proc_start(k);
    lemma_gathered_entry(upmixer, c, window, entry);
    let place = (window - first) * n + entry;
    assert((plan.core_end(k) - first) * n <= upmixer.taken()[k][c].len());
    let echoed = upmixer.taken()[k][c][place];
    let p = window * n + entry;
    assert(place + n * first == p) by (nonlinear_arith)
        requires
            place == (window - first) * n + entry,
            p == window * n + entry,
    ;
    assert(echoed == windows[p]);
    vstd::arithmetic::div_mod::lemma_fundamental_div_mod_converse(p, n, window, entry);
    assert(0 <= p < recording.num_windows * n) by (nonlinear_arith)
        requires
            p == window * n + entry,
            0 <= window < recording.num_windows,
            0 <= entry < n,
    ;
    if side == left@ && windows == recording.left@ {
        assert(recording.left@[p] == echoed);
    } else {
        assert(recording.right@[p] == echoed);
    }
    echoed
}

/// Both channels are cut into windows, each from its own samples: entry `entry` of window `window` of
/// a side is what `weigh` makes of sample `window * hop + entry - hop` of that side, or of silence
/// where that side has no such sample, and of weight `entry`.
pub proof fn each_side_is_cut_from_its_channel<F: Copy, C, W: Fn(F, F) -> C>(
    left: &[F],
    right: &[F],
    hann: Vec<F>,
    silence: F,
    weigh: &W,
    recording: Recording<F, C>,
    window: int,
    entry: int,
)
    requires
        call_ensures(
            Recording::<F, C>::new::<W>,
            (left, right, hann, silence, weigh),
            Ok::<Recording<F, C>, UpmixError>(recording),
        ),
        0 <= window < recording.num_windows,
        0 <= entry < hann@.len(),
    ensures
        ({
            let n = hann@.len() as int;
            let sample = window * (n / 2) + entry - n / 2;
            &&& recording.len == left@.len()
            &&& recording.hann@ == hann@
            &&& recording.num_windows == left@.len() as int / (n / 2) + 1
            &&& recording.num_windows * n == recording.left@.len()
            &&& recording.num_windows * n <= recording.right@.len()
            &&& call_ensures(
                weigh,
                (
                    if 0 <= sample < left@.len() {
                        left@[sample]
                    } else {
                        silence
                    },
                    hann@[entry],
                ),
                recording.left@[window * n + entry],
            )
            &&& call_ensures(
                weigh,
                (
                    if 0 <= sample < right@.len() {
                        right@[sample]
                    } else {
                        silence
                    },
                    hann@[entry],
                ),
                recording.right@[window * n + entry],
            )
        }),
{
    let n = hann@.len() as int;
    let p = window * n + entry;
    vstd::arithmetic::div_mod::lemma_fundamental_div_mod_converse(p, n, window, entry);
    assert(0 <= p < recording.num_windows * n) by (nonlinear_arith)
        requires
            p == window * n + entry,
            0 <= window < recording.num_windows,
            0 <= entry < n,
    ;
    assert(recording.left@[p] == recording.left@[window * n + entry]);
    assert(recording.right@[p] == recording.right@[window * n + entry]);
}

/// Swapping the channels swaps the windows, and nothing else, if they are of the same length and
/// weighing is determined.
pub proof fn swapped_channels_give_swapped_windows<F: Copy, C, W: Fn(F, F) -> C>(
    left: &[F],
    right: &[F],
    hann: Vec<F>,
    silence: F,
    weigh: &W,
    one: Recording<F, C>,
    other: Recording<F, C>,
)
    requires
        left@.len() == right@.len(),
        forall|x: F, h: F, a: C, b: C| #[trigger]
            call_ensures(weigh, (x, h), a) && #[trigger] call_ensures(weigh, (x, h), b) ==> a == b,
        call_ensures(
            Recording::<F, C>::new::<W>,
            (left, right, hann, silence, weigh),
            Ok::<Recording<F, C>, UpmixError>(one),
        ),
        call_ensures(
            Recording::<F, C>::new::<W>,
            (right, left, hann, silence, weigh),
            Ok::<Recording<F, C>, UpmixError>(other),
        ),
    ensures
        one.left@ == other.right@.take(one.left@.len() as int),
        other.left@ == one.right@.take(other.left@.len() as int),
        one.num_windows == other.num_windows,
{
    let past = one.left@.len() as int;
    assert(past == other.left@.len());
    assert forall|p: int| 0 <= p < past implies one.left@[p] == #[trigger] other.right@[p] by {}
    assert forall|p: int| 0 <= p < past implies other.left@[p] == #[trigger] one.right@[p] by {}
    assert(one.left@ =~= other.right@.take(past));
    assert(other.left@ =~= one.right@.take(past));
}

/// A recording is refused only where its windows have no hop.
pub proof fn only_windows_without_a_hop_are_refused<F: Copy, C, W: Fn(F, F) -> C>(
    left: &[F],
    right: &[F],
    hann: Vec<F>,
    silence: F,
    weigh: &W,
    r: Result<Recording<F, C>, UpmixError>,
    message: &'static str,
)
    requires
        call_ensures(
            Recording::<F, C>::new::<W>,
            (left, right, hann, silence, weigh),
            r,
        ),
        r matches Err(error) ==> call_ensures(UpmixError::message, (&error,), message),
    ensures
        r is Err <==> hann@.len() == 1,
        r is Err ==> message@ == "Input is too short to process"@,
{
}

/// An upmix begins with the recording and the arithmetic that it is given, with no answer taken, and
/// with a plan for all windows whose guards are as wide as the context.
pub proof fn an_upmix_begins_as_asked<
    F: Copy,
    C: Copy,
    M: Fn(F, C) -> F,
    A: Fn(F, F) -> F,
>(
    recording: Recording<F, C>,
    total_memory: Option<u64>,
    context: usize,
    zero: F,
    mix: M,
    accumulate: A,
    upmixer: Upmixer<F, C, M, A>,
    plan: ChunkPlan,
)
    requires
        call_ensures(
            Upmixer::<F, C, M, A>::new,
            (recording, total_memory, context, zero, mix, accumulate),
            upmixer,
        ),
        call_ensures(Upmixer::<F, C, M, A>::chunk_plan, (&upmixer,), plan),
    ensures
        upmixer.wf(),
        upmixer.recording() == recording,
        upmixer.zero() == zero,
        upmixer.mix() == mix,
        upmixer.accumulate() == accumulate,
        upmixer.taken().len() == 0,
        plan == upmixer.plan(),
        call_ensures(
            ChunkPlan::new,
            (recording.num_windows, recording.hann@.len() as usize, total_memory, context),
            plan,
        ),
        plan.num_windows == recording.num_windows,
        context <= plan.guard,
{
}

/// The device gets the chunks of the plan one after the other, each with the windows of both channels
/// that are processed with it, in their order; when all are done, it gets none.
pub proof fn the_device_gets_its_windows<
    F: Copy,
    C: Copy,
    M: Fn(F, C) -> F,
    A: Fn(F, F) -> F,
>(
    upmixer: Upmixer<F, C, M, A>,
    next: Option<Chunk>,
    handed: (&[C], &[C]),
    p: int,
)
    requires
        upmixer.wf(),
        call_ensures(Upmixer::<F, C, M, A>::next_chunk, (&upmixer,), next),
        next matches Some(chunk) ==> call_ensures(
            Upmixer::<F, C, M, A>::chunk_windows,
            (&upmixer, &chunk),
            handed,
        ),
    ensures
        next is None <==> upmixer.taken().len() == upmixer.plan().num_chunks,
        next matches Some(chunk) ==> {
            let n = upmixer.recording().hann@.len() as int;
            &&& call_ensures(
                ChunkPlan::chunk,
                (&upmixer.plan(), upmixer.taken().len() as usize),
                chunk,
            )
            &&& handed.0@.len() == (chunk.proc_end - chunk.proc_start) * n
            &&& handed.1@.len() == handed.0@.len()
            &&& 0 <= p < handed.0@.len() ==> {
                &&& handed.0@[p] == upmixer.recording().left@[chunk.proc_start * n + p]
                &&& handed.1@[p] == upmixer.recording().right@[chunk.proc_start * n + p]
            }
        },
{
    upmixer.task_is_valid();
    if let Some(chunk) = next {
        let n = upmixer.recording().hann@.len() as int;
        let (a, b) = (chunk.proc_start as int, chunk.proc_end as int);
        let count = upmixer.recording().num_windows as int;
        assert((b - a) * n == b * n - a * n) by (nonlinear_arith);
        assert(0 <= a * n <= b * n <= count * n) by (nonlinear_arith)
            requires
                0 <= a <= b <= count,
                n >= 0,
        ;
    }
}

/// An answer is taken as it is, channel by channel, behind those taken before; the recording, the plan
/// and the arithmetic stay as they are.
pub proof fn an_answer_is_taken_as_it_is<
    F: Copy,
    C: Copy,
    M: Fn(F, C) -> F,
    A: Fn(F, F) -> F,
>(
    upmixer: &mut Upmixer<F, C, M, A>,
    answer: &[Vec<C>; 6],
    c: int,
    k: int,
)
    requires
        call_ensures(Upmixer::<F, C, M, A>::accept, (upmixer, answer), ()),
        0 <= c < 6,
    ensures
        final(upmixer).wf(),
        final(upmixer).taken().len() == old(upmixer).taken().len() + 1,
        0 <= k < old(upmixer).taken().len() ==> final(upmixer).taken()[k]
            == old(upmixer).taken()[k],
        final(upmixer).taken().last()[c] == answer[c]@,
        final(upmixer).recording() == old(upmixer).recording(),
        final(upmixer).plan() == old(upmixer).plan(),
        final(upmixer).zero() == old(upmixer).zero(),
        final(upmixer).mix() == old(upmixer).mix(),
        final(upmixer).accumulate() == old(upmixer).accumulate(),
{
    assert(answer[c]@ == answer[c]@);
}

} // verus!
