//! How the kernel of a matrix is launched.
use vstd::arithmetic::div_mod::{lemma_fundamental_div_mod, lemma_fundamental_div_mod_converse};
use vstd::prelude::*;

use crate::matrix::BaseParams;

verus! {

/// A buffer of complex entries on the device.
#[derive(Clone, Copy, Debug, PartialEq, Eq, Structural)]
pub enum Buffer {
    LeftFreq,
    RightFreq,
    FrontLeft,
    FrontRight,
    FrontCentre,
    LowFrequency,
    BackLeft,
    BackRight,
}

/// An argument of a kernel.
#[derive(Debug)]
pub enum KernelArg<F> {
    Buffer(Buffer),
    Int(i32),
    Float(F),
}

/// The buffers that a kernel reads and fills, in the order of its signature.
pub open spec fn buffers() -> Seq<Buffer> {
    seq![
        Buffer::LeftFreq,
        Buffer::RightFreq,
        Buffer::FrontLeft,
        Buffer::FrontRight,
        Buffer::FrontCentre,
        Buffer::LowFrequency,
        Buffer::BackLeft,
        Buffer::BackRight,
    ]
}

/// The scalar arguments of a kernel, in the order of its signature.
pub open spec fn scalars<F>(
    window_size: i32,
    num_windows: i32,
    base: BaseParams<F>,
    sample_rate: F,
    ints: Seq<i32>,
    floats: Seq<F>,
) -> Seq<KernelArg<F>> {
    seq![
        KernelArg::Int(window_size),
        KernelArg::Int(num_windows),
        KernelArg::Float(base.min_amplitude),
        KernelArg::Float(base.widen_factor),
        KernelArg::Float(base.rear_adjustment),
        KernelArg::Float(base.amplitude_adjustment),
        KernelArg::Float(sample_rate),
    ] + ints.map_values(|i: i32| KernelArg::<F>::Int(i)) + floats.map_values(
        |x: F| KernelArg::Float(x),
    )
}

/// The arguments of a kernel, in the order of its signature: the buffers, the fixed scalars, then
/// the extra integers of the matrix, then its extra fractions.
///
/// The two sizes are narrowed to what the kernel takes.
pub fn kernel_args<F: Copy>(
    window_size: usize,
    num_windows: usize,
    base: &BaseParams<F>,
    sample_rate: F,
    ints: &Vec<i32>,
    floats: &Vec<F>,
) -> (args: Vec<KernelArg<F>>)
    ensures
        args@ == buffers().map_values(|b: Buffer| KernelArg::<F>::Buffer(b)) + scalars(
            window_size as i32,
            num_windows as i32,
            *base,
            sample_rate,
            ints@,
            floats@,
        ),
        args@.len() == 15 + ints@.len() + floats@.len(),
        args@[0] == KernelArg::<F>::Buffer(Buffer::LeftFreq),
        args@[1] == KernelArg::<F>::Buffer(Buffer::RightFreq),
        args@[2] == KernelArg::<F>::Buffer(Buffer::FrontLeft),
        args@[3] == KernelArg::<F>::Buffer(Buffer::FrontRight),
        args@[4] == KernelArg::<F>::Buffer(Buffer::FrontCentre),
        args@[5] == KernelArg::<F>::Buffer(Buffer::LowFrequency),
        args@[6] == KernelArg::<F>::Buffer(Buffer::BackLeft),
        args@[7] == KernelArg::<F>::Buffer(Buffer::BackRight),
        args@[8] == KernelArg::<F>::Int(window_size as i32),
        args@[9] == KernelArg::<F>::Int(num_windows as i32),
        args@[10] == KernelArg::Float(base.min_amplitude),
        args@[11] == KernelArg::Float(base.widen_factor),
        args@[12] == KernelArg::Float(base.rear_adjustment),
        args@[13] == KernelArg::Float(base.amplitude_adjustment),
        args@[14] == KernelArg::Float(sample_rate),
        forall|i: int|
            15 <= i < 15 + ints@.len() ==> #[trigger] args@[i] == KernelArg::<F>::Int(ints@[i - 15]),
        forall|i: int|
            15 + ints@.len() <= i < args@.len() ==> #[trigger] args@[i] == KernelArg::Float(
                floats@[i - 15 - ints@.len()],
            ),
{
    let mut args: Vec<KernelArg<F>> = Vec::new();
    args.push(KernelArg::Buffer(Buffer::LeftFreq));
    args.push(KernelArg::Buffer(Buffer::RightFreq));
    args.push(KernelArg::Buffer(Buffer::FrontLeft));
    args.push(KernelArg::Buffer(Buffer::FrontRight));
    args.push(KernelArg::Buffer(Buffer::FrontCentre));
    args.push(KernelArg::Buffer(Buffer::LowFrequency));
    args.push(KernelArg::Buffer(Buffer::BackLeft));
    args.push(KernelArg::Buffer(Buffer::BackRight));
    args.push(KernelArg::Int(#[verifier::truncate] (window_size as i32)));
    args.push(KernelArg::Int(#[verifier::truncate] (num_windows as i32)));
    args.push(KernelArg::Float(base.min_amplitude));
    args.push(KernelArg::Float(base.widen_factor));
    args.push(KernelArg::Float(base.rear_adjustment));
    args.push(KernelArg::Float(base.amplitude_adjustment));
    args.push(KernelArg::Float(sample_rate));
    let ghost fixed = args@;
    for i in 0..ints.len()
        invariant
            args@ == fixed + ints@.take(i as int).map_values(|i: i32| KernelArg::<F>::Int(i)),
    {
        args.push(KernelArg::Int(ints[i]));
        assert(args@ == fixed + ints@.take(i + 1).map_values(|i: i32| KernelArg::<F>::Int(i)));
    }
    assert(ints@.take(ints.len() as int) == ints@);
    let ghost before = args@;
    for i in 0..floats.len()
        invariant
            args@ == before + floats@.take(i as int).map_values(|x: F| KernelArg::Float(x)),
    {
        args.push(KernelArg::Float(floats[i]));
        assert(args@ == before + floats@.take(i + 1).map_values(|x: F| KernelArg::Float(x)));
    }
    assert(floats@.take(floats.len() as int) == floats@);
    args
}

/// Threads and shared memory of a launch.
#[derive(Clone, Copy, Debug, PartialEq, Eq)]
pub struct LaunchShape {
    /// Blocks of the grid, by dimension.
    pub grid: (u32, u32, u32),
    /// Threads of a block, by dimension.
    pub block: (u32, u32, u32),
    /// Bytes of shared memory.
    pub shared_bytes: u32,
}

/// Calls `cudarc::driver::LaunchConfig::for_num_elems`.
///
/// Claimed of it: the launch has one row of blocks of 1024 threads each, as few as hold `n` threads,
/// and no shared memory.
#[verifier::external_body]
fn launch_for(n: u32) -> (shape: LaunchShape)
    ensures
        shape.grid == (crate::rounding::ceil_div(n as nat, 1024) as u32, 1u32, 1u32),
        shape.block == (1024u32, 1u32, 1u32),
        shape.shared_bytes == 0,
{
    let config = cudarc::driver::LaunchConfig::for_num_elems(n);
    LaunchShape {
        grid: config.grid_dim,
        block: config.block_dim,
        shared_bytes: config.shared_mem_bytes,
    }
}

/// Bins that are steered: one for every frequency up to half the sample rate, in every window.
pub open spec fn steered_bins(num_windows: int, window_size: int) -> int {
    num_windows * (window_size / 2)
}

/// The launch that steers `num_windows` windows: one thread for every bin, their number narrowed to
/// what a launch takes.
pub fn launch_shape(num_windows: usize, window_size: usize) -> (shape: LaunchShape)
    requires
        steered_bins(num_windows as int, window_size as int) <= usize::MAX,
    ensures
        ({
            let bins = steered_bins(num_windows as int, window_size as int) as usize;
            &&& shape.grid == (crate::rounding::ceil_div(bins as u32 as nat, 1024) as u32, 1u32, 1u32)
            &&& shape.block == (1024u32, 1u32, 1u32)
            &&& shape.shared_bytes == 0
        }),
        num_windows * (window_size as int / 2) <= u32::MAX ==> {
            &&& num_windows * (window_size as int / 2) <= shape.grid.0 * shape.block.0
            &&& shape.grid.0 * shape.block.0 < num_windows * (window_size as int / 2) + 1024
        },
        shape.grid.1 == 1 && shape.grid.2 == 1,
        shape.block.0 == 1024 && shape.block.1 == 1 && shape.block.2 == 1,
        shape.shared_bytes == 0,
{
    let half_window: usize = window_size / 2;
    let bins: usize = num_windows * half_window;
    proof {
        launch_reaches_every_bin(#[verifier::truncate] (bins as u32));
    }
    launch_for(#[verifier::truncate] (bins as u32))
}

/// A launch has a thread for every bin, and less than one block of threads in excess.
pub proof fn launch_reaches_every_bin(bins: u32)
    ensures
        ({
            let blocks = crate::rounding::ceil_div(bins as nat, 1024);
            &&& blocks <= u32::MAX
            &&& bins <= blocks * 1024 < bins + 1024
        }),
{
}

/// The window that thread `thread` steers.
pub open spec fn thread_window(thread: int, window_size: int) -> int {
    thread / (window_size / 2)
}

/// The bin that thread `thread` steers; bin zero is left out.
pub open spec fn thread_bin(thread: int, window_size: int) -> int {
    thread % (window_size / 2) + 1
}

/// Every bin of every window has exactly one thread.
pub proof fn every_bin_has_one_thread(
    num_windows: int,
    window_size: int,
    window: int,
    bin: int,
)
    requires
        window_size >= 2,
        0 <= window < num_windows,
        1 <= bin <= window_size / 2,
    ensures
        exists|thread: int|
            0 <= thread < steered_bins(num_windows, window_size) && #[trigger] thread_window(
                thread,
                window_size,
            ) == window && thread_bin(thread, window_size) == bin,
        forall|one: int, other: int|
            #[trigger] thread_window(one, window_size) == window && thread_bin(one, window_size)
                == bin && #[trigger] thread_window(other, window_size) == window && thread_bin(
                other,
                window_size,
            ) == bin ==> one == other,
{
    let half = window_size / 2;
    let thread = window * half + (bin - 1);
    lemma_fundamental_div_mod_converse(thread, half, window, bin - 1);
    assert(0 <= thread < num_windows * half) by (nonlinear_arith)
        requires
            thread == window * half + (bin - 1),
            0 <= window < num_windows,
            1 <= bin <= half,
    ;
    assert(thread_window(thread, window_size) == window);
    assert forall|one: int, other: int|
        #[trigger] thread_window(one, window_size) == window && thread_bin(one, window_size) == bin
            && #[trigger] thread_window(other, window_size) == window && thread_bin(
            other,
            window_size,
        ) == bin implies one == other by {
        lemma_fundamental_div_mod(one, half);
        lemma_fundamental_div_mod(other, half);
    }
}

/// The arguments of a kernel stand in the order of its signature, however many extra ones its matrix
/// has: the buffers, the sizes, the parameters that every matrix takes, the sample rate, the extra
/// integers, the extra fractions.
pub proof fn arguments_stand_in_order<F: Copy>(
    window_size: usize,
    num_windows: usize,
    base: &BaseParams<F>,
    sample_rate: F,
    ints: &Vec<i32>,
    floats: &Vec<F>,
    args: Vec<KernelArg<F>>,
    i: int,
    j: int,
)
    requires
        call_ensures(
            kernel_args::<F>,
            (window_size, num_windows, base, sample_rate, ints, floats),
            args,
        ),
        window_size <= i32::MAX,
        num_windows <= i32::MAX,
    ensures
        args@.len() == 15 + ints@.len() + floats@.len(),
        args@[0] == KernelArg::<F>::Buffer(Buffer::LeftFreq),
        args@[1] == KernelArg::<F>::Buffer(Buffer::RightFreq),
        args@[2] == KernelArg::<F>::Buffer(Buffer::FrontLeft),
        args@[3] == KernelArg::<F>::Buffer(Buffer::FrontRight),
        args@[4] == KernelArg::<F>::Buffer(Buffer::FrontCentre),
        args@[5] == KernelArg::<F>::Buffer(Buffer::LowFrequency),
        args@[6] == KernelArg::<F>::Buffer(Buffer::BackLeft),
        args@[7] == KernelArg::<F>::Buffer(Buffer::BackRight),
        args@[8] matches KernelArg::Int(value) && value == window_size,
        args@[9] matches KernelArg::Int(value) && value == num_windows,
        args@[10] matches KernelArg::Float(value) && value == base.min_amplitude,
        args@[11] matches KernelArg::Float(value) && value == base.widen_factor,
        args@[12] matches KernelArg::Float(value) && value == base.rear_adjustment,
        args@[13] matches KernelArg::Float(value) && value == base.amplitude_adjustment,
        args@[14] matches KernelArg::Float(value) && value == sample_rate,
        0 <= i < ints@.len() ==> (args@[15 + i] matches KernelArg::Int(value) && value == ints@[i]),
        0 <= j < floats@.len() ==> (args@[15 + ints@.len() + j] matches KernelArg::Float(value)
            && value == floats@[j]),
{
}

/// Exactly the bins of the windows are reached: every bin of every window has a thread in the launch,
/// and less than one block of threads has none.
pub proof fn a_launch_reaches_all_bins(
    num_windows: usize,
    window_size: usize,
    shape: LaunchShape,
    window: int,
    bin: int,
)
    requires
        call_ensures(launch_shape, (num_windows, window_size), shape),
        num_windows * (window_size as int / 2) <= u32::MAX,
        0 <= window < num_windows,
        1 <= bin <= window_size as int / 2,
    ensures
        0 <= window * (window_size as int / 2) + (bin - 1) < shape.grid.0 * shape.block.0,
        shape.grid.0 * shape.block.0 < num_windows * (window_size as int / 2) + 1024,
        shape.grid.1 == 1 && shape.grid.2 == 1 && shape.block.1 == 1 && shape.block.2 == 1,
        shape.block.0 == 1024 && shape.shared_bytes == 0,
{
    let half = window_size as int / 2;
    assert(0 <= window * half + (bin - 1) < num_windows * half) by (nonlinear_arith)
        requires
            0 <= window < num_windows,
            1 <= bin <= half,
    ;
}

} // verus!
