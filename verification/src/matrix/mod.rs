//! Stereo-to-surround matrix algorithms.
//!
//! A matrix is a program for the device, which steers every frequency bin, and the parameters it
//! is run with.
use vstd::prelude::*;

pub mod ambisonic;
pub mod coherence;
pub mod default;
pub mod mvdr;

pub use ambisonic::AmbisonicMatrix;
pub use coherence::CoherenceMatrix;
pub use default::DefaultMatrix;
pub use mvdr::MvdrMatrix;

verus! {

/// The parameters that every matrix takes.
#[derive(Debug)]
pub struct BaseParams<F> {
    pub min_amplitude: F,
    pub widen_factor: F,
    pub rear_adjustment: F,
    pub amplitude_adjustment: F,
}

/// A stereo-to-surround matrix algorithm over numbers of type `F`.
///
/// ## Required kernel signature
///
/// ```c
/// __global__ void steer_and_assign(
///     const float2* left_freq,  const float2* right_freq,
///     float2* out_fl, float2* out_fr, float2* out_fc,
///     float2* out_lfe, float2* out_bl, float2* out_br,
///     int window_size, int num_windows,
///     float min_amplitude, float widen_factor,
///     float rear_adjustment, float amplitude_adjustment,
///     float sample_rate
///     /*, extra ints from extra_int_params() */
///     /*, extra floats from extra_float_params() */
/// )
/// ```
pub trait StereoMatrix<F>: Send + Sync {
    /// What the matrix is called in messages.
    fn name(&self) -> (name: &str);

    /// The program for the device.
    fn kernel_src(&self) -> (source: &'static str);

    /// The parameters that every matrix takes.
    fn base_params(&self) -> (params: BaseParams<F>);

    /// The matrix's own integer parameters, in order; none by default.
    fn extra_int_params(&self) -> (params: Vec<i32>)
        default_ensures
            params@ == Seq::<i32>::empty(),
    {
        Vec::new()
    }

    /// The matrix's own fractional parameters, in order; none by default.
    fn extra_float_params(&self) -> (params: Vec<F>)
        default_ensures
            params@ == Seq::<F>::empty(),
    {
        Vec::new()
    }

    /// How many windows the steering looks at on either side of a window; none by default.
    fn context_windows(&self) -> (windows: usize)
        default_ensures
            windows == 0,
    {
        0
    }
}

/// The number that stands for a switch among the parameters of a kernel.
pub open spec fn switch(on: bool) -> i32 {
    if on { 1 } else { 0 }
}

} // verus!
