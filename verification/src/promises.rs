//! From the request to the kernel: what the user asks for is what the kernel is run with.
use vstd::prelude::*;

use crate::config::{configure, Config, ConfigError, Matrix, Numbers, Options};
use crate::device::{kernel_args, KernelArg};
use crate::matrix::{
    AmbisonicMatrix, BaseParams, CoherenceMatrix, DefaultMatrix, MvdrMatrix, StereoMatrix,
};

verus! {

/// With the default matrix, the kernel is run with the amplitude threshold of the request, with the
/// widening and the rear gain of its preset, and with the amplitudes divided as it asks; no window but
/// the steered one is looked at.
pub proof fn default_requests_reach_the_kernel<F: Copy + Send + Sync>(
    options: &Options<F>,
    numbers: &Numbers<F>,
    config: Config<F>,
    matrix: DefaultMatrix<F>,
    base: BaseParams<F>,
    ints: Vec<i32>,
    floats: Vec<F>,
    context: usize,
    window_size: usize,
    num_windows: usize,
    sample_rate: F,
    args: Vec<KernelArg<F>>,
)
    requires
        options.matrix@ == "default"@,
        call_ensures(configure::<F>, (options, numbers), Ok::<Config<F>, ConfigError>(config)),
        config.matrix == Matrix::Default(matrix),
        call_ensures(<DefaultMatrix<F> as StereoMatrix<F>>::base_params, (&matrix,), base),
        call_ensures(<DefaultMatrix<F> as StereoMatrix<F>>::extra_int_params, (&matrix,), ints),
        call_ensures(<DefaultMatrix<F> as StereoMatrix<F>>::extra_float_params, (&matrix,), floats),
        call_ensures(<DefaultMatrix<F> as StereoMatrix<F>>::context_windows, (&matrix,), context),
        call_ensures(
            kernel_args::<F>,
            (window_size, num_windows, &base, sample_rate, &ints, &floats),
            args,
        ),
    ensures
        args@[10] matches KernelArg::Float(value) && value == options.min_amplitude,
        args@[11] matches KernelArg::Float(value) && value == if options.preset@ == "qs"@
            || options.preset@ == "rm"@ {
            numbers.quadrophonic
        } else if options.preset@ == "horseshoe"@ {
            numbers.two
        } else {
            options.widen_factor
        },
        args@[12] matches KernelArg::Float(value) && value == if options.preset@ == "dolby"@ {
            numbers.root_two
        } else {
            numbers.one
        },
        args@[13] matches KernelArg::Float(value) && value == if options.quiet {
            numbers.one
        } else {
            numbers.half_root_two
        },
        args@[14] matches KernelArg::Float(value) && value == sample_rate,
        args@.len() == 15,
        context == 0,
{
    crate::config::the_matrix_is_as_requested(
        "",
        options,
        numbers,
        Ok::<Config<F>, ConfigError>(config),
    );
}

/// With the coherence matrix, the kernel is run with the amplitude threshold of the request, with the
/// widening and the rear gain of its preset, with the amplitudes divided as it asks, and with its
/// neighbourhood; and the guards are to cover that neighbourhood.
pub proof fn coherence_requests_reach_the_kernel<F: Copy + Send + Sync>(
    options: &Options<F>,
    numbers: &Numbers<F>,
    config: Config<F>,
    matrix: CoherenceMatrix<F>,
    base: BaseParams<F>,
    ints: Vec<i32>,
    floats: Vec<F>,
    context: usize,
    window_size: usize,
    num_windows: usize,
    sample_rate: F,
    args: Vec<KernelArg<F>>,
)
    requires
        options.matrix@ == "coherence"@,
        call_ensures(configure::<F>, (options, numbers), Ok::<Config<F>, ConfigError>(config)),
        config.matrix == Matrix::Coherence(matrix),
        call_ensures(<CoherenceMatrix<F> as StereoMatrix<F>>::base_params, (&matrix,), base),
        call_ensures(<CoherenceMatrix<F> as StereoMatrix<F>>::extra_int_params, (&matrix,), ints),
        call_ensures(<CoherenceMatrix<F> as StereoMatrix<F>>::extra_float_params, (&matrix,), floats),
        call_ensures(<CoherenceMatrix<F> as StereoMatrix<F>>::context_windows, (&matrix,), context),
        call_ensures(
            kernel_args::<F>,
            (window_size, num_windows, &base, sample_rate, &ints, &floats),
            args,
        ),
    ensures
        args@[10] matches KernelArg::Float(value) && value == options.min_amplitude,
        args@[11] matches KernelArg::Float(value) && value == if options.preset@ == "qs"@
            || options.preset@ == "rm"@ {
            numbers.quadrophonic
        } else if options.preset@ == "horseshoe"@ {
            numbers.two
        } else {
            options.widen_factor
        },
        args@[12] matches KernelArg::Float(value) && value == if options.preset@ == "dolby"@ {
            numbers.root_two
        } else {
            numbers.one
        },
        args@[13] matches KernelArg::Float(value) && value == if options.quiet {
            numbers.one
        } else {
            numbers.half_root_two
        },
        args@[14] matches KernelArg::Float(value) && value == sample_rate,
        args@.len() == 19,
        args@[15] matches KernelArg::Int(value) && value == options.coherence_radius,
        args@[16] matches KernelArg::Int(value) && (value == 1 <==> options.gaussian) && (value == 0
            <==> !options.gaussian),
        args@[17] matches KernelArg::Int(value) && (value == 1 <==> options.wiener) && (value == 0
            <==> !options.wiener),
        args@[18] matches KernelArg::Float(value) && value == options.gaussian_sigma,
        options.coherence_radius >= 0 ==> context == options.coherence_radius,
{
    crate::config::the_matrix_is_as_requested(
        "",
        options,
        numbers,
        Ok::<Config<F>, ConfigError>(config),
    );
}

/// With the mvdr matrix, the kernel is run with the amplitude threshold of the request, with the
/// widening and the rear gain of its preset, with the amplitudes divided as it asks, and with its
/// neighbourhood; and the guards are to cover that neighbourhood.
pub proof fn mvdr_requests_reach_the_kernel<F: Copy + Send + Sync>(
    options: &Options<F>,
    numbers: &Numbers<F>,
    config: Config<F>,
    matrix: MvdrMatrix<F>,
    base: BaseParams<F>,
    ints: Vec<i32>,
    floats: Vec<F>,
    context: usize,
    window_size: usize,
    num_windows: usize,
    sample_rate: F,
    args: Vec<KernelArg<F>>,
)
    requires
        options.matrix@ == "mvdr"@,
        call_ensures(configure::<F>, (options, numbers), Ok::<Config<F>, ConfigError>(config)),
        config.matrix == Matrix::Mvdr(matrix),
        call_ensures(<MvdrMatrix<F> as StereoMatrix<F>>::base_params, (&matrix,), base),
        call_ensures(<MvdrMatrix<F> as StereoMatrix<F>>::extra_int_params, (&matrix,), ints),
        call_ensures(<MvdrMatrix<F> as StereoMatrix<F>>::extra_float_params, (&matrix,), floats),
        call_ensures(<MvdrMatrix<F> as StereoMatrix<F>>::context_windows, (&matrix,), context),
        call_ensures(
            kernel_args::<F>,
            (window_size, num_windows, &base, sample_rate, &ints, &floats),
            args,
        ),
    ensures
        args@[10] matches KernelArg::Float(value) && value == options.min_amplitude,
        args@[11] matches KernelArg::Float(value) && value == if options.preset@ == "qs"@
            || options.preset@ == "rm"@ {
            numbers.quadrophonic
        } else if options.preset@ == "horseshoe"@ {
            numbers.two
        } else {
            options.widen_factor
        },
        args@[12] matches KernelArg::Float(value) && value == if options.preset@ == "dolby"@ {
            numbers.root_two
        } else {
            numbers.one
        },
        args@[13] matches KernelArg::Float(value) && value == if options.quiet {
            numbers.one
        } else {
            numbers.half_root_two
        },
        args@[14] matches KernelArg::Float(value) && value == sample_rate,
        args@.len() == 18,
        args@[15] matches KernelArg::Int(value) && value == options.coherence_radius,
        args@[16] matches KernelArg::Int(value) && (value == 1 <==> options.gaussian) && (value == 0
            <==> !options.gaussian),
        args@[17] matches KernelArg::Float(value) && value == options.gaussian_sigma,
        options.coherence_radius >= 0 ==> context == options.coherence_radius,
{
    crate::config::the_matrix_is_as_requested(
        "",
        options,
        numbers,
        Ok::<Config<F>, ConfigError>(config),
    );
}

/// With the ambisonic matrix, the kernel is run with the amplitude threshold of the request, with the
/// widening and the rear gain of its preset, with the amplitudes divided as it asks, and with its
/// neighbourhood; and the guards are to cover that neighbourhood.
pub proof fn ambisonic_requests_reach_the_kernel<F: Copy + Send + Sync>(
    options: &Options<F>,
    numbers: &Numbers<F>,
    config: Config<F>,
    matrix: AmbisonicMatrix<F>,
    base: BaseParams<F>,
    ints: Vec<i32>,
    floats: Vec<F>,
    context: usize,
    window_size: usize,
    num_windows: usize,
    sample_rate: F,
    args: Vec<KernelArg<F>>,
)
    requires
        options.matrix@ == "ambisonic"@,
        call_ensures(configure::<F>, (options, numbers), Ok::<Config<F>, ConfigError>(config)),
        config.matrix == Matrix::Ambisonic(matrix),
        call_ensures(<AmbisonicMatrix<F> as StereoMatrix<F>>::base_params, (&matrix,), base),
        call_ensures(<AmbisonicMatrix<F> as StereoMatrix<F>>::extra_int_params, (&matrix,), ints),
        call_ensures(<AmbisonicMatrix<F> as StereoMatrix<F>>::extra_float_params, (&matrix,), floats),
        call_ensures(<AmbisonicMatrix<F> as StereoMatrix<F>>::context_windows, (&matrix,), context),
        call_ensures(
            kernel_args::<F>,
            (window_size, num_windows, &base, sample_rate, &ints, &floats),
            args,
        ),
    ensures
        args@[10] matches KernelArg::Float(value) && value == options.min_amplitude,
        args@[11] matches KernelArg::Float(value) && value == if options.preset@ == "qs"@
            || options.preset@ == "rm"@ {
            numbers.quadrophonic
        } else if options.preset@ == "horseshoe"@ {
            numbers.two
        } else {
            options.widen_factor
        },
        args@[12] matches KernelArg::Float(value) && value == if options.preset@ == "dolby"@ {
            numbers.root_two
        } else {
            numbers.one
        },
        args@[13] matches KernelArg::Float(value) && value == if options.quiet {
            numbers.one
        } else {
            numbers.half_root_two
        },
        args@[14] matches KernelArg::Float(value) && value == sample_rate,
        args@.len() == 18,
        args@[15] matches KernelArg::Int(value) && value == options.coherence_radius,
        args@[16] matches KernelArg::Int(value) && (value == 1 <==> options.gaussian) && (value == 0
            <==> !options.gaussian),
        args@[17] matches KernelArg::Float(value) && value == options.gaussian_sigma,
        options.coherence_radius >= 0 ==> context == options.coherence_radius,
{
    crate::config::the_matrix_is_as_requested(
        "",
        options,
        numbers,
        Ok::<Config<F>, ConfigError>(config),
    );
}

} // verus!
