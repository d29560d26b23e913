//! Stereo to 5.1 upmixing: everything but the device that steers the sound, the files that it
//! comes from and goes to, and the arithmetic on single samples.
//!
//! A recording is read frame by frame ([`input`]), cut into overlapping windows ([`window`]), which
//! are split into chunks that fit the memory of the device ([`chunk`]).  The device steers every
//! chunk with the kernel of a matrix ([`matrix`], [`device`]), and its answers are added up to six
//! channels ([`upmix`], [`overlap`]), which go to a file ([`output`]).  What the user may ask for
//! is told in [`config`], what becomes of it in [`promises`], and what a channel depends on in
//! [`seams`].
//!
//! Samples are of a type `F`, entries of windows of a type `C`; what is done with single values is
//! handed in as functions, and the contracts say which values meet, and in which order.
pub mod chunk;
pub mod config;
pub mod device;
pub mod input;
pub mod matrix;
pub mod output;
pub mod overlap;
pub mod promises;
pub mod rounding;
pub mod seams;
pub mod text;
pub mod upmix;
pub mod window;
