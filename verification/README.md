# soft_matrix_gpu

A GPU-accelerated stereo to 5.1 surround upmixer, with a verified core.

- `src/` is the library, verified with Verus: window sizes and windows, the chunks that fit the
  memory of the device, overlap-add, the matrices and their kernel arguments, what the user may
  ask for, and the layout of input and output.
- `app/` is the program around it: the command line, audio files, the CUDA device, and the
  floating-point arithmetic on single samples.
- `tests/` runs the library on concrete values.

The output has six channels in standard 5.1 order: front left, front right, front centre, LFE, back
left, back right.
