use soft_matrix_gpu::config::{
    configure, configure_as, format_named, ConfigError, Matrix, Numbers, Options, OutputFormat,
    Preset,
};
use soft_matrix_gpu::device::{kernel_args, launch_shape, Buffer, KernelArg};
use soft_matrix_gpu::matrix::{
    AmbisonicMatrix, CoherenceMatrix, DefaultMatrix, MvdrMatrix, StereoMatrix,
};
use soft_matrix_gpu::text::same_text;

fn numbers() -> Numbers<f32> {
    Numbers { one: 1.0, two: 2.0, root_two: 1.5, half_root_two: 0.75, quadrophonic: 2.5 }
}

fn options() -> Options<f32> {
    Options {
        output_format: None,
        extension: None,
        matrix: "coherence".to_string(),
        preset: "default".to_string(),
        wiener: false,
        gaussian: false,
        gaussian_sigma: 1.5,
        coherence_radius: 4,
        widen_factor: 1.25,
        min_amplitude: 0.5,
        quiet: true,
    }
}

#[test]
fn formats_by_name_extension_or_default() {
    let format = |options: &Options<f32>| configure(options, &numbers()).map(|c| c.format);
    let mut request = options();
    assert!(matches!(format(&request), Ok(OutputFormat::Wav)));
    request.extension = Some("FLAC".to_string());
    assert!(matches!(format(&request), Ok(OutputFormat::Flac)));
    request.output_format = Some("Wav".to_string());
    assert!(matches!(format(&request), Ok(OutputFormat::Wav)));
    request.output_format = Some("MP3".to_string());
    match format(&request) {
        Err(error) => {
            assert_eq!(error.message(), "Output format must be wav or flac (got 'mp3')");
        }
        Ok(_) => panic!("mp3 is not written"),
    }
    assert_eq!(format_named("flac"), Some(OutputFormat::Flac));
    assert_eq!(format_named("FLAC"), None);
}

#[test]
fn unknown_words_are_refused_in_order() {
    let mut request = options();
    request.preset = "loud".to_string();
    request.matrix = "magic".to_string();
    match configure_as("ogg", &request, &numbers()) {
        Err(ConfigError::OutputFormat(word)) => assert_eq!(word, "ogg"),
        _ => panic!("the format comes first"),
    }
    match configure_as("wav", &request, &numbers()) {
        Err(error) => assert_eq!(
            error.message(),
            "Unknown preset 'loud'. Options: default | qs | dolby | horseshoe"
        ),
        Ok(_) => panic!("the preset is unknown"),
    }
    request.preset = "qs".to_string();
    match configure_as("wav", &request, &numbers()) {
        Err(error) => assert_eq!(
            error.message(),
            "Unknown matrix 'magic'. Options: default | coherence | mvdr | ambisonic"
        ),
        Ok(_) => panic!("the matrix is unknown"),
    }
}

#[test]
fn presets_set_their_factors() {
    let of = |word: &str| match Preset::named(word) {
        Some(preset) => preset.factors(1.25f32, &numbers()),
        None => panic!("unknown"),
    };
    assert_eq!(of("default"), (1.25, 1.0));
    assert_eq!(of("qs"), (2.5, 1.0));
    assert_eq!(of("rm"), (2.5, 1.0));
    assert_eq!(of("dolby"), (1.25, 1.5));
    assert_eq!(of("horseshoe"), (2.0, 1.0));
    assert!(Preset::named("Dolby").is_none());
}

#[test]
fn requests_are_made_out() {
    let mut request = options();
    request.wiener = true;
    match configure(&request, &numbers()).map(|c| c.matrix) {
        Ok(Matrix::Coherence(matrix)) => {
            assert_eq!(matrix.name(), "coherence+wiener");
            assert_eq!(matrix.extra_int_params(), vec![4, 0, 1]);
            assert_eq!(matrix.base_params().amplitude_adjustment, 1.0);
            assert_eq!(matrix.base_params().widen_factor, 1.25);
        }
        _ => panic!("not the coherence matrix"),
    }
    request.matrix = "mvdr".to_string();
    request.quiet = false;
    request.gaussian = true;
    request.preset = "dolby".to_string();
    match configure(&request, &numbers()).map(|c| c.matrix) {
        Ok(Matrix::Mvdr(matrix)) => {
            assert_eq!(matrix.name(), "mvdr+gaussian");
            assert_eq!(matrix.base_params().amplitude_adjustment, 0.75);
            assert_eq!(matrix.base_params().rear_adjustment, 1.5);
        }
        _ => panic!("not the MVDR matrix"),
    }
    request.matrix = "ambisonic".to_string();
    assert!(matches!(
        configure(&request, &numbers()).map(|c| c.matrix),
        Ok(Matrix::Ambisonic(_))
    ));
    request.matrix = "default".to_string();
    assert!(matches!(configure(&request, &numbers()).map(|c| c.matrix), Ok(Matrix::Default(_))));
}

#[test]
fn the_default_matrix_has_no_extras() {
    let matrix = DefaultMatrix::new(0.01f32, 1.5, 2.5, 3.5);
    assert_eq!(matrix.name(), "default");
    assert!(matrix.extra_int_params().is_empty());
    assert!(matrix.extra_float_params().is_empty());
    assert_eq!(matrix.context_windows(), 0);
    let base = matrix.base_params();
    assert_eq!(base.min_amplitude, 0.01);
    assert_eq!(base.widen_factor, 1.5);
    assert_eq!(base.rear_adjustment, 2.5);
    assert_eq!(base.amplitude_adjustment, 3.5);
}

#[test]
fn names_tell_the_options() {
    let coherence = |gaussian: bool, wiener: bool| {
        CoherenceMatrix::new(0.0f32, 1.0, 1.0, 1.0, 4, gaussian, 1.5, wiener).name().to_string()
    };
    assert_eq!(coherence(false, false), "coherence");
    assert_eq!(coherence(true, false), "coherence+gaussian");
    assert_eq!(coherence(false, true), "coherence+wiener");
    assert_eq!(coherence(true, true), "coherence+gaussian+wiener");
    assert_eq!(MvdrMatrix::new(0.0f32, 1.0, 1.0, 1.0, 4, false, 1.5).name(), "mvdr");
    assert_eq!(AmbisonicMatrix::new(0.0f32, 1.0, 1.0, 1.0, 4, false, 1.5).name(), "ambisonic");
    assert_eq!(
        AmbisonicMatrix::new(0.0f32, 1.0, 1.0, 1.0, 4, true, 1.5).name(),
        "ambisonic+gaussian"
    );
}

#[test]
fn matrices_pass_their_extras() {
    let coherence = CoherenceMatrix::new(0.0f32, 1.0, 1.0, 1.0, 6, true, 1.5, false);
    assert_eq!(coherence.extra_int_params(), vec![6, 1, 0]);
    assert_eq!(coherence.extra_float_params(), vec![1.5]);
    assert_eq!(coherence.context_windows(), 6);
    let mvdr = MvdrMatrix::new(0.0f32, 1.0, 1.0, 1.0, 0, true, 2.0);
    assert_eq!(mvdr.extra_int_params(), vec![0, 1]);
    assert_eq!(mvdr.extra_float_params(), vec![2.0]);
    assert_eq!(mvdr.context_windows(), 0);
    let ambisonic = AmbisonicMatrix::new(0.0f32, 1.0, 1.0, 1.0, -1, false, 2.0);
    assert_eq!(ambisonic.extra_int_params(), vec![-1, 0]);
    assert_eq!(ambisonic.context_windows(), usize::MAX);
}

#[test]
fn kernels_have_the_required_signature() {
    let matrices: [Box<dyn StereoMatrix<f32>>; 4] = [
        Box::new(DefaultMatrix::new(0.0, 1.0, 1.0, 1.0)),
        Box::new(CoherenceMatrix::new(0.0, 1.0, 1.0, 1.0, 4, true, 1.5, true)),
        Box::new(MvdrMatrix::new(0.0, 1.0, 1.0, 1.0, 4, true, 1.5)),
        Box::new(AmbisonicMatrix::new(0.0, 1.0, 1.0, 1.0, 4, true, 1.5)),
    ];
    for matrix in &matrices {
        let source = matrix.kernel_src();
        let from = match source.find("void steer_and_assign(") {
            Some(from) => from,
            None => panic!("no kernel"),
        };
        let to = from + source[from..].find(") {").unwrap_or(0);
        let params: Vec<&str> = source[from + 22..to].split(',').map(|p| p.trim()).collect();
        let ints = params.iter().filter(|p| p.starts_with("int ")).count();
        let floats = params.iter().filter(|p| p.starts_with("float ")).count();
        assert_eq!(ints, 2 + matrix.extra_int_params().len());
        assert_eq!(floats, 5 + matrix.extra_float_params().len());
    }
}

#[test]
fn arguments_follow_the_signature() {
    let matrix = CoherenceMatrix::new(0.25f32, 0.5, 0.75, 1.25, 6, true, 1.5, false);
    let args = kernel_args(
        4096,
        17,
        &matrix.base_params(),
        44100.0,
        &matrix.extra_int_params(),
        &matrix.extra_float_params(),
    );
    let parameter = |buffer: &Buffer| match buffer {
        Buffer::LeftFreq => "left_freq",
        Buffer::RightFreq => "right_freq",
        Buffer::FrontLeft => "out_fl",
        Buffer::FrontRight => "out_fr",
        Buffer::FrontCentre => "out_fc",
        Buffer::LowFrequency => "out_lfe",
        Buffer::BackLeft => "out_bl",
        Buffer::BackRight => "out_br",
    };
    let shown: Vec<String> = args
        .iter()
        .map(|arg| match arg {
            KernelArg::Buffer(buffer) => parameter(buffer).to_string(),
            KernelArg::Int(value) => format!("{}", value),
            KernelArg::Float(value) => format!("{:?}", value),
        })
        .collect();
    let buffers =
        ["left_freq", "right_freq", "out_fl", "out_fr", "out_fc", "out_lfe", "out_bl", "out_br"];
    let scalars = ["4096", "17", "0.25", "0.5", "0.75", "1.25", "44100.0", "6", "1", "0", "1.5"];
    assert_eq!(shown[..8], buffers);
    assert_eq!(shown[8..], scalars);
    // The buffers stand in that order in every kernel.
    let matrices: Vec<Box<dyn StereoMatrix<f32>>> = vec![
        Box::new(DefaultMatrix::new(0.0f32, 1.0, 1.0, 1.0)),
        Box::new(matrix),
        Box::new(MvdrMatrix::new(0.0f32, 1.0, 1.0, 1.0, 4, true, 1.5)),
        Box::new(AmbisonicMatrix::new(0.0f32, 1.0, 1.0, 1.0, 4, true, 1.5)),
    ];
    for matrix in &matrices {
        let source = matrix.kernel_src();
        let mut at = source.find("void steer_and_assign(").unwrap_or(source.len());
        for name in buffers {
            let parameter = format!("float2* __restrict__ {}", name);
            match source[at..].find(&parameter) {
                Some(found) => at += found + parameter.len(),
                None => panic!("{} is missing or out of order", name),
            }
        }
    }
}

#[test]
fn launches_have_a_thread_for_every_bin() {
    let shape = launch_shape(3, 4096);
    assert_eq!(shape.grid, (6, 1, 1));
    assert_eq!(shape.block, (1024, 1, 1));
    assert_eq!(shape.shared_bytes, 0);
    assert_eq!(launch_shape(1, 2050).grid, (2, 1, 1));
    assert_eq!(launch_shape(0, 4096).grid, (0, 1, 1));
    for (windows, size) in [(1usize, 2usize), (5, 16), (1000, 8192)] {
        let bins = windows * (size / 2);
        let threads = launch_shape(windows, size).grid.0 as usize * 1024;
        assert!(bins <= threads && threads < bins + 1024);
    }
}

#[test]
fn texts_are_compared() {
    assert!(same_text("wav", "wav"));
    assert!(!same_text("wav", "Wav"));
}

#[test]
fn every_bin_has_one_thread() {
    let (windows, size) = (3usize, 8usize);
    let half = size / 2;
    let mut seen = vec![0; windows * half];
    for thread in 0..windows * half {
        let (window, bin) = (thread / half, thread % half + 1);
        seen[window * half + bin - 1] += 1;
    }
    assert_eq!(seen, vec![1; windows * half]);
    assert!(windows * half <= launch_shape(windows, size).grid.0 as usize * 1024);
}

#[test]
fn the_diffuse_part_is_spread_evenly() {
    let source = MvdrMatrix::new(0.0f32, 1.0, 1.0, 1.0, 4, true, 1.5).kernel_src();
    for channel in ["lf", "rf", "bl", "br", "fc"] {
        let line = format!("float {}_diffuse = mono_adj * diffuse_mix;", channel);
        assert!(source.contains(&line));
    }
    assert!(!source.contains("0.7f"));
    assert!(source.contains("float lf_a = fmaxf(0.0f, lf_direct - fc_a * 0.5f) + lf_diffuse;"));
    assert!(source.contains("float rf_a = fmaxf(0.0f, rf_direct - fc_a * 0.5f) + rf_diffuse;"));
    assert!(source.contains("float bl_a = bl_direct + bl_diffuse;"));
    assert!(source.contains("float br_a = br_direct + br_diffuse;"));
    assert!(source.contains("fcre += fc_diffuse * cosf(fc_ph);"));
    assert!(source.contains("fcim += fc_diffuse * sinf(fc_ph);"));
}

#[test]
fn directions_are_smoothed_on_request_only() {
    let source = AmbisonicMatrix::new(0.0f32, 1.0, 1.0, 1.0, 4, true, 1.5).kernel_src();
    assert!(source.contains("int smooth = use_gaussian && coherence_radius > 0;"));
    assert!(source.contains("int w_lo = smooth ? max(0, win_idx - coherence_radius) : win_idx;"));
    assert!(source.contains(
        "int w_hi = smooth ? min(num_windows - 1, win_idx + coherence_radius) : win_idx;"
    ));
    assert!(source.contains("float weight = smooth\n"));
}
