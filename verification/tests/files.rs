use soft_matrix_gpu::config::OutputFormat;
use soft_matrix_gpu::input::{layout, Fetched, InputError, Layout, Reader, Step, Track};
use soft_matrix_gpu::output::{
    clamp_sample, encoder_outcome, flac_arguments, interleave, temp_wav, wav_header, EncoderRun,
    SampleKind, FULL_SCALE,
};

fn reader(channels: usize) -> Reader<i32> {
    Reader::new(Layout { track_id: 7, sample_rate: 44100, channels })
}

#[test]
fn layouts_of_tracks() {
    let track = |positions: Option<u32>| Track { id: 3, sample_rate: Some(48000), positions };
    let channels = |positions: Option<u32>| match layout(Some(track(positions))) {
        Ok(layout) => layout.channels,
        Err(_) => panic!("no layout"),
    };
    assert_eq!(channels(None), 2);
    assert_eq!(channels(Some(0)), 1);
    assert_eq!(channels(Some(1)), 1);
    assert_eq!(channels(Some(3)), 2);
    assert_eq!(channels(Some(0x3f)), 6);
    assert_eq!(channels(Some(0xffff_ffff)), 26);
    assert_eq!(
        layout(Some(track(Some(3)))),
        Ok(Layout { track_id: 3, sample_rate: 48000, channels: 2 })
    );
}

#[test]
fn tracks_that_cannot_be_read() {
    assert_eq!(layout(None), Err(InputError::NoTrack));
    let silent = Track { id: 3, sample_rate: None, positions: Some(3) };
    assert_eq!(layout(Some(silent)), Err(InputError::NoSampleRate));
    assert_eq!(InputError::NoTrack.message(), "No audio track found");
    assert_eq!(InputError::NoSampleRate.message(), "No sample rate");
    assert_eq!(
        InputError::NoSamples.message(),
        "No samples decoded — check the file is valid stereo/mono"
    );
}

#[test]
fn packets_of_other_tracks_are_skipped() {
    let reader = reader(2);
    assert_eq!(reader.after_fetch(Fetched::Packet { track_id: 7 }), Step::Decode);
    assert_eq!(reader.after_fetch(Fetched::Packet { track_id: 8 }), Step::Skip);
    assert_eq!(reader.after_fetch(Fetched::ResetRequired), Step::Skip);
    assert_eq!(reader.after_fetch(Fetched::Failed), Step::Stop);
}

#[test]
fn stereo_frames_are_split() {
    let mut reader = reader(2);
    reader.take(Some(&[1, 2, 3, 4]));
    reader.take(None);
    reader.take(Some(&[5, 6]));
    assert_eq!(reader.finish(), Ok((vec![1, 3, 5], vec![2, 4, 6], 44100)));
}

#[test]
fn mono_goes_to_both_sides() {
    let mut reader = reader(1);
    reader.take(Some(&[1, 2, 3]));
    assert_eq!(reader.finish(), Ok((vec![1, 2, 3], vec![1, 2, 3], 44100)));
}

#[test]
fn of_many_channels_two_are_taken() {
    let mut reader = reader(3);
    reader.take(Some(&[1, 2, 3, 4, 5, 6, 7, 8]));
    assert_eq!(reader.finish(), Ok((vec![1, 4, 7], vec![2, 5, 8], 44100)));
}

#[test]
fn packets_add_up() {
    let mut apart = reader(2);
    apart.take(Some(&[1, 2]));
    apart.take(Some(&[3, 4, 5, 6]));
    let mut together = reader(2);
    together.take(Some(&[1, 2, 3, 4, 5, 6]));
    assert_eq!(apart.finish(), together.finish());
}

#[test]
fn without_samples_there_is_nothing_to_read() {
    let mut reader = reader(2);
    reader.take(Some(&[]));
    reader.take(None);
    assert_eq!(reader.finish(), Err(InputError::NoSamples));
}

#[test]
fn headers_of_both_formats() {
    let wav = wav_header(OutputFormat::Wav, 96000);
    assert_eq!((wav.channels, wav.sample_rate, wav.bits_per_sample), (6, 96000, 32));
    assert_eq!(wav.sample_kind, SampleKind::Float);
    let flac = wav_header(OutputFormat::Flac, 44100);
    assert_eq!((flac.channels, flac.sample_rate, flac.bits_per_sample), (6, 44100, 24));
    assert_eq!(flac.sample_kind, SampleKind::Int);
}

#[test]
fn frames_hold_the_channels_in_order() {
    let channels: [Vec<i32>; 6] = std::array::from_fn(|c| vec![c as i32, 10 + c as i32]);
    let samples = interleave(&channels);
    assert_eq!(samples, vec![0, 1, 2, 3, 4, 5, 10, 11, 12, 13, 14, 15]);
    let empty: [Vec<i32>; 6] = std::array::from_fn(|_| Vec::new());
    assert!(interleave(&empty).is_empty());
}

#[test]
fn front_channels_can_be_read_back() {
    let channels: [Vec<i32>; 6] = std::array::from_fn(|c| (0..5).map(|i| i * 10 + c as i32).collect());
    let mut reader = reader(6);
    reader.take(Some(interleave(&channels).as_slice()));
    assert_eq!(reader.finish(), Ok((channels[0].clone(), channels[1].clone(), 44100)));
}

#[test]
fn samples_stay_within_24_bits() {
    assert_eq!(FULL_SCALE, 1 << 23);
    assert_eq!(clamp_sample(8388608), 8388607);
    assert_eq!(clamp_sample(8388607), 8388607);
    assert_eq!(clamp_sample(-8388608), -8388608);
    assert_eq!(clamp_sample(-8388609), -8388608);
    assert_eq!(clamp_sample(-5), -5);
}

#[test]
fn the_encoder_is_called() {
    assert_eq!(temp_wav("a/b.flac"), "a/b.flac.tmp_encode.wav");
    assert_eq!(
        flac_arguments("x.flac", 5),
        ["-5", "--silent", "--force", "x.flac.tmp_encode.wav", "-o", "x.flac"]
    );
    for level in 0..=255u8 {
        assert_eq!(flac_arguments("x", level)[0], format!("-{}", level.min(8)));
    }
}

#[test]
fn the_encoder_may_fail() {
    let ran = |success: bool| EncoderRun::Exited { success, status: "exit status: 1".to_string() };
    assert_eq!(encoder_outcome(&ran(true)), Ok(()));
    assert_eq!(
        encoder_outcome(&ran(false)),
        Err("flac exited with status exit status: 1".to_string())
    );
    assert_eq!(
        encoder_outcome(&EncoderRun::NotRun { error: "not found".to_string() }),
        Err("Could not run `flac`: not found".to_string())
    );
}
