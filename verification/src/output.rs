//! The output file: its header, the order of its samples, and the run of the FLAC encoder.
use vstd::prelude::*;
use vstd::string::*;

use crate::config::OutputFormat;

verus! {

/// Full scale of a sample of 24 bits.
pub const FULL_SCALE: i32 = 0x80_0000;

/// How samples are stored.
#[derive(Clone, Copy, Debug, PartialEq, Eq, Structural)]
pub enum SampleKind {
    Float,
    Int,
}

/// What the header of a WAV file tells.
#[derive(Clone, Copy, Debug, PartialEq, Eq, Structural)]
pub struct WavHeader {
    pub channels: u16,
    pub sample_rate: u32,
    pub bits_per_sample: u16,
    pub sample_kind: SampleKind,
}

/// The header of the WAV file that is written: the output itself, with fractional samples of 32
/// bits, or what the FLAC encoder is fed with, with integer samples of 24 bits.
pub fn wav_header(format: OutputFormat, sample_rate: u32) -> (header: WavHeader)
    ensures
        header.channels == 6,
        header.sample_rate == sample_rate,
        match format {
            OutputFormat::Wav => header.bits_per_sample == 32 && header.sample_kind
                == SampleKind::Float,
            OutputFormat::Flac => header.bits_per_sample == 24 && header.sample_kind
                == SampleKind::Int,
        },
{
    match format {
        OutputFormat::Wav => WavHeader {
            channels: 6,
            sample_rate,
            bits_per_sample: 32,
            sample_kind: SampleKind::Float,
        },
        OutputFormat::Flac => WavHeader {
            channels: 6,
            sample_rate,
            bits_per_sample: 24,
            sample_kind: SampleKind::Int,
        },
    }
}

/// The samples of the channels, frame by frame.
pub open spec fn interleaved<F>(channels: [Vec<F>; 6]) -> Seq<F> {
    Seq::new(6 * channels[0].len() as nat, |i: int| channels[i % 6][i / 6])
}

/// The samples of the channels, frame by frame: front left, front right, front centre, low
/// frequencies, back left, back right.  There are as many frames as front left samples.
pub fn interleave<F: Copy>(channels: &[Vec<F>; 6]) -> (samples: Vec<F>)
    requires
        6 * channels[0].len() <= usize::MAX,
        forall|c: int| 0 <= c < 6 ==> channels[0].len() <= #[trigger] channels[c].len(),
    ensures
        samples@ == interleaved(*channels),
        samples@.len() == 6 * channels[0].len(),
        forall|i: int|
            0 <= i < samples@.len() ==> #[trigger] samples@[i] == channels[i % 6]@[i / 6],
{
    let frames: usize = channels[0].len();
    let mut samples: Vec<F> = Vec::with_capacity(6 * frames);
    for i in 0..frames
        invariant
            frames == channels[0].len(),
            forall|c: int| 0 <= c < 6 ==> channels[0].len() <= #[trigger] channels[c].len(),
            samples.len() == 6 * i,
            forall|j: int| 0 <= j < 6 * i ==> #[trigger] samples[j] == channels[j % 6][j / 6],
    {
        for c in 0..6usize
            invariant
                i < frames,
                frames == channels[0].len(),
                forall|d: int| 0 <= d < 6 ==> channels[0].len() <= #[trigger] channels[d].len(),
                samples.len() == 6 * i + c,
                forall|j: int|
                    0 <= j < 6 * i + c ==> #[trigger] samples[j] == channels[j % 6][j / 6],
        {
            assert(channels[0].len() <= channels[c as int].len());
            samples.push(channels[c][i]);
        }
    }
    samples
}

/// Interleaving loses nothing: picking place `c` of every frame gives channel `c` back.
pub proof fn channels_can_be_picked_out<F>(channels: [Vec<F>; 6], c: int)
    requires
        0 <= c < 6,
        channels[c].len() == channels[0].len(),
    ensures
        crate::input::picked(interleaved(channels), 6, c) == channels[c]@,
{
    let all = interleaved(channels);
    let n = channels[0].len() as int;
    assert(crate::rounding::ceil_div(all.len(), 6) == n);
    assert forall|i: int| 0 <= i < n implies crate::input::picked(all, 6, c)[i]
        == #[trigger] channels[c]@[i] by {
        assert(all[i * 6 + c] == channels[c][i]);
    }
    assert(crate::input::picked(all, 6, c) =~= channels[c]@);
}

/// Brings a scaled sample into the range of 24 bits.
pub fn clamp_sample(scaled: i32) -> (sample: i32)
    ensures
        sample == if scaled < -FULL_SCALE {
            -FULL_SCALE
        } else if scaled > FULL_SCALE - 1 {
            FULL_SCALE - 1
        } else {
            scaled as int
        },
{
    if scaled < -FULL_SCALE {
        -FULL_SCALE
    } else if scaled > FULL_SCALE - 1 {
        FULL_SCALE - 1
    } else {
        scaled
    }
}

/// The file that the FLAC encoder is fed with.
pub fn temp_wav(path: &str) -> (name: String)
    ensures
        name@ == path@ + ".tmp_encode.wav"@,
{
    path.to_owned().concat(".tmp_encode.wav")
}

/// The switch of the FLAC encoder for a compression level from 0 to 8; a higher one is taken for 8.
pub open spec fn level_switch(compression: u8) -> Seq<char> {
    let level = if compression < 8 { compression } else { 8 };
    seq!['-', (level + '0' as u8) as char]
}

/// The switch of the FLAC encoder for a compression level from 0 to 8; a higher one is taken for 8.
fn level_text(compression: u8) -> (text: &'static str)
    ensures
        text@ == level_switch(compression),
{
    proof {
        reveal_strlit("-0");
        reveal_strlit("-1");
        reveal_strlit("-2");
        reveal_strlit("-3");
        reveal_strlit("-4");
        reveal_strlit("-5");
        reveal_strlit("-6");
        reveal_strlit("-7");
        reveal_strlit("-8");
    }
    match compression {
        0 => "-0",
        1 => "-1",
        2 => "-2",
        3 => "-3",
        4 => "-4",
        5 => "-5",
        6 => "-6",
        7 => "-7",
        _ => "-8",
    }
}

/// The arguments of the FLAC encoder.
pub fn flac_arguments(path: &str, compression: u8) -> (args: Vec<String>)
    ensures
        args.len() == 6,
        args[0]@ == level_switch(compression),
        args[0]@.len() == 2 && args[0]@[0] == '-',
        compression <= 8 ==> args[0]@[1] as int == '0' as int + compression,
        compression > 8 ==> args[0]@[1] == '8',
        args[1]@ == "--silent"@,
        args[2]@ == "--force"@,
        args[3]@ == path@ + ".tmp_encode.wav"@,
        args[4]@ == "-o"@,
        args[5]@ == path@,
{
    let mut args: Vec<String> = Vec::new();
    args.push(level_text(compression).to_owned());
    args.push("--silent".to_owned());
    args.push("--force".to_owned());
    args.push(temp_wav(path));
    args.push("-o".to_owned());
    args.push(path.to_owned());
    args
}

/// What came of running the FLAC encoder, and how the system words it.
#[derive(Debug)]
pub enum EncoderRun {
    /// It ran, with this status.
    Exited { success: bool, status: String },
    /// It could not be run.
    NotRun { error: String },
}

/// Whether the FLAC encoder did its work; if not, what the user is told.
pub fn encoder_outcome(run: &EncoderRun) -> (r: Result<(), String>)
    ensures
        match *run {
            EncoderRun::Exited { success, status } => if success {
                r is Ok
            } else {
                r matches Err(text) && text@ == "flac exited with status "@ + status@
            },
            EncoderRun::NotRun { error } => r matches Err(text) && text@
                == "Could not run `flac`: "@ + error@,
        },
{
    match run {
        EncoderRun::Exited { success, status } => if *success {
            Ok(())
        } else {
            Err("flac exited with status ".to_owned().concat(status.as_str()))
        },
        EncoderRun::NotRun { error } => Err(
            "Could not run `flac`: ".to_owned().concat(error.as_str()),
        ),
    }
}

/// Frame by frame, the channels are written in the order front left, front right, front centre, low
/// frequencies, back left, back right: sample `i` of channel `c` is sample `c` of frame `i`.
pub proof fn frames_hold_the_channels_in_order<F: Copy>(
    channels: &[Vec<F>; 6],
    samples: Vec<F>,
    frame: int,
    c: int,
)
    requires
        call_ensures(interleave::<F>, (channels,), samples),
        0 <= frame < channels[0].len(),
        0 <= c < 6,
    ensures
        samples@.len() == 6 * channels[0].len(),
        samples@[6 * frame + c] == channels[c]@[frame],
{
    assert((6 * frame + c) % 6 == c && (6 * frame + c) / 6 == frame);
    assert(samples@[6 * frame + c] == channels[(6 * frame + c) % 6]@[(6 * frame + c) / 6]);
}

/// A WAV file has six channels of fractional samples of 32 bits, what the FLAC encoder is fed with six
/// of integer samples of 24 bits; both at the rate of the recording.
pub proof fn headers_tell_the_format(format: OutputFormat, sample_rate: u32, header: WavHeader)
    requires
        call_ensures(wav_header, (format, sample_rate), header),
    ensures
        header.channels == 6,
        header.sample_rate == sample_rate,
        format == OutputFormat::Wav ==> header.bits_per_sample == 32 && header.sample_kind
            == SampleKind::Float,
        format == OutputFormat::Flac ==> header.bits_per_sample == 24 && header.sample_kind
            == SampleKind::Int,
{
}

/// Samples are brought into the range of 24 bits and no further: those within it are kept, those
/// outside become the nearer end of it.
pub proof fn samples_are_clamped(scaled: i32, sample: i32)
    requires
        call_ensures(clamp_sample, (scaled,), sample),
    ensures
        -8388608 <= sample <= 8388607,
        -8388608 <= scaled <= 8388607 ==> sample == scaled,
        scaled < -8388608 ==> sample == -8388608,
        scaled > 8388607 ==> sample == 8388607,
{
}

/// The FLAC encoder is told to read the temporary file and to write the output, at the compression
/// level that was asked for, or the highest.
pub proof fn the_encoder_is_told_what_to_do(
    path: &str,
    compression: u8,
    temp: String,
    args: Vec<String>,
)
    requires
        call_ensures(temp_wav, (path,), temp),
        call_ensures(flac_arguments, (path, compression), args),
    ensures
        temp@ == path@ + ".tmp_encode.wav"@,
        args.len() == 6,
        args[0]@.len() == 2 && args[0]@[0] == '-',
        compression <= 8 ==> args[0]@[1] as int == '0' as int + compression,
        compression > 8 ==> args[0]@[1] == '8',
        args[1]@ == "--silent"@,
        args[2]@ == "--force"@,
        args[3]@ == temp@,
        args[4]@ == "-o"@,
        args[5]@ == path@,
{
}

/// The encoder has done its work if and only if it ran and says so; if not, the user is told its
/// status, or why it could not be run.
pub proof fn only_success_is_success(run: EncoderRun, r: Result<(), String>)
    requires
        call_ensures(encoder_outcome, (&run,), r),
    ensures
        run matches EncoderRun::Exited { success, status } ==> {
            &&& success <==> r is Ok
            &&& r matches Err(text) ==> text@ == "flac exited with status "@ + status@
        },
        run matches EncoderRun::NotRun { error } ==> (r matches Err(text) && text@
            == "Could not run `flac`: "@ + error@),
{
}

} // verus!
