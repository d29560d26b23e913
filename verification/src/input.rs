//! Turning decoded audio into a left and a right channel.
use vstd::prelude::*;

verus! {

/// Why a file cannot be read.
#[derive(Clone, Copy, Debug, PartialEq, Eq, Structural)]
pub enum InputError {
    NoTrack,
    NoSampleRate,
    NoSamples,
}

impl InputError {
    /// What the user is told.
    pub open spec fn text(self) -> Seq<char> {
        match self {
            InputError::NoTrack => "No audio track found"@,
            InputError::NoSampleRate => "No sample rate"@,
            InputError::NoSamples => "No samples decoded — check the file is valid stereo/mono"@,
        }
    }

    /// What the user is told.
    pub fn message(&self) -> (message: &'static str)
        ensures
            message@ == self.text(),
            *self == InputError::NoTrack ==> message@ == "No audio track found"@,
            *self == InputError::NoSampleRate ==> message@ == "No sample rate"@,
            *self == InputError::NoSamples ==> message@
                == "No samples decoded — check the file is valid stereo/mono"@,
    {
        match self {
            InputError::NoTrack => "No audio track found",
            InputError::NoSampleRate => "No sample rate",
            InputError::NoSamples => "No samples decoded — check the file is valid stereo/mono",
        }
    }
}

/// What a file tells of its audio track.
#[derive(Clone, Copy, Debug)]
pub struct Track {
    pub id: u32,
    pub sample_rate: Option<u32>,
    /// The speaker positions of its channels, one bit each.
    pub positions: Option<u32>,
}

/// What is needed to read a track.
#[derive(Clone, Copy, Debug, PartialEq, Eq, Structural)]
pub struct Layout {
    pub track_id: u32,
    pub sample_rate: u32,
    /// Samples of a frame; at least one.
    pub channels: usize,
}

/// How many bits of `mask` are set.
pub open spec fn bits_set(mask: nat) -> nat
    decreases mask,
{
    if mask == 0 {
        0
    } else {
        mask % 2 + bits_set(mask / 2)
    }
}

/// The speaker positions that have a meaning.
pub const POSITIONS: u32 = 0x03ff_ffff;

/// Calls `symphonia::core::audio::Channels::count` on the channels at the given positions.
///
/// Claimed of it: the result is the number of positions among those that have a meaning.
#[verifier::external_body]
fn count_positions(positions: u32) -> (count: usize)
    ensures
        count == bits_set((positions & POSITIONS) as nat),
{
    symphonia::core::audio::Channels::from_bits_truncate(positions).count()
}

/// Samples of a frame: one for each position, two if the positions are not known, and at least one.
pub open spec fn frame_size(positions: Option<u32>) -> nat {
    match positions {
        None => 2,
        Some(mask) => {
            let count = bits_set((mask & POSITIONS) as nat);
            if count < 1 { 1 } else { count }
        },
    }
}

/// What is needed to read the track of a file, if the file has one.
pub fn layout(track: Option<Track>) -> (r: Result<Layout, InputError>)
    ensures
        match track {
            None => r == Err::<Layout, InputError>(InputError::NoTrack),
            Some(track) => match track.sample_rate {
                None => r == Err::<Layout, InputError>(InputError::NoSampleRate),
                Some(sample_rate) => r matches Ok(layout) && layout.track_id == track.id
                    && layout.sample_rate == sample_rate && layout.channels == frame_size(
                    track.positions,
                ),
            },
        },
{
    match track {
        None => Err(InputError::NoTrack),
        Some(track) => match track.sample_rate {
            None => Err(InputError::NoSampleRate),
            Some(sample_rate) => {
                let channels: usize = match track.positions {
                    None => 2,
                    Some(mask) => {
                        let count: usize = count_positions(mask);
                        if count < 1 { 1 } else { count }
                    },
                };
                Ok(Layout { track_id: track.id, sample_rate, channels })
            },
        },
    }
}

/// What came of asking for the next packet.
#[derive(Clone, Copy, Debug, PartialEq, Eq, Structural)]
pub enum Fetched {
    /// A packet of a track.
    Packet { track_id: u32 },
    /// The tracks of the file have changed.
    ResetRequired,
    /// There is no further packet, or it cannot be read.
    Failed,
}

/// What is to be done next.
#[derive(Clone, Copy, Debug, PartialEq, Eq, Structural)]
pub enum Step {
    /// Decode the packet.
    Decode,
    /// Ask for the next packet.
    Skip,
    /// Stop reading.
    Stop,
}

/// The samples of frames of `channels` samples at place `offset` of every frame.
pub open spec fn picked<F>(samples: Seq<F>, channels: int, offset: int) -> Seq<F> {
    Seq::new(
        crate::rounding::ceil_div(samples.len(), channels as nat),
        |i: int| samples[i * channels + offset],
    )
}

/// The place of the right sample in a frame: the second, or the only one.
pub open spec fn right_offset(channels: int) -> int {
    if channels > 1 { 1 } else { 0 }
}

/// Whether the last frame has a right sample.
pub open spec fn frames_have_right(len: int, channels: int) -> bool {
    channels > 1 ==> len % channels != 1
}

/// A track being read.
pub struct Reader<F> {
    layout: Layout,
    left: Vec<F>,
    right: Vec<F>,
}

impl<F> Reader<F> {
    pub closed spec fn layout(&self) -> Layout {
        self.layout
    }

    pub closed spec fn left(&self) -> Seq<F> {
        self.left@
    }

    pub closed spec fn right(&self) -> Seq<F> {
        self.right@
    }

    /// Both channels have as many samples.
    pub open spec fn wf(&self) -> bool {
        &&& self.layout().channels >= 1
        &&& self.left().len() == self.right().len()
    }
}

impl<F: Copy> Reader<F> {
    /// Begins to read a track.
    pub fn new(layout: Layout) -> (reader: Self)
        requires
            layout.channels >= 1,
        ensures
            reader.wf(),
            reader.layout() == layout,
            reader.left().len() == 0,
            reader.right().len() == 0,
    {
        Reader { layout, left: Vec::new(), right: Vec::new() }
    }

    /// What is to be done after asking for a packet: decode those of the track, skip those of
    /// others, ask again after a reset, and stop at anything else.
    pub fn after_fetch(&self, fetched: Fetched) -> (step: Step)
        ensures
            step == match fetched {
                Fetched::Packet { track_id } => if track_id == self.layout().track_id {
                    Step::Decode
                } else {
                    Step::Skip
                },
                Fetched::ResetRequired => Step::Skip,
                Fetched::Failed => Step::Stop,
            },
    {
        match fetched {
            Fetched::Packet { track_id } => if track_id == self.layout.track_id {
                Step::Decode
            } else {
                Step::Skip
            },
            Fetched::ResetRequired => Step::Skip,
            Fetched::Failed => Step::Stop,
        }
    }

    /// Takes the samples of a packet, frame by frame; a packet that could not be decoded is left
    /// out.
    pub fn take(&mut self, decoded: Option<&[F]>)
        requires
            old(self).wf(),
            decoded matches Some(samples) ==> frames_have_right(
                samples.len() as int,
                old(self).layout().channels as int,
            ),
        ensures
            final(self).wf(),
            final(self).layout() == old(self).layout(),
            match decoded {
                None => final(self).left() == old(self).left() && final(self).right() == old(
                    self,
                ).right(),
                Some(samples) => {
                    let channels = old(self).layout().channels as int;
                    &&& final(self).left() == old(self).left() + picked(samples@, channels, 0)
                    &&& final(self).right() == old(self).right() + picked(
                        samples@,
                        channels,
                        right_offset(channels),
                    )
                    &&& ({
                        let n = final(self).left().len() - old(self).left().len();
                        &&& final(self).right().len() - old(self).right().len() == n
                        &&& samples@.len() == 0 ==> n == 0
                        &&& samples@.len() > 0 ==> (n - 1) * channels < samples@.len() <= n * channels
                    })
                    &&& forall|i: int|
                        0 <= i < old(self).left().len() ==> #[trigger] final(self).left()[i]
                            == old(self).left()[i]
                    &&& forall|i: int|
                        0 <= i < old(self).right().len() ==> #[trigger] final(self).right()[i]
                            == old(self).right()[i]
                    &&& forall|i: int|
                        old(self).left().len() <= i < final(self).left().len()
                            ==> #[trigger] final(self).left()[i] == samples@[(i
                            - old(self).left().len()) * channels]
                    &&& forall|i: int|
                        old(self).right().len() <= i < final(self).right().len()
                            ==> #[trigger] final(self).right()[i] == samples@[(i
                            - old(self).right().len()) * channels + if channels > 1 {
                            1int
                        } else {
                            0int
                        }]
                },
            },
    {
        if let Some(samples) = decoded {
            proof {
                lemma_frames(samples.len() as int, self.layout.channels as int);
                assert(0 * self.layout.channels == 0);
            }
            self.take_frames(samples);
        }
    }

    fn take_frames(&mut self, samples: &[F])
        requires
            old(self).wf(),
            frames_have_right(samples.len() as int, old(self).layout().channels as int),
        ensures
            final(self).wf(),
            final(self).layout() == old(self).layout(),
            ({
                let channels = old(self).layout().channels as int;
                &&& final(self).left() == old(self).left() + picked(samples@, channels, 0)
                &&& final(self).right() == old(self).right() + picked(
                    samples@,
                    channels,
                    right_offset(channels),
                )
            }),
    {
        let channels: usize = self.layout.channels;
        let second: usize = if channels > 1 { 1 } else { 0 };
        let ghost before = *self;
        let ghost n = samples.len() as int;
        let ghost ch = channels as int;
        let ghost frames = crate::rounding::ceil_div(samples@.len(), channels as nat) as int;
        let ghost lefts = picked(samples@, ch, 0);
        let ghost rights = picked(samples@, ch, right_offset(ch));
        let mut start: usize = 0;
        let ghost mut i: int = 0;
        proof {
            lemma_frames(n, ch);
            assert(0 * ch == 0);
        }
        while start < samples.len()
            invariant
                n == samples.len(),
                ch == channels,
                channels >= 1,
                second == right_offset(ch),
                frames_have_right(n, ch),
                frames == crate::rounding::ceil_div(samples@.len(), channels as nat),
                lefts == picked(samples@, ch, 0),
                rights == picked(samples@, ch, right_offset(ch)),
                (frames - 1) * ch < n || frames == 0,
                n <= frames * ch,
                0 <= i <= frames,
                start == if i * ch < n { i * ch } else { n },
                self.layout == before.layout,
                self.left@ == before.left@ + lefts.take(i),
                self.right@ == before.right@ + rights.take(i),
            decreases samples.len() - start,
        {
            proof {
                if i == frames {
                    assert(false);
                }
                lemma_right_inside(n, ch, i, frames);
                assert((i + 1) * ch == i * ch + ch) by (nonlinear_arith);
                assert(lefts.take(i + 1) == lefts.take(i).push(lefts[i]));
                assert(rights.take(i + 1) == rights.take(i).push(rights[i]));
            }
            self.left.push(samples[start]);
            self.right.push(samples[start + second]);
            start = if samples.len() - start > channels {
                start + channels
            } else {
                samples.len()
            };
            proof {
                i = i + 1;
            }
        }
        proof {
            if i < frames {
                assert(i * ch <= (frames - 1) * ch) by (nonlinear_arith)
                    requires
                        i <= frames - 1,
                        ch >= 1,
                ;
                assert(false);
            }
            assert(lefts.take(frames) == lefts);
            assert(rights.take(frames) == rights);
        }
    }

    /// Ends reading: the two channels and their sample rate, if there is any sample.
    pub fn finish(self) -> (r: Result<(Vec<F>, Vec<F>, u32), InputError>)
        requires
            self.wf(),
        ensures
            match r {
                Ok((left, right, sample_rate)) => {
                    &&& self.left().len() > 0
                    &&& left@ == self.left()
                    &&& right@ == self.right()
                    &&& left.len() == right.len()
                    &&& sample_rate == self.layout().sample_rate
                },
                Err(error) => self.left().len() == 0 && error == InputError::NoSamples,
            },
    {
        if self.left.len() == 0 {
            Err(InputError::NoSamples)
        } else {
            Ok((self.left, self.right, self.layout.sample_rate))
        }
    }
}

proof fn lemma_frames(n: int, channels: int)
    requires
        n >= 0,
        channels >= 1,
    ensures
        ({
            let frames = crate::rounding::ceil_div(n as nat, channels as nat) as int;
            &&& frames == 0 || (frames - 1) * channels < n
            &&& n <= frames * channels
        }),
{
    let top = n + channels - 1;
    let frames = top / channels;
    vstd::arithmetic::div_mod::lemma_fundamental_div_mod(top, channels);
    assert(frames >= 0 && (frames - 1) * channels < n && n <= frames * channels)
        by (nonlinear_arith)
        requires
            top == channels * frames + top % channels,
            0 <= top % channels < channels,
            top == n + channels - 1,
            n >= 0,
            channels >= 1,
    ;
}

proof fn lemma_right_inside(n: int, channels: int, frame: int, frames: int)
    requires
        channels >= 1,
        0 <= frame < frames,
        frame * channels < n,
        frames_have_right(n, channels),
    ensures
        frame * channels + right_offset(channels) < n,
{
    if channels > 1 && frame * channels + 1 == n {
        vstd::arithmetic::div_mod::lemma_fundamental_div_mod_converse(n, channels, frame, 1);
    }
}

/// Packets of whole frames add up: what is picked from two of them, one after the other, is what
/// is picked from both together.
pub proof fn packets_add_up<F>(first: Seq<F>, second: Seq<F>, channels: int, offset: int)
    requires
        channels >= 1,
        first.len() % channels as nat == 0,
        offset == 0 || (offset == right_offset(channels) && frames_have_right(
            second.len() as int,
            channels,
        )),
    ensures
        picked(first + second, channels, offset) == picked(first, channels, offset) + picked(
            second,
            channels,
            offset,
        ),
{
    let k = first.len() as int / channels;
    vstd::arithmetic::div_mod::lemma_fundamental_div_mod(first.len() as int, channels);
    assert(first.len() == k * channels) by (nonlinear_arith)
        requires
            first.len() == channels * k,
    ;
    let both = first + second;
    let a = (first.len() + channels - 1) as int;
    let b = (second.len() + channels - 1) as int;
    let rest = b / channels;
    vstd::arithmetic::div_mod::lemma_fundamental_div_mod(b, channels);
    vstd::arithmetic::div_mod::lemma_fundamental_div_mod_converse(a, channels, k, channels - 1);
    assert(a + second.len() == (k + rest) * channels + b % channels) by (nonlinear_arith)
        requires
            a == first.len() + channels - 1,
            first.len() == k * channels,
            b == channels * rest + b % channels,
            b == second.len() + channels - 1,
    ;
    vstd::arithmetic::div_mod::lemma_fundamental_div_mod_converse(
        a + second.len(),
        channels,
        k + rest,
        b % channels,
    );
    lemma_frames(second.len() as int, channels);
    assert(k >= 0 && rest >= 0) by (nonlinear_arith)
        requires
            first.len() == k * channels,
            first.len() >= 0,
            channels >= 1,
            rest == b / channels,
            b >= 0,
    ;
    let one = picked(first, channels, offset);
    let other = picked(second, channels, offset);
    let all = picked(both, channels, offset);
    assert(all.len() == one.len() + other.len());
    assert forall|i: int| 0 <= i < all.len() implies all[i] == (one + other)[i] by {
        if i < k {
            assert(0 <= i * channels + offset < first.len()) by (nonlinear_arith)
                requires
                    0 <= i <= k - 1,
                    first.len() == k * channels,
                    0 <= offset < channels,
            ;
        } else {
            assert((i - k) * channels == i * channels - k * channels) by (nonlinear_arith);
            assert(0 <= (i - k) * channels) by (nonlinear_arith)
                requires
                    i >= k,
                    channels >= 1,
            ;
            assert((i - k) * channels <= (rest - 1) * channels) by (nonlinear_arith)
                requires
                    i - k <= rest - 1,
                    channels >= 1,
            ;
            if offset != 0 {
                lemma_right_inside(second.len() as int, channels, i - k, rest);
            }
            assert(both[i * channels + offset] == second[(i - k) * channels + offset]);
        }
    }
    assert(all =~= one + other);
}

/// Frames are taken apart: every frame of a packet adds its first sample to the left channel and its
/// second to the right one, or its only sample to both, behind what was there.
pub proof fn frames_are_taken_apart<F: Copy>(
    reader: &mut Reader<F>,
    samples: &[F],
    channels: int,
    frame: int,
)
    requires
        call_ensures(Reader::<F>::take, (reader, Some(samples)), ()),
        channels == old(reader).layout().channels,
        channels >= 1,
        old(reader).left().len() == old(reader).right().len(),
        0 <= frame,
        frame * channels < samples@.len(),
    ensures
        ({
            let n = old(reader).left().len();
            let left = final(reader).left();
            let right = final(reader).right();
            &&& final(reader).layout() == old(reader).layout()
            &&& left.len() == right.len()
            &&& n + frame < left.len()
            &&& (left.len() - n - 1) * channels < samples@.len() <= (left.len() - n) * channels
            &&& left.take(n as int) == old(reader).left()
            &&& right.take(n as int) == old(reader).right()
            &&& left[n + frame] == samples@[frame * channels]
            &&& channels == 1 ==> right[n + frame] == samples@[frame]
            &&& channels > 1 ==> right[n + frame] == samples@[frame * channels + 1]
        }),
{
    let n = old(reader).left().len();
    let left = final(reader).left();
    let right = final(reader).right();
    let frames = left.len() - n;
    assert(samples@.len() > 0) by {
        assert(0 <= frame * channels) by (nonlinear_arith)
            requires
                frame >= 0,
                channels >= 1,
        ;
    }
    assert(frame < frames) by (nonlinear_arith)
        requires
            frame * channels < samples@.len(),
            samples@.len() <= frames * channels,
            channels >= 1,
    ;
    assert(frame * 1 == frame);
    assert(left.take(n as int) =~= old(reader).left());
    assert(right.take(n as int) =~= old(reader).right());
}

/// A packet that could not be decoded, or that is empty, changes nothing.
pub proof fn nothing_is_taken_from_nothing<F: Copy>(
    reader: &mut Reader<F>,
    decoded: Option<&[F]>,
)
    requires
        call_ensures(Reader::<F>::take, (reader, decoded), ()),
        decoded matches Some(samples) ==> samples@.len() == 0,
    ensures
        final(reader).left() == old(reader).left(),
        final(reader).right() == old(reader).right(),
        final(reader).layout() == old(reader).layout(),
{
    assert(final(reader).left() =~= old(reader).left());
    assert(final(reader).right() =~= old(reader).right());
}

/// A reader begins with two empty channels, and ends with what it has taken and the sample rate of the
/// track; without a sample there is an error.
pub proof fn a_reader_yields_what_it_took<F: Copy>(
    layout: Layout,
    fresh: Reader<F>,
    reader: Reader<F>,
    r: Result<(Vec<F>, Vec<F>, u32), InputError>,
)
    requires
        call_ensures(Reader::<F>::new, (layout,), fresh),
        call_ensures(Reader::<F>::finish, (reader,), r),
    ensures
        fresh.left().len() == 0 && fresh.right().len() == 0 && fresh.layout() == layout,
        reader.left().len() == 0 ==> r == Err::<(Vec<F>, Vec<F>, u32), InputError>(
            InputError::NoSamples,
        ),
        reader.left().len() > 0 ==> {
            &&& r is Ok
            &&& r->Ok_0.0@ == reader.left()
            &&& r->Ok_0.1@ == reader.right()
            &&& r->Ok_0.2 == reader.layout().sample_rate
        },
{
}

/// Only packets of the track are decoded; those of others are skipped, a reset is passed over, and
/// reading stops at anything else.
pub proof fn only_the_track_is_decoded<F: Copy>(reader: Reader<F>, fetched: Fetched, step: Step)
    requires
        call_ensures(Reader::<F>::after_fetch, (&reader, fetched), step),
    ensures
        step == Step::Stop <==> fetched == Fetched::Failed,
        step == Step::Decode <==> fetched == (Fetched::Packet {
            track_id: reader.layout().track_id,
        }),
{
}

/// A track is read with its own number and rate, in frames of as many samples as it has speaker
/// positions, two if they are not known; a file without a track, or a track without a rate, is
/// refused.
pub proof fn a_track_is_read_as_it_is(track: Option<Track>, r: Result<Layout, InputError>)
    requires
        call_ensures(layout, (track,), r),
    ensures
        track is None ==> r == Err::<Layout, InputError>(InputError::NoTrack),
        track matches Some(t) ==> {
            &&& t.sample_rate is None ==> r == Err::<Layout, InputError>(InputError::NoSampleRate)
            &&& t.sample_rate matches Some(rate) ==> {
                &&& r is Ok
                &&& r->Ok_0.track_id == t.id
                &&& r->Ok_0.sample_rate == rate
                &&& t.positions is None ==> r->Ok_0.channels == 2
                &&& t.positions matches Some(mask) ==> {
                    let count = bits_set((mask & 0x03ff_ffff) as nat);
                    &&& count > 0 ==> r->Ok_0.channels == count
                    &&& count == 0 ==> r->Ok_0.channels == 1
                }
            }
        },
{
}

/// Positions are counted one by one: the number of bits of a mask is that of its lower bits and that
/// of the rest.
pub proof fn bits_are_counted_one_by_one(rest: nat, bit: nat)
    requires
        bit < 2,
    ensures
        bits_set(0) == 0,
        bits_set(2 * rest + bit) == bits_set(rest) + bit,
{
    if 2 * rest + bit == 0 {
        assert(rest == 0 && bit == 0);
    }
}

/// Every reason why a file cannot be read has its own message.
pub proof fn input_errors_have_their_messages(error: InputError, message: &'static str)
    requires
        call_ensures(InputError::message, (&error,), message),
    ensures
        error == InputError::NoTrack ==> message@ == "No audio track found"@,
        error == InputError::NoSampleRate ==> message@ == "No sample rate"@,
        error == InputError::NoSamples ==> message@
            == "No samples decoded — check the file is valid stereo/mono"@,
{
}

} // verus!
