//! The frames that samples are gathered into before they are encoded.
use vstd::prelude::*;
use crate::ids::Did;
use crate::text::same_text;

verus! {

/// What is heard of a peer.
#[derive(Clone, Copy, PartialEq, Eq, Structural, Debug)]
pub enum AudioEvent {
    UserTalking(Did),
    PacketLoss(Did),
}

/// The kinds of media that have a name here.
#[derive(Clone, Copy, PartialEq, Eq, Structural, Debug)]
pub enum MimeType {
    H264,
    VP8,
    VP9,
    AV1,
    OPUS,
    Invalid,
}

#[derive(Clone, Copy, PartialEq, Eq, Structural, Debug)]
pub struct AudioCodec {
    pub mime: MimeType,
    pub sample_rate: u32,
    pub channels: u16,
}

/// Why no track is made for a codec.
#[derive(Clone, Copy, PartialEq, Eq, Structural, Debug)]
pub enum TrackError {
    Mismatch,
    Invalid,
    Unhandled(MimeType),
}

/// Checks that a track can be made between two codecs: they have to be of one kind, and Opus is
/// the only kind there is a track for.
pub fn check_track(webrtc_codec: &AudioCodec, other: &AudioCodec) -> (r: Result<(), TrackError>)
    ensures
        r == (if webrtc_codec.mime != other.mime {
            Err::<(), TrackError>(TrackError::Mismatch)
        } else if webrtc_codec.mime == MimeType::Invalid {
            Err(TrackError::Invalid)
        } else if webrtc_codec.mime == MimeType::OPUS {
            Ok(())
        } else {
            Err(TrackError::Unhandled(webrtc_codec.mime))
        }),
{
    if webrtc_codec.mime != other.mime {
        return Err(TrackError::Mismatch);
    }
    match webrtc_codec.mime {
        MimeType::Invalid => Err(TrackError::Invalid),
        MimeType::OPUS => Ok(()),
        other => Err(TrackError::Unhandled(other)),
    }
}

/// Whether a device, whose name may be unknown, has a name.
pub open spec fn is_named(device: Option<String>, name: Seq<char>) -> bool {
    match device {
        Some(n) => n@ == name,
        None => false,
    }
}

/// The first device of a name.
pub fn find_device(devices: &Vec<Option<String>>, name: &str) -> (r: Option<usize>)
    ensures
        match r {
            Some(i) => {
                &&& i < devices@.len()
                &&& is_named(devices@[i as int], name@)
                &&& forall|j: int| 0 <= j < i ==> !is_named(#[trigger] devices@[j], name@)
            },
            None => forall|j: int|
                0 <= j < devices@.len() ==> !is_named(#[trigger] devices@[j], name@),
        },
{
    let mut i: usize = 0;
    while i < devices.len()
        invariant
            i <= devices@.len(),
            forall|j: int| 0 <= j < i ==> !is_named(#[trigger] devices@[j], name@),
        decreases devices@.len() - i,
    {
        match &devices[i] {
            Some(n) => {
                if same_text(n.as_str(), name) {
                    return Some(i);
                }
            },
            None => {},
        }
        i = i + 1;
    }
    None
}

/// How samples get from the rate of the source to that of the codec.
#[derive(Clone, Copy, PartialEq, Eq, Structural, Debug)]
pub enum ResamplerConfig {
    /// The rates are the same.
    Same,
    /// Each sample is repeated.
    UpSample(u32),
    /// One sample of so many is kept.
    DownSample(u32),
}

/// How samples get from the channels of the source to those of the codec.
#[derive(Clone, Copy, PartialEq, Eq, Structural, Debug)]
pub enum ChannelMixerConfig {
    /// The channels are the same.
    Same,
    Merge,
    Split,
}

#[derive(Clone, Copy, PartialEq, Eq, Structural, Debug)]
pub enum EchoCancellationIntensity {
    Low,
    Medium,
    High,
}

#[derive(Clone, Copy, PartialEq, Eq, Structural, Debug)]
pub enum EchoCancellationSuppressionLevel {
    Low,
    Moderate,
    High,
}

#[derive(Clone, Copy, PartialEq, Eq, Structural, Debug)]
pub enum EchoCancellationStrategy {
    Normal,
    DoubleMax,
    DoubleInput,
    Other,
}

#[derive(Clone, Copy, PartialEq, Eq, Structural, Debug)]
pub struct EchoCancellationConfig {
    pub intensity: EchoCancellationIntensity,
    pub strategy: EchoCancellationStrategy,
}

/// How many bits per second the encoder gives.
pub const FRAMER_BITRATE: i32 = 16000;

/// What a framer is made of besides the samples that it gathers.
#[derive(Clone, Copy, PartialEq, Eq, Structural, Debug)]
pub struct FramerPlan {
    /// The samples of a frame, those of all channels together.
    pub frame_size: usize,
    /// The room for an encoded frame, in bytes.
    pub encoded_size: usize,
    pub resampler: ResamplerConfig,
    pub channel_mixer: ChannelMixerConfig,
    /// The level at which the echo is suppressed, where it is.
    pub suppression: Option<EchoCancellationSuppressionLevel>,
}

/// The resampler between two rates.
pub open spec fn resampler_between(webrtc_rate: u32, source_rate: u32) -> ResamplerConfig {
    if webrtc_rate == source_rate {
        ResamplerConfig::Same
    } else if webrtc_rate > source_rate {
        ResamplerConfig::UpSample(webrtc_rate / source_rate)
    } else {
        ResamplerConfig::DownSample(source_rate / webrtc_rate)
    }
}

/// The channel mixer between two numbers of channels.
pub open spec fn mixer_between(webrtc_channels: u16, source_channels: u16) -> ChannelMixerConfig {
    if webrtc_channels == source_channels {
        ChannelMixerConfig::Same
    } else if webrtc_channels < source_channels {
        ChannelMixerConfig::Merge
    } else {
        ChannelMixerConfig::Split
    }
}

/// The level of suppression that an intensity stands for.
pub open spec fn suppression_of(
    intensity: EchoCancellationIntensity,
) -> EchoCancellationSuppressionLevel {
    match intensity {
        EchoCancellationIntensity::Low => EchoCancellationSuppressionLevel::Low,
        EchoCancellationIntensity::Medium => EchoCancellationSuppressionLevel::Moderate,
        EchoCancellationIntensity::High => EchoCancellationSuppressionLevel::High,
    }
}

/// Whether a full frame goes through the processor as captured sound.
pub open spec fn captures(config: EchoCancellationConfig) -> bool {
    config.strategy is Normal || config.strategy is DoubleMax || config.strategy is DoubleInput
}

/// Whether a full frame goes through the processor as rendered sound.
pub open spec fn renders(config: EchoCancellationConfig) -> bool {
    config.strategy is DoubleMax || config.strategy is DoubleInput
}

/// Gathers samples, each held as the bits of its floating-point number.
pub struct Framer {
    pub plan: FramerPlan,
    pub echo_cancellation: Option<EchoCancellationConfig>,
    pub raw_samples: Vec<u32>,
}

/// What a channel mixer makes of a sample.
#[derive(Clone, Copy, PartialEq, Eq, Structural, Debug)]
pub enum ChannelMixerOutput {
    Single(u32),
    /// The sample stands for two channels.
    Split(u32),
    /// The sample is held back, to be merged with the next.
    Withheld,
}

/// The samples that go through the resampler, in order: one that is split goes through it twice.
pub open spec fn resampled_inputs(mixed: ChannelMixerOutput) -> Seq<u32> {
    match mixed {
        ChannelMixerOutput::Single(sample) => seq![sample],
        ChannelMixerOutput::Split(sample) => seq![sample, sample],
        ChannelMixerOutput::Withheld => Seq::empty(),
    }
}

/// The samples that go through the resampler, in order.
pub fn resampler_inputs(mixed: ChannelMixerOutput) -> (r: Vec<u32>)
    ensures
        r@ == resampled_inputs(mixed),
{
    let mut r: Vec<u32> = Vec::new();
    match mixed {
        ChannelMixerOutput::Single(sample) => {
            r.push(sample);
        },
        ChannelMixerOutput::Split(sample) => {
            r.push(sample);
            r.push(sample);
        },
        ChannelMixerOutput::Withheld => {},
    }
    assert(r@ == resampled_inputs(mixed));
    r
}

/// What came out of the resampler, one pass after the other.
pub open spec fn joined(passes: Seq<Vec<u32>>) -> Seq<u32>
    decreases passes.len(),
{
    if passes.len() == 0 {
        Seq::empty()
    } else {
        joined(passes.drop_last()) + passes.last()@
    }
}

/// What is done with a full frame before it is encoded.
#[derive(Clone, Copy, PartialEq, Eq, Structural, Debug)]
pub struct FrameSteps {
    pub capture: bool,
    pub render: bool,
}

impl Framer {
    /// A framer between two codecs. `frame_size` is the number of samples of one channel.
    pub fn init(
        frame_size: usize,
        webrtc_codec: &AudioCodec,
        source_codec: &AudioCodec,
        echo_cancellation: Option<EchoCancellationConfig>,
    ) -> (r: Framer)
        requires
            frame_size * webrtc_codec.channels * 4 <= usize::MAX,
            webrtc_codec.sample_rate == source_codec.sample_rate || (webrtc_codec.sample_rate > 0
                && source_codec.sample_rate > 0),
        ensures
            r.raw_samples@.len() == 0,
            r.echo_cancellation == echo_cancellation,
            r.plan == (FramerPlan {
                frame_size: (frame_size * webrtc_codec.channels) as usize,
                encoded_size: (frame_size * webrtc_codec.channels * 4) as usize,
                resampler: resampler_between(webrtc_codec.sample_rate, source_codec.sample_rate),
                channel_mixer: mixer_between(webrtc_codec.channels, source_codec.channels),
                suppression: match echo_cancellation {
                    Some(config) => Some(suppression_of(config.intensity)),
                    None => None,
                },
            }),
    {
        let channels: usize = webrtc_codec.channels as usize;
        proof {
            assert(0 <= frame_size * channels <= frame_size * channels * 4) by (nonlinear_arith)
                requires
                    frame_size >= 0,
                    channels >= 0,
            ;
        }
        let samples: usize = frame_size * channels;
        let resampler = if webrtc_codec.sample_rate == source_codec.sample_rate {
            ResamplerConfig::Same
        } else if webrtc_codec.sample_rate > source_codec.sample_rate {
            ResamplerConfig::UpSample(webrtc_codec.sample_rate / source_codec.sample_rate)
        } else {
            ResamplerConfig::DownSample(source_codec.sample_rate / webrtc_codec.sample_rate)
        };
        let channel_mixer = if webrtc_codec.channels == source_codec.channels {
            ChannelMixerConfig::Same
        } else if webrtc_codec.channels < source_codec.channels {
            ChannelMixerConfig::Merge
        } else {
            ChannelMixerConfig::Split
        };
        let suppression = match echo_cancellation {
            Some(config) => Some(
                match config.intensity {
                    EchoCancellationIntensity::Low => EchoCancellationSuppressionLevel::Low,
                    EchoCancellationIntensity::Medium => {
                        EchoCancellationSuppressionLevel::Moderate
                    },
                    EchoCancellationIntensity::High => EchoCancellationSuppressionLevel::High,
                },
            ),
            None => None,
        };
        Framer {
            plan: FramerPlan {
                frame_size: samples,
                encoded_size: samples * 4,
                resampler,
                channel_mixer,
                suppression,
            },
            echo_cancellation,
            raw_samples: Vec::new(),
        }
    }

    /// Takes a sample of the source. `mixed` is what the mixer made of it, and `resampled` what the
    /// resampler made of each of the `resampler_inputs`. Where the frame is full then, it is
    /// processed as said, and encoded.
    pub fn frame(&mut self, mixed: ChannelMixerOutput, resampled: &Vec<Vec<u32>>) -> (r: Option<
        FrameSteps,
    >)
        requires
            resampled@.len() == resampled_inputs(mixed).len(),
        ensures
            *final(self) == (Framer { raw_samples: final(self).raw_samples, ..*old(self) }),
            final(self).raw_samples@ == old(self).raw_samples@ + joined(resampled@),
            mixed is Split ==> final(self).raw_samples@ == old(self).raw_samples@ + resampled@[0]@
                + resampled@[1]@,
            if final(self).raw_samples@.len() == old(self).plan.frame_size {
                r == Some(
                    match old(self).echo_cancellation {
                        Some(config) => FrameSteps {
                            capture: captures(config),
                            render: renders(config),
                        },
                        None => FrameSteps { capture: false, render: false },
                    },
                )
            } else {
                r is None
            },
    {
        let mut i: usize = 0;
        assert(resampled@.take(0) == Seq::<Vec<u32>>::empty());
        while i < resampled.len()
            invariant
                i <= resampled@.len(),
                *self == (Framer { raw_samples: self.raw_samples, ..*old(self) }),
                self.raw_samples@ == old(self).raw_samples@ + joined(resampled@.take(i as int)),
            decreases resampled@.len() - i,
        {
            proof {
                assert(resampled@.take(i + 1).drop_last() == resampled@.take(i as int));
                assert(resampled@.take(i + 1).last() == resampled@[i as int]);
            }
            let ghost before = self.raw_samples@;
            self.raw_samples.extend_from_slice(resampled[i].as_slice());
            assert(self.raw_samples@ == before + resampled@[i as int]@);
            i = i + 1;
        }
        proof {
            assert(resampled@.take(i as int) == resampled@);
            if mixed is Split {
                assert(resampled@.drop_last().drop_last() == Seq::<Vec<u32>>::empty());
                assert(joined(resampled@.drop_last().drop_last()) == Seq::<u32>::empty());
                assert(joined(resampled@.drop_last()) == resampled@[0]@);
                assert(joined(resampled@) == resampled@[0]@ + resampled@[1]@);
            }
        }
        if self.raw_samples.len() != self.plan.frame_size {
            return None;
        }
        match self.echo_cancellation {
            None => Some(FrameSteps { capture: false, render: false }),
            Some(config) => match config.strategy {
                EchoCancellationStrategy::Normal => Some(
                    FrameSteps { capture: true, render: false },
                ),
                EchoCancellationStrategy::DoubleMax => Some(
                    FrameSteps { capture: true, render: true },
                ),
                EchoCancellationStrategy::DoubleInput => Some(
                    FrameSteps { capture: true, render: true },
                ),
                EchoCancellationStrategy::Other => Some(
                    FrameSteps { capture: false, render: false },
                ),
            },
        }
    }

    /// Ends a frame. `size` is how many bytes of the room the encoder used, where it did not fail.
    pub fn encoded(&mut self, size: Option<usize>, room: &Vec<u8>) -> (r: Option<Vec<u8>>)
        requires
            size matches Some(n) ==> n <= room@.len(),
        ensures
            *final(self) == (Framer { raw_samples: final(self).raw_samples, ..*old(self) }),
            final(self).raw_samples@.len() == 0,
            match size {
                Some(n) => r matches Some(bytes) && bytes@ == room@.take(n as int),
                None => r is None,
            },
    {
        broadcast use vstd::slice::group_slice_axioms;

        self.raw_samples.clear();
        match size {
            Some(n) => {
                let mut bytes: Vec<u8> = Vec::new();
                bytes.extend_from_slice(vstd::slice::slice_subrange(room.as_slice(), 0, n));
                assert(bytes@ == room@.take(n as int));
                Some(bytes)
            },
            None => None,
        }
    }
}

/// Resampling undoes itself in rate: what is repeated so many times on the way to the codec is kept
/// once of as many on the way back.
pub proof fn resampling_is_symmetric(a: u32, b: u32)
    ensures
        resampler_between(a, b) matches ResamplerConfig::UpSample(n) ==> resampler_between(b, a)
            == ResamplerConfig::DownSample(n),
        resampler_between(a, b) matches ResamplerConfig::DownSample(n) ==> resampler_between(b, a)
            == ResamplerConfig::UpSample(n),
        resampler_between(a, b) == ResamplerConfig::Same <==> a == b,
{
}

} // verus!
