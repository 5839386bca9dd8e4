//! What holds of the settings of sound, of its way through rings and frames, and of its recording.
use vstd::prelude::*;
use crate::ids::Did;
use super::controller::{self, Answer, AnswerKind, Cmd, ControlError, Outcome};
use super::framer::{
    self, AudioCodec, ChannelMixerConfig, ChannelMixerOutput, EchoCancellationConfig,
    EchoCancellationIntensity, EchoCancellationStrategy, EchoCancellationSuppressionLevel,
    ResamplerConfig,
};
use super::recording::{self, TrackId};
use super::ring;
use super::settings::{self, Application, Bandwidth, Bitrate, Cli, CommandError, StaticArgs, Work};

verus! {

/// A rate of the bits between 500 and 512000 is set, and nothing else changes. Any other is refused.
pub proof fn bit_rate_is_set(
    before: StaticArgs,
    after: StaticArgs,
    r: Result<Work, CommandError>,
    rate: i32,
)
    requires
        settings::handle_command_post(before, after, r, Cli::BitRate { rate }),
    ensures
        r is Ok <==> rate >= 500 && rate <= 512000,
        r is Err ==> r == Err::<Work, CommandError>(CommandError::BitRate) && after == before,
        r is Ok ==> r->Ok_0 is Nothing && after == (StaticArgs {
            bit_rate: Bitrate::Bits(rate),
            ..before
        }),
{
}

/// A rate of the samples that the encoder has is set, and nothing else changes.
pub proof fn sample_rate_is_set(
    before: StaticArgs,
    after: StaticArgs,
    r: Result<Work, CommandError>,
    rate: u32,
)
    requires
        settings::handle_command_post(before, after, r, Cli::SampleRate { rate }),
    ensures
        r is Ok <==> rate == 8000 || rate == 12000 || rate == 16000 || rate == 24000 || rate
            == 48000,
        r is Err ==> r == Err::<Work, CommandError>(CommandError::SampleRate) && after == before,
        r is Ok ==> r->Ok_0 is Nothing && after == (StaticArgs { sample_rate: rate, ..before }),
{
}

/// A size of the frames that the encoder has is set, and nothing else changes.
pub proof fn frame_size_is_set(
    before: StaticArgs,
    after: StaticArgs,
    r: Result<Work, CommandError>,
    frame_size: usize,
)
    requires
        settings::handle_command_post(before, after, r, Cli::FrameSize { frame_size }),
    ensures
        r is Ok <==> frame_size == 120 || frame_size == 240 || frame_size == 480 || frame_size
            == 960 || frame_size == 1920 || frame_size == 2880,
        r is Err ==> r == Err::<Work, CommandError>(CommandError::FrameSize) && after == before,
        r is Ok ==> r->Ok_0 is Nothing && after == (StaticArgs { frame_size, ..before }),
{
}

/// A bandwidth is set by its number, from 1101 on in order of width. No other number stands for one.
pub proof fn bandwidth_is_set(
    before: StaticArgs,
    after: StaticArgs,
    r: Result<Work, CommandError>,
    bandwidth: i32,
)
    requires
        settings::handle_command_post(before, after, r, Cli::Bandwidth { bandwidth }),
    ensures
        r is Ok <==> 1101 <= bandwidth <= 1105,
        r is Err ==> r == Err::<Work, CommandError>(CommandError::Bandwidth) && after == before,
        r is Ok ==> r->Ok_0 is Nothing && after == (StaticArgs {
            bandwidth: after.bandwidth,
            ..before
        }),
        bandwidth == 1101 ==> after.bandwidth == Bandwidth::Narrowband,
        bandwidth == 1102 ==> after.bandwidth == Bandwidth::Mediumband,
        bandwidth == 1103 ==> after.bandwidth == Bandwidth::Wideband,
        bandwidth == 1104 ==> after.bandwidth == Bandwidth::Superwideband,
        bandwidth == 1105 ==> after.bandwidth == Bandwidth::Fullband,
{
}

/// An application is set by its number. No other number stands for one.
pub proof fn application_is_set(
    before: StaticArgs,
    after: StaticArgs,
    r: Result<Work, CommandError>,
    application: i32,
)
    requires
        settings::handle_command_post(before, after, r, Cli::Application { application }),
    ensures
        r is Ok <==> application == 2048 || application == 2049,
        r is Err ==> r == Err::<Work, CommandError>(CommandError::Application) && after == before,
        r is Ok ==> r->Ok_0 is Nothing && after == (StaticArgs {
            application: after.application,
            ..before
        }),
        application == 2048 ==> after.application == Application::Voip,
        application == 2049 ==> after.application == Application::Audio,
{
}

/// The type of the samples is set as asked for. Work on files is handed on as asked for, with the rate of
/// the settings where none is given, and changes no setting.
pub proof fn other_commands_are_carried_out(
    before: StaticArgs,
    after: StaticArgs,
    r: Result<Work, CommandError>,
    command: Cli,
)
    requires
        settings::handle_command_post(before, after, r, command),
    ensures
        command matches Cli::SampleType { sample_type } ==> (r matches Ok(Work::Nothing)) && after
            == (StaticArgs { sample_type, ..before }),
        command matches Cli::Record { file_name } ==> r == Ok::<Work, CommandError>(
            Work::Record { file_name },
        ) && after == before,
        command matches Cli::Play { file_name } ==> r == Ok::<Work, CommandError>(
            Work::Play { file_name },
        ) && after == before,
        command matches Cli::Encode { input_file_name, output_file_name } ==> r == Ok::<
            Work,
            CommandError,
        >(
            Work::Encode {
                decoded_sample_rate: before.sample_rate,
                input_file_name,
                output_file_name,
            },
        ) && after == before,
        command matches Cli::CustomEncode {
            decoded_sample_rate,
            input_file_name,
            output_file_name,
        } ==> r == Ok::<Work, CommandError>(
            Work::Encode { decoded_sample_rate, input_file_name, output_file_name },
        ) && after == before,
        command is ShowConfig ==> (r matches Ok(Work::ShowConfig)) && after == before,
        command is Feedback ==> (r matches Ok(Work::Feedback)) && after == before,
{
}

/// Samples are repeated, or dropped, as often as the smaller of two rates fits whole into the greater.
pub proof fn resampler_bridges_the_rates(webrtc_rate: u32, source_rate: u32)
    requires
        webrtc_rate > 0,
        source_rate > 0,
    ensures
        webrtc_rate == source_rate <==> framer::resampler_between(webrtc_rate, source_rate) is Same,
        webrtc_rate > source_rate <==> framer::resampler_between(
            webrtc_rate,
            source_rate,
        ) is UpSample,
        framer::resampler_between(webrtc_rate, source_rate) matches ResamplerConfig::UpSample(n)
            ==> n * source_rate <= webrtc_rate < (n + 1) * source_rate,
        framer::resampler_between(webrtc_rate, source_rate) matches ResamplerConfig::DownSample(n)
            ==> n * webrtc_rate <= source_rate < (n + 1) * webrtc_rate,
{
    lemma_whole(webrtc_rate as int, source_rate as int);
    lemma_whole(source_rate as int, webrtc_rate as int);
}

proof fn lemma_whole(a: int, b: int)
    requires
        a >= 0,
        b > 0,
    ensures
        (a / b) * b <= a < (a / b + 1) * b,
{
    vstd::arithmetic::div_mod::lemma_fundamental_div_mod(a, b);
    vstd::arithmetic::div_mod::lemma_mod_bound(a, b);
    assert(b * (a / b) == (a / b) * b) by (nonlinear_arith);
    assert((a / b + 1) * b == (a / b) * b + b) by (nonlinear_arith);
}

/// Channels are merged where the codec has fewer than the source, split where it has more, and else
/// passed on.
pub proof fn mixer_bridges_the_channels(webrtc_channels: u16, source_channels: u16)
    ensures
        framer::mixer_between(webrtc_channels, source_channels) == ChannelMixerConfig::Same
            <==> webrtc_channels == source_channels,
        framer::mixer_between(webrtc_channels, source_channels) == ChannelMixerConfig::Merge
            <==> webrtc_channels < source_channels,
        framer::mixer_between(webrtc_channels, source_channels) == ChannelMixerConfig::Split
            <==> webrtc_channels > source_channels,
{
}

/// The echo is suppressed as strongly as asked for, and processed as its strategy says.
pub proof fn echo_is_cancelled_as_asked(config: EchoCancellationConfig)
    ensures
        config.intensity == EchoCancellationIntensity::Low <==> framer::suppression_of(
            config.intensity,
        ) == EchoCancellationSuppressionLevel::Low,
        config.intensity == EchoCancellationIntensity::Medium <==> framer::suppression_of(
            config.intensity,
        ) == EchoCancellationSuppressionLevel::Moderate,
        config.intensity == EchoCancellationIntensity::High <==> framer::suppression_of(
            config.intensity,
        ) == EchoCancellationSuppressionLevel::High,
        framer::captures(config) <==> config.strategy != EchoCancellationStrategy::Other,
        framer::renders(config) <==> framer::captures(config) && config.strategy
            != EchoCancellationStrategy::Normal,
{
}

/// What came out of the resampler is joined in order.
pub proof fn passes_are_joined_in_order(a: Seq<Vec<u32>>, b: Seq<Vec<u32>>, pass: Vec<u32>)
    ensures
        framer::joined(a + b) == framer::joined(a) + framer::joined(b),
        framer::joined(seq![pass]) == pass@,
    decreases b.len(),
{
    let none = Seq::<Vec<u32>>::empty();
    assert(seq![pass].drop_last() == none);
    assert(framer::joined(none) == Seq::<u32>::empty());
    assert(framer::joined(seq![pass]) == pass@);
    if b.len() == 0 {
        assert(a + b == a);
        assert(framer::joined(a) + framer::joined(b) == framer::joined(a));
    } else {
        passes_are_joined_in_order(a, b.drop_last(), pass);
        assert((a + b).drop_last() == a + b.drop_last());
        assert((a + b).last() == b.last());
        assert(framer::joined(a + b) == framer::joined(a) + framer::joined(b));
    }
}

/// A ring takes what comes in as far as it has room, behind what is there, and loses the rest.
pub proof fn ring_takes_what_fits(samples: Seq<u32>, capacity: nat, data: Seq<u32>)
    requires
        samples.len() <= capacity,
    ensures
        ({
            let after = ring::fed(samples, capacity, data);
            &&& after.len() <= capacity
            &&& after.len() == samples.len() + data.len() || after.len() == capacity
            &&& after == (samples + data).take(after.len() as int)
        }),
{
    let after = ring::fed(samples, capacity, data);
    assert(after == (samples + data).take(after.len() as int));
}

/// What comes in at twice is taken as if it came in at once.
pub proof fn feeding_goes_by_parts(samples: Seq<u32>, capacity: nat, a: Seq<u32>, b: Seq<u32>)
    requires
        samples.len() <= capacity,
    ensures
        ring::fed(ring::fed(samples, capacity, a), capacity, b) == ring::fed(
            samples,
            capacity,
            a + b,
        ),
{
    let first = ring::fed(samples, capacity, a);
    let second = ring::fed(first, capacity, b);
    let once = ring::fed(samples, capacity, a + b);
    assert(second == once);
}

/// What is drawn comes out oldest first and is gone then. Where the ring runs dry, silence follows.
pub proof fn drawing_takes_the_oldest(samples: Seq<u32>, n: nat, i: int)
    ensures
        ring::drawn(samples, n).len() == n,
        0 <= i < n && i < samples.len() ==> ring::drawn(samples, n)[i] == samples[i],
        samples.len() <= i < n ==> ring::drawn(samples, n)[i] == 0,
        n <= samples.len() ==> ring::drawn(samples, n) + ring::undrawn(samples, n) == samples,
        n >= samples.len() ==> ring::undrawn(samples, n).len() == 0,
{
    if n <= samples.len() {
        assert(ring::drawn(samples, n) + ring::undrawn(samples, n) == samples);
    }
}

/// A participant is recorded on the track of its last place among the participants, counted from one, and
/// nobody else is recorded.
pub proof fn participant_has_the_track_of_its_place(participants: Seq<Did>, did: Did, i: int)
    ensures
        0 <= i < participants.len() && participants[i] == did && (forall|j: int|
            i < j < participants.len() ==> #[trigger] participants[j] != did)
            ==> recording::track_of(participants, did) == Some(i + 1),
        !participants.contains(did) ==> recording::track_of(participants, did) is None,
    decreases participants.len(),
{
    if participants.len() > 0 {
        let head = participants.drop_last();
        let last = participants.len() - 1;
        participant_has_the_track_of_its_place(head, did, i);
        if 0 <= i < last && participants[i] == did && forall|j: int|
            i < j < participants.len() ==> #[trigger] participants[j] != did {
            assert(participants[last] != did);
            assert forall|j: int| i < j < head.len() implies #[trigger] head[j] != did by {
                assert(participants[j] != did);
            }
        }
        if !participants.contains(did) {
            assert(participants[last] != did);
            if head.contains(did) {
                let j = choose|j: int| 0 <= j < head.len() && head[j] == did;
                assert(participants[j] == did);
            }
        }
    }
}

/// The track that is listed for a participant is the one that stands beside it.
pub proof fn listed_track_stands_beside(tracks: Seq<TrackId>, did: Did, i: int)
    requires
        recording::distinct_tracks(tracks),
    ensures
        0 <= i < tracks.len() && tracks[i].did == did ==> recording::listed_track(tracks, did)
            == Some(tracks[i].track_id as int),
        (forall|j: int| 0 <= j < tracks.len() ==> (#[trigger] tracks[j]).did != did)
            ==> recording::listed_track(tracks, did) is None,
    decreases tracks.len(),
{
    if tracks.len() > 0 {
        let head = tracks.drop_last();
        let last = tracks.len() - 1;
        assert forall|a: int, b: int| 0 <= a < b < head.len() implies (#[trigger] head[a]).did != (
        #[trigger] head[b]).did by {
            assert(tracks[a].did != tracks[b].did);
        }
        listed_track_stands_beside(head, did, i);
        if 0 <= i < last && tracks[i].did == did {
            assert(tracks[i].did != tracks[last].did);
            assert(head[i] == tracks[i]);
        }
        if forall|j: int| 0 <= j < tracks.len() ==> (#[trigger] tracks[j]).did != did {
            assert(tracks[last].did != did);
            assert forall|j: int| 0 <= j < head.len() implies (#[trigger] head[j]).did != did by {
                assert(tracks[j].did != did);
            }
        }
    }
}

/// The number for the next track is the least that is greater than all that are in use, and at least one.
pub proof fn next_track_is_the_least_free(tracks: Seq<TrackId>, bound: int)
    requires
        bound >= 1,
        forall|i: int| 0 <= i < tracks.len() ==> (#[trigger] tracks[i]).track_id < bound,
    ensures
        1 <= recording::next_track(tracks) <= bound,
    decreases tracks.len(),
{
    if tracks.len() > 0 {
        let head = tracks.drop_last();
        assert forall|i: int| 0 <= i < head.len() implies (#[trigger] head[i]).track_id < bound by {
            assert(tracks[i] == head[i]);
        }
        next_track_is_the_least_free(head, bound);
        assert(tracks[tracks.len() - 1].track_id < bound);
    }
}

/// The header of a track says what its codec is: how many channels it has, whether that is two, and at
/// what rate it was sampled. Time is counted in hundredths of a second.
pub proof fn track_header_says_the_codec(track_id: u32, codec: AudioCodec)
    ensures
        ({
            let header = recording::track_header(track_id, codec);
            &&& header.track_id == track_id
            &&& header.channelcount == codec.channels
            &&& header.stereo <==> codec.channels == 2
            &&& header.input_sample_rate == codec.sample_rate
            &&& codec.sample_rate < 65536 ==> header.samplerate == codec.sample_rate
            &&& header.samplesize == 16
            &&& header.timescale == 100
            &&& header.flags == 3
            &&& header.default_sample_duration == 1
        }),
{
}

/// Commands that ask are answered with what they ask for, those that may fail with whether they did, and
/// the others not at all.
pub proof fn command_is_answered_in_its_kind<L, R, D, H, C>(cmd: Cmd<L, R, D, H, C>)
    ensures
        cmd is GetInputDeviceName || cmd is GetOutputDeviceName <==> cmd.spec_answer_kind()
            == AnswerKind::Name,
        cmd is HasAudioSource <==> cmd.spec_answer_kind() == AnswerKind::Flag,
        cmd is GetAudioSourceConfig || cmd is GetAudioSinkConfig <==> cmd.spec_answer_kind()
            == AnswerKind::Settings,
        cmd is GetAudioDeviceConfig <==> cmd.spec_answer_kind() == AnswerKind::Devices,
        cmd is CreateAudioSourceTrack <==> cmd.spec_answer_kind() == AnswerKind::OwnResult,
        cmd is CreateAudioSinkTrack || cmd is ChangeAudioInput || cmd is ChangeAudioOutput
            || cmd is InitRecording || cmd is SetPeerAudioGain <==> cmd.spec_answer_kind()
            == AnswerKind::TextResult,
{
}

/// What a command is answered is what came of it.
pub proof fn answer_is_what_came_of_it<H, G>(kind: AnswerKind, outcome: Outcome<H, G>)
    requires
        kind != AnswerKind::Unanswered,
    ensures
        controller::spec_answer(kind, outcome) is Some,
        outcome matches Outcome::Name(name) ==> controller::spec_answer(kind, outcome)->Some_0
            == Answer::<H, G>::Name(name),
        outcome matches Outcome::Flag(flag) ==> controller::spec_answer(kind, outcome)->Some_0
            == Answer::<H, G>::Flag(flag),
        outcome matches Outcome::Settings(h) ==> controller::spec_answer(kind, outcome)->Some_0
            == Answer::<H, G>::Settings(h),
        outcome matches Outcome::Devices(g) ==> controller::spec_answer(kind, outcome)->Some_0
            == Answer::<H, G>::Devices(g),
        outcome is Done ==> controller::spec_answer(kind, outcome)->Some_0 == Answer::<
            H,
            G,
        >::Done(Ok(())),
        outcome matches Outcome::Refused(e) ==> controller::spec_answer(kind, outcome)->Some_0
            == Answer::<H, G>::Done(Err(ControlError::Own(e))),
        outcome matches Outcome::Failed(text) ==> controller::spec_answer(kind, outcome)->Some_0
            == Answer::<H, G>::Done(Err(ControlError::OtherWithContext(text))),
{
}

/// A sample that is passed on goes through the resampler once, one that is split twice, and one that is
/// held back not at all.
pub proof fn sample_goes_through_the_resampler(sample: u32)
    ensures
        framer::resampled_inputs(ChannelMixerOutput::Single(sample)) == seq![sample],
        framer::resampled_inputs(ChannelMixerOutput::Split(sample)) == seq![sample] + seq![sample],
        framer::resampled_inputs(ChannelMixerOutput::Withheld).len() == 0,
{
    assert(framer::resampled_inputs(ChannelMixerOutput::Split(sample)) == seq![sample]
        + seq![sample]);
}

/// Participants who are each named once have their tracks in the order in which they are named, from one
/// on.
pub proof fn tracks_are_counted_in_order(participants: Seq<Did>, i: int)
    requires
        participants.len() < u32::MAX,
        0 <= i < participants.len(),
    ensures
        recording::tracks_in_order(participants).len() == participants.len(),
        recording::tracks_in_order(participants)[i].did == participants[i],
        recording::tracks_in_order(participants)[i].track_id == i + 1,
{
}

/// Work that is not answered may have any outcome, and a result is either that the work is done or why
/// it is not.
pub proof fn outcome_fits_its_answer<H, G>(outcome: Outcome<H, G>)
    ensures
        controller::is_possible(AnswerKind::Unanswered, outcome),
        controller::is_possible(AnswerKind::OwnResult, Outcome::<H, G>::Done),
        controller::is_possible(AnswerKind::TextResult, Outcome::<H, G>::Done),
        controller::is_possible(AnswerKind::OwnResult, outcome) ==> outcome is Done || outcome
            is Refused,
        controller::is_possible(AnswerKind::TextResult, outcome) ==> outcome is Done || outcome
            is Failed,
{
}

/// A device has the name that it has, and one whose name is unknown has none.
pub proof fn device_goes_by_its_name(device: Option<String>, name: Seq<char>)
    ensures
        device is None ==> !framer::is_named(device, name),
        device is Some ==> (framer::is_named(device, name) <==> device->Some_0@ == name),
{
}

} // verus!
