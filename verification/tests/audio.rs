use warp::audio::controller::{answer, Answer, AnswerKind, Cmd, ControlError, Outcome};
use warp::audio::framer::{
    check_track, find_device, resampler_inputs, AudioCodec, ChannelMixerConfig,
    ChannelMixerOutput, EchoCancellationConfig, EchoCancellationIntensity,
    EchoCancellationStrategy, EchoCancellationSuppressionLevel, Framer, MimeType, ResamplerConfig,
    TrackError,
};
use warp::audio::recording::{
    assign_tracks, fragment_step, get_audio_logger, mp4_header, FragmentStep, LoggerError,
    Mp4Logger,
};
use warp::audio::ring::{latency_samples, FrameBuffer, Ring};
use warp::audio::settings::{
    Application, Bandwidth, Bitrate, Cli, CommandError, SampleTypes, StaticArgs, Work,
};
use warp::error::Error;
use warp::ids::Did;

fn did(n: u128) -> Did {
    Did { hi: 0, lo: n }
}

const OPUS: AudioCodec = AudioCodec { mime: MimeType::OPUS, sample_rate: 48000, channels: 1 };

#[test]
fn settings_begin_with_defaults() {
    let args = StaticArgs::default();
    assert_eq!(args.sample_type, SampleTypes::Float);
    assert_eq!(args.bit_rate, Bitrate::Max);
    assert_eq!(args.sample_rate, 8000);
    assert_eq!(args.frame_size, 240);
    assert_eq!(args.bandwidth, Bandwidth::Fullband);
    assert_eq!(args.application, Application::Voip);
    assert_eq!(args.audio_duration_secs, 10);
}

#[test]
fn settings_are_changed() {
    let mut args = StaticArgs::default();
    assert!(matches!(args.handle_command(Cli::BitRate { rate: 500 }), Ok(Work::Nothing)));
    assert_eq!(args.bit_rate, Bitrate::Bits(500));
    for rate in [8000, 12000, 16000, 24000, 48000] {
        assert!(args.handle_command(Cli::SampleRate { rate }).is_ok());
        assert_eq!(args.sample_rate, rate);
    }
    assert!(args.handle_command(Cli::FrameSize { frame_size: 960 }).is_ok());
    for (bandwidth, expected) in [
        (1101, Bandwidth::Narrowband),
        (1102, Bandwidth::Mediumband),
        (1103, Bandwidth::Wideband),
        (1104, Bandwidth::Superwideband),
        (1105, Bandwidth::Fullband),
    ] {
        assert!(args.handle_command(Cli::Bandwidth { bandwidth }).is_ok());
        assert_eq!(args.bandwidth, expected);
    }
    assert!(args.handle_command(Cli::Application { application: 2049 }).is_ok());
    assert_eq!(args.application, Application::Audio);
    assert!(args
        .handle_command(Cli::SampleType { sample_type: SampleTypes::Signed })
        .is_ok());
    assert_eq!(args.sample_type, SampleTypes::Signed);
}

#[test]
fn settings_are_refused() {
    let mut args = StaticArgs::default();
    let refused = [
        (Cli::BitRate { rate: 499 }, CommandError::BitRate, "invalid bit rate"),
        (Cli::BitRate { rate: 512001 }, CommandError::BitRate, "invalid bit rate"),
        (Cli::SampleRate { rate: 44100 }, CommandError::SampleRate, "invalid sample rate"),
        (Cli::FrameSize { frame_size: 100 }, CommandError::FrameSize, "invalid frame size"),
        (Cli::Bandwidth { bandwidth: 1106 }, CommandError::Bandwidth, "invalid bandwidth"),
        (Cli::Bandwidth { bandwidth: -1000 }, CommandError::Bandwidth, "invalid bandwidth"),
        (Cli::Application { application: 1 }, CommandError::Application, "invalid application"),
    ];
    for (command, error, text) in refused {
        assert_eq!(args.handle_command(command).err(), Some(error));
        assert_eq!(error.text(), text);
    }
    assert_eq!(args, StaticArgs::default());
}

#[test]
fn commands_name_their_work() {
    let mut args = StaticArgs::default();
    let work = args
        .handle_command(Cli::Encode {
            input_file_name: "a".to_string(),
            output_file_name: "b".to_string(),
        })
        .unwrap();
    assert!(matches!(work, Work::Encode { decoded_sample_rate: 8000, .. }));
    let work = args.handle_command(Cli::Play { file_name: "a".to_string() }).unwrap();
    assert!(matches!(work, Work::Play { file_name } if file_name == "a"));
    assert!(matches!(args.handle_command(Cli::ShowConfig), Ok(Work::ShowConfig)));
    assert!(matches!(args.handle_command(Cli::Feedback), Ok(Work::Feedback)));
}

#[test]
fn tracks_are_checked() {
    let vp8 = AudioCodec { mime: MimeType::VP8, ..OPUS };
    let invalid = AudioCodec { mime: MimeType::Invalid, ..OPUS };
    assert_eq!(check_track(&OPUS, &OPUS), Ok(()));
    assert_eq!(check_track(&OPUS, &vp8), Err(TrackError::Mismatch));
    assert_eq!(check_track(&vp8, &vp8), Err(TrackError::Unhandled(MimeType::VP8)));
    assert_eq!(check_track(&invalid, &invalid), Err(TrackError::Invalid));
}

#[test]
fn devices_are_found_by_name() {
    let devices = vec![None, Some("a".to_string()), Some("b".to_string()), Some("b".to_string())];
    assert_eq!(find_device(&devices, "b"), Some(2));
    assert_eq!(find_device(&devices, "c"), None);
}

#[test]
fn framer_is_planned() {
    let stereo = AudioCodec { sample_rate: 24000, channels: 2, ..OPUS };
    let config = EchoCancellationConfig {
        intensity: EchoCancellationIntensity::Medium,
        strategy: EchoCancellationStrategy::DoubleMax,
    };
    let framer = Framer::init(480, &OPUS, &stereo, Some(config));
    assert_eq!(framer.plan.resampler, ResamplerConfig::UpSample(2));
    assert_eq!(framer.plan.channel_mixer, ChannelMixerConfig::Merge);
    assert_eq!(framer.plan.suppression, Some(EchoCancellationSuppressionLevel::Moderate));
    let framer = Framer::init(480, &stereo, &OPUS, None);
    assert_eq!(framer.plan.resampler, ResamplerConfig::DownSample(2));
    assert_eq!(framer.plan.channel_mixer, ChannelMixerConfig::Split);
    let framer = Framer::init(480, &OPUS, &OPUS, None);
    assert_eq!(framer.plan.resampler, ResamplerConfig::Same);
    assert_eq!(framer.plan.channel_mixer, ChannelMixerConfig::Same);
}

#[test]
fn frames_are_gathered() {
    let mut framer = Framer::init(2, &OPUS, &OPUS, None);
    let single = ChannelMixerOutput::Single(1);
    assert_eq!(resampler_inputs(single), vec![1]);
    assert!(framer.frame(single, &vec![vec![1]]).is_none());
    assert!(framer.frame(ChannelMixerOutput::Withheld, &vec![]).is_none());
    let steps = framer.frame(ChannelMixerOutput::Single(2), &vec![vec![2]]).unwrap();
    assert!(!steps.capture && !steps.render);
    assert_eq!(framer.encoded(Some(3), &vec![7, 8, 9, 10]), Some(vec![7, 8, 9]));
    assert!(framer.raw_samples.is_empty());
    assert_eq!(framer.encoded(None, &vec![7]), None);
}

#[test]
fn split_samples_are_resampled_twice() {
    let stereo = AudioCodec { channels: 2, ..OPUS };
    let mut framer = Framer::init(2, &stereo, &OPUS, None);
    let split = ChannelMixerOutput::Split(7);
    assert_eq!(resampler_inputs(split), vec![7, 7]);
    assert!(framer.frame(split, &vec![vec![7], vec![8]]).is_none());
    assert_eq!(framer.raw_samples, vec![7, 8]);
    assert!(framer.frame(split, &vec![vec![9], vec![10]]).is_some());
    assert_eq!(framer.raw_samples, vec![7, 8, 9, 10]);
    assert!(resampler_inputs(ChannelMixerOutput::Withheld).is_empty());
}

#[test]
fn tracks_of_a_recording() {
    let tracks = assign_tracks(&vec![did(5), did(6)]);
    assert_eq!((tracks[0].did, tracks[0].track_id), (did(5), 1));
    assert_eq!((tracks[1].did, tracks[1].track_id), (did(6), 2));
    let header = mp4_header(&OPUS, &tracks);
    assert_eq!(header.next_track_id, 3);
    assert_eq!(header.timescale, 100);
    assert_eq!(header.tracks.len(), 2);
    assert_eq!(header.tracks[1].track_id, 2);
    assert_eq!(header.tracks[0].samplerate, 48000);
    assert_eq!(header.tracks[0].handler_type.to_be_bytes(), *b"soun");
    assert!(!header.tracks[0].stereo);
    let same = assign_tracks(&vec![did(5), did(5)]);
    assert_eq!(same.len(), 1);
    assert_eq!(same[0].track_id, 2);
    assert_eq!(mp4_header(&OPUS, &same).next_track_id, 3);
    let twice = assign_tracks(&vec![did(5), did(6), did(5)]);
    assert_eq!(mp4_header(&OPUS, &twice).next_track_id, 4);
    assert_eq!(mp4_header(&OPUS, &vec![]).next_track_id, 1);
}

#[test]
fn loggers_of_a_recording() {
    assert_eq!(get_audio_logger(&None, did(5)), Err(LoggerError::NoInstance));
    let logger = Some(Mp4Logger::new(OPUS, &vec![did(5), did(6)]));
    assert_eq!(get_audio_logger(&logger, did(6)), Ok(2));
    assert_eq!(get_audio_logger(&logger, did(7)), Err(LoggerError::NoTrack));
    let vp8 = AudioCodec { mime: MimeType::VP8, ..OPUS };
    let logger = Some(Mp4Logger::new(vp8, &vec![did(5)]));
    assert_eq!(get_audio_logger(&logger, did(5)), Err(LoggerError::UnsupportedCodec));
}

#[test]
fn fragments_are_written() {
    assert_eq!(fragment_step(true, 10, true), FragmentStep::Stop);
    assert_eq!(fragment_step(false, 0, true), FragmentStep::Skip);
    assert_eq!(fragment_step(false, 10, false), FragmentStep::Skip);
    assert_eq!(fragment_step(false, 10, true), FragmentStep::Write { mdat_size: 18 });
}

#[test]
fn samples_pass_in_order() {
    assert_eq!(latency_samples(48000), 48000);
    let mut ring = Ring::with_latency(8);
    assert_eq!(ring.draw(8), (vec![0; 8], false));
    assert!(!ring.feed(&vec![1, 2, 3]));
    assert_eq!(ring.draw(2), (vec![1, 2], false));
    assert_eq!(ring.draw(2), (vec![3, 0], true));
    let many: Vec<u32> = (0..20).collect();
    assert!(ring.feed(&many));
    let (drawn, short) = ring.draw(16);
    assert_eq!(drawn, (0..16).collect::<Vec<u32>>());
    assert!(!short);
}

#[test]
fn echo_rings_are_empty() {
    let mut ring = Ring::for_echo();
    assert_eq!(ring.draw(1), (vec![0], true));
    let mut ring = Ring::for_processed_echo();
    ring.feed(&vec![4]);
    let _ = ring.draw(1);
}

#[test]
fn samples_are_processed_in_frames() {
    let mut buffer = FrameBuffer::new();
    for i in 0..479 {
        assert_eq!(buffer.push(i), None);
    }
    assert_eq!(buffer.push(479), Some((0..480).collect::<Vec<u32>>()));
    assert_eq!(buffer.push(1), None);
}

type Plain = Cmd<(), (), (), (), ()>;

#[test]
fn commands_are_answered() {
    let kind = Plain::GetInputDeviceName.answer_kind();
    let reply = answer::<(), ()>(kind, Outcome::Name(Some("a".to_string())));
    assert!(matches!(reply, Some(Answer::Name(Some(name))) if name == "a"));
    let kind = Plain::MuteSelf.answer_kind();
    assert_eq!(kind, AnswerKind::Unanswered);
    assert!(answer::<(), ()>(kind, Outcome::Failed("no".to_string())).is_none());
    let kind =
        Plain::CreateAudioSourceTrack { own_id: did(1), track: (), webrtc_codec: OPUS }.answer_kind();
    let reply = answer::<(), ()>(kind, Outcome::Refused(Error::Other));
    assert!(matches!(reply, Some(Answer::Done(Err(ControlError::Own(Error::Other))))));
    let kind = Plain::SetPeerAudioGain { peer_id: did(1), multiplier: 0 }.answer_kind();
    let reply = answer::<(), ()>(kind, Outcome::Failed("no".to_string()));
    assert!(matches!(
        reply,
        Some(Answer::Done(Err(ControlError::OtherWithContext(text)))) if text == "no"
    ));
    assert!(matches!(answer::<(), ()>(kind, Outcome::Done), Some(Answer::Done(Ok(())))));
}
