//! The settings with which sound is recorded, encoded and played, and the commands that change
//! them.
use vstd::prelude::*;

verus! {

/// How a sample is held.
#[derive(Clone, Copy, PartialEq, Eq, Structural, Debug)]
pub enum SampleTypes {
    Signed,
    Float,
}

#[derive(Clone, Copy, PartialEq, Eq, Structural, Debug)]
pub enum Bitrate {
    /// As many bits as are available.
    Max,
    /// This many bits per second.
    Bits(i32),
}

/// The range of the bandpass filter of the encoder.
#[derive(Clone, Copy, PartialEq, Eq, Structural, Debug)]
pub enum Bandwidth {
    Auto,
    Narrowband,
    Mediumband,
    Wideband,
    Superwideband,
    Fullband,
}

/// What the encoder is tuned for.
#[derive(Clone, Copy, PartialEq, Eq, Structural, Debug)]
pub enum Application {
    Voip,
    Audio,
}

#[derive(Clone, Copy, PartialEq, Eq, Structural, Debug)]
pub struct StaticArgs {
    pub sample_type: SampleTypes,
    pub bit_rate: Bitrate,
    pub sample_rate: u32,
    pub frame_size: usize,
    pub bandwidth: Bandwidth,
    pub application: Application,
    pub audio_duration_secs: usize,
}

/// A command of the user.
#[allow(inconsistent_fields)]
pub enum Cli {
    SampleType { sample_type: SampleTypes },
    BitRate { rate: i32 },
    SampleRate { rate: u32 },
    FrameSize { frame_size: usize },
    Bandwidth { bandwidth: i32 },
    Application { application: i32 },
    Record { file_name: String },
    Encode { input_file_name: String, output_file_name: String },
    CustomEncode { decoded_sample_rate: u32, input_file_name: String, output_file_name: String },
    Play { file_name: String },
    ShowConfig,
    Feedback,
}

/// Why a command is refused.
#[derive(Clone, Copy, PartialEq, Eq, Structural, Debug)]
pub enum CommandError {
    BitRate,
    SampleRate,
    FrameSize,
    Bandwidth,
    Application,
}

impl CommandError {
    pub open spec fn spec_text(self) -> Seq<char> {
        match self {
            CommandError::BitRate => "invalid bit rate"@,
            CommandError::SampleRate => "invalid sample rate"@,
            CommandError::FrameSize => "invalid frame size"@,
            CommandError::Bandwidth => "invalid bandwidth"@,
            CommandError::Application => "invalid application"@,
        }
    }

    pub fn text(self) -> (r: &'static str)
        ensures
            r@ == self.spec_text(),
    {
        match self {
            CommandError::BitRate => "invalid bit rate",
            CommandError::SampleRate => "invalid sample rate",
            CommandError::FrameSize => "invalid frame size",
            CommandError::Bandwidth => "invalid bandwidth",
            CommandError::Application => "invalid application",
        }
    }
}

/// What is left to do after a command.
pub enum Work {
    Nothing,
    Record { file_name: String },
    Encode { decoded_sample_rate: u32, input_file_name: String, output_file_name: String },
    Play { file_name: String },
    ShowConfig,
    Feedback,
}

/// The sample rates of the encoder.
pub open spec fn is_sample_rate(rate: u32) -> bool {
    rate == 8000 || rate == 12000 || rate == 16000 || rate == 24000 || rate == 48000
}

/// The frame sizes of the encoder.
pub open spec fn is_frame_size(size: usize) -> bool {
    size == 120 || size == 240 || size == 480 || size == 960 || size == 1920 || size == 2880
}

/// The bit rates of the encoder.
pub open spec fn is_bit_rate(rate: i32) -> bool {
    500 <= rate <= 512000
}

/// The bandwidth that a number stands for.
pub open spec fn bandwidth_of(number: i32) -> Option<Bandwidth> {
    if number == 1101 {
        Some(Bandwidth::Narrowband)
    } else if number == 1102 {
        Some(Bandwidth::Mediumband)
    } else if number == 1103 {
        Some(Bandwidth::Wideband)
    } else if number == 1104 {
        Some(Bandwidth::Superwideband)
    } else if number == 1105 {
        Some(Bandwidth::Fullband)
    } else {
        None
    }
}

/// The application that a number stands for.
pub open spec fn application_of(number: i32) -> Option<Application> {
    if number == 2048 {
        Some(Application::Voip)
    } else if number == 2049 {
        Some(Application::Audio)
    } else {
        None
    }
}

/// Why a command is refused.
pub open spec fn command_refusal(command: Cli) -> Option<CommandError> {
    match command {
        Cli::BitRate { rate } => if is_bit_rate(rate) {
            None
        } else {
            Some(CommandError::BitRate)
        },
        Cli::SampleRate { rate } => if is_sample_rate(rate) {
            None
        } else {
            Some(CommandError::SampleRate)
        },
        Cli::FrameSize { frame_size } => if is_frame_size(frame_size) {
            None
        } else {
            Some(CommandError::FrameSize)
        },
        Cli::Bandwidth { bandwidth } => if bandwidth_of(bandwidth) is Some {
            None
        } else {
            Some(CommandError::Bandwidth)
        },
        Cli::Application { application } => if application_of(application) is Some {
            None
        } else {
            Some(CommandError::Application)
        },
        _ => None,
    }
}

/// The settings after a command that is not refused.
pub open spec fn settings_after(args: StaticArgs, command: Cli) -> StaticArgs {
    match command {
        Cli::SampleType { sample_type } => StaticArgs { sample_type, ..args },
        Cli::BitRate { rate } => StaticArgs { bit_rate: Bitrate::Bits(rate), ..args },
        Cli::SampleRate { rate } => StaticArgs { sample_rate: rate, ..args },
        Cli::FrameSize { frame_size } => StaticArgs { frame_size, ..args },
        Cli::Bandwidth { bandwidth } => StaticArgs {
            bandwidth: bandwidth_of(bandwidth)->Some_0,
            ..args
        },
        Cli::Application { application } => StaticArgs {
            application: application_of(application)->Some_0,
            ..args
        },
        _ => args,
    }
}

/// What is left to do after a command that is not refused.
pub open spec fn work_of(args: StaticArgs, command: Cli) -> Work {
    match command {
        Cli::Record { file_name } => Work::Record { file_name },
        Cli::Encode { input_file_name, output_file_name } => Work::Encode {
            decoded_sample_rate: args.sample_rate,
            input_file_name,
            output_file_name,
        },
        Cli::CustomEncode { decoded_sample_rate, input_file_name, output_file_name } => Work::Encode {
            decoded_sample_rate,
            input_file_name,
            output_file_name,
        },
        Cli::Play { file_name } => Work::Play { file_name },
        Cli::ShowConfig => Work::ShowConfig,
        Cli::Feedback => Work::Feedback,
        _ => Work::Nothing,
    }
}

/// Whether a command works on samples as the settings have them. Signed samples can be neither
/// recorded, encoded nor played.
pub open spec fn is_workable(args: StaticArgs, command: Cli) -> bool {
    args.sample_type is Float || !(command is Record || command is Encode || command is Play)
}

/// What `StaticArgs::handle_command` does.
pub open spec fn handle_command_post(
    before: StaticArgs,
    after: StaticArgs,
    r: Result<Work, CommandError>,
    command: Cli,
) -> bool {
    match command_refusal(command) {
        Some(e) => r == Err::<Work, CommandError>(e) && after == before,
        None => {
            &&& after == settings_after(before, command)
            &&& r == Ok::<Work, CommandError>(work_of(before, command))
        },
    }
}

impl Default for StaticArgs {
    fn default() -> (r: StaticArgs)
        ensures
            r == (StaticArgs {
                sample_type: SampleTypes::Float,
                bit_rate: Bitrate::Max,
                sample_rate: 8000,
                frame_size: 240,
                bandwidth: Bandwidth::Fullband,
                application: Application::Voip,
                audio_duration_secs: 10,
            }),
            r.well_formed(),
    {
        StaticArgs {
            sample_type: SampleTypes::Float,
            bit_rate: Bitrate::Max,
            sample_rate: 8000,
            frame_size: 240,
            bandwidth: Bandwidth::Fullband,
            application: Application::Voip,
            audio_duration_secs: 10,
        }
    }
}

impl StaticArgs {
    /// The rates and the frame size are some that the encoder has.
    pub open spec fn well_formed(self) -> bool {
        &&& is_sample_rate(self.sample_rate)
        &&& is_frame_size(self.frame_size)
        &&& self.bit_rate matches Bitrate::Bits(rate) ==> is_bit_rate(rate)
    }

    /// Carries a command out, as far as it changes the settings.
    pub fn handle_command(&mut self, command: Cli) -> (r: Result<Work, CommandError>)
        requires
            is_workable(*old(self), command),
        ensures
            handle_command_post(*old(self), *final(self), r, command),
            old(self).well_formed() ==> final(self).well_formed(),
    {
        match command {
            Cli::SampleType { sample_type } => {
                self.sample_type = sample_type;
                Ok(Work::Nothing)
            },
            Cli::BitRate { rate } => {
                if rate < 500 || rate > 512000 {
                    return Err(CommandError::BitRate);
                }
                self.bit_rate = Bitrate::Bits(rate);
                Ok(Work::Nothing)
            },
            Cli::SampleRate { rate } => {
                match rate {
                    8000 | 12000 | 16000 | 24000 | 48000 => {},
                    _ => return Err(CommandError::SampleRate),
                }
                self.sample_rate = rate;
                Ok(Work::Nothing)
            },
            Cli::FrameSize { frame_size } => {
                match frame_size {
                    120 | 240 | 480 | 960 | 1920 | 2880 => {},
                    _ => return Err(CommandError::FrameSize),
                }
                self.frame_size = frame_size;
                Ok(Work::Nothing)
            },
            Cli::Bandwidth { bandwidth } => {
                self.bandwidth =
                match bandwidth {
                    1101 => Bandwidth::Narrowband,
                    1102 => Bandwidth::Mediumband,
                    1103 => Bandwidth::Wideband,
                    1104 => Bandwidth::Superwideband,
                    1105 => Bandwidth::Fullband,
                    _ => return Err(CommandError::Bandwidth),
                };
                Ok(Work::Nothing)
            },
            Cli::Application { application } => {
                self.application =
                match application {
                    2048 => Application::Voip,
                    2049 => Application::Audio,
                    _ => return Err(CommandError::Application),
                };
                Ok(Work::Nothing)
            },
            Cli::Record { file_name } => Ok(Work::Record { file_name }),
            Cli::Encode { input_file_name, output_file_name } => Ok(
                Work::Encode {
                    decoded_sample_rate: self.sample_rate,
                    input_file_name,
                    output_file_name,
                },
            ),
            Cli::CustomEncode { decoded_sample_rate, input_file_name, output_file_name } => Ok(
                Work::Encode { decoded_sample_rate, input_file_name, output_file_name },
            ),
            Cli::Play { file_name } => Ok(Work::Play { file_name }),
            Cli::ShowConfig => Ok(Work::ShowConfig),
            Cli::Feedback => Ok(Work::Feedback),
        }
    }
}

} // verus!
