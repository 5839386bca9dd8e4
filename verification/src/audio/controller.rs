//! The controller of the sound of a call: what each command has the hardware do, and what it is
//! answered.
use vstd::prelude::*;
use crate::error::Error;
use crate::ids::Did;
use super::framer::AudioCodec;

verus! {

/// A command to the controller. `L` and `R` are tracks of the own and of other sides, `D` a device,
/// `H` the settings of a device and `C` those of a recording.
#[allow(inconsistent_fields)]
pub enum Cmd<L, R, D, H, C> {
    GetInputDeviceName,
    GetOutputDeviceName,
    Reset,
    HasAudioSource,
    CreateAudioSourceTrack { own_id: Did, track: L, webrtc_codec: AudioCodec },
    RemoveAudioSourceTrack,
    CreateAudioSinkTrack { peer_id: Did, track: R, webrtc_codec: AudioCodec },
    RemoveSinkTrack { peer_id: Did },
    ChangeAudioInput { device: D },
    SetAudioSourceConfig { source_config: H },
    GetAudioSourceConfig,
    ChangeAudioOutput { device: D },
    SetAudioSinkConfig { sink_config: H },
    GetAudioSinkConfig,
    GetAudioDeviceConfig,
    MuteSelf,
    UnmuteSelf,
    Deafen,
    Undeafen,
    InitRecording { config: C },
    PauseRecording,
    ResumeRecording,
    /// The multiplier as the bits of a number of single precision.
    SetPeerAudioGain { peer_id: Did, multiplier: u32 },
}

/// What comes of the work of a command. `H` are the settings of a device and `G` those of all.
pub enum Outcome<H, G> {
    Name(Option<String>),
    Flag(bool),
    Settings(H),
    Devices(G),
    Done,
    /// It failed with an error of the library.
    Refused(Error),
    /// It failed with an error of another kind, which this text describes.
    Failed(String),
}

/// The sort of what a command is answered.
#[derive(Clone, Copy, PartialEq, Eq, Structural, Debug)]
pub enum AnswerKind {
    /// Nothing: a failure is noted and dropped.
    Unanswered,
    Name,
    Flag,
    Settings,
    Devices,
    /// Whether it went well. An error of the library is handed on.
    OwnResult,
    /// Whether it went well. An error is handed on as the text that describes it.
    TextResult,
}

/// What a command is answered. The error of `Done` is one of the library or a text.
pub enum Answer<H, G> {
    Name(Option<String>),
    Flag(bool),
    Settings(H),
    Devices(G),
    Done(Result<(), ControlError>),
}

/// An error of the library, or one of another kind with the text that describes it.
pub enum ControlError {
    Own(Error),
    OtherWithContext(String),
}

impl<L, R, D, H, C> Cmd<L, R, D, H, C> {
    /// The sort of what the command is answered.
    pub open spec fn spec_answer_kind(self) -> AnswerKind {
        match self {
            Cmd::GetInputDeviceName => AnswerKind::Name,
            Cmd::GetOutputDeviceName => AnswerKind::Name,
            Cmd::HasAudioSource => AnswerKind::Flag,
            Cmd::GetAudioSourceConfig => AnswerKind::Settings,
            Cmd::GetAudioSinkConfig => AnswerKind::Settings,
            Cmd::GetAudioDeviceConfig => AnswerKind::Devices,
            Cmd::CreateAudioSourceTrack { .. } => AnswerKind::OwnResult,
            Cmd::CreateAudioSinkTrack { .. } => AnswerKind::TextResult,
            Cmd::ChangeAudioInput { .. } => AnswerKind::TextResult,
            Cmd::ChangeAudioOutput { .. } => AnswerKind::TextResult,
            Cmd::InitRecording { .. } => AnswerKind::TextResult,
            Cmd::SetPeerAudioGain { .. } => AnswerKind::TextResult,
            _ => AnswerKind::Unanswered,
        }
    }

    pub fn answer_kind(&self) -> (r: AnswerKind)
        ensures
            r == self.spec_answer_kind(),
    {
        match self {
            Cmd::GetInputDeviceName => AnswerKind::Name,
            Cmd::GetOutputDeviceName => AnswerKind::Name,
            Cmd::HasAudioSource => AnswerKind::Flag,
            Cmd::GetAudioSourceConfig => AnswerKind::Settings,
            Cmd::GetAudioSinkConfig => AnswerKind::Settings,
            Cmd::GetAudioDeviceConfig => AnswerKind::Devices,
            Cmd::CreateAudioSourceTrack { .. } => AnswerKind::OwnResult,
            Cmd::CreateAudioSinkTrack { .. } => AnswerKind::TextResult,
            Cmd::ChangeAudioInput { .. } => AnswerKind::TextResult,
            Cmd::ChangeAudioOutput { .. } => AnswerKind::TextResult,
            Cmd::InitRecording { .. } => AnswerKind::TextResult,
            Cmd::SetPeerAudioGain { .. } => AnswerKind::TextResult,
            _ => AnswerKind::Unanswered,
        }
    }
}

/// Whether an outcome is one that work with such an answer can have.
pub open spec fn is_possible<H, G>(kind: AnswerKind, outcome: Outcome<H, G>) -> bool {
    match kind {
        AnswerKind::Unanswered => true,
        AnswerKind::Name => outcome is Name,
        AnswerKind::Flag => outcome is Flag,
        AnswerKind::Settings => outcome is Settings,
        AnswerKind::Devices => outcome is Devices,
        AnswerKind::OwnResult => outcome is Done || outcome is Refused,
        AnswerKind::TextResult => outcome is Done || outcome is Failed,
    }
}

/// What a command is answered once its work is done.
pub open spec fn spec_answer<H, G>(kind: AnswerKind, outcome: Outcome<H, G>) -> Option<
    Answer<H, G>,
> {
    if kind == AnswerKind::Unanswered {
        None
    } else {
        Some(
            match outcome {
                Outcome::Name(name) => Answer::Name(name),
                Outcome::Flag(flag) => Answer::Flag(flag),
                Outcome::Settings(settings) => Answer::Settings(settings),
                Outcome::Devices(devices) => Answer::Devices(devices),
                Outcome::Done => Answer::Done(Ok(())),
                Outcome::Refused(e) => Answer::Done(Err(ControlError::Own(e))),
                Outcome::Failed(text) => Answer::Done(Err(ControlError::OtherWithContext(text))),
            },
        )
    }
}

/// What a command is answered once its work is done: nothing, or what came of it.
pub fn answer<H, G>(kind: AnswerKind, outcome: Outcome<H, G>) -> (r: Option<Answer<H, G>>)
    requires
        is_possible(kind, outcome),
    ensures
        r == spec_answer(kind, outcome),
{
    if kind == AnswerKind::Unanswered {
        return None;
    }
    Some(
        match outcome {
            Outcome::Name(name) => Answer::Name(name),
            Outcome::Flag(flag) => Answer::Flag(flag),
            Outcome::Settings(settings) => Answer::Settings(settings),
            Outcome::Devices(devices) => Answer::Devices(devices),
            Outcome::Done => Answer::Done(Ok(())),
            Outcome::Refused(e) => Answer::Done(Err(ControlError::Own(e))),
            Outcome::Failed(text) => Answer::Done(Err(ControlError::OtherWithContext(text))),
        },
    )
}

/// A command is answered in the way that it waits for, and a failure reaches whoever waits for it.
pub proof fn answers_fit_commands<L, R, D, H, C, G>(
    cmd: Cmd<L, R, D, H, C>,
    outcome: Outcome<H, G>,
)
    requires
        is_possible(cmd.spec_answer_kind(), outcome),
    ensures
        cmd.spec_answer_kind() == AnswerKind::Unanswered <==> spec_answer(
            cmd.spec_answer_kind(),
            outcome,
        ) is None,
        cmd.spec_answer_kind() == AnswerKind::Name ==> spec_answer(
            cmd.spec_answer_kind(),
            outcome,
        )->Some_0 is Name,
        cmd is CreateAudioSourceTrack && outcome is Refused ==> spec_answer(
            cmd.spec_answer_kind(),
            outcome,
        ) == Some(Answer::<H, G>::Done(Err(ControlError::Own(outcome->Refused_0)))),
        cmd.spec_answer_kind() == AnswerKind::TextResult && outcome is Failed ==> spec_answer(
            cmd.spec_answer_kind(),
            outcome,
        ) == Some(
            Answer::<H, G>::Done(Err(ControlError::OtherWithContext(outcome->Failed_0))),
        ),
{
}

} // verus!
