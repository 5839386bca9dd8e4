//! The recording of a call: a fragmented MP4 file with one track of sound for each participant.
use vstd::prelude::*;
use crate::ids::Did;
use super::framer::{AudioCodec, MimeType};

verus! {

/// The number of the first track.
pub const FIRST_TRACK: u32 = 1;

/// The units of time in a second.
pub const TIMESCALE: u32 = 100;

/// A participant with its track.
#[derive(Clone, Copy, PartialEq, Eq, Structural, Debug)]
pub struct TrackId {
    pub did: Did,
    pub track_id: u32,
}

/// The track of a participant. One who is named more than once has the track of the last place.
pub open spec fn track_of(participants: Seq<Did>, did: Did) -> Option<int>
    decreases participants.len(),
{
    if participants.len() == 0 {
        None
    } else if participants.last() == did {
        Some(participants.len() as int)
    } else {
        track_of(participants.drop_last(), did)
    }
}

/// The track that a list gives to a participant.
pub open spec fn listed_track(tracks: Seq<TrackId>, did: Did) -> Option<int>
    decreases tracks.len(),
{
    if tracks.len() == 0 {
        None
    } else if tracks.last().did == did {
        Some(tracks.last().track_id as int)
    } else {
        listed_track(tracks.drop_last(), did)
    }
}

/// No participant is listed twice.
pub open spec fn distinct_tracks(tracks: Seq<TrackId>) -> bool {
    forall|i: int, j: int|
        0 <= i < j < tracks.len() ==> (#[trigger] tracks[i]).did != (#[trigger] tracks[j]).did
}

/// No participant is named twice.
pub open spec fn all_distinct(participants: Seq<Did>) -> bool {
    forall|i: int, j: int|
        0 <= i < j < participants.len() ==> participants[i] != participants[j]
}

/// The tracks of participants who are all distinct.
pub open spec fn tracks_in_order(participants: Seq<Did>) -> Seq<TrackId> {
    Seq::new(
        participants.len(),
        |i: int| TrackId { did: participants[i], track_id: (i + FIRST_TRACK) as u32 },
    )
}

fn position(tracks: &Vec<TrackId>, did: Did) -> (r: Option<usize>)
    requires
        distinct_tracks(tracks@),
    ensures
        match r {
            Some(i) => {
                &&& i < tracks@.len()
                &&& tracks@[i as int].did == did
                &&& listed_track(tracks@, did) == Some(tracks@[i as int].track_id as int)
            },
            None => {
                &&& listed_track(tracks@, did) is None
                &&& forall|j: int| 0 <= j < tracks@.len() ==> (#[trigger] tracks@[j]).did != did
            },
        },
{
    let ghost all = tracks@;
    let mut i: usize = tracks.len();
    assert(all.take(i as int) == all);
    while i > 0
        invariant
            all == tracks@,
            i <= all.len(),
            forall|j: int| i <= j < all.len() ==> (#[trigger] all[j]).did != did,
            listed_track(all.take(i as int), did) == listed_track(all, did),
        decreases i,
    {
        assert(all.take(i as int).drop_last() == all.take(i - 1));
        assert(all.take(i as int).last() == all[i - 1]);
        i = i - 1;
        if tracks[i].did == did {
            return Some(i);
        }
    }
    None
}

proof fn lemma_updated_track(tracks: Seq<TrackId>, i: int, entry: TrackId)
    requires
        0 <= i < tracks.len(),
        tracks[i].did == entry.did,
        distinct_tracks(tracks),
    ensures
        forall|d: Did| #[trigger]
            listed_track(tracks.update(i, entry), d) == (if d == entry.did {
                Some(entry.track_id as int)
            } else {
                listed_track(tracks, d)
            }),
    decreases tracks.len(),
{
    let after = tracks.update(i, entry);
    if i == tracks.len() - 1 {
        assert(after.drop_last() == tracks.drop_last());
    } else {
        assert(after.drop_last() == tracks.drop_last().update(i, entry));
        lemma_updated_track(tracks.drop_last(), i, entry);
        assert forall|d: Did| #[trigger] listed_track(after, d) == (if d == entry.did {
            Some(entry.track_id as int)
        } else {
            listed_track(tracks, d)
        }) by {
            assert(listed_track(after.drop_last(), d) == (if d == entry.did {
                Some(entry.track_id as int)
            } else {
                listed_track(tracks.drop_last(), d)
            }));
            assert(tracks[i].did != tracks.last().did);
        }
    }
}

/// Gives each participant a track of sound, counted from the first one.
pub fn assign_tracks(participants: &Vec<Did>) -> (r: Vec<TrackId>)
    requires
        participants@.len() < u32::MAX,
    ensures
        distinct_tracks(r@),
        forall|d: Did| #[trigger] listed_track(r@, d) == track_of(participants@, d),
        forall|k: int| 0 <= k < r@.len() ==> (#[trigger] r@[k]).track_id <= participants@.len(),
        all_distinct(participants@) ==> r@ == tracks_in_order(participants@),
{
    let ghost all = participants@;
    let mut r: Vec<TrackId> = Vec::new();
    let mut i: usize = 0;
    assert(all.take(0) == Seq::<Did>::empty());
    while i < participants.len()
        invariant
            all == participants@,
            all.len() < u32::MAX,
            i <= all.len(),
            distinct_tracks(r@),
            forall|d: Did| #[trigger] listed_track(r@, d) == track_of(all.take(i as int), d),
            forall|k: int| 0 <= k < r@.len() ==> (#[trigger] r@[k]).track_id <= i,
            all_distinct(all) ==> r@ == tracks_in_order(all.take(i as int)),
        decreases all.len() - i,
    {
        let ghost before = r@;
        let did: Did = participants[i];
        let entry = TrackId { did, track_id: i as u32 + FIRST_TRACK };
        match position(&r, did) {
            Some(k) => {
                r[k] = entry;
                proof {
                    assert(r@ == before.update(k as int, entry));
                    lemma_updated_track(before, k as int, entry);
                }
            },
            None => {
                r.push(entry);
                assert(r@.drop_last() == before);
            },
        }
        proof {
            assert(all.take(i + 1).drop_last() == all.take(i as int));
            assert(all.take(i + 1).last() == did);
            if all_distinct(all) {
                assert forall|k: int| 0 <= k < before.len() implies (
                #[trigger] before[k]).did != did by {
                    assert(before[k].did == all[k]);
                }
                assert(r@ == before.push(entry));
                assert(r@ == tracks_in_order(all.take(i + 1)));
            }
            assert forall|d: Did| #[trigger] listed_track(r@, d) == track_of(
                all.take(i + 1),
                d,
            ) by {
                assert(listed_track(before, d) == track_of(all.take(i as int), d));
            }
        }
        i = i + 1;
    }
    assert(all.take(all.len() as int) == all);
    r
}

/// One track of the header.
#[derive(Clone, Copy, PartialEq, Eq, Structural, Debug)]
pub struct TrackHeader {
    pub track_id: u32,
    /// The track is enabled, and in the movie.
    pub flags: u32,
    pub timescale: u32,
    /// The code of sound.
    pub handler_type: u32,
    pub data_reference_index: u16,
    pub channelcount: u16,
    pub samplesize: u16,
    pub samplerate: u16,
    pub input_sample_rate: u32,
    pub stereo: bool,
    pub default_sample_description_index: u32,
    pub default_sample_duration: u32,
    pub default_sample_size: u32,
    /// There is a base offset of the data, a sample description, and flags of the samples.
    pub default_sample_flags: u32,
}

/// The header of a recording.
pub struct Mp4Header {
    pub minor_version: u32,
    pub timescale: u32,
    /// A number that is greater than those of all tracks.
    pub next_track_id: u32,
    pub tracks: Vec<TrackHeader>,
}

/// The header of one track of a codec.
pub open spec fn track_header(track_id: u32, codec: AudioCodec) -> TrackHeader {
    TrackHeader {
        track_id,
        flags: 3,
        timescale: TIMESCALE,
        handler_type: 0x736F756E,
        data_reference_index: 1,
        channelcount: codec.channels,
        samplesize: 16,
        samplerate: (codec.sample_rate % 0x10000) as u16,
        input_sample_rate: codec.sample_rate,
        stereo: codec.channels == 2,
        default_sample_description_index: 1,
        default_sample_duration: 1,
        default_sample_size: 0,
        default_sample_flags: 0x23,
    }
}

fn new_track_header(track_id: u32, codec: &AudioCodec) -> (r: TrackHeader)
    ensures
        r == track_header(track_id, *codec),
{
    TrackHeader {
        track_id,
        flags: 3,
        timescale: TIMESCALE,
        handler_type: 0x736F756E,
        data_reference_index: 1,
        channelcount: codec.channels,
        samplesize: 16,
        samplerate: (codec.sample_rate % 0x10000) as u16,
        input_sample_rate: codec.sample_rate,
        stereo: codec.channels == 2,
        default_sample_description_index: 1,
        default_sample_duration: 1,
        default_sample_size: 0,
        default_sample_flags: 0x23,
    }
}

/// The number for the next track: one more than the greatest that is in use.
pub open spec fn next_track(tracks: Seq<TrackId>) -> int
    decreases tracks.len(),
{
    if tracks.len() == 0 {
        FIRST_TRACK as int
    } else {
        let rest = next_track(tracks.drop_last());
        if tracks.last().track_id >= rest {
            tracks.last().track_id + 1
        } else {
            rest
        }
    }
}

proof fn lemma_next_track(tracks: Seq<TrackId>)
    ensures
        forall|i: int|
            0 <= i < tracks.len() ==> (#[trigger] tracks[i]).track_id < next_track(tracks),
    decreases tracks.len(),
{
    if tracks.len() > 0 {
        let head = tracks.drop_last();
        lemma_next_track(head);
        assert forall|i: int| 0 <= i < tracks.len() implies (#[trigger] tracks[i]).track_id
            < next_track(tracks) by {
            if i < head.len() {
                assert(tracks[i] == head[i]);
            }
        }
    }
}

/// The header of a recording with these tracks.
pub fn mp4_header(codec: &AudioCodec, tracks: &Vec<TrackId>) -> (r: Mp4Header)
    requires
        forall|i: int| 0 <= i < tracks@.len() ==> (#[trigger] tracks@[i]).track_id < u32::MAX,
    ensures
        r.minor_version == 0,
        r.timescale == TIMESCALE,
        r.next_track_id == next_track(tracks@),
        forall|i: int|
            0 <= i < tracks@.len() ==> (#[trigger] tracks@[i]).track_id < r.next_track_id,
        r.tracks@ == tracks@.map_values(|t: TrackId| track_header(t.track_id, *codec)),
{
    let mut list: Vec<TrackHeader> = Vec::new();
    let mut next: u32 = FIRST_TRACK;
    let mut i: usize = 0;
    while i < tracks.len()
        invariant
            i <= tracks@.len(),
            forall|k: int| 0 <= k < tracks@.len() ==> (#[trigger] tracks@[k]).track_id < u32::MAX,
            next == next_track(tracks@.take(i as int)),
            list@ == tracks@.take(i as int).map_values(
                |t: TrackId| track_header(t.track_id, *codec),
            ),
        decreases tracks@.len() - i,
    {
        let ghost before = list@;
        list.push(new_track_header(tracks[i].track_id, codec));
        proof {
            assert(tracks@.take(i + 1) == tracks@.take(i as int).push(tracks@[i as int]));
            assert(tracks@.take(i + 1).drop_last() == tracks@.take(i as int));
        }
        if tracks[i].track_id >= next {
            next = tracks[i].track_id + 1;
        }
        i = i + 1;
    }
    assert(tracks@.take(tracks@.len() as int) == tracks@);
    proof {
        lemma_next_track(tracks@);
    }
    Mp4Header {
        minor_version: 0,
        timescale: TIMESCALE,
        next_track_id: next,
        tracks: list,
    }
}

/// What is done with a fragment of a recording.
#[derive(Clone, Copy, PartialEq, Eq, Structural, Debug)]
pub enum FragmentStep {
    /// The recording ends.
    Stop,
    Skip,
    /// It is written, with a box of this size for its data.
    Write { mdat_size: u64 },
}

/// What is done with a fragment of so many bytes.
pub fn fragment_step(should_quit: bool, data_len: u64, should_log: bool) -> (r: FragmentStep)
    requires
        data_len <= u64::MAX - 8,
    ensures
        r == (if should_quit {
            FragmentStep::Stop
        } else if data_len == 0 || !should_log {
            FragmentStep::Skip
        } else {
            FragmentStep::Write { mdat_size: (data_len + 8) as u64 }
        }),
{
    if should_quit {
        FragmentStep::Stop
    } else if data_len == 0 || !should_log {
        FragmentStep::Skip
    } else {
        FragmentStep::Write { mdat_size: data_len + 8 }
    }
}

/// Why there is no logger for a peer.
#[derive(Clone, Copy, PartialEq, Eq, Structural, Debug)]
pub enum LoggerError {
    NoTrack,
    UnsupportedCodec,
    NoInstance,
}

/// The recording of a call, while there is one.
pub struct Mp4Logger {
    pub audio_codec: AudioCodec,
    pub audio_track_ids: Vec<TrackId>,
    pub should_quit: bool,
    pub should_log: bool,
}

impl Mp4Logger {
    /// Begins the recording of a call.
    pub fn new(audio_codec: AudioCodec, participants: &Vec<Did>) -> (r: Mp4Logger)
        requires
            participants@.len() < u32::MAX,
        ensures
            r.audio_codec == audio_codec,
            distinct_tracks(r.audio_track_ids@),
            forall|d: Did| #[trigger]
                listed_track(r.audio_track_ids@, d) == track_of(participants@, d),
            forall|k: int|
                0 <= k < r.audio_track_ids@.len() ==> (
                #[trigger] r.audio_track_ids@[k]).track_id <= participants@.len(),
            all_distinct(participants@) ==> r.audio_track_ids@ == tracks_in_order(participants@),
            !r.should_quit,
            r.should_log,
    {
        Mp4Logger {
            audio_codec,
            audio_track_ids: assign_tracks(participants),
            should_quit: false,
            should_log: true,
        }
    }
}

/// The track on which a peer is recorded.
pub fn get_audio_logger(logger: &Option<Mp4Logger>, peer_id: Did) -> (r: Result<u32, LoggerError>)
    requires
        logger matches Some(l) ==> distinct_tracks(l.audio_track_ids@),
    ensures
        match logger {
            None => r == Err::<u32, LoggerError>(LoggerError::NoInstance),
            Some(l) => match listed_track(l.audio_track_ids@, peer_id) {
                None => r == Err::<u32, LoggerError>(LoggerError::NoTrack),
                Some(track) => if l.audio_codec.mime == MimeType::OPUS {
                    r matches Ok(t) && t == track
                } else {
                    r == Err::<u32, LoggerError>(LoggerError::UnsupportedCodec)
                },
            },
        },
{
    match logger {
        None => Err(LoggerError::NoInstance),
        Some(l) => match position(&l.audio_track_ids, peer_id) {
            None => Err(LoggerError::NoTrack),
            Some(i) => if l.audio_codec.mime == MimeType::OPUS {
                Ok(l.audio_track_ids[i].track_id)
            } else {
                Err(LoggerError::UnsupportedCodec)
            },
        },
    }
}

proof fn lemma_track_bound(participants: Seq<Did>, did: Did)
    ensures
        track_of(participants, did) matches Some(t) ==> 1 <= t <= participants.len()
            && participants[t - 1] == did,
        participants.contains(did) ==> track_of(participants, did) is Some,
    decreases participants.len(),
{
    if participants.len() > 0 {
        lemma_track_bound(participants.drop_last(), did);
        if participants.contains(did) && participants.last() != did {
            let i = choose|i: int| 0 <= i < participants.len() && participants[i] == did;
            assert(participants.drop_last()[i] == did);
        }
    }
}

proof fn lemma_listed_track(tracks: Seq<TrackId>, did: Did)
    ensures
        listed_track(tracks, did) matches Some(t) ==> exists|i: int|
            0 <= i < tracks.len() && (#[trigger] tracks[i]).track_id == t,
    decreases tracks.len(),
{
    if tracks.len() > 0 {
        let head = tracks.drop_last();
        lemma_listed_track(head, did);
        if tracks.last().did == did {
            assert(tracks[tracks.len() - 1].did == did);
        } else if listed_track(head, did) is Some {
            let t = listed_track(head, did)->Some_0;
            let i = choose|i: int| 0 <= i < head.len() && (#[trigger] head[i]).track_id == t;
            assert(tracks[i] == head[i]);
        }
    }
}

/// Every participant has a track, none of which is zero, and no two participants share one.
pub proof fn tracks_are_distinct(participants: Seq<Did>, a: Did, b: Did)
    requires
        participants.contains(a),
        participants.contains(b),
        a != b,
    ensures
        track_of(participants, a) matches Some(t) && t >= FIRST_TRACK,
        track_of(participants, b) matches Some(t) && t >= FIRST_TRACK,
        track_of(participants, a) != track_of(participants, b),
{
    lemma_track_bound(participants, a);
    lemma_track_bound(participants, b);
}

/// The number for the next track is greater than that of every participant, and than all others
/// that are in use.
pub proof fn next_track_is_free(participants: Seq<Did>, tracks: Seq<TrackId>)
    requires
        forall|d: Did| #[trigger] listed_track(tracks, d) == track_of(participants, d),
    ensures
        forall|i: int|
            0 <= i < tracks.len() ==> (#[trigger] tracks[i]).track_id < next_track(tracks),
        forall|d: Did| #[trigger]
            track_of(participants, d) matches Some(t) ==> t < next_track(tracks),
{
    lemma_next_track(tracks);
    assert forall|d: Did| (#[trigger] track_of(participants, d)) is Some implies track_of(
        participants,
        d,
    )->Some_0 < next_track(tracks) by {
        assert(listed_track(tracks, d) == track_of(participants, d));
        lemma_listed_track(tracks, d);
    }
}

} // verus!
