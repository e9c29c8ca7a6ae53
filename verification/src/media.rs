//! Media: what may be offered, what arrives, and what is made of silence.

use vstd::prelude::*;

use crate::messages::{AudioCodec, AudioOffer, VideoOffer};
use crate::session::State;
use crate::text;
use crate::text::{chars_of, push_decimal};

verus! {

/// Codec parameters of the video stream.
#[derive(Debug, Clone, Copy, PartialEq, Eq, Structural)]
pub struct VideoParams {
    pub width: u16,
    pub height: u16,
    pub fps: u8,
    pub bitrate_kbps: u32,
}

/// Codec parameters of the audio stream.
#[derive(Debug, Clone, Copy, PartialEq, Eq, Structural)]
pub struct AudioParams {
    pub sample_rate: u32,
    pub channels: u8,
}

/// What the receiver takes at most.
#[derive(Debug, Clone, Copy, PartialEq, Eq, Structural)]
pub struct MediaLimits;

impl MediaLimits {
    pub const MAX_WIDTH: u16 = 1920;

    pub const MAX_HEIGHT: u16 = 1080;

    pub const MAX_FPS: u8 = 60;

    pub const MAX_BITRATE_KBPS: u32 = 25_000;
}

/// Delay of the jitter buffers.
pub const JITTER_LATENCY_MS: u32 = 40;

/// Milliseconds without video after which a stream is taken for interrupted.
pub const MEDIA_IDLE_TIMEOUT_MS: u64 = 5_000;

/// Milliseconds that an interrupted stream has to come back.
pub const MEDIA_RECOVERY_MS: u64 = 2_000;

/// What is wrong with an offer, if anything.
pub open spec fn offer_problem(video: VideoOffer, audio: AudioOffer) -> Option<Seq<char>> {
    if !(0 < video.width <= MediaLimits::MAX_WIDTH && 0 < video.height
        <= MediaLimits::MAX_HEIGHT) {
        Some(
            "resolution "@ + text::decimal(video.width as nat) + "x"@ + text::decimal(
                video.height as nat,
            ) + " outside supported bounds"@,
        )
    } else if !(0 < video.fps <= MediaLimits::MAX_FPS) {
        Some("fps "@ + text::decimal(video.fps as nat) + " outside supported bounds"@)
    } else if video.bitrate_kbps > MediaLimits::MAX_BITRATE_KBPS {
        Some("bitrate above receiver cap"@)
    } else if !(audio.codec is Opus) || audio.sample_rate != 48_000 || audio.channels > 2 {
        Some("only Opus 48 kHz mono/stereo is supported"@)
    } else {
        None
    }
}

/// Checks an offer against what the receiver takes.
pub fn validate_offer(video: &VideoOffer, audio: &AudioOffer) -> (r: Result<(), String>)
    ensures
        match offer_problem(*video, *audio) {
            None => r is Ok,
            Some(why) => r matches Err(e) && e@ == why,
        },
{
    if video.width == 0 || video.height == 0 || video.width > MediaLimits::MAX_WIDTH || video.height
        > MediaLimits::MAX_HEIGHT {
        let mut why = "resolution ".to_owned();
        push_decimal(&mut why, video.width as u64);
        why.append("x");
        push_decimal(&mut why, video.height as u64);
        why.append(" outside supported bounds");
        return Err(why);
    }
    if video.fps == 0 || video.fps > MediaLimits::MAX_FPS {
        let mut why = "fps ".to_owned();
        push_decimal(&mut why, video.fps as u64);
        why.append(" outside supported bounds");
        return Err(why);
    }
    if video.bitrate_kbps > MediaLimits::MAX_BITRATE_KBPS {
        return Err("bitrate above receiver cap".to_owned());
    }
    let opus: bool = match audio.codec {
        AudioCodec::Opus => true,
        AudioCodec::AacLc => false,
    };
    if !opus || audio.sample_rate != 48_000 || audio.channels > 2 {
        return Err("only Opus 48 kHz mono/stereo is supported".to_owned());
    }
    Ok(())
}

/// Counters of a media session; each wraps round.
#[derive(Debug, Clone, Copy, PartialEq, Eq, Structural)]
pub struct MediaCounters {
    /// Access units that left the decoder.
    pub video_frames: u64,
    /// Bytes that left the decoder.
    pub video_bytes: u64,
    /// Video packets fed into the pipeline.
    pub video_packets: u64,
    /// Audio packets fed into the pipeline.
    pub audio_packets: u64,
    /// Audio bytes fed into the pipeline.
    pub audio_bytes: u64,
    /// Datagrams that were dropped.
    pub dropped_datagrams: u64,
}

impl Default for MediaCounters {
    fn default() -> (r: Self)
        ensures
            r == (MediaCounters {
                video_frames: 0,
                video_bytes: 0,
                video_packets: 0,
                audio_packets: 0,
                audio_bytes: 0,
                dropped_datagrams: 0,
            }),
    {
        MediaCounters {
            video_frames: 0,
            video_bytes: 0,
            video_packets: 0,
            audio_packets: 0,
            audio_bytes: 0,
            dropped_datagrams: 0,
        }
    }
}

/// `a + b` modulo 2^64.
pub open spec fn wrapped(a: u64, b: u64) -> u64 {
    ((a + b) % 18446744073709551616) as u64
}

impl MediaCounters {
    /// All counters, in their order.
    pub fn snapshot(&self) -> (r: (u64, u64, u64, u64, u64, u64))
        ensures
            r == (
                self.video_frames,
                self.video_bytes,
                self.video_packets,
                self.audio_packets,
                self.audio_bytes,
                self.dropped_datagrams,
            ),
    {
        (
            self.video_frames,
            self.video_bytes,
            self.video_packets,
            self.audio_packets,
            self.audio_bytes,
            self.dropped_datagrams,
        )
    }

    /// An access unit of `size` bytes left the decoder.
    pub fn count_frame(&mut self, size: u64)
        ensures
            *final(self) == (MediaCounters {
                video_frames: wrapped(old(self).video_frames, 1),
                video_bytes: wrapped(old(self).video_bytes, size),
                ..*old(self)
            }),
    {
        self.video_frames = self.video_frames.wrapping_add(1);
        self.video_bytes = self.video_bytes.wrapping_add(size);
    }

    /// A packet of `size` bytes was fed into the pipeline of its medium.
    pub fn count_packet(&mut self, is_video: bool, size: u64)
        ensures
            *final(self) == (if is_video {
                MediaCounters { video_packets: wrapped(old(self).video_packets, 1), ..*old(self) }
            } else {
                MediaCounters {
                    audio_packets: wrapped(old(self).audio_packets, 1),
                    audio_bytes: wrapped(old(self).audio_bytes, size),
                    ..*old(self)
                }
            }),
    {
        if is_video {
            self.video_packets = self.video_packets.wrapping_add(1);
        } else {
            self.audio_packets = self.audio_packets.wrapping_add(1);
            self.audio_bytes = self.audio_bytes.wrapping_add(size);
        }
    }

    /// A datagram was dropped.
    pub fn count_drop(&mut self)
        ensures
            *final(self) == (MediaCounters {
                dropped_datagrams: wrapped(old(self).dropped_datagrams, 1),
                ..*old(self)
            }),
    {
        self.dropped_datagrams = self.dropped_datagrams.wrapping_add(1);
    }
}

/// What the media layer tells the network and the user interface.
#[derive(Debug, Clone, PartialEq)]
pub enum MediaEvent {
    /// Once, when the first access unit leaves the decoder.
    FirstVideoFrame { decoder: String },
    VideoError { reason: String },
    AudioError { reason: String },
}

/// The view of a `MediaEvent`.
#[verifier::ext_equal]
pub enum MediaEventModel {
    FirstVideoFrame { decoder: Seq<char> },
    VideoError { reason: Seq<char> },
    AudioError { reason: Seq<char> },
}

impl View for MediaEvent {
    type V = MediaEventModel;

    open spec fn view(&self) -> MediaEventModel {
        match *self {
            MediaEvent::FirstVideoFrame { decoder } => MediaEventModel::FirstVideoFrame {
                decoder: decoder@,
            },
            MediaEvent::VideoError { reason } => MediaEventModel::VideoError { reason: reason@ },
            MediaEvent::AudioError { reason } => MediaEventModel::AudioError { reason: reason@ },
        }
    }
}

/// Whether `part` occurs in `whole`.
pub open spec fn occurs_in(part: Seq<char>, whole: Seq<char>) -> bool {
    exists|i: int|
        0 <= i && i + part.len() <= whole.len() && #[trigger] whole.subrange(i, i + part.len())
            == part
}

fn contains_text(whole: &str, part: &str) -> (r: bool)
    ensures
        r == occurs_in(part@, whole@),
{
    let w = chars_of(whole);
    let p = chars_of(part);
    let n: usize = w.len();
    if p.len() > w.len() {
        return false;
    }
    let mut i: usize = 0;
    while i <= w.len() - p.len()
        invariant
            w@ == whole@,
            n == w@.len(),
            p@ == part@,
            p@.len() <= w@.len(),
            i <= w@.len() - p@.len() + 1,
            forall|k: int|
                0 <= k < i ==> #[trigger] whole@.subrange(k, k + part@.len()) != part@,
        decreases w.len() - p.len() + 1 - i,
    {
        let mut k: usize = 0;
        while k < p.len() && w[i + k] == p[k]
            invariant
                w@ == whole@,
                n == w@.len(),
                p@ == part@,
                p@.len() <= w@.len(),
                i <= w@.len() - p@.len(),
                k <= p@.len(),
                forall|j: int| 0 <= j < k ==> w@[i + j] == p@[j],
            decreases p.len() - k,
        {
            k = k + 1;
        }
        let ghost here = whole@.subrange(i as int, i + part@.len());
        if k == p.len() {
            assert(here =~= part@);
            return true;
        }
        proof {
            assert(here[k as int] != part@[k as int]);
        }
        if i == w.len() - p.len() {
            proof {
                assert forall|j: int|
                    0 <= j && j + part@.len() <= whole@.len() implies #[trigger] whole@.subrange(
                    j,
                    j + part@.len(),
                ) != part@ by {
                    if j == i {
                        assert(whole@.subrange(j, j + part@.len()) == here);
                    }
                }
            }
            return false;
        }
        i = i + 1;
    }
    false
}

/// The event for an error that the pipeline `name` reports.
pub fn pipeline_error(name: &str, detail: &str) -> (r: MediaEvent)
    ensures
        r@ == (if occurs_in("audio"@, name@) {
            MediaEventModel::AudioError { reason: name@ + ": "@ + detail@ }
        } else {
            MediaEventModel::VideoError { reason: name@ + ": "@ + detail@ }
        }),
{
    let mut reason = name.to_owned();
    reason.append(": ");
    reason.append(detail);
    if contains_text(name, "audio") {
        MediaEvent::AudioError { reason }
    } else {
        MediaEvent::VideoError { reason }
    }
}

/// Tells the first access unit from all others.
#[derive(Debug, Clone, Copy, PartialEq, Eq, Structural)]
pub struct FirstFrame {
    pub seen: bool,
}

impl FirstFrame {
    /// An access unit left the decoder. Tells whether it is the first.
    pub fn note(&mut self) -> (first: bool)
        ensures
            first == !old(self).seen,
            final(self).seen,
    {
        let first: bool = !self.seen;
        self.seen = true;
        first
    }
}

/// Payload type of the video packets.
pub const PT_VIDEO_H264: u8 = 96;

/// Payload type of the audio packets.
pub const PT_AUDIO_OPUS: u8 = 97;

/// Least bytes of a packet.
pub const MIN_RTP_LEN: usize = 12;

/// Most bytes of a datagram.
pub const MAX_DGRAM_LEN: usize = 1500;

/// The payload type of a packet: its second byte without the marker bit.
pub open spec fn payload_type_of(packet: Seq<u8>) -> Option<u8> {
    if packet.len() < MIN_RTP_LEN {
        None
    } else {
        Some((packet[1] % 128) as u8)
    }
}

/// The payload type of a packet.
pub fn payload_type(packet: &[u8]) -> (r: Option<u8>)
    ensures
        r == payload_type_of(packet@),
{
    if packet.len() < MIN_RTP_LEN {
        return None;
    }
    Some(packet[1] % 128)
}

/// Where a datagram goes.
#[derive(Debug, Clone, Copy, PartialEq, Eq, Structural)]
pub enum Route {
    Video,
    Audio,
    Drop,
}

/// Where a datagram goes: to the queue of its medium, if it has the size of a packet and
/// a known payload type.
pub open spec fn route_of(packet: Seq<u8>) -> Route {
    if packet.len() > MAX_DGRAM_LEN {
        Route::Drop
    } else if payload_type_of(packet) == Some(PT_VIDEO_H264) {
        Route::Video
    } else if payload_type_of(packet) == Some(PT_AUDIO_OPUS) {
        Route::Audio
    } else {
        Route::Drop
    }
}

/// Where a datagram goes.
pub fn route(packet: &[u8]) -> (r: Route)
    ensures
        r == route_of(packet@),
{
    if packet.len() < MIN_RTP_LEN || packet.len() > MAX_DGRAM_LEN {
        return Route::Drop;
    }
    match payload_type(packet) {
        Some(t) => if t == PT_VIDEO_H264 {
            Route::Video
        } else if t == PT_AUDIO_OPUS {
            Route::Audio
        } else {
            Route::Drop
        },
        None => Route::Drop,
    }
}

/// What is to be done about the video stream.
#[derive(Debug, Clone, Copy, PartialEq, Eq, Structural)]
pub enum Watch {
    /// Nothing.
    Wait,
    /// The stream was interrupted: recover, and ask for a key frame.
    Recover,
    /// The stream is back.
    Resume,
    /// The stream did not come back.
    Fail,
}

/// What silence means in a state: a stream without video for 5 seconds is interrupted;
/// one that stays silent for 2 seconds more has failed, and one that is heard again goes
/// on.
pub open spec fn watch_of(state: State, silent_ms: int) -> Watch {
    if state is Streaming && silent_ms >= MEDIA_IDLE_TIMEOUT_MS {
        Watch::Recover
    } else if state is Recovering && silent_ms >= MEDIA_IDLE_TIMEOUT_MS + MEDIA_RECOVERY_MS {
        Watch::Fail
    } else if state is Recovering && silent_ms < MEDIA_IDLE_TIMEOUT_MS {
        Watch::Resume
    } else {
        Watch::Wait
    }
}

/// What is to be done after `silent_ms` milliseconds without video.
pub fn watch(state: State, silent_ms: u64) -> (r: Watch)
    ensures
        r == watch_of(state, silent_ms as int),
{
    match state {
        State::Streaming => if silent_ms >= MEDIA_IDLE_TIMEOUT_MS {
            Watch::Recover
        } else {
            Watch::Wait
        },
        State::Recovering => if silent_ms >= MEDIA_IDLE_TIMEOUT_MS + MEDIA_RECOVERY_MS {
            Watch::Fail
        } else if silent_ms < MEDIA_IDLE_TIMEOUT_MS {
            Watch::Resume
        } else {
            Watch::Wait
        },
        _ => Watch::Wait,
    }
}

/// A datagram is dropped exactly when it is too short, too long or of an unknown payload
/// type; no packet goes to both media.
pub proof fn law_datagrams_go_to_their_medium(packet: Seq<u8>)
    ensures
        route_of(packet) is Drop <==> !(MIN_RTP_LEN <= packet.len() <= MAX_DGRAM_LEN && (
        packet[1] % 128 == PT_VIDEO_H264 || packet[1] % 128 == PT_AUDIO_OPUS)),
        route_of(packet) is Video ==> packet[1] % 128 == PT_VIDEO_H264,
        route_of(packet) is Audio ==> packet[1] % 128 == PT_AUDIO_OPUS,
{
}

/// Every packet that the sender makes of an access unit goes to the video queue.
pub proof fn law_sent_packets_are_routed_to_video(
    units: Seq<Seq<u8>>,
    st: crate::rtp::Stream,
    seq: int,
    k: int,
)
    requires
        forall|j: int| 0 <= j < units.len() ==> (#[trigger] units[j]).len() > 0,
        crate::rtp::FU_OVERHEAD < st.mtu <= MAX_DGRAM_LEN,
        0 <= seq < 65536,
        0 <= k < crate::rtp::au_packets(units, st, seq).len(),
    ensures
        route_of(crate::rtp::au_packets(units, st, seq)[k]) is Video,
{
    crate::rtp::law_packets_are_numbered_marked_and_fit(units, st, seq, k);
}

/// Every datagram of 12 to 1500 bytes whose second byte, without its highest bit, is 96 goes
/// to the video queue, every one for which it is 97 to the audio queue, and no other anywhere.
pub proof fn law_routes_depend_on_size_and_payload_type(packet: Seq<u8>)
    ensures
        route_of(packet) == (if 12 <= packet.len() <= 1500 && (packet[1] == 96 || packet[1] == 224) {
            Route::Video
        } else if 12 <= packet.len() <= 1500 && (packet[1] == 97 || packet[1] == 225) {
            Route::Audio
        } else {
            Route::Drop
        }),
        payload_type_of(packet) is None <==> packet.len() < 12,
        packet.len() >= 12 ==> (payload_type_of(packet) matches Some(t) && t < 128 && (packet[1] == t
            || packet[1] == t + 128)),
{
}

/// An offer is taken exactly when its video is at most 1920 by 1080 at up to 60 frames a
/// second and 25000 kilobits, none of them nothing, and its audio is Opus at 48 kHz with at
/// most two channels. Otherwise the first of these that fails is what is told.
pub proof fn law_offers_within_limits_are_taken(video: VideoOffer, audio: AudioOffer)
    ensures
        ({
            let size = 1 <= video.width <= 1920 && 1 <= video.height <= 1080;
            let rate = 1 <= video.fps <= 60;
            let bits = video.bitrate_kbps <= 25_000;
            let sound = audio.codec is Opus && audio.sample_rate == 48_000 && audio.channels <= 2;
            &&& offer_problem(video, audio) is None <==> size && rate && bits && sound
            &&& !size ==> offer_problem(video, audio) == Some(
                "resolution "@ + text::decimal(video.width as nat) + "x"@ + text::decimal(
                    video.height as nat,
                ) + " outside supported bounds"@,
            )
            &&& size && !rate ==> offer_problem(video, audio) == Some(
                "fps "@ + text::decimal(video.fps as nat) + " outside supported bounds"@,
            )
            &&& size && rate && !bits ==> offer_problem(video, audio) == Some(
                "bitrate above receiver cap"@,
            )
            &&& size && rate && bits && !sound ==> offer_problem(video, audio) == Some(
                "only Opus 48 kHz mono/stereo is supported"@,
            )
        }),
{
}

/// Silence matters to a stream alone: after 5 seconds it is interrupted, after 7 it has
/// failed, and one that was interrupted and is heard again within 5 seconds goes on.
pub proof fn law_silence_is_watched(state: State, ms: int)
    ensures
        watch_of(state, ms) is Recover <==> state is Streaming && ms >= 5_000,
        watch_of(state, ms) is Fail <==> state is Recovering && ms >= 7_000,
        watch_of(state, ms) is Resume <==> state is Recovering && ms < 5_000,
{
}

/// A part occurs in a whole exactly when the whole is the part with something, or nothing,
/// before and behind it.
pub proof fn law_occurrences_split_the_whole(
    before: Seq<char>,
    part: Seq<char>,
    behind: Seq<char>,
    whole: Seq<char>,
)
    ensures
        occurs_in(part, before + part + behind),
        occurs_in(part, whole) ==> exists|a: Seq<char>, b: Seq<char>| #[trigger]
            (a + part + b) == whole,
{
    let all = before + part + behind;
    let i = before.len() as int;
    assert(all.subrange(i, i + part.len()) =~= part);
    if occurs_in(part, whole) {
        let i = choose|i: int|
            0 <= i && i + part.len() <= whole.len() && #[trigger] whole.subrange(
                i,
                i + part.len(),
            ) == part;
        let a = whole.take(i);
        let b = whole.skip(i + part.len());
        assert(a + part + b =~= whole);
    }
}

/// Counters go on by what is counted, and begin again at 0 after 2^64 - 1.
pub proof fn law_counters_wrap_round(a: u64, b: u64)
    ensures
        a + b < 18446744073709551616 ==> wrapped(a, b) == a + b,
        a + b >= 18446744073709551616 ==> wrapped(a, b) == a + b - 18446744073709551616,
{
}

} // verus!
