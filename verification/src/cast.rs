//! The phone's side of a cast: its status, the access units it sends, and what it makes of
//! the receiver's messages.

use vstd::prelude::*;

use crate::framing::{CodecError, CodecErrorModel};
use crate::json;
use crate::json::{failed_reply, status_reply};
use crate::listener;
use crate::listener::kind_of;
use crate::messages::{
    AudioCodec, AudioOffer, Message, MessageModel, Version, VideoCodec, VideoOffer,
};
use crate::phone;
use crate::phone::{check_welcome, hello};
use crate::rtp;
use crate::rtp::{avcc_to_annexb, contains_idr, lp_to_annexb, packetize_au};
use crate::text::{joined, push_decimal, same_text};
use crate::text;
use crate::wire;

verus! {

/// Most bytes of a packet that the phone sends.
pub const MTU: usize = 1100;

/// Number of the first packet.
pub const FIRST_SEQ: u16 = 0x1234;

/// How far apart the numbers of the first packets of two access units are.
pub const SEQ_STRIDE: u16 = 0x100;

/// The status of a cast.
pub struct Shared {
    pub state: String,
    pub error: Option<String>,
    pub keyframe: bool,
    pub bitrate_hint: u32,
    pub sent: u64,
    pub dropped: u64,
}

/// The view of a `Shared`.
#[verifier::ext_equal]
pub struct SharedModel {
    pub state: Seq<char>,
    pub error: Option<Seq<char>>,
    pub keyframe: bool,
    pub bitrate_hint: u32,
    pub sent: u64,
    pub dropped: u64,
}

impl View for Shared {
    type V = SharedModel;

    open spec fn view(&self) -> SharedModel {
        SharedModel {
            state: self.state@,
            error: wire::maybe_view(self.error),
            keyframe: self.keyframe,
            bitrate_hint: self.bitrate_hint,
            sent: self.sent,
            dropped: self.dropped,
        }
    }
}

/// What became of a packet that was handed to the connection.
#[derive(Debug, Clone, Copy, PartialEq, Eq, Structural)]
pub enum SendOutcome {
    Sent,
    ConnectionLost,
    Refused,
}

impl Default for Shared {
    fn default() -> (r: Self)
        ensures
            r@ == (SharedModel {
                state: Seq::empty(),
                error: None,
                keyframe: false,
                bitrate_hint: 0,
                sent: 0,
                dropped: 0,
            }),
    {
        Shared {
            state: String::new(),
            error: None,
            keyframe: false,
            bitrate_hint: 0,
            sent: 0,
            dropped: 0,
        }
    }
}

impl SharedModel {
    /// The status with another state.
    pub open spec fn in_state(self, state: Seq<char>) -> SharedModel {
        SharedModel { state, ..self }
    }

    /// The status after an error.
    pub open spec fn failed(self, why: Seq<char>) -> SharedModel {
        SharedModel { state: "error"@, error: Some(why), ..self }
    }
}

/// Whether the host can read off a status that a cast has been decided.
pub open spec fn decided(shared: SharedModel) -> bool {
    shared.state == "streaming"@ || shared.state == "error"@ || shared.state == "stopped"@
}

/// The status once a cast is over: one that streamed has stopped.
pub open spec fn status_after(shared: SharedModel) -> SharedModel {
    if shared.state == "streaming"@ {
        shared.in_state("stopped"@)
    } else {
        shared
    }
}

impl Shared {
    /// Sets the state.
    pub fn set_state(&mut self, s: &str)
        ensures
            final(self)@ == old(self)@.in_state(s@),
    {
        self.state = s.to_owned();
    }

    /// Notes an error; the state says so too.
    pub fn set_error(&mut self, e: String)
        ensures
            final(self)@ == old(self)@.failed(e@),
    {
        self.set_state("error");
        self.error = Some(e);
    }

    /// The status as JSON.
    pub fn snapshot(&self) -> (r: String)
        ensures
            r@ == json::status_json(
                self@.dropped,
                self@.error,
                self@.keyframe,
                self@.sent,
                self@.state,
            ),
    {
        status_reply(self.dropped, &self.error, self.keyframe, self.sent, self.state.as_str())
    }

    /// Takes the request for a key frame, if there is one.
    pub fn take_keyframe(&mut self) -> (r: bool)
        ensures
            r == old(self)@.keyframe,
            final(self)@ == (SharedModel { keyframe: false, ..old(self)@ }),
    {
        let r: bool = self.keyframe;
        self.keyframe = false;
        r
    }

    /// Whether the start of a cast has been decided.
    pub fn settled(&self) -> (r: bool)
        ensures
            r == decided(self@),
    {
        same_text(self.state.as_str(), "streaming") || same_text(self.state.as_str(), "error")
            || same_text(self.state.as_str(), "stopped")
    }

    /// A packet was handed to the connection. Tells whether to go on with the next.
    pub fn note_send(&mut self, outcome: SendOutcome) -> (go_on: bool)
        ensures
            go_on == !(outcome is ConnectionLost),
            final(self)@ == (match outcome {
                SendOutcome::Sent => SharedModel {
                    sent: crate::media::wrapped(old(self)@.sent, 1),
                    ..old(self)@
                },
                SendOutcome::ConnectionLost => old(self)@,
                SendOutcome::Refused => SharedModel {
                    dropped: crate::media::wrapped(old(self)@.dropped, 1),
                    ..old(self)@
                },
            }),
    {
        match outcome {
            SendOutcome::Sent => {
                self.sent = self.sent.wrapping_add(1);
                true
            },
            SendOutcome::ConnectionLost => false,
            SendOutcome::Refused => {
                self.dropped = self.dropped.wrapping_add(1);
                true
            },
        }
    }

    /// The session is over: a cast that streamed has stopped.
    pub fn end_run(&mut self)
        ensures
            final(self)@ == status_after(old(self)@),
    {
        if same_text(self.state.as_str(), "streaming") {
            self.set_state("stopped");
        }
    }
}

/// The parameter sets in a codec configuration, as they precede a key frame.
pub fn store_config(slot: &mut Option<Vec<u8>>, csd: &[u8]) -> (r: bool)
    ensures
        match rtp::avcc_annexb(csd@) {
            Some(annexb) => r && (*final(slot) matches Some(v) && v@ == annexb),
            None => !r && *final(slot) == *old(slot),
        },
{
    match avcc_to_annexb(csd) {
        Some(annexb) => {
            *slot = Some(annexb);
            true
        },
        None => false,
    }
}

/// An encoder buffer as a byte stream: from length-prefixed units where it holds those, as
/// it is otherwise.
pub open spec fn stream_of(data: Seq<u8>) -> Seq<u8> {
    match rtp::lp_annexb(data) {
        Some(annexb) => annexb,
        None => data,
    }
}

/// The access unit that is sent for an encoder buffer: a key frame is preceded by the
/// parameter sets, so that it can be decoded on its own.
pub open spec fn au_of(data: Seq<u8>, config: Option<Seq<u8>>) -> Seq<u8> {
    match config {
        Some(sets) => if rtp::has_idr(stream_of(data)) {
            sets + stream_of(data)
        } else {
            stream_of(data)
        },
        None => stream_of(data),
    }
}

fn prepare_au(data: Vec<u8>, config: &Option<Vec<u8>>) -> (r: Vec<u8>)
    ensures
        r@ == au_of(data@, crate::pairing::maybe_bytes(*config)),
{
    let au = match lp_to_annexb(data.as_slice()) {
        Some(annexb) => annexb,
        None => data,
    };
    match config {
        Some(sets) => {
            if contains_idr(au.as_slice()) {
                let mut full = sets.clone();
                full.extend_from_slice(au.as_slice());
                proof {
                    assert(full@ =~= sets@ + au@);
                }
                full
            } else {
                au
            }
        },
        None => au,
    }
}

/// A time in microseconds on the 90 kHz clock, modulo 2^32.
pub fn ts90k(pts_us: u64) -> (r: u32)
    requires
        pts_us * 9 <= u64::MAX,
    ensures
        r == pts_us as int * 9 / 100 % 4294967296,
{
    (pts_us * 9 / 100 % 4294967296) as u32
}

/// Makes packets of encoder buffers.
pub struct VideoSender {
    pub config: Option<Vec<u8>>,
    pub ssrc: u32,
    pub next_seq: u16,
}

impl VideoSender {
    /// A sender that has seen no codec configuration yet.
    pub fn new(ssrc: u32, next_seq: u16) -> (r: VideoSender)
        ensures
            r.config is None,
            r.ssrc == ssrc,
            r.next_seq == next_seq,
    {
        VideoSender { config: None, ssrc, next_seq }
    }

    /// Notes a codec configuration. Tells whether it could be read.
    pub fn push_config(&mut self, csd: &[u8]) -> (r: bool)
        ensures
            final(self).ssrc == old(self).ssrc,
            final(self).next_seq == old(self).next_seq,
            match rtp::avcc_annexb(csd@) {
                Some(annexb) => r && (final(self).config matches Some(v) && v@ == annexb),
                None => !r && final(self).config == old(self).config,
            },
    {
        store_config(&mut self.config, csd)
    }

    /// The packets of an encoder buffer with the time `pts_us`.
    pub fn packets(&mut self, data: Vec<u8>, pts_us: u64) -> (r: Vec<Vec<u8>>)
        requires
            pts_us * 9 <= u64::MAX,
        ensures
            final(self).config == old(self).config,
            final(self).ssrc == old(self).ssrc,
            final(self).next_seq == (old(self).next_seq + SEQ_STRIDE) % 65536,
            rtp::byte_views(r@) == rtp::au_packets(
                rtp::nal_units(au_of(data@, crate::pairing::maybe_bytes(old(self).config))),
                (rtp::Stream {
                    ts: pts_us as int * 9 / 100 % 4294967296,
                    ssrc: old(self).ssrc as int,
                    mtu: MTU as int,
                }),
                old(self).next_seq as int,
            ),
    {
        let au = prepare_au(data, &self.config);
        let mut seq: u16 = self.next_seq;
        self.next_seq = self.next_seq.wrapping_add(SEQ_STRIDE);
        packetize_au(au.as_slice(), ts90k(pts_us), self.ssrc, MTU, &mut seq)
    }
}

/// `v` moved into the range from `low` to `high`.
pub open spec fn clamped(v: int, low: int, high: int) -> int {
    if v < low {
        low
    } else if v > high {
        high
    } else {
        v
    }
}

fn clamp(v: i32, low: i32, high: i32) -> (r: i32)
    requires
        low <= high,
    ensures
        r == clamped(v as int, low as int, high as int),
{
    if v < low {
        low
    } else if v > high {
        high
    } else {
        v
    }
}

/// The video offer for parameters that the host asked for, each moved into its range.
pub fn offer_for(width: i32, height: i32, fps: i32, bitrate_kbps: i32) -> (r: VideoOffer)
    ensures
        r.codec is H264Baseline,
        r.width == clamped(width as int, 2, 4096),
        r.height == clamped(height as int, 2, 4096),
        r.fps == clamped(fps as int, 1, 60),
        r.bitrate_kbps == clamped(bitrate_kbps as int, 500, 25000),
{
    VideoOffer {
        codec: VideoCodec::H264Baseline,
        width: clamp(width, 2, 4096) as u16,
        height: clamp(height, 2, 4096) as u16,
        fps: clamp(fps, 1, 60) as u8,
        bitrate_kbps: clamp(bitrate_kbps, 500, 25000) as u32,
    }
}

/// Whether a cast may start: only one at a time, and only by a phone that was paired. Hands
/// out the token to greet with, or the reply that says why not.
pub fn check_start(running: bool, token: Option<String>) -> (r: Result<String, String>)
    ensures
        if running {
            r matches Err(e) && e@ == json::failed_json("cast already running"@)
        } else {
            match token {
                Some(t) => r matches Ok(x) && x@ == t@,
                None => r matches Err(e) && e@ == json::failed_json("not paired yet"@),
            }
        },
{
    if running {
        return Err(failed_reply("cast already running"));
    }
    match token {
        Some(t) => Ok(t),
        None => Err(failed_reply("not paired yet")),
    }
}

/// Why a cast whose status is this does not stream: the error, if it failed; otherwise that
/// it is over already, or that the receiver has not answered yet.
pub open spec fn start_problem(shared: SharedModel) -> Seq<char> {
    if shared.state == "error"@ {
        match shared.error {
            Some(why) => why,
            None => "unknown error"@,
        }
    } else if shared.state == "stopped"@ {
        "cast stopped"@
    } else {
        "no answer from the receiver"@
    }
}

/// The reply to the start of a cast: it succeeded once the receiver has accepted the offer,
/// so that video is sent.
pub open spec fn start_json(shared: SharedModel) -> Seq<char> {
    if shared.state == "streaming"@ {
        json::done_json()
    } else {
        json::failed_json(start_problem(shared))
    }
}

/// The reply to the start of a cast, `{ok, error?}`, from the status once it is decided or
/// has been waited for.
pub fn start_reply(shared: &Shared) -> (r: String)
    ensures
        r@ == start_json(shared@),
{
    let state = shared.state.as_str();
    if same_text(state, "streaming") {
        return "{\"ok\":true}".to_owned();
    }
    if same_text(state, "error") {
        return match &shared.error {
            Some(why) => failed_reply(why.as_str()),
            None => failed_reply("unknown error"),
        };
    }
    if same_text(state, "stopped") {
        failed_reply("cast stopped")
    } else {
        failed_reply("no answer from the receiver")
    }
}

/// The goodbye of a phone that stops to cast.
pub fn stop_message() -> (r: Message)
    ensures
        r@ == (MessageModel::Bye { reason: "cast stopped"@ }),
{
    Message::Bye { reason: "cast stopped".to_owned() }
}

/// The offer that a phone makes: its video, and an audio stream that stays silent.
pub open spec fn offer_message(video: VideoOffer) -> MessageModel {
    MessageModel::SessionOffer {
        video,
        audio: AudioOffer { codec: AudioCodec::Opus, sample_rate: 48_000, channels: 2 },
    }
}

/// The offer that a phone makes.
pub fn session_offer(video: VideoOffer) -> (r: Message)
    ensures
        r@ == offer_message(video),
{
    Message::SessionOffer {
        video,
        audio: AudioOffer { codec: AudioCodec::Opus, sample_rate: 48_000, channels: 2 },
    }
}

/// Why the receiver's answer to an offer is none, or a refusal.
pub open spec fn answer_problem(m: MessageModel) -> Option<Seq<char>> {
    match m {
        MessageModel::SessionAnswer { accepted, reason, .. } => if accepted {
            None
        } else {
            Some(
                "receiver refused the session: "@ + (match reason {
                    Some(r) => r,
                    None => "unknown reason"@,
                }),
            )
        },
        other => Some("expected SessionAnswer, got "@ + listener::kind_text(m)),
    }
}

/// Checks the receiver's answer to an offer.
pub fn check_answer(m: &Message) -> (r: Result<(), String>)
    ensures
        match answer_problem(m@) {
            None => r is Ok,
            Some(why) => r matches Err(e) && e@ == why,
        },
{
    match m {
        Message::SessionAnswer { accepted, reason, max_video_bitrate_kbps: _ } => {
            if *accepted {
                Ok(())
            } else {
                match reason {
                    Some(why) => Err(joined("receiver refused the session: ", why.as_str())),
                    None => Err(joined("receiver refused the session: ", "unknown reason")),
                }
            }
        },
        other => Err(joined("expected SessionAnswer, got ", kind_of(other))),
    }
}

/// What a phone does after it read from the control stream.
#[derive(Debug, Clone, PartialEq)]
pub enum Next {
    /// Go on.
    Continue,
    /// Answer, and go on whether or not that succeeds.
    Reply(Message),
    /// The cast is over.
    Done,
    /// The cast failed.
    Fail(String),
}

/// The view of a `Next`.
#[verifier::ext_equal]
pub enum NextModel {
    Continue,
    Reply(MessageModel),
    Done,
    Fail(Seq<char>),
}

impl View for Next {
    type V = NextModel;

    open spec fn view(&self) -> NextModel {
        match *self {
            Next::Continue => NextModel::Continue,
            Next::Reply(m) => NextModel::Reply(m@),
            Next::Done => NextModel::Done,
            Next::Fail(why) => NextModel::Fail(why@),
        }
    }
}

/// What a message of the receiver does to the status of a cast, and what comes next.
pub open spec fn message_effect(shared: SharedModel, m: MessageModel) -> (SharedModel, NextModel) {
    match m {
        MessageModel::KeyframeRequest => (
            SharedModel { keyframe: true, ..shared },
            NextModel::Continue,
        ),
        MessageModel::BitrateHint { video_kbps } => (
            SharedModel { bitrate_hint: video_kbps, ..shared },
            NextModel::Continue,
        ),
        MessageModel::Ping { sender_time_ms } => (
            shared,
            NextModel::Reply(MessageModel::Pong { echoed_time_ms: sender_time_ms }),
        ),
        MessageModel::Bye { .. } => (shared.in_state("stopped"@), NextModel::Done),
        _ => (shared, NextModel::Continue),
    }
}

/// What it does to the status of a cast that the control stream cannot be read, and what
/// comes next.
pub open spec fn read_error_effect(shared: SharedModel, e: CodecErrorModel) -> (
    SharedModel,
    NextModel,
) {
    if e is UnexpectedEof {
        (shared.in_state("stopped"@), NextModel::Done)
    } else {
        (shared.failed("control stream error: "@ + e.text()), NextModel::Fail(e.text()))
    }
}

/// What it does to the status of a cast that a ping cannot be sent, and what comes next.
pub open spec fn send_error_effect(shared: SharedModel, e: CodecErrorModel) -> (
    SharedModel,
    NextModel,
) {
    (shared.failed("control send failed: "@ + e.text()), NextModel::Fail(e.text()))
}

impl Shared {
    /// The receiver sent a message.
    pub fn on_message(&mut self, m: &Message) -> (r: Next)
        ensures
            (final(self)@, r@) == message_effect(old(self)@, m@),
    {
        match m {
            Message::KeyframeRequest => {
                self.keyframe = true;
                Next::Continue
            },
            Message::BitrateHint { video_kbps } => {
                self.bitrate_hint = *video_kbps;
                Next::Continue
            },
            Message::Ping { sender_time_ms } => Next::Reply(
                Message::Pong { echoed_time_ms: *sender_time_ms },
            ),
            Message::Bye { reason: _ } => {
                self.set_state("stopped");
                Next::Done
            },
            _ => Next::Continue,
        }
    }

    /// The control stream could not be read.
    pub fn on_read_error(&mut self, e: &CodecError) -> (r: Next)
        ensures
            (final(self)@, r@) == read_error_effect(old(self)@, e@),
    {
        match e {
            CodecError::UnexpectedEof => {
                self.set_state("stopped");
                Next::Done
            },
            _ => {
                self.set_error(joined("control stream error: ", e.to_string().as_str()));
                Next::Fail(e.to_string())
            },
        }
    }

    /// A ping could not be sent.
    pub fn on_send_error(&mut self, e: &CodecError) -> (r: Next)
        ensures
            (final(self)@, r@) == send_error_effect(old(self)@, e@),
    {
        self.set_error(joined("control send failed: ", e.to_string().as_str()));
        Next::Fail(e.to_string())
    }
}

/// How far a cast has come.
#[derive(Debug, Clone, Copy, PartialEq, Eq, Structural)]
pub enum CastPhase {
    /// The connection is being made.
    Connecting,
    /// The receiver has been greeted.
    Greeting,
    /// Video has been offered.
    Offering,
    /// Video is sent.
    Streaming,
    /// The cast is over.
    Over,
}

/// What is to be done, in this order.
#[derive(Debug, Clone, PartialEq)]
pub enum CastStep {
    /// Connect, and report how that went.
    Connect,
    /// Send a message, and report where that fails.
    Send(Message),
    /// Send a message; it does not matter whether that succeeds.
    SendAnyway(Message),
    /// Start to send video.
    Stream,
    /// The cast is over, with an error if one is given.
    End(Option<String>),
}

/// The view of a `CastStep`.
#[verifier::ext_equal]
pub enum CastStepModel {
    Connect,
    Send(MessageModel),
    SendAnyway(MessageModel),
    Stream,
    End(Option<Seq<char>>),
}

impl View for CastStep {
    type V = CastStepModel;

    open spec fn view(&self) -> CastStepModel {
        match *self {
            CastStep::Connect => CastStepModel::Connect,
            CastStep::Send(m) => CastStepModel::Send(m@),
            CastStep::SendAnyway(m) => CastStepModel::SendAnyway(m@),
            CastStep::Stream => CastStepModel::Stream,
            CastStep::End(why) => CastStepModel::End(wire::maybe_view(why)),
        }
    }
}

/// The views of some steps.
pub open spec fn step_views(steps: Seq<CastStep>) -> Seq<CastStepModel> {
    Seq::new(steps.len(), |i: int| steps[i]@)
}

/// A cast: who casts what, and how far it has come.
pub struct CastSession {
    pub name: String,
    pub token: String,
    pub video: VideoOffer,
    pub phase: CastPhase,
}

/// The view of a `CastSession`.
#[verifier::ext_equal]
pub struct CastModel {
    pub name: Seq<char>,
    pub token: Seq<char>,
    pub video: VideoOffer,
    pub phase: CastPhase,
}

impl CastModel {
    /// The cast in another phase.
    pub open spec fn at(self, phase: CastPhase) -> CastModel {
        CastModel { phase, ..self }
    }
}

impl View for CastSession {
    type V = CastModel;

    open spec fn view(&self) -> CastModel {
        CastModel {
            name: self.name@,
            token: self.token@,
            video: self.video,
            phase: self.phase,
        }
    }
}

/// Everything that an event of a cast may change, and what is to be done.
#[verifier::ext_equal]
pub struct CastTurn {
    pub cast: CastModel,
    pub shared: SharedModel,
    pub steps: Seq<CastStepModel>,
}

/// Nothing changes and nothing is to be done.
pub open spec fn idle_turn(cast: CastModel, shared: SharedModel) -> CastTurn {
    CastTurn { cast, shared, steps: Seq::empty() }
}

/// The end of a cast.
pub open spec fn over_turn(
    cast: CastModel,
    shared: SharedModel,
    why: Option<Seq<char>>,
) -> CastTurn {
    CastTurn {
        cast: cast.at(CastPhase::Over),
        shared: status_after(shared),
        steps: seq![CastStepModel::End(why)],
    }
}

/// The end of a cast that did not come to stream: the status says why.
pub open spec fn failed_turn(cast: CastModel, shared: SharedModel, why: Seq<char>) -> CastTurn {
    CastTurn {
        cast: cast.at(CastPhase::Over),
        shared: shared.failed(why),
        steps: seq![CastStepModel::End(Some(why))],
    }
}

/// What follows what a phone that streams has read, or failed to.
pub open spec fn next_turn(cast: CastModel, effect: (SharedModel, NextModel)) -> CastTurn {
    match effect.1 {
        NextModel::Continue => idle_turn(cast, effect.0),
        NextModel::Reply(m) => CastTurn {
            cast,
            shared: effect.0,
            steps: seq![CastStepModel::SendAnyway(m)],
        },
        NextModel::Done => over_turn(cast, effect.0, None),
        NextModel::Fail(why) => over_turn(cast, effect.0, Some(why)),
    }
}

/// What follows a message of the receiver: the welcome is followed by the offer, an accepted
/// offer by the stream.
pub open spec fn cast_message_turn(
    cast: CastModel,
    shared: SharedModel,
    m: MessageModel,
) -> CastTurn {
    match cast.phase {
        CastPhase::Greeting => match phone::welcome_problem(m) {
            None => CastTurn {
                cast: cast.at(CastPhase::Offering),
                shared: shared.in_state("offering"@),
                steps: seq![CastStepModel::Send(offer_message(cast.video))],
            },
            Some(why) => failed_turn(cast, shared, why),
        },
        CastPhase::Offering => match answer_problem(m) {
            None => CastTurn {
                cast: cast.at(CastPhase::Streaming),
                shared: shared.in_state("streaming"@),
                steps: seq![CastStepModel::Stream],
            },
            Some(why) => failed_turn(cast, shared, why),
        },
        CastPhase::Streaming => next_turn(cast, message_effect(shared, m)),
        _ => idle_turn(cast, shared),
    }
}

/// What follows when the control stream cannot be read.
pub open spec fn cast_read_error_turn(
    cast: CastModel,
    shared: SharedModel,
    e: CodecErrorModel,
) -> CastTurn {
    match cast.phase {
        CastPhase::Streaming => next_turn(cast, read_error_effect(shared, e)),
        CastPhase::Greeting => failed_turn(cast, shared, e.text()),
        CastPhase::Offering => failed_turn(cast, shared, e.text()),
        _ => idle_turn(cast, shared),
    }
}

/// What follows when a message that matters cannot be sent.
pub open spec fn cast_send_error_turn(
    cast: CastModel,
    shared: SharedModel,
    e: CodecErrorModel,
) -> CastTurn {
    match cast.phase {
        CastPhase::Streaming => next_turn(cast, send_error_effect(shared, e)),
        CastPhase::Greeting => failed_turn(cast, shared, e.text()),
        CastPhase::Offering => failed_turn(cast, shared, e.text()),
        _ => idle_turn(cast, shared),
    }
}

fn no_steps() -> (r: Vec<CastStep>)
    ensures
        step_views(r@) == Seq::<CastStepModel>::empty(),
{
    let r: Vec<CastStep> = Vec::new();
    assert(step_views(r@) =~= Seq::<CastStepModel>::empty());
    r
}

fn push_step(out: &mut Vec<CastStep>, s: CastStep)
    ensures
        step_views(final(out)@) == step_views(old(out)@).push(s@),
{
    out.push(s);
    proof {
        assert(step_views(out@) =~= step_views(old(out)@).push(s@));
    }
}

fn one_step(s: CastStep) -> (r: Vec<CastStep>)
    ensures
        step_views(r@) == seq![s@],
{
    let mut out = no_steps();
    push_step(&mut out, s);
    assert(step_views(out@) =~= seq![s@]);
    out
}

impl CastSession {
    /// A cast that is about to connect.
    pub fn new(name: String, token: String, video: VideoOffer) -> (r: CastSession)
        ensures
            r@ == (CastModel { name: name@, token: token@, video, phase: CastPhase::Connecting }),
    {
        CastSession { name, token, video, phase: CastPhase::Connecting }
    }

    /// Begins: what an earlier cast left in the sender is forgotten.
    pub fn begin(&self, shared: &mut Shared, sender: &mut VideoSender) -> (r: Vec<CastStep>)
        ensures
            final(shared)@ == old(shared)@.in_state("connecting"@),
            final(sender).config is None,
            final(sender).ssrc == old(sender).ssrc,
            final(sender).next_seq == old(sender).next_seq,
            step_views(r@) == seq![CastStepModel::Connect],
    {
        sender.config = None;
        shared.set_state("connecting");
        one_step(CastStep::Connect)
    }

    /// The connection was made: the receiver is greeted with the token.
    pub fn on_connected(&mut self) -> (r: Vec<CastStep>)
        ensures
            match old(self)@.phase {
                CastPhase::Connecting => {
                    &&& final(self)@ == old(self)@.at(CastPhase::Greeting)
                    &&& step_views(r@) == seq![
                        CastStepModel::Send(
                            MessageModel::Hello {
                                proto_version: Version::current(),
                                device_name: old(self)@.name,
                                auth_token: Some(old(self)@.token),
                            },
                        ),
                    ]
                },
                _ => final(self)@ == old(self)@ && step_views(r@)
                    == Seq::<CastStepModel>::empty(),
            },
    {
        match self.phase {
            CastPhase::Connecting => {
                self.phase = CastPhase::Greeting;
                one_step(CastStep::Send(hello(self.name.as_str(), Some(self.token.clone()))))
            },
            _ => no_steps(),
        }
    }

    /// The connection could not be made, or broke before the greeting.
    pub fn on_connect_failure(&mut self, why: String, shared: &mut Shared) -> (r: Vec<CastStep>)
        ensures
            (CastTurn {
                cast: final(self)@,
                shared: final(shared)@,
                steps: step_views(r@),
            }) == failed_turn(old(self)@, old(shared)@, why@),
    {
        self.fail(shared, why)
    }

    fn fail(&mut self, shared: &mut Shared, why: String) -> (r: Vec<CastStep>)
        ensures
            (CastTurn {
                cast: final(self)@,
                shared: final(shared)@,
                steps: step_views(r@),
            }) == failed_turn(old(self)@, old(shared)@, why@),
    {
        self.phase = CastPhase::Over;
        shared.set_error(why.clone());
        one_step(CastStep::End(Some(why)))
    }

    fn finish(&mut self, shared: &mut Shared, why: Option<String>) -> (r: Vec<CastStep>)
        ensures
            (CastTurn {
                cast: final(self)@,
                shared: final(shared)@,
                steps: step_views(r@),
            }) == over_turn(old(self)@, old(shared)@, wire::maybe_view(why)),
    {
        self.phase = CastPhase::Over;
        shared.end_run();
        one_step(CastStep::End(why))
    }

    fn follow(&mut self, shared: &mut Shared, next: Next) -> (r: Vec<CastStep>)
        ensures
            (CastTurn {
                cast: final(self)@,
                shared: final(shared)@,
                steps: step_views(r@),
            }) == next_turn(old(self)@, (old(shared)@, next@)),
    {
        match next {
            Next::Continue => no_steps(),
            Next::Reply(m) => one_step(CastStep::SendAnyway(m)),
            Next::Done => self.finish(shared, None),
            Next::Fail(why) => self.finish(shared, Some(why)),
        }
    }

    /// The receiver sent a message.
    pub fn on_message(&mut self, m: &Message, shared: &mut Shared) -> (r: Vec<CastStep>)
        ensures
            (CastTurn {
                cast: final(self)@,
                shared: final(shared)@,
                steps: step_views(r@),
            }) == cast_message_turn(old(self)@, old(shared)@, m@),
    {
        match self.phase {
            CastPhase::Greeting => match check_welcome(m) {
                Ok(_) => {
                    self.phase = CastPhase::Offering;
                    shared.set_state("offering");
                    one_step(CastStep::Send(session_offer(self.video)))
                },
                Err(why) => self.fail(shared, why),
            },
            CastPhase::Offering => match check_answer(m) {
                Ok(()) => {
                    self.phase = CastPhase::Streaming;
                    shared.set_state("streaming");
                    one_step(CastStep::Stream)
                },
                Err(why) => self.fail(shared, why),
            },
            CastPhase::Streaming => {
                let next = shared.on_message(m);
                self.follow(shared, next)
            },
            _ => no_steps(),
        }
    }

    /// The control stream could not be read.
    pub fn on_read_error(&mut self, e: &CodecError, shared: &mut Shared) -> (r: Vec<CastStep>)
        ensures
            (CastTurn {
                cast: final(self)@,
                shared: final(shared)@,
                steps: step_views(r@),
            }) == cast_read_error_turn(old(self)@, old(shared)@, e@),
    {
        match self.phase {
            CastPhase::Streaming => {
                let next = shared.on_read_error(e);
                self.follow(shared, next)
            },
            CastPhase::Greeting => self.fail(shared, e.to_string()),
            CastPhase::Offering => self.fail(shared, e.to_string()),
            _ => no_steps(),
        }
    }

    /// A message that matters could not be sent.
    pub fn on_send_error(&mut self, e: &CodecError, shared: &mut Shared) -> (r: Vec<CastStep>)
        ensures
            (CastTurn {
                cast: final(self)@,
                shared: final(shared)@,
                steps: step_views(r@),
            }) == cast_send_error_turn(old(self)@, old(shared)@, e@),
    {
        match self.phase {
            CastPhase::Streaming => {
                let next = shared.on_send_error(e);
                self.follow(shared, next)
            },
            CastPhase::Greeting => self.fail(shared, e.to_string()),
            CastPhase::Offering => self.fail(shared, e.to_string()),
            _ => no_steps(),
        }
    }

    /// It is time for a ping, at the time `now_ms`.
    pub fn on_tick(&self, now_ms: u64) -> (r: Vec<CastStep>)
        ensures
            step_views(r@) == (if self@.phase is Streaming {
                seq![CastStepModel::Send(MessageModel::Ping { sender_time_ms: now_ms })]
            } else {
                Seq::<CastStepModel>::empty()
            }),
    {
        match self.phase {
            CastPhase::Streaming => one_step(
                CastStep::Send(Message::Ping { sender_time_ms: now_ms }),
            ),
            _ => no_steps(),
        }
    }

    /// The host wants the cast to stop. A cast that does not stream yet goes on until it
    /// does.
    pub fn on_stop(&mut self, shared: &mut Shared) -> (r: Vec<CastStep>)
        ensures
            (CastTurn {
                cast: final(self)@,
                shared: final(shared)@,
                steps: step_views(r@),
            }) == (if old(self)@.phase is Streaming {
                CastTurn {
                    cast: old(self)@.at(CastPhase::Over),
                    shared: status_after(old(shared)@),
                    steps: seq![
                        CastStepModel::SendAnyway(MessageModel::Bye { reason: "cast stopped"@ }),
                        CastStepModel::End(None),
                    ],
                }
            } else {
                idle_turn(old(self)@, old(shared)@)
            }),
    {
        match self.phase {
            CastPhase::Streaming => {
                self.phase = CastPhase::Over;
                shared.end_run();
                let mut out = one_step(CastStep::SendAnyway(stop_message()));
                push_step(&mut out, CastStep::End(None));
                out
            },
            _ => no_steps(),
        }
    }
}

/// A cast streams only once the receiver has accepted its offer: nothing else that is read
/// or sent makes it stream, and the packets start then and only then.
pub proof fn law_casts_stream_once_accepted(
    cast: CastModel,
    shared: SharedModel,
    m: MessageModel,
    e: CodecErrorModel,
)
    ensures
        cast_message_turn(cast, shared, m).steps.contains(CastStepModel::Stream) <==> (
        cast.phase is Offering && answer_problem(m) is None),
        cast_message_turn(cast, shared, m).cast.phase is Streaming && cast.phase !is Streaming ==> (
        cast.phase is Offering && answer_problem(m) is None),
        !cast_read_error_turn(cast, shared, e).steps.contains(CastStepModel::Stream),
        !cast_send_error_turn(cast, shared, e).steps.contains(CastStepModel::Stream),
        cast_read_error_turn(cast, shared, e).cast.phase is Streaming ==> cast.phase is Streaming,
        cast_send_error_turn(cast, shared, e).cast.phase is Streaming ==> cast.phase is Streaming,
{
    let t = cast_message_turn(cast, shared, m);
    if cast.phase is Offering && answer_problem(m) is None {
        assert(t.steps[0] == CastStepModel::Stream);
    }
}

/// A cast that ends is stopped or in error, never as if it still streamed.
pub proof fn law_ended_casts_do_not_stream(
    cast: CastModel,
    shared: SharedModel,
    m: MessageModel,
    e: CodecErrorModel,
)
    requires
        cast.phase is Greeting || cast.phase is Offering || (cast.phase is Streaming && decided(
            shared,
        )),
    ensures
        ({
            let a = cast_message_turn(cast, shared, m);
            a.cast.phase is Over ==> decided(a.shared) && a.shared.state != "streaming"@
        }),
        ({
            let b = cast_read_error_turn(cast, shared, e);
            b.cast.phase is Over && decided(b.shared) && b.shared.state != "streaming"@
        }),
        ({
            let c = cast_send_error_turn(cast, shared, e);
            c.cast.phase is Over && decided(c.shared) && c.shared.state != "streaming"@
        }),
{
    reveal_strlit("streaming");
    reveal_strlit("stopped");
    reveal_strlit("error");
    assert("stopped"@ != "streaming"@) by {
        assert("stopped"@.len() != "streaming"@.len());
    }
    assert("error"@ != "streaming"@) by {
        assert("error"@.len() != "streaming"@.len());
    }
}

/// The host is told how the start of a cast went: that it succeeded when the receiver
/// accepts the offer, and otherwise why not, be it a refusal, a message out of place, or a
/// connection that fails.
pub proof fn law_starts_are_answered(
    cast: CastModel,
    shared: SharedModel,
    m: MessageModel,
    e: CodecErrorModel,
    why: Seq<char>,
)
    ensures
        start_json(failed_turn(cast, shared, why).shared) == json::failed_json(why),
        cast.phase is Greeting ==> (match phone::welcome_problem(m) {
            None => !decided(cast_message_turn(cast, shared, m).shared),
            Some(problem) => start_json(cast_message_turn(cast, shared, m).shared)
                == json::failed_json(problem),
        }),
        cast.phase is Offering ==> (match answer_problem(m) {
            None => start_json(cast_message_turn(cast, shared, m).shared) == json::done_json(),
            Some(problem) => start_json(cast_message_turn(cast, shared, m).shared)
                == json::failed_json(problem),
        }),
        cast.phase is Greeting || cast.phase is Offering ==> start_json(
            cast_read_error_turn(cast, shared, e).shared,
        ) == json::failed_json(e.text()) && start_json(
            cast_send_error_turn(cast, shared, e).shared,
        ) == json::failed_json(e.text()),
{
    reveal_strlit("streaming");
    reveal_strlit("stopped");
    reveal_strlit("error");
    reveal_strlit("offering");
    assert("error"@ != "streaming"@) by {
        assert("error"@.len() != "streaming"@.len());
    }
    assert("offering"@ != "streaming"@ && "offering"@ != "stopped"@ && "offering"@ != "error"@) by {
        assert("offering"@.len() != "streaming"@.len());
        assert("offering"@.len() != "stopped"@.len());
        assert("offering"@.len() != "error"@.len());
    }
}

/// What was sent of a medium.
#[derive(Debug, Clone, Copy, PartialEq, Eq, Structural)]
pub struct FlowStats {
    pub sent: u64,
    pub dropped: u64,
    pub bytes: u64,
}

impl Default for FlowStats {
    fn default() -> (r: Self)
        ensures
            r == (FlowStats { sent: 0, dropped: 0, bytes: 0 }),
    {
        FlowStats { sent: 0, dropped: 0, bytes: 0 }
    }
}

impl FlowStats {
    /// A packet of `size` bytes was handed to the connection. Tells whether to go on with
    /// the next.
    pub fn note_send(&mut self, outcome: SendOutcome, size: u64) -> (go_on: bool)
        ensures
            go_on == !(outcome is ConnectionLost),
            *final(self) == (match outcome {
                SendOutcome::Sent => FlowStats {
                    sent: crate::media::wrapped(old(self).sent, 1),
                    bytes: crate::media::wrapped(old(self).bytes, size),
                    ..*old(self)
                },
                SendOutcome::ConnectionLost => *old(self),
                SendOutcome::Refused => FlowStats {
                    dropped: crate::media::wrapped(old(self).dropped, 1),
                    ..*old(self)
                },
            }),
    {
        match outcome {
            SendOutcome::Sent => {
                self.sent = self.sent.wrapping_add(1);
                self.bytes = self.bytes.wrapping_add(size);
                true
            },
            SendOutcome::ConnectionLost => false,
            SendOutcome::Refused => {
                self.note_drop();
                true
            },
        }
    }

    /// A packet was dropped before it could be sent.
    pub fn note_drop(&mut self)
        ensures
            *final(self) == (FlowStats {
                dropped: crate::media::wrapped(old(self).dropped, 1),
                ..*old(self)
            }),
    {
        self.dropped = self.dropped.wrapping_add(1);
    }

    /// All counters, in their order.
    pub fn snapshot(&self) -> (r: (u64, u64, u64))
        ensures
            r == (self.sent, self.dropped, self.bytes),
    {
        (self.sent, self.dropped, self.bytes)
    }
}

/// What a test-pattern cast sends.
#[derive(Debug, Clone, Copy, PartialEq, Eq, Structural)]
pub struct CastMedia {
    pub width: u16,
    pub height: u16,
    pub fps: u8,
    pub bitrate_kbps: u32,
    pub with_audio: bool,
}

impl CastMedia {
    /// Checks that every size is positive.
    pub fn validate(&self) -> (r: Result<(), String>)
        ensures
            r is Ok <==> self.width > 0 && self.height > 0 && self.fps > 0 && self.bitrate_kbps > 0,
            r matches Err(e) ==> e@ == "--width/--height/--fps/--bitrate-kbps must be positive"@,
    {
        if self.width > 0 && self.height > 0 && self.fps > 0 && self.bitrate_kbps > 0 {
            Ok(())
        } else {
            Err("--width/--height/--fps/--bitrate-kbps must be positive".to_owned())
        }
    }
}

/// The pipeline of the test-pattern encoder.
pub open spec fn video_pipeline_text(width: u16, height: u16, fps: u8, bitrate_kbps: u32) -> Seq<
    char,
> {
    "videotestsrc is-live=true ! video/x-raw,format=I420,width="@ + text::decimal(width as nat)
        + ",height="@ + text::decimal(height as nat) + ",framerate="@ + text::decimal(fps as nat)
        + "/1 ! openh264enc bitrate="@ + text::decimal((bitrate_kbps * 1000) as nat)
        + " complexity=0 gop-size=60 ! video/x-h264,stream-format=byte-stream,alignment=au ! "@
        + "rtph264pay pt=96 mtu=1100 config-interval=-1 ! "@
        + "appsink sync=false max-buffers=4 drop=true name=vidsink"@
}

/// The pipeline of the test-pattern encoder.
pub fn video_pipeline(width: u16, height: u16, fps: u8, bitrate_kbps: u32) -> (r: String)
    requires
        bitrate_kbps * 1000 <= u32::MAX,
    ensures
        r@ == video_pipeline_text(width, height, fps, bitrate_kbps),
{
    let mut out = "videotestsrc is-live=true ! video/x-raw,format=I420,width=".to_owned();
    push_decimal(&mut out, width as u64);
    out.append(",height=");
    push_decimal(&mut out, height as u64);
    out.append(",framerate=");
    push_decimal(&mut out, fps as u64);
    out.append("/1 ! openh264enc bitrate=");
    push_decimal(&mut out, bitrate_kbps as u64 * 1000);
    out.append(
        " complexity=0 gop-size=60 ! video/x-h264,stream-format=byte-stream,alignment=au ! ",
    );
    out.append("rtph264pay pt=96 mtu=1100 config-interval=-1 ! ");
    out.append("appsink sync=false max-buffers=4 drop=true name=vidsink");
    out
}

/// Every packet that a phone sends keeps the size limit and is taken for video by the
/// receiver.
pub proof fn law_phone_packets_reach_the_video_queue(
    data: Seq<u8>,
    config: Option<Seq<u8>>,
    ts: int,
    ssrc: int,
    seq: int,
    k: int,
)
    requires
        0 <= seq < 65536,
        0 <= k < rtp::au_packets(
            rtp::nal_units(au_of(data, config)),
            (rtp::Stream { ts, ssrc, mtu: MTU as int }),
            seq,
        ).len(),
    ensures
        ({
            let packet = rtp::au_packets(
                rtp::nal_units(au_of(data, config)),
                (rtp::Stream { ts, ssrc, mtu: MTU as int }),
                seq,
            )[k];
            packet.len() <= MTU && crate::media::route_of(packet) is Video
        }),
{
    let units = rtp::nal_units(au_of(data, config));
    rtp::law_nal_units_are_not_empty(au_of(data, config));
    let st = rtp::Stream { ts, ssrc, mtu: MTU as int };
    rtp::law_packets_are_numbered_marked_and_fit(units, st, seq, k);
    crate::media::law_sent_packets_are_routed_to_video(units, st, seq, k);
}

/// Every offer that a phone makes for parameters within the receiver's limits is one that
/// the receiver takes.
pub proof fn law_clamped_offers_within_limits_are_taken(
    width: int,
    height: int,
    fps: int,
    kbps: int,
    video: VideoOffer,
)
    requires
        width <= 1920,
        height <= 1080,
        video.width == clamped(width, 2, 4096),
        video.height == clamped(height, 2, 4096),
        video.fps == clamped(fps, 1, 60),
        video.bitrate_kbps == clamped(kbps, 500, 25000),
    ensures
        crate::media::offer_problem(
            video,
            AudioOffer { codec: AudioCodec::Opus, sample_rate: 48_000, channels: 2 },
        ) is None,
{
}

/// What is sent for an encoder buffer of units behind their lengths: the Annex-B stream of
/// these units, whole, and in front of it the parameter sets exactly when one of the units is
/// a refresh slice and the sets are known.
pub proof fn law_key_frames_follow_the_parameter_sets(
    units: Seq<Seq<u8>>,
    config: Option<Seq<u8>>,
)
    requires
        units.len() > 0,
        forall|j: int|
            0 <= j < units.len() ==> 0 < (#[trigger] units[j]).len() < 4294967296
                && rtp::free_of_codes(units[j]) && (j < units.len() - 1 ==> units[j].last() != 0),
    ensures
        ({
            let stream = rtp::annexb(units);
            let key = exists|j: int| 0 <= j < units.len() && (#[trigger] units[j])[0] % 32 == 5;
            au_of(rtp::length_prefixed(units), config) == (match config {
                Some(sets) => if key {
                    sets + stream
                } else {
                    stream
                },
                None => stream,
            })
        }),
{
    rtp::law_length_prefixes_are_undone(units, Seq::empty());
    rtp::law_streams_give_the_units_back(units);
    let stream = rtp::annexb(units);
    if rtp::has_idr(stream) {
        let k = choose|k: int|
            0 <= k < rtp::nal_units(stream).len() && rtp::nal_type(
                #[trigger] rtp::nal_units(stream)[k],
            ) == 5;
        assert(units[k][0] % 32 == 5);
    }
    if exists|j: int| 0 <= j < units.len() && (#[trigger] units[j])[0] % 32 == 5 {
        let j = choose|j: int| 0 <= j < units.len() && (#[trigger] units[j])[0] % 32 == 5;
        assert(rtp::nal_type(rtp::nal_units(stream)[j]) == 5);
    }
}

/// A buffer that is no row of units behind their lengths is sent as it is, again with the
/// parameter sets in front of it exactly when it holds a refresh slice and they are known.
pub proof fn law_other_buffers_are_sent_as_they_are(data: Seq<u8>, config: Option<Seq<u8>>)
    requires
        rtp::lp_annexb(data) is None,
    ensures
        stream_of(data) == data,
        au_of(data, None) == data,
        config matches Some(sets) ==> au_of(data, config) == (if exists|p: int|
            #![trigger data[p]]
            0 <= p && p + 3 < data.len() && data[p] == 0 && data[p + 1] == 0 && data[p + 2] == 1
                && data[p + 3] % 32 == 5 {
            sets + data
        } else {
            data
        }),
{
    rtp::law_key_frames_hold_a_refresh_slice(data);
}

/// What a message of the receiver does to a cast that streams: a request for a key frame and a
/// hint are noted, a ping is answered with its own time, a goodbye ends the cast, and all else
/// is passed over. Nothing but that changes.
pub proof fn law_messages_to_a_cast(cast: CastModel, shared: SharedModel, m: MessageModel)
    requires
        cast.phase is Streaming,
        shared.state == "streaming"@,
    ensures
        ({
            let turn = cast_message_turn(cast, shared, m);
            &&& m is KeyframeRequest ==> turn.cast == cast && turn.shared == (SharedModel {
                keyframe: true,
                ..shared
            }) && turn.steps.len() == 0
            &&& m matches MessageModel::BitrateHint { video_kbps } ==> turn.cast == cast
                && turn.shared == (SharedModel { bitrate_hint: video_kbps, ..shared })
                && turn.steps.len() == 0
            &&& m matches MessageModel::Ping { sender_time_ms: t } ==> turn.cast == cast
                && turn.shared == shared && turn.steps == seq![
                CastStepModel::SendAnyway(MessageModel::Pong { echoed_time_ms: t }),
            ]
            &&& m is Bye ==> turn.cast.phase is Over && turn.shared == (SharedModel {
                state: "stopped"@,
                ..shared
            }) && turn.steps == seq![CastStepModel::End(None)]
            &&& !(m is KeyframeRequest || m is BitrateHint || m is Ping || m is Bye) ==> turn.cast
                == cast && turn.shared == shared && turn.steps.len() == 0
        }),
{
    reveal_strlit("streaming");
    reveal_strlit("stopped");
    assert("stopped"@ != "streaming"@) by {
        assert("stopped"@.len() != "streaming"@.len());
    }
}

/// A cast that streams ends stopped where the control stream ends, and in an error that names
/// the cause where it cannot be read or written.
pub proof fn law_broken_streams_end_a_cast(
    cast: CastModel,
    shared: SharedModel,
    e: CodecErrorModel,
)
    requires
        cast.phase is Streaming,
        shared.state == "streaming"@,
    ensures
        ({
            let read = cast_read_error_turn(cast, shared, e);
            let sent = cast_send_error_turn(cast, shared, e);
            &&& read.cast.phase is Over && sent.cast.phase is Over
            &&& e == CodecErrorModel::UnexpectedEof ==> read.shared.state == "stopped"@
                && read.shared.error == shared.error && read.steps == seq![
                CastStepModel::End(None),
            ]
            &&& e != CodecErrorModel::UnexpectedEof ==> read.shared.state == "error"@
                && read.shared.error == Some("control stream error: "@ + e.text()) && read.steps
                == seq![CastStepModel::End(Some(e.text()))]
            &&& sent.shared.state == "error"@ && sent.shared.error == Some(
                "control send failed: "@ + e.text(),
            ) && sent.steps == seq![CastStepModel::End(Some(e.text()))]
            &&& read.shared.sent == shared.sent && read.shared.dropped == shared.dropped
        }),
{
    reveal_strlit("streaming");
    reveal_strlit("stopped");
    reveal_strlit("error");
    assert("stopped"@ != "streaming"@) by {
        assert("stopped"@.len() != "streaming"@.len());
    }
    assert("error"@ != "streaming"@) by {
        assert("error"@.len() != "streaming"@.len());
    }
}

/// A cast runs from its greeting to its stream: the welcome of a receiver of version 1.0 is
/// followed by the offer of the cast's own video and a silent stereo track, and an answer that
/// accepts it by the stream. Anything else ends the cast with the reason.
pub proof fn law_a_cast_runs_its_course(cast: CastModel, shared: SharedModel, m: MessageModel)
    ensures
        cast.phase is Greeting ==> ({
            let turn = cast_message_turn(cast, shared, m);
            let welcome = m matches MessageModel::HelloAck { proto_version: v, .. } && v.major == 1
                && v.minor == 0;
            &&& welcome ==> turn == (CastTurn {
                cast: CastModel { phase: CastPhase::Offering, ..cast },
                shared: SharedModel { state: "offering"@, ..shared },
                steps: seq![
                    CastStepModel::Send(
                        MessageModel::SessionOffer {
                            video: cast.video,
                            audio: AudioOffer {
                                codec: AudioCodec::Opus,
                                sample_rate: 48_000,
                                channels: 2,
                            },
                        },
                    ),
                ],
            })
            &&& !welcome ==> turn.cast.phase is Over && turn.shared.state == "error"@
        }),
        cast.phase is Offering ==> ({
            let turn = cast_message_turn(cast, shared, m);
            let yes = m matches MessageModel::SessionAnswer { accepted: true, .. };
            &&& yes ==> turn == (CastTurn {
                cast: CastModel { phase: CastPhase::Streaming, ..cast },
                shared: SharedModel { state: "streaming"@, ..shared },
                steps: seq![CastStepModel::Stream],
            })
            &&& !yes ==> turn.cast.phase is Over && turn.shared.state == "error"@
            &&& m matches MessageModel::SessionAnswer { accepted: false, reason: Some(why), .. }
                ==> turn.shared.error == Some("receiver refused the session: "@ + why)
        }),
        cast.phase is Over || cast.phase is Connecting ==> cast_message_turn(cast, shared, m) == (
        CastTurn { cast, shared, steps: Seq::empty() }),
{
    reveal_strlit("streaming");
    reveal_strlit("error");
    assert("error"@ != "streaming"@) by {
        assert("error"@.len() != "streaming"@.len());
    }
}

/// A value moved into a range is in it, and is the value itself where that is.
pub proof fn law_clamping_moves_into_the_range(v: int, low: int, high: int)
    requires
        low <= high,
    ensures
        low <= clamped(v, low, high) <= high,
        low <= v <= high ==> clamped(v, low, high) == v,
        v < low ==> clamped(v, low, high) == low,
        v > high ==> clamped(v, low, high) == high,
{
}

/// The host can tell from the state alone whether a cast has been decided.
pub proof fn law_three_states_decide_a_cast(shared: SharedModel)
    ensures
        decided(shared) <==> seq!["streaming"@, "error"@, "stopped"@].contains(shared.state),
        status_after(shared).error == shared.error,
        shared.state == "streaming"@ ==> status_after(shared).state == "stopped"@,
        shared.state != "streaming"@ ==> status_after(shared) == shared,
{
    let all = seq!["streaming"@, "error"@, "stopped"@];
    assert(all[0] == "streaming"@ && all[1] == "error"@ && all[2] == "stopped"@);
}

/// The model of a list of steps holds every step of it, in its place, field by field.
pub proof fn law_models_hold_every_step(list: Seq<CastStep>, x: CastStep, i: int)
    requires
        0 <= i < list.len(),
        list[i] == x,
    ensures
        step_views(list).len() == list.len(),
        step_views(list)[i] == (match x {
            CastStep::Connect => CastStepModel::Connect,
            CastStep::Send(m) => CastStepModel::Send(m@),
            CastStep::SendAnyway(m) => CastStepModel::SendAnyway(m@),
            CastStep::Stream => CastStepModel::Stream,
            CastStep::End(why) => CastStepModel::End(wire::maybe_view(why)),
        }
        ),
{
}

/// The test pattern has the size, the rate and the bits per second that it is asked for.
pub proof fn law_test_patterns_are_as_asked(width: u16, height: u16, fps: u8, kbps: u32)
    ensures
        video_pipeline_text(width, height, fps, kbps)
            == "videotestsrc is-live=true ! video/x-raw,format=I420,width="@ + text::decimal(
            width as nat,
        ) + ",height="@ + text::decimal(height as nat) + ",framerate="@ + text::decimal(fps as nat)
            + "/1 ! openh264enc bitrate="@ + text::decimal((1000 * kbps) as nat)
            + " complexity=0 gop-size=60 ! video/x-h264,stream-format=byte-stream,alignment=au ! "@
            + "rtph264pay pt=96 mtu=1100 config-interval=-1 ! "@
            + "appsink sync=false max-buffers=4 drop=true name=vidsink"@,
{
}

/// A start that fails is told by the error of the cast, by the stop, or by the lack of an
/// answer.
pub proof fn law_starts_that_fail_are_told(shared: SharedModel, why: Seq<char>)
    ensures
        shared.state == "error"@ && shared.error == Some(why) ==> start_problem(shared) == why,
        shared.state == "error"@ && shared.error is None ==> start_problem(shared)
            == "unknown error"@,
        shared.state == "stopped"@ ==> start_problem(shared) == "cast stopped"@,
        shared.state != "error"@ && shared.state != "stopped"@ ==> start_problem(shared)
            == "no answer from the receiver"@,
        shared.in_state(why) == (SharedModel { state: why, ..shared }),
        shared.failed(why) == (SharedModel { state: "error"@, error: Some(why), ..shared }),
{
    reveal_strlit("error");
    reveal_strlit("stopped");
    assert("error"@ != "stopped"@) by {
        assert("error"@.len() != "stopped"@.len());
    }
}

/// What a message, an error of reading and one of sending do to a cast that streams.
pub proof fn law_effects_on_a_stream(shared: SharedModel, m: MessageModel, e: CodecErrorModel)
    ensures
        m is KeyframeRequest ==> message_effect(shared, m) == (
            SharedModel { keyframe: true, ..shared },
            NextModel::Continue,
        ),
        m matches MessageModel::BitrateHint { video_kbps: k } ==> message_effect(shared, m) == (
            SharedModel { bitrate_hint: k, ..shared },
            NextModel::Continue,
        ),
        m matches MessageModel::Ping { sender_time_ms: t } ==> message_effect(shared, m) == (
            shared,
            NextModel::Reply(MessageModel::Pong { echoed_time_ms: t }),
        ),
        m is Bye ==> message_effect(shared, m) == (
            SharedModel { state: "stopped"@, ..shared },
            NextModel::Done,
        ),
        !(m is KeyframeRequest || m is BitrateHint || m is Ping || m is Bye) ==> message_effect(
            shared,
            m,
        ) == (shared, NextModel::Continue),
        e is UnexpectedEof ==> read_error_effect(shared, e) == (
            SharedModel { state: "stopped"@, ..shared },
            NextModel::Done,
        ),
        !(e is UnexpectedEof) ==> read_error_effect(shared, e) == (
            SharedModel {
                state: "error"@,
                error: Some("control stream error: "@ + e.text()),
                ..shared
            },
            NextModel::Fail(e.text()),
        ),
        send_error_effect(shared, e) == (
            SharedModel {
                state: "error"@,
                error: Some("control send failed: "@ + e.text()),
                ..shared
            },
            NextModel::Fail(e.text()),
        ),
{
}

} // verus!
