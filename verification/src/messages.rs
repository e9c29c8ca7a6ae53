//! The messages of the control protocol and the rules they must keep.

use vstd::prelude::*;

use crate::text;
use crate::text::{chars_of, push_decimal};
use crate::wire;

verus! {

/// Name of the protocol.
pub const PROTOCOL_NAME: &'static str = "WDL";

/// Most bytes a frame may have.
pub const MAX_MESSAGE_LEN: usize = 4096;

/// Most bytes of a SPAKE2 message.
pub const MAX_SPAKE_MESSAGE_LEN: usize = 128;

/// Most characters of a device or receiver name.
pub const MAX_NAME_LEN: usize = 64;

/// Most bytes of a device token.
pub const MAX_TOKEN_LEN: usize = 64;

/// Most characters of a reason.
pub const MAX_REASON_LEN: usize = 256;

/// A version of the protocol.
#[derive(Debug, Clone, Copy, PartialEq, Eq, PartialOrd, Ord, Structural)]
pub struct Version {
    pub major: u16,
    pub minor: u16,
}

impl Version {
    /// The version that this library speaks.
    #[verifier::allow_in_spec]
    pub fn current() -> (r: Version)
        returns
            (Version { major: 1, minor: 0 }),
    {
        Version { major: 1, minor: 0 }
    }

    /// Whether a peer that speaks `peer` can be served: the major numbers are equal and
    /// the peer is not newer.
    pub open spec fn serves(self, peer: Version) -> bool {
        self.major == peer.major && peer.minor <= self.minor
    }

    /// Whether a peer that speaks `peer` can be served: the major numbers are equal and
    /// the peer is not newer.
    pub fn compatible_with(&self, peer: Version) -> (r: bool)
        ensures
            r == self.serves(peer),
    {
        self.major == peer.major && peer.minor <= self.minor
    }

    /// The version as text, `major.minor`.
    pub open spec fn text(self) -> Seq<char> {
        text::decimal(self.major as nat) + seq!['.'] + text::decimal(self.minor as nat)
    }

    /// The version as text, `major.minor`.
    pub fn to_string(&self) -> (r: String)
        ensures
            r@ == self.text(),
    {
        let mut out = String::new();
        push_decimal(&mut out, self.major as u64);
        out.push('.');
        push_decimal(&mut out, self.minor as u64);
        assert(out@ =~= self.text());
        out
    }
}

/// Video codecs that a phone may offer.
#[derive(Debug, Clone, Copy, PartialEq, Eq, Structural)]
pub enum VideoCodec {
    H264Baseline,
    H264Main,
}

impl VideoCodec {
    /// The codec's name.
    pub open spec fn text(self) -> Seq<char> {
        match self {
            VideoCodec::H264Baseline => "H.264 baseline"@,
            VideoCodec::H264Main => "H.264 main"@,
        }
    }

    /// The codec's name.
    pub fn name(self) -> (r: &'static str)
        ensures
            r@ == self.text(),
    {
        match self {
            VideoCodec::H264Baseline => "H.264 baseline",
            VideoCodec::H264Main => "H.264 main",
        }
    }
}

/// Audio codecs that a phone may offer.
#[derive(Debug, Clone, Copy, PartialEq, Eq, Structural)]
pub enum AudioCodec {
    Opus,
    AacLc,
}

impl AudioCodec {
    /// The codec's name.
    pub open spec fn text(self) -> Seq<char> {
        match self {
            AudioCodec::Opus => "Opus"@,
            AudioCodec::AacLc => "AAC-LC"@,
        }
    }

    /// The codec's name.
    pub fn name(self) -> (r: &'static str)
        ensures
            r@ == self.text(),
    {
        match self {
            AudioCodec::Opus => "Opus",
            AudioCodec::AacLc => "AAC-LC",
        }
    }
}

/// The video stream that a phone offers.
#[derive(Debug, Clone, Copy, PartialEq, Eq, Structural)]
pub struct VideoOffer {
    pub codec: VideoCodec,
    pub width: u16,
    pub height: u16,
    pub fps: u8,
    pub bitrate_kbps: u32,
}

/// The audio stream that a phone offers.
#[derive(Debug, Clone, Copy, PartialEq, Eq, Structural)]
pub struct AudioOffer {
    pub codec: AudioCodec,
    pub sample_rate: u32,
    pub channels: u8,
}

/// What a phone gets out of pairing.
#[derive(Debug, Clone, PartialEq)]
pub struct PairingOutcomeInfo {
    pub device_id: String,
    pub device_token: String,
}

/// The view of a `PairingOutcomeInfo`.
#[verifier::ext_equal]
pub struct OutcomeModel {
    pub device_id: Seq<char>,
    pub device_token: Seq<char>,
}

impl View for PairingOutcomeInfo {
    type V = OutcomeModel;

    open spec fn view(&self) -> OutcomeModel {
        OutcomeModel { device_id: self.device_id@, device_token: self.device_token@ }
    }
}

/// A message of the control protocol.
#[allow(inconsistent_fields)]
#[derive(Debug, Clone, PartialEq)]
pub enum Message {
    Hello { proto_version: Version, device_name: String, auth_token: Option<String> },
    HelloAck { proto_version: Version, receiver_name: String },
    PairBegin { device_name: String, spake_message: Vec<u8> },
    PairChallenge {
        spake_reply: Vec<u8>,
        receiver_fingerprint: String,
        receiver_confirmation: [u8; 32],
    },
    PairVerify { phone_confirmation: [u8; 32] },
    PairResult { accepted: bool, reason: Option<String>, outcome: Option<PairingOutcomeInfo> },
    SessionOffer { video: VideoOffer, audio: AudioOffer },
    SessionAnswer { accepted: bool, reason: Option<String>, max_video_bitrate_kbps: u32 },
    KeyframeRequest,
    BitrateHint { video_kbps: u32 },
    ClockSync { t1: u64, t2: u64, t3: u64, t4: u64 },
    Ping { sender_time_ms: u64 },
    Pong { echoed_time_ms: u64 },
    Bye { reason: String },
}

/// The view of a `Message`.
#[allow(inconsistent_fields)]
#[verifier::ext_equal]
pub enum MessageModel {
    Hello { proto_version: Version, device_name: Seq<char>, auth_token: Option<Seq<char>> },
    HelloAck { proto_version: Version, receiver_name: Seq<char> },
    PairBegin { device_name: Seq<char>, spake_message: Seq<u8> },
    PairChallenge {
        spake_reply: Seq<u8>,
        receiver_fingerprint: Seq<char>,
        receiver_confirmation: Seq<u8>,
    },
    PairVerify { phone_confirmation: Seq<u8> },
    PairResult { accepted: bool, reason: Option<Seq<char>>, outcome: Option<OutcomeModel> },
    SessionOffer { video: VideoOffer, audio: AudioOffer },
    SessionAnswer { accepted: bool, reason: Option<Seq<char>>, max_video_bitrate_kbps: u32 },
    KeyframeRequest,
    BitrateHint { video_kbps: u32 },
    ClockSync { t1: u64, t2: u64, t3: u64, t4: u64 },
    Ping { sender_time_ms: u64 },
    Pong { echoed_time_ms: u64 },
    Bye { reason: Seq<char> },
}

impl View for Message {
    type V = MessageModel;

    open spec fn view(&self) -> MessageModel {
        match *self {
            Message::Hello { proto_version, device_name, auth_token } => MessageModel::Hello {
                proto_version,
                device_name: device_name@,
                auth_token: wire::maybe_view(auth_token),
            },
            Message::HelloAck { proto_version, receiver_name } => MessageModel::HelloAck {
                proto_version,
                receiver_name: receiver_name@,
            },
            Message::PairBegin { device_name, spake_message } => MessageModel::PairBegin {
                device_name: device_name@,
                spake_message: spake_message@,
            },
            Message::PairChallenge { spake_reply, receiver_fingerprint, receiver_confirmation } =>
                MessageModel::PairChallenge {
                spake_reply: spake_reply@,
                receiver_fingerprint: receiver_fingerprint@,
                receiver_confirmation: receiver_confirmation@,
            },
            Message::PairVerify { phone_confirmation } => MessageModel::PairVerify {
                phone_confirmation: phone_confirmation@,
            },
            Message::PairResult { accepted, reason, outcome } => MessageModel::PairResult {
                accepted,
                reason: wire::maybe_view(reason),
                outcome: match outcome {
                    None => None,
                    Some(o) => Some(o@),
                },
            },
            Message::SessionOffer { video, audio } => MessageModel::SessionOffer { video, audio },
            Message::SessionAnswer { accepted, reason, max_video_bitrate_kbps } =>
                MessageModel::SessionAnswer {
                accepted,
                reason: wire::maybe_view(reason),
                max_video_bitrate_kbps,
            },
            Message::KeyframeRequest => MessageModel::KeyframeRequest,
            Message::BitrateHint { video_kbps } => MessageModel::BitrateHint { video_kbps },
            Message::ClockSync { t1, t2, t3, t4 } => MessageModel::ClockSync { t1, t2, t3, t4 },
            Message::Ping { sender_time_ms } => MessageModel::Ping { sender_time_ms },
            Message::Pong { echoed_time_ms } => MessageModel::Pong { echoed_time_ms },
            Message::Bye { reason } => MessageModel::Bye { reason: reason@ },
        }
    }
}

/// A character that a name may hold.
pub open spec fn name_char(c: char) -> bool {
    text::unicode_alphanumeric(c) || c == ' ' || c == '-' || c == '_' || c == '.' || c == '\''
        || c == '(' || c == ')'
}

/// A name is made of 1 to 64 characters, each a letter, a digit or one of a few marks.
pub open spec fn name_is_valid(s: Seq<char>) -> bool {
    &&& 0 < s.len() <= MAX_NAME_LEN
    &&& forall|i: int| 0 <= i < s.len() ==> name_char(#[trigger] s[i])
}

fn valid_name(name: &str) -> (r: bool)
    ensures
        r == name_is_valid(name@),
{
    let chars = chars_of(name);
    if chars.len() == 0 || chars.len() > MAX_NAME_LEN {
        return false;
    }
    let mut i: usize = 0;
    while i < chars.len()
        invariant
            chars@ == name@,
            i <= chars@.len(),
            forall|k: int| 0 <= k < i ==> name_char(#[trigger] name@[k]),
        decreases chars.len() - i,
    {
        let c = chars[i];
        if !(c.is_alphanumeric() || c == ' ' || c == '-' || c == '_' || c == '.' || c == '\''
            || c == '(' || c == ')') {
            assert(!name_char(name@[i as int]));
            return false;
        }
        i = i + 1;
    }
    true
}

/// A hexadecimal digit in ASCII.
pub open spec fn hex_digit(c: char) -> bool {
    ('0' <= c && c <= '9') || ('a' <= c && c <= 'f') || ('A' <= c && c <= 'F')
}

/// Whether `s` is hexadecimal digits only.
pub open spec fn all_hex(s: Seq<char>) -> bool {
    forall|i: int| 0 <= i < s.len() ==> hex_digit(#[trigger] s[i])
}

fn is_all_hex(s: &str) -> (r: bool)
    ensures
        r == all_hex(s@),
{
    let chars = chars_of(s);
    let mut i: usize = 0;
    while i < chars.len()
        invariant
            chars@ == s@,
            i <= chars@.len(),
            forall|k: int| 0 <= k < i ==> hex_digit(#[trigger] s@[k]),
        decreases chars.len() - i,
    {
        let c = chars[i];
        if !((c >= '0' && c <= '9') || (c >= 'a' && c <= 'f') || (c >= 'A' && c <= 'F')) {
            assert(!hex_digit(s@[i as int]));
            return false;
        }
        i = i + 1;
    }
    true
}

/// The length of a text in UTF-8.
pub open spec fn byte_len(s: Seq<char>) -> nat {
    vstd::utf8::encode_utf8(s).len()
}

/// What is wrong with a reason, if anything.
pub open spec fn reason_problem(reason: Option<Seq<char>>) -> Option<Seq<char>> {
    match reason {
        Some(r) => if r.len() > MAX_REASON_LEN {
            Some("reason too long"@)
        } else {
            None
        },
        None => None,
    }
}

/// What is wrong with a message, if anything.
pub open spec fn message_problem(m: MessageModel) -> Option<Seq<char>> {
    match m {
        MessageModel::Hello { device_name, auth_token, .. } => if !name_is_valid(device_name) {
            Some("invalid device_name"@)
        } else {
            match auth_token {
                Some(t) => if byte_len(t) > MAX_TOKEN_LEN {
                    Some("auth_token too long"@)
                } else {
                    None
                },
                None => None,
            }
        },
        MessageModel::HelloAck { receiver_name, .. } => if !name_is_valid(receiver_name) {
            Some("invalid receiver_name"@)
        } else {
            None
        },
        MessageModel::PairBegin { device_name, spake_message } => if !name_is_valid(device_name) {
            Some("invalid device_name"@)
        } else if spake_message.len() > MAX_SPAKE_MESSAGE_LEN {
            Some("spake_message too long"@)
        } else {
            None
        },
        MessageModel::PairChallenge { spake_reply, receiver_fingerprint, .. } =>
            if spake_reply.len() > MAX_SPAKE_MESSAGE_LEN {
                Some("spake_reply too long"@)
            } else if byte_len(receiver_fingerprint) != 64 || !all_hex(receiver_fingerprint) {
                Some("invalid fingerprint"@)
            } else {
                None
            },
        MessageModel::PairResult { reason, .. } => reason_problem(reason),
        MessageModel::SessionAnswer { reason, .. } => reason_problem(reason),
        MessageModel::Bye { reason } => reason_problem(Some(reason)),
        _ => None,
    }
}

fn check_reason(reason: &str) -> (r: Result<(), &'static str>)
    ensures
        match reason_problem(Some(reason@)) {
            None => r is Ok,
            Some(t) => r matches Err(e) && e@ == t,
        },
{
    if reason.unicode_len() > MAX_REASON_LEN {
        Err("reason too long")
    } else {
        Ok(())
    }
}

impl Message {
    /// Checks the message against the limits of the protocol.
    pub fn validate(&self) -> (r: Result<(), &'static str>)
        ensures
            match message_problem(self@) {
                None => r is Ok,
                Some(t) => r matches Err(e) && e@ == t,
            },
    {
        match self {
            Message::Hello { proto_version: _, device_name, auth_token } => {
                if !valid_name(device_name.as_str()) {
                    return Err("invalid device_name");
                }
                match auth_token {
                    Some(t) => {
                        if t.as_str().as_bytes().len() > MAX_TOKEN_LEN {
                            return Err("auth_token too long");
                        }
                    },
                    None => {},
                }
                Ok(())
            },
            Message::HelloAck { proto_version: _, receiver_name } => {
                if !valid_name(receiver_name.as_str()) {
                    Err("invalid receiver_name")
                } else {
                    Ok(())
                }
            },
            Message::PairBegin { device_name, spake_message } => {
                if !valid_name(device_name.as_str()) {
                    return Err("invalid device_name");
                }
                if spake_message.len() > MAX_SPAKE_MESSAGE_LEN {
                    Err("spake_message too long")
                } else {
                    Ok(())
                }
            },
            Message::PairChallenge {
                spake_reply,
                receiver_fingerprint,
                receiver_confirmation: _,
            } => {
                if spake_reply.len() > MAX_SPAKE_MESSAGE_LEN {
                    return Err("spake_reply too long");
                }
                if receiver_fingerprint.as_str().as_bytes().len() != 64 || !is_all_hex(
                    receiver_fingerprint.as_str(),
                ) {
                    Err("invalid fingerprint")
                } else {
                    Ok(())
                }
            },
            Message::PairResult { accepted: _, reason: Some(r), outcome: _ } => check_reason(
                r.as_str(),
            ),
            Message::SessionAnswer {
                accepted: _,
                reason: Some(r),
                max_video_bitrate_kbps: _,
            } => check_reason(r.as_str()),
            Message::Bye { reason } => check_reason(reason.as_str()),
            _ => Ok(()),
        }
    }
}

/// Whether a text is 1 to 64 characters, each a letter, a digit, a space or one of `-_.'()`.
pub open spec fn plain_name(s: Seq<char>) -> bool {
    &&& 1 <= s.len() <= 64
    &&& forall|i: int|
        0 <= i < s.len() ==> text::unicode_alphanumeric(#[trigger] s[i]) || seq![
            ' ',
            '-',
            '_',
            '.',
            '\'',
            '(',
            ')',
        ].contains(s[i])
}

/// Which messages keep the limits, kind by kind: names of 1 to 64 plain characters, tokens of
/// at most 64 bytes, messages of the exchange of at most 128 bytes, fingerprints of 64
/// hexadecimal digits and reasons of at most 256 characters. Nothing else is limited.
pub proof fn law_limits_of_messages(m: MessageModel)
    ensures
        message_problem(m) is None <==> (match m {
            MessageModel::Hello { device_name, auth_token, .. } => plain_name(device_name) && (
            auth_token matches Some(t) ==> vstd::utf8::encode_utf8(t).len() <= 64),
            MessageModel::HelloAck { receiver_name, .. } => plain_name(receiver_name),
            MessageModel::PairBegin { device_name, spake_message } => plain_name(device_name)
                && spake_message.len() <= 128,
            MessageModel::PairChallenge { spake_reply, receiver_fingerprint, .. } =>
                spake_reply.len() <= 128 && vstd::utf8::encode_utf8(receiver_fingerprint).len()
                    == 64 && forall|i: int|
                #![trigger receiver_fingerprint[i]]
                0 <= i < receiver_fingerprint.len() ==> ({
                    let c = receiver_fingerprint[i];
                    ('0' <= c && c <= '9') || ('a' <= c && c <= 'f') || ('A' <= c && c <= 'F')
                }),
            MessageModel::PairResult { reason: Some(why), .. } => why.len() <= 256,
            MessageModel::SessionAnswer { reason: Some(why), .. } => why.len() <= 256,
            MessageModel::Bye { reason } => reason.len() <= 256,
            _ => true,
        }),
{
    let marks = seq![' ', '-', '_', '.', '\'', '(', ')'];
    assert forall|c: char| #[trigger] name_char(c) <==> text::unicode_alphanumeric(c)
        || marks.contains(c) by {
        if c == ' ' {
            assert(marks[0] == c);
        }
        if c == '-' {
            assert(marks[1] == c);
        }
        if c == '_' {
            assert(marks[2] == c);
        }
        if c == '.' {
            assert(marks[3] == c);
        }
        if c == '\'' {
            assert(marks[4] == c);
        }
        if c == '(' {
            assert(marks[5] == c);
        }
        if c == ')' {
            assert(marks[6] == c);
        }
    }
    assert forall|s: Seq<char>| #[trigger] name_is_valid(s) <==> plain_name(s) by {
        if name_is_valid(s) {
            assert forall|i: int| 0 <= i < s.len() implies text::unicode_alphanumeric(
                #[trigger] s[i],
            ) || marks.contains(s[i]) by {
                assert(name_char(s[i]));
            }
        }
        if plain_name(s) {
            assert forall|i: int| 0 <= i < s.len() implies name_char(#[trigger] s[i]) by {}
        }
    }
    assert forall|s: Seq<char>| #[trigger] all_hex(s) <==> (forall|i: int|
        #![trigger s[i]]
        0 <= i < s.len() ==> ('0' <= s[i] && s[i] <= '9') || ('a' <= s[i] && s[i] <= 'f') || ('A'
            <= s[i] && s[i] <= 'F')) by {
        if all_hex(s) {
            assert forall|i: int|
                #![trigger s[i]]
                0 <= i < s.len() implies ('0' <= s[i] && s[i] <= '9') || ('a' <= s[i] && s[i]
                <= 'f') || ('A' <= s[i] && s[i] <= 'F') by {
                assert(hex_digit(s[i]));
            }
        }
    }
}

/// A peer is served exactly when it speaks the same major version and none that is newer; so
/// each version serves itself, and a peer of 1.0 alone is served by this library.
pub proof fn law_peers_of_the_same_major_version_are_served(mine: Version, theirs: Version)
    ensures
        mine.serves(theirs) <==> mine.major == theirs.major && mine.minor >= theirs.minor,
        mine.serves(mine),
        Version::current().serves(theirs) <==> theirs.major == 1 && theirs.minor == 0,
{
}

/// The model of a message holds what the message holds, field by field.
pub proof fn law_models_hold_the_fields(x: Message)
    ensures
        x@ == (match x {
            Message::Hello { proto_version, device_name, auth_token } => MessageModel::Hello {
                proto_version,
                device_name: device_name@,
                auth_token: wire::maybe_view(auth_token),
            },
            Message::HelloAck { proto_version, receiver_name } => MessageModel::HelloAck {
                proto_version,
                receiver_name: receiver_name@,
            },
            Message::PairBegin { device_name, spake_message } => MessageModel::PairBegin {
                device_name: device_name@,
                spake_message: spake_message@,
            },
            Message::PairChallenge { spake_reply, receiver_fingerprint, receiver_confirmation } =>
                MessageModel::PairChallenge {
                spake_reply: spake_reply@,
                receiver_fingerprint: receiver_fingerprint@,
                receiver_confirmation: receiver_confirmation@,
            },
            Message::PairVerify { phone_confirmation } => MessageModel::PairVerify {
                phone_confirmation: phone_confirmation@,
            },
            Message::PairResult { accepted, reason, outcome } => MessageModel::PairResult {
                accepted,
                reason: wire::maybe_view(reason),
                outcome: match outcome {
                    None => None,
                    Some(o) => Some(o@),
                },
            },
            Message::SessionOffer { video, audio } => MessageModel::SessionOffer { video, audio },
            Message::SessionAnswer { accepted, reason, max_video_bitrate_kbps } =>
                MessageModel::SessionAnswer {
                accepted,
                reason: wire::maybe_view(reason),
                max_video_bitrate_kbps,
            },
            Message::KeyframeRequest => MessageModel::KeyframeRequest,
            Message::BitrateHint { video_kbps } => MessageModel::BitrateHint { video_kbps },
            Message::ClockSync { t1, t2, t3, t4 } => MessageModel::ClockSync { t1, t2, t3, t4 },
            Message::Ping { sender_time_ms } => MessageModel::Ping { sender_time_ms },
            Message::Pong { echoed_time_ms } => MessageModel::Pong { echoed_time_ms },
            Message::Bye { reason } => MessageModel::Bye { reason: reason@ },
        }
        ),
{
}

/// What is told of a message that breaks a limit names the first limit that it breaks.
pub proof fn law_broken_limits_are_named(m: MessageModel)
    ensures
        (m matches MessageModel::Hello { device_name: n, .. } && !plain_name(n)) || (
        m matches MessageModel::PairBegin { device_name: n, .. } && !plain_name(n))
            ==> message_problem(m) == Some("invalid device_name"@),
        m matches MessageModel::Hello { device_name: n, .. } && plain_name(n) && message_problem(m)
            is Some ==> message_problem(m) == Some("auth_token too long"@),
        m matches MessageModel::PairBegin { device_name: n, .. } && plain_name(n)
            && message_problem(m) is Some ==> message_problem(m) == Some(
            "spake_message too long"@,
        ),
        m is HelloAck && message_problem(m) is Some ==> message_problem(m) == Some(
            "invalid receiver_name"@,
        ),
        m matches MessageModel::PairChallenge { spake_reply: r, .. } && r.len() > 128
            ==> message_problem(m) == Some("spake_reply too long"@),
        m matches MessageModel::PairChallenge { spake_reply: r, .. } && r.len() <= 128
            && message_problem(m) is Some ==> message_problem(m) == Some("invalid fingerprint"@),
        (m is PairResult || m is SessionAnswer || m is Bye) && message_problem(m) is Some
            ==> message_problem(m) == Some("reason too long"@),
{
    match m {
        MessageModel::Hello { proto_version, device_name, auth_token } => {
            law_limits_of_messages(
                MessageModel::Hello { proto_version, device_name, auth_token: None },
            );
        },
        MessageModel::PairBegin { device_name, .. } => {
            law_limits_of_messages(
                MessageModel::PairBegin { device_name, spake_message: Seq::empty() },
            );
        },
        _ => {},
    }
}

/// A version is written as its two numbers around a dot, and a codec by its usual name.
pub proof fn law_names_of_versions_and_codecs(v: Version, video: VideoCodec, audio: AudioCodec)
    ensures
        v.text() == text::decimal(v.major as nat) + seq!['.'] + text::decimal(v.minor as nat),
        video is H264Baseline ==> video.text() == "H.264 baseline"@,
        video is H264Main ==> video.text() == "H.264 main"@,
        audio is Opus ==> audio.text() == "Opus"@,
        audio is AacLc ==> audio.text() == "AAC-LC"@,
{
}

} // verus!
