//! Messages as bytes: the number of the variant, then the fields in their order.

use vstd::prelude::*;

use crate::messages::{
    AudioCodec, AudioOffer, Message, MessageModel, OutcomeModel, PairingOutcomeInfo, Version,
    VideoCodec, VideoOffer,
};
use crate::wire;
use crate::wire::{
    Fault, put_blob, put_maybe_text, put_number, put_text, take_block32, take_bool, take_byte,
    take_bytes, take_maybe_text, take_tag, take_text, take_u16, take_u32, take_u64,
};

verus! {

/// Whether `r` is the message `want`, or fails as `want` does.
pub open spec fn decoded(r: Result<Message, Fault>, want: Result<MessageModel, Fault>) -> bool {
    match want {
        Ok(m) => r matches Ok(x) && x@ == m,
        Err(e) => r == Err::<Message, Fault>(e),
    }
}

fn push_part(out: &mut Vec<u8>, part: Vec<u8>)
    ensures
        final(out)@ == old(out)@ + part@,
{
    let mut part = part;
    out.append(&mut part);
}

fn put_bool(v: bool) -> (r: Vec<u8>)
    ensures
        r@ == wire::bool_bytes(v),
{
    let mut out: Vec<u8> = Vec::new();
    out.push(if v {
        1
    } else {
        0
    });
    assert(out@ =~= wire::bool_bytes(v));
    out
}

/// A version: major, then minor.
pub open spec fn version_bytes(v: Version) -> Seq<u8> {
    wire::varint_bytes(v.major as nat) + wire::varint_bytes(v.minor as nat)
}

/// Reads a version off the front.
pub open spec fn version_of(b: Seq<u8>) -> Result<(Version, Seq<u8>), Fault> {
    match wire::take_varint(b, 65536) {
        Err(e) => Err(e),
        Ok((major, rest)) => match wire::take_varint(rest, 65536) {
            Err(e) => Err(e),
            Ok((minor, tail)) => Ok((Version { major: major as u16, minor: minor as u16 }, tail)),
        },
    }
}

fn put_version(v: Version) -> (r: Vec<u8>)
    ensures
        r@ == version_bytes(v),
{
    let mut out = put_number(v.major as u64);
    push_part(&mut out, put_number(v.minor as u64));
    out
}

fn take_version<'a>(b: &'a [u8]) -> (r: Result<(Version, &'a [u8]), Fault>)
    ensures
        match version_of(b@) {
            Ok((v, rest)) => r matches Ok((w, t)) && w == v && t@ == rest,
            Err(e) => r == Err::<(Version, &[u8]), Fault>(e),
        },
{
    let (major, rest) = take_u16(b)?;
    let (minor, tail) = take_u16(rest)?;
    Ok((Version { major, minor }, tail))
}

/// The number of a video codec.
pub open spec fn video_codec_tag(c: VideoCodec) -> nat {
    match c {
        VideoCodec::H264Baseline => 0,
        VideoCodec::H264Main => 1,
    }
}

/// The number of an audio codec.
pub open spec fn audio_codec_tag(c: AudioCodec) -> nat {
    match c {
        AudioCodec::Opus => 0,
        AudioCodec::AacLc => 1,
    }
}

/// A video offer: the codec's number, then the numbers in their order.
pub open spec fn video_bytes(v: VideoOffer) -> Seq<u8> {
    wire::varint_bytes(video_codec_tag(v.codec)) + wire::varint_bytes(v.width as nat)
        + wire::varint_bytes(v.height as nat) + seq![v.fps] + wire::varint_bytes(
        v.bitrate_kbps as nat,
    )
}

/// An audio offer: the codec's number, then the numbers in their order.
pub open spec fn audio_bytes(a: AudioOffer) -> Seq<u8> {
    wire::varint_bytes(audio_codec_tag(a.codec)) + wire::varint_bytes(a.sample_rate as nat) + seq![
        a.channels,
    ]
}

/// Reads a video codec off the front.
pub open spec fn video_codec_of(b: Seq<u8>) -> Result<(VideoCodec, Seq<u8>), Fault> {
    match wire::take_varint(b, 4294967296) {
        Err(e) => Err(e),
        Ok((tag, rest)) => if tag == 0 {
            Ok((VideoCodec::H264Baseline, rest))
        } else if tag == 1 {
            Ok((VideoCodec::H264Main, rest))
        } else {
            Err(Fault::BadVariant)
        },
    }
}

/// Reads an audio codec off the front.
pub open spec fn audio_codec_of(b: Seq<u8>) -> Result<(AudioCodec, Seq<u8>), Fault> {
    match wire::take_varint(b, 4294967296) {
        Err(e) => Err(e),
        Ok((tag, rest)) => if tag == 0 {
            Ok((AudioCodec::Opus, rest))
        } else if tag == 1 {
            Ok((AudioCodec::AacLc, rest))
        } else {
            Err(Fault::BadVariant)
        },
    }
}

/// Reads a video offer off the front.
pub open spec fn video_of(b0: Seq<u8>) -> Result<(VideoOffer, Seq<u8>), Fault> {
    match video_codec_of(b0) {
        Err(e) => Err(e),
        Ok((codec, b1)) => match wire::take_varint(b1, 65536) {
            Err(e) => Err(e),
            Ok((width, b2)) => match wire::take_varint(b2, 65536) {
                Err(e) => Err(e),
                Ok((height, b3)) => match wire::take_byte_of(b3) {
                    Err(e) => Err(e),
                    Ok((fps, b4)) => match wire::take_varint(b4, 4294967296) {
                        Err(e) => Err(e),
                        Ok((kbps, b5)) => Ok(
                            (
                                VideoOffer {
                                    codec,
                                    width: width as u16,
                                    height: height as u16,
                                    fps,
                                    bitrate_kbps: kbps as u32,
                                },
                                b5,
                            ),
                        ),
                    },
                },
            },
        },
    }
}

/// Reads an audio offer off the front.
pub open spec fn audio_of(b0: Seq<u8>) -> Result<(AudioOffer, Seq<u8>), Fault> {
    match audio_codec_of(b0) {
        Err(e) => Err(e),
        Ok((codec, b1)) => match wire::take_varint(b1, 4294967296) {
            Err(e) => Err(e),
            Ok((rate, b2)) => match wire::take_byte_of(b2) {
                Err(e) => Err(e),
                Ok((channels, b3)) => Ok(
                    (AudioOffer { codec, sample_rate: rate as u32, channels }, b3),
                ),
            },
        },
    }
}

fn put_byte(v: u8) -> (r: Vec<u8>)
    ensures
        r@ == seq![v],
{
    let mut out: Vec<u8> = Vec::new();
    out.push(v);
    assert(out@ =~= seq![v]);
    out
}

fn put_video(v: &VideoOffer) -> (r: Vec<u8>)
    ensures
        r@ == video_bytes(*v),
{
    let tag: u64 = match v.codec {
        VideoCodec::H264Baseline => 0,
        VideoCodec::H264Main => 1,
    };
    let mut out = put_number(tag);
    push_part(&mut out, put_number(v.width as u64));
    push_part(&mut out, put_number(v.height as u64));
    push_part(&mut out, put_byte(v.fps));
    push_part(&mut out, put_number(v.bitrate_kbps as u64));
    out
}

fn put_audio(a: &AudioOffer) -> (r: Vec<u8>)
    ensures
        r@ == audio_bytes(*a),
{
    let tag: u64 = match a.codec {
        AudioCodec::Opus => 0,
        AudioCodec::AacLc => 1,
    };
    let mut out = put_number(tag);
    push_part(&mut out, put_number(a.sample_rate as u64));
    push_part(&mut out, put_byte(a.channels));
    out
}

fn take_video_codec<'a>(b: &'a [u8]) -> (r: Result<(VideoCodec, &'a [u8]), Fault>)
    ensures
        match video_codec_of(b@) {
            Ok((v, rest)) => r matches Ok((w, t)) && w == v && t@ == rest,
            Err(e) => r == Err::<(VideoCodec, &[u8]), Fault>(e),
        },
{
    let (tag, rest) = take_u32(b)?;
    match tag {
        0 => Ok((VideoCodec::H264Baseline, rest)),
        1 => Ok((VideoCodec::H264Main, rest)),
        _ => Err(Fault::BadVariant),
    }
}

fn take_audio_codec<'a>(b: &'a [u8]) -> (r: Result<(AudioCodec, &'a [u8]), Fault>)
    ensures
        match audio_codec_of(b@) {
            Ok((v, rest)) => r matches Ok((w, t)) && w == v && t@ == rest,
            Err(e) => r == Err::<(AudioCodec, &[u8]), Fault>(e),
        },
{
    let (tag, rest) = take_u32(b)?;
    match tag {
        0 => Ok((AudioCodec::Opus, rest)),
        1 => Ok((AudioCodec::AacLc, rest)),
        _ => Err(Fault::BadVariant),
    }
}

fn take_video<'a>(b0: &'a [u8]) -> (r: Result<(VideoOffer, &'a [u8]), Fault>)
    ensures
        match video_of(b0@) {
            Ok((v, rest)) => r matches Ok((w, t)) && w == v && t@ == rest,
            Err(e) => r == Err::<(VideoOffer, &[u8]), Fault>(e),
        },
{
    let (codec, b1) = take_video_codec(b0)?;
    let (width, b2) = take_u16(b1)?;
    let (height, b3) = take_u16(b2)?;
    let (fps, b4) = take_byte(b3)?;
    let (bitrate_kbps, b5) = take_u32(b4)?;
    Ok((VideoOffer { codec, width, height, fps, bitrate_kbps }, b5))
}

fn take_audio<'a>(b0: &'a [u8]) -> (r: Result<(AudioOffer, &'a [u8]), Fault>)
    ensures
        match audio_of(b0@) {
            Ok((v, rest)) => r matches Ok((w, t)) && w == v && t@ == rest,
            Err(e) => r == Err::<(AudioOffer, &[u8]), Fault>(e),
        },
{
    let (codec, b1) = take_audio_codec(b0)?;
    let (sample_rate, b2) = take_u32(b1)?;
    let (channels, b3) = take_byte(b2)?;
    Ok((AudioOffer { codec, sample_rate, channels }, b3))
}

/// The outcome of a pairing, if there is one: a tag, then identifier and token.
pub open spec fn outcome_bytes(o: Option<OutcomeModel>) -> Seq<u8> {
    match o {
        None => wire::bool_bytes(false),
        Some(i) => wire::bool_bytes(true) + wire::text_bytes(i.device_id) + wire::text_bytes(
            i.device_token,
        ),
    }
}

/// Reads the outcome of a pairing off the front.
pub open spec fn outcome_of(b: Seq<u8>) -> Result<(Option<OutcomeModel>, Seq<u8>), Fault> {
    match wire::take_tag_of(b) {
        Err(e) => Err(e),
        Ok((false, rest)) => Ok((None, rest)),
        Ok((true, rest)) => match wire::take_text_of(rest) {
            Err(e) => Err(e),
            Ok((device_id, b1)) => match wire::take_text_of(b1) {
                Err(e) => Err(e),
                Ok((device_token, b2)) => Ok(
                    (Some(OutcomeModel { device_id, device_token }), b2),
                ),
            },
        },
    }
}

/// The view of an optional outcome.
pub open spec fn outcome_view(o: Option<PairingOutcomeInfo>) -> Option<OutcomeModel> {
    match o {
        None => None,
        Some(i) => Some(i@),
    }
}

fn put_outcome(o: &Option<PairingOutcomeInfo>) -> (r: Vec<u8>)
    ensures
        r@ == outcome_bytes(outcome_view(*o)),
{
    match o {
        None => put_bool(false),
        Some(i) => {
            let mut out = put_bool(true);
            push_part(&mut out, put_text(i.device_id.as_str()));
            push_part(&mut out, put_text(i.device_token.as_str()));
            out
        },
    }
}

fn take_outcome<'a>(b: &'a [u8]) -> (r: Result<(Option<PairingOutcomeInfo>, &'a [u8]), Fault>)
    ensures
        match outcome_of(b@) {
            Ok((v, rest)) => r matches Ok((w, t)) && outcome_view(w) == v && t@ == rest,
            Err(e) => r == Err::<(Option<PairingOutcomeInfo>, &[u8]), Fault>(e),
        },
{
    let (there, rest) = take_tag(b)?;
    if there {
        let (device_id, b1) = take_text(rest)?;
        let (device_token, b2) = take_text(b1)?;
        Ok((Some(PairingOutcomeInfo { device_id, device_token }), b2))
    } else {
        Ok((None, rest))
    }
}

proof fn lemma_version(v: Version, rest: Seq<u8>)
    ensures
        version_of(version_bytes(v) + rest) == Ok::<(Version, Seq<u8>), Fault>((v, rest)),
{
    let b1 = wire::varint_bytes(v.minor as nat) + rest;
    assert(version_bytes(v) + rest =~= wire::varint_bytes(v.major as nat) + b1);
    wire::law_numbers_are_read_back(v.major as nat, b1);
    wire::law_numbers_are_read_back(v.minor as nat, rest);
}

proof fn lemma_video(v: VideoOffer, rest: Seq<u8>)
    ensures
        video_of(video_bytes(v) + rest) == Ok::<(VideoOffer, Seq<u8>), Fault>((v, rest)),
{
    let b4 = wire::varint_bytes(v.bitrate_kbps as nat) + rest;
    let b3 = seq![v.fps] + b4;
    let b2 = wire::varint_bytes(v.height as nat) + b3;
    let b1 = wire::varint_bytes(v.width as nat) + b2;
    let tag = video_codec_tag(v.codec);
    assert(video_bytes(v) + rest =~= wire::varint_bytes(tag) + b1);
    wire::law_numbers_are_read_back(tag, b1);
    wire::law_numbers_are_read_back(v.width as nat, b2);
    wire::law_numbers_are_read_back(v.height as nat, b3);
    assert(b3.skip(1) =~= b4);
    wire::law_numbers_are_read_back(v.bitrate_kbps as nat, rest);
}

proof fn lemma_audio(a: AudioOffer, rest: Seq<u8>)
    ensures
        audio_of(audio_bytes(a) + rest) == Ok::<(AudioOffer, Seq<u8>), Fault>((a, rest)),
{
    let b2 = seq![a.channels] + rest;
    let b1 = wire::varint_bytes(a.sample_rate as nat) + b2;
    let tag = audio_codec_tag(a.codec);
    assert(audio_bytes(a) + rest =~= wire::varint_bytes(tag) + b1);
    wire::law_numbers_are_read_back(tag, b1);
    wire::law_numbers_are_read_back(a.sample_rate as nat, b2);
    assert(b2.skip(1) =~= rest);
}

/// Whether a text can be held in memory.
pub open spec fn text_fits(s: Seq<char>) -> bool {
    vstd::utf8::encode_utf8(s).len() <= usize::MAX
}

/// Whether an optional text can be held in memory.
pub open spec fn maybe_text_fits(s: Option<Seq<char>>) -> bool {
    s matches Some(t) ==> text_fits(t)
}

/// What holds of the view of every message: its texts and byte strings can be held in
/// memory, and a confirmation is 32 bytes long.
pub open spec fn message_fits(m: MessageModel) -> bool {
    match m {
        MessageModel::Hello { device_name, auth_token, .. } => text_fits(device_name)
            && maybe_text_fits(auth_token),
        MessageModel::HelloAck { receiver_name, .. } => text_fits(receiver_name),
        MessageModel::PairBegin { device_name, spake_message } => text_fits(device_name)
            && spake_message.len() <= usize::MAX,
        MessageModel::PairChallenge { spake_reply, receiver_fingerprint, receiver_confirmation } =>
            spake_reply.len() <= usize::MAX && text_fits(receiver_fingerprint)
            && receiver_confirmation.len() == 32,
        MessageModel::PairVerify { phone_confirmation } => phone_confirmation.len() == 32,
        MessageModel::PairResult { reason, outcome, .. } => maybe_text_fits(reason) && (
        outcome matches Some(o) ==> text_fits(o.device_id) && text_fits(o.device_token)),
        MessageModel::SessionAnswer { reason, .. } => maybe_text_fits(reason),
        MessageModel::Bye { reason } => text_fits(reason),
        _ => true,
    }
}

proof fn lemma_outcome(o: Option<OutcomeModel>, rest: Seq<u8>)
    requires
        o matches Some(i) ==> text_fits(i.device_id) && text_fits(i.device_token),
    ensures
        outcome_of(outcome_bytes(o) + rest) == Ok::<(Option<OutcomeModel>, Seq<u8>), Fault>(
            (o, rest),
        ),
{
    let b = outcome_bytes(o) + rest;
    match o {
        None => {
            assert(b.skip(1) =~= rest);
        },
        Some(i) => {
            let b1 = wire::text_bytes(i.device_token) + rest;
            assert(b.skip(1) =~= wire::text_bytes(i.device_id) + b1);
            wire::law_texts_are_read_back(i.device_id, b1);
            wire::law_texts_are_read_back(i.device_token, rest);
        },
    }
}

proof fn lemma_join(a: Seq<u8>, b: Seq<u8>, c: Seq<u8>)
    ensures
        (a + b) + c == a + (b + c),
{
    assert((a + b) + c =~= a + (b + c));
}

/// The bytes of a message: the number of its variant, then its fields in their order.
pub open spec fn message_bytes(m: MessageModel) -> Seq<u8> {
    match m {
        MessageModel::Hello { proto_version, device_name, auth_token } => {
            wire::varint_bytes(0) + version_bytes(proto_version) + wire::text_bytes(device_name)
                + wire::maybe_text_bytes(auth_token)
        },
        MessageModel::HelloAck { proto_version, receiver_name } => {
            wire::varint_bytes(1) + version_bytes(proto_version) + wire::text_bytes(receiver_name)
        },
        MessageModel::PairBegin { device_name, spake_message } => {
            wire::varint_bytes(2) + wire::text_bytes(device_name)
                + wire::blob_bytes(spake_message)
        },
        MessageModel::PairChallenge {
            spake_reply,
            receiver_fingerprint,
            receiver_confirmation,
        } => {
            wire::varint_bytes(3) + wire::blob_bytes(spake_reply)
                + wire::text_bytes(receiver_fingerprint) + receiver_confirmation
        },
        MessageModel::PairVerify { phone_confirmation } => {
            wire::varint_bytes(4) + phone_confirmation
        },
        MessageModel::PairResult { accepted, reason, outcome } => {
            wire::varint_bytes(5) + wire::bool_bytes(accepted) + wire::maybe_text_bytes(reason)
                + outcome_bytes(outcome)
        },
        MessageModel::SessionOffer { video, audio } => {
            wire::varint_bytes(6) + video_bytes(video) + audio_bytes(audio)
        },
        MessageModel::SessionAnswer { accepted, reason, max_video_bitrate_kbps } => {
            wire::varint_bytes(7) + wire::bool_bytes(accepted) + wire::maybe_text_bytes(reason)
                + wire::varint_bytes(max_video_bitrate_kbps as nat)
        },
        MessageModel::KeyframeRequest => { wire::varint_bytes(8) },
        MessageModel::BitrateHint { video_kbps } => {
            wire::varint_bytes(9) + wire::varint_bytes(video_kbps as nat)
        },
        MessageModel::ClockSync { t1, t2, t3, t4 } => {
            wire::varint_bytes(10) + wire::varint_bytes(t1 as nat) + wire::varint_bytes(t2 as nat)
                + wire::varint_bytes(t3 as nat) + wire::varint_bytes(t4 as nat)
        },
        MessageModel::Ping { sender_time_ms } => {
            wire::varint_bytes(11) + wire::varint_bytes(sender_time_ms as nat)
        },
        MessageModel::Pong { echoed_time_ms } => {
            wire::varint_bytes(12) + wire::varint_bytes(echoed_time_ms as nat)
        },
        MessageModel::Bye { reason } => { wire::varint_bytes(13) + wire::text_bytes(reason) },
    }
}

/// The fields of a `Hello`.
pub open spec fn hello_of(b0: Seq<u8>) -> Result<MessageModel, Fault> {
    match version_of(b0) {
        Err(e) => Err(e),
        Ok((proto_version, b1)) => {
            match wire::take_text_of(b1) {
                Err(e) => Err(e),
                Ok((device_name, b2)) => {
                    match wire::take_maybe_text_of(b2) {
                        Err(e) => Err(e),
                        Ok((auth_token, _)) => Ok(
                            MessageModel::Hello {
                                proto_version,
                                device_name,
                                auth_token,
                            },
                        ),
                    }
                },
            }
        },
    }
}

/// The fields of a `HelloAck`.
pub open spec fn hello_ack_of(b0: Seq<u8>) -> Result<MessageModel, Fault> {
    match version_of(b0) {
        Err(e) => Err(e),
        Ok((proto_version, b1)) => {
            match wire::take_text_of(b1) {
                Err(e) => Err(e),
                Ok((receiver_name, _)) => Ok(
                    MessageModel::HelloAck {
                        proto_version,
                        receiver_name,
                    },
                ),
            }
        },
    }
}

/// The fields of a `PairBegin`.
pub open spec fn pair_begin_of(b0: Seq<u8>) -> Result<MessageModel, Fault> {
    match wire::take_text_of(b0) {
        Err(e) => Err(e),
        Ok((device_name, b1)) => {
            match wire::take_blob(b1) {
                Err(e) => Err(e),
                Ok((spake_message, _)) => Ok(
                    MessageModel::PairBegin {
                        device_name,
                        spake_message,
                    },
                ),
            }
        },
    }
}

/// The fields of a `PairChallenge`.
pub open spec fn pair_challenge_of(b0: Seq<u8>) -> Result<MessageModel, Fault> {
    match wire::take_blob(b0) {
        Err(e) => Err(e),
        Ok((spake_reply, b1)) => {
            match wire::take_text_of(b1) {
                Err(e) => Err(e),
                Ok((receiver_fingerprint, b2)) => {
                    match wire::take_block_of(b2, 32) {
                        Err(e) => Err(e),
                        Ok((receiver_confirmation, _)) => Ok(
                            MessageModel::PairChallenge {
                                spake_reply,
                                receiver_fingerprint,
                                receiver_confirmation,
                            },
                        ),
                    }
                },
            }
        },
    }
}

/// The fields of a `PairVerify`.
pub open spec fn pair_verify_of(b0: Seq<u8>) -> Result<MessageModel, Fault> {
    match wire::take_block_of(b0, 32) {
        Err(e) => Err(e),
        Ok((phone_confirmation, _)) => Ok(MessageModel::PairVerify { phone_confirmation }),
    }
}

/// The fields of a `PairResult`.
pub open spec fn pair_result_of(b0: Seq<u8>) -> Result<MessageModel, Fault> {
    match wire::take_bool_of(b0) {
        Err(e) => Err(e),
        Ok((accepted, b1)) => {
            match wire::take_maybe_text_of(b1) {
                Err(e) => Err(e),
                Ok((reason, b2)) => {
                    match outcome_of(b2) {
                        Err(e) => Err(e),
                        Ok((outcome, _)) => Ok(
                            MessageModel::PairResult {
                                accepted,
                                reason,
                                outcome,
                            },
                        ),
                    }
                },
            }
        },
    }
}

/// The fields of a `SessionOffer`.
pub open spec fn session_offer_of(b0: Seq<u8>) -> Result<MessageModel, Fault> {
    match video_of(b0) {
        Err(e) => Err(e),
        Ok((video, b1)) => {
            match audio_of(b1) {
                Err(e) => Err(e),
                Ok((audio, _)) => Ok(MessageModel::SessionOffer { video, audio }),
            }
        },
    }
}

/// The fields of a `SessionAnswer`.
pub open spec fn session_answer_of(b0: Seq<u8>) -> Result<MessageModel, Fault> {
    match wire::take_bool_of(b0) {
        Err(e) => Err(e),
        Ok((accepted, b1)) => {
            match wire::take_maybe_text_of(b1) {
                Err(e) => Err(e),
                Ok((reason, b2)) => {
                    match wire::take_varint(b2, 4294967296) {
                        Err(e) => Err(e),
                        Ok((max_video_bitrate_kbps, _)) => Ok(
                            MessageModel::SessionAnswer {
                                accepted,
                                reason,
                                max_video_bitrate_kbps: max_video_bitrate_kbps as u32,
                            },
                        ),
                    }
                },
            }
        },
    }
}

/// The fields of a `BitrateHint`.
pub open spec fn bitrate_hint_of(b0: Seq<u8>) -> Result<MessageModel, Fault> {
    match wire::take_varint(b0, 4294967296) {
        Err(e) => Err(e),
        Ok((video_kbps, _)) => Ok(MessageModel::BitrateHint { video_kbps: video_kbps as u32 }),
    }
}

/// The fields of a `ClockSync`.
pub open spec fn clock_sync_of(b0: Seq<u8>) -> Result<MessageModel, Fault> {
    match wire::take_varint(b0, 18446744073709551616) {
        Err(e) => Err(e),
        Ok((t1, b1)) => {
            match wire::take_varint(b1, 18446744073709551616) {
                Err(e) => Err(e),
                Ok((t2, b2)) => {
                    match wire::take_varint(b2, 18446744073709551616) {
                        Err(e) => Err(e),
                        Ok((t3, b3)) => {
                            match wire::take_varint(b3, 18446744073709551616) {
                                Err(e) => Err(e),
                                Ok((t4, _)) => Ok(
                                    MessageModel::ClockSync {
                                        t1: t1 as u64,
                                        t2: t2 as u64,
                                        t3: t3 as u64,
                                        t4: t4 as u64,
                                    },
                                ),
                            }
                        },
                    }
                },
            }
        },
    }
}

/// The fields of a `Ping`.
pub open spec fn ping_of(b0: Seq<u8>) -> Result<MessageModel, Fault> {
    match wire::take_varint(b0, 18446744073709551616) {
        Err(e) => Err(e),
        Ok((sender_time_ms, _)) => Ok(MessageModel::Ping { sender_time_ms: sender_time_ms as u64 }),
    }
}

/// The fields of a `Pong`.
pub open spec fn pong_of(b0: Seq<u8>) -> Result<MessageModel, Fault> {
    match wire::take_varint(b0, 18446744073709551616) {
        Err(e) => Err(e),
        Ok((echoed_time_ms, _)) => Ok(MessageModel::Pong { echoed_time_ms: echoed_time_ms as u64 }),
    }
}

/// The fields of a `Bye`.
pub open spec fn bye_of(b0: Seq<u8>) -> Result<MessageModel, Fault> {
    match wire::take_text_of(b0) {
        Err(e) => Err(e),
        Ok((reason, _)) => Ok(MessageModel::Bye { reason }),
    }
}

/// The message that `b` starts with; bytes behind it are not looked at.
pub open spec fn message_of(b: Seq<u8>) -> Result<MessageModel, Fault> {
    match wire::take_varint(b, 4294967296) {
        Err(e) => Err(e),
        Ok((tag, rest)) => if tag == 0 {
            hello_of(rest)
        } else if tag == 1 {
            hello_ack_of(rest)
        } else if tag == 2 {
            pair_begin_of(rest)
        } else if tag == 3 {
            pair_challenge_of(rest)
        } else if tag == 4 {
            pair_verify_of(rest)
        } else if tag == 5 {
            pair_result_of(rest)
        } else if tag == 6 {
            session_offer_of(rest)
        } else if tag == 7 {
            session_answer_of(rest)
        } else if tag == 8 {
            Ok(MessageModel::KeyframeRequest)
        } else if tag == 9 {
            bitrate_hint_of(rest)
        } else if tag == 10 {
            clock_sync_of(rest)
        } else if tag == 11 {
            ping_of(rest)
        } else if tag == 12 {
            pong_of(rest)
        } else if tag == 13 {
            bye_of(rest)
        } else {
            Err(Fault::BadVariant)
        },
    }
}

/// Writes a message.
pub fn encode_message(m: &Message) -> (r: Vec<u8>)
    ensures
        r@ == message_bytes(m@),
{
    match m {
        Message::Hello { proto_version, device_name, auth_token } => {
            let mut out = put_number(0);
            push_part(&mut out, put_version(*proto_version));
            push_part(&mut out, put_text(device_name.as_str()));
            push_part(&mut out, put_maybe_text(auth_token));
            out
        },
        Message::HelloAck { proto_version, receiver_name } => {
            let mut out = put_number(1);
            push_part(&mut out, put_version(*proto_version));
            push_part(&mut out, put_text(receiver_name.as_str()));
            out
        },
        Message::PairBegin { device_name, spake_message } => {
            let mut out = put_number(2);
            push_part(&mut out, put_text(device_name.as_str()));
            push_part(&mut out, put_blob(spake_message.as_slice()));
            out
        },
        Message::PairChallenge { spake_reply, receiver_fingerprint, receiver_confirmation } => {
            let mut out = put_number(3);
            push_part(&mut out, put_blob(spake_reply.as_slice()));
            push_part(&mut out, put_text(receiver_fingerprint.as_str()));
            push_part(&mut out, vstd::slice::slice_to_vec(receiver_confirmation.as_slice()));
            out
        },
        Message::PairVerify { phone_confirmation } => {
            let mut out = put_number(4);
            push_part(&mut out, vstd::slice::slice_to_vec(phone_confirmation.as_slice()));
            out
        },
        Message::PairResult { accepted, reason, outcome } => {
            let mut out = put_number(5);
            push_part(&mut out, put_bool(*accepted));
            push_part(&mut out, put_maybe_text(reason));
            push_part(&mut out, put_outcome(outcome));
            out
        },
        Message::SessionOffer { video, audio } => {
            let mut out = put_number(6);
            push_part(&mut out, put_video(video));
            push_part(&mut out, put_audio(audio));
            out
        },
        Message::SessionAnswer { accepted, reason, max_video_bitrate_kbps } => {
            let mut out = put_number(7);
            push_part(&mut out, put_bool(*accepted));
            push_part(&mut out, put_maybe_text(reason));
            push_part(&mut out, put_number(*max_video_bitrate_kbps as u64));
            out
        },
        Message::KeyframeRequest => put_number(8),
        Message::BitrateHint { video_kbps } => {
            let mut out = put_number(9);
            push_part(&mut out, put_number(*video_kbps as u64));
            out
        },
        Message::ClockSync { t1, t2, t3, t4 } => {
            let mut out = put_number(10);
            push_part(&mut out, put_number(*t1));
            push_part(&mut out, put_number(*t2));
            push_part(&mut out, put_number(*t3));
            push_part(&mut out, put_number(*t4));
            out
        },
        Message::Ping { sender_time_ms } => {
            let mut out = put_number(11);
            push_part(&mut out, put_number(*sender_time_ms));
            out
        },
        Message::Pong { echoed_time_ms } => {
            let mut out = put_number(12);
            push_part(&mut out, put_number(*echoed_time_ms));
            out
        },
        Message::Bye { reason } => {
            let mut out = put_number(13);
            push_part(&mut out, put_text(reason.as_str()));
            out
        },
    }
}

fn take_hello(b0: &[u8]) -> (r: Result<Message, Fault>)
    ensures
        decoded(r, hello_of(b0@)),
{
    let (proto_version, b1) = take_version(b0)?;
    let (device_name, b2) = take_text(b1)?;
    let (auth_token, _) = take_maybe_text(b2)?;
    Ok(Message::Hello { proto_version, device_name, auth_token })
}

fn take_hello_ack(b0: &[u8]) -> (r: Result<Message, Fault>)
    ensures
        decoded(r, hello_ack_of(b0@)),
{
    let (proto_version, b1) = take_version(b0)?;
    let (receiver_name, _) = take_text(b1)?;
    Ok(Message::HelloAck { proto_version, receiver_name })
}

fn take_pair_begin(b0: &[u8]) -> (r: Result<Message, Fault>)
    ensures
        decoded(r, pair_begin_of(b0@)),
{
    let (device_name, b1) = take_text(b0)?;
    let (spake_message, _) = take_bytes(b1)?;
    Ok(Message::PairBegin { device_name, spake_message })
}

fn take_pair_challenge(b0: &[u8]) -> (r: Result<Message, Fault>)
    ensures
        decoded(r, pair_challenge_of(b0@)),
{
    let (spake_reply, b1) = take_bytes(b0)?;
    let (receiver_fingerprint, b2) = take_text(b1)?;
    let (receiver_confirmation, _) = take_block32(b2)?;
    Ok(Message::PairChallenge { spake_reply, receiver_fingerprint, receiver_confirmation })
}

fn take_pair_verify(b0: &[u8]) -> (r: Result<Message, Fault>)
    ensures
        decoded(r, pair_verify_of(b0@)),
{
    let (phone_confirmation, _) = take_block32(b0)?;
    Ok(Message::PairVerify { phone_confirmation })
}

fn take_pair_result(b0: &[u8]) -> (r: Result<Message, Fault>)
    ensures
        decoded(r, pair_result_of(b0@)),
{
    let (accepted, b1) = take_bool(b0)?;
    let (reason, b2) = take_maybe_text(b1)?;
    let (outcome, _) = take_outcome(b2)?;
    Ok(Message::PairResult { accepted, reason, outcome })
}

fn take_session_offer(b0: &[u8]) -> (r: Result<Message, Fault>)
    ensures
        decoded(r, session_offer_of(b0@)),
{
    let (video, b1) = take_video(b0)?;
    let (audio, _) = take_audio(b1)?;
    Ok(Message::SessionOffer { video, audio })
}

fn take_session_answer(b0: &[u8]) -> (r: Result<Message, Fault>)
    ensures
        decoded(r, session_answer_of(b0@)),
{
    let (accepted, b1) = take_bool(b0)?;
    let (reason, b2) = take_maybe_text(b1)?;
    let (max_video_bitrate_kbps, _) = take_u32(b2)?;
    Ok(Message::SessionAnswer { accepted, reason, max_video_bitrate_kbps })
}

fn take_bitrate_hint(b0: &[u8]) -> (r: Result<Message, Fault>)
    ensures
        decoded(r, bitrate_hint_of(b0@)),
{
    let (video_kbps, _) = take_u32(b0)?;
    Ok(Message::BitrateHint { video_kbps })
}

fn take_clock_sync(b0: &[u8]) -> (r: Result<Message, Fault>)
    ensures
        decoded(r, clock_sync_of(b0@)),
{
    let (t1, b1) = take_u64(b0)?;
    let (t2, b2) = take_u64(b1)?;
    let (t3, b3) = take_u64(b2)?;
    let (t4, _) = take_u64(b3)?;
    Ok(Message::ClockSync { t1, t2, t3, t4 })
}

fn take_ping(b0: &[u8]) -> (r: Result<Message, Fault>)
    ensures
        decoded(r, ping_of(b0@)),
{
    let (sender_time_ms, _) = take_u64(b0)?;
    Ok(Message::Ping { sender_time_ms })
}

fn take_pong(b0: &[u8]) -> (r: Result<Message, Fault>)
    ensures
        decoded(r, pong_of(b0@)),
{
    let (echoed_time_ms, _) = take_u64(b0)?;
    Ok(Message::Pong { echoed_time_ms })
}

fn take_bye(b0: &[u8]) -> (r: Result<Message, Fault>)
    ensures
        decoded(r, bye_of(b0@)),
{
    let (reason, _) = take_text(b0)?;
    Ok(Message::Bye { reason })
}

/// Reads a message; bytes behind it are not looked at.
pub fn decode_message(b: &[u8]) -> (r: Result<Message, Fault>)
    ensures
        decoded(r, message_of(b@)),
{
    let (tag, rest) = take_u32(b)?;
    match tag {
        0 => take_hello(rest),
        1 => take_hello_ack(rest),
        2 => take_pair_begin(rest),
        3 => take_pair_challenge(rest),
        4 => take_pair_verify(rest),
        5 => take_pair_result(rest),
        6 => take_session_offer(rest),
        7 => take_session_answer(rest),
        8 => Ok(Message::KeyframeRequest),
        9 => take_bitrate_hint(rest),
        10 => take_clock_sync(rest),
        11 => take_ping(rest),
        12 => take_pong(rest),
        13 => take_bye(rest),
        _ => Err(Fault::BadVariant),
    }
}

proof fn lemma_hello(
    proto_version: Version,
    device_name: Seq<char>,
    auth_token: Option<Seq<char>>,
    rest: Seq<u8>,
)
    requires
        ({
            let m = MessageModel::Hello { proto_version, device_name, auth_token };
            message_fits(m)
        }),
    ensures
        ({
            let m = MessageModel::Hello { proto_version, device_name, auth_token };
            message_of(message_bytes(m) + rest) == Ok::<MessageModel, Fault>(m)
        }),
{
    let m = MessageModel::Hello { proto_version, device_name, auth_token };
    let b3 = rest;
    let b2 = wire::maybe_text_bytes(auth_token) + b3;
    let b1 = wire::text_bytes(device_name) + b2;
    let b0 = version_bytes(proto_version) + b1;
    let b = wire::varint_bytes(0);
    lemma_join(
        b + version_bytes(proto_version) + wire::text_bytes(device_name),
        wire::maybe_text_bytes(auth_token),
        b3,
    );
    lemma_join(b + version_bytes(proto_version), wire::text_bytes(device_name), b2);
    lemma_join(b, version_bytes(proto_version), b1);
    wire::law_numbers_are_read_back(0, b0);
    lemma_version(proto_version, b1);
    wire::law_texts_are_read_back(device_name, b2);
    wire::law_optional_texts_are_read_back(auth_token, b3);
}

proof fn lemma_hello_ack(proto_version: Version, receiver_name: Seq<char>, rest: Seq<u8>)
    requires
        ({
            let m = MessageModel::HelloAck { proto_version, receiver_name };
            message_fits(m)
        }),
    ensures
        ({
            let m = MessageModel::HelloAck { proto_version, receiver_name };
            message_of(message_bytes(m) + rest) == Ok::<MessageModel, Fault>(m)
        }),
{
    let m = MessageModel::HelloAck { proto_version, receiver_name };
    let b2 = rest;
    let b1 = wire::text_bytes(receiver_name) + b2;
    let b0 = version_bytes(proto_version) + b1;
    let b = wire::varint_bytes(1);
    lemma_join(b + version_bytes(proto_version), wire::text_bytes(receiver_name), b2);
    lemma_join(b, version_bytes(proto_version), b1);
    wire::law_numbers_are_read_back(1, b0);
    lemma_version(proto_version, b1);
    wire::law_texts_are_read_back(receiver_name, b2);
}

proof fn lemma_pair_begin(device_name: Seq<char>, spake_message: Seq<u8>, rest: Seq<u8>)
    requires
        ({
            let m = MessageModel::PairBegin { device_name, spake_message };
            message_fits(m)
        }),
    ensures
        ({
            let m = MessageModel::PairBegin { device_name, spake_message };
            message_of(message_bytes(m) + rest) == Ok::<MessageModel, Fault>(m)
        }),
{
    let m = MessageModel::PairBegin { device_name, spake_message };
    let b2 = rest;
    let b1 = wire::blob_bytes(spake_message) + b2;
    let b0 = wire::text_bytes(device_name) + b1;
    let b = wire::varint_bytes(2);
    lemma_join(b + wire::text_bytes(device_name), wire::blob_bytes(spake_message), b2);
    lemma_join(b, wire::text_bytes(device_name), b1);
    wire::law_numbers_are_read_back(2, b0);
    wire::law_texts_are_read_back(device_name, b1);
    wire::law_blobs_are_read_back(spake_message, b2);
}

proof fn lemma_pair_challenge(
    spake_reply: Seq<u8>,
    receiver_fingerprint: Seq<char>,
    receiver_confirmation: Seq<u8>,
    rest: Seq<u8>,
)
    requires
        ({
            let m = MessageModel::PairChallenge {
                spake_reply,
                receiver_fingerprint,
                receiver_confirmation,
            };
            message_fits(m)
        }),
    ensures
        ({
            let m = MessageModel::PairChallenge {
                spake_reply,
                receiver_fingerprint,
                receiver_confirmation,
            };
            message_of(message_bytes(m) + rest) == Ok::<MessageModel, Fault>(m)
        }),
{
    let m = MessageModel::PairChallenge {
        spake_reply,
        receiver_fingerprint,
        receiver_confirmation,
    };
    let b3 = rest;
    let b2 = receiver_confirmation + b3;
    let b1 = wire::text_bytes(receiver_fingerprint) + b2;
    let b0 = wire::blob_bytes(spake_reply) + b1;
    let b = wire::varint_bytes(3);
    lemma_join(
        b + wire::blob_bytes(spake_reply) + wire::text_bytes(receiver_fingerprint),
        receiver_confirmation,
        b3,
    );
    lemma_join(b + wire::blob_bytes(spake_reply), wire::text_bytes(receiver_fingerprint), b2);
    lemma_join(b, wire::blob_bytes(spake_reply), b1);
    wire::law_numbers_are_read_back(3, b0);
    wire::law_blobs_are_read_back(spake_reply, b1);
    wire::law_texts_are_read_back(receiver_fingerprint, b2);
    assert(b2.take(32) =~= receiver_confirmation);
    assert(b2.skip(32) =~= b3);
}

proof fn lemma_pair_verify(phone_confirmation: Seq<u8>, rest: Seq<u8>)
    requires
        ({
            let m = MessageModel::PairVerify { phone_confirmation };
            message_fits(m)
        }),
    ensures
        ({
            let m = MessageModel::PairVerify { phone_confirmation };
            message_of(message_bytes(m) + rest) == Ok::<MessageModel, Fault>(m)
        }),
{
    let m = MessageModel::PairVerify { phone_confirmation };
    let b1 = rest;
    let b0 = phone_confirmation + b1;
    let b = wire::varint_bytes(4);
    lemma_join(b, phone_confirmation, b1);
    wire::law_numbers_are_read_back(4, b0);
    assert(b0.take(32) =~= phone_confirmation);
    assert(b0.skip(32) =~= b1);
}

proof fn lemma_pair_result(
    accepted: bool,
    reason: Option<Seq<char>>,
    outcome: Option<OutcomeModel>,
    rest: Seq<u8>,
)
    requires
        ({
            let m = MessageModel::PairResult { accepted, reason, outcome };
            message_fits(m)
        }),
    ensures
        ({
            let m = MessageModel::PairResult { accepted, reason, outcome };
            message_of(message_bytes(m) + rest) == Ok::<MessageModel, Fault>(m)
        }),
{
    let m = MessageModel::PairResult { accepted, reason, outcome };
    let b3 = rest;
    let b2 = outcome_bytes(outcome) + b3;
    let b1 = wire::maybe_text_bytes(reason) + b2;
    let b0 = wire::bool_bytes(accepted) + b1;
    let b = wire::varint_bytes(5);
    lemma_join(
        b + wire::bool_bytes(accepted) + wire::maybe_text_bytes(reason),
        outcome_bytes(outcome),
        b3,
    );
    lemma_join(b + wire::bool_bytes(accepted), wire::maybe_text_bytes(reason), b2);
    lemma_join(b, wire::bool_bytes(accepted), b1);
    wire::law_numbers_are_read_back(5, b0);
    assert(b0.skip(1) =~= b1);
    wire::law_optional_texts_are_read_back(reason, b2);
    lemma_outcome(outcome, b3);
}

proof fn lemma_session_offer(video: VideoOffer, audio: AudioOffer, rest: Seq<u8>)
    requires
        ({
            let m = MessageModel::SessionOffer { video, audio };
            message_fits(m)
        }),
    ensures
        ({
            let m = MessageModel::SessionOffer { video, audio };
            message_of(message_bytes(m) + rest) == Ok::<MessageModel, Fault>(m)
        }),
{
    let m = MessageModel::SessionOffer { video, audio };
    let b2 = rest;
    let b1 = audio_bytes(audio) + b2;
    let b0 = video_bytes(video) + b1;
    let b = wire::varint_bytes(6);
    lemma_join(b + video_bytes(video), audio_bytes(audio), b2);
    lemma_join(b, video_bytes(video), b1);
    wire::law_numbers_are_read_back(6, b0);
    lemma_video(video, b1);
    lemma_audio(audio, b2);
}

proof fn lemma_session_answer(
    accepted: bool,
    reason: Option<Seq<char>>,
    max_video_bitrate_kbps: u32,
    rest: Seq<u8>,
)
    requires
        ({
            let m = MessageModel::SessionAnswer { accepted, reason, max_video_bitrate_kbps };
            message_fits(m)
        }),
    ensures
        ({
            let m = MessageModel::SessionAnswer { accepted, reason, max_video_bitrate_kbps };
            message_of(message_bytes(m) + rest) == Ok::<MessageModel, Fault>(m)
        }),
{
    let m = MessageModel::SessionAnswer { accepted, reason, max_video_bitrate_kbps };
    let b3 = rest;
    let b2 = wire::varint_bytes(max_video_bitrate_kbps as nat) + b3;
    let b1 = wire::maybe_text_bytes(reason) + b2;
    let b0 = wire::bool_bytes(accepted) + b1;
    let b = wire::varint_bytes(7);
    lemma_join(
        b + wire::bool_bytes(accepted) + wire::maybe_text_bytes(reason),
        wire::varint_bytes(max_video_bitrate_kbps as nat),
        b3,
    );
    lemma_join(b + wire::bool_bytes(accepted), wire::maybe_text_bytes(reason), b2);
    lemma_join(b, wire::bool_bytes(accepted), b1);
    wire::law_numbers_are_read_back(7, b0);
    assert(b0.skip(1) =~= b1);
    wire::law_optional_texts_are_read_back(reason, b2);
    wire::law_numbers_are_read_back(max_video_bitrate_kbps as nat, b3);
}

proof fn lemma_bitrate_hint(video_kbps: u32, rest: Seq<u8>)
    requires
        ({
            let m = MessageModel::BitrateHint { video_kbps };
            message_fits(m)
        }),
    ensures
        ({
            let m = MessageModel::BitrateHint { video_kbps };
            message_of(message_bytes(m) + rest) == Ok::<MessageModel, Fault>(m)
        }),
{
    let m = MessageModel::BitrateHint { video_kbps };
    let b1 = rest;
    let b0 = wire::varint_bytes(video_kbps as nat) + b1;
    let b = wire::varint_bytes(9);
    lemma_join(b, wire::varint_bytes(video_kbps as nat), b1);
    wire::law_numbers_are_read_back(9, b0);
    wire::law_numbers_are_read_back(video_kbps as nat, b1);
}

proof fn lemma_clock_sync(t1: u64, t2: u64, t3: u64, t4: u64, rest: Seq<u8>)
    requires
        ({
            let m = MessageModel::ClockSync { t1, t2, t3, t4 };
            message_fits(m)
        }),
    ensures
        ({
            let m = MessageModel::ClockSync { t1, t2, t3, t4 };
            message_of(message_bytes(m) + rest) == Ok::<MessageModel, Fault>(m)
        }),
{
    let m = MessageModel::ClockSync { t1, t2, t3, t4 };
    let b4 = rest;
    let b3 = wire::varint_bytes(t4 as nat) + b4;
    let b2 = wire::varint_bytes(t3 as nat) + b3;
    let b1 = wire::varint_bytes(t2 as nat) + b2;
    let b0 = wire::varint_bytes(t1 as nat) + b1;
    let b = wire::varint_bytes(10);
    lemma_join(
        b + wire::varint_bytes(t1 as nat) + wire::varint_bytes(t2 as nat)
            + wire::varint_bytes(t3 as nat),
        wire::varint_bytes(t4 as nat),
        b4,
    );
    lemma_join(
        b + wire::varint_bytes(t1 as nat) + wire::varint_bytes(t2 as nat),
        wire::varint_bytes(t3 as nat),
        b3,
    );
    lemma_join(b + wire::varint_bytes(t1 as nat), wire::varint_bytes(t2 as nat), b2);
    lemma_join(b, wire::varint_bytes(t1 as nat), b1);
    wire::law_numbers_are_read_back(10, b0);
    wire::law_numbers_are_read_back(t1 as nat, b1);
    wire::law_numbers_are_read_back(t2 as nat, b2);
    wire::law_numbers_are_read_back(t3 as nat, b3);
    wire::law_numbers_are_read_back(t4 as nat, b4);
}

proof fn lemma_ping(sender_time_ms: u64, rest: Seq<u8>)
    requires
        ({
            let m = MessageModel::Ping { sender_time_ms };
            message_fits(m)
        }),
    ensures
        ({
            let m = MessageModel::Ping { sender_time_ms };
            message_of(message_bytes(m) + rest) == Ok::<MessageModel, Fault>(m)
        }),
{
    let m = MessageModel::Ping { sender_time_ms };
    let b1 = rest;
    let b0 = wire::varint_bytes(sender_time_ms as nat) + b1;
    let b = wire::varint_bytes(11);
    lemma_join(b, wire::varint_bytes(sender_time_ms as nat), b1);
    wire::law_numbers_are_read_back(11, b0);
    wire::law_numbers_are_read_back(sender_time_ms as nat, b1);
}

proof fn lemma_pong(echoed_time_ms: u64, rest: Seq<u8>)
    requires
        ({
            let m = MessageModel::Pong { echoed_time_ms };
            message_fits(m)
        }),
    ensures
        ({
            let m = MessageModel::Pong { echoed_time_ms };
            message_of(message_bytes(m) + rest) == Ok::<MessageModel, Fault>(m)
        }),
{
    let m = MessageModel::Pong { echoed_time_ms };
    let b1 = rest;
    let b0 = wire::varint_bytes(echoed_time_ms as nat) + b1;
    let b = wire::varint_bytes(12);
    lemma_join(b, wire::varint_bytes(echoed_time_ms as nat), b1);
    wire::law_numbers_are_read_back(12, b0);
    wire::law_numbers_are_read_back(echoed_time_ms as nat, b1);
}

proof fn lemma_bye(reason: Seq<char>, rest: Seq<u8>)
    requires
        ({
            let m = MessageModel::Bye { reason };
            message_fits(m)
        }),
    ensures
        ({
            let m = MessageModel::Bye { reason };
            message_of(message_bytes(m) + rest) == Ok::<MessageModel, Fault>(m)
        }),
{
    let m = MessageModel::Bye { reason };
    let b1 = rest;
    let b0 = wire::text_bytes(reason) + b1;
    let b = wire::varint_bytes(13);
    lemma_join(b, wire::text_bytes(reason), b1);
    wire::law_numbers_are_read_back(13, b0);
    wire::law_texts_are_read_back(reason, b1);
}

/// The number of a message.
pub open spec fn message_tag(m: MessageModel) -> nat {
    match m {
        MessageModel::Hello { .. } => 0,
        MessageModel::HelloAck { .. } => 1,
        MessageModel::PairBegin { .. } => 2,
        MessageModel::PairChallenge { .. } => 3,
        MessageModel::PairVerify { .. } => 4,
        MessageModel::PairResult { .. } => 5,
        MessageModel::SessionOffer { .. } => 6,
        MessageModel::SessionAnswer { .. } => 7,
        MessageModel::KeyframeRequest => 8,
        MessageModel::BitrateHint { .. } => 9,
        MessageModel::ClockSync { .. } => 10,
        MessageModel::Ping { .. } => 11,
        MessageModel::Pong { .. } => 12,
        MessageModel::Bye { .. } => 13,
    }
}

/// The bytes of a message begin with its number.
pub proof fn lemma_message_tag(m: MessageModel, rest: Seq<u8>)
    ensures
        wire::take_varint(message_bytes(m) + rest, 4294967296) matches Ok((tag, _)) && tag
            == message_tag(m),
{
    let tag = wire::varint_bytes(message_tag(m));
    let tail = message_bytes(m).skip(tag.len() as int);
    assert(tag.len() == 1);
    assert(message_bytes(m).len() >= 1);
    assert(message_bytes(m)[0] == tag[0]);
    assert(message_bytes(m) + rest =~= tag + (tail + rest));
    wire::law_numbers_are_read_back(message_tag(m), tail + rest);
}

/// A message that was written is read back, whatever follows it.
pub proof fn law_messages_are_read_back(m: MessageModel, rest: Seq<u8>)
    requires
        message_fits(m),
    ensures
        message_of(message_bytes(m) + rest) == Ok::<MessageModel, Fault>(m),
{
    match m {
        MessageModel::Hello { proto_version, device_name, auth_token } => {
            lemma_hello(proto_version, device_name, auth_token, rest);
        },
        MessageModel::HelloAck { proto_version, receiver_name } => {
            lemma_hello_ack(proto_version, receiver_name, rest);
        },
        MessageModel::PairBegin { device_name, spake_message } => {
            lemma_pair_begin(device_name, spake_message, rest);
        },
        MessageModel::PairChallenge {
            spake_reply,
            receiver_fingerprint,
            receiver_confirmation,
        } => {
            lemma_pair_challenge(spake_reply, receiver_fingerprint, receiver_confirmation, rest);
        },
        MessageModel::PairVerify { phone_confirmation } => {
            lemma_pair_verify(phone_confirmation, rest);
        },
        MessageModel::PairResult { accepted, reason, outcome } => {
            lemma_pair_result(accepted, reason, outcome, rest);
        },
        MessageModel::SessionOffer { video, audio } => {
            lemma_session_offer(video, audio, rest);
        },
        MessageModel::SessionAnswer { accepted, reason, max_video_bitrate_kbps } => {
            lemma_session_answer(accepted, reason, max_video_bitrate_kbps, rest);
        },
        MessageModel::KeyframeRequest => {
            wire::law_numbers_are_read_back(8, rest);
        },
        MessageModel::BitrateHint { video_kbps } => {
            lemma_bitrate_hint(video_kbps, rest);
        },
        MessageModel::ClockSync { t1, t2, t3, t4 } => {
            lemma_clock_sync(t1, t2, t3, t4, rest);
        },
        MessageModel::Ping { sender_time_ms } => {
            lemma_ping(sender_time_ms, rest);
        },
        MessageModel::Pong { echoed_time_ms } => {
            lemma_pong(echoed_time_ms, rest);
        },
        MessageModel::Bye { reason } => {
            lemma_bye(reason, rest);
        },
    }
}

/// Which bytes a message is made of: the number of its kind, then its fields in their order.
/// Numbers but those of one byte are in base 128, texts and byte strings stand behind their
/// length, an optional value behind a 1, and a 0 stands for none.
#[verifier::spinoff_prover]
pub proof fn law_layout_of_messages(m: MessageModel)
    ensures
        message_bytes(m) == (match m {
            MessageModel::Hello { proto_version, device_name, auth_token } => seq![0u8]
                + (wire::varint_bytes(proto_version.major as nat)
                    + wire::varint_bytes(proto_version.minor as nat))
                + (wire::varint_bytes(vstd::utf8::encode_utf8(device_name).len())
                    + vstd::utf8::encode_utf8(device_name))
                + (match auth_token {
                None => seq![0u8],
                Some(t) => seq![1u8] + (wire::varint_bytes(vstd::utf8::encode_utf8(t).len())
                    + vstd::utf8::encode_utf8(t)),
            }),
            MessageModel::HelloAck { proto_version, receiver_name } => seq![1u8]
                + (wire::varint_bytes(proto_version.major as nat)
                    + wire::varint_bytes(proto_version.minor as nat))
                + (wire::varint_bytes(vstd::utf8::encode_utf8(receiver_name).len())
                    + vstd::utf8::encode_utf8(receiver_name)),
            MessageModel::PairBegin { device_name, spake_message } => seq![2u8]
                + (wire::varint_bytes(vstd::utf8::encode_utf8(device_name).len())
                    + vstd::utf8::encode_utf8(device_name))
                + (wire::varint_bytes(spake_message.len()) + spake_message),
            MessageModel::PairChallenge {
                spake_reply,
                receiver_fingerprint,
                receiver_confirmation,
            } => seq![3u8] + (wire::varint_bytes(spake_reply.len()) + spake_reply)
                + (wire::varint_bytes(vstd::utf8::encode_utf8(receiver_fingerprint).len())
                    + vstd::utf8::encode_utf8(receiver_fingerprint))
                + receiver_confirmation,
            MessageModel::PairVerify { phone_confirmation } => seq![4u8] + phone_confirmation,
            MessageModel::PairResult { accepted, reason, outcome } => seq![5u8] + seq![
                    if accepted {
                        1u8
                    } else {
                        0u8
                    },
                ]
                + (match reason {
                None => seq![0u8],
                Some(t) => seq![1u8] + (wire::varint_bytes(vstd::utf8::encode_utf8(t).len())
                    + vstd::utf8::encode_utf8(t)),
            }) + (match outcome {
                None => seq![0u8],
                Some(o) => seq![1u8]
                    + (wire::varint_bytes(vstd::utf8::encode_utf8(o.device_id).len())
                        + vstd::utf8::encode_utf8(o.device_id))
                    + (wire::varint_bytes(vstd::utf8::encode_utf8(o.device_token).len())
                        + vstd::utf8::encode_utf8(o.device_token)),
            }),
            MessageModel::SessionOffer { video, audio } => seq![6u8] + (seq![
                if video.codec is H264Baseline {
                    0u8
                } else {
                    1u8
                },
            ] + wire::varint_bytes(video.width as nat) + wire::varint_bytes(video.height as nat)
                + seq![video.fps] + wire::varint_bytes(video.bitrate_kbps as nat)) + (seq![
                if audio.codec is Opus {
                    0u8
                } else {
                    1u8
                },
            ] + wire::varint_bytes(audio.sample_rate as nat) + seq![audio.channels]),
            MessageModel::SessionAnswer { accepted, reason, max_video_bitrate_kbps } => seq![7u8]
                + seq![
                    if accepted {
                        1u8
                    } else {
                        0u8
                    },
                ]
                + (match reason {
                None => seq![0u8],
                Some(t) => seq![1u8] + (wire::varint_bytes(vstd::utf8::encode_utf8(t).len())
                    + vstd::utf8::encode_utf8(t)),
            }) + wire::varint_bytes(max_video_bitrate_kbps as nat),
            MessageModel::KeyframeRequest => seq![8u8],
            MessageModel::BitrateHint { video_kbps } => seq![9u8] + wire::varint_bytes(
                video_kbps as nat,
            ),
            MessageModel::ClockSync { t1, t2, t3, t4 } => seq![10u8] + wire::varint_bytes(t1 as nat)
                + wire::varint_bytes(t2 as nat) + wire::varint_bytes(t3 as nat)
                + wire::varint_bytes(t4 as nat),
            MessageModel::Ping { sender_time_ms } => seq![11u8] + wire::varint_bytes(
                sender_time_ms as nat,
            ),
            MessageModel::Pong { echoed_time_ms } => seq![12u8] + wire::varint_bytes(
                echoed_time_ms as nat,
            ),
            MessageModel::Bye { reason } => seq![13u8]
                + (wire::varint_bytes(vstd::utf8::encode_utf8(reason).len())
                    + vstd::utf8::encode_utf8(reason)),
        }),
{
}

/// Every message whose texts and byte strings a machine can hold can be read back: nothing but
/// that and the 32 bytes of a confirmation is asked of it.
pub proof fn law_all_messages_are_read_back(m: MessageModel, rest: Seq<u8>)
    requires
        message_bytes(m).len() <= 4_096,
        m matches MessageModel::PairVerify { phone_confirmation: c } ==> c.len() == 32,
        m matches MessageModel::PairChallenge { receiver_confirmation: c, .. } ==> c.len() == 32,
    ensures
        message_of(message_bytes(m) + rest) == Ok::<MessageModel, Fault>(m),
{
    law_layout_of_messages(m);
    law_messages_are_read_back(m, rest);
}

/// What is read off some bytes is the message that they hold, all of it, or fails for the
/// reason that they give.
pub proof fn law_readings_are_what_the_bytes_hold(
    r: Result<Message, Fault>,
    want: Result<MessageModel, Fault>,
)
    requires
        decoded(r, want),
    ensures
        r matches Ok(m) ==> want == Ok::<MessageModel, Fault>(m@),
        r matches Err(e) ==> want == Err::<MessageModel, Fault>(e),
{
}

/// Bytes that begin with the number of no message are refused, and so are none at all.
pub proof fn law_kinds_that_are_not_known_are_refused(kind: nat, rest: Seq<u8>)
    requires
        14 <= kind < 4294967296,
    ensures
        message_of(wire::varint_bytes(kind) + rest) == Err::<MessageModel, Fault>(
            Fault::BadVariant,
        ),
        message_of(Seq::empty()) == Err::<MessageModel, Fault>(Fault::UnexpectedEnd),
{
    wire::law_numbers_are_read_back(kind, rest);
}

proof fn lemma_cut(a: Seq<u8>, b: Seq<u8>, k: int)
    requires
        0 <= k < a.len() + b.len(),
    ensures
        k < a.len() ==> (a + b).take(k) == a.take(k),
        k >= a.len() ==> (a + b).take(k) == a + b.take(k - a.len()),
{
    if k < a.len() {
        assert((a + b).take(k) =~= a.take(k));
    } else {
        assert((a + b).take(k) =~= a + b.take(k - a.len()));
    }
}

proof fn lemma_cut_version(v: Version, k: int)
    requires
        0 <= k < version_bytes(v).len(),
    ensures
        version_of(version_bytes(v).take(k)) is Err,
{
    let whole = version_bytes(v);
    let f1 = wire::varint_bytes(v.major as nat);
    let f2 = wire::varint_bytes(v.minor as nat);
    let r2 = f2;
    let r1 = f1 + r2;
    let k1 = k;
    assert(whole =~= r1);
    lemma_cut(f1, r2, k1);
    if k1 < f1.len() {
        wire::law_cut_numbers_are_refused(v.major as nat, k1, 65536);
    } else {
        let k2 = k1 - f1.len();
        wire::law_numbers_are_read_back(v.major as nat, r2.take(k2));
        wire::law_cut_numbers_are_refused(v.minor as nat, k2, 65536);
    }
}

proof fn lemma_cut_video(v: VideoOffer, k: int)
    requires
        0 <= k < video_bytes(v).len(),
    ensures
        video_of(video_bytes(v).take(k)) is Err,
{
    let whole = video_bytes(v);
    let f1 = wire::varint_bytes(video_codec_tag(v.codec));
    let f2 = wire::varint_bytes(v.width as nat);
    let f3 = wire::varint_bytes(v.height as nat);
    let f4 = seq![v.fps];
    let f5 = wire::varint_bytes(v.bitrate_kbps as nat);
    let r5 = f5;
    let r4 = f4 + r5;
    let r3 = f3 + r4;
    let r2 = f2 + r3;
    let r1 = f1 + r2;
    let k1 = k;
    assert(whole =~= r1);
    lemma_cut(f1, r2, k1);
    if k1 < f1.len() {
        wire::law_cut_numbers_are_refused(video_codec_tag(v.codec), k1, 4294967296);
    } else {
        let k2 = k1 - f1.len();
        wire::law_numbers_are_read_back(video_codec_tag(v.codec), r2.take(k2));
        lemma_cut(f2, r3, k2);
        if k2 < f2.len() {
            wire::law_cut_numbers_are_refused(v.width as nat, k2, 65536);
        } else {
            let k3 = k2 - f2.len();
            wire::law_numbers_are_read_back(v.width as nat, r3.take(k3));
            lemma_cut(f3, r4, k3);
            if k3 < f3.len() {
                wire::law_cut_numbers_are_refused(v.height as nat, k3, 65536);
            } else {
                let k4 = k3 - f3.len();
                wire::law_numbers_are_read_back(v.height as nat, r4.take(k4));
                lemma_cut(f4, r5, k4);
                if k4 < f4.len() {
                } else {
                    let k5 = k4 - f4.len();
                    assert((seq![v.fps] + r5.take(k5)).skip(1) =~= r5.take(k5));
                    wire::law_cut_numbers_are_refused(v.bitrate_kbps as nat, k5, 4294967296);
                }
            }
        }
    }
}

proof fn lemma_cut_audio(a: AudioOffer, k: int)
    requires
        0 <= k < audio_bytes(a).len(),
    ensures
        audio_of(audio_bytes(a).take(k)) is Err,
{
    let whole = audio_bytes(a);
    let f1 = wire::varint_bytes(audio_codec_tag(a.codec));
    let f2 = wire::varint_bytes(a.sample_rate as nat);
    let f3 = seq![a.channels];
    let r3 = f3;
    let r2 = f2 + r3;
    let r1 = f1 + r2;
    let k1 = k;
    assert(whole =~= r1);
    lemma_cut(f1, r2, k1);
    if k1 < f1.len() {
        wire::law_cut_numbers_are_refused(audio_codec_tag(a.codec), k1, 4294967296);
    } else {
        let k2 = k1 - f1.len();
        wire::law_numbers_are_read_back(audio_codec_tag(a.codec), r2.take(k2));
        lemma_cut(f2, r3, k2);
        if k2 < f2.len() {
            wire::law_cut_numbers_are_refused(a.sample_rate as nat, k2, 4294967296);
        } else {
            let k3 = k2 - f2.len();
            wire::law_numbers_are_read_back(a.sample_rate as nat, r3.take(k3));
        }
    }
}

proof fn lemma_cut_outcome(o: Option<OutcomeModel>, k: int)
    requires
        o matches Some(i) ==> text_fits(i.device_id) && text_fits(i.device_token),
        0 <= k < outcome_bytes(o).len(),
    ensures
        outcome_of(outcome_bytes(o).take(k)) is Err,
{
    let whole = outcome_bytes(o);
    match o {
        Some(i) if k > 0 => {
            let f1 = wire::text_bytes(i.device_id);
            let f2 = wire::text_bytes(i.device_token);
            let k1 = k - 1;
            assert(whole.take(k).skip(1) =~= (f1 + f2).take(k1));
            lemma_cut(f1, f2, k1);
            if k1 < f1.len() {
                wire::law_cut_texts_are_refused(i.device_id, k1);
            } else {
                let k2 = k1 - f1.len();
                wire::law_texts_are_read_back(i.device_id, f2.take(k2));
                wire::law_cut_texts_are_refused(i.device_token, k2);
            }
        },
        _ => {},
    }
}

proof fn lemma_cut_hello(
    m: MessageModel,
    proto_version: Version,
    device_name: Seq<char>,
    auth_token: Option<Seq<char>>,
    k: int,
)
    requires
        m == (MessageModel::Hello { proto_version, device_name, auth_token }),
        message_fits(m),
        0 <= k < message_bytes(m).len(),
    ensures
        message_of(message_bytes(m).take(k)) is Err,
{
    let f1 = version_bytes(proto_version);
    let f2 = wire::text_bytes(device_name);
    let f3 = wire::maybe_text_bytes(auth_token);
    let r3 = f3;
    let r2 = f2 + r3;
    let r1 = f1 + r2;
    let start = wire::varint_bytes(0);
    assert(message_bytes(m) =~= start + r1);
    if k > 0 {
        let k1 = k - 1;
        lemma_cut(start, r1, k);
        wire::law_numbers_are_read_back(0, r1.take(k1));
        lemma_cut(f1, r2, k1);
        if k1 < f1.len() {
            lemma_cut_version(proto_version, k1);
        } else {
            let k2 = k1 - f1.len();
            lemma_version(proto_version, r2.take(k2));
            lemma_cut(f2, r3, k2);
            if k2 < f2.len() {
                wire::law_cut_texts_are_refused(device_name, k2);
            } else {
                let k3 = k2 - f2.len();
                wire::law_texts_are_read_back(device_name, r3.take(k3));
                wire::law_cut_optional_texts_are_refused(auth_token, k3);
            }
        }
    }
}

proof fn lemma_cut_hello_ack(
    m: MessageModel,
    proto_version: Version,
    receiver_name: Seq<char>,
    k: int,
)
    requires
        m == (MessageModel::HelloAck { proto_version, receiver_name }),
        message_fits(m),
        0 <= k < message_bytes(m).len(),
    ensures
        message_of(message_bytes(m).take(k)) is Err,
{
    let f1 = version_bytes(proto_version);
    let f2 = wire::text_bytes(receiver_name);
    let r2 = f2;
    let r1 = f1 + r2;
    let start = wire::varint_bytes(1);
    assert(message_bytes(m) =~= start + r1);
    if k > 0 {
        let k1 = k - 1;
        lemma_cut(start, r1, k);
        wire::law_numbers_are_read_back(1, r1.take(k1));
        lemma_cut(f1, r2, k1);
        if k1 < f1.len() {
            lemma_cut_version(proto_version, k1);
        } else {
            let k2 = k1 - f1.len();
            lemma_version(proto_version, r2.take(k2));
            wire::law_cut_texts_are_refused(receiver_name, k2);
        }
    }
}

proof fn lemma_cut_pair_begin(
    m: MessageModel,
    device_name: Seq<char>,
    spake_message: Seq<u8>,
    k: int,
)
    requires
        m == (MessageModel::PairBegin { device_name, spake_message }),
        message_fits(m),
        0 <= k < message_bytes(m).len(),
    ensures
        message_of(message_bytes(m).take(k)) is Err,
{
    let f1 = wire::text_bytes(device_name);
    let f2 = wire::blob_bytes(spake_message);
    let r2 = f2;
    let r1 = f1 + r2;
    let start = wire::varint_bytes(2);
    assert(message_bytes(m) =~= start + r1);
    if k > 0 {
        let k1 = k - 1;
        lemma_cut(start, r1, k);
        wire::law_numbers_are_read_back(2, r1.take(k1));
        lemma_cut(f1, r2, k1);
        if k1 < f1.len() {
            wire::law_cut_texts_are_refused(device_name, k1);
        } else {
            let k2 = k1 - f1.len();
            wire::law_texts_are_read_back(device_name, r2.take(k2));
            wire::law_cut_blobs_are_refused(spake_message, k2);
        }
    }
}

proof fn lemma_cut_pair_challenge(
    m: MessageModel,
    spake_reply: Seq<u8>,
    receiver_fingerprint: Seq<char>,
    receiver_confirmation: Seq<u8>,
    k: int,
)
    requires
        m == (MessageModel::PairChallenge {
            spake_reply,
            receiver_fingerprint,
            receiver_confirmation,
        }),
        message_fits(m),
        0 <= k < message_bytes(m).len(),
    ensures
        message_of(message_bytes(m).take(k)) is Err,
{
    let f1 = wire::blob_bytes(spake_reply);
    let f2 = wire::text_bytes(receiver_fingerprint);
    let f3 = receiver_confirmation;
    let r3 = f3;
    let r2 = f2 + r3;
    let r1 = f1 + r2;
    let start = wire::varint_bytes(3);
    assert(message_bytes(m) =~= start + r1);
    if k > 0 {
        let k1 = k - 1;
        lemma_cut(start, r1, k);
        wire::law_numbers_are_read_back(3, r1.take(k1));
        lemma_cut(f1, r2, k1);
        if k1 < f1.len() {
            wire::law_cut_blobs_are_refused(spake_reply, k1);
        } else {
            let k2 = k1 - f1.len();
            wire::law_blobs_are_read_back(spake_reply, r2.take(k2));
            lemma_cut(f2, r3, k2);
            if k2 < f2.len() {
                wire::law_cut_texts_are_refused(receiver_fingerprint, k2);
            } else {
                let k3 = k2 - f2.len();
                wire::law_texts_are_read_back(receiver_fingerprint, r3.take(k3));
            }
        }
    }
}

proof fn lemma_cut_pair_verify(
    m: MessageModel,
    phone_confirmation: Seq<u8>,
    k: int,
)
    requires
        m == (MessageModel::PairVerify { phone_confirmation }),
        message_fits(m),
        0 <= k < message_bytes(m).len(),
    ensures
        message_of(message_bytes(m).take(k)) is Err,
{
    let f1 = phone_confirmation;
    let r1 = f1;
    let start = wire::varint_bytes(4);
    assert(message_bytes(m) =~= start + r1);
    if k > 0 {
        let k1 = k - 1;
        lemma_cut(start, r1, k);
        wire::law_numbers_are_read_back(4, r1.take(k1));
    }
}

proof fn lemma_cut_pair_result(
    m: MessageModel,
    accepted: bool,
    reason: Option<Seq<char>>,
    outcome: Option<OutcomeModel>,
    k: int,
)
    requires
        m == (MessageModel::PairResult { accepted, reason, outcome }),
        message_fits(m),
        0 <= k < message_bytes(m).len(),
    ensures
        message_of(message_bytes(m).take(k)) is Err,
{
    let f1 = wire::bool_bytes(accepted);
    let f2 = wire::maybe_text_bytes(reason);
    let f3 = outcome_bytes(outcome);
    let r3 = f3;
    let r2 = f2 + r3;
    let r1 = f1 + r2;
    let start = wire::varint_bytes(5);
    assert(message_bytes(m) =~= start + r1);
    if k > 0 {
        let k1 = k - 1;
        lemma_cut(start, r1, k);
        wire::law_numbers_are_read_back(5, r1.take(k1));
        lemma_cut(f1, r2, k1);
        if k1 < f1.len() {
        } else {
            let k2 = k1 - f1.len();
            assert((wire::bool_bytes(accepted) + r2.take(k2)).skip(1) =~= r2.take(k2));
            lemma_cut(f2, r3, k2);
            if k2 < f2.len() {
                wire::law_cut_optional_texts_are_refused(reason, k2);
            } else {
                let k3 = k2 - f2.len();
                wire::law_optional_texts_are_read_back(reason, r3.take(k3));
                lemma_cut_outcome(outcome, k3);
            }
        }
    }
}

proof fn lemma_cut_session_offer(
    m: MessageModel,
    video: VideoOffer,
    audio: AudioOffer,
    k: int,
)
    requires
        m == (MessageModel::SessionOffer { video, audio }),
        message_fits(m),
        0 <= k < message_bytes(m).len(),
    ensures
        message_of(message_bytes(m).take(k)) is Err,
{
    let f1 = video_bytes(video);
    let f2 = audio_bytes(audio);
    let r2 = f2;
    let r1 = f1 + r2;
    let start = wire::varint_bytes(6);
    assert(message_bytes(m) =~= start + r1);
    if k > 0 {
        let k1 = k - 1;
        lemma_cut(start, r1, k);
        wire::law_numbers_are_read_back(6, r1.take(k1));
        lemma_cut(f1, r2, k1);
        if k1 < f1.len() {
            lemma_cut_video(video, k1);
        } else {
            let k2 = k1 - f1.len();
            lemma_video(video, r2.take(k2));
            lemma_cut_audio(audio, k2);
        }
    }
}

proof fn lemma_cut_session_answer(
    m: MessageModel,
    accepted: bool,
    reason: Option<Seq<char>>,
    max_video_bitrate_kbps: u32,
    k: int,
)
    requires
        m == (MessageModel::SessionAnswer { accepted, reason, max_video_bitrate_kbps }),
        message_fits(m),
        0 <= k < message_bytes(m).len(),
    ensures
        message_of(message_bytes(m).take(k)) is Err,
{
    let f1 = wire::bool_bytes(accepted);
    let f2 = wire::maybe_text_bytes(reason);
    let f3 = wire::varint_bytes(max_video_bitrate_kbps as nat);
    let r3 = f3;
    let r2 = f2 + r3;
    let r1 = f1 + r2;
    let start = wire::varint_bytes(7);
    assert(message_bytes(m) =~= start + r1);
    if k > 0 {
        let k1 = k - 1;
        lemma_cut(start, r1, k);
        wire::law_numbers_are_read_back(7, r1.take(k1));
        lemma_cut(f1, r2, k1);
        if k1 < f1.len() {
        } else {
            let k2 = k1 - f1.len();
            assert((wire::bool_bytes(accepted) + r2.take(k2)).skip(1) =~= r2.take(k2));
            lemma_cut(f2, r3, k2);
            if k2 < f2.len() {
                wire::law_cut_optional_texts_are_refused(reason, k2);
            } else {
                let k3 = k2 - f2.len();
                wire::law_optional_texts_are_read_back(reason, r3.take(k3));
                wire::law_cut_numbers_are_refused(max_video_bitrate_kbps as nat, k3, 4294967296);
            }
        }
    }
}

proof fn lemma_cut_bitrate_hint(
    m: MessageModel,
    video_kbps: u32,
    k: int,
)
    requires
        m == (MessageModel::BitrateHint { video_kbps }),
        message_fits(m),
        0 <= k < message_bytes(m).len(),
    ensures
        message_of(message_bytes(m).take(k)) is Err,
{
    let f1 = wire::varint_bytes(video_kbps as nat);
    let r1 = f1;
    let start = wire::varint_bytes(9);
    assert(message_bytes(m) =~= start + r1);
    if k > 0 {
        let k1 = k - 1;
        lemma_cut(start, r1, k);
        wire::law_numbers_are_read_back(9, r1.take(k1));
        wire::law_cut_numbers_are_refused(video_kbps as nat, k1, 4294967296);
    }
}

proof fn lemma_cut_clock_sync(
    m: MessageModel,
    t1: u64,
    t2: u64,
    t3: u64,
    t4: u64,
    k: int,
)
    requires
        m == (MessageModel::ClockSync { t1, t2, t3, t4 }),
        message_fits(m),
        0 <= k < message_bytes(m).len(),
    ensures
        message_of(message_bytes(m).take(k)) is Err,
{
    let f1 = wire::varint_bytes(t1 as nat);
    let f2 = wire::varint_bytes(t2 as nat);
    let f3 = wire::varint_bytes(t3 as nat);
    let f4 = wire::varint_bytes(t4 as nat);
    let r4 = f4;
    let r3 = f3 + r4;
    let r2 = f2 + r3;
    let r1 = f1 + r2;
    let start = wire::varint_bytes(10);
    assert(message_bytes(m) =~= start + r1);
    if k > 0 {
        let k1 = k - 1;
        lemma_cut(start, r1, k);
        wire::law_numbers_are_read_back(10, r1.take(k1));
        lemma_cut(f1, r2, k1);
        if k1 < f1.len() {
            wire::law_cut_numbers_are_refused(t1 as nat, k1, 18446744073709551616);
        } else {
            let k2 = k1 - f1.len();
            wire::law_numbers_are_read_back(t1 as nat, r2.take(k2));
            lemma_cut(f2, r3, k2);
            if k2 < f2.len() {
                wire::law_cut_numbers_are_refused(t2 as nat, k2, 18446744073709551616);
            } else {
                let k3 = k2 - f2.len();
                wire::law_numbers_are_read_back(t2 as nat, r3.take(k3));
                lemma_cut(f3, r4, k3);
                if k3 < f3.len() {
                    wire::law_cut_numbers_are_refused(t3 as nat, k3, 18446744073709551616);
                } else {
                    let k4 = k3 - f3.len();
                    wire::law_numbers_are_read_back(t3 as nat, r4.take(k4));
                    wire::law_cut_numbers_are_refused(t4 as nat, k4, 18446744073709551616);
                }
            }
        }
    }
}

proof fn lemma_cut_ping(
    m: MessageModel,
    sender_time_ms: u64,
    k: int,
)
    requires
        m == (MessageModel::Ping { sender_time_ms }),
        message_fits(m),
        0 <= k < message_bytes(m).len(),
    ensures
        message_of(message_bytes(m).take(k)) is Err,
{
    let f1 = wire::varint_bytes(sender_time_ms as nat);
    let r1 = f1;
    let start = wire::varint_bytes(11);
    assert(message_bytes(m) =~= start + r1);
    if k > 0 {
        let k1 = k - 1;
        lemma_cut(start, r1, k);
        wire::law_numbers_are_read_back(11, r1.take(k1));
        wire::law_cut_numbers_are_refused(sender_time_ms as nat, k1, 18446744073709551616);
    }
}

proof fn lemma_cut_pong(
    m: MessageModel,
    echoed_time_ms: u64,
    k: int,
)
    requires
        m == (MessageModel::Pong { echoed_time_ms }),
        message_fits(m),
        0 <= k < message_bytes(m).len(),
    ensures
        message_of(message_bytes(m).take(k)) is Err,
{
    let f1 = wire::varint_bytes(echoed_time_ms as nat);
    let r1 = f1;
    let start = wire::varint_bytes(12);
    assert(message_bytes(m) =~= start + r1);
    if k > 0 {
        let k1 = k - 1;
        lemma_cut(start, r1, k);
        wire::law_numbers_are_read_back(12, r1.take(k1));
        wire::law_cut_numbers_are_refused(echoed_time_ms as nat, k1, 18446744073709551616);
    }
}

proof fn lemma_cut_bye(
    m: MessageModel,
    reason: Seq<char>,
    k: int,
)
    requires
        m == (MessageModel::Bye { reason }),
        message_fits(m),
        0 <= k < message_bytes(m).len(),
    ensures
        message_of(message_bytes(m).take(k)) is Err,
{
    let f1 = wire::text_bytes(reason);
    let r1 = f1;
    let start = wire::varint_bytes(13);
    assert(message_bytes(m) =~= start + r1);
    if k > 0 {
        let k1 = k - 1;
        lemma_cut(start, r1, k);
        wire::law_numbers_are_read_back(13, r1.take(k1));
        wire::law_cut_texts_are_refused(reason, k1);
    }
}

/// A message that is cut short anywhere is refused.
pub proof fn law_cut_messages_are_refused(m: MessageModel, k: int)
    requires
        message_fits(m),
        0 <= k < message_bytes(m).len(),
    ensures
        message_of(message_bytes(m).take(k)) is Err,
{
    match m {
        MessageModel::KeyframeRequest => {},
        MessageModel::Hello { proto_version, device_name, auth_token } => {
            lemma_cut_hello(m, proto_version, device_name, auth_token, k);
        },
        MessageModel::HelloAck { proto_version, receiver_name } => {
            lemma_cut_hello_ack(m, proto_version, receiver_name, k);
        },
        MessageModel::PairBegin { device_name, spake_message } => {
            lemma_cut_pair_begin(m, device_name, spake_message, k);
        },
        MessageModel::PairChallenge {
            spake_reply,
            receiver_fingerprint,
            receiver_confirmation,
        } => {
            lemma_cut_pair_challenge(
                m,
                spake_reply,
                receiver_fingerprint,
                receiver_confirmation,
                k,
            );
        },
        MessageModel::PairVerify { phone_confirmation } => {
            lemma_cut_pair_verify(m, phone_confirmation, k);
        },
        MessageModel::PairResult { accepted, reason, outcome } => {
            lemma_cut_pair_result(m, accepted, reason, outcome, k);
        },
        MessageModel::SessionOffer { video, audio } => {
            lemma_cut_session_offer(m, video, audio, k);
        },
        MessageModel::SessionAnswer { accepted, reason, max_video_bitrate_kbps } => {
            lemma_cut_session_answer(m, accepted, reason, max_video_bitrate_kbps, k);
        },
        MessageModel::BitrateHint { video_kbps } => {
            lemma_cut_bitrate_hint(m, video_kbps, k);
        },
        MessageModel::ClockSync { t1, t2, t3, t4 } => {
            lemma_cut_clock_sync(m, t1, t2, t3, t4, k);
        },
        MessageModel::Ping { sender_time_ms } => {
            lemma_cut_ping(m, sender_time_ms, k);
        },
        MessageModel::Pong { echoed_time_ms } => {
            lemma_cut_pong(m, echoed_time_ms, k);
        },
        MessageModel::Bye { reason } => {
            lemma_cut_bye(m, reason, k);
        },
    }
}

/// A number in a message that is too large for its field is refused.
pub proof fn law_numbers_that_do_not_fit_are_refused(n: nat, a: nat, b: nat, c: nat, rest: Seq<u8>)
    requires
        a < 18446744073709551616,
        b < 18446744073709551616,
        c < 18446744073709551616,
    ensures
        n >= 65536 ==> version_of(wire::varint_bytes(n) + rest) is Err,
        n >= 65536 && a < 65536 ==> version_of(
            wire::varint_bytes(a) + (wire::varint_bytes(n) + rest),
        ) is Err,
        n >= 65536 && a < 2 ==> video_of(wire::varint_bytes(a) + (wire::varint_bytes(n) + rest))
            is Err,
        n >= 65536 && a < 2 && b < 65536 ==> video_of(
            wire::varint_bytes(a) + (wire::varint_bytes(b) + (wire::varint_bytes(n) + rest)),
        ) is Err,
        n >= 4294967296 && a < 2 && b < 65536 && c < 65536 ==> forall|fps: u8|
            video_of(
                wire::varint_bytes(a) + (wire::varint_bytes(b) + (wire::varint_bytes(c) + (
                #[trigger] seq![fps] + (wire::varint_bytes(n) + rest)))),
            ) is Err,
        n >= 4294967296 && a < 2 ==> audio_of(
            wire::varint_bytes(a) + (wire::varint_bytes(n) + rest),
        ) is Err,
        n >= 4294967296 ==> bitrate_hint_of(wire::varint_bytes(n) + rest) is Err,
        n >= 4294967296 && a < 2 ==> session_answer_of(
            seq![a as u8] + (seq![0u8] + (wire::varint_bytes(n) + rest)),
        ) is Err,
        n >= 18446744073709551616 ==> {
            let tail = wire::varint_bytes(n) + rest;
            &&& ping_of(tail) is Err
            &&& pong_of(tail) is Err
            &&& clock_sync_of(tail) is Err
            &&& clock_sync_of(wire::varint_bytes(a) + tail) is Err
            &&& clock_sync_of(wire::varint_bytes(a) + (wire::varint_bytes(b) + tail)) is Err
            &&& clock_sync_of(
                wire::varint_bytes(a) + (wire::varint_bytes(b) + (wire::varint_bytes(c) + tail)),
            ) is Err
        },
{
    let tail = wire::varint_bytes(n) + rest;
    wire::law_large_numbers_are_refused(n, rest);
    wire::law_numbers_are_read_back(a, tail);
    wire::law_numbers_are_read_back(b, tail);
    wire::law_numbers_are_read_back(a, wire::varint_bytes(b) + tail);
    wire::law_numbers_are_read_back(c, tail);
    wire::law_numbers_are_read_back(b, wire::varint_bytes(c) + tail);
    wire::law_numbers_are_read_back(a, wire::varint_bytes(b) + (wire::varint_bytes(c) + tail));
    assert((seq![0u8] + tail).skip(1) =~= tail);
    assert((seq![a as u8] + (seq![0u8] + tail)).skip(1) =~= seq![0u8] + tail);
    assert forall|fps: u8| n >= 4294967296 && a < 2 && b < 65536 && c < 65536 implies video_of(
        wire::varint_bytes(a) + (wire::varint_bytes(b) + (wire::varint_bytes(c) + (
        #[trigger] seq![fps] + tail))),
    ) is Err by {
        let t = seq![fps] + tail;
        assert(t.skip(1) =~= tail);
        wire::law_numbers_are_read_back(c, t);
        wire::law_numbers_are_read_back(b, wire::varint_bytes(c) + t);
        wire::law_numbers_are_read_back(a, wire::varint_bytes(b) + (wire::varint_bytes(c) + t));
    }
}

} // verus!
