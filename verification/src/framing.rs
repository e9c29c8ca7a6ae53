//! Frames of the control stream: a length of four bytes, lowest first, then a message.

use vstd::prelude::*;
use vstd::slice::slice_subrange;

use crate::codec;
use crate::codec::{decode_message, encode_message};
use crate::messages;
use crate::messages::{MAX_MESSAGE_LEN, Message, MessageModel};
use crate::text;
use crate::text::push_decimal;
use crate::wire::take_u32;

verus! {

/// Why a frame could not be written or read.
#[derive(Debug, Clone, PartialEq)]
pub enum CodecError {
    /// The size that was asked for, and the limit.
    TooLarge(usize, usize),
    UnexpectedEof,
    LengthMismatch { declared: usize, actual: usize },
    Decode(String),
    Io(String),
}

/// The view of a `CodecError`.
#[verifier::ext_equal]
pub enum CodecErrorModel {
    TooLarge(int, int),
    UnexpectedEof,
    LengthMismatch { declared: int, actual: int },
    Decode(Seq<char>),
    Io(Seq<char>),
}

impl View for CodecError {
    type V = CodecErrorModel;

    open spec fn view(&self) -> CodecErrorModel {
        match *self {
            CodecError::TooLarge(size, limit) => CodecErrorModel::TooLarge(
                size as int,
                limit as int,
            ),
            CodecError::UnexpectedEof => CodecErrorModel::UnexpectedEof,
            CodecError::LengthMismatch { declared, actual } => CodecErrorModel::LengthMismatch {
                declared: declared as int,
                actual: actual as int,
            },
            CodecError::Decode(why) => CodecErrorModel::Decode(why@),
            CodecError::Io(why) => CodecErrorModel::Io(why@),
        }
    }
}

impl CodecErrorModel {
    /// The message of the error.
    pub open spec fn text(self) -> Seq<char> {
        match self {
            CodecErrorModel::TooLarge(size, limit) => "frame exceeds protocol limit: "@
                + text::decimal(size as nat) + " bytes (max "@ + text::decimal(limit as nat) + ")"@,
            CodecErrorModel::UnexpectedEof =>
                "unexpected end of stream while reading frame header"@,
            CodecErrorModel::LengthMismatch { declared, actual } => "frame length "@
                + text::decimal(declared as nat) + " does not match payload size "@ + text::decimal(
                actual as nat,
            ),
            CodecErrorModel::Decode(why) => "message decode failed: "@ + why,
            CodecErrorModel::Io(why) => "io error: "@ + why,
        }
    }
}

impl CodecError {
    /// The message of the error.
    pub fn to_string(&self) -> (r: String)
        ensures
            r@ == self@.text(),
    {
        match self {
            CodecError::TooLarge(size, limit) => {
                let mut out = "frame exceeds protocol limit: ".to_owned();
                push_decimal(&mut out, *size as u64);
                out.append(" bytes (max ");
                push_decimal(&mut out, *limit as u64);
                out.append(")");
                out
            },
            CodecError::UnexpectedEof =>
                "unexpected end of stream while reading frame header".to_owned(),
            CodecError::LengthMismatch { declared, actual } => {
                let mut out = "frame length ".to_owned();
                push_decimal(&mut out, *declared as u64);
                out.append(" does not match payload size ");
                push_decimal(&mut out, *actual as u64);
                out
            },
            CodecError::Decode(why) => {
                let mut out = "message decode failed: ".to_owned();
                out.append(why.as_str());
                out
            },
            CodecError::Io(why) => {
                let mut out = "io error: ".to_owned();
                out.append(why.as_str());
                out
            },
        }
    }
}

/// A number in four bytes, the lowest first.
pub open spec fn le32(n: int) -> Seq<u8> {
    seq![
        (n % 256) as u8,
        (n / 256 % 256) as u8,
        (n / 65536 % 256) as u8,
        (n / 16777216 % 256) as u8,
    ]
}

/// The number in the first four bytes.
pub open spec fn le32_of(b: Seq<u8>) -> int {
    b[0] + b[1] * 256 + b[2] * 65536 + b[3] * 16777216
}

/// The frame of a message.
pub open spec fn frame_bytes(m: MessageModel) -> Seq<u8> {
    le32(codec::message_bytes(m).len() as int) + codec::message_bytes(m)
}

/// Whether the frame of a message keeps the size limit.
pub open spec fn frame_fits(m: MessageModel) -> bool {
    codec::message_bytes(m).len() + 4 <= MAX_MESSAGE_LEN
}

/// Writes the frame of a message.
pub fn encode_frame(message: &Message) -> (r: Result<Vec<u8>, CodecError>)
    ensures
        match r {
            Ok(frame) => frame_fits(message@) && frame@ == frame_bytes(message@),
            Err(e) => {
                let total = codec::message_bytes(message@).len() + 4;
                &&& !frame_fits(message@)
                &&& e@ == CodecErrorModel::TooLarge(
                    if total <= usize::MAX {
                        total as int
                    } else {
                        usize::MAX as int
                    },
                    MAX_MESSAGE_LEN as int,
                )
            },
        },
{
    let body = encode_message(message);
    let total: usize = body.len().saturating_add(4);
    if total > MAX_MESSAGE_LEN {
        return Err(CodecError::TooLarge(total, MAX_MESSAGE_LEN));
    }
    let n: usize = body.len();
    let mut frame: Vec<u8> = Vec::new();
    frame.push((n % 256) as u8);
    frame.push((n / 256 % 256) as u8);
    frame.push(0);
    frame.push(0);
    assert(frame@ =~= le32(n as int));
    frame.extend_from_slice(body.as_slice());
    assert(frame@ =~= frame_bytes(message@));
    Ok(frame)
}

/// What the header of a frame says of the payload's length.
pub open spec fn header_verdict(header: Seq<u8>) -> Result<int, CodecErrorModel> {
    if header.len() < 4 {
        Err(CodecErrorModel::UnexpectedEof)
    } else if le32_of(header) > MAX_MESSAGE_LEN {
        Err(CodecErrorModel::TooLarge(le32_of(header), MAX_MESSAGE_LEN as int))
    } else {
        Ok(le32_of(header))
    }
}

/// What the payload of a frame holds: a message that keeps the limits.
pub open spec fn payload_verdict(payload: Seq<u8>) -> Result<MessageModel, CodecErrorModel> {
    match codec::message_of(payload) {
        Err(fault) => Err(CodecErrorModel::Decode(fault.text())),
        Ok(m) => match messages::message_problem(m) {
            Some(why) => Err(CodecErrorModel::Decode(why)),
            None => Ok(m),
        },
    }
}

/// What a whole frame holds.
pub open spec fn frame_verdict(frame: Seq<u8>) -> Result<MessageModel, CodecErrorModel> {
    match header_verdict(frame) {
        Err(e) => Err(e),
        Ok(declared) => if declared != frame.len() - 4 {
            Err(CodecErrorModel::LengthMismatch { declared, actual: frame.len() - 4 })
        } else {
            payload_verdict(frame.skip(4))
        },
    }
}

/// Reads the length of the payload from the first bytes of a frame.
pub fn frame_len(header: &[u8]) -> (r: Result<usize, CodecError>)
    ensures
        match header_verdict(header@) {
            Ok(n) => r matches Ok(m) && m == n,
            Err(e) => r matches Err(x) && x@ == e,
        },
{
    if header.len() < 4 {
        return Err(CodecError::UnexpectedEof);
    }
    let declared: u32 = header[0] as u32 + header[1] as u32 * 256 + header[2] as u32 * 65536
        + header[3] as u32 * 16777216;
    let declared: usize = declared as usize;
    if declared > MAX_MESSAGE_LEN {
        return Err(CodecError::TooLarge(declared, MAX_MESSAGE_LEN));
    }
    Ok(declared)
}

/// Reads the message in the payload of a frame and checks it against the limits.
pub fn validate_and_decode(payload: &[u8]) -> (r: Result<Message, CodecError>)
    ensures
        match payload_verdict(payload@) {
            Ok(m) => r matches Ok(x) && x@ == m,
            Err(e) => r matches Err(x) && x@ == e,
        },
{
    match decode_message(payload) {
        Err(fault) => Err(CodecError::Decode(fault.to_string())),
        Ok(message) => match message.validate() {
            Err(why) => Err(CodecError::Decode(why.to_owned())),
            Ok(()) => Ok(message),
        },
    }
}

/// How many kinds of messages there are.
pub const MESSAGE_KINDS: u32 = 14;

/// Whether a payload begins with the number of a message that is not known.
pub open spec fn unknown_kind(payload: Seq<u8>) -> bool {
    crate::wire::take_varint(payload, 4294967296) matches Ok((tag, _)) && tag >= MESSAGE_KINDS
}

/// Reads the payload of a frame off a stream. Messages of a kind that is not known are
/// passed over, so that newer peers can be talked to.
pub fn read_payload(payload: &[u8]) -> (r: Result<Option<Message>, CodecError>)
    ensures
        if unknown_kind(payload@) {
            r matches Ok(None)
        } else {
            match payload_verdict(payload@) {
                Ok(m) => r matches Ok(Some(x)) && x@ == m,
                Err(e) => r matches Err(x) && x@ == e,
            }
        },
{
    match take_u32(payload) {
        Ok((tag, _)) => {
            if tag >= MESSAGE_KINDS {
                return Ok(None);
            }
        },
        Err(_) => {},
    }
    match validate_and_decode(payload) {
        Ok(m) => Ok(Some(m)),
        Err(e) => Err(e),
    }
}

/// Reads the message in a frame.
pub fn decode_frame(frame: &[u8]) -> (r: Result<Message, CodecError>)
    ensures
        match frame_verdict(frame@) {
            Ok(m) => r matches Ok(x) && x@ == m,
            Err(e) => r matches Err(x) && x@ == e,
        },
{
    match frame_len(frame) {
        Err(e) => Err(e),
        Ok(declared) => {
            let payload = slice_subrange(frame, 4, frame.len());
            assert(payload@ == frame@.skip(4));
            if declared != payload.len() {
                return Err(CodecError::LengthMismatch { declared, actual: payload.len() });
            }
            validate_and_decode(payload)
        },
    }
}

proof fn lemma_frame_parts(m: MessageModel)
    requires
        frame_fits(m),
    ensures
        le32_of(frame_bytes(m)) == codec::message_bytes(m).len(),
        frame_bytes(m).len() == codec::message_bytes(m).len() + 4,
        frame_bytes(m).skip(4) == codec::message_bytes(m),
{
    assert(frame_bytes(m).skip(4) =~= codec::message_bytes(m));
}

/// A frame gives back the message that it was made of: every message that keeps the
/// limits of the protocol comes out of its frame as it went in.
pub proof fn law_frames_give_the_message_back(m: MessageModel)
    requires
        codec::message_fits(m),
        messages::message_problem(m) is None,
        frame_fits(m),
    ensures
        frame_verdict(frame_bytes(m)) == Ok::<MessageModel, CodecErrorModel>(m),
{
    lemma_frame_parts(m);
    let body = codec::message_bytes(m);
    codec::law_messages_are_read_back(m, Seq::empty());
    assert(body + Seq::<u8>::empty() =~= body);
}

/// No frame that was cut short is taken for a message: without its whole header it ends too
/// early, and otherwise its length is not the one that it declares.
pub proof fn law_truncated_frames_are_refused(m: MessageModel, cut: int)
    requires
        frame_fits(m),
        0 <= cut < frame_bytes(m).len(),
    ensures
        frame_verdict(frame_bytes(m).take(cut)) == Err::<MessageModel, CodecErrorModel>(
            if cut < 4 {
                CodecErrorModel::UnexpectedEof
            } else {
                CodecErrorModel::LengthMismatch {
                    declared: codec::message_bytes(m).len() as int,
                    actual: cut - 4,
                }
            },
        ),
{
    lemma_frame_parts(m);
    let part = frame_bytes(m).take(cut);
    if cut >= 4 {
        assert(le32_of(part) == le32_of(frame_bytes(m)));
    }
}

/// What a peer of this version writes is never passed over.
pub proof fn law_known_messages_are_not_passed_over(m: MessageModel, rest: Seq<u8>)
    ensures
        !unknown_kind(codec::message_bytes(m) + rest),
{
    codec::lemma_message_tag(m, rest);
}

/// A message that comes out of a frame keeps the limits of the protocol.
pub proof fn law_decoded_messages_are_valid(frame: Seq<u8>)
    ensures
        frame_verdict(frame) matches Ok(m) ==> messages::message_problem(m) is None,
{
}

/// Reading the four bytes of the header and then as many bytes as they say gives the
/// same message, or the same error, as the whole frame.
pub proof fn law_reading_in_two_steps_is_reading_the_frame(header: Seq<u8>, payload: Seq<u8>)
    requires
        header.len() == 4,
        header_verdict(header) matches Ok(n) ==> payload.len() == n,
    ensures
        frame_verdict(header + payload) == (match header_verdict(header) {
            Err(e) => Err::<MessageModel, CodecErrorModel>(e),
            Ok(_) => payload_verdict(payload),
        }),
{
    let frame = header + payload;
    assert(frame.skip(4) =~= payload);
    assert(le32_of(frame) == le32_of(header));
}

/// What a header says is the number of its four bytes, the lowest first, up to 4096.
pub proof fn law_headers_hold_the_length_lowest_byte_first(header: Seq<u8>)
    ensures
        header.len() < 4 ==> header_verdict(header) == Err::<int, CodecErrorModel>(
            CodecErrorModel::UnexpectedEof,
        ),
        header.len() >= 4 ==> ({
            let n = header[0] + 256 * header[1] + 65536 * header[2] + 16777216 * header[3];
            header_verdict(header) == (if n <= 4096 {
                Ok::<int, CodecErrorModel>(n)
            } else {
                Err(CodecErrorModel::TooLarge(n, 4096))
            })
        }),
{
}

/// A frame is the message behind its length, and there is one exactly for a message that
/// takes at most 4092 bytes.
pub proof fn law_frames_are_messages_behind_their_length(m: MessageModel)
    ensures
        frame_fits(m) <==> codec::message_bytes(m).len() <= 4092,
        frame_fits(m) ==> ({
            let n = codec::message_bytes(m).len();
            frame_bytes(m) == seq![(n % 256) as u8, (n / 256) as u8, 0u8, 0u8]
                + codec::message_bytes(m)
        }),
{
    let n = codec::message_bytes(m).len() as int;
    if frame_fits(m) {
        assert(frame_bytes(m) =~= seq![(n % 256) as u8, (n / 256) as u8, 0u8, 0u8]
            + codec::message_bytes(m));
    }
}

/// A frame whose length is right holds what its payload holds: a message that can be read and
/// keeps the limits, and nothing else. A frame of another length is refused.
pub proof fn law_frames_hold_their_payload(header: Seq<u8>, payload: Seq<u8>, m: MessageModel)
    requires
        header.len() == 4,
    ensures
        ({
            let n = header[0] + 256 * header[1] + 65536 * header[2] + 16777216 * header[3];
            let verdict = frame_verdict(header + payload);
            &&& verdict == Ok::<MessageModel, CodecErrorModel>(m) <==> n <= 4096 && n
                == payload.len() && codec::message_of(payload) == Ok::<
                MessageModel,
                crate::wire::Fault,
            >(m) && messages::message_problem(m) is None
            &&& n <= 4096 && n != payload.len() ==> verdict == Err::<MessageModel, CodecErrorModel>(
                CodecErrorModel::LengthMismatch { declared: n, actual: payload.len() as int },
            )
        }),
{
    let frame = header + payload;
    assert(frame.skip(4) =~= payload);
    assert(frame[0] == header[0] && frame[1] == header[1] && frame[2] == header[2] && frame[3]
        == header[3]);
}

/// What is passed over begins with the number of a message, and that is 14 or more.
pub proof fn law_only_newer_kinds_are_passed_over(kind: nat, rest: Seq<u8>)
    requires
        kind < 4294967296,
    ensures
        unknown_kind(crate::wire::varint_bytes(kind) + rest) <==> kind >= 14,
        !unknown_kind(Seq::empty()),
{
    crate::wire::law_numbers_are_read_back(kind, rest);
}

/// The message of an error names what went wrong, with the sizes that it is about.
pub proof fn law_errors_name_their_sizes(size: nat, limit: nat, why: Seq<char>)
    ensures
        CodecErrorModel::UnexpectedEof.text()
            == "unexpected end of stream while reading frame header"@,
        CodecErrorModel::TooLarge(size as int, limit as int).text()
            == "frame exceeds protocol limit: "@ + text::decimal(size) + " bytes (max "@
            + text::decimal(limit) + ")"@,
        (CodecErrorModel::LengthMismatch { declared: size as int, actual: limit as int }).text()
            == "frame length "@ + text::decimal(size) + " does not match payload size "@
            + text::decimal(limit),
        CodecErrorModel::Decode(why).text() == "message decode failed: "@ + why,
        CodecErrorModel::Io(why).text() == "io error: "@ + why,
{
}

} // verus!
