//! The phone's side of the control stream: pairing, greeting and the ping loop.

use vstd::prelude::*;

use crate::clock;
use crate::framing::CodecError;
use crate::listener;
use crate::listener::kind_of;
use crate::messages::{Message, MessageModel, OutcomeModel, PairingOutcomeInfo, Version};
use crate::pairing;
use crate::secret;
use crate::secret::{Exchange, SIDE_A, exchange_begin, exchange_finish};
use crate::text;
use crate::text::{joined, push_decimal};
use crate::wire;

verus! {

/// Type under which receivers announce themselves.
pub const SERVICE_TYPE: &'static str = "_wdlink._udp.local.";

/// The name of a message in quotes.
pub open spec fn quoted_kind(m: MessageModel) -> Seq<char> {
    "\""@ + listener::kind_text(m) + "\""@
}

fn unexpected(wanted: &str, m: &Message) -> (r: String)
    ensures
        r@ == wanted@ + quoted_kind(m@),
{
    let mut out = wanted.to_owned();
    out.append("\"");
    out.append(kind_of(m));
    out.append("\"");
    assert(out@ =~= wanted@ + quoted_kind(m@));
    out
}

/// The greeting of a phone.
pub fn hello(phone_name: &str, token: Option<String>) -> (r: Message)
    ensures
        r@ == (MessageModel::Hello {
            proto_version: Version::current(),
            device_name: phone_name@,
            auth_token: wire::maybe_view(token),
        }),
{
    Message::Hello {
        proto_version: Version::current(),
        device_name: phone_name.to_owned(),
        auth_token: token,
    }
}

/// A ping that carries the present time.
pub fn ping_now() -> (r: Message)
    ensures
        r@ is Ping,
{
    Message::Ping { sender_time_ms: clock::unix_millis() }
}

/// What a phone keeps of a pairing.
#[derive(Debug, Clone, PartialEq)]
pub struct DeviceToken {
    pub device_id: String,
    pub device_token: String,
}

impl DeviceToken {
    /// What is kept of the outcome of a pairing.
    pub fn from_outcome(outcome: &PairingOutcomeInfo) -> (r: DeviceToken)
        ensures
            r.device_id@ == outcome@.device_id,
            r.device_token@ == outcome@.device_token,
    {
        DeviceToken {
            device_id: outcome.device_id.clone(),
            device_token: outcome.device_token.clone(),
        }
    }
}

/// What a phone that pairs waits for.
enum PairStage {
    Challenge { exchange: Exchange },
    Result,
    Ack { outcome: PairingOutcomeInfo },
    Over,
}

/// The view of a stage.
#[verifier::ext_equal]
pub enum PairStageModel {
    /// Waits for the challenge; holds its half of the exchange.
    Challenge { holds: Seq<Seq<u8>> },
    /// Waits for the result.
    Result,
    /// Waits for the welcome that follows success.
    Ack { outcome: OutcomeModel },
    /// The pairing is over.
    Over,
}

/// The phone's side of a pairing.
pub struct PhonePairing {
    stage: PairStage,
}

impl View for PhonePairing {
    type V = PairStageModel;

    closed spec fn view(&self) -> PairStageModel {
        match self.stage {
            PairStage::Challenge { exchange } => PairStageModel::Challenge {
                holds: secret::exchange_holds(exchange),
            },
            PairStage::Result => PairStageModel::Result,
            PairStage::Ack { outcome } => PairStageModel::Ack { outcome: outcome@ },
            PairStage::Over => PairStageModel::Over,
        }
    }
}

/// What comes next in a pairing.
#[derive(Debug, Clone, PartialEq)]
pub enum PairNext {
    /// Send a message and wait for an answer.
    Send(Message),
    /// Wait for another message.
    Wait,
    /// Paired.
    Paired(PairingOutcomeInfo),
    /// Not paired.
    Fail(String),
}

/// The view of a `PairNext`.
#[verifier::ext_equal]
pub enum PairNextModel {
    Send(MessageModel),
    Wait,
    Paired(OutcomeModel),
    Fail(Seq<char>),
}

impl View for PairNext {
    type V = PairNextModel;

    open spec fn view(&self) -> PairNextModel {
        match *self {
            PairNext::Send(m) => PairNextModel::Send(m@),
            PairNext::Wait => PairNextModel::Wait,
            PairNext::Paired(o) => PairNextModel::Paired(o@),
            PairNext::Fail(why) => PairNextModel::Fail(why@),
        }
    }
}

/// What a phone makes of the receiver's next message.
pub open spec fn pair_step(stage: PairStageModel, m: MessageModel) -> (
    PairStageModel,
    PairNextModel,
) {
    match stage {
        PairStageModel::Challenge { holds } => match m {
            MessageModel::PairChallenge { spake_reply, receiver_confirmation, .. } => {
                let key = secret::exchange_key(holds, spake_reply);
                if !secret::exchange_takes(holds, spake_reply) {
                    (
                        PairStageModel::Over,
                        PairNextModel::Fail("pairing code rejected by receiver"@),
                    )
                } else if pairing::receiver_confirmation(key) != receiver_confirmation {
                    (
                        PairStageModel::Over,
                        PairNextModel::Fail("receiver failed confirmation check"@),
                    )
                } else {
                    (
                        PairStageModel::Result,
                        PairNextModel::Send(
                            MessageModel::PairVerify {
                                phone_confirmation: pairing::phone_confirmation(key),
                            },
                        ),
                    )
                }
            },
            _ => (
                PairStageModel::Over,
                PairNextModel::Fail("expected PairChallenge, got "@ + quoted_kind(m)),
            ),
        },
        PairStageModel::Result => match m {
            MessageModel::PairResult { accepted: true, outcome: Some(outcome), .. } => (
                PairStageModel::Ack { outcome },
                PairNextModel::Wait,
            ),
            MessageModel::PairResult { accepted: false, reason, .. } => (
                PairStageModel::Over,
                PairNextModel::Fail(
                    "receiver refused pairing: "@ + (match reason {
                        Some(r) => r,
                        None => "unknown reason"@,
                    }),
                ),
            ),
            _ => (
                PairStageModel::Over,
                PairNextModel::Fail("expected PairResult, got "@ + quoted_kind(m)),
            ),
        },
        PairStageModel::Ack { outcome } => match m {
            MessageModel::HelloAck { .. } => (
                PairStageModel::Over,
                PairNextModel::Paired(outcome),
            ),
            _ => (
                PairStageModel::Over,
                PairNextModel::Fail("expected HelloAck after pairing, got "@ + quoted_kind(m)),
            ),
        },
        PairStageModel::Over => (PairStageModel::Over, PairNextModel::Wait),
    }
}

impl PhonePairing {
    /// Begins to pair with a code: what is sent first, the greeting and the first message
    /// of the exchange.
    pub fn begin(phone_name: &str, code: &str) -> (r: (PhonePairing, Message, Message))
        ensures
            r.1@ == (MessageModel::Hello {
                proto_version: Version::current(),
                device_name: phone_name@,
                auth_token: None,
            }),
            r.2@ matches MessageModel::PairBegin { device_name, spake_message }
                && device_name == phone_name@ && secret::exchange_message(spake_message, SIDE_A)
                && r.0@ == (PairStageModel::Challenge {
                holds: seq![
                    seq![SIDE_A],
                    pairing::utf8(code@),
                    pairing::phone_identity(),
                    pairing::receiver_identity(),
                    spake_message,
                ],
            }),
    {
        let (exchange, sent) = exchange_begin(
            code.as_bytes(),
            "wdl-phone".as_bytes(),
            "wdl-receiver".as_bytes(),
        );
        (
            PhonePairing { stage: PairStage::Challenge { exchange } },
            hello(phone_name, None),
            Message::PairBegin { device_name: phone_name.to_owned(), spake_message: sent },
        )
    }

    /// Handles the receiver's next message.
    pub fn on_message(self, m: &Message) -> (r: (PhonePairing, PairNext))
        ensures
            (r.0@, r.1@) == pair_step(self@, m@),
    {
        let over = PhonePairing { stage: PairStage::Over };
        match self.stage {
            PairStage::Challenge { exchange } => match m {
                Message::PairChallenge {
                    spake_reply,
                    receiver_fingerprint: _,
                    receiver_confirmation,
                } => match exchange_finish(exchange, spake_reply.as_slice()) {
                    None => (over, PairNext::Fail("pairing code rejected by receiver".to_owned())),
                    Some(key) => {
                        let expected = pairing::confirmation_hash(
                            key.as_slice(),
                            "wdl-confirm-receiver",
                        );
                        if !pairing::same_block(&expected, receiver_confirmation) {
                            return (
                                over,
                                PairNext::Fail("receiver failed confirmation check".to_owned()),
                            );
                        }
                        (
                            PhonePairing { stage: PairStage::Result },
                            PairNext::Send(
                                Message::PairVerify {
                                    phone_confirmation: pairing::confirmation_hash(
                                        key.as_slice(),
                                        "wdl-confirm-phone",
                                    ),
                                },
                            ),
                        )
                    },
                },
                other => (over, PairNext::Fail(unexpected("expected PairChallenge, got ", other))),
            },
            PairStage::Result => match m {
                Message::PairResult { accepted: true, reason: _, outcome: Some(outcome) } => (
                    PhonePairing {
                        stage: PairStage::Ack {
                            outcome: PairingOutcomeInfo {
                                device_id: outcome.device_id.clone(),
                                device_token: outcome.device_token.clone(),
                            },
                        },
                    },
                    PairNext::Wait,
                ),
                Message::PairResult { accepted: false, reason, outcome: _ } => match reason {
                    Some(why) => (
                        over,
                        PairNext::Fail(joined("receiver refused pairing: ", why.as_str())),
                    ),
                    None => (
                        over,
                        PairNext::Fail(joined("receiver refused pairing: ", "unknown reason")),
                    ),
                },
                other => (over, PairNext::Fail(unexpected("expected PairResult, got ", other))),
            },
            PairStage::Ack { outcome } => match m {
                Message::HelloAck { proto_version: _, receiver_name: _ } => (
                    over,
                    PairNext::Paired(outcome),
                ),
                other => (
                    over,
                    PairNext::Fail(unexpected("expected HelloAck after pairing, got ", other)),
                ),
            },
            PairStage::Over => (over, PairNext::Wait),
        }
    }
}

/// Why the answer to a greeting is not a welcome.
pub open spec fn welcome_problem(m: MessageModel) -> Option<Seq<char>> {
    match m {
        MessageModel::HelloAck { proto_version, .. } => if Version::current().serves(
            proto_version,
        ) {
            None
        } else {
            Some("receiver speaks incompatible protocol "@ + proto_version.text())
        },
        _ => Some("expected HelloAck, got "@ + quoted_kind(m)),
    }
}

/// Checks the answer to a greeting and hands out the receiver's name.
pub fn check_welcome(m: &Message) -> (r: Result<String, String>)
    ensures
        match welcome_problem(m@) {
            None => r matches Ok(name) && (m@ matches MessageModel::HelloAck {
                receiver_name,
                ..
            } && name@ == receiver_name),
            Some(why) => r matches Err(e) && e@ == why,
        },
{
    match m {
        Message::HelloAck { proto_version, receiver_name } => {
            if Version::current().compatible_with(*proto_version) {
                Ok(receiver_name.clone())
            } else {
                Err(
                    joined(
                        "receiver speaks incompatible protocol ",
                        proto_version.to_string().as_str(),
                    ),
                )
            }
        },
        other => Err(unexpected("expected HelloAck, got ", other)),
    }
}

/// What a phone does after it read from the control stream.
#[derive(Debug, Clone, PartialEq)]
pub enum LoopNext {
    /// Go on.
    Continue,
    /// Show a line and go on.
    Show(String),
    /// Show a line, if there is one, and leave.
    Leave(Option<String>),
    /// Leave with an error.
    Fail(String),
}

/// The view of a `LoopNext`.
#[verifier::ext_equal]
pub enum LoopNextModel {
    Continue,
    Show(Seq<char>),
    Leave(Option<Seq<char>>),
    Fail(Seq<char>),
}

impl View for LoopNext {
    type V = LoopNextModel;

    open spec fn view(&self) -> LoopNextModel {
        match *self {
            LoopNext::Continue => LoopNextModel::Continue,
            LoopNext::Show(line) => LoopNextModel::Show(line@),
            LoopNext::Leave(line) => LoopNextModel::Leave(wire::maybe_view(line)),
            LoopNext::Fail(why) => LoopNextModel::Fail(why@),
        }
    }
}

/// The line that shows a round-trip time.
pub open spec fn rtt_line(now_ms: int, echoed_ms: int) -> Seq<char> {
    "rtt "@ + text::decimal(
        (if now_ms > echoed_ms {
            now_ms - echoed_ms
        } else {
            0
        }) as nat,
    ) + " ms"@
}

fn rtt_text(now_ms: u64, echoed_ms: u64) -> (r: String)
    ensures
        r@ == rtt_line(now_ms as int, echoed_ms as int),
{
    let mut out = "rtt ".to_owned();
    push_decimal(&mut out, now_ms.saturating_sub(echoed_ms));
    out.append(" ms");
    out
}

/// What follows the answer to a ping, at the time `now_ms`.
pub fn after_ping(answer: &Result<Message, CodecError>, now_ms: u64) -> (r: LoopNext)
    ensures
        match *answer {
            Ok(m) => match m@ {
                MessageModel::Pong { echoed_time_ms } => r@ == LoopNextModel::Show(
                    rtt_line(now_ms as int, echoed_time_ms as int),
                ),
                _ => r@ == LoopNextModel::Fail(
                    "unexpected message during ping: "@ + quoted_kind(m@),
                ),
            },
            Err(e) => if e@ is UnexpectedEof {
                r@ == LoopNextModel::Leave(None)
            } else {
                r@ == LoopNextModel::Fail("recv failed: "@ + e@.text())
            },
        },
{
    match answer {
        Ok(Message::Pong { echoed_time_ms }) => LoopNext::Show(rtt_text(now_ms, *echoed_time_ms)),
        Ok(other) => LoopNext::Fail(unexpected("unexpected message during ping: ", other)),
        Err(CodecError::UnexpectedEof) => LoopNext::Leave(None),
        Err(e) => LoopNext::Fail(joined("recv failed: ", e.to_string().as_str())),
    }
}

/// What follows a message that came of itself.
pub fn after_frame(frame: &Result<Message, CodecError>) -> (r: LoopNext)
    ensures
        match *frame {
            Ok(m) => match m@ {
                MessageModel::Bye { reason } => r@ == LoopNextModel::Leave(
                    Some("bye: "@ + reason),
                ),
                _ => r@ is Continue,
            },
            Err(e) => if e@ is UnexpectedEof {
                r@ == LoopNextModel::Leave(None)
            } else {
                r@ == LoopNextModel::Fail("control stream error: "@ + e@.text())
            },
        },
{
    match frame {
        Ok(Message::Bye { reason }) => LoopNext::Leave(Some(joined("bye: ", reason.as_str()))),
        Ok(_) => LoopNext::Continue,
        Err(CodecError::UnexpectedEof) => LoopNext::Leave(None),
        Err(e) => LoopNext::Fail(joined("control stream error: ", e.to_string().as_str())),
    }
}

/// What follows the answer to a ping of a phone that casts, at the time `now_ms`: an
/// answer that is late, or none, does not matter to it.
pub fn after_cast_ping(answer: &Result<Message, CodecError>, now_ms: u64) -> (r: LoopNext)
    ensures
        match *answer {
            Ok(m) => match m@ {
                MessageModel::Pong { echoed_time_ms } => r@ == LoopNextModel::Show(
                    rtt_line(now_ms as int, echoed_time_ms as int),
                ),
                MessageModel::Bye { reason } => r@ == LoopNextModel::Leave(
                    Some("bye: "@ + reason),
                ),
                _ => r@ is Continue,
            },
            Err(_) => r@ is Continue,
        },
{
    match answer {
        Ok(Message::Pong { echoed_time_ms }) => LoopNext::Show(rtt_text(now_ms, *echoed_time_ms)),
        Ok(Message::Bye { reason }) => LoopNext::Leave(Some(joined("bye: ", reason.as_str()))),
        Ok(_) => LoopNext::Continue,
        Err(_) => LoopNext::Continue,
    }
}

/// What follows a message that a phone that casts finds waiting.
pub fn after_cast_frame(frame: &Result<Message, CodecError>) -> (r: LoopNext)
    ensures
        match *frame {
            Ok(m) => match m@ {
                MessageModel::Bye { reason } => r@ == LoopNextModel::Leave(
                    Some("bye: "@ + reason),
                ),
                _ => r@ is Continue,
            },
            Err(e) => r@ == LoopNextModel::Fail("control stream error: "@ + e@.text()),
        },
{
    match frame {
        Ok(Message::Bye { reason }) => LoopNext::Leave(Some(joined("bye: ", reason.as_str()))),
        Ok(_) => LoopNext::Continue,
        Err(e) => LoopNext::Fail(joined("control stream error: ", e.to_string().as_str())),
    }
}

/// A phone and a receiver that use the same code pair: the phone accepts the challenge
/// that the receiver makes of the phone's first message, the receiver accepts the phone's
/// confirmation, and what the receiver then sends leaves the phone with the identifier and
/// the token of the device that the receiver stored.
pub proof fn law_phone_and_receiver_pair(
    server: listener::ServerModel,
    session: crate::session::SessionModel,
    code: Seq<char>,
    opened: std::time::Instant,
    devices: Seq<pairing::DeviceModel>,
    phone_message: Seq<u8>,
    name: Seq<char>,
    begun: listener::Turn,
    mid: pairing::PairingModel,
    readings: listener::ReadingsModel,
    later: listener::ReadingsModel,
    verified: listener::Turn,
    after: pairing::PairingModel,
)
    requires
        secret::exchange_message(phone_message, SIDE_A),
        server.phase is AwaitPairBegin,
        readings.window_age < pairing::PAIRING_CODE_TTL_SECS,
        later.window_age < pairing::PAIRING_CODE_TTL_SECS,
        later.entropy is Some,
        listener::message_turn(
            server,
            session,
            pairing::PairingModel {
                window: Some(
                    pairing::WindowModel {
                        code,
                        opened,
                        stage: pairing::StageModel::Waiting,
                    },
                ),
                devices,
            },
            MessageModel::PairBegin { device_name: name, spake_message: phone_message },
            readings,
            begun,
            mid,
        ),
        ({
            let phone = PairStageModel::Challenge {
                holds: seq![
                    seq![SIDE_A],
                    pairing::utf8(code),
                    pairing::phone_identity(),
                    pairing::receiver_identity(),
                    phone_message,
                ],
            };
            begun.actions[0] matches listener::ActionModel::Send { message, .. } ==> (pair_step(
                phone,
                message,
            ).1 matches PairNextModel::Send(reply) ==> listener::message_turn(
                begun.server,
                begun.session,
                mid,
                reply,
                later,
                verified,
                after,
            ))
        }),
    ensures
        begun.actions.len() == 1,
        begun.actions[0] is Send,
        ({
            let phone = PairStageModel::Challenge {
                holds: seq![
                    seq![SIDE_A],
                    pairing::utf8(code),
                    pairing::phone_identity(),
                    pairing::receiver_identity(),
                    phone_message,
                ],
            };
            let first = pair_step(phone, begun.actions[0]->message);
            let second = pair_step(first.0, verified.actions[0]->message);
            let third = pair_step(second.0, verified.actions[3]->message);
            &&& first.1 is Send
            &&& verified.actions.len() == 4
            &&& verified.server.phase is Serving
            &&& third.1 matches PairNextModel::Paired(o)
            &&& pairing::by_id(after.devices).dom().contains(o.device_id)
            &&& pairing::by_id(after.devices)[o.device_id].token == o.device_token
        }),
{
    let holds = seq![
        seq![SIDE_A],
        pairing::utf8(code),
        pairing::phone_identity(),
        pairing::receiver_identity(),
        phone_message,
    ];
    let phone = PairStageModel::Challenge { holds };
    let old = pairing::PairingModel {
        window: Some(pairing::WindowModel { code, opened, stage: pairing::StageModel::Waiting }),
        devices,
    };
    assert(seq![SIDE_A][0] == SIDE_A);
    assert(secret::begins(holds));
    assert(listener::begun(
        server,
        session,
        old,
        readings.window_age,
        name,
        phone_message,
        begun,
        mid,
    ));
    let r = choose|r: Result<pairing::BeginOutcome, pairing::PairingError>|
        {
            &&& #[trigger] pairing::begin_step(
                old,
                readings.window_age,
                name,
                phone_message,
                server.fingerprint,
                r,
                mid,
            )
            &&& begun == listener::begun_turn(server, session, r)
        };
    let o = r->Ok_0;
    let key = secret::spake2_key(
        pairing::utf8(code),
        pairing::phone_identity(),
        pairing::receiver_identity(),
        phone_message,
        o.spake_reply@,
    );
    assert(secret::exchange_key(holds, o.spake_reply@) == key);
    let challenge = begun.actions[0]->message;
    let first = pair_step(phone, challenge);
    assert(first.1 is Send);
    let reply = first.1->Send_0;
    let confirmation = pairing::phone_confirmation(key);
    assert(reply == (MessageModel::PairVerify { phone_confirmation: confirmation }));
    assert(listener::verified(
        begun.server,
        begun.session,
        mid,
        later,
        confirmation,
        verified,
        after,
    ));
    let v = choose|v: Result<pairing::PairedDevice, pairing::PairingError>|
        {
            &&& #[trigger] pairing::verify_step(
                mid,
                later.window_age,
                confirmation,
                later.entropy,
                later.now_secs,
                v,
                after,
            )
            &&& verified == listener::verified_turn(begun.server, begun.session, v)
        };
    let d = v->Ok_0;
    assert(verified.actions == listener::paired_actions(d@, server.receiver_name));
    assert(pairing::by_id(after.devices).dom().contains(d@.device_id));
}

/// A phone takes a challenge exactly when it can come from a receiver and proves that the
/// receiver has the key that follows from the phone's own code. Then it proves that it has it
/// too; otherwise it gives up and sends nothing.
pub proof fn law_challenges_prove_the_code(
    holds: Seq<Seq<u8>>,
    reply: Seq<u8>,
    fingerprint: Seq<char>,
    confirmation: Seq<u8>,
)
    requires
        holds.len() == 5,
        holds[0] == seq![65u8],
    ensures
        ({
            let key = secret::spake2_key(holds[1], holds[2], holds[3], holds[4], reply);
            let good = reply.len() == 33 && reply[0] == 66 && secret::curve_point(reply.skip(1));
            let proved = confirmation == secret::sha256_of(
                key + vstd::utf8::encode_utf8("wdl-confirm-receiver"@),
            );
            let (stage, next) = pair_step(
                PairStageModel::Challenge { holds },
                MessageModel::PairChallenge {
                    spake_reply: reply,
                    receiver_fingerprint: fingerprint,
                    receiver_confirmation: confirmation,
                },
            );
            &&& good && proved ==> stage == PairStageModel::Result && next == PairNextModel::Send(
                MessageModel::PairVerify {
                    phone_confirmation: secret::sha256_of(
                        key + vstd::utf8::encode_utf8("wdl-confirm-phone"@),
                    ),
                },
            )
            &&& good && !proved ==> stage == PairStageModel::Over && next == PairNextModel::Fail(
                "receiver failed confirmation check"@,
            )
            &&& !good ==> stage == PairStageModel::Over && next == PairNextModel::Fail(
                "pairing code rejected by receiver"@,
            )
        }),
{
    secret::law_messages_of_the_exchange(holds, reply);
    assert(seq![65u8][0] == 65);
}

/// A phone is paired exactly when the receiver accepts it, names what it is known by, and then
/// welcomes it: with that identifier and that token. A refusal is told with its reason.
pub proof fn law_accepted_phones_are_paired(
    m: MessageModel,
    outcome: OutcomeModel,
    why: Seq<char>,
    maybe: Option<Seq<char>>,
    none: Option<OutcomeModel>,
)
    ensures
        pair_step(
            PairStageModel::Result,
            MessageModel::PairResult { accepted: true, reason: maybe, outcome: Some(outcome) },
        ) == (PairStageModel::Ack { outcome }, PairNextModel::Wait),
        pair_step(
            PairStageModel::Result,
            MessageModel::PairResult { accepted: false, reason: Some(why), outcome: none },
        ) == (PairStageModel::Over, PairNextModel::Fail("receiver refused pairing: "@ + why)),
        m is HelloAck ==> pair_step(PairStageModel::Ack { outcome }, m) == (
            PairStageModel::Over,
            PairNextModel::Paired(outcome),
        ),
        !(m is HelloAck) ==> pair_step(PairStageModel::Ack { outcome }, m).1 is Fail,
        !(m is PairResult) ==> pair_step(PairStageModel::Result, m).1 is Fail,
        pair_step(PairStageModel::Result, m).1 !is Paired,
{
}

/// A welcome is one of a receiver that speaks version 1.0, and nothing else is.
pub proof fn law_welcomes_are_of_this_version(m: MessageModel)
    ensures
        welcome_problem(m) is None <==> (m matches MessageModel::HelloAck { proto_version: v, .. }
            && v.major == 1 && v.minor == 0),
        m matches MessageModel::HelloAck { proto_version: v, .. } ==> v.major != 1 || v.minor != 0
            ==> welcome_problem(m) == Some(
            "receiver speaks incompatible protocol "@ + text::decimal(v.major as nat) + seq!['.']
                + text::decimal(v.minor as nat),
        ),
        !(m is HelloAck) ==> welcome_problem(m) == Some(
            "expected HelloAck, got "@ + ("\""@ + listener::kind_text(m) + "\""@),
        ),
{
    match m {
        MessageModel::HelloAck { proto_version: v, .. } => {
            let start = "receiver speaks incompatible protocol "@;
            let a = text::decimal(v.major as nat);
            let b = text::decimal(v.minor as nat);
            assert(start + (a + seq!['.'] + b) =~= start + a + seq!['.'] + b);
        },
        _ => {},
    }
}

/// The line on a round trip shows the time from the echoed moment to now, and none where the
/// clock went back.
pub proof fn law_round_trips_are_shown(now: nat, echoed: nat)
    ensures
        now >= echoed ==> rtt_line(now as int, echoed as int) == "rtt "@ + text::decimal(
            (now - echoed) as nat,
        ) + " ms"@,
        now < echoed ==> rtt_line(now as int, echoed as int) == "rtt "@ + text::decimal(0)
            + " ms"@,
{
}

/// A message of the wrong kind is told by its kind, in quotes.
pub proof fn law_wrong_kinds_are_quoted(m: MessageModel)
    ensures
        quoted_kind(m) == "\""@ + listener::kind_text(m) + "\""@,
{
}

} // verus!
