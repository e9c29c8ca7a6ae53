//! The receiver's side of the control stream: what is answered to each message, from the
//! first greeting to the end of the session.

use vstd::prelude::*;

use crate::clock;
use crate::framing;
use crate::framing::CodecError;
use crate::media;
use crate::media::{MediaEvent, MediaLimits, Watch, validate_offer, watch};
use crate::messages::{
    AudioOffer, Message, MessageModel, OutcomeModel, PairingOutcomeInfo, Version, VideoOffer,
};
use crate::pairing;
use crate::pairing::{PairedDevice, PairingManager, PairingModel};
use crate::secret;
use crate::session::{SessionManager, SessionModel, State};
use crate::text::joined;
use crate::wire;

verus! {

/// Seconds of silence on the control stream after which a connection is lost.
pub const IDLE_TIMEOUT_SECS: u64 = 10;

/// What the listener tells the application.
#[derive(Debug, Clone, PartialEq)]
pub enum ListenerEvent {
    Connected { name: String },
    Disconnected { clean: bool, reason: String },
    PairingSucceeded { device_id: String, name: String },
    MediaFirstFrame { decoder: String },
}

/// The view of a `ListenerEvent`.
#[verifier::ext_equal]
pub enum ListenerEventModel {
    Connected { name: Seq<char> },
    Disconnected { clean: bool, reason: Seq<char> },
    PairingSucceeded { device_id: Seq<char>, name: Seq<char> },
    MediaFirstFrame { decoder: Seq<char> },
}

impl View for ListenerEvent {
    type V = ListenerEventModel;

    open spec fn view(&self) -> ListenerEventModel {
        match *self {
            ListenerEvent::Connected { name } => ListenerEventModel::Connected { name: name@ },
            ListenerEvent::Disconnected { clean, reason } => ListenerEventModel::Disconnected {
                clean,
                reason: reason@,
            },
            ListenerEvent::PairingSucceeded { device_id, name } =>
                ListenerEventModel::PairingSucceeded { device_id: device_id@, name: name@ },
            ListenerEvent::MediaFirstFrame { decoder } => ListenerEventModel::MediaFirstFrame {
                decoder: decoder@,
            },
        }
    }
}

/// How a session ended.
#[derive(Debug, Clone, PartialEq)]
pub enum SessionOutcome {
    Clean(String),
    Lost(String),
}

/// The view of a `SessionOutcome`.
#[verifier::ext_equal]
pub enum OutcomeView {
    Clean(Seq<char>),
    Lost(Seq<char>),
}

impl View for SessionOutcome {
    type V = OutcomeView;

    open spec fn view(&self) -> OutcomeView {
        match *self {
            SessionOutcome::Clean(reason) => OutcomeView::Clean(reason@),
            SessionOutcome::Lost(reason) => OutcomeView::Lost(reason@),
        }
    }
}

/// What is to be done, in this order.
#[derive(Debug, Clone, PartialEq)]
pub enum Action {
    /// Send a message. Where that fails and `failure` is given, the session is lost, for
    /// the reason that `failure` begins; otherwise a failure is passed over.
    Send { message: Message, failure: Option<String> },
    /// Tell the application.
    Emit(ListenerEvent),
    /// Start the pipelines, then report how that went.
    StartMedia { video: VideoOffer, audio: AudioOffer },
    /// End the session.
    End(SessionOutcome),
}

/// The view of an `Action`.
#[verifier::ext_equal]
pub enum ActionModel {
    Send { message: MessageModel, failure: Option<Seq<char>> },
    Emit(ListenerEventModel),
    StartMedia { video: VideoOffer, audio: AudioOffer },
    End(OutcomeView),
}

impl View for Action {
    type V = ActionModel;

    open spec fn view(&self) -> ActionModel {
        match *self {
            Action::Send { message, failure } => ActionModel::Send {
                message: message@,
                failure: wire::maybe_view(failure),
            },
            Action::Emit(e) => ActionModel::Emit(e@),
            Action::StartMedia { video, audio } => ActionModel::StartMedia { video, audio },
            Action::End(o) => ActionModel::End(o@),
        }
    }
}

/// The views of a list of actions.
pub open spec fn action_views(actions: Seq<Action>) -> Seq<ActionModel> {
    Seq::new(actions.len(), |i: int| actions[i]@)
}

/// What the receiver waits for, or does.
#[derive(Debug, Clone, Copy, PartialEq, Eq, Structural)]
pub enum Phase {
    /// Waits for the greeting.
    AwaitHello,
    /// Waits for the message with which a phone begins to pair.
    AwaitPairBegin,
    /// Waits for the confirmation of a phone.
    AwaitPairVerify,
    /// Serves an authenticated phone.
    Serving { media: MediaPhase },
    /// The session is over.
    Over,
}

/// What has become of the media of a session.
#[derive(Debug, Clone, Copy, PartialEq, Eq, Structural)]
pub enum MediaPhase {
    /// Nothing was offered, or no offer was accepted.
    Off,
    /// The pipelines of an offer are being started.
    Starting,
    /// The pipelines run.
    On,
}

/// What the outside world has to say when a message is handled.
pub struct Readings {
    /// Seconds since the pairing window opened.
    pub window_age: u64,
    /// Random bytes for a device token.
    pub entropy: Option<Vec<u8>>,
    /// Seconds since 1970.
    pub now_secs: u64,
    /// Milliseconds since 1970.
    pub now_ms: u64,
}

/// The view of `Readings`.
#[verifier::ext_equal]
pub struct ReadingsModel {
    pub window_age: int,
    pub entropy: Option<Seq<u8>>,
    pub now_secs: u64,
    pub now_ms: u64,
}

impl View for Readings {
    type V = ReadingsModel;

    open spec fn view(&self) -> ReadingsModel {
        ReadingsModel {
            window_age: self.window_age as int,
            entropy: pairing::maybe_bytes(self.entropy),
            now_secs: self.now_secs,
            now_ms: self.now_ms,
        }
    }
}

/// The name of a message.
pub open spec fn kind_text(m: MessageModel) -> Seq<char> {
    match m {
        MessageModel::Hello { .. } => "Hello"@,
        MessageModel::HelloAck { .. } => "HelloAck"@,
        MessageModel::PairBegin { .. } => "PairBegin"@,
        MessageModel::PairChallenge { .. } => "PairChallenge"@,
        MessageModel::PairVerify { .. } => "PairVerify"@,
        MessageModel::PairResult { .. } => "PairResult"@,
        MessageModel::SessionOffer { .. } => "SessionOffer"@,
        MessageModel::SessionAnswer { .. } => "SessionAnswer"@,
        MessageModel::KeyframeRequest => "KeyframeRequest"@,
        MessageModel::BitrateHint { .. } => "BitrateHint"@,
        MessageModel::ClockSync { .. } => "ClockSync"@,
        MessageModel::Ping { .. } => "Ping"@,
        MessageModel::Pong { .. } => "Pong"@,
        MessageModel::Bye { .. } => "Bye"@,
    }
}

/// The name of a message.
pub fn kind_of(message: &Message) -> (r: &'static str)
    ensures
        r@ == kind_text(message@),
{
    match message {
        Message::Hello { .. } => "Hello",
        Message::HelloAck { .. } => "HelloAck",
        Message::PairBegin { .. } => "PairBegin",
        Message::PairChallenge { .. } => "PairChallenge",
        Message::PairVerify { .. } => "PairVerify",
        Message::PairResult { .. } => "PairResult",
        Message::SessionOffer { .. } => "SessionOffer",
        Message::SessionAnswer { .. } => "SessionAnswer",
        Message::KeyframeRequest => "KeyframeRequest",
        Message::BitrateHint { .. } => "BitrateHint",
        Message::ClockSync { .. } => "ClockSync",
        Message::Ping { .. } => "Ping",
        Message::Pong { .. } => "Pong",
        Message::Bye { .. } => "Bye",
    }
}

/// A goodbye.
pub open spec fn bye(reason: Seq<char>) -> ActionModel {
    ActionModel::Send { message: MessageModel::Bye { reason }, failure: None }
}

/// A clean end.
pub open spec fn clean_end(reason: Seq<char>) -> ActionModel {
    ActionModel::End(OutcomeView::Clean(reason))
}

/// A loss.
pub open spec fn lost(reason: Seq<char>) -> ActionModel {
    ActionModel::End(OutcomeView::Lost(reason))
}

/// A pairing that is refused: the phone is told why, and the session ends for that reason.
pub open spec fn refusal(reason: Seq<char>) -> Seq<ActionModel> {
    seq![
        ActionModel::Send {
            message: MessageModel::PairResult {
                accepted: false,
                reason: Some(reason),
                outcome: None,
            },
            failure: None,
        },
        clean_end(reason),
    ]
}

/// What a phone is told that wants to pair while no window is open.
pub open spec fn no_window_reason() -> Seq<char> {
    "no pairing window is open on the computer"@
}

/// The welcome of an authenticated phone.
pub open spec fn welcome(name: Seq<char>, receiver_name: Seq<char>) -> Seq<ActionModel> {
    seq![
        ActionModel::Emit(ListenerEventModel::Connected { name }),
        ActionModel::Send {
            message: MessageModel::HelloAck { proto_version: Version::current(), receiver_name },
            failure: Some("failed to send HelloAck: "@),
        },
    ]
}

/// The session of an authenticated phone.
pub open spec fn welcomed(session: SessionModel, name: Seq<char>) -> SessionModel {
    session.moved(State::Negotiating).with_peer(name)
}

/// The answer to an offer.
pub open spec fn answer(accepted: bool, reason: Option<Seq<char>>) -> ActionModel {
    ActionModel::Send {
        message: MessageModel::SessionAnswer {
            accepted,
            reason,
            max_video_bitrate_kbps: MediaLimits::MAX_BITRATE_KBPS,
        },
        failure: Some("failed to answer offer: "@),
    }
}

/// What the receiver knows of itself and what it waits for.
pub struct Server {
    pub receiver_name: String,
    pub fingerprint: String,
    pub media_enabled: bool,
    pub phase: Phase,
}

/// The view of a `Server`.
#[verifier::ext_equal]
pub struct ServerModel {
    pub receiver_name: Seq<char>,
    pub fingerprint: Seq<char>,
    pub media_enabled: bool,
    pub phase: Phase,
}

impl ServerModel {
    /// The server in another phase.
    pub open spec fn at(self, phase: Phase) -> ServerModel {
        ServerModel { phase, ..self }
    }
}

impl View for Server {
    type V = ServerModel;

    open spec fn view(&self) -> ServerModel {
        ServerModel {
            receiver_name: self.receiver_name@,
            fingerprint: self.fingerprint@,
            media_enabled: self.media_enabled,
            phase: self.phase,
        }
    }
}

/// Everything that handling a message may change, and what is to be done.
#[verifier::ext_equal]
pub struct Turn {
    pub server: ServerModel,
    pub session: SessionModel,
    pub actions: Seq<ActionModel>,
}

/// The greeting `m`.
pub open spec fn hello_turn(
    server: ServerModel,
    session: SessionModel,
    pairing: PairingModel,
    m: MessageModel,
    readings: ReadingsModel,
) -> Turn {
    match m {
        MessageModel::Hello { proto_version, device_name, auth_token } => {
            let device = match auth_token {
                Some(t) => pairing::first_with_token(pairing.devices, t),
                None => None,
            };
            if !Version::current().serves(proto_version) {
                Turn {
                    server: server.at(Phase::Over),
                    session,
                    actions: seq![
                        bye(
                            "protocol version "@ + proto_version.text()
                                + " incompatible with receiver "@ + Version::current().text(),
                        ),
                        clean_end("incompatible protocol version "@ + proto_version.text()),
                    ],
                }
            } else if device is Some {
                let d = device->0;
                Turn {
                    server: server.at(Phase::Serving { media: MediaPhase::Off }),
                    session: welcomed(session, d.name),
                    actions: welcome(d.name, server.receiver_name),
                }
            } else if auth_token is None || (pairing.window is Some && readings.window_age
                < pairing::PAIRING_CODE_TTL_SECS) {
                Turn { server: server.at(Phase::AwaitPairBegin), session, actions: Seq::empty() }
            } else {
                Turn {
                    server: server.at(Phase::Over),
                    session,
                    actions: refusal(no_window_reason()),
                }
            }
        },
        other => Turn {
            server: server.at(Phase::Over),
            session,
            actions: seq![
                bye("expected Hello, got "@ + kind_text(m)),
                clean_end("unexpected first message"@),
            ],
        },
    }
}

/// Appends an action.
fn push(out: &mut Vec<Action>, a: Action)
    ensures
        action_views(final(out)@) == action_views(old(out)@).push(a@),
{
    out.push(a);
    proof {
        assert(action_views(out@) =~= action_views(old(out)@).push(a@));
    }
}

fn no_actions() -> (r: Vec<Action>)
    ensures
        action_views(r@) == Seq::<ActionModel>::empty(),
{
    let r: Vec<Action> = Vec::new();
    assert(action_views(r@) =~= Seq::<ActionModel>::empty());
    r
}

fn refuse(reason: String) -> (r: Vec<Action>)
    ensures
        action_views(r@) == refusal(reason@),
{
    let mut out = no_actions();
    push(
        &mut out,
        Action::Send {
            message: Message::PairResult {
                accepted: false,
                reason: Some(reason.clone()),
                outcome: None,
            },
            failure: None,
        },
    );
    push(&mut out, Action::End(SessionOutcome::Clean(reason)));
    assert(action_views(out@) =~= refusal(reason@));
    out
}

fn leave(bye_reason: String, reason: String) -> (r: Vec<Action>)
    ensures
        action_views(r@) == seq![bye(bye_reason@), clean_end(reason@)],
{
    let mut out = no_actions();
    push(&mut out, Action::Send { message: Message::Bye { reason: bye_reason }, failure: None });
    push(&mut out, Action::End(SessionOutcome::Clean(reason)));
    assert(action_views(out@) =~= seq![bye(bye_reason@), clean_end(reason@)]);
    out
}

fn end_lost(reason: String) -> (r: Vec<Action>)
    ensures
        action_views(r@) == seq![lost(reason@)],
{
    let mut out = no_actions();
    push(&mut out, Action::End(SessionOutcome::Lost(reason)));
    assert(action_views(out@) =~= seq![lost(reason@)]);
    out
}

fn send_or_lose(message: Message, failure: &str) -> (r: Vec<Action>)
    ensures
        action_views(r@) == seq![
            ActionModel::Send { message: message@, failure: Some(failure@) },
        ],
{
    let mut out = no_actions();
    push(&mut out, Action::Send { message, failure: Some(failure.to_owned()) });
    assert(action_views(out@) =~= seq![
        ActionModel::Send { message: message@, failure: Some(failure@) },
    ]);
    out
}

fn request_keyframe() -> (r: Vec<Action>)
    ensures
        action_views(r@) == seq![
            ActionModel::Send { message: MessageModel::KeyframeRequest, failure: None },
        ],
{
    let mut out = no_actions();
    push(&mut out, Action::Send { message: Message::KeyframeRequest, failure: None });
    assert(action_views(out@) =~= seq![
        ActionModel::Send { message: MessageModel::KeyframeRequest, failure: None },
    ]);
    out
}

/// What follows the first step of pairing: the challenge, or a refusal.
pub open spec fn begun_turn(
    server: ServerModel,
    session: SessionModel,
    r: Result<pairing::BeginOutcome, pairing::PairingError>,
) -> Turn {
    match r {
        Ok(o) => Turn {
            server: server.at(Phase::AwaitPairVerify),
            session,
            actions: seq![
                ActionModel::Send {
                    message: MessageModel::PairChallenge {
                        spake_reply: o.spake_reply@,
                        receiver_fingerprint: o.receiver_fingerprint@,
                        receiver_confirmation: o.receiver_confirmation@,
                    },
                    failure: Some("failed to send PairChallenge: "@),
                },
            ],
        },
        Err(e) => Turn {
            server: server.at(Phase::Over),
            session,
            actions: refusal("pairing rejected: "@ + e.text()),
        },
    }
}

/// Whether `turn` follows the first step of pairing on `pairing`, which leaves `after`.
pub open spec fn begun(
    server: ServerModel,
    session: SessionModel,
    pairing: PairingModel,
    age: int,
    device_name: Seq<char>,
    spake_message: Seq<u8>,
    turn: Turn,
    after: PairingModel,
) -> bool {
    exists|r: Result<pairing::BeginOutcome, pairing::PairingError>|
        {
            &&& #[trigger] pairing::begin_step(
                pairing,
                age,
                device_name,
                spake_message,
                server.fingerprint,
                r,
                after,
            )
            &&& turn == begun_turn(server, session, r)
        }
}

/// What the receiver makes of the message with which a phone begins to pair.
pub open spec fn pair_begin_turn(
    server: ServerModel,
    session: SessionModel,
    pairing: PairingModel,
    m: MessageModel,
    readings: ReadingsModel,
    turn: Turn,
    after: PairingModel,
) -> bool {
    match m {
        MessageModel::PairBegin { device_name, spake_message } => {
            if !(pairing.window is Some && readings.window_age < pairing::PAIRING_CODE_TTL_SECS) {
                &&& after == pairing
                &&& turn == (Turn {
                    server: server.at(Phase::Over),
                    session,
                    actions: refusal(no_window_reason()),
                })
            } else {
                begun(
                    server,
                    session,
                    pairing,
                    readings.window_age,
                    device_name,
                    spake_message,
                    turn,
                    after,
                )
            }
        },
        _ => {
            &&& after == pairing
            &&& turn == (Turn {
                server: server.at(Phase::Over),
                session,
                actions: refusal("expected PairBegin, got "@ + kind_text(m)),
            })
        },
    }
}

/// What a phone is told that was just paired.
pub open spec fn paired_actions(d: pairing::DeviceModel, receiver_name: Seq<char>) -> Seq<
    ActionModel,
> {
    seq![
        ActionModel::Send {
            message: MessageModel::PairResult {
                accepted: true,
                reason: None,
                outcome: Some(OutcomeModel { device_id: d.device_id, device_token: d.token }),
            },
            failure: Some("pairing succeeded but reply failed: "@),
        },
        ActionModel::Emit(
            ListenerEventModel::PairingSucceeded { device_id: d.device_id, name: d.name },
        ),
    ] + welcome(d.name, receiver_name)
}

/// What follows the second step of pairing: the device goes on as an authenticated phone,
/// or is refused.
pub open spec fn verified_turn(
    server: ServerModel,
    session: SessionModel,
    r: Result<PairedDevice, pairing::PairingError>,
) -> Turn {
    match r {
        Ok(d) => Turn {
            server: server.at(Phase::Serving { media: MediaPhase::Off }),
            session: welcomed(session, d@.name),
            actions: paired_actions(d@, server.receiver_name),
        },
        Err(e) => Turn {
            server: server.at(Phase::Over),
            session,
            actions: refusal("pairing rejected: "@ + e.text()),
        },
    }
}

/// Whether `turn` follows the second step of pairing on `pairing`, which leaves `after`.
pub open spec fn verified(
    server: ServerModel,
    session: SessionModel,
    pairing: PairingModel,
    readings: ReadingsModel,
    confirmation: Seq<u8>,
    turn: Turn,
    after: PairingModel,
) -> bool {
    exists|r: Result<PairedDevice, pairing::PairingError>|
        {
            &&& #[trigger] pairing::verify_step(
                pairing,
                readings.window_age,
                confirmation,
                readings.entropy,
                readings.now_secs,
                r,
                after,
            )
            &&& turn == verified_turn(server, session, r)
        }
}

/// What the receiver makes of the confirmation of a phone.
pub open spec fn pair_verify_turn(
    server: ServerModel,
    session: SessionModel,
    pairing: PairingModel,
    m: MessageModel,
    readings: ReadingsModel,
    turn: Turn,
    after: PairingModel,
) -> bool {
    match m {
        MessageModel::PairVerify { phone_confirmation } => {
            verified(server, session, pairing, readings, phone_confirmation, turn, after)
        },
        _ => {
            &&& after == pairing
            &&& turn == (Turn {
                server: server.at(Phase::Over),
                session,
                actions: refusal("expected PairVerify, got "@ + kind_text(m)),
            })
        },
    }
}

/// What the receiver makes of a message of an authenticated phone.
pub open spec fn serve_turn(
    server: ServerModel,
    session: SessionModel,
    media: MediaPhase,
    m: MessageModel,
    readings: ReadingsModel,
) -> Turn {
    match m {
        MessageModel::Ping { sender_time_ms } => Turn {
            server,
            session,
            actions: seq![
                ActionModel::Send {
                    message: MessageModel::Pong { echoed_time_ms: sender_time_ms },
                    failure: Some("failed to pong: "@),
                },
            ],
        },
        MessageModel::ClockSync { t1, t2, t3, t4 } => Turn {
            server,
            session,
            actions: seq![
                ActionModel::Send {
                    message: MessageModel::ClockSync {
                        t1,
                        t2: readings.now_ms,
                        t3: readings.now_ms,
                        t4,
                    },
                    failure: Some("clock sync reply failed: "@),
                },
            ],
        },
        MessageModel::SessionOffer { video, audio } => {
            if !server.media_enabled {
                Turn {
                    server,
                    session,
                    actions: seq![
                        answer(false, Some("receiver media pipeline is not enabled yet"@)),
                    ],
                }
            } else if media !is Off {
                Turn {
                    server,
                    session,
                    actions: seq![answer(false, Some("a media session is already active"@))],
                }
            } else {
                match media::offer_problem(video, audio) {
                    Some(why) => Turn { server, session, actions: seq![answer(false, Some(why))] },
                    None => Turn {
                        server: server.at(Phase::Serving { media: MediaPhase::Starting }),
                        session,
                        actions: seq![ActionModel::StartMedia { video, audio }],
                    },
                }
            }
        },
        MessageModel::KeyframeRequest => Turn { server, session, actions: Seq::empty() },
        MessageModel::BitrateHint { .. } => Turn { server, session, actions: Seq::empty() },
        MessageModel::Bye { reason } => Turn {
            server: server.at(Phase::Over),
            session: session.closed(),
            actions: seq![
                bye("bye acknowledged: "@ + reason),
                clean_end("client said bye: "@ + reason),
            ],
        },
        _ => Turn {
            server: server.at(Phase::Over),
            session,
            actions: seq![
                bye("unexpected message "@ + kind_text(m)),
                clean_end("unexpected message "@ + kind_text(m) + " after auth"@),
            ],
        },
    }
}

/// What the receiver makes of a message.
pub open spec fn message_turn(
    server: ServerModel,
    session: SessionModel,
    pairing: PairingModel,
    m: MessageModel,
    readings: ReadingsModel,
    turn: Turn,
    after: PairingModel,
) -> bool {
    match server.phase {
        Phase::AwaitHello => after == pairing && turn == hello_turn(
            server,
            session,
            pairing,
            m,
            readings,
        ),
        Phase::AwaitPairBegin => pair_begin_turn(
            server,
            session,
            pairing,
            m,
            readings,
            turn,
            after,
        ),
        Phase::AwaitPairVerify => pair_verify_turn(
            server,
            session,
            pairing,
            m,
            readings,
            turn,
            after,
        ),
        Phase::Serving { media } => after == pairing && turn == serve_turn(
            server,
            session,
            media,
            m,
            readings,
        ),
        Phase::Over => after == pairing && turn == (Turn {
            server,
            session,
            actions: Seq::empty(),
        }),
    }
}

impl Readings {
    /// Reads the clocks and takes random bytes.
    pub fn take(pairing: &PairingManager) -> (r: Readings)
        ensures
            exists|now: std::time::Instant| r@.window_age == #[trigger] pairing@.age_at(now),
            r@.entropy matches Some(b) ==> b.len() == 32,
    {
        Readings {
            window_age: pairing.window_age(),
            entropy: secret::random_bytes(32),
            now_secs: clock::unix_now(),
            now_ms: clock::unix_millis(),
        }
    }
}

impl Server {
    /// A receiver that waits for a phone to greet it.
    pub fn new(receiver_name: String, fingerprint: String, media_enabled: bool) -> (r: Server)
        ensures
            r@ == (ServerModel {
                receiver_name: receiver_name@,
                fingerprint: fingerprint@,
                media_enabled,
                phase: Phase::AwaitHello,
            }),
    {
        Server { receiver_name, fingerprint, media_enabled, phase: Phase::AwaitHello }
    }

    fn greet(&mut self, name: &str, session: &mut SessionManager, out: &mut Vec<Action>)
        ensures
            final(self)@ == old(self)@.at(Phase::Serving { media: MediaPhase::Off }),
            final(session)@ == welcomed(old(session)@, name@),
            action_views(final(out)@) == action_views(old(out)@) + welcome(
                name@,
                old(self)@.receiver_name,
            ),
    {
        session.try_move(State::Negotiating);
        session.set_peer(name);
        self.phase = Phase::Serving { media: MediaPhase::Off };
        push(out, Action::Emit(ListenerEvent::Connected { name: name.to_owned() }));
        push(
            out,
            Action::Send {
                message: Message::HelloAck {
                    proto_version: Version::current(),
                    receiver_name: self.receiver_name.clone(),
                },
                failure: Some("failed to send HelloAck: ".to_owned()),
            },
        );
        proof {
            assert(action_views(out@) =~= action_views(old(out)@) + welcome(
                name@,
                old(self)@.receiver_name,
            ));
        }
    }

    fn on_hello(
        &mut self,
        message: &Message,
        readings: &Readings,
        pairing: &PairingManager,
        session: &mut SessionManager,
    ) -> (r: Vec<Action>)
        requires
            pairing.wf(),
        ensures
            (Turn {
                server: final(self)@,
                session: final(session)@,
                actions: action_views(r@),
            }) == hello_turn(old(self)@, old(session)@, pairing@, message@, readings@),
    {
        let (proto_version, auth_token) = match message {
            Message::Hello { proto_version, device_name: _, auth_token } => (
                *proto_version,
                auth_token,
            ),
            other => {
                self.phase = Phase::Over;
                return leave(
                    joined("expected Hello, got ", kind_of(other)),
                    "unexpected first message".to_owned(),
                );
            },
        };
        if !Version::current().compatible_with(proto_version) {
            self.phase = Phase::Over;
            let theirs = proto_version.to_string();
            let mut why = joined("protocol version ", theirs.as_str());
            why.append(" incompatible with receiver ");
            why.append(Version::current().to_string().as_str());
            return leave(why, joined("incompatible protocol version ", theirs.as_str()));
        }
        let device = match auth_token {
            Some(t) => pairing.find_by_token(t.as_str()),
            None => None,
        };
        match device {
            Some(d) => {
                let mut out = no_actions();
                self.greet(d.name.as_str(), session, &mut out);
                proof {
                    assert(action_views(out@) =~= welcome(d@.name, old(self)@.receiver_name));
                }
                out
            },
            None => if auth_token.is_none() || pairing.window_is_open_at(readings.window_age) {
                self.phase = Phase::AwaitPairBegin;
                no_actions()
            } else {
                self.phase = Phase::Over;
                refuse("no pairing window is open on the computer".to_owned())
            },
        }
    }

    fn on_pair_begin(
        &mut self,
        message: &Message,
        readings: &Readings,
        pairing: &mut PairingManager,
        session: &SessionManager,
    ) -> (r: Vec<Action>)
        requires
            old(pairing).wf(),
        ensures
            final(pairing).wf(),
            pair_begin_turn(
                old(self)@,
                session@,
                old(pairing)@,
                message@,
                readings@,
                Turn { server: final(self)@, session: session@, actions: action_views(r@) },
                final(pairing)@,
            ),
    {
        let (device_name, spake_message) = match message {
            Message::PairBegin { device_name, spake_message } => (device_name, spake_message),
            other => {
                self.phase = Phase::Over;
                return refuse(joined("expected PairBegin, got ", kind_of(other)));
            },
        };
        if !pairing.window_is_open_at(readings.window_age) {
            self.phase = Phase::Over;
            return refuse("no pairing window is open on the computer".to_owned());
        }
        let result = pairing.begin_at(
            readings.window_age,
            device_name.as_str(),
            spake_message.as_slice(),
            self.fingerprint.clone(),
        );
        let ghost g = result;
        proof {
            assert(pairing::begin_step(
                old(pairing)@,
                readings@.window_age,
                device_name@,
                spake_message@,
                old(self)@.fingerprint,
                g,
                pairing@,
            ));
        }
        let out = match result {
            Ok(o) => {
                self.phase = Phase::AwaitPairVerify;
                send_or_lose(
                    Message::PairChallenge {
                        spake_reply: o.spake_reply,
                        receiver_fingerprint: o.receiver_fingerprint,
                        receiver_confirmation: o.receiver_confirmation,
                    },
                    "failed to send PairChallenge: ",
                )
            },
            Err(e) => {
                self.phase = Phase::Over;
                refuse(joined("pairing rejected: ", e.to_string().as_str()))
            },
        };
        proof {
            let turn = Turn { server: self@, session: session@, actions: action_views(out@) };
            assert(turn =~= begun_turn(old(self)@, session@, g));
            assert(begun(
                old(self)@,
                session@,
                old(pairing)@,
                readings@.window_age,
                device_name@,
                spake_message@,
                turn,
                pairing@,
            ));
        }
        out
    }

    fn on_pair_verify(
        &mut self,
        message: &Message,
        readings: Readings,
        pairing: &mut PairingManager,
        session: &mut SessionManager,
    ) -> (r: Vec<Action>)
        requires
            old(pairing).wf(),
        ensures
            final(pairing).wf(),
            pair_verify_turn(
                old(self)@,
                old(session)@,
                old(pairing)@,
                message@,
                readings@,
                Turn { server: final(self)@, session: final(session)@, actions: action_views(r@) },
                final(pairing)@,
            ),
    {
        let confirmation = match message {
            Message::PairVerify { phone_confirmation } => phone_confirmation,
            other => {
                self.phase = Phase::Over;
                return refuse(joined("expected PairVerify, got ", kind_of(other)));
            },
        };
        let ghost seen = readings@;
        let result = pairing.verify_at(
            readings.window_age,
            confirmation,
            readings.entropy,
            readings.now_secs,
        );
        let ghost g = result;
        proof {
            assert(pairing::verify_step(
                old(pairing)@,
                seen.window_age,
                confirmation@,
                seen.entropy,
                seen.now_secs,
                g,
                pairing@,
            ));
        }
        let out = match result {
            Ok(d) => {
                let mut out = no_actions();
                push(
                    &mut out,
                    Action::Send {
                        message: Message::PairResult {
                            accepted: true,
                            reason: None,
                            outcome: Some(
                                PairingOutcomeInfo {
                                    device_id: d.device_id.clone(),
                                    device_token: d.token.clone(),
                                },
                            ),
                        },
                        failure: Some("pairing succeeded but reply failed: ".to_owned()),
                    },
                );
                push(
                    &mut out,
                    Action::Emit(
                        ListenerEvent::PairingSucceeded {
                            device_id: d.device_id.clone(),
                            name: d.name.clone(),
                        },
                    ),
                );
                self.greet(d.name.as_str(), session, &mut out);
                proof {
                    assert(action_views(out@) =~= paired_actions(d@, old(self)@.receiver_name));
                }
                out
            },
            Err(e) => {
                self.phase = Phase::Over;
                refuse(joined("pairing rejected: ", e.to_string().as_str()))
            },
        };
        proof {
            let turn = Turn {
                server: self@,
                session: session@,
                actions: action_views(out@),
            };
            assert(turn =~= verified_turn(old(self)@, old(session)@, g));
            assert(verified(
                old(self)@,
                old(session)@,
                old(pairing)@,
                seen,
                confirmation@,
                turn,
                pairing@,
            ));
        }
        out
    }

    fn answer(accepted: bool, reason: Option<String>) -> (r: Vec<Action>)
        ensures
            action_views(r@) == seq![answer(accepted, wire::maybe_view(reason))],
    {
        send_or_lose(
            Message::SessionAnswer {
                accepted,
                reason,
                max_video_bitrate_kbps: MediaLimits::MAX_BITRATE_KBPS,
            },
            "failed to answer offer: ",
        )
    }

    fn on_serving(
        &mut self,
        media: MediaPhase,
        message: &Message,
        readings: &Readings,
        session: &mut SessionManager,
    ) -> (r: Vec<Action>)
        ensures
            (Turn {
                server: final(self)@,
                session: final(session)@,
                actions: action_views(r@),
            }) == serve_turn(old(self)@, old(session)@, media, message@, readings@),
    {
        match message {
            Message::Ping { sender_time_ms } => send_or_lose(
                Message::Pong { echoed_time_ms: *sender_time_ms },
                "failed to pong: ",
            ),
            Message::ClockSync { t1, t2: _, t3: _, t4 } => send_or_lose(
                Message::ClockSync {
                    t1: *t1,
                    t2: readings.now_ms,
                    t3: readings.now_ms,
                    t4: *t4,
                },
                "clock sync reply failed: ",
            ),
            Message::SessionOffer { video, audio } => {
                if !self.media_enabled {
                    return Server::answer(
                        false,
                        Some("receiver media pipeline is not enabled yet".to_owned()),
                    );
                }
                let off: bool = match media {
                    MediaPhase::Off => true,
                    _ => false,
                };
                if !off {
                    return Server::answer(
                        false,
                        Some("a media session is already active".to_owned()),
                    );
                }
                match validate_offer(video, audio) {
                    Err(why) => Server::answer(false, Some(why)),
                    Ok(()) => {
                        self.phase = Phase::Serving { media: MediaPhase::Starting };
                        let mut out = no_actions();
                        push(&mut out, Action::StartMedia { video: *video, audio: *audio });
                        proof {
                            assert(action_views(out@) =~= seq![
                                ActionModel::StartMedia { video: *video, audio: *audio },
                            ]);
                        }
                        out
                    },
                }
            },
            Message::KeyframeRequest => no_actions(),
            Message::BitrateHint { video_kbps: _ } => no_actions(),
            Message::Bye { reason } => {
                self.phase = Phase::Over;
                session.close();
                leave(
                    joined("bye acknowledged: ", reason.as_str()),
                    joined("client said bye: ", reason.as_str()),
                )
            },
            other => {
                self.phase = Phase::Over;
                let mut why = joined("unexpected message ", kind_of(other));
                let told = why.clone();
                why.append(" after auth");
                leave(told, why)
            },
        }
    }

    /// Handles a message, given what the outside world has to say.
    pub fn on_message(
        &mut self,
        message: &Message,
        readings: Readings,
        pairing: &mut PairingManager,
        session: &mut SessionManager,
    ) -> (r: Vec<Action>)
        requires
            old(pairing).wf(),
        ensures
            final(pairing).wf(),
            message_turn(
                old(self)@,
                old(session)@,
                old(pairing)@,
                message@,
                readings@,
                Turn { server: final(self)@, session: final(session)@, actions: action_views(r@) },
                final(pairing)@,
            ),
    {
        match self.phase {
            Phase::AwaitHello => self.on_hello(message, &readings, pairing, session),
            Phase::AwaitPairBegin => self.on_pair_begin(message, &readings, pairing, session),
            Phase::AwaitPairVerify => self.on_pair_verify(message, readings, pairing, session),
            Phase::Serving { media } => self.on_serving(media, message, &readings, session),
            Phase::Over => no_actions(),
        }
    }

    /// Handles a message.
    pub fn receive(
        &mut self,
        message: &Message,
        pairing: &mut PairingManager,
        session: &mut SessionManager,
    ) -> (r: Vec<Action>)
        requires
            old(pairing).wf(),
        ensures
            final(pairing).wf(),
            exists|readings: ReadingsModel, now: std::time::Instant|
                #![trigger message_turn(
                    old(self)@,
                    old(session)@,
                    old(pairing)@,
                    message@,
                    readings,
                    Turn {
                        server: final(self)@,
                        session: final(session)@,
                        actions: action_views(r@),
                    },
                    final(pairing)@,
                ), old(pairing)@.age_at(now)]
                readings.window_age == old(pairing)@.age_at(now) && (readings.entropy matches Some(
                    b,
                ) ==> b.len() == 32) && message_turn(
                    old(self)@,
                    old(session)@,
                    old(pairing)@,
                    message@,
                    readings,
                    Turn {
                        server: final(self)@,
                        session: final(session)@,
                        actions: action_views(r@),
                    },
                    final(pairing)@,
                ),
    {
        let readings = Readings::take(pairing);
        self.on_message(message, readings, pairing, session)
    }
}

/// What the receiver makes of a frame that could not be read.
pub open spec fn read_error_turn(
    server: ServerModel,
    session: SessionModel,
    e: framing::CodecErrorModel,
) -> Turn {
    Turn {
        server: server.at(Phase::Over),
        session,
        actions: match server.phase {
            Phase::AwaitHello => seq![lost("failed to read Hello: "@ + e.text())],
            Phase::AwaitPairBegin => seq![lost("failed to read PairBegin: "@ + e.text())],
            Phase::AwaitPairVerify => seq![lost("failed to read PairVerify: "@ + e.text())],
            Phase::Serving { .. } => if e is UnexpectedEof {
                seq![lost("client closed control stream"@)]
            } else {
                seq![lost("control stream error: "@ + e.text())]
            },
            Phase::Over => Seq::empty(),
        },
    }
}

/// A reason that is not longer than a message may hold.
pub open spec fn cut_reason(why: Seq<char>) -> Seq<char> {
    if why.len() > crate::messages::MAX_REASON_LEN {
        why.take(crate::messages::MAX_REASON_LEN as int)
    } else {
        why
    }
}

/// What follows the start of the pipelines: the answer to the offer.
pub open spec fn media_started_turn(
    server: ServerModel,
    session: SessionModel,
    problem: Option<Seq<char>>,
) -> Turn {
    if server.phase != (Phase::Serving { media: MediaPhase::Starting }) {
        Turn { server, session, actions: Seq::empty() }
    } else {
        match problem {
            None => Turn {
                server: server.at(Phase::Serving { media: MediaPhase::On }),
                session,
                actions: seq![answer(true, None)],
            },
            Some(why) => Turn {
                server: server.at(Phase::Serving { media: MediaPhase::Off }),
                session,
                actions: seq![answer(false, Some(cut_reason(why)))],
            },
        }
    }
}

/// What follows the first decoded access unit: the session streams, and the application
/// is told.
pub open spec fn first_frame_turn(
    server: ServerModel,
    session: SessionModel,
    decoder: Seq<char>,
) -> Turn {
    if server.phase == (Phase::Serving { media: MediaPhase::On }) {
        Turn {
            server,
            session: session.moved(State::Streaming),
            actions: seq![ActionModel::Emit(ListenerEventModel::MediaFirstFrame { decoder })],
        }
    } else {
        Turn { server, session, actions: Seq::empty() }
    }
}

/// What follows an event of the media layer; `rebuilt` tells whether, after an error of the
/// video pipeline, it runs again with another decoder. A pipeline that runs again needs a
/// key frame; one that does not is the end of the session. Audio is not missed.
pub open spec fn media_event_turn(
    server: ServerModel,
    session: SessionModel,
    event: media::MediaEventModel,
    rebuilt: bool,
) -> Turn {
    match event {
        media::MediaEventModel::FirstVideoFrame { decoder } => first_frame_turn(
            server,
            session,
            decoder,
        ),
        media::MediaEventModel::VideoError { reason } => if server.phase != (Phase::Serving {
            media: MediaPhase::On,
        }) {
            Turn { server, session, actions: Seq::empty() }
        } else if rebuilt {
            Turn {
                server,
                session,
                actions: seq![
                    ActionModel::Send { message: MessageModel::KeyframeRequest, failure: None },
                ],
            }
        } else {
            Turn {
                server: server.at(Phase::Over),
                session: session.moved(State::Failed),
                actions: seq![lost("Video unavailable: "@ + reason)],
            }
        },
        media::MediaEventModel::AudioError { .. } => Turn {
            server,
            session,
            actions: Seq::empty(),
        },
    }
}

/// What follows a time without video.
pub open spec fn silence_turn(server: ServerModel, session: SessionModel, silent_ms: int) -> Turn {
    if server.phase != (Phase::Serving { media: MediaPhase::On }) {
        Turn { server, session, actions: Seq::empty() }
    } else {
        match media::watch_of(session.state, silent_ms) {
            Watch::Wait => Turn { server, session, actions: Seq::empty() },
            Watch::Recover => Turn {
                server,
                session: session.moved(State::Recovering),
                actions: seq![
                    ActionModel::Send { message: MessageModel::KeyframeRequest, failure: None },
                ],
            },
            Watch::Resume => Turn {
                server,
                session: session.moved(State::Streaming),
                actions: Seq::empty(),
            },
            Watch::Fail => Turn {
                server: server.at(Phase::Over),
                session: session.moved(State::Failed),
                actions: seq![lost("video did not come back"@)],
            },
        }
    }
}

impl Server {
    /// A connection was made.
    pub fn begin_run(session: &mut SessionManager)
        ensures
            final(session)@ == old(session)@.moved(State::Connecting),
    {
        session.try_move(State::Connecting);
    }

    /// The phone did not open a control stream.
    pub fn on_stream_failure(&mut self, detail: &str) -> (r: Vec<Action>)
        ensures
            final(self)@ == old(self)@.at(Phase::Over),
            action_views(r@) == seq![lost("control stream failed: "@ + detail@)],
    {
        self.phase = Phase::Over;
        end_lost(joined("control stream failed: ", detail))
    }

    /// A frame could not be read.
    pub fn on_read_error(&mut self, e: &CodecError, session: &SessionManager) -> (r: Vec<Action>)
        ensures
            (Turn {
                server: final(self)@,
                session: session@,
                actions: action_views(r@),
            }) == read_error_turn(old(self)@, session@, e@),
    {
        let phase = self.phase;
        self.phase = Phase::Over;
        match phase {
            Phase::AwaitHello => end_lost(
                joined("failed to read Hello: ", e.to_string().as_str()),
            ),
            Phase::AwaitPairBegin => end_lost(
                joined("failed to read PairBegin: ", e.to_string().as_str()),
            ),
            Phase::AwaitPairVerify => end_lost(
                joined("failed to read PairVerify: ", e.to_string().as_str()),
            ),
            Phase::Serving { media: _ } => match e {
                CodecError::UnexpectedEof => end_lost("client closed control stream".to_owned()),
                _ => end_lost(joined("control stream error: ", e.to_string().as_str())),
            },
            Phase::Over => no_actions(),
        }
    }

    /// A message could not be sent whose failure ends the session.
    pub fn on_send_failure(&mut self, failure: &str, e: &CodecError) -> (r: Vec<Action>)
        ensures
            final(self)@ == old(self)@.at(Phase::Over),
            action_views(r@) == seq![lost(failure@ + e@.text())],
    {
        self.phase = Phase::Over;
        end_lost(joined(failure, e.to_string().as_str()))
    }

    /// Nothing was heard on the control stream of an authenticated phone for the whole of
    /// the idle timeout. Before that a phone may take its time.
    pub fn on_idle_timeout(&mut self) -> (r: Vec<Action>)
        ensures
            match old(self)@.phase {
                Phase::Serving { .. } => final(self)@ == old(self)@.at(Phase::Over)
                    && action_views(r@) == seq![lost("idle timeout"@)],
                _ => final(self)@ == old(self)@ && action_views(r@) == Seq::<ActionModel>::empty(),
            },
    {
        match self.phase {
            Phase::Serving { media: _ } => {
                self.phase = Phase::Over;
                end_lost("idle timeout".to_owned())
            },
            _ => no_actions(),
        }
    }

    /// The pipelines of an offer were started, or could not be.
    pub fn on_media_started(
        &mut self,
        problem: Option<String>,
        session: &SessionManager,
    ) -> (r: Vec<Action>)
        ensures
            (Turn {
                server: final(self)@,
                session: session@,
                actions: action_views(r@),
            }) == media_started_turn(old(self)@, session@, wire::maybe_view(problem)),
    {
        match self.phase {
            Phase::Serving { media: MediaPhase::Starting } => match problem {
                None => {
                    self.phase = Phase::Serving { media: MediaPhase::On };
                    Server::answer(true, None)
                },
                Some(why) => {
                    self.phase = Phase::Serving { media: MediaPhase::Off };
                    let n: usize = why.as_str().unicode_len();
                    let cut = if n > crate::messages::MAX_REASON_LEN {
                        why.as_str().substring_char(0, crate::messages::MAX_REASON_LEN).to_owned()
                    } else {
                        why
                    };
                    Server::answer(false, Some(cut))
                },
            },
            _ => no_actions(),
        }
    }

    /// The first access unit left the decoder.
    pub fn on_first_frame(&mut self, decoder: &str, session: &mut SessionManager) -> (r: Vec<Action>)
        ensures
            (Turn {
                server: final(self)@,
                session: final(session)@,
                actions: action_views(r@),
            }) == first_frame_turn(old(self)@, old(session)@, decoder@),
    {
        match self.phase {
            Phase::Serving { media: MediaPhase::On } => {
                session.try_move(State::Streaming);
                let mut out = no_actions();
                push(
                    &mut out,
                    Action::Emit(ListenerEvent::MediaFirstFrame { decoder: decoder.to_owned() }),
                );
                out
            },
            _ => no_actions(),
        }
    }

    /// The media layer tells something; `rebuilt` tells whether, after an error of the video
    /// pipeline, it runs again with another decoder.
    pub fn on_media_event(
        &mut self,
        event: &MediaEvent,
        rebuilt: bool,
        session: &mut SessionManager,
    ) -> (r: Vec<Action>)
        ensures
            (Turn {
                server: final(self)@,
                session: final(session)@,
                actions: action_views(r@),
            }) == media_event_turn(old(self)@, old(session)@, event@, rebuilt),
    {
        match event {
            MediaEvent::FirstVideoFrame { decoder } => self.on_first_frame(
                decoder.as_str(),
                session,
            ),
            MediaEvent::VideoError { reason } => match self.phase {
                Phase::Serving { media: MediaPhase::On } => {
                    if rebuilt {
                        return request_keyframe();
                    }
                    session.try_move(State::Failed);
                    self.phase = Phase::Over;
                    end_lost(joined("Video unavailable: ", reason.as_str()))
                },
                _ => no_actions(),
            },
            MediaEvent::AudioError { reason: _ } => no_actions(),
        }
    }

    /// No video was heard for `silent_ms` milliseconds.
    pub fn on_silence(&mut self, silent_ms: u64, session: &mut SessionManager) -> (r: Vec<Action>)
        ensures
            (Turn {
                server: final(self)@,
                session: final(session)@,
                actions: action_views(r@),
            }) == silence_turn(old(self)@, old(session)@, silent_ms as int),
    {
        match self.phase {
            Phase::Serving { media: MediaPhase::On } => match watch(session.state(), silent_ms) {
                Watch::Wait => no_actions(),
                Watch::Recover => {
                    session.try_move(State::Recovering);
                    request_keyframe()
                },
                Watch::Resume => {
                    session.try_move(State::Streaming);
                    no_actions()
                },
                Watch::Fail => {
                    session.try_move(State::Failed);
                    self.phase = Phase::Over;
                    end_lost("video did not come back".to_owned())
                },
            },
            _ => no_actions(),
        }
    }

    /// The connection is over: settles the session and says what the application is told.
    pub fn end_run(outcome: &SessionOutcome, session: &mut SessionManager) -> (r: ListenerEvent)
        ensures
            final(session)@ == old(session)@.run_ended(),
            r@ == (match outcome@ {
                OutcomeView::Clean(reason) => ListenerEventModel::Disconnected {
                    clean: true,
                    reason,
                },
                OutcomeView::Lost(reason) => ListenerEventModel::Disconnected {
                    clean: false,
                    reason,
                },
            }),
    {
        session.end_run();
        match outcome {
            SessionOutcome::Clean(reason) => ListenerEvent::Disconnected {
                clean: true,
                reason: reason.clone(),
            },
            SessionOutcome::Lost(reason) => ListenerEvent::Disconnected {
                clean: false,
                reason: reason.clone(),
            },
        }
    }
}

/// Admits one connection at a time.
#[derive(Debug, Clone, Copy, PartialEq, Eq, Structural)]
pub struct Gate {
    pub busy: bool,
}

impl Gate {
    /// A connection comes in. Tells whether it is admitted; if so, others are refused until
    /// it has left.
    pub fn enter(&mut self) -> (r: bool)
        ensures
            r == !old(self).busy,
            final(self).busy,
    {
        let free: bool = !self.busy;
        self.busy = true;
        free
    }

    /// The admitted connection has left.
    pub fn leave(&mut self)
        ensures
            !final(self).busy,
    {
        self.busy = false;
    }
}

/// Only a phone that is known is served: a phone gets from greeting to service only with
/// the token of a paired device, and from pairing to service only as a device that was
/// just stored.
pub proof fn law_only_known_phones_are_served(
    server: ServerModel,
    session: SessionModel,
    pairing: PairingModel,
    m: MessageModel,
    readings: ReadingsModel,
    turn: Turn,
    after: PairingModel,
)
    requires
        server.phase !is Serving,
        message_turn(server, session, pairing, m, readings, turn, after),
        turn.server.phase is Serving,
    ensures
        server.phase is AwaitHello || server.phase is AwaitPairVerify,
        server.phase is AwaitHello ==> (m matches MessageModel::Hello { auth_token: Some(t), .. }
            && pairing::first_with_token(pairing.devices, t) is Some),
        server.phase is AwaitPairVerify ==> exists|d: pairing::DeviceModel|
            {
                &&& turn.actions == #[trigger] paired_actions(d, server.receiver_name)
                &&& pairing::by_id(after.devices).dom().contains(d.device_id)
                &&& pairing::by_id(after.devices)[d.device_id] == d
            },
{
    if server.phase is AwaitPairBegin {
        match m {
            MessageModel::PairBegin { device_name, spake_message } => {
                if pairing.window is Some && readings.window_age < pairing::PAIRING_CODE_TTL_SECS {
                    assert(begun(
                        server,
                        session,
                        pairing,
                        readings.window_age,
                        device_name,
                        spake_message,
                        turn,
                        after,
                    ));
                }
            },
            _ => {},
        }
    }
    if server.phase is AwaitPairVerify {
        match m {
            MessageModel::PairVerify { phone_confirmation } => {
                assert(verified(
                    server,
                    session,
                    pairing,
                    readings,
                    phone_confirmation,
                    turn,
                    after,
                ));
                let r = choose|r: Result<PairedDevice, pairing::PairingError>|
                    {
                        &&& #[trigger] pairing::verify_step(
                            pairing,
                            readings.window_age,
                            phone_confirmation,
                            readings.entropy,
                            readings.now_secs,
                            r,
                            after,
                        )
                        &&& turn == verified_turn(server, session, r)
                    };
                match r {
                    Ok(d) => {
                        assert(turn.actions == paired_actions(d@, server.receiver_name));
                        assert(pairing::by_id(after.devices).dom().contains(d@.device_id));
                    },
                    Err(_) => {},
                }
            },
            _ => {},
        }
    }
}

/// A phone that is not known gets nowhere without a window. With a token that is not known
/// it is refused at its greeting. Without a token it may send its first pairing message, and
/// is refused then. Either way it is told that no window is open, and nothing else changes.
pub proof fn law_unknown_phones_are_refused_without_a_window(
    server: ServerModel,
    session: SessionModel,
    pairing: PairingModel,
    version: Version,
    name: Seq<char>,
    token: Option<Seq<char>>,
    readings: ReadingsModel,
    spake_message: Seq<u8>,
    later: ReadingsModel,
    turn: Turn,
    after: PairingModel,
)
    requires
        server.phase is AwaitHello,
        Version::current().serves(version),
        token matches Some(t) ==> pairing::first_with_token(pairing.devices, t) is None,
        pairing.window is None || readings.window_age >= pairing::PAIRING_CODE_TTL_SECS,
        pairing.window is None || later.window_age >= pairing::PAIRING_CODE_TTL_SECS,
    ensures
        ({
            let greeted = hello_turn(
                server,
                session,
                pairing,
                MessageModel::Hello {
                    proto_version: version,
                    device_name: name,
                    auth_token: token,
                },
                readings,
            );
            let refused = Turn {
                server: server.at(Phase::Over),
                session,
                actions: refusal(no_window_reason()),
            };
            if token is Some {
                greeted == refused
            } else {
                &&& greeted == (Turn {
                    server: server.at(Phase::AwaitPairBegin),
                    session,
                    actions: Seq::empty(),
                })
                &&& message_turn(
                    greeted.server,
                    greeted.session,
                    pairing,
                    MessageModel::PairBegin { device_name: name, spake_message },
                    later,
                    turn,
                    after,
                ) ==> turn == refused && after == pairing
            }
        }),
{
}

/// Once an offer was accepted every further offer is refused, and the media stay as they
/// are.
pub proof fn law_one_media_session_at_a_time(
    server: ServerModel,
    session: SessionModel,
    media: MediaPhase,
    video: VideoOffer,
    audio: AudioOffer,
    readings: ReadingsModel,
)
    requires
        server.media_enabled,
        media !is Off,
    ensures
        serve_turn(
            server,
            session,
            media,
            MessageModel::SessionOffer { video, audio },
            readings,
        ) == (Turn {
            server,
            session,
            actions: seq![answer(false, Some("a media session is already active"@))],
        }),
{
}

/// A phone that says goodbye gets a goodbye back, its end is clean, and the session is
/// closed, in whatever state it was, and still is when the connection is over.
pub proof fn law_goodbyes_close_the_session(
    server: ServerModel,
    session: SessionModel,
    media: MediaPhase,
    reason: Seq<char>,
    readings: ReadingsModel,
)
    ensures
        ({
            let turn = serve_turn(server, session, media, MessageModel::Bye { reason }, readings);
            &&& turn.session.state is Closed
            &&& turn.session.run_ended().state is Closed
            &&& turn.server.phase is Over
            &&& turn.actions == seq![
                bye("bye acknowledged: "@ + reason),
                clean_end("client said bye: "@ + reason),
            ]
        }),
{
}

/// A phone of which no more can be read, for whatever reason, is lost: its end is not clean.
pub proof fn law_phones_that_vanish_are_lost(
    server: ServerModel,
    session: SessionModel,
    e: framing::CodecErrorModel,
)
    requires
        server.phase !is Over,
    ensures
        ({
            let turn = read_error_turn(server, session, e);
            &&& turn.server.phase is Over
            &&& turn.actions.len() == 1
            &&& turn.actions[0] matches ActionModel::End(OutcomeView::Lost(_))
        }),
{
}

/// The session streams only once a first frame was decoded: no message brings it there.
pub proof fn law_messages_do_not_make_a_session_stream(
    server: ServerModel,
    session: SessionModel,
    pairing: PairingModel,
    m: MessageModel,
    readings: ReadingsModel,
    turn: Turn,
    after: PairingModel,
)
    requires
        session.state !is Streaming,
        message_turn(server, session, pairing, m, readings, turn, after),
    ensures
        turn.session.state !is Streaming,
{
    match (server.phase, m) {
        (Phase::AwaitPairBegin, MessageModel::PairBegin { device_name, spake_message }) => {
            if pairing.window is Some && readings.window_age < pairing::PAIRING_CODE_TTL_SECS {
                assert(begun(
                    server,
                    session,
                    pairing,
                    readings.window_age,
                    device_name,
                    spake_message,
                    turn,
                    after,
                ));
            }
        },
        (Phase::AwaitPairVerify, MessageModel::PairVerify { phone_confirmation }) => {
            assert(verified(server, session, pairing, readings, phone_confirmation, turn, after));
        },
        _ => {},
    }
}

/// The first frame of a negotiated session makes it stream, and the application hears of
/// it.
pub proof fn law_the_first_frame_makes_a_session_stream(
    server: ServerModel,
    session: SessionModel,
    decoder: Seq<char>,
)
    requires
        server.phase == (Phase::Serving { media: MediaPhase::On }),
        session.state is Negotiating,
    ensures
        first_frame_turn(server, session, decoder).session.state is Streaming,
        first_frame_turn(server, session, decoder).actions == seq![
            ActionModel::Emit(ListenerEventModel::MediaFirstFrame { decoder }),
        ],
{
}

/// Trouble with the audio never ends a session nor changes its state: video goes on.
pub proof fn law_audio_errors_leave_the_video_alone(
    server: ServerModel,
    session: SessionModel,
    reason: Seq<char>,
    rebuilt: bool,
)
    ensures
        media_event_turn(
            server,
            session,
            media::MediaEventModel::AudioError { reason },
            rebuilt,
        ) == (Turn { server, session, actions: Seq::empty() }),
{
}

/// A stream that falls silent is recovered once, with one request for a key frame, and
/// fails if it stays silent: 5 seconds, then 2 more.
pub proof fn law_silence_is_answered_once(server: ServerModel, session: SessionModel, ms: int)
    requires
        server.phase == (Phase::Serving { media: MediaPhase::On }),
        session.state is Streaming,
        5_000 <= ms < 7_000,
    ensures
        ({
            let first = silence_turn(server, session, ms);
            &&& first.session.state is Recovering
            &&& first.actions == seq![
                ActionModel::Send { message: MessageModel::KeyframeRequest, failure: None },
            ]
            &&& forall|later: int|
                #![trigger silence_turn(first.server, first.session, later)]
                ms <= later < 7_000 ==> silence_turn(first.server, first.session, later) == (
                Turn { actions: Seq::empty(), ..first })
            &&& forall|later: int|
                #![trigger silence_turn(first.server, first.session, later)]
                later >= 7_000 ==> silence_turn(first.server, first.session, later).session.state is Failed
        }),
{
}

/// A challenge is a message that keeps the limits of the protocol, whatever the
/// certificate was hashed to.
pub proof fn law_challenges_are_valid(hash: Seq<u8>, reply: Seq<u8>, confirmation: Seq<u8>)
    requires
        hash.len() == 32,
        reply.len() == secret::EXCHANGE_MESSAGE_LEN,
    ensures
        crate::messages::message_problem(
            MessageModel::PairChallenge {
                spake_reply: reply,
                receiver_fingerprint: secret::hex_text(hash),
                receiver_confirmation: confirmation,
            },
        ) is None,
{
    secret::lemma_hex_text(hash);
}

/// Every known phone is served: one that greets with version 1.0 and a token that some paired
/// device has is welcomed as the first device with that token. Its name is told and is the
/// peer's, the session negotiates, and nothing changes in the pairing.
pub proof fn law_known_phones_are_served(
    server: ServerModel,
    session: SessionModel,
    pairing: PairingModel,
    version: Version,
    name: Seq<char>,
    token: Seq<char>,
    readings: ReadingsModel,
    turn: Turn,
    after: PairingModel,
    i: int,
)
    requires
        server.phase is AwaitHello,
        version.major == 1 && version.minor == 0,
        0 <= i < pairing.devices.len(),
        pairing.devices[i].token == token,
        forall|j: int| 0 <= j < i ==> (#[trigger] pairing.devices[j]).token != token,
        message_turn(
            server,
            session,
            pairing,
            MessageModel::Hello {
                proto_version: version,
                device_name: name,
                auth_token: Some(token),
            },
            readings,
            turn,
            after,
        ),
    ensures
        turn.server == (ServerModel {
            phase: Phase::Serving { media: MediaPhase::Off },
            ..server
        }),
        turn.session.peer == Some(pairing.devices[i].name),
        session.state is Connecting ==> turn.session.state is Negotiating,
        turn.actions == seq![
            ActionModel::Emit(ListenerEventModel::Connected { name: pairing.devices[i].name }),
            ActionModel::Send {
                message: MessageModel::HelloAck {
                    proto_version: Version { major: 1, minor: 0 },
                    receiver_name: server.receiver_name,
                },
                failure: Some("failed to send HelloAck: "@),
            },
        ],
        after == pairing,
{
    pairing::law_tokens_find_their_device(pairing.devices, token);
    let d = pairing::first_with_token(pairing.devices, token)->0;
    let k = choose|k: int|
        0 <= k < pairing.devices.len() && #[trigger] pairing.devices[k] == d && d.token == token
            && forall|j: int| 0 <= j < k ==> (#[trigger] pairing.devices[j]).token != token;
    assert(pairing.devices[k].token == token);
    if k < i {
        assert(pairing.devices[k].token != token);
    } else if i < k {
        assert(pairing.devices[i].token != token);
    }
}

/// A phone that speaks another version, or does not greet, gets a goodbye that says so, and
/// the session ends without harm.
pub proof fn law_strangers_to_the_protocol_get_a_goodbye(
    server: ServerModel,
    session: SessionModel,
    pairing: PairingModel,
    m: MessageModel,
    readings: ReadingsModel,
    turn: Turn,
    after: PairingModel,
)
    requires
        server.phase is AwaitHello,
        message_turn(server, session, pairing, m, readings, turn, after),
        m matches MessageModel::Hello { proto_version: v, .. } ==> v.major != 1 || v.minor > 0,
    ensures
        turn.server == (ServerModel { phase: Phase::Over, ..server }),
        turn.session == session,
        after == pairing,
        turn.actions == (match m {
            MessageModel::Hello { proto_version: v, .. } => {
                let theirs = crate::text::decimal(v.major as nat) + seq!['.']
                    + crate::text::decimal(v.minor as nat);
                let ours = crate::text::decimal(1) + seq!['.'] + crate::text::decimal(0);
                seq![
                    ActionModel::Send {
                        message: MessageModel::Bye {
                            reason: "protocol version "@ + theirs
                                + " incompatible with receiver "@ + ours,
                        },
                        failure: None,
                    },
                    ActionModel::End(
                        OutcomeView::Clean("incompatible protocol version "@ + theirs),
                    ),
                ]
            },
            _ => seq![
                ActionModel::Send {
                    message: MessageModel::Bye { reason: "expected Hello, got "@ + kind_text(m) },
                    failure: None,
                },
                ActionModel::End(OutcomeView::Clean("unexpected first message"@)),
            ],
        }),
{
}

/// What a phone that is served gets for its messages: a ping comes back with its own time, a
/// clock message with the receiver's time, and what asks for nothing gets nothing. None of
/// these changes the session, and anything out of place is answered with a goodbye.
pub proof fn law_served_phones_are_answered(
    server: ServerModel,
    session: SessionModel,
    pairing: PairingModel,
    m: MessageModel,
    readings: ReadingsModel,
    turn: Turn,
    after: PairingModel,
)
    requires
        server.phase is Serving,
        message_turn(server, session, pairing, m, readings, turn, after),
    ensures
        after == pairing,
        m matches MessageModel::Ping { sender_time_ms: t } ==> turn == (Turn {
            server,
            session,
            actions: seq![
                ActionModel::Send {
                    message: MessageModel::Pong { echoed_time_ms: t },
                    failure: Some("failed to pong: "@),
                },
            ],
        }),
        m matches MessageModel::ClockSync { t1, t4, .. } ==> turn == (Turn {
            server,
            session,
            actions: seq![
                ActionModel::Send {
                    message: MessageModel::ClockSync {
                        t1,
                        t2: readings.now_ms,
                        t3: readings.now_ms,
                        t4,
                    },
                    failure: Some("clock sync reply failed: "@),
                },
            ],
        }),
        m is KeyframeRequest || m is BitrateHint ==> turn == (Turn {
            server,
            session,
            actions: Seq::empty(),
        }),
        m matches MessageModel::Bye { reason } ==> turn.server.phase is Over
            && turn.session.state is Closed && turn.actions == seq![
            ActionModel::Send {
                message: MessageModel::Bye { reason: "bye acknowledged: "@ + reason },
                failure: None,
            },
            ActionModel::End(OutcomeView::Clean("client said bye: "@ + reason)),
        ],
        m is Hello || m is HelloAck || m is PairBegin || m is PairChallenge || m is PairVerify || m
            is PairResult || m is SessionAnswer || m is Pong ==> turn == (Turn {
            server: ServerModel { phase: Phase::Over, ..server },
            session,
            actions: seq![
                ActionModel::Send {
                    message: MessageModel::Bye {
                        reason: "unexpected message "@ + kind_text(m),
                    },
                    failure: None,
                },
                ActionModel::End(
                    OutcomeView::Clean("unexpected message "@ + kind_text(m) + " after auth"@),
                ),
            ],
        }),
{
}

/// An offer of a phone that is served is taken exactly when the receiver has media, none is
/// running yet, and the offer keeps the limits: then the pipelines are started, and the answer
/// follows. Any other gets at once an answer that refuses it, with the reason and the cap on
/// the bitrate. The session waits for the first frame either way.
pub proof fn law_offers_are_answered(
    server: ServerModel,
    session: SessionModel,
    pairing: PairingModel,
    media: MediaPhase,
    video: VideoOffer,
    audio: AudioOffer,
    readings: ReadingsModel,
    turn: Turn,
    after: PairingModel,
)
    requires
        server.phase == (Phase::Serving { media }),
        message_turn(
            server,
            session,
            pairing,
            MessageModel::SessionOffer { video, audio },
            readings,
            turn,
            after,
        ),
    ensures
        turn.session == session,
        ({
            let good = 1 <= video.width <= 1920 && 1 <= video.height <= 1080 && 1 <= video.fps <= 60
                && video.bitrate_kbps <= 25_000 && audio.codec is Opus && audio.sample_rate
                == 48_000 && audio.channels <= 2;
            if server.media_enabled && media is Off && good {
                &&& turn.server == (ServerModel {
                    phase: Phase::Serving { media: MediaPhase::Starting },
                    ..server
                })
                &&& turn.actions == seq![ActionModel::StartMedia { video, audio }]
                &&& media_started_turn(turn.server, session, None) == (Turn {
                    server: ServerModel {
                        phase: Phase::Serving { media: MediaPhase::On },
                        ..server
                    },
                    session,
                    actions: seq![
                        ActionModel::Send {
                            message: MessageModel::SessionAnswer {
                                accepted: true,
                                reason: None,
                                max_video_bitrate_kbps: 25_000,
                            },
                            failure: Some("failed to answer offer: "@),
                        },
                    ],
                })
            } else {
                &&& turn.server == server
                &&& turn.actions == seq![
                    ActionModel::Send {
                        message: MessageModel::SessionAnswer {
                            accepted: false,
                            reason: if !server.media_enabled {
                                Some("receiver media pipeline is not enabled yet"@)
                            } else if media !is Off {
                                Some("a media session is already active"@)
                            } else {
                                media::offer_problem(video, audio)
                            },
                            max_video_bitrate_kbps: 25_000,
                        },
                        failure: Some("failed to answer offer: "@),
                    },
                ]
            }
        }),
{
    media::law_offers_within_limits_are_taken(video, audio);
}

/// Pipelines that do not start are told with the reason, cut to 256 characters, and the phone
/// may offer again.
pub proof fn law_pipelines_that_fail_are_told(
    server: ServerModel,
    session: SessionModel,
    why: Seq<char>,
)
    requires
        server.phase == (Phase::Serving { media: MediaPhase::Starting }),
    ensures
        media_started_turn(server, session, Some(why)) == (Turn {
            server: ServerModel { phase: Phase::Serving { media: MediaPhase::Off }, ..server },
            session,
            actions: seq![
                ActionModel::Send {
                    message: MessageModel::SessionAnswer {
                        accepted: false,
                        reason: Some(
                            if why.len() <= 256 {
                                why
                            } else {
                                why.take(256)
                            },
                        ),
                        max_video_bitrate_kbps: 25_000,
                    },
                    failure: Some("failed to answer offer: "@),
                },
            ],
        }),
{
}

/// The phone hears of every step of its pairing: the challenge that the first step gave, or
/// why it was refused; then what it is known by from now on, and a welcome, or why not. A
/// phone that is refused is out, and one that is paired is served.
pub proof fn law_pairing_steps_are_told(
    server: ServerModel,
    session: SessionModel,
    begun: Result<pairing::BeginOutcome, pairing::PairingError>,
    done: Result<PairedDevice, pairing::PairingError>,
)
    ensures
        begun matches Ok(o) ==> begun_turn(server, session, begun) == (Turn {
            server: ServerModel { phase: Phase::AwaitPairVerify, ..server },
            session,
            actions: seq![
                ActionModel::Send {
                    message: MessageModel::PairChallenge {
                        spake_reply: o.spake_reply@,
                        receiver_fingerprint: o.receiver_fingerprint@,
                        receiver_confirmation: o.receiver_confirmation@,
                    },
                    failure: Some("failed to send PairChallenge: "@),
                },
            ],
        }),
        begun matches Err(e) ==> begun_turn(server, session, begun) == (Turn {
            server: ServerModel { phase: Phase::Over, ..server },
            session,
            actions: seq![
                ActionModel::Send {
                    message: MessageModel::PairResult {
                        accepted: false,
                        reason: Some("pairing rejected: "@ + e.text()),
                        outcome: None,
                    },
                    failure: None,
                },
                ActionModel::End(OutcomeView::Clean("pairing rejected: "@ + e.text())),
            ],
        }),
        done matches Ok(d) ==> ({
            let turn = verified_turn(server, session, done);
            &&& turn.server == (ServerModel {
                phase: Phase::Serving { media: MediaPhase::Off },
                ..server
            })
            &&& turn.session.peer == Some(d@.name)
            &&& session.state is Connecting ==> turn.session.state is Negotiating
            &&& turn.actions == seq![
                ActionModel::Send {
                    message: MessageModel::PairResult {
                        accepted: true,
                        reason: None,
                        outcome: Some(
                            OutcomeModel { device_id: d@.device_id, device_token: d@.token },
                        ),
                    },
                    failure: Some("pairing succeeded but reply failed: "@),
                },
                ActionModel::Emit(
                    ListenerEventModel::PairingSucceeded {
                        device_id: d@.device_id,
                        name: d@.name,
                    },
                ),
                ActionModel::Emit(ListenerEventModel::Connected { name: d@.name }),
                ActionModel::Send {
                    message: MessageModel::HelloAck {
                        proto_version: Version { major: 1, minor: 0 },
                        receiver_name: server.receiver_name,
                    },
                    failure: Some("failed to send HelloAck: "@),
                },
            ]
        }),
        done matches Err(e) ==> verified_turn(server, session, done) == (Turn {
            server: ServerModel { phase: Phase::Over, ..server },
            session,
            actions: seq![
                ActionModel::Send {
                    message: MessageModel::PairResult {
                        accepted: false,
                        reason: Some("pairing rejected: "@ + e.text()),
                        outcome: None,
                    },
                    failure: None,
                },
                ActionModel::End(OutcomeView::Clean("pairing rejected: "@ + e.text())),
            ],
        }),
{
    match done {
        Ok(d) => {
            let turn = verified_turn(server, session, done);
            assert(turn.actions.len() == 4);
            assert(turn.actions =~= seq![
                turn.actions[0],
                turn.actions[1],
                turn.actions[2],
                turn.actions[3],
            ]);
        },
        Err(_) => {},
    }
}

/// While a window is open, the first message of a phone is a step of its pairing with the
/// receiver's own fingerprint, and the confirmation another; and nothing else is.
pub proof fn law_messages_are_steps_of_the_pairing(
    server: ServerModel,
    session: SessionModel,
    pairing: PairingModel,
    name: Seq<char>,
    bytes: Seq<u8>,
    readings: ReadingsModel,
    turn: Turn,
    after: PairingModel,
)
    ensures
        server.phase is AwaitPairBegin && pairing.window is Some && readings.window_age < 120
            && message_turn(
            server,
            session,
            pairing,
            MessageModel::PairBegin { device_name: name, spake_message: bytes },
            readings,
            turn,
            after,
        ) ==> exists|r: Result<pairing::BeginOutcome, pairing::PairingError>| #[trigger]
            pairing::begin_step(
                pairing,
                readings.window_age,
                name,
                bytes,
                server.fingerprint,
                r,
                after,
            ) && turn == begun_turn(server, session, r),
        server.phase is AwaitPairVerify && message_turn(
            server,
            session,
            pairing,
            MessageModel::PairVerify { phone_confirmation: bytes },
            readings,
            turn,
            after,
        ) ==> exists|r: Result<PairedDevice, pairing::PairingError>| #[trigger]
            pairing::verify_step(
                pairing,
                readings.window_age,
                bytes,
                readings.entropy,
                readings.now_secs,
                r,
                after,
            ) && turn == verified_turn(server, session, r),
{
    if server.phase is AwaitPairBegin && pairing.window is Some && readings.window_age < 120
        && message_turn(
        server,
        session,
        pairing,
        MessageModel::PairBegin { device_name: name, spake_message: bytes },
        readings,
        turn,
        after,
    ) {
        assert(begun(
            server,
            session,
            pairing,
            readings.window_age,
            name,
            bytes,
            turn,
            after,
        ));
    }
    if server.phase is AwaitPairVerify && message_turn(
        server,
        session,
        pairing,
        MessageModel::PairVerify { phone_confirmation: bytes },
        readings,
        turn,
        after,
    ) {
        assert(verified(server, session, pairing, readings, bytes, turn, after));
    }
}

/// Messages out of turn end a pairing with a refusal that names what was waited for.
pub proof fn law_pairing_out_of_turn_is_refused(
    server: ServerModel,
    session: SessionModel,
    pairing: PairingModel,
    m: MessageModel,
    readings: ReadingsModel,
    turn: Turn,
    after: PairingModel,
)
    requires
        message_turn(server, session, pairing, m, readings, turn, after),
        (server.phase is AwaitPairBegin && !(m is PairBegin)) || (server.phase is AwaitPairVerify
            && !(m is PairVerify)),
    ensures
        after == pairing,
        ({
            let why = if server.phase is AwaitPairBegin {
                "expected PairBegin, got "@ + kind_text(m)
            } else {
                "expected PairVerify, got "@ + kind_text(m)
            };
            turn == (Turn {
                server: ServerModel { phase: Phase::Over, ..server },
                session,
                actions: seq![
                    ActionModel::Send {
                        message: MessageModel::PairResult {
                            accepted: false,
                            reason: Some(why),
                            outcome: None,
                        },
                        failure: None,
                    },
                    ActionModel::End(OutcomeView::Clean(why)),
                ],
            })
        }),
{
}

/// What is told of a frame that cannot be read says what was waited for and what went wrong.
pub proof fn law_read_errors_are_told(
    server: ServerModel,
    session: SessionModel,
    e: framing::CodecErrorModel,
)
    ensures
        ({
            let why = match server.phase {
                Phase::AwaitHello => "failed to read Hello: "@ + e.text(),
                Phase::AwaitPairBegin => "failed to read PairBegin: "@ + e.text(),
                Phase::AwaitPairVerify => "failed to read PairVerify: "@ + e.text(),
                _ => if e == framing::CodecErrorModel::UnexpectedEof {
                    "client closed control stream"@
                } else {
                    "control stream error: "@ + e.text()
                },
            };
            read_error_turn(server, session, e) == (Turn {
                server: ServerModel { phase: Phase::Over, ..server },
                session,
                actions: if server.phase is Over {
                    Seq::empty()
                } else {
                    seq![ActionModel::End(OutcomeView::Lost(why))]
                },
            })
        }),
{
}

/// Trouble with the video of a running stream is met by another decoder and a request for a
/// key frame, or else by the end of the session. A first frame counts only while media run.
pub proof fn law_video_errors_are_met(
    server: ServerModel,
    session: SessionModel,
    reason: Seq<char>,
    rebuilt: bool,
)
    ensures
        ({
            let on = server.phase == (Phase::Serving { media: MediaPhase::On });
            let turn = media_event_turn(
                server,
                session,
                media::MediaEventModel::VideoError { reason },
                rebuilt,
            );
            &&& on && rebuilt ==> turn == (Turn {
                server,
                session,
                actions: seq![
                    ActionModel::Send { message: MessageModel::KeyframeRequest, failure: None },
                ],
            })
            &&& on && !rebuilt ==> turn.server == (ServerModel { phase: Phase::Over, ..server })
                && turn.actions == seq![
                ActionModel::End(OutcomeView::Lost("Video unavailable: "@ + reason)),
            ] && turn.session.run_ended().state !is Streaming
            &&& !on ==> turn == (Turn { server, session, actions: Seq::empty() })
            &&& media_event_turn(
                server,
                session,
                media::MediaEventModel::FirstVideoFrame { decoder: reason },
                rebuilt,
            ) == first_frame_turn(server, session, reason)
            &&& !on ==> first_frame_turn(server, session, reason) == (Turn {
                server,
                session,
                actions: Seq::empty(),
            })
        }),
{
}

/// A running stream is left alone while it is heard, goes on when it is heard again, and ends
/// the session when it does not come back; without media silence means nothing.
pub proof fn law_silence_of_a_stream(server: ServerModel, session: SessionModel, ms: int)
    ensures
        ({
            let on = server.phase == (Phase::Serving { media: MediaPhase::On });
            let turn = silence_turn(server, session, ms);
            &&& !on || (session.state is Streaming && ms < 5_000) || !(session.state is Streaming
                || session.state is Recovering) ==> turn == (Turn {
                server,
                session,
                actions: Seq::empty(),
            })
            &&& on && session.state is Recovering && ms < 5_000 ==> turn.server == server
                && turn.session.state is Streaming && turn.actions == Seq::<ActionModel>::empty()
            &&& on && session.state is Recovering && ms >= 7_000 ==> turn.server.phase is Over
                && turn.session.state is Failed && turn.actions == seq![
                ActionModel::End(OutcomeView::Lost("video did not come back"@)),
            ]
        }),
{
}

/// The name of a message tells its kind: two messages of different kinds have different names.
pub proof fn law_names_tell_kinds_apart(a: MessageModel, b: MessageModel)
    requires
        kind_text(a) == kind_text(b),
    ensures
        crate::codec::message_tag(a) == crate::codec::message_tag(b),
{
    reveal_strlit("Hello");
    reveal_strlit("HelloAck");
    reveal_strlit("PairBegin");
    reveal_strlit("PairChallenge");
    reveal_strlit("PairVerify");
    reveal_strlit("PairResult");
    reveal_strlit("SessionOffer");
    reveal_strlit("SessionAnswer");
    reveal_strlit("KeyframeRequest");
    reveal_strlit("BitrateHint");
    reveal_strlit("ClockSync");
    reveal_strlit("Ping");
    reveal_strlit("Pong");
    reveal_strlit("Bye");
    let s = kind_text(a);
    let t = kind_text(b);
    assert(s.len() == t.len());
    assert(s[0] == t[0] && s[1] == t[1] && s[2] == t[2]);
    if s.len() > 8 {
        assert(s[4] == t[4] && s[8] == t[8]);
    }
}

/// The model of a list of actions holds every action of it, in its place, field by field.
pub proof fn law_models_hold_every_action(list: Seq<Action>, x: Action, i: int)
    requires
        0 <= i < list.len(),
        list[i] == x,
    ensures
        action_views(list).len() == list.len(),
        action_views(list)[i] == (match x {
            Action::Send { message, failure } => ActionModel::Send {
                message: message@,
                failure: wire::maybe_view(failure),
            },
            Action::Emit(e) => ActionModel::Emit(e@),
            Action::StartMedia { video, audio } => ActionModel::StartMedia { video, audio },
            Action::End(o) => ActionModel::End(o@),
        }
        ),
{
}

/// A message is named by its kind, whatever it holds.
pub proof fn law_messages_go_by_their_kind(m: MessageModel)
    ensures
        m is Hello ==> kind_text(m) == "Hello"@,
        m is HelloAck ==> kind_text(m) == "HelloAck"@,
        m is PairBegin ==> kind_text(m) == "PairBegin"@,
        m is PairChallenge ==> kind_text(m) == "PairChallenge"@,
        m is PairVerify ==> kind_text(m) == "PairVerify"@,
        m is PairResult ==> kind_text(m) == "PairResult"@,
        m is SessionOffer ==> kind_text(m) == "SessionOffer"@,
        m is SessionAnswer ==> kind_text(m) == "SessionAnswer"@,
        m is KeyframeRequest ==> kind_text(m) == "KeyframeRequest"@,
        m is BitrateHint ==> kind_text(m) == "BitrateHint"@,
        m is ClockSync ==> kind_text(m) == "ClockSync"@,
        m is Ping ==> kind_text(m) == "Ping"@,
        m is Pong ==> kind_text(m) == "Pong"@,
        m is Bye ==> kind_text(m) == "Bye"@,
{
}

} // verus!
