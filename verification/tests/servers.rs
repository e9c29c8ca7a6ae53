use wireless_display::framing::CodecError;
use wireless_display::listener::{
    Action, Gate, ListenerEvent, MediaPhase, Phase, Readings, Server, SessionOutcome, kind_of,
};
use wireless_display::media::MediaEvent;
use wireless_display::pairing::PairingManager;
use wireless_display::phone::{PairNext, PhonePairing, hello};
use wireless_display::session::{SessionManager, State};
use wireless_display::{AudioCodec, AudioOffer, Message, Version, VideoCodec, VideoOffer};

struct TestReceiver {
    server: Server,
    pairing: PairingManager,
    session: SessionManager,
}

fn receiver(with_media: bool) -> TestReceiver {
    TestReceiver {
        server: Server::new("fedora".into(), "ab".repeat(32), with_media),
        pairing: PairingManager::new(Vec::new()),
        session: SessionManager::new(),
    }
}

impl TestReceiver {
    fn get(&mut self, m: &Message) -> Vec<Action> {
        self.server.receive(m, &mut self.pairing, &mut self.session)
    }

    /// A new connection.
    fn reconnect(&mut self) {
        self.session.recycle();
        self.server = Server::new("fedora".into(), "ab".repeat(32), self.server.media_enabled);
        Server::begin_run(&mut self.session);
    }
}

fn sent(actions: &[Action]) -> Vec<Message> {
    actions
        .iter()
        .filter_map(|a| match a {
            Action::Send { message, .. } => Some(message.clone()),
            _ => None,
        })
        .collect()
}

fn emitted(actions: &[Action]) -> Vec<ListenerEvent> {
    actions
        .iter()
        .filter_map(|a| match a {
            Action::Emit(e) => Some(e.clone()),
            _ => None,
        })
        .collect()
}

fn ended(actions: &[Action]) -> Option<SessionOutcome> {
    actions.iter().find_map(|a| match a {
        Action::End(o) => Some(o.clone()),
        _ => None,
    })
}

/// Runs one pairing attempt as a phone would. Returns the last message of the receiver, or
/// why the phone gave up.
fn attempt_pair(rx: &mut TestReceiver, code: &str, name: &str) -> Result<Vec<Action>, String> {
    rx.reconnect();
    let (phone, hello, begin) = PhonePairing::begin(name, code);
    assert!(rx.get(&hello).is_empty());
    let answer = rx.get(&begin);
    if matches!(sent(&answer)[0], Message::PairResult { .. }) {
        // The receiver may refuse at once, without ever sending a challenge.
        return Ok(answer);
    }
    let (phone, next) = phone.on_message(&sent(&answer)[0]);
    let verify = match next {
        PairNext::Send(m) => m,
        PairNext::Fail(why) => return Err(why),
        other => panic!("unexpected step {other:?}"),
    };
    let actions = rx.get(&verify);
    let (phone, next) = phone.on_message(&sent(&actions)[0]);
    assert_eq!(next, PairNext::Wait);
    let (_, next) = phone.on_message(&sent(&actions)[1]);
    assert!(matches!(next, PairNext::Paired(_)));
    Ok(actions)
}

fn token_of(actions: &[Action]) -> String {
    match &sent(actions)[0] {
        Message::PairResult { accepted: true, outcome: Some(o), .. } => o.device_token.clone(),
        other => panic!("pairing should succeed, got {other:?}"),
    }
}

#[test]
fn wrong_pairing_code_is_rejected_and_nothing_persists() {
    let mut rx = receiver(false);
    let real_code = rx.pairing.open_window().unwrap();
    assert_ne!(real_code, "000001", "random codes should not be trivially guessable");

    // The phone detects the mismatch by the receiver's confirmation hash.
    let result = attempt_pair(&mut rx, "000001", "Sneaky Phone");
    assert_eq!(result, Err("receiver failed confirmation check".to_string()));

    // The receiver never registered anything.
    assert!(rx.pairing.list_devices().is_empty());
    // The half-finished window stays open until its time is up.
    assert!(rx.pairing.window_is_open());
}

#[test]
fn pairing_without_open_window_is_refused_cleanly() {
    let mut rx = receiver(false);
    let result = attempt_pair(&mut rx, "123456", "Lonely Phone").unwrap();
    match &sent(&result)[0] {
        Message::PairResult { accepted: false, reason: Some(reason), .. } => {
            assert!(reason.contains("no pairing window"), "{reason}");
        }
        other => panic!("expected refusal, got {other:?}"),
    }
    assert_eq!(
        ended(&result),
        Some(SessionOutcome::Clean("no pairing window is open on the computer".into()))
    );
}

#[test]
fn successful_pairing_then_token_reconnect_receives_hello_ack() {
    let mut rx = receiver(false);
    let code = rx.pairing.open_window().unwrap();
    let actions = attempt_pair(&mut rx, &code, "Integration Phone").unwrap();
    let token = token_of(&actions);
    assert_eq!(token.len(), 64);

    // The paired phone is served at once.
    let events = emitted(&actions);
    assert!(matches!(&events[0], ListenerEvent::PairingSucceeded { name, .. } if name == "Integration Phone"));
    assert_eq!(events[1], ListenerEvent::Connected { name: "Integration Phone".into() });
    assert_eq!(rx.session.state(), State::Negotiating);

    // A fresh connection presenting the issued token is authenticated.
    rx.reconnect();
    let actions = rx.get(&hello("Integration Phone", Some(token)));
    match &sent(&actions)[0] {
        Message::HelloAck { proto_version, receiver_name } => {
            assert!(Version::current().compatible_with(*proto_version));
            assert!(!receiver_name.is_empty());
        }
        other => panic!("expected HelloAck, got {other:?}"),
    }
    assert_eq!(rx.session.peer().as_deref(), Some("Integration Phone"));

    // Graceful goodbye: the receiver answers and the session returns to rest.
    let actions = rx.get(&Message::Bye { reason: "test done".into() });
    assert_eq!(
        sent(&actions),
        vec![Message::Bye { reason: "bye acknowledged: test done".into() }]
    );
    let outcome = ended(&actions).unwrap();
    assert_eq!(outcome, SessionOutcome::Clean("client said bye: test done".into()));
    assert_eq!(
        Server::end_run(&outcome, &mut rx.session),
        ListenerEvent::Disconnected { clean: true, reason: "client said bye: test done".into() }
    );
    rx.session.recycle();
    assert_eq!(rx.session.state(), State::Idle);
}

#[test]
fn a_phone_without_a_token_may_begin_to_pair_once_a_window_opens() {
    let mut rx = receiver(false);
    rx.reconnect();
    // Nothing is said before the phone begins to pair.
    assert!(rx.get(&hello("Early Phone", None)).is_empty());
    rx.pairing.open_window_with("123456".into());
    let (_, _, begin) = PhonePairing::begin("Early Phone", "123456");
    assert!(matches!(sent(&rx.get(&begin))[0], Message::PairChallenge { .. }));

    // A phone with a token that is not known may pair too, while a window is open.
    rx.pairing.open_window_with("123456".into());
    rx.reconnect();
    assert!(rx.get(&hello("Ghost Phone", Some("0".repeat(64)))).is_empty());
    assert!(matches!(sent(&rx.get(&begin))[0], Message::PairChallenge { .. }));
}

#[test]
fn stale_token_is_sent_to_pairing_flow_and_refused_without_window() {
    let mut rx = receiver(false);
    rx.reconnect();
    // Unknown token → pairing → no window open → refusal.
    let actions = rx.get(&hello("Ghost Phone", Some(hex::encode([0u8; 32]))));
    match &sent(&actions)[0] {
        Message::PairResult { accepted: false, reason: Some(reason), .. } => {
            assert!(reason.contains("no pairing window"), "{reason}");
        }
        other => panic!("expected pairing refusal, got {other:?}"),
    }
}

#[test]
fn garbage_after_hello_terminates_connection_without_panic() {
    let mut rx = receiver(false);
    let code = rx.pairing.open_window().unwrap();
    let token = token_of(&attempt_pair(&mut rx, &code, "Fuzz Phone").unwrap());
    rx.reconnect();
    rx.get(&hello("Fuzz Phone", Some(token)));
    // An oversized declared length makes the server hang up.
    let e = wireless_display::framing::frame_len(&u32::MAX.to_le_bytes()).unwrap_err();
    let actions = rx.server.on_read_error(&e, &rx.session);
    let outcome = ended(&actions).unwrap();
    assert_eq!(
        outcome,
        SessionOutcome::Lost(
            "control stream error: frame exceeds protocol limit: 4294967295 bytes (max 4096)".into()
        )
    );
    Server::end_run(&outcome, &mut rx.session);
    rx.session.recycle();
    assert_eq!(rx.session.state(), State::Idle, "session must recycle to Idle after protocol violation");
}

#[test]
fn silent_client_hits_idle_timeout_and_disconnect_event_fires() {
    let mut rx = receiver(false);
    let code = rx.pairing.open_window().unwrap();
    let token = token_of(&attempt_pair(&mut rx, &code, "Quiet Phone").unwrap());
    rx.reconnect();
    let ack = rx.get(&hello("Quiet Phone", Some(token)));
    assert!(matches!(sent(&ack)[0], Message::HelloAck { .. }));
    // Vanish without Bye: the control stream ends.
    let actions = rx.server.on_read_error(&CodecError::UnexpectedEof, &rx.session);
    let outcome = ended(&actions).unwrap();
    match Server::end_run(&outcome, &mut rx.session) {
        ListenerEvent::Disconnected { clean, reason } => {
            assert!(!clean, "vanishing client is unclean: {reason}");
            assert_eq!(reason, "client closed control stream");
        }
        other => panic!("unexpected event {other:?}"),
    }
    assert_eq!(rx.session.state(), State::Failed);
}

#[test]
fn a_phone_that_says_nothing_is_lost() {
    let mut rx = serving(false, "Quiet Phone");
    let outcome = ended(&rx.server.on_idle_timeout()).unwrap();
    match Server::end_run(&outcome, &mut rx.session) {
        ListenerEvent::Disconnected { clean, reason } => {
            assert!(!clean);
            assert_eq!(reason, "idle timeout");
        }
        other => panic!("unexpected event {other:?}"),
    }
}

#[test]
fn a_phone_that_says_bye_before_it_streams_closes_the_session() {
    let mut rx = serving(false, "Polite Phone");
    assert_eq!(rx.session.state(), State::Negotiating);
    let actions = rx.get(&Message::Bye { reason: "done".into() });
    assert_eq!(sent(&actions), [Message::Bye { reason: "bye acknowledged: done".into() }]);
    match Server::end_run(&ended(&actions).unwrap(), &mut rx.session) {
        ListenerEvent::Disconnected { clean, reason } => {
            assert!(clean);
            assert_eq!(reason, "client said bye: done");
        }
        other => panic!("unexpected event {other:?}"),
    }
    assert_eq!(rx.session.state(), State::Closed);
    rx.reconnect();
    assert_eq!(rx.session.state(), State::Connecting);
}

fn video_offer(width: u16, height: u16, fps: u8, bitrate_kbps: u32) -> VideoOffer {
    VideoOffer { codec: VideoCodec::H264Baseline, width, height, fps, bitrate_kbps }
}

fn opus_stereo() -> AudioOffer {
    AudioOffer { codec: AudioCodec::Opus, sample_rate: 48_000, channels: 2 }
}

/// A receiver that serves a phone of this name.
fn serving(with_media: bool, name: &str) -> TestReceiver {
    let mut rx = receiver(with_media);
    let code = rx.pairing.open_window().unwrap();
    let token = token_of(&attempt_pair(&mut rx, &code, name).unwrap());
    rx.reconnect();
    rx.get(&hello(name, Some(token)));
    rx
}

#[test]
fn offer_without_media_hooks_is_rejected() {
    let mut rx = serving(false, "Plain Phone");
    let answer = rx.get(&Message::SessionOffer {
        video: video_offer(1280, 720, 30, 4000),
        audio: opus_stereo(),
    });
    match &sent(&answer)[0] {
        Message::SessionAnswer { accepted: false, reason: Some(reason), max_video_bitrate_kbps } => {
            assert!(reason.contains("media"), "{reason}");
            assert_eq!(*max_video_bitrate_kbps, 25_000);
        }
        other => panic!("expected rejection without media hooks, got {other:?}"),
    }
    assert_eq!(ended(&answer), None);
}

#[test]
fn double_offer_is_refused() {
    let mut rx = serving(true, "Greedy Phone");
    let offer = Message::SessionOffer {
        video: video_offer(320, 240, 30, 800),
        audio: opus_stereo(),
    };
    let first = rx.get(&offer);
    assert_eq!(
        first,
        vec![Action::StartMedia { video: video_offer(320, 240, 30, 800), audio: opus_stereo() }]
    );
    let first = rx.server.on_media_started(None, &rx.session);
    assert!(
        matches!(&sent(&first)[0], Message::SessionAnswer { accepted: true, .. }),
        "first offer must be accepted, got {first:?}"
    );
    let second = rx.get(&offer);
    match &sent(&second)[0] {
        Message::SessionAnswer { accepted: false, reason: Some(reason), .. } => {
            assert!(reason.contains("already active"), "{reason}");
        }
        other => panic!("expected second offer to be refused, got {other:?}"),
    }
}

#[test]
fn an_accepted_offer_streams_with_the_first_frame() {
    let mut rx = serving(true, "Loopback Phone");
    rx.get(&Message::SessionOffer {
        video: video_offer(320, 240, 30, 800),
        audio: opus_stereo(),
    });
    // Before the pipelines run no frame counts.
    assert!(rx.server.on_first_frame("openh264dec", &mut rx.session).is_empty());
    rx.server.on_media_started(None, &rx.session);
    assert_eq!(rx.session.state(), State::Negotiating);
    let actions = rx.server.on_first_frame("openh264dec", &mut rx.session);
    assert_eq!(
        emitted(&actions),
        vec![ListenerEvent::MediaFirstFrame { decoder: "openh264dec".into() }]
    );
    assert_eq!(rx.session.state(), State::Streaming);

    // Silence: one request for a key frame, then failure.
    assert!(rx.server.on_silence(4_999, &mut rx.session).is_empty());
    assert_eq!(
        sent(&rx.server.on_silence(5_000, &mut rx.session)),
        vec![Message::KeyframeRequest]
    );
    assert_eq!(rx.session.state(), State::Recovering);
    assert!(rx.server.on_silence(6_999, &mut rx.session).is_empty());
    // Video comes back.
    assert!(rx.server.on_silence(10, &mut rx.session).is_empty());
    assert_eq!(rx.session.state(), State::Streaming);
    rx.server.on_silence(5_500, &mut rx.session);
    let actions = rx.server.on_silence(7_000, &mut rx.session);
    assert_eq!(
        ended(&actions),
        Some(SessionOutcome::Lost("video did not come back".into()))
    );
    assert_eq!(rx.session.state(), State::Failed);
}

#[test]
fn a_streaming_phone_that_says_bye_closes_the_session() {
    let mut rx = serving(true, "Loopback Phone");
    rx.get(&Message::SessionOffer {
        video: video_offer(320, 240, 30, 800),
        audio: opus_stereo(),
    });
    rx.server.on_media_started(None, &rx.session);
    rx.server.on_first_frame("d", &mut rx.session);
    let actions = rx.get(&Message::Bye { reason: "loopback complete".into() });
    assert_eq!(rx.session.state(), State::Closed);
    match Server::end_run(&ended(&actions).unwrap(), &mut rx.session) {
        ListenerEvent::Disconnected { clean, reason } => {
            assert!(clean, "bye must produce a clean disconnect: {reason}")
        }
        other => panic!("unexpected event {other:?}"),
    }
    rx.session.recycle();
    assert_eq!(rx.session.state(), State::Idle);
}

#[test]
fn offers_beyond_the_limits_are_refused_and_another_may_follow() {
    let mut rx = serving(true, "Big Phone");
    let answer = rx.get(&Message::SessionOffer {
        video: video_offer(3840, 2160, 30, 800),
        audio: opus_stereo(),
    });
    assert_eq!(
        sent(&answer),
        vec![Message::SessionAnswer {
            accepted: false,
            reason: Some("resolution 3840x2160 outside supported bounds".into()),
            max_video_bitrate_kbps: 25_000,
        }]
    );
    rx.get(&Message::SessionOffer { video: video_offer(320, 240, 30, 800), audio: opus_stereo() });
    assert_eq!(rx.server.phase, Phase::Serving { media: MediaPhase::Starting });
    // Pipelines that do not start are reported, and a reason is cut to what a message holds.
    let answer = rx.server.on_media_started(Some("é".repeat(300)), &rx.session);
    assert_eq!(
        sent(&answer),
        vec![Message::SessionAnswer {
            accepted: false,
            reason: Some("é".repeat(256)),
            max_video_bitrate_kbps: 25_000,
        }]
    );
    assert_eq!(rx.server.phase, Phase::Serving { media: MediaPhase::Off });
    assert!(rx.server.on_media_started(None, &rx.session).is_empty());
}

fn readings() -> Readings {
    Readings { window_age: 0, entropy: Some(vec![7; 32]), now_secs: 5, now_ms: 6 }
}

#[test]
fn served_phones_get_answers() {
    let mut rx = serving(false, "P");
    let pong = rx.get(&Message::Ping { sender_time_ms: 77 });
    assert_eq!(
        pong,
        vec![Action::Send {
            message: Message::Pong { echoed_time_ms: 77 },
            failure: Some("failed to pong: ".into()),
        }]
    );
    let sync = rx.server.on_message(
        &Message::ClockSync { t1: 1, t2: 2, t3: 3, t4: 4 },
        readings(),
        &mut rx.pairing,
        &mut rx.session,
    );
    assert_eq!(sent(&sync), vec![Message::ClockSync { t1: 1, t2: 6, t3: 6, t4: 4 }]);
    assert!(rx.get(&Message::KeyframeRequest).is_empty());
    assert!(rx.get(&Message::BitrateHint { video_kbps: 1 }).is_empty());
    let odd = rx.get(&Message::Pong { echoed_time_ms: 1 });
    assert_eq!(sent(&odd), vec![Message::Bye { reason: "unexpected message Pong".into() }]);
    assert_eq!(
        ended(&odd),
        Some(SessionOutcome::Clean("unexpected message Pong after auth".into()))
    );
    // Nothing is answered any more.
    assert!(rx.get(&Message::Ping { sender_time_ms: 1 }).is_empty());
    assert!(rx.server.on_idle_timeout().is_empty());
}

#[test]
fn strangers_are_turned_away() {
    let mut rx = receiver(false);
    let first = rx.get(&Message::KeyframeRequest);
    assert_eq!(
        sent(&first),
        vec![Message::Bye { reason: "expected Hello, got KeyframeRequest".into() }]
    );
    assert_eq!(
        ended(&first),
        Some(SessionOutcome::Clean("unexpected first message".into()))
    );

    let mut rx = receiver(false);
    let newer = rx.get(&Message::Hello {
        proto_version: Version { major: 1, minor: 1 },
        device_name: "P".into(),
        auth_token: None,
    });
    assert_eq!(
        sent(&newer),
        vec![Message::Bye {
            reason: "protocol version 1.1 incompatible with receiver 1.0".into()
        }]
    );
    assert_eq!(
        ended(&newer),
        Some(SessionOutcome::Clean("incompatible protocol version 1.1".into()))
    );
}

#[test]
fn pairing_out_of_order_is_refused() {
    let mut rx = receiver(false);
    rx.pairing.open_window();
    assert!(rx.get(&hello("P", None)).is_empty());
    let odd = rx.get(&Message::KeyframeRequest);
    assert_eq!(
        ended(&odd),
        Some(SessionOutcome::Clean("expected PairBegin, got KeyframeRequest".into()))
    );

    let mut rx = receiver(false);
    rx.pairing.open_window();
    rx.get(&hello("P", None));
    let bad = rx.get(&Message::PairBegin { device_name: "P".into(), spake_message: vec![1] });
    assert_eq!(
        sent(&bad),
        vec![Message::PairResult {
            accepted: false,
            reason: Some("pairing rejected: pairing code rejected".into()),
            outcome: None,
        }]
    );

    // The window closes between the greeting and the first step.
    let mut rx = receiver(false);
    rx.pairing.open_window();
    rx.get(&hello("P", None));
    rx.pairing.close_window();
    let late = rx.get(&Message::PairBegin { device_name: "P".into(), spake_message: vec![1] });
    assert_eq!(
        ended(&late),
        Some(SessionOutcome::Clean("no pairing window is open on the computer".into()))
    );

    let mut rx = receiver(false);
    rx.pairing.open_window_with("123456".into());
    rx.get(&hello("P", None));
    let (_, _, begin) = PhonePairing::begin("P", "123456");
    let challenge = rx.get(&begin);
    match &sent(&challenge)[0] {
        Message::PairChallenge { receiver_fingerprint, .. } => {
            assert_eq!(receiver_fingerprint, &"ab".repeat(32))
        }
        other => panic!("expected PairChallenge, got {other:?}"),
    }
    assert_eq!(sent(&challenge)[0].validate(), Ok(()));
    let odd = rx.get(&Message::KeyframeRequest);
    assert_eq!(
        ended(&odd),
        Some(SessionOutcome::Clean("expected PairVerify, got KeyframeRequest".into()))
    );
}

#[test]
fn read_and_send_failures_are_told_apart() {
    let io = CodecError::Io("gone".into());
    let mut rx = receiver(false);
    assert_eq!(
        ended(&rx.server.on_read_error(&io, &rx.session)),
        Some(SessionOutcome::Lost("failed to read Hello: io error: gone".into()))
    );
    let mut rx = receiver(false);
    rx.pairing.open_window();
    rx.get(&hello("P", None));
    assert_eq!(
        ended(&rx.server.on_read_error(&CodecError::UnexpectedEof, &rx.session)),
        Some(SessionOutcome::Lost(
            "failed to read PairBegin: unexpected end of stream while reading frame header".into()
        ))
    );
    let mut rx = receiver(false);
    rx.pairing.open_window_with("1".into());
    rx.get(&hello("P", None));
    let (_, _, begin) = PhonePairing::begin("P", "1");
    rx.get(&begin);
    assert_eq!(
        ended(&rx.server.on_read_error(&io, &rx.session)),
        Some(SessionOutcome::Lost("failed to read PairVerify: io error: gone".into()))
    );
    let mut rx = serving(false, "P");
    assert_eq!(
        ended(&rx.server.on_read_error(&CodecError::UnexpectedEof, &rx.session)),
        Some(SessionOutcome::Lost("client closed control stream".into()))
    );
    let mut rx = serving(false, "P");
    assert_eq!(
        ended(&rx.server.on_send_failure("failed to pong: ", &io)),
        Some(SessionOutcome::Lost("failed to pong: io error: gone".into()))
    );
    let mut rx = receiver(false);
    assert_eq!(
        ended(&rx.server.on_stream_failure("closed")),
        Some(SessionOutcome::Lost("control stream failed: closed".into()))
    );
}

#[test]
fn one_connection_at_a_time() {
    let mut gate = Gate { busy: false };
    assert!(gate.enter());
    assert!(!gate.enter());
    gate.leave();
    assert!(gate.enter());
}

#[test]
fn messages_have_names() {
    assert_eq!(kind_of(&Message::KeyframeRequest), "KeyframeRequest");
    assert_eq!(kind_of(&Message::BitrateHint { video_kbps: 1 }), "BitrateHint");
    assert_eq!(kind_of(&hello("P", None)), "Hello");
}

#[test]
fn media_errors_ask_for_a_key_frame_or_end_the_session() {
    let streaming = || {
        let mut rx = serving(true, "P");
        rx.get(&Message::SessionOffer {
            video: video_offer(320, 240, 30, 800),
            audio: opus_stereo(),
        });
        rx.server.on_media_started(None, &rx.session);
        let first = MediaEvent::FirstVideoFrame { decoder: "d".into() };
        let actions = rx.server.on_media_event(&first, false, &mut rx.session);
        assert_eq!(
            emitted(&actions),
            vec![ListenerEvent::MediaFirstFrame { decoder: "d".into() }]
        );
        rx
    };
    let mut rx = streaming();
    let audio = MediaEvent::AudioError { reason: "no sink".into() };
    assert!(rx.server.on_media_event(&audio, false, &mut rx.session).is_empty());
    assert_eq!(rx.session.state(), State::Streaming);
    let video = MediaEvent::VideoError { reason: "wdl-video: broken".into() };
    assert_eq!(
        sent(&rx.server.on_media_event(&video, true, &mut rx.session)),
        vec![Message::KeyframeRequest]
    );
    assert_eq!(rx.session.state(), State::Streaming);
    assert_eq!(
        ended(&rx.server.on_media_event(&video, false, &mut rx.session)),
        Some(SessionOutcome::Lost("Video unavailable: wdl-video: broken".into()))
    );
    assert_eq!(rx.session.state(), State::Failed);
    // Without pipelines there is nothing to lose.
    let mut rx = serving(true, "P");
    assert!(rx.server.on_media_event(&video, false, &mut rx.session).is_empty());
}
