use wireless_display::cast::{
    CastMedia, CastPhase, CastSession, CastStep, FlowStats, Next, SendOutcome, Shared, VideoSender,
    check_answer, check_start, offer_for, session_offer, start_reply, stop_message, store_config,
    ts90k, video_pipeline,
};
use wireless_display::framing::CodecError;
use wireless_display::json::{failed_reply, paired_reply};
use wireless_display::opts::{Command, ConnectOpts, command, opt_value, timeout_secs};
use wireless_display::phone::{
    DeviceToken, LoopNext, PairNext, PhonePairing, after_cast_frame, after_cast_ping, after_frame,
    after_ping, check_welcome, hello, ping_now,
};
use wireless_display::{
    AudioCodec, AudioOffer, Message, PairingOutcomeInfo, Version, VideoCodec, VideoOffer,
};

#[test]
fn the_status_of_a_cast_is_json_with_sorted_keys() {
    let mut shared = Shared::default();
    assert_eq!(
        shared.snapshot(),
        r#"{"dropped":0,"error":null,"keyframe":false,"sent":0,"state":""}"#
    );
    shared.set_state("streaming");
    assert!(shared.note_send(SendOutcome::Sent));
    assert!(shared.note_send(SendOutcome::Sent));
    assert!(shared.note_send(SendOutcome::Refused));
    assert!(!shared.note_send(SendOutcome::ConnectionLost));
    shared.on_message(&Message::KeyframeRequest);
    assert_eq!(
        shared.snapshot(),
        r#"{"dropped":1,"error":null,"keyframe":true,"sent":2,"state":"streaming"}"#
    );
    let odd = "a \"quoted\" \\ path\n\t\r\u{8}\u{c}\u{1}\u{1f}\u{7f} é 😀";
    shared.set_error(odd.into());
    let parsed: serde_json::Value = serde_json::from_str(&shared.snapshot()).unwrap();
    assert_eq!(parsed["error"], serde_json::Value::from(odd));
    assert_eq!(parsed["state"], serde_json::Value::from("error"));
    assert!(shared.snapshot().contains(
        r#""error":"a \"quoted\" \\ path\n\t\r\b\f\u0001\u001f"#
    ));
}

#[test]
fn replies_are_json() {
    assert_eq!(paired_reply("d\"1"), r#"{"deviceId":"d\"1","ok":true}"#);
    assert_eq!(failed_reply("no"), r#"{"error":"no","ok":false}"#);
}

#[test]
fn the_keyframe_flag_is_taken_once() {
    let mut shared = Shared::default();
    assert!(!shared.take_keyframe());
    shared.on_message(&Message::KeyframeRequest);
    assert!(shared.take_keyframe());
    assert!(!shared.take_keyframe());
}

#[test]
fn a_cast_follows_the_receiver() {
    let mut shared = Shared::default();
    shared.set_state("streaming");
    assert!(shared.settled());
    assert_eq!(shared.on_message(&Message::BitrateHint { video_kbps: 9 }), Next::Continue);
    assert_eq!(shared.bitrate_hint, 9);
    assert_eq!(
        shared.on_message(&Message::Ping { sender_time_ms: 3 }),
        Next::Reply(Message::Pong { echoed_time_ms: 3 })
    );
    assert_eq!(shared.on_message(&Message::Pong { echoed_time_ms: 3 }), Next::Continue);
    assert_eq!(shared.on_message(&Message::Bye { reason: "x".into() }), Next::Done);
    assert_eq!(shared.state, "stopped");

    shared.set_state("offering");
    assert!(!shared.settled());
    assert_eq!(shared.on_read_error(&CodecError::UnexpectedEof), Next::Done);
    assert_eq!(shared.state, "stopped");
    assert_eq!(
        shared.on_read_error(&CodecError::Io("gone".into())),
        Next::Fail("io error: gone".into())
    );
    assert_eq!(shared.error.as_deref(), Some("control stream error: io error: gone"));
    assert_eq!(
        shared.on_send_error(&CodecError::Io("gone".into())),
        Next::Fail("io error: gone".into())
    );
    assert_eq!(shared.error.as_deref(), Some("control send failed: io error: gone"));
    shared.end_run();
    assert_eq!(shared.state, "error");
    shared.set_state("streaming");
    shared.end_run();
    assert_eq!(shared.state, "stopped");
}

const CSD: [u8; 14] = [
    0x01, 0x64, 0x00, 0x1f, 0xff, 0xe1, 0x00, 0x02, 0x67, 0x64, 0x01, 0x00, 0x01, 0x68,
];

#[test]
fn configurations_are_stored_as_byte_streams() {
    let mut slot = None;
    assert!(!store_config(&mut slot, &[1, 2, 3]));
    assert_eq!(slot, None);
    assert!(store_config(&mut slot, &CSD));
    let stored = Some(vec![0, 0, 0, 1, 0x67, 0x64, 0, 0, 0, 1, 0x68]);
    assert_eq!(slot, stored);
    assert!(!store_config(&mut slot, &[1, 2, 3]));
    assert_eq!(slot, stored);
}

#[test]
fn key_frames_are_preceded_by_the_parameter_sets() {
    let mut sender = VideoSender::new(7, 0xff80);
    assert!(sender.push_config(&CSD));
    // A key frame with a length prefix: three units, so three packets.
    let packets = sender.packets(vec![0, 0, 0, 2, 0x65, 9], 1_000_000);
    let payloads: Vec<&[u8]> = packets.iter().map(|p| &p[12..]).collect();
    assert_eq!(payloads, vec![&[0x67u8, 0x64][..], &[0x68u8][..], &[0x65u8, 9][..]]);
    assert_eq!(packets[0][2..4], [0xff, 0x80]);
    assert_eq!(packets[0][4..8], 90_000u32.to_be_bytes());
    assert_eq!(packets[0][8..12], 7u32.to_be_bytes());
    assert_eq!(sender.next_seq, 0x0080, "the next unit is numbered 256 on");
    // Other frames go as they are.
    let packets = sender.packets(vec![0, 0, 0, 1, 0x41, 9], 0);
    assert_eq!(packets.len(), 1);
    assert_eq!(packets[0][12..], [0x41, 9]);
    assert_eq!(packets[0][2..4], [0x00, 0x80]);
}

#[test]
fn times_are_put_on_the_video_clock() {
    assert_eq!(ts90k(0), 0);
    assert_eq!(ts90k(100), 9);
    assert_eq!(ts90k(111), 9);
    assert_eq!(ts90k(1_000_000), 90_000);
    // 2^32 ticks wrap round.
    assert_eq!(ts90k(47_721_858_845), 4_294_967_296u64.wrapping_sub(4_294_967_296) as u32);
}

#[test]
fn offers_are_moved_into_range() {
    assert_eq!(
        offer_for(0, 9999, 0, 1),
        VideoOffer {
            codec: VideoCodec::H264Baseline,
            width: 2,
            height: 4096,
            fps: 1,
            bitrate_kbps: 500
        }
    );
    assert_eq!(
        offer_for(1280, 720, 90, 99_999),
        VideoOffer {
            codec: VideoCodec::H264Baseline,
            width: 1280,
            height: 720,
            fps: 60,
            bitrate_kbps: 25_000
        }
    );
    let video = offer_for(1280, 720, 30, 4000);
    assert_eq!(
        session_offer(video),
        Message::SessionOffer {
            video,
            audio: AudioOffer { codec: AudioCodec::Opus, sample_rate: 48_000, channels: 2 },
        }
    );
    assert_eq!(stop_message(), Message::Bye { reason: "cast stopped".into() });
}

#[test]
fn a_cast_starts_once_and_only_when_paired() {
    assert_eq!(check_start(false, Some("t".into())), Ok("t".into()));
    assert_eq!(
        check_start(true, Some("t".into())),
        Err(r#"{"error":"cast already running","ok":false}"#.into())
    );
    assert_eq!(
        check_start(false, None),
        Err(r#"{"error":"not paired yet","ok":false}"#.into())
    );
}

fn session_answer(accepted: bool, reason: Option<&str>) -> Message {
    Message::SessionAnswer {
        accepted,
        reason: reason.map(String::from),
        max_video_bitrate_kbps: 1,
    }
}

#[test]
fn answers_to_offers_are_checked() {
    assert_eq!(check_answer(&session_answer(true, None)), Ok(()));
    assert_eq!(
        check_answer(&session_answer(false, Some("too big"))),
        Err("receiver refused the session: too big".into())
    );
    assert_eq!(
        check_answer(&session_answer(false, None)),
        Err("receiver refused the session: unknown reason".into())
    );
    assert_eq!(
        check_answer(&Message::KeyframeRequest),
        Err("expected SessionAnswer, got KeyframeRequest".into())
    );
}

#[test]
fn welcomes_are_checked() {
    let ack = |minor| Message::HelloAck {
        proto_version: Version { major: 1, minor },
        receiver_name: "fedora".into(),
    };
    assert_eq!(check_welcome(&ack(0)), Ok("fedora".into()));
    assert_eq!(
        check_welcome(&ack(1)),
        Err("receiver speaks incompatible protocol 1.1".into())
    );
    assert_eq!(
        check_welcome(&Message::KeyframeRequest),
        Err("expected HelloAck, got \"KeyframeRequest\"".into())
    );
}

#[test]
fn a_pairing_phone_gives_up_on_what_it_does_not_expect() {
    let fail = |m: &Message| {
        let (phone, hello_sent, begin) = PhonePairing::begin("P", "123456");
        assert_eq!(hello_sent, hello("P", None));
        assert!(matches!(begin, Message::PairBegin { ref spake_message, .. } if spake_message.len() == 33));
        phone.on_message(m).1
    };
    assert_eq!(
        fail(&Message::KeyframeRequest),
        PairNext::Fail("expected PairChallenge, got \"KeyframeRequest\"".into())
    );
    assert_eq!(
        fail(&Message::PairChallenge {
            spake_reply: vec![0x42; 5],
            receiver_fingerprint: "ab".repeat(32),
            receiver_confirmation: [0; 32],
        }),
        PairNext::Fail("pairing code rejected by receiver".into())
    );
}

#[test]
fn a_paired_phone_waits_for_the_welcome() {
    let mut receiver = wireless_display::pairing::PairingManager::new(Vec::new());
    receiver.open_window_with("123456".into());
    let started = || PhonePairing::begin("P", "123456");
    let mut confirmed = || {
        receiver.open_window_with("123456".into());
        let (phone, _, begin) = started();
        let message = match begin {
            Message::PairBegin { spake_message, .. } => spake_message,
            other => panic!("{other:?}"),
        };
        let begun = match receiver.begin_at(0, "P", &message, "ab".repeat(32)) {
            Ok(begun) => begun,
            Err(e) => panic!("{e:?}"),
        };
        let (phone, next) = phone.on_message(&Message::PairChallenge {
            spake_reply: begun.spake_reply,
            receiver_fingerprint: begun.receiver_fingerprint,
            receiver_confirmation: begun.receiver_confirmation,
        });
        assert!(matches!(next, PairNext::Send(Message::PairVerify { .. })));
        phone
    };
    let result = |accepted, reason: Option<&str>, paired: bool| Message::PairResult {
        accepted,
        reason: reason.map(String::from),
        outcome: if paired {
            Some(PairingOutcomeInfo { device_id: "id".into(), device_token: "tok".into() })
        } else {
            None
        },
    };
    assert_eq!(
        confirmed().on_message(&result(false, Some("no"), false)).1,
        PairNext::Fail("receiver refused pairing: no".into())
    );
    assert_eq!(
        confirmed().on_message(&result(false, None, false)).1,
        PairNext::Fail("receiver refused pairing: unknown reason".into())
    );
    assert_eq!(
        confirmed().on_message(&result(true, None, false)).1,
        PairNext::Fail("expected PairResult, got \"PairResult\"".into())
    );
    let (phone, next) = confirmed().on_message(&result(true, None, true));
    assert_eq!(next, PairNext::Wait);
    assert_eq!(
        phone.on_message(&Message::KeyframeRequest).1,
        PairNext::Fail("expected HelloAck after pairing, got \"KeyframeRequest\"".into())
    );
    let (phone, _) = confirmed().on_message(&result(true, None, true));
    let (phone, next) = phone.on_message(&Message::HelloAck {
        proto_version: Version::current(),
        receiver_name: "r".into(),
    });
    let outcome = PairingOutcomeInfo { device_id: "id".into(), device_token: "tok".into() };
    assert_eq!(next, PairNext::Paired(outcome.clone()));
    assert_eq!(phone.on_message(&Message::KeyframeRequest).1, PairNext::Wait);
    assert_eq!(
        DeviceToken::from_outcome(&outcome),
        DeviceToken { device_id: "id".into(), device_token: "tok".into() }
    );
}

#[test]
fn the_ping_loop_shows_times_and_ends() {
    assert!(matches!(ping_now(), Message::Ping { sender_time_ms } if sender_time_ms > 1_600_000_000_000));
    let pong = Ok(Message::Pong { echoed_time_ms: 100 });
    assert_eq!(after_ping(&pong, 142), LoopNext::Show("rtt 42 ms".into()));
    assert_eq!(after_ping(&pong, 50), LoopNext::Show("rtt 0 ms".into()));
    assert_eq!(
        after_ping(&Ok(Message::KeyframeRequest), 0),
        LoopNext::Fail("unexpected message during ping: \"KeyframeRequest\"".into())
    );
    assert_eq!(after_ping(&Err(CodecError::UnexpectedEof), 0), LoopNext::Leave(None));
    assert_eq!(
        after_ping(&Err(CodecError::Io("x".into())), 0),
        LoopNext::Fail("recv failed: io error: x".into())
    );
    let bye = Ok(Message::Bye { reason: "night".into() });
    assert_eq!(after_frame(&bye), LoopNext::Leave(Some("bye: night".into())));
    assert_eq!(after_frame(&pong), LoopNext::Continue);
    assert_eq!(after_frame(&Err(CodecError::UnexpectedEof)), LoopNext::Leave(None));
    assert_eq!(
        after_frame(&Err(CodecError::Io("x".into()))),
        LoopNext::Fail("control stream error: io error: x".into())
    );
    assert_eq!(after_cast_ping(&pong, 142), LoopNext::Show("rtt 42 ms".into()));
    assert_eq!(after_cast_ping(&bye, 1), LoopNext::Leave(Some("bye: night".into())));
    assert_eq!(after_cast_ping(&Err(CodecError::UnexpectedEof), 1), LoopNext::Continue);
    assert_eq!(after_cast_frame(&bye), LoopNext::Leave(Some("bye: night".into())));
    assert_eq!(after_cast_frame(&pong), LoopNext::Continue);
    assert_eq!(
        after_cast_frame(&Err(CodecError::UnexpectedEof)),
        LoopNext::Fail(
            "control stream error: unexpected end of stream while reading frame header".into()
        )
    );
}

#[test]
fn cast_media_must_be_positive() {
    let media = CastMedia { width: 1, height: 1, fps: 1, bitrate_kbps: 1, with_audio: false };
    assert_eq!(media.validate(), Ok(()));
    assert_eq!(
        CastMedia { fps: 0, ..media }.validate(),
        Err("--width/--height/--fps/--bitrate-kbps must be positive".into())
    );
}

#[test]
fn the_test_pattern_pipeline_is_spelled_out() {
    assert_eq!(
        video_pipeline(320, 240, 30, 800),
        "videotestsrc is-live=true ! \
         video/x-raw,format=I420,width=320,height=240,framerate=30/1 ! \
         openh264enc bitrate=800000 complexity=0 gop-size=60 ! \
         video/x-h264,stream-format=byte-stream,alignment=au ! \
         rtph264pay pt=96 mtu=1100 config-interval=-1 ! \
         appsink sync=false max-buffers=4 drop=true name=vidsink"
    );
}

fn args(list: &[&str]) -> Vec<String> {
    list.iter().map(|s| s.to_string()).collect()
}

#[test]
fn options_are_read() {
    let a = args(&["pair", "--host", "10.0.0.1", "--port", "48321", "--host", "x", "--name"]);
    assert_eq!(opt_value(&a, "--host").as_deref(), Some("10.0.0.1"));
    assert_eq!(opt_value(&a, "--name"), None);
    assert_eq!(opt_value(&a, "--state"), None);
    assert_eq!(timeout_secs(&a), 3);
    assert_eq!(timeout_secs(&args(&["discover", "--timeout", "+15"])), 15);
    assert_eq!(timeout_secs(&args(&["discover", "--timeout", "-1"])), 3);
    assert_eq!(timeout_secs(&args(&["--timeout", "18446744073709551615"])), u64::MAX);
    assert_eq!(timeout_secs(&args(&["--timeout", "18446744073709551616"])), 3);
    assert_eq!(command(&a), Command::Pair);
    assert_eq!(command(&args(&["discover"])), Command::Discover);
    assert_eq!(command(&args(&["run"])), Command::Run);
    assert_eq!(command(&args(&["walk"])), Command::Usage);
    assert_eq!(command(&[]), Command::Usage);
}

#[test]
fn connect_options_are_checked_in_order() {
    assert_eq!(ConnectOpts::parse(&[], false), Err("--host IP is required".into()));
    let a = args(&["--host", "nowhere"]);
    assert_eq!(ConnectOpts::parse(&a, false), Err("invalid --host".into()));
    let a = args(&["--host", "10.0.0.1"]);
    assert_eq!(ConnectOpts::parse(&a, true), Err("--port is required".into()));
    for bad in ["65536", "", "+", "12a", "-1", " 1"] {
        let a = args(&["--host", "10.0.0.1", "--port", bad]);
        assert_eq!(ConnectOpts::parse(&a, true), Err("invalid --port".into()), "{bad}");
    }
    let a = args(&["--host", "10.0.0.1", "--port", "065535", "--state", "/tmp/x"]);
    assert_eq!(
        ConnectOpts::parse(&a, true),
        Ok(ConnectOpts {
            host: "10.0.0.1".into(),
            port: 65535,
            name: "Mock Phone".into(),
            state_dir: Some("/tmp/x".into()),
        })
    );
}

fn accepted() -> Message {
    session_answer(true, None)
}

fn welcome() -> Message {
    Message::HelloAck { proto_version: Version::current(), receiver_name: "fedora".into() }
}

fn cast() -> (CastSession, Shared) {
    let session = CastSession::new("P".into(), "tok".into(), offer_for(1280, 720, 30, 4000));
    (session, Shared::default())
}

/// A cast that streams.
fn streaming() -> (CastSession, Shared) {
    let (mut session, mut shared) = cast();
    session.on_connected();
    session.on_message(&welcome(), &mut shared);
    assert_eq!(session.on_message(&accepted(), &mut shared), vec![CastStep::Stream]);
    (session, shared)
}

#[test]
fn a_cast_connects_greets_offers_and_streams() {
    let (mut session, mut shared) = cast();
    let mut sender = VideoSender::new(1, 2);
    assert!(sender.push_config(&CSD));
    assert_eq!(session.begin(&mut shared, &mut sender), vec![CastStep::Connect]);
    assert_eq!(shared.state, "connecting");
    assert_eq!((sender.config, sender.ssrc, sender.next_seq), (None, 1, 2));
    // Nothing is read before the greeting.
    assert!(session.on_message(&welcome(), &mut shared).is_empty());
    assert_eq!(
        session.on_connected(),
        vec![CastStep::Send(hello("P", Some("tok".into())))]
    );
    assert!(session.on_tick(5).is_empty());
    assert!(session.on_stop(&mut shared).is_empty());
    assert_eq!(
        session.on_message(&welcome(), &mut shared),
        vec![CastStep::Send(session_offer(offer_for(1280, 720, 30, 4000)))]
    );
    assert_eq!(shared.state, "offering");
    assert_eq!(session.on_message(&accepted(), &mut shared), vec![CastStep::Stream]);
    assert_eq!(shared.state, "streaming");
    assert_eq!(session.phase, CastPhase::Streaming);
    assert_eq!(
        session.on_tick(5),
        vec![CastStep::Send(Message::Ping { sender_time_ms: 5 })]
    );
    assert_eq!(
        session.on_message(&Message::Ping { sender_time_ms: 6 }, &mut shared),
        vec![CastStep::SendAnyway(Message::Pong { echoed_time_ms: 6 })]
    );
    assert!(session.on_message(&Message::KeyframeRequest, &mut shared).is_empty());
    assert!(shared.keyframe);
    assert_eq!(
        session.on_stop(&mut shared),
        vec![CastStep::SendAnyway(stop_message()), CastStep::End(None)]
    );
    assert_eq!(shared.state, "stopped");
    assert!(session.on_message(&accepted(), &mut shared).is_empty());
}

#[test]
fn a_cast_that_is_refused_does_not_stream() {
    let (mut session, mut shared) = cast();
    session.on_connected();
    assert_eq!(
        session.on_message(&Message::Bye { reason: "x".into() }, &mut shared),
        vec![CastStep::End(Some("expected HelloAck, got \"Bye\"".into()))]
    );
    let (mut session, mut shared) = cast();
    session.on_connected();
    session.on_message(&welcome(), &mut shared);
    assert_eq!(
        session.on_message(&session_answer(false, Some("too big")), &mut shared),
        vec![CastStep::End(Some("receiver refused the session: too big".into()))]
    );
    assert_eq!(shared.state, "error");
    assert_eq!(shared.error.as_deref(), Some("receiver refused the session: too big"));
    assert!(shared.settled());
    let (mut session, mut shared) = cast();
    assert_eq!(
        session.on_connect_failure("timed out".into(), &mut shared),
        vec![CastStep::End(Some("timed out".into()))]
    );
    assert_eq!(session.phase, CastPhase::Over);
    assert_eq!(shared.error.as_deref(), Some("timed out"));
}

#[test]
fn the_start_of_a_cast_is_answered() {
    let (mut session, mut shared) = cast();
    session.on_connected();
    session.on_message(&welcome(), &mut shared);
    assert_eq!(
        start_reply(&shared),
        r#"{"error":"no answer from the receiver","ok":false}"#
    );
    session.on_message(&accepted(), &mut shared);
    assert_eq!(start_reply(&shared), r#"{"ok":true}"#);
    session.on_stop(&mut shared);
    assert_eq!(start_reply(&shared), r#"{"error":"cast stopped","ok":false}"#);

    let (mut session, mut shared) = cast();
    session.on_connected();
    session.on_message(&welcome(), &mut shared);
    session.on_message(&session_answer(false, None), &mut shared);
    assert_eq!(
        start_reply(&shared),
        r#"{"error":"receiver refused the session: unknown reason","ok":false}"#
    );
    let (mut session, mut shared) = cast();
    session.on_connect_failure("timed out".into(), &mut shared);
    assert_eq!(start_reply(&shared), r#"{"error":"timed out","ok":false}"#);
    let mut shared = Shared::default();
    shared.set_state("error");
    assert_eq!(start_reply(&shared), r#"{"error":"unknown error","ok":false}"#);
}

#[test]
fn a_cast_ends_with_its_connection() {
    let gone = CodecError::Io("gone".into());
    let (mut session, mut shared) = streaming();
    assert_eq!(
        session.on_message(&Message::Bye { reason: "x".into() }, &mut shared),
        vec![CastStep::End(None)]
    );
    assert_eq!(shared.state, "stopped");
    let (mut session, mut shared) = streaming();
    assert_eq!(
        session.on_read_error(&CodecError::UnexpectedEof, &mut shared),
        vec![CastStep::End(None)]
    );
    assert_eq!(shared.state, "stopped");
    let (mut session, mut shared) = streaming();
    assert_eq!(
        session.on_read_error(&gone, &mut shared),
        vec![CastStep::End(Some("io error: gone".into()))]
    );
    assert_eq!(shared.error.as_deref(), Some("control stream error: io error: gone"));
    let (mut session, mut shared) = streaming();
    assert_eq!(
        session.on_send_error(&gone, &mut shared),
        vec![CastStep::End(Some("io error: gone".into()))]
    );
    assert_eq!(shared.error.as_deref(), Some("control send failed: io error: gone"));
    assert_eq!(shared.state, "error");
    // Before the stream the status tells the bare error.
    let (mut session, mut shared) = cast();
    session.on_connected();
    assert_eq!(
        session.on_read_error(&CodecError::UnexpectedEof, &mut shared),
        vec![CastStep::End(Some(
            "unexpected end of stream while reading frame header".into()
        ))]
    );
    assert_eq!(
        shared.error.as_deref(),
        Some("unexpected end of stream while reading frame header")
    );
    assert_eq!(shared.state, "error");
}

#[test]
fn flows_are_counted() {
    let mut flow = FlowStats::default();
    assert!(flow.note_send(SendOutcome::Sent, 100));
    assert!(flow.note_send(SendOutcome::Sent, 11));
    assert!(flow.note_send(SendOutcome::Refused, 5));
    assert!(!flow.note_send(SendOutcome::ConnectionLost, 5));
    flow.note_drop();
    assert_eq!(flow.snapshot(), (2, 2, 111));
}
