use wireless_display::codec::{decode_message, encode_message};
use wireless_display::framing::{frame_len, read_payload, validate_and_decode};
use wireless_display::wire::Fault;
use wireless_display::{
    AudioCodec, AudioOffer, CodecError, MAX_MESSAGE_LEN, Message, PairingOutcomeInfo, Version,
    VideoCodec, VideoOffer, decode_frame, encode_frame,
};

#[test]
fn same_version_is_compatible() {
    assert!(Version::current().compatible_with(Version::current()));
}

#[test]
fn older_peer_within_major_is_compatible_newer_is_not() {
    let older = Version { major: 1, minor: 0 };
    let newer = Version { major: 1, minor: 3 };
    assert!(newer.compatible_with(older));
    assert!(!older.compatible_with(newer));
}

#[test]
fn different_major_is_incompatible() {
    let a = Version { major: 1, minor: 0 };
    let b = Version { major: 2, minor: 0 };
    assert!(!a.compatible_with(b));
}

#[test]
fn versions_are_shown_with_a_dot() {
    assert_eq!(Version { major: 12, minor: 340 }.to_string(), "12.340");
    assert_eq!(Version::current().to_string(), "1.0");
}

#[test]
fn codecs_have_names() {
    assert_eq!(VideoCodec::H264Baseline.name(), "H.264 baseline");
    assert_eq!(VideoCodec::H264Main.name(), "H.264 main");
    assert_eq!(AudioCodec::Opus.name(), "Opus");
    assert_eq!(AudioCodec::AacLc.name(), "AAC-LC");
}

fn all_sample_messages() -> Vec<Message> {
    vec![
        Message::Hello {
            proto_version: Version::current(),
            device_name: "Test Phone".into(),
            auth_token: Some(hex::encode([7u8; 32])),
        },
        Message::HelloAck {
            proto_version: Version::current(),
            receiver_name: "fedora".into(),
        },
        Message::PairBegin {
            device_name: "Phone".into(),
            spake_message: vec![1u8; 65],
        },
        Message::PairChallenge {
            spake_reply: vec![2u8; 65],
            receiver_fingerprint: "ab".repeat(32),
            receiver_confirmation: [9u8; 32],
        },
        Message::PairVerify {
            phone_confirmation: [3u8; 32],
        },
        Message::PairResult {
            accepted: true,
            reason: None,
            outcome: Some(PairingOutcomeInfo {
                device_id: "dev123".into(),
                device_token: hex::encode([4u8; 32]),
            }),
        },
        Message::SessionOffer {
            video: VideoOffer {
                codec: VideoCodec::H264Baseline,
                width: 1920,
                height: 1080,
                fps: 60,
                bitrate_kbps: 8000,
            },
            audio: AudioOffer {
                codec: AudioCodec::Opus,
                sample_rate: 48000,
                channels: 2,
            },
        },
        Message::SessionAnswer {
            accepted: false,
            reason: Some("resolution too large".into()),
            max_video_bitrate_kbps: 25000,
        },
        Message::KeyframeRequest,
        Message::BitrateHint { video_kbps: 5000 },
        Message::ClockSync {
            t1: 1,
            t2: 2,
            t3: 3,
            t4: 4,
        },
        Message::Ping {
            sender_time_ms: 123456,
        },
        Message::Pong {
            echoed_time_ms: 123456,
        },
        Message::Bye {
            reason: "user closed app".into(),
        },
    ]
}

#[test]
fn every_message_roundtrips_through_frame_codec() {
    for msg in all_sample_messages() {
        let frame = encode_frame(&msg).expect("encode");
        assert!(frame.len() <= MAX_MESSAGE_LEN);
        let decoded = decode_frame(&frame).expect("decode");
        assert_eq!(decoded, msg);
    }
}

#[test]
fn oversized_payload_is_rejected_at_encode_and_decode() {
    let big = Message::Bye {
        reason: "x".repeat(MAX_MESSAGE_LEN * 2),
    };
    match encode_frame(&big) {
        Err(e @ CodecError::TooLarge(..)) => assert!(e.to_string().contains("exceeds")),
        other => panic!("expected TooLarge failure, got {other:?}"),
    }
    let junk = vec![0xffu8; MAX_MESSAGE_LEN + 1];
    assert!(matches!(decode_frame(&junk), Err(CodecError::TooLarge(..))));
}

#[test]
fn the_size_limit_counts_the_header() {
    // One byte of tag, two of length, four of header.
    let fits = Message::Bye {
        reason: "x".repeat(MAX_MESSAGE_LEN - 7),
    };
    assert_eq!(encode_frame(&fits).unwrap().len(), MAX_MESSAGE_LEN);
    let over = Message::Bye {
        reason: "x".repeat(MAX_MESSAGE_LEN - 6),
    };
    assert_eq!(
        encode_frame(&over),
        Err(CodecError::TooLarge(MAX_MESSAGE_LEN + 1, MAX_MESSAGE_LEN))
    );
}

#[test]
fn truncated_frames_error_without_panic() {
    let frame = encode_frame(&Message::KeyframeRequest).unwrap();
    for cut in 0..frame.len() {
        let result = decode_frame(&frame[..cut]);
        assert!(result.is_err(), "cut at {cut} should fail");
    }
}

#[test]
fn garbage_bytes_decode_to_error_not_panic() {
    let seeds: Vec<Vec<u8>> = vec![
        vec![0u8; 16],
        vec![0xff; 64],
        (0u8..=64).collect(),
        b"\x01\x00\x00\x00\x00".to_vec(),
    ];
    for s in seeds {
        assert!(decode_frame(&s).is_err());
    }
}

#[test]
fn frame_errors_say_what_is_wrong() {
    assert_eq!(decode_frame(&[1, 2]), Err(CodecError::UnexpectedEof));
    assert_eq!(
        decode_frame(&[9, 0, 0, 0, 8]),
        Err(CodecError::LengthMismatch { declared: 9, actual: 1 })
    );
    assert_eq!(
        decode_frame(&[0, 0x10, 1, 0]),
        Err(CodecError::TooLarge(0x11000, MAX_MESSAGE_LEN))
    );
    assert_eq!(
        CodecError::TooLarge(70000, 4096).to_string(),
        "frame exceeds protocol limit: 70000 bytes (max 4096)"
    );
    assert_eq!(
        CodecError::UnexpectedEof.to_string(),
        "unexpected end of stream while reading frame header"
    );
    assert_eq!(
        CodecError::LengthMismatch { declared: 9, actual: 1 }.to_string(),
        "frame length 9 does not match payload size 1"
    );
    assert_eq!(
        CodecError::Decode("why".into()).to_string(),
        "message decode failed: why"
    );
    assert_eq!(CodecError::Io("gone".into()).to_string(), "io error: gone");
}

#[test]
fn decode_faults_have_the_texts_of_the_format() {
    // The fault of each kind of damage, with the text that the format's own library has.
    let cases: Vec<(Vec<u8>, Fault, postcard::Error)> = vec![
        (vec![], Fault::UnexpectedEnd, postcard::Error::DeserializeUnexpectedEnd),
        (
            vec![0xff, 0xff, 0xff, 0xff, 0x7f],
            Fault::BadVarint,
            postcard::Error::DeserializeBadVarint,
        ),
        (vec![5, 2], Fault::BadBool, postcard::Error::DeserializeBadBool),
        (vec![13, 2, 0xc3, 0x28], Fault::BadUtf8, postcard::Error::DeserializeBadUtf8),
        (vec![5, 0, 7], Fault::BadOption, postcard::Error::DeserializeBadOption),
        (vec![14], Fault::BadVariant, postcard::Error::SerdeDeCustom),
        (vec![6, 9], Fault::BadVariant, postcard::Error::SerdeDeCustom),
        (vec![13, 200, 1, 65], Fault::UnexpectedEnd, postcard::Error::DeserializeUnexpectedEnd),
        (vec![2, 1, 65, 3, 1], Fault::UnexpectedEnd, postcard::Error::DeserializeUnexpectedEnd),
        (vec![4, 1, 2, 3], Fault::UnexpectedEnd, postcard::Error::DeserializeUnexpectedEnd),
        (
            vec![0, 0xff, 0xff, 0x7f],
            Fault::BadVarint,
            postcard::Error::DeserializeBadVarint,
        ),
    ];
    for (bytes, fault, theirs) in cases {
        assert_eq!(decode_message(&bytes), Err(fault), "{bytes:?}");
        assert_eq!(fault.to_string(), theirs.to_string());
        assert_eq!(
            validate_and_decode(&bytes),
            Err(CodecError::Decode(theirs.to_string()))
        );
    }
}

fn fields<T: serde::Serialize>(value: T) -> Vec<u8> {
    postcard::to_allocvec(&value).unwrap()
}

#[test]
fn messages_have_the_bytes_of_the_format() {
    let token = "t".repeat(64);
    let print = "ab".repeat(32);
    let cases: Vec<(Message, Vec<u8>)> = vec![
        (
            Message::Hello {
                proto_version: Version { major: 300, minor: 7 },
                device_name: "Zoë's phone".into(),
                auth_token: Some(token.clone()),
            },
            fields((0u32, 300u16, 7u16, "Zoë's phone", Some(token.as_str()))),
        ),
        (
            Message::Hello {
                proto_version: Version::current(),
                device_name: "P".into(),
                auth_token: None,
            },
            fields((0u32, 1u16, 0u16, "P", None::<&str>)),
        ),
        (
            Message::HelloAck { proto_version: Version::current(), receiver_name: "r".into() },
            fields((1u32, 1u16, 0u16, "r")),
        ),
        (
            Message::PairBegin { device_name: "P".into(), spake_message: vec![5; 200] },
            fields((2u32, "P", vec![5u8; 200])),
        ),
        (
            Message::PairChallenge {
                spake_reply: vec![1, 2, 3],
                receiver_fingerprint: print.clone(),
                receiver_confirmation: [8; 32],
            },
            fields((3u32, vec![1u8, 2, 3], print.as_str(), [8u8; 32])),
        ),
        (
            Message::PairVerify { phone_confirmation: [6; 32] },
            fields((4u32, [6u8; 32])),
        ),
        (
            Message::PairResult {
                accepted: true,
                reason: Some("r".into()),
                outcome: Some(PairingOutcomeInfo {
                    device_id: "id".into(),
                    device_token: "tok".into(),
                }),
            },
            fields((5u32, true, Some("r"), Some(("id", "tok")))),
        ),
        (
            Message::SessionOffer {
                video: VideoOffer {
                    codec: VideoCodec::H264Main,
                    width: 1920,
                    height: 80,
                    fps: 200,
                    bitrate_kbps: 3_000_000_000,
                },
                audio: AudioOffer { codec: AudioCodec::AacLc, sample_rate: 44_100, channels: 255 },
            },
            fields((6u32, (1u32, 1920u16, 80u16, 200u8, 3_000_000_000u32), (1u32, 44_100u32, 255u8))),
        ),
        (
            Message::SessionAnswer {
                accepted: false,
                reason: None,
                max_video_bitrate_kbps: 25_000,
            },
            fields((7u32, false, None::<&str>, 25_000u32)),
        ),
        (Message::KeyframeRequest, fields(8u32)),
        (Message::BitrateHint { video_kbps: 129 }, fields((9u32, 129u32))),
        (
            Message::ClockSync { t1: u64::MAX, t2: 127, t3: 128, t4: 1 << 40 },
            fields((10u32, u64::MAX, 127u64, 128u64, 1u64 << 40)),
        ),
        (Message::Ping { sender_time_ms: 16_383 }, fields((11u32, 16_383u64))),
        (Message::Pong { echoed_time_ms: 16_384 }, fields((12u32, 16_384u64))),
        (Message::Bye { reason: "".into() }, fields((13u32, ""))),
    ];
    for (message, bytes) in cases {
        assert_eq!(encode_message(&message), bytes);
        assert_eq!(decode_message(&bytes), Ok(message));
    }
}

#[test]
fn bytes_behind_a_message_do_not_matter() {
    let mut bytes = encode_message(&Message::Ping { sender_time_ms: 5 });
    bytes.extend_from_slice(&[1, 2, 3]);
    assert_eq!(decode_message(&bytes), Ok(Message::Ping { sender_time_ms: 5 }));
}

#[test]
fn validation_names_the_field() {
    let hello = |name: &str, token: Option<String>| Message::Hello {
        proto_version: Version::current(),
        device_name: name.into(),
        auth_token: token,
    };
    assert_eq!(hello("Zoë's (2nd) phone_1.0-b", None).validate(), Ok(()));
    assert_eq!(hello("", None).validate(), Err("invalid device_name"));
    assert_eq!(hello("a/b", None).validate(), Err("invalid device_name"));
    assert_eq!(hello(&"é".repeat(64), None).validate(), Ok(()));
    assert_eq!(hello(&"é".repeat(65), None).validate(), Err("invalid device_name"));
    assert_eq!(hello("a", Some("t".repeat(64))).validate(), Ok(()));
    assert_eq!(
        hello("a", Some("t".repeat(65))).validate(),
        Err("auth_token too long")
    );
    // The token is measured in bytes.
    assert_eq!(
        hello("a", Some("é".repeat(33))).validate(),
        Err("auth_token too long")
    );
    assert_eq!(
        Message::HelloAck { proto_version: Version::current(), receiver_name: "\n".into() }
            .validate(),
        Err("invalid receiver_name")
    );
    assert_eq!(
        Message::PairBegin { device_name: "#".into(), spake_message: vec![] }.validate(),
        Err("invalid device_name")
    );
    assert_eq!(
        Message::PairBegin { device_name: "a".into(), spake_message: vec![0; 129] }.validate(),
        Err("spake_message too long")
    );
    let challenge = |reply: usize, print: String| Message::PairChallenge {
        spake_reply: vec![0; reply],
        receiver_fingerprint: print,
        receiver_confirmation: [0; 32],
    };
    assert_eq!(challenge(128, "aB".repeat(32)).validate(), Ok(()));
    assert_eq!(challenge(129, "ab".repeat(32)).validate(), Err("spake_reply too long"));
    assert_eq!(challenge(0, "ab".repeat(31)).validate(), Err("invalid fingerprint"));
    assert_eq!(challenge(0, "xy".repeat(32)).validate(), Err("invalid fingerprint"));
    let long = "r".repeat(257);
    assert_eq!(
        Message::PairResult { accepted: false, reason: Some(long.clone()), outcome: None }
            .validate(),
        Err("reason too long")
    );
    assert_eq!(
        Message::SessionAnswer {
            accepted: false,
            reason: Some(long.clone()),
            max_video_bitrate_kbps: 0
        }
        .validate(),
        Err("reason too long")
    );
    assert_eq!(Message::Bye { reason: long }.validate(), Err("reason too long"));
    assert_eq!(Message::Bye { reason: "é".repeat(256) }.validate(), Ok(()));
    assert_eq!(
        Message::PairResult { accepted: false, reason: None, outcome: None }.validate(),
        Ok(())
    );
}

#[test]
fn invalid_messages_are_refused_when_read() {
    let frame = encode_frame(&Message::Bye { reason: "r".repeat(300) }).unwrap();
    assert_eq!(
        decode_frame(&frame),
        Err(CodecError::Decode("reason too long".into()))
    );
}

#[test]
fn a_frame_can_be_read_in_two_steps() {
    let msg = Message::Hello {
        proto_version: Version::current(),
        device_name: "Roundtrip".into(),
        auth_token: None,
    };
    let frame = encode_frame(&msg).unwrap();
    assert_eq!(frame_len(&frame[..4]), Ok(frame.len() - 4));
    assert_eq!(read_payload(&frame[4..]), Ok(Some(msg)));
    assert_eq!(frame_len(&[0, 0]), Err(CodecError::UnexpectedEof));
    assert_eq!(
        frame_len(&u32::MAX.to_le_bytes()),
        Err(CodecError::TooLarge(u32::MAX as usize, MAX_MESSAGE_LEN))
    );
}

#[test]
fn messages_of_unknown_kinds_are_passed_over() {
    assert_eq!(read_payload(&[14]), Ok(None));
    assert_eq!(read_payload(&[0xc8, 0x01, 1, 2, 3]), Ok(None));
    assert_eq!(read_payload(&[8]), Ok(Some(Message::KeyframeRequest)));
    assert!(read_payload(&[]).is_err());
    assert!(read_payload(&[11]).is_err());
}
