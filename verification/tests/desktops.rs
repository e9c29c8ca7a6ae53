use wireless_display::clock::{
    civil_from_days, millis_of, seconds_of, ssrc_from_time, ssrc_of, stamp_of, unix_millis,
};
use wireless_display::config::{
    Config, ConfigError, Found, GeneralConfig, Loaded, NetworkConfig, validate,
};
use wireless_display::diag::{
    DecoderProbe, InterfaceInfo, MetricValue, MetricsRegistry, RawInterface, SystemInfo,
    decoder_candidate, decoder_probes, dotted, log_filter, outward_interfaces, report_name,
    report_text,
};
use wireless_display::discovery::{
    Advertisement, SERVICE_TYPE, found_line, nothing_found, receiver_name, sanitize_instance,
};
use wireless_display::identity::{Identity, host_name, subject};
use wireless_display::listener::ListenerEvent;
use wireless_display::media::{
    FirstFrame, MediaCounters, MediaEvent, Route, Watch, payload_type, pipeline_error, route,
    validate_offer, watch,
};
use wireless_display::pairing::PairedDevice;
use wireless_display::session::State;
use wireless_display::ui::{
    Reaction, Row, address_line, decoder_rows, device_line, device_rows, interface_rows,
    metric_rows, metric_text,
    notice_secs, page_for_state, pairing_prompt, peer_title, reaction, stat_name,
    state_description, version_rows,
};
use wireless_display::{AudioCodec, AudioOffer, VideoCodec, VideoOffer};

#[test]
fn validation_rejects_privileged_ports() {
    let mut cfg = Config::default();
    cfg.network.listen_port = 80;
    assert!(validate(&cfg).is_err());
}

/// The sections of a configuration file.
fn sections(raw: &str) -> Option<Found> {
    let table: toml::Table = raw.parse().ok()?;
    let int = |section: &toml::Value, key: &str| section.get(key).and_then(|v| v.as_integer());
    let general = table.get("general").map(|g| {
        GeneralConfig::from_parts(
            g.get("log_level").and_then(|v| v.as_str()).map(String::from),
            int(g, "window_width").map(|v| v as i32),
            int(g, "window_height").map(|v| v as i32),
            g.get("window_maximized").and_then(|v| v.as_bool()),
        )
    });
    let network = table
        .get("network")
        .map(|n| NetworkConfig::from_parts(int(n, "listen_port").map(|v| v as u16)));
    Some(Found::Sections { general, network })
}

/// A configuration as a file.
fn file_of(cfg: &Config) -> String {
    let mut general = toml::Table::new();
    general.insert("log_level".into(), cfg.general.log_level.clone().into());
    general.insert("window_width".into(), cfg.general.window_width.into());
    general.insert("window_height".into(), cfg.general.window_height.into());
    general.insert("window_maximized".into(), cfg.general.window_maximized.into());
    let mut network = toml::Table::new();
    network.insert("listen_port".into(), i64::from(cfg.network.listen_port).into());
    let mut table = toml::Table::new();
    table.insert("general".into(), general.into());
    table.insert("network".into(), network.into());
    toml::to_string_pretty(&table).unwrap()
}

#[test]
fn defaults_are_valid_and_roundtrip() {
    let cfg = Config::default();
    validate(&cfg).unwrap();
    let parsed = Config::load_from(sections(&file_of(&cfg)).unwrap(), None).config;
    assert_eq!(cfg, parsed);
    assert_eq!(
        cfg,
        Config {
            general: GeneralConfig {
                log_level: "info".into(),
                window_width: 900,
                window_height: 640,
                window_maximized: false,
            },
            network: NetworkConfig { listen_port: 48321 },
        }
    );
}

#[test]
fn validation_says_what_is_wrong() {
    let mut cfg = Config::default();
    cfg.general.log_level = "".into();
    assert_eq!(validate(&cfg), Err("log_level must not be empty".into()));
    let mut cfg = Config::default();
    cfg.network.listen_port = 1023;
    assert_eq!(validate(&cfg), Err("listen_port 1023 is privileged (<1024)".into()));
    cfg.network.listen_port = 1024;
    assert_eq!(validate(&cfg), Ok(()));
    cfg.general.window_width = 319;
    assert_eq!(validate(&cfg), Err("window size below minimum 320x240".into()));
    cfg.general.window_width = 320;
    cfg.general.window_height = 239;
    assert_eq!(validate(&cfg), Err("window size below minimum 320x240".into()));
    assert_eq!(ConfigError::NoConfigDir.to_string(), "config directory unavailable");
    assert_eq!(ConfigError::Io("x".into()).to_string(), "io error: x");
}

#[test]
fn partial_files_get_defaulted_fields() {
    let found = sections("[network]\nlisten_port = 50000").unwrap();
    let parsed = Config::load_from(found, None).config;
    assert_eq!(parsed.general.log_level, "info");
    assert_eq!(parsed.network.listen_port, 50000);
    // A section that is there but empty has empty fields.
    let parsed = Config::from_sections(
        Some(GeneralConfig::from_parts(None, Some(7), None, None)),
        Some(NetworkConfig::from_parts(None)),
    );
    assert_eq!(
        parsed.general,
        GeneralConfig {
            log_level: "".into(),
            window_width: 7,
            window_height: 0,
            window_maximized: false
        }
    );
    assert_eq!(parsed.network.listen_port, 0);
    assert_eq!(NetworkConfig::default().listen_port, 0);
    assert_eq!(GeneralConfig::default().window_width, 0);
}

#[test]
fn corrupt_file_is_backed_up_and_regenerated() {
    let found = sections("not [valid toml ===").unwrap_or(Found::Invalid);
    let loaded = Config::load_from(found, Some("50000".into()));
    assert_eq!(
        loaded,
        Loaded { config: Config::default(), back_up: true, save: true }
    );
    let loaded = Config::load_from(Found::Missing, None);
    assert_eq!(
        loaded,
        Loaded { config: Config::default(), back_up: false, save: true }
    );
}

#[test]
fn the_environment_sets_the_port_of_a_good_file() {
    let found = || Found::Sections {
        general: None,
        network: Some(NetworkConfig { listen_port: 2000 }),
    };
    let port = |var: Option<&str>| {
        let loaded = Config::load_from(found(), var.map(String::from));
        assert!(!loaded.back_up && !loaded.save);
        loaded.config.network.listen_port
    };
    assert_eq!(port(None), 2000);
    assert_eq!(port(Some("3000")), 3000);
    assert_eq!(port(Some("+3000")), 3000);
    assert_eq!(port(Some("70000")), 2000);
    assert_eq!(port(Some("x")), 2000);
}

#[test]
fn the_window_size_is_kept_above_the_least() {
    let mut cfg = Config::default();
    cfg.set_geometry(100, 1000, true);
    assert_eq!(cfg.general.window_width, 320);
    assert_eq!(cfg.general.window_height, 1000);
    assert!(cfg.general.window_maximized);
    cfg.set_geometry(1000, -5, false);
    assert_eq!(cfg.general.window_height, 240);
    assert_eq!(validate(&cfg), Ok(()));
}

#[test]
fn instance_names_are_sanitized() {
    assert_eq!(sanitize_instance("fedora box"), "fedora box");
    assert_eq!(sanitize_instance("  weird@name!  "), "weird-name-");
    assert_eq!(sanitize_instance(""), "Wireless Display");
    assert_eq!(sanitize_instance("x").len(), 1);
}

#[test]
fn long_and_foreign_instance_names_are_cut_and_replaced() {
    assert_eq!(sanitize_instance(&"é".repeat(60)), "-".repeat(48));
    assert_eq!(sanitize_instance("\u{a0}\t"), "Wireless Display");
}

#[test]
fn an_advertisement_carries_host_version_and_fingerprint() {
    let adv = Advertisement::new("Test Receiver", "testhost..", 48_321, "abcdef123456");
    assert_eq!(adv.instance_name(), "Test Receiver");
    assert_eq!(adv.host(), "testhost-wd.local.");
    assert_eq!(adv.port(), 48_321);
    assert_eq!(adv.proto(), "wdl/1.0");
    assert_eq!(adv.fingerprint(), "abcdef123456");
    assert_eq!(adv.full_name(), format!("Test Receiver.{SERVICE_TYPE}"));
    assert_eq!(receiver_name("fedora"), "Wireless Display on fedora");
}

#[test]
fn identity_is_stable_and_fingerprinted() {
    let id1 = match Identity::generate(host_name(Some("box\n".into()))) {
        Ok(id) => id,
        Err(e) => panic!("{e}"),
    };
    let fp1 = id1.fingerprint_hex().to_string();
    assert_eq!(fp1.len(), 64);
    assert!(!id1.host_name().is_empty());
    assert_eq!(id1.fingerprint_short(), fp1[..12]);

    let id2 = Identity::from_parts(
        id1.cert_der().to_vec(),
        id1.key_der().to_vec(),
        host_name(None),
    );
    assert_eq!(fp1, id2.fingerprint_hex(), "identity must persist across restarts");
    assert!(!id2.cert_der().is_empty());
    assert!(!id2.key_der().is_empty());
    assert_eq!(id1.host_name(), "box");
    assert_eq!(id2.host_name(), "linux-desktop");
}

#[test]
fn hosts_without_an_ascii_name_get_no_identity() {
    assert!(Identity::generate("b\u{f6}x".into()).is_err());
    assert!(Identity::generate("box".into()).is_ok());
    match Identity::from_made(Ok((b"abc".to_vec(), vec![1])), "h".into()) {
        Ok(id) => {
            assert_eq!(id.cert_der(), b"abc");
            assert_eq!(id.key_der(), [1]);
            assert_eq!(id.host_name(), "h");
        }
        Err(e) => panic!("{e}"),
    }
    match Identity::from_made(Err("no key".into()), "h".into()) {
        Ok(_) => panic!("made from nothing"),
        Err(e) => assert_eq!(e, "no key"),
    }
}

#[test]
fn a_fingerprint_is_the_hash_of_the_certificate() {
    let id = Identity::from_parts(b"abc".to_vec(), vec![], "h".into());
    assert_eq!(
        id.fingerprint_hex(),
        "ba7816bf8f01cfea414140de5dae2223b00361a396177a9cb410ff61f20015ad"
    );
    assert_eq!(subject("box"), "wireless-display@box");
    assert_eq!(host_name(Some(" \n".into())), "linux-desktop");
    assert_eq!(host_name(Some(" a b \n".into())), "a b");
}

fn video(width: u16, height: u16, fps: u8, bitrate_kbps: u32) -> VideoOffer {
    VideoOffer { codec: VideoCodec::H264Main, width, height, fps, bitrate_kbps }
}

#[test]
fn offers_are_held_to_the_limits() {
    let opus = AudioOffer { codec: AudioCodec::Opus, sample_rate: 48_000, channels: 2 };
    assert_eq!(validate_offer(&video(1920, 1080, 60, 25_000), &opus), Ok(()));
    assert_eq!(validate_offer(&video(1, 1, 1, 0), &AudioOffer { channels: 0, ..opus }), Ok(()));
    for (w, h) in [(0, 1), (1, 0), (1921, 1), (1, 1081)] {
        assert_eq!(
            validate_offer(&video(w, h, 30, 1), &opus),
            Err(format!("resolution {w}x{h} outside supported bounds"))
        );
    }
    for fps in [0, 61] {
        assert_eq!(
            validate_offer(&video(1, 1, fps, 1), &opus),
            Err(format!("fps {fps} outside supported bounds"))
        );
    }
    assert_eq!(
        validate_offer(&video(1, 1, 1, 25_001), &opus),
        Err("bitrate above receiver cap".into())
    );
    for audio in [
        AudioOffer { codec: AudioCodec::AacLc, ..opus },
        AudioOffer { sample_rate: 44_100, ..opus },
        AudioOffer { channels: 3, ..opus },
    ] {
        assert_eq!(
            validate_offer(&video(1, 1, 1, 1), &audio),
            Err("only Opus 48 kHz mono/stereo is supported".into())
        );
    }
}

#[test]
fn datagrams_are_routed_by_payload_type() {
    let packet = |len: usize, second: u8| {
        let mut p = vec![0u8; len];
        p[1] = second;
        p
    };
    assert_eq!(payload_type(&[0; 11]), None);
    assert_eq!(payload_type(&packet(12, 0xe0)), Some(96));
    assert_eq!(route(&packet(12, 96)), Route::Video);
    assert_eq!(route(&packet(1500, 0x80 | 97)), Route::Audio);
    assert_eq!(route(&packet(1501, 96)), Route::Drop);
    assert_eq!(route(&[96; 11]), Route::Drop);
    assert_eq!(route(&packet(12, 98)), Route::Drop);
}

#[test]
fn media_is_counted() {
    let mut c = MediaCounters::default();
    c.count_frame(10);
    c.count_frame(5);
    c.count_packet(true, 100);
    c.count_packet(false, 7);
    c.count_packet(false, 8);
    c.count_drop();
    assert_eq!(c.snapshot(), (2, 15, 1, 2, 15, 1));
    let mut c = MediaCounters { dropped_datagrams: u64::MAX, ..c };
    c.count_drop();
    assert_eq!(c.dropped_datagrams, 0);
    let mut first = FirstFrame { seen: false };
    assert!(first.note());
    assert!(!first.note());
}

#[test]
fn pipeline_errors_name_their_medium() {
    assert_eq!(
        pipeline_error("wdl-audio", "no sink"),
        MediaEvent::AudioError { reason: "wdl-audio: no sink".into() }
    );
    assert_eq!(
        pipeline_error("wdl-video", "audio"),
        MediaEvent::VideoError { reason: "wdl-video: audio".into() }
    );
    assert_eq!(
        pipeline_error("aud", ""),
        MediaEvent::VideoError { reason: "aud: ".into() }
    );
}

#[test]
fn silence_is_watched() {
    assert_eq!(watch(State::Streaming, 4_999), Watch::Wait);
    assert_eq!(watch(State::Streaming, 5_000), Watch::Recover);
    assert_eq!(watch(State::Recovering, 5_000), Watch::Wait);
    assert_eq!(watch(State::Recovering, 6_999), Watch::Wait);
    assert_eq!(watch(State::Recovering, 7_000), Watch::Fail);
    assert_eq!(watch(State::Recovering, 0), Watch::Resume);
    assert_eq!(watch(State::Negotiating, u64::MAX), Watch::Wait);
}

#[test]
fn dates_follow_the_calendar() {
    assert_eq!(civil_from_days(0), (1970, 1, 1));
    assert_eq!(civil_from_days(-1), (1969, 12, 31));
    assert_eq!(civil_from_days(11_016), (2000, 2, 29));
    assert_eq!(civil_from_days(11_017), (2000, 3, 1));
    assert_eq!(civil_from_days(19_782), (2024, 2, 29));
    assert_eq!(civil_from_days(-25_509), (1900, 2, 28));
    assert_eq!(civil_from_days(-25_508), (1900, 3, 1));
    assert_eq!(civil_from_days(-719_468), (0, 3, 1));
    assert_eq!(civil_from_days(-719_528), (0, 1, 1));
    assert_eq!(civil_from_days(-719_529), (-1, 12, 31));
    assert_eq!(civil_from_days(2_932_896), (9999, 12, 31));
}

#[test]
fn stamps_are_date_and_time() {
    assert_eq!(stamp_of(0), "19700101-000000");
    assert_eq!(stamp_of(1_709_251_199), "20240229-235959");
    assert_eq!(stamp_of(253_402_300_800), "100000101-000000");
    let name = report_name();
    assert!(name.starts_with("diagnostics-20") && name.ends_with(".txt"), "{name}");
    assert_eq!(name.len(), "diagnostics-20240229-235959.txt".len());
}

#[test]
fn clock_readings_are_converted() {
    assert_eq!(seconds_of(Some((7, 8))), 7);
    assert_eq!(seconds_of(None), 0);
    assert_eq!(millis_of(Some((7, 8_999_999))), 7_008);
    assert_eq!(millis_of(None), 0);
    assert_eq!(millis_of(Some((u64::MAX, 0))), 18_446_744_073_709_550_616);
    assert_eq!(ssrc_of(Some((0x1_0000_0006, 5))), 3);
    assert_eq!(ssrc_of(Some((4, 4))), 1);
    assert_eq!(ssrc_of(None), 0x1234_5679);
    assert_eq!(ssrc_from_time() % 2, 1);
    assert!(unix_millis() > 1_600_000_000_000);
}

#[test]
fn metrics_are_kept_by_key() {
    let mut m: MetricsRegistry<f64> = MetricsRegistry::new();
    assert!(m.snapshot().is_empty());
    m.increment("app.starts");
    m.increment("app.starts");
    m.set_gauge("net.video_fps", 29.5);
    m.set_text("app.state", "ok");
    m.set_text("app.state", "network-error");
    // What is no count is left alone.
    m.increment("net.video_fps");
    m.increment("app.state");
    let shown: Vec<(String, String)> = m
        .snapshot()
        .into_iter()
        .map(|(k, v)| (k, metric_text(&v, "gauge")))
        .collect();
    let pair = |a: &str, b: &str| (a.to_string(), b.to_string());
    assert_eq!(
        shown,
        vec![
            pair("app.starts", "2"),
            pair("app.state", "network-error"),
            pair("net.video_fps", "gauge"),
        ]
    );
    assert!(matches!(m.get("net.video_fps"), Some(MetricValue::Gauge(g)) if g == 29.5));
    assert!(m.get("absent").is_none());
}

fn system() -> SystemInfo {
    SystemInfo {
        app_version: "0.1.0".into(),
        gtk_version: dotted(4, 12, 0),
        adwaita_version: dotted(1, 5, 10),
        gstreamer_version: dotted(1, 24, 3),
        pipewire_sink_available: false,
        decoders: vec![
            DecoderProbe { element: "openh264dec".into(), available: true },
            DecoderProbe { element: "a_very_long_decoder".into(), available: false },
        ],
        interfaces: vec![InterfaceInfo { name: "eth0".into(), addr: "10.0.0.2".into() }],
    }
}

#[test]
fn reports_list_everything() {
    let metrics = [("app.starts".to_string(), "Count(1)".to_string())];
    assert_eq!(
        report_text(&system(), &metrics),
        "Wireless Display diagnostics\n============================\n\n\
         application: 0.1.0\n\
         gtk: 4.12.0  adwaita: 1.5.10  gstreamer: 1.24.3\n\n\
         decoders:\n  openh264dec    yes\n  a_very_long_decoder no\n\
         \ninterfaces:\n  eth0: 10.0.0.2\n\
         \nmetrics:\n  app.starts: Count(1)\n"
    );
}

#[test]
fn probes_follow_the_list_of_decoders() {
    assert_eq!(decoder_candidate(0), Some("vaapih264dec"));
    assert_eq!(decoder_candidate(4), Some("openh264dec"));
    assert_eq!(decoder_candidate(5), None);
    let probes = decoder_probes(&[false, false, false, true, false]);
    assert_eq!(probes.len(), 5);
    assert_eq!(probes[3], DecoderProbe { element: "avdec_h264".into(), available: true });
    assert!(!probes[4].available);
    let raw = |name: &str, is_loopback| RawInterface {
        name: name.into(),
        addr: format!("addr of {name}"),
        is_loopback,
    };
    assert_eq!(
        outward_interfaces(&[raw("lo", true), raw("eth0", false), raw("wlan0", false)]),
        vec![
            InterfaceInfo { name: "eth0".into(), addr: "addr of eth0".into() },
            InterfaceInfo { name: "wlan0".into(), addr: "addr of wlan0".into() },
        ]
    );
    assert_eq!(log_filter("debug"), "wd_receiver=debug,info");
}

fn row(key: &str, value: &str, dimmed: bool) -> Row {
    Row { key: key.into(), value: value.into(), dimmed }
}

#[test]
fn pages_show_the_system() {
    assert_eq!(
        version_rows(&system()),
        vec![
            row("Application", "0.1.0", false),
            row("GTK", "4.12.0", false),
            row("libadwaita", "1.5.10", false),
            row("GStreamer", "1.24.3", false),
        ]
    );
    assert_eq!(
        decoder_rows(&system()),
        vec![
            row("openh264dec", "available", false),
            row("a_very_long_decoder", "not installed", true),
            row("pipewiresink", "missing", false),
        ]
    );
    assert_eq!(interface_rows(&system()), vec![row("eth0", "10.0.0.2", false)]);
    let none = SystemInfo { interfaces: vec![], ..system() };
    assert_eq!(interface_rows(&none), vec![row("interfaces", "none detected", false)]);
}

#[test]
fn devices_and_metrics_are_listed() {
    assert_eq!(
        device_rows(&[]),
        vec![row(
            "No phones paired yet",
            "Use “Start pairing…” above, then pair from the phone app.",
            true
        )]
    );
    let device = |id: &str, name: &str| PairedDevice {
        device_id: id.into(),
        name: name.into(),
        token: "t".into(),
        added_unix_secs: 0,
    };
    assert_eq!(
        device_rows(&[device("0123456789abcdef", "P"), device("x", "Q")]),
        vec![
            row("P", "paired device 01234567", false),
            row("Q", "paired device x", false),
        ]
    );
    assert_eq!(metric_rows(&[]), vec![row("metrics", "none recorded yet", false)]);
    assert_eq!(
        metric_rows(&[("a".into(), "1".into()), ("b".into(), "x".into())]),
        vec![row("a", "1", false), row("b", "x", false)]
    );
}

#[test]
fn found_receivers_are_shown() {
    assert_eq!(
        found_line("N.local.", "10.0.0.2", 48321, Some("ab".into()), None),
        "N.local.\t10.0.0.2:48321\tfp=ab\tproto=?"
    );
    assert_eq!(nothing_found(3), "no receivers advertised within 3s");
}

#[test]
fn the_interface_follows_the_session() {
    assert_eq!(page_for_state(State::Idle), "devices");
    assert_eq!(page_for_state(State::Closed), "devices");
    for s in [State::Negotiating, State::Streaming, State::Recovering, State::Failed] {
        assert_eq!(page_for_state(s), "connected");
    }
    assert_eq!(state_description(State::Negotiating), "Negotiating stream…");
    assert_eq!(state_description(State::Recovering), "Connection interrupted — recovering");
    assert_eq!(state_description(State::Idle), "Not streaming");
    assert_eq!(peer_title(Some("P")), "Connected to P");
    assert_eq!(peer_title(None), "No active session");
    assert_eq!(device_line("0123456789"), "paired device 01234567");
    assert_eq!(device_line("0123"), "paired device 0123");
    assert_eq!(device_line("éééééé"), "paired device éééé");
    assert_eq!(address_line(48321), "0.0.0.0:48321 — phones connect here");
    assert_eq!(
        pairing_prompt("123456"),
        "On your phone, choose this computer and enter the code:\n\n123456\n\nThe code expires in two minutes."
    );
    assert_eq!((notice_secs(true), notice_secs(false)), (4, 6));
    assert_eq!(stat_name(3), Some(("av.drift_ms", "A/V drift")));
    assert_eq!(stat_name(6), None);
    assert_eq!(
        reaction(&ListenerEvent::Connected { name: "P".into() }),
        Reaction::Peer(Some("P".into()))
    );
    assert_eq!(
        reaction(&ListenerEvent::Disconnected { clean: true, reason: "r".into() }),
        Reaction::Peer(None)
    );
    assert_eq!(
        reaction(&ListenerEvent::PairingSucceeded { device_id: "d".into(), name: "P".into() }),
        Reaction::Paired("Paired with P".into())
    );
    assert_eq!(
        reaction(&ListenerEvent::MediaFirstFrame { decoder: "d".into() }),
        Reaction::Ignore
    );
}
