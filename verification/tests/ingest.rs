use wireless_display::cast::VideoSender;
use wireless_display::ingest::Ingest;
use wireless_display::media::Route;

fn packet(pt: u8, seq: u16, ssrc: u32) -> Vec<u8> {
    let mut p = vec![0x80, pt];
    p.extend(seq.to_be_bytes());
    p.extend([0; 4]);
    p.extend(ssrc.to_be_bytes());
    p
}

#[test]
fn a_packet_is_taken_once() {
    let mut ingest = Ingest::new();
    assert_eq!(ingest.take(&packet(96, 10, 7)), Route::Video);
    assert_eq!(ingest.take(&packet(96, 10, 7)), Route::Drop);
    assert_eq!(ingest.take(&packet(96, 12, 7)), Route::Video);
    // Late, but not too late.
    assert_eq!(ingest.take(&packet(96, 11, 7)), Route::Video);
    assert_eq!(ingest.take(&packet(96, 11, 7)), Route::Drop);
    assert_eq!(ingest.take(&packet(96, 12, 7)), Route::Drop);
}

#[test]
fn packets_too_far_behind_are_dropped() {
    let mut ingest = Ingest::new();
    assert_eq!(ingest.take(&packet(96, 1000, 7)), Route::Video);
    assert_eq!(ingest.take(&packet(96, 873, 7)), Route::Video);
    assert_eq!(ingest.take(&packet(96, 872, 7)), Route::Drop);
    // The window moves with the newest packet.
    assert_eq!(ingest.take(&packet(96, 1001, 7)), Route::Video);
    assert_eq!(ingest.take(&packet(96, 873, 7)), Route::Drop);
    assert_eq!(ingest.take(&packet(96, 874, 7)), Route::Video);
    // Half the range ahead is old.
    assert_eq!(ingest.take(&packet(96, 1001 + 0x8000, 7)), Route::Drop);
    assert_eq!(ingest.take(&packet(96, 1001 + 0x7fff, 7)), Route::Video);
}

#[test]
fn numbers_wrap_round() {
    let mut ingest = Ingest::new();
    assert_eq!(ingest.take(&packet(97, 65535, 1)), Route::Audio);
    assert_eq!(ingest.take(&packet(97, 0, 1)), Route::Audio);
    assert_eq!(ingest.take(&packet(97, 65535, 1)), Route::Drop);
    assert_eq!(ingest.take(&packet(97, 65534, 1)), Route::Audio);
}

#[test]
fn each_medium_has_one_source() {
    let mut ingest = Ingest::new();
    assert_eq!(ingest.take(&packet(96, 1, 7)), Route::Video);
    assert_eq!(ingest.take(&packet(96, 2, 8)), Route::Drop);
    assert_eq!(ingest.take(&packet(97, 1, 8)), Route::Audio);
    assert_eq!(ingest.take(&packet(96 | 0x80, 2, 7)), Route::Video);
    // What is no packet of a medium changes nothing.
    assert_eq!(ingest.take(&packet(98, 3, 7)), Route::Drop);
    assert_eq!(ingest.take(&[96; 11]), Route::Drop);
    assert_eq!(ingest.take(&[96; 1501]), Route::Drop);
    assert_eq!(ingest.take(&packet(96, 3, 7)), Route::Video);
}

#[test]
fn refused_numbers_stay_refused() {
    let mut ingest = Ingest::new();
    for seq in 0..400u16 {
        assert_eq!(ingest.take(&packet(96, seq, 7)), Route::Video);
        for old in 0..=seq {
            assert_eq!(ingest.take(&packet(96, old, 7)), Route::Drop);
        }
    }
}

#[test]
fn the_packets_of_access_units_are_taken_in_order() {
    let mut ingest = Ingest::new();
    let mut sender = VideoSender::new(0xdead_beef, 0xff00);
    for unit in 0..20u64 {
        let mut au = vec![0, 0, 0, 1, 0x65];
        au.extend(vec![0xa5; 20_000]);
        let packets = sender.packets(au, unit * 33_333);
        assert!(packets.len() > 10);
        for p in &packets {
            assert_eq!(ingest.take(p), Route::Video);
        }
    }
}

#[test]
fn a_unit_may_have_as_many_packets_as_numbers_lie_between_units() {
    // A unit of this many bytes behind its first goes into this many packets.
    let unit = |packets: usize| {
        let mut au = vec![0, 0, 0, 1, 0x65];
        au.extend(vec![0xa5; (1100 - 14) * packets]);
        au
    };
    let mut ingest = Ingest::new();
    let mut sender = VideoSender::new(9, 0xff80);
    for time in 0..4u64 {
        let packets = sender.packets(unit(256), time * 33_333);
        assert_eq!(packets.len(), 256);
        assert!(packets.iter().all(|p| ingest.take(p) == Route::Video));
    }
    // One more, and the next unit begins with a number that was taken.
    let packets = sender.packets(unit(257), 200_000);
    assert_eq!(packets.len(), 257);
    assert!(packets.iter().all(|p| ingest.take(p) == Route::Video));
    let packets = sender.packets(unit(2), 233_333);
    assert_eq!(ingest.take(&packets[0]), Route::Drop);
    assert_eq!(ingest.take(&packets[1]), Route::Video);
}
