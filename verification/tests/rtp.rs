use wireless_display::media::{Route, route};
use wireless_display::rtp::{avcc_to_annexb, contains_idr, lp_to_annexb, packetize_au};

#[test]
fn avcc_parses_sps_pps() {
    // version=1, profile, compat, level, 0xff (lenSize-1=3), numSPS=1,
    // len=4 [67 64 00 1f], numPPS=1, len=4 [68 eb ec b2]
    let csd = [
        0x01, 0x64, 0x00, 0x1f, 0xff, 0xe1, 0x00, 0x04, 0x67, 0x64, 0x00, 0x1f, 0x01, 0x00, 0x04,
        0x68, 0xeb, 0xec, 0xb2,
    ];
    let out = avcc_to_annexb(&csd).expect("parses");
    assert!(out.starts_with(&[0, 0, 0, 1, 0x67]));
    assert!(out.ends_with(&[0x68, 0xeb, 0xec, 0xb2]));
}

#[test]
fn avcc_gives_both_parameter_sets_in_order() {
    let csd = [
        0x01, 0x64, 0x00, 0x1f, 0xff, 0xe1, 0x00, 0x02, 0x67, 0x64, 0x01, 0x00, 0x01, 0x68,
    ];
    assert_eq!(
        avcc_to_annexb(&csd).unwrap(),
        vec![0, 0, 0, 1, 0x67, 0x64, 0, 0, 0, 1, 0x68]
    );
}

#[test]
fn broken_avcc_records_are_refused() {
    assert!(avcc_to_annexb(&[]).is_none());
    assert!(avcc_to_annexb(&[1, 0, 0, 0, 0, 0xe1, 0]).is_none());
    // Another version.
    assert!(avcc_to_annexb(&[2, 0x64, 0, 0x1f, 0xff, 0xe1, 0, 1, 0x67, 0]).is_none());
    // A parameter set that ends early.
    assert!(avcc_to_annexb(&[1, 0x64, 0, 0x1f, 0xff, 0xe1, 0, 9, 0x67, 0]).is_none());
}

#[test]
fn lp_converts_to_annexb() {
    let lp = [0, 0, 0, 2, 0x41, 0x9a, 0, 0, 0, 1, 0x42];
    let out = lp_to_annexb(&lp).expect("converts");
    assert_eq!(out, vec![0, 0, 0, 1, 0x41, 0x9a, 0, 0, 0, 1, 0x42]);
}

#[test]
fn broken_length_prefixes_are_refused() {
    assert!(lp_to_annexb(&[0, 0, 0, 1]).is_none());
    assert!(lp_to_annexb(&[0, 0, 0, 9, 0x41, 0x9a]).is_none());
    // Already Annex-B, however short.
    assert!(lp_to_annexb(&[0, 0, 0, 1, 0x65, 1, 2, 3]).is_none());
    assert!(lp_to_annexb(&[0, 0, 0, 1, 0x65, 1]).is_none());
    // Behind lengths up to three bytes may trail.
    assert_eq!(
        lp_to_annexb(&[0, 0, 0, 2, 0x41, 0x9a, 7, 7, 7]),
        Some(vec![0, 0, 0, 1, 0x41, 0x9a])
    );
    assert_eq!(lp_to_annexb(&[0, 0, 0, 1, 0x41]), Some(vec![0, 0, 0, 1, 0x41]));
}

#[test]
fn idr_detection() {
    let au = [0, 0, 0, 1, 0x65, 1, 2, 3];
    assert!(contains_idr(&au));
    let au = [0, 0, 0, 1, 0x41, 1, 2, 3];
    assert!(!contains_idr(&au));
}

#[test]
fn idr_is_found_behind_other_units_and_short_start_codes() {
    assert!(contains_idr(&[0, 0, 1, 0x67, 9, 0, 0, 1, 0x68, 9, 0, 0, 1, 0x65, 7]));
    assert!(!contains_idr(&[0, 0, 1, 0x67, 9, 0, 0, 1, 0x68, 9]));
    assert!(!contains_idr(&[0x65, 0x65]));
}

#[test]
fn packetizes_single_and_fragmented() {
    let mut seq = 100u16;
    // Single small NAL AU.
    let small = [0, 0, 0, 1, 0x61, 1, 2, 3];
    let pkts = packetize_au(&small, 3000, 7, 1100, &mut seq);
    assert_eq!(pkts.len(), 1);
    assert_eq!(pkts[0][1] & 0x80, 0x80, "marker on last packet of AU");
    assert_eq!(pkts[0][12], 0x61);

    // Fragment a big IDR: FU-A chunks, S/E bits, marker only at end.
    let mut big = vec![0, 0, 0, 1, 0x65];
    big.extend(std::iter::repeat_n(0xa5u8, 5000));
    let pkts = packetize_au(&big, 6000, 7, 1100, &mut seq);
    assert!(pkts.len() >= 5);
    assert_eq!(pkts[0][13] & 0x80, 0x80, "start bit");
    assert_eq!(pkts[pkts.len() - 1][13] & 0x40, 0x40, "end bit on final chunk");
    assert_eq!(pkts[pkts.len() - 1][1] & 0x80, 0x80, "marker");
    for p in &pkts {
        assert!(p.len() <= 1100);
    }
}

#[test]
fn a_packet_is_header_and_unit() {
    let mut seq = 0xfffeu16;
    let au = [0, 0, 1, 0x67, 1, 0, 0, 1, 0x65, 2, 3];
    let pkts = packetize_au(&au, 0x01020304, 0xa0b0c0d0, 1100, &mut seq);
    assert_eq!(
        pkts,
        vec![
            vec![0x80, 0x60, 0xff, 0xfe, 1, 2, 3, 4, 0xa0, 0xb0, 0xc0, 0xd0, 0x67, 1],
            vec![0x80, 0xe0, 0xff, 0xff, 1, 2, 3, 4, 0xa0, 0xb0, 0xc0, 0xd0, 0x65, 2, 3],
        ]
    );
    assert_eq!(seq, 0, "numbers wrap round");
}

#[test]
fn a_unit_of_one_byte_is_sent_whole_whatever_the_mtu() {
    for mtu in 1..20 {
        let mut seq = 7u16;
        let packets = packetize_au(&[0, 0, 1, 0x41, 9, 0, 0, 1, 0x65], 1, 2, mtu, &mut seq);
        let last = packets.last().unwrap();
        assert_eq!(last.len(), 13);
        assert_eq!((last[1], last[12]), (0xe0, 0x65));
        assert!(packets[..packets.len() - 1].iter().all(|p| p[1] == 0x60));
        assert_eq!(packets.len(), 2);
        assert_eq!(seq, 9);
    }
}

#[test]
fn without_room_for_fragments_units_up_to_the_mtu_go_whole() {
    let au = [0, 0, 1, 0x65, 1, 2, 3, 4];
    for mtu in [5, 10, 14] {
        let mut seq = 0u16;
        let packets = packetize_au(&au, 1, 2, mtu, &mut seq);
        assert_eq!(packets.len(), 1);
        assert_eq!(packets[0][1], 0xe0);
        assert_eq!(packets[0][12..], [0x65, 1, 2, 3, 4]);
        assert_eq!(seq, 1);
    }
    // Longer ones go byte by byte.
    let mut seq = 0u16;
    let packets = packetize_au(&au, 1, 2, 4, &mut seq);
    assert_eq!(packets.len(), 4);
    assert!(packets.iter().all(|p| p.len() == 15));
    // With room for fragments the limit is kept.
    let mut seq = 0u16;
    let packets = packetize_au(&au, 1, 2, 16, &mut seq);
    assert_eq!(packets.iter().map(Vec::len).collect::<Vec<_>>(), [16, 16]);
    // No packet is short enough for no byte at all.
    let mut seq = 5u16;
    assert!(packetize_au(&[0, 0, 1, 0x65], 1, 2, 0, &mut seq).is_empty());
    assert_eq!(seq, 5);
}

#[test]
fn parameter_sets_in_front_neither_hide_nor_make_up_a_key_frame() {
    let sets = [0, 0, 0, 1, 0x67, 1, 0, 0, 0, 1, 0x68, 0];
    for (unit, key) in [(0x65u8, true), (0x41, false)] {
        for code in [&[0u8, 0, 1][..], &[0, 0, 0, 1]] {
            let mut au = sets.to_vec();
            au.extend_from_slice(code);
            au.push(unit);
            assert_eq!(contains_idr(&au), key);
        }
    }
    assert!(!contains_idr(&sets));
    // A key frame in front is still there.
    assert!(contains_idr(&[0, 0, 1, 0x65, 0, 0, 0, 0, 1, 0x41]));
}

#[test]
fn a_unit_of_just_the_mtu_is_fragmented() {
    let mut au = vec![0, 0, 0, 1, 0x65];
    au.extend(std::iter::repeat_n(9u8, 99));
    let mut seq = 0;
    // 100 bytes of unit and 12 of header fit 112 bytes, not 111.
    assert_eq!(packetize_au(&au, 0, 0, 112, &mut seq).len(), 1);
    let pkts = packetize_au(&au, 0, 0, 111, &mut seq);
    assert_eq!(pkts.len(), 2);
    assert!(pkts.iter().all(|p| p.len() <= 111));
    assert_eq!(seq, 3);
}

#[test]
fn fragments_give_the_unit_back() {
    let mut nal = vec![0x65u8];
    nal.extend((0..200u8).map(|b| b.wrapping_mul(7) | 1));
    let mut au = vec![0, 0, 0, 1];
    au.extend_from_slice(&nal);
    let mut seq = 7;
    let pkts = packetize_au(&au, 1, 2, 64, &mut seq);
    let mut back = vec![(pkts[0][12] & 0xe0) | (pkts[0][13] & 0x1f)];
    for (k, p) in pkts.iter().enumerate() {
        assert_eq!(u16::from_be_bytes([p[2], p[3]]), 7 + k as u16);
        assert_eq!(p[12] & 0x1f, 28);
        assert_eq!(p[1] & 0x80 != 0, k == pkts.len() - 1);
        assert_eq!(route(p), Route::Video);
        back.extend_from_slice(&p[14..]);
    }
    assert_eq!(back, nal);
}

#[test]
fn an_access_unit_without_units_gives_no_packets() {
    let mut seq = 5;
    assert!(packetize_au(&[1, 2, 3], 0, 0, 1100, &mut seq).is_empty());
    assert_eq!(seq, 5);
}
