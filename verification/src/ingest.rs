//! The way of a datagram from the network to the queue of its medium: every medium has one
//! source, and no packet of it is taken twice.

use vstd::prelude::*;

use crate::media;
use crate::media::{Route, route};
use crate::rtp;

verus! {

/// How far behind the newest number a packet may be and still be taken.
pub const REPLAY_WINDOW: u16 = 128;

/// Numbers that are fewer steps ahead than this are newer.
pub const HALF_RANGE: u16 = 0x8000;

/// How many steps it takes from one packet number to another, modulo 2^16.
pub open spec fn steps(from: int, to: int) -> int {
    (to - from) % 65536
}

fn count_steps(from: u16, to: u16) -> (r: u16)
    ensures
        r == steps(from as int, to as int),
{
    to.wrapping_sub(from)
}

/// What has been taken of a medium.
struct Track {
    ssrc: u32,
    newest: u16,
    taken: Vec<u16>,
}

/// The view of a `Track`: its source, the newest number, and the numbers in the replay
/// window that were taken.
#[verifier::ext_equal]
pub struct TrackModel {
    pub ssrc: int,
    pub newest: int,
    pub taken: Set<int>,
}

impl View for Track {
    type V = TrackModel;

    closed spec fn view(&self) -> TrackModel {
        TrackModel {
            ssrc: self.ssrc as int,
            newest: self.newest as int,
            taken: Set::new(|n: int| listed(self.taken@, n)),
        }
    }
}

/// Whether a number stands in a list.
spec fn listed(list: Seq<u16>, n: int) -> bool {
    exists|i: int| 0 <= i < list.len() && #[trigger] list[i] == n
}

/// Whether a packet number is newer than another.
pub open spec fn newer(newest: int, seq: int) -> bool {
    0 < steps(newest, seq) < HALF_RANGE
}

/// Whether a packet is taken: the first of a medium always; later ones if they come from
/// the same source and are newer than all before, or have not been taken and are not too
/// old.
pub open spec fn takes(track: Option<TrackModel>, ssrc: int, seq: int) -> bool {
    match track {
        None => true,
        Some(t) => ssrc == t.ssrc && (newer(t.newest, seq) || (steps(seq, t.newest)
            < REPLAY_WINDOW && !t.taken.contains(seq))),
    }
}

/// The newest number once a packet was taken.
pub open spec fn newest_with(newest: int, seq: int) -> int {
    if newer(newest, seq) {
        seq
    } else {
        newest
    }
}

/// The track of a medium once a packet was taken.
pub open spec fn track_with(track: Option<TrackModel>, ssrc: int, seq: int) -> TrackModel {
    match track {
        None => TrackModel { ssrc, newest: seq, taken: set![seq] },
        Some(t) => TrackModel {
            ssrc: t.ssrc,
            newest: newest_with(t.newest, seq),
            taken: Set::new(
                |n: int|
                    (n == seq || t.taken.contains(n)) && steps(n, newest_with(t.newest, seq))
                        < REPLAY_WINDOW,
            ),
        },
    }
}

fn contains(list: &[u16], n: u16) -> (r: bool)
    ensures
        r == listed(list@, n as int),
{
    let mut i: usize = 0;
    while i < list.len()
        invariant
            i <= list@.len(),
            forall|k: int| 0 <= k < i ==> list@[k] != n,
        decreases list.len() - i,
    {
        if list[i] == n {
            return true;
        }
        i = i + 1;
    }
    false
}

impl Track {
    fn first(ssrc: u32, seq: u16) -> (r: Track)
        ensures
            r@ == track_with(None, ssrc as int, seq as int),
    {
        let mut taken: Vec<u16> = Vec::new();
        taken.push(seq);
        let r = Track { ssrc, newest: seq, taken };
        proof {
            assert(taken@[0] == seq);
            assert(r@.taken =~= set![seq as int]);
        }
        r
    }

    fn takes(&self, ssrc: u32, seq: u16) -> (r: bool)
        ensures
            r == takes(Some(self@), ssrc as int, seq as int),
    {
        let ahead: u16 = count_steps(self.newest, seq);
        ssrc == self.ssrc && ((0 < ahead && ahead < HALF_RANGE) || (count_steps(seq, self.newest)
            < REPLAY_WINDOW && !contains(self.taken.as_slice(), seq)))
    }

    fn with(self, seq: u16) -> (r: Track)
        ensures
            r@ == track_with(Some(self@), self@.ssrc, seq as int),
    {
        let ahead: u16 = count_steps(self.newest, seq);
        let newest: u16 = if 0 < ahead && ahead < HALF_RANGE {
            seq
        } else {
            self.newest
        };
        let mut taken: Vec<u16> = Vec::new();
        let mut i: usize = 0;
        while i < self.taken.len()
            invariant
                i <= self.taken@.len(),
                forall|n: int|
                    #![trigger listed(taken@, n)]
                    listed(taken@, n) <==> listed(self.taken@.take(i as int), n) && steps(
                        n,
                        newest as int,
                    ) < REPLAY_WINDOW,
            decreases self.taken.len() - i,
        {
            let n: u16 = self.taken[i];
            let ghost before = taken@;
            if count_steps(n, newest) < REPLAY_WINDOW {
                taken.push(n);
                proof {
                    lemma_listed_push(before, n);
                }
            }
            i = i + 1;
            proof {
                assert(self.taken@.take(i as int) =~= self.taken@.take(i - 1).push(n));
                lemma_listed_push(self.taken@.take(i - 1), n);
            }
        }
        let ghost kept = taken@;
        proof {
            assert(self.taken@.take(i as int) =~= self.taken@);
        }
        if count_steps(seq, newest) < REPLAY_WINDOW {
            taken.push(seq);
            proof {
                lemma_listed_push(kept, seq);
            }
        }
        let r = Track { ssrc: self.ssrc, newest, taken };
        proof {
            assert(r@.taken =~= track_with(Some(self@), self@.ssrc, seq as int).taken);
        }
        r
    }
}

proof fn lemma_listed_push(list: Seq<u16>, x: u16)
    ensures
        forall|n: int| #[trigger] listed(list.push(x), n) <==> n == x || listed(list, n),
{
    assert forall|n: int| #[trigger] listed(list.push(x), n) <==> n == x || listed(list, n) by {
        if n == x {
            assert(list.push(x)[list.len() as int] == n);
        }
        if listed(list, n) {
            let i = choose|i: int| 0 <= i < list.len() && #[trigger] list[i] == n;
            assert(list.push(x)[i] == n);
        }
        if listed(list.push(x), n) && n != x {
            let i = choose|i: int| 0 <= i < list.len() + 1 && #[trigger] list.push(x)[i] == n;
            assert(list[i] == n);
        }
    }
}

/// Splits the datagrams of a connection into the queues of their media.
pub struct Ingest {
    video: Option<Track>,
    audio: Option<Track>,
}

/// The view of an `Ingest`.
#[verifier::ext_equal]
pub struct IngestModel {
    pub video: Option<TrackModel>,
    pub audio: Option<TrackModel>,
}

impl View for Ingest {
    type V = IngestModel;

    closed spec fn view(&self) -> IngestModel {
        IngestModel { video: track_view(self.video), audio: track_view(self.audio) }
    }
}

spec fn track_view(t: Option<Track>) -> Option<TrackModel> {
    match t {
        None => None,
        Some(t) => Some(t@),
    }
}

/// Where a datagram goes, and what is known of the media then. What `route_of` drops, and
/// what comes from another source, came before or is too old, goes nowhere and leaves
/// everything as it is.
pub open spec fn taken(state: IngestModel, packet: Seq<u8>) -> (Route, IngestModel) {
    let ssrc = rtp::be32_at(packet, 8);
    let seq = rtp::be16_at(packet, 2);
    match media::route_of(packet) {
        Route::Video => if takes(state.video, ssrc, seq) {
            (
                Route::Video,
                IngestModel { video: Some(track_with(state.video, ssrc, seq)), ..state },
            )
        } else {
            (Route::Drop, state)
        },
        Route::Audio => if takes(state.audio, ssrc, seq) {
            (
                Route::Audio,
                IngestModel { audio: Some(track_with(state.audio, ssrc, seq)), ..state },
            )
        } else {
            (Route::Drop, state)
        },
        Route::Drop => (Route::Drop, state),
    }
}

/// Takes a packet for a medium. Tells whether it was taken.
fn take_for(slot: &mut Option<Track>, ssrc: u32, seq: u16) -> (r: bool)
    ensures
        r == takes(track_view(*old(slot)), ssrc as int, seq as int),
        track_view(*final(slot)) == (if r {
            Some(track_with(track_view(*old(slot)), ssrc as int, seq as int))
        } else {
            track_view(*old(slot))
        }),
{
    match slot.take() {
        None => {
            *slot = Some(Track::first(ssrc, seq));
            true
        },
        Some(track) => {
            if track.takes(ssrc, seq) {
                *slot = Some(track.with(seq));
                true
            } else {
                *slot = Some(track);
                false
            }
        },
    }
}

impl Ingest {
    /// Nothing has been taken yet.
    pub fn new() -> (r: Ingest)
        ensures
            r@ == (IngestModel { video: None, audio: None }),
    {
        Ingest { video: None, audio: None }
    }

    /// A datagram came in. Tells where it goes.
    pub fn take(&mut self, packet: &[u8]) -> (r: Route)
        ensures
            (r, final(self)@) == taken(old(self)@, packet@),
    {
        let to = route(packet);
        match to {
            Route::Drop => {
                return Route::Drop;
            },
            _ => {},
        }
        let seq: u16 = packet[2] as u16 * 256 + packet[3] as u16;
        let ssrc: u32 = packet[8] as u32 * 16777216 + packet[9] as u32 * 65536 + packet[10] as u32
            * 256 + packet[11] as u32;
        let fresh: bool = match to {
            Route::Video => take_for(&mut self.video, ssrc, seq),
            _ => take_for(&mut self.audio, ssrc, seq),
        };
        if fresh {
            to
        } else {
            Route::Drop
        }
    }
}

/// A packet that was taken is not taken again right after, nor one with its number.
pub proof fn law_packets_are_taken_once(state: IngestModel, first: Seq<u8>, second: Seq<u8>)
    requires
        media::route_of(second) == media::route_of(first),
        rtp::be16_at(second, 2) == rtp::be16_at(first, 2),
    ensures
        taken(taken(state, first).1, second).0 is Drop || taken(state, first).0 is Drop,
        taken(state, first).0 is Drop ==> taken(state, first).1 == state,
{
    let seq = rtp::be16_at(first, 2);
    assert(steps(seq, seq) == 0);
}

/// A number that is refused stays refused while packets come in, until the newest number is
/// half the range ahead of it.
pub proof fn law_refused_numbers_stay_refused(t: TrackModel, seq: int, next: int)
    requires
        0 <= t.newest < 65536,
        0 <= seq < 65536,
        0 <= next < 65536,
        !takes(Some(t), t.ssrc, seq),
        takes(Some(t), t.ssrc, next),
        newer(t.newest, next) ==> steps(seq, t.newest) + steps(t.newest, next) <= HALF_RANGE,
    ensures
        !takes(Some(track_with(Some(t), t.ssrc, next)), t.ssrc, seq),
{
    let after = track_with(Some(t), t.ssrc, next);
    let a = steps(seq, t.newest);
    let d = steps(t.newest, next);
    if newer(t.newest, next) {
        assert(steps(seq, next) == a + d);
        assert(steps(next, seq) == 65536 - (a + d));
    }
}

/// Only one source is heard per medium: what comes from another goes nowhere.
pub proof fn law_one_source_per_medium(state: IngestModel, packet: Seq<u8>)
    ensures
        media::route_of(packet) is Video && (state.video matches Some(t) && t.ssrc != rtp::be32_at(
            packet,
            8,
        )) ==> taken(state, packet) == (Route::Drop, state),
        media::route_of(packet) is Audio && (state.audio matches Some(t) && t.ssrc != rtp::be32_at(
            packet,
            8,
        )) ==> taken(state, packet) == (Route::Drop, state),
{
}

proof fn lemma_next_is_newer(seq: int, k: int)
    ensures
        newer(rtp::seq_after(seq, k), rtp::seq_after(seq, k + 1)),
{
    let a = (seq + k) % 65536;
    let b = (seq + k + 1) % 65536;
    assert(b == a + 1 || (a == 65535 && b == 0));
    assert((b - a) % 65536 == 1);
}

proof fn lemma_be32_back(x: int)
    requires
        0 <= x < 4294967296,
    ensures
        rtp::be32_at(rtp::be32(x), 0) == x,
{
    assert(x == x / 16777216 * 16777216 + x / 65536 % 256 * 65536 + x / 256 % 256 * 256 + x % 256);
}

/// The packets of an access unit are all taken when they come in order: each goes to the
/// video queue where the one before it is the newest.
pub proof fn law_packets_in_order_are_taken(
    state: IngestModel,
    units: Seq<Seq<u8>>,
    st: rtp::Stream,
    seq: int,
    k: int,
)
    requires
        forall|j: int| 0 <= j < units.len() ==> (#[trigger] units[j]).len() > 0,
        rtp::FU_OVERHEAD < st.mtu <= media::MAX_DGRAM_LEN,
        0 <= st.ssrc < 4294967296,
        0 <= seq < 65536,
        0 <= k < rtp::au_packets(units, st, seq).len(),
        k == 0 ==> state.video is None || newer(state.video->0.newest, seq),
        k > 0 ==> state.video is Some && state.video->0.newest == rtp::seq_after(seq, k - 1),
        state.video matches Some(t) ==> t.ssrc == st.ssrc,
    ensures
        ({
            let (to, after) = taken(state, rtp::au_packets(units, st, seq)[k]);
            &&& to is Video
            &&& after.video matches Some(t)
            &&& t.ssrc == st.ssrc
            &&& t.newest == rtp::seq_after(seq, k)
            &&& after.audio == state.audio
        }),
{
    let packet = rtp::au_packets(units, st, seq)[k];
    assert(rtp::be32_at(packet, 8) == st.ssrc && rtp::be16_at(packet, 2) == rtp::seq_after(seq, k)
        && media::route_of(packet) is Video) by {
        rtp::law_packets_are_numbered_marked_and_fit(units, st, seq, k);
        media::law_sent_packets_are_routed_to_video(units, st, seq, k);
        lemma_be32_back(st.ssrc);
        let source = packet.subrange(8, 12);
        assert(source == rtp::be32(st.ssrc));
        assert(source[0] == packet[8] && source[1] == packet[9] && source[2] == packet[10]
            && source[3] == packet[11]);
    }
    lemma_next_is_newer(seq, k - 1);
    assert(rtp::seq_after(seq, 0) == seq);
}

/// Whether all of some packets go to the video queue when they come one after the other, and
/// what is known of the media then.
pub open spec fn run(state: IngestModel, packets: Seq<Seq<u8>>) -> (bool, IngestModel)
    decreases packets.len(),
{
    if packets.len() == 0 {
        (true, state)
    } else {
        let (to, after) = taken(state, packets[0]);
        let rest = run(after, packets.drop_first());
        (to is Video && rest.0, rest.1)
    }
}

proof fn lemma_run_joined(state: IngestModel, a: Seq<Seq<u8>>, b: Seq<Seq<u8>>)
    ensures
        run(state, a + b).0 == (run(state, a).0 && run(run(state, a).1, b).0),
        run(state, a + b).1 == run(run(state, a).1, b).1,
    decreases a.len(),
{
    if a.len() == 0 {
        assert(a + b =~= b);
    } else {
        assert((a + b).drop_first() =~= a.drop_first() + b);
        lemma_run_joined(taken(state, a[0]).1, a.drop_first(), b);
    }
}

/// Whether a packet of a source with a number would be newer than all that came before.
pub open spec fn expects(state: IngestModel, ssrc: int, seq: int) -> bool {
    state.video matches Some(t) ==> t.ssrc == ssrc && newer(t.newest, seq)
}

proof fn lemma_unit_is_taken(
    state: IngestModel,
    units: Seq<Seq<u8>>,
    st: rtp::Stream,
    seq: int,
    k: int,
)
    requires
        forall|j: int| 0 <= j < units.len() ==> (#[trigger] units[j]).len() > 0,
        rtp::FU_OVERHEAD < st.mtu <= media::MAX_DGRAM_LEN,
        0 <= st.ssrc < 4294967296,
        0 <= seq < 65536,
        0 <= k <= rtp::au_packets(units, st, seq).len(),
        k == 0 ==> expects(state, st.ssrc, seq),
        k > 0 ==> (state.video matches Some(t) && t.ssrc == st.ssrc && t.newest == rtp::seq_after(
            seq,
            k - 1,
        )),
    ensures
        ({
            let packets = rtp::au_packets(units, st, seq);
            let (all, after) = run(state, packets.skip(k));
            &&& all
            &&& packets.len() == 0 ==> after == state
            &&& packets.len() > 0 ==> (after.video matches Some(t) && t.ssrc == st.ssrc && t.newest
                == rtp::seq_after(seq, packets.len() - 1))
        }),
    decreases rtp::au_packets(units, st, seq).len() - k,
{
    let packets = rtp::au_packets(units, st, seq);
    let left = packets.skip(k);
    if k < packets.len() {
        law_packets_in_order_are_taken(state, units, st, seq, k);
        assert(left[0] == packets[k]);
        assert(left.drop_first() =~= packets.skip(k + 1));
        lemma_unit_is_taken(taken(state, packets[k]).1, units, st, seq, k + 1);
    }
}

proof fn lemma_stride_is_newer(seq: int, n: int)
    requires
        0 <= seq < 65536,
        0 < n <= crate::cast::SEQ_STRIDE,
    ensures
        newer(rtp::seq_after(seq, n - 1), rtp::seq_after(seq, crate::cast::SEQ_STRIDE as int)),
{
    let from = (seq + n - 1) % 65536;
    let to = (seq + 256) % 65536;
    assert(from == seq + n - 1 || from == seq + n - 1 - 65536);
    assert(to == seq + 256 || to == seq + 256 - 65536);
    assert((to - from) % 65536 == 257 - n);
}

/// The packets of two access units, one sent after the other, are all taken when they come in
/// order and the first unit has no more packets than its numbers are apart from those of the
/// second. What comes after them is expected in the same way, so this goes on from unit to
/// unit.
pub proof fn law_successive_units_are_taken(
    state: IngestModel,
    first: Seq<Seq<u8>>,
    second: Seq<Seq<u8>>,
    st: rtp::Stream,
    later: rtp::Stream,
    seq: int,
)
    requires
        forall|j: int| 0 <= j < first.len() ==> (#[trigger] first[j]).len() > 0,
        forall|j: int| 0 <= j < second.len() ==> (#[trigger] second[j]).len() > 0,
        rtp::FU_OVERHEAD < st.mtu <= media::MAX_DGRAM_LEN,
        rtp::FU_OVERHEAD < later.mtu <= media::MAX_DGRAM_LEN,
        0 <= st.ssrc < 4294967296,
        later.ssrc == st.ssrc,
        0 <= seq < 65536,
        0 < rtp::au_packets(first, st, seq).len() <= crate::cast::SEQ_STRIDE,
        expects(state, st.ssrc, seq),
    ensures
        ({
            let next = rtp::seq_after(seq, crate::cast::SEQ_STRIDE as int);
            let a = rtp::au_packets(first, st, seq);
            let b = rtp::au_packets(second, later, next);
            &&& run(state, a).0
            &&& expects(run(state, a).1, st.ssrc, next)
            &&& run(state, a + b).0
        }),
{
    let next = rtp::seq_after(seq, crate::cast::SEQ_STRIDE as int);
    let a = rtp::au_packets(first, st, seq);
    let b = rtp::au_packets(second, later, next);
    let n = a.len() as int;
    lemma_unit_is_taken(state, first, st, seq, 0);
    assert(a.skip(0) =~= a);
    let mid = run(state, a).1;
    lemma_stride_is_newer(seq, n);
    lemma_unit_is_taken(mid, second, later, next, 0);
    assert(b.skip(0) =~= b);
    lemma_run_joined(state, a, b);
}

/// What becomes of a packet of a medium, byte by byte. Of a medium of which nothing was taken
/// yet every packet is taken. Later the source has to be the same, and the number newer than
/// all before, by up to 32767 steps, or one that was not taken, less than 128 steps behind.
pub proof fn law_what_is_taken_of_a_medium(state: IngestModel, packet: Seq<u8>)
    requires
        12 <= packet.len() <= 1500,
        packet[1] % 128 == 96 || packet[1] % 128 == 97,
    ensures
        ({
            let seq = packet[2] * 256 + packet[3];
            let ssrc = packet[8] * 16777216 + packet[9] * 65536 + packet[10] * 256 + packet[11];
            let video = packet[1] % 128 == 96;
            let track = if video {
                state.video
            } else {
                state.audio
            };
            let fresh = match track {
                None => true,
                Some(t) => t.ssrc == ssrc && (1 <= (seq - t.newest) % 65536 <= 32767 || ((t.newest
                    - seq) % 65536 < 128 && !t.taken.contains(seq))),
            };
            let (to, after) = taken(state, packet);
            &&& to == (if !fresh {
                Route::Drop
            } else if video {
                Route::Video
            } else {
                Route::Audio
            })
            &&& !fresh ==> after == state
            &&& video ==> after.audio == state.audio
            &&& !video ==> after.video == state.video
        }),
{
}

/// Audio and video alike are taken in order: a packet of its medium, of any length from 12 to
/// 1500 bytes, goes to the queue of the medium where it is the first, or comes from the same
/// source and is newer than all before. It is the newest then, and only itself and what was
/// taken less than 128 steps before it counts as taken.
pub proof fn law_newer_packets_are_taken(state: IngestModel, packet: Seq<u8>, n: int)
    requires
        12 <= packet.len() <= 1500,
        packet[1] % 128 == 96 || packet[1] % 128 == 97,
        ({
            let seq = packet[2] * 256 + packet[3];
            let ssrc = packet[8] * 16777216 + packet[9] * 65536 + packet[10] * 256 + packet[11];
            let track = if packet[1] % 128 == 96 {
                state.video
            } else {
                state.audio
            };
            track matches Some(t) ==> t.ssrc == ssrc && 1 <= (seq - t.newest) % 65536 <= 32767
        }),
    ensures
        ({
            let seq = packet[2] * 256 + packet[3];
            let ssrc = packet[8] * 16777216 + packet[9] * 65536 + packet[10] * 256 + packet[11];
            let video = packet[1] % 128 == 96;
            let before = if video {
                state.video
            } else {
                state.audio
            };
            let (to, after) = taken(state, packet);
            let track = if video {
                after.video
            } else {
                after.audio
            };
            &&& to == (if video {
                Route::Video
            } else {
                Route::Audio
            })
            &&& track matches Some(t)
            &&& t.ssrc == ssrc
            &&& t.newest == seq
            &&& t.taken.contains(n) <==> n == seq || (before matches Some(b) && b.taken.contains(n)
                && (seq - n) % 65536 < 128)
        }),
{
}

/// A late packet that is taken leaves the newest as it is, and counts as taken from then on.
pub proof fn law_late_packets_are_noted(state: IngestModel, packet: Seq<u8>, n: int)
    requires
        12 <= packet.len() <= 1500,
        packet[1] % 128 == 96 || packet[1] % 128 == 97,
        ({
            let seq = packet[2] * 256 + packet[3];
            let ssrc = packet[8] * 16777216 + packet[9] * 65536 + packet[10] * 256 + packet[11];
            let track = if packet[1] % 128 == 96 {
                state.video
            } else {
                state.audio
            };
            track matches Some(t) && t.ssrc == ssrc && (t.newest - seq) % 65536 < 128
                && !t.taken.contains(seq) && t.taken.contains(t.newest)
        }),
    ensures
        ({
            let seq = packet[2] * 256 + packet[3];
            let video = packet[1] % 128 == 96;
            let before = if video {
                state.video->0
            } else {
                state.audio->0
            };
            let after = if video {
                taken(state, packet).1.video->0
            } else {
                taken(state, packet).1.audio->0
            };
            &&& taken(state, packet).0 !is Drop
            &&& after.ssrc == before.ssrc
            &&& after.newest == before.newest
            &&& after.taken.contains(n) <==> n == seq || (before.taken.contains(n) && (before.newest
                - n) % 65536 < 128)
        }),
{
    let seq = packet[2] * 256 + packet[3];
    let t = if packet[1] % 128 == 96 {
        state.video->0
    } else {
        state.audio->0
    };
    let behind = (t.newest - seq) % 65536;
    assert((seq - t.newest) % 65536 == (if behind == 0 {
        0
    } else {
        65536 - behind
    }));
}

} // verus!
