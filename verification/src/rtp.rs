//! H.264 → RTP (RFC 6184) packetization plus MediaCodec output conversions.

use vstd::prelude::*;
use vstd::slice::slice_subrange;

verus! {

/// Bytes of the fixed RTP header.
pub const RTP_HEADER_LEN: usize = 12;

/// Bytes that precede the fragment in a fragmentation unit: the RTP header, the
/// FU indicator and the FU header.
pub const FU_OVERHEAD: usize = 14;

/// The Annex-B start code written in front of every NAL unit.
pub open spec fn start_code() -> Seq<u8> {
    seq![0u8, 0u8, 0u8, 1u8]
}

/// NAL units as an Annex-B byte stream.
pub open spec fn annexb(units: Seq<Seq<u8>>) -> Seq<u8>
    decreases units.len(),
{
    if units.len() == 0 {
        Seq::empty()
    } else {
        annexb(units.drop_last()) + start_code() + units.last()
    }
}

/// The big-endian 16-bit number at `b[i]`.
pub open spec fn be16_at(b: Seq<u8>, i: int) -> int {
    b[i] * 256 + b[i + 1]
}

/// The big-endian 32-bit number at `b[i]`.
pub open spec fn be32_at(b: Seq<u8>, i: int) -> int {
    b[i] * 16777216 + b[i + 1] * 65536 + b[i + 2] * 256 + b[i + 3]
}

/// What a run of `count` units, each behind a 16-bit length, holds.
pub struct UnitRun {
    /// The units that are there in full.
    pub units: Seq<Seq<u8>>,
    /// Where the run ends.
    pub end: int,
    /// Whether all `count` units are there.
    pub complete: bool,
}

/// Reads `count` units, each behind a 16-bit length, from `b[i]` on.
pub open spec fn unit_run(b: Seq<u8>, i: int, count: nat) -> UnitRun
    decreases count,
{
    if count == 0 {
        UnitRun { units: Seq::empty(), end: i, complete: true }
    } else {
        let before = unit_run(b, i, (count - 1) as nat);
        if !before.complete || before.end + 2 > b.len() || before.end + 2 + be16_at(b, before.end)
            > b.len() {
            UnitRun { units: before.units, end: before.end, complete: false }
        } else {
            let start = before.end + 2;
            let end = start + be16_at(b, before.end);
            UnitRun { units: before.units.push(b.subrange(start, end)), end, complete: true }
        }
    }
}

/// The parameter sets of an `avcC` record: the sequence parameter sets, all of
/// which must be there, then as many picture parameter sets as are there.
pub open spec fn avcc_units(csd: Seq<u8>) -> Option<Seq<Seq<u8>>> {
    if csd.len() < 8 || csd[0] != 1 {
        None
    } else {
        let sps = unit_run(csd, 6, (csd[5] % 32) as nat);
        if !sps.complete {
            None
        } else if sps.end >= csd.len() {
            Some(sps.units)
        } else {
            Some(sps.units + unit_run(csd, sps.end + 1, csd[sps.end] as nat).units)
        }
    }
}

/// The Annex-B form of an `avcC` record, where it holds a parameter set at all.
pub open spec fn avcc_annexb(csd: Seq<u8>) -> Option<Seq<u8>> {
    match avcc_units(csd) {
        Some(units) => if units.len() == 0 {
            None
        } else {
            Some(annexb(units))
        },
        None => None,
    }
}

/// The units of a buffer in which each stands behind a 32-bit length, from `i`
/// on; `None` where a length is zero or runs past the end. Up to three bytes that
/// cannot hold a length may trail.
pub open spec fn prefixed_units(b: Seq<u8>, i: int) -> Option<Seq<Seq<u8>>>
    decreases b.len() - i,
{
    if i + 4 > b.len() {
        Some(Seq::empty())
    } else {
        let len = be32_at(b, i);
        if len <= 0 || i + 4 + len > b.len() {
            None
        } else {
            match prefixed_units(b, i + 4 + len) {
                Some(rest) => Some(seq![b.subrange(i + 4, i + 4 + len)] + rest),
                None => None,
            }
        }
    }
}

/// Whether a buffer opens with a start code, of three or of four bytes.
pub open spec fn opens_with_code(buf: Seq<u8>) -> bool {
    code_at(buf, 0) || (buf.len() > 0 && buf[0] == 0 && code_at(buf, 1))
}

/// The Annex-B form of a length-prefixed access unit; `None` where no lengths can be
/// followed. A buffer that opens with a start code is taken as Annex-B already, unless its
/// lengths lead to the very end.
pub open spec fn lp_annexb(buf: Seq<u8>) -> Option<Seq<u8>> {
    if buf.len() < 5 {
        None
    } else {
        match prefixed_units(buf, 0) {
            Some(units) => if opens_with_code(buf) && annexb(units).len() < buf.len() {
                None
            } else {
                Some(annexb(units))
            },
            None => None,
        }
    }
}

/// Whether a start code prefix, two zeros and a one, stands at `au[p]`.
pub open spec fn code_at(au: Seq<u8>, p: int) -> bool {
    0 <= p && p + 2 < au.len() && au[p] == 0 && au[p + 1] == 0 && au[p + 2] == 1
}

/// All places from `i` on at which a start code prefix stands, in order.
pub open spec fn code_places(au: Seq<u8>, i: int) -> Seq<int>
    decreases au.len() - i,
{
    if i + 2 >= au.len() {
        Seq::empty()
    } else if code_at(au, i) {
        seq![i] + code_places(au, i + 1)
    } else {
        code_places(au, i + 1)
    }
}

/// Where the run of zeros that leads up to `p` begins.
pub open spec fn zeros_start(au: Seq<u8>, p: int) -> int
    decreases p,
{
    if p > 0 && au[p - 1] == 0 {
        zeros_start(au, p - 1)
    } else {
        p
    }
}

/// The NAL units behind the start codes at `places`: each reaches up to the zeros
/// of the next start code, the last one up to the end. Empty ones are left out.
pub open spec fn units_at(au: Seq<u8>, places: Seq<int>) -> Seq<Seq<u8>>
    decreases places.len(),
{
    if places.len() == 0 {
        Seq::empty()
    } else {
        let start = places[0] + 3;
        let end = if places.len() > 1 {
            zeros_start(au, places[1])
        } else {
            au.len() as int
        };
        let rest = units_at(au, places.drop_first());
        if end > start {
            seq![au.subrange(start, end)] + rest
        } else {
            rest
        }
    }
}

/// The NAL units of an Annex-B access unit.
pub open spec fn nal_units(au: Seq<u8>) -> Seq<Seq<u8>> {
    units_at(au, code_places(au, 0))
}

/// The type of a NAL unit: the low five bits of its first byte.
pub open spec fn nal_type(nal: Seq<u8>) -> int {
    (nal[0] % 32) as int
}

/// The views of a list of byte vectors.
pub open spec fn byte_views(v: Seq<Vec<u8>>) -> Seq<Seq<u8>> {
    Seq::new(v.len(), |i: int| v[i]@)
}

proof fn lemma_annexb_push(units: Seq<Seq<u8>>, u: Seq<u8>)
    ensures
        annexb(units.push(u)) == annexb(units) + start_code() + u,
{
    assert(units.push(u).drop_last() =~= units);
}

proof fn lemma_annexb_len(units: Seq<Seq<u8>>)
    ensures
        annexb(units).len() >= 4 * units.len(),
    decreases units.len(),
{
    if units.len() > 0 {
        lemma_annexb_len(units.drop_last());
    }
}

proof fn lemma_annexb_add(a: Seq<Seq<u8>>, b: Seq<Seq<u8>>)
    ensures
        annexb(a + b) == annexb(a) + annexb(b),
    decreases b.len(),
{
    if b.len() == 0 {
        assert(a + b =~= a);
        assert(annexb(a) + annexb(b) =~= annexb(a));
    } else {
        lemma_annexb_add(a, b.drop_last());
        assert((a + b).drop_last() =~= a + b.drop_last());
        assert((a + b).last() == b.last());
        assert(annexb(a + b) =~= annexb(a) + annexb(b));
    }
}

/// Once a run is cut short, it stays as it is however many units are asked for.
proof fn lemma_run_stuck(b: Seq<u8>, i: int, n: nat, m: nat)
    requires
        n <= m,
        !unit_run(b, i, n).complete,
    ensures
        unit_run(b, i, m) == unit_run(b, i, n),
    decreases m - n,
{
    if n < m {
        lemma_run_stuck(b, i, n, (m - 1) as nat);
    }
}

/// Appends a start code and `csd[start..end]`.
fn push_unit(out: &mut Vec<u8>, b: &[u8], start: usize, end: usize)
    requires
        start <= end <= b@.len(),
    ensures
        final(out)@ == old(out)@ + start_code() + b@.subrange(start as int, end as int),
{
    out.push(0);
    out.push(0);
    out.push(0);
    out.push(1);
    let ghost before = out@;
    assert(before =~= old(out)@ + start_code());
    out.extend_from_slice(slice_subrange(b, start, end));
    assert(out@ =~= before + b@.subrange(start as int, end as int));
}

/// Parse an `avcC` record (MediaCodec csd-0) and return SPS/PPS as Annex-B.
pub fn avcc_to_annexb(csd: &[u8]) -> (r: Option<Vec<u8>>)
    ensures
        r matches Some(out) ==> avcc_annexb(csd@) == Some(out@),
        r is None <==> avcc_annexb(csd@) is None,
{
    if csd.len() < 8 || csd[0] != 1 {
        return None;
    }
    let ghost b = csd@;
    let num_sps: u8 = csd[5] % 32;
    let mut out: Vec<u8> = Vec::new();
    let mut i: usize = 6;
    let mut k: u8 = 0;
    while k < num_sps
        invariant
            b == csd@,
            b.len() >= 8,
            b[0] == 1,
            num_sps == b[5] % 32,
            k <= num_sps,
            i <= csd@.len(),
            unit_run(b, 6, k as nat).complete,
            unit_run(b, 6, k as nat).end == i,
            out@ == annexb(unit_run(b, 6, k as nat).units),
        decreases num_sps - k,
    {
        proof {
            if !unit_run(b, 6, (k + 1) as nat).complete {
                lemma_run_stuck(b, 6, (k + 1) as nat, num_sps as nat);
            }
        }
        if csd.len() - i < 2 {
            return None;
        }
        let len: usize = csd[i] as usize * 256 + csd[i + 1] as usize;
        i = i + 2;
        if len > csd.len() - i {
            return None;
        }
        push_unit(&mut out, csd, i, i + len);
        proof {
            lemma_annexb_push(
                unit_run(b, 6, k as nat).units,
                b.subrange(i as int, i + len),
            );
        }
        i = i + len;
        k = k + 1;
    }
    let ghost sps = unit_run(b, 6, num_sps as nat);
    proof {
        lemma_annexb_len(sps.units);
    }
    if i >= csd.len() {
        return if out.len() == 0 {
            None
        } else {
            Some(out)
        };
    }
    let ghost first = i + 1;
    let num_pps: u8 = csd[i];
    i = i + 1;
    let mut n: u8 = 0;
    while n < num_pps
        invariant_except_break
            unit_run(b, first, n as nat).complete,
            unit_run(b, first, n as nat).end == i,
            out@ == annexb(sps.units) + annexb(unit_run(b, first, n as nat).units),
        invariant
            b == csd@,
            n <= num_pps,
            i <= csd@.len(),
        ensures
            out@ == annexb(sps.units) + annexb(unit_run(b, first, num_pps as nat).units),
        decreases num_pps - n,
    {
        proof {
            if !unit_run(b, first, (n + 1) as nat).complete {
                lemma_run_stuck(b, first, (n + 1) as nat, num_pps as nat);
            }
        }
        if csd.len() - i < 2 {
            break;
        }
        let len: usize = csd[i] as usize * 256 + csd[i + 1] as usize;
        i = i + 2;
        if len > csd.len() - i {
            break;
        }
        let ghost before = out@;
        push_unit(&mut out, csd, i, i + len);
        proof {
            let run = unit_run(b, first, n as nat);
            lemma_annexb_push(run.units, b.subrange(i as int, i + len));
            assert(out@ =~= annexb(sps.units) + annexb(
                run.units.push(b.subrange(i as int, i + len)),
            ));
        }
        i = i + len;
        n = n + 1;
    }
    proof {
        let pps = unit_run(b, first, num_pps as nat);
        lemma_annexb_add(sps.units, pps.units);
        lemma_annexb_len(sps.units + pps.units);
    }
    if out.len() == 0 {
        None
    } else {
        Some(out)
    }
}

/// Convert one MediaCodec length-prefixed access unit to Annex-B.
/// Returns `None` when the buffer is already Annex-B (no valid 4-byte
/// length framing could be walked).
pub fn lp_to_annexb(buf: &[u8]) -> (r: Option<Vec<u8>>)
    ensures
        r matches Some(out) ==> lp_annexb(buf@) == Some(out@),
        r is None <==> lp_annexb(buf@) is None,
{
    if buf.len() < 5 {
        return None;
    }
    let ghost b = buf@;
    let mut out: Vec<u8> = Vec::new();
    let mut i: usize = 0;
    let ghost mut done: Seq<Seq<u8>> = Seq::empty();
    while buf.len() - i >= 4
        invariant
            b == buf@,
            b.len() >= 5,
            i <= b.len(),
            out@ == annexb(done),
            out@.len() == i,
            prefixed_units(b, 0) is None <==> prefixed_units(b, i as int) is None,
            prefixed_units(b, i as int) matches Some(rest) ==> prefixed_units(b, 0) == Some(
                done + rest,
            ),
        decreases buf.len() - i,
    {
        let len: u32 = buf[i] as u32 * 16777216 + buf[i + 1] as u32 * 65536 + buf[i + 2] as u32
            * 256 + buf[i + 3] as u32;
        if len == 0 || len as u64 > (buf.len() - i - 4) as u64 {
            return None;
        }
        let n: usize = len as usize;
        let start: usize = i + 4;
        push_unit(&mut out, buf, start, start + n);
        proof {
            let unit = b.subrange(start as int, start + n);
            lemma_annexb_push(done, unit);
            match prefixed_units(b, start + n) {
                Some(rest) => {
                    assert(done + (seq![unit] + rest) =~= done.push(unit) + rest);
                },
                None => {},
            }
            done = done.push(unit);
        }
        i = start + n;
    }
    proof {
        assert(done + Seq::<Seq<u8>>::empty() =~= done);
    }
    if i < buf.len() && buf[0] == 0 && buf[1] == 0 && (buf[2] == 1 || (buf[2] == 0 && buf[3]
        == 1)) {
        return None;
    }
    Some(out)
}

/// A start code prefix cannot overlap the next one.
proof fn lemma_codes_apart(au: Seq<u8>, i: int)
    requires
        code_at(au, i),
    ensures
        code_places(au, i) == seq![i] + code_places(au, i + 3),
{
    reveal_with_fuel(code_places, 3);
    assert(!code_at(au, i + 1));
    assert(!code_at(au, i + 2));
    assert(i + 1 + 2 >= au.len() ==> code_places(au, i + 3) =~= Seq::<int>::empty());
    assert(i + 2 + 2 >= au.len() ==> code_places(au, i + 3) =~= Seq::<int>::empty());
}

/// Every place in the list is one, from `i` on, at which a start code stands.
proof fn lemma_places_in_range(au: Seq<u8>, i: int)
    requires
        0 <= i,
    ensures
        forall|k: int|
            0 <= k < code_places(au, i).len() ==> i <= #[trigger] code_places(au, i)[k]
                && code_at(au, code_places(au, i)[k]),
        forall|k: int, l: int|
            0 <= k < l < code_places(au, i).len() ==> code_places(au, i)[k] + 3
                <= code_places(au, i)[l],
    decreases au.len() - i,
{
    if i + 2 >= au.len() {
        assert(code_places(au, i).len() == 0);
    } else if code_at(au, i) {
        lemma_codes_apart(au, i);
        lemma_places_in_range(au, i + 3);
        let rest = code_places(au, i + 3);
        let all = code_places(au, i);
        assert forall|k: int| 0 <= k < all.len() implies i <= #[trigger] all[k] && code_at(
            au,
            all[k],
        ) by {
            if k > 0 {
                assert(all[k] == rest[k - 1]);
            }
        }
        assert forall|k: int, l: int| 0 <= k < l < all.len() implies all[k] + 3 <= all[l] by {
            assert(all[l] == rest[l - 1]);
            if k > 0 {
                assert(all[k] == rest[k - 1]);
            }
        }
    } else {
        lemma_places_in_range(au, i + 1);
        assert(code_places(au, i) == code_places(au, i + 1));
    }
}

/// The zeros before a place do not reach back over a byte that is not zero.
proof fn lemma_zeros_bound(au: Seq<u8>, low: int, p: int)
    requires
        0 < low <= p <= au.len(),
        au[low - 1] != 0,
    ensures
        low <= zeros_start(au, p) <= p,
    decreases p,
{
    if p > low && au[p - 1] == 0 {
        lemma_zeros_bound(au, low, p - 1);
    }
}

/// Find Annex-B start codes: returns (code_start, payload_start) pairs.
/// Leading zeros of a code are merged into it per the Annex-B spec.
fn start_codes(au: &[u8]) -> (codes: Vec<(usize, usize)>)
    ensures
        codes@.len() == code_places(au@, 0).len(),
        forall|k: int|
            0 <= k < codes@.len() ==> (#[trigger] codes@[k]).0 == zeros_start(
                au@,
                code_places(au@, 0)[k],
            ) && codes@[k].1 == code_places(au@, 0)[k] + 3,
{
    let n = au.len();
    let mut codes: Vec<(usize, usize)> = Vec::new();
    let mut i: usize = 0;
    let ghost mut found: Seq<int> = Seq::empty();
    proof {
        assert(found + code_places(au@, 0) =~= code_places(au@, 0));
    }
    while n >= 3 && i < n - 2
        invariant
            n == au@.len(),
            i <= n,
            found + code_places(au@, i as int) == code_places(au@, 0),
            codes@.len() == found.len(),
            forall|k: int|
                0 <= k < codes@.len() ==> (#[trigger] codes@[k]).0 == zeros_start(au@, found[k])
                    && codes@[k].1 == found[k] + 3,
        decreases n - i,
    {
        if au[i] == 0 && au[i + 1] == 0 && au[i + 2] == 1 {
            let mut cs: usize = i;
            while cs > 0 && au[cs - 1] == 0
                invariant
                    cs <= i < au@.len(),
                    zeros_start(au@, cs as int) == zeros_start(au@, i as int),
                decreases cs,
            {
                cs = cs - 1;
            }
            codes.push((cs, i + 3));
            proof {
                lemma_codes_apart(au@, i as int);
                assert(found + (seq![i as int] + code_places(au@, i + 3)) =~= found.push(i as int)
                    + code_places(au@, i + 3));
                found = found.push(i as int);
            }
            i = i + 3;
        } else {
            i = i + 1;
        }
    }
    proof {
        assert(found + code_places(au@, i as int) =~= found);
    }
    codes
}

/// The views of a list of slices.
pub open spec fn slice_views(v: Seq<&[u8]>) -> Seq<Seq<u8>> {
    Seq::new(v.len(), |i: int| v[i]@)
}

fn nals(au: &[u8]) -> (out: Vec<&[u8]>)
    ensures
        slice_views(out@) == nal_units(au@),
{
    let codes = start_codes(au);
    let mut out: Vec<&[u8]> = Vec::new();
    let ghost places = code_places(au@, 0);
    proof {
        lemma_places_in_range(au@, 0);
        assert(places.skip(0) =~= places);
        assert(slice_views(out@) + units_at(au@, places) =~= units_at(au@, places));
    }
    let mut idx: usize = 0;
    while idx < codes.len()
        invariant
            idx <= codes@.len(),
            codes@.len() == places.len(),
            forall|k: int|
                0 <= k < codes@.len() ==> (#[trigger] codes@[k]).0 == zeros_start(au@, places[k])
                    && codes@[k].1 == places[k] + 3,
            forall|k: int| 0 <= k < places.len() ==> code_at(au@, #[trigger] places[k]),
            forall|k: int, l: int| 0 <= k < l < places.len() ==> places[k] + 3 <= places[l],
            slice_views(out@) + units_at(au@, places.skip(idx as int)) == units_at(au@, places),
        decreases codes.len() - idx,
    {
        let start: usize = codes[idx].1;
        let ghost here = places.skip(idx as int);
        proof {
            assert(here.drop_first() =~= places.skip(idx + 1));
            assert(code_at(au@, places[idx as int]));
            if idx + 1 < codes.len() {
                assert(code_at(au@, places[idx + 1]));
                lemma_zeros_bound(au@, places[idx as int] + 3, places[idx + 1]);
            }
        }
        let end: usize = if idx + 1 < codes.len() {
            codes[idx + 1].0
        } else {
            au.len()
        };
        if end > start {
            let ghost before = slice_views(out@);
            out.push(slice_subrange(au, start, end));
            proof {
                let unit = au@.subrange(start as int, end as int);
                assert(slice_views(out@) =~= before.push(unit));
                assert(before + (seq![unit] + units_at(au@, places.skip(idx + 1)))
                    =~= before.push(unit) + units_at(au@, places.skip(idx + 1)));
            }
        }
        idx = idx + 1;
    }
    proof {
        assert(places.skip(idx as int) =~= Seq::<int>::empty());
        assert(slice_views(out@) + Seq::<Seq<u8>>::empty() =~= slice_views(out@));
    }
    out
}

/// Whether an access unit holds an instantaneous decoder refresh slice (NAL unit
/// type 5).
pub open spec fn has_idr(au: Seq<u8>) -> bool {
    exists|k: int| 0 <= k < nal_units(au).len() && nal_type(#[trigger] nal_units(au)[k]) == 5
}

pub fn contains_idr(au: &[u8]) -> (r: bool)
    ensures
        r == has_idr(au@),
{
    let list = nals(au);
    let ghost units = nal_units(au@);
    proof {
        law_nal_units_are_not_empty(au@);
    }
    let mut k: usize = 0;
    while k < list.len()
        invariant
            units == nal_units(au@),
            slice_views(list@) == units,
            forall|j: int| 0 <= j < units.len() ==> (#[trigger] units[j]).len() > 0,
            k <= list@.len(),
            forall|j: int| 0 <= j < k ==> nal_type(#[trigger] units[j]) != 5,
        decreases list.len() - k,
    {
        let nal = list[k];
        assert(nal@ == slice_views(list@)[k as int]);
        assert(units[k as int].len() > 0);
        if nal[0] % 32 == 5 {
            assert(nal_type(units[k as int]) == 5);
            return true;
        }
        k = k + 1;
    }
    false
}

/// The zeros before a place begin at the place or before it.
proof fn lemma_zeros_le(au: Seq<u8>, p: int)
    requires
        0 <= p,
    ensures
        0 <= zeros_start(au, p) <= p,
    decreases p,
{
    if p > 0 && au[p - 1] == 0 {
        lemma_zeros_le(au, p - 1);
    }
}

proof fn lemma_units_nonempty(au: Seq<u8>, places: Seq<int>)
    requires
        forall|k: int| 0 <= k < places.len() ==> code_at(au, #[trigger] places[k]),
    ensures
        forall|k: int|
            0 <= k < units_at(au, places).len() ==> (#[trigger] units_at(au, places)[k]).len() > 0,
    decreases places.len(),
{
    if places.len() > 0 {
        let rest = places.drop_first();
        let after = units_at(au, rest);
        let all = units_at(au, places);
        assert forall|k: int| 0 <= k < rest.len() implies code_at(au, #[trigger] rest[k]) by {
            assert(rest[k] == places[k + 1]);
        }
        lemma_units_nonempty(au, rest);
        assert(code_at(au, places[0]));
        let start = places[0] + 3;
        let end = if places.len() > 1 {
            zeros_start(au, places[1])
        } else {
            au.len() as int
        };
        if places.len() > 1 {
            assert(code_at(au, places[1]));
            lemma_zeros_le(au, places[1]);
        }
        assert forall|k: int| 0 <= k < all.len() implies (#[trigger] all[k]).len() > 0 by {
            if end > start {
                if k > 0 {
                    assert(all[k] == after[k - 1]);
                } else {
                    assert(all[0] == au.subrange(start, end));
                }
            } else {
                assert(all[k] == after[k]);
            }
        }
    }
}

/// No NAL unit of an access unit is empty.
pub proof fn law_nal_units_are_not_empty(au: Seq<u8>)
    ensures
        forall|k: int| 0 <= k < nal_units(au).len() ==> (#[trigger] nal_units(au)[k]).len() > 0,
{
    lemma_places_in_range(au, 0);
    lemma_units_nonempty(au, code_places(au, 0));
}

/// Every place from `i` on at which a start code stands is in the list.
proof fn lemma_place_listed(au: Seq<u8>, i: int, p: int)
    requires
        i <= p,
        code_at(au, p),
    ensures
        code_places(au, i).contains(p),
    decreases p - i,
{
    let rest = code_places(au, i + 1);
    if i < p {
        lemma_place_listed(au, i + 1, p);
        let k = rest.index_of(p);
        if code_at(au, i) {
            assert(code_places(au, i)[k + 1] == p);
        }
    } else {
        assert(code_places(au, i)[0] == p);
    }
}

/// Whether the unit behind the start code at `p` is a refresh slice.
pub open spec fn idr_at(au: Seq<u8>, p: int) -> bool {
    code_at(au, p) && p + 3 < au.len() && au[p + 3] % 32 == 5
}

#[verifier::spinoff_prover]
proof fn lemma_idr_units(au: Seq<u8>, places: Seq<int>)
    requires
        forall|k: int| 0 <= k < places.len() ==> code_at(au, #[trigger] places[k]),
        forall|k: int, l: int| 0 <= k < l < places.len() ==> places[k] + 3 <= places[l],
    ensures
        forall|k: int|
            0 <= k < units_at(au, places).len() && nal_type(#[trigger] units_at(au, places)[k])
                == 5 ==> exists|p: int| #[trigger] idr_at(au, p),
        forall|j: int|
            0 <= j < places.len() && idr_at(au, #[trigger] places[j]) ==> exists|k: int|
                0 <= k < units_at(au, places).len() && nal_type(#[trigger] units_at(au, places)[k])
                    == 5,
    decreases places.len(),
{
    if places.len() > 0 {
        let rest = places.drop_first();
        let after = units_at(au, rest);
        let all = units_at(au, places);
        assert forall|k: int| 0 <= k < rest.len() implies code_at(au, #[trigger] rest[k]) by {
            assert(rest[k] == places[k + 1]);
        }
        assert forall|k: int, l: int| 0 <= k < l < rest.len() implies rest[k] + 3 <= rest[l] by {
            assert(places[k + 1] + 3 <= places[l + 1]);
        }
        lemma_idr_units(au, rest);
        let start = places[0] + 3;
        let end = if places.len() > 1 {
            zeros_start(au, places[1])
        } else {
            au.len() as int
        };
        assert(code_at(au, places[0]));
        if places.len() > 1 {
            assert(code_at(au, places[1]));
            assert(places[0] + 3 <= places[1]);
            lemma_zeros_le(au, places[1]);
            if idr_at(au, places[0]) {
                assert(places[1] != start);
                lemma_zeros_bound(au, start + 1, places[1]);
            }
        }
        let shift: int = if end > start {
            1
        } else {
            0
        };
        assert forall|k: int| 0 <= k < after.len() implies #[trigger] all[k + shift] == after[k] by {}
        assert forall|k: int| 0 <= k < all.len() && nal_type(#[trigger] all[k])
            == 5 implies exists|p: int| #[trigger] idr_at(au, p) by {
            if end > start && k == 0 {
                assert(all[0] == au.subrange(start, end));
                assert(idr_at(au, places[0]));
            } else {
                assert(all[k - shift + shift] == after[k - shift]);
            }
        }
        assert forall|j: int| 0 <= j < places.len() && idr_at(
            au,
            #[trigger] places[j],
        ) implies exists|k: int| 0 <= k < all.len() && nal_type(#[trigger] all[k]) == 5 by {
            if j == 0 {
                assert(all[0] == au.subrange(start, end));
            } else {
                assert(rest[j - 1] == places[j]);
                let k = choose|k: int| 0 <= k < after.len() && nal_type(#[trigger] after[k]) == 5;
                assert(all[k + shift] == after[k]);
            }
        }
    }
}

/// An access unit holds a refresh slice exactly when one stands behind a start code.
proof fn lemma_idr_places(au: Seq<u8>)
    ensures
        has_idr(au) <==> exists|p: int| #[trigger] idr_at(au, p),
{
    let places = code_places(au, 0);
    lemma_places_in_range(au, 0);
    lemma_idr_units(au, places);
    let units = nal_units(au);
    if has_idr(au) {
        let k = choose|k: int| 0 <= k < units.len() && nal_type(#[trigger] units[k]) == 5;
        assert(nal_type(units_at(au, places)[k]) == 5);
    }
    if exists|p: int| #[trigger] idr_at(au, p) {
        let p = choose|p: int| #[trigger] idr_at(au, p);
        lemma_place_listed(au, 0, p);
        let j = places.index_of(p);
        assert(idr_at(au, places[j]));
    }
}

/// Joining a buffer and one that begins with a start code neither hides a refresh slice nor
/// makes one up: so parameter sets can be put in front of an access unit.
pub proof fn law_joined_buffers_keep_their_refresh_slices(a: Seq<u8>, b: Seq<u8>)
    requires
        code_at(b, 0) || (code_at(b, 1) && b[0] == 0),
    ensures
        has_idr(a + b) == (has_idr(a) || has_idr(b)),
{
    let n = a.len() as int;
    lemma_idr_places(a);
    lemma_idr_places(b);
    lemma_idr_places(a + b);
    if has_idr(a) {
        let p = choose|p: int| #[trigger] idr_at(a, p);
        assert(idr_at(a + b, p));
    }
    if has_idr(b) {
        let p = choose|p: int| #[trigger] idr_at(b, p);
        assert(idr_at(a + b, n + p));
    }
    if has_idr(a + b) {
        let p = choose|p: int| #[trigger] idr_at(a + b, p);
        if p >= n {
            assert(idr_at(b, p - n));
        } else {
            assert(p + 3 != n);
            assert(p + 2 != n && p + 1 != n);
            assert(idr_at(a, p));
        }
    }
}

/// A 16-bit number in network order.
pub open spec fn be16(x: int) -> Seq<u8> {
    seq![(x / 256) as u8, (x % 256) as u8]
}

/// A 32-bit number in network order.
pub open spec fn be32(x: int) -> Seq<u8> {
    seq![
        (x / 16777216) as u8,
        (x / 65536 % 256) as u8,
        (x / 256 % 256) as u8,
        (x % 256) as u8,
    ]
}

/// What all packets of one access unit have in common.
pub struct Stream {
    /// RTP timestamp on the 90 kHz clock.
    pub ts: int,
    /// Synchronization source.
    pub ssrc: int,
    /// Most bytes a packet may have.
    pub mtu: int,
}

/// The RTP header of a video packet: version 2, payload type 96.
pub open spec fn rtp_header(marker: bool, seq: int, st: Stream) -> Seq<u8> {
    seq![
        0x80u8,
        if marker {
            0xe0u8
        } else {
            0x60u8
        },
    ] + be16(seq) + be32(st.ts) + be32(st.ssrc)
}

/// The two bytes in front of a fragment: the indicator keeps the unit's importance
/// bits under type 28, the FU header its type under the start and end bits.
pub open spec fn fu_prefix(first: u8, start: bool, end: bool) -> Seq<u8> {
    seq![
        (first / 32 * 32 + 28) as u8,
        (first % 32 + (if start {
            128int
        } else {
            0
        }) + (if end {
            64int
        } else {
            0
        })) as u8,
    ]
}

/// The number after `seq`, modulo 2^16, by `n` steps.
pub open spec fn seq_after(seq: int, n: int) -> int {
    (seq + n) % 65536
}

/// Most bytes of a unit that one fragment carries.
pub open spec fn fragment_len(mtu: int) -> int {
    if mtu > FU_OVERHEAD {
        mtu - FU_OVERHEAD
    } else {
        1
    }
}

/// The fragmentation unit (FU-A) that carries `nal[from..end]`.
pub open spec fn fragment(
    nal: Seq<u8>,
    from: int,
    end: int,
    last: bool,
    st: Stream,
    seq: int,
) -> Seq<u8> {
    let is_end = end == nal.len();
    rtp_header(is_end && last, seq, st) + fu_prefix(nal[0], from == 1, is_end) + nal.subrange(
        from,
        end,
    )
}

/// The fragmentation units (FU-A) that carry `nal[from..]`.
pub open spec fn fragments(nal: Seq<u8>, from: int, last: bool, st: Stream, seq: int) -> Seq<
    Seq<u8>,
>
    decreases nal.len() - from,
{
    if from < 1 || from >= nal.len() {
        Seq::empty()
    } else {
        let room = fragment_len(st.mtu);
        let end = if nal.len() - from <= room {
            nal.len() as int
        } else {
            from + room
        };
        seq![fragment(nal, from, end, last, st, seq)] + fragments(
            nal,
            end,
            last,
            st,
            seq_after(seq, 1),
        )
    }
}

/// Whether a NAL unit of this length goes out in a packet of its own: one that fits, and,
/// where `mtu` leaves a fragment no room, one that is not longer than `mtu` itself.
pub open spec fn goes_whole(len: int, mtu: int) -> bool {
    len + RTP_HEADER_LEN <= mtu || (mtu <= FU_OVERHEAD && len <= mtu)
}

/// The packets of one NAL unit; `last` tells whether it ends the access unit.
pub open spec fn nal_packets(nal: Seq<u8>, last: bool, st: Stream, seq: int) -> Seq<Seq<u8>> {
    if goes_whole(nal.len() as int, st.mtu) {
        seq![rtp_header(last, seq, st) + nal]
    } else {
        fragments(nal, 1, last, st, seq)
    }
}

/// The packets of the NAL units of an access unit, numbered from `seq` on.
pub open spec fn au_packets(units: Seq<Seq<u8>>, st: Stream, seq: int) -> Seq<Seq<u8>>
    decreases units.len(),
{
    if units.len() == 0 {
        Seq::empty()
    } else {
        let first = nal_packets(units[0], units.len() == 1, st, seq);
        first + au_packets(units.drop_first(), st, seq_after(seq, first.len() as int))
    }
}

fn push_be32(pkt: &mut Vec<u8>, x: u32)
    ensures
        final(pkt)@ == old(pkt)@ + be32(x as int),
{
    pkt.push((x / 16777216) as u8);
    pkt.push((x / 65536 % 256) as u8);
    pkt.push((x / 256 % 256) as u8);
    pkt.push((x % 256) as u8);
    assert(pkt@ =~= old(pkt)@ + be32(x as int));
}

/// A packet that holds no more than its header, with `seq` moved on by one.
fn header(marker: bool, ts: u32, ssrc: u32, seq: &mut u16, mtu: Ghost<int>) -> (pkt: Vec<u8>)
    ensures
        pkt@ == rtp_header(
            marker,
            *old(seq) as int,
            (Stream { ts: ts as int, ssrc: ssrc as int, mtu: mtu@ }),
        ),
        *final(seq) == seq_after(*old(seq) as int, 1),
{
    let mut pkt: Vec<u8> = Vec::new();
    pkt.push(0x80);
    pkt.push(if marker {
        0xe0
    } else {
        0x60
    });
    pkt.push((*seq / 256) as u8);
    pkt.push((*seq % 256) as u8);
    let ghost head = pkt@;
    push_be32(&mut pkt, ts);
    push_be32(&mut pkt, ssrc);
    proof {
        let st = Stream { ts: ts as int, ssrc: ssrc as int, mtu: mtu@ };
        assert(pkt@ =~= rtp_header(marker, *seq as int, st));
    }
    *seq = seq.wrapping_add(1);
    pkt
}

proof fn lemma_first_fragment(
    nal: Seq<u8>,
    from: int,
    end: int,
    last: bool,
    st: Stream,
    seq: int,
    before: Seq<Seq<u8>>,
)
    requires
        1 <= from < nal.len(),
        end == (if nal.len() - from <= fragment_len(st.mtu) {
            nal.len() as int
        } else {
            from + fragment_len(st.mtu)
        }),
    ensures
        before + fragments(nal, from, last, st, seq) == before.push(
            fragment(nal, from, end, last, st, seq),
        ) + fragments(nal, end, last, st, seq_after(seq, 1)),
{
    let p = fragment(nal, from, end, last, st, seq);
    let rest = fragments(nal, end, last, st, seq_after(seq, 1));
    assert(fragments(nal, from, last, st, seq) == seq![p] + rest);
    assert(before + (seq![p] + rest) =~= before.push(p) + rest);
}

/// Appends the packets of one NAL unit that does not go into a packet of its own.
#[verifier::spinoff_prover]
fn push_fragments(
    nal: &[u8],
    last: bool,
    ts: u32,
    ssrc: u32,
    mtu: usize,
    seq: &mut u16,
    out: &mut Vec<Vec<u8>>,
)
    requires
        nal@.len() > 0,
    ensures
        ({
            let st = Stream { ts: ts as int, ssrc: ssrc as int, mtu: mtu as int };
            let new = fragments(nal@, 1, last, st, *old(seq) as int);
            &&& byte_views(final(out)@) == byte_views(old(out)@) + new
            &&& *final(seq) == seq_after(*old(seq) as int, new.len() as int)
        }),
{
    let ghost st = Stream { ts: ts as int, ssrc: ssrc as int, mtu: mtu as int };
    let ghost seq0 = *seq as int;
    let ghost all = fragments(nal@, 1, last, st, seq0);
    let ghost before = byte_views(out@);
    let room: usize = if mtu > FU_OVERHEAD {
        mtu - FU_OVERHEAD
    } else {
        1
    };
    let first: u8 = nal[0];
    let mut from: usize = 1;
    proof {
        assert(before + all =~= before + all);
    }
    while from < nal.len()
        invariant
            st == (Stream { ts: ts as int, ssrc: ssrc as int, mtu: mtu as int }),
            all == fragments(nal@, 1, last, st, seq0),
            room == fragment_len(mtu as int),
            room > 0,
            1 <= from <= nal@.len(),
            first == nal@[0],
            byte_views(out@) + fragments(nal@, from as int, last, st, *seq as int) == before + all,
            *seq == seq_after(seq0, byte_views(out@).len() - before.len()),
            byte_views(out@).len() >= before.len(),
        decreases nal.len() - from,
    {
        let ghost here = byte_views(out@);
        let ghost seq_here = *seq as int;
        let end: usize = if nal.len() - from <= room {
            nal.len()
        } else {
            from + room
        };
        let is_end: bool = end == nal.len();
        let mut pkt = header(is_end && last, ts, ssrc, seq, Ghost(mtu as int));
        let ghost head = pkt@;
        let s: u8 = if from == 1 {
            128
        } else {
            0
        };
        let e: u8 = if is_end {
            64
        } else {
            0
        };
        pkt.push(first / 32 * 32 + 28);
        pkt.push(first % 32 + s + e);
        pkt.extend_from_slice(slice_subrange(nal, from, end));
        out.push(pkt);
        proof {
            let p = fragment(nal@, from as int, end as int, last, st, seq_here);
            assert(pkt@ =~= p);
            assert(byte_views(out@) =~= here.push(p));
            lemma_first_fragment(nal@, from as int, end as int, last, st, seq_here, here);
        }
        from = end;
    }
    proof {
        let none = fragments(nal@, from as int, last, st, *seq as int);
        assert(none =~= Seq::<Seq<u8>>::empty());
        assert(byte_views(out@) =~= before + all);
        assert((before + all).len() == before.len() + all.len());
    }
}

/// Appends the packets of one NAL unit.
fn push_nal(
    nal: &[u8],
    last: bool,
    ts: u32,
    ssrc: u32,
    mtu: usize,
    seq: &mut u16,
    out: &mut Vec<Vec<u8>>,
)
    requires
        nal@.len() > 0,
    ensures
        ({
            let st = Stream { ts: ts as int, ssrc: ssrc as int, mtu: mtu as int };
            let new = nal_packets(nal@, last, st, *old(seq) as int);
            &&& byte_views(final(out)@) == byte_views(old(out)@) + new
            &&& *final(seq) == seq_after(*old(seq) as int, new.len() as int)
        }),
{
    if (mtu >= RTP_HEADER_LEN && nal.len() <= mtu - RTP_HEADER_LEN) || (mtu <= FU_OVERHEAD
        && nal.len() <= mtu) {
        let ghost here = byte_views(out@);
        let mut pkt = header(last, ts, ssrc, seq, Ghost(mtu as int));
        let ghost head = pkt@;
        pkt.extend_from_slice(nal);
        out.push(pkt);
        proof {
            assert(pkt@ =~= head + nal@);
            assert(byte_views(out@) =~= here + seq![head + nal@]);
        }
    } else {
        push_fragments(nal, last, ts, ssrc, mtu, seq, out);
    }
}

/// Packetize a full access unit (Annex-B) into RTP packets (PT 96,
/// clock 90 kHz), each at most `mtu` bytes on the wire.
pub fn packetize_au(au: &[u8], ts90k: u32, ssrc: u32, mtu: usize, seq: &mut u16) -> (out: Vec<
    Vec<u8>,
>)
    ensures
        ({
            let st = Stream { ts: ts90k as int, ssrc: ssrc as int, mtu: mtu as int };
            let packets = au_packets(nal_units(au@), st, *old(seq) as int);
            &&& byte_views(out@) == packets
            &&& *final(seq) == seq_after(*old(seq) as int, packets.len() as int)
        }),
{
    let list = nals(au);
    let mut out: Vec<Vec<u8>> = Vec::new();
    let ghost st = Stream { ts: ts90k as int, ssrc: ssrc as int, mtu: mtu as int };
    let ghost seq0 = *seq as int;
    let ghost units = nal_units(au@);
    let ghost packets = au_packets(units, st, seq0);
    proof {
        law_nal_units_are_not_empty(au@);
        assert(units.skip(0) =~= units);
        assert(byte_views(out@) + packets =~= packets);
    }
    let mut idx: usize = 0;
    while idx < list.len()
        invariant
            st == (Stream { ts: ts90k as int, ssrc: ssrc as int, mtu: mtu as int }),
            slice_views(list@) == units,
            forall|j: int| 0 <= j < units.len() ==> (#[trigger] units[j]).len() > 0,
            idx <= list@.len(),
            byte_views(out@) + au_packets(units.skip(idx as int), st, *seq as int) == packets,
            *seq == seq_after(seq0, byte_views(out@).len() as int),
        decreases list.len() - idx,
    {
        let nal = list[idx];
        let last_of_au: bool = idx == list.len() - 1;
        let ghost here = byte_views(out@);
        let ghost seq_here = *seq as int;
        proof {
            assert(nal@ == slice_views(list@)[idx as int]);
            assert(units[idx as int].len() > 0);
            assert(units.skip(idx as int).drop_first() =~= units.skip(idx + 1));
            assert(units.skip(idx as int)[0] == nal@);
        }
        push_nal(nal, last_of_au, ts90k, ssrc, mtu, seq, &mut out);
        proof {
            let new = nal_packets(nal@, last_of_au, st, seq_here);
            let rest = au_packets(
                units.skip(idx + 1),
                st,
                seq_after(seq_here, new.len() as int),
            );
            assert(here + (new + rest) =~= (here + new) + rest);
        }
        idx = idx + 1;
    }
    proof {
        assert(units.skip(idx as int) =~= Seq::<Seq<u8>>::empty());
        assert(byte_views(out@) + Seq::<Seq<u8>>::empty() =~= byte_views(out@));
    }
    out
}

#[verifier::spinoff_prover]
proof fn lemma_fragment(nal: Seq<u8>, from: int, last: bool, st: Stream, seq: int, k: int)
    requires
        1 <= from < nal.len(),
        0 <= seq < 65536,
        0 <= k < fragments(nal, from, last, st, seq).len(),
    ensures
        ({
            let all = fragments(nal, from, last, st, seq);
            &&& 14 < all[k].len()
            &&& st.mtu > FU_OVERHEAD ==> all[k].len() <= st.mtu
            &&& all[k][0] == 0x80
            &&& all[k][1] == (if last && k == all.len() - 1 {
                0xe0u8
            } else {
                0x60u8
            })
            &&& be16_at(all[k], 2) == seq_after(seq, k)
            &&& be32(st.ts) == all[k].subrange(4, 8)
            &&& be32(st.ssrc) == all[k].subrange(8, 12)
        }),
    decreases nal.len() - from,
{
    let all = fragments(nal, from, last, st, seq);
    let room = fragment_len(st.mtu);
    let end = if nal.len() - from <= room {
        nal.len() as int
    } else {
        from + room
    };
    let rest = fragments(nal, end, last, st, seq_after(seq, 1));
    let head = rtp_header(end == nal.len() && last, seq, st);
    let body = fu_prefix(nal[0], from == 1, end == nal.len()) + nal.subrange(from, end);
    assert(all == seq![fragment(nal, from, end, last, st, seq)] + rest);
    if k > 0 {
        assert(all[k] == rest[k - 1]);
        lemma_fragment(nal, end, last, st, seq_after(seq, 1), k - 1);
    } else {
        assert(all[0] =~= head + body);
        assert(head.len() == 12);
        assert(body.len() == 2 + end - from);
        assert(all[0].subrange(4, 8) =~= be32(st.ts));
        assert(all[0].subrange(8, 12) =~= be32(st.ssrc));
        if end < nal.len() {
            assert(rest.len() > 0);
        } else {
            assert(rest.len() == 0);
        }
    }
}

proof fn lemma_nal_packet(nal: Seq<u8>, last: bool, st: Stream, seq: int, k: int)
    requires
        nal.len() > 0,
        st.mtu > 0,
        0 <= seq < 65536,
        0 <= k < nal_packets(nal, last, st, seq).len(),
    ensures
        ({
            let all = nal_packets(nal, last, st, seq);
            &&& 12 < all[k].len()
            &&& st.mtu > FU_OVERHEAD ==> all[k].len() <= st.mtu
            &&& all[k][0] == 0x80
            &&& all[k][1] == (if last && k == all.len() - 1 {
                0xe0u8
            } else {
                0x60u8
            })
            &&& be16_at(all[k], 2) == seq_after(seq, k)
            &&& be32(st.ts) == all[k].subrange(4, 8)
            &&& be32(st.ssrc) == all[k].subrange(8, 12)
        }),
{
    if goes_whole(nal.len() as int, st.mtu) {
        let p = nal_packets(nal, last, st, seq)[0];
        assert(p.subrange(4, 8) =~= be32(st.ts));
        assert(p.subrange(8, 12) =~= be32(st.ssrc));
    } else {
        lemma_fragment(nal, 1, last, st, seq, k);
    }
}

/// Packet `k` of an access unit carries the timestamp and the source and is numbered `k`
/// after the first; the marker bit stands on the last packet and on no other. For any `mtu`
/// over 14 a packet is at most `mtu` bytes long.
#[verifier::spinoff_prover]
pub proof fn law_packets_are_numbered_marked_and_fit(
    units: Seq<Seq<u8>>,
    st: Stream,
    seq: int,
    k: int,
)
    requires
        forall|j: int| 0 <= j < units.len() ==> (#[trigger] units[j]).len() > 0,
        st.mtu > 0,
        0 <= seq < 65536,
        0 <= k < au_packets(units, st, seq).len(),
    ensures
        ({
            let all = au_packets(units, st, seq);
            &&& 12 < all[k].len()
            &&& st.mtu > FU_OVERHEAD ==> all[k].len() <= st.mtu
            &&& all[k][0] == 0x80
            &&& all[k][1] == (if k == all.len() - 1 {
                0xe0u8
            } else {
                0x60u8
            })
            &&& be16_at(all[k], 2) == seq_after(seq, k)
            &&& be32(st.ts) == all[k].subrange(4, 8)
            &&& be32(st.ssrc) == all[k].subrange(8, 12)
        }),
    decreases units.len(),
{
    let all = au_packets(units, st, seq);
    let last = units.len() == 1;
    let first = nal_packets(units[0], last, st, seq);
    let rest_units = units.drop_first();
    let next = seq_after(seq, first.len() as int);
    let rest = au_packets(rest_units, st, next);
    assert forall|j: int| 0 <= j < rest_units.len() implies (#[trigger] rest_units[j]).len() > 0 by {
        assert(rest_units[j] == units[j + 1]);
    }
    assert(units[0].len() > 0);
    if k < first.len() {
        assert(all[k] == first[k]);
        lemma_nal_packet(units[0], last, st, seq, k);
        if !last {
            assert(rest_units[0].len() > 0);
            assert(nal_packets(rest_units[0], rest_units.len() == 1, st, next).len() > 0);
            assert(rest.len() > 0);
        }
    } else {
        assert(all[k] == rest[k - first.len()]);
        law_packets_are_numbered_marked_and_fit(rest_units, st, next, k - first.len());
    }
}

/// No unit is lost: an access unit has a packet exactly when it has a unit, and at least as
/// many packets as units.
pub proof fn law_every_unit_is_sent(units: Seq<Seq<u8>>, st: Stream, seq: int)
    requires
        forall|j: int| 0 <= j < units.len() ==> (#[trigger] units[j]).len() > 0,
        st.mtu > 0,
    ensures
        au_packets(units, st, seq).len() >= units.len(),
        au_packets(units, st, seq).len() == 0 <==> units.len() == 0,
    decreases units.len(),
{
    if units.len() > 0 {
        let first = nal_packets(units[0], units.len() == 1, st, seq);
        let rest_units = units.drop_first();
        assert forall|j: int| 0 <= j < rest_units.len() implies (#[trigger] rest_units[j]).len()
            > 0 by {
            assert(rest_units[j] == units[j + 1]);
        }
        assert(units[0].len() > 0);
        law_every_unit_is_sent(rest_units, st, seq_after(seq, first.len() as int));
    }
}

/// What a receiver reads out of a run of packets: a packet of type 28 adds to the unit
/// `partial` or starts a new one, any other packet is a unit.
pub open spec fn reassemble(packets: Seq<Seq<u8>>, partial: Seq<u8>) -> Seq<Seq<u8>>
    decreases packets.len(),
{
    if packets.len() == 0 {
        Seq::empty()
    } else {
        let p = packets[0].skip(RTP_HEADER_LEN as int);
        let rest = packets.drop_first();
        if p[0] % 32 != 28 {
            seq![p] + reassemble(rest, Seq::empty())
        } else {
            let head = if p[1] >= 128 {
                seq![(p[0] / 32 * 32 + p[1] % 32) as u8]
            } else {
                partial
            };
            let unit = head + p.skip(2);
            if p[1] % 128 >= 64 {
                seq![unit] + reassemble(rest, Seq::empty())
            } else {
                reassemble(rest, unit)
            }
        }
    }
}

proof fn lemma_reassemble_fragments(
    nal: Seq<u8>,
    from: int,
    last: bool,
    st: Stream,
    seq: int,
    tail: Seq<Seq<u8>>,
    partial: Seq<u8>,
)
    requires
        1 <= from < nal.len(),
        from == 1 || partial == nal.take(from),
    ensures
        reassemble(fragments(nal, from, last, st, seq) + tail, partial) == seq![nal] + reassemble(
            tail,
            Seq::empty(),
        ),
    decreases nal.len() - from,
{
    let all = fragments(nal, from, last, st, seq);
    let room = fragment_len(st.mtu);
    let end = if nal.len() - from <= room {
        nal.len() as int
    } else {
        from + room
    };
    let rest = fragments(nal, end, last, st, seq_after(seq, 1));
    let whole = all + tail;
    let p = whole[0].skip(12);
    let body = nal.subrange(from, end);
    assert(whole.drop_first() =~= rest + tail);
    assert(p =~= fu_prefix(nal[0], from == 1, end == nal.len()) + body);
    assert(p.skip(2) =~= body);
    assert(p[0] / 32 == nal[0] / 32);
    assert(p[0] % 32 == 28);
    assert(p[1] % 32 == nal[0] % 32);
    let head = if p[1] >= 128 {
        seq![(p[0] / 32 * 32 + p[1] % 32) as u8]
    } else {
        partial
    };
    assert(head =~= nal.take(from));
    assert(head + p.skip(2) =~= nal.take(end));
    if end == nal.len() {
        assert(nal.take(end) =~= nal);
        assert(rest =~= Seq::<Seq<u8>>::empty());
        assert(rest + tail =~= tail);
    } else {
        lemma_reassemble_fragments(nal, end, last, st, seq_after(seq, 1), tail, nal.take(end));
    }
}

/// A receiver that puts the packets of an access unit together again gets the NAL units
/// that went in, each once and in their order. Units of type 28 are left out: a single
/// packet that carries one looks like a fragment.
#[verifier::spinoff_prover]
pub proof fn law_packets_give_the_units_back(units: Seq<Seq<u8>>, st: Stream, seq: int)
    requires
        st.mtu > 0,
        forall|j: int|
            0 <= j < units.len() ==> (#[trigger] units[j]).len() > 0 && units[j][0] % 32 != 28,
    ensures
        reassemble(au_packets(units, st, seq), Seq::empty()) == units,
    decreases units.len(),
{
    if units.len() == 0 {
        assert(units =~= Seq::<Seq<u8>>::empty());
    } else {
        let first = nal_packets(units[0], units.len() == 1, st, seq);
        let rest_units = units.drop_first();
        let next = seq_after(seq, first.len() as int);
        let rest = au_packets(rest_units, st, next);
        assert forall|j: int| 0 <= j < rest_units.len() implies (#[trigger] rest_units[j]).len() > 0
            && rest_units[j][0] % 32 != 28 by {
            assert(rest_units[j] == units[j + 1]);
        }
        law_packets_give_the_units_back(rest_units, st, next);
        assert(units =~= seq![units[0]] + rest_units);
        assert(units[0].len() > 0);
        if goes_whole(units[0].len() as int, st.mtu) {
            let all = first + rest;
            assert(all.drop_first() =~= rest);
            assert(all[0].skip(12) =~= units[0]);
        } else {
            lemma_reassemble_fragments(
                units[0],
                1,
                units.len() == 1,
                st,
                seq,
                rest,
                Seq::empty(),
            );
        }
    }
}

/// Whether a buffer holds no two zeros and a one in a row.
pub open spec fn free_of_codes(b: Seq<u8>) -> bool {
    forall|p: int|
        #![trigger b[p]]
        0 <= p && p + 2 < b.len() ==> !(b[p] == 0 && b[p + 1] == 0 && b[p + 2] == 1)
}

proof fn lemma_no_places(au: Seq<u8>, i: int)
    requires
        forall|q: int| i <= q ==> !code_at(au, q),
    ensures
        code_places(au, i) == Seq::<int>::empty(),
    decreases au.len() - i,
{
    if i + 2 < au.len() {
        assert(!code_at(au, i));
        lemma_no_places(au, i + 1);
    }
}

#[verifier::spinoff_prover]
proof fn lemma_places_push(w: Seq<u8>, a: Seq<u8>, p: int, i: int)
    requires
        0 <= i <= p,
        a.len() <= p + 2,
        code_at(w, p),
        forall|q: int| #[trigger] code_at(w, q) <==> code_at(a, q) || q == p,
    ensures
        code_places(w, i) == code_places(a, i).push(p),
    decreases p - i,
{
    if i == p {
        assert forall|q: int| p + 1 <= q implies !code_at(w, q) by {
            assert(!code_at(a, q));
        }
        lemma_no_places(w, p + 1);
        assert(code_places(a, p) =~= Seq::<int>::empty());
        assert(code_places(w, p) =~= seq![p]);
    } else {
        lemma_places_push(w, a, p, i + 1);
        assert(code_at(w, i) <==> code_at(a, i));
        if i + 2 >= a.len() {
            assert(code_places(a, i + 1) =~= Seq::<int>::empty());
        }
        assert(code_places(w, i) =~= code_places(a, i).push(p));
    }
}

proof fn lemma_zeros_same(w: Seq<u8>, a: Seq<u8>, q: int)
    requires
        0 <= q <= a.len() <= w.len(),
        forall|j: int| 0 <= j < a.len() ==> w[j] == a[j],
    ensures
        zeros_start(w, q) == zeros_start(a, q),
    decreases q,
{
    if q > 0 {
        lemma_zeros_same(w, a, q - 1);
    }
}

proof fn lemma_zeros_back(w: Seq<u8>, n: int, p: int)
    requires
        0 <= n <= p <= w.len(),
        forall|j: int| n <= j < p ==> w[j] == 0,
        n == 0 || w[n - 1] != 0,
    ensures
        zeros_start(w, p) == n,
    decreases p,
{
    if p > n {
        lemma_zeros_back(w, n, p - 1);
    }
}

#[verifier::spinoff_prover]
proof fn lemma_units_push(w: Seq<u8>, a: Seq<u8>, places: Seq<int>, p: int, u: Seq<u8>)
    requires
        a.len() <= p,
        forall|j: int| 0 <= j < a.len() ==> w[j] == a[j],
        w.len() == p + 3 + u.len(),
        u == w.subrange(p + 3, w.len() as int),
        zeros_start(w, p) == a.len(),
        forall|k: int| 0 <= k < places.len() ==> code_at(a, #[trigger] places[k]),
    ensures
        units_at(w, places.push(p)) == units_at(a, places) + (if u.len() > 0 {
            seq![u]
        } else {
            Seq::empty()
        }),
    decreases places.len(),
{
    let all = places.push(p);
    if places.len() == 0 {
        let rest = all.drop_first();
        assert(rest =~= Seq::<int>::empty());
        assert(units_at(w, rest) =~= Seq::<Seq<u8>>::empty());
        assert(units_at(a, places) =~= Seq::<Seq<u8>>::empty());
        assert(all.len() == 1 && all[0] == p);
        assert(units_at(w, all) =~= units_at(a, places) + (if u.len() > 0 {
            seq![u]
        } else {
            Seq::empty()
        }));
    } else {
        let rest = places.drop_first();
        assert(all.drop_first() =~= rest.push(p));
        assert forall|k: int| 0 <= k < rest.len() implies code_at(a, #[trigger] rest[k]) by {
            assert(rest[k] == places[k + 1]);
        }
        lemma_units_push(w, a, rest, p, u);
        assert(code_at(a, places[0]));
        let start = places[0] + 3;
        if places.len() > 1 {
            assert(code_at(a, places[1]));
            lemma_zeros_same(w, a, places[1]);
            lemma_zeros_le(a, places[1]);
            let end = zeros_start(a, places[1]);
            if end > start {
                assert(w.subrange(start, end) =~= a.subrange(start, end));
            }
        } else {
            let end = a.len() as int;
            if end > start {
                assert(w.subrange(start, end) =~= a.subrange(start, end));
            }
        }
        assert(units_at(w, all) =~= units_at(a, places) + (if u.len() > 0 {
            seq![u]
        } else {
            Seq::empty()
        }));
    }
}

/// A buffer without a start code has no units, and every start code with a stretch behind it
/// that holds none adds that stretch, whole and alone, to the units of what stands before.
/// The zeros of a start code are no part of a unit, and nothing behind it is no unit. Every
/// buffer can be put together in this way.
#[verifier::spinoff_prover]
pub proof fn law_units_are_what_stands_behind_start_codes(a: Seq<u8>, zeros: nat, u: Seq<u8>)
    requires
        a.len() == 0 || a.last() != 0,
        zeros >= 2,
        free_of_codes(u),
    ensures
        nal_units(u) == Seq::<Seq<u8>>::empty(),
        nal_units(a + Seq::new(zeros, |i: int| 0u8) + seq![1u8] + u) == nal_units(a) + (if u.len()
            > 0 {
            seq![u]
        } else {
            Seq::empty()
        }),
{
    assert forall|q: int| 0 <= q implies !code_at(u, q) by {
        if q + 2 < u.len() {
            let x = u[q];
        }
    }
    lemma_no_places(u, 0);
    let z = Seq::new(zeros, |i: int| 0u8);
    let w = a + z + seq![1u8] + u;
    let n = a.len() as int;
    let p = n + zeros - 2;
    assert(forall|j: int| 0 <= j < n ==> w[j] == a[j]);
    assert(forall|j: int| n <= j < n + zeros ==> w[j] == 0);
    assert(w[n + zeros] == 1);
    assert(forall|j: int| 0 <= j < u.len() ==> w[p + 3 + j] == u[j]);
    assert forall|q: int| #[trigger] code_at(w, q) <==> code_at(a, q) || q == p by {
        if code_at(w, q) && q > p {
            assert(q >= p + 3);
            assert(w[q] == u[q - p - 3] && w[q + 1] == u[q - p - 2] && w[q + 2] == u[q - p - 1]);
            assert(code_at(u, q - p - 3));
        }
        if code_at(w, q) && q < p {
            if q + 2 >= n {
                assert(w[q + 2] == 0);
            }
        }
    }
    assert(code_at(w, p));
    lemma_places_push(w, a, p, 0);
    lemma_places_in_range(a, 0);
    lemma_zeros_back(w, n, p);
    assert(u =~= w.subrange(p + 3, w.len() as int));
    lemma_units_push(w, a, code_places(a, 0), p, u);
}

/// The units of an Annex-B stream are the units that it was made of, each whole: no unit may
/// hold a start code, and none but the last may end in a zero.
#[verifier::spinoff_prover]
pub proof fn law_streams_give_the_units_back(units: Seq<Seq<u8>>)
    requires
        forall|j: int|
            0 <= j < units.len() ==> (#[trigger] units[j]).len() > 0 && free_of_codes(units[j]) && (j
                < units.len() - 1 ==> units[j].last() != 0),
    ensures
        nal_units(annexb(units)) == units,
    decreases units.len(),
{
    let empty = Seq::<u8>::empty();
    if units.len() == 0 {
        law_units_are_what_stands_behind_start_codes(empty, 2, empty);
        assert(units =~= Seq::<Seq<u8>>::empty());
    } else {
        let rest = units.drop_last();
        let u = units.last();
        let a = annexb(rest);
        assert forall|j: int| 0 <= j < rest.len() implies (#[trigger] rest[j]).len() > 0
            && free_of_codes(rest[j]) && (j < rest.len() - 1 ==> rest[j].last() != 0) by {
            assert(rest[j] == units[j]);
        }
        law_streams_give_the_units_back(rest);
        if rest.len() > 0 {
            assert(rest.last() == units[units.len() - 2]);
            assert(a.last() == rest.last().last());
        }
        assert(u == units[units.len() - 1]);
        law_units_are_what_stands_behind_start_codes(a, 3, u);
        assert(annexb(units) =~= a + Seq::new(3, |i: int| 0u8) + seq![1u8] + u);
        assert(units =~= rest + seq![u]);
    }
}

/// Every byte behind a start code comes out of the packets again: what a receiver puts
/// together of the packets of an Annex-B stream are the units that the stream was made of.
pub proof fn law_streams_survive_the_packets(units: Seq<Seq<u8>>, st: Stream, seq: int)
    requires
        st.mtu > 0,
        forall|j: int|
            0 <= j < units.len() ==> (#[trigger] units[j]).len() > 0 && free_of_codes(units[j]) && (j
                < units.len() - 1 ==> units[j].last() != 0) && units[j][0] % 32 != 28,
    ensures
        reassemble(au_packets(nal_units(annexb(units)), st, seq), Seq::empty()) == units,
{
    law_streams_give_the_units_back(units);
    law_packets_give_the_units_back(units, st, seq);
}

/// A key frame is an access unit in which a start code is followed by a byte whose low five
/// bits are 5.
pub proof fn law_key_frames_hold_a_refresh_slice(au: Seq<u8>)
    ensures
        has_idr(au) <==> exists|p: int|
            #![trigger au[p]]
            0 <= p && p + 3 < au.len() && au[p] == 0 && au[p + 1] == 0 && au[p + 2] == 1 && au[p
                + 3] % 32 == 5,
{
    lemma_idr_places(au);
    if has_idr(au) {
        let p = choose|p: int| #[trigger] idr_at(au, p);
        assert(au[p] == 0);
    }
    if exists|p: int|
        #![trigger au[p]]
        0 <= p && p + 3 < au.len() && au[p] == 0 && au[p + 1] == 0 && au[p + 2] == 1 && au[p + 3]
            % 32 == 5 {
        let p = choose|p: int|
            #![trigger au[p]]
            0 <= p && p + 3 < au.len() && au[p] == 0 && au[p + 1] == 0 && au[p + 2] == 1 && au[p
                + 3] % 32 == 5;
        assert(idr_at(au, p));
    }
}

/// Units one after the other, each behind its length in four bytes, the highest first.
pub open spec fn length_prefixed(units: Seq<Seq<u8>>) -> Seq<u8>
    decreases units.len(),
{
    if units.len() == 0 {
        Seq::empty()
    } else {
        let n = units[0].len();
        seq![
            (n / 16777216) as u8,
            (n / 65536 % 256) as u8,
            (n / 256 % 256) as u8,
            (n % 256) as u8,
        ] + units[0] + length_prefixed(units.drop_first())
    }
}

proof fn lemma_length(b: Seq<u8>, i: int, n: int)
    requires
        0 <= n < 4294967296,
        b[i] == (n / 16777216) as u8,
        b[i + 1] == (n / 65536 % 256) as u8,
        b[i + 2] == (n / 256 % 256) as u8,
        b[i + 3] == (n % 256) as u8,
    ensures
        be32_at(b, i) == n,
{
    assert(n == n / 16777216 * 16777216 + n / 65536 % 256 * 65536 + n / 256 % 256 * 256 + n % 256);
}

#[verifier::spinoff_prover]
proof fn lemma_prefixed(x: Seq<u8>, units: Seq<Seq<u8>>, y: Seq<u8>)
    requires
        forall|j: int| 0 <= j < units.len() ==> 0 < (#[trigger] units[j]).len() < 4294967296,
    ensures
        prefixed_units(x + length_prefixed(units) + y, x.len() as int) == (match prefixed_units(
            x + length_prefixed(units) + y,
            (x.len() + length_prefixed(units).len()) as int,
        ) {
            Some(rest) => Some(units + rest),
            None => None,
        }),
        length_prefixed(units).len() == annexb(units).len(),
    decreases units.len(),
{
    let b = x + length_prefixed(units) + y;
    if units.len() == 0 {
        assert(annexb(units).len() == 0);
        match prefixed_units(b, x.len() as int) {
            Some(rest) => {
                assert(units + rest =~= rest);
            },
            None => {},
        }
    } else {
        let u = units[0];
        let n = u.len() as int;
        let rest = units.drop_first();
        let head = seq![
            (n / 16777216) as u8,
            (n / 65536 % 256) as u8,
            (n / 256 % 256) as u8,
            (n % 256) as u8,
        ];
        assert forall|j: int| 0 <= j < rest.len() implies 0 < (#[trigger] rest[j]).len()
            < 4294967296 by {
            assert(rest[j] == units[j + 1]);
        }
        assert(0 < n < 4294967296);
        let x2 = x + head + u;
        lemma_prefixed(x2, rest, y);
        assert(b =~= x2 + length_prefixed(rest) + y);
        let i = x.len() as int;
        assert(b[i] == head[0] && b[i + 1] == head[1] && b[i + 2] == head[2] && b[i + 3]
            == head[3]);
        lemma_length(b, i, n);
        assert(b.subrange(i + 4, i + 4 + n) =~= u);
        let end = i + length_prefixed(units).len();
        assert(x2.len() + length_prefixed(rest).len() == end);
        match prefixed_units(b, end) {
            Some(more) => {
                assert(seq![u] + (rest + more) =~= units + more);
            },
            None => {},
        }
        assert(units =~= seq![u] + rest);
        lemma_annexb_add(seq![u], rest);
        lemma_annexb_push(Seq::empty(), u);
        assert(Seq::<Seq<u8>>::empty().push(u) =~= seq![u]);
    }
}

/// Length-prefixed framing is undone: units that each stand behind their length in four bytes
/// become the Annex-B stream of these units. Up to three bytes may trail, unless the buffer
/// opens with a start code: then it is taken for an Annex-B stream already.
#[verifier::spinoff_prover]
pub proof fn law_length_prefixes_are_undone(units: Seq<Seq<u8>>, tail: Seq<u8>)
    requires
        units.len() > 0,
        forall|j: int| 0 <= j < units.len() ==> 0 < (#[trigger] units[j]).len() < 4294967296,
        tail.len() < 4,
    ensures
        ({
            let b = length_prefixed(units) + tail;
            let coded = b[0] == 0 && b[1] == 0 && (b[2] == 1 || (b[2] == 0 && b[3] == 1));
            lp_annexb(b) == (if tail.len() > 0 && coded {
                None
            } else {
                Some(annexb(units))
            })
        }),
        lp_annexb(length_prefixed(units)) == Some(annexb(units)),
{
    let none = Seq::<u8>::empty();
    assert(units[0].len() > 0);
    lemma_prefixed(none, units, tail);
    let b = length_prefixed(units) + tail;
    assert(none + length_prefixed(units) + tail =~= b);
    assert(units + Seq::<Seq<u8>>::empty() =~= units);
    lemma_prefixed(none, units, none);
    assert(none + length_prefixed(units) + none =~= length_prefixed(units));
}

/// A buffer is not taken for length-prefixed units where a length is zero or runs past the
/// end, nor where it is too short for a unit.
#[verifier::spinoff_prover]
pub proof fn law_broken_lengths_are_refused(units: Seq<Seq<u8>>, length: Seq<u8>, rest: Seq<u8>)
    requires
        forall|j: int| 0 <= j < units.len() ==> 0 < (#[trigger] units[j]).len() < 4294967296,
        length.len() == 4,
        ({
            let n = length[0] * 16777216 + length[1] * 65536 + length[2] * 256 + length[3];
            n == 0 || n > rest.len()
        }),
    ensures
        lp_annexb(length_prefixed(units) + length + rest) is None,
        rest.len() < 5 ==> lp_annexb(rest) is None,
{
    let none = Seq::<u8>::empty();
    lemma_prefixed(none, units, length + rest);
    let b = length_prefixed(units) + length + rest;
    assert(none + length_prefixed(units) + (length + rest) =~= b);
    let i = length_prefixed(units).len() as int;
    assert(b[i] == length[0] && b[i + 1] == length[1] && b[i + 2] == length[2] && b[i + 3]
        == length[3]);
}

/// Units one after the other, each behind its length in two bytes, the higher first.
pub open spec fn short_prefixed(units: Seq<Seq<u8>>) -> Seq<u8>
    decreases units.len(),
{
    if units.len() == 0 {
        Seq::empty()
    } else {
        let n = units.last().len();
        short_prefixed(units.drop_last()) + seq![(n / 256) as u8, (n % 256) as u8] + units.last()
    }
}

#[verifier::spinoff_prover]
proof fn lemma_short_prefixed(x: Seq<u8>, units: Seq<Seq<u8>>, y: Seq<u8>)
    requires
        forall|j: int| 0 <= j < units.len() ==> (#[trigger] units[j]).len() < 65536,
    ensures
        unit_run(x + short_prefixed(units) + y, x.len() as int, units.len()) == (UnitRun {
            units,
            end: (x.len() + short_prefixed(units).len()) as int,
            complete: true,
        }),
    decreases units.len(),
{
    let b = x + short_prefixed(units) + y;
    if units.len() == 0 {
        assert(units =~= Seq::<Seq<u8>>::empty());
    } else {
        let u = units.last();
        let n = u.len() as int;
        let rest = units.drop_last();
        assert(u == units[units.len() - 1]);
        assert forall|j: int| 0 <= j < rest.len() implies (#[trigger] rest[j]).len() < 65536 by {
            assert(rest[j] == units[j]);
        }
        let y2 = seq![(n / 256) as u8, (n % 256) as u8] + u + y;
        lemma_short_prefixed(x, rest, y2);
        assert(b =~= x + short_prefixed(rest) + y2);
        let e = (x.len() + short_prefixed(rest).len()) as int;
        assert(b[e] == y2[0] && b[e + 1] == y2[1]);
        assert(be16_at(b, e) == n);
        assert(b.subrange(e + 2, e + 2 + n) =~= u);
        assert(rest.push(u) =~= units);
    }
}

/// Whether no unit behind a length in two bytes is there in full.
pub open spec fn cut_short(b: Seq<u8>) -> bool {
    b.len() < 2 || b[0] * 256 + b[1] > b.len() - 2
}

proof fn lemma_cut_run(x: Seq<u8>, units: Seq<Seq<u8>>, y: Seq<u8>, count: nat)
    requires
        forall|j: int| 0 <= j < units.len() ==> (#[trigger] units[j]).len() < 65536,
        count > units.len(),
        cut_short(y),
    ensures
        ({
            let run = unit_run(x + short_prefixed(units) + y, x.len() as int, count);
            !run.complete && run.units == units
        }),
{
    let b = x + short_prefixed(units) + y;
    lemma_short_prefixed(x, units, y);
    let e = (x.len() + short_prefixed(units).len()) as int;
    if y.len() >= 2 {
        assert(b[e] == y[0] && b[e + 1] == y[1]);
    }
    let next = (units.len() + 1) as nat;
    assert(!unit_run(b, x.len() as int, next).complete);
    lemma_run_stuck(b, x.len() as int, next, count);
}

/// The parameter sets of a codec configuration come out as an Annex-B stream: all sequence
/// parameter sets, then the picture parameter sets, up to the first that is cut short.
/// Whatever stands behind them is passed over.
#[verifier::spinoff_prover]
pub proof fn law_configurations_are_undone(
    head: Seq<u8>,
    sps: Seq<Seq<u8>>,
    count: u8,
    pps: Seq<Seq<u8>>,
    rest: Seq<u8>,
)
    requires
        head.len() == 6,
        head[0] == 1,
        head[5] % 32 == sps.len(),
        forall|j: int| 0 <= j < sps.len() ==> (#[trigger] sps[j]).len() < 65536,
        forall|j: int| 0 <= j < pps.len() ==> (#[trigger] pps[j]).len() < 65536,
        pps.len() <= count,
        pps.len() < count ==> cut_short(rest),
    ensures
        ({
            let csd = head + short_prefixed(sps) + seq![count] + short_prefixed(pps) + rest;
            csd.len() >= 8 ==> avcc_annexb(csd) == (if sps.len() + pps.len() == 0 {
                None
            } else {
                Some(annexb(sps + pps))
            })
        }),
        ({
            let csd = head + short_prefixed(sps);
            csd.len() >= 8 ==> avcc_annexb(csd) == Some(annexb(sps))
        }),
{
    let csd = head + short_prefixed(sps) + seq![count] + short_prefixed(pps) + rest;
    let y = seq![count] + short_prefixed(pps) + rest;
    lemma_short_prefixed(head, sps, y);
    assert(csd =~= head + short_prefixed(sps) + y);
    let e = (head.len() + short_prefixed(sps).len()) as int;
    let x2 = head + short_prefixed(sps) + seq![count];
    assert(csd =~= x2 + short_prefixed(pps) + rest);
    assert(csd[0] == head[0] && csd[5] == head[5]);
    assert(csd[e] == count);
    lemma_short_prefixed(x2, pps, rest);
    if pps.len() < count {
        lemma_cut_run(x2, pps, rest, count as nat);
    }
    let none = Seq::<u8>::empty();
    lemma_short_prefixed(head, sps, none);
    assert(head + short_prefixed(sps) + none =~= head + short_prefixed(sps));
    assert((head + short_prefixed(sps))[5] == head[5]);
    if sps.len() == 0 {
        assert(short_prefixed(sps).len() == 0);
    }
}

/// A codec configuration is refused where it is of another version, too short, or lacks a
/// sequence parameter set.
pub proof fn law_broken_configurations_are_refused(
    csd: Seq<u8>,
    head: Seq<u8>,
    sps: Seq<Seq<u8>>,
    rest: Seq<u8>,
)
    requires
        head.len() == 6,
        head[5] % 32 > sps.len(),
        forall|j: int| 0 <= j < sps.len() ==> (#[trigger] sps[j]).len() < 65536,
        cut_short(rest),
    ensures
        csd.len() < 8 || csd[0] != 1 ==> avcc_annexb(csd) is None,
        avcc_annexb(head + short_prefixed(sps) + rest) is None,
{
    let b = head + short_prefixed(sps) + rest;
    assert(b[5] == head[5]);
    lemma_cut_run(head, sps, rest, (head[5] % 32) as nat);
}

/// What the header of a packet says, byte by byte: version 2, payload type 96 with the marker
/// bit on the last packet alone, and number, time and source in network order.
#[verifier::spinoff_prover]
pub proof fn law_headers_are_in_network_order(
    units: Seq<Seq<u8>>,
    st: Stream,
    seq: int,
    k: int,
)
    requires
        forall|j: int| 0 <= j < units.len() ==> (#[trigger] units[j]).len() > 0,
        st.mtu > 0,
        0 <= st.ts < 4294967296,
        0 <= st.ssrc < 4294967296,
        0 <= seq < 65536,
        0 <= k < au_packets(units, st, seq).len(),
    ensures
        ({
            let all = au_packets(units, st, seq);
            let p = all[k];
            &&& p.len() > 12
            &&& p[0] == 128
            &&& p[1] == (if k == all.len() - 1 {
                224int
            } else {
                96int
            })
            &&& p[2] * 256 + p[3] == (seq + k) % 65536
            &&& p[4] * 16777216 + p[5] * 65536 + p[6] * 256 + p[7] == st.ts
            &&& p[8] * 16777216 + p[9] * 65536 + p[10] * 256 + p[11] == st.ssrc
        }),
{
    law_packets_are_numbered_marked_and_fit(units, st, seq, k);
    let p = au_packets(units, st, seq)[k];
    let t = p.subrange(4, 8);
    let s = p.subrange(8, 12);
    assert(t[0] == p[4] && t[1] == p[5] && t[2] == p[6] && t[3] == p[7]);
    assert(s[0] == p[8] && s[1] == p[9] && s[2] == p[10] && s[3] == p[11]);
    let x = st.ts;
    assert(x == x / 16777216 * 16777216 + x / 65536 % 256 * 65536 + x / 256 % 256 * 256 + x % 256);
    let y = st.ssrc;
    assert(y == y / 16777216 * 16777216 + y / 65536 % 256 * 65536 + y / 256 % 256 * 256 + y % 256);
}

/// What fragments carry of a unit, one after the other.
pub open spec fn carried(packets: Seq<Seq<u8>>) -> Seq<u8>
    decreases packets.len(),
{
    if packets.len() == 0 {
        Seq::empty()
    } else {
        packets[0].skip(14) + carried(packets.drop_first())
    }
}

#[verifier::spinoff_prover]
proof fn lemma_fragments_carry(nal: Seq<u8>, from: int, last: bool, st: Stream, seq: int)
    requires
        1 <= from < nal.len(),
    ensures
        carried(fragments(nal, from, last, st, seq)) == nal.skip(from),
        fragments(nal, from, last, st, seq).len() > 0,
        forall|k: int|
            0 <= k < fragments(nal, from, last, st, seq).len() ==> ({
                let p = #[trigger] fragments(nal, from, last, st, seq)[k];
                let end = k == fragments(nal, from, last, st, seq).len() - 1;
                &&& p.len() > 14
                &&& p[12] == nal[0] / 32 * 32 + 28
                &&& p[13] == nal[0] % 32 + (if from == 1 && k == 0 {
                    128int
                } else {
                    0
                }) + (if end {
                    64int
                } else {
                    0
                })
                &&& st.mtu > 14 ==> p.len() <= st.mtu && (!end ==> p.len() == st.mtu)
                &&& st.mtu <= 14 ==> p.len() == 15
            }),
    decreases nal.len() - from,
{
    let room = fragment_len(st.mtu);
    let end = if nal.len() - from <= room {
        nal.len() as int
    } else {
        from + room
    };
    let all = fragments(nal, from, last, st, seq);
    let first = fragment(nal, from, end, last, st, seq);
    let rest = fragments(nal, end, last, st, seq_after(seq, 1));
    assert(all == seq![first] + rest);
    assert(all.drop_first() =~= rest);
    assert(first.skip(14) =~= nal.subrange(from, end));
    assert(first.len() == 14 + end - from);
    if end < nal.len() {
        lemma_fragments_carry(nal, end, last, st, seq_after(seq, 1));
        assert(nal.skip(from) =~= nal.subrange(from, end) + nal.skip(end));
    } else {
        assert(rest.len() == 0);
        assert(nal.skip(from) =~= nal.subrange(from, end) + carried(rest));
    }
    assert forall|k: int| 0 <= k < all.len() implies ({
        let p = #[trigger] all[k];
        let at_end = k == all.len() - 1;
        &&& p.len() > 14
        &&& p[12] == nal[0] / 32 * 32 + 28
        &&& p[13] == nal[0] % 32 + (if from == 1 && k == 0 {
            128int
        } else {
            0
        }) + (if at_end {
            64int
        } else {
            0
        })
        &&& st.mtu > 14 ==> p.len() <= st.mtu && (!at_end ==> p.len() == st.mtu)
        &&& st.mtu <= 14 ==> p.len() == 15
    }) by {
        if k > 0 {
            assert(all[k] == rest[k - 1]);
        } else {
            assert(all[0] == first);
        }
    }
}

/// A unit that fits goes out as it is, behind a header. A longer one goes out in fragments
/// that carry all of it behind its first byte, in order: each as long as allowed but the
/// last, each with the importance and the type of the unit, the first and the last one marked.
/// Where `mtu` leaves no room for a fragment, a unit that is not longer than `mtu` itself goes
/// out as it is, and fragments carry one byte each.
#[verifier::spinoff_prover]
pub proof fn law_packets_carry_their_unit(nal: Seq<u8>, last: bool, st: Stream, seq: int)
    requires
        nal.len() > 0,
        st.mtu > 0,
    ensures
        ({
            let whole = if st.mtu > 14 {
                nal.len() + 12 <= st.mtu
            } else {
                nal.len() <= st.mtu
            };
            let all = nal_packets(nal, last, st, seq);
            if whole {
                all.len() == 1 && all[0].skip(12) == nal
            } else {
                &&& carried(all) == nal.skip(1)
                &&& all.len() > 0
                &&& forall|k: int|
                    0 <= k < all.len() ==> ({
                        let p = #[trigger] all[k];
                        let end = k == all.len() - 1;
                        &&& st.mtu > 14 ==> 14 < p.len() <= st.mtu && (!end ==> p.len() == st.mtu)
                        &&& st.mtu <= 14 ==> p.len() == 15
                        &&& p[12] == nal[0] / 32 * 32 + 28
                        &&& p[13] == nal[0] % 32 + (if k == 0 {
                            128int
                        } else {
                            0
                        }) + (if end {
                            64int
                        } else {
                            0
                        })
                    })
            }
        }),
{
    if goes_whole(nal.len() as int, st.mtu) {
        assert(nal_packets(nal, last, st, seq)[0].skip(12) =~= nal);
    } else {
        lemma_fragments_carry(nal, 1, last, st, seq);
    }
}

/// The packets of a unit and then others are the packets of the first, without a marker, and
/// then those of the others, numbered on; a unit alone gets the marker.
pub proof fn law_units_are_sent_in_order(u: Seq<u8>, more: Seq<Seq<u8>>, st: Stream, seq: int)
    ensures
        ({
            let all = au_packets(seq![u] + more, st, seq);
            let first = nal_packets(u, more.len() == 0, st, seq);
            all == first + au_packets(more, st, (seq + first.len()) % 65536)
        }),
        au_packets(Seq::empty(), st, seq) == Seq::<Seq<u8>>::empty(),
{
    assert((seq![u] + more).drop_first() =~= more);
    assert((seq![u] + more)[0] == u);
}

/// The model of a list of packets holds every byte of every packet, in its place.
pub proof fn law_models_hold_every_packet(list: Seq<Vec<u8>>, i: int)
    requires
        0 <= i < list.len(),
    ensures
        byte_views(list).len() == list.len(),
        byte_views(list)[i] == list[i]@,
{
}

/// The model of a list of units holds every byte of every unit, in its place.
pub proof fn law_models_hold_every_unit(list: Seq<&[u8]>, i: int)
    requires
        0 <= i < list.len(),
    ensures
        slice_views(list).len() == list.len(),
        slice_views(list)[i] == list[i]@,
{
}

} // verus!
