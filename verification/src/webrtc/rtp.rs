//! RTP packetization: H.264 per RFC 6184 (single NAL unit packets and FU-A
//! fragmentation) and Opus per RFC 7587.

use vstd::prelude::*;
use vstd::slice::slice_to_vec;

verus! {

/// Size of the fixed RTP header that every packet carries ahead of its payload.
pub const RTP_HEADER_LEN: usize = 12;

/// Largest MTU budget a packetizer works with.
pub const MAX_MTU_BUDGET: usize = 1200;

/// RTP payload for WebRTC transmission
#[derive(Debug, Clone)]
pub struct RtpPayload {
    /// Payload bytes (without the RTP header).
    pub data: Vec<u8>,
    /// RTP timestamp.
    pub timestamp: u64,
    /// RTP sequence number.
    pub sequence_number: u16,
    /// Marker bit: last packet of an access unit.
    pub marker: bool,
}

// ---------------------------------------------------------------------------
// Annex B byte stream grammar
// ---------------------------------------------------------------------------

/// A four byte start code `00 00 00 01` begins at `i`.
pub open spec fn start_code4(s: Seq<u8>, i: int) -> bool {
    &&& 0 <= i
    &&& i + 3 < s.len()
    &&& s[i] == 0
    &&& s[i + 1] == 0
    &&& s[i + 2] == 0
    &&& s[i + 3] == 1
}

/// A three byte start code `00 00 01` begins at `i`.
pub open spec fn start_code3(s: Seq<u8>, i: int) -> bool {
    &&& 0 <= i
    &&& i + 2 < s.len()
    &&& s[i] == 0
    &&& s[i + 1] == 0
    &&& s[i + 2] == 1
}

/// Length of the start code at `i` (the four byte form is preferred), or 0 if none.
pub open spec fn start_code_len(s: Seq<u8>, i: int) -> int {
    if start_code4(s, i) {
        4
    } else if start_code3(s, i) {
        3
    } else {
        0
    }
}

/// First position at or after `j` where a start code begins, or the end of `s`.
pub open spec fn nal_end(s: Seq<u8>, j: int) -> int
    decreases s.len() - j,
{
    if j >= s.len() {
        j
    } else if start_code3(s, j) || start_code4(s, j) {
        j
    } else {
        nal_end(s, j + 1)
    }
}

pub proof fn lemma_nal_end_bounds(s: Seq<u8>, j: int)
    requires
        j <= s.len(),
    ensures
        j <= nal_end(s, j) <= s.len(),
    decreases s.len() - j,
{
    if j < s.len() && !(start_code3(s, j) || start_code4(s, j)) {
        lemma_nal_end_bounds(s, j + 1);
    }
}

/// The NAL units of an Annex B byte stream read from position `start`: each unit
/// is the (non-empty) run of bytes between a start code and the next start code
/// or the end of the stream. Reading stops at a position holding no start code.
pub open spec fn annexb_units(s: Seq<u8>, start: int) -> Seq<Seq<u8>>
    decreases s.len() - start,
{
    if start < 0 || start >= s.len() {
        seq![]
    } else {
        let c = start_code_len(s, start);
        if c == 0 {
            seq![]
        } else {
            let e = nal_end(s, start + c);
            proof {
                lemma_nal_end_bounds(s, start + c);
            }
            if e > start + c {
                seq![s.subrange(start + c, e)] + annexb_units(s, e)
            } else {
                annexb_units(s, e)
            }
        }
    }
}

/// Every NAL unit produced by the grammar is non-empty.
pub proof fn lemma_annexb_units_nonempty(s: Seq<u8>, start: int)
    ensures
        forall|i: int|
            0 <= i < annexb_units(s, start).len() ==> #[trigger] annexb_units(s, start)[i].len()
                > 0,
    decreases s.len() - start,
{
    if start >= 0 && start < s.len() {
        let c = start_code_len(s, start);
        if c != 0 {
            let e = nal_end(s, start + c);
            lemma_nal_end_bounds(s, start + c);
            lemma_annexb_units_nonempty(s, e);
            let rest = annexb_units(s, e);
            if e > start + c {
                let all = seq![s.subrange(start + c, e)] + rest;
                assert forall|i: int| 0 <= i < all.len() implies #[trigger] all[i].len() > 0 by {
                    if i > 0 {
                        assert(all[i] == rest[i - 1]);
                    }
                }
            }
        }
    }
}

// ---------------------------------------------------------------------------
// H.264 packet layout (RFC 6184)
// ---------------------------------------------------------------------------

/// FU indicator: the F and NRI bits of the NAL header with type 28 (FU-A).
pub open spec fn fu_indicator(nal_header: u8) -> u8 {
    (nal_header & 0xE0u8) | 28u8
}

/// FU header: start bit, end bit and the type of the fragmented NAL unit.
pub open spec fn fu_header(nal_header: u8, start: bool, end: bool) -> u8 {
    ((if start { 0x80u8 } else { 0x00u8 }) | (if end { 0x40u8 } else { 0x00u8 })) | (nal_header
        & 0x1Fu8)
}

/// The FU-A fragments of `nal` from byte `offset` on, each carrying at most
/// `payload_size` bytes of the unit after the two FU bytes; paired with an
/// unset marker bit (only the access unit's last packet carries it).
pub open spec fn fragments_from(nal: Seq<u8>, payload_size: int, offset: int) -> Seq<(Seq<u8>, bool)>
    decreases nal.len() - offset,
{
    if offset >= nal.len() || payload_size <= 0 || offset < 1 {
        seq![]
    } else {
        let end = if offset + payload_size < nal.len() {
            offset + payload_size
        } else {
            nal.len() as int
        };
        let last = end == nal.len();
        seq![
            (seq![fu_indicator(nal[0]), fu_header(nal[0], offset == 1, last)] + nal.subrange(
                offset,
                end,
            ), false),
        ] + fragments_from(nal, payload_size, end)
    }
}

/// The packets of one NAL unit under an MTU budget: a single NAL unit packet when
/// it fits beside the RTP header, FU-A fragments otherwise; none carries the
/// marker bit.
pub open spec fn nal_packets(nal: Seq<u8>, mtu: int) -> Seq<(Seq<u8>, bool)> {
    if nal.len() + RTP_HEADER_LEN <= mtu {
        seq![(nal, false)]
    } else {
        fragments_from(nal, mtu - RTP_HEADER_LEN - 2, 1)
    }
}

/// The packets of the NAL units `units[i..]`, in order.
pub open spec fn units_packets_from(units: Seq<Seq<u8>>, mtu: int, i: int) -> Seq<(Seq<u8>, bool)>
    decreases units.len() - i,
{
    if i < 0 || i >= units.len() {
        seq![]
    } else {
        nal_packets(units[i], mtu) + units_packets_from(units, mtu, i + 1)
    }
}

/// The payload contents of an access unit's packets, none marked yet.
pub open spec fn access_unit_packets(au: Seq<u8>, mtu: int) -> Seq<(Seq<u8>, bool)> {
    units_packets_from(annexb_units(au, 0), mtu, 0)
}

/// The payloads and marker bits of an access unit's packets: the marker bit
/// (RFC 6184) is set on the last packet of the access unit and on no other.
pub open spec fn rtp_packets(au: Seq<u8>, mtu: int) -> Seq<(Seq<u8>, bool)> {
    let s = access_unit_packets(au, mtu);
    Seq::new(s.len(), |k: int| (s[k].0, k == s.len() - 1))
}

/// No FU-A fragment is marked.
proof fn lemma_fragments_unmarked(nal: Seq<u8>, payload_size: int, offset: int)
    ensures
        forall|k: int|
            0 <= k < fragments_from(nal, payload_size, offset).len() ==> !(#[trigger] fragments_from(
                nal,
                payload_size,
                offset,
            )[k]).1,
    decreases nal.len() - offset,
{
    if !(offset >= nal.len() || payload_size <= 0 || offset < 1) {
        let end = if offset + payload_size < nal.len() {
            offset + payload_size
        } else {
            nal.len() as int
        };
        lemma_fragments_unmarked(nal, payload_size, end);
        let f = fragments_from(nal, payload_size, offset);
        let t = fragments_from(nal, payload_size, end);
        assert forall|k: int| 0 <= k < f.len() implies !(#[trigger] f[k]).1 by {
            if k > 0 {
                assert(f[k] == t[k - 1]);
            }
        }
    }
}

/// No packet of the NAL units `units[i..]` is marked.
proof fn lemma_units_unmarked(units: Seq<Seq<u8>>, mtu: int, i: int)
    ensures
        forall|k: int|
            0 <= k < units_packets_from(units, mtu, i).len() ==> !(#[trigger] units_packets_from(
                units,
                mtu,
                i,
            )[k]).1,
    decreases units.len() - i,
{
    if 0 <= i < units.len() {
        lemma_units_unmarked(units, mtu, i + 1);
        lemma_fragments_unmarked(units[i], mtu - RTP_HEADER_LEN - 2, 1);
        let h = nal_packets(units[i], mtu);
        let t = units_packets_from(units, mtu, i + 1);
        let f = units_packets_from(units, mtu, i);
        assert(f == h + t);
        assert forall|k: int| 0 <= k < f.len() implies !(#[trigger] f[k]).1 by {
            if k < h.len() {
                assert(f[k] == h[k]);
            } else {
                assert(f[k] == t[k - h.len()]);
            }
        }
    }
}

/// The RTP sequence number `k` steps after `first`.
pub open spec fn seq_after(first: int, k: int) -> u16 {
    ((first + k) % 65536) as u16
}

/// `p` carries exactly the payloads `expected`, all stamped `ts`, with sequence
/// numbers counting up from `first`.
pub open spec fn payloads_match(
    p: Seq<RtpPayload>,
    expected: Seq<(Seq<u8>, bool)>,
    ts: u64,
    first: int,
) -> bool {
    &&& p.len() == expected.len()
    &&& forall|k: int|
        0 <= k < p.len() ==> {
            &&& (#[trigger] p[k]).data@ == expected[k].0
            &&& p[k].marker == expected[k].1
            &&& p[k].timestamp == ts
            &&& p[k].sequence_number == seq_after(first, k)
        }
}

/// An access unit can be packetized under `mtu` without arithmetic underflow
/// or a zero-sized fragment: there is room for the RTP header, and for
/// fragments when some unit needs them.
pub open spec fn packetizable(mtu: int, au: Seq<u8>) -> bool {
    forall|i: int|
        0 <= i < annexb_units(au, 0).len() ==> {
            &&& mtu >= RTP_HEADER_LEN
            &&& (#[trigger] annexb_units(au, 0)[i]).len() + RTP_HEADER_LEN <= mtu || mtu
                > RTP_HEADER_LEN + 2
        }
}

proof fn lemma_payloads_concat(
    a: Seq<RtpPayload>,
    ea: Seq<(Seq<u8>, bool)>,
    b: Seq<RtpPayload>,
    eb: Seq<(Seq<u8>, bool)>,
    ts: u64,
    first: int,
)
    requires
        first >= 0,
        payloads_match(a, ea, ts, first),
        payloads_match(b, eb, ts, (first + a.len()) % 65536),
    ensures
        payloads_match(a + b, ea + eb, ts, first),
{
    let ab = a + b;
    let e = ea + eb;
    assert forall|k: int| 0 <= k < ab.len() implies {
        &&& (#[trigger] ab[k]).data@ == e[k].0
        &&& ab[k].marker == e[k].1
        &&& ab[k].timestamp == ts
        &&& ab[k].sequence_number == seq_after(first, k)
    } by {
        if k >= a.len() {
            let j = k - a.len();
            assert(ab[k] == b[j]);
            assert(e[k] == eb[j]);
            vstd::arithmetic::div_mod::lemma_add_mod_noop(first + a.len(), j, 65536);
            vstd::arithmetic::div_mod::lemma_mod_twice(first + a.len(), 65536);
        } else {
            assert(ab[k] == a[k]);
            assert(e[k] == ea[k]);
        }
    }
}


// ---------------------------------------------------------------------------
// Reassembly (the receiving side of RFC 6184) and the laws of packetization
// ---------------------------------------------------------------------------

/// NAL units recovered by a receiver from packet payloads in order: an FU-A
/// packet (type 28) with the start bit opens a unit whose header combines the
/// FU indicator's F/NRI bits with the FU header's type, later fragments append
/// their bytes, and the fragment with the end bit closes it; any other payload
/// is a whole NAL unit.
pub open spec fn reassemble(pkts: Seq<(Seq<u8>, bool)>, partial: Option<Seq<u8>>) -> Seq<Seq<u8>>
    decreases pkts.len(),
{
    if pkts.len() == 0 {
        seq![]
    } else {
        let d = pkts[0].0;
        let rest = pkts.drop_first();
        if d.len() >= 2 && d[0] & 0x1Fu8 == 28u8 {
            let hdr = d[1];
            let body = d.subrange(2, d.len() as int);
            let grown: Option<Seq<u8>> = if hdr & 0x80u8 != 0 {
                Some(seq![(d[0] & 0xE0u8) | (hdr & 0x1Fu8)] + body)
            } else {
                match partial {
                    Some(p) => Some(p + body),
                    None => None,
                }
            };
            if hdr & 0x40u8 != 0 {
                match grown {
                    Some(n) => seq![n] + reassemble(rest, None),
                    None => reassemble(rest, None),
                }
            } else {
                reassemble(rest, grown)
            }
        } else {
            seq![d] + reassemble(rest, None)
        }
    }
}

proof fn lemma_fu_bits(x: u8, start: bool, end: bool)
    ensures
        fu_indicator(x) & 0x1Fu8 == 28u8,
        (fu_header(x, start, end) & 0x80u8 != 0) == start,
        (fu_header(x, start, end) & 0x40u8 != 0) == end,
        (fu_indicator(x) & 0xE0u8) | (fu_header(x, start, end) & 0x1Fu8) == x,
{
    assert(((x & 0xE0u8) | 28u8) & 0x1Fu8 == 28u8) by (bit_vector);
    assert((((0x80u8 | 0x40u8) | (x & 0x1Fu8)) & 0x80u8 != 0) && (((0x80u8 | 0x40u8) | (x
        & 0x1Fu8)) & 0x40u8 != 0)) by (bit_vector);
    assert((((0x80u8 | 0x00u8) | (x & 0x1Fu8)) & 0x80u8 != 0) && (((0x80u8 | 0x00u8) | (x
        & 0x1Fu8)) & 0x40u8 == 0)) by (bit_vector);
    assert((((0x00u8 | 0x40u8) | (x & 0x1Fu8)) & 0x80u8 == 0) && (((0x00u8 | 0x40u8) | (x
        & 0x1Fu8)) & 0x40u8 != 0)) by (bit_vector);
    assert((((0x00u8 | 0x00u8) | (x & 0x1Fu8)) & 0x80u8 == 0) && (((0x00u8 | 0x00u8) | (x
        & 0x1Fu8)) & 0x40u8 == 0)) by (bit_vector);
    assert(forall|h: u8|
        h & 0x1Fu8 == x & 0x1Fu8 ==> (((x & 0xE0u8) | 28u8) & 0xE0u8) | (h & 0x1Fu8) == x)
        by (bit_vector);
    assert(((if start { 0x80u8 } else { 0x00u8 }) | (if end { 0x40u8 } else { 0x00u8 }) | (x
        & 0x1Fu8)) & 0x1Fu8 == x & 0x1Fu8) by {
        assert(forall|a: u8, b: u8|
            (a == 0x80u8 || a == 0u8) && (b == 0x40u8 || b == 0u8) ==> ((a | b) | (x & 0x1Fu8))
                & 0x1Fu8 == x & 0x1Fu8) by (bit_vector);
    }
}

proof fn lemma_reassemble_fragments(
    n: Seq<u8>,
    ps: int,
    off: int,
    b: Seq<(Seq<u8>, bool)>,
    partial: Option<Seq<u8>>,
)
    requires
        ps > 0,
        1 <= off < n.len(),
        off == 1 || partial == Some(n.subrange(0, off)),
    ensures
        reassemble(fragments_from(n, ps, off) + b, partial) == seq![n] + reassemble(b, None),
    decreases n.len() - off,
{
    let end = if off + ps < n.len() {
        off + ps
    } else {
        n.len() as int
    };
    let last = end == n.len();
    let d = seq![fu_indicator(n[0]), fu_header(n[0], off == 1, last)] + n.subrange(off, end);
    let tail = fragments_from(n, ps, end);
    let all = fragments_from(n, ps, off) + b;
    assert(fragments_from(n, ps, off) == seq![(d, false)] + tail);
    assert(all[0] == (d, false));
    assert(all.drop_first() =~= tail + b);
    lemma_fu_bits(n[0], off == 1, last);
    assert(d[0] == fu_indicator(n[0]));
    assert(d[1] == fu_header(n[0], off == 1, last));
    let body = d.subrange(2, d.len() as int);
    assert(body =~= n.subrange(off, end));
    let grown = if off == 1 {
        seq![n[0]] + body
    } else {
        n.subrange(0, off) + body
    };
    assert(grown =~= n.subrange(0, end));
    if last {
        assert(n.subrange(0, end) =~= n);
        assert(tail =~= seq![]);
        assert(tail + b =~= b);
    } else {
        lemma_reassemble_fragments(n, ps, end, b, Some(n.subrange(0, end)));
    }
}

proof fn lemma_reassemble_units(units: Seq<Seq<u8>>, mtu: int, i: int)
    requires
        0 <= i <= units.len(),
        forall|j: int| 0 <= j < units.len() ==> (#[trigger] units[j]).len() > 0,
        forall|j: int| 0 <= j < units.len() ==> #[trigger] units[j][0] & 0x1Fu8 != 28u8,
        mtu >= RTP_HEADER_LEN,
        forall|j: int|
            0 <= j < units.len() ==> (#[trigger] units[j]).len() + RTP_HEADER_LEN <= mtu || mtu
                > RTP_HEADER_LEN + 2,
    ensures
        reassemble(units_packets_from(units, mtu, i), None) == units.subrange(i, units.len() as int),
    decreases units.len() - i,
{
    if i < units.len() {
        let u = units[i];
        assert(u.len() > 0);
        assert(u[0] & 0x1Fu8 != 28u8);
        let rest = units_packets_from(units, mtu, i + 1);
        lemma_reassemble_units(units, mtu, i + 1);
        assert(units_packets_from(units, mtu, i) == nal_packets(u, mtu) + rest);
        if u.len() + RTP_HEADER_LEN <= mtu {
            let all = nal_packets(u, mtu) + rest;
            assert(all[0] == (u, false));
            assert(all.drop_first() =~= rest);
        } else {
            lemma_reassemble_fragments(u, mtu - RTP_HEADER_LEN - 2, 1, rest, None);
        }
        assert(units.subrange(i, units.len() as int) =~= seq![u] + units.subrange(
            i + 1,
            units.len() as int,
        ));
    } else {
        assert(units.subrange(i, units.len() as int) =~= seq![]);
    }
}

/// Packetization is lossless: a receiver that reassembles the payloads of an
/// access unit per RFC 6184 recovers exactly its NAL units, provided no unit
/// already carries the FU-A type (28), which H.264 byte streams reserve for RTP.
pub proof fn lemma_h264_packetization_roundtrip(au: Seq<u8>, mtu: int)
    requires
        packetizable(mtu, au),
        forall|j: int|
            0 <= j < annexb_units(au, 0).len() ==> #[trigger] annexb_units(au, 0)[j][0] & 0x1Fu8
                != 28u8,
    ensures
        reassemble(rtp_packets(au, mtu), None) == annexb_units(au, 0),
{
    let units = annexb_units(au, 0);
    lemma_annexb_units_nonempty(au, 0);
    if units.len() > 0 {
        assert(units[0].len() > 0);
        lemma_reassemble_units(units, mtu, 0);
    }
    assert(units.subrange(0, units.len() as int) =~= units);
    lemma_reassemble_reads_payloads(access_unit_packets(au, mtu), rtp_packets(au, mtu), None);
}

/// Reassembly reads the payloads only: packets with the same payloads give
/// the same units, whatever their marker bits.
proof fn lemma_reassemble_reads_payloads(
    a: Seq<(Seq<u8>, bool)>,
    b: Seq<(Seq<u8>, bool)>,
    partial: Option<Seq<u8>>,
)
    requires
        a.len() == b.len(),
        forall|k: int| 0 <= k < a.len() ==> (#[trigger] a[k]).0 == b[k].0,
    ensures
        reassemble(a, partial) == reassemble(b, partial),
    decreases a.len(),
{
    if a.len() > 0 {
        assert(a[0].0 == b[0].0);
        let ra = a.drop_first();
        let rb = b.drop_first();
        assert forall|k: int| 0 <= k < ra.len() implies (#[trigger] ra[k]).0 == rb[k].0 by {
            assert(ra[k] == a[k + 1]);
            assert(rb[k] == b[k + 1]);
        }
        let d = a[0].0;
        if d.len() >= 2 && d[0] & 0x1Fu8 == 28u8 {
            let hdr = d[1];
            let body = d.subrange(2, d.len() as int);
            let grown: Option<Seq<u8>> = if hdr & 0x80u8 != 0 {
                Some(seq![(d[0] & 0xE0u8) | (hdr & 0x1Fu8)] + body)
            } else {
                match partial {
                    Some(p) => Some(p + body),
                    None => None,
                }
            };
            lemma_reassemble_reads_payloads(ra, rb, None);
            lemma_reassemble_reads_payloads(ra, rb, grown);
        } else {
            lemma_reassemble_reads_payloads(ra, rb, None);
        }
    }
}

proof fn lemma_fragments_fit(n: Seq<u8>, ps: int, off: int)
    requires
        ps > 0,
        off >= 1,
    ensures
        forall|k: int|
            0 <= k < fragments_from(n, ps, off).len() ==> (#[trigger] fragments_from(n, ps, off)[k]).0.len()
                <= ps + 2,
    decreases n.len() - off,
{
    if off < n.len() {
        let end = if off + ps < n.len() {
            off + ps
        } else {
            n.len() as int
        };
        lemma_fragments_fit(n, ps, end);
        let f = fragments_from(n, ps, off);
        let t = fragments_from(n, ps, end);
        assert forall|k: int| 0 <= k < f.len() implies (#[trigger] f[k]).0.len() <= ps + 2 by {
            if k > 0 {
                assert(f[k] == t[k - 1]);
            }
        }
    }
}

proof fn lemma_units_fit(units: Seq<Seq<u8>>, mtu: int, i: int)
    requires
        0 <= i <= units.len(),
        mtu >= RTP_HEADER_LEN,
        forall|j: int|
            0 <= j < units.len() ==> (#[trigger] units[j]).len() + RTP_HEADER_LEN <= mtu || mtu
                > RTP_HEADER_LEN + 2,
    ensures
        forall|k: int|
            0 <= k < units_packets_from(units, mtu, i).len() ==> (#[trigger] units_packets_from(
                units,
                mtu,
                i,
            )[k]).0.len() + RTP_HEADER_LEN <= mtu,
    decreases units.len() - i,
{
    if i < units.len() {
        lemma_units_fit(units, mtu, i + 1);
        let u = units[i];
        let here = nal_packets(u, mtu);
        let t = units_packets_from(units, mtu, i + 1);
        let f = units_packets_from(units, mtu, i);
        assert(f == here + t);
        if u.len() + RTP_HEADER_LEN > mtu {
            lemma_fragments_fit(u, mtu - RTP_HEADER_LEN - 2, 1);
        }
        assert forall|k: int| 0 <= k < f.len() implies (#[trigger] f[k]).0.len() + RTP_HEADER_LEN
            <= mtu by {
            if k < here.len() {
                assert(f[k] == here[k]);
            } else {
                assert(f[k] == t[k - here.len()]);
            }
        }
    }
}

/// Every payload of a packetized access unit fits in the MTU budget together
/// with its RTP header.
pub proof fn lemma_h264_payloads_fit_mtu(au: Seq<u8>, mtu: int)
    requires
        packetizable(mtu, au),
    ensures
        forall|k: int|
            0 <= k < rtp_packets(au, mtu).len() ==> (#[trigger] rtp_packets(au, mtu)[k]).0.len()
                + RTP_HEADER_LEN <= mtu,
{
    let units = annexb_units(au, 0);
    if units.len() > 0 {
        assert(units[0].len() + RTP_HEADER_LEN <= mtu || mtu > RTP_HEADER_LEN + 2);
        lemma_units_fit(units, mtu, 0);
    }
    let s = access_unit_packets(au, mtu);
    let r = rtp_packets(au, mtu);
    assert forall|k: int| 0 <= k < r.len() implies (#[trigger] r[k]).0.len() + RTP_HEADER_LEN
        <= mtu by {
        assert(r[k].0 == s[k].0);
    }
}

// ---------------------------------------------------------------------------
// Packetizers

// ---------------------------------------------------------------------------

/// The error of an access unit that holds no NAL unit.
pub open spec fn no_units_message() -> Seq<char> {
    "No valid NAL units found in access unit"@
}

/// H.264 RTP packetizer implementing RFC 6184
pub struct H264RTPPacketizer {
    mtu: usize,
    sequence_number: u16,
}

impl H264RTPPacketizer {
    /// The MTU budget (RTP header included) this packetizer fills.
    pub closed spec fn mtu_budget(&self) -> usize {
        self.mtu
    }

    /// The sequence number the next packet will carry.
    pub closed spec fn next_sequence(&self) -> u16 {
        self.sequence_number
    }

    /// Create a new H.264 RTP packetizer
    pub fn new(mtu: usize) -> (p: Self)
        ensures
            p.mtu_budget() == if mtu < MAX_MTU_BUDGET {
                mtu
            } else {
                MAX_MTU_BUDGET
            },
            p.next_sequence() == 0,
    {
        Self { mtu: if mtu < MAX_MTU_BUDGET { mtu } else { MAX_MTU_BUDGET }, sequence_number: 0 }
    }

    /// Packetize an Annex B H.264 access unit into RTP payloads
    pub fn packetize(&mut self, access_unit: &[u8], timestamp: u64) -> (res: Result<
        Vec<RtpPayload>,
        String,
    >)
        requires
            packetizable(old(self).mtu_budget() as int, access_unit@),
        ensures
            final(self).mtu_budget() == old(self).mtu_budget(),
            match res {
                Ok(payloads) => {
                    &&& annexb_units(access_unit@, 0).len() > 0
                    &&& payloads_match(
                        payloads@,
                        rtp_packets(access_unit@, old(self).mtu_budget() as int),
                        timestamp,
                        old(self).next_sequence() as int,
                    )
                    &&& final(self).next_sequence() == seq_after(
                        old(self).next_sequence() as int,
                        payloads@.len() as int,
                    )
                },
                Err(msg) => {
                    &&& annexb_units(access_unit@, 0).len() == 0
                    &&& msg@ == no_units_message()
                    &&& final(self).next_sequence() == old(self).next_sequence()
                },
            },
    {
        let nal_units = match Self::parse_annex_b_nal_units(access_unit) {
            Ok(u) => u,
            Err(e) => {
                return Err(e);
            },
        };
        let ghost units = annexb_units(access_unit@, 0);
        let ghost mtu = self.mtu as int;
        let ghost seq0 = self.sequence_number as int;
        proof {
            lemma_annexb_units_nonempty(access_unit@, 0);
        }
        let mut payloads: Vec<RtpPayload> = Vec::new();
        let n = nal_units.len();
        let mut i: usize = 0;
        while i < n
            invariant
                n == nal_units@.len(),
                n == units.len(),
                0 <= i <= n,
                mtu == self.mtu,
                0 <= seq0 < 65536,
                forall|j: int| 0 <= j < n ==> (#[trigger] nal_units@[j])@ == units[j],
                forall|j: int| 0 <= j < n ==> (#[trigger] units[j]).len() > 0,
                packetizable(mtu, access_unit@),
                units == annexb_units(access_unit@, 0),
                payloads_match(
                    payloads@,
                    units_packets_from(units, mtu, 0).take(payloads@.len() as int),
                    timestamp,
                    seq0,
                ),
                units_packets_from(units, mtu, 0) =~= units_packets_from(units, mtu, 0).take(
                    payloads@.len() as int,
                ) + units_packets_from(units, mtu, i as int),
                self.sequence_number == seq_after(seq0, payloads@.len() as int),
            decreases n - i,
        {
            let nal_unit = nal_units[i];
            assert(units[i as int].len() > 0);
            assert(nal_unit@ == units[i as int]);
            let ghost before = payloads@;
            let ghost rest = units_packets_from(units, mtu, i as int);
            let ghost this = nal_packets(units[i as int], mtu);
            assert(rest =~= this + units_packets_from(units, mtu, i + 1));
            if nal_unit.len() <= self.mtu - RTP_HEADER_LEN {
                let payload = slice_to_vec(nal_unit);
                payloads.push(
                    RtpPayload {
                        data: payload,
                        timestamp,
                        sequence_number: self.sequence_number,
                        marker: false,
                    },
                );
                self.sequence_number = self.sequence_number.wrapping_add(1);
                proof {
                    assert(this =~= seq![(units[i as int], false)]);
                    let one = seq![payloads@[before.len() as int]];
                    assert(payloads@ =~= before + one);
                    vstd::arithmetic::div_mod::lemma_mod_twice(seq0 + before.len(), 65536);
                    lemma_payloads_concat(
                        before,
                        units_packets_from(units, mtu, 0).take(before.len() as int),
                        one,
                        this,
                        timestamp,
                        seq0,
                    );
                    vstd::arithmetic::div_mod::lemma_add_mod_noop(seq0 + before.len(), 1, 65536);
                    vstd::arithmetic::div_mod::lemma_mod_twice(seq0 + before.len() + 1, 65536);
                }
            } else {
                let mut frags = self.fragment_nal_unit(nal_unit, timestamp);
                let ghost fr = frags@;
                payloads.append(&mut frags);
                proof {
                    vstd::arithmetic::div_mod::lemma_mod_twice(seq0 + before.len(), 65536);
                    lemma_payloads_concat(
                        before,
                        units_packets_from(units, mtu, 0).take(before.len() as int),
                        fr,
                        this,
                        timestamp,
                        seq0,
                    );
                    vstd::arithmetic::div_mod::lemma_add_mod_noop(seq0 + before.len(), fr.len() as int, 65536);
                    vstd::arithmetic::div_mod::lemma_mod_twice(seq0 + before.len() + fr.len(), 65536);
                }
            }
            proof {
                let all = units_packets_from(units, mtu, 0);
                assert(all.take(payloads@.len() as int) =~= all.take(before.len() as int) + this);
            }
            i += 1;
        }
        proof {
            let all = units_packets_from(units, mtu, 0);
            assert(units_packets_from(units, mtu, n as int) =~= seq![]);
            assert(all.take(payloads@.len() as int) =~= all);
        }
        let ghost unmarked = payloads@;
        if payloads.len() > 0 {
            let mut last = payloads.pop().unwrap();
            last.marker = true;
            payloads.push(last);
        }
        proof {
            let all = units_packets_from(units, mtu, 0);
            let target = rtp_packets(access_unit@, mtu);
            lemma_units_unmarked(units, mtu, 0);
            assert(payloads@.len() == unmarked.len());
            assert forall|k: int| 0 <= k < payloads@.len() implies {
                &&& (#[trigger] payloads@[k]).data@ == target[k].0
                &&& payloads@[k].marker == target[k].1
                &&& payloads@[k].timestamp == timestamp
                &&& payloads@[k].sequence_number == seq_after(seq0, k)
            } by {
                assert(unmarked[k].data@ == all[k].0);
                assert(!all[k].1);
                if k < payloads@.len() - 1 {
                    assert(payloads@[k] == unmarked[k]);
                }
            }
        }
        Ok(payloads)
    }

    /// Parse Annex B start codes to extract NAL units
    fn parse_annex_b_nal_units(data: &[u8]) -> (res: Result<Vec<&[u8]>, String>)
        ensures
            match res {
                Ok(units) => {
                    &&& units@.len() == annexb_units(data@, 0).len()
                    &&& units@.len() > 0
                    &&& forall|j: int|
                        0 <= j < units@.len() ==> (#[trigger] units@[j])@ == annexb_units(
                            data@,
                            0,
                        )[j]
                },
                Err(msg) => annexb_units(data@, 0).len() == 0 && msg@ == no_units_message(),
            },
    {
        let ghost s = data@;
        let mut nal_units: Vec<&[u8]> = Vec::new();
        let mut start: usize = 0;
        let len = data.len();
        loop
            invariant
                len == s.len(),
                s == data@,
                start <= len,
                nal_units@.len() + annexb_units(s, start as int).len() == annexb_units(s, 0).len(),
                forall|j: int|
                    0 <= j < nal_units@.len() ==> (#[trigger] nal_units@[j])@ == annexb_units(s, 0)[j],
                forall|j: int|
                    0 <= j < annexb_units(s, start as int).len() ==> annexb_units(s, 0)[j
                        + nal_units@.len()] == #[trigger] annexb_units(s, start as int)[j],
            ensures
                annexb_units(s, start as int).len() == 0,
                nal_units@.len() == annexb_units(s, 0).len(),
                forall|j: int|
                    0 <= j < nal_units@.len() ==> (#[trigger] nal_units@[j])@ == annexb_units(s, 0)[j],
            decreases len - start,
        {
            if start >= len {
                break;
            }
            let c: usize = if len - start > 3 && data[start] == 0 && data[start + 1] == 0
                && data[start + 2] == 0 && data[start + 3] == 1 {
                4
            } else if len - start > 2 && data[start] == 0 && data[start + 1] == 0 && data[start
                + 2] == 1 {
                3
            } else {
                0
            };
            if c == 0 {
                break;
            }
            assert(c as int == start_code_len(s, start as int));
            let mut end: usize = start + c;
            loop
                invariant
                    len == s.len(),
                    s == data@,
                    start + c <= end <= len,
                    nal_end(s, end as int) == nal_end(s, (start + c) as int),
                ensures
                    end as int == nal_end(s, (start + c) as int),
                    start + c <= end <= len,
                decreases len - end,
            {
                if end >= len {
                    break;
                }
                if len - end > 2 && data[end] == 0 && data[end + 1] == 0 && data[end + 2] == 1 {
                    break;
                }
                if len - end > 3 && data[end] == 0 && data[end + 1] == 0 && data[end + 2] == 0
                    && data[end + 3] == 1 {
                    break;
                }
                end += 1;
            }
            let ghost old_units = nal_units@;
            let ghost rest_before = annexb_units(s, start as int);
            let ghost rest_after = annexb_units(s, end as int);
            if end > start + c {
                let unit = &data[start + c..end];
                nal_units.push(unit);
                assert(rest_before =~= seq![s.subrange((start + c) as int, end as int)]
                    + rest_after);
                assert forall|j: int| 0 <= j < nal_units@.len() implies (#[trigger] nal_units@[j])@
                    == annexb_units(s, 0)[j] by {
                    if j == old_units.len() {
                        assert(rest_before[0] == annexb_units(s, 0)[j]);
                    }
                }
                assert forall|j: int| 0 <= j < rest_after.len() implies annexb_units(s, 0)[j
                    + nal_units@.len()] == #[trigger] rest_after[j] by {
                    assert(rest_before[j + 1] == rest_after[j]);
                }
            } else {
                assert(rest_before == rest_after);
            }
            start = end;
        }
        if nal_units.len() == 0 {
            return Err("No valid NAL units found in access unit".to_string());
        }
        Ok(nal_units)
    }

    /// Fragment a large NAL unit using FU-A
    #[verifier::spinoff_prover]
    fn fragment_nal_unit(&mut self, nal_unit: &[u8], timestamp: u64) -> (res: Vec<RtpPayload>)
        requires
            old(self).mtu > RTP_HEADER_LEN + 2,
        ensures
            final(self).mtu == old(self).mtu,
            payloads_match(
                res@,
                fragments_from(nal_unit@, old(self).mtu - RTP_HEADER_LEN - 2, 1),
                timestamp,
                old(self).sequence_number as int,
            ),
            final(self).sequence_number == seq_after(
                old(self).sequence_number as int,
                res@.len() as int,
            ),
    {
        let ghost seq0 = self.sequence_number as int;
        let ghost nal = nal_unit@;
        let mut payloads: Vec<RtpPayload> = Vec::new();
        if nal_unit.len() == 0 {
            return payloads;
        }
        let nal_header = nal_unit[0];
        let nal_type = nal_header & 0x1F;
        let fu_indicator_byte = (nal_header & 0xE0) | 28;
        let payload_size = self.mtu - RTP_HEADER_LEN - 2;
        let ghost ps = payload_size as int;
        let mut offset: usize = 1;
        while offset < nal_unit.len()
            invariant
                nal == nal_unit@,
                nal.len() > 0,
                nal_header == nal[0],
                nal_type == nal_header & 0x1F,
                fu_indicator_byte == fu_indicator(nal_header),
                payload_size == self.mtu - RTP_HEADER_LEN - 2,
                payload_size > 0,
                ps == payload_size,
                1 <= offset <= nal.len(),
                0 <= seq0 < 65536,
                fragments_from(nal, ps, 1) =~= fragments_from(nal, ps, 1).take(payloads@.len() as int)
                    + fragments_from(nal, ps, offset as int),
                payloads_match(
                    payloads@,
                    fragments_from(nal, ps, 1).take(payloads@.len() as int),
                    timestamp,
                    seq0,
                ),
                self.sequence_number == seq_after(seq0, payloads@.len() as int),
            decreases nal.len() - offset,
        {
            let end = if payload_size < nal_unit.len() - offset {
                offset + payload_size
            } else {
                nal_unit.len()
            };
            let is_last = end == nal_unit.len();
            let start_bit: u8 = if offset == 1 { 0x80 } else { 0x00 };
            let end_bit: u8 = if is_last { 0x40 } else { 0x00 };
            let fu_header_byte: u8 = (start_bit | end_bit) | nal_type;
            let mut payload: Vec<u8> = Vec::new();
            payload.push(fu_indicator_byte);
            payload.push(fu_header_byte);
            let mut k: usize = offset;
            while k < end
                invariant
                    nal == nal_unit@,
                    offset <= k <= end <= nal.len(),
                    payload@ =~= seq![fu_indicator_byte, fu_header_byte] + nal.subrange(
                        offset as int,
                        k as int,
                    ),
                decreases end - k,
            {
                payload.push(nal_unit[k]);
                k += 1;
            }
            let ghost before = payloads@;
            let ghost item = (payload@, false);
            assert(fu_header_byte == fu_header(nal_header, offset == 1, is_last));
            assert(payload@ =~= seq![fu_indicator(nal[0]), fu_header(nal[0], offset == 1, is_last)]
                + nal.subrange(offset as int, end as int));
            assert(end as int == if offset + ps < nal.len() { offset + ps } else { nal.len() as int });
            assert(fragments_from(nal, ps, offset as int) =~= seq![item] + fragments_from(
                nal,
                ps,
                end as int,
            )) by {
                assert(offset < nal.len() && ps > 0 && offset >= 1);
                assert(item.1 == false);
            }
            payloads.push(
                RtpPayload {
                    data: payload,
                    timestamp,
                    sequence_number: self.sequence_number,
                    marker: false,
                },
            );
            self.sequence_number = self.sequence_number.wrapping_add(1);
            proof {
                let all = fragments_from(nal, ps, 1);
                let one = seq![payloads@[before.len() as int]];
                assert(payloads@ =~= before + one);
                vstd::arithmetic::div_mod::lemma_mod_twice(seq0 + before.len(), 65536);
                lemma_payloads_concat(
                    before,
                    all.take(before.len() as int),
                    one,
                    seq![item],
                    timestamp,
                    seq0,
                );
                assert(all.take(payloads@.len() as int) =~= all.take(before.len() as int) + seq![
                    item,
                ]);
                vstd::arithmetic::div_mod::lemma_add_mod_noop(seq0 + before.len(), 1, 65536);
                vstd::arithmetic::div_mod::lemma_mod_twice(seq0 + before.len() + 1, 65536);
            }
            offset = end;
        }
        proof {
            let all = fragments_from(nal, ps, 1);
            assert(all.take(payloads@.len() as int) =~= all);
        }
        payloads
    }
}

/// Opus RTP packetizer implementing RFC 7587
pub struct OpusRTPPacketizer {
    sequence_number: u16,
    timestamp: u64,
}

impl OpusRTPPacketizer {
    /// The sequence number the next packet will carry.
    pub closed spec fn next_sequence(&self) -> u16 {
        self.sequence_number
    }

    /// The RTP timestamp (48 kHz sample clock) the next packet will carry.
    pub closed spec fn next_timestamp(&self) -> u64 {
        self.timestamp
    }

    /// Create a new Opus RTP packetizer
    pub fn new() -> (p: Self)
        ensures
            p.next_sequence() == 0,
            p.next_timestamp() == 0,
    {
        Self { sequence_number: 0, timestamp: 0 }
    }

    /// Packetize an Opus packet into RTP payload
    pub fn packetize(&mut self, opus_packet: &[u8], samples: u32) -> (res: Result<RtpPayload, String>)
        ensures
            res matches Ok(p) && {
                &&& p.data@ == opus_packet@
                &&& p.timestamp == old(self).next_timestamp()
                &&& p.sequence_number == old(self).next_sequence()
                &&& p.marker
            },
            final(self).next_sequence() == seq_after(old(self).next_sequence() as int, 1),
            final(self).next_timestamp() == vstd::wrapping::u64_specs::wrapping_add(
                old(self).next_timestamp(),
                samples as u64,
            ),
    {
        let payload = RtpPayload {
            data: slice_to_vec(opus_packet),
            timestamp: self.timestamp,
            sequence_number: self.sequence_number,
            marker: true,
        };
        self.sequence_number = self.sequence_number.wrapping_add(1);
        self.timestamp = self.timestamp.wrapping_add(samples as u64);
        Ok(payload)
    }
}

} // verus!
