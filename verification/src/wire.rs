//! The NTP wire format: building the 48-byte request, parsing the
//! response header and timestamps, and the four-timestamp offset/delay
//! arithmetic. All derived times are integer microseconds.

use vstd::prelude::*;

use crate::MAX_UNIX_US;

verus! {

/// Seconds between the NTP epoch (1900-01-01) and the Unix epoch (1970-01-01).
pub const NTP_TO_UNIX_EPOCH: u64 = 2_208_988_800;

/// Size of an SNTP packet in bytes.
pub const NTP_PACKET_SIZE: usize = 48;

/// Upper bound (exclusive) on a timestamp converted from an NTP wire
/// timestamp: the NTP seconds field is 32 bits, so the Unix microsecond
/// value stays below (2^32 - NTP_TO_UNIX_EPOCH) * 10^6.
pub const MAX_NTP_UNIX_US: i64 = 2_086_000_000_000_000;

/// A big-endian 32-bit word read from four bytes.
pub open spec fn spec_be32(b0: u8, b1: u8, b2: u8, b3: u8) -> u32 {
    (b0 as u32 * 0x1000000 + b1 as u32 * 0x10000 + b2 as u32 * 0x100 + b3 as u32) as u32
}

/// Reads a big-endian 32-bit word from four bytes.
pub fn be32(b0: u8, b1: u8, b2: u8, b3: u8) -> (r: u32)
    ensures
        r == spec_be32(b0, b1, b2, b3),
{
    b0 as u32 * 0x1000000 + b1 as u32 * 0x10000 + b2 as u32 * 0x100 + b3 as u32
}

/// Builds the 48-byte client request: LI=0, VN=3, Mode=3 in the first
/// byte, every other byte zero.
pub fn build_ntp_request() -> (r: Vec<u8>)
    ensures
        r@.len() == NTP_PACKET_SIZE,
        r@[0] == 0x1bu8,
        forall|i: int| 1 <= i < r@.len() ==> r@[i] == 0u8,
{
    let mut packet: Vec<u8> = Vec::new();
    packet.push(0x1b);
    let mut i: usize = 1;
    while i < NTP_PACKET_SIZE
        invariant
            1 <= i <= NTP_PACKET_SIZE,
            packet@.len() == i,
            packet@[0] == 0x1bu8,
            forall|j: int| 1 <= j < i ==> packet@[j] == 0u8,
        decreases NTP_PACKET_SIZE - i,
    {
        packet.push(0);
        i = i + 1;
    }
    packet
}

/// The seconds and fraction words of the 64-bit NTP timestamp that starts
/// at byte `offset` of the packet.
pub open spec fn spec_ntp_timestamp(packet: Seq<u8>, offset: int) -> (u64, u64)
    recommends
        0 <= offset,
        offset + 8 <= packet.len(),
{
    (
        spec_be32(packet[offset], packet[offset + 1], packet[offset + 2], packet[offset + 3]) as u64,
        spec_be32(packet[offset + 4], packet[offset + 5], packet[offset + 6], packet[offset + 7]) as u64,
    )
}

/// Reads the 64-bit NTP timestamp that starts at byte `offset` of the
/// packet, as its 32-bit seconds and fraction words.
pub fn extract_ntp_timestamp(packet: &[u8], offset: usize) -> (r: (u64, u64))
    requires
        offset + 8 <= packet@.len(),
    ensures
        r == spec_ntp_timestamp(packet@, offset as int),
        r.0 < 0x1_0000_0000,
        r.1 < 0x1_0000_0000,
{
    let seconds = be32(packet[offset], packet[offset + 1], packet[offset + 2], packet[offset + 3]);
    let fraction = be32(
        packet[offset + 4],
        packet[offset + 5],
        packet[offset + 6],
        packet[offset + 7],
    );
    (seconds as u64, fraction as u64)
}

/// The Unix-epoch microsecond value of an NTP timestamp. An all-zero or
/// pre-Unix-epoch timestamp reads as 0 rather than as an error.
pub open spec fn spec_ntp_to_unix_us(seconds: int, fraction: int) -> int {
    if seconds < NTP_TO_UNIX_EPOCH {
        0
    } else {
        (seconds - NTP_TO_UNIX_EPOCH) * 1_000_000 + fraction * 1_000_000 / 0x1_0000_0000
    }
}

/// Converts an NTP timestamp (32-bit seconds and fraction words) to Unix
/// microseconds; zero and pre-epoch timestamps map to 0.
pub fn ntp_to_unix_micros(seconds: u64, fraction: u64) -> (r: i64)
    requires
        seconds < 0x1_0000_0000,
        fraction < 0x1_0000_0000,
    ensures
        r == spec_ntp_to_unix_us(seconds as int, fraction as int),
        0 <= r < MAX_NTP_UNIX_US,
{
    if seconds < NTP_TO_UNIX_EPOCH {
        return 0;
    }
    let unix_seconds = seconds - NTP_TO_UNIX_EPOCH;
    let whole = unix_seconds * 1_000_000;
    let part = fraction * 1_000_000 / 0x1_0000_0000;
    (whole + part) as i64
}

/// The clock offset estimated from one exchange: ((t2-t1)+(t3-t4))/2.
pub open spec fn spec_offset(t1: int, t2: int, t3: int, t4: int) -> int {
    ((t2 - t1) + (t3 - t4)) / 2
}

/// The round-trip delay estimated from one exchange: (t4-t1)-(t3-t2).
pub open spec fn spec_delay(t1: int, t2: int, t3: int, t4: int) -> int {
    (t4 - t1) - (t3 - t2)
}

/// Computes the offset and delay of one exchange from its four
/// timestamps (microseconds); the division in the offset rounds toward
/// negative infinity.
pub fn compute_offset_delay(t1: i64, t2: i64, t3: i64, t4: i64) -> (r: (i64, i64))
    requires
        0 <= t1 <= MAX_UNIX_US,
        0 <= t2 <= MAX_UNIX_US,
        0 <= t3 <= MAX_UNIX_US,
        0 <= t4 <= MAX_UNIX_US,
    ensures
        r.0 == spec_offset(t1 as int, t2 as int, t3 as int, t4 as int),
        r.1 == spec_delay(t1 as int, t2 as int, t3 as int, t4 as int),
{
    let sum: i64 = (t2 - t1) + (t3 - t4);
    let offset = sum.checked_div_euclid(2).unwrap();
    let delay: i64 = (t4 - t1) - (t3 - t2);
    (offset, delay)
}

/// Whether a byte is printable ASCII.
pub open spec fn is_printable(b: u8) -> bool {
    0x20 <= b <= 0x7e
}

/// The printable bytes of a sequence, in order.
pub open spec fn keep_printable(s: Seq<u8>) -> Seq<u8>
    decreases s.len(),
{
    if s.len() == 0 {
        s
    } else {
        keep_printable(s.drop_last()) + if is_printable(s.last()) {
            seq![s.last()]
        } else {
            Seq::<u8>::empty()
        }
    }
}

/// The sequence with leading and trailing ASCII spaces removed.
pub open spec fn spec_trim(s: Seq<u8>) -> Seq<u8>
    decreases s.len(),
{
    if s.len() == 0 {
        s
    } else if s[0] == 0x20u8 {
        spec_trim(s.drop_first())
    } else if s.last() == 0x20u8 {
        spec_trim(s.drop_last())
    } else {
        s
    }
}

/// A byte sequence read as characters.
pub open spec fn bytes_as_chars(s: Seq<u8>) -> Seq<char> {
    s.map_values(|b: u8| b as char)
}

/// The decoded reference identifier: for stratum 0 and 1 the printable
/// bytes with surrounding spaces trimmed; otherwise the four bytes as a
/// dotted decimal quad.
pub open spec fn spec_ref_id(b: Seq<u8>, stratum: u8) -> Seq<char>
    recommends
        b.len() == 4,
{
    if stratum == 0 || stratum == 1 {
        bytes_as_chars(spec_trim(keep_printable(b)))
    } else {
        crate::text::spec_dec_u8(b[0]) + seq!['.'] + crate::text::spec_dec_u8(b[1]) + seq!['.']
            + crate::text::spec_dec_u8(b[2]) + seq!['.'] + crate::text::spec_dec_u8(b[3])
    }
}

/// Removing a leading space commutes with trimming.
proof fn lemma_trim_drop_first(s: Seq<u8>)
    requires
        s.len() > 0,
        s[0] == 0x20u8,
    ensures
        spec_trim(s) == spec_trim(s.drop_first()),
{
}

/// Removing a trailing space from a sequence whose head is not a space
/// commutes with trimming.
proof fn lemma_trim_drop_last(s: Seq<u8>)
    requires
        s.len() > 0,
        s.last() == 0x20u8,
        s[0] != 0x20u8,
    ensures
        spec_trim(s) == spec_trim(s.drop_last()),
{
}

/// Decodes the 4-byte reference identifier of a response with the given
/// stratum.
pub fn decode_reference_id(ref_id_bytes: [u8; 4], stratum: u8) -> (r: String)
    ensures
        r@ == spec_ref_id(ref_id_bytes@, stratum),
{
    let mut out = String::new();
    if stratum == 0 || stratum == 1 {
        let mut kept: Vec<u8> = Vec::new();
        let mut i: usize = 0;
        while i < 4
            invariant
                0 <= i <= 4,
                ref_id_bytes@.len() == 4,
                kept@ == keep_printable(ref_id_bytes@.take(i as int)),
            decreases 4 - i,
        {
            let b = ref_id_bytes[i];
            proof {
                let pre = ref_id_bytes@.take(i as int);
                let post = ref_id_bytes@.take(i as int + 1);
                assert(post.drop_last() =~= pre);
                assert(post.last() == b);
            }
            if b >= 0x20 && b <= 0x7e {
                kept.push(b);
            }
            i = i + 1;
        }
        proof {
            assert(ref_id_bytes@.take(4) =~= ref_id_bytes@);
        }
        // trim leading and trailing spaces off the kept bytes
        let mut lo: usize = 0;
        let mut hi: usize = kept.len();
        proof {
            assert(kept@.subrange(0, kept@.len() as int) =~= kept@);
        }
        while lo < hi && kept[lo] == 0x20
            invariant
                0 <= lo <= hi <= kept@.len(),
                spec_trim(kept@.subrange(lo as int, hi as int)) == spec_trim(kept@),
            decreases hi - lo,
        {
            proof {
                let cur = kept@.subrange(lo as int, hi as int);
                lemma_trim_drop_first(cur);
                assert(cur.drop_first() =~= kept@.subrange(lo as int + 1, hi as int));
            }
            lo = lo + 1;
        }
        while lo < hi && kept[hi - 1] == 0x20
            invariant
                0 <= lo <= hi <= kept@.len(),
                spec_trim(kept@.subrange(lo as int, hi as int)) == spec_trim(kept@),
                lo < hi ==> kept@[lo as int] != 0x20u8,
            decreases hi - lo,
        {
            proof {
                let cur = kept@.subrange(lo as int, hi as int);
                lemma_trim_drop_last(cur);
                assert(cur.drop_last() =~= kept@.subrange(lo as int, hi as int - 1));
            }
            hi = hi - 1;
        }
        proof {
            let fin = kept@.subrange(lo as int, hi as int);
            assert(spec_trim(fin) == fin);
        }
        let mut j: usize = lo;
        while j < hi
            invariant
                lo <= j <= hi <= kept@.len(),
                out@ == bytes_as_chars(kept@.subrange(lo as int, j as int)),
            decreases hi - j,
        {
            crate::text::push_char(&mut out, kept[j] as char);
            proof {
                let pre = kept@.subrange(lo as int, j as int);
                let post = kept@.subrange(lo as int, j as int + 1);
                assert(post.drop_last() =~= pre);
                assert(bytes_as_chars(post) =~= bytes_as_chars(pre).push(kept@[j as int] as char));
            }
            j = j + 1;
        }
    } else {
        crate::text::push_dec_u8(&mut out, ref_id_bytes[0]);
        crate::text::push_char(&mut out, '.');
        crate::text::push_dec_u8(&mut out, ref_id_bytes[1]);
        crate::text::push_char(&mut out, '.');
        crate::text::push_dec_u8(&mut out, ref_id_bytes[2]);
        crate::text::push_char(&mut out, '.');
        crate::text::push_dec_u8(&mut out, ref_id_bytes[3]);
        proof {
            assert(out@ =~= spec_ref_id(ref_id_bytes@, stratum));
        }
    }
    out
}

/// The failure conditions of one NTP query, each mapped to a distinct
/// code. None is retried at this layer; the session layer retries by
/// issuing further queries.
#[derive(Clone, Copy, Debug, PartialEq, Eq, Structural)]
pub enum NtpErrorKind {
    /// The local UDP socket could not be bound.
    SocketBind,
    /// The receive timeout could not be set.
    SocketTimeout,
    /// The request datagram could not be sent.
    SendError,
    /// No reply arrived, or the read failed.
    RecvError,
    /// The local clock could not be read.
    TimeError,
    /// The reply was shorter than the 48-byte packet.
    Incomplete,
}

/// The stable code string of an NTP failure.
pub open spec fn spec_ntp_code(k: NtpErrorKind) -> Seq<char> {
    match k {
        NtpErrorKind::SocketBind => "SOCKET_BIND"@,
        NtpErrorKind::SocketTimeout => "SOCKET_TIMEOUT"@,
        NtpErrorKind::SendError => "SEND_ERROR"@,
        NtpErrorKind::RecvError => "RECV_ERROR"@,
        NtpErrorKind::TimeError => "TIME_ERROR"@,
        NtpErrorKind::Incomplete => "INCOMPLETE"@,
    }
}

/// A failed NTP query as reported to callers: a description and a
/// stable code string.
pub struct NtpError {
    pub success: bool,
    pub error: String,
    pub code: String,
}

/// Builds the error report for a failed query: `success` is false, the
/// code string identifies the failure kind and the description is kept.
pub fn ntp_error(kind: NtpErrorKind, detail: String) -> (r: NtpError)
    ensures
        !r.success,
        r.error == detail,
        r.code@ == spec_ntp_code(kind),
{
    let code = match kind {
        NtpErrorKind::SocketBind => String::from_str("SOCKET_BIND"),
        NtpErrorKind::SocketTimeout => String::from_str("SOCKET_TIMEOUT"),
        NtpErrorKind::SendError => String::from_str("SEND_ERROR"),
        NtpErrorKind::RecvError => String::from_str("RECV_ERROR"),
        NtpErrorKind::TimeError => String::from_str("TIME_ERROR"),
        NtpErrorKind::Incomplete => String::from_str("INCOMPLETE"),
    };
    NtpError { success: false, error: detail, code }
}

/// One parsed NTP exchange. Times are Unix-epoch microseconds; the
/// fixed-point root delay and dispersion are microseconds as well.
pub struct NtpResult {
    pub success: bool,
    pub server: String,
    pub server_ip: String,
    pub t1: i64,
    pub t2: i64,
    pub t3: i64,
    pub t4: i64,
    pub offset: i64,
    pub delay: i64,
    pub leap: u8,
    pub version: u8,
    pub mode: u8,
    pub stratum: u8,
    pub poll: i8,
    pub precision: i8,
    pub root_delay: u64,
    pub root_dispersion: u64,
    pub ref_id: String,
    pub ref_time: i64,
}

impl NtpResult {
    /// The derived fields agree with the four timestamps: the offset and
    /// delay are exactly the exchange formulas' values.
    pub open spec fn wf(self) -> bool {
        &&& self.offset == spec_offset(self.t1 as int, self.t2 as int, self.t3 as int, self.t4 as int)
        &&& self.delay == spec_delay(self.t1 as int, self.t2 as int, self.t3 as int, self.t4 as int)
    }
}

/// A 16.16 fixed-point wire word in microseconds.
pub open spec fn spec_fixed_point_us(raw: u32) -> u64 {
    (raw * 1_000_000 / 65536) as u64
}

/// Parses a 48-byte NTP response received at local time `t4` for a
/// request sent at local time `t1` (both Unix microseconds), and computes
/// the exchange's offset and delay. A short reply is rejected as
/// `Incomplete`; no other failure arises here.
pub fn parse_ntp_response(
    server: &str,
    server_ip: &str,
    response: &[u8],
    t1: i64,
    t4: i64,
) -> (r: Result<NtpResult, NtpErrorKind>)
    requires
        0 <= t1 <= MAX_UNIX_US,
        0 <= t4 <= MAX_UNIX_US,
    ensures
        r is Err <==> response@.len() < NTP_PACKET_SIZE,
        r matches Err(k) ==> k == NtpErrorKind::Incomplete,
        r matches Ok(m) ==> m.wf(),
        r matches Ok(m) ==> {
            let ts_ref = spec_ntp_timestamp(response@, 16);
            let ts2 = spec_ntp_timestamp(response@, 32);
            let ts3 = spec_ntp_timestamp(response@, 40);
            &&& m.success
            &&& m.server@ == server@
            &&& m.server_ip@ == server_ip@
            &&& m.leap == (response@[0] >> 6) & 0x03u8
            &&& m.version == (response@[0] >> 3) & 0x07u8
            &&& m.mode == response@[0] & 0x07u8
            &&& m.stratum == response@[1]
            &&& m.poll == response@[2] as i8
            &&& m.precision == response@[3] as i8
            &&& m.root_delay == spec_fixed_point_us(
                spec_be32(response@[4], response@[5], response@[6], response@[7]),
            )
            &&& m.root_dispersion == spec_fixed_point_us(
                spec_be32(response@[8], response@[9], response@[10], response@[11]),
            )
            &&& m.ref_id@ == spec_ref_id(response@.subrange(12, 16), response@[1])
            &&& m.ref_time == spec_ntp_to_unix_us(ts_ref.0 as int, ts_ref.1 as int)
            &&& m.t1 == t1
            &&& m.t2 == spec_ntp_to_unix_us(ts2.0 as int, ts2.1 as int)
            &&& m.t3 == spec_ntp_to_unix_us(ts3.0 as int, ts3.1 as int)
            &&& m.t4 == t4
            &&& m.offset == spec_offset(t1 as int, m.t2 as int, m.t3 as int, t4 as int)
            &&& m.delay == spec_delay(t1 as int, m.t2 as int, m.t3 as int, t4 as int)
        },
{
    if response.len() < NTP_PACKET_SIZE {
        return Err(NtpErrorKind::Incomplete);
    }

    let li_vn_mode = response[0];
    let leap = (li_vn_mode >> 6) & 0x03;
    let version = (li_vn_mode >> 3) & 0x07;
    let mode = li_vn_mode & 0x07;
    let stratum = response[1];
    let poll = response[2] as i8;
    let precision = response[3] as i8;

    let root_delay_raw = be32(response[4], response[5], response[6], response[7]);
    let root_dispersion_raw = be32(response[8], response[9], response[10], response[11]);
    let root_delay = root_delay_raw as u64 * 1_000_000 / 65536;
    let root_dispersion = root_dispersion_raw as u64 * 1_000_000 / 65536;

    let ref_id_bytes = [response[12], response[13], response[14], response[15]];
    proof {
        assert(ref_id_bytes@ =~= response@.subrange(12, 16));
    }
    let ref_id = decode_reference_id(ref_id_bytes, stratum);

    let (ref_sec, ref_frac) = extract_ntp_timestamp(response, 16);
    let ref_time = ntp_to_unix_micros(ref_sec, ref_frac);

    let (t2_sec, t2_frac) = extract_ntp_timestamp(response, 32);
    let t2 = ntp_to_unix_micros(t2_sec, t2_frac);

    let (t3_sec, t3_frac) = extract_ntp_timestamp(response, 40);
    let t3 = ntp_to_unix_micros(t3_sec, t3_frac);

    let (offset, delay) = compute_offset_delay(t1, t2, t3, t4);

    Ok(NtpResult {
        success: true,
        server: server.to_owned(),
        server_ip: server_ip.to_owned(),
        t1,
        t2,
        t3,
        t4,
        offset,
        delay,
        leap,
        version,
        mode,
        stratum,
        poll,
        precision,
        root_delay,
        root_dispersion,
        ref_id,
        ref_time,
    })
}

} // verus!
