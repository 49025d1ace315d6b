//! What happens to one inbound buffer.
//!
//! The streaming thread asks twice. [`screen`] decides, from three values read
//! under short locks, whether the buffer is looked at at all. Only then is
//! the payload read, and [`dispatch`] turns it into what is written to the
//! track: a sample record, or the RTP packet that the payload holds.

use vstd::prelude::*;
use vstd::slice::slice_index_get;
use webrtc_util::marshal::Unmarshal;
use crate::codec::StreamMode;
use crate::error::SinkError;

verus! {

/// The byte buffer of the `bytes` crate.
#[verifier::external_type_specification]
#[verifier::external_body]
pub struct ExBytes(bytes::Bytes);

/// The RTP packet of the `rtp` crate.
#[verifier::external_type_specification]
#[verifier::external_body]
pub struct ExPacket(rtp::packet::Packet);

/// The error of the `webrtc-util` crate, which RTP parsing reports.
#[verifier::external_type_specification]
#[verifier::external_body]
pub struct ExUtilError(webrtc_util::Error);

/// The bytes that a `bytes::Bytes` holds.
pub uninterp spec fn bytes_content(b: bytes::Bytes) -> Seq<u8>;

/// Whether `rtp::packet::Packet::unmarshal` accepts `data`.
pub uninterp spec fn rtp_parses(data: Seq<u8>) -> bool;

/// The duration of a sample whose buffer carries none, in nanoseconds.
pub const DEFAULT_DURATION_NS: u64 = 33_333_333;

/// The length of the fixed part of an RTP header.
pub const FIXED_HEADER: usize = 12;

/// The number of contributing sources that the first byte of a header announces.
pub open spec fn csrc_count(b0: u8) -> int {
    (b0 & 0x0F) as int
}

/// Whether the first byte of a header announces a header extension.
pub open spec fn has_extension(b0: u8) -> bool {
    (b0 >> 4) & 1 == 1
}

/// How many bytes the one-byte extension element with header byte `b` carries.
pub open spec fn one_byte_len(b: u8) -> int {
    (b & 0x0F) as int + 1
}

/// Whether the elements of a one-byte header extension that starts at `pos`
/// and was announced to end at `end` all lie within `data`. A zero byte is
/// padding, the id 15 ends the walk, any other byte is followed by its data.
pub open spec fn one_byte_walk(data: Seq<u8>, pos: int, end: int) -> bool
    decreases (if pos < end { end - pos } else { 0 }),
{
    if pos >= end || pos < 0 {
        true
    } else if data[pos] == 0 {
        one_byte_walk(data, pos + 1, end)
    } else if data[pos] >> 4 == 15 {
        true
    } else {
        &&& pos + 1 + one_byte_len(data[pos]) <= data.len()
        &&& one_byte_walk(data, pos + 1 + one_byte_len(data[pos]), end)
    }
}

/// Whether the elements of a two-byte header extension that starts at `pos`
/// and was announced to end at `end` all lie within `data`. A zero byte is
/// padding, any other byte is followed by a length byte and that many bytes.
pub open spec fn two_byte_walk(data: Seq<u8>, pos: int, end: int) -> bool
    decreases (if pos < end { end - pos } else { 0 }),
{
    if pos >= end || pos < 0 {
        true
    } else if data[pos] == 0 {
        two_byte_walk(data, pos + 1, end)
    } else {
        &&& pos + 1 < data.len()
        &&& pos + 2 + data[pos + 1] <= data.len()
        &&& two_byte_walk(data, pos + 2 + data[pos + 1], end)
    }
}

/// Whether every element of the header extension of `data` lies within
/// `data`. It holds of a buffer that is too short for the header it
/// announces, of one without extension, and of one whose extension is of
/// neither the one-byte nor the two-byte profile.
pub open spec fn extension_in_bounds(data: Seq<u8>) -> bool {
    if data.len() < 4 {
        true
    } else {
        let off = FIXED_HEADER + 4 * csrc_count(data[0]);
        if data.len() < off || !has_extension(data[0]) || data.len() < off + 4 {
            true
        } else {
            let start = off + 4;
            let end = start + 4 * (data[off + 2] * 256 + data[off + 3]);
            if data.len() < end {
                true
            } else if data[off] == 0xBE && data[off + 1] == 0xDE {
                one_byte_walk(data, start, end)
            } else if data[off] == 0x10 && data[off + 1] == 0x00 {
                two_byte_walk(data, start, end)
            } else {
                true
            }
        }
    }
}

fn walk_one_byte(data: &[u8], start: usize, end: usize) -> (ok: bool)
    requires
        start <= end <= data@.len(),
    ensures
        ok == one_byte_walk(data@, start as int, end as int),
{
    let mut pos: usize = start;
    while pos < end
        invariant
            start <= pos <= data@.len(),
            end <= data@.len(),
            one_byte_walk(data@, start as int, end as int) == one_byte_walk(
                data@,
                pos as int,
                end as int,
            ),
        decreases data@.len() - pos,
    {
        let b: u8 = *slice_index_get(data, pos);
        if b == 0 {
            pos += 1;
        } else if b >> 4 == 15 {
            return true;
        } else {
            assert(b & 0x0F <= 15) by (bit_vector);
            let len: usize = (b & 0x0F) as usize + 1;
            if len > data.len() - pos - 1 {
                return false;
            }
            pos = pos + 1 + len;
        }
    }
    true
}

fn walk_two_byte(data: &[u8], start: usize, end: usize) -> (ok: bool)
    requires
        start <= end <= data@.len(),
    ensures
        ok == two_byte_walk(data@, start as int, end as int),
{
    let mut pos: usize = start;
    while pos < end
        invariant
            start <= pos <= data@.len(),
            end <= data@.len(),
            two_byte_walk(data@, start as int, end as int) == two_byte_walk(
                data@,
                pos as int,
                end as int,
            ),
        decreases data@.len() - pos,
    {
        let b: u8 = *slice_index_get(data, pos);
        if b == 0 {
            pos += 1;
        } else {
            if pos + 1 >= data.len() {
                return false;
            }
            let len: usize = *slice_index_get(data, pos + 1) as usize;
            if len > data.len() - pos - 2 {
                return false;
            }
            pos = pos + 2 + len;
        }
    }
    true
}

/// Checks that the header extension of `data`, if it has one, stays within `data`.
pub fn check_extension(data: &[u8]) -> (ok: bool)
    ensures
        ok == extension_in_bounds(data@),
{
    let n: usize = data.len();
    if n < 4 {
        return true;
    }
    let b0: u8 = *slice_index_get(data, 0);
    assert(b0 & 0x0F <= 15) by (bit_vector);
    let off: usize = FIXED_HEADER + 4 * ((b0 & 0x0F) as usize);
    if n < off || (b0 >> 4) & 1 != 1 || n - off < 4 {
        return true;
    }
    let hi: usize = *slice_index_get(data, off + 2) as usize;
    let lo: usize = *slice_index_get(data, off + 3) as usize;
    let start: usize = off + 4;
    let span: usize = 4 * (hi * 256 + lo);
    if n - start < span {
        return true;
    }
    let end: usize = start + span;
    let profile_hi: u8 = *slice_index_get(data, off);
    let profile_lo: u8 = *slice_index_get(data, off + 1);
    if profile_hi == 0xBE && profile_lo == 0xDE {
        walk_one_byte(data, start, end)
    } else if profile_hi == 0x10 && profile_lo == 0x00 {
        walk_two_byte(data, start, end)
    } else {
        true
    }
}

/// Copies `data` into a buffer of its own with `bytes::Bytes::copy_from_slice`:
/// the result holds the bytes of `data`.
#[verifier::external_body]
fn copy_payload(data: &[u8]) -> (r: bytes::Bytes)
    ensures
        bytes_content(r) == data@,
{
    bytes::Bytes::copy_from_slice(data)
}

/// Parses `data` with `rtp::packet::Packet::unmarshal`. The call succeeds
/// exactly on the inputs that [`rtp_parses`] names. It reads extension
/// elements without looking at the end of the buffer, so it is only made on
/// buffers whose elements are known to lie within them.
#[verifier::external_body]
fn unmarshal_packet(data: &[u8]) -> (r: Result<rtp::packet::Packet, webrtc_util::Error>)
    requires
        extension_in_bounds(data@),
    ensures
        r is Ok <==> rtp_parses(data@),
{
    let mut buf = data;
    rtp::packet::Packet::unmarshal(&mut buf)
}

/// Whether an inbound buffer is looked at.
#[derive(Debug, Clone, Copy, PartialEq, Eq, Structural)]
pub enum Admission {
    /// Nothing is read; the pipeline is told that all went well.
    Skip,
    /// Nothing is read; the pipeline is told that the buffer failed.
    Reject,
    /// The payload is read. It goes to the track `track`, in the way of
    /// `mode`, if `deliver` holds, and is dropped if not.
    Read { track: usize, mode: StreamMode, deliver: bool },
}

/// What the pipeline is told about a buffer.
#[derive(Debug, Clone, Copy, PartialEq, Eq, Structural)]
pub enum FlowStatus {
    Success,
    Failure,
}

/// The decision on a buffer, from the three values that are read first.
pub open spec fn admission(
    is_live: bool,
    peers: nat,
    track: Option<(usize, StreamMode)>,
) -> Admission {
    if is_live && peers == 0 {
        Admission::Skip
    } else {
        match track {
            None => Admission::Reject,
            Some(t) => Admission::Read { track: t.0, mode: t.1, deliver: peers > 0 },
        }
    }
}

/// What the pipeline is told about a buffer, given the decision on it and
/// whether its payload could be read.
pub open spec fn flow_status(decision: Admission, readable: bool) -> FlowStatus {
    match decision {
        Admission::Skip => FlowStatus::Success,
        Admission::Reject => FlowStatus::Failure,
        Admission::Read { .. } => if readable {
            FlowStatus::Success
        } else {
            FlowStatus::Failure
        },
    }
}

/// Decides whether a buffer is looked at. A live sink without peers skips
/// the buffer before anything else is asked. A pad whose format is not known
/// yet has no track, and the buffer fails. Without peers the payload is read
/// and dropped.
pub fn screen(is_live: bool, peers: usize, track: Option<(usize, StreamMode)>) -> (r: Admission)
    ensures
        r == admission(is_live, peers as nat, track),
{
    if is_live && peers == 0 {
        Admission::Skip
    } else {
        match track {
            None => Admission::Reject,
            Some(t) => Admission::Read { track: t.0, mode: t.1, deliver: peers > 0 },
        }
    }
}

impl Admission {
    /// What the pipeline is told once the payload was read, or could not be.
    pub fn status(&self, readable: bool) -> (r: FlowStatus)
        ensures
            r == flow_status(*self, readable),
    {
        match self {
            Admission::Skip => FlowStatus::Success,
            Admission::Reject => FlowStatus::Failure,
            Admission::Read { .. } => if readable {
                FlowStatus::Success
            } else {
                FlowStatus::Failure
            },
        }
    }
}

/// An encoded access unit on its way to a sample track.
#[derive(Debug, PartialEq, Eq)]
pub struct SampleRecord {
    pub data: bytes::Bytes,
    pub duration_ns: u64,
}

/// What is written to a track for one buffer.
#[derive(Debug, PartialEq, Eq)]
pub enum Delivery {
    /// Nothing is written.
    Nothing,
    /// The sample is written to the sample track.
    Sample(SampleRecord),
    /// The packet is written to the RTP track.
    Rtp(rtp::packet::Packet),
    /// The payload held no RTP packet: it is reported and dropped.
    Malformed,
}

impl Delivery {
    /// What is reported for a delivery: a payload that held no RTP packet is
    /// a parse failure, which is logged and goes no further.
    pub fn failure(&self) -> (r: Option<SinkError>)
        ensures
            r == (if *self is Malformed {
                Some(SinkError::ParseFailure)
            } else {
                None
            }),
    {
        match self {
            Delivery::Malformed => Some(SinkError::ParseFailure),
            _ => None,
        }
    }
}

/// What is reported once a write to a track has ended: a write that did not
/// go through is a write failure, which is logged and goes no further.
pub fn write_failure(written: bool) -> (r: Option<SinkError>)
    ensures
        r == (if written {
            None
        } else {
            Some(SinkError::WriteFailure)
        }),
{
    if written {
        None
    } else {
        Some(SinkError::WriteFailure)
    }
}

/// The duration of a sample: that of its buffer, or the default.
pub open spec fn sample_duration(duration_ns: Option<u64>) -> u64 {
    match duration_ns {
        Some(d) => d,
        None => DEFAULT_DURATION_NS,
    }
}

/// The sample record for a payload and the duration of its buffer.
pub fn sample_record(payload: &[u8], duration_ns: Option<u64>) -> (r: SampleRecord)
    ensures
        bytes_content(r.data) == payload@,
        r.duration_ns == sample_duration(duration_ns),
{
    let duration: u64 = match duration_ns {
        Some(d) => d,
        None => DEFAULT_DURATION_NS,
    };
    SampleRecord { data: copy_payload(payload), duration_ns: duration }
}

/// What is written for the outcome of parsing a payload as RTP: the packet
/// that was parsed, or nothing where parsing failed.
pub fn deliver_parsed(parsed: Result<rtp::packet::Packet, webrtc_util::Error>) -> (r: Delivery)
    ensures
        match parsed {
            Ok(packet) => r == Delivery::Rtp(packet),
            Err(_) => r is Malformed,
        },
{
    match parsed {
        Ok(packet) => Delivery::Rtp(packet),
        Err(_) => Delivery::Malformed,
    }
}

/// Parses a payload as an RTP packet. A payload whose header extension runs
/// past its end is malformed; any other is handed to the RTP parser.
pub fn parse_rtp(payload: &[u8]) -> (r: Delivery)
    ensures
        extension_in_bounds(payload@) && rtp_parses(payload@) ==> r is Rtp,
        !(extension_in_bounds(payload@) && rtp_parses(payload@)) ==> r is Malformed,
{
    if check_extension(payload) {
        deliver_parsed(unmarshal_packet(payload))
    } else {
        Delivery::Malformed
    }
}

/// Turns the payload of a buffer that was read into what is written to its track.
pub fn dispatch(mode: StreamMode, deliver: bool, payload: &[u8], duration_ns: Option<u64>) -> (r:
    Delivery)
    ensures
        !deliver ==> r is Nothing,
        deliver && mode == StreamMode::Sample ==> {
            &&& r is Sample
            &&& bytes_content(r->Sample_0.data) == payload@
            &&& r->Sample_0.duration_ns == sample_duration(duration_ns)
        },
        deliver && mode == StreamMode::Rtp && extension_in_bounds(payload@) && rtp_parses(payload@)
            ==> r is Rtp,
        deliver && mode == StreamMode::Rtp && !(extension_in_bounds(payload@) && rtp_parses(
            payload@,
        )) ==> r is Malformed,
{
    if !deliver {
        Delivery::Nothing
    } else {
        match mode {
            StreamMode::Sample => Delivery::Sample(sample_record(payload, duration_ns)),
            StreamMode::Rtp => parse_rtp(payload),
        }
    }
}

/// A live sink without peers tells the pipeline that all went well without
/// reading the buffer, whatever is known of the pad.
pub proof fn lemma_live_without_peers_skips(track: Option<(usize, StreamMode)>, readable: bool)
    ensures
        admission(true, 0, track) == Admission::Skip,
        flow_status(admission(true, 0, track), readable) == FlowStatus::Success,
{
}

/// A buffer is read only for a pad that feeds a track, and it fails only
/// where the pad feeds none or the payload cannot be read.
pub proof fn lemma_read_needs_track(
    is_live: bool,
    peers: nat,
    track: Option<(usize, StreamMode)>,
    readable: bool,
)
    ensures
        admission(is_live, peers, track) is Read ==> track is Some,
        admission(is_live, peers, track) matches Admission::Read { deliver, .. } ==> deliver == (
        peers > 0),
        flow_status(admission(is_live, peers, track), readable) == FlowStatus::Failure ==> !(
        is_live && peers == 0) && (track is None || !readable),
{
}

} // verus!
