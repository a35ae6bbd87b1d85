//! Slot header codec and seqlock-style snapshot reading.
//!
//! The functions operate on plain byte slices, so the protocol is independent
//! of how the region is mapped; the application hands them the mapped bytes.
use vstd::prelude::*;

use crate::le_bytes::{
    le_u32, le_u64, lemma_u32_roundtrip, lemma_u64_roundtrip, read_u32, read_u64, splice, u32_le,
    u64_le, write_u32, write_u64,
};
use crate::stats::{
    Error, SlotModel, SlotSnapshot, MAGIC, MAGIC_OFFSET, MAX_PAYLOAD, PAYLOAD_LEN_OFFSET,
    PAYLOAD_OFFSET, SEQUENCE_OFFSET, SLOT_SIZE, TIMESTAMP_OFFSET, VERSION, VERSION_OFFSET,
};

verus! {

/// True when a whole slot starting at `off` fits into a region of `len` bytes.
pub open spec fn slot_fits(len: int, off: int) -> bool {
    off + SLOT_SIZE <= len
}

/// The `u32` header field at absolute position `at` of the region.
pub open spec fn field_u32(r: Seq<u8>, at: int) -> u32 {
    le_u32(r.subrange(at, at + 4))
}

/// The `u64` header field at absolute position `at` of the region.
pub open spec fn field_u64(r: Seq<u8>, at: int) -> u64 {
    le_u64(r.subrange(at, at + 8))
}

/// What a reader obtains from the slot at `off` of region `r`.
pub open spec fn spec_read_slot(r: Seq<u8>, off: int) -> Result<Option<SlotModel>, Error> {
    if !slot_fits(r.len() as int, off) {
        Err(Error::BadRegion)
    } else if field_u32(r, off + MAGIC_OFFSET) != MAGIC {
        Ok(None)
    } else if field_u32(r, off + VERSION_OFFSET) != VERSION {
        Err(Error::VersionMismatch(field_u32(r, off + VERSION_OFFSET)))
    } else if field_u64(r, off + SEQUENCE_OFFSET) % 2 == 1 {
        Err(Error::Contended)
    } else if field_u32(r, off + PAYLOAD_LEN_OFFSET) > MAX_PAYLOAD {
        Err(Error::Contended)
    } else {
        let len = field_u32(r, off + PAYLOAD_LEN_OFFSET) as int;
        Ok(
            Some(
                SlotModel {
                    sequence: field_u64(r, off + SEQUENCE_OFFSET),
                    timestamp_ms: field_u64(r, off + TIMESTAMP_OFFSET),
                    payload: r.subrange(off + PAYLOAD_OFFSET, off + PAYLOAD_OFFSET + len),
                },
            ),
        )
    }
}

/// The view of a read result.
pub open spec fn read_result_view(r: Result<Option<SlotSnapshot>, Error>) -> Result<
    Option<SlotModel>,
    Error,
> {
    match r {
        Ok(Some(s)) => Ok(Some(s@)),
        Ok(None) => Ok(None),
        Err(e) => Err(e),
    }
}

/// Number of payload bytes a write stores: the payload, truncated to the
/// slot capacity.
pub open spec fn stored_len(p: Seq<u8>) -> nat {
    if p.len() <= MAX_PAYLOAD {
        p.len()
    } else {
        MAX_PAYLOAD as nat
    }
}

/// The first 28 header bytes of a published slot (the reserved word follows).
pub open spec fn header_bytes(payload_len: u32, sequence: u64, timestamp_ms: u64) -> Seq<u8> {
    u32_le(MAGIC) + u32_le(VERSION) + u64_le(sequence) + u64_le(timestamp_ms) + u32_le(
        payload_len,
    )
}

/// Step one of a write: the slot's sequence is set to the odd marker
/// `sequence - 1` (write in progress).
pub open spec fn spec_begin_write(r: Seq<u8>, off: int, sequence: u64) -> Seq<u8> {
    splice(r, off + SEQUENCE_OFFSET, u64_le((sequence - 1) as u64))
}

/// The region after a completed write of `p` into the slot at `off`: the
/// header is replaced, the payload bytes are stored (truncated to
/// [`MAX_PAYLOAD`]), the reserved word and the rest of the slot are kept.
pub open spec fn spec_write_slot(r: Seq<u8>, off: int, p: Seq<u8>, sequence: u64, timestamp_ms: u64) -> Seq<u8> {
    splice(
        splice(r, off, header_bytes(stored_len(p) as u32, sequence, timestamp_ms)),
        off + PAYLOAD_OFFSET,
        p.take(stored_len(p) as int),
    )
}

/// Returns the byte range of the slot at `slot_offset`, `None` if the region
/// is smaller than the protocol requires.
pub fn slot_range(region_len: usize, slot_offset: usize) -> (r: Option<core::ops::Range<usize>>)
    ensures
        match r {
            Some(range) => slot_fits(region_len as int, slot_offset as int) && range.start
                == slot_offset && range.end == slot_offset + SLOT_SIZE,
            None => !slot_fits(region_len as int, slot_offset as int),
        },
{
    let end = match slot_offset.checked_add(SLOT_SIZE) {
        Some(end) => end,
        None => return None,
    };
    if end <= region_len {
        Some(slot_offset..end)
    } else {
        None
    }
}

/// Attempts a reader makes before it reports [`Error::Contended`].
pub const READ_ATTEMPTS: u32 = 4;

/// What a reader does after one attempt.
#[derive(Debug, Clone, Copy, PartialEq, Eq, Structural)]
pub enum ReadStep {
    /// The attempt saw a consistent snapshot: return it.
    Accept,
    /// A write was in progress or raced the read: try again.
    Retry,
    /// The attempts are used up: report the slot as contended.
    GiveUp,
}

/// The decision after attempt `attempt` (counting from 0) that read the
/// sequence `seq1`, then the payload length `len`, then (after the payload
/// and timestamp) the sequence again as `seq2`. An odd `seq1` or a length
/// beyond the slot capacity means the later reads were skipped; their
/// values then do not matter.
pub open spec fn spec_read_step(attempt: u32, seq1: u64, len: u32, seq2: u64) -> ReadStep {
    if seq1 % 2 == 0 && len <= MAX_PAYLOAD && seq2 == seq1 {
        ReadStep::Accept
    } else if attempt + 1 < READ_ATTEMPTS {
        ReadStep::Retry
    } else {
        ReadStep::GiveUp
    }
}

/// Decides one attempt of a seqlock read: accept only when both sequence
/// reads saw the same even value and the length fits the slot, retry
/// otherwise, and give up after [`READ_ATTEMPTS`] attempts.
pub fn read_attempt_step(attempt: u32, seq1: u64, len: u32, seq2: u64) -> (step: ReadStep)
    ensures
        step == spec_read_step(attempt, seq1, len, seq2),
{
    if seq1 % 2 == 0 && len as usize <= MAX_PAYLOAD && seq2 == seq1 {
        ReadStep::Accept
    } else if attempt < READ_ATTEMPTS - 1 {
        ReadStep::Retry
    } else {
        ReadStep::GiveUp
    }
}

/// The check of a slot's header before its sequence is read: `Ok(false)`
/// for a slot never written (no magic), the version mismatch error, or
/// `Ok(true)` to go on reading.
pub fn slot_header_check(magic: u32, version: u32) -> (r: Result<bool, Error>)
    ensures
        r == if magic != MAGIC {
            Ok::<bool, Error>(false)
        } else if version != VERSION {
            Err(Error::VersionMismatch(version))
        } else {
            Ok(true)
        },
{
    if magic != MAGIC {
        Ok(false)
    } else if version != VERSION {
        Err(Error::VersionMismatch(version))
    } else {
        Ok(true)
    }
}

/// Reads a consistent snapshot of the slot at `slot_offset`.
///
/// Returns `Ok(None)` if the slot was never written (magic absent). A
/// version mismatch is reported as an error; a sequence that stays odd (write
/// in progress) or a payload length beyond the slot capacity (torn read) is
/// retried and finally reported as [`Error::Contended`]. Each attempt is
/// decided by [`read_attempt_step`].
pub fn read_slot(region: &[u8], slot_offset: usize) -> (result: Result<Option<SlotSnapshot>, Error>)
    ensures
        read_result_view(result) == spec_read_slot(region@, slot_offset as int),
{
    let range = match slot_range(region.len(), slot_offset) {
        Some(range) => range,
        None => return Err(Error::BadRegion),
    };
    let start = range.start;
    let magic = read_u32(region, start + MAGIC_OFFSET);
    let version = read_u32(region, start + VERSION_OFFSET);
    match slot_header_check(magic, version) {
        Ok(true) => {},
        Ok(false) => return Ok(None),
        Err(e) => return Err(e),
    }
    let ghost r = region@;
    let mut attempt: u32 = 0;
    loop
        invariant
            region@ == r,
            region.len() == r.len(),
            start == slot_offset,
            slot_fits(r.len() as int, start as int),
            field_u32(r, start + MAGIC_OFFSET) == MAGIC,
            field_u32(r, start + VERSION_OFFSET) == VERSION,
            attempt < READ_ATTEMPTS,
            attempt > 0 ==> (field_u64(r, start + SEQUENCE_OFFSET) % 2 == 1 || field_u32(
                r,
                start + PAYLOAD_LEN_OFFSET,
            ) > MAX_PAYLOAD),
        decreases READ_ATTEMPTS - attempt,
    {
        let seq1 = read_u64(region, start + SEQUENCE_OFFSET);
        let len32 = if seq1 % 2 == 0 {
            read_u32(region, start + PAYLOAD_LEN_OFFSET)
        } else {
            0
        };
        let mut seq2 = seq1;
        let mut timestamp_ms: u64 = 0;
        let mut payload: Vec<u8> = Vec::new();
        if seq1 % 2 == 0 && len32 as usize <= MAX_PAYLOAD {
            let len = len32 as usize;
            let base = start + PAYLOAD_OFFSET;
            payload = Vec::with_capacity(len);
            let mut i: usize = 0;
            while i < len
                invariant
                    region@ == r,
                    region.len() == r.len(),
                    base + len <= r.len(),
                    i <= len,
                    payload@ == r.subrange(base as int, base + i),
                decreases len - i,
            {
                payload.push(region[base + i]);
                i = i + 1;
                assert(payload@ =~= r.subrange(base as int, base + i));
            }
            timestamp_ms = read_u64(region, start + TIMESTAMP_OFFSET);
            seq2 = read_u64(region, start + SEQUENCE_OFFSET);
        }
        match read_attempt_step(attempt, seq1, len32, seq2) {
            ReadStep::Accept => {
                return Ok(Some(SlotSnapshot { sequence: seq1, timestamp_ms, payload }));
            },
            ReadStep::Retry => {
                attempt = attempt + 1;
            },
            ReadStep::GiveUp => {
                return Err(Error::Contended);
            },
        }
    }
}

/// The odd marker a write stores in the sequence field while it is in
/// progress: `sequence - 1`.
pub fn in_progress_sequence(sequence: u64) -> (marker: u64)
    requires
        sequence % 2 == 0,
        sequence > 0,
    ensures
        marker == sequence - 1,
        marker % 2 == 1,
{
    sequence - 1
}

/// Step two of a write: the payload (truncated to [`MAX_PAYLOAD`]) and the
/// header fields other than the sequence (length, timestamp, magic,
/// version) are stored; the sequence field is not touched, so it keeps the
/// odd marker.
pub open spec fn spec_store_payload(r: Seq<u8>, off: int, p: Seq<u8>, timestamp_ms: u64) -> Seq<u8> {
    let n = stored_len(p);
    splice(
        splice(
            splice(
                splice(
                    splice(r, off + PAYLOAD_OFFSET, p.take(n as int)),
                    off + PAYLOAD_LEN_OFFSET,
                    u32_le(n as u32),
                ),
                off + TIMESTAMP_OFFSET,
                u64_le(timestamp_ms),
            ),
            off + MAGIC_OFFSET,
            u32_le(MAGIC),
        ),
        off + VERSION_OFFSET,
        u32_le(VERSION),
    )
}

/// Step three of a write: the final even `sequence` is stored.
pub open spec fn spec_publish(r: Seq<u8>, off: int, sequence: u64) -> Seq<u8> {
    splice(r, off + SEQUENCE_OFFSET, u64_le(sequence))
}

/// Marks the slot at `slot_offset` as being written: stores the odd marker
/// `sequence - 1` in its sequence field and changes nothing else.
pub fn begin_write(region: &mut [u8], slot_offset: usize, sequence: u64)
    requires
        slot_fits(old(region)@.len() as int, slot_offset as int),
        sequence % 2 == 0,
        sequence > 0,
    ensures
        final(region)@ == spec_begin_write(old(region)@, slot_offset as int, sequence),
{
    let len = region.len();
    assert(slot_offset + SLOT_SIZE <= len);
    write_u64(region, slot_offset + SEQUENCE_OFFSET, in_progress_sequence(sequence));
}

/// Stores the payload (truncated to [`MAX_PAYLOAD`]) and the length,
/// timestamp, magic and version fields of the slot at `slot_offset`,
/// leaving its sequence field as it is. Returns the payload bytes stored.
pub fn store_payload(region: &mut [u8], slot_offset: usize, payload: &[u8], timestamp_ms: u64) -> (n:
    usize)
    requires
        slot_fits(old(region)@.len() as int, slot_offset as int),
    ensures
        n == stored_len(payload@),
        final(region)@ == spec_store_payload(
            old(region)@,
            slot_offset as int,
            payload@,
            timestamp_ms,
        ),
        forall|j: int|
            slot_offset + SEQUENCE_OFFSET <= j < slot_offset + SEQUENCE_OFFSET + 8
                ==> #[trigger] final(region)@[j] == old(region)@[j],
{
    let start = slot_offset;
    let len = region.len();
    assert(start + SLOT_SIZE <= len);
    let ghost r1 = region@;
    let n = if payload.len() <= MAX_PAYLOAD {
        payload.len()
    } else {
        MAX_PAYLOAD
    };
    let base = start + PAYLOAD_OFFSET;
    let mut i: usize = 0;
    while i < n
        invariant
            region@.len() == r1.len(),
            region.len() == r1.len(),
            base + n <= r1.len(),
            n <= payload@.len(),
            i <= n,
            forall|j: int|
                0 <= j < r1.len() ==> #[trigger] region@[j] == if base <= j < base + i {
                    payload@[j - base]
                } else {
                    r1[j]
                },
        decreases n - i,
    {
        region[base + i] = payload[i];
        i = i + 1;
    }
    assert(region@ =~= splice(r1, base as int, payload@.take(n as int)));
    write_u32(region, start + PAYLOAD_LEN_OFFSET, n as u32);
    write_u64(region, start + TIMESTAMP_OFFSET, timestamp_ms);
    write_u32(region, start + MAGIC_OFFSET, MAGIC);
    write_u32(region, start + VERSION_OFFSET, VERSION);
    n
}

/// Publishes the write: stores the final even `sequence` in the sequence
/// field of the slot at `slot_offset` and changes nothing else.
pub fn publish(region: &mut [u8], slot_offset: usize, sequence: u64)
    requires
        slot_fits(old(region)@.len() as int, slot_offset as int),
    ensures
        final(region)@ == spec_publish(old(region)@, slot_offset as int, sequence),
{
    let len = region.len();
    assert(slot_offset + SLOT_SIZE <= len);
    write_u64(region, slot_offset + SEQUENCE_OFFSET, sequence);
}

/// The three steps of a write compose to the complete write.
proof fn lemma_write_steps_compose(r: Seq<u8>, off: int, p: Seq<u8>, sequence: u64, timestamp_ms: u64)
    requires
        0 <= off,
        slot_fits(r.len() as int, off),
        sequence > 0,
    ensures
        spec_publish(
            spec_store_payload(spec_begin_write(r, off, sequence), off, p, timestamp_ms),
            off,
            sequence,
        ) == spec_write_slot(r, off, p, sequence, timestamp_ms),
{
    let n = stored_len(p);
    let got = spec_publish(
        spec_store_payload(spec_begin_write(r, off, sequence), off, p, timestamp_ms),
        off,
        sequence,
    );
    let expected = spec_write_slot(r, off, p, sequence, timestamp_ms);
    lemma_u32_roundtrip(MAGIC);
    lemma_u32_roundtrip(VERSION);
    lemma_u32_roundtrip(n as u32);
    lemma_u64_roundtrip(sequence);
    lemma_u64_roundtrip(timestamp_ms);
    assert(header_bytes(n as u32, sequence, timestamp_ms).len() == 28);
    assert forall|j: int| 0 <= j < r.len() implies #[trigger] got[j] == expected[j] by {
        let h = header_bytes(n as u32, sequence, timestamp_ms);
        if off <= j < off + 4 {
            assert(h[j - off] == u32_le(MAGIC)[j - off]);
        } else if off + 4 <= j < off + 8 {
            assert(h[j - off] == u32_le(VERSION)[j - off - 4]);
        } else if off + 8 <= j < off + 16 {
            assert(h[j - off] == u64_le(sequence)[j - off - 8]);
        } else if off + 16 <= j < off + 24 {
            assert(h[j - off] == u64_le(timestamp_ms)[j - off - 16]);
        } else if off + 24 <= j < off + 28 {
            assert(h[j - off] == u32_le(n as u32)[j - off - 24]);
        }
    }
    assert(got =~= expected);
}

/// Writes `payload` plus header into the slot at `slot_offset` using the
/// odd/even seqlock steps, and returns, besides the result, the trace of
/// region states: before the write, after [`begin_write`] (odd marker),
/// after [`store_payload`] (payload and header, marker kept) and after
/// [`publish`] (final even sequence). No state between the first and the
/// last reads as a snapshot.
pub fn write_slot_traced(
    region: &mut [u8],
    slot_offset: usize,
    payload: &[u8],
    sequence: u64,
    timestamp_ms: u64,
) -> (r: (Result<usize, Error>, Ghost<Seq<Seq<u8>>>))
    requires
        sequence % 2 == 0,
        sequence > 0 || !slot_fits(old(region)@.len() as int, slot_offset as int),
    ensures
        match r.0 {
            Ok(n) => {
                let t = r.1@;
                let off = slot_offset as int;
                &&& slot_fits(old(region)@.len() as int, off)
                &&& n == stored_len(payload@)
                &&& t.len() == 4
                &&& t[0] == old(region)@
                &&& t[1] == spec_begin_write(t[0], off, sequence)
                &&& t[2] == spec_store_payload(t[1], off, payload@, timestamp_ms)
                &&& t[3] == spec_publish(t[2], off, sequence)
                &&& t[3] == final(region)@
                &&& final(region)@ == spec_write_slot(
                    old(region)@,
                    off,
                    payload@,
                    sequence,
                    timestamp_ms,
                )
                &&& forall|k: int|
                    0 < k < 3 ==> !(#[trigger] spec_read_slot(t[k], off) matches Ok(Some(_)))
            },
            Err(e) => {
                &&& !slot_fits(old(region)@.len() as int, slot_offset as int)
                &&& e == Error::BadRegion
                &&& final(region)@ == old(region)@
            },
        },
{
    let range = match slot_range(region.len(), slot_offset) {
        Some(range) => range,
        None => return (Err(Error::BadRegion), Ghost(Seq::empty())),
    };
    let start = range.start;
    let ghost r0 = region@;
    begin_write(region, start, sequence);
    let ghost r1 = region@;
    let n = store_payload(region, start, payload, timestamp_ms);
    let ghost r2 = region@;
    publish(region, start, sequence);
    proof {
        lemma_write_steps_compose(r0, start as int, payload@, sequence, timestamp_ms);
        lemma_in_progress_never_reads_as_snapshot(r0, r1, start as int, sequence);
        assert forall|j: int|
            start + SEQUENCE_OFFSET <= j < start + SEQUENCE_OFFSET + 8 implies #[trigger] r2[j]
            == spec_begin_write(r0, start as int, sequence)[j] by {
            assert(r2[j] == r1[j]);
        }
        lemma_in_progress_never_reads_as_snapshot(r0, r2, start as int, sequence);
    }
    let ghost trace = seq![r0, r1, r2, region@];
    (Ok(n), Ghost(trace))
}

/// Writes `payload` plus header into the slot at `slot_offset` using an
/// odd/even seqlock: the slot is first marked odd (`sequence - 1`, write in
/// progress), then payload and header fields are written, then `sequence`
/// is stored as the final even value (see [`write_slot_traced`] for the
/// states in between). Payloads longer than [`MAX_PAYLOAD`] are truncated.
/// Returns the number of payload bytes written.
pub fn write_slot(
    region: &mut [u8],
    slot_offset: usize,
    payload: &[u8],
    sequence: u64,
    timestamp_ms: u64,
) -> (result: Result<usize, Error>)
    requires
        sequence % 2 == 0,
        sequence > 0 || !slot_fits(old(region)@.len() as int, slot_offset as int),
    ensures
        match result {
            Ok(n) => {
                &&& slot_fits(old(region)@.len() as int, slot_offset as int)
                &&& n == stored_len(payload@)
                &&& final(region)@ == spec_write_slot(
                    old(region)@,
                    slot_offset as int,
                    payload@,
                    sequence,
                    timestamp_ms,
                )
            },
            Err(e) => {
                &&& !slot_fits(old(region)@.len() as int, slot_offset as int)
                &&& e == Error::BadRegion
                &&& final(region)@ == old(region)@
            },
        },
{
    let (result, _trace) = write_slot_traced(region, slot_offset, payload, sequence, timestamp_ms);
    result
}

/// The bytes of the written slot at slot position `k < 28` are the header bytes.
proof fn lemma_written_header_byte(
    r: Seq<u8>,
    off: int,
    p: Seq<u8>,
    sequence: u64,
    timestamp_ms: u64,
    k: int,
)
    requires
        0 <= off,
        slot_fits(r.len() as int, off),
        0 <= k < 28,
    ensures
        spec_write_slot(r, off, p, sequence, timestamp_ms)[off + k] == header_bytes(
            stored_len(p) as u32,
            sequence,
            timestamp_ms,
        )[k],
{
    lemma_u32_roundtrip(MAGIC);
    lemma_u32_roundtrip(VERSION);
    lemma_u32_roundtrip(stored_len(p) as u32);
    lemma_u64_roundtrip(sequence);
    lemma_u64_roundtrip(timestamp_ms);
}

/// Reading a slot right after writing it returns exactly what was written:
/// the sequence, the timestamp and the payload truncated to the slot
/// capacity.
#[verifier::spinoff_prover]
#[verifier::rlimit(30)]
pub proof fn lemma_read_after_write(r: Seq<u8>, off: int, p: Seq<u8>, sequence: u64, timestamp_ms: u64)
    requires
        0 <= off,
        slot_fits(r.len() as int, off),
        sequence % 2 == 0,
    ensures
        spec_read_slot(spec_write_slot(r, off, p, sequence, timestamp_ms), off) == Ok::<
            Option<SlotModel>,
            Error,
        >(Some(SlotModel { sequence, timestamp_ms, payload: p.take(stored_len(p) as int) })),
{
    let w = spec_write_slot(r, off, p, sequence, timestamp_ms);
    let n = stored_len(p);
    let h = header_bytes(n as u32, sequence, timestamp_ms);
    lemma_u32_roundtrip(MAGIC);
    lemma_u32_roundtrip(VERSION);
    lemma_u32_roundtrip(n as u32);
    lemma_u64_roundtrip(sequence);
    lemma_u64_roundtrip(timestamp_ms);
    assert forall|k: int| 0 <= k < 28 implies #[trigger] w[off + k] == h[k] by {
        lemma_written_header_byte(r, off, p, sequence, timestamp_ms, k);
    }
    assert(w.subrange(off + MAGIC_OFFSET, off + MAGIC_OFFSET + 4) =~= u32_le(MAGIC)) by {
        assert forall|k: int| 0 <= k < 4 implies w[off + k] == u32_le(MAGIC)[k] by {
            assert(w[off + k] == h[k]);
        }
    }
    assert(w.subrange(off + VERSION_OFFSET, off + VERSION_OFFSET + 4) =~= u32_le(VERSION)) by {
        assert forall|k: int| 0 <= k < 4 implies w[off + 4 + k] == u32_le(VERSION)[k] by {
            assert(w[off + 4 + k] == h[4 + k]);
        }
    }
    assert(w.subrange(off + SEQUENCE_OFFSET, off + SEQUENCE_OFFSET + 8) =~= u64_le(sequence)) by {
        assert forall|k: int| 0 <= k < 8 implies w[off + 8 + k] == u64_le(sequence)[k] by {
            assert(w[off + 8 + k] == h[8 + k]);
        }
    }
    assert(w.subrange(off + TIMESTAMP_OFFSET, off + TIMESTAMP_OFFSET + 8) =~= u64_le(
        timestamp_ms,
    )) by {
        assert forall|k: int| 0 <= k < 8 implies w[off + 16 + k] == u64_le(timestamp_ms)[k] by {
            assert(w[off + 16 + k] == h[16 + k]);
        }
    }
    let nn = n as u32;
    assert(w.subrange(off + PAYLOAD_LEN_OFFSET, off + PAYLOAD_LEN_OFFSET + 4) =~= u32_le(nn)) by {
        assert forall|k: int| 0 <= k < 4 implies w[off + 24 + k] == #[trigger] u32_le(nn)[k] by {
            assert(w[off + 24 + k] == h[24 + k]);
        }
    }
    assert(w.subrange(off + PAYLOAD_OFFSET, off + PAYLOAD_OFFSET + n) =~= p.take(n as int));
}

/// Writing one slot leaves the reading of any disjoint slot unchanged.
pub proof fn lemma_write_keeps_other_slot(
    r: Seq<u8>,
    off: int,
    other: int,
    p: Seq<u8>,
    sequence: u64,
    timestamp_ms: u64,
)
    requires
        0 <= off,
        0 <= other,
        slot_fits(r.len() as int, off),
        off + SLOT_SIZE <= other || other + SLOT_SIZE <= off,
    ensures
        spec_read_slot(spec_write_slot(r, off, p, sequence, timestamp_ms), other)
            == spec_read_slot(r, other),
{
    let w = spec_write_slot(r, off, p, sequence, timestamp_ms);
    if slot_fits(r.len() as int, other) {
        assert(w.subrange(other, other + SLOT_SIZE) =~= r.subrange(other, other + SLOT_SIZE));
        assert forall|a: int, b: int| other <= a <= b <= other + SLOT_SIZE implies #[trigger] w.subrange(
            a,
            b,
        ) == r.subrange(a, b) by {
            assert(w.subrange(a, b) =~= r.subrange(a, b));
        }
    }
}

/// A slot whose magic word is zero (a freshly created, zero-filled region)
/// reads as "never written".
pub proof fn lemma_unwritten_slot_reads_none(r: Seq<u8>, off: int)
    requires
        0 <= off,
        slot_fits(r.len() as int, off),
        r[off + MAGIC_OFFSET] == 0 && r[off + MAGIC_OFFSET + 1] == 0 && r[off + MAGIC_OFFSET + 2]
            == 0 && r[off + MAGIC_OFFSET + 3] == 0,
    ensures
        spec_read_slot(r, off) == Ok::<Option<SlotModel>, Error>(None),
{
    let b = r.subrange(off + MAGIC_OFFSET, off + MAGIC_OFFSET + 4);
    crate::le_bytes::lemma_u32_zero(b);
}

/// No torn snapshot: from the moment a write marks the slot in progress
/// until it publishes the final sequence, the writer only changes bytes
/// outside the sequence field, and every such intermediate region is
/// rejected by readers (it never reads as a snapshot).
pub proof fn lemma_in_progress_never_reads_as_snapshot(
    r: Seq<u8>,
    mid: Seq<u8>,
    off: int,
    sequence: u64,
)
    requires
        0 <= off,
        slot_fits(r.len() as int, off),
        sequence % 2 == 0,
        sequence > 0,
        mid.len() == r.len(),
        forall|j: int|
            off + SEQUENCE_OFFSET <= j < off + SEQUENCE_OFFSET + 8 ==> #[trigger] mid[j]
                == spec_begin_write(r, off, sequence)[j],
    ensures
        !(spec_read_slot(mid, off) matches Ok(Some(_))),
{
    let b = spec_begin_write(r, off, sequence);
    let marker = (sequence - 1) as u64;
    lemma_u64_roundtrip(marker);
    assert(mid.subrange(off + SEQUENCE_OFFSET, off + SEQUENCE_OFFSET + 8) =~= u64_le(marker)) by {
        assert forall|k: int| 0 <= k < 8 implies mid[off + 8 + k] == #[trigger] u64_le(marker)[k] by {
            assert(mid[off + 8 + k] == b[off + 8 + k]);
        }
    }
}

} // verus!
