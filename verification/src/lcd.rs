//! AOOSTAR LCD wire framing: command packets, the frame-upload chunking with
//! the previous-frame cache, the screen builder settings, and the small
//! decisions of the serial connection (USB id parsing, port lookup,
//! initialisation check, reconnect backoff).
use vstd::prelude::*;

use bytes::BytesMut;
use std::time::Duration;

use vstd::arithmetic::power2::{lemma2_to64, lemma_pow2_strictly_increases, pow2};
use vstd::bits::lemma_u64_shl_is_mul;

use crate::le_bytes::{le_u32, lemma_u32_roundtrip, u32_le};

verus! {

/// Display resolution (width, height).
pub const DISPLAY_SIZE: (u32, u32) = (960, 376);

/// Number of retries of a failed serial write.
pub const SERIAL_RETRY: u8 = 3;

/// Baud rate of the LCD UART.
pub const UART_BAUDRATE: u32 = 1_500_000;

/// USB vendor id of the LCD UART.
pub const USB_UART_VID: u16 = 0x416;

/// USB product id of the LCD UART.
pub const USB_UART_PID: u16 = 0x90A1;

/// Payload bytes per image data packet.
pub const IMG_CHUNK_SIZE: usize = 47;

/// Command: display off (CloseTFT).
pub const DISPLAY_OFF: [u8; 8] = [0xAA, 0x55, 0xAA, 0x55, 0x0A, 0x00, 0x00, 0x00];

/// Command: display on (OpenTFT).
pub const DISPLAY_ON: [u8; 8] = [0xAA, 0x55, 0xAA, 0x55, 0x0B, 0x00, 0x00, 0x00];

/// Start of an image upload.
pub const HEADER_START: [u8; 16] = [
    0xAA,
    0x55,
    0xAA,
    0x55,
    0x05,
    0x00,
    0x00,
    0x00,
    0x04,
    0x00,
    0x0F,
    0x2F,
    0x00,
    0x04,
    0x0B,
    0x00,
];

/// End of an image upload.
pub const HEADER_END: [u8; 8] = [0xAA, 0x55, 0xAA, 0x55, 0x06, 0x00, 0x00, 0x00];

/// Header of one image data packet (followed by the LE offset and data).
pub const HEADER: [u8; 8] = [0xAA, 0x55, 0xAA, 0x55, 0x08, 0x00, 0x00, 0x00];

// ---------------------------------------------------------------------
// `bytes::BytesMut`, the frame buffer type of the upload path.
// ---------------------------------------------------------------------

#[verifier::external_type_specification]
#[verifier::external_body]
pub struct ExBytesMut(bytes::BytesMut);

/// The bytes a `BytesMut` holds.
pub uninterp spec fn bytes_contents(b: BytesMut) -> Seq<u8>;

/// `BytesMut::with_capacity`: an empty buffer (the allocation fails beyond
/// `isize::MAX` bytes).
#[verifier::external_body]
fn bytes_with_capacity(capacity: usize) -> (b: BytesMut)
    requires
        capacity <= isize::MAX,
    ensures
        bytes_contents(b) == Seq::<u8>::empty(),
{
    BytesMut::with_capacity(capacity)
}

/// `BytesMut::clear`: removes all data.
#[verifier::external_body]
fn bytes_clear(b: &mut BytesMut)
    ensures
        bytes_contents(*final(b)) == Seq::<u8>::empty(),
{
    b.clear()
}

/// `Extend<&u8>` for `BytesMut`: appends `data`. The buffer grows as
/// needed; its length stays within `isize::MAX`.
#[verifier::external_body]
fn bytes_extend(b: &mut BytesMut, data: &[u8])
    requires
        bytes_contents(*old(b)).len() + data@.len() <= isize::MAX,
    ensures
        bytes_contents(*final(b)) == bytes_contents(*old(b)) + data@,
{
    b.extend(data)
}

/// `BufMut::put_u32_le` for `BytesMut`: appends `n` in little-endian order.
#[verifier::external_body]
fn bytes_put_u32_le(b: &mut BytesMut, n: u32)
    requires
        bytes_contents(*old(b)).len() + 4 <= isize::MAX,
    ensures
        bytes_contents(*final(b)) == bytes_contents(*old(b)) + u32_le(n),
{
    bytes::BufMut::put_u32_le(b, n)
}

/// `AsRef<[u8]>` for `BytesMut`: the held bytes.
#[verifier::external_body]
fn bytes_as_slice(b: &BytesMut) -> (s: &[u8])
    ensures
        s@ == bytes_contents(*b),
{
    b.as_ref()
}

/// `From<&[u8]>` for `BytesMut`: a buffer holding a copy of `data`.
#[verifier::external_body]
fn bytes_from_slice(data: &[u8]) -> (b: BytesMut)
    ensures
        bytes_contents(b) == data@,
{
    BytesMut::from(data)
}

// ---------------------------------------------------------------------
// Frame upload planning.
// ---------------------------------------------------------------------

/// Number of data chunks of an image of `len` bytes.
pub open spec fn chunk_count(len: nat) -> nat {
    (len + 46) / 47
}

/// End (exclusive) of chunk `idx` of an image of `len` bytes.
pub open spec fn chunk_end(len: nat, idx: int) -> int {
    if idx * 47 + 47 <= len {
        idx * 47 + 47
    } else {
        len as int
    }
}

/// The bytes of chunk `idx` of `img`.
pub open spec fn chunk_of(img: Seq<u8>, idx: int) -> Seq<u8> {
    img.subrange(idx * 47, chunk_end(img.len(), idx))
}

/// Chunk `idx` can be skipped: the cached previous frame holds the same 47
/// bytes at that offset.
pub open spec fn chunk_unchanged(cache: Option<Seq<u8>>, img: Seq<u8>, idx: int) -> bool {
    match cache {
        Some(c) => idx * 47 + 47 <= c.len() && c.subrange(idx * 47, idx * 47 + 47) == chunk_of(
            img,
            idx,
        ),
        None => false,
    }
}

/// The packet that uploads chunk `idx`: header, the byte offset as a
/// little-endian `u32` (its low 32 bits), data.
pub open spec fn chunk_packet(img: Seq<u8>, idx: int) -> Seq<u8> {
    HEADER@ + u32_le((idx * 47) as u32) + chunk_of(img, idx)
}

/// Packets for the chunks from `idx` on, skipping unchanged chunks.
pub open spec fn chunk_packets_from(cache: Option<Seq<u8>>, img: Seq<u8>, idx: int) -> Seq<
    Seq<u8>,
>
    decreases chunk_count(img.len()) - idx,
{
    if idx < 0 || idx >= chunk_count(img.len()) {
        Seq::empty()
    } else if chunk_unchanged(cache, img, idx) {
        chunk_packets_from(cache, img, idx + 1)
    } else {
        seq![chunk_packet(img, idx)] + chunk_packets_from(cache, img, idx + 1)
    }
}

/// The full packet sequence of a frame upload: start header, the changed
/// chunks in order, end header.
pub open spec fn frame_packets(cache: Option<Seq<u8>>, img: Seq<u8>) -> Seq<Seq<u8>> {
    seq![HEADER_START@] + chunk_packets_from(cache, img, 0) + seq![HEADER_END@]
}

/// Without a cached frame every chunk is uploaded, in order: from chunk
/// `idx` on, the packets are exactly the packets of the remaining chunks.
pub proof fn lemma_uncached_chunks_from(img: Seq<u8>, idx: int)
    requires
        0 <= idx <= chunk_count(img.len()),
    ensures
        chunk_packets_from(None, img, idx) == Seq::new(
            (chunk_count(img.len()) - idx) as nat,
            |j: int| chunk_packet(img, idx + j),
        ),
    decreases chunk_count(img.len()) - idx,
{
    if idx < chunk_count(img.len()) {
        lemma_uncached_chunks_from(img, idx + 1);
    }
    assert(chunk_packets_from(None, img, idx) =~= Seq::new(
        (chunk_count(img.len()) - idx) as nat,
        |j: int| chunk_packet(img, idx + j),
    ));
}

/// With caching off (or nothing cached) a frame upload sends every chunk of
/// the image, one packet per 47 bytes, between the start and end headers.
pub proof fn lemma_uncached_upload_sends_every_chunk(img: Seq<u8>)
    ensures
        frame_packets(None, img).len() == chunk_count(img.len()) + 2,
        forall|i: int|
            0 <= i < chunk_count(img.len()) ==> #[trigger] frame_packets(None, img)[i + 1]
                == chunk_packet(img, i),
{
    lemma_uncached_chunks_from(img, 0);
}

proof fn lemma_whole_chunk_bounds(len: nat, idx: int)
    by (nonlinear_arith)
    requires
        len % 47 == 0,
        0 <= idx < (len + 46) / 47,
    ensures
        idx * 47 + 47 <= len,
{
}

proof fn lemma_chunk_index_in_range(len: nat, idx: int)
    by (nonlinear_arith)
    requires
        0 <= idx,
        idx * 47 < len,
    ensures
        idx < (len + 46) / 47,
{
}

proof fn lemma_past_last_chunk(len: nat, idx: int)
    by (nonlinear_arith)
    requires
        0 <= idx,
        idx * 47 >= len,
    ensures
        idx >= (len + 46) / 47,
{
}

/// Uploading the cached frame again sends no chunk from `idx` on, provided
/// the frame is a whole number of chunks.
proof fn lemma_repeated_chunks_from(img: Seq<u8>, idx: int)
    requires
        img.len() % 47 == 0,
        0 <= idx,
    ensures
        chunk_packets_from(Some(img), img, idx) == Seq::<Seq<u8>>::empty(),
    decreases chunk_count(img.len()) - idx,
{
    if idx < chunk_count(img.len()) {
        lemma_whole_chunk_bounds(img.len(), idx);
        assert(chunk_unchanged(Some(img), img, idx));
        lemma_repeated_chunks_from(img, idx + 1);
    }
}

/// Re-sending the frame that is cached uploads no image data, only the
/// start and end headers, when the frame is a whole number of 47-byte
/// chunks (as a full 960x376 RGB565 frame is). A shorter last chunk is
/// never compared with the cache and is always sent.
pub proof fn lemma_repeated_frame_sends_only_headers(img: Seq<u8>)
    requires
        img.len() % 47 == 0,
    ensures
        frame_packets(Some(img), img) == seq![HEADER_START@, HEADER_END@],
{
    lemma_repeated_chunks_from(img, 0);
    assert(frame_packets(Some(img), img) =~= seq![HEADER_START@, HEADER_END@]);
}

/// A chunk that is not skipped is among the packets planned from any
/// earlier chunk on.
proof fn lemma_kept_chunk_planned(cache: Option<Seq<u8>>, img: Seq<u8>, k: int, idx: int)
    requires
        0 <= k <= idx < chunk_count(img.len()),
        !chunk_unchanged(cache, img, idx),
    ensures
        chunk_packets_from(cache, img, k).contains(chunk_packet(img, idx)),
    decreases idx - k,
{
    if k == idx {
        assert(chunk_packets_from(cache, img, k)[0] == chunk_packet(img, idx));
    } else {
        lemma_kept_chunk_planned(cache, img, k + 1, idx);
        let rest = chunk_packets_from(cache, img, k + 1);
        let i = choose|i: int| 0 <= i < rest.len() && rest[i] == chunk_packet(img, idx);
        if !chunk_unchanged(cache, img, k) {
            assert(chunk_packets_from(cache, img, k)[i + 1] == chunk_packet(img, idx));
        }
    }
}

/// No stale pixels: a chunk of the new image that differs from the cached
/// frame in any of its 47 bytes (or that the cached frame does not fully
/// cover, or that is the short last chunk) is uploaded, as the packet
/// holding the data header, the chunk's byte offset little-endian, and the
/// chunk's bytes of the new image.
pub proof fn lemma_changed_chunk_is_sent(cached: Seq<u8>, img: Seq<u8>, idx: int, j: int)
    requires
        0 <= idx,
        idx * 47 < img.len(),
        idx * 47 <= j < idx * 47 + 47,
        j >= img.len() || j >= cached.len() || cached[j] != img[j],
    ensures
        frame_packets(Some(cached), img).contains(
            HEADER@ + u32_le((idx * 47) as u32) + img.subrange(
                idx * 47,
                if idx * 47 + 47 <= img.len() {
                    idx * 47 + 47
                } else {
                    img.len() as int
                },
            ),
        ),
{
    lemma_chunk_index_in_range(img.len(), idx);
    let cache = Some(cached);
    let chunk = chunk_of(img, idx);
    if idx * 47 + 47 <= cached.len() && cached.subrange(idx * 47, idx * 47 + 47) == chunk {
        if idx * 47 + 47 <= img.len() {
            assert(cached.subrange(idx * 47, idx * 47 + 47)[j - idx * 47] == cached[j]);
            assert(chunk[j - idx * 47] == img[j]);
        } else {
            assert(chunk.len() < 47);
        }
    }
    assert(!chunk_unchanged(cache, img, idx));
    lemma_kept_chunk_planned(cache, img, 0, idx);
    let body = chunk_packets_from(cache, img, 0);
    let i = choose|i: int| 0 <= i < body.len() && body[i] == chunk_packet(img, idx);
    assert(frame_packets(cache, img)[i + 1] == chunk_packet(img, idx));
}

/// With caching off (or nothing cached), every chunk of the image is
/// uploaded, each as the data header, its byte offset and its bytes.
pub proof fn lemma_uncached_chunk_is_sent(img: Seq<u8>, idx: int)
    requires
        0 <= idx,
        idx * 47 < img.len(),
    ensures
        frame_packets(None, img).contains(
            HEADER@ + u32_le((idx * 47) as u32) + img.subrange(
                idx * 47,
                if idx * 47 + 47 <= img.len() {
                    idx * 47 + 47
                } else {
                    img.len() as int
                },
            ),
        ),
{
    lemma_chunk_index_in_range(img.len(), idx);
    assert(!chunk_unchanged(None, img, idx));
    lemma_kept_chunk_planned(None, img, 0, idx);
    let body = chunk_packets_from(None, img, 0);
    let i = choose|i: int| 0 <= i < body.len() && body[i] == chunk_packet(img, idx);
    assert(frame_packets(None, img)[i + 1] == chunk_packet(img, idx));
}

/// Every packet planned from chunk `k` on is the packet of a chunk `m >= k`
/// of the image that was not skipped.
proof fn lemma_planned_chunks_are_kept(cache: Option<Seq<u8>>, img: Seq<u8>, k: int, i: int)
    requires
        0 <= k,
        0 <= i < chunk_packets_from(cache, img, k).len(),
    ensures
        exists|m: int|
            k <= m < chunk_count(img.len()) && !chunk_unchanged(cache, img, m)
                && #[trigger] chunk_packet(img, m) == chunk_packets_from(cache, img, k)[i],
    decreases chunk_count(img.len()) - k,
{
    if chunk_unchanged(cache, img, k) {
        lemma_planned_chunks_are_kept(cache, img, k + 1, i);
    } else if i == 0 {
        assert(chunk_packet(img, k) == chunk_packets_from(cache, img, k)[0]);
    } else {
        lemma_planned_chunks_are_kept(cache, img, k + 1, i - 1);
    }
}

/// An unchanged chunk is not uploaded: when all 47 bytes of a whole chunk
/// equal the cached frame's bytes at the same offset, no planned packet is
/// that chunk's packet (for images whose offsets fit the 32-bit field).
pub proof fn lemma_unchanged_chunk_is_skipped(cached: Seq<u8>, img: Seq<u8>, idx: int)
    requires
        img.len() <= u32::MAX,
        0 <= idx,
        idx * 47 + 47 <= img.len(),
        idx * 47 + 47 <= cached.len(),
        forall|j: int| idx * 47 <= j < idx * 47 + 47 ==> cached[j] == img[j],
    ensures
        !frame_packets(Some(cached), img).contains(
            HEADER@ + u32_le((idx * 47) as u32) + img.subrange(idx * 47, idx * 47 + 47),
        ),
{
    let cache = Some(cached);
    let target = HEADER@ + u32_le((idx * 47) as u32) + img.subrange(idx * 47, idx * 47 + 47);
    lemma_chunk_index_in_range(img.len(), idx);
    assert(cached.subrange(idx * 47, idx * 47 + 47) =~= chunk_of(img, idx));
    assert(chunk_unchanged(cache, img, idx));
    assert(target == chunk_packet(img, idx));
    let all = frame_packets(cache, img);
    let body = chunk_packets_from(cache, img, 0);
    if all.contains(target) {
        let i = choose|i: int| 0 <= i < all.len() && all[i] == target;
        if i == 0 {
            assert(HEADER_START@[4] != target[4]);
        } else if i == all.len() - 1 {
            assert(HEADER_END@.len() != target.len());
        } else {
            assert(all[i] == body[i - 1]);
            lemma_planned_chunks_are_kept(cache, img, 0, i - 1);
            let m = choose|m: int|
                0 <= m < chunk_count(img.len()) && !chunk_unchanged(cache, img, m)
                    && #[trigger] chunk_packet(img, m) == body[i - 1];
            let pm = chunk_packet(img, m);
            lemma_past_last_chunk_bound(img.len(), m);
            lemma_u32_roundtrip((m * 47) as u32);
            lemma_u32_roundtrip((idx * 47) as u32);
            assert(pm.subrange(8, 12) =~= u32_le((m * 47) as u32));
            assert(target.subrange(8, 12) =~= u32_le((idx * 47) as u32));
            assert(m == idx);
        }
    }
}

proof fn lemma_past_last_chunk_bound(len: nat, m: int)
    by (nonlinear_arith)
    requires
        0 <= m < (len + 46) / 47,
    ensures
        m * 47 < len,
{
}

proof fn lemma_planned_order(cache: Option<Seq<u8>>, img: Seq<u8>, k: int, i: int, i2: int)
    requires
        0 <= k,
        0 <= i < i2 < chunk_packets_from(cache, img, k).len(),
    ensures
        exists|m1: int, m2: int|
            k <= m1 < m2 < chunk_count(img.len()) && #[trigger] chunk_packet(img, m1)
                == chunk_packets_from(cache, img, k)[i] && #[trigger] chunk_packet(img, m2)
                == chunk_packets_from(cache, img, k)[i2],
    decreases chunk_count(img.len()) - k,
{
    if chunk_unchanged(cache, img, k) {
        lemma_planned_order(cache, img, k + 1, i, i2);
    } else if i == 0 {
        lemma_planned_chunks_are_kept(cache, img, k + 1, i2 - 1);
        let m2 = choose|m: int|
            k + 1 <= m < chunk_count(img.len()) && !chunk_unchanged(cache, img, m)
                && #[trigger] chunk_packet(img, m) == chunk_packets_from(cache, img, k + 1)[i2
                - 1];
        assert(chunk_packet(img, k) == chunk_packets_from(cache, img, k)[i]);
        assert(chunk_packet(img, m2) == chunk_packets_from(cache, img, k)[i2]);
    } else {
        lemma_planned_order(cache, img, k + 1, i - 1, i2 - 1);
    }
}

/// The offset a chunk's packet carries is the chunk's byte offset.
proof fn lemma_packet_offset(img: Seq<u8>, m: int)
    requires
        img.len() <= u32::MAX,
        0 <= m < chunk_count(img.len()),
    ensures
        m * 47 < img.len(),
        le_u32(chunk_packet(img, m).subrange(8, 12)) == m * 47,
        chunk_packet(img, m) == HEADER@ + u32_le((m * 47) as u32) + img.subrange(
            m * 47,
            if m * 47 + 47 <= img.len() {
                m * 47 + 47
            } else {
                img.len() as int
            },
        ),
{
    lemma_past_last_chunk_bound(img.len(), m);
    lemma_u32_roundtrip((m * 47) as u32);
    assert(chunk_packet(img, m).subrange(8, 12) =~= u32_le((m * 47) as u32));
}

/// The data packet on the wire for the chunk at byte offset `o` of `img`:
/// the data header, `o` as a little-endian `u32`, then the image bytes
/// from `o` on (47 of them, fewer for the last chunk).
pub open spec fn wire_data_packet(img: Seq<u8>, o: int) -> Seq<u8> {
    HEADER@ + u32_le(o as u32) + img.subrange(
        o,
        if o + 47 <= img.len() {
            o + 47
        } else {
            img.len() as int
        },
    )
}

/// The shape of an upload: the start header first, the end header last,
/// and in between only data packets of 13 to 59 bytes, each the data
/// header, the byte offset of a chunk of the image and that chunk's bytes.
pub proof fn lemma_upload_shape(cache: Option<Seq<u8>>, img: Seq<u8>)
    requires
        img.len() <= u32::MAX,
    ensures
        frame_packets(cache, img).len() >= 2,
        frame_packets(cache, img)[0] == HEADER_START@,
        frame_packets(cache, img).last() == HEADER_END@,
        forall|i: int|
            #![trigger frame_packets(cache, img)[i]]
            0 < i < frame_packets(cache, img).len() - 1 ==> 12 < frame_packets(cache, img)[i].len()
                <= 59 && exists|o: int|
                0 <= o < img.len() && o % 47 == 0 && frame_packets(cache, img)[i]
                    == #[trigger] wire_data_packet(img, o),
{
    assert forall|i: int|
        #![trigger frame_packets(cache, img)[i]]
        0 < i < frame_packets(cache, img).len() - 1 implies 12 < frame_packets(cache, img)[i].len()
            <= 59 && exists|o: int|
            0 <= o < img.len() && o % 47 == 0 && frame_packets(cache, img)[i]
                == #[trigger] wire_data_packet(img, o) by {
        lemma_inner_packet_is_data(cache, img, i);
    }
}

/// Data packets of an upload go out in strictly increasing offset order,
/// so no chunk is sent twice and the display is written front to back.
pub proof fn lemma_upload_order(cache: Option<Seq<u8>>, img: Seq<u8>)
    requires
        img.len() <= u32::MAX,
    ensures
        forall|i: int, k: int|
            0 < i < k < frame_packets(cache, img).len() - 1 ==> le_u32(
                #[trigger] frame_packets(cache, img)[i].subrange(8, 12),
            ) < le_u32(#[trigger] frame_packets(cache, img)[k].subrange(8, 12)),
{
    assert forall|i: int, k: int| 0 < i < k < frame_packets(cache, img).len() - 1 implies le_u32(
        #[trigger] frame_packets(cache, img)[i].subrange(8, 12),
    ) < le_u32(#[trigger] frame_packets(cache, img)[k].subrange(8, 12)) by {
        lemma_inner_packets_ordered(cache, img, i, k);
    }
}

proof fn lemma_inner_packet_is_data(cache: Option<Seq<u8>>, img: Seq<u8>, i: int)
    requires
        img.len() <= u32::MAX,
        0 < i < frame_packets(cache, img).len() - 1,
    ensures
        12 < frame_packets(cache, img)[i].len() <= 59,
        exists|o: int|
            0 <= o < img.len() && o % 47 == 0 && frame_packets(cache, img)[i]
                == #[trigger] wire_data_packet(img, o),
{
    let f = frame_packets(cache, img);
    let body = chunk_packets_from(cache, img, 0);
    assert(f[i] == body[i - 1]);
    lemma_planned_chunks_are_kept(cache, img, 0, i - 1);
    let m = choose|m: int|
        0 <= m < chunk_count(img.len()) && !chunk_unchanged(cache, img, m)
            && #[trigger] chunk_packet(img, m) == body[i - 1];
    lemma_packet_offset(img, m);
    vstd::arithmetic::div_mod::lemma_mod_multiples_basic(m, 47);
    assert(f[i] == wire_data_packet(img, m * 47));
}

proof fn lemma_inner_packets_ordered(cache: Option<Seq<u8>>, img: Seq<u8>, i: int, k: int)
    requires
        img.len() <= u32::MAX,
        0 < i < k < frame_packets(cache, img).len() - 1,
    ensures
        le_u32(frame_packets(cache, img)[i].subrange(8, 12)) < le_u32(
            frame_packets(cache, img)[k].subrange(8, 12),
        ),
{
    let f = frame_packets(cache, img);
    let body = chunk_packets_from(cache, img, 0);
    assert(f[i] == body[i - 1]);
    assert(f[k] == body[k - 1]);
    lemma_planned_order(cache, img, 0, i - 1, k - 1);
    let (m1, m2) = choose|m1: int, m2: int|
        0 <= m1 < m2 < chunk_count(img.len()) && #[trigger] chunk_packet(img, m1) == body[i - 1]
            && #[trigger] chunk_packet(img, m2) == body[k - 1];
    lemma_packet_offset(img, m1);
    lemma_packet_offset(img, m2);
}

/// Frame cache of the display connection: the last frame sent, kept for
/// diff updates while caching is enabled.
pub struct FrameCache {
    enable_cache: bool,
    prev_frame: Option<BytesMut>,
}

impl FrameCache {
    /// True while caching is enabled.
    pub closed spec fn enabled(&self) -> bool {
        self.enable_cache
    }

    /// The cached previous frame, if any.
    pub closed spec fn previous(&self) -> Option<Seq<u8>> {
        match self.prev_frame {
            Some(b) => Some(bytes_contents(b)),
            None => None,
        }
    }

    /// The previous frame the next upload may diff against: only while
    /// caching is enabled.
    pub open spec fn diff_base(&self) -> Option<Seq<u8>> {
        if self.enabled() {
            self.previous()
        } else {
            None
        }
    }

    /// An empty cache.
    pub fn new(enable_cache: bool) -> (c: FrameCache)
        ensures
            c.enabled() == enable_cache,
            c.previous().is_none(),
    {
        FrameCache { enable_cache, prev_frame: None }
    }

    /// Enables or disables caching; disabling drops the cached frame.
    pub fn enable_cache(&mut self, enable: bool)
        ensures
            final(self).enabled() == enable,
            enable ==> final(self).previous() == old(self).previous(),
            !enable ==> final(self).previous().is_none(),
    {
        self.enable_cache = enable;
        if !enable {
            self.clear_cache();
        }
    }

    /// True while caching is enabled.
    pub fn is_cache_enabled(&self) -> (b: bool)
        ensures
            b == self.enabled(),
    {
        self.enable_cache
    }

    /// Drops the cached frame (the next upload sends every chunk).
    pub fn clear_cache(&mut self)
        ensures
            final(self).enabled() == old(self).enabled(),
            final(self).previous().is_none(),
    {
        self.prev_frame = None;
    }

    /// True when a frame is cached.
    pub fn has_previous_frame(&self) -> (b: bool)
        ensures
            b == self.previous().is_some(),
    {
        self.prev_frame.is_some()
    }

    /// The packets that upload `img`: the start header, one packet per chunk
    /// that differs from the cached previous frame (every chunk when caching
    /// is off or nothing is cached), and the end header.
    pub fn plan_frame(&self, data: &[u8]) -> (packets: Vec<Vec<u8>>)
        ensures
            packets@.map_values(|p: Vec<u8>| p@) == frame_packets(self.diff_base(), data@),
    {
        let len = data.len();
        let ghost cache = self.diff_base();
        let mut packets: Vec<Vec<u8>> = Vec::new();
        packets.push(vstd::slice::slice_to_vec(HEADER_START.as_slice()));
        let mut buf = bytes_with_capacity(8 + 4 + IMG_CHUNK_SIZE);
        let mut idx: usize = 0;
        let mut offset: usize = 0;
        while offset < len
            invariant
                len == data@.len(),
                offset <= len,
                offset < len ==> offset == idx * 47,
                offset == len ==> idx * 47 >= len,
                cache == self.diff_base(),
                packets@.map_values(|p: Vec<u8>| p@) + chunk_packets_from(cache, data@, idx as int)
                    == seq![HEADER_START@] + chunk_packets_from(cache, data@, 0),
            decreases len - offset,
        {
            proof {
                lemma_chunk_index_in_range(len as nat, idx as int);
            }
            let end = if len - offset >= IMG_CHUNK_SIZE {
                offset + IMG_CHUNK_SIZE
            } else {
                len
            };
            let ghost before = packets@.map_values(|p: Vec<u8>| p@);
            let unchanged = if self.enable_cache {
                match &self.prev_frame {
                    Some(prev) => {
                        let c = bytes_as_slice(prev);
                        c.len() >= offset && c.len() - offset >= IMG_CHUNK_SIZE && slices_equal(
                            c,
                            offset,
                            data,
                            offset,
                            end,
                            IMG_CHUNK_SIZE,
                        )
                    },
                    None => false,
                }
            } else {
                false
            };
            proof {
                assert(chunk_of(data@, idx as int) =~= data@.subrange(offset as int, end as int));
            }
            if !unchanged {
                bytes_clear(&mut buf);
                bytes_extend(&mut buf, HEADER.as_slice());
                bytes_put_u32_le(&mut buf, offset as u32);
                bytes_extend(&mut buf, vstd::slice::slice_subrange(data, offset, end));
                let packet = vstd::slice::slice_to_vec(bytes_as_slice(&buf));
                packets.push(packet);
                proof {
                    assert(packet@ =~= chunk_packet(data@, idx as int));
                    assert(packets@.map_values(|p: Vec<u8>| p@) =~= before.push(
                        chunk_packet(data@, idx as int),
                    ));
                }
            }
            proof {
                assert(packets@.map_values(|p: Vec<u8>| p@) + chunk_packets_from(
                    cache,
                    data@,
                    idx + 1,
                ) =~= before + chunk_packets_from(cache, data@, idx as int));
            }
            idx = idx + 1;
            offset = end;
        }
        proof {
            lemma_past_last_chunk(len as nat, idx as int);
            assert(chunk_packets_from(cache, data@, idx as int) =~= Seq::<Seq<u8>>::empty());
        }
        let ghost body = packets@.map_values(|p: Vec<u8>| p@);
        packets.push(vstd::slice::slice_to_vec(HEADER_END.as_slice()));
        assert(packets@.map_values(|p: Vec<u8>| p@) =~= body.push(HEADER_END@));
        packets
    }

    /// Records `img` as the previous frame after a successful upload (only
    /// while caching is enabled).
    pub fn commit_frame(&mut self, img: &[u8])
        ensures
            final(self).enabled() == old(self).enabled(),
            old(self).enabled() ==> final(self).previous() == Some(img@),
            !old(self).enabled() ==> final(self).previous() == old(self).previous(),
    {
        if self.enable_cache {
            self.prev_frame = Some(bytes_from_slice(img));
        }
    }
}

/// True when `a[alo..alo + n] == b[blo..bhi]` (`n` bytes against `bhi - blo`).
fn slices_equal(a: &[u8], alo: usize, b: &[u8], blo: usize, bhi: usize, n: usize) -> (r: bool)
    requires
        alo + n <= a@.len(),
        blo <= bhi <= b@.len(),
    ensures
        r == (a@.subrange(alo as int, alo + n) == b@.subrange(blo as int, bhi as int)),
{
    if bhi - blo != n {
        assert(a@.subrange(alo as int, alo + n).len() != b@.subrange(blo as int, bhi as int).len());
        return false;
    }
    let alen = a.len();
    let blen = b.len();
    let mut i: usize = 0;
    while i < n
        invariant
            alen == a@.len(),
            blen == b@.len(),
            alo + n <= a@.len(),
            blo + n == bhi <= b@.len(),
            i <= n,
            forall|j: int|
                0 <= j < i ==> #[trigger] a@.subrange(alo as int, alo + n)[j] == b@.subrange(
                    blo as int,
                    bhi as int,
                )[j],
        decreases n - i,
    {
        if a[alo + i] != b[blo + i] {
            assert(a@.subrange(alo as int, alo + n)[i as int] != b@.subrange(
                blo as int,
                bhi as int,
            )[i as int]);
            return false;
        }
        i = i + 1;
    }
    assert(a@.subrange(alo as int, alo + n) =~= b@.subrange(blo as int, bhi as int));
    true
}

// ---------------------------------------------------------------------
// Screen builder settings.
// ---------------------------------------------------------------------

/// Serial timeout used when the builder sets none, in milliseconds.
pub const DEFAULT_TIMEOUT_MILLIS: u64 = 1000;

/// Settings of a display connection, collected before the port is opened.
pub struct AooScreenBuilder {
    timeout: Option<Duration>,
    enable_cache: Option<bool>,
    no_init_check: Option<bool>,
}

impl AooScreenBuilder {
    /// The serial timeout that was set, if any.
    pub closed spec fn timeout_opt(&self) -> Option<Duration> {
        self.timeout
    }

    /// The cache setting that was set, if any.
    pub closed spec fn enable_cache_opt(&self) -> Option<bool> {
        self.enable_cache
    }

    /// The init-check setting that was set, if any.
    pub closed spec fn no_init_check_opt(&self) -> Option<bool> {
        self.no_init_check
    }

    /// A builder with nothing set.
    pub fn new() -> (b: Self)
        ensures
            b.timeout_opt().is_none(),
            b.enable_cache_opt().is_none(),
            b.no_init_check_opt().is_none(),
    {
        AooScreenBuilder { timeout: None, enable_cache: None, no_init_check: None }
    }

    /// Sets the amount of time to wait to receive data before timing out
    /// (defaults to one second).
    pub fn timeout(&mut self, timeout: Duration) -> (r: &mut Self)
        ensures
            r.timeout_opt() == Some(timeout),
            r.enable_cache_opt() == old(self).enable_cache_opt(),
            r.no_init_check_opt() == old(self).no_init_check_opt(),
            *final(self) == *final(r),
    {
        self.timeout = Some(timeout);
        self
    }

    /// Caches the previous frame for diff updates (enabled by default).
    pub fn enable_cache(&mut self, enable: bool) -> (r: &mut Self)
        ensures
            r.enable_cache_opt() == Some(enable),
            r.timeout_opt() == old(self).timeout_opt(),
            r.no_init_check_opt() == old(self).no_init_check_opt(),
            *final(self) == *final(r),
    {
        self.enable_cache = Some(enable);
        self
    }

    /// Skips the initialisation response check and only writes to the
    /// display (defaults to false).
    pub fn no_init_check(&mut self, no_check: bool) -> (r: &mut Self)
        ensures
            r.no_init_check_opt() == Some(no_check),
            r.timeout_opt() == old(self).timeout_opt(),
            r.enable_cache_opt() == old(self).enable_cache_opt(),
            *final(self) == *final(r),
    {
        self.no_init_check = Some(no_check);
        self
    }

    /// The serial timeout that was set; `None` means
    /// [`DEFAULT_TIMEOUT_MILLIS`].
    pub fn timeout_setting(&self) -> (t: Option<Duration>)
        ensures
            t == self.timeout_opt(),
    {
        self.timeout
    }

    /// Whether the opened screen caches frames: the setting, else true.
    pub fn cache_enabled(&self) -> (b: bool)
        ensures
            b == match self.enable_cache_opt() {
                Some(e) => e,
                None => true,
            },
    {
        match self.enable_cache {
            Some(e) => e,
            None => true,
        }
    }

    /// Whether the opened screen skips the init check: the setting, else
    /// false.
    pub fn init_check_skipped(&self) -> (b: bool)
        ensures
            b == match self.no_init_check_opt() {
                Some(e) => e,
                None => false,
            },
    {
        match self.no_init_check {
            Some(e) => e,
            None => false,
        }
    }

    /// The frame cache a freshly opened screen starts with: empty, enabled
    /// per [`Self::cache_enabled`].
    pub fn frame_cache(&self) -> (c: FrameCache)
        ensures
            c.enabled() == match self.enable_cache_opt() {
                Some(e) => e,
                None => true,
            },
            c.previous().is_none(),
    {
        FrameCache::new(self.cache_enabled())
    }
}

impl Default for AooScreenBuilder {
    fn default() -> (b: Self)
        ensures
            b.timeout_opt().is_none(),
            b.enable_cache_opt().is_none(),
            b.no_init_check_opt().is_none(),
    {
        AooScreenBuilder::new()
    }
}

// ---------------------------------------------------------------------
// Connection decisions.
// ---------------------------------------------------------------------

/// Reconnect backoff in seconds before retry `attempt`: doubling from one
/// second, capped at 60.
pub open spec fn spec_backoff_delay(attempt: u32) -> u64 {
    let p = pow2(if attempt < 6 { attempt as nat } else { 6 });
    if p < 60 {
        p as u64
    } else {
        60
    }
}

/// Reconnect backoff in seconds for the `attempt`-th reconnect attempt:
/// 1, 2, 4, ..., 32, then 60 from the sixth attempt on.
pub fn backoff_delay(attempt: u32) -> (secs: u64)
    ensures
        secs == spec_backoff_delay(attempt),
        1 <= secs <= 60,
{
    let shift: u64 = if attempt < 6 {
        attempt as u64
    } else {
        6
    };
    proof {
        lemma2_to64();
        lemma_u64_shl_is_mul(1, shift);
    }
    let secs = 1u64 << shift;
    if secs < 60 {
        secs
    } else {
        60
    }
}

/// The reconnect backoff never shrinks from one attempt to the next.
pub proof fn lemma_backoff_delay_monotonic(a: u32, b: u32)
    requires
        a <= b,
    ensures
        spec_backoff_delay(a) <= spec_backoff_delay(b),
{
    let ea: nat = if a < 6 { a as nat } else { 6 };
    let eb: nat = if b < 6 { b as nat } else { 6 };
    if ea < eb {
        lemma_pow2_strictly_increases(ea, eb);
    }
    lemma2_to64();
}

/// After the write numbered `retry` (counting from 0) failed: the number of
/// the next attempt, or `None` once [`SERIAL_RETRY`] retries are used up.
pub fn next_write_retry(retry: u8) -> (next: Option<u8>)
    ensures
        retry < SERIAL_RETRY ==> next == Some((retry + 1) as u8),
        retry >= SERIAL_RETRY ==> next.is_none(),
{
    if retry < SERIAL_RETRY {
        Some(retry + 1)
    } else {
        None
    }
}

/// Why the display did not confirm initialisation.
#[derive(PartialEq, Eq, Structural, Clone, Copy, Debug)]
pub enum InitError {
    /// Nothing was received.
    NoResponse,
    /// Bytes were received, but no `A` among them.
    UnexpectedResponse,
}

/// Checks the display's answer to the display-on command: it must hold at
/// least one byte, one of them `b'A'`.
pub fn check_init_response(response: &[u8]) -> (r: Result<(), InitError>)
    ensures
        response@.len() == 0 ==> r == Err::<(), InitError>(InitError::NoResponse),
        response@.len() > 0 && response@.contains(0x41u8) ==> r is Ok,
        response@.len() > 0 && !response@.contains(0x41u8) ==> r == Err::<(), InitError>(
            InitError::UnexpectedResponse,
        ),
{
    let n = response.len();
    if n == 0 {
        return Err(InitError::NoResponse);
    }
    let mut i: usize = 0;
    while i < n
        invariant
            n == response@.len(),
            i <= n,
            forall|j: int| 0 <= j < i ==> response@[j] != 0x41u8,
        decreases n - i,
    {
        if response[i] == 0x41u8 {
            assert(response@[i as int] == 0x41u8);
            return Ok(());
        }
        i = i + 1;
    }
    Err(InitError::UnexpectedResponse)
}

// ---------------------------------------------------------------------
// USB id "vid:pid" in hex notation.
// ---------------------------------------------------------------------

/// Value of a hexadecimal digit character.
pub open spec fn hex_value(c: char) -> Option<nat> {
    if '0' <= c <= '9' {
        Some((c as nat - '0' as nat) as nat)
    } else if 'a' <= c <= 'f' {
        Some((c as nat - 'a' as nat + 10) as nat)
    } else if 'A' <= c <= 'F' {
        Some((c as nat - 'A' as nat + 10) as nat)
    } else {
        None
    }
}

/// True when every character of `s` is a hexadecimal digit.
pub open spec fn all_hex(s: Seq<char>) -> bool {
    forall|i: int| 0 <= i < s.len() ==> (#[trigger] hex_value(s[i])) is Some
}

/// The number written by the hexadecimal digits `s`.
pub open spec fn hex_number(s: Seq<char>) -> nat
    decreases s.len(),
{
    if s.len() == 0 {
        0
    } else {
        hex_number(s.drop_last()) * 16 + hex_value(s.last()).unwrap_or(0)
    }
}

/// `u16::from_str_radix(s, 16)`: an optional `+` followed by one or more
/// hex digits whose value fits in 16 bits.
pub open spec fn parse_hex_u16(s: Seq<char>) -> Option<u16> {
    let d = if s.len() > 0 && s[0] == '+' {
        s.drop_first()
    } else {
        s
    };
    if d.len() > 0 && all_hex(d) && hex_number(d) <= 0xFFFF {
        Some(hex_number(d) as u16)
    } else {
        None
    }
}

/// Parses hexadecimal text into a `u16`, as `u16::from_str_radix(s, 16)`.
pub fn hex_u16(s: &[char]) -> (r: Option<u16>)
    ensures
        r == parse_hex_u16(s@),
{
    let n = s.len();
    let start: usize = if n > 0 && s[0] == '+' {
        1
    } else {
        0
    };
    let ghost d = if s@.len() > 0 && s@[0] == '+' {
        s@.drop_first()
    } else {
        s@
    };
    assert(d =~= s@.subrange(start as int, n as int));
    if start == n {
        return None;
    }
    // `acc` saturates at 0x10000, which is enough to tell "too large".
    let mut acc: u32 = 0;
    let mut i: usize = start;
    while i < n
        invariant
            start <= i <= n,
            n == s@.len(),
            d == s@.subrange(start as int, n as int),
            d == (if s@.len() > 0 && s@[0] == '+' {
                s@.drop_first()
            } else {
                s@
            }),
            all_hex(s@.subrange(start as int, i as int)),
            acc as nat == if hex_number(s@.subrange(start as int, i as int)) < 0x10000 {
                hex_number(s@.subrange(start as int, i as int))
            } else {
                0x10000
            },
        decreases n - i,
    {
        let c = s[i];
        let v: u32 = if '0' <= c && c <= '9' {
            (c as u32) - ('0' as u32)
        } else if 'a' <= c && c <= 'f' {
            (c as u32) - ('a' as u32) + 10
        } else if 'A' <= c && c <= 'F' {
            (c as u32) - ('A' as u32) + 10
        } else {
            assert(hex_value(d[i - start]) is None);
            return None;
        };
        let ghost pre = s@.subrange(start as int, i as int);
        let ghost next = s@.subrange(start as int, i + 1);
        assert(next.drop_last() =~= pre);
        assert(next.last() == c);
        assert(hex_value(c) == Some(v as nat));
        assert(hex_number(next) == hex_number(pre) * 16 + v);
        acc = if acc * 16 + v < 0x10000 {
            acc * 16 + v
        } else {
            0x10000
        };
        i = i + 1;
    }
    assert(s@.subrange(start as int, n as int) == d);
    if acc <= 0xFFFF {
        Some(acc as u16)
    } else {
        None
    }
}

/// Why a `vid:pid` text was refused.
#[derive(PartialEq, Eq, Structural, Clone, Copy, Debug)]
pub enum UsbIdError {
    /// No `:` between the two ids.
    MissingSeparator,
    /// The vendor id is not a 16-bit hex number.
    InvalidVid,
    /// The product id is not a 16-bit hex number.
    InvalidPid,
}

/// What `vid:pid` text (hex, split at the first `:`) denotes.
pub open spec fn spec_usb_id(s: Seq<char>) -> Result<(u16, u16), UsbIdError> {
    let k = crate::text::char_pos(s, ':', 0);
    if k >= s.len() {
        Err(UsbIdError::MissingSeparator)
    } else {
        match parse_hex_u16(s.subrange(0, k)) {
            None => Err(UsbIdError::InvalidVid),
            Some(vid) => match parse_hex_u16(s.subrange(k + 1, s.len() as int)) {
                None => Err(UsbIdError::InvalidPid),
                Some(pid) => Ok((vid, pid)),
            },
        }
    }
}

/// Parses a USB UART id `vid:pid` in hex notation (as `lsusb` prints it).
pub fn parse_usb_id(id: &str) -> (r: Result<(u16, u16), UsbIdError>)
    ensures
        r == spec_usb_id(id@),
{
    let cs = crate::text::chars_of(id);
    let n = cs.len();
    let k = crate::text::find_char(&cs, ':', 0, n);
    proof {
        assert(cs@.subrange(0, n as int) =~= cs@);
        crate::text::lemma_char_pos_bounds(cs@, ':', 0);
    }
    if k >= n {
        return Err(UsbIdError::MissingSeparator);
    }
    let vid = hex_u16(vstd::slice::slice_subrange(cs.as_slice(), 0, k));
    match vid {
        None => Err(UsbIdError::InvalidVid),
        Some(v) => {
            let pid = hex_u16(vstd::slice::slice_subrange(cs.as_slice(), k + 1, n));
            match pid {
                None => Err(UsbIdError::InvalidPid),
                Some(p) => Ok((v, p)),
            }
        },
    }
}

// ---------------------------------------------------------------------
// Serial port lookup.
// ---------------------------------------------------------------------

/// One available serial port: its name and, for a USB port, its
/// `(vid, pid)`.
#[derive(Clone, Debug)]
pub struct SerialPortEntry {
    pub port_name: String,
    pub usb_ids: Option<(u16, u16)>,
}

/// Index of the first USB port with ids `(vid, pid)` at or after `i`, or
/// `ports.len()` when there is none.
pub open spec fn first_usb_match(ports: Seq<SerialPortEntry>, vid: u16, pid: u16, i: int) -> int
    decreases ports.len() - i,
{
    if i < 0 || i >= ports.len() {
        ports.len() as int
    } else if ports[i].usb_ids == Some((vid, pid)) {
        i
    } else {
        first_usb_match(ports, vid, pid, i + 1)
    }
}

/// The name of the first USB serial port with the given ids, in the order
/// the ports were listed.
pub fn find_usb_serial_port(ports: &[SerialPortEntry], vid: u16, pid: u16) -> (r: Option<String>)
    ensures
        ({
            let k = first_usb_match(ports@, vid, pid, 0);
            if k < ports@.len() {
                r == Some(ports@[k].port_name)
            } else {
                r.is_none()
            }
        }),
{
    let n = ports.len();
    let mut i: usize = 0;
    while i < n
        invariant
            n == ports@.len(),
            i <= n,
            first_usb_match(ports@, vid, pid, 0) == first_usb_match(ports@, vid, pid, i as int),
        decreases n - i,
    {
        let ids = ports[i].usb_ids;
        let hit = match ids {
            Some((v, p)) => v == vid && p == pid,
            None => false,
        };
        if hit {
            return Some(ports[i].port_name.clone());
        }
        i = i + 1;
    }
    None
}

} // verus!
