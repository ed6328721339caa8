//! The write path: turn a content buffer into the exact sequence of framed
//! bus messages that stores it, content chunks first, metadata last.

use vstd::prelude::*;
use vstd::slice::slice_subrange;
use crate::checksum::compute_checksum;
use crate::checksum::crc16_usb;
use crate::layout::CHUNK_SIZE;
use crate::layout::CONTENT_OFFSET;
use crate::layout::MAX_CONTENT_SIZE;
use crate::layout::METADATA_OFFSET;
use crate::metadata::Metadata;
use crate::metadata::spec_encode;

verus! {

/// The write path refuses content before any bus traffic.
#[derive(Clone, Copy, Debug, PartialEq, Eq, Structural)]
pub enum WriteError {
    /// The content does not fit in the content region.
    ContentTooLarge,
}

/// Number of content chunks needed for `len` content bytes.
pub open spec fn chunk_count(len: int) -> int {
    (len + CHUNK_SIZE - 1) / (CHUNK_SIZE as int)
}

/// The two big-endian bytes that frame target offset `off`.
pub open spec fn spec_offset_bytes(off: int) -> Seq<u8> {
    seq![(off / 256) as u8, (off % 256) as u8]
}

/// Where chunk `k` ends within content of length `len`: a full chunk, or the
/// tail of the content for the last, possibly short, chunk.
pub open spec fn chunk_end(len: int, k: int) -> int {
    if (k + 1) * (CHUNK_SIZE as int) <= len {
        (k + 1) * (CHUNK_SIZE as int)
    } else {
        len
    }
}

/// The framed bus message that writes content chunk `k`.
pub open spec fn spec_chunk_message(content: Seq<u8>, k: int) -> Seq<u8> {
    spec_offset_bytes(CONTENT_OFFSET + k * (CHUNK_SIZE as int)) + content.subrange(
        k * (CHUNK_SIZE as int),
        chunk_end(content.len() as int, k),
    )
}

/// The record the write path stores alongside `content`.
pub open spec fn spec_metadata_for(content: Seq<u8>) -> Metadata {
    Metadata { content_crc: crc16_usb(content), content_size: content.len() as u16 }
}

/// The framed bus message that commits the metadata record.
pub open spec fn spec_metadata_message(content: Seq<u8>) -> Seq<u8> {
    spec_offset_bytes(METADATA_OFFSET as int) + spec_encode(spec_metadata_for(content))
}

/// Every bus write that stores `content`: one message per content chunk in
/// increasing address order, then the metadata message last.
pub open spec fn spec_write_plan(content: Seq<u8>) -> Seq<Seq<u8>> {
    Seq::new(
        (chunk_count(content.len() as int) + 1) as nat,
        |i: int|
            if i < chunk_count(content.len() as int) {
                spec_chunk_message(content, i)
            } else {
                spec_metadata_message(content)
            },
    )
}

/// Build the full sequence of framed bus messages that stores `content`.
/// Content that does not fit is refused before any message exists.
pub fn build_write_plan(content: &[u8]) -> (r: Result<Vec<Vec<u8>>, WriteError>)
    ensures
        content@.len() > MAX_CONTENT_SIZE as int ==> r == Err::<Vec<Vec<u8>>, WriteError>(
            WriteError::ContentTooLarge,
        ),
        content@.len() <= MAX_CONTENT_SIZE as int ==> r is Ok,
        r matches Ok(plan) ==> {
            &&& plan@.len() == chunk_count(content@.len() as int) + 1
            &&& forall|i: int|
                0 <= i < plan@.len() ==> plan@[i]@ == #[trigger] spec_write_plan(content@)[i]
        },
{
    if content.len() > MAX_CONTENT_SIZE as usize {
        return Err(WriteError::ContentTooLarge);
    }
    let len: usize = content.len();
    let chunk: usize = CHUNK_SIZE as usize;
    let n: usize = (len + chunk - 1) / chunk;
    proof {
        assert(n == chunk_count(len as int));
        assert((n as int) * (CHUNK_SIZE as int) < len + CHUNK_SIZE) by {
            vstd::arithmetic::div_mod::lemma_fundamental_div_mod(
                len as int + CHUNK_SIZE - 1,
                CHUNK_SIZE as int,
            );
        }
    }
    let mut plan: Vec<Vec<u8>> = Vec::new();
    let mut k: usize = 0;
    while k < n
        invariant
            len == content@.len(),
            len <= MAX_CONTENT_SIZE,
            chunk == CHUNK_SIZE as int,
            n == chunk_count(len as int),
            (n as int) * (CHUNK_SIZE as int) < len + CHUNK_SIZE,
            k <= n,
            plan@.len() == k as int,
            forall|i: int|
                0 <= i < k as int ==> plan@[i]@ == #[trigger] spec_write_plan(content@)[i],
        decreases n - k,
    {
        let start: usize = k * chunk;
        proof {
            assert((k as int) * (CHUNK_SIZE as int) + CHUNK_SIZE <= (n as int) * (
            CHUNK_SIZE as int)) by (nonlinear_arith)
                requires
                    k < n,
            ;
            assert(start < len);
        }
        let end: usize = if start + chunk <= len {
            start + chunk
        } else {
            len
        };
        let off: u16 = CONTENT_OFFSET + (k as u16) * CHUNK_SIZE;
        let mut msg: Vec<u8> = Vec::new();
        msg.push((off / 256) as u8);
        msg.push((off % 256) as u8);
        msg.extend_from_slice(slice_subrange(content, start, end));
        proof {
            assert(msg@ =~= spec_chunk_message(content@, k as int));
            assert(spec_write_plan(content@)[k as int] == spec_chunk_message(
                content@,
                k as int,
            ));
        }
        plan.push(msg);
        k = k + 1;
    }
    let meta = Metadata { content_crc: compute_checksum(content), content_size: len as u16 };
    let mut msg: Vec<u8> = Vec::new();
    msg.push((METADATA_OFFSET / 256) as u8);
    msg.push((METADATA_OFFSET % 256) as u8);
    let encoded = meta.encode();
    msg.extend_from_slice(encoded.as_slice());
    proof {
        assert(meta == spec_metadata_for(content@));
        assert(msg@ =~= spec_metadata_message(content@));
    }
    plan.push(msg);
    Ok(plan)
}

} // verus!
