//! Laws of the whole transfer protocol: what the write plan leaves on the
//! device image, and what the read path's decisions then return.

use vstd::prelude::*;
use crate::device::apply_message;
use crate::device::apply_messages;
use crate::device::msg_offset;
use crate::device::msg_payload;
use crate::device::msg_wf;
use crate::layout::CHUNK_SIZE;
use crate::layout::CONTENT_OFFSET;
use crate::layout::EEPROM_SIZE;
use crate::layout::MAX_CONTENT_SIZE;
use crate::layout::METADATA_OFFSET;
use crate::layout::METADATA_SIZE;
use crate::metadata::Metadata;
use crate::metadata::lemma_codec_round_trip;
use crate::metadata::spec_decode;
use crate::metadata::spec_encode;
use crate::read_path::ReadError;
use crate::read_path::spec_inspect;
use crate::read_path::spec_read_image;
use crate::read_path::spec_verify;
use crate::write_path::chunk_count;
use crate::write_path::chunk_end;
use crate::write_path::spec_metadata_for;
use crate::write_path::spec_offset_bytes;
use crate::write_path::spec_write_plan;

verus! {

/// A framed message built for offset `off` targets exactly `off` and carries
/// the payload behind its two offset bytes.
pub proof fn lemma_framed_message(off: int, payload: Seq<u8>)
    requires
        0 <= off < 65536,
    ensures
        (spec_offset_bytes(off) + payload).len() == payload.len() + 2,
        msg_offset(spec_offset_bytes(off) + payload) == off,
        msg_payload(spec_offset_bytes(off) + payload) == payload,
{
    vstd::arithmetic::div_mod::lemma_fundamental_div_mod(off, 256);
    assert(0 <= off / 256 < 256);
    assert(msg_payload(spec_offset_bytes(off) + payload) =~= payload);
}

/// There are never more chunks than fit in the content region.
pub proof fn lemma_chunk_count_bounds(len: int)
    requires
        0 <= len <= MAX_CONTENT_SIZE,
    ensures
        0 <= chunk_count(len) <= 255,
        chunk_count(len) * (CHUNK_SIZE as int) < len + CHUNK_SIZE,
        chunk_count(len) * (CHUNK_SIZE as int) >= len,
{
    vstd::arithmetic::div_mod::lemma_fundamental_div_mod(len + CHUNK_SIZE - 1, CHUNK_SIZE as int);
}

/// Chunking law: storing content of length `L` issues `ceil(L / CHUNK_SIZE)`
/// content messages, the `k`-th targeting offset
/// `CONTENT_OFFSET + k * CHUNK_SIZE` with exactly the matching slice of the
/// content as payload, and the metadata message comes after all of them.
pub proof fn lemma_chunking(content: Seq<u8>)
    requires
        content.len() <= MAX_CONTENT_SIZE,
    ensures
        spec_write_plan(content).len() == chunk_count(content.len() as int) + 1,
        forall|k: int|
            0 <= k < chunk_count(content.len() as int) ==> msg_offset(
                #[trigger] spec_write_plan(content)[k],
            ) == CONTENT_OFFSET + k * (CHUNK_SIZE as int),
        forall|k: int|
            0 <= k < chunk_count(content.len() as int) ==> msg_payload(
                #[trigger] spec_write_plan(content)[k],
            ) == content.subrange(
                k * (CHUNK_SIZE as int),
                chunk_end(content.len() as int, k),
            ),
        msg_offset(spec_write_plan(content)[chunk_count(content.len() as int)])
            == METADATA_OFFSET,
        msg_payload(spec_write_plan(content)[chunk_count(content.len() as int)]) == spec_encode(
            spec_metadata_for(content),
        ),
        forall|k: int|
            0 <= k < spec_write_plan(content).len() ==> msg_wf(
                #[trigger] spec_write_plan(content)[k],
                EEPROM_SIZE as int,
            ),
{
    let len = content.len() as int;
    let n = chunk_count(len);
    lemma_chunk_count_bounds(len);
    assert forall|k: int| 0 <= k < n implies msg_offset(#[trigger] spec_write_plan(content)[k])
        == CONTENT_OFFSET + k * (CHUNK_SIZE as int) && msg_payload(spec_write_plan(content)[k])
        == content.subrange(k * (CHUNK_SIZE as int), chunk_end(len, k)) by {
        assert(CONTENT_OFFSET + k * (CHUNK_SIZE as int) < 65536);
        lemma_framed_message(
            CONTENT_OFFSET + k * (CHUNK_SIZE as int),
            content.subrange(k * (CHUNK_SIZE as int), chunk_end(len, k)),
        );
    }
    lemma_framed_message(METADATA_OFFSET as int, spec_encode(spec_metadata_for(content)));
    assert forall|k: int| 0 <= k < spec_write_plan(content).len() implies msg_wf(
        #[trigger] spec_write_plan(content)[k],
        EEPROM_SIZE as int,
    ) by {
        if k < n {
            assert(chunk_end(len, k) <= len);
        }
    }
}

/// After the first `j` messages of the write plan — all of them content
/// chunks — the metadata region is untouched, the first
/// `min(j * CHUNK_SIZE, L)` content bytes are in place, and every other byte
/// keeps its old value.
proof fn lemma_apply_chunks(dev: Seq<u8>, content: Seq<u8>, j: int)
    requires
        dev.len() == EEPROM_SIZE,
        content.len() <= MAX_CONTENT_SIZE,
        0 <= j <= chunk_count(content.len() as int),
    ensures
        ({
            let d = apply_messages(dev, spec_write_plan(content).take(j));
            let done = chunk_end(content.len() as int, j - 1);
            &&& d.len() == dev.len()
            &&& forall|i: int| 0 <= i < CONTENT_OFFSET ==> #[trigger] d[i] == dev[i]
            &&& forall|i: int|
                CONTENT_OFFSET <= i < CONTENT_OFFSET + done ==> #[trigger] d[i] == content[i
                    - CONTENT_OFFSET]
            &&& forall|i: int|
                CONTENT_OFFSET + done <= i < dev.len() ==> #[trigger] d[i] == dev[i]
        }),
    decreases j,
{
    let plan = spec_write_plan(content);
    let len = content.len() as int;
    lemma_chunk_count_bounds(len);
    if j == 0 {
        assert(plan.take(0) =~= Seq::<Seq<u8>>::empty());
        assert(chunk_end(len, -1) == 0);
    } else {
        lemma_apply_chunks(dev, content, j - 1);
        let prev = apply_messages(dev, plan.take(j - 1));
        assert(plan.take(j).drop_last() =~= plan.take(j - 1));
        assert(plan.take(j).last() == plan[j - 1]);
        let start = (j - 1) * (CHUNK_SIZE as int);
        let end = chunk_end(len, j - 1);
        assert(start < len && end <= len && start < end) by {
            assert((j - 1) * (CHUNK_SIZE as int) + CHUNK_SIZE <= chunk_count(len) * (
            CHUNK_SIZE as int)) by (nonlinear_arith)
                requires
                    j <= chunk_count(len),
            ;
        }
        lemma_framed_message(CONTENT_OFFSET + start, content.subrange(start, end));
        let d = apply_message(prev, plan[j - 1]);
        let done_prev = chunk_end(len, j - 2);
        assert(done_prev == start || done_prev == len);
        assert forall|i: int| CONTENT_OFFSET <= i < CONTENT_OFFSET + end implies #[trigger] d[i]
            == content[i - CONTENT_OFFSET] by {
            if CONTENT_OFFSET + start <= i {
                assert(d[i] == content.subrange(start, end)[i - CONTENT_OFFSET - start]);
            }
        }
    }
}

/// What the full write plan leaves on the device: the encoded record of the
/// content in the metadata region, the content itself right behind it, and
/// the previous bytes everywhere beyond.
pub proof fn lemma_stored_image(dev: Seq<u8>, content: Seq<u8>)
    requires
        dev.len() == EEPROM_SIZE,
        content.len() <= MAX_CONTENT_SIZE,
    ensures
        ({
            let stored = apply_messages(dev, spec_write_plan(content));
            &&& stored.len() == dev.len()
            &&& stored.subrange(0, METADATA_SIZE as int) == spec_encode(spec_metadata_for(content))
            &&& stored.subrange(CONTENT_OFFSET as int, CONTENT_OFFSET + content.len()) == content
            &&& forall|i: int|
                CONTENT_OFFSET + content.len() <= i < dev.len() ==> #[trigger] apply_messages(
                    dev,
                    spec_write_plan(content),
                )[i] == dev[i]
        }),
{
    let plan = spec_write_plan(content);
    let len = content.len() as int;
    let n = chunk_count(len);
    lemma_chunk_count_bounds(len);
    lemma_apply_chunks(dev, content, n);
    let prev = apply_messages(dev, plan.take(n));
    assert(plan.drop_last() =~= plan.take(n));
    assert(plan.last() == plan[n]);
    lemma_framed_message(METADATA_OFFSET as int, spec_encode(spec_metadata_for(content)));
    let stored = apply_messages(dev, plan);
    assert(stored == apply_message(prev, plan[n]));
    assert(chunk_end(len, n - 1) == len);
    assert(stored.subrange(0, METADATA_SIZE as int) =~= spec_encode(spec_metadata_for(content)));
    assert(stored.subrange(CONTENT_OFFSET as int, CONTENT_OFFSET + content.len()) =~= content);
}

/// Round-trip law: writing content to a device and then running the whole
/// read path on the stored image returns exactly that content — except that
/// empty content without the empty override is reported as a missing file.
pub proof fn lemma_write_then_read(dev: Seq<u8>, content: Seq<u8>, allow_empty: bool)
    requires
        dev.len() == EEPROM_SIZE,
        content.len() <= MAX_CONTENT_SIZE,
    ensures
        spec_read_image(apply_messages(dev, spec_write_plan(content)), allow_empty, false) == (
        if content.len() == 0 && !allow_empty {
            Err::<Seq<u8>, ReadError>(ReadError::EmptyFile)
        } else {
            Ok::<Seq<u8>, ReadError>(content)
        }),
{
    lemma_stored_image(dev, content);
    lemma_codec_round_trip(spec_metadata_for(content));
    let stored = apply_messages(dev, spec_write_plan(content));
    let meta = spec_metadata_for(content);
    assert(spec_decode(stored.subrange(METADATA_OFFSET as int, METADATA_OFFSET + METADATA_SIZE))
        == meta);
    assert(spec_inspect(
        stored.subrange(METADATA_OFFSET as int, METADATA_OFFSET + METADATA_SIZE),
        allow_empty,
    ) == if content.len() == 0 && !allow_empty {
        Err::<Metadata, ReadError>(ReadError::EmptyFile)
    } else {
        Ok::<Metadata, ReadError>(meta)
    });
}

/// Integrity-override law: with the checksum check disabled, the read path
/// accepts any content, whatever the stored record says of it.
pub proof fn lemma_ignore_crc_accepts(m: Metadata, content: Seq<u8>)
    ensures
        spec_verify(m, content, true) == Ok::<(), ReadError>(()),
{
}

/// Torn-write law: if the transport stops before the metadata message —
/// after any number of complete content chunks — the metadata region still
/// holds its previous bytes, so a later read decodes the previous record and
/// the new content stays invisible.
pub proof fn lemma_torn_write_keeps_old_metadata(dev: Seq<u8>, content: Seq<u8>, j: int)
    requires
        dev.len() == EEPROM_SIZE,
        content.len() <= MAX_CONTENT_SIZE,
        0 <= j <= chunk_count(content.len() as int),
    ensures
        ({
            let partial = apply_messages(dev, spec_write_plan(content).take(j));
            &&& partial.subrange(0, METADATA_SIZE as int) == dev.subrange(0, METADATA_SIZE as int)
            &&& spec_decode(partial.subrange(0, METADATA_SIZE as int)) == spec_decode(
                dev.subrange(0, METADATA_SIZE as int),
            )
        }),
{
    lemma_apply_chunks(dev, content, j);
    let partial = apply_messages(dev, spec_write_plan(content).take(j));
    assert(partial.subrange(0, METADATA_SIZE as int) =~= dev.subrange(0, METADATA_SIZE as int));
}

} // verus!
