//! The two transfer paths run against an in-memory device image: a transport
//! stand-in that behaves exactly as the modelled device, for exercising the
//! protocol when no hardware is attached.

use vstd::prelude::*;
use vstd::slice::slice_subrange;
use vstd::slice::slice_to_vec;
use crate::device::apply_message;
use crate::device::apply_messages;
use crate::device::msg_offset;
use crate::device::msg_wf;
use crate::layout::CONTENT_OFFSET;
use crate::layout::EEPROM_SIZE;
use crate::layout::MAX_CONTENT_SIZE;
use crate::layout::METADATA_OFFSET;
use crate::layout::METADATA_SIZE;
use crate::protocol::lemma_chunking;
use crate::read_path::ReadError;
use crate::read_path::inspect_metadata;
use crate::read_path::spec_read_image;
use crate::read_path::verify_content;
use crate::write_path::WriteError;
use crate::write_path::build_write_plan;
use crate::write_path::spec_write_plan;

verus! {

/// Apply one framed write message to a device image, exactly as the modelled
/// device would: the payload replaces the addressed bytes.
pub fn apply_write_message(device: &mut Vec<u8>, msg: &[u8])
    requires
        msg_wf(msg@, old(device)@.len() as int),
    ensures
        final(device)@ == apply_message(old(device)@, msg@),
{
    let offset: usize = (msg[0] as usize) * 256 + (msg[1] as usize);
    let dev_len: usize = device.len();
    let mut i: usize = 2;
    while i < msg.len()
        invariant
            2 <= i <= msg@.len(),
            offset == msg_offset(msg@),
            msg_wf(msg@, old(device)@.len() as int),
            device@.len() == old(device)@.len(),
            dev_len == old(device)@.len(),
            forall|j: int|
                offset <= j < offset + i - 2 ==> device@[j] == msg@.skip(2)[j - offset],
            forall|j: int|
                0 <= j < device@.len() && !(offset <= j < offset + i - 2) ==> device@[j]
                    == old(device)@[j],
        decreases msg@.len() - i,
    {
        let slot = device.as_mut_slice();
        slot[offset + (i - 2)] = msg[i];
        i = i + 1;
    }
    proof {
        assert(device@ =~= apply_message(old(device)@, msg@));
    }
}

/// Run the whole write path against a device image: refuse oversize content
/// untouched, otherwise apply every message of the write plan in order.
pub fn store_image(device: &mut Vec<u8>, content: &[u8]) -> (r: Result<(), WriteError>)
    requires
        old(device)@.len() == EEPROM_SIZE as int,
    ensures
        content@.len() > MAX_CONTENT_SIZE as int ==> {
            &&& r == Err::<(), WriteError>(WriteError::ContentTooLarge)
            &&& final(device)@ == old(device)@
        },
        content@.len() <= MAX_CONTENT_SIZE as int ==> {
            &&& r == Ok::<(), WriteError>(())
            &&& final(device)@ == apply_messages(old(device)@, spec_write_plan(content@))
        },
{
    let plan = match build_write_plan(content) {
        Ok(plan) => plan,
        Err(e) => {
            return Err(e);
        },
    };
    proof {
        lemma_chunking(content@);
        assert(spec_write_plan(content@).take(0) =~= Seq::<Seq<u8>>::empty());
    }
    let mut i: usize = 0;
    while i < plan.len()
        invariant
            content@.len() <= MAX_CONTENT_SIZE as int,
            plan@.len() == spec_write_plan(content@).len(),
            forall|j: int|
                0 <= j < plan@.len() ==> plan@[j]@ == #[trigger] spec_write_plan(content@)[j],
            forall|j: int|
                0 <= j < plan@.len() ==> msg_wf(
                    #[trigger] spec_write_plan(content@)[j],
                    EEPROM_SIZE as int,
                ),
            i <= plan@.len(),
            device@.len() == old(device)@.len(),
            old(device)@.len() == EEPROM_SIZE as int,
            device@ == apply_messages(old(device)@, spec_write_plan(content@).take(i as int)),
        decreases plan@.len() - i,
    {
        proof {
            assert(plan@[i as int]@ == spec_write_plan(content@)[i as int]);
            assert(msg_wf(spec_write_plan(content@)[i as int], EEPROM_SIZE as int));
        }
        apply_write_message(device, plan[i].as_slice());
        proof {
            let full = spec_write_plan(content@);
            assert(full.take(i + 1).drop_last() =~= full.take(i as int));
            assert(full.take(i + 1).last() == full[i as int]);
        }
        i = i + 1;
    }
    proof {
        assert(spec_write_plan(content@).take(plan@.len() as int) =~= spec_write_plan(content@));
    }
    Ok(())
}

/// Run the whole read path against a device image: inspect the metadata
/// region, fetch the recorded content, check its integrity, and hand the
/// bytes out.
pub fn read_image(device: &[u8], allow_empty: bool, ignore_crc: bool) -> (r: Result<
    Vec<u8>,
    ReadError,
>)
    requires
        device@.len() == EEPROM_SIZE as int,
    ensures
        r matches Ok(content) ==> spec_read_image(device@, allow_empty, ignore_crc) == Ok::<
            Seq<u8>,
            ReadError,
        >(content@),
        r matches Err(e) ==> spec_read_image(device@, allow_empty, ignore_crc) == Err::<
            Seq<u8>,
            ReadError,
        >(e),
{
    let meta_bytes = slice_subrange(
        device,
        METADATA_OFFSET as usize,
        METADATA_OFFSET as usize + METADATA_SIZE as usize,
    );
    let meta = match inspect_metadata(meta_bytes, allow_empty) {
        Ok(meta) => meta,
        Err(e) => {
            return Err(e);
        },
    };
    let start: usize = CONTENT_OFFSET as usize;
    let content = slice_subrange(device, start, start + meta.content_size as usize);
    match verify_content(&meta, content, ignore_crc) {
        Ok(_) => Ok(slice_to_vec(content)),
        Err(e) => Err(e),
    }
}

} // verus!
