//! A model of the device and of the addressed bus writes it receives.
//!
//! Every write reaching the device is one framed message: two big-endian
//! offset bytes followed by the payload, which overwrites the device bytes
//! starting at that offset. The model says what a sequence of such messages
//! does to the device image.

use vstd::prelude::*;

verus! {

/// The target offset framed into a message's first two bytes.
pub open spec fn msg_offset(msg: Seq<u8>) -> int {
    msg[0] * 256 + msg[1]
}

/// The payload carried behind the two offset bytes.
pub open spec fn msg_payload(msg: Seq<u8>) -> Seq<u8> {
    msg.skip(2)
}

/// A message the device can accept: a full frame whose payload stays inside
/// an address space of `device_len` bytes.
pub open spec fn msg_wf(msg: Seq<u8>, device_len: int) -> bool {
    &&& msg.len() >= 2
    &&& msg_offset(msg) + msg_payload(msg).len() <= device_len
}

/// The device image after accepting one message: the payload bytes replace
/// the addressed range, all other bytes keep their value.
pub open spec fn apply_message(dev: Seq<u8>, msg: Seq<u8>) -> Seq<u8> {
    Seq::new(
        dev.len(),
        |i: int|
            if msg_offset(msg) <= i < msg_offset(msg) + msg_payload(msg).len() {
                msg_payload(msg)[i - msg_offset(msg)]
            } else {
                dev[i]
            },
    )
}

/// The device image after accepting a sequence of messages, in order.
pub open spec fn apply_messages(dev: Seq<u8>, msgs: Seq<Seq<u8>>) -> Seq<u8>
    decreases msgs.len(),
{
    if msgs.len() == 0 {
        dev
    } else {
        apply_message(apply_messages(dev, msgs.drop_last()), msgs.last())
    }
}

} // verus!
