//! The physical input monitor's decisions.
//!
//! The monitor waits on two descriptors, the X connection and a stop
//! channel, and reads XInput2 raw events until it sees keyboard, pointer
//! button or pointer motion activity.

use vstd::prelude::*;

verus! {

/// XInput2 event type of a raw key press.
pub const RAW_KEY_PRESS: i32 = 13;

/// XInput2 event type of a raw pointer button press.
pub const RAW_BUTTON_PRESS: i32 = 15;

/// XInput2 event type of raw pointer motion.
pub const RAW_MOTION: i32 = 17;

/// What ended a wait of the monitor.
#[derive(Debug, PartialEq, Eq, Structural)]
pub enum Wake {
    /// The wait itself failed: the monitor ends with an error.
    Failed,
    /// The stop channel became readable: the monitor ends.
    Stop,
    /// The X connection has nothing to read: wait again.
    Nothing,
    /// The X connection has events to read.
    XEvents,
}

/// The decision after a wait: a failed wait ends the monitor with an
/// error; otherwise a stop request wins over pending X events.
pub open spec fn wake_after(poll_status: i32, x_readable: bool, stop_readable: bool) -> Wake {
    if poll_status < 0 {
        Wake::Failed
    } else if stop_readable {
        Wake::Stop
    } else if !x_readable {
        Wake::Nothing
    } else {
        Wake::XEvents
    }
}

/// Classifies the end of a wait from the wait's status and which
/// descriptors became readable.
pub fn classify_wake(poll_status: i32, x_readable: bool, stop_readable: bool) -> (w: Wake)
    ensures
        w == wake_after(poll_status, x_readable, stop_readable),
{
    if poll_status < 0 {
        Wake::Failed
    } else if stop_readable {
        Wake::Stop
    } else if !x_readable {
        Wake::Nothing
    } else {
        Wake::XEvents
    }
}

/// Whether an X event is one of the input extension's: a generic event
/// whose extension opcode is that of XInput. Only those are read further.
pub fn is_input_extension_event(is_generic: bool, extension: i32, xi_opcode: i32) -> (r: bool)
    ensures
        r == (is_generic && extension == xi_opcode),
{
    is_generic && extension == xi_opcode
}

/// Whether an XInput2 event type is user activity: a raw key press, a raw
/// button press or raw motion.
pub fn is_activity(evtype: i32) -> (r: bool)
    ensures
        r == (evtype == RAW_KEY_PRESS || evtype == RAW_BUTTON_PRESS || evtype == RAW_MOTION),
{
    evtype == RAW_KEY_PRESS || evtype == RAW_BUTTON_PRESS || evtype == RAW_MOTION
}

/// Whether event type `e` is selected in an XInput2 event mask: bit
/// `e % 8` of byte `e / 8`.
pub open spec fn mask_has(mask: Seq<u8>, e: int) -> bool {
    0 <= e < 8 * mask.len() && (mask[e / 8] & (1u8 << ((e % 8) as u8))) != 0
}

/// Calls x11-dl's `XISetMask`, which sets bit `event & 7` of byte
/// `event >> 3` of the mask and leaves the other bytes alone. It indexes
/// the mask, so the byte must exist.
#[verifier::external_body]
fn xi_set_mask(mask: &mut Vec<u8>, event: i32)
    requires
        0 <= event,
        event / 8 < old(mask)@.len(),
    ensures
        final(mask)@ == old(mask)@.update(
            event / 8,
            old(mask)@[event / 8] | (1u8 << ((event % 8) as u8)),
        ),
{
    x11_dl::xinput2::XISetMask(mask.as_mut_slice(), event)
}

/// The event mask of `len` bytes that selects exactly the raw key press,
/// raw button press and raw motion events. The mask must be long enough to
/// hold raw motion's bit.
pub fn raw_activity_mask(len: usize) -> (mask: Vec<u8>)
    requires
        3 <= len,
    ensures
        mask@.len() == len,
        forall|e: int|
            mask_has(mask@, e) <==> (e == RAW_KEY_PRESS || e == RAW_BUTTON_PRESS || e == RAW_MOTION),
{
    let mut mask: Vec<u8> = Vec::new();
    while mask.len() < len
        invariant
            mask@.len() <= len,
            forall|i: int| 0 <= i < mask@.len() ==> mask@[i] == 0,
        decreases len - mask@.len(),
    {
        mask.push(0);
    }
    xi_set_mask(&mut mask, RAW_KEY_PRESS);
    xi_set_mask(&mut mask, RAW_BUTTON_PRESS);
    xi_set_mask(&mut mask, RAW_MOTION);
    proof {
        assert((0u8 | (1u8 << 5u8)) | (1u8 << 7u8) == 0xA0u8) by (bit_vector);
        assert(0u8 | (1u8 << 1u8) == 0x02u8) by (bit_vector);
        assert(mask@[1] == 0xA0u8);
        assert(mask@[2] == 0x02u8);
        assert forall|k: u8| k < 8 implies ((0xA0u8 & (1u8 << k)) != 0 <==> (k == 5 || k == 7))
            && ((0x02u8 & (1u8 << k)) != 0 <==> k == 1) && (0u8 & (1u8 << k)) == 0 by {
            assert(k < 8 ==> ((0xA0u8 & (1u8 << k)) != 0 <==> (k == 5 || k == 7))) by (bit_vector);
            assert(k < 8 ==> ((0x02u8 & (1u8 << k)) != 0 <==> k == 1)) by (bit_vector);
            assert((0u8 & (1u8 << k)) == 0) by (bit_vector);
        }
        assert forall|e: int| mask_has(mask@, e) <==> (e == RAW_KEY_PRESS || e == RAW_BUTTON_PRESS
            || e == RAW_MOTION) by {
            if 0 <= e < 8 * mask@.len() {
                let k = (e % 8) as u8;
                assert(k < 8);
                if e / 8 == 1 {
                } else if e / 8 == 2 {
                } else {
                    assert(mask@[e / 8] == 0);
                }
            }
        }
    }
    mask
}

} // verus!
