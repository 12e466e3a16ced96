//! The trigger: the one message of the signaling channel that arms the
//! emitter's watermark.

use vstd::prelude::*;

verus! {

/// The bytes of the trigger message: the word `watermark` in ASCII.
pub open spec fn trigger_bytes() -> Seq<u8> {
    seq![0x77u8, 0x61u8, 0x74u8, 0x65u8, 0x72u8, 0x6du8, 0x61u8, 0x72u8, 0x6bu8]
}

/// The payload that the receiver sends to ask for a watermark.
pub fn trigger_payload() -> (payload: Vec<u8>)
    ensures
        payload@ == trigger_bytes(),
{
    let mut payload: Vec<u8> = Vec::new();
    payload.push(0x77);
    payload.push(0x61);
    payload.push(0x74);
    payload.push(0x65);
    payload.push(0x72);
    payload.push(0x6d);
    payload.push(0x61);
    payload.push(0x72);
    payload.push(0x6b);
    assert(payload@ =~= trigger_bytes());
    payload
}

/// Whether a message of the signaling channel is the trigger: its payload
/// is the trigger's bytes, no more and no less.
pub fn is_trigger(payload: &[u8]) -> (yes: bool)
    ensures
        yes == (payload@ == trigger_bytes()),
{
    if payload.len() != 9 {
        return false;
    }
    let yes = payload[0] == 0x77 && payload[1] == 0x61 && payload[2] == 0x74 && payload[3] == 0x65
        && payload[4] == 0x72 && payload[5] == 0x6d && payload[6] == 0x61 && payload[7] == 0x72
        && payload[8] == 0x6b;
    proof {
        if yes {
            assert(payload@ =~= trigger_bytes());
        } else {
            assert(trigger_bytes()[0] == 0x77u8 && trigger_bytes()[1] == 0x61u8 && trigger_bytes()[2]
                == 0x74u8 && trigger_bytes()[3] == 0x65u8 && trigger_bytes()[4] == 0x72u8
                && trigger_bytes()[5] == 0x6du8 && trigger_bytes()[6] == 0x61u8 && trigger_bytes()[7]
                == 0x72u8 && trigger_bytes()[8] == 0x6bu8);
        }
    }
    yes
}

} // verus!
