//! The steady-state orchestration: decode one frame and drive each of its
//! commands through the bus driver, or refuse the whole frame on a protocol
//! violation.

use vstd::prelude::*;
use crate::frame::{FrameDecode, FrameError, RegisterWrite};
use crate::frame::{addresses_ok, decode_frame, spec_dangling, spec_pairs};
use crate::gpio::{SidGpio, output_to_gpio, write_register_actions};
use crate::pins::PinAction;

verus! {

/// Everything driving a sequence of commands performs: the full register-write
/// protocol of each command, in stream order.
pub open spec fn writes_actions(ws: Seq<RegisterWrite>) -> Seq<PinAction>
    decreases ws.len(),
{
    if ws.len() == 0 {
        Seq::empty()
    } else {
        writes_actions(ws.drop_last()) + write_register_actions(ws.last().address, ws.last().data)
    }
}

/// Drives every command of a decoded frame through the bus driver, in stream
/// order.
pub fn drive_writes<G: SidGpio>(gpio: &mut G, ws: &Vec<RegisterWrite>)
    ensures
        final(gpio).actions() == old(gpio).actions() + writes_actions(ws@),
{
    let mut idx: usize = 0;
    while idx < ws.len()
        invariant
            idx <= ws@.len(),
            gpio.actions() == old(gpio).actions() + writes_actions(ws@.take(idx as int)),
        decreases ws@.len() - idx,
    {
        let w = ws[idx];
        output_to_gpio(gpio, w.address, w.data);
        idx = idx + 1;
        proof {
            assert(ws@.take(idx as int).drop_last() =~= ws@.take(idx as int - 1));
            assert(gpio.actions() =~= old(gpio).actions() + writes_actions(ws@.take(idx as int)));
        }
    }
    proof {
        assert(ws@.take(ws@.len() as int) =~= ws@);
    }
}

/// Processes one frame: decomposes it into commands and drives each through
/// the bus driver.  On a well-addressed frame every command is driven, in
/// order, and the decomposition (including any dangling trailing byte) is
/// returned for reporting.  A frame holding an out-of-range address is a
/// fatal protocol violation: the first violation is returned and nothing of
/// the frame is driven out.
pub fn process_frame<G: SidGpio>(gpio: &mut G, frame: &Vec<u8>) -> (r: Result<FrameDecode, FrameError>)
    ensures
        match r {
            Ok(d) => {
                &&& addresses_ok(frame@)
                &&& d.writes@ == spec_pairs(frame@)
                &&& d.dangling == spec_dangling(frame@)
                &&& final(gpio).actions() == old(gpio).actions() + writes_actions(spec_pairs(frame@))
            },
            Err(e) => {
                &&& !addresses_ok(frame@)
                &&& final(gpio).actions() == old(gpio).actions()
                &&& match e {
                    FrameError::AddressOutOfRange { pair_index, address } => {
                        &&& 0 <= pair_index < spec_pairs(frame@).len()
                        &&& !spec_pairs(frame@)[pair_index as int].wf()
                        &&& address == spec_pairs(frame@)[pair_index as int].address
                        &&& forall|i: int| 0 <= i < pair_index
                            ==> (#[trigger] spec_pairs(frame@)[i]).wf()
                    },
                }
            },
        },
{
    let decoded = match decode_frame(frame) {
        Ok(d) => d,
        Err(e) => {
            return Err(e);
        },
    };
    drive_writes(gpio, &decoded.writes);
    Ok(decoded)
}

/// The fixed demonstration commands driven when the stream is bypassed for a
/// manual smoke test of the bus driver.
pub open spec fn demo_sequence() -> Seq<RegisterWrite> {
    seq![
        RegisterWrite { address: 0x1, data: 0x10 },
        RegisterWrite { address: 0x5, data: 0x9 },
        RegisterWrite { address: 0x6, data: 0x84 },
        RegisterWrite { address: 0x18, data: 0xF },
        RegisterWrite { address: 0x4, data: 0x11 },
    ]
}

/// Drives the fixed demonstration sequence through the bus driver, bypassing
/// the frame reader.
pub fn run_demo<G: SidGpio>(gpio: &mut G)
    ensures
        final(gpio).actions() == old(gpio).actions() + writes_actions(demo_sequence()),
{
    output_to_gpio(gpio, 0x1, 0x10);
    output_to_gpio(gpio, 0x5, 0x9);
    output_to_gpio(gpio, 0x6, 0x84);
    output_to_gpio(gpio, 0x18, 0xF);
    output_to_gpio(gpio, 0x4, 0x11);
    proof {
        let w1 = RegisterWrite { address: 0x1, data: 0x10 };
        let w2 = RegisterWrite { address: 0x5, data: 0x9 };
        let w3 = RegisterWrite { address: 0x6, data: 0x84 };
        let w4 = RegisterWrite { address: 0x18, data: 0xF };
        let w5 = RegisterWrite { address: 0x4, data: 0x11 };
        let s1 = seq![w1];
        let s2 = seq![w1, w2];
        let s3 = seq![w1, w2, w3];
        let s4 = seq![w1, w2, w3, w4];
        let s5 = demo_sequence();
        assert(s1.drop_last() =~= Seq::<RegisterWrite>::empty());
        assert(s2.drop_last() =~= s1);
        assert(s3.drop_last() =~= s2);
        assert(s4.drop_last() =~= s3);
        assert(s5.drop_last() =~= s4);
        assert(writes_actions(Seq::<RegisterWrite>::empty()) == Seq::<PinAction>::empty());
        assert(writes_actions(s1)
            == writes_actions(Seq::<RegisterWrite>::empty()) + write_register_actions(0x1, 0x10));
        assert(writes_actions(s2) == writes_actions(s1) + write_register_actions(0x5, 0x9));
        assert(writes_actions(s3) == writes_actions(s2) + write_register_actions(0x6, 0x84));
        assert(writes_actions(s4) == writes_actions(s3) + write_register_actions(0x18, 0xF));
        assert(writes_actions(s5) == writes_actions(s4) + write_register_actions(0x4, 0x11));
        assert(gpio.actions() =~= old(gpio).actions() + writes_actions(s5));
    }
}

} // verus!
