//! Driver for the chip whose reset only puts it into shutdown.
//!
//! Its reset is deliberately partial: no wait, no return from shutdown and no
//! mode selection. The full sequence is [`crate::IS31FL3731::reset`].
use vstd::prelude::*;

pub use crate::protocol::Address;

use crate::bus::{ops_of, BusOp, Step};
use crate::protocol::{
    write_register, write_register_ops, ISSI_BANK_FUNCTION_REGISTER, ISSI_REG_SHUTDOWN,
};

verus! {

/// Traffic of the shutdown-only reset: one write of 0x00 to the shutdown register.
pub open spec fn shutdown_ops(address: u8) -> Seq<BusOp> {
    write_register_ops(address, ISSI_BANK_FUNCTION_REGISTER, ISSI_REG_SHUTDOWN, 0x00)
}

/// Driver for one chip whose reset only shuts it down.
pub struct IS31FL3731 {
    frame: u8,
    address: Address,
}

impl IS31FL3731 {
    /// The address of the chip this driver talks to.
    pub closed spec fn device(&self) -> Address {
        self.address
    }

    /// The recorded frame index; set at construction and not otherwise used.
    pub closed spec fn frame_index(&self) -> u8 {
        self.frame
    }

    /// A driver for the chip at `address`; no bus traffic is produced.
    pub fn new(address: Address) -> (r: Self)
        ensures
            r.device() == address,
            r.frame_index() == 0,
    {
        IS31FL3731 { frame: 0, address }
    }

    /// Plan that puts the chip into shutdown, and nothing else.
    pub fn reset(&self) -> (plan: Vec<Step>)
        ensures
            ops_of(plan@) == shutdown_ops(self.device().as_u8()),
    {
        let mut plan: Vec<Step> = Vec::new();
        write_register(
            self.address.as_u8(),
            ISSI_BANK_FUNCTION_REGISTER,
            ISSI_REG_SHUTDOWN,
            0x00,
            &mut plan,
        );
        assert(ops_of(plan@) =~= shutdown_ops(self.address.as_u8()));
        plan
    }
}

/// The shutdown-only reset writes a bank select of the function bank, then
/// 0x00 to the shutdown register, and nothing else.
pub proof fn lemma_shutdown_traffic(address: u8)
    ensures
        shutdown_ops(address) == seq![
            BusOp::Write(address, seq![0xFDu8, 0x0B]),
            BusOp::Write(address, seq![0x0Au8, 0x00]),
        ],
{
    assert(shutdown_ops(address) =~= seq![
        BusOp::Write(address, seq![0xFDu8, 0x0B]),
        BusOp::Write(address, seq![0x0Au8, 0x00]),
    ]);
}

} // verus!
