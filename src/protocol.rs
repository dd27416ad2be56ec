//! Register map of the chip and the two primitives every operation is built from.
use vstd::prelude::*;

use crate::bus::{lemma_ops_of_push, ops_of, BusOp, Step};

verus! {

/// Columns of the LED matrix.
pub const MATRIX_WIDTH: u8 = 16;
/// Rows of the LED matrix.
pub const MATRIX_HEIGHT: u8 = 9;
/// Writing a bank index to this register selects the bank later writes land in.
pub const ISSI_COMMAND_REGISTER: u8 = 0xFD;
/// The bank that holds the chip-wide control registers.
pub const ISSI_BANK_FUNCTION_REGISTER: u8 = 0x0B;
/// Shutdown register: 0x00 shuts the chip down, 0x01 resumes normal operation.
pub const ISSI_REG_SHUTDOWN: u8 = 0x0A;
/// Operating-mode register.
pub const ISSI_REG_CONFIG: u8 = 0x00;
/// Value of the operating-mode register that selects picture mode.
pub const ISSI_REG_CONFIG_PICTURE_MODE: u8 = 0x00;
/// Audio-synchronisation toggle.
pub const ISSI_REG_AUDIOSYNC: u8 = 0x06;
/// First pixel brightness register of a frame bank.
pub const ISSI_PIXEL_BASE: u8 = 0x24;
/// Registers cleared by one page write.
pub const PAGE_LEN: u8 = 24;
/// Page writes needed to clear a whole frame.
pub const PAGE_COUNT: u8 = 6;

/// Seven-bit bus address of the chip, chosen by how its address pin is strapped.
#[derive(Clone, Copy, Debug, PartialEq, Eq, Structural)]
pub enum Address {
    GND,
    VCC,
    SCL,
    SDA,
}

impl Address {
    pub open spec fn spec_as_u8(self) -> u8 {
        match self {
            Address::GND => 0b1110100,
            Address::VCC => 0b1110111,
            Address::SCL => 0b1110101,
            Address::SDA => 0b1110110,
        }
    }

    /// The seven-bit address that goes on the bus.
    #[verifier::when_used_as_spec(spec_as_u8)]
    pub fn as_u8(self) -> (r: u8)
        ensures
            r == self.spec_as_u8(),
    {
        match self {
            Address::GND => 0b1110100,
            Address::VCC => 0b1110111,
            Address::SCL => 0b1110101,
            Address::SDA => 0b1110110,
        }
    }
}

/// Traffic of a bank selection: one write of the command register and the bank.
pub open spec fn select_bank_ops(address: u8, bank: u8) -> Seq<BusOp> {
    seq![BusOp::Write(address, seq![ISSI_COMMAND_REGISTER, bank])]
}

/// Traffic of a register write: the bank selection, then one write of the
/// register offset and the data byte.
pub open spec fn write_register_ops(address: u8, bank: u8, reg: u8, data: u8) -> Seq<BusOp> {
    select_bank_ops(address, bank).push(BusOp::Write(address, seq![reg, data]))
}

/// First register written by page `i` of a frame clear.
pub open spec fn page_start(i: int) -> u8 {
    (ISSI_PIXEL_BASE + PAGE_LEN * i) as u8
}

/// Payload of page `i` of a frame clear: its first register, then one zero
/// for each register of the page.
pub open spec fn erase_page(i: int) -> Seq<u8> {
    seq![page_start(i)] + Seq::new(PAGE_LEN as nat, |_j: int| 0u8)
}

/// The pages of a frame clear cover one register per pixel of the matrix, and
/// the last page ends within the bank.
pub proof fn lemma_pages_cover_matrix()
    ensures
        PAGE_COUNT * PAGE_LEN == MATRIX_WIDTH * MATRIX_HEIGHT,
        ISSI_PIXEL_BASE + PAGE_COUNT * PAGE_LEN <= 0x100,
{
}

/// Appends to `plan` the selection of `bank` on the device at `address`.
pub fn select_bank(address: u8, bank: u8, plan: &mut Vec<Step>)
    ensures
        ops_of(final(plan)@) == ops_of(old(plan)@) + select_bank_ops(address, bank),
{
    let step = Step::Write { address, bytes: vec![ISSI_COMMAND_REGISTER, bank] };
    proof {
        lemma_ops_of_push(plan@, step);
    }
    plan.push(step);
    assert(ops_of(plan@) =~= ops_of(old(plan)@) + select_bank_ops(address, bank));
}

/// Appends to `plan` a write of `data` to register `reg` of `bank`, preceded
/// by the selection of that bank.
pub fn write_register(address: u8, bank: u8, reg: u8, data: u8, plan: &mut Vec<Step>)
    ensures
        ops_of(final(plan)@) == ops_of(old(plan)@) + write_register_ops(address, bank, reg, data),
{
    select_bank(address, bank, plan);
    let step = Step::Write { address, bytes: vec![reg, data] };
    proof {
        lemma_ops_of_push(plan@, step);
    }
    plan.push(step);
    assert(ops_of(plan@) =~= ops_of(old(plan)@) + write_register_ops(address, bank, reg, data));
}

} // verus!
