//! Driver for the IS31FL3731 LED-matrix controller.
//!
//! The chip is reached over a two-wire bus and programmed through a
//! bank-select protocol: a write of `[ISSI_COMMAND_REGISTER, bank]` picks the
//! register bank, and a following write of `[register, data]` lands in it.
//! Each driver operation is encoded here as a plan of bus steps whose exact
//! content is stated in its contract; a [`bus::Session`] then walks a plan one
//! step at a time and stops at the first failed write.
use vstd::prelude::*;

pub mod bus;
pub mod is31fl3731;
pub mod protocol;

pub use bus::{Action, BusOp, Session, Step};
pub use protocol::{
    Address, ISSI_BANK_FUNCTION_REGISTER, ISSI_COMMAND_REGISTER, ISSI_REG_AUDIOSYNC,
    ISSI_REG_CONFIG, ISSI_REG_CONFIG_PICTURE_MODE, ISSI_REG_SHUTDOWN,
};

use bus::{lemma_ops_of_push, ops_of};
use protocol::{
    erase_page, select_bank, select_bank_ops, write_register, write_register_ops, ISSI_PIXEL_BASE,
    PAGE_COUNT, PAGE_LEN,
};

verus! {

/// Milliseconds the chip is left in shutdown during a reset.
pub const RESET_DELAY_MS: u32 = 10;

/// Traffic of a full reset: shutdown, a wait, leaving shutdown, picture mode.
pub open spec fn reset_ops(address: u8) -> Seq<BusOp> {
    write_register_ops(address, ISSI_BANK_FUNCTION_REGISTER, ISSI_REG_SHUTDOWN, 0x00).push(
        BusOp::Delay(RESET_DELAY_MS),
    ) + write_register_ops(address, ISSI_BANK_FUNCTION_REGISTER, ISSI_REG_SHUTDOWN, 0x01)
        + write_register_ops(
        address,
        ISSI_BANK_FUNCTION_REGISTER,
        ISSI_REG_CONFIG,
        ISSI_REG_CONFIG_PICTURE_MODE,
    )
}

/// Traffic of switching audio synchronisation on or off.
pub open spec fn audio_sync_ops(address: u8, enable: bool) -> Seq<BusOp> {
    write_register_ops(
        address,
        ISSI_BANK_FUNCTION_REGISTER,
        ISSI_REG_AUDIOSYNC,
        if enable {
            1u8
        } else {
            0u8
        },
    )
}

/// Traffic of clearing a frame: its bank selection, then the erase pages in order.
pub open spec fn clear_ops(address: u8, frame: u8) -> Seq<BusOp> {
    select_bank_ops(address, frame) + Seq::new(
        PAGE_COUNT as nat,
        |i: int| BusOp::Write(address, erase_page(i)),
    )
}

/// Driver for one chip, with the full power-up sequence.
///
/// It holds what the protocol needs to know of the device; the bus and the
/// delay are performed by whoever runs the plans it produces.
pub struct IS31FL3731 {
    frame: u8,
    address: Address,
}

impl IS31FL3731 {
    /// The address of the chip this driver talks to.
    pub closed spec fn device(&self) -> Address {
        self.address
    }

    /// The recorded frame index; set at construction and not otherwise used.
    pub closed spec fn frame_index(&self) -> u8 {
        self.frame
    }

    /// A driver for the chip at `address`; no bus traffic is produced.
    pub fn new(address: Address) -> (r: Self)
        ensures
            r.device() == address,
            r.frame_index() == 0,
    {
        IS31FL3731 { frame: 0, address }
    }

    /// Plan that shuts the chip down, waits, brings it back up and selects
    /// picture mode.
    pub fn reset(&self) -> (plan: Vec<Step>)
        ensures
            ops_of(plan@) == reset_ops(self.device().as_u8()),
    {
        let address = self.address.as_u8();
        let mut plan: Vec<Step> = Vec::new();
        write_register(address, ISSI_BANK_FUNCTION_REGISTER, ISSI_REG_SHUTDOWN, 0x00, &mut plan);
        let wait = Step::DelayMs { ms: RESET_DELAY_MS };
        proof {
            lemma_ops_of_push(plan@, wait);
        }
        plan.push(wait);
        write_register(address, ISSI_BANK_FUNCTION_REGISTER, ISSI_REG_SHUTDOWN, 0x01, &mut plan);
        write_register(
            address,
            ISSI_BANK_FUNCTION_REGISTER,
            ISSI_REG_CONFIG,
            ISSI_REG_CONFIG_PICTURE_MODE,
            &mut plan,
        );
        assert(ops_of(plan@) =~= reset_ops(address));
        plan
    }

    /// Plan that writes 1 (`enable`) or 0 to the audio-sync register.
    pub fn audio_sync(&self, enable: bool) -> (plan: Vec<Step>)
        ensures
            ops_of(plan@) == audio_sync_ops(self.device().as_u8(), enable),
    {
        let data: u8 = if enable {
            1
        } else {
            0
        };
        let mut plan: Vec<Step> = Vec::new();
        write_register(
            self.address.as_u8(),
            ISSI_BANK_FUNCTION_REGISTER,
            ISSI_REG_AUDIOSYNC,
            data,
            &mut plan,
        );
        assert(ops_of(plan@) =~= audio_sync_ops(self.address.as_u8(), enable));
        plan
    }

    /// Plan that selects `frame` and zeroes all of its pixel registers, one
    /// page of registers per write, in increasing page order.
    pub fn clear(&self, frame: u8) -> (plan: Vec<Step>)
        ensures
            ops_of(plan@) == clear_ops(self.device().as_u8(), frame),
    {
        let address = self.address.as_u8();
        let mut plan: Vec<Step> = Vec::new();
        select_bank(address, frame, &mut plan);
        assert(ops_of(plan@) =~= select_bank_ops(address, frame));
        let mut erase_buf: Vec<u8> = vec![0; 25];
        let mut x: u8 = 0;
        while x < PAGE_COUNT
            invariant
                x <= PAGE_COUNT,
                erase_buf@.len() == 25,
                forall|j: int| 1 <= j < 25 ==> erase_buf@[j] == 0,
                ops_of(plan@) == select_bank_ops(address, frame) + Seq::new(
                    x as nat,
                    |i: int| BusOp::Write(address, erase_page(i)),
                ),
            decreases PAGE_COUNT - x,
        {
            erase_buf.set(0, ISSI_PIXEL_BASE + x * PAGE_LEN);
            assert(erase_buf@ =~= erase_page(x as int));
            let step = Step::Write { address, bytes: erase_buf.clone() };
            assert(step@ == BusOp::Write(address, erase_page(x as int)));
            proof {
                lemma_ops_of_push(plan@, step);
            }
            plan.push(step);
            assert(ops_of(plan@) =~= select_bank_ops(address, frame) + Seq::new(
                (x + 1) as nat,
                |i: int| BusOp::Write(address, erase_page(i)),
            ));
            x = x + 1;
        }
        plan
    }
}

/// A full reset writes, in order: bank select of the function bank, shutdown,
/// a wait of at least ten milliseconds, bank select, leave shutdown, bank
/// select, picture mode.
pub proof fn lemma_reset_traffic(address: u8)
    ensures
        reset_ops(address) == seq![
            BusOp::Write(address, seq![0xFDu8, 0x0B]),
            BusOp::Write(address, seq![0x0Au8, 0x00]),
            BusOp::Delay(RESET_DELAY_MS),
            BusOp::Write(address, seq![0xFDu8, 0x0B]),
            BusOp::Write(address, seq![0x0Au8, 0x01]),
            BusOp::Write(address, seq![0xFDu8, 0x0B]),
            BusOp::Write(address, seq![0x00u8, 0x00]),
        ],
        RESET_DELAY_MS >= 10,
{
    assert(reset_ops(address) =~= seq![
        BusOp::Write(address, seq![0xFDu8, 0x0B]),
        BusOp::Write(address, seq![0x0Au8, 0x00]),
        BusOp::Delay(RESET_DELAY_MS),
        BusOp::Write(address, seq![0xFDu8, 0x0B]),
        BusOp::Write(address, seq![0x0Au8, 0x01]),
        BusOp::Write(address, seq![0xFDu8, 0x0B]),
        BusOp::Write(address, seq![0x00u8, 0x00]),
    ]);
}

/// Audio sync writes a bank select of the function bank, then 1 or 0 to the
/// audio-sync register.
pub proof fn lemma_audio_sync_traffic(address: u8)
    ensures
        audio_sync_ops(address, true) == seq![
            BusOp::Write(address, seq![0xFDu8, 0x0B]),
            BusOp::Write(address, seq![0x06u8, 0x01]),
        ],
        audio_sync_ops(address, false) == seq![
            BusOp::Write(address, seq![0xFDu8, 0x0B]),
            BusOp::Write(address, seq![0x06u8, 0x00]),
        ],
{
    assert(audio_sync_ops(address, true) =~= seq![
        BusOp::Write(address, seq![0xFDu8, 0x0B]),
        BusOp::Write(address, seq![0x06u8, 0x01]),
    ]);
    assert(audio_sync_ops(address, false) =~= seq![
        BusOp::Write(address, seq![0xFDu8, 0x0B]),
        BusOp::Write(address, seq![0x06u8, 0x00]),
    ]);
}

/// Clearing a frame selects it, then makes six writes of 25 bytes in
/// increasing page order: page `i` starts with `0x24 + 24 * i` (36, 60, 84,
/// 108, 132, 156) and the other 24 bytes are zero.
pub proof fn lemma_clear_traffic(address: u8, frame: u8)
    ensures
        clear_ops(address, frame).len() == 7,
        clear_ops(address, frame)[0] == BusOp::Write(address, seq![0xFDu8, frame]),
        forall|i: int|
            0 <= i < 6 ==> {
                &&& #[trigger] clear_ops(address, frame)[i + 1] matches BusOp::Write(a, bytes)
                &&& a == address
                &&& bytes.len() == 25
                &&& bytes[0] == 0x24 + 24 * i
                &&& forall|j: int| 1 <= j < 25 ==> bytes[j] == 0
            },
{
    assert forall|i: int| 0 <= i < 6 implies {
        &&& #[trigger] clear_ops(address, frame)[i + 1] matches BusOp::Write(a, bytes)
        &&& a == address
        &&& bytes.len() == 25
        &&& bytes[0] == 0x24 + 24 * i
        &&& forall|j: int| 1 <= j < 25 ==> bytes[j] == 0
    } by {
        assert(clear_ops(address, frame)[i + 1] == BusOp::Write(address, erase_page(i)));
    }
}

/// Clearing the same frame twice, or setting audio sync to the same value
/// twice, makes the same traffic each time: the driver is not changed by
/// either, and the traffic depends on its address and the argument alone.
pub proof fn lemma_repeat_is_identical(d: IS31FL3731, frame: u8, enable: bool)
    ensures
        ({
            let t = clear_ops(d.device().as_u8(), frame) + clear_ops(d.device().as_u8(), frame);
            t.len() == 14 && t.subrange(0, 7) == t.subrange(7, 14)
        }),
        ({
            let t = audio_sync_ops(d.device().as_u8(), enable) + audio_sync_ops(
                d.device().as_u8(),
                enable,
            );
            t.len() == 4 && t.subrange(0, 2) == t.subrange(2, 4)
        }),
{
    let c = clear_ops(d.device().as_u8(), frame);
    assert((c + c).subrange(0, 7) =~= c);
    assert((c + c).subrange(7, 14) =~= c);
    let a = audio_sync_ops(d.device().as_u8(), enable);
    assert((a + a).subrange(0, 2) =~= a);
    assert((a + a).subrange(2, 4) =~= a);
}

} // verus!
