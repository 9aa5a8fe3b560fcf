//! What a run of writes leaves in the registers of the chips.
//!
//! When chip-select rises, chip `c` of the chain takes over the two bytes of
//! its slot in the frame: the first names one of its registers, the second
//! is stored in it. A first byte of zero names no register, and the chip
//! keeps what it has.

use vstd::prelude::*;
use crate::driver::{chain_setup_writes, clear_writes, init_writes, power_writes, setup_writes};
use crate::frame::{frame_bytes, RegisterWrite, MAX_DISPLAYS};
use crate::registers::{mode_byte, register_code, Command, DecodeMode};

verus! {

/// What register `register` of chip `chip` holds after `writes` have gone
/// through a chain of `devices` chips, where it held `before`.
pub open spec fn register_after(
    devices: nat,
    writes: Seq<RegisterWrite>,
    chip: int,
    register: u8,
    before: u8,
) -> u8
    decreases writes.len(),
{
    if writes.len() == 0 {
        before
    } else {
        let frame = frame_bytes(devices, writes.last());
        if frame[2 * chip] == register {
            frame[2 * chip + 1]
        } else {
            register_after(devices, writes.drop_last(), chip, register, before)
        }
    }
}

/// Whether `write` names register `register` of chip `chip`.
pub open spec fn targets(write: RegisterWrite, chip: int, register: u8) -> bool {
    write.addr == chip && write.register == register
}

/// A write changes the register it names in the chip it addresses, and no
/// other register of any chip in the chain.
pub proof fn lemma_write_reaches_one_register(
    devices: nat,
    write: RegisterWrite,
    chip: int,
    register: u8,
    before: u8,
)
    requires
        0 <= chip < devices,
        register != 0,
    ensures
        register_after(devices, seq![write], chip, register, before) == if targets(
            write,
            chip,
            register,
        ) {
            write.data
        } else {
            before
        },
{
    let one = seq![write];
    assert(one.last() == write);
    assert(one.drop_last().len() == 0);
    assert(register_after(devices, one.drop_last(), chip, register, before) == before);
}

/// After a run of writes a register holds the data of the last write that
/// names it.
pub proof fn lemma_last_write_wins(
    devices: nat,
    writes: Seq<RegisterWrite>,
    chip: int,
    register: u8,
    before: u8,
    last: int,
)
    requires
        0 <= chip < devices,
        register != 0,
        0 <= last < writes.len(),
        targets(writes[last], chip, register),
        forall|k: int| last < k < writes.len() ==> !targets(#[trigger] writes[k], chip, register),
    ensures
        register_after(devices, writes, chip, register, before) == writes[last].data,
    decreases writes.len(),
{
    if last < writes.len() - 1 {
        assert(!targets(writes[writes.len() - 1], chip, register));
        let shorter = writes.drop_last();
        assert(shorter[last] == writes[last]);
        assert forall|k: int| last < k < shorter.len() implies !targets(
            #[trigger] shorter[k],
            chip,
            register,
        ) by {
            assert(shorter[k] == writes[k]);
        }
        lemma_last_write_wins(devices, shorter, chip, register, before, last);
    }
}

/// A register that no write of a run names holds after it what it held
/// before.
pub proof fn lemma_untouched_register_keeps(
    devices: nat,
    writes: Seq<RegisterWrite>,
    chip: int,
    register: u8,
    before: u8,
)
    requires
        0 <= chip < devices,
        register != 0,
        forall|k: int| 0 <= k < writes.len() ==> !targets(#[trigger] writes[k], chip, register),
    ensures
        register_after(devices, writes, chip, register, before) == before,
    decreases writes.len(),
{
    if writes.len() > 0 {
        assert(!targets(writes[writes.len() - 1], chip, register));
        let shorter = writes.drop_last();
        assert forall|k: int| 0 <= k < shorter.len() implies !targets(
            #[trigger] shorter[k],
            chip,
            register,
        ) by {
            assert(shorter[k] == writes[k]);
        }
        lemma_untouched_register_keeps(devices, shorter, chip, register, before);
    }
}

/// Switching a chain on or off sets the power register of every chip and
/// leaves every other register as it was.
pub proof fn lemma_power_state(devices: nat, on: bool, chip: int, register: u8, before: u8)
    requires
        devices <= MAX_DISPLAYS,
        0 <= chip < devices,
        register != 0,
    ensures
        register_after(devices, power_writes(devices, on), chip, register, before) == if register
            == register_code(Command::Power) {
            if on {
                0x01u8
            } else {
                0x00u8
            }
        } else {
            before
        },
{
    let writes = power_writes(devices, on);
    if register == register_code(Command::Power) {
        lemma_last_write_wins(devices, writes, chip, register, before, chip);
    } else {
        lemma_untouched_register_keeps(devices, writes, chip, register, before);
    }
}

/// The setup of the first `count` chips is eleven writes for each, chip by
/// chip.
pub proof fn lemma_chain_setup_layout(count: nat)
    requires
        count <= MAX_DISPLAYS,
    ensures
        chain_setup_writes(count).len() == 11 * count,
        forall|k: int|
            0 <= k < 11 * count ==> #[trigger] chain_setup_writes(count)[k] == setup_writes(
                (k / 11) as usize,
            )[k % 11],
    decreases count,
{
    if count > 0 {
        lemma_chain_setup_layout((count - 1) as nat);
        assert(setup_writes((count - 1) as usize).len() == 11);
        assert forall|k: int| 0 <= k < 11 * count implies #[trigger] chain_setup_writes(count)[k]
            == setup_writes((k / 11) as usize)[k % 11] by {
            if k >= 11 * (count - 1) {
                assert(k / 11 == count - 1);
                assert(k % 11 == k - 11 * (count - 1));
            }
        }
    }
}

/// Where each write of the starting sequence stands: the setup of the
/// chips first, eleven writes for each, then one write for each chip that
/// switches it off.
pub proof fn lemma_init_layout(devices: nat)
    requires
        devices <= MAX_DISPLAYS,
    ensures
        init_writes(devices).len() == 12 * devices,
        forall|k: int|
            0 <= k < 11 * devices ==> #[trigger] init_writes(devices)[k] == setup_writes(
                (k / 11) as usize,
            )[k % 11],
        forall|k: int|
            11 * devices <= k < 12 * devices ==> #[trigger] init_writes(devices)[k]
                == power_writes(devices, false)[k - 11 * devices],
{
    lemma_chain_setup_layout(devices);
    assert forall|k: int| 0 <= k < 11 * devices implies #[trigger] init_writes(devices)[k]
        == setup_writes((k / 11) as usize)[k % 11] by {
        assert(init_writes(devices)[k] == chain_setup_writes(devices)[k]);
    }
}

/// Whatever the chips held before, once the starting sequence has gone
/// through, every chip of the chain is out of test mode, scans all eight
/// digits, decodes none of them, shows nothing on any digit, and is
/// switched off.
pub proof fn lemma_init_state(devices: nat, chip: int, before: u8)
    requires
        devices <= MAX_DISPLAYS,
        0 <= chip < devices,
    ensures
        register_after(
            devices,
            init_writes(devices),
            chip,
            register_code(Command::DisplayTest),
            before,
        ) == 0x00,
        register_after(
            devices,
            init_writes(devices),
            chip,
            register_code(Command::ScanLimit),
            before,
        ) == 0x07,
        register_after(
            devices,
            init_writes(devices),
            chip,
            register_code(Command::DecodeMode),
            before,
        ) == mode_byte(DecodeMode::NoDecode),
        forall|digit: u8|
            register_code(Command::Digit0) <= digit <= register_code(Command::Digit7)
                ==> #[trigger] register_after(devices, init_writes(devices), chip, digit, before)
                == 0x00,
        register_after(
            devices,
            init_writes(devices),
            chip,
            register_code(Command::Power),
            before,
        ) == 0x00,
{
    let writes = init_writes(devices);
    lemma_init_layout(devices);
    assert forall|k: int| 0 <= k < 11 * devices implies {
        &&& (#[trigger] writes[k]).addr == k / 11
        &&& k % 11 == 0 ==> writes[k].register == 0x0F && writes[k].data == 0x00
        &&& k % 11 == 1 ==> writes[k].register == 0x0B && writes[k].data == 0x07
        &&& k % 11 == 2 ==> writes[k].register == 0x09 && writes[k].data == 0x00
        &&& k % 11 >= 3 ==> writes[k].register == k % 11 - 2 && writes[k].data == 0x00
    } by {
        let own = setup_writes((k / 11) as usize);
        assert(writes[k] == own[k % 11]);
        if k % 11 >= 3 {
            assert(own[k % 11] == clear_writes((k / 11) as usize)[k % 11 - 3]);
        }
    }
    assert forall|k: int| 11 * devices <= k < 12 * devices implies {
        &&& (#[trigger] writes[k]).addr == k - 11 * devices
        &&& writes[k].register == 0x0C
        &&& writes[k].data == 0x00
    } by {
        assert(writes[k] == power_writes(devices, false)[k - 11 * devices]);
    }
    lemma_last_write_wins(devices, writes, chip, 0x0F, before, 11 * chip);
    lemma_last_write_wins(devices, writes, chip, 0x0B, before, 11 * chip + 1);
    lemma_last_write_wins(devices, writes, chip, 0x09, before, 11 * chip + 2);
    assert forall|digit: u8| 0x01 <= digit <= 0x08 implies #[trigger] register_after(
        devices,
        writes,
        chip,
        digit,
        before,
    ) == 0x00 by {
        lemma_last_write_wins(devices, writes, chip, digit, before, 11 * chip + 2 + digit);
    }
    lemma_last_write_wins(devices, writes, chip, 0x0C, before, 11 * devices + chip);
}

} // verus!
