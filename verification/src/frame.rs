//! Register writes and the frames that carry them through a chain.
//!
//! A write names one chip of the chain, one of its registers, and a data
//! byte. On the wire it is one chip-select window with two bytes for every
//! chip: the addressed chip gets the register and the data, every other chip
//! gets two zero bytes, which it reads as "no operation".

use vstd::prelude::*;
use crate::wire::{bytes_ops, window_ops, PinOp};

verus! {

/// The longest chain that the driver supports.
pub const MAX_DISPLAYS: usize = 8;

/// Digit registers per chip.
pub const MAX_DIGITS: u8 = 8;

/// Bytes in the frame buffer: a register byte and a data byte for each chip
/// of the longest chain.
pub const FRAME_CAPACITY: usize = 16;

/// One register write: the chip's place in the chain, the address byte of
/// the register, and the data byte.
#[derive(Clone, Copy, Debug, PartialEq, Eq, Structural)]
pub struct RegisterWrite {
    pub addr: usize,
    pub register: u8,
    pub data: u8,
}

/// The bytes that carry `write` through a chain of `devices` chips, in the
/// order in which they are shifted out. Chip `i` owns bytes `2 * i` and
/// `2 * i + 1`. A write to a place beyond the end of the chain reaches no
/// chip: all bytes are zero.
pub open spec fn frame_bytes(devices: nat, write: RegisterWrite) -> Seq<u8> {
    Seq::new(
        2 * devices,
        |i: int|
            if i == 2 * write.addr {
                write.register
            } else if i == 2 * write.addr + 1 {
                write.data
            } else {
                0u8
            },
    )
}

/// The line operations of one register write.
pub open spec fn write_ops(devices: nat, write: RegisterWrite) -> Seq<PinOp> {
    window_ops(frame_bytes(devices, write))
}

/// The line operations of a run of register writes, one chip-select window
/// after the other.
pub open spec fn writes_ops(devices: nat, writes: Seq<RegisterWrite>) -> Seq<PinOp>
    decreases writes.len(),
{
    if writes.len() == 0 {
        Seq::empty()
    } else {
        writes_ops(devices, writes.drop_last()) + write_ops(devices, writes.last())
    }
}

/// What the frame buffer holds after a run of writes: the frame of the last
/// one at full length, or what it held before where nothing was written.
pub open spec fn frame_after(before: Seq<u8>, writes: Seq<RegisterWrite>) -> Seq<u8> {
    if writes.len() == 0 {
        before
    } else {
        frame_bytes(MAX_DISPLAYS as nat, writes.last())
    }
}

/// The frame of a write has two bytes for every chip of the chain. The slot
/// of the addressed chip holds the register and the data; every other slot
/// holds two zero bytes.
pub proof fn lemma_frame_layout(devices: nat, write: RegisterWrite)
    ensures
        frame_bytes(devices, write).len() == 2 * devices,
        write.addr < devices ==> {
            &&& frame_bytes(devices, write)[2 * write.addr] == write.register
            &&& frame_bytes(devices, write)[2 * write.addr + 1] == write.data
        },
        forall|chip: int|
            0 <= chip < devices && chip != write.addr ==> {
                &&& #[trigger] frame_bytes(devices, write)[2 * chip] == 0
                &&& frame_bytes(devices, write)[2 * chip + 1] == 0
            },
{
}

/// A single write is a run of one.
pub proof fn lemma_writes_ops_single(devices: nat, write: RegisterWrite)
    ensures
        writes_ops(devices, seq![write]) == write_ops(devices, write),
{
    let one = seq![write];
    assert(one.drop_last() =~= Seq::<RegisterWrite>::empty());
    assert(writes_ops(devices, one.drop_last()) =~= Seq::<PinOp>::empty());
    assert(writes_ops(devices, one) =~= write_ops(devices, write));
}

/// The operations of two runs of writes, one after the other, are the
/// operations of the joined run.
pub proof fn lemma_writes_ops_concat(
    devices: nat,
    first: Seq<RegisterWrite>,
    second: Seq<RegisterWrite>,
)
    ensures
        writes_ops(devices, first + second) == writes_ops(devices, first) + writes_ops(
            devices,
            second,
        ),
    decreases second.len(),
{
    if second.len() == 0 {
        assert(first + second =~= first);
        assert(writes_ops(devices, first) + writes_ops(devices, second) =~= writes_ops(
            devices,
            first,
        ));
    } else {
        lemma_writes_ops_concat(devices, first, second.drop_last());
        assert((first + second).drop_last() =~= first + second.drop_last());
        assert((first + second).last() == second.last());
        assert(writes_ops(devices, first + second) =~= writes_ops(devices, first) + writes_ops(
            devices,
            second,
        ));
    }
}

/// Every window is two operations on chip-select and twenty-four for each
/// byte, so a run of writes has a length that depends only on how many
/// there are.
pub proof fn lemma_writes_ops_len(devices: nat, writes: Seq<RegisterWrite>)
    ensures
        writes_ops(devices, writes).len() == writes.len() * (48 * devices + 2),
    decreases writes.len(),
{
    if writes.len() > 0 {
        lemma_writes_ops_len(devices, writes.drop_last());
        assert(bytes_ops(frame_bytes(devices, writes.last())).len() == 48 * devices);
        assert(writes.len() * (48 * devices + 2) == (writes.len() - 1) * (48 * devices + 2) + (48
            * devices + 2)) by (nonlinear_arith);
    }
}

} // verus!
