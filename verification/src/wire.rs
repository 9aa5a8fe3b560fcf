//! The three lines of the bus and what a frame looks like on them.
//!
//! A chip reads the data line on each rising edge of the clock and keeps the
//! last sixteen bits it has seen. It takes them over as a register address
//! and a data byte when chip-select rises. Chips in series pass on what they
//! shift out, so one chip-select window carries one frame for every chip.

use vstd::arithmetic::power2::{lemma2_to64, pow2};
use vstd::prelude::*;

verus! {

/// One of the three lines that the driver controls.
#[derive(Clone, Copy, Debug, PartialEq, Eq, Structural)]
pub enum Line {
    Data,
    Clock,
    ChipSelect,
}

/// One operation on the bus: drive a line high or low.
#[derive(Clone, Copy, Debug, PartialEq, Eq, Structural)]
pub struct PinOp {
    pub line: Line,
    pub high: bool,
}

/// Bit `index` of `value`, counted from the most significant bit.
pub open spec fn bit_msb_first(value: u8, index: u8) -> bool {
    value & (0x80u8 >> index) != 0
}

/// Bit `index` from the top is the binary digit of weight two to the power
/// of `7 - index`: the first bit shifted out weighs 128, the last one 1.
pub proof fn lemma_bit_msb_first_weight(value: u8, index: u8)
    requires
        index < 8,
    ensures
        bit_msb_first(value, index) == ((value as int / pow2((7 - index) as nat) as int) % 2
            == 1),
{
    lemma2_to64();
    if index == 0 {
        assert((value & (0x80u8 >> 0u8) != 0) == ((value / 128u8) % 2u8 == 1u8)) by (bit_vector);
    } else if index == 1 {
        assert((value & (0x80u8 >> 1u8) != 0) == ((value / 64u8) % 2u8 == 1u8)) by (bit_vector);
    } else if index == 2 {
        assert((value & (0x80u8 >> 2u8) != 0) == ((value / 32u8) % 2u8 == 1u8)) by (bit_vector);
    } else if index == 3 {
        assert((value & (0x80u8 >> 3u8) != 0) == ((value / 16u8) % 2u8 == 1u8)) by (bit_vector);
    } else if index == 4 {
        assert((value & (0x80u8 >> 4u8) != 0) == ((value / 8u8) % 2u8 == 1u8)) by (bit_vector);
    } else if index == 5 {
        assert((value & (0x80u8 >> 5u8) != 0) == ((value / 4u8) % 2u8 == 1u8)) by (bit_vector);
    } else if index == 6 {
        assert((value & (0x80u8 >> 6u8) != 0) == ((value / 2u8) % 2u8 == 1u8)) by (bit_vector);
    } else {
        assert((value & (0x80u8 >> 7u8) != 0) == ((value / 1u8) % 2u8 == 1u8)) by (bit_vector);
    }
}

/// Operation `k` of the twenty-four that shift one byte out. Each bit takes
/// three: the data line takes the level of the bit, then the clock goes high
/// and low again.
pub open spec fn bit_step(value: u8, k: int) -> PinOp {
    if k % 3 == 0 {
        PinOp { line: Line::Data, high: bit_msb_first(value, (k / 3) as u8) }
    } else if k % 3 == 1 {
        PinOp { line: Line::Clock, high: true }
    } else {
        PinOp { line: Line::Clock, high: false }
    }
}

/// The operations that shift one byte out, most significant bit first.
pub open spec fn byte_ops(value: u8) -> Seq<PinOp> {
    Seq::new(24, |k: int| bit_step(value, k))
}

/// The operations that shift a run of bytes out, first byte first.
pub open spec fn bytes_ops(bytes: Seq<u8>) -> Seq<PinOp> {
    Seq::new(24 * bytes.len(), |k: int| bit_step(bytes[k / 24], k % 24))
}

/// The operations of one chip-select window: chip-select goes low, the bytes
/// are shifted out, and chip-select goes high, which makes every chip take
/// over its frame.
pub open spec fn window_ops(bytes: Seq<u8>) -> Seq<PinOp> {
    seq![PinOp { line: Line::ChipSelect, high: false }] + bytes_ops(bytes)
        + seq![PinOp { line: Line::ChipSelect, high: true }]
}

/// Shifting out a run of bytes and then one more byte is shifting out the
/// longer run.
pub proof fn lemma_bytes_ops_push(bytes: Seq<u8>, value: u8)
    ensures
        bytes_ops(bytes.push(value)) == bytes_ops(bytes) + byte_ops(value),
{
    let longer = bytes.push(value);
    let joined = bytes_ops(bytes) + byte_ops(value);
    assert(bytes_ops(longer).len() == joined.len());
    assert forall|k: int| 0 <= k < joined.len() implies bytes_ops(longer)[k] == joined[k] by {
        if k < 24 * bytes.len() {
            assert(k / 24 < bytes.len());
            assert(longer[k / 24] == bytes[k / 24]);
        } else {
            assert(k / 24 == bytes.len());
            assert(k % 24 == k - 24 * bytes.len());
            assert(longer[k / 24] == value);
        }
    }
    assert(bytes_ops(longer) =~= joined);
}

/// Shifts one byte out: for each bit, from the most significant down, the
/// data line takes the level of the bit and the clock is pulsed once.
pub fn shift_out(value: u8) -> (script: Vec<PinOp>)
    ensures
        script@ == byte_ops(value),
{
    let mut script: Vec<PinOp> = Vec::new();
    let mut i: u8 = 0;
    while i < 8
        invariant
            i <= 8,
            script@ == byte_ops(value).take(3 * i),
        decreases 8 - i,
    {
        if value & (0x80u8 >> i) != 0 {
            script.push(PinOp { line: Line::Data, high: true });
        } else {
            script.push(PinOp { line: Line::Data, high: false });
        }
        script.push(PinOp { line: Line::Clock, high: true });
        script.push(PinOp { line: Line::Clock, high: false });
        assert(script@ =~= byte_ops(value).take(3 * (i + 1)));
        i = i + 1;
    }
    assert(byte_ops(value).take(24) =~= byte_ops(value));
    script
}

} // verus!
