//! The driver for a chain of chips.

use vstd::prelude::*;
use crate::frame::{
    frame_after, frame_bytes, lemma_writes_ops_concat, lemma_writes_ops_single, write_ops,
    writes_ops, RegisterWrite, FRAME_CAPACITY, MAX_DIGITS, MAX_DISPLAYS,
};
use crate::glyph::{bcd_byte, glyph_code};
use crate::registers::{mode_byte, register_code, Command, DecodeMode};
use crate::wire::{bytes_ops, lemma_bytes_ops_push, shift_out, Line, PinOp};

verus! {

/// The state of the driver: how many chips the chain has, and the buffer in
/// which each frame is laid out before it is shifted out.
///
/// Every operation returns the script of line operations that carries it
/// out on the bus. Nothing has happened on the bus until that script has
/// been driven through the pins.
///
/// A chain of no chips is accepted. Its windows open and close chip-select
/// with nothing in between.
pub struct MAX7219 {
    devices: usize,
    buffer: [u8; FRAME_CAPACITY],
}

/// The number of chips that a driver addresses when it was asked for
/// `devices`: no more than the longest chain supported.
pub open spec fn clamped(devices: usize) -> usize {
    if devices > MAX_DISPLAYS {
        MAX_DISPLAYS
    } else {
        devices
    }
}

/// What an operation does: it leaves the length of the chain alone, sends
/// `writes` in order, which is all that `script` holds, and leaves the frame
/// of the last of them in the buffer.
pub open spec fn carries_out(
    before: MAX7219,
    after: MAX7219,
    script: Seq<PinOp>,
    writes: Seq<RegisterWrite>,
) -> bool {
    &&& after.devices() == before.devices()
    &&& after.frame() == frame_after(before.frame(), writes)
    &&& script == writes_ops(before.devices() as nat, writes)
}

/// The writes that switch a chain of `devices` chips on or off: one to the
/// power register of each chip, from the first chip to the last.
pub open spec fn power_writes(devices: nat, on: bool) -> Seq<RegisterWrite> {
    Seq::new(
        devices,
        |i: int|
            RegisterWrite {
                addr: i as usize,
                register: register_code(Command::Power),
                data: if on {
                    0x01u8
                } else {
                    0x00u8
                },
            },
    )
}

/// The writes that blank chip `addr`: a zero to each of its digit
/// registers, from the first register to the eighth.
pub open spec fn clear_writes(addr: usize) -> Seq<RegisterWrite> {
    Seq::new(
        MAX_DIGITS as nat,
        |i: int| RegisterWrite { addr, register: (i + 1) as u8, data: 0x00u8 },
    )
}

/// The writes that show eight characters on chip `addr`. The first switches
/// the font on for all digits, and always on the first chip of the chain,
/// whichever chip the characters go to. The others carry the font codes of
/// the characters, the leftmost to the highest digit register.
pub open spec fn bcd_writes(addr: usize, bcd: Seq<u8>) -> Seq<RegisterWrite> {
    seq![
        RegisterWrite {
            addr: 0,
            register: register_code(Command::DecodeMode),
            data: mode_byte(DecodeMode::CodeBDigits7_0),
        },
    ] + Seq::new(
        MAX_DIGITS as nat,
        |i: int| RegisterWrite { addr, register: (MAX_DIGITS - i) as u8, data: glyph_code(bcd[i]) },
    )
}

/// The writes that set chip `addr` up: test mode off, all eight digits
/// scanned, no font decoding, every digit blank.
pub open spec fn setup_writes(addr: usize) -> Seq<RegisterWrite> {
    seq![
        RegisterWrite { addr, register: register_code(Command::DisplayTest), data: 0x00u8 },
        RegisterWrite { addr, register: register_code(Command::ScanLimit), data: 0x07u8 },
        RegisterWrite {
            addr,
            register: register_code(Command::DecodeMode),
            data: mode_byte(DecodeMode::NoDecode),
        },
    ] + clear_writes(addr)
}

/// The writes that set up the first `count` chips, chip by chip.
pub open spec fn chain_setup_writes(count: nat) -> Seq<RegisterWrite>
    decreases count,
{
    if count == 0 {
        Seq::empty()
    } else {
        chain_setup_writes((count - 1) as nat) + setup_writes((count - 1) as usize)
    }
}

/// The writes with which a driver for `devices` chips starts: each chip is
/// set up, then the whole chain is switched off.
pub open spec fn init_writes(devices: nat) -> Seq<RegisterWrite> {
    chain_setup_writes(devices) + power_writes(devices, false)
}

/// Two operations in a row carry out the writes of the first and then those
/// of the second.
pub proof fn lemma_carries_out_both(
    before: MAX7219,
    between: MAX7219,
    after: MAX7219,
    first_script: Seq<PinOp>,
    first: Seq<RegisterWrite>,
    second_script: Seq<PinOp>,
    second: Seq<RegisterWrite>,
)
    requires
        carries_out(before, between, first_script, first),
        carries_out(between, after, second_script, second),
    ensures
        carries_out(before, after, first_script + second_script, first + second),
{
    lemma_writes_ops_concat(before.devices() as nat, first, second);
    if second.len() == 0 {
        assert(first + second =~= first);
    } else {
        assert((first + second).last() == second.last());
    }
}


/// Switching a chain on and then off sends, in this order: a write of one
/// to the power register of every chip, from the first chip to the last,
/// and only then a write of zero to the power register of every chip, again
/// from the first to the last.
pub proof fn lemma_power_on_then_off(devices: nat)
    requires
        devices <= MAX_DISPLAYS,
    ensures
        writes_ops(devices, power_writes(devices, true)) + writes_ops(
            devices,
            power_writes(devices, false),
        ) == writes_ops(devices, power_writes(devices, true) + power_writes(devices, false)),
        (power_writes(devices, true) + power_writes(devices, false)).len() == 2 * devices,
        forall|i: int|
            0 <= i < devices ==> {
                &&& #[trigger] (power_writes(devices, true) + power_writes(devices, false))[i]
                    == (RegisterWrite {
                    addr: i as usize,
                    register: register_code(Command::Power),
                    data: 0x01,
                })
                &&& (power_writes(devices, true) + power_writes(devices, false))[devices + i]
                    == (RegisterWrite {
                    addr: i as usize,
                    register: register_code(Command::Power),
                    data: 0x00,
                })
            },
{
    lemma_writes_ops_concat(devices, power_writes(devices, true), power_writes(devices, false));
}

impl MAX7219 {
    /// The number of chips in the chain.
    pub closed spec fn spec_devices(&self) -> usize {
        self.devices
    }

    /// The contents of the frame buffer.
    pub closed spec fn frame(&self) -> Seq<u8> {
        self.buffer@
    }

    #[verifier::type_invariant]
    spec fn chain_fits(&self) -> bool {
        self.devices <= MAX_DISPLAYS
    }

    /// A driver for a chain of `devices` chips, or of eight where more are
    /// asked for, together with the script that brings the chain to its
    /// starting state: every chip set up, blank and switched off. The
    /// driver is ready for use once that script has gone through.
    pub fn new(devices: usize) -> (made: (MAX7219, Vec<PinOp>))
        ensures
            made.0.devices() == clamped(devices),
            made.0.frame() == frame_after(
                Seq::new(FRAME_CAPACITY as nat, |i: int| 0u8),
                init_writes(clamped(devices) as nat),
            ),
            made.1@ == writes_ops(clamped(devices) as nat, init_writes(clamped(devices) as nat)),
    {
        let mut num_devices = devices;
        if num_devices > MAX_DISPLAYS {
            num_devices = MAX_DISPLAYS;
        }
        let mut max7219 = MAX7219 { devices: num_devices, buffer: [0;FRAME_CAPACITY] };
        assert(max7219.frame() =~= Seq::new(FRAME_CAPACITY as nat, |i: int| 0u8));

        let script = max7219.init();
        (max7219, script)
    }

    /// The number of chips in the chain.
    #[verifier::when_used_as_spec(spec_devices)]
    pub fn devices(&self) -> (count: usize)
        ensures
            count == self.spec_devices(),
            count <= MAX_DISPLAYS,
    {
        proof {
            use_type_invariant(self);
        }
        self.devices
    }

    /// The frame buffer as the last write left it.
    pub fn buffer(&self) -> (bytes: &[u8; FRAME_CAPACITY])
        ensures
            bytes@ == self.frame(),
    {
        &self.buffer
    }

    /// Writes `data` to register `command` of chip `addr`. Every other
    /// operation on a register comes down to this one.
    pub fn write_data(&mut self, addr: usize, command: Command, data: u8) -> (script: Vec<PinOp>)
        requires
            addr < MAX_DISPLAYS,
        ensures
            carries_out(
                *old(self),
                *final(self),
                script@,
                seq![RegisterWrite { addr, register: register_code(command), data }],
            ),
    {
        proof {
            lemma_writes_ops_single(
                self.devices() as nat,
                RegisterWrite { addr, register: register_code(command), data },
            );
        }
        self.write_raw(addr, command.code(), data)
    }

    /// Sets the brightness of chip `addr`. The chip reads the low four bits
    /// of `intensity`; the byte is sent as it is.
    pub fn set_intensity(&mut self, addr: usize, intensity: u8) -> (script: Vec<PinOp>)
        requires
            addr < MAX_DISPLAYS,
        ensures
            carries_out(
                *old(self),
                *final(self),
                script@,
                seq![
                    RegisterWrite {
                        addr,
                        register: register_code(Command::Intensity),
                        data: intensity,
                    },
                ],
            ),
    {
        self.write_data(addr, Command::Intensity, intensity)
    }

    /// Sets how chip `addr` reads its digit registers.
    pub fn set_decode_mode(&mut self, addr: usize, mode: DecodeMode) -> (script: Vec<PinOp>)
        requires
            addr < MAX_DISPLAYS,
        ensures
            carries_out(
                *old(self),
                *final(self),
                script@,
                seq![
                    RegisterWrite {
                        addr,
                        register: register_code(Command::DecodeMode),
                        data: mode_byte(mode),
                    },
                ],
            ),
    {
        self.write_data(addr, Command::DecodeMode, mode.byte())
    }

    /// Switches the test mode of chip `addr` on or off. In test mode the
    /// chip lights every segment.
    pub fn test(&mut self, addr: usize, is_on: bool) -> (script: Vec<PinOp>)
        requires
            addr < MAX_DISPLAYS,
        ensures
            carries_out(
                *old(self),
                *final(self),
                script@,
                seq![
                    RegisterWrite {
                        addr,
                        register: register_code(Command::DisplayTest),
                        data: if is_on {
                            0x01u8
                        } else {
                            0x00u8
                        },
                    },
                ],
            ),
    {
        if is_on {
            self.write_data(addr, Command::DisplayTest, 0x01)
        } else {
            self.write_data(addr, Command::DisplayTest, 0x00)
        }
    }

    /// Switches every chip of the chain on, from the first to the last.
    pub fn power_on(&mut self) -> (script: Vec<PinOp>)
        ensures
            carries_out(
                *old(self),
                *final(self),
                script@,
                power_writes(old(self).devices() as nat, true),
            ),
    {
        proof {
            use_type_invariant(&*self);
        }
        let ghost before = *self;
        let ghost writes = power_writes(self.devices() as nat, true);
        let devices = self.devices;
        let mut script: Vec<PinOp> = Vec::new();
        let mut i: usize = 0;
        while i < devices
            invariant
                i <= devices <= MAX_DISPLAYS,
                devices == before.devices(),
                writes == power_writes(devices as nat, true),
                carries_out(before, *self, script@, writes.take(i as int)),
            decreases devices - i,
        {
            let ghost between = *self;
            let ghost sent = script@;
            let mut part = self.write_data(i, Command::Power, 0x01);
            proof {
                lemma_carries_out_both(
                    before,
                    between,
                    *self,
                    sent,
                    writes.take(i as int),
                    part@,
                    seq![writes[i as int]],
                );
                assert(writes.take(i as int) + seq![writes[i as int]] =~= writes.take(i + 1));
            }
            script.append(&mut part);
            i = i + 1;
        }
        assert(writes.take(devices as int) =~= writes);
        script
    }

    /// Switches every chip of the chain off, from the first to the last.
    pub fn power_off(&mut self) -> (script: Vec<PinOp>)
        ensures
            carries_out(
                *old(self),
                *final(self),
                script@,
                power_writes(old(self).devices() as nat, false),
            ),
    {
        proof {
            use_type_invariant(&*self);
        }
        let ghost before = *self;
        let ghost writes = power_writes(self.devices() as nat, false);
        let devices = self.devices;
        let mut script: Vec<PinOp> = Vec::new();
        let mut i: usize = 0;
        while i < devices
            invariant
                i <= devices <= MAX_DISPLAYS,
                devices == before.devices(),
                writes == power_writes(devices as nat, false),
                carries_out(before, *self, script@, writes.take(i as int)),
            decreases devices - i,
        {
            let ghost between = *self;
            let ghost sent = script@;
            let mut part = self.write_data(i, Command::Power, 0x00);
            proof {
                lemma_carries_out_both(
                    before,
                    between,
                    *self,
                    sent,
                    writes.take(i as int),
                    part@,
                    seq![writes[i as int]],
                );
                assert(writes.take(i as int) + seq![writes[i as int]] =~= writes.take(i + 1));
            }
            script.append(&mut part);
            i = i + 1;
        }
        assert(writes.take(devices as int) =~= writes);
        script
    }

    /// Blanks chip `addr`: writes a zero to each of its eight digit
    /// registers, from the first to the eighth.
    pub fn clear_display(&mut self, addr: usize) -> (script: Vec<PinOp>)
        requires
            addr < MAX_DISPLAYS,
        ensures
            carries_out(*old(self), *final(self), script@, clear_writes(addr)),
    {
        let ghost before = *self;
        let ghost writes = clear_writes(addr);
        let mut script: Vec<PinOp> = Vec::new();
        let mut i: u8 = 1;
        while i < 9
            invariant
                1 <= i <= 9,
                addr < MAX_DISPLAYS,
                writes == clear_writes(addr),
                carries_out(before, *self, script@, writes.take(i - 1)),
            decreases 9 - i,
        {
            let ghost between = *self;
            let ghost sent = script@;
            let mut part = self.write_raw(addr, i, 0x00);
            proof {
                lemma_writes_ops_single(before.devices() as nat, writes[i - 1]);
                lemma_carries_out_both(
                    before,
                    between,
                    *self,
                    sent,
                    writes.take(i - 1),
                    part@,
                    seq![writes[i - 1]],
                );
                assert(writes.take(i - 1) + seq![writes[i - 1]] =~= writes.take(i as int));
            }
            script.append(&mut part);
            i = i + 1;
        }
        assert(writes.take(8) =~= writes);
        script
    }

    /// Shows eight characters on chip `addr`, the first of them on the
    /// leftmost digit. The font is switched on for all digits of the first
    /// chip of the chain, whatever `addr` is; then each character is
    /// translated with [`bcd_byte`] and written to its digit register, from
    /// the eighth register down to the first.
    pub fn write_bcd(&mut self, addr: usize, bcd: &[u8; 8]) -> (script: Vec<PinOp>)
        requires
            addr < MAX_DISPLAYS,
        ensures
            carries_out(*old(self), *final(self), script@, bcd_writes(addr, bcd@)),
    {
        let ghost before = *self;
        let ghost writes = bcd_writes(addr, bcd@);
        let mut script = self.set_decode_mode(0, DecodeMode::CodeBDigits7_0);
        assert(writes.take(1) =~= seq![writes[0]]);

        let mut digit: u8 = MAX_DIGITS;
        let mut i: usize = 0;
        while i < 8
            invariant
                i <= 8,
                digit == MAX_DIGITS - i,
                addr < MAX_DISPLAYS,
                writes == bcd_writes(addr, bcd@),
                carries_out(before, *self, script@, writes.take(i + 1)),
            decreases 8 - i,
        {
            let ghost between = *self;
            let ghost sent = script@;
            let mut part = self.write_raw(addr, digit, bcd_byte(bcd[i]));
            proof {
                lemma_writes_ops_single(before.devices() as nat, writes[i + 1]);
                lemma_carries_out_both(
                    before,
                    between,
                    *self,
                    sent,
                    writes.take(i + 1),
                    part@,
                    seq![writes[i + 1]],
                );
                assert(writes.take(i + 1) + seq![writes[i + 1]] =~= writes.take(i + 2));
            }
            script.append(&mut part);
            digit = digit - 1;
            i = i + 1;
        }
        assert(writes.take(9) =~= writes);
        script
    }

    /// Sets every chip of the chain up, then switches the chain off.
    pub fn init(&mut self) -> (script: Vec<PinOp>)
        ensures
            carries_out(
                *old(self),
                *final(self),
                script@,
                init_writes(old(self).devices() as nat),
            ),
    {
        proof {
            use_type_invariant(&*self);
        }
        let ghost before = *self;
        let devices = self.devices;
        let mut script: Vec<PinOp> = Vec::new();
        let mut i: usize = 0;
        while i < devices
            invariant
                i <= devices <= MAX_DISPLAYS,
                devices == before.devices(),
                carries_out(before, *self, script@, chain_setup_writes(i as nat)),
            decreases devices - i,
        {
            let ghost start = *self;
            let ghost sent = script@;
            let mut test_off = self.test(i, false);
            let ghost tested = *self;
            let mut scan_all = self.write_data(i, Command::ScanLimit, 0x07);
            let ghost scanned = *self;
            let mut no_decode = self.set_decode_mode(i, DecodeMode::NoDecode);
            let ghost direct = *self;
            let mut blank = self.clear_display(i);
            proof {
                let w = setup_writes(i);
                lemma_carries_out_both(
                    start,
                    tested,
                    scanned,
                    test_off@,
                    seq![w[0]],
                    scan_all@,
                    seq![w[1]],
                );
                lemma_carries_out_both(
                    start,
                    scanned,
                    direct,
                    test_off@ + scan_all@,
                    seq![w[0]] + seq![w[1]],
                    no_decode@,
                    seq![w[2]],
                );
                lemma_carries_out_both(
                    start,
                    direct,
                    *self,
                    test_off@ + scan_all@ + no_decode@,
                    seq![w[0]] + seq![w[1]] + seq![w[2]],
                    blank@,
                    clear_writes(i),
                );
                assert(seq![w[0]] + seq![w[1]] + seq![w[2]] + clear_writes(i) =~= w);
                lemma_carries_out_both(
                    before,
                    start,
                    *self,
                    sent,
                    chain_setup_writes(i as nat),
                    test_off@ + scan_all@ + no_decode@ + blank@,
                    w,
                );
                assert(sent + (test_off@ + scan_all@ + no_decode@ + blank@) =~= sent + test_off@
                    + scan_all@ + no_decode@ + blank@);
            }
            script.append(&mut test_off);
            script.append(&mut scan_all);
            script.append(&mut no_decode);
            script.append(&mut blank);
            i = i + 1;
        }
        let ghost set_up = *self;
        let ghost sent = script@;
        let mut off = self.power_off();
        proof {
            lemma_carries_out_both(
                before,
                set_up,
                *self,
                sent,
                chain_setup_writes(devices as nat),
                off@,
                power_writes(devices as nat, false),
            );
        }
        script.append(&mut off);
        script
    }

    fn empty_buffer(&mut self)
        ensures
            final(self).devices() == old(self).devices(),
            final(self).frame() == Seq::new(FRAME_CAPACITY as nat, |i: int| 0u8),
    {
        proof {
            use_type_invariant(&*self);
        }
        self.buffer = [0;FRAME_CAPACITY];
        assert(self.frame() =~= Seq::new(FRAME_CAPACITY as nat, |i: int| 0u8));
    }

    /// Sends one frame: lays out `header` and `data` in the slot of chip
    /// `addr` in an otherwise zeroed buffer, then opens a chip-select
    /// window, shifts out two bytes for every chip of the chain, first slot
    /// first, and closes the window.
    pub fn write_raw(&mut self, addr: usize, header: u8, data: u8) -> (script: Vec<PinOp>)
        requires
            addr < MAX_DISPLAYS,
        ensures
            script@ == write_ops(
                old(self).devices() as nat,
                RegisterWrite { addr, register: header, data },
            ),
            final(self).devices() == old(self).devices(),
            final(self).frame() == frame_bytes(
                MAX_DISPLAYS as nat,
                RegisterWrite { addr, register: header, data },
            ),
    {
        proof {
            use_type_invariant(&*self);
        }
        let ghost write = RegisterWrite { addr, register: header, data };
        let offset = addr * 2;
        let max_bytes = self.devices * 2;
        self.empty_buffer();

        self.buffer[offset] = header;
        self.buffer[offset + 1] = data;
        assert(self.frame() =~= frame_bytes(MAX_DISPLAYS as nat, write));

        let mut script: Vec<PinOp> = Vec::new();
        script.push(PinOp { line: Line::ChipSelect, high: false });
        let mut i: usize = 0;
        while i < max_bytes
            invariant
                i <= max_bytes,
                max_bytes == self.devices * 2,
                self.devices <= MAX_DISPLAYS,
                self.frame() == frame_bytes(MAX_DISPLAYS as nat, write),
                script@ == seq![PinOp { line: Line::ChipSelect, high: false }] + bytes_ops(
                    self.frame().take(i as int),
                ),
            decreases max_bytes - i,
        {
            let buffer_data = self.buffer[i];
            let mut bits = shift_out(buffer_data);
            proof {
                lemma_bytes_ops_push(self.frame().take(i as int), buffer_data);
                assert(self.frame().take(i as int).push(buffer_data) =~= self.frame().take(
                    i + 1,
                ));
            }
            script.append(&mut bits);
            i = i + 1;
        }
        script.push(PinOp { line: Line::ChipSelect, high: true });
        proof {
            assert(self.frame().take(max_bytes as int) =~= frame_bytes(
                self.devices as nat,
                write,
            ));
        }
        script
    }
}

} // verus!
