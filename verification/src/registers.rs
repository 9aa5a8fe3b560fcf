//! The register map of the chip and the values of its decode-mode register.

use vstd::prelude::*;

verus! {

/// The registers of one chip that a frame can address.
#[derive(Clone, Copy, Debug, PartialEq, Eq, Structural)]
pub enum Command {
    Noop,
    Digit0,
    Digit1,
    Digit2,
    Digit3,
    Digit4,
    Digit5,
    Digit6,
    Digit7,
    DecodeMode,
    Intensity,
    ScanLimit,
    Power,
    DisplayTest,
}

/// How a chip reads its digit registers: as raw segment masks, or as codes
/// of its built-in font for some or all of the digits.
#[derive(Clone, Copy, Debug, PartialEq, Eq, Structural)]
pub enum DecodeMode {
    NoDecode,
    CodeBDigit0,
    CodeBDigits3_0,
    CodeBDigits7_0,
}

/// The address byte that selects a register in a frame.
pub open spec fn register_code(command: Command) -> u8 {
    match command {
        Command::Noop => 0x00,
        Command::Digit0 => 0x01,
        Command::Digit1 => 0x02,
        Command::Digit2 => 0x03,
        Command::Digit3 => 0x04,
        Command::Digit4 => 0x05,
        Command::Digit5 => 0x06,
        Command::Digit6 => 0x07,
        Command::Digit7 => 0x08,
        Command::DecodeMode => 0x09,
        Command::Intensity => 0x0A,
        Command::ScanLimit => 0x0B,
        Command::Power => 0x0C,
        Command::DisplayTest => 0x0F,
    }
}

/// The data byte that selects a decode mode.
pub open spec fn mode_byte(mode: DecodeMode) -> u8 {
    match mode {
        DecodeMode::NoDecode => 0x00,
        DecodeMode::CodeBDigit0 => 0x01,
        DecodeMode::CodeBDigits3_0 => 0x0F,
        DecodeMode::CodeBDigits7_0 => 0xFF,
    }
}

impl Command {
    /// The address byte of this register.
    pub fn code(self) -> (code: u8)
        ensures
            code == register_code(self),
    {
        match self {
            Command::Noop => 0x00,
            Command::Digit0 => 0x01,
            Command::Digit1 => 0x02,
            Command::Digit2 => 0x03,
            Command::Digit3 => 0x04,
            Command::Digit4 => 0x05,
            Command::Digit5 => 0x06,
            Command::Digit6 => 0x07,
            Command::Digit7 => 0x08,
            Command::DecodeMode => 0x09,
            Command::Intensity => 0x0A,
            Command::ScanLimit => 0x0B,
            Command::Power => 0x0C,
            Command::DisplayTest => 0x0F,
        }
    }
}

impl DecodeMode {
    /// The data byte of this mode.
    pub fn byte(self) -> (byte: u8)
        ensures
            byte == mode_byte(self),
    {
        match self {
            DecodeMode::NoDecode => 0x00,
            DecodeMode::CodeBDigit0 => 0x01,
            DecodeMode::CodeBDigits3_0 => 0x0F,
            DecodeMode::CodeBDigits7_0 => 0xFF,
        }
    }
}

} // verus!
