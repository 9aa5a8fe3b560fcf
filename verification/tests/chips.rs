use max7219::{Line, PinError, PinOp, Step, Transfer, MAX7219};

/// A chain of chips as the wire sees it. Each chip keeps the last sixteen
/// bits that came by; on the rising edge of chip-select it stores the low
/// byte in the register that the high byte names.
struct Chain {
    data: bool,
    clock: bool,
    select: bool,
    shifted: Vec<bool>,
    registers: Vec<[Option<u8>; 16]>,
}

impl Chain {
    fn new(devices: usize) -> Chain {
        Chain {
            data: false,
            clock: false,
            select: true,
            shifted: Vec::new(),
            registers: vec![[None; 16]; devices],
        }
    }

    fn drive(&mut self, op: PinOp) {
        match op.line {
            Line::Data => self.data = op.high,
            Line::Clock => {
                if op.high && !self.clock && !self.select {
                    self.shifted.push(self.data);
                }
                self.clock = op.high;
            }
            Line::ChipSelect => {
                if op.high && !self.select {
                    self.latch();
                }
                if !op.high {
                    self.shifted.clear();
                }
                self.select = op.high;
            }
        }
    }

    fn latch(&mut self) {
        let devices = self.registers.len();
        assert_eq!(self.shifted.len(), 16 * devices);
        for chip in 0..devices {
            let mut word: u16 = 0;
            for bit in 0..16 {
                word = word * 2 + u16::from(self.shifted[16 * chip + bit]);
            }
            let register = (word / 256) as usize;
            if register != 0 {
                self.registers[chip][register % 16] = Some((word % 256) as u8);
            }
        }
    }

    fn run(&mut self, script: &[PinOp]) {
        for op in script {
            self.drive(*op);
        }
    }
}

/// Drives `script` through a transfer; the operation with index `fails_at`
/// reports a failure. Gives back what was driven and how the transfer ended.
fn drive_until(script: Vec<PinOp>, fails_at: Option<usize>) -> (Vec<PinOp>, Step) {
    let mut transfer = Transfer::new(script);
    let mut driven = Vec::new();
    let mut last = Ok(());
    loop {
        match transfer.step(last) {
            Step::Drive(op) => {
                last = if fails_at == Some(driven.len()) {
                    Err(PinError)
                } else {
                    Ok(())
                };
                driven.push(op);
            }
            end => return (driven, end),
        }
    }
}

#[test]
fn after_new_every_chip_is_set_up_blank_and_off() {
    for devices in 1..=8usize {
        let (_, start) = MAX7219::new(devices);
        let mut chain = Chain::new(devices);
        chain.run(&start);
        for chip in 0..devices {
            let registers = &chain.registers[chip];
            assert_eq!(registers[0x0F], Some(0x00));
            assert_eq!(registers[0x0B], Some(0x07));
            assert_eq!(registers[0x09], Some(0x00));
            assert_eq!(registers[0x0C], Some(0x00));
            for digit in 1..=8 {
                assert_eq!(registers[digit], Some(0x00));
            }
            assert_eq!(registers[0x0A], None);
        }
    }
}

#[test]
fn power_on_sets_only_the_power_registers() {
    let (mut driver, _) = MAX7219::new(4);
    let mut chain = Chain::new(4);
    chain.run(&driver.power_on());
    for chip in 0..4 {
        for register in 1..16 {
            let expected = if register == 0x0C { Some(0x01) } else { None };
            assert_eq!(chain.registers[chip][register], expected);
        }
    }
    chain.run(&driver.power_off());
    for chip in 0..4 {
        assert_eq!(chain.registers[chip][0x0C], Some(0x00));
    }
}

#[test]
fn a_write_reaches_one_register_of_one_chip() {
    let (mut driver, _) = MAX7219::new(5);
    let mut chain = Chain::new(5);
    chain.run(&driver.set_intensity(3, 0x0B));
    for chip in 0..5 {
        for register in 1..16 {
            let expected = if chip == 3 && register == 0x0A { Some(0x0B) } else { None };
            assert_eq!(chain.registers[chip][register], expected);
        }
    }
}

#[test]
fn write_bcd_fills_the_digits_from_the_left() {
    let (mut driver, _) = MAX7219::new(2);
    let mut chain = Chain::new(2);
    chain.run(&driver.write_bcd(1, b" 1234567"));
    assert_eq!(chain.registers[0][0x09], Some(0xFF));
    assert_eq!(chain.registers[1][0x09], None);
    assert_eq!(chain.registers[1][8], Some(0x0F));
    assert_eq!(chain.registers[1][7], Some(b'1'));
    assert_eq!(chain.registers[1][6], Some(b'2'));
    assert_eq!(chain.registers[1][5], Some(b'3'));
    assert_eq!(chain.registers[1][4], Some(b'4'));
    assert_eq!(chain.registers[1][3], Some(b'5'));
    assert_eq!(chain.registers[1][2], Some(b'6'));
    assert_eq!(chain.registers[1][1], Some(b'7'));
    for digit in 1..=8 {
        assert_eq!(chain.registers[0][digit], None);
    }
}

#[test]
fn transfer_hands_out_the_whole_script_in_order() {
    let (mut driver, _) = MAX7219::new(2);
    let script = driver.power_on();
    let (driven, end) = drive_until(script.clone(), None);
    assert_eq!(driven, script);
    assert_eq!(end, Step::Complete);
}

#[test]
fn transfer_of_nothing_is_complete_at_once() {
    let mut transfer = Transfer::new(Vec::new());
    assert_eq!(transfer.step(Ok(())), Step::Complete);
    assert_eq!(transfer.step(Ok(())), Step::Complete);
}

#[test]
fn transfer_stops_at_the_first_failure() {
    let (mut driver, _) = MAX7219::new(2);
    let script = driver.power_on();
    for fails_at in [0usize, 1, 2, 50, 97, 98, script.len() - 1] {
        let (driven, end) = drive_until(script.clone(), Some(fails_at));
        assert_eq!(end, Step::Aborted(PinError));
        assert_eq!(driven.len(), fails_at + 1);
        assert_eq!(&driven[..], &script[..fails_at + 1]);
    }
}

#[test]
fn transfer_stays_aborted() {
    let mut transfer = Transfer::new(vec![
        PinOp { line: Line::ChipSelect, high: false },
        PinOp { line: Line::ChipSelect, high: true },
    ]);
    assert_eq!(
        transfer.step(Ok(())),
        Step::Drive(PinOp { line: Line::ChipSelect, high: false })
    );
    assert_eq!(transfer.step(Err(PinError)), Step::Aborted(PinError));
    assert_eq!(transfer.step(Ok(())), Step::Aborted(PinError));
    assert_eq!(transfer.step(Ok(())), Step::Aborted(PinError));
}

#[test]
fn failure_before_anything_was_driven_aborts() {
    let mut transfer = Transfer::new(vec![PinOp { line: Line::Data, high: true }]);
    assert_eq!(transfer.step(Err(PinError)), Step::Aborted(PinError));
}

#[test]
fn failure_of_the_last_operation_aborts() {
    let mut transfer = Transfer::new(vec![PinOp { line: Line::Data, high: true }]);
    assert_eq!(
        transfer.step(Ok(())),
        Step::Drive(PinOp { line: Line::Data, high: true })
    );
    assert_eq!(transfer.step(Err(PinError)), Step::Aborted(PinError));
}

#[test]
fn power_on_that_fails_leaves_later_chips_untouched() {
    let (mut driver, _) = MAX7219::new(3);
    let script = driver.power_on();
    let window = 2 + 6 * 24;
    let (driven, end) = drive_until(script, Some(window + 10));
    assert_eq!(end, Step::Aborted(PinError));
    let mut chain = Chain::new(3);
    chain.run(&driven);
    assert_eq!(chain.registers[0][0x0C], Some(0x01));
    assert_eq!(chain.registers[1][0x0C], None);
    assert_eq!(chain.registers[2][0x0C], None);
    assert!(!chain.select);
}

#[test]
fn pin_error_from_a_pin_that_cannot_fail() {
    let outcome: Result<(), std::convert::Infallible> = Ok(());
    let mapped: Result<(), PinError> = outcome.map_err(PinError::from);
    assert_eq!(mapped, Ok(()));
}
