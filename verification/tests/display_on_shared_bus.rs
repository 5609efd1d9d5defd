//! The display driver on a bus that it shares with a second device.

use std::cell::RefCell;

use embedded_hal::blocking::delay::DelayUs;
use embedded_hal::blocking::spi::Write;
use embedded_hal::digital::v2::{InputPin, OutputPin};
use status_board::bus::{is_serialized, BusArbiter, BusEvent, BusHandle, ScopedBusAccess};
use status_board::render::Region;
use uc8151::{Uc8151, UpdateRegion, LUT};

/// A bus that records what the arbiter lets through.
struct Wire {
    arbiter: BusArbiter,
    frames: Vec<BusEvent>,
    refused: usize,
}

/// One device on the recorded bus.
struct Device<'a> {
    wire: &'a RefCell<Wire>,
    handle: BusHandle,
    access: RefCell<Option<ScopedBusAccess>>,
}

struct Select<'d, 'a>(&'d Device<'a>);

struct Data<'d, 'a>(&'d Device<'a>);

impl OutputPin for Select<'_, '_> {
    type Error = ();

    fn set_low(&mut self) -> Result<(), ()> {
        let mut wire = self.0.wire.borrow_mut();
        match wire.arbiter.acquire(&self.0.handle) {
            Some(access) => {
                wire.frames.push(BusEvent::Select { line: access.chip_select() });
                *self.0.access.borrow_mut() = Some(access);
                Ok(())
            }
            None => {
                wire.refused += 1;
                Err(())
            }
        }
    }

    fn set_high(&mut self) -> Result<(), ()> {
        let mut wire = self.0.wire.borrow_mut();
        match self.0.access.borrow_mut().take() {
            Some(access) => {
                let line = access.chip_select();
                assert!(wire.arbiter.release(access));
                wire.frames.push(BusEvent::Deselect { line });
                Ok(())
            }
            None => Err(()),
        }
    }
}

impl Write<u8> for Data<'_, '_> {
    type Error = ();

    fn write(&mut self, words: &[u8]) -> Result<(), ()> {
        let mut wire = self.0.wire.borrow_mut();
        let access = self.0.access.borrow();
        let access = access.as_ref().ok_or(())?;
        if !wire.arbiter.transfer(access, words) {
            wire.refused += 1;
            return Err(());
        }
        for byte in words {
            wire.frames.push(BusEvent::Transfer { line: access.chip_select(), byte: *byte });
        }
        Ok(())
    }
}

struct Pin;

impl OutputPin for Pin {
    type Error = ();

    fn set_low(&mut self) -> Result<(), ()> {
        Ok(())
    }

    fn set_high(&mut self) -> Result<(), ()> {
        Ok(())
    }
}

struct NeverBusy;

impl InputPin for NeverBusy {
    type Error = ();

    fn is_high(&self) -> Result<bool, ()> {
        Ok(true)
    }

    fn is_low(&self) -> Result<bool, ()> {
        Ok(false)
    }
}

struct NoDelay;

impl DelayUs<u32> for NoDelay {
    fn delay_us(&mut self, _us: u32) {}
}

fn new_wire() -> RefCell<Wire> {
    RefCell::new(Wire { arbiter: BusArbiter::new(), frames: Vec::new(), refused: 0 })
}

fn device<'a>(wire: &'a RefCell<Wire>, line: u8) -> Device<'a> {
    Device { wire, handle: BusHandle::new(line), access: RefCell::new(None) }
}

#[test]
fn two_displays_on_one_bus_send_whole_transactions() {
    let wire = new_wire();
    let first = device(&wire, 17);
    let second = device(&wire, 9);
    let mut upper = Uc8151::new(Data(&first), Select(&first), Pin, NeverBusy, Pin);
    let mut lower = Uc8151::new(Data(&second), Select(&second), Pin, NeverBusy, Pin);
    upper.setup(&mut NoDelay, LUT::Medium).expect("the bus is free for each command");
    lower.setup(&mut NoDelay, LUT::Fast).expect("the bus is free for each command");
    let strip = Region::status_line();
    for _ in 0..3 {
        upper.update().expect("the bus is free for each command");
        let region = UpdateRegion::new(strip.x, strip.y, strip.width, strip.height)
            .expect("the status strip is refreshable");
        lower.partial_update(region).expect("the bus is free for each command");
    }
    let wire = wire.borrow();
    assert_eq!(wire.refused, 0);
    assert_eq!(wire.arbiter.holder(), None);
    assert!(is_serialized(&wire.frames));
    let of_upper = wire.frames.iter().filter(|f| matches!(f, BusEvent::Select { line: 17 })).count();
    let of_lower = wire.frames.iter().filter(|f| matches!(f, BusEvent::Select { line: 9 })).count();
    assert!(of_upper > 0 && of_lower > 0);
    // Three whole frame buffers went out on the first line.
    let bytes_of_upper =
        wire.frames.iter().filter(|f| matches!(f, BusEvent::Transfer { line: 17, .. })).count();
    assert!(bytes_of_upper > 3 * 296 * 128 / 8);
}

#[test]
fn device_cannot_write_while_another_holds_the_bus() {
    let wire = new_wire();
    let first = device(&wire, 17);
    let second = device(&wire, 9);
    let mut held = Select(&first);
    held.set_low().expect("the bus is free");
    // The second device asks in the middle of the first one's transaction.
    let mut display = Uc8151::new(Data(&second), Select(&second), Pin, NeverBusy, Pin);
    assert!(display.update().is_err());
    Data(&first).write(&[1, 2, 3]).expect("the first device holds the bus");
    held.set_high().expect("the first device holds the bus");
    // With the bus free again the second device gets through.
    display.update().expect("the bus is free for each command");
    let wire = wire.borrow();
    assert!(wire.refused > 0);
    assert!(is_serialized(&wire.frames));
    assert_eq!(
        wire.frames[..5],
        [
            BusEvent::Select { line: 17 },
            BusEvent::Transfer { line: 17, byte: 1 },
            BusEvent::Transfer { line: 17, byte: 2 },
            BusEvent::Transfer { line: 17, byte: 3 },
            BusEvent::Deselect { line: 17 },
        ]
    );
    assert_eq!(wire.frames[5], BusEvent::Select { line: 9 });
    assert_eq!(wire.arbiter.holder(), None);
}
