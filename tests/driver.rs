use embedded_hal::i2c::I2c;
use embedded_hal_mock::eh1::i2c::{Mock, Transaction};
use is31fl3731::is31fl3731 as minimal;
use is31fl3731::{
    Action, Address, Session, Step, IS31FL3731, ISSI_BANK_FUNCTION_REGISTER,
    ISSI_COMMAND_REGISTER, ISSI_REG_AUDIOSYNC, ISSI_REG_CONFIG, ISSI_REG_CONFIG_PICTURE_MODE,
    ISSI_REG_SHUTDOWN,
};

/// Runs a plan against a bus, the way a caller of the library does.
fn perform<B: I2c>(bus: &mut B, plan: Vec<Step>) -> Result<(), B::Error> {
    let mut session = Session::new(plan);
    let mut outcome = Ok(());
    loop {
        match session.next(outcome) {
            Action::Perform(Step::Write { address, bytes }) => {
                outcome = bus.write(address, &bytes);
            }
            Action::Perform(Step::DelayMs { .. }) => outcome = Ok(()),
            Action::Finish(r) => return r,
        }
    }
}

#[test]
fn is31fl3731_test_reset() {
    let mut i2c = Mock::new(&[
        Transaction::write(
            Address::GND.as_u8(),
            vec![ISSI_COMMAND_REGISTER, ISSI_BANK_FUNCTION_REGISTER],
        ),
        Transaction::write(Address::GND.as_u8(), vec![ISSI_REG_SHUTDOWN, 0x00]),
    ]);

    let sut = minimal::IS31FL3731::new(Address::GND);

    perform(&mut i2c.clone(), sut.reset()).unwrap();
    i2c.done();
}

#[test]
fn lib_test_reset() {
    let mut i2c = Mock::new(&[
        Transaction::write(
            Address::GND.as_u8(),
            vec![ISSI_COMMAND_REGISTER, ISSI_BANK_FUNCTION_REGISTER],
        ),
        Transaction::write(Address::GND.as_u8(), vec![ISSI_REG_SHUTDOWN, 0x00]),
        Transaction::write(
            Address::GND.as_u8(),
            vec![ISSI_COMMAND_REGISTER, ISSI_BANK_FUNCTION_REGISTER],
        ),
        Transaction::write(Address::GND.as_u8(), vec![ISSI_REG_SHUTDOWN, 0x01]),
        Transaction::write(
            Address::GND.as_u8(),
            vec![ISSI_COMMAND_REGISTER, ISSI_BANK_FUNCTION_REGISTER],
        ),
        Transaction::write(
            Address::GND.as_u8(),
            vec![ISSI_REG_CONFIG, ISSI_REG_CONFIG_PICTURE_MODE],
        ),
    ]);

    let sut = IS31FL3731::new(Address::GND);

    perform(&mut i2c.clone(), sut.reset()).unwrap();
    i2c.done();
}

#[test]
fn test_clear() {
    const FRAME: u8 = 3;
    let mut i2c = Mock::new(&[
        Transaction::write(Address::GND.as_u8(), vec![ISSI_COMMAND_REGISTER, FRAME]),
        Transaction::write(
            Address::GND.as_u8(),
            vec![36, 0, 0, 0, 0, 0, 0, 0, 0, 0, 0, 0, 0, 0, 0, 0, 0, 0, 0, 0, 0, 0, 0, 0, 0],
        ),
        Transaction::write(
            Address::GND.as_u8(),
            vec![60, 0, 0, 0, 0, 0, 0, 0, 0, 0, 0, 0, 0, 0, 0, 0, 0, 0, 0, 0, 0, 0, 0, 0, 0],
        ),
        Transaction::write(
            Address::GND.as_u8(),
            vec![84, 0, 0, 0, 0, 0, 0, 0, 0, 0, 0, 0, 0, 0, 0, 0, 0, 0, 0, 0, 0, 0, 0, 0, 0],
        ),
        Transaction::write(
            Address::GND.as_u8(),
            vec![108, 0, 0, 0, 0, 0, 0, 0, 0, 0, 0, 0, 0, 0, 0, 0, 0, 0, 0, 0, 0, 0, 0, 0, 0],
        ),
        Transaction::write(
            Address::GND.as_u8(),
            vec![132, 0, 0, 0, 0, 0, 0, 0, 0, 0, 0, 0, 0, 0, 0, 0, 0, 0, 0, 0, 0, 0, 0, 0, 0],
        ),
        Transaction::write(
            Address::GND.as_u8(),
            vec![156, 0, 0, 0, 0, 0, 0, 0, 0, 0, 0, 0, 0, 0, 0, 0, 0, 0, 0, 0, 0, 0, 0, 0, 0],
        ),
    ]);

    let sut = IS31FL3731::new(Address::GND);

    perform(&mut i2c.clone(), sut.clear(FRAME)).unwrap();
    i2c.done();
}

#[test]
fn test_audio_sync_false() {
    let mut i2c = Mock::new(&[
        Transaction::write(
            Address::GND.as_u8(),
            vec![ISSI_COMMAND_REGISTER, ISSI_BANK_FUNCTION_REGISTER],
        ),
        Transaction::write(Address::GND.as_u8(), vec![ISSI_REG_AUDIOSYNC, 0]),
    ]);

    let sut = IS31FL3731::new(Address::GND);

    perform(&mut i2c.clone(), sut.audio_sync(false)).unwrap();
    i2c.done();
}

#[test]
fn test_audio_sync_true() {
    let mut i2c = Mock::new(&[
        Transaction::write(
            Address::GND.as_u8(),
            vec![ISSI_COMMAND_REGISTER, ISSI_BANK_FUNCTION_REGISTER],
        ),
        Transaction::write(Address::GND.as_u8(), vec![ISSI_REG_AUDIOSYNC, 1]),
    ]);

    let sut = IS31FL3731::new(Address::GND);

    perform(&mut i2c.clone(), sut.audio_sync(true)).unwrap();
    i2c.done();
}
