use vivarium_assistant::adapters::{MockGPIO, MockI2C, MockInputPin, MockOutputPin};
use vivarium_assistant::domain::{InputPin, OutputPin, OutputPinState, PinNumber, GPIO, I2C};
use vivarium_assistant::errors::Error;
use vivarium_assistant::http::parse_state;
use vivarium_assistant::outputs::{
    OutputDefinition, OutputDefinitions, OutputName, OutputState, ScheduledActivations,
};
use vivarium_assistant::sensors::{AHT20Status, SensorName};

type Result<T> = std::result::Result<T, Error>;

fn definition(name: &str, pin: u8) -> Result<OutputDefinition> {
    Ok(OutputDefinition::new(
        OutputName::new(name)?,
        PinNumber::new(pin)?,
        ScheduledActivations::new(&[])?,
    ))
}

#[test]
fn duplicate_names_are_rejected() -> Result<()> {
    let result = OutputDefinitions::new(&[definition("lamp", 1)?, definition("lamp", 2)?]);
    assert_eq!(result.unwrap_err(), Error::DuplicateName);
    Ok(())
}

#[test]
fn duplicate_pins_are_rejected() -> Result<()> {
    let result = OutputDefinitions::new(&[definition("lamp", 1)?, definition("pump", 1)?]);
    assert_eq!(result.unwrap_err(), Error::DuplicatePin);
    Ok(())
}

#[test]
fn distinct_definitions_are_accepted() -> Result<()> {
    let defs = OutputDefinitions::new(&[definition("lamp", 1)?, definition("pump", 2)?])?;
    assert_eq!(defs.outputs().len(), 2);
    assert_eq!(defs.outputs()[0].name().name(), "lamp");
    assert_eq!(defs.outputs()[1].name().name(), "pump");

    let empty = OutputDefinitions::new(&[])?;
    assert_eq!(empty.outputs().len(), 0);
    Ok(())
}

#[test]
fn output_name_rejects_empty() {
    assert_eq!(OutputName::new("").unwrap_err(), Error::InvalidName);
    assert_eq!(OutputName::new("lamp").unwrap().name(), "lamp");
}

#[test]
fn sensor_name_rejects_empty() {
    assert_eq!(SensorName::new("").unwrap_err(), Error::InvalidName);
    assert_eq!(SensorName::new("water").unwrap().name(), "water");
}

#[test]
fn pin_number_round_trips() {
    assert_eq!(PinNumber::new(27).unwrap().number(), 27);
}

#[test]
fn parse_state_accepts_on_off_case_insensitively() {
    assert_eq!(parse_state("ON").unwrap(), OutputState::On);
    assert_eq!(parse_state("on").unwrap(), OutputState::On);
    assert_eq!(parse_state("oN").unwrap(), OutputState::On);
    assert_eq!(parse_state("OFF").unwrap(), OutputState::Off);
    assert_eq!(parse_state("off").unwrap(), OutputState::Off);
    assert_eq!(parse_state("oFf").unwrap(), OutputState::Off);
    assert_eq!(parse_state("").unwrap_err(), Error::InvalidState);
    assert_eq!(parse_state("onn").unwrap_err(), Error::InvalidState);
    assert_eq!(parse_state("o").unwrap_err(), Error::InvalidState);
}

#[test]
fn aht20_status_decodes_flags() {
    let status = AHT20Status::new(&[0b1000_1000]).unwrap();
    assert!(status.is_calibrated);
    assert!(status.is_busy);

    let status = AHT20Status::new(&[0b0000_1000]).unwrap();
    assert!(status.is_calibrated);
    assert!(!status.is_busy);

    let status = AHT20Status::new(&[0b0000_0000]).unwrap();
    assert!(!status.is_calibrated);
    assert!(!status.is_busy);
}

#[test]
fn mock_stubs_report_not_supported() {
    let gpio = MockGPIO::new();
    assert!(gpio.output(&PinNumber::new(4).unwrap()).is_ok());
    assert!(gpio.input(&PinNumber::new(4).unwrap()).is_ok());

    let mut input = MockInputPin::new();
    assert_eq!(input.set_interrupt().unwrap_err(), Error::NotSupported);
    assert_eq!(input.clear_interrupt().unwrap_err(), Error::NotSupported);
    assert!(input.poll_interrupt(None).is_err());

    let mut i2c = MockI2C::new();
    assert_eq!(i2c.set_slave_address(0x38).unwrap_err(), Error::NotSupported);
    assert_eq!(i2c.write(&[]).unwrap_err(), Error::NotSupported);
    assert_eq!(i2c.read(&mut []).unwrap_err(), Error::NotSupported);
    assert_eq!(i2c.block_write(0, &[]).unwrap_err(), Error::NotSupported);
    assert_eq!(i2c.write_read(&[], &mut []).unwrap_err(), Error::NotSupported);
}

#[test]
fn mock_output_pin_remembers_writes() {
    let mut pin = MockOutputPin::new(PinNumber::new(4).unwrap());
    assert_eq!(pin.state(), OutputPinState::High);
    pin.set_low();
    assert_eq!(pin.state(), OutputPinState::Low);
    pin.set_high();
    assert_eq!(pin.state(), OutputPinState::High);
}
