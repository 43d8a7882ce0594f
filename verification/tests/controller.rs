use vivarium_assistant::adapters::{CurrentTimeProvider, MockGPIO, MockOutputPin};
use vivarium_assistant::concurrent::SafeController;
use vivarium_assistant::domain::PinNumber;
use vivarium_assistant::errors::Error;
use vivarium_assistant::outputs::{
    ControlledOutput, Controller, OutputDefinition, OutputDefinitions, OutputName, OutputState,
    Override, ScheduledActivation, ScheduledActivations, TimeOfDay,
};

type Result<T> = std::result::Result<T, Error>;

fn new_time(hour: u32, min: u32, sec: u32) -> TimeOfDay {
    TimeOfDay::from_hms_opt(hour, min, sec).expect("from_hms_opt")
}

#[test]
fn test_target_state() -> Result<()> {
    let test_cases: Vec<(&str, Vec<ScheduledActivation>, Vec<Override>, OutputState)> = vec![
        ("empty", vec![], vec![], OutputState::Off),
        (
            "no_override",
            vec![ScheduledActivation::new(new_time(11, 59, 55), 10)?],
            vec![],
            OutputState::On,
        ),
        (
            "override_off",
            vec![ScheduledActivation::new(new_time(11, 59, 55), 10)?],
            vec![Override::new(
                OutputState::Off,
                ScheduledActivation::new(new_time(11, 59, 55), 10)?,
            )],
            OutputState::Off,
        ),
        (
            "override_on",
            vec![ScheduledActivation::new(new_time(18, 00, 00), 10)?],
            vec![Override::new(
                OutputState::On,
                ScheduledActivation::new(new_time(11, 59, 55), 10)?,
            )],
            OutputState::On,
        ),
    ];

    let time = new_time(12, 00, 00);
    for (name, activations, overrides, expected_state) in &test_cases {
        println!("test case: {}", name);

        let pin_number = PinNumber::new(1)?;
        let activations = ScheduledActivations::new(activations)?;
        let definition = OutputDefinition::new(OutputName::new("output")?, pin_number, activations);
        let mut output = ControlledOutput {
            definition,
            pin: MockOutputPin::new(pin_number),
            overrides: overrides.clone(),
        };

        let result = output.target_state(&time);
        assert_eq!(result, *expected_state);
    }

    Ok(())
}

#[test]
fn test_cleanup_overrides() -> Result<()> {
    let test_cases: Vec<(&str, Vec<Override>, Vec<Override>)> = vec![
        (
            "future_override",
            vec![Override {
                state: OutputState::On,
                activation: ScheduledActivation::new(new_time(18, 00, 00), 10)?,
                was_triggered: false,
            }],
            vec![Override {
                state: OutputState::On,
                activation: ScheduledActivation::new(new_time(18, 00, 00), 10)?,
                was_triggered: false,
            }],
        ),
        (
            "past_override",
            vec![
                Override {
                    state: OutputState::On,
                    activation: ScheduledActivation::new(new_time(18, 00, 00), 10)?,
                    was_triggered: false,
                },
                Override {
                    state: OutputState::On,
                    activation: ScheduledActivation::new(new_time(6, 00, 00), 10)?,
                    was_triggered: true,
                },
            ],
            vec![Override {
                state: OutputState::On,
                activation: ScheduledActivation::new(new_time(18, 00, 00), 10)?,
                was_triggered: false,
            }],
        ),
        (
            "current_override",
            vec![
                Override {
                    state: OutputState::On,
                    activation: ScheduledActivation::new(new_time(18, 00, 00), 10)?,
                    was_triggered: false,
                },
                Override {
                    state: OutputState::On,
                    activation: ScheduledActivation::new(new_time(11, 59, 55), 10)?,
                    was_triggered: true,
                },
            ],
            vec![
                Override {
                    state: OutputState::On,
                    activation: ScheduledActivation::new(new_time(18, 00, 00), 10)?,
                    was_triggered: false,
                },
                Override {
                    state: OutputState::On,
                    activation: ScheduledActivation::new(new_time(11, 59, 55), 10)?,
                    was_triggered: true,
                },
            ],
        ),
    ];

    let time = new_time(12, 00, 00);
    for (name, overrides, expected_overrides) in &test_cases {
        println!("test case: {}", name);

        let pin_number = PinNumber::new(1)?;
        let activations = ScheduledActivations::new(&[])?;
        let definition = OutputDefinition::new(OutputName::new("output")?, pin_number, activations);
        let mut output = ControlledOutput {
            definition,
            pin: MockOutputPin::new(pin_number),
            overrides: overrides.clone(),
        };

        output.cleanup_overrides(&time);
        assert_eq!(output.overrides, *expected_overrides);
    }

    Ok(())
}

fn single_output_controller(
    windows: &[ScheduledActivation],
) -> Result<Controller<MockOutputPin, CurrentTimeProvider>> {
    let definition = OutputDefinition::new(
        OutputName::new("lamp")?,
        PinNumber::new(17)?,
        ScheduledActivations::new(windows)?,
    );
    let definitions = OutputDefinitions::new(&[definition])?;
    Controller::new(&definitions, MockGPIO::new(), CurrentTimeProvider::new())
}

fn state_of(controller: &Controller<MockOutputPin, CurrentTimeProvider>, name: &str) -> OutputState {
    for entry in controller.status() {
        if entry.name.name() == name {
            return entry.state;
        }
    }
    panic!("no output named {}", name);
}

#[test]
fn base_schedule_drives_output() -> Result<()> {
    let mut controller =
        single_output_controller(&[ScheduledActivation::new(new_time(12, 0, 0), 10)?])?;

    controller.update_outputs_for_time(new_time(12, 0, 5));
    assert_eq!(state_of(&controller, "lamp"), OutputState::On);

    controller.update_outputs_for_time(new_time(18, 0, 0));
    assert_eq!(state_of(&controller, "lamp"), OutputState::Off);

    Ok(())
}

#[test]
fn override_preempts_base_schedule() -> Result<()> {
    let mut controller =
        single_output_controller(&[ScheduledActivation::new(new_time(12, 0, 0), 10)?])?;
    controller.add_override(
        OutputName::new("lamp")?,
        OutputState::Off,
        ScheduledActivation::new(new_time(11, 59, 55), 10)?,
    )?;

    controller.update_outputs_for_time(new_time(12, 0, 0));
    assert_eq!(state_of(&controller, "lamp"), OutputState::Off);

    Ok(())
}

#[test]
fn triggered_expired_override_is_removed() -> Result<()> {
    let mut controller = single_output_controller(&[])?;
    controller.add_override(
        OutputName::new("lamp")?,
        OutputState::On,
        ScheduledActivation::new(new_time(11, 59, 55), 10)?,
    )?;

    // The override matches and triggers: the output goes on.
    controller.update_outputs_for_time(new_time(12, 0, 0));
    assert_eq!(state_of(&controller, "lamp"), OutputState::On);

    // Past the window the override no longer matches, and having triggered
    // it is garbage-collected by this tick.
    controller.update_outputs_for_time(new_time(12, 0, 30));
    assert_eq!(state_of(&controller, "lamp"), OutputState::Off);

    // The windows recur daily, so were the override still held, this tick
    // inside the window would turn the output back on. It stays off.
    controller.update_outputs_for_time(new_time(11, 59, 58));
    assert_eq!(state_of(&controller, "lamp"), OutputState::Off);

    Ok(())
}

#[test]
fn future_override_is_retained() -> Result<()> {
    let mut controller = single_output_controller(&[])?;
    controller.add_override(
        OutputName::new("lamp")?,
        OutputState::On,
        ScheduledActivation::new(new_time(18, 0, 0), 10)?,
    )?;

    // The override has not matched yet; the tick must not drop it.
    controller.update_outputs_for_time(new_time(12, 0, 0));
    assert_eq!(state_of(&controller, "lamp"), OutputState::Off);

    // Once its window arrives it still takes effect.
    controller.update_outputs_for_time(new_time(18, 0, 5));
    assert_eq!(state_of(&controller, "lamp"), OutputState::On);

    Ok(())
}

#[test]
fn clear_overrides_removes_pending_override() -> Result<()> {
    let mut controller = single_output_controller(&[])?;
    controller.add_override(
        OutputName::new("lamp")?,
        OutputState::On,
        ScheduledActivation::new(new_time(12, 0, 0), 10)?,
    )?;
    controller.clear_overrides(OutputName::new("lamp")?)?;

    controller.update_outputs_for_time(new_time(12, 0, 5));
    assert_eq!(state_of(&controller, "lamp"), OutputState::Off);

    Ok(())
}

#[test]
fn fail_safe_drives_every_output_low() -> Result<()> {
    let definitions = OutputDefinitions::new(&[
        OutputDefinition::new(
            OutputName::new("lamp")?,
            PinNumber::new(17)?,
            ScheduledActivations::new(&[ScheduledActivation::new(new_time(0, 0, 0), 86400)?])?,
        ),
        OutputDefinition::new(
            OutputName::new("pump")?,
            PinNumber::new(18)?,
            ScheduledActivations::new(&[])?,
        ),
    ])?;
    let mut controller =
        Controller::new(&definitions, MockGPIO::new(), CurrentTimeProvider::new())?;
    controller.add_override(
        OutputName::new("pump")?,
        OutputState::On,
        ScheduledActivation::new(new_time(11, 59, 55), 60)?,
    )?;

    // Both outputs are on: one through its schedule, one through an override.
    controller.update_outputs_for_time(new_time(12, 0, 0));
    assert_eq!(state_of(&controller, "lamp"), OutputState::On);
    assert_eq!(state_of(&controller, "pump"), OutputState::On);

    controller.fail_safe();
    assert_eq!(state_of(&controller, "lamp"), OutputState::Off);
    assert_eq!(state_of(&controller, "pump"), OutputState::Off);

    Ok(())
}

#[test]
fn unknown_output_is_rejected_and_others_untouched() -> Result<()> {
    let mut controller = single_output_controller(&[])?;
    controller.add_override(
        OutputName::new("lamp")?,
        OutputState::On,
        ScheduledActivation::new(new_time(11, 59, 55), 60)?,
    )?;

    assert_eq!(
        controller
            .add_override(
                OutputName::new("heater")?,
                OutputState::On,
                ScheduledActivation::new(new_time(11, 59, 55), 60)?,
            )
            .unwrap_err(),
        Error::UnknownOutput
    );
    assert_eq!(
        controller.clear_overrides(OutputName::new("heater")?).unwrap_err(),
        Error::UnknownOutput
    );

    // The failed calls left the lamp's override in place.
    controller.update_outputs_for_time(new_time(12, 0, 0));
    assert_eq!(state_of(&controller, "lamp"), OutputState::On);

    Ok(())
}

#[test]
fn safe_controller_guards_one_controller() -> Result<()> {
    let controller = single_output_controller(&[])?;
    let shared = SafeController::new(controller);

    shared.add_override(
        OutputName::new("lamp")?,
        OutputState::On,
        ScheduledActivation::new(new_time(0, 0, 0), 86400)?,
    )?;
    assert_eq!(
        shared
            .add_override(
                OutputName::new("heater")?,
                OutputState::On,
                ScheduledActivation::new(new_time(0, 0, 0), 60)?,
            )
            .unwrap_err(),
        Error::UnknownOutput
    );

    // The full-day override matches whatever the wall clock says.
    shared.update_outputs();
    let status = shared.status();
    assert_eq!(status.len(), 1);
    assert_eq!(status[0].name.name(), "lamp");
    assert_eq!(status[0].state, OutputState::On);

    shared.fail_safe();
    let status = shared.status();
    assert_eq!(status[0].state, OutputState::Off);

    shared.clear_overrides(OutputName::new("lamp")?)?;
    assert_eq!(
        shared.clear_overrides(OutputName::new("heater")?).unwrap_err(),
        Error::UnknownOutput
    );

    Ok(())
}

#[test]
fn repeated_ticks_are_idempotent() -> Result<()> {
    let mut controller =
        single_output_controller(&[ScheduledActivation::new(new_time(12, 0, 0), 10)?])?;
    controller.add_override(
        OutputName::new("lamp")?,
        OutputState::Off,
        ScheduledActivation::new(new_time(12, 0, 0), 5)?,
    )?;

    controller.update_outputs_for_time(new_time(12, 0, 3));
    assert_eq!(state_of(&controller, "lamp"), OutputState::Off);
    controller.update_outputs_for_time(new_time(12, 0, 3));
    assert_eq!(state_of(&controller, "lamp"), OutputState::Off);

    controller.update_outputs_for_time(new_time(12, 0, 8));
    assert_eq!(state_of(&controller, "lamp"), OutputState::On);
    controller.update_outputs_for_time(new_time(12, 0, 8));
    assert_eq!(state_of(&controller, "lamp"), OutputState::On);

    Ok(())
}
