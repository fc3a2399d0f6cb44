use rtc::cli::{Args, Operation, UsageError};

fn args() -> Args {
    Args {
        random_colours: false,
        backup: false,
        load: false,
        get_colours: false,
        shuffle: false,
        name: None,
        exception_keys: None,
        force_keys: None,
        set_colour: false,
        hex_values: None,
    }
}

fn some(s: &str) -> Option<String> {
    Some(s.to_string())
}

#[test]
fn one_switch_chooses_its_operation() {
    assert_eq!(args().operation(), Ok(Operation::Nothing));
    assert_eq!(Args { random_colours: true, ..args() }.operation(), Ok(Operation::Random));
    assert_eq!(Args { backup: true, name: some("x"), ..args() }.operation(), Ok(Operation::Backup));
    assert_eq!(Args { load: true, ..args() }.operation(), Ok(Operation::Load));
    assert_eq!(Args { get_colours: true, ..args() }.operation(), Ok(Operation::GetColours));
    assert_eq!(Args { shuffle: true, exception_keys: some("bg"), ..args() }.operation(), Ok(Operation::Shuffle));
    assert_eq!(
        Args { set_colour: true, force_keys: some("bg"), hex_values: some("000000"), ..args() }.operation(),
        Ok(Operation::SetColour)
    );
}

#[test]
fn two_switches_are_refused() {
    assert_eq!(Args { random_colours: true, shuffle: true, ..args() }.operation(), Err(UsageError::SeveralOperations));
    assert_eq!(
        Args { backup: true, load: true, get_colours: true, exception_keys: some("bg"), force_keys: some("fg"), ..args() }.operation(),
        Err(UsageError::SeveralOperations)
    );
}

#[test]
fn forced_and_excepted_keys_together_are_refused() {
    assert_eq!(
        Args { random_colours: true, exception_keys: some("bg"), force_keys: some("(fg)"), ..args() }.operation(),
        Err(UsageError::ExceptionWithForce)
    );
    assert_eq!(
        Args { random_colours: true, exception_keys: some("nokey"), force_keys: some("fg"), ..args() }.operation(),
        Ok(Operation::Random)
    );
}

#[test]
fn keys_without_a_change_are_refused() {
    assert_eq!(Args { backup: true, force_keys: some("fg"), ..args() }.operation(), Err(UsageError::KeysWithoutChange));
    assert_eq!(Args { exception_keys: some("c1"), ..args() }.operation(), Err(UsageError::KeysWithoutChange));
    assert_eq!(Args { get_colours: true, exception_keys: some(" , "), ..args() }.operation(), Ok(Operation::GetColours));
}

#[test]
fn setting_colours_needs_keys_and_colours() {
    assert_eq!(Args { set_colour: true, ..args() }.operation(), Err(UsageError::SetColourIncomplete));
    assert_eq!(
        Args { set_colour: true, force_keys: some("fg"), ..args() }.operation(),
        Err(UsageError::SetColourIncomplete)
    );
    assert_eq!(
        Args { set_colour: true, hex_values: some("000000"), ..args() }.operation(),
        Err(UsageError::SetColourIncomplete)
    );
}
