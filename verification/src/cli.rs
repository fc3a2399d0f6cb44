//! What the user asks for on the command line, and which operation that is.

use crate::select::{input_view, key_list_items, listed_keys, parse_color_keys_input};
use vstd::prelude::*;

verus! {

/// The switches and values of one call of the program.
#[derive(Clone, Debug)]
pub struct Args {
    /// Give random colours to the chosen keys.
    pub random_colours: bool,
    /// Save the palette of the configuration file.
    pub backup: bool,
    /// Bring a saved palette back into the configuration file.
    pub load: bool,
    /// Show the palette of the configuration file.
    pub get_colours: bool,
    /// Exchange the colours of the chosen keys among themselves.
    pub shuffle: bool,
    /// The name of the backup to save or to load.
    pub name: Option<String>,
    /// The keys to leave as they are.
    pub exception_keys: Option<String>,
    /// The only keys to change, or the keys to set.
    pub force_keys: Option<String>,
    /// Set the keys of `force_keys` to the colours of `hex_values`.
    pub set_colour: bool,
    /// The colours to set, one for each key.
    pub hex_values: Option<String>,
}

/// One of the operations of the program.
#[derive(Clone, Copy, Debug, PartialEq, Eq, Structural)]
pub enum Operation {
    /// Give random colours to the chosen keys.
    Random,
    /// Save the palette.
    Backup,
    /// Bring a saved palette back.
    Load,
    /// Show the palette.
    GetColours,
    /// Exchange the colours of the chosen keys.
    Shuffle,
    /// Set keys to colours that the user names.
    SetColour,
    /// No operation was asked for.
    Nothing,
}

/// A call of the program that asks for what cannot be done together.
#[derive(Clone, Copy, Debug, PartialEq, Eq, Structural)]
pub enum UsageError {
    /// More than one operation was asked for.
    SeveralOperations,
    /// Keys were forced and keys were excepted.
    ExceptionWithForce,
    /// Keys were forced or excepted for an operation that changes no keys.
    KeysWithoutChange,
    /// Colours are to be set, but the keys or the colours are not given.
    SetColourIncomplete,
}

/// 1 for a switch that is set, 0 for one that is not.
pub open spec fn count_of(switch: bool) -> int {
    if switch {
        1
    } else {
        0
    }
}

/// The number of operations that the switches ask for.
pub open spec fn operation_count(args: Args) -> int {
    count_of(args.random_colours) + count_of(args.backup) + count_of(args.load) + count_of(
        args.get_colours,
    ) + count_of(args.shuffle) + count_of(args.set_colour)
}

/// Whether a key list names at least one key.
pub open spec fn names_keys(input: Option<String>) -> bool {
    listed_keys(key_list_items(input_view(input))).len() > 0
}

/// The operation that a call asks for. At most one operation may be asked
/// for; keys may be forced or excepted, not both, and only for random
/// colours, a shuffle or the setting of colours; the setting of colours
/// needs the keys and the colours.
pub open spec fn chosen_operation(args: Args) -> Result<Operation, UsageError> {
    let excepts = names_keys(args.exception_keys);
    let forces = names_keys(args.force_keys);
    if operation_count(args) > 1 {
        Err(UsageError::SeveralOperations)
    } else if excepts && forces {
        Err(UsageError::ExceptionWithForce)
    } else if (excepts || forces) && !(args.random_colours || args.shuffle || args.set_colour) {
        Err(UsageError::KeysWithoutChange)
    } else if args.random_colours {
        Ok(Operation::Random)
    } else if args.backup {
        Ok(Operation::Backup)
    } else if args.load {
        Ok(Operation::Load)
    } else if args.get_colours {
        Ok(Operation::GetColours)
    } else if args.shuffle {
        Ok(Operation::Shuffle)
    } else if args.set_colour {
        if args.force_keys is Some && args.hex_values is Some {
            Ok(Operation::SetColour)
        } else {
            Err(UsageError::SetColourIncomplete)
        }
    } else {
        Ok(Operation::Nothing)
    }
}

impl Args {
    /// The operation that the call asks for, or what is wrong with the call.
    pub fn operation(&self) -> (r: Result<Operation, UsageError>)
        ensures
            r == chosen_operation(*self),
    {
        let mut count: u8 = 0;
        if self.random_colours {
            count += 1;
        }
        if self.backup {
            count += 1;
        }
        if self.load {
            count += 1;
        }
        if self.get_colours {
            count += 1;
        }
        if self.shuffle {
            count += 1;
        }
        if self.set_colour {
            count += 1;
        }
        if count > 1 {
            return Err(UsageError::SeveralOperations);
        }
        let excepts = parse_color_keys_input(&self.exception_keys).keys.len() > 0;
        let forces = parse_color_keys_input(&self.force_keys).keys.len() > 0;
        if excepts && forces {
            return Err(UsageError::ExceptionWithForce);
        }
        if (excepts || forces) && !(self.random_colours || self.shuffle || self.set_colour) {
            return Err(UsageError::KeysWithoutChange);
        }
        if self.random_colours {
            Ok(Operation::Random)
        } else if self.backup {
            Ok(Operation::Backup)
        } else if self.load {
            Ok(Operation::Load)
        } else if self.get_colours {
            Ok(Operation::GetColours)
        } else if self.shuffle {
            Ok(Operation::Shuffle)
        } else if self.set_colour {
            if self.force_keys.is_some() && self.hex_values.is_some() {
                Ok(Operation::SetColour)
            } else {
                Err(UsageError::SetColourIncomplete)
            }
        } else {
            Ok(Operation::Nothing)
        }
    }
}

} // verus!
