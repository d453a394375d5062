use vstd::prelude::*;
use crate::player::{decimal, push_decimal};

verus! {

/// Why custom skill data could not be loaded.
#[derive(Clone, Copy, Debug, PartialEq, Eq)]
pub enum LoadError {
    NotFound,
    FailedToRead,
    Invalid,
}

/// The status line shown for the custom skill data.
pub open spec fn spec_data_status(state: Result<usize, LoadError>) -> Seq<char> {
    match state {
        Ok(count) => "Loaded "@ + decimal(count as nat) + " entries"@,
        Err(LoadError::NotFound) => "Not found"@,
        Err(LoadError::FailedToRead) => "Failed to read file"@,
        Err(LoadError::Invalid) => "Failed to parse"@,
    }
}

/// The status line shown for the custom skill data: how many entries were
/// loaded, or why loading failed.
pub fn data_status(state: &Result<usize, LoadError>) -> (s: String)
    ensures
        s@ == spec_data_status(*state),
{
    match state {
        Ok(count) => {
            let mut s = String::from_str("Loaded ");
            push_decimal(&mut s, *count as u64);
            s.append(" entries");
            s
        },
        Err(LoadError::NotFound) => String::from_str("Not found"),
        Err(LoadError::FailedToRead) => String::from_str("Failed to read file"),
        Err(LoadError::Invalid) => String::from_str("Failed to parse"),
    }
}

/// The setting stored for a number typed into a settings field: a negative
/// number is stored as 0.
pub fn setting_from_input(input: i32) -> (v: usize)
    ensures
        v == if input < 0 {
            0
        } else {
            input as int
        },
{
    if input < 0 {
        0
    } else {
        input as usize
    }
}

} // verus!
