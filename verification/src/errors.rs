//! The calculator's errors and the messages shown for them.
use vstd::prelude::*;

use crate::text::push_text;

verus! {

broadcast use vstd::string::group_string_axioms;

/// An error of the calculator. File and JSON errors carry the message of the
/// underlying error.
#[derive(Clone, Debug)]
pub enum SteelCalError {
    Validation(String),
    Lookup(String),
    Config(String),
    Data(String),
    Io(String),
    Json(String),
}

/// The message shown to a user for an error.
pub open spec fn user_text(e: SteelCalError) -> Seq<char> {
    match e {
        SteelCalError::Validation(m) => m@,
        SteelCalError::Lookup(m) => m@,
        SteelCalError::Config(m) => "Configuration error: "@ + m@,
        SteelCalError::Data(m) => "Data error: "@ + m@,
        SteelCalError::Io(m) => "File error: "@ + m@,
        SteelCalError::Json(m) => "Invalid data format: "@ + m@,
    }
}

fn prefixed(prefix: &str, message: &String) -> (r: String)
    ensures
        r@ == prefix@ + message@,
{
    let mut r = String::from_str(prefix);
    push_text(&mut r, message.as_str());
    r
}

impl SteelCalError {
    pub fn validation(message: String) -> (r: SteelCalError)
        ensures
            r == SteelCalError::Validation(message),
    {
        SteelCalError::Validation(message)
    }

    pub fn lookup(message: String) -> (r: SteelCalError)
        ensures
            r == SteelCalError::Lookup(message),
    {
        SteelCalError::Lookup(message)
    }

    pub fn config(message: String) -> (r: SteelCalError)
        ensures
            r == SteelCalError::Config(message),
    {
        SteelCalError::Config(message)
    }

    pub fn data(message: String) -> (r: SteelCalError)
        ensures
            r == SteelCalError::Data(message),
    {
        SteelCalError::Data(message)
    }

    /// The message for a user: validation and lookup messages as they are,
    /// the others behind a word on what went wrong.
    pub fn user_message(&self) -> (r: String)
        ensures
            r@ == user_text(*self),
    {
        match self {
            SteelCalError::Validation(m) => m.clone(),
            SteelCalError::Lookup(m) => m.clone(),
            SteelCalError::Config(m) => prefixed("Configuration error: ", m),
            SteelCalError::Data(m) => prefixed("Data error: ", m),
            SteelCalError::Io(m) => prefixed("File error: ", m),
            SteelCalError::Json(m) => prefixed("Invalid data format: ", m),
        }
    }
}

/// `Ok` when `condition` holds, else a data error with `message`.
pub fn ensure(condition: bool, message: &str) -> (r: Result<(), SteelCalError>)
    ensures
        condition ==> r is Ok,
        !condition ==> (r matches Err(SteelCalError::Data(m)) && m@ == message@),
{
    if condition {
        Ok(())
    } else {
        Err(SteelCalError::data(String::from_str(message)))
    }
}

} // verus!
