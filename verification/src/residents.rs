//! Error reporting of the resident-management collaborator.

use vstd::prelude::*;

verus! {

/// A reported resident-management failure, as the message shown to the
/// caller.
#[derive(Debug)]
pub struct ResidentsError(pub String);

/// What went wrong in the resident-management collaborator.
pub enum ErrorType {
    Delete,
    Store,
    Update,
    NotFound,
    Validation,
    Database,
    Custom(String),
}

/// The message `ResidentsError::get` reports for each failure.
pub open spec fn error_message(e: ErrorType) -> Seq<char> {
    match e {
        ErrorType::Delete => "Unable to delete Resident from database"@,
        ErrorType::Store => "Unable to create Resident in database"@,
        ErrorType::Update => "Unable to update Resident in database"@,
        ErrorType::NotFound => "No Resident found with id"@,
        ErrorType::Database => "An error occurred with your query, please check your inputs"@,
        ErrorType::Validation => "A validation error occured on the input"@,
        ErrorType::Custom(m) => "An error occurred: "@ + m@,
    }
}

/// Relies on String::push_str: appends exactly the given slice.
#[verifier::external_body]
pub(crate) fn push_str(s: &mut String, t: &str)
    ensures
        final(s)@ == old(s)@ + t@,
{
    s.push_str(t)
}

impl ResidentsError {
    /// Wraps the message.
    pub fn new(message: String) -> (r: ResidentsError)
        ensures
            r.0@ == message@,
    {
        ResidentsError(message)
    }

    /// The error reporting the failure, with the message
    /// `error_message` gives it.
    pub fn get(e: ErrorType) -> (r: ResidentsError)
        ensures
            r.0@ == error_message(e),
    {
        match e {
            ErrorType::Delete => Self::new("Unable to delete Resident from database".to_owned()),
            ErrorType::Store => Self::new("Unable to create Resident in database".to_owned()),
            ErrorType::Update => Self::new("Unable to update Resident in database".to_owned()),
            ErrorType::NotFound => Self::new("No Resident found with id".to_owned()),
            ErrorType::Database => Self::new(
                "An error occurred with your query, please check your inputs".to_owned(),
            ),
            ErrorType::Validation => Self::new(
                "A validation error occured on the input".to_owned(),
            ),
            ErrorType::Custom(message) => {
                let mut s = "An error occurred: ".to_owned();
                push_str(&mut s, message.as_str());
                Self::new(s)
            },
        }
    }
}

/// A scan tag identifier, as the scanning collaborator posts it.
#[derive(Debug, Clone)]
pub struct Rfid {
    pub rfid: String,
}

} // verus!
