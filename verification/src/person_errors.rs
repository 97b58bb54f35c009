//! The closed set of roster-operation error kinds and their user-facing
//! messages.

use vstd::prelude::*;

verus! {

/// One kind for each way a roster operation can fail. The surrounding
/// application reports each kind through the message string that
/// [`create_myerror_message`] assigns to it.
#[derive(Debug)]
pub enum MyError {
    PersonNotFound,
    ConnectionTimeout,
    PersonsFetchFailure,
    PersonUpdateFailure,
    PersonCreationFailure,
    PersonDeleteFailure,
}

/// The message that belongs to each error kind.
pub open spec fn spec_myerror_message(e: MyError) -> Seq<char> {
    match e {
        MyError::PersonNotFound => "member not found"@,
        MyError::ConnectionTimeout => "connection timeout"@,
        MyError::PersonsFetchFailure => "failed to fetch members"@,
        MyError::PersonUpdateFailure => "failed to update member"@,
        MyError::PersonCreationFailure => "failed to create member"@,
        MyError::PersonDeleteFailure => "failed to delete member"@,
    }
}

/// Turns an error kind into its user-facing message string.
pub fn create_myerror_message(person_error: MyError) -> (message: String)
    ensures
        message@ == spec_myerror_message(person_error),
{
    match person_error {
        MyError::PersonNotFound => "member not found".to_owned(),
        MyError::ConnectionTimeout => "connection timeout".to_owned(),
        MyError::PersonsFetchFailure => "failed to fetch members".to_owned(),
        MyError::PersonUpdateFailure => "failed to update member".to_owned(),
        MyError::PersonCreationFailure => "failed to create member".to_owned(),
        MyError::PersonDeleteFailure => "failed to delete member".to_owned(),
    }
}

} // verus!
