//! The ways in which an operation of the store can fail.

use vstd::prelude::*;
use vstd::string::StringExecFns;

verus! {

/// Why an operation of the store did not succeed.
///
/// A duplicate registration is no error: it is absorbed and shows as zero
/// affected rows.
#[derive(Clone, Debug, PartialEq, Eq)]
pub enum StoreError {
    /// No user is registered under the identifier that was asked for.
    NotFound,
    /// A stored account kind is none of the known literals. The text that was
    /// found is carried along.
    InvalidAccountType(String),
    /// The storage itself failed; here, the account sequence has no
    /// identifier left to hand out.
    EngineError,
}

/// What a `StoreError` means, with texts as sequences of characters.
pub enum StoreErrorView {
    NotFound,
    InvalidAccountType(Seq<char>),
    EngineError,
}

impl View for StoreError {
    type V = StoreErrorView;

    open spec fn view(&self) -> StoreErrorView {
        match self {
            StoreError::NotFound => StoreErrorView::NotFound,
            StoreError::InvalidAccountType(text) => StoreErrorView::InvalidAccountType(text@),
            StoreError::EngineError => StoreErrorView::EngineError,
        }
    }
}

/// The text that describes an error to a person.
pub open spec fn message_of(e: StoreErrorView) -> Seq<char> {
    match e {
        StoreErrorView::NotFound => "no such user"@,
        StoreErrorView::InvalidAccountType(text) => "invalid account type: "@ + text,
        StoreErrorView::EngineError => "storage engine failure"@,
    }
}

impl StoreError {
    /// Describes the error to a person.
    pub fn message(&self) -> (text: String)
        ensures
            text@ == message_of(self@),
    {
        match self {
            StoreError::NotFound => "no such user".to_owned(),
            StoreError::InvalidAccountType(found) => String::from_str(
                "invalid account type: ",
            ).concat(found.as_str()),
            StoreError::EngineError => "storage engine failure".to_owned(),
        }
    }
}

} // verus!
