//! What a request can be refused for.

use vstd::prelude::*;
use vstd::string::StringExecFns;

verus! {

/// The reasons for which a request fails.
#[derive(Debug, Clone)]
pub enum GameError {
    /// The session has not chosen a player name yet.
    NeedUsername,
    /// The catalog holds fewer than five images.
    NotEnoughImages,
    /// An answer came in while no question was waiting for one.
    NoPreviousAnswer,
    /// The name that was sent is empty.
    EmptyUsername,
    /// The record store could not be read; the text is the store's own.
    StoreUnavailable(String),
}

/// The families that the failures fall into.
#[derive(Debug, Clone, Copy, PartialEq, Eq, Structural)]
pub enum ErrorKind {
    Validation,
    Authorization,
    Resource,
    Store,
}

impl GameError {
    /// The family of this failure.
    pub open spec fn spec_kind(&self) -> ErrorKind {
        match self {
            GameError::NeedUsername => ErrorKind::Authorization,
            GameError::NotEnoughImages => ErrorKind::Resource,
            GameError::NoPreviousAnswer => ErrorKind::Validation,
            GameError::EmptyUsername => ErrorKind::Validation,
            GameError::StoreUnavailable(_) => ErrorKind::Store,
        }
    }

    /// The HTTP status under which this failure is reported.
    pub open spec fn spec_status(&self) -> u16 {
        match self {
            GameError::NeedUsername => 401,
            GameError::NotEnoughImages => 500,
            GameError::NoPreviousAnswer => 500,
            GameError::EmptyUsername => 400,
            GameError::StoreUnavailable(_) => 500,
        }
    }

    /// The text that tells a client what went wrong.
    pub open spec fn spec_reason(&self) -> Seq<char> {
        match self {
            GameError::NeedUsername => "need_username"@,
            GameError::NotEnoughImages => "Not enough images in the directory"@,
            GameError::NoPreviousAnswer => "Previous answer not found"@,
            GameError::EmptyUsername => "Username cannot be empty"@,
            GameError::StoreUnavailable(message) => message@,
        }
    }

    #[verifier::when_used_as_spec(spec_kind)]
    pub fn kind(&self) -> (kind: ErrorKind)
        ensures
            kind == self.spec_kind(),
    {
        match self {
            GameError::NeedUsername => ErrorKind::Authorization,
            GameError::NotEnoughImages => ErrorKind::Resource,
            GameError::NoPreviousAnswer => ErrorKind::Validation,
            GameError::EmptyUsername => ErrorKind::Validation,
            GameError::StoreUnavailable(_) => ErrorKind::Store,
        }
    }

    #[verifier::when_used_as_spec(spec_status)]
    pub fn status(&self) -> (code: u16)
        ensures
            code == self.spec_status(),
    {
        match self {
            GameError::NeedUsername => 401,
            GameError::NotEnoughImages => 500,
            GameError::NoPreviousAnswer => 500,
            GameError::EmptyUsername => 400,
            GameError::StoreUnavailable(_) => 500,
        }
    }

    pub fn reason(&self) -> (text: String)
        ensures
            text@ == self.spec_reason(),
    {
        match self {
            GameError::NeedUsername => String::from_str("need_username"),
            GameError::NotEnoughImages => String::from_str("Not enough images in the directory"),
            GameError::NoPreviousAnswer => String::from_str("Previous answer not found"),
            GameError::EmptyUsername => String::from_str("Username cannot be empty"),
            GameError::StoreUnavailable(message) => message.clone(),
        }
    }
}

} // verus!
