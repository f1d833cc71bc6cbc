//! The error vocabulary shared by the fallible operations of this crate.

use vstd::prelude::*;
use vstd::string::StringExecFns;

verus! {

/// What went wrong, independently of the operation that reports it.
#[derive(Debug, Clone, Copy, PartialEq, Eq, Structural)]
pub enum ErrorType {
    /// A function received invalid parameters.
    InvalidParameter,
    /// A resource was not found.
    NotFound,
    /// A resource existed once and has expired.
    Expired,
    /// A type-erased value was requested under a type it does not have.
    NotCompatible,
    /// None of the other kinds fits.
    UnexpectedError,
}

impl ErrorType {
    /// The name of the kind: the identifier of the variant.
    pub open spec fn name_text(self) -> Seq<char> {
        match self {
            ErrorType::InvalidParameter => "InvalidParameter"@,
            ErrorType::NotFound => "NotFound"@,
            ErrorType::Expired => "Expired"@,
            ErrorType::NotCompatible => "NotCompatible"@,
            ErrorType::UnexpectedError => "UnexpectedError"@,
        }
    }

    /// The name of the kind: the identifier of the variant.
    pub fn name(self) -> (text: &'static str)
        ensures
            text@ == self.name_text(),
    {
        match self {
            ErrorType::InvalidParameter => "InvalidParameter",
            ErrorType::NotFound => "NotFound",
            ErrorType::Expired => "Expired",
            ErrorType::NotCompatible => "NotCompatible",
            ErrorType::UnexpectedError => "UnexpectedError",
        }
    }
}

/// An error kind together with a description meant for people.
#[derive(Debug)]
pub struct Error {
    error_type: ErrorType,
    error_desc: String,
}

impl Error {
    /// The kind of this error.
    pub closed spec fn kind(&self) -> ErrorType {
        self.error_type
    }

    /// The description carried by this error.
    pub closed spec fn desc(&self) -> Seq<char> {
        self.error_desc@
    }

    /// An error of the given kind with the given description.
    pub fn new(error_type: ErrorType, error_desc: &str) -> (e: Self)
        ensures
            e.kind() == error_type,
            e.desc() == error_desc@,
    {
        Self { error_type, error_desc: String::from_str(error_desc) }
    }

    /// The text that stands for this error in messages: the name of its
    /// kind, a comma and a space, and its description.
    pub open spec fn message_text(&self) -> Seq<char> {
        self.kind().name_text() + ", "@ + self.desc()
    }

    /// The text that stands for this error in messages.
    pub fn message(&self) -> (text: String)
        ensures
            text@ == self.message_text(),
    {
        let mut text = String::from_str(self.error_type.name());
        text.append(", ");
        text.append(self.error_desc.as_str());
        text
    }

    /// The kind of this error.
    pub fn error_type(&self) -> (t: ErrorType)
        ensures
            t == self.kind(),
    {
        self.error_type
    }

    /// The description carried by this error.
    pub fn error_desc(&self) -> (d: &str)
        ensures
            d@ == self.desc(),
    {
        self.error_desc.as_str()
    }
}

} // verus!
