//! The errors of the engine, each carrying the data that identifies its cause.
use vstd::prelude::*;
use crate::text::{decimal, push_decimal};

verus! {

/// Errors raised while declaring commands and while dispatching lines.
#[derive(Debug, PartialEq, Eq)]
pub enum Error {
    /// The named parameter may not be required where it stands.
    IllegalRequiredError(String),
    /// The named parameter may not have a default, being required.
    IllegalDefaultError(String),
    /// The command (first) was called without its required argument (second).
    MissingRequiredArgument(String, String),
    /// The command was given more arguments than the count it declares.
    TooManyArguments(String, usize),
    /// A failure reported by an application callback or a conversion.
    CommandError(String),
    /// No command of that name is registered.
    UnknownCommand(String),
}

/// Result type of the engine.
pub type Result<T> = std::result::Result<T, Error>;

/// The content of an [`Error`], with text as character sequences.
pub enum ErrorView {
    IllegalRequired(Seq<char>),
    IllegalDefault(Seq<char>),
    MissingRequiredArgument(Seq<char>, Seq<char>),
    TooManyArguments(Seq<char>, nat),
    Command(Seq<char>),
    UnknownCommand(Seq<char>),
}

impl View for Error {
    type V = ErrorView;

    open spec fn view(&self) -> ErrorView {
        match self {
            Error::IllegalRequiredError(p) => ErrorView::IllegalRequired(p@),
            Error::IllegalDefaultError(p) => ErrorView::IllegalDefault(p@),
            Error::MissingRequiredArgument(c, p) => ErrorView::MissingRequiredArgument(c@, p@),
            Error::TooManyArguments(c, n) => ErrorView::TooManyArguments(c@, *n as nat),
            Error::CommandError(m) => ErrorView::Command(m@),
            Error::UnknownCommand(c) => ErrorView::UnknownCommand(c@),
        }
    }
}

/// The text shown to a user for an error.
pub open spec fn error_message(e: ErrorView) -> Seq<char> {
    match e {
        ErrorView::IllegalDefault(p) => "Error: Parameter '"@ + p + "' cannot have a default"@,
        ErrorView::IllegalRequired(p) => "Error: Parameter '"@ + p + "' cannot be required"@,
        ErrorView::MissingRequiredArgument(c, p) => "Error: Missing required argument '"@ + p
            + "' for command '"@ + c + "'"@,
        ErrorView::TooManyArguments(c, n) => "Error: Command '"@ + c
            + "' can have no more than "@ + decimal(n) + " arguments"@,
        ErrorView::Command(m) => "Error: "@ + m,
        ErrorView::UnknownCommand(c) => "Error: Unknown command '"@ + c + "'"@,
    }
}

impl Error {
    /// The text shown to a user for this error.
    pub fn message(&self) -> (r: String)
        ensures
            r@ == error_message(self@),
    {
        match self {
            Error::IllegalDefaultError(p) => {
                let mut s = String::from_str("Error: Parameter '");
                s.append(p.as_str());
                s.append("' cannot have a default");
                s
            },
            Error::IllegalRequiredError(p) => {
                let mut s = String::from_str("Error: Parameter '");
                s.append(p.as_str());
                s.append("' cannot be required");
                s
            },
            Error::MissingRequiredArgument(c, p) => {
                let mut s = String::from_str("Error: Missing required argument '");
                s.append(p.as_str());
                s.append("' for command '");
                s.append(c.as_str());
                s.append("'");
                s
            },
            Error::TooManyArguments(c, n) => {
                let mut s = String::from_str("Error: Command '");
                s.append(c.as_str());
                s.append("' can have no more than ");
                push_decimal(&mut s, *n);
                s.append(" arguments");
                s
            },
            Error::CommandError(m) => {
                let mut s = String::from_str("Error: ");
                s.append(m.as_str());
                s
            },
            Error::UnknownCommand(c) => {
                let mut s = String::from_str("Error: Unknown command '");
                s.append(c.as_str());
                s.append("'");
                s
            },
        }
    }
}

} // verus!
