//! What can go wrong: while a token stream is parsed, and while a value is
//! read back.
use crate::arg::Type;
use vstd::prelude::*;
use vstd::string::*;

verus! {

/// Why a parse did not succeed.
#[derive(Debug)]
pub enum ParseError {
    /// A token asked for the usage text. This is no failure to report: the
    /// message is empty, and the caller shows the usage text and stops.
    HelpRequested,
    /// The token that followed a flag could not be converted to the kind
    /// the argument was declared with.
    ConversionError { token: String, name: String, kind: Type, reason: String },
    /// A required argument without a default was not given.
    MissingRequired { name: String },
    /// An argument that takes a value was given without one, and has no
    /// default.
    MissingValue { name: String },
    /// The default of an argument is not of the kind the argument was
    /// declared with.
    DefaultTypeMismatch { name: String },
    /// A default was to be accepted for an argument that takes no value.
    MissingValueKind { name: String },
}

/// The mathematical model of a [`ParseError`].
pub enum ParseFailure {
    HelpRequested,
    ConversionError { token: Seq<char>, name: Seq<char>, kind: Type, reason: Seq<char> },
    MissingRequired { name: Seq<char> },
    MissingValue { name: Seq<char> },
    DefaultTypeMismatch { name: Seq<char> },
    MissingValueKind { name: Seq<char> },
}

impl ParseFailure {
    /// The message of the failure; empty where the usage text was asked
    /// for.
    pub open spec fn message(self) -> Seq<char> {
        match self {
            ParseFailure::HelpRequested => Seq::empty(),
            ParseFailure::ConversionError { token, name, kind, reason } => "Argument value "@
                + token + " for "@ + name + " must be "@ + kind.label_text() + ": "@ + reason,
            ParseFailure::MissingRequired { name } => "Argument --"@ + name + " is required !"@,
            ParseFailure::MissingValue { name } => "Argument --"@ + name + " needs a value !"@,
            ParseFailure::DefaultTypeMismatch { name } => "Error downcasting argument "@ + name,
            ParseFailure::MissingValueKind { name } => "Argument "@ + name + " must have a value"@,
        }
    }

    /// Whether the message is followed by the usage text when the failure
    /// is explained to the user.
    pub open spec fn shows_usage(self) -> bool {
        self is MissingRequired || self is MissingValue
    }
}

impl View for ParseError {
    type V = ParseFailure;

    open spec fn view(&self) -> ParseFailure {
        match self {
            ParseError::HelpRequested => ParseFailure::HelpRequested,
            ParseError::ConversionError { token, name, kind, reason } => {
                ParseFailure::ConversionError {
                    token: token@,
                    name: name@,
                    kind: *kind,
                    reason: reason@,
                }
            },
            ParseError::MissingRequired { name } => ParseFailure::MissingRequired { name: name@ },
            ParseError::MissingValue { name } => ParseFailure::MissingValue { name: name@ },
            ParseError::DefaultTypeMismatch { name } => ParseFailure::DefaultTypeMismatch {
                name: name@,
            },
            ParseError::MissingValueKind { name } => ParseFailure::MissingValueKind { name: name@ },
        }
    }
}

impl ParseError {
    /// The message of the error; empty where the usage text was asked for.
    pub fn message(&self) -> (r: String)
        ensures
            r@ == self@.message(),
    {
        match self {
            ParseError::HelpRequested => String::new(),
            ParseError::ConversionError { token, name, kind, reason } => {
                let mut r = String::from_str("Argument value ");
                r.append(token.as_str());
                r.append(" for ");
                r.append(name.as_str());
                r.append(" must be ");
                r.append(kind.label());
                r.append(": ");
                r.append(reason.as_str());
                r
            },
            ParseError::MissingRequired { name } => {
                let mut r = String::from_str("Argument --");
                r.append(name.as_str());
                r.append(" is required !");
                r
            },
            ParseError::MissingValue { name } => {
                let mut r = String::from_str("Argument --");
                r.append(name.as_str());
                r.append(" needs a value !");
                r
            },
            ParseError::DefaultTypeMismatch { name } => {
                let mut r = String::from_str("Error downcasting argument ");
                r.append(name.as_str());
                r
            },
            ParseError::MissingValueKind { name } => {
                let mut r = String::from_str("Argument ");
                r.append(name.as_str());
                r.append(" must have a value");
                r
            },
        }
    }

    /// Whether the error is the request for the usage text.
    pub fn is_help_request(&self) -> (r: bool)
        ensures
            r == (self@ is HelpRequested),
    {
        match self {
            ParseError::HelpRequested => true,
            _ => false,
        }
    }
}

/// Why a value could not be read back.
#[derive(Clone, Copy, PartialEq, Eq, Structural, Debug)]
pub enum GetError {
    /// No argument of that name is registered.
    UnknownArgument,
    /// The argument is a flag that takes no value.
    NotValueTaking,
    /// The type asked for is not the kind the argument was declared with.
    TypeMismatch,
    /// The argument has neither a value nor a default.
    NoValueNoDefault,
    /// The value held is not of the declared kind.
    InternalCastError,
}

impl GetError {
    /// The message of the error, for the argument that was asked for.
    pub open spec fn message_text(self, name: Seq<char>) -> Seq<char> {
        match self {
            GetError::UnknownArgument => "Argument \""@ + name + "\" does not exists !"@,
            GetError::NotValueTaking => "Argument "@ + name + " does not take a value !"@,
            GetError::TypeMismatch => "The requested type for \""@ + name
                + "\" does not match the reading type !"@,
            GetError::NoValueNoDefault => "\""@ + name + "\" has no value nor default value !"@,
            GetError::InternalCastError => "Error downcasting argument "@ + name,
        }
    }

    /// The message of the error, for the argument that was asked for.
    pub fn message(&self, arg_name: &str) -> (r: String)
        ensures
            r@ == self.message_text(arg_name@),
    {
        match self {
            GetError::UnknownArgument => {
                let mut r = String::from_str("Argument \"");
                r.append(arg_name);
                r.append("\" does not exists !");
                r
            },
            GetError::NotValueTaking => {
                let mut r = String::from_str("Argument ");
                r.append(arg_name);
                r.append(" does not take a value !");
                r
            },
            GetError::TypeMismatch => {
                let mut r = String::from_str("The requested type for \"");
                r.append(arg_name);
                r.append("\" does not match the reading type !");
                r
            },
            GetError::NoValueNoDefault => {
                let mut r = String::from_str("\"");
                r.append(arg_name);
                r.append("\" has no value nor default value !");
                r
            },
            GetError::InternalCastError => {
                let mut r = String::from_str("Error downcasting argument ");
                r.append(arg_name);
                r
            },
        }
    }
}

} // verus!
