//! A declarative command-line argument engine.
//!
//! Callers declare named flags ([`Arg`]), each with the kind of value it
//! reads, gather them in a registry ([`CliArguments`]) and let the registry
//! walk a token stream. Afterwards every flag's value is read back by name,
//! at a type that must agree with the declared kind.
//!
//! - [`arg`]: the kinds, the values and the arguments, each with its model.
//! - [`text`]: the order of names, the shape of a flag, decimal notation.
//! - [`convert`]: from the text of a token to a value of a kind.
//! - [`error`]: the failures of a parse and of a reading.
//! - [`model`]: the registry and the parse as functions on sequences.
//! - [`cli_arguments`]: the registry itself.
//! - [`typed`]: the types at which a value is read back.
//! - [`laws`]: what holds of every parse, proved from the model.
pub mod arg;
pub mod cli_arguments;
pub mod convert;
pub mod error;
pub mod laws;
pub mod model;
pub mod text;
pub mod typed;

pub use arg::{Arg, Double, Single, Type, Value};
pub use cli_arguments::CliArguments;
pub use convert::RealReading;
pub use error::{GetError, ParseError};
pub use typed::Readable;
