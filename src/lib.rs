//! Schema-driven configuration: typed option descriptors compiled from field
//! attributes, resolved from command-line arguments, a configuration file and
//! defaults, and written back to the file.
use vstd::prelude::*;

pub mod sources;
pub mod value;
pub mod expr;
pub mod error;
pub mod attrs;
pub mod opt;
pub mod schema;
pub mod config;

verus! {

/// What can go wrong while reading or writing a configuration.
#[derive(Debug)]
pub enum Error {
    /// The file could not be created, read or written.
    IO(std::io::Error),
    /// The file is not in the section/key format.
    Ini(ini::ini::ParseError),
    /// A raw value could not be coerced into its field's type.
    Parse(String),
}

} // verus!
