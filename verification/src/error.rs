//! Errors of the SIP subsystem.

use vstd::prelude::*;

verus! {

/// Errors of the SIP subsystem.
#[derive(Debug)]
#[non_exhaustive]
pub enum Error {
    /// A transport failed.
    Io(String),
    /// A message could not be parsed.
    Parse(String),
    /// The configuration was refused.
    Config(String),
    /// Anything else.
    Other(String),
}

impl Error {
    /// An error of no particular kind.
    #[must_use]
    pub fn other(msg: String) -> (r: Self)
        ensures
            r == Error::Other(msg),
    {
        Error::Other(msg)
    }

    /// The message of the error.
    pub fn message(&self) -> (r: String)
        ensures
            r@ == match *self {
                Error::Io(m) => "transport I/O: "@ + m@,
                Error::Parse(m) => "parse: "@ + m@,
                Error::Config(m) => "config: "@ + m@,
                Error::Other(m) => m@,
            },
    {
        match self {
            Error::Io(m) => {
                let mut s: String = "transport I/O: ".to_owned();
                s.append(m);
                s
            },
            Error::Parse(m) => {
                let mut s: String = "parse: ".to_owned();
                s.append(m);
                s
            },
            Error::Config(m) => {
                let mut s: String = "config: ".to_owned();
                s.append(m);
                s
            },
            Error::Other(m) => m.clone(),
        }
    }
}

} // verus!
