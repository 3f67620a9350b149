use vstd::prelude::*;
use vstd::string::*;

verus! {

/// Failure kinds of the library.
#[derive(Debug)]
pub enum Error {
    /// A file or device operation failed; holds the system's message.
    Io(String),
    /// An entropy source could not deliver.
    NoEntropy(String),
    /// An argument or configuration value was rejected.
    InvalidArgs(String),
}

impl Error {
    /// The detail text carried by the error.
    pub open spec fn detail(&self) -> Seq<char> {
        match self {
            Error::Io(m) => m@,
            Error::NoEntropy(m) => m@,
            Error::InvalidArgs(m) => m@,
        }
    }

    /// The human-readable prefix naming the kind of failure.
    pub open spec fn kind_prefix(&self) -> Seq<char> {
        match self {
            Error::Io(_) => "I/O error: "@,
            Error::NoEntropy(_) => "entropy error: "@,
            Error::InvalidArgs(_) => "invalid arguments: "@,
        }
    }

    /// The full message: the kind prefix followed by the detail.
    pub fn message(&self) -> (r: String)
        ensures
            r@ == self.kind_prefix() + self.detail(),
    {
        match self {
            Error::Io(m) => {
                let mut s = String::from_str("I/O error: ");
                s.append(m.as_str());
                s
            },
            Error::NoEntropy(m) => {
                let mut s = String::from_str("entropy error: ");
                s.append(m.as_str());
                s
            },
            Error::InvalidArgs(m) => {
                let mut s = String::from_str("invalid arguments: ");
                s.append(m.as_str());
                s
            },
        }
    }
}

/// `r` is an entropy error whose detail is `msg`.
pub open spec fn no_entropy_with<T>(r: Result<T, Error>, msg: Seq<char>) -> bool {
    match r {
        Err(Error::NoEntropy(m)) => m@ == msg,
        _ => false,
    }
}

/// `r` is an invalid-argument error whose detail is `msg`.
pub open spec fn invalid_args_with<T>(r: Result<T, Error>, msg: Seq<char>) -> bool {
    match r {
        Err(Error::InvalidArgs(m)) => m@ == msg,
        _ => false,
    }
}

} // verus!
