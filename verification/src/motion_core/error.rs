use vstd::prelude::*;

verus! {

/// The errors of the device and scene world.
#[derive(Debug, Clone, PartialEq)]
pub enum Error {
    InvalidValue(String),
    NotFound(String),
}

/// Result of the world's operations.
pub type Result<T> = std::result::Result<T, Error>;

impl Error {
    /// The text of the error, as its display shows it.
    pub fn to_string(&self) -> (r: String)
        ensures
            r@ == match self {
                Error::InvalidValue(m) => "invalid property value: "@ + m@,
                Error::NotFound(m) => "entity not found: "@ + m@,
            },
    {
        match self {
            Error::InvalidValue(m) => {
                let mut s = "invalid property value: ".to_owned();
                s.append(m.as_str());
                s
            },
            Error::NotFound(m) => {
                let mut s = "entity not found: ".to_owned();
                s.append(m.as_str());
                s
            },
        }
    }
}

} // verus!
