//! The errors of configuration values.

use vstd::prelude::*;

verus! {

/// Why a run of decimal digits is no `u64`.
#[derive(Clone, Copy, Debug, PartialEq, Eq, Structural)]
pub enum NumberError {
    /// There is no digit.
    Empty,
    /// The number is above `u64::MAX`.
    TooLarge,
}

/// Why a size is refused.
#[derive(Clone, Debug, PartialEq, Eq)]
pub enum Error {
    /// The number at the start of the size is no `u64`.
    Number(NumberError),
    /// The unit is none of the known ones.
    UnexpectedUnit(String),
    /// The number of bytes is above `u64::MAX`.
    Overflow { number: u64, unit: String },
}

/// An [`Error`] with its strings as sequences of characters.
pub enum ErrorView {
    Number(NumberError),
    UnexpectedUnit(Seq<char>),
    Overflow { number: u64, unit: Seq<char> },
}

impl View for Error {
    type V = ErrorView;

    open spec fn view(&self) -> ErrorView {
        match *self {
            Error::Number(e) => ErrorView::Number(e),
            Error::UnexpectedUnit(unit) => ErrorView::UnexpectedUnit(unit@),
            Error::Overflow { number, unit } => ErrorView::Overflow { number, unit: unit@ },
        }
    }
}

/// A result with its error as a view.
pub open spec fn result_view<T>(r: Result<T, Error>) -> Result<T, ErrorView> {
    match r {
        Ok(v) => Ok(v),
        Err(e) => Err(e@),
    }
}

} // verus!
