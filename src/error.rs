use vstd::prelude::*;

verus! {

/// An I/O failure reported by std, carried as an opaque cause.
#[verifier::external_type_specification]
#[verifier::external_body]
pub struct ExIoError(std::io::Error);

/// Every failure that handling or parsing can report.
///
/// `CantHandle` is the soft signal "this endpoint does not apply"; the
/// alternative combinator recovers from it. Every other variant is a hard
/// failure of the current request.
#[derive(Debug)]
pub enum Error {
    GeneralError(String),
    /// A context message together with the I/O failure that caused it.
    ErrorWrapper(String, std::io::Error),
    Utf8ConversionError,
    FromUtf8ConversionError,
    ParseInt,
    CantHandle,
}

pub type Result<T> = std::result::Result<T, Error>;

/// Attaching a context message to a failed I/O result.
pub trait Context<T> {
    fn context(self, context: &str) -> Result<T>;

    fn with_context<F: FnOnce() -> String>(self, f: F) -> Result<T>
        requires
            f.requires(()),
    ;
}

impl<T> Context<T> for std::result::Result<T, std::io::Error> {
    fn context(self, context: &str) -> (r: Result<T>)
        ensures
            match self {
                Ok(v) => r == Ok::<T, Error>(v),
                Err(_) => r matches Err(Error::ErrorWrapper(m, _)) && m@ == context@,
            },
    {
        match self {
            Ok(v) => Ok(v),
            Err(e) => Err(Error::ErrorWrapper(context.to_string(), e)),
        }
    }

    fn with_context<F: FnOnce() -> String>(self, f: F) -> (r: Result<T>)
        ensures
            match self {
                Ok(v) => r == Ok::<T, Error>(v),
                Err(_) => (r matches Err(Error::ErrorWrapper(m, _)) && f.ensures((), m)),
            },
    {
        match self {
            Ok(v) => Ok(v),
            Err(e) => {
                let m = f();
                Err(Error::ErrorWrapper(m, e))
            },
        }
    }
}

} // verus!
