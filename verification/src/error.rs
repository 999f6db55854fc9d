use vstd::prelude::*;

verus! {

/// The mathematical value of an [`Error`], with messages as character
/// sequences.
pub enum ErrorV {
    Unmatched(Seq<char>),
    Palette(u8, u8, u8),
    Custom(Seq<char>),
}

/// The errors that abort a render.
///
/// `Unmatched` is the structural error: an `End` event closed a tag whose kind
/// does not match the context on top of the stack (or the stack was empty).
/// `Palette` reports a colour triple outside the fixed known palette; the
/// original design treats this as fatal and it is surfaced here as an error
/// rather than approximated. `Custom` carries any other fatal message.
#[derive(Debug)]
pub enum Error {
    Unmatched(String),
    Palette(u8, u8, u8),
    Custom(String),
}

impl View for Error {
    type V = ErrorV;

    open spec fn view(&self) -> ErrorV {
        match self {
            Error::Unmatched(m) => ErrorV::Unmatched(m@),
            Error::Palette(r, g, b) => ErrorV::Palette(*r, *g, *b),
            Error::Custom(m) => ErrorV::Custom(m@),
        }
    }
}

impl Error {
    /// Wraps an arbitrary message as a fatal error.
    pub fn custom(msg: String) -> (e: Error)
        ensures
            e@ == ErrorV::Custom(msg@),
    {
        Error::Custom(msg)
    }

    /// The error's message, for display by a caller.
    pub fn message(&self) -> (m: String)
        ensures
            match self@ {
                ErrorV::Unmatched(s) => m@ == s,
                ErrorV::Custom(s) => m@ == s,
                ErrorV::Palette(_, _, _) => m@ == "unrecognized palette colour"@,
            },
    {
        match self {
            Error::Unmatched(s) => s.clone(),
            Error::Custom(s) => s.clone(),
            Error::Palette(_, _, _) => "unrecognized palette colour".to_owned(),
        }
    }
}

} // verus!
