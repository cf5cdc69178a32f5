use vstd::prelude::*;

verus! {

/// What went wrong while buffering.
#[derive(Debug, Clone, Copy)]
pub enum ErrorKind {
    /// A value of an unexpected kind was streamed.
    Unsupported { actual: &'static str, expected: &'static str },
    /// A fragment arrived outside of the text or binary value it belongs to.
    OutsideContainer { method: &'static str },
    /// The value being buffered is malformed.
    InvalidValue { reason: &'static str },
    /// The operation needs an allocator that isn't available.
    NoAlloc { method: &'static str },
}

/// An error encountered buffering data.
#[derive(Debug, Clone, Copy)]
pub struct Error(pub ErrorKind);

impl Error {
    pub fn unsupported(expected: &'static str, actual: &'static str) -> (e: Self)
        ensures
            e == Error(ErrorKind::Unsupported { actual, expected }),
    {
        Error(ErrorKind::Unsupported { actual, expected })
    }

    pub fn invalid_value(reason: &'static str) -> (e: Self)
        ensures
            e == Error(ErrorKind::InvalidValue { reason }),
    {
        Error(ErrorKind::InvalidValue { reason })
    }

    pub fn outside_container(method: &'static str) -> (e: Self)
        ensures
            e == Error(ErrorKind::OutsideContainer { method }),
    {
        Error(ErrorKind::OutsideContainer { method })
    }

    pub fn no_alloc(method: &'static str) -> (e: Self)
        ensures
            e == Error(ErrorKind::NoAlloc { method }),
    {
        Error(ErrorKind::NoAlloc { method })
    }
}

/// The text of an error: what it says when it is displayed.
pub open spec fn message_view(e: Error) -> Seq<char> {
    match e.0 {
        ErrorKind::Unsupported { actual, expected } => "unexpected "@ + actual@ + ", expected "@ + expected@,
        ErrorKind::OutsideContainer { method } => "expected a fragment while buffering "@ + method@,
        ErrorKind::InvalidValue { reason } => "the value being buffered is invalid: "@ + reason@,
        ErrorKind::NoAlloc { method } => "cannot allocate for "@ + method@,
    }
}

impl Error {
    /// What the error says when it is displayed.
    pub fn message(&self) -> (s: String)
        ensures
            s@ == message_view(*self),
    {
        match self.0 {
            ErrorKind::Unsupported { actual, expected } => {
                let mut s = String::from_str("unexpected ");
                s.append(actual);
                s.append(", expected ");
                s.append(expected);
                s
            },
            ErrorKind::OutsideContainer { method } => {
                let mut s = String::from_str("expected a fragment while buffering ");
                s.append(method);
                s
            },
            ErrorKind::InvalidValue { reason } => {
                let mut s = String::from_str("the value being buffered is invalid: ");
                s.append(reason);
                s
            },
            ErrorKind::NoAlloc { method } => {
                let mut s = String::from_str("cannot allocate for ");
                s.append(method);
                s
            },
        }
    }
}

} // verus!
