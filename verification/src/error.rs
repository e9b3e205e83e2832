use vstd::prelude::*;

verus! {

/// The error of every fallible operation of the converter: a message for the user.
#[derive(Debug)]
pub enum ConvertError {
    Message(String),
}

impl ConvertError {
    /// The message carried by the error.
    pub open spec fn text(&self) -> Seq<char> {
        match self {
            ConvertError::Message(m) => m@,
        }
    }

    /// The text shown for the error (its `Display` form).
    pub fn message(&self) -> (r: String)
        ensures
            r@ == self.text(),
    {
        match self {
            ConvertError::Message(m) => m.clone(),
        }
    }
}

/// Builds an error from its message.
pub fn err(msg: String) -> (r: ConvertError)
    ensures
        r == ConvertError::Message(msg),
        r.text() == msg@,
{
    ConvertError::Message(msg)
}

} // verus!
