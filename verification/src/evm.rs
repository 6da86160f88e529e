//! Errors of decoding a payload's transactions and recovering their senders.
use vstd::prelude::*;

verus! {

/// Simple error wrapper for tx decoding/recovery failures.
#[derive(Debug)]
pub struct TxConvertError(String);

impl TxConvertError {
    /// An error with the given message.
    pub fn new(message: String) -> (r: TxConvertError)
        ensures
            r.message_view() == message@,
    {
        TxConvertError(message)
    }

    /// The text of the message.
    pub closed spec fn message_view(&self) -> Seq<char> {
        self.0@
    }

    /// The message.
    pub fn message(&self) -> (r: &String)
        ensures
            r@ == self.message_view(),
    {
        &self.0
    }
}

} // verus!
