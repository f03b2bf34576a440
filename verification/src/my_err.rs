//! The caller-facing layer's error value: a carried message, handed
//! outward as text.

use vstd::prelude::*;

verus! {

/// An error on its way to the caller-facing layer.
#[derive(Clone, Debug)]
pub struct MyErr {
    msg: String,
}

/// A result whose failure side is [`MyErr`].
pub type MyResult<T> = Result<T, MyErr>;

impl MyErr {
    /// What the error reads.
    pub closed spec fn msg_spec(&self) -> Seq<char> {
        self.msg@
    }

    /// An error carrying the given message.
    pub fn new(msg: String) -> (r: MyErr)
        ensures
            r.msg_spec() == msg@,
    {
        MyErr { msg }
    }

    /// The carried message.
    pub fn message(&self) -> (r: &String)
        ensures
            r@ == self.msg_spec(),
    {
        &self.msg
    }
}

} // verus!
