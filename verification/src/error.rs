//! The error that a layer reports: which part of the layer failed, and how.
//!
//! Every layer has its own set of failing parts (`ai`, `serde`, `validation`,
//! ...); the shape of the error is the same for all of them.
use crate::text::join3;
use vstd::prelude::*;

verus! {

/// An error of a layer.
#[derive(Debug)]
pub struct LayerError {
    /// The failing part, in small letters: `"ai"`, `"serde"`, `"validation"`.
    pub part: &'static str,
    pub message: String,
}

impl LayerError {
    /// An error of the given part. The message is what `msg` turns into.
    pub fn new<M: Into<String>>(part: &'static str, msg: M) -> (r: LayerError)
        ensures
            r.part@ == part@,
            call_ensures(<M as Into<String>>::into, (msg,), r.message),
    {
        LayerError { part, message: msg.into() }
    }

    /// The error as it is shown: `"<part>: <message>"`.
    pub fn display(&self) -> (r: String)
        ensures
            r@ == self.part@ + ": "@ + self.message@,
    {
        join3(self.part, ": ", self.message.as_str())
    }
}

} // verus!
