//! The log-line collector used by the log-streaming layer. The tracing
//! plumbing around it lives in the embedding program; the collector itself
//! only keeps the value of the `message` field.

use vstd::prelude::*;
use crate::text::str_eq;

verus! {

/// Collects the `message` field of one log event.
#[derive(Debug)]
pub struct LogMessageVisitor {
    pub message: String,
}

impl LogMessageVisitor {
    /// An empty collector.
    pub fn new() -> (r: LogMessageVisitor)
        ensures
            r.message@ == Seq::<char>::empty(),
    {
        LogMessageVisitor { message: String::new() }
    }

    /// Records one field: only a field named `message` is kept.
    pub fn record_message(&mut self, field_name: &str, value: &str)
        ensures
            final(self).message@ == if field_name@ == "message"@ {
                value@
            } else {
                old(self).message@
            },
    {
        if str_eq(field_name, "message") {
            self.message = value.to_owned();
        }
    }
}

} // verus!
