use crate::error::Error;
use crate::event_message::EventMessage;
use vstd::prelude::*;

verus! {

/// Writes what is signed of a message: its values one after another in the
/// order of its fields, depth first, without names and without the
/// signatures. The text depends on the version string and the event alone.
pub fn to_string(message: &EventMessage) -> (res: Result<String, Error>)
    requires
        message@.encodable(),
    ensures
        res matches Ok(payload) && payload@ == message@.payload(),
{
    Ok(message.to_document().leaves())
}

} // verus!
