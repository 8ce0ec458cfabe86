//! What feeds a synthesizer with messages.

use vstd::prelude::*;

verus! {

/// A source of messages: something that is handed inputs through a
/// connection and turns them into messages.
pub trait Controller {
    /// What is sent to the controller.
    type InputMsg;

    /// What the controller gives out.
    type OutputMsg;

    /// The connection through which inputs are sent.
    fn get_connect(&self) -> Self::InputMsg;

    /// The next message.  A controller that does not say otherwise has
    /// none.
    fn output(&self) -> (r: Option<Self::OutputMsg>)
        default_ensures
            r is None,
    {
        None
    }
}

} // verus!
