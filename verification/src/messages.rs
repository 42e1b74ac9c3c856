//! The message-handling interface shared by the actors of the pipeline.

use vstd::prelude::*;

verus! {

/// An actor that consumes messages of its own type `M`, failing with an
/// error of its own type `E`.  What a message needs of the actor's state,
/// and what handling one did to it, are the implementing type's to say
/// through `msg_permitted` and `msg_handled`.
pub trait HandleMessage {
    /// The message type the actor accepts.
    type M;

    /// The error type the actor reports.
    type E;

    /// When the actor's state admits `message`.
    spec fn msg_permitted(&self, message: &Self::M) -> bool;

    /// How the state after handling (`self`) and the result relate to the
    /// state before (`pre`) and the message.
    spec fn msg_handled(&self, pre: &Self, message: &Self::M, r: &Result<(), Self::E>) -> bool;

    /// Apply one message to the actor's state.
    fn handle_message(&mut self, message: Self::M) -> (r: Result<(), Self::E>)
        requires
            old(self).msg_permitted(&message),
        ensures
            final(self).msg_handled(old(self), &message, &r),
    ;
}

} // verus!
