//! What readers tell the broker.

use crate::peer::PeerId;
use vstd::prelude::*;

verus! {

/// One message from a reader to the broker. `H` is the handle of the
/// connection; the relay passes it on and never looks inside.
#[derive(Debug)]
pub enum Event<H> {
    /// A peer has connected and is to be registered.
    Join(PeerId, H),
    /// A peer's reader has ended; the peer is to be removed.
    Leave(PeerId),
    /// A peer has sent one line, to be relayed to the others.
    Message(PeerId, String),
}

/// What an event says, with the text as a sequence of characters and
/// without the connection handle.
pub enum Notice {
    Join(PeerId),
    Leave(PeerId),
    Message(PeerId, Seq<char>),
}

impl Notice {
    /// The peer that the notice is about.
    pub open spec fn peer(self) -> PeerId {
        match self {
            Notice::Join(id) => id,
            Notice::Leave(id) => id,
            Notice::Message(id, _) => id,
        }
    }
}

impl<H> View for Event<H> {
    type V = Notice;

    open spec fn view(&self) -> Notice {
        match self {
            Event::Join(id, _) => Notice::Join(*id),
            Event::Leave(id) => Notice::Leave(*id),
            Event::Message(id, text) => Notice::Message(*id, text@),
        }
    }
}

impl<H> Event<H> {
    /// The peer that the event is about.
    pub fn peer(&self) -> (id: PeerId)
        ensures
            id == self@.peer(),
    {
        match self {
            Event::Join(id, _) => *id,
            Event::Leave(id) => *id,
            Event::Message(id, _) => *id,
        }
    }
}

} // verus!
