//! The broker: the one owner of the peer registry.
//!
//! The registry maps each connected peer to the producing end of its
//! outbound channel. The broker takes events one at a time. Its model of
//! the registry keeps, for each peer, the lines that it has handed to that
//! peer's channel since the peer joined, in the order in which it did.

use crate::event::{Event, Notice};
use crate::peer::PeerId;
use crate::wire::{line_of, render_line};
use futures_channel::mpsc::{TrySendError, UnboundedReceiver, UnboundedSender};
use std::collections::HashMap;
use vstd::prelude::*;

verus! {

/// The registry as the contracts see it: the connected peers, each with the
/// lines handed to its outbound channel so far.
pub type Registry = Map<PeerId, Seq<Seq<char>>>;

/// The registry after `line` has been handed to every peer but `from`.
pub open spec fn fan_out(reg: Registry, from: PeerId, line: Seq<char>) -> Registry {
    Map::new(
        |p: PeerId| reg.dom().contains(p),
        |p: PeerId|
            if p == from {
                reg[p]
            } else {
                reg[p].push(line)
            },
    )
}

/// The registry after the broker has taken one event.
pub open spec fn after(reg: Registry, notice: Notice) -> Registry {
    match notice {
        Notice::Join(id) => reg.insert(id, Seq::empty()),
        Notice::Leave(id) => reg.remove(id),
        Notice::Message(from, text) => fan_out(reg, from, line_of(from, text)),
    }
}

/// What the broker's caller has to do after an event.
pub enum Reaction<H> {
    /// A peer was registered. A writer has to be started that drains `lines`
    /// onto `conn`. `replaced` tells that the peer was registered already
    /// and that its earlier channel has been closed.
    Registered { conn: H, lines: UnboundedReceiver<String>, replaced: bool },
    /// A peer was removed and its channel closed, or it was not registered.
    Removed { was_registered: bool },
    /// A line was relayed. `refused` lists the peers whose channel did not
    /// take it.
    Relayed { refused: Vec<PeerId> },
}

/// Takes what came of handing a line to the channel of `to`: a peer whose
/// channel did not take the line is put on the list, and nothing else is
/// done about it.
pub fn note_outcome(
    refused: &mut Vec<PeerId>,
    to: PeerId,
    outcome: Result<(), TrySendError<String>>,
)
    ensures
        final(refused)@ == if outcome is Ok {
            old(refused)@
        } else {
            old(refused)@.push(to)
        },
{
    match outcome {
        Ok(()) => {},
        Err(_) => {
            refused.push(to);
        },
    }
}

/// The broker with its registry.
pub struct Broker {
    /// Under the number of each registered peer, the producing end of the
    /// peer's outbound channel.
    peers: HashMap<u64, UnboundedSender<String>>,
    /// For the number of each peer, the lines handed to the channel that the
    /// peer is registered with.
    offered: Ghost<spec_fn(u64) -> Seq<Seq<char>>>,
}

impl View for Broker {
    type V = Registry;

    closed spec fn view(&self) -> Registry {
        Map::new(|p: PeerId| self.peers@.contains_key(p.0), |p: PeerId| (self.offered@)(p.0))
    }
}

impl Broker {
    /// A broker with nobody registered.
    pub fn new() -> (broker: Self)
        ensures
            broker@ == Map::<PeerId, Seq<Seq<char>>>::empty(),
    {
        let broker = Broker {
            peers: HashMap::new(),
            offered: Ghost(|k: u64| Seq::<Seq<char>>::empty()),
        };
        assert(broker@ =~= Map::<PeerId, Seq<Seq<char>>>::empty());
        broker
    }

    /// Whether `id` is registered.
    pub fn is_registered(&self, id: PeerId) -> (found: bool)
        ensures
            found == self@.dom().contains(id),
    {
        broadcast use vstd::std_specs::hash::group_hash_axioms;

        self.peers.contains_key(&id.0)
    }

    /// Registers `id` with a new outbound channel and returns the channel's
    /// consuming end. If `id` was registered already, the new channel takes
    /// the place of the earlier one, which is closed; the result's second
    /// part tells whether that happened.
    pub fn join(&mut self, id: PeerId) -> (out: (UnboundedReceiver<String>, bool))
        ensures
            final(self)@ == old(self)@.insert(id, Seq::empty()),
            out.1 == old(self)@.dom().contains(id),
    {
        broadcast use vstd::std_specs::hash::group_hash_axioms;

        let (sender, lines) = futures_channel::mpsc::unbounded::<String>();
        // The earlier producer, if there was one, is dropped at the end of
        // this function, and its channel closes with it.
        let stale = self.peers.insert(id.0, sender);
        let ghost earlier = self.offered@;
        self.offered = Ghost(
            |k: u64|
                if k == id.0 {
                    Seq::<Seq<char>>::empty()
                } else {
                    earlier(k)
                },
        );
        assert(self@ =~= old(self)@.insert(id, Seq::empty()));
        (lines, stale.is_some())
    }

    /// Removes `id` from the registry, which closes its outbound channel.
    /// Tells whether `id` was registered; if it was not, nothing changes.
    pub fn leave(&mut self, id: PeerId) -> (was_registered: bool)
        ensures
            final(self)@ == old(self)@.remove(id),
            was_registered == old(self)@.dom().contains(id),
    {
        broadcast use vstd::std_specs::hash::group_hash_axioms;

        // The producer that comes out is dropped here, and its channel
        // closes with it.
        let gone = self.peers.remove(&id.0);
        assert(self@ =~= old(self)@.remove(id));
        gone.is_some()
    }

    /// Hands the line for `text` to the channel of every registered peer
    /// but `from`. A channel that does not take the line is skipped: the
    /// peer stays registered and the others still get theirs.
    pub fn relay(&mut self, from: PeerId, text: &str) -> (refused: Vec<PeerId>)
        ensures
            final(self)@ == fan_out(old(self)@, from, line_of(from, text@)),
            refused@.no_duplicates(),
            forall|i: int|
                0 <= i < refused.len() ==> old(self)@.dom().contains(#[trigger] refused[i])
                    && refused[i] != from,
    {
        broadcast use vstd::std_specs::hash::group_hash_axioms;

        let line = render_line(from, text);
        let mut refused: Vec<PeerId> = Vec::new();
        let ghost before = self.offered@;
        let ghost mut log = self.offered@;
        let ghost mut served = Set::<u64>::empty();
        for entry in it: self.peers.iter()
            invariant
                line@ == line_of(from, text@),
                it.seq().no_duplicates(),
                forall|i: int|
                    0 <= i < it.seq().len() ==> self.peers@.contains_key(
                        *(#[trigger] it.seq()[i]).0,
                    ) && self.peers@[*it.seq()[i].0] == *it.seq()[i].1,
                forall|i: int| 0 <= i < it.index() ==> served.contains(*(#[trigger] it.seq()[i]).0),
                forall|k: u64|
                    served.contains(k) ==> exists|i: int|
                        0 <= i < it.index() && *(#[trigger] it.seq()[i]).0 == k,
                forall|k: u64|
                    #[trigger] log(k) == if served.contains(k) && k != from.0 {
                        before(k).push(line@)
                    } else {
                        before(k)
                    },
                refused@.no_duplicates(),
                forall|j: int|
                    0 <= j < refused.len() ==> served.contains((#[trigger] refused[j]).0)
                        && refused[j] != from,
        {
            let (key, sender) = entry;
            assert(!served.contains(*key));
            if *key != from.0 {
                let outcome = sender.unbounded_send(line.clone());
                proof {
                    let earlier = log;
                    log = |k: u64| if k == *key { earlier(k).push(line@) } else { earlier(k) };
                }
                note_outcome(&mut refused, PeerId(*key), outcome);
            }
            proof {
                served = served.insert(*key);
            }
        }
        self.offered = Ghost(log);
        assert(self@ =~= fan_out(old(self)@, from, line_of(from, text@)));
        refused
    }

    /// Takes one event: registers, removes or relays, as the event says.
    pub fn handle<H>(&mut self, event: Event<H>) -> (reaction: Reaction<H>)
        ensures
            final(self)@ == after(old(self)@, event@),
            match event {
                Event::Join(id, conn) => {
                    &&& reaction matches Reaction::Registered { conn: started, replaced, .. }
                    &&& started == conn
                    &&& replaced == old(self)@.dom().contains(id)
                },
                Event::Leave(id) => {
                    &&& reaction matches Reaction::Removed { was_registered }
                    &&& was_registered == old(self)@.dom().contains(id)
                },
                Event::Message(from, _) => {
                    &&& reaction matches Reaction::Relayed { refused }
                    &&& refused@.no_duplicates()
                    &&& forall|i: int|
                        0 <= i < refused.len() ==> old(self)@.dom().contains(
                            #[trigger] refused[i],
                        ) && refused[i] != from
                },
            },
    {
        match event {
            Event::Join(id, conn) => {
                let (lines, replaced) = self.join(id);
                Reaction::Registered { conn, lines, replaced }
            },
            Event::Leave(id) => {
                let was_registered = self.leave(id);
                Reaction::Removed { was_registered }
            },
            Event::Message(from, text) => {
                let refused = self.relay(from, text.as_str());
                Reaction::Relayed { refused }
            },
        }
    }

    /// Closes the outbound channel of every peer that is still registered
    /// and leaves the registry empty. The broker does this once no further
    /// event can arrive.
    pub fn close_all(&mut self)
        ensures
            final(self)@ == Map::<PeerId, Seq<Seq<char>>>::empty(),
    {
        self.peers.clear();
        assert(self@ =~= Map::<PeerId, Seq<Seq<char>>>::empty());
    }
}

} // verus!
