//! What a run of events does to the registry.
//!
//! The broker takes events one at a time, so a run is a sequence of
//! notices and its effect is that of taking them in order. The statements
//! here are about `after`, which is what `Broker::handle` promises of every
//! single event.

use crate::broker::{after, Registry};
use crate::event::Notice;
use crate::peer::PeerId;
use crate::wire::line_of;
use vstd::prelude::*;

verus! {

/// The registry after the broker has taken the notices of `trace` in order.
pub open spec fn run(reg: Registry, trace: Seq<Notice>) -> Registry
    decreases trace.len(),
{
    if trace.len() == 0 {
        reg
    } else {
        after(run(reg, trace.drop_last()), trace.last())
    }
}

/// The lines that the messages of `trace` put on the channel of `p`, in the
/// order in which the messages arrived: one for each message that another
/// peer sent.
pub open spec fn relayed_to(p: PeerId, trace: Seq<Notice>) -> Seq<Seq<char>>
    decreases trace.len(),
{
    if trace.len() == 0 {
        Seq::empty()
    } else {
        let earlier = relayed_to(p, trace.drop_last());
        match trace.last() {
            Notice::Message(from, text) => if from != p {
                earlier.push(line_of(from, text))
            } else {
                earlier
            },
            _ => earlier,
        }
    }
}

/// No notice of `trace` registers or removes `p`.
pub open spec fn stays(p: PeerId, trace: Seq<Notice>) -> bool {
    forall|i: int|
        0 <= i < trace.len() ==> #[trigger] trace[i] != Notice::Join(p) && trace[i]
            != Notice::Leave(p)
}

/// A message is never handed to the channel of the peer that sent it, and it
/// registers and removes nobody.
pub proof fn lemma_sender_is_skipped(reg: Registry, from: PeerId, text: Seq<char>)
    ensures
        after(reg, Notice::Message(from, text)).dom() == reg.dom(),
        reg.dom().contains(from) ==> after(reg, Notice::Message(from, text))[from] == reg[from],
{
    assert(after(reg, Notice::Message(from, text)).dom() =~= reg.dom());
}

/// A message reaches every registered peer other than its sender as one more
/// line at the end of what the peer's channel was handed before.
pub proof fn lemma_others_get_the_line(reg: Registry, from: PeerId, text: Seq<char>, p: PeerId)
    requires
        reg.dom().contains(p),
        p != from,
    ensures
        after(reg, Notice::Message(from, text))[p] == reg[p].push(line_of(from, text)),
{
}

/// Removing a peer twice leaves the registry as removing it once does.
pub proof fn lemma_leave_twice(reg: Registry, id: PeerId)
    ensures
        after(after(reg, Notice::Leave(id)), Notice::Leave(id)) == after(reg, Notice::Leave(id)),
{
    assert(reg.remove(id).remove(id) =~= reg.remove(id));
}

/// Removing a peer that is not registered changes nothing.
pub proof fn lemma_leave_of_absent_peer(reg: Registry, id: PeerId)
    requires
        !reg.dom().contains(id),
    ensures
        after(reg, Notice::Leave(id)) == reg,
{
    assert(reg.remove(id) =~= reg);
}

/// A peer that joins starts with an empty channel: nothing relayed before
/// it joined is handed to it.
pub proof fn lemma_join_starts_empty(reg: Registry, id: PeerId)
    ensures
        after(reg, Notice::Join(id)).dom().contains(id),
        after(reg, Notice::Join(id))[id] == Seq::<Seq<char>>::empty(),
{
}

/// A message that finds no registered peer besides its sender changes
/// nothing.
pub proof fn lemma_message_without_listeners(reg: Registry, from: PeerId, text: Seq<char>)
    requires
        forall|p: PeerId| reg.dom().contains(p) ==> p == from,
    ensures
        after(reg, Notice::Message(from, text)) == reg,
{
    assert(after(reg, Notice::Message(from, text)) =~= reg);
}

/// Two messages of one peer, taken one after the other, are handed to every
/// other registered peer in the order in which the broker took them.
pub proof fn lemma_two_messages_keep_their_order(
    reg: Registry,
    from: PeerId,
    first: Seq<char>,
    second: Seq<char>,
    p: PeerId,
)
    requires
        reg.dom().contains(p),
        p != from,
    ensures
        after(after(reg, Notice::Message(from, first)), Notice::Message(from, second))[p]
            == reg[p].push(line_of(from, first)).push(line_of(from, second)),
{
}

/// Over any run of events during which a registered peer neither leaves nor
/// joins anew, the peer's channel is handed exactly the lines of the
/// messages that the others sent, in the order in which the broker took
/// them, after what it had been handed before.
pub proof fn lemma_relayed_in_arrival_order(reg: Registry, trace: Seq<Notice>, p: PeerId)
    requires
        reg.dom().contains(p),
        stays(p, trace),
    ensures
        run(reg, trace).dom().contains(p),
        run(reg, trace)[p] == reg[p] + relayed_to(p, trace),
    decreases trace.len(),
{
    if trace.len() == 0 {
        assert(reg[p] + relayed_to(p, trace) =~= reg[p]);
    } else {
        let head = trace.drop_last();
        assert(stays(p, head)) by {
            assert forall|i: int| 0 <= i < head.len() implies #[trigger] head[i] != Notice::Join(p)
                && head[i] != Notice::Leave(p) by {
                assert(head[i] == trace[i]);
            }
        }
        lemma_relayed_in_arrival_order(reg, head, p);
        let mid = run(reg, head);
        assert(trace.last() == trace[trace.len() - 1]);
        match trace.last() {
            Notice::Message(from, text) => {
                if from != p {
                    assert(reg[p] + relayed_to(p, trace) =~= (reg[p] + relayed_to(p, head)).push(
                        line_of(from, text),
                    ));
                }
            },
            Notice::Join(id) => {},
            Notice::Leave(id) => {},
        }
    }
}

/// How many lines the notices before the one at `k` put on the channel of
/// `p`: the place, among the lines relayed to `p`, of the line of a message
/// that stands at `k`.
pub open spec fn place(p: PeerId, trace: Seq<Notice>, k: int) -> int {
    relayed_to(p, trace.take(k)).len() as int
}

/// The line of a message that another peer sent stands, among the lines
/// relayed to `p`, at its place.
pub proof fn lemma_line_at_its_place(p: PeerId, trace: Seq<Notice>, k: int)
    requires
        0 <= k < trace.len(),
        trace[k] is Message,
        trace[k].peer() != p,
    ensures
        0 <= place(p, trace, k) < relayed_to(p, trace).len(),
        trace[k] matches Notice::Message(from, text) && relayed_to(p, trace)[place(p, trace, k)]
            == line_of(from, text),
    decreases trace.len(),
{
    let head = trace.drop_last();
    if k == trace.len() - 1 {
        assert(trace.take(k) =~= head);
    } else {
        assert(head[k] == trace[k]);
        assert(head.take(k) =~= trace.take(k));
        lemma_line_at_its_place(p, head, k);
    }
}

/// Of two messages that others sent, the one that the broker took first
/// has the earlier place among the lines relayed to `p`.
pub proof fn lemma_places_follow_arrival(p: PeerId, trace: Seq<Notice>, i: int, j: int)
    requires
        0 <= i < j < trace.len(),
        trace[i] is Message,
        trace[i].peer() != p,
    ensures
        place(p, trace, i) < place(p, trace, j),
{
    let upto = trace.take(j);
    assert(upto[i] == trace[i]);
    assert(upto.take(i) =~= trace.take(i));
    lemma_line_at_its_place(p, upto, i);
}

/// Order is kept: when the broker takes one message before another, every
/// peer that sent neither and stays registered throughout is handed the line
/// of the first before the line of the second. This holds in particular of
/// two messages of one sender.
pub proof fn lemma_order_is_kept(reg: Registry, trace: Seq<Notice>, p: PeerId, i: int, j: int)
    requires
        reg.dom().contains(p),
        stays(p, trace),
        0 <= i < j < trace.len(),
        trace[i] is Message,
        trace[j] is Message,
        trace[i].peer() != p,
        trace[j].peer() != p,
    ensures
        ({
            let log = run(reg, trace)[p];
            let x = reg[p].len() + place(p, trace, i);
            let y = reg[p].len() + place(p, trace, j);
            &&& reg[p].len() <= x < y < log.len()
            &&& trace[i] matches Notice::Message(a, first) && log[x] == line_of(a, first)
            &&& trace[j] matches Notice::Message(b, second) && log[y] == line_of(b, second)
        }),
{
    lemma_relayed_in_arrival_order(reg, trace, p);
    lemma_line_at_its_place(p, trace, i);
    lemma_line_at_its_place(p, trace, j);
    lemma_places_follow_arrival(p, trace, i, j);
}

} // verus!
