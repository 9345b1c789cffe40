//! The life of one connection among the events of all.
//!
//! Readers run side by side, so their events reach the broker mixed in an
//! order that nobody controls; only the events of one reader keep their
//! order among themselves. What follows holds of every such mixture.

use crate::broker::Registry;
use crate::event::Notice;
use crate::history::run;
use crate::peer::PeerId;
use crate::reader::{emitted, lemma_reader_keeps_the_protocol, reading_after, Outcome};
use vstd::prelude::*;

verus! {

/// The notices of `trace` that are about `id`, in their order.
pub open spec fn about(trace: Seq<Notice>, id: PeerId) -> Seq<Notice> {
    trace.filter(|n: Notice| n.peer() == id)
}

/// How many notices about `id` stand before `k` in `trace`.
pub open spec fn rank(trace: Seq<Notice>, id: PeerId, k: int) -> int {
    about(trace.take(k), id).len() as int
}

/// The notices about `id` are those of all but the last notice, and the
/// last one if it is about `id`.
proof fn lemma_about_last(trace: Seq<Notice>, id: PeerId)
    requires
        trace.len() > 0,
    ensures
        about(trace, id) == if trace.last().peer() == id {
            about(trace.drop_last(), id).push(trace.last())
        } else {
            about(trace.drop_last(), id)
        },
{
    reveal(Seq::filter);
}

/// A notice about `id` stands, among the notices about `id`, at its rank.
pub proof fn lemma_rank_finds(trace: Seq<Notice>, id: PeerId, k: int)
    requires
        0 <= k < trace.len(),
        trace[k].peer() == id,
    ensures
        0 <= rank(trace, id, k) < about(trace, id).len(),
        about(trace, id)[rank(trace, id, k)] == trace[k],
    decreases trace.len(),
{
    let head = trace.drop_last();
    lemma_about_last(trace, id);
    if k == trace.len() - 1 {
        assert(trace.take(k) =~= head);
    } else {
        assert(head[k] == trace[k]);
        assert(head.take(k) =~= trace.take(k));
        lemma_rank_finds(head, id, k);
    }
}

/// Of two notices about `id`, the one that stands first has the lower rank.
pub proof fn lemma_rank_grows(trace: Seq<Notice>, id: PeerId, i: int, j: int)
    requires
        0 <= i < j < trace.len(),
        trace[i].peer() == id,
    ensures
        rank(trace, id, i) < rank(trace, id, j),
{
    let upto = trace.take(j);
    assert(upto[i] == trace[i]);
    assert(upto.take(i) =~= trace.take(i));
    lemma_rank_finds(upto, id, i);
}

/// Every notice among those about `id` stands somewhere in `trace`.
pub proof fn lemma_rank_reaches(trace: Seq<Notice>, id: PeerId, r: int) -> (k: int)
    requires
        0 <= r < about(trace, id).len(),
    ensures
        0 <= k < trace.len(),
        trace[k].peer() == id,
        rank(trace, id, k) == r,
    decreases trace.len(),
{
    let head = trace.drop_last();
    lemma_about_last(trace, id);
    if trace.last().peer() == id && r == about(head, id).len() {
        assert(trace.take(trace.len() - 1) =~= head);
        trace.len() - 1
    } else {
        let k = lemma_rank_reaches(head, id, r);
        assert(head.take(k) =~= trace.take(k));
        k
    }
}

/// The notice at `j` announces `id`, and every other notice about `id`
/// comes after it and is no announcement.
pub open spec fn announced_once_at(trace: Seq<Notice>, id: PeerId, j: int) -> bool {
    &&& 0 <= j < trace.len()
    &&& trace[j] == Notice::Join(id)
    &&& forall|i: int|
        0 <= i < trace.len() && i != j && (#[trigger] trace[i]).peer() == id ==> j < i && !(
        trace[i] is Join)
}

/// The notice at `l` says that `id` is gone, and every other notice about
/// `id` comes before it and says no such thing.
pub open spec fn gone_once_at(trace: Seq<Notice>, id: PeerId, l: int) -> bool {
    &&& 0 <= l < trace.len()
    &&& trace[l] == Notice::Leave(id)
    &&& forall|i: int|
        0 <= i < trace.len() && i != l && (#[trigger] trace[i]).peer() == id ==> i < l && !(
        trace[i] is Leave)
}

/// However the events of the readers are mixed: if what reaches the broker
/// about `id` is what the reader of `id` has sent, then the broker gets one
/// announcement of `id`, before anything else about `id`; and if the reader
/// has ended, the broker gets one notice that `id` is gone, after everything
/// else about `id`. While the reader has not ended there is no such notice.
pub proof fn lemma_one_join_first_one_leave_last(
    trace: Seq<Notice>,
    id: PeerId,
    outcomes: Seq<Outcome>,
) -> (at: (int, int))
    requires
        about(trace, id) == emitted(id, outcomes),
    ensures
        announced_once_at(trace, id, at.0),
        !reading_after(id, outcomes) ==> gone_once_at(trace, id, at.1),
        reading_after(id, outcomes) ==> forall|i: int|
            0 <= i < trace.len() ==> #[trigger] trace[i] != Notice::Leave(id),
{
    let sent = about(trace, id);
    lemma_reader_keeps_the_protocol(id, outcomes);
    let j = lemma_rank_reaches(trace, id, 0);
    lemma_rank_finds(trace, id, j);
    assert forall|i: int|
        0 <= i < trace.len() && i != j && (#[trigger] trace[i]).peer() == id implies j < i && !(
    trace[i] is Join) by {
        lemma_rank_finds(trace, id, i);
        if i < j {
            lemma_rank_grows(trace, id, i, j);
        } else {
            lemma_rank_grows(trace, id, j, i);
        }
    }
    let l = lemma_rank_reaches(trace, id, sent.len() - 1);
    lemma_rank_finds(trace, id, l);
    if !reading_after(id, outcomes) {
        assert(sent.last() == sent[sent.len() - 1]);
        assert forall|i: int|
            0 <= i < trace.len() && i != l && (#[trigger] trace[i]).peer() == id implies i < l
            && !(trace[i] is Leave) by {
            lemma_rank_finds(trace, id, i);
            if i < l {
                lemma_rank_grows(trace, id, i, l);
            } else {
                lemma_rank_grows(trace, id, l, i);
            }
        }
    } else {
        assert forall|i: int| 0 <= i < trace.len() implies #[trigger] trace[i] != Notice::Leave(
            id,
        ) by {
            if trace[i].peer() == id {
                lemma_rank_finds(trace, id, i);
                assert(sent.last() == sent[sent.len() - 1]);
            }
        }
    }
    (j, l)
}

/// Whether `id` is registered after `trace`, when `was` tells whether it was
/// before: the last notice that announces or removes `id` decides.
spec fn registered_after(was: bool, trace: Seq<Notice>, id: PeerId) -> bool
    decreases trace.len(),
{
    if trace.len() == 0 {
        was
    } else if trace.last() == Notice::Join(id) {
        true
    } else if trace.last() == Notice::Leave(id) {
        false
    } else {
        registered_after(was, trace.drop_last(), id)
    }
}

proof fn lemma_registered_after_run(reg: Registry, trace: Seq<Notice>, id: PeerId)
    ensures
        run(reg, trace).dom().contains(id) == registered_after(reg.dom().contains(id), trace, id),
    decreases trace.len(),
{
    if trace.len() > 0 {
        lemma_registered_after_run(reg, trace.drop_last(), id);
    }
}

proof fn lemma_registered_after_silence(was: bool, trace: Seq<Notice>, id: PeerId)
    requires
        forall|i: int| 0 <= i < trace.len() ==> (#[trigger] trace[i]).peer() != id,
    ensures
        registered_after(was, trace, id) == was,
    decreases trace.len(),
{
    if trace.len() > 0 {
        let head = trace.drop_last();
        assert(trace.last() == trace[trace.len() - 1]);
        assert(forall|i: int| 0 <= i < head.len() ==> head[i] == trace[i]);
        lemma_registered_after_silence(was, head, id);
    }
}

proof fn lemma_registered_after_join(was: bool, trace: Seq<Notice>, id: PeerId, j: int)
    requires
        0 <= j < trace.len(),
        trace[j] == Notice::Join(id),
        forall|i: int| j < i < trace.len() ==> #[trigger] trace[i] != Notice::Leave(id),
    ensures
        registered_after(was, trace, id),
    decreases trace.len(),
{
    assert(trace.last() == trace[trace.len() - 1]);
    if j < trace.len() - 1 && trace.last() != Notice::Join(id) {
        let head = trace.drop_last();
        assert(forall|i: int| 0 <= i < head.len() ==> head[i] == trace[i]);
        lemma_registered_after_join(was, head, id, j);
    }
}

proof fn lemma_registered_after_leave(was: bool, trace: Seq<Notice>, id: PeerId, l: int)
    requires
        0 <= l < trace.len(),
        trace[l] == Notice::Leave(id),
        forall|i: int| l < i < trace.len() ==> #[trigger] trace[i] != Notice::Join(id),
    ensures
        !registered_after(was, trace, id),
    decreases trace.len(),
{
    assert(trace.last() == trace[trace.len() - 1]);
    if l < trace.len() - 1 && trace.last() != Notice::Leave(id) {
        let head = trace.drop_last();
        assert(forall|i: int| 0 <= i < head.len() ==> head[i] == trace[i]);
        lemma_registered_after_leave(was, head, id, l);
    }
}

/// If what reaches the broker about `id` is what the reader of `id` has
/// sent, and `id` was not registered before, then at the moment at which the
/// broker takes a notice about `id` the peer is registered, unless the
/// notice is the one that announces it. So an announcement never finds its
/// peer registered, and a message or a departure always does.
pub proof fn lemma_known_whenever_it_speaks(
    reg: Registry,
    trace: Seq<Notice>,
    id: PeerId,
    outcomes: Seq<Outcome>,
    i: int,
)
    requires
        !reg.dom().contains(id),
        about(trace, id) == emitted(id, outcomes),
        0 <= i < trace.len(),
        trace[i].peer() == id,
    ensures
        run(reg, trace.take(i)).dom().contains(id) <==> !(trace[i] is Join),
{
    let before = trace.take(i);
    let at = lemma_one_join_first_one_leave_last(trace, id, outcomes);
    lemma_registered_after_run(reg, before, id);
    if trace[i] is Join {
        assert forall|k: int| 0 <= k < before.len() implies (#[trigger] before[k]).peer()
            != id by {
            assert(before[k] == trace[k]);
        }
        lemma_registered_after_silence(false, before, id);
    } else {
        assert(before[at.0] == trace[at.0]);
        assert forall|k: int| at.0 < k < before.len() implies #[trigger] before[k]
            != Notice::Leave(id) by {
            assert(before[k] == trace[k]);
        }
        lemma_registered_after_join(false, before, id, at.0);
    }
}

/// If what reaches the broker about `id` is what the reader of `id` has
/// sent, and `id` was not registered before, then after all of it the peer
/// is registered if and only if its reader has not ended. Once the notice
/// that a peer is gone has been taken, the registry does not hold the peer.
pub proof fn lemma_registered_while_reading(
    reg: Registry,
    trace: Seq<Notice>,
    id: PeerId,
    outcomes: Seq<Outcome>,
)
    requires
        !reg.dom().contains(id),
        about(trace, id) == emitted(id, outcomes),
    ensures
        run(reg, trace).dom().contains(id) <==> reading_after(id, outcomes),
{
    let at = lemma_one_join_first_one_leave_last(trace, id, outcomes);
    lemma_registered_after_run(reg, trace, id);
    if reading_after(id, outcomes) {
        lemma_registered_after_join(false, trace, id, at.0);
    } else {
        lemma_registered_after_leave(false, trace, id, at.1);
    }
}

/// When every reader has ended and all that the readers sent has reached
/// the broker, nobody is registered any more: a broker that started with
/// an empty registry ends with one. `outcomes` gives, for each peer, what
/// the reads of its reader gave.
pub proof fn lemma_all_gone_when_all_readers_ended(
    trace: Seq<Notice>,
    outcomes: spec_fn(PeerId) -> Seq<Outcome>,
)
    requires
        forall|i: int|
            0 <= i < trace.len() ==> about(trace, (#[trigger] trace[i]).peer()) == emitted(
                trace[i].peer(),
                outcomes(trace[i].peer()),
            ) && !reading_after(trace[i].peer(), outcomes(trace[i].peer())),
    ensures
        run(Map::empty(), trace) == Map::<PeerId, Seq<Seq<char>>>::empty(),
{
    let start = Map::<PeerId, Seq<Seq<char>>>::empty();
    assert forall|id: PeerId| !run(start, trace).dom().contains(id) by {
        if exists|i: int| 0 <= i < trace.len() && (#[trigger] trace[i]).peer() == id {
            lemma_registered_while_reading(start, trace, id, outcomes(id));
        } else {
            lemma_registered_after_run(start, trace, id);
            lemma_registered_after_silence(false, trace, id);
        }
    }
    assert(run(start, trace) =~= start);
}

} // verus!
