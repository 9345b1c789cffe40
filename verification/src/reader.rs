//! The reader of one connection.
//!
//! A reader announces its peer, passes on every line that it reads, and
//! says once that the peer is gone when a read fails or the connection
//! ends. Reading itself happens elsewhere: the reader is told what each read
//! gave and answers with the event to send, if there is one.

use crate::event::{Event, Notice};
use crate::peer::PeerId;
use vstd::prelude::*;

verus! {

/// What one attempt to read a line from the connection gave.
#[derive(Debug)]
pub enum ReadOutcome {
    /// One line of text, without the line feed that ended it.
    Line(String),
    /// The read failed, or what was read is not valid text.
    Failed,
    /// The connection has come to its end.
    Closed,
}

/// A read outcome with the text as a sequence of characters.
pub enum Outcome {
    Line(Seq<char>),
    Failed,
    Closed,
}

impl View for ReadOutcome {
    type V = Outcome;

    open spec fn view(&self) -> Outcome {
        match self {
            ReadOutcome::Line(text) => Outcome::Line(text@),
            ReadOutcome::Failed => Outcome::Failed,
            ReadOutcome::Closed => Outcome::Closed,
        }
    }
}

/// One step of the reader of `id`. `reading` tells whether the reader was
/// still reading; the result is whether it still is, and what it sends.
/// A line is passed on. A failure or the end of the connection makes the
/// reader say that the peer is gone, and ends it. A reader that has ended
/// sends nothing.
pub open spec fn reader_step(id: PeerId, reading: bool, outcome: Outcome) -> (bool, Option<Notice>) {
    if !reading {
        (false, None)
    } else {
        match outcome {
            Outcome::Line(text) => (true, Some(Notice::Message(id, text))),
            Outcome::Failed => (false, Some(Notice::Leave(id))),
            Outcome::Closed => (false, Some(Notice::Leave(id))),
        }
    }
}

/// What an event that may be missing says.
pub open spec fn said<H>(event: Option<Event<H>>) -> Option<Notice> {
    match event {
        Some(e) => Some(e@),
        None => None,
    }
}

pub struct Reader {
    id: PeerId,
    reading: bool,
}

impl Reader {
    /// The peer that this reader reads from.
    pub closed spec fn id(&self) -> PeerId {
        self.id
    }

    /// Whether this reader has not ended yet.
    pub closed spec fn reading(&self) -> bool {
        self.reading
    }

    /// Starts the reader of the connection `conn`, which was given the
    /// identifier `id`. The event that comes with it announces the peer and
    /// is to be sent before anything else.
    pub fn start<H>(id: PeerId, conn: H) -> (out: (Reader, Event<H>))
        ensures
            out.0.id() == id,
            out.0.reading(),
            out.1 == Event::Join(id, conn),
    {
        (Reader { id, reading: true }, Event::Join(id, conn))
    }

    /// The peer that this reader reads from.
    pub fn peer(&self) -> (id: PeerId)
        ensures
            id == self.id(),
    {
        self.id
    }

    /// Whether this reader has not ended yet. Once it has, there is nothing
    /// more to read or to send.
    pub fn is_reading(&self) -> (reading: bool)
        ensures
            reading == self.reading(),
    {
        self.reading
    }

    /// Takes what a read gave and returns the event to send, if any.
    pub fn take<H>(&mut self, outcome: ReadOutcome) -> (event: Option<Event<H>>)
        ensures
            final(self).id() == old(self).id(),
            (final(self).reading(), said(event)) == reader_step(
                old(self).id(),
                old(self).reading(),
                outcome@,
            ),
            old(self).reading() ==> (outcome matches ReadOutcome::Line(text) ==> event == Some(
                Event::<H>::Message(old(self).id(), text),
            )),
    {
        if !self.reading {
            return None;
        }
        match outcome {
            ReadOutcome::Line(text) => Some(Event::Message(self.id, text)),
            ReadOutcome::Failed => {
                self.reading = false;
                Some(Event::Leave(self.id))
            },
            ReadOutcome::Closed => {
                self.reading = false;
                Some(Event::Leave(self.id))
            },
        }
    }
}

/// Whether a reader is still reading after its reads have given `outcomes`.
pub open spec fn reading_after(id: PeerId, outcomes: Seq<Outcome>) -> bool
    decreases outcomes.len(),
{
    if outcomes.len() == 0 {
        true
    } else {
        reader_step(id, reading_after(id, outcomes.drop_last()), outcomes.last()).0
    }
}

/// Everything that the reader of `id` sends, from its start on, when its
/// reads give `outcomes`.
pub open spec fn emitted(id: PeerId, outcomes: Seq<Outcome>) -> Seq<Notice>
    decreases outcomes.len(),
{
    if outcomes.len() == 0 {
        seq![Notice::Join(id)]
    } else {
        let earlier = emitted(id, outcomes.drop_last());
        match reader_step(id, reading_after(id, outcomes.drop_last()), outcomes.last()).1 {
            Some(notice) => earlier.push(notice),
            None => earlier,
        }
    }
}

/// A reader is still reading as long as every read has given a line.
pub proof fn lemma_reading_while_lines_come(id: PeerId, outcomes: Seq<Outcome>)
    ensures
        reading_after(id, outcomes) <==> forall|i: int|
            0 <= i < outcomes.len() ==> #[trigger] outcomes[i] is Line,
    decreases outcomes.len(),
{
    if outcomes.len() > 0 {
        let head = outcomes.drop_last();
        lemma_reading_while_lines_come(id, head);
        assert(forall|i: int| 0 <= i < head.len() ==> head[i] == outcomes[i]);
        if reading_after(id, outcomes) {
            assert forall|i: int| 0 <= i < outcomes.len() implies #[trigger] outcomes[i] is Line by {
                if i < head.len() {
                    assert(head[i] is Line);
                }
            }
        }
    }
}

/// Whatever its reads give, a reader sends one announcement of its peer and
/// sends it first; then one message for each line; and, once a read has
/// given something other than a line, one notice that the peer is gone,
/// after which it sends nothing. All of it is about its own peer.
pub proof fn lemma_reader_keeps_the_protocol(id: PeerId, outcomes: Seq<Outcome>)
    ensures
        ({
            let sent = emitted(id, outcomes);
            &&& sent.len() >= 1
            &&& sent[0] == Notice::Join(id)
            &&& forall|k: int| 0 <= k < sent.len() ==> (#[trigger] sent[k]).peer() == id
            &&& forall|k: int| 1 <= k < sent.len() ==> !(#[trigger] sent[k] is Join)
            &&& forall|k: int| 0 <= k < sent.len() - 1 ==> !(#[trigger] sent[k] is Leave)
            &&& sent.last() is Leave <==> !reading_after(id, outcomes)
        }),
    decreases outcomes.len(),
{
    if outcomes.len() > 0 {
        lemma_reader_keeps_the_protocol(id, outcomes.drop_last());
    }
}

} // verus!
