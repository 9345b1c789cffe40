//! The writer of one connection.
//!
//! A writer takes the lines of its peer's outbound channel one by one and
//! has each written to the connection. It ends when the channel is closed
//! and holds nothing more, or when a write fails. Waiting for a line and
//! writing happen elsewhere: the writer is told what came of each and
//! answers with what to do next.

use vstd::prelude::*;

verus! {

/// What the writer is told.
#[derive(Debug)]
pub enum WriterInput {
    /// The outbound channel gave this line.
    Line(String),
    /// The outbound channel is closed and holds nothing more.
    Drained,
    /// The line handed out last has been written in full.
    Written,
    /// Writing the line handed out last has failed.
    WriteFailed,
}

/// What is to be done next for the writer.
#[derive(Debug)]
pub enum WriterStep {
    /// Wait for the next line of the outbound channel.
    Receive,
    /// Write this line to the connection.
    Write(String),
    /// Close the writing side of the connection. The writer has ended.
    Close,
    /// Report that writing failed and let go of what the channel still
    /// holds. The writer has ended.
    Abandon,
    /// Nothing: the writer had ended before.
    Stop,
}

/// A writer input with the text as a sequence of characters.
pub enum Fed {
    Line(Seq<char>),
    Drained,
    Written,
    WriteFailed,
}

/// A writer step with the text as a sequence of characters.
pub enum Move {
    Receive,
    Write(Seq<char>),
    Close,
    Abandon,
    Stop,
}

impl View for WriterInput {
    type V = Fed;

    open spec fn view(&self) -> Fed {
        match self {
            WriterInput::Line(text) => Fed::Line(text@),
            WriterInput::Drained => Fed::Drained,
            WriterInput::Written => Fed::Written,
            WriterInput::WriteFailed => Fed::WriteFailed,
        }
    }
}

impl View for WriterStep {
    type V = Move;

    open spec fn view(&self) -> Move {
        match self {
            WriterStep::Receive => Move::Receive,
            WriterStep::Write(text) => Move::Write(text@),
            WriterStep::Close => Move::Close,
            WriterStep::Abandon => Move::Abandon,
            WriterStep::Stop => Move::Stop,
        }
    }
}

/// One step of a writer. `ended` tells whether the writer had ended; the
/// result is whether it has now, and what is to be done. A line is written
/// as it came. After a write the next line is waited for. The end of the
/// channel closes the connection, a failed write abandons it, and either
/// ends the writer, which from then on does nothing.
pub open spec fn writer_step(ended: bool, fed: Fed) -> (bool, Move) {
    if ended {
        (true, Move::Stop)
    } else {
        match fed {
            Fed::Line(text) => (false, Move::Write(text)),
            Fed::Drained => (true, Move::Close),
            Fed::Written => (false, Move::Receive),
            Fed::WriteFailed => (true, Move::Abandon),
        }
    }
}

pub struct Writer {
    ended: bool,
}

impl Writer {
    /// Whether this writer has ended.
    pub closed spec fn ended(&self) -> bool {
        self.ended
    }

    /// A writer at its start. The first thing to do for it is to wait for a
    /// line.
    pub fn new() -> (writer: Self)
        ensures
            !writer.ended(),
    {
        Writer { ended: false }
    }

    /// Whether this writer has ended.
    pub fn has_ended(&self) -> (ended: bool)
        ensures
            ended == self.ended(),
    {
        self.ended
    }

    /// Takes what came of the last step and returns the next one.
    pub fn advance(&mut self, input: WriterInput) -> (step: WriterStep)
        ensures
            (final(self).ended(), step@) == writer_step(old(self).ended(), input@),
            !old(self).ended() ==> (input matches WriterInput::Line(text) ==> step
                == WriterStep::Write(text)),
    {
        if self.ended {
            return WriterStep::Stop;
        }
        match input {
            WriterInput::Line(text) => WriterStep::Write(text),
            WriterInput::Drained => {
                self.ended = true;
                WriterStep::Close
            },
            WriterInput::Written => WriterStep::Receive,
            WriterInput::WriteFailed => {
                self.ended = true;
                WriterStep::Abandon
            },
        }
    }
}

/// Whether a writer has ended after it has been told `inputs`.
pub open spec fn ended_after(inputs: Seq<Fed>) -> bool
    decreases inputs.len(),
{
    if inputs.len() == 0 {
        false
    } else {
        writer_step(ended_after(inputs.drop_last()), inputs.last()).0
    }
}

/// The step that a writer answers to the last of `inputs`.
pub open spec fn answer(inputs: Seq<Fed>) -> Move
    recommends
        inputs.len() > 0,
{
    writer_step(ended_after(inputs.drop_last()), inputs.last()).1
}

/// A writer has ended exactly when it has been told that the channel is
/// drained or that a write failed.
pub proof fn lemma_ended_by_drain_or_failure(inputs: Seq<Fed>)
    ensures
        ended_after(inputs) <==> exists|k: int|
            0 <= k < inputs.len() && (#[trigger] inputs[k] is Drained || inputs[k] is WriteFailed),
    decreases inputs.len(),
{
    if inputs.len() > 0 {
        let head = inputs.drop_last();
        lemma_ended_by_drain_or_failure(head);
        assert(inputs.last() == inputs[inputs.len() - 1]);
        if ended_after(head) {
            let k = choose|k: int|
                0 <= k < head.len() && (#[trigger] head[k] is Drained || head[k] is WriteFailed);
            assert(inputs[k] == head[k]);
        }
        if ended_after(inputs) && !ended_after(head) {
            assert(inputs[inputs.len() - 1] is Drained || inputs[inputs.len() - 1] is WriteFailed);
        }
        if !ended_after(inputs) {
            assert forall|k: int| 0 <= k < inputs.len() implies !(#[trigger] inputs[k] is Drained
                || inputs[k] is WriteFailed) by {
                if k < head.len() {
                    assert(head[k] == inputs[k]);
                }
            }
        }
    }
}

/// Once a write has failed or the channel is drained, nothing is written
/// any more: whatever the writer is told afterwards, it answers that there
/// is nothing to do.
pub proof fn lemma_nothing_after_the_end(inputs: Seq<Fed>, k: int)
    requires
        0 <= k < inputs.len() - 1,
        inputs[k] is Drained || inputs[k] is WriteFailed,
    ensures
        answer(inputs) == Move::Stop,
{
    let head = inputs.drop_last();
    assert(head[k] == inputs[k]);
    lemma_ended_by_drain_or_failure(head);
}

} // verus!
