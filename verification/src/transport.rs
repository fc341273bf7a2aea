//! Collecting the reply to a directive from the reads of a session.
//!
//! One read may bring only a part of the reply, nothing at all, or an error.
//! An [`Exchange`] takes what each read brought and tells whether to read
//! again. The caller does the reading.

use crate::block::{block_payload, is_framed};
use crate::command::Reply;
use vstd::prelude::*;

verus! {

/// What one read of the session brought.
#[derive(Debug, PartialEq, Eq)]
pub enum ReadOutcome {
    /// Bytes of the reply. No bytes at all count as the end of the data.
    Data(Vec<u8>),
    /// The session has no more data.
    EndOfData,
    /// The read failed.
    Failed,
}

/// What one read brought, as contracts see it.
pub enum ReadEvent {
    Data(Seq<u8>),
    EndOfData,
    Failed,
}

impl View for ReadOutcome {
    type V = ReadEvent;

    open spec fn view(&self) -> ReadEvent {
        match self {
            ReadOutcome::Data(chunk) => ReadEvent::Data(chunk@),
            ReadOutcome::EndOfData => ReadEvent::EndOfData,
            ReadOutcome::Failed => ReadEvent::Failed,
        }
    }
}

/// What the caller of an exchange does next.
#[derive(Debug, Clone, Copy, PartialEq, Eq, Structural)]
pub enum Next {
    /// Read from the session and hand over what came.
    Read,
    /// Stop: the reply is complete.
    Done,
}

/// The state of an exchange, as contracts see it.
pub struct ExchangeModel {
    /// The reply that the directive asks for.
    pub reply: Reply,
    /// The bytes received so far, in the order of their arrival.
    pub received: Seq<u8>,
    /// Whether the reply is complete.
    pub done: bool,
    /// Whether the read that completed the reply had failed.
    pub failed: bool,
}

/// The state in which an exchange starts. After an action nothing is read.
pub open spec fn begun(reply: Reply) -> ExchangeModel {
    ExchangeModel { reply, received: Seq::empty(), done: reply == Reply::Nothing, failed: false }
}

/// Whether a read brought bytes.
pub open spec fn brings_bytes(event: ReadEvent) -> bool {
    event matches ReadEvent::Data(chunk) && chunk.len() > 0
}

/// The bytes that a read brought.
pub open spec fn bytes_of(event: ReadEvent) -> Seq<u8> {
    match event {
        ReadEvent::Data(chunk) => chunk,
        _ => Seq::empty(),
    }
}

/// The state after one read.
///
/// Bytes are appended. A read that brings none ends the reply, whether the
/// data ended or the read failed; only a block reply that holds no byte yet
/// goes on and is asked for again. A complete reply takes no more.
pub open spec fn after_read(state: ExchangeModel, event: ReadEvent) -> ExchangeModel {
    if state.done {
        state
    } else if brings_bytes(event) {
        ExchangeModel { received: state.received + bytes_of(event), ..state }
    } else if state.reply == Reply::Block && state.received.len() == 0 {
        state
    } else {
        ExchangeModel { done: true, failed: event is Failed, ..state }
    }
}

/// The state after a sequence of reads, the first of them first.
pub open spec fn after_reads(state: ExchangeModel, events: Seq<ReadEvent>) -> ExchangeModel
    decreases events.len(),
{
    if events.len() == 0 {
        state
    } else {
        after_read(after_reads(state, events.drop_last()), events.last())
    }
}

/// All the bytes that a sequence of reads brought, in order.
pub open spec fn bytes_of_all(events: Seq<ReadEvent>) -> Seq<u8>
    decreases events.len(),
{
    if events.len() == 0 {
        Seq::empty()
    } else {
        bytes_of_all(events.drop_last()) + bytes_of(events.last())
    }
}

/// What holds of an exchange from its start and after every read: after an
/// action nothing is read and nothing received; a block reply that is
/// complete holds at least one byte; and only a complete reply was ended by
/// a failure.
pub open spec fn consistent(state: ExchangeModel) -> bool {
    &&& state.reply == Reply::Nothing ==> state.done && state.received.len() == 0
    &&& state.reply == Reply::Block && state.done ==> state.received.len() > 0
    &&& state.failed ==> state.done
}

/// What the caller does in a state.
pub open spec fn next_in(state: ExchangeModel) -> Next {
    if state.done {
        Next::Done
    } else {
        Next::Read
    }
}

/// The exchange that follows one directive.
#[derive(Debug)]
pub struct Exchange {
    reply: Reply,
    received: Vec<u8>,
    done: bool,
    failed: bool,
}

impl View for Exchange {
    type V = ExchangeModel;

    closed spec fn view(&self) -> ExchangeModel {
        ExchangeModel {
            reply: self.reply,
            received: self.received@,
            done: self.done,
            failed: self.failed,
        }
    }
}

impl Exchange {
    /// Starts the exchange for a directive that asks for `reply`.
    pub fn begin(reply: Reply) -> (e: Exchange)
        ensures
            e@ == begun(reply),
            consistent(e@),
    {
        let done: bool = match reply {
            Reply::Nothing => true,
            _ => false,
        };
        Exchange { reply, received: Vec::new(), done, failed: false }
    }

    /// Takes what one read brought and tells what to do next.
    pub fn on_read(&mut self, outcome: ReadOutcome) -> (next: Next)
        ensures
            final(self)@ == after_read(old(self)@, outcome@),
            next == next_in(final(self)@),
            consistent(old(self)@) ==> consistent(final(self)@),
    {
        if self.done {
            return Next::Done;
        }
        let mut failed: bool = false;
        match outcome {
            ReadOutcome::Data(mut chunk) => {
                if chunk.len() > 0 {
                    self.received.append(&mut chunk);
                    return Next::Read;
                }
            },
            ReadOutcome::EndOfData => {},
            ReadOutcome::Failed => {
                failed = true;
            },
        }
        let waits: bool = match self.reply {
            Reply::Block => self.received.len() == 0,
            _ => false,
        };
        if waits {
            Next::Read
        } else {
            self.done = true;
            self.failed = failed;
            Next::Done
        }
    }

    /// What to do next.
    pub fn next(&self) -> (next: Next)
        ensures
            next == next_in(self@),
    {
        if self.done {
            Next::Done
        } else {
            Next::Read
        }
    }

    /// Whether the read that completed the reply had failed.
    pub fn ended_by_failure(&self) -> (b: bool)
        ensures
            b == self@.failed,
    {
        self.failed
    }

    /// The bytes received so far.
    pub fn received(&self) -> (bytes: &[u8])
        ensures
            bytes@ == self@.received,
    {
        self.received.as_slice()
    }

    /// Ends the exchange and hands out the bytes received.
    pub fn into_response(self) -> (bytes: Vec<u8>)
        ensures
            bytes@ == self@.received,
    {
        self.received
    }
}

/// Whether every read of `events` brought bytes.
pub open spec fn all_bring_bytes(events: Seq<ReadEvent>) -> bool {
    forall|i: int| 0 <= i < events.len() ==> brings_bytes(#[trigger] events[i])
}

/// An exchange starts consistent and every read keeps it so.
pub proof fn lemma_reads_keep_consistent(state: ExchangeModel, event: ReadEvent)
    ensures
        forall|reply: Reply| consistent(#[trigger] begun(reply)),
        consistent(state) ==> consistent(after_read(state, event)),
        after_read(state, event).reply == state.reply,
{
}

/// What holds of an exchange after any reads whatever: it is consistent, it
/// keeps the reply it was begun for, and after an action it has read
/// nothing.
pub proof fn lemma_exchange_invariant(reply: Reply, events: Seq<ReadEvent>)
    ensures
        consistent(after_reads(begun(reply), events)),
        after_reads(begun(reply), events).reply == reply,
        reply == Reply::Nothing ==> after_reads(begun(reply), events) == begun(reply),
    decreases events.len(),
{
    if events.len() > 0 {
        lemma_exchange_invariant(reply, events.drop_last());
    }
}

/// Reads may be taken in two parts: the state after all of them is the state
/// after the second part, begun where the first part ended.
pub proof fn lemma_reads_in_two_parts(
    state: ExchangeModel,
    first: Seq<ReadEvent>,
    second: Seq<ReadEvent>,
)
    ensures
        after_reads(state, first + second) == after_reads(after_reads(state, first), second),
    decreases second.len(),
{
    if second.len() == 0 {
        assert(first + second =~= first);
    } else {
        lemma_reads_in_two_parts(state, first, second.drop_last());
        assert((first + second).drop_last() =~= first + second.drop_last());
    }
}

/// Bytes only arrive: what was received before a read is the start of what
/// is received after it, and a complete reply stays as it is.
pub proof fn lemma_received_grows(state: ExchangeModel, event: ReadEvent)
    ensures
        state.received.is_prefix_of(after_read(state, event).received),
        state.done ==> after_read(state, event) == state,
{
}

/// Reads that all bring bytes leave the exchange open, with those bytes
/// appended in order.
pub proof fn lemma_chunks_are_appended(state: ExchangeModel, events: Seq<ReadEvent>)
    requires
        !state.done,
        all_bring_bytes(events),
    ensures
        after_reads(state, events) == (ExchangeModel {
            received: state.received + bytes_of_all(events),
            ..state
        }),
    decreases events.len(),
{
    if events.len() == 0 {
        assert(state.received + bytes_of_all(events) =~= state.received);
    } else {
        lemma_chunks_are_appended(state, events.drop_last());
        assert(brings_bytes(events.last()));
        assert((state.received + bytes_of_all(events.drop_last())) + bytes_of(events.last())
            =~= state.received + bytes_of_all(events));
    }
}

/// The reply is what the reads brought: after reads that all bring bytes
/// and one that brings none, an exchange holds exactly those bytes. A text
/// reply is then complete; a block reply is complete unless it is still
/// empty.
pub proof fn lemma_reply_is_the_bytes_read(
    reply: Reply,
    chunks: Seq<ReadEvent>,
    closing: ReadEvent,
)
    requires
        reply != Reply::Nothing,
        all_bring_bytes(chunks),
        !brings_bytes(closing),
    ensures
        after_reads(begun(reply), chunks.push(closing)).received == bytes_of_all(chunks),
        after_reads(begun(reply), chunks.push(closing)).done <==> (reply == Reply::Text
            || chunks.len() > 0),
    decreases chunks.len(),
{
    lemma_chunks_are_appended(begun(reply), chunks);
    assert(chunks.push(closing).drop_last() =~= chunks);
    assert(Seq::<u8>::empty() + bytes_of_all(chunks) =~= bytes_of_all(chunks));
    if chunks.len() > 0 {
        lemma_bytes_of_all_len(chunks);
    }
}

/// Reads that all bring bytes bring at least as many bytes as there are
/// reads.
pub proof fn lemma_bytes_of_all_len(events: Seq<ReadEvent>)
    requires
        all_bring_bytes(events),
    ensures
        bytes_of_all(events).len() >= events.len(),
    decreases events.len(),
{
    if events.len() > 0 {
        lemma_bytes_of_all_len(events.drop_last());
        assert(brings_bytes(events.last()));
    }
}

/// An exchange depends on the bytes that arrive and not on how the reads
/// cut them: two exchanges for the same kind of reply whose reads brought
/// the same bytes and ended alike end in the same state. A block reply then
/// holds the same payload. So does an exchange that is run again with the
/// same reads.
pub proof fn lemma_same_bytes_same_reply(
    reply: Reply,
    first: Seq<ReadEvent>,
    second: Seq<ReadEvent>,
    closing: ReadEvent,
)
    requires
        all_bring_bytes(first),
        all_bring_bytes(second),
        !brings_bytes(closing),
        bytes_of_all(first) == bytes_of_all(second),
    ensures
        after_reads(begun(reply), first.push(closing)) == after_reads(
            begun(reply),
            second.push(closing),
        ),
        block_payload(after_reads(begun(reply), first.push(closing)).received) == block_payload(
            after_reads(begun(reply), second.push(closing)).received,
        ),
        is_framed(after_reads(begun(reply), first.push(closing)).received) == is_framed(
            after_reads(begun(reply), second.push(closing)).received,
        ),
{
    if reply == Reply::Nothing {
        lemma_exchange_invariant(reply, first.push(closing));
        lemma_exchange_invariant(reply, second.push(closing));
    } else {
        lemma_chunks_are_appended(begun(reply), first);
        lemma_chunks_are_appended(begun(reply), second);
        assert(first.push(closing).drop_last() =~= first);
        assert(second.push(closing).drop_last() =~= second);
    }
}

} // verus!
