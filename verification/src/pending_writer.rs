//! Pending writer for concurrent downloads.
//!
//! Bounded write dispatch: a small number of writes is kept in flight, and runner
//! data is consumed no further when the writer is saturated. The functions here say
//! which write to dispatch; dispatching is left to the caller.
use crate::text::append_decimal;
use crate::writer_error::FileWriterError;
use crate::text;
use bytes::Bytes;
use std::ops::Range;
use vstd::prelude::*;
use vstd::string::*;

verus! {

/// A write request that has not completed yet.
#[derive(Debug)]
pub struct PendingWrite {
    /// Where the bytes belong.
    pub range: Range<u64>,
    /// The bytes.
    pub bytes: Bytes,
}

/// Result of a completed write.
#[derive(Debug)]
pub struct WriteCompletion {
    /// Where the bytes belong.
    pub range: Range<u64>,
    /// Whether they were written.
    pub result: Result<(), FileWriterError>,
}

/// Indicates what happened when a write was submitted.
#[derive(Clone, Copy, Debug, PartialEq, Eq, Structural)]
pub enum WriteStatus {
    /// The write is to be dispatched immediately.
    Dispatched,
    /// The writer is at capacity and the write was buffered.
    Pending,
}

/// The writer cannot accept another write.
#[derive(Debug)]
pub struct WriterFullError(pub PendingWrite);

impl WriterFullError {
    /// The message of the error.
    pub fn message(&self) -> (text: &'static str)
        ensures
            text@ == "writer cannot accept another write"@,
    {
        "writer cannot accept another write"
    }
}

/// What was accepted: its status, and the write to dispatch, if it is to be
/// dispatched.
#[derive(Debug)]
pub struct Accepted {
    /// Dispatched or buffered.
    pub status: WriteStatus,
    /// The write to dispatch.
    pub dispatch: Option<PendingWrite>,
}

/// Some write failed.
pub open spec fn any_failed(completions: Seq<WriteCompletion>) -> bool {
    exists|i: int| 0 <= i < completions.len() && (#[trigger] completions[i]).result is Err
}

/// Bounded write dispatch.
#[derive(Debug)]
pub struct PendingWriter {
    /// How many writes may be in flight.
    pub capacity: usize,
    /// How many writes are in flight.
    pub in_flight: usize,
    /// At most one write is buffered while all dispatch slots are full.
    pub pending_write: Option<PendingWrite>,
    /// Once any write fails, stop accepting and auto-dispatching writes.
    pub saw_error: bool,
}

impl PendingWriter {
    /// No more writes are in flight than may be, and a write is only buffered while
    /// all slots are full, or after an error.
    pub open spec fn wf(&self) -> bool {
        &&& self.capacity > 0
        &&& self.in_flight <= self.capacity
        &&& self.pending_write is Some && !self.saw_error ==> self.in_flight == self.capacity
    }

    /// A writer with room for at least one write.
    pub fn new(capacity: usize) -> (writer: Self)
        ensures
            writer.wf(),
            writer == (PendingWriter {
                capacity: if capacity == 0 {
                    1
                } else {
                    capacity
                },
                in_flight: 0,
                pending_write: None,
                saw_error: false,
            }),
    {
        let capacity = if capacity == 0 {
            1
        } else {
            capacity
        };
        PendingWriter { capacity, in_flight: 0, pending_write: None, saw_error: false }
    }

    /// How many writes are in flight.
    pub fn in_flight_count(&self) -> (count: usize)
        ensures
            count == self.in_flight,
    {
        self.in_flight
    }

    /// Whether all dispatch slots are full.
    pub fn is_full(&self) -> (full: bool)
        ensures
            full == (self.in_flight >= self.capacity),
    {
        self.in_flight_count() >= self.capacity
    }

    /// Whether a write is buffered.
    pub fn has_pending_write(&self) -> (pending: bool)
        ensures
            pending == self.pending_write is Some,
    {
        self.pending_write.is_some()
    }

    /// Whether nothing is in flight or buffered.
    pub fn is_idle(&self) -> (idle: bool)
        ensures
            idle == (self.in_flight == 0 && self.pending_write is None),
    {
        self.in_flight_count() == 0 && !self.has_pending_write()
    }

    /// Another write is accepted.
    pub open spec fn accepts(&self) -> bool {
        !self.saw_error && (self.in_flight < self.capacity || self.pending_write is None)
    }

    /// Whether another write is accepted.
    pub fn can_write(&self) -> (can: bool)
        ensures
            can == self.accepts(),
    {
        !self.saw_error && (!self.is_full() || !self.has_pending_write())
    }

    /// A write was accepted: it is to be dispatched where a slot was free, and is
    /// buffered otherwise.
    pub open spec fn took(
        &self,
        before: &PendingWriter,
        write: PendingWrite,
        dispatch: Option<PendingWrite>,
    ) -> bool {
        &&& self.capacity == before.capacity
        &&& self.saw_error == before.saw_error
        &&& if before.in_flight < before.capacity {
            &&& dispatch == Some(write)
            &&& self.in_flight == before.in_flight + 1
            &&& self.pending_write == before.pending_write
        } else {
            &&& dispatch is None
            &&& self.in_flight == before.in_flight
            &&& self.pending_write == Some(write)
        }
    }

    /// Submit a write. It is dispatched where a slot is free, buffered where the
    /// buffer is, and handed back otherwise or after an error.
    pub fn write_range(&mut self, range: Range<u64>, data: Bytes) -> (result: Result<
        Accepted,
        WriterFullError,
    >)
        requires
            old(self).wf(),
        ensures
            final(self).wf(),
            old(self).accepts() <==> result is Ok,
            match result {
                Ok(accepted) => {
                    &&& final(self).took(
                        old(self),
                        PendingWrite { range, bytes: data },
                        accepted.dispatch,
                    )
                    &&& accepted.status == if accepted.dispatch is Some {
                        WriteStatus::Dispatched
                    } else {
                        WriteStatus::Pending
                    }
                },
                Err(WriterFullError(refused)) => refused == (PendingWrite { range, bytes: data })
                    && *final(self) == *old(self),
            },
    {
        let write = PendingWrite { range, bytes: data };
        if self.saw_error {
            return Err(WriterFullError(write));
        }
        if !self.is_full() {
            self.in_flight = self.in_flight + 1;
            Ok(Accepted { status: WriteStatus::Dispatched, dispatch: Some(write) })
        } else if self.pending_write.is_none() {
            self.pending_write = Some(write);
            Ok(Accepted { status: WriteStatus::Pending, dispatch: None })
        } else {
            Err(WriterFullError(write))
        }
    }

    /// Some writes completed: their slots are free, and the buffered write moves up
    /// unless one of them failed.
    pub open spec fn ticked(
        &self,
        before: &PendingWriter,
        completions: Seq<WriteCompletion>,
        dispatch: Option<PendingWrite>,
    ) -> bool {
        let left = before.in_flight - completions.len();
        let failed = before.saw_error || any_failed(completions);
        let moves_up = !failed && left < before.capacity;
        &&& self.capacity == before.capacity
        &&& self.saw_error == failed
        &&& if moves_up && before.pending_write is Some {
            &&& dispatch == before.pending_write
            &&& self.pending_write is None
            &&& self.in_flight == left + 1
        } else {
            &&& dispatch is None
            &&& self.pending_write == before.pending_write
            &&& self.in_flight == left
        }
    }

    /// Take note of completed writes. Returns the write to dispatch, if any.
    pub fn try_tick(&mut self, completions: &Vec<WriteCompletion>) -> (dispatch: Option<
        PendingWrite,
    >)
        requires
            old(self).wf(),
            completions@.len() <= old(self).in_flight,
        ensures
            final(self).wf(),
            final(self).ticked(old(self), completions@, dispatch),
    {
        self.ack_completions(completions.len());
        let failed = Self::completions_have_error(completions);
        self.saw_error = self.saw_error || failed;
        if !self.saw_error {
            self.try_flush_pending()
        } else {
            None
        }
    }

    /// Whether some write failed.
    pub fn completions_have_error(completions: &Vec<WriteCompletion>) -> (failed: bool)
        ensures
            failed == any_failed(completions@),
    {
        let mut i: usize = 0;
        while i < completions.len()
            invariant
                i <= completions@.len(),
                forall|j: int|
                    0 <= j < i ==> !((#[trigger] completions@[j]).result is Err),
            decreases completions@.len() - i,
        {
            if completions[i].result.is_err() {
                assert(completions@[i as int].result is Err);
                return true;
            }
            i = i + 1;
        }
        false
    }

    fn ack_completions(&mut self, count: usize)
        requires
            count <= old(self).in_flight,
        ensures
            *final(self) == (PendingWriter {
                in_flight: (old(self).in_flight - count) as usize,
                ..*old(self)
            }),
    {
        self.in_flight = self.in_flight - count;
    }

    fn try_flush_pending(&mut self) -> (dispatch: Option<PendingWrite>)
        requires
            old(self).in_flight <= old(self).capacity,
        ensures
            final(self).capacity == old(self).capacity,
            final(self).saw_error == old(self).saw_error,
            if old(self).in_flight < old(self).capacity && old(self).pending_write is Some {
                &&& dispatch == old(self).pending_write
                &&& final(self).pending_write is None
                &&& final(self).in_flight == old(self).in_flight + 1
            } else {
                &&& dispatch is None
                &&& final(self).pending_write == old(self).pending_write
                &&& final(self).in_flight == old(self).in_flight
            },
    {
        if self.is_full() {
            return None;
        }
        let pending = self.pending_write.take();
        if pending.is_some() {
            self.in_flight = self.in_flight + 1;
        }
        pending
    }
}

/// The bytes of the completed writes.
pub open spec fn written(completions: Seq<WriteCompletion>) -> int
    decreases completions.len(),
{
    if completions.len() == 0 {
        0
    } else {
        written(completions.drop_last()) + (completions.last().range.end
            - completions.last().range.start)
    }
}

/// No write failed.
pub open spec fn all_written(completions: Seq<WriteCompletion>) -> bool {
    forall|i: int| 0 <= i < completions.len() ==> (#[trigger] completions[i]).result is Ok
}

/// No range is reversed, and the bytes can be counted on top of those that were.
pub open spec fn counts(completions: Seq<WriteCompletion>, counted: u64) -> bool {
    &&& forall|i: int|
        0 <= i < completions.len() ==> (#[trigger] completions[i]).range.start
            <= completions[i].range.end
    &&& counted + written(completions) <= u64::MAX
}

/// Whether no range is reversed, and the bytes can be counted on top of those that
/// were.
pub fn can_count(completions: &Vec<WriteCompletion>, counted: u64) -> (can: bool)
    ensures
        can == counts(completions@, counted),
{
    let mut i: usize = 0;
    while i < completions.len()
        invariant
            i <= completions@.len(),
            forall|j: int|
                0 <= j < i ==> (#[trigger] completions@[j]).range.start
                    <= completions@[j].range.end,
        decreases completions@.len() - i,
    {
        if completions[i].range.start > completions[i].range.end {
            assert(completions@[i as int].range.start > completions@[i as int].range.end);
            return false;
        }
        i = i + 1;
    }
    let mut room: u64 = u64::MAX - counted;
    i = 0;
    while i < completions.len()
        invariant
            i <= completions@.len(),
            forall|j: int|
                0 <= j < completions@.len() ==> (#[trigger] completions@[j]).range.start
                    <= completions@[j].range.end,
            room == u64::MAX - counted - written(completions@.take(i as int)),
        decreases completions@.len() - i,
    {
        let bytes = completions[i].range.end - completions[i].range.start;
        proof {
            written_grows(completions@, i + 1);
            assert(completions@.take(i + 1).drop_last() =~= completions@.take(i as int));
        }
        if bytes > room {
            return false;
        }
        room = room - bytes;
        i = i + 1;
    }
    assert(completions@.take(i as int) =~= completions@);
    true
}

/// What a failed write is reported as.
pub open spec fn failure_text(range: Range<u64>, error: FileWriterError) -> Seq<char> {
    "write failed at "@ + text::decimal(range.start as nat) + ".."@ + text::decimal(
        range.end as nat,
    ) + ": "@ + error.text()
}

fn failure_message(range: &Range<u64>, error: &FileWriterError) -> (message: String)
    ensures
        message@ == failure_text(*range, *error),
{
    let mut message = "write failed at ".to_string();
    append_decimal(&mut message, range.start);
    message.append("..");
    append_decimal(&mut message, range.end);
    message.append(": ");
    message.append(error.message().as_str());
    message
}

/// The bytes of the completed writes, or the report of the first that failed.
pub fn check_completions(completions: &Vec<WriteCompletion>) -> (result: Result<u64, String>)
    requires
        counts(completions@, 0),
    ensures
        match result {
            Ok(bytes) => all_written(completions@) && bytes == written(completions@),
            Err(message) => exists|i: int|
                {
                    &&& 0 <= i < completions@.len()
                    &&& all_written(completions@.take(i))
                    &&& (#[trigger] completions@[i]).result is Err
                    &&& message@ == failure_text(
                        completions@[i].range,
                        completions@[i].result->Err_0,
                    )
                },
        },
{
    let mut bytes: u64 = 0;
    let mut i: usize = 0;
    while i < completions.len()
        invariant
            i <= completions@.len(),
            forall|j: int|
                0 <= j < completions@.len() ==> (#[trigger] completions@[j]).range.start
                    <= completions@[j].range.end,
            written(completions@) <= u64::MAX,
            all_written(completions@.take(i as int)),
            bytes == written(completions@.take(i as int)),
        decreases completions@.len() - i,
    {
        let completion = &completions[i];
        if let Err(error) = &completion.result {
            return Err(failure_message(&completion.range, error));
        }
        proof {
            written_grows(completions@, i + 1);
            assert(completions@.take(i + 1).drop_last() =~= completions@.take(i as int));
        }
        bytes = bytes + (completion.range.end - completion.range.start);
        i = i + 1;
    }
    assert(completions@.take(i as int) =~= completions@);
    Ok(bytes)
}

/// The bytes of completed writes are not negative.
pub proof fn written_is_natural(completions: Seq<WriteCompletion>)
    requires
        forall|i: int|
            0 <= i < completions.len() ==> (#[trigger] completions[i]).range.start
                <= completions[i].range.end,
    ensures
        0 <= written(completions),
    decreases completions.len(),
{
    if completions.len() > 0 {
        written_is_natural(completions.drop_last());
        assert(completions.last() == completions[completions.len() - 1]);
    }
}

/// Fewer completions hold no more bytes.
proof fn written_grows(completions: Seq<WriteCompletion>, upto: int)
    requires
        0 <= upto <= completions.len(),
        forall|i: int|
            0 <= i < completions.len() ==> (#[trigger] completions[i]).range.start
                <= completions[i].range.end,
    ensures
        written(completions.take(upto)) <= written(completions),
    decreases completions.len() - upto,
{
    if upto == completions.len() {
        assert(completions.take(upto) =~= completions);
    } else {
        written_grows(completions, upto + 1);
        assert(completions.take(upto + 1).drop_last() =~= completions.take(upto));
        assert(completions.take(upto + 1).last() == completions[upto]);
    }
}

/// Law: no write is lost: what is accepted is either dispatched at once, or buffered
/// and dispatched as soon as a slot is free, unless a write failed.
pub proof fn buffered_write_moves_up(
    before: PendingWriter,
    after: PendingWriter,
    completions: Seq<WriteCompletion>,
    dispatch: Option<PendingWrite>,
)
    requires
        before.wf(),
        before.pending_write is Some,
        !before.saw_error,
        0 < completions.len() <= before.in_flight,
        !any_failed(completions),
        after.ticked(&before, completions, dispatch),
    ensures
        dispatch == before.pending_write,
        after.pending_write is None,
        after.accepts(),
{
}

/// Law: after a failed write nothing is accepted or dispatched any more.
pub proof fn failure_stops_the_writer(
    before: PendingWriter,
    after: PendingWriter,
    completions: Seq<WriteCompletion>,
    dispatch: Option<PendingWrite>,
)
    requires
        after.ticked(&before, completions, dispatch),
        before.saw_error || any_failed(completions),
    ensures
        dispatch is None,
        !after.accepts(),
        after.pending_write == before.pending_write,
{
}

} // verus!
