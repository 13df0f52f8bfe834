//! Ordered, chunked channels with a bounded acceptance window.
//!
//! A writer offers a chunk; the channel takes as much of it as the window has
//! room for and hands the rest back, so nothing is queued without bound and
//! nothing is dropped. The reader drains what was taken, in order.
use vstd::prelude::*;
use crate::error::{ErrorContext, Violation};

verus! {

/// How the writing side of a stream has ended, if it has.
#[derive(PartialEq, Eq, Structural, Clone, Copy, Debug)]
pub enum WriterEnd {
    /// The writer may still offer chunks.
    Open,
    /// The writer closed the stream: the reader drains, then sees the end.
    Closed,
    /// The writer ended the stream with an error: the reader drains, then sees it.
    Errored(ErrorContext),
}

/// The abstract state of one stream channel.
pub struct StreamView<T> {
    /// Items taken from the writer and not yet read, oldest first.
    pub buffered: Seq<T>,
    /// The most items that may wait unread.
    pub window: nat,
    pub end: WriterEnd,
    pub writer_live: bool,
    pub reader_live: bool,
    /// Every item ever taken from the writer, in order.
    pub sent: Seq<T>,
    /// Every item ever handed to the reader, in order.
    pub received: Seq<T>,
}

/// How a write went; the items not taken always come back with it.
#[derive(PartialEq, Eq, Structural, Clone, Copy, Debug)]
pub enum WriteStatus {
    /// A prefix, as long as the window allowed, was taken.
    Accepted,
    /// The window is full: nothing was taken, and the writing task would
    /// suspend until the reader makes room.
    Blocked,
    /// The reader is gone: nothing was taken, and nothing ever will be.
    Cancelled,
    /// The writer has already closed or failed the stream.
    Closed,
}

/// The result of offering a chunk: the status and the items not taken.
pub struct StreamWrite<T> {
    pub status: WriteStatus,
    pub remainder: Vec<T>,
}

/// What one read of a stream observes.
pub enum StreamRead<T> {
    /// The items waiting, oldest first (never empty).
    Items(Vec<T>),
    /// Nothing waits and the writer is still open: the reading task would suspend.
    Pending,
    /// Everything was read and the writer closed the stream.
    End,
    /// Everything was read and the writer ended the stream with this error.
    Errored(ErrorContext),
}

/// The writing endpoint of a stream. It cannot be copied.
pub struct StreamWriter {
    index: usize,
}

/// The reading endpoint of a stream. It cannot be copied.
pub struct StreamReader {
    index: usize,
}

impl StreamWriter {
    /// The channel this endpoint belongs to.
    pub closed spec fn id(&self) -> nat {
        self.index as nat
    }

    pub fn index(&self) -> (r: usize)
        ensures
            r == self.id(),
    {
        self.index
    }
}

impl StreamReader {
    /// The channel this endpoint belongs to.
    pub closed spec fn id(&self) -> nat {
        self.index as nat
    }

    pub fn index(&self) -> (r: usize)
        ensures
            r == self.id(),
    {
        self.index
    }
}

impl<T> StreamView<T> {
    /// The window bounds what waits unread and, while the reader is there,
    /// what was read followed by what waits is exactly what was taken.
    pub open spec fn wf(self) -> bool {
        &&& self.buffered.len() <= self.window
        &&& self.reader_live ==> self.received + self.buffered == self.sent
    }

    /// Room left in the window.
    pub open spec fn available(self) -> int {
        self.window - self.buffered.len()
    }
}

/// A newly created stream with window `window`: open, empty, both endpoints held.
pub open spec fn fresh_stream<T>(window: nat) -> StreamView<T> {
    StreamView {
        buffered: Seq::empty(),
        window,
        end: WriterEnd::Open,
        writer_live: true,
        reader_live: true,
        sent: Seq::empty(),
        received: Seq::empty(),
    }
}

/// How a write of `chunk` goes.
pub open spec fn write_status<T>(s: StreamView<T>) -> WriteStatus {
    if !s.reader_live {
        WriteStatus::Cancelled
    } else if s.end != WriterEnd::Open {
        WriteStatus::Closed
    } else if s.available() <= 0 {
        WriteStatus::Blocked
    } else {
        WriteStatus::Accepted
    }
}

/// How many items of `chunk` a write takes.
pub open spec fn accepted_count<T>(s: StreamView<T>, chunk: Seq<T>) -> nat {
    if write_status(s) != WriteStatus::Accepted {
        0
    } else if chunk.len() < s.available() {
        chunk.len()
    } else {
        s.available() as nat
    }
}

/// The items of `chunk` that a write hands back.
pub open spec fn write_remainder<T>(s: StreamView<T>, chunk: Seq<T>) -> Seq<T> {
    chunk.skip(accepted_count(s, chunk) as int)
}

/// The stream after a write of `chunk`.
pub open spec fn after_stream_write<T>(s: StreamView<T>, chunk: Seq<T>) -> StreamView<T> {
    let taken = chunk.take(accepted_count(s, chunk) as int);
    StreamView { buffered: s.buffered + taken, sent: s.sent + taken, ..s }
}

/// What a read reports when nothing waits.
pub open spec fn idle_read<T>(s: StreamView<T>) -> StreamRead<T> {
    match s.end {
        WriterEnd::Open => StreamRead::Pending,
        WriterEnd::Closed => StreamRead::End,
        WriterEnd::Errored(e) => StreamRead::Errored(e),
    }
}

/// The stream after a read: everything waiting has been handed over.
pub open spec fn after_stream_read<T>(s: StreamView<T>) -> StreamView<T> {
    StreamView { buffered: Seq::empty(), received: s.received + s.buffered, ..s }
}

/// The stream after the writer closes it; closing twice changes nothing.
pub open spec fn after_close<T>(s: StreamView<T>) -> StreamView<T> {
    if s.end == WriterEnd::Open {
        StreamView { end: WriterEnd::Closed, ..s }
    } else {
        s
    }
}

/// The stream after the writer ends it with the error `e`.
pub open spec fn after_stream_fail<T>(s: StreamView<T>, e: ErrorContext) -> StreamView<T> {
    if s.end == WriterEnd::Open {
        StreamView { end: WriterEnd::Errored(e), ..s }
    } else {
        s
    }
}

/// The stream after the writer is dropped: an open stream is closed.
pub open spec fn after_stream_writer_drop<T>(s: StreamView<T>) -> StreamView<T> {
    StreamView { writer_live: false, ..after_close(s) }
}

/// The stream after the reader is dropped: what waits is released, and
/// every later write reports cancellation.
pub open spec fn after_stream_reader_drop<T>(s: StreamView<T>) -> StreamView<T> {
    StreamView { reader_live: false, buffered: Seq::empty(), ..s }
}

impl<T> StreamRead<T> {
    /// The items this read handed over (none unless `Items`).
    pub open spec fn items(self) -> Seq<T> {
        match self {
            StreamRead::Items(v) => v@,
            _ => Seq::empty(),
        }
    }
}

/// One operation on a stream by its two endpoints.
pub enum StreamOp<T> {
    Write(Seq<T>),
    Read,
    Close,
}

/// The stream after one operation.
pub open spec fn stream_step<T>(s: StreamView<T>, op: StreamOp<T>) -> StreamView<T> {
    match op {
        StreamOp::Write(chunk) => after_stream_write(s, chunk),
        StreamOp::Read => after_stream_read(s),
        StreamOp::Close => after_close(s),
    }
}

/// The stream after a sequence of operations, the first applied first.
pub open spec fn stream_run<T>(s: StreamView<T>, ops: Seq<StreamOp<T>>) -> StreamView<T>
    decreases ops.len(),
{
    if ops.len() == 0 {
        s
    } else {
        stream_run(stream_step(s, ops[0]), ops.skip(1))
    }
}

/// The items that the writes of `ops` had taken, in the order taken.
pub open spec fn accepted_items<T>(s: StreamView<T>, ops: Seq<StreamOp<T>>) -> Seq<T>
    decreases ops.len(),
{
    if ops.len() == 0 {
        Seq::empty()
    } else {
        let first = match ops[0] {
            StreamOp::Write(chunk) => chunk.take(accepted_count(s, chunk) as int),
            _ => Seq::empty(),
        };
        first + accepted_items(stream_step(s, ops[0]), ops.skip(1))
    }
}

/// The items of every chunk that `ops` writes, in order.
pub open spec fn written_items<T>(ops: Seq<StreamOp<T>>) -> Seq<T>
    decreases ops.len(),
{
    if ops.len() == 0 {
        Seq::empty()
    } else {
        let first = match ops[0] {
            StreamOp::Write(chunk) => chunk,
            _ => Seq::empty(),
        };
        first + written_items(ops.skip(1))
    }
}

/// Whether each write of `ops`, applied from `s`, is taken whole.
pub open spec fn all_taken<T>(s: StreamView<T>, ops: Seq<StreamOp<T>>) -> bool
    decreases ops.len(),
{
    if ops.len() == 0 {
        true
    } else {
        let whole = match ops[0] {
            StreamOp::Write(chunk) => accepted_count(s, chunk) == chunk.len(),
            _ => true,
        };
        whole && all_taken(stream_step(s, ops[0]), ops.skip(1))
    }
}

proof fn lemma_taken_whole<T>(s: StreamView<T>, ops: Seq<StreamOp<T>>)
    requires
        all_taken(s, ops),
    ensures
        accepted_items(s, ops) == written_items(ops),
    decreases ops.len(),
{
    if ops.len() > 0 {
        lemma_taken_whole(stream_step(s, ops[0]), ops.skip(1));
        match ops[0] {
            StreamOp::Write(chunk) => {
                assert(chunk.take(accepted_count(s, chunk) as int) =~= chunk);
            },
            _ => {},
        }
    }
}

/// Every operation keeps a stream well formed.
pub proof fn lemma_step_keeps_wf<T>(s: StreamView<T>, op: StreamOp<T>)
    requires
        s.wf(),
    ensures
        stream_step(s, op).wf(),
        stream_step(s, op).reader_live == s.reader_live,
        stream_step(s, op).window == s.window,
{
    match op {
        StreamOp::Write(chunk) => {
            let k = accepted_count(s, chunk);
            let taken = chunk.take(k as int);
            if s.reader_live {
                assert(s.received + (s.buffered + taken) =~= (s.received + s.buffered) + taken);
            }
        },
        StreamOp::Read => {
            assert(s.received + s.buffered + Seq::<T>::empty() =~= s.received + s.buffered);
        },
        StreamOp::Close => {},
    }
}

/// Items reach the reader in the order the writer's chunks were taken, none
/// lost and none repeated: after any sequence of writes, reads and closes on a
/// fresh stream, what was read followed by what still waits is exactly what
/// the writes took, chunk after chunk; and no more than the window ever waits.
pub proof fn lemma_stream_order<T>(window: nat, ops: Seq<StreamOp<T>>)
    ensures
        stream_run(fresh_stream::<T>(window), ops).received + stream_run(
            fresh_stream::<T>(window),
            ops,
        ).buffered == accepted_items(fresh_stream::<T>(window), ops),
        stream_run(fresh_stream::<T>(window), ops).buffered.len() <= window,
{
    lemma_run_order(fresh_stream::<T>(window), ops);
    assert(fresh_stream::<T>(window).sent + accepted_items(fresh_stream::<T>(window), ops)
        =~= accepted_items(fresh_stream::<T>(window), ops));
}

/// A reader that drains a stream to its end has received, in order, every
/// item that the writer's chunks had taken; when every chunk `c1, ..., cn`
/// was taken whole, that is exactly `c1 + ... + cn`.
pub proof fn lemma_drained_stream<T>(window: nat, ops: Seq<StreamOp<T>>)
    requires
        idle_read(stream_run(fresh_stream::<T>(window), ops)) == StreamRead::<T>::End,
        stream_run(fresh_stream::<T>(window), ops).buffered.len() == 0,
    ensures
        stream_run(fresh_stream::<T>(window), ops).received == accepted_items(
            fresh_stream::<T>(window),
            ops,
        ),
        all_taken(fresh_stream::<T>(window), ops) ==> stream_run(
            fresh_stream::<T>(window),
            ops,
        ).received == written_items(ops),
{
    let s = stream_run(fresh_stream::<T>(window), ops);
    lemma_stream_order(window, ops);
    assert(s.received + s.buffered =~= s.received);
    if all_taken(fresh_stream::<T>(window), ops) {
        lemma_taken_whole(fresh_stream::<T>(window), ops);
    }
}

proof fn lemma_run_order<T>(s: StreamView<T>, ops: Seq<StreamOp<T>>)
    requires
        s.wf(),
        s.reader_live,
    ensures
        stream_run(s, ops).wf(),
        stream_run(s, ops).reader_live,
        stream_run(s, ops).window == s.window,
        stream_run(s, ops).sent == s.sent + accepted_items(s, ops),
    decreases ops.len(),
{
    if ops.len() == 0 {
        assert(s.sent + Seq::<T>::empty() =~= s.sent);
    } else {
        let next = stream_step(s, ops[0]);
        lemma_step_keeps_wf(s, ops[0]);
        lemma_run_order(next, ops.skip(1));
        let first = match ops[0] {
            StreamOp::Write(chunk) => chunk.take(accepted_count(s, chunk) as int),
            _ => Seq::empty(),
        };
        assert(next.sent == s.sent + first);
        assert(s.sent + first + accepted_items(next, ops.skip(1)) =~= s.sent + (first
            + accepted_items(next, ops.skip(1))));
    }
}

/// Offering more than the window has room for never succeeds in full: the
/// writer gets a non-empty remainder back at once, and the window still
/// bounds what waits unread.
pub proof fn lemma_backpressure<T>(s: StreamView<T>, chunk: Seq<T>)
    requires
        s.wf(),
        chunk.len() > s.available(),
    ensures
        write_remainder(s, chunk).len() > 0,
        write_remainder(s, chunk).len() == chunk.len() - accepted_count(s, chunk),
        after_stream_write(s, chunk).wf(),
        after_stream_write(s, chunk).buffered.len() <= s.window,
{
    lemma_step_keeps_wf(s, StreamOp::Write(chunk));
}

/// Closing an already closed stream changes nothing, and closing never
/// touches the items taken or waiting.
pub proof fn lemma_close_idempotent<T>(s: StreamView<T>)
    ensures
        after_close(after_close(s)) == after_close(s),
        after_close(s).buffered == s.buffered,
        after_close(s).sent == s.sent,
        after_close(s).received == s.received,
{
}

struct StreamSlot<T> {
    buffered: Vec<T>,
    window: usize,
    end: WriterEnd,
    writer_live: bool,
    reader_live: bool,
    sent: Ghost<Seq<T>>,
    received: Ghost<Seq<T>>,
}

impl<T> View for StreamSlot<T> {
    type V = StreamView<T>;

    closed spec fn view(&self) -> StreamView<T> {
        StreamView {
            buffered: self.buffered@,
            window: self.window as nat,
            end: self.end,
            writer_live: self.writer_live,
            reader_live: self.reader_live,
            sent: self.sent@,
            received: self.received@,
        }
    }
}

impl<T> StreamSlot<T> {
    fn write(&mut self, chunk: Vec<T>) -> (r: StreamWrite<T>)
        requires
            old(self)@.wf(),
        ensures
            final(self)@ == after_stream_write(old(self)@, chunk@),
            r.status == write_status(old(self)@),
            r.remainder@ == write_remainder(old(self)@, chunk@),
    {
        let status = if !self.reader_live {
            WriteStatus::Cancelled
        } else if self.end != WriterEnd::Open {
            WriteStatus::Closed
        } else if self.buffered.len() >= self.window {
            WriteStatus::Blocked
        } else {
            WriteStatus::Accepted
        };
        if status != WriteStatus::Accepted {
            proof {
                assert(chunk@.take(0) =~= Seq::<T>::empty());
                assert(self.buffered@ + Seq::<T>::empty() =~= self.buffered@);
                assert(self.sent@ + Seq::<T>::empty() =~= self.sent@);
                assert(chunk@.skip(0) =~= chunk@);
            }
            return StreamWrite { status, remainder: chunk };
        }
        let room = self.window - self.buffered.len();
        let count = if chunk.len() < room {
            chunk.len()
        } else {
            room
        };
        let mut taken = chunk;
        let remainder = taken.split_off(count);
        proof {
            self.sent@ = self.sent@ + taken@;
        }
        self.buffered.append(&mut taken);
        StreamWrite { status, remainder }
    }

    fn read(&mut self) -> (r: StreamRead<T>)
        ensures
            final(self)@ == after_stream_read(old(self)@),
            old(self)@.buffered.len() > 0 ==> r is Items && r.items() == old(self)@.buffered,
            old(self)@.buffered.len() == 0 ==> r == idle_read(old(self)@),
    {
        if self.buffered.len() == 0 {
            proof {
                assert(self.received@ + self.buffered@ =~= self.received@);
                assert(self.buffered@ =~= Seq::<T>::empty());
            }
            return match self.end {
                WriterEnd::Open => StreamRead::Pending,
                WriterEnd::Closed => StreamRead::End,
                WriterEnd::Errored(e) => StreamRead::Errored(e),
            };
        }
        let mut items = Vec::new();
        core::mem::swap(&mut items, &mut self.buffered);
        proof {
            self.received@ = self.received@ + items@;
        }
        StreamRead::Items(items)
    }
}

/// The table owning every stream channel of one instance.
pub struct StreamTable<T> {
    slots: Vec<StreamSlot<T>>,
}

impl<T> View for StreamTable<T> {
    type V = Seq<StreamView<T>>;

    closed spec fn view(&self) -> Seq<StreamView<T>> {
        self.slots@.map_values(|s: StreamSlot<T>| s@)
    }
}

impl<T> StreamTable<T> {
    /// Every stream of the table is well formed.
    pub open spec fn wf(&self) -> bool {
        forall|i: int| 0 <= i < self@.len() ==> (#[trigger] self@[i]).wf()
    }

    /// Whether `w` is the live writer of a stream of this table.
    pub open spec fn writer_valid(&self, w: &StreamWriter) -> bool {
        w.id() < self@.len() && self@[w.id() as int].writer_live
    }

    /// Whether `r` is the live reader of a stream of this table.
    pub open spec fn reader_valid(&self, r: &StreamReader) -> bool {
        r.id() < self@.len() && self@[r.id() as int].reader_live
    }

    pub fn new() -> (t: Self)
        ensures
            t@ == Seq::<StreamView<T>>::empty(),
            t.wf(),
    {
        let t = StreamTable { slots: Vec::new() };
        proof {
            assert(t@ =~= Seq::<StreamView<T>>::empty());
        }
        t
    }

    /// Whether the channel at `w`'s index in this table has a live writer.
    pub fn has_writer(&self, w: &StreamWriter) -> (r: bool)
        ensures
            r == self.writer_valid(w),
    {
        w.index < self.slots.len() && self.slots[w.index].writer_live
    }

    /// Whether the channel at `r`'s index in this table has a live reader.
    pub fn has_reader(&self, r: &StreamReader) -> (b: bool)
        ensures
            b == self.reader_valid(r),
    {
        r.index < self.slots.len() && self.slots[r.index].reader_live
    }

    /// Allocates an open stream whose window lets `window` items wait unread.
    pub fn new_stream(&mut self, window: usize) -> (r: (StreamWriter, StreamReader))
        requires
            old(self).wf(),
        ensures
            final(self).wf(),
            final(self)@ == old(self)@.push(fresh_stream(window as nat)),
            r.0.id() == old(self)@.len(),
            r.1.id() == old(self)@.len(),
    {
        let index = self.slots.len();
        self.slots.push(
            StreamSlot {
                buffered: Vec::new(),
                window,
                end: WriterEnd::Open,
                writer_live: true,
                reader_live: true,
                sent: Ghost(Seq::empty()),
                received: Ghost(Seq::empty()),
            },
        );
        proof {
            assert(self@ =~= old(self)@.push(fresh_stream(window as nat)));
        }
        (StreamWriter { index }, StreamReader { index })
    }

    /// Offers `chunk`. The window takes what it has room for; the rest comes
    /// back in the result, for the writer to offer again later.
    pub fn write(&mut self, w: &StreamWriter, chunk: Vec<T>) -> (r: Result<
        StreamWrite<T>,
        Violation,
    >)
        requires
            old(self).wf(),
        ensures
            final(self).wf(),
            old(self).writer_valid(w) ==> r is Ok && final(self)@ == old(self)@.update(
                w.id() as int,
                after_stream_write(old(self)@[w.id() as int], chunk@),
            ) && r->Ok_0.status == write_status(old(self)@[w.id() as int])
                && r->Ok_0.remainder@ == write_remainder(old(self)@[w.id() as int], chunk@),
            !old(self).writer_valid(w) ==> r is Err && r->Err_0 == Violation::StaleHandle
                && final(self)@ == old(self)@,
    {
        if !self.has_writer(w) {
            return Err(Violation::StaleHandle);
        }
        let i = w.index;
        proof {
            assert(self@[i as int] == self.slots@[i as int]@);
        }
        let r = self.slots[i].write(chunk);
        proof {
            assert(self@ =~= old(self)@.update(i as int, self.slots@[i as int]@));
            lemma_step_keeps_wf(old(self)@[i as int], StreamOp::Write(chunk@));
        }
        Ok(r)
    }

    /// Reads without waiting: hands over everything waiting, or reports why
    /// nothing can be read.
    pub fn read(&mut self, r: &StreamReader) -> (res: Result<StreamRead<T>, Violation>)
        requires
            old(self).wf(),
        ensures
            final(self).wf(),
            old(self).reader_valid(r) ==> res is Ok && final(self)@ == old(self)@.update(
                r.id() as int,
                after_stream_read(old(self)@[r.id() as int]),
            ) && (old(self)@[r.id() as int].buffered.len() > 0 ==> res->Ok_0 is Items
                && res->Ok_0.items() == old(self)@[r.id() as int].buffered) && (old(
                self,
            )@[r.id() as int].buffered.len() == 0 ==> res->Ok_0 == idle_read(
                old(self)@[r.id() as int],
            )),
            !old(self).reader_valid(r) ==> res is Err && res->Err_0 == Violation::StaleHandle
                && final(self)@ == old(self)@,
    {
        if !self.has_reader(r) {
            return Err(Violation::StaleHandle);
        }
        let i = r.index;
        proof {
            assert(self@[i as int] == self.slots@[i as int]@);
        }
        let res = self.slots[i].read();
        proof {
            assert(self@ =~= old(self)@.update(i as int, self.slots@[i as int]@));
            lemma_step_keeps_wf(old(self)@[i as int], StreamOp::Read);
        }
        Ok(res)
    }
    /// Closes the stream from the writer's side. Closing a stream that is
    /// already closed or failed changes nothing.
    pub fn close(&mut self, w: &StreamWriter) -> (r: Result<(), Violation>)
        requires
            old(self).wf(),
        ensures
            final(self).wf(),
            old(self).writer_valid(w) ==> r is Ok && final(self)@ == old(self)@.update(
                w.id() as int,
                after_close(old(self)@[w.id() as int]),
            ),
            !old(self).writer_valid(w) ==> r == Err::<(), Violation>(Violation::StaleHandle)
                && final(self)@ == old(self)@,
    {
        if !self.has_writer(w) {
            return Err(Violation::StaleHandle);
        }
        let i = w.index;
        proof {
            assert(self@[i as int] == self.slots@[i as int]@);
        }
        let slot = &mut self.slots[i];
        if slot.end == WriterEnd::Open {
            slot.end = WriterEnd::Closed;
        }
        proof {
            assert(self@ =~= old(self)@.update(i as int, after_close(old(self)@[i as int])));
        }
        Ok(())
    }

    /// Ends the stream with the error `e`: the reader drains what waits,
    /// then observes the error.
    pub fn fail(&mut self, w: &StreamWriter, e: ErrorContext) -> (r: Result<(), Violation>)
        requires
            old(self).wf(),
        ensures
            final(self).wf(),
            old(self).writer_valid(w) ==> r is Ok && final(self)@ == old(self)@.update(
                w.id() as int,
                after_stream_fail(old(self)@[w.id() as int], e),
            ),
            !old(self).writer_valid(w) ==> r == Err::<(), Violation>(Violation::StaleHandle)
                && final(self)@ == old(self)@,
    {
        if !self.has_writer(w) {
            return Err(Violation::StaleHandle);
        }
        let i = w.index;
        proof {
            assert(self@[i as int] == self.slots@[i as int]@);
        }
        let slot = &mut self.slots[i];
        if slot.end == WriterEnd::Open {
            slot.end = WriterEnd::Errored(e);
        }
        proof {
            assert(self@ =~= old(self)@.update(i as int, after_stream_fail(old(self)@[i as int], e)));
        }
        Ok(())
    }

    /// Drops the writer, consuming it: an open stream is closed.
    pub fn drop_writer(&mut self, w: StreamWriter) -> (r: Result<(), Violation>)
        requires
            old(self).wf(),
        ensures
            final(self).wf(),
            old(self).writer_valid(&w) ==> r is Ok && final(self)@ == old(self)@.update(
                w.id() as int,
                after_stream_writer_drop(old(self)@[w.id() as int]),
            ),
            !old(self).writer_valid(&w) ==> r == Err::<(), Violation>(Violation::StaleHandle)
                && final(self)@ == old(self)@,
    {
        if !self.has_writer(&w) {
            return Err(Violation::StaleHandle);
        }
        let i = w.index;
        proof {
            assert(self@[i as int] == self.slots@[i as int]@);
        }
        let slot = &mut self.slots[i];
        slot.writer_live = false;
        if slot.end == WriterEnd::Open {
            slot.end = WriterEnd::Closed;
        }
        proof {
            assert(self@ =~= old(self)@.update(
                i as int,
                after_stream_writer_drop(old(self)@[i as int]),
            ));
        }
        Ok(())
    }

    /// Drops the reader, consuming it: the stream is cancelled, what waits
    /// is released, and every later write reports cancellation at once.
    pub fn drop_reader(&mut self, r: StreamReader) -> (res: Result<(), Violation>)
        requires
            old(self).wf(),
        ensures
            final(self).wf(),
            old(self).reader_valid(&r) ==> res is Ok && final(self)@ == old(self)@.update(
                r.id() as int,
                after_stream_reader_drop(old(self)@[r.id() as int]),
            ),
            !old(self).reader_valid(&r) ==> res == Err::<(), Violation>(Violation::StaleHandle)
                && final(self)@ == old(self)@,
    {
        if !self.has_reader(&r) {
            return Err(Violation::StaleHandle);
        }
        let i = r.index;
        proof {
            assert(self@[i as int] == self.slots@[i as int]@);
        }
        let slot = &mut self.slots[i];
        slot.reader_live = false;
        slot.buffered.clear();
        proof {
            assert(self@ =~= old(self)@.update(
                i as int,
                after_stream_reader_drop(old(self)@[i as int]),
            ));
        }
        Ok(())
    }

    /// How many items wait unread in the stream with this index.
    pub fn buffered_len(&self, index: usize) -> (r: Option<usize>)
        ensures
            index < self@.len() ==> r == Some(self@[index as int].buffered.len() as usize),
            index >= self@.len() ==> r is None,
    {
        if index < self.slots.len() {
            proof {
                assert(self@[index as int] == self.slots@[index as int]@);
            }
            Some(self.slots[index].buffered.len())
        } else {
            None
        }
    }
    /// Whether a read of the stream with this index would not suspend:
    /// items wait, or the writer has ended the stream.
    pub fn is_readable(&self, index: usize) -> (r: bool)
        ensures
            r == (index < self@.len() && (self@[index as int].buffered.len() > 0
                || self@[index as int].end != WriterEnd::Open)),
    {
        if index < self.slots.len() {
            proof {
                assert(self@[index as int] == self.slots@[index as int]@);
            }
            self.slots[index].buffered.len() > 0 || self.slots[index].end != WriterEnd::Open
        } else {
            false
        }
    }

    /// Whether a write to the stream with this index would not suspend:
    /// the window has room, the reader is gone, or the writer has ended it.
    pub fn is_writable(&self, index: usize) -> (r: bool)
        requires
            self.wf(),
        ensures
            r == (index < self@.len() && (self@[index as int].available() > 0
                || !self@[index as int].reader_live || self@[index as int].end != WriterEnd::Open)),
    {
        if index < self.slots.len() {
            proof {
                assert(self@[index as int] == self.slots@[index as int]@);
            }
            let slot = &self.slots[index];
            slot.buffered.len() < slot.window || !slot.reader_live || slot.end != WriterEnd::Open
        } else {
            false
        }
    }
}

} // verus!
