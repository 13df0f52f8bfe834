//! Single-value channels: a writer assigns one value, a reader takes it once.
use vstd::prelude::*;
use crate::error::{ErrorContext, Violation};

verus! {

/// The state of one future channel.
pub enum FutureState<T> {
    /// Nothing written yet.
    Pending,
    /// A value waits for the reader.
    Ready(T),
    /// The reader has taken the value or the error: nothing more will come.
    Delivered,
    /// The writer went away without writing, or the reader went away first.
    Cancelled,
    /// The writer ended the future with an error.
    Errored(ErrorContext),
}

/// One channel of a [`FutureTable`], with the liveness of its two endpoints.
pub struct FutureSlot<T> {
    pub state: FutureState<T>,
    pub writer_live: bool,
    pub reader_live: bool,
}

/// What one read of a future observes.
pub enum FutureRead<T> {
    /// The value, handed over exactly once.
    Value(T),
    /// Nothing yet: the reading task would suspend here.
    Pending,
    /// The writer went away without writing.
    Cancelled,
    /// The writer ended the future with this error.
    Errored(ErrorContext),
    /// The value or error was already taken by an earlier read.
    Finished,
}

/// The writing endpoint of a future. It cannot be copied: writing consumes it.
pub struct FutureWriter {
    index: usize,
}

/// The reading endpoint of a future. It cannot be copied.
pub struct FutureReader {
    index: usize,
}

impl FutureWriter {
    /// The channel this endpoint belongs to.
    pub closed spec fn id(&self) -> nat {
        self.index as nat
    }

    pub fn index(&self) -> (r: usize)
        ensures
            r == self.id(),
    {
        self.index
    }
}

impl FutureReader {
    /// The channel this endpoint belongs to.
    pub closed spec fn id(&self) -> nat {
        self.index as nat
    }

    pub fn index(&self) -> (r: usize)
        ensures
            r == self.id(),
    {
        self.index
    }
}

/// A newly created channel: pending, with both endpoints held.
pub open spec fn fresh_future<T>() -> FutureSlot<T> {
    FutureSlot { state: FutureState::Pending, writer_live: true, reader_live: true }
}

/// The channel after its writer writes `v`: a pending channel becomes ready,
/// any other keeps its state and the value is dropped.
pub open spec fn after_write<T>(s: FutureSlot<T>, v: T) -> FutureSlot<T> {
    FutureSlot {
        state: if s.state is Pending {
            FutureState::Ready(v)
        } else {
            s.state
        },
        writer_live: false,
        reader_live: s.reader_live,
    }
}

/// The channel after its writer ends it with the error `e`.
pub open spec fn after_fail<T>(s: FutureSlot<T>, e: ErrorContext) -> FutureSlot<T> {
    FutureSlot {
        state: if s.state is Pending {
            FutureState::Errored(e)
        } else {
            s.state
        },
        writer_live: false,
        reader_live: s.reader_live,
    }
}

/// The channel after its writer is dropped without writing.
pub open spec fn after_writer_drop<T>(s: FutureSlot<T>) -> FutureSlot<T> {
    FutureSlot {
        state: if s.state is Pending {
            FutureState::Cancelled
        } else {
            s.state
        },
        writer_live: false,
        reader_live: s.reader_live,
    }
}

/// The channel after its reader is dropped: a value not yet taken is
/// released, and a later write delivers nothing.
pub open spec fn after_reader_drop<T>(s: FutureSlot<T>) -> FutureSlot<T> {
    FutureSlot {
        state: if s.state is Pending || s.state is Ready {
            FutureState::Cancelled
        } else {
            s.state
        },
        writer_live: s.writer_live,
        reader_live: false,
    }
}

/// What a read of the channel observes.
pub open spec fn read_outcome<T>(s: FutureSlot<T>) -> FutureRead<T> {
    match s.state {
        FutureState::Pending => FutureRead::Pending,
        FutureState::Ready(v) => FutureRead::Value(v),
        FutureState::Delivered => FutureRead::Finished,
        FutureState::Cancelled => FutureRead::Cancelled,
        FutureState::Errored(e) => FutureRead::Errored(e),
    }
}

/// The channel after a read: a value or an error is taken out for good.
pub open spec fn after_read<T>(s: FutureSlot<T>) -> FutureSlot<T> {
    FutureSlot {
        state: if s.state is Ready || s.state is Errored {
            FutureState::Delivered
        } else {
            s.state
        },
        writer_live: s.writer_live,
        reader_live: s.reader_live,
    }
}

/// Whether the channel still holds a value that some read could observe.
pub open spec fn holds_value<T>(s: FutureSlot<T>) -> bool {
    s.state is Ready
}

/// Writing `v` into a fresh channel and then reading yields `v`; every later
/// read yields no value.
pub proof fn lemma_future_round_trip<T>(v: T)
    ensures
        read_outcome(after_write(fresh_future::<T>(), v)) == FutureRead::Value(v),
        read_outcome(after_read(after_write(fresh_future::<T>(), v)))
            == FutureRead::<T>::Finished,
        after_read(after_read(after_write(fresh_future::<T>(), v))) == after_read(
            after_write(fresh_future::<T>(), v),
        ),
{
}

/// Once the reader of a channel has been dropped, a write delivers nothing:
/// the value is held nowhere, and the write completes at once.
pub proof fn lemma_write_after_reader_drop<T>(s: FutureSlot<T>, v: T)
    requires
        s.state is Pending,
    ensures
        !holds_value(after_write(after_reader_drop(s), v)),
        after_write(after_reader_drop(s), v).state == FutureState::<T>::Cancelled,
{
}

/// The table owning every future channel of one instance.
pub struct FutureTable<T> {
    slots: Vec<FutureSlot<T>>,
}

impl<T> View for FutureTable<T> {
    type V = Seq<FutureSlot<T>>;

    closed spec fn view(&self) -> Seq<FutureSlot<T>> {
        self.slots@
    }
}

impl<T> FutureTable<T> {
    /// Whether the channel at `w`'s index in this table has a live writer.
    pub open spec fn writer_valid(&self, w: &FutureWriter) -> bool {
        w.id() < self@.len() && self@[w.id() as int].writer_live
    }

    /// Whether the channel at `r`'s index in this table has a live reader.
    pub open spec fn reader_valid(&self, r: &FutureReader) -> bool {
        r.id() < self@.len() && self@[r.id() as int].reader_live
    }

    pub fn new() -> (t: Self)
        ensures
            t@ == Seq::<FutureSlot<T>>::empty(),
    {
        FutureTable { slots: Vec::new() }
    }

    /// Allocates a pending channel and returns its two endpoints.
    pub fn new_future(&mut self) -> (r: (FutureWriter, FutureReader))
        ensures
            final(self)@ == old(self)@.push(fresh_future()),
            r.0.id() == old(self)@.len(),
            r.1.id() == old(self)@.len(),
    {
        let index = self.slots.len();
        self.slots.push(FutureSlot { state: FutureState::Pending, writer_live: true, reader_live: true });
        (FutureWriter { index }, FutureReader { index })
    }

    /// Whether the channel at `w`'s index in this table has a live writer.
    pub fn has_writer(&self, w: &FutureWriter) -> (r: bool)
        ensures
            r == self.writer_valid(w),
    {
        w.index < self.slots.len() && self.slots[w.index].writer_live
    }

    /// Whether the channel at `r`'s index in this table has a live reader.
    pub fn has_reader(&self, r: &FutureReader) -> (b: bool)
        ensures
            b == self.reader_valid(r),
    {
        r.index < self.slots.len() && self.slots[r.index].reader_live
    }

    /// Writes `v`, consuming the writer. If the reader is gone the value is
    /// dropped silently.
    pub fn write(&mut self, w: FutureWriter, v: T) -> (r: Result<(), Violation>)
        ensures
            old(self).writer_valid(&w) ==> r is Ok && final(self)@ == old(self)@.update(
                w.id() as int,
                after_write(old(self)@[w.id() as int], v),
            ),
            !old(self).writer_valid(&w) ==> r == Err::<(), Violation>(Violation::StaleHandle)
                && final(self)@ == old(self)@,
    {
        if !self.has_writer(&w) {
            return Err(Violation::StaleHandle);
        }
        let slot = &mut self.slots[w.index];
        slot.writer_live = false;
        if matches!(slot.state, FutureState::Pending) {
            slot.state = FutureState::Ready(v);
        }
        Ok(())
    }
    /// Ends the future with the error `e`, consuming the writer.
    pub fn fail(&mut self, w: FutureWriter, e: ErrorContext) -> (r: Result<(), Violation>)
        ensures
            old(self).writer_valid(&w) ==> r is Ok && final(self)@ == old(self)@.update(
                w.id() as int,
                after_fail(old(self)@[w.id() as int], e),
            ),
            !old(self).writer_valid(&w) ==> r == Err::<(), Violation>(Violation::StaleHandle)
                && final(self)@ == old(self)@,
    {
        if !self.has_writer(&w) {
            return Err(Violation::StaleHandle);
        }
        let slot = &mut self.slots[w.index];
        slot.writer_live = false;
        if matches!(slot.state, FutureState::Pending) {
            slot.state = FutureState::Errored(e);
        }
        Ok(())
    }

    /// Drops the writer without writing: a pending future becomes cancelled.
    pub fn drop_writer(&mut self, w: FutureWriter) -> (r: Result<(), Violation>)
        ensures
            old(self).writer_valid(&w) ==> r is Ok && final(self)@ == old(self)@.update(
                w.id() as int,
                after_writer_drop(old(self)@[w.id() as int]),
            ),
            !old(self).writer_valid(&w) ==> r == Err::<(), Violation>(Violation::StaleHandle)
                && final(self)@ == old(self)@,
    {
        if !self.has_writer(&w) {
            return Err(Violation::StaleHandle);
        }
        let slot = &mut self.slots[w.index];
        slot.writer_live = false;
        if matches!(slot.state, FutureState::Pending) {
            slot.state = FutureState::Cancelled;
        }
        Ok(())
    }

    /// Drops the reader: a value not yet taken is released, and the
    /// writer's later write delivers nothing.
    pub fn drop_reader(&mut self, r: FutureReader) -> (res: Result<(), Violation>)
        ensures
            old(self).reader_valid(&r) ==> res is Ok && final(self)@ == old(self)@.update(
                r.id() as int,
                after_reader_drop(old(self)@[r.id() as int]),
            ),
            !old(self).reader_valid(&r) ==> res == Err::<(), Violation>(Violation::StaleHandle)
                && final(self)@ == old(self)@,
    {
        if !self.has_reader(&r) {
            return Err(Violation::StaleHandle);
        }
        let slot = &mut self.slots[r.index];
        slot.reader_live = false;
        if matches!(slot.state, FutureState::Pending) || matches!(slot.state, FutureState::Ready(_)) {
            slot.state = FutureState::Cancelled;
        }
        Ok(())
    }

    /// Reads the future without waiting. `Pending` means the reading task
    /// would suspend until the writer acts.
    pub fn read(&mut self, r: &FutureReader) -> (res: Result<FutureRead<T>, Violation>)
        ensures
            old(self).reader_valid(r) ==> res == Ok::<FutureRead<T>, Violation>(
                read_outcome(old(self)@[r.id() as int]),
            ) && final(self)@ == old(self)@.update(
                r.id() as int,
                after_read(old(self)@[r.id() as int]),
            ),
            !old(self).reader_valid(r) ==> res == Err::<FutureRead<T>, Violation>(
                Violation::StaleHandle,
            ) && final(self)@ == old(self)@,
    {
        if !self.has_reader(r) {
            return Err(Violation::StaleHandle);
        }
        let slot = &mut self.slots[r.index];
        let mut taken = FutureState::Delivered;
        core::mem::swap(&mut slot.state, &mut taken);
        match taken {
            FutureState::Pending => {
                slot.state = FutureState::Pending;
                Ok(FutureRead::Pending)
            },
            FutureState::Ready(v) => Ok(FutureRead::Value(v)),
            FutureState::Delivered => Ok(FutureRead::Finished),
            FutureState::Cancelled => {
                slot.state = FutureState::Cancelled;
                Ok(FutureRead::Cancelled)
            },
            FutureState::Errored(e) => Ok(FutureRead::Errored(e)),
        }
    }

    /// Whether the channel with this index holds a value not yet taken.
    pub fn has_value(&self, index: usize) -> (r: bool)
        ensures
            r == (index < self@.len() && holds_value(self@[index as int])),
    {
        index < self.slots.len() && matches!(self.slots[index].state, FutureState::Ready(_))
    }
    /// Whether the channel with this index has left the pending state, so a
    /// read would not suspend.
    pub fn is_settled(&self, index: usize) -> (r: bool)
        ensures
            r == (index < self@.len() && !(self@[index as int].state is Pending)),
    {
        index < self.slots.len() && !matches!(self.slots[index].state, FutureState::Pending)
    }
}

} // verus!
