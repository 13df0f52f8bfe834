//! The component's exported functions, written against the channel tables.
use vstd::prelude::*;
use crate::error::Violation;
use crate::future::{
    FutureRead,
    FutureReader,
    FutureState,
    FutureTable,
    after_read,
    after_reader_drop,
    read_outcome,
};
use crate::sched::Source;
use crate::stream::{
    StreamRead,
    StreamReader,
    StreamTable,
    StreamView,
    StreamWriter,
    WriteStatus,
    WriterEnd,
    after_stream_read,
    after_stream_reader_drop,
    after_stream_write,
    after_stream_writer_drop,
    fresh_stream,
    write_remainder,
    write_status,
};

verus! {

/// How many input batches the relay answers before it ends its output.
pub const RELAY_ROUNDS: u32 = 10;

/// The window of the relay's output stream: each answer waits to be read
/// before the next is taken.
pub const RELAY_WINDOW: usize = 1;

/// Relies on `String::push_str`: appends `s` at the end of `buf`.
#[verifier::external_body]
fn append_str(buf: &mut String, s: &str)
    ensures
        final(buf)@ == old(buf)@ + s@,
{
    buf.push_str(s);
}

/// The exported functions of the component.
pub struct Component;

/// A session object exported by the component.
pub struct Session {
    last_response: String,
}

impl View for Session {
    type V = Seq<char>;

    /// The last response the session gave.
    closed spec fn view(&self) -> Seq<char> {
        self.last_response@
    }
}

impl Session {
    pub fn new() -> (s: Self)
        ensures
            s@ == Seq::<char>::empty(),
    {
        Session { last_response: String::new() }
    }

    pub fn last_response(&self) -> (r: &str)
        ensures
            r@ == self@,
    {
        self.last_response.as_str()
    }
}

/// The text listing `names`: each name followed by a line break.
pub open spec fn names_text(names: Seq<String>) -> Seq<char>
    decreases names.len(),
{
    if names.len() == 0 {
        Seq::empty()
    } else {
        names_text(names.drop_last()) + names.last()@ + "\n"@
    }
}

/// The text listing every directory's names, directory after directory.
pub open spec fn listing_text(dirs: Seq<Vec<String>>) -> Seq<char>
    decreases dirs.len(),
{
    if dirs.len() == 0 {
        Seq::empty()
    } else {
        listing_text(dirs.drop_last()) + names_text(dirs.last()@)
    }
}

/// The abstract state of a relay task.
pub struct RelayView {
    /// The stream whose batches the relay answers.
    pub input: nat,
    /// The stream the answers go to.
    pub output: nat,
    /// How many batches have been answered.
    pub rounds: nat,
    /// The part of the current answer not yet taken by the output stream.
    pub reply: Seq<String>,
}

/// The task behind `test4`: answers each batch read from its input with one
/// `"Response"` item on its output, for at most [`RELAY_ROUNDS`] batches.
pub struct Relay {
    input: StreamReader,
    output: StreamWriter,
    rounds: u32,
    reply: Vec<String>,
}

impl View for Relay {
    type V = RelayView;

    closed spec fn view(&self) -> RelayView {
        RelayView {
            input: self.input.id(),
            output: self.output.id(),
            rounds: self.rounds as nat,
            reply: self.reply@,
        }
    }
}

/// What one step of a relay leads to.
pub enum RelayStep {
    /// The relay can go on at once.
    Continue(Relay),
    /// The relay must suspend until the source fires.
    Wait(Relay, Source),
    /// The relay has ended and released both its endpoints.
    Done,
    /// The relay's endpoints do not belong to the table it was stepped on.
    Failed(Violation),
}

impl RelayStep {
    /// The relay that goes on, for `Continue` and `Wait`.
    pub open spec fn relay(self) -> RelayView {
        match self {
            RelayStep::Continue(r) => r@,
            RelayStep::Wait(r, _) => r@,
            _ => arbitrary(),
        }
    }

    /// The source a waiting relay is suspended on.
    pub open spec fn source(self) -> Option<Source> {
        match self {
            RelayStep::Wait(_, src) => Some(src),
            _ => None,
        }
    }
}

/// What awaiting a future leads to.
pub enum Awaited {
    /// The future had settled: what its read observed. The reader is gone.
    Ready(FutureRead<String>),
    /// The future is pending: the reader comes back, with the source the
    /// awaiting task suspends on.
    Wait(FutureReader, Source),
    /// The reader does not belong to the table.
    Failed(Violation),
}

impl Awaited {
    /// The future whose reader came back, for `Wait`.
    pub open spec fn waiting_on(self) -> Option<nat> {
        match self {
            Awaited::Wait(r, _) => Some(r.id()),
            _ => None,
        }
    }

    /// The source to suspend on, for `Wait`.
    pub open spec fn source(self) -> Option<Source> {
        match self {
            Awaited::Wait(_, src) => Some(src),
            _ => None,
        }
    }
}

/// What a relay does next, by its own state alone.
pub enum RelayMove {
    /// Offer the rest of the current answer.
    Send,
    /// Read the next batch.
    Receive,
    /// End: enough batches were answered.
    Finish,
}

/// The move a relay in state `v` makes next.
pub open spec fn relay_move(v: RelayView) -> RelayMove {
    if v.reply.len() > 0 {
        RelayMove::Send
    } else if v.rounds >= RELAY_ROUNDS {
        RelayMove::Finish
    } else {
        RelayMove::Receive
    }
}

/// Whether the relay's endpoints are live in the streams `s`.
pub open spec fn relay_valid(v: RelayView, s: Seq<StreamView<String>>) -> bool {
    &&& v.input < s.len()
    &&& s[v.input as int].reader_live
    &&& v.output < s.len()
    &&& s[v.output as int].writer_live
}

/// The streams after the relay drops its writer, then its reader.
pub open spec fn relay_released(v: RelayView, s: Seq<StreamView<String>>) -> Seq<
    StreamView<String>,
> {
    let s1 = s.update(v.output as int, after_stream_writer_drop(s[v.output as int]));
    s1.update(v.input as int, after_stream_reader_drop(s1[v.input as int]))
}

/// Whether `reply` is the one-item answer `"Response"`.
pub open spec fn is_answer(reply: Seq<String>) -> bool {
    reply.len() == 1 && reply[0]@ == "Response"@
}

/// Whether every item of `items` is the answer `"Response"`.
pub open spec fn all_answers(items: Seq<String>) -> bool {
    forall|k: int| 0 <= k < items.len() ==> (#[trigger] items[k])@ == "Response"@
}

/// The relay's bookkeeping against the streams `s`: its output stream has
/// taken answers only, and what it took plus the answer still pending makes
/// one answer per batch answered, never more than [`RELAY_ROUNDS`].
pub open spec fn relay_inv(v: RelayView, s: Seq<StreamView<String>>) -> bool {
    &&& v.output < s.len()
    &&& v.rounds <= RELAY_ROUNDS
    &&& v.reply.len() <= 1
    &&& all_answers(v.reply)
    &&& all_answers(s[v.output as int].sent)
    &&& s[v.output as int].sent.len() + v.reply.len() == v.rounds
}

/// How much work a relay has left: two steps per batch still to answer,
/// plus the answer items still pending.
pub open spec fn relay_measure(v: RelayView) -> int {
    2 * (RELAY_ROUNDS - v.rounds) + v.reply.len()
}

/// Whatever the host does to the streams other than writing to the relay's
/// output (reading it, dropping its reader, any operation on another
/// stream), the relay's bookkeeping still holds.
pub proof fn lemma_relay_inv_frame(
    v: RelayView,
    s: Seq<StreamView<String>>,
    s2: Seq<StreamView<String>>,
)
    requires
        relay_inv(v, s),
        s2.len() == s.len(),
        s2[v.output as int].sent == s[v.output as int].sent,
    ensures
        relay_inv(v, s2),
{
}

/// The relay's reader receives answers only, in the order the output took
/// them, none lost or repeated: what it has read followed by what waits is
/// one answer per batch answered whose answer was taken, and with the answer
/// still pending that is exactly the batches answered, at most
/// [`RELAY_ROUNDS`].
pub proof fn lemma_relay_output(v: RelayView, s: Seq<StreamView<String>>)
    requires
        relay_inv(v, s),
        s[v.output as int].wf(),
        s[v.output as int].reader_live,
    ensures
        all_answers(s[v.output as int].received + s[v.output as int].buffered),
        (s[v.output as int].received + s[v.output as int].buffered).len() + v.reply.len()
            == v.rounds,
        v.rounds <= RELAY_ROUNDS,
{
}

impl Relay {
    fn release(self, streams: &mut StreamTable<String>)
        requires
            old(streams).wf(),
            relay_valid(self@, old(streams)@),
        ensures
            final(streams).wf(),
            final(streams)@ == relay_released(self@, old(streams)@),
    {
        let Relay { input, output, .. } = self;
        let _ = streams.drop_writer(output);
        let _ = streams.drop_reader(input);
    }

    /// Drops the relay with its endpoints, as when the task running it is
    /// cancelled: its output ends and its input is cancelled.
    pub fn abort(self, streams: &mut StreamTable<String>) -> (r: Result<(), Violation>)
        requires
            old(streams).wf(),
        ensures
            final(streams).wf(),
            relay_valid(self@, old(streams)@) ==> r is Ok && final(streams)@ == relay_released(
                self@,
                old(streams)@,
            ),
            !relay_valid(self@, old(streams)@) ==> r == Err::<(), Violation>(
                Violation::StaleHandle,
            ) && final(streams)@ == old(streams)@,
    {
        if !(streams.has_reader(&self.input) && streams.has_writer(&self.output)) {
            return Err(Violation::StaleHandle);
        }
        self.release(streams);
        Ok(())
    }

    /// Takes one step of the relay: offers the pending answer, ends after
    /// enough rounds, or reads the next batch.
    pub fn step(self, streams: &mut StreamTable<String>) -> (r: RelayStep)
        requires
            old(streams).wf(),
        ensures
            final(streams).wf(),
            !relay_valid(self@, old(streams)@) ==> r == RelayStep::Failed(Violation::StaleHandle)
                && final(streams)@ == old(streams)@,
            relay_inv(self@, old(streams)@) && (r is Continue || r is Wait) ==> relay_inv(
                r.relay(),
                final(streams)@,
            ),
            relay_inv(self@, old(streams)@) && r is Continue ==> 0 <= relay_measure(r.relay())
                < relay_measure(self@),
            relay_valid(self@, old(streams)@) && relay_move(self@) == RelayMove::Send ==> {
                let out = old(streams)@[self@.output as int];
                let written = old(streams)@.update(
                    self@.output as int,
                    after_stream_write(out, self@.reply),
                );
                let rest = (RelayView { reply: write_remainder(out, self@.reply), ..self@ });
                &&& write_status(out) == WriteStatus::Accepted ==> r is Continue && r.relay()
                    == rest && final(streams)@ == written
                &&& write_status(out) == WriteStatus::Blocked ==> r.source() == Some(
                    Source::StreamWritable(self@.output as usize),
                ) && r.relay() == rest
                    && final(streams)@ == written
                &&& (write_status(out) == WriteStatus::Cancelled || write_status(out)
                    == WriteStatus::Closed) ==> r is Done && final(streams)@ == relay_released(
                    self@,
                    written,
                )
            },
            relay_valid(self@, old(streams)@) && relay_move(self@) == RelayMove::Finish ==> r is Done
                && final(streams)@ == relay_released(self@, old(streams)@),
            relay_valid(self@, old(streams)@) && relay_move(self@) == RelayMove::Receive ==> {
                let inp = old(streams)@[self@.input as int];
                let drained = old(streams)@.update(self@.input as int, after_stream_read(inp));
                &&& final(streams)@ == (if inp.buffered.len() == 0 && inp.end != WriterEnd::Open {
                    relay_released(self@, drained)
                } else {
                    drained
                })
                &&& inp.buffered.len() > 0 ==> r is Continue && r.relay().input == self@.input
                    && r.relay().output == self@.output && r.relay().rounds == self@.rounds + 1
                    && is_answer(r.relay().reply)
                &&& inp.buffered.len() == 0 && inp.end == WriterEnd::Open ==> r.source()
                    == Some(Source::StreamReadable(self@.input as usize)) && r.relay() == self@
                &&& inp.buffered.len() == 0 && inp.end != WriterEnd::Open ==> r is Done
            },
    {
        if !(streams.has_reader(&self.input) && streams.has_writer(&self.output)) {
            return RelayStep::Failed(Violation::StaleHandle);
        }
        let ghost v = self@;
        let Relay { input, output, rounds, reply } = self;
        if reply.len() > 0 {
            let written = streams.write(&output, reply);
            match written {
                Err(e) => RelayStep::Failed(e),
                Ok(w) => match w.status {
                    WriteStatus::Accepted => RelayStep::Continue(
                        Relay { input, output, rounds, reply: w.remainder },
                    ),
                    WriteStatus::Blocked => {
                        let src = Source::StreamWritable(output.index());
                        RelayStep::Wait(Relay { input, output, rounds, reply: w.remainder }, src)
                    },
                    _ => {
                        proof {
                            assert(relay_valid(v, streams@));
                        }
                        Relay { input, output, rounds, reply: w.remainder }.release(streams);
                        RelayStep::Done
                    },
                },
            }
        } else if rounds >= RELAY_ROUNDS {
            Relay { input, output, rounds, reply }.release(streams);
            RelayStep::Done
        } else {
            let read = streams.read(&input);
            match read {
                Err(e) => RelayStep::Failed(e),
                Ok(StreamRead::Items(_)) => {
                    let mut answer: Vec<String> = Vec::new();
                    answer.push("Response".to_owned());
                    RelayStep::Continue(Relay { input, output, rounds: rounds + 1, reply: answer })
                },
                Ok(StreamRead::Pending) => {
                    let src = Source::StreamReadable(input.index());
                    RelayStep::Wait(Relay { input, output, rounds, reply }, src)
                },
                Ok(_) => {
                    proof {
                        assert(relay_valid(v, streams@));
                    }
                    Relay { input, output, rounds, reply }.release(streams);
                    RelayStep::Done
                },
            }
        }
    }
}

impl Component {
    /// Answers a plain call with a fixed greeting.
    pub fn test(test: String) -> (r: String)
        ensures
            r@ == "Hello World! (test1)"@,
    {
        "Hello World! (test1)".to_owned()
    }

    /// Returns the reader of a new future that already holds a greeting.
    pub fn test2(futures: &mut FutureTable<String>, test: String) -> (r: FutureReader)
        ensures
            r.id() == old(futures)@.len(),
            final(futures)@.len() == old(futures)@.len() + 1,
            final(futures)@.subrange(0, old(futures)@.len() as int) == old(futures)@,
            final(futures)@[r.id() as int].reader_live,
            !final(futures)@[r.id() as int].writer_live,
            final(futures)@[r.id() as int].state matches FutureState::Ready(v) && v@
                == "Hello World! (test2)"@,
    {
        let (tx, rx) = futures.new_future();
        let response = "Hello World! (test2)".to_owned();
        let _ = futures.write(tx, response);
        proof {
            assert(futures@.subrange(0, old(futures)@.len() as int) =~= old(futures)@);
        }
        rx
    }

    /// Takes over the future handed in. Once the future has settled, reads
    /// it and drops the reader; while it is pending, hands the reader back
    /// with the source to wait on.
    pub fn test3(futures: &mut FutureTable<String>, test: FutureReader) -> (r: Awaited)
        ensures
            !old(futures).reader_valid(&test) ==> r == Awaited::Failed(Violation::StaleHandle)
                && final(futures)@ == old(futures)@,
            old(futures).reader_valid(&test) && old(futures)@[test.id() as int].state is Pending
                ==> r.waiting_on() == Some(test.id()) && r.source() == Some(
                Source::Future(test.id() as usize),
            ) && final(futures)@ == old(futures)@,
            old(futures).reader_valid(&test) && !(old(futures)@[test.id() as int].state is Pending)
                ==> r == Awaited::Ready(read_outcome(old(futures)@[test.id() as int]))
                && final(futures)@ == old(futures)@.update(
                test.id() as int,
                after_reader_drop(after_read(old(futures)@[test.id() as int])),
            ),
    {
        if !futures.has_reader(&test) {
            return Awaited::Failed(Violation::StaleHandle);
        }
        let index = test.index();
        if !futures.is_settled(index) {
            return Awaited::Wait(test, Source::Future(index));
        }
        let outcome = futures.read(&test);
        let _ = futures.drop_reader(test);
        match outcome {
            Ok(v) => Awaited::Ready(v),
            Err(e) => Awaited::Failed(e),
        }
    }

    /// Takes over `stream` and returns the reader of a new stream on which
    /// the returned relay answers each batch read from `stream`.
    pub fn test4(streams: &mut StreamTable<String>, stream: StreamReader) -> (r: (
        Relay,
        StreamReader,
    ))
        requires
            old(streams).wf(),
        ensures
            final(streams).wf(),
            final(streams)@ == old(streams)@.push(fresh_stream(RELAY_WINDOW as nat)),
            r.1.id() == old(streams)@.len(),
            r.0@ == (RelayView {
                input: stream.id(),
                output: old(streams)@.len(),
                rounds: 0,
                reply: Seq::empty(),
            }),
            relay_inv(r.0@, final(streams)@),
    {
        let (tx, rx) = streams.new_stream(RELAY_WINDOW);
        let relay = Relay { input: stream, output: tx, rounds: 0, reply: Vec::new() };
        proof {
            assert(relay@.reply =~= Seq::<String>::empty());
        }
        (relay, rx)
    }

    /// Lists the names of each directory's first batch of entries, one name
    /// per line, directory after directory.
    pub fn get_files_p3(listings: &Vec<Vec<String>>) -> (r: String)
        ensures
            r@ == listing_text(listings@),
    {
        let mut text = String::new();
        let mut i: usize = 0;
        while i < listings.len()
            invariant
                0 <= i <= listings@.len(),
                text@ == listing_text(listings@.subrange(0, i as int)),
            decreases listings@.len() - i,
        {
            let names = &listings[i];
            let ghost before = text@;
            let mut j: usize = 0;
            while j < names.len()
                invariant
                    0 <= j <= names@.len(),
                    text@ == before + names_text(names@.subrange(0, j as int)),
                decreases names@.len() - j,
            {
                append_str(&mut text, names[j].as_str());
                append_str(&mut text, "\n");
                proof {
                    let done = names@.subrange(0, j + 1);
                    assert(done.drop_last() =~= names@.subrange(0, j as int));
                    assert(before + names_text(done) =~= before + names_text(done.drop_last())
                        + names@[j as int]@ + "\n"@);
                }
                j = j + 1;
            }
            proof {
                let done = listings@.subrange(0, i + 1);
                assert(done.drop_last() =~= listings@.subrange(0, i as int));
                assert(names@.subrange(0, names@.len() as int) =~= names@);
            }
            i = i + 1;
        }
        proof {
            assert(listings@.subrange(0, listings@.len() as int) =~= listings@);
        }
        text
    }
}

} // verus!
