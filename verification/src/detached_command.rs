//! The owner's side of an engine process that runs in the background.
//!
//! The process and the workers that serve its three streams live outside
//! this library. What is kept here is what their owner decides: the lines
//! that were captured and not yet taken, the buffers that wait to be
//! written, and the rules by which the workers go on or stop.

use vstd::prelude::*;
use vstd::string::StringSliceAdditionalSpecFns;
use crate::text::{push_str, string_from_chars, texts};

verus! {

/// The error of the operating system's input and output.
#[verifier::external_type_specification]
#[verifier::external_body]
pub struct ExIoError(std::io::Error);

/// A line that was captured from the process, with the stream it came from.
#[derive(Debug)]
pub enum CapturedOutput {
    Stderr(String),
    Stdout(String),
}

/// What a [`CapturedOutput`] holds, as a mathematical value.
pub enum CapturedView {
    Stderr(Seq<char>),
    Stdout(Seq<char>),
}

impl View for CapturedOutput {
    type V = CapturedView;

    open spec fn view(&self) -> CapturedView {
        match self {
            CapturedOutput::Stderr(line) => CapturedView::Stderr(line@),
            CapturedOutput::Stdout(line) => CapturedView::Stdout(line@),
        }
    }
}

impl Clone for CapturedOutput {
    fn clone(&self) -> (r: Self)
        ensures
            r@ == self@,
    {
        match self {
            CapturedOutput::Stderr(line) => CapturedOutput::Stderr(line.clone()),
            CapturedOutput::Stdout(line) => CapturedOutput::Stdout(line.clone()),
        }
    }
}

/// What went wrong with the process.
#[derive(Debug)]
pub enum Error {
    /// The process could not be started; the error is that of the system.
    StartupFailed(std::io::Error),
    /// The workers that read from the process are gone.
    Disconnected,
}

/// The state of a [`DetachedCommand`]: the lines captured from each output
/// stream and not yet taken, the buffers that wait to be written to the
/// process, and whether the process has not been shut down.
pub struct DetachedView {
    pub stdout: Seq<Seq<char>>,
    pub stderr: Seq<Seq<char>>,
    pub outbound: Seq<Seq<u8>>,
    pub running: bool,
}

/// The state in which a process starts: running, with nothing captured and
/// nothing to write.
pub open spec fn started() -> DetachedView {
    DetachedView { stdout: Seq::empty(), stderr: Seq::empty(), outbound: Seq::empty(), running: true }
}

/// The texts of `lines`, one behind the other.
pub open spec fn concat(lines: Seq<Seq<char>>) -> Seq<char>
    decreases lines.len(),
{
    if lines.len() == 0 {
        Seq::empty()
    } else {
        concat(lines.drop_last()) + lines.last()
    }
}

/// The lines among `messages` that came from the standard output, in the
/// order of their arrival.
pub open spec fn stdout_lines(messages: Seq<CapturedView>) -> Seq<Seq<char>>
    decreases messages.len(),
{
    if messages.len() == 0 {
        Seq::empty()
    } else {
        match messages.last() {
            CapturedView::Stdout(line) => stdout_lines(messages.drop_last()).push(line),
            CapturedView::Stderr(_) => stdout_lines(messages.drop_last()),
        }
    }
}

/// The lines among `messages` that came from the standard error, in the
/// order of their arrival.
pub open spec fn stderr_lines(messages: Seq<CapturedView>) -> Seq<Seq<char>>
    decreases messages.len(),
{
    if messages.len() == 0 {
        Seq::empty()
    } else {
        match messages.last() {
            CapturedView::Stderr(line) => stderr_lines(messages.drop_last()).push(line),
            CapturedView::Stdout(_) => stderr_lines(messages.drop_last()),
        }
    }
}

/// The views of `messages`, in order.
pub open spec fn captured(messages: Seq<CapturedOutput>) -> Seq<CapturedView> {
    Seq::new(messages.len(), |i: int| messages[i]@)
}

/// The contents of `buffers`, in order.
pub open spec fn contents(buffers: Seq<Vec<u8>>) -> Seq<Seq<u8>> {
    Seq::new(buffers.len(), |i: int| buffers[i]@)
}

/// The text of the lines in `chunks`, one behind the other.
fn join_lines(chunks: &Vec<String>) -> (r: String)
    ensures
        r@ == concat(texts(chunks@)),
{
    let mut out: Vec<char> = Vec::new();
    let mut i: usize = 0;
    let ghost all = texts(chunks@);
    while i < chunks.len()
        invariant
            i <= chunks.len(),
            all == texts(chunks@),
            out@ == concat(all.take(i as int)),
        decreases chunks.len() - i,
    {
        push_str(&mut out, chunks[i].as_str());
        proof {
            let next = all.take(i + 1);
            assert(next.drop_last() =~= all.take(i as int));
        }
        i += 1;
    }
    proof {
        assert(all.take(i as int) =~= all);
    }
    string_from_chars(out)
}

/// What a worker that reads a stream of the process does with the outcome
/// of reading a line.
#[derive(Debug, Clone, Copy, PartialEq, Eq, Structural)]
pub enum ReaderStep {
    /// Hand the line on, then read the next one.
    Forward,
    /// Hand the line on, then stop.
    ForwardAndStop,
    /// Stop.
    Stop,
}

/// The step of a reading worker after a read that gave `read` bytes, or
/// failed where `read` is `None`: a line is handed on; the worker reads on
/// unless the stream has ended, which a read of nothing tells.
pub fn reader_step(read: Option<usize>) -> (step: ReaderStep)
    ensures
        step == match read {
            Some(n) => if n == 0 {
                ReaderStep::ForwardAndStop
            } else {
                ReaderStep::Forward
            },
            None => ReaderStep::Stop,
        },
{
    match read {
        Some(0) => ReaderStep::ForwardAndStop,
        Some(_) => ReaderStep::Forward,
        None => ReaderStep::Stop,
    }
}

/// Whether the writing worker flushes after a write that took `written`
/// bytes, or failed where `written` is `None`: only a write of more than
/// nothing is flushed.
pub fn writer_flushes(written: Option<usize>) -> (flush: bool)
    ensures
        flush == (written matches Some(n) && n > 0),
{
    match written {
        Some(n) => n > 0,
        None => false,
    }
}

/// Whether the writing worker goes on after writing a buffer: the write has
/// to have taken `written` bytes, more than none, and the flush behind it
/// has to have worked.
pub fn writer_continues(written: Option<usize>, flushed: bool) -> (go_on: bool)
    ensures
        go_on == (written matches Some(n) && n > 0 && flushed),
{
    match written {
        Some(n) => n > 0 && flushed,
        None => false,
    }
}

/// The owner's record of a process that runs in the background.
#[derive(Debug)]
pub struct DetachedCommand {
    stdout_chunks: Vec<String>,
    stderr_chunks: Vec<String>,
    outbound: Vec<Vec<u8>>,
    running: bool,
}

impl View for DetachedCommand {
    type V = DetachedView;

    closed spec fn view(&self) -> DetachedView {
        DetachedView {
            stdout: texts(self.stdout_chunks@),
            stderr: texts(self.stderr_chunks@),
            outbound: contents(self.outbound@),
            running: self.running,
        }
    }
}

impl DetachedCommand {
    /// The record of a process, from the outcome of starting it: a running
    /// one with nothing captured, or the system's error as a startup error.
    pub fn start(spawned: Result<(), std::io::Error>) -> (r: Result<DetachedCommand, Error>)
        ensures
            match spawned {
                Ok(_) => r matches Ok(handle) && handle@ == started(),
                Err(e) => r matches Err(Error::StartupFailed(cause)) && cause == e,
            },
    {
        match spawned {
            Ok(_) => {
                let handle = DetachedCommand {
                    stdout_chunks: Vec::new(),
                    stderr_chunks: Vec::new(),
                    outbound: Vec::new(),
                    running: true,
                };
                proof {
                    assert(handle@.stdout =~= Seq::<Seq<char>>::empty());
                    assert(handle@.outbound =~= Seq::<Seq<u8>>::empty());
                }
                Ok(handle)
            },
            Err(e) => Err(Error::StartupFailed(e)),
        }
    }

    /// Tells whether the process has not been shut down.
    pub fn is_running(&self) -> (b: bool)
        ensures
            b == self@.running,
    {
        self.running
    }

    /// Queues the bytes of the text `s` for the process. After the shutdown
    /// the text is dropped.
    pub fn send_str(&mut self, s: &str)
        ensures
            final(self)@ == (DetachedView {
                outbound: if old(self)@.running {
                    old(self)@.outbound.push(s.spec_bytes())
                } else {
                    old(self)@.outbound
                },
                ..old(self)@
            }),
    {
        self.send(s.as_bytes_vec());
    }

    /// Queues `buffer` for the process. After the shutdown the buffer is
    /// dropped.
    pub fn send(&mut self, buffer: Vec<u8>)
        ensures
            final(self)@ == (DetachedView {
                outbound: if old(self)@.running {
                    old(self)@.outbound.push(buffer@)
                } else {
                    old(self)@.outbound
                },
                ..old(self)@
            }),
    {
        if self.running {
            self.outbound.push(buffer);
            proof {
                assert(contents(self.outbound@) =~= contents(old(self).outbound@).push(buffer@));
            }
        }
    }

    /// Takes the queued buffers, oldest first, to be written to the process.
    pub fn take_outbound(&mut self) -> (buffers: Vec<Vec<u8>>)
        ensures
            contents(buffers@) == old(self)@.outbound,
            final(self)@ == (DetachedView { outbound: Seq::empty(), ..old(self)@ }),
    {
        let mut buffers: Vec<Vec<u8>> = Vec::new();
        std::mem::swap(&mut buffers, &mut self.outbound);
        proof {
            assert(contents(self.outbound@) =~= Seq::<Seq<u8>>::empty());
        }
        buffers
    }

    /// Tells whether lines of the standard output wait to be taken.
    pub fn stdout_available(&self) -> (b: bool)
        ensures
            b == (self@.stdout.len() > 0),
    {
        self.stdout_chunks.len() > 0
    }

    /// Tells whether lines of the standard error wait to be taken.
    pub fn stderr_available(&self) -> (b: bool)
        ensures
            b == (self@.stderr.len() > 0),
    {
        self.stderr_chunks.len() > 0
    }

    /// Takes the lines of the standard output that wait, as one text.
    pub fn recv_stdout(&mut self) -> (text: String)
        ensures
            text@ == concat(old(self)@.stdout),
            final(self)@ == (DetachedView { stdout: Seq::empty(), ..old(self)@ }),
    {
        let text = join_lines(&self.stdout_chunks);
        self.stdout_chunks.clear();
        proof {
            assert(texts(self.stdout_chunks@) =~= Seq::<Seq<char>>::empty());
        }
        text
    }

    /// Takes the lines of the standard error that wait, as one text.
    pub fn recv_stderr(&mut self) -> (text: String)
        ensures
            text@ == concat(old(self)@.stderr),
            final(self)@ == (DetachedView { stderr: Seq::empty(), ..old(self)@ }),
    {
        let text = join_lines(&self.stderr_chunks);
        self.stderr_chunks.clear();
        proof {
            assert(texts(self.stderr_chunks@) =~= Seq::<Seq<char>>::empty());
        }
        text
    }

    /// Takes in the messages that the reading workers have queued, in the
    /// order of their arrival, each to the lines of its stream. Gives
    /// `Disconnected` where the queue was found closed behind them.
    pub fn poll(&mut self, queued: Vec<CapturedOutput>, disconnected: bool) -> (r: Result<
        (),
        Error,
    >)
        ensures
            final(self)@ == (DetachedView {
                stdout: old(self)@.stdout + stdout_lines(captured(queued@)),
                stderr: old(self)@.stderr + stderr_lines(captured(queued@)),
                ..old(self)@
            }),
            disconnected ==> r matches Err(Error::Disconnected),
            !disconnected ==> r is Ok,
    {
        let ghost all = captured(queued@);
        for message in it: queued
            invariant
                all == captured(it.seq()),
                self.outbound == old(self).outbound,
                self.running == old(self).running,
                texts(self.stdout_chunks@) == old(self)@.stdout + stdout_lines(
                    all.take(it.index() as int),
                ),
                texts(self.stderr_chunks@) == old(self)@.stderr + stderr_lines(
                    all.take(it.index() as int),
                ),
        {
            let ghost before_out = texts(self.stdout_chunks@);
            let ghost before_err = texts(self.stderr_chunks@);
            proof {
                let next = all.take(it.index() + 1);
                assert(next.drop_last() =~= all.take(it.index() as int));
            }
            match message {
                CapturedOutput::Stdout(line) => {
                    self.stdout_chunks.push(line);
                    proof {
                        assert(texts(self.stdout_chunks@) =~= before_out.push(line@));
                    }
                },
                CapturedOutput::Stderr(line) => {
                    self.stderr_chunks.push(line);
                    proof {
                        assert(texts(self.stderr_chunks@) =~= before_err.push(line@));
                    }
                },
            }
        }
        proof {
            assert(all.take(all.len() as int) =~= all);
        }
        if disconnected {
            Err(Error::Disconnected)
        } else {
            Ok(())
        }
    }

    /// Marks the process as shut down. Nothing can be sent to it from then
    /// on.
    pub fn shutdown(&mut self)
        requires
            old(self)@.running,
        ensures
            final(self)@ == (DetachedView { running: false, ..old(self)@ }),
    {
        self.running = false;
    }
}

} // verus!
