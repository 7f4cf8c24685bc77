//! The controller of an engine: it numbers the commands, hands them to the
//! engine's process and reads the responses from what the process writes.
//!
//! The process itself runs outside this library. Its owner hands in what
//! came of starting it and what its output workers have queued, and writes
//! out the buffers that the controller has queued for it.

use vstd::prelude::*;
use crate::command::{wire_text, Command, CommandView};
use crate::detached_command::{
    captured, concat, contents, started, stderr_lines, stdout_lines, CapturedOutput,
    CapturedView, DetachedCommand, DetachedView,
};
use crate::response::{parse, Response, ResponseError, ResponseErrorView, ResponseParser};
use crate::text::{chars_of, push_str, string_from_chars, texts};

verus! {

/// The part of the time allowed for a response that a wait sleeps between
/// two polls.
pub const WAIT_POLL_DIV: u128 = 4;

/// The controller of an engine.
#[derive(Debug)]
pub struct Engine {
    cur_id: u32,
    cmd: String,
    rp: ResponseParser,
    args: Vec<String>,
    handle: Option<DetachedCommand>,
    stderr: String,
}

/// What went wrong in the controller.
#[derive(Debug)]
pub enum Error {
    /// The engine's process failed.
    ProcessError(crate::detached_command::Error),
    /// The engine wrote what is no response.
    ProtocolError(ResponseError),
    /// No engine has been started.
    NoHandle,
    /// No response has come yet: poll or wait again.
    PollAgain,
}

/// The state of an [`Engine`]: the id of the last command sent, the program
/// and its arguments, the text that was read from the engine and not yet
/// framed, the record of the process, if one was started, and the error
/// output gathered so far.
pub struct EngineView {
    pub cur_id: u32,
    pub cmd: Seq<char>,
    pub args: Seq<Seq<char>>,
    pub unframed: Seq<char>,
    pub handle: Option<DetachedView>,
    pub stderr: Seq<char>,
}

/// What a wait for a response does after a poll.
#[derive(Debug)]
pub enum WaitStep {
    /// The wait ends with this outcome.
    Done(Result<Response, Error>),
    /// Sleep for this many nanoseconds, then poll again.
    Sleep(u128),
}

impl View for Engine {
    type V = EngineView;

    closed spec fn view(&self) -> EngineView {
        EngineView {
            cur_id: self.cur_id,
            cmd: self.cmd@,
            args: texts(self.args@),
            unframed: self.rp@,
            handle: match self.handle {
                Some(h) => Some(h@),
                None => None,
            },
            stderr: self.stderr@,
        }
    }
}

/// The state of an engine's process after all its captured lines were
/// taken from it.
pub open spec fn drained(h: DetachedView) -> DetachedView {
    DetachedView { stdout: Seq::empty(), stderr: Seq::empty(), ..h }
}

/// The state of a controller after a poll that found the messages
/// `messages` queued and the queue open.
///
/// The lines of the standard error go behind the error output gathered so
/// far, the lines of the standard output behind the unframed text, and one
/// response is read from that text.
pub open spec fn polled(e: EngineView, messages: Seq<CapturedView>) -> EngineView
    recommends
        e.handle is Some,
{
    let h = e.handle->0;
    EngineView {
        unframed: parse(e.unframed + concat(h.stdout + stdout_lines(messages))).rest,
        stderr: e.stderr + concat(h.stderr + stderr_lines(messages)),
        handle: Some(drained(h)),
        ..e
    }
}

impl Engine {
    /// A controller for the engine at the path `cmd`, to be started with
    /// the arguments `args`.
    pub fn new(cmd: &str, args: &[&str]) -> (e: Engine)
        ensures
            e@ == (EngineView {
                cur_id: 0,
                cmd: cmd@,
                args: Seq::new(args@.len(), |i: int| args@[i]@),
                unframed: Seq::empty(),
                handle: None,
                stderr: Seq::empty(),
            }),
    {
        let mut owned: Vec<String> = Vec::new();
        let mut i: usize = 0;
        while i < args.len()
            invariant
                i <= args.len(),
                owned@.len() == i,
                forall|j: int| 0 <= j < i ==> owned@[j]@ == args@[j]@,
            decreases args.len() - i,
        {
            owned.push(args[i].to_owned());
            i += 1;
        }
        let e = Engine {
            cur_id: 0,
            cmd: cmd.to_owned(),
            rp: ResponseParser::new(),
            args: owned,
            handle: None,
            stderr: String::new(),
        };
        proof {
            assert(e@.args =~= Seq::new(args@.len(), |i: int| args@[i]@));
        }
        e
    }

    /// The path of the engine's program.
    pub fn cmd(&self) -> (cmd: String)
        ensures
            cmd@ == self@.cmd,
    {
        self.cmd.clone()
    }

    /// The arguments that the engine's program is started with.
    pub fn args(&self) -> (args: Vec<String>)
        ensures
            texts(args@) == self@.args,
    {
        let mut out: Vec<String> = Vec::new();
        let mut i: usize = 0;
        while i < self.args.len()
            invariant
                i <= self.args.len(),
                out@.len() == i,
                forall|j: int| 0 <= j < i ==> out@[j]@ == self.args@[j]@,
            decreases self.args.len() - i,
        {
            out.push(self.args[i].clone());
            i += 1;
        }
        out
    }

    /// The id of the last command that was sent; 0 where none was.
    pub fn last_id(&self) -> (id: u32)
        ensures
            id == self@.cur_id,
    {
        self.cur_id
    }

    /// Tells whether an engine has been started.
    pub fn is_started(&self) -> (b: bool)
        ensures
            b == self@.handle is Some,
    {
        self.handle.is_some()
    }

    /// Gives up the engine's process, and tells whether there was one. The
    /// owner of the process shuts it down when there was one, and before it
    /// starts another.
    pub fn stop(&mut self) -> (was_started: bool)
        ensures
            was_started == old(self)@.handle is Some,
            final(self)@ == (EngineView { handle: None, ..old(self)@ }),
    {
        match self.handle.take() {
            Some(mut previous) => {
                if previous.is_running() {
                    previous.shutdown();
                }
                true
            },
            None => false,
        }
    }

    /// Takes up an engine's process from the outcome `spawned` of starting
    /// it. A process that was taken up before is given up first, as by
    /// `stop`, whatever the outcome.
    pub fn start(&mut self, spawned: Result<(), std::io::Error>) -> (r: Result<(), Error>)
        ensures
            match spawned {
                Ok(_) => r is Ok && final(self)@ == (EngineView {
                    handle: Some(started()),
                    ..old(self)@
                }),
                Err(e) => r matches Err(
                    Error::ProcessError(crate::detached_command::Error::StartupFailed(cause)),
                ) && cause == e && final(self)@ == (EngineView { handle: None, ..old(self)@ }),
            },
    {
        self.stop();
        match DetachedCommand::start(spawned) {
            Ok(handle) => {
                self.handle = Some(handle);
                Ok(())
            },
            Err(e) => Err(Error::ProcessError(e)),
        }
    }

    /// Sends a command to the engine and gives the id it was sent with: the
    /// last id and one. The command's text is queued for the process.
    /// Without a started engine nothing is sent, and the id is 0.
    pub fn send(&mut self, cmd: Command) -> (id: u32)
        requires
            old(self)@.handle is Some ==> old(self)@.cur_id < u32::MAX,
        ensures
            match old(self)@.handle {
                None => id == 0 && final(self)@ == old(self)@,
                Some(h) => id == old(self)@.cur_id + 1 && final(self)@ == (EngineView {
                    cur_id: id,
                    handle: Some(
                        DetachedView {
                            outbound: if h.running {
                                h.outbound.push(
                                    vstd::utf8::encode_utf8(
                                        wire_text(CommandView { id: Some(id), ..cmd@ }),
                                    ),
                                )
                            } else {
                                h.outbound
                            },
                            ..h
                        },
                    ),
                    ..old(self)@
                }),
            },
    {
        let mut cmd = cmd;
        match self.handle.as_mut() {
            None => 0,
            Some(handle) => {
                self.cur_id += 1;
                cmd.set_id(self.cur_id);
                handle.send(cmd.to_bytes());
                self.cur_id
            },
        }
    }

    /// Takes the buffers that were queued for the engine's process, oldest
    /// first, to be written to it.
    pub fn take_outbound(&mut self) -> (buffers: Vec<Vec<u8>>)
        ensures
            match old(self)@.handle {
                None => buffers@.len() == 0 && final(self)@ == old(self)@,
                Some(h) => {
                    &&& contents(buffers@) == h.outbound
                    &&& final(self)@ == (EngineView {
                        handle: Some(DetachedView { outbound: Seq::empty(), ..h }),
                        ..old(self)@
                    })
                },
            },
    {
        match self.handle.as_mut() {
            None => Vec::new(),
            Some(handle) => handle.take_outbound(),
        }
    }

    /// The error output of the engine that was gathered so far.
    pub fn stderr(&self) -> (text: String)
        ensures
            text@ == self@.stderr,
    {
        self.stderr.clone()
    }

    /// Forgets the error output that was gathered so far.
    pub fn clear_stderr(&mut self)
        ensures
            final(self)@ == (EngineView { stderr: Seq::empty(), ..old(self)@ }),
    {
        self.stderr = String::new();
    }

    /// Polls once for a response, given the messages `queued` that the
    /// output workers have queued since the last poll, and whether the
    /// queue was found closed behind them.
    ///
    /// Without a started engine the poll fails with `NoHandle`. A closed
    /// queue fails it with a process error. Otherwise the captured lines go
    /// to the error output and to the parser, and the outcome is that of
    /// reading one response: the response, `PollAgain` where none is
    /// complete yet, or a protocol error where the text is no response.
    pub fn poll_response(&mut self, queued: Vec<CapturedOutput>, disconnected: bool) -> (r: Result<
        Response,
        Error,
    >)
        ensures
            match old(self)@.handle {
                None => r matches Err(Error::NoHandle) && final(self)@ == old(self)@,
                Some(h) => if disconnected {
                    &&& r matches Err(
                        Error::ProcessError(crate::detached_command::Error::Disconnected),
                    )
                    &&& final(self)@ == (EngineView {
                        handle: Some(
                            DetachedView {
                                stdout: h.stdout + stdout_lines(captured(queued@)),
                                stderr: h.stderr + stderr_lines(captured(queued@)),
                                ..h
                            },
                        ),
                        ..old(self)@
                    })
                } else {
                    &&& final(self)@ == polled(old(self)@, captured(queued@))
                    &&& match parse(
                        old(self)@.unframed + concat(h.stdout + stdout_lines(captured(queued@))),
                    ).outcome {
                        Ok(response) => r matches Ok(got) && got@ == response,
                        Err(ResponseErrorView::IncompleteResponse) => r matches Err(
                            Error::PollAgain,
                        ),
                        Err(ResponseErrorView::BadResponse(text)) => r matches Err(
                            Error::ProtocolError(ResponseError::BadResponse(shown)),
                        ) && shown@ == text,
                    }
                },
            },
    {
        let ghost before = self@;
        let handle = match self.handle.as_mut() {
            None => {
                return Err(Error::NoHandle);
            },
            Some(handle) => handle,
        };
        let ghost h = before.handle->0;
        match handle.poll(queued, disconnected) {
            Err(e) => {
                return Err(Error::ProcessError(e));
            },
            Ok(_) => {},
        }
        let ghost out_lines = h.stdout + stdout_lines(captured(queued@));
        let ghost err_lines = h.stderr + stderr_lines(captured(queued@));
        if handle.stderr_available() {
            let text = handle.recv_stderr();
            let mut all = chars_of(self.stderr.as_str());
            push_str(&mut all, text.as_str());
            self.stderr = string_from_chars(all);
        } else {
            proof {
                assert(err_lines =~= Seq::<Seq<char>>::empty());
            }
        }
        if handle.stdout_available() {
            let text = handle.recv_stdout();
            self.rp.feed(text.as_str());
        } else {
            proof {
                assert(out_lines =~= Seq::<Seq<char>>::empty());
            }
        }
        match self.rp.get_response() {
            Ok(response) => Ok(response),
            Err(ResponseError::IncompleteResponse) => Err(Error::PollAgain),
            Err(e) => Err(Error::ProtocolError(e)),
        }
    }

    /// What a wait for a response does after a poll with the outcome
    /// `polled`, when `elapsed` nanoseconds of the `timeout` nanoseconds
    /// allowed have passed.
    ///
    /// A response or an error ends the wait. On `PollAgain` the wait ends
    /// with `PollAgain` once more time has passed than allowed; until then
    /// it sleeps for a quarter of the time allowed and polls again.
    pub fn wait_step(polled: Result<Response, Error>, elapsed: u128, timeout: u128) -> (step:
        WaitStep)
        ensures
            match polled {
                Err(Error::PollAgain) => if elapsed > timeout {
                    step matches WaitStep::Done(Err(Error::PollAgain))
                } else {
                    step matches WaitStep::Sleep(interval) && interval == timeout / WAIT_POLL_DIV
                },
                _ => step matches WaitStep::Done(outcome) && outcome == polled,
            },
    {
        match polled {
            Err(Error::PollAgain) => {
                if elapsed > timeout {
                    WaitStep::Done(Err(Error::PollAgain))
                } else {
                    WaitStep::Sleep(timeout / WAIT_POLL_DIV)
                }
            },
            other => WaitStep::Done(other),
        }
    }
}

} // verus!
