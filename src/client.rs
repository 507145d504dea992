use vstd::prelude::*;
use crate::error::{Error, ErrorView, from_error_code};
use crate::path::FsPath;
use crate::protocol::{Command, Response};

verus! {

/// Where a client session stands.
#[derive(Debug, Clone, Copy, PartialEq, Eq, Structural)]
pub enum SessionState {
    Disconnected,
    Connecting,
    Transferring,
    Closed,
}

/// What the caller does next for a session.
#[derive(Debug, PartialEq, Eq)]
pub enum ClientAction {
    /// Open the connection, after waiting this many milliseconds.
    Connect { delay_ms: u64 },
    /// Send the session's command (framed by `encode_command`), after
    /// waiting this many milliseconds; data frames compressed or not.
    Send { delay_ms: u64, compressed: bool },
    /// Close the connection; this is the outcome of the session.
    Finish(Result<u64, Error>),
}

/// One command carried out through a server: its connection retries, its
/// back-off while the server is busy, and its fallback to uncompressed
/// data. The caller owns the connection and closes it on `Finish`, on
/// every path.
pub struct ClientSession {
    pub command: Command,
    /// The path named in errors.
    pub path: FsPath,
    /// The server's address and port.
    pub server: String,
    pub port: u16,
    pub compression_level: u32,
    pub retry_count: u32,
    pub retry_delay_ms: u64,
    pub state: SessionState,
    /// Failed connection attempts so far.
    pub connect_failures: u32,
    /// Busy answers so far.
    pub busy_answers: u32,
    /// Whether data frames are still compressed.
    pub compressed: bool,
}

/// What an answer of the server leads to.
pub enum Outcome {
    /// The command succeeded with this many bytes.
    Finished(u64),
    /// Send again after this many milliseconds.
    Backoff(u64),
    /// Send again at once, uncompressed.
    ResendPlain,
    /// The session fails.
    Failed,
}

/// What answer `r` leads to in session `s`: success finishes it; a busy
/// server is asked again after the retry delay until the retry count is
/// spent; a decompression failure has the data sent again uncompressed,
/// once; a failure code ends it.
pub open spec fn response_outcome(s: ClientSession, r: Response) -> Outcome {
    match r {
        Response::Success { bytes } => Outcome::Finished(bytes),
        Response::Busy => if s.busy_answers < s.retry_count { Outcome::Backoff(s.retry_delay_ms) } else { Outcome::Failed },
        Response::DecompressionFailed => if s.compressed { Outcome::ResendPlain } else { Outcome::Failed },
        Response::Failure { .. } => Outcome::Failed,
    }
}

impl ClientSession {
    pub open spec fn wf(&self) -> bool {
        &&& self.connect_failures <= self.retry_count
        &&& self.busy_answers <= self.retry_count
    }

    /// A session for `command` with server `server` on `port` under the
    /// given policy; the path is named in its errors.
    pub fn new(
        command: Command,
        path: FsPath,
        server: String,
        port: u16,
        compression_level: u32,
        retry_count: u32,
        retry_delay_ms: u64,
    ) -> (r: ClientSession)
        ensures
            r.wf(),
            r.command == command,
            r.path == path,
            r.server == server,
            r.port == port,
            r.compression_level == compression_level,
            r.retry_count == retry_count,
            r.retry_delay_ms == retry_delay_ms,
            r.state == SessionState::Disconnected,
            r.connect_failures == 0,
            r.busy_answers == 0,
            r.compressed == (compression_level > 0),
    {
        ClientSession {
            command,
            path,
            server,
            port,
            compression_level,
            retry_count,
            retry_delay_ms,
            state: SessionState::Disconnected,
            connect_failures: 0,
            busy_answers: 0,
            compressed: compression_level > 0,
        }
    }

    /// Begins the session: the connection is opened at once.
    pub fn start(&mut self) -> (a: ClientAction)
        requires
            old(self).wf(),
            old(self).state == SessionState::Disconnected,
        ensures
            final(self).wf(),
            a == (ClientAction::Connect { delay_ms: 0 }),
            *final(self) == (ClientSession { state: SessionState::Connecting, ..*old(self) }),
    {
        self.state = SessionState::Connecting;
        ClientAction::Connect { delay_ms: 0 }
    }

    /// The connection is open: the command is sent.
    pub fn on_connected(&mut self) -> (a: ClientAction)
        requires
            old(self).wf(),
            old(self).state == SessionState::Connecting,
        ensures
            final(self).wf(),
            a == (ClientAction::Send { delay_ms: 0, compressed: old(self).compressed }),
            *final(self) == (ClientSession { state: SessionState::Transferring, ..*old(self) }),
    {
        self.state = SessionState::Transferring;
        ClientAction::Send { delay_ms: 0, compressed: self.compressed }
    }

    /// Opening the connection failed with `error`: it is tried again after
    /// the retry delay until the retry count is spent, then the session
    /// fails with that error.
    pub fn on_connect_failed(&mut self, error: Error) -> (a: ClientAction)
        requires
            old(self).wf(),
            old(self).state == SessionState::Connecting,
        ensures
            final(self).wf(),
            old(self).connect_failures < old(self).retry_count ==> {
                &&& a == (ClientAction::Connect { delay_ms: old(self).retry_delay_ms })
                &&& *final(self) == (ClientSession { connect_failures: (old(self).connect_failures + 1) as u32, ..*old(self) })
            },
            old(self).connect_failures >= old(self).retry_count ==> {
                &&& a == ClientAction::Finish(Err(error))
                &&& *final(self) == (ClientSession { state: SessionState::Closed, ..*old(self) })
            },
    {
        if self.connect_failures < self.retry_count {
            self.connect_failures = self.connect_failures + 1;
            ClientAction::Connect { delay_ms: self.retry_delay_ms }
        } else {
            self.state = SessionState::Closed;
            ClientAction::Finish(Err(error))
        }
    }

    /// The server answered `r`.
    pub fn on_response(&mut self, r: Response) -> (a: ClientAction)
        requires
            old(self).wf(),
            old(self).state == SessionState::Transferring,
        ensures
            final(self).wf(),
            final(self).command == old(self).command,
            final(self).retry_count == old(self).retry_count,
            final(self).retry_delay_ms == old(self).retry_delay_ms,
            match response_outcome(*old(self), r) {
                Outcome::Finished(b) => a == ClientAction::Finish(Ok(b))
                    && final(self).state == SessionState::Closed,
                Outcome::Backoff(ms) => a == (ClientAction::Send { delay_ms: ms, compressed: old(self).compressed })
                    && *final(self) == (ClientSession { busy_answers: (old(self).busy_answers + 1) as u32, ..*old(self) }),
                Outcome::ResendPlain => a == (ClientAction::Send { delay_ms: 0, compressed: false })
                    && *final(self) == (ClientSession { compressed: false, ..*old(self) }),
                Outcome::Failed => (a matches ClientAction::Finish(Err(_)))
                    && final(self).state == SessionState::Closed,
            },
            r matches Response::Failure { code } ==> (a matches ClientAction::Finish(Err(e))
                && e@ == crate::error::error_for_code(code as i32, old(self).path@)),
    {
        match r {
            Response::Success { bytes } => {
                self.state = SessionState::Closed;
                ClientAction::Finish(Ok(bytes))
            },
            Response::Busy => {
                if self.busy_answers < self.retry_count {
                    self.busy_answers = self.busy_answers + 1;
                    ClientAction::Send { delay_ms: self.retry_delay_ms, compressed: self.compressed }
                } else {
                    self.state = SessionState::Closed;
                    ClientAction::Finish(Err(Error::Server(String::from_str("server stayed busy"))))
                }
            },
            Response::DecompressionFailed => {
                if self.compressed {
                    self.compressed = false;
                    ClientAction::Send { delay_ms: 0, compressed: false }
                } else {
                    self.state = SessionState::Closed;
                    ClientAction::Finish(Err(Error::Server(String::from_str("server could not read uncompressed data"))))
                }
            },
            Response::Failure { code } => {
                self.state = SessionState::Closed;
                ClientAction::Finish(Err(from_error_code(code as i32, Some(&self.path))))
            },
        }
    }

    /// The server's answer was not a valid frame, or the connection broke
    /// mid-command: the session fails at once, never retried.
    pub fn on_transport_error(&mut self, error: Error) -> (a: ClientAction)
        requires
            old(self).wf(),
        ensures
            final(self).wf(),
            a == ClientAction::Finish(Err(error)),
            *final(self) == (ClientSession { state: SessionState::Closed, ..*old(self) }),
    {
        self.state = SessionState::Closed;
        ClientAction::Finish(Err(error))
    }
}

/// A client that hears "busy" first and then success reports the success,
/// with the byte count of the second answer, whenever its retry count
/// allows one more attempt.
pub proof fn lemma_busy_then_success(s: ClientSession, bytes: u64)
    requires
        s.wf(),
        s.busy_answers < s.retry_count,
    ensures
        response_outcome(s, Response::Busy) == Outcome::Backoff(s.retry_delay_ms),
        response_outcome(
            ClientSession { busy_answers: (s.busy_answers + 1) as u32, ..s },
            Response::Success { bytes },
        ) == Outcome::Finished(bytes),
{
}

} // verus!
