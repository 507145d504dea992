use vstd::prelude::*;
use crate::config::DEFAULT_BUFFER_SIZE;
use crate::eacopy::PathKind;
use crate::error::{Error, ErrorView};
use crate::protocol::{Command, Response};

verus! {

/// Counters of a server since it was created.
#[derive(Debug, Clone, Copy, PartialEq, Eq, Structural)]
pub struct ServerStats {
    pub connections: u64,
    pub active_connections: u64,
    pub bytes_sent: u64,
    pub bytes_received: u64,
    pub files_sent: u64,
    pub files_received: u64,
}

/// What a server does with a command, once it has looked at the path the
/// command names.
#[derive(Debug, Clone, Copy, PartialEq, Eq, Structural)]
pub enum ServerAction {
    /// List the directory, then answer.
    ListDirectory,
    /// Create the directory (an existing one is accepted), then answer.
    CreateDirectory,
    /// Send the file's bytes, then answer.
    SendFile,
    /// Receive the file's bytes, then answer.
    ReceiveFile,
    /// Answer at once.
    Reply(Response),
}

/// The error codes a server answers with.
pub const CODE_FILE_NOT_FOUND: u32 = 2;
pub const CODE_DIRECTORY_NOT_FOUND: u32 = 3;
pub const CODE_ALREADY_EXISTS: u32 = 80;
pub const CODE_INVALID_PARAMETER: u32 = 87;

/// How a server treats a command whose path it found to be of kind `k`.
pub open spec fn dispatch_spec(c: Command, k: PathKind) -> ServerAction {
    match c {
        Command::Enumerate { .. } => if k == PathKind::Directory {
            ServerAction::ListDirectory
        } else if k == PathKind::Missing {
            ServerAction::Reply(Response::Failure { code: CODE_DIRECTORY_NOT_FOUND })
        } else {
            ServerAction::Reply(Response::Failure { code: CODE_INVALID_PARAMETER })
        },
        Command::CreateDirectory { .. } => if k == PathKind::Missing || k == PathKind::Directory {
            ServerAction::CreateDirectory
        } else {
            ServerAction::Reply(Response::Failure { code: CODE_ALREADY_EXISTS })
        },
        Command::ReadFile { .. } => if k == PathKind::File {
            ServerAction::SendFile
        } else if k == PathKind::Missing {
            ServerAction::Reply(Response::Failure { code: CODE_FILE_NOT_FOUND })
        } else {
            ServerAction::Reply(Response::Failure { code: CODE_INVALID_PARAMETER })
        },
        Command::WriteFile { compression_level, .. } => if compression_level > 9 || k == PathKind::Directory {
            ServerAction::Reply(Response::Failure { code: CODE_INVALID_PARAMETER })
        } else {
            ServerAction::ReceiveFile
        },
    }
}

/// How a server treats command `c` whose path is of kind `k`: each command
/// is checked against what stands at its path before anything is done.
pub fn dispatch(c: &Command, k: PathKind) -> (r: ServerAction)
    ensures
        r == dispatch_spec(*c, k),
{
    match c {
        Command::Enumerate { .. } => if k == PathKind::Directory {
            ServerAction::ListDirectory
        } else if k == PathKind::Missing {
            ServerAction::Reply(Response::Failure { code: CODE_DIRECTORY_NOT_FOUND })
        } else {
            ServerAction::Reply(Response::Failure { code: CODE_INVALID_PARAMETER })
        },
        Command::CreateDirectory { .. } => if k == PathKind::Missing || k == PathKind::Directory {
            ServerAction::CreateDirectory
        } else {
            ServerAction::Reply(Response::Failure { code: CODE_ALREADY_EXISTS })
        },
        Command::ReadFile { .. } => if k == PathKind::File {
            ServerAction::SendFile
        } else if k == PathKind::Missing {
            ServerAction::Reply(Response::Failure { code: CODE_FILE_NOT_FOUND })
        } else {
            ServerAction::Reply(Response::Failure { code: CODE_INVALID_PARAMETER })
        },
        Command::WriteFile { compression_level, .. } => if *compression_level > 9 || k == PathKind::Directory {
            ServerAction::Reply(Response::Failure { code: CODE_INVALID_PARAMETER })
        } else {
            ServerAction::ReceiveFile
        },
    }
}

/// `a + b`, or the largest `u64` where that does not fit.
pub open spec fn sat_add(a: u64, b: u64) -> u64 {
    if a + b > u64::MAX { u64::MAX } else { (a + b) as u64 }
}

fn saturating(a: u64, b: u64) -> (r: u64)
    ensures
        r == sat_add(a, b),
{
    if b > u64::MAX - a { u64::MAX } else { a + b }
}

/// A copy server: its settings, whether it is running, and its counters.
/// The caller owns the listening socket and the connections; the server
/// decides which connections to admit and how to answer commands.
#[derive(Debug, Clone, Copy, PartialEq, Eq, Structural)]
pub struct EACopyServer {
    pub port: u16,
    pub thread_count: usize,
    pub buffer_size: usize,
    pub running: bool,
    pub stats: ServerStats,
}

impl EACopyServer {
    pub open spec fn wf(&self) -> bool {
        &&& self.thread_count >= 1
        &&& self.stats.active_connections <= self.thread_count
        &&& !self.running ==> self.stats.active_connections == 0
    }

    /// A stopped server for `port` with `thread_count` workers, which must
    /// be at least one.
    pub fn new(port: u16, thread_count: usize) -> (r: Result<EACopyServer, Error>)
        ensures
            r is Ok <==> thread_count >= 1,
            r matches Ok(s) ==> s.wf() && s.port == port && s.thread_count == thread_count
                && s.buffer_size == DEFAULT_BUFFER_SIZE && !s.running
                && s.stats == (ServerStats { connections: 0, active_connections: 0, bytes_sent: 0,
                    bytes_received: 0, files_sent: 0, files_received: 0 }),
            r matches Err(e) ==> e@ is Configuration,
    {
        if thread_count == 0 {
            return Err(Error::Configuration(String::from_str("a server needs at least one thread")));
        }
        Ok(EACopyServer {
            port,
            thread_count,
            buffer_size: DEFAULT_BUFFER_SIZE,
            running: false,
            stats: ServerStats {
                connections: 0,
                active_connections: 0,
                bytes_sent: 0,
                bytes_received: 0,
                files_sent: 0,
                files_received: 0,
            },
        })
    }

    /// Starts serving; a running server cannot be started again.
    pub fn start(&mut self) -> (r: Result<(), Error>)
        requires
            old(self).wf(),
        ensures
            final(self).wf(),
            r is Ok <==> !old(self).running,
            r is Ok ==> *final(self) == (EACopyServer { running: true, ..*old(self) }),
            r matches Err(e) ==> e@ is Server && *final(self) == *old(self),
    {
        if self.running {
            return Err(Error::Server(String::from_str("server is already running")));
        }
        self.running = true;
        Ok(())
    }

    /// Stops serving and drops every connection; a stopped server cannot
    /// be stopped again.
    pub fn stop(&mut self) -> (r: Result<(), Error>)
        requires
            old(self).wf(),
        ensures
            final(self).wf(),
            r is Ok <==> old(self).running,
            r is Ok ==> !final(self).running && final(self).stats.active_connections == 0
                && final(self).stats.connections == old(self).stats.connections
                && final(self).stats.bytes_sent == old(self).stats.bytes_sent
                && final(self).stats.bytes_received == old(self).stats.bytes_received
                && final(self).stats.files_sent == old(self).stats.files_sent
                && final(self).stats.files_received == old(self).stats.files_received
                && final(self).port == old(self).port && final(self).thread_count == old(self).thread_count,
            r matches Err(e) ==> e@ is Server && *final(self) == *old(self),
    {
        if !self.running {
            return Err(Error::Server(String::from_str("server is not running")));
        }
        self.running = false;
        self.stats.active_connections = 0;
        Ok(())
    }

    pub fn is_running(&self) -> (r: bool)
        ensures
            r == self.running,
    {
        self.running
    }

    pub fn get_stats(&self) -> (r: ServerStats)
        ensures
            r == self.stats,
    {
        self.stats
    }

    pub fn get_port(&self) -> (r: u16)
        ensures
            r == self.port,
    {
        self.port
    }

    pub fn get_thread_count(&self) -> (r: usize)
        ensures
            r == self.thread_count,
    {
        self.thread_count
    }

    /// A client connects. It is admitted while a worker is free; otherwise
    /// it is answered "busy" and may try again. A stopped server admits no
    /// one.
    pub fn accept(&mut self) -> (r: Option<Response>)
        requires
            old(self).wf(),
        ensures
            final(self).wf(),
            final(self).running == old(self).running,
            final(self).thread_count == old(self).thread_count,
            !old(self).running ==> r == Some(Response::Failure { code: CODE_INVALID_PARAMETER })
                && *final(self) == *old(self),
            old(self).running && old(self).stats.active_connections >= old(self).thread_count
                ==> r == Some(Response::Busy) && *final(self) == *old(self),
            old(self).running && old(self).stats.active_connections < old(self).thread_count ==> {
                &&& r is None
                &&& final(self).stats == (ServerStats {
                    connections: sat_add(old(self).stats.connections, 1),
                    active_connections: (old(self).stats.active_connections + 1) as u64,
                    ..old(self).stats
                })
            },
    {
        if !self.running {
            return Some(Response::Failure { code: CODE_INVALID_PARAMETER });
        }
        if self.stats.active_connections as usize >= self.thread_count {
            return Some(Response::Busy);
        }
        self.stats.connections = saturating(self.stats.connections, 1);
        self.stats.active_connections = self.stats.active_connections + 1;
        None
    }

    /// An admitted client went away.
    pub fn on_disconnect(&mut self)
        requires
            old(self).wf(),
        ensures
            final(self).wf(),
            final(self).stats.active_connections == if old(self).stats.active_connections > 0 {
                (old(self).stats.active_connections - 1) as u64
            } else {
                0
            },
            final(self).stats.connections == old(self).stats.connections,
            final(self).running == old(self).running,
    {
        if self.stats.active_connections > 0 {
            self.stats.active_connections = self.stats.active_connections - 1;
        }
    }

    /// A file of `bytes` bytes was sent: the answer is success with that
    /// count.
    pub fn on_file_sent(&mut self, bytes: u64) -> (r: Response)
        requires
            old(self).wf(),
        ensures
            final(self).wf(),
            r == (Response::Success { bytes }),
            final(self).stats.bytes_sent == sat_add(old(self).stats.bytes_sent, bytes),
            final(self).stats.files_sent == sat_add(old(self).stats.files_sent, 1),
            final(self).stats.bytes_received == old(self).stats.bytes_received,
            final(self).stats.files_received == old(self).stats.files_received,
            final(self).stats.active_connections == old(self).stats.active_connections,
            final(self).running == old(self).running,
    {
        self.stats.bytes_sent = saturating(self.stats.bytes_sent, bytes);
        self.stats.files_sent = saturating(self.stats.files_sent, 1);
        Response::Success { bytes }
    }

    /// A file of `bytes` bytes was received: the answer is success with
    /// that count.
    pub fn on_file_received(&mut self, bytes: u64) -> (r: Response)
        requires
            old(self).wf(),
        ensures
            final(self).wf(),
            r == (Response::Success { bytes }),
            final(self).stats.bytes_received == sat_add(old(self).stats.bytes_received, bytes),
            final(self).stats.files_received == sat_add(old(self).stats.files_received, 1),
            final(self).stats.bytes_sent == old(self).stats.bytes_sent,
            final(self).stats.files_sent == old(self).stats.files_sent,
            final(self).stats.active_connections == old(self).stats.active_connections,
            final(self).running == old(self).running,
    {
        self.stats.bytes_received = saturating(self.stats.bytes_received, bytes);
        self.stats.files_received = saturating(self.stats.files_received, 1);
        Response::Success { bytes }
    }
}

/// A stopped server for `port` with `thread_count` workers.
pub fn create_server(port: u16, thread_count: usize) -> (r: Result<EACopyServer, Error>)
    ensures
        r is Ok <==> thread_count >= 1,
        r matches Ok(s) ==> s.wf() && s.port == port && s.thread_count == thread_count && !s.running,
        r matches Err(e) ==> e@ is Configuration,
{
    EACopyServer::new(port, thread_count)
}

} // verus!
