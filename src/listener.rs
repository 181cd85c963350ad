use vstd::prelude::*;

use crate::events::{decode, DecodeError, Event, EventModel};

verus! {

/// The two values that locate the window manager's sockets, read once at
/// startup: the window manager's runtime directory and the session's
/// signature.
#[derive(Clone, Debug, PartialEq, Eq)]
pub struct SessionConfig {
    pub runtime_dir: String,
    pub signature: String,
}

/// A required value of the session's configuration is absent.
#[derive(Clone, Copy, Debug, PartialEq, Eq, Structural)]
pub enum ConfigError {
    MissingRuntimeDir,
    MissingSignature,
}

/// The path of the socket named `socket` of a session.
pub open spec fn socket_path_of(runtime_dir: Seq<char>, signature: Seq<char>, socket: Seq<char>) -> Seq<
    char,
> {
    runtime_dir + "/"@ + signature + "/"@ + socket
}

impl SessionConfig {
    /// The configuration from the runtime directory and the session's
    /// signature; both are required.
    pub fn resolve(runtime_dir: Option<String>, signature: Option<String>) -> (r: Result<
        SessionConfig,
        ConfigError,
    >)
        ensures
            runtime_dir is None ==> r == Err::<SessionConfig, ConfigError>(
                ConfigError::MissingRuntimeDir,
            ),
            runtime_dir is Some && signature is None ==> r == Err::<SessionConfig, ConfigError>(
                ConfigError::MissingSignature,
            ),
            runtime_dir is Some && signature is Some ==> r == Ok::<SessionConfig, ConfigError>(
                SessionConfig { runtime_dir: runtime_dir.unwrap(), signature: signature.unwrap() },
            ),
    {
        match runtime_dir {
            None => Err(ConfigError::MissingRuntimeDir),
            Some(runtime_dir) => match signature {
                None => Err(ConfigError::MissingSignature),
                Some(signature) => Ok(SessionConfig { runtime_dir, signature }),
            },
        }
    }

    /// The path of the socket named `socket` of this session.
    pub fn socket_path(&self, socket: &str) -> (r: String)
        ensures
            r@ == socket_path_of(self.runtime_dir@, self.signature@, socket@),
    {
        let mut p = self.runtime_dir.clone();
        p.append("/");
        p.append(self.signature.as_str());
        p.append("/");
        p.append(socket);
        p
    }

    /// The path of the socket that pushes events.
    pub fn event_socket_path(&self) -> (r: String)
        ensures
            r@ == socket_path_of(self.runtime_dir@, self.signature@, ".socket2.sock"@),
    {
        self.socket_path(".socket2.sock")
    }

    /// The path of the socket that answers one-shot requests.
    pub fn request_socket_path(&self) -> (r: String)
        ensures
            r@ == socket_path_of(self.runtime_dir@, self.signature@, ".socket.sock"@),
    {
        self.socket_path(".socket.sock")
    }
}

/// What the listener makes of one read from its socket.
#[derive(Clone, Debug, PartialEq, Eq)]
pub enum LineOutcome {
    /// A line that decoded.
    Event(Event),
    /// A line that did not decode: it is dropped and reading goes on.
    Skipped(DecodeError),
    /// Nothing could be read: the connection is closed.
    Closed,
}

/// A line without its trailing newline, if it has one.
pub open spec fn strip_newline(line: Seq<char>) -> Seq<char> {
    if line.len() > 0 && line.last() == '\n' {
        line.drop_last()
    } else {
        line
    }
}

/// Decides what a read of `bytes_read` bytes that gave `line` means.
pub fn read_outcome(bytes_read: usize, line: &str) -> (r: LineOutcome)
    ensures
        bytes_read == 0 ==> r == LineOutcome::Closed,
        bytes_read > 0 ==> match decode(strip_newline(line@)) {
            Ok(e) => r matches LineOutcome::Event(x) && x@ == e,
            Err(d) => r == LineOutcome::Skipped(d),
        },
{
    if bytes_read == 0 {
        return LineOutcome::Closed;
    }
    let n = line.unicode_len();
    let body = if n > 0 && line.get_char(n - 1) == '\n' {
        line.substring_char(0, n - 1)
    } else {
        line
    };
    assert(body@ =~= strip_newline(line@));
    match Event::new(body) {
        Ok(e) => LineOutcome::Event(e),
        Err(d) => LineOutcome::Skipped(d),
    }
}

} // verus!
