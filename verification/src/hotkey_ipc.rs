//! Push-to-talk control from a Wayland compositor, over a datagram socket.
//!
//! The compositor's key bindings send explicit press and release messages; sending one while
//! nothing listens is harmless.

use vstd::prelude::*;
use vstd::string::*;

use crate::text::{below, path_below};

verus! {

/// The name of the socket in its directory.
pub const SOCKET_NAME: &'static str = "auto-voice-ptt.sock";

/// What a second instance is told.
pub const ALREADY_RUNNING: &'static str = "Auto Voice is already running";

/// A file of a session: in its runtime directory, or else among the temporary files.
pub open spec fn session_file(
    runtime_dir: Option<String>,
    temp_dir: String,
    name: Seq<char>,
) -> Seq<char> {
    below(
        match runtime_dir {
            Some(d) => d@,
            None => temp_dir@,
        },
        name,
        '/',
    )
}

/// Where a file of the session is.
pub fn in_session_dir(runtime_dir: Option<String>, temp_dir: String, name: &str) -> (r: String)
    ensures
        r@ == session_file(runtime_dir, temp_dir, name@),
{
    path_below(
        match runtime_dir {
            Some(d) => d,
            None => temp_dir,
        },
        name,
        '/',
    )
}

/// Where the socket is: in the session's runtime directory, or else among the temporary files.
pub fn socket_path(runtime_dir: Option<String>, temp_dir: String) -> (r: String)
    ensures
        r@ == session_file(runtime_dir, temp_dir, SOCKET_NAME@),
        r@ == session_file(runtime_dir, temp_dir, "auto-voice-ptt.sock"@),
{
    in_session_dir(runtime_dir, temp_dir, SOCKET_NAME)
}

/// A message on the socket.
#[derive(Clone, Copy, Debug, PartialEq, Eq, Structural)]
pub enum PttMessage {
    Press,
    Release,
    /// Asks whether anyone listens.
    Ping,
}

impl PttMessage {
    /// A message's bytes: its name in ASCII.
    pub open spec fn wire(self) -> Seq<u8> {
        match self {
            PttMessage::Press => seq![0x70u8, 0x72, 0x65, 0x73, 0x73],
            PttMessage::Release => seq![0x72u8, 0x65, 0x6C, 0x65, 0x61, 0x73, 0x65],
            PttMessage::Ping => seq![0x70u8, 0x69, 0x6E, 0x67],
        }
    }

    /// The message that bytes stand for, if any.
    pub open spec fn of_wire(bytes: Seq<u8>) -> Option<PttMessage> {
        if bytes == PttMessage::Press.wire() {
            Some(PttMessage::Press)
        } else if bytes == PttMessage::Release.wire() {
            Some(PttMessage::Release)
        } else if bytes == PttMessage::Ping.wire() {
            Some(PttMessage::Ping)
        } else {
            None
        }
    }

    /// A message's bytes.
    pub fn to_bytes(self) -> (r: Vec<u8>)
        ensures
            r@ == self.wire(),
    {
        let r: Vec<u8> = match self {
            PttMessage::Press => vec![0x70, 0x72, 0x65, 0x73, 0x73],
            PttMessage::Release => vec![0x72, 0x65, 0x6C, 0x65, 0x61, 0x73, 0x65],
            PttMessage::Ping => vec![0x70, 0x69, 0x6E, 0x67],
        };
        proof {
            assert(r@ =~= self.wire());
        }
        r
    }

    /// The message that bytes stand for; bytes that stand for none are to be ignored.
    pub fn from_bytes(bytes: &[u8]) -> (r: Option<PttMessage>)
        ensures
            r == PttMessage::of_wire(bytes@),
    {
        if same_bytes(bytes, PttMessage::Press.to_bytes().as_slice()) {
            Some(PttMessage::Press)
        } else if same_bytes(bytes, PttMessage::Release.to_bytes().as_slice()) {
            Some(PttMessage::Release)
        } else if same_bytes(bytes, PttMessage::Ping.to_bytes().as_slice()) {
            Some(PttMessage::Ping)
        } else {
            None
        }
    }
}

fn same_bytes(a: &[u8], b: &[u8]) -> (r: bool)
    ensures
        r == (a@ == b@),
{
    let n: usize = a.len();
    if n != b.len() {
        return false;
    }
    let mut i: usize = 0;
    while i < n
        invariant
            i <= n,
            n == a@.len(),
            n == b@.len(),
            forall|j: int| 0 <= j < i ==> a@[j] == b@[j],
        decreases n - i,
    {
        if a[i] != b[i] {
            return false;
        }
        i = i + 1;
    }
    proof {
        assert(a@ =~= b@);
    }
    true
}

/// What is sent is what is received.
pub proof fn messages_survive_the_wire(m: PttMessage)
    ensures
        PttMessage::of_wire(m.wire()) == Some(m),
{
    let press = PttMessage::Press.wire();
    let release = PttMessage::Release.wire();
    let ping = PttMessage::Ping.wire();
    assert(press.len() == 5 && release.len() == 7 && ping.len() == 4);
}

/// The listening side of the socket.
pub struct Server {
    pub socket_path: String,
    /// Whether the hotkey is held.
    pub held: bool,
}

impl Server {
    /// Claim the socket. `exists` tells whether its file is there, `answered` whether someone
    /// took a ping. The flag that comes with the server says that a stale file has to be removed
    /// before binding.
    pub fn start(socket_path: String, exists: bool, answered: bool) -> (r: Result<
        (Server, bool),
        &'static str,
    >)
        ensures
            match r {
                Ok((server, stale)) => {
                    &&& !(exists && answered)
                    &&& server.socket_path@ == socket_path@
                    &&& !server.held
                    &&& stale == exists
                },
                Err(m) => exists && answered && m@ == ALREADY_RUNNING@,
            },
    {
        match ensure_no_running_instance(exists, answered) {
            Ok(_) => Ok((Server { socket_path, held: false }, exists)),
            Err(m) => Err(m),
        }
    }

    /// Take a datagram. Press and release set the flag; everything else leaves it. The result
    /// tells whether the message was understood.
    pub fn receive(&mut self, bytes: &[u8]) -> (r: bool)
        ensures
            r == (PttMessage::of_wire(bytes@) is Some),
            final(self).socket_path@ == old(self).socket_path@,
            final(self).held == (match PttMessage::of_wire(bytes@) {
                Some(PttMessage::Press) => true,
                Some(PttMessage::Release) => false,
                _ => old(self).held,
            }),
    {
        match PttMessage::from_bytes(bytes) {
            Some(PttMessage::Press) => {
                self.held = true;
                true
            },
            Some(PttMessage::Release) => {
                self.held = false;
                true
            },
            Some(PttMessage::Ping) => true,
            None => false,
        }
    }
}

/// Whether this may be the only instance: nobody took a ping on the socket's file.
pub fn ensure_no_running_instance(exists: bool, answered: bool) -> (r: Result<(), &'static str>)
    ensures
        match r {
            Ok(_) => !(exists && answered),
            Err(m) => exists && answered && m@ == ALREADY_RUNNING@,
        },
{
    if exists && answered {
        Err(ALREADY_RUNNING)
    } else {
        Ok(())
    }
}

/// The bytes of a message spell its name.
pub proof fn messages_spell_their_names(m: PttMessage, i: int)
    ensures
        ({
            let name = match m {
                PttMessage::Press => "press"@,
                PttMessage::Release => "release"@,
                PttMessage::Ping => "ping"@,
            };
            &&& m.wire().len() == name.len()
            &&& 0 <= i < name.len() ==> m.wire()[i] as int == name[i] as int
        }),
        forall|bytes: Seq<u8>| PttMessage::of_wire(bytes) == Some(m) <==> bytes == m.wire(),
{
    reveal_strlit("press");
    reveal_strlit("release");
    reveal_strlit("ping");
    assert(PttMessage::Press.wire().len() == 5);
    assert(PttMessage::Release.wire().len() == 7);
    assert(PttMessage::Ping.wire().len() == 4);
}

/// A file of a session lies in the session's own directory, and among the temporary files only where
/// there is none.
pub proof fn session_files_lie_in_the_session(
    runtime_dir: Option<String>,
    temp_dir: String,
    name: Seq<char>,
)
    ensures
        runtime_dir matches Some(dir) ==> session_file(runtime_dir, temp_dir, name) == below(
            dir@,
            name,
            '/',
        ),
        runtime_dir is None ==> session_file(runtime_dir, temp_dir, name) == below(
            temp_dir@,
            name,
            '/',
        ),
{
}

}
