//! The session launcher's verified core: from a resolved profile, the exact
//! argument list for the external remote-shell program, and the policy that
//! classifies how a session attempt ended. Spawning the subprocess itself is
//! left to the unverified shell around this crate, which hands the observed
//! events back in as plain booleans.

use vstd::prelude::*;

verus! {

use crate::config::{Server, ServerView};
use crate::text::push_char;

/// Holds the resolved profile that a session will be launched for.
pub struct Agent {
    server: Server,
}

/// The destination argument: `username@host`.
pub open spec fn spec_destination(s: ServerView) -> Seq<char> {
    s.username + seq!['@'] + s.host
}

/// The identity argument, passed as one word: `-i <path>`.
pub open spec fn spec_identity_arg(id: Seq<char>) -> Seq<char> {
    "-i "@ + id
}

/// The full argument list handed to the remote-shell program: the destination,
/// and the identity argument exactly when the profile carries a non-empty
/// identity path.
pub open spec fn spec_command_args(s: ServerView) -> Seq<Seq<char>> {
    match s.identity {
        Some(id) => if id.len() > 0 {
            seq![spec_destination(s), spec_identity_arg(id)]
        } else {
            seq![spec_destination(s)]
        },
        None => seq![spec_destination(s)],
    }
}

impl View for Agent {
    type V = ServerView;

    closed spec fn view(&self) -> ServerView {
        self.server@
    }
}

impl Agent {
    fn new(server: Server) -> (a: Agent)
        ensures
            a@ == server@,
    {
        Agent { server }
    }

    /// The `username@host` destination for this agent's profile.
    pub fn destination(&self) -> (r: String)
        ensures
            r@ == spec_destination(self@),
    {
        let mut d = String::new();
        d.append(self.server.username.as_str());
        push_char(&mut d, '@');
        d.append(self.server.host.as_str());
        proof {
            assert(d@ =~= spec_destination(self@));
        }
        d
    }

    /// The arguments for the remote-shell invocation this agent describes.
    pub fn command_args(&self) -> (r: Vec<String>)
        ensures
            r@.map_values(|a: String| a@) == spec_command_args(self@),
    {
        let mut args: Vec<String> = Vec::new();
        args.push(self.destination());
        match &self.server.identity {
            Some(id) => {
                if !id.as_str().is_empty() {
                    let mut identity_arg = String::from_str("-i ");
                    identity_arg.append(id.as_str());
                    args.push(identity_arg);
                }
            },
            None => {},
        }
        proof {
            assert(args@.map_values(|a: String| a@) =~= spec_command_args(self@));
        }
        args
    }
}

/// How one session attempt ended, as the dispatcher sees it.
#[derive(Debug, Clone, Copy, PartialEq, Eq)]
pub enum SessionOutcome {
    /// The subprocess was spawned, waited for, and exited successfully.
    Success,
    /// The subprocess could not be spawned at all.
    SessionSpawnFailed,
    /// The subprocess was spawned but exited abnormally, or waiting on it
    /// failed.
    SessionExitedAbnormally,
}

impl SessionOutcome {
    /// The process exit code a session attempt maps to: zero exactly on
    /// success.
    pub fn exit_code(&self) -> (r: i32)
        ensures
            (r == 0) <==> (*self == SessionOutcome::Success),
    {
        match self {
            SessionOutcome::Success => 0,
            SessionOutcome::SessionSpawnFailed => 1,
            SessionOutcome::SessionExitedAbnormally => 1,
        }
    }
}

/// Classifies the events observed while running one session: whether the
/// subprocess could be spawned, whether waiting on it succeeded, and whether
/// it reported a successful exit.
pub fn session_outcome(spawned: bool, waited: bool, exit_success: bool) -> (r: SessionOutcome)
    ensures
        r == SessionOutcome::Success <==> (spawned && waited && exit_success),
        r == SessionOutcome::SessionSpawnFailed <==> !spawned,
{
    if !spawned {
        SessionOutcome::SessionSpawnFailed
    } else if waited && exit_success {
        SessionOutcome::Success
    } else {
        SessionOutcome::SessionExitedAbnormally
    }
}

/// Wraps the resolved profile in an agent ready to describe the session
/// invocation.
pub fn init(server: Server) -> (a: Agent)
    ensures
        a@ == server@,
{
    Agent::new(server)
}

} // verus!
