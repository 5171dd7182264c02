//! A command-line launcher for remote shell sessions: stores named connection
//! profiles in a small document under the user's home directory and, given an
//! alias, resolves the matching profile and describes the remote-shell
//! invocation to run.
//!
//! This crate holds the verified core: the profile store's data model and
//! document codec, alias resolution, and the dispatch decisions. The thin
//! shell around it (argument parsing, file reads and writes, spawning the
//! remote-shell subprocess) lives outside and hands this crate plain values.

pub mod config;
pub mod document;
pub mod ssh;
pub mod text;

use vstd::prelude::*;

verus! {

use crate::config::{Config, Server, ServerView};
use crate::text::spec_decimal;

/// One invocation's intent, as handed in by the command line: an optional
/// list-mode toggle, an action name (`connect` or `init`), and the alias to
/// connect to.
#[derive(Debug)]
pub struct Args {
    /// Print the list of stored profiles instead of acting.
    pub list: bool,
    /// The action name; `connect` and `init` are recognized.
    pub action: Option<String>,
    /// The profile alias, required when the action is `connect`.
    pub alias: Option<String>,
}

/// The view of an optional string as an optional character sequence.
pub open spec fn opt_str_view(o: Option<String>) -> Option<Seq<char>> {
    match o {
        Some(s) => Some(s@),
        None => None,
    }
}

/// Errors of the routing layer.
#[derive(Debug, Clone, Copy, PartialEq, Eq)]
pub enum RunError {
    /// The store was loaded but holds no profiles to connect to.
    NoProfilesDefined,
    /// No stored profile carries the requested alias.
    AliasNotFound,
    /// The action is missing or not one of the recognized names.
    InvalidAction,
}

impl RunError {
    /// A diagnostic message for each routing-layer error.
    pub fn message(&self) -> (r: &'static str)
        ensures
            r@ == self.spec_message(),
    {
        match self {
            RunError::NoProfilesDefined => "no server definition exists!",
            RunError::AliasNotFound => "sorry, I can't find that alias in servers",
            RunError::InvalidAction => "action is invalid. (connect)",
        }
    }

    pub open spec fn spec_message(&self) -> Seq<char> {
        match self {
            RunError::NoProfilesDefined => "no server definition exists!"@,
            RunError::AliasNotFound => "sorry, I can't find that alias in servers"@,
            RunError::InvalidAction => "action is invalid. (connect)"@,
        }
    }

    /// Every routing error is fatal: its exit code is non-zero.
    pub fn exit_code(&self) -> (r: i32)
        ensures
            r != 0,
    {
        1
    }
}

/// What the dispatcher decided one invocation should do next.
#[derive(Debug)]
pub enum Routed {
    /// Print these lines, one stored profile each, and exit successfully.
    List(Vec<String>),
    /// Launch a session for this resolved profile.
    Connect(Server),
    /// Rewrite the store with the default contents, as an explicit reset.
    Reinit,
}

/// One line of the profile listing: index, alias and `username@host`.
pub open spec fn spec_server_line(i: nat, s: ServerView) -> Seq<char> {
    spec_decimal(i) + " - alias: "@ + s.alias + " | "@ + s.username + seq!['@'] + s.host
}

/// The whole profile listing, in stored order.
pub open spec fn spec_server_list(profiles: Seq<ServerView>) -> Seq<Seq<char>> {
    Seq::new(profiles.len(), |i: int| spec_server_line(i as nat, profiles[i]))
}

fn render_server_line(i: u64, s: &Server) -> (r: String)
    ensures
        r@ == spec_server_line(i as nat, s@),
{
    let mut line = crate::text::u64_to_string(i);
    line.append(" - alias: ");
    line.append(s.alias.as_str());
    line.append(" | ");
    line.append(s.username.as_str());
    crate::text::push_char(&mut line, '@');
    line.append(s.host.as_str());
    line
}

/// Renders every stored profile as one listing line, in stored order.
pub fn server_list_lines(config: &Config) -> (r: Vec<String>)
    ensures
        r@.map_values(|l: String| l@) == spec_server_list(config@),
{
    let n = config.servers.len();
    let mut lines: Vec<String> = Vec::new();
    let mut k: usize = 0;
    while k < n
        invariant
            n == config.servers@.len(),
            k <= n,
            lines@.len() == k,
            forall|j: int| 0 <= j < k ==> lines@[j]@ == spec_server_line(j as nat, config@[j]),
        decreases n - k,
    {
        let line = render_server_line(k as u64, &config.servers[k]);
        proof {
            assert(config@[k as int] == config.servers@.map_values(|s: Server| s@)[k as int]);
        }
        lines.push(line);
        k += 1;
    }
    proof {
        assert(lines@.map_values(|l: String| l@) =~= spec_server_list(config@));
    }
    lines
}

/// Routes one invocation: decides, from the intent in `args` and the loaded
/// store, whether to print the listing, launch a session for the first
/// profile matching the alias, rewrite the store, or fail with the exact
/// routing error.
pub fn route(args: Args, config: Config) -> (r: Result<Routed, RunError>)
    ensures
        args.list ==> (r matches Ok(Routed::List(lines)) && lines@.map_values(|l: String| l@)
            == spec_server_list(config@)),
        !args.list && opt_str_view(args.action) != Some("connect"@) && opt_str_view(args.action)
            != Some("init"@) ==> r == Err::<Routed, RunError>(RunError::InvalidAction),
        !args.list && opt_str_view(args.action) == Some("init"@) ==> r == Ok::<Routed, RunError>(Routed::Reinit),
        !args.list && opt_str_view(args.action) == Some("connect"@) && args.alias is None ==> r
            == Err::<Routed, RunError>(RunError::InvalidAction),
        !args.list && opt_str_view(args.action) == Some("connect"@) && args.alias is Some
            && config@.len() == 0 ==> r == Err::<Routed, RunError>(RunError::NoProfilesDefined),
        !args.list && opt_str_view(args.action) == Some("connect"@) && (args.alias matches Some(al)
            && config@.len() > 0 && (forall|i: int|
            0 <= i < config@.len() ==> config@[i].alias != al@)) ==> r == Err::<Routed, RunError>(RunError::AliasNotFound),
        !args.list && opt_str_view(args.action) == Some("connect"@) && args.alias is Some ==> ({
            let al = args.alias.unwrap()@;
            (exists|i: int| 0 <= i < config@.len() && config@[i].alias == al) ==> (r matches Ok(
                Routed::Connect(s),
            ) && exists|i: int|
                0 <= i < config@.len() && config@[i] == s@ && config@[i].alias == al && (forall|
                    j: int,
                |
                    0 <= j < i ==> config@[j].alias != al))
        }),
{
    proof {
        reveal_strlit("connect");
        reveal_strlit("init");
        assert("connect"@.len() == 7);
        assert("init"@.len() == 4);
    }
    if args.list {
        let lines = server_list_lines(&config);
        return Ok(Routed::List(lines));
    }
    let action = match args.action {
        Some(a) => a,
        None => {
            return Err(RunError::InvalidAction);
        },
    };
    proof {
        assert(opt_str_view(args.action) == Some(action@));
    }
    if crate::text::str_eq(action.as_str(), "connect") {
        let alias = match args.alias {
            Some(al) => al,
            None => {
                return Err(RunError::InvalidAction);
            },
        };
        if config.servers.len() == 0 {
            return Err(RunError::NoProfilesDefined);
        }
        let ghost profiles = config@;
        let ghost spec_alias = alias@;
        let ghost servers_snap = config.servers@;
        proof {
            assert(forall|i: int|
                0 <= i < profiles.len() ==> profiles[i] == servers_snap[i]@);
        }
        match find_correct_server(config.servers, alias) {
            Some(s) => {
                proof {
                    let i = choose|i: int|
                        0 <= i < servers_snap.len() && servers_snap[i]@ == s@
                            && servers_snap[i]@.alias == spec_alias && (forall|j: int|
                            0 <= j < i ==> servers_snap[j]@.alias != spec_alias);
                    assert(0 <= i < profiles.len() && profiles[i] == s@ && profiles[i].alias
                        == spec_alias && (forall|j: int|
                        0 <= j < i ==> profiles[j].alias != spec_alias));
                }
                Ok(Routed::Connect(s))
            },
            None => Err(RunError::AliasNotFound),
        }
    } else if crate::text::str_eq(action.as_str(), "init") {
        Ok(Routed::Reinit)
    } else {
        Err(RunError::InvalidAction)
    }
}

/// Returns the first profile of `servers` (in stored order) whose alias is
/// exactly `alias`, or `None` if no profile matches. Under duplicate aliases
/// the first match wins.
pub fn find_correct_server(servers: Vec<Server>, alias: String) -> (r: Option<Server>)
    ensures
        match r {
            Some(s) => exists|i: int|
                0 <= i < servers@.len() && servers@[i]@ == s@ && servers@[i]@.alias == alias@
                    && (forall|j: int| 0 <= j < i ==> servers@[j]@.alias != alias@),
            None => forall|i: int| 0 <= i < servers@.len() ==> servers@[i]@.alias != alias@,
        },
{
    let n = servers.len();
    let mut k: usize = 0;
    while k < n
        invariant
            n == servers@.len(),
            k <= n,
            forall|j: int| 0 <= j < k ==> servers@[j]@.alias != alias@,
        decreases n - k,
    {
        if servers[k].alias == alias {
            return Some(servers[k].clone());
        }
        k += 1;
    }
    None
}

} // verus!
