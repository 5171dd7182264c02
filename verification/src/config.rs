//! The profile store: the data model for connection profiles, the location of
//! the persisted document beneath the home directory, and the probes that tell
//! whether the store exists on disk.

use vstd::prelude::*;

verus! {

/// One stored connection profile: a human-chosen alias naming a
/// `username@host` target, with an optional identity (key file) path.
/// `identity` may be present but empty, which means "no identity override".
#[derive(Debug, PartialEq, Eq)]
pub struct Server {
    pub alias: String,
    pub username: String,
    pub host: String,
    pub identity: Option<String>,
}

impl Clone for Server {
    fn clone(&self) -> (r: Self)
        ensures
            r@ == self@,
    {
        Server {
            alias: self.alias.clone(),
            username: self.username.clone(),
            host: self.host.clone(),
            identity: match &self.identity {
                Some(s) => Some(s.clone()),
                None => None,
            },
        }
    }
}

/// The mathematical model of a [`Server`]: each field as a sequence of
/// characters.
pub struct ServerView {
    pub alias: Seq<char>,
    pub username: Seq<char>,
    pub host: Seq<char>,
    pub identity: Option<Seq<char>>,
}

impl View for Server {
    type V = ServerView;

    open spec fn view(&self) -> ServerView {
        ServerView {
            alias: self.alias@,
            username: self.username@,
            host: self.host@,
            identity: match self.identity {
                Some(ref s) => Some(s@),
                None => None,
            },
        }
    }
}

/// The in-memory profile store: an ordered sequence of profiles.
#[derive(Debug, PartialEq, Eq)]
pub struct Config {
    pub servers: Vec<Server>,
}

impl View for Config {
    type V = Seq<ServerView>;

    open spec fn view(&self) -> Seq<ServerView> {
        self.servers@.map_values(|s: Server| s@)
    }
}

/// Errors of the store layer, named after the sub-step that failed.
#[derive(Debug, Clone, Copy, PartialEq, Eq)]
pub enum ConfigError {
    HomeDirectoryNotFound,
    DirectoryCreateFailed,
    FileCreateFailed,
    SerializationFailed,
    ReadFailed,
    ParseFailed,
}

impl ConfigError {
    /// A diagnostic message for each store-layer error.
    pub fn message(&self) -> (r: &'static str)
        ensures
            r@ == self.spec_message(),
    {
        match self {
            ConfigError::HomeDirectoryNotFound => "failed to find $HOME folder",
            ConfigError::DirectoryCreateFailed => "failed to create folder",
            ConfigError::FileCreateFailed => "failed to create file",
            ConfigError::SerializationFailed => "failed to write config file",
            ConfigError::ReadFailed => "failed to read from file",
            ConfigError::ParseFailed => "failed to parse from file",
        }
    }

    pub open spec fn spec_message(&self) -> Seq<char> {
        match self {
            ConfigError::HomeDirectoryNotFound => "failed to find $HOME folder"@,
            ConfigError::DirectoryCreateFailed => "failed to create folder"@,
            ConfigError::FileCreateFailed => "failed to create file"@,
            ConfigError::SerializationFailed => "failed to write config file"@,
            ConfigError::ReadFailed => "failed to read from file"@,
            ConfigError::ParseFailed => "failed to parse from file"@,
        }
    }
}

/// Relies on home::home_dir: yields the current user's home directory, read
/// from the environment, or `None` when it cannot be determined (or is not
/// valid Unicode). The result depends on the environment, so nothing is
/// promised of it.
#[verifier::external_body]
fn home_dir_string() -> (r: Option<String>) {
    match home::home_dir() {
        Some(p) => match p.to_str() {
            Some(s) => Some(s.to_string()),
            None => None,
        },
        None => None,
    }
}

/// Relies on std::path::Path::exists: probes the file system for the given
/// path. The result depends on what is on disk, so nothing is promised of it.
#[verifier::external_body]
fn path_exists(p: &str) -> (r: bool) {
    std::path::Path::new(p).exists()
}

/// Appends one path component to `p`, separated by `/`.
pub fn append_to_path(p: String, s: &str) -> (r: String)
    ensures
        r@ == p@ + seq!['/'] + s@,
{
    let mut out = p;
    crate::text::push_char(&mut out, '/');
    out.append(s);
    out
}

/// The model of the store directory derived from a home directory.
pub open spec fn spec_config_folder_path(home: Seq<char>) -> Seq<char> {
    home + seq!['/'] + ".sshs"@
}

/// The model of the profile document path derived from the store directory.
pub open spec fn spec_config_file_path(folder: Seq<char>) -> Seq<char> {
    folder + seq!['/'] + "server.yaml"@
}

/// The dedicated store directory beneath the given home directory.
pub fn get_config_folder_path(dest: String) -> (r: String)
    ensures
        r@ == spec_config_folder_path(dest@),
{
    append_to_path(dest, ".sshs")
}

/// The profile document inside the given store directory.
pub fn get_config_file_path(folder_path: String) -> (r: String)
    ensures
        r@ == spec_config_file_path(folder_path@),
{
    append_to_path(folder_path, "server.yaml")
}

/// Probes the disk for the store directory.
pub fn check_config_folder(dest: String) -> bool {
    path_exists(dest.as_str())
}

/// Probes the disk for the profile document.
pub fn check_config_file(file_path: String) -> bool {
    path_exists(file_path.as_str())
}

/// The user's home directory as a plain path string; fails with
/// `HomeDirectoryNotFound` exactly when the environment yields none.
pub fn get_home_path() -> (r: Result<String, ConfigError>)
    ensures
        r matches Err(e) ==> e == ConfigError::HomeDirectoryNotFound,
{
    match home_dir_string() {
        Some(path) => Ok(path),
        None => Err(ConfigError::HomeDirectoryNotFound),
    }
}

/// True iff both the store directory and the profile document are present on
/// disk. A pure existence probe: any internal failure (such as a missing home
/// directory) collapses to `false`.
pub fn check() -> bool {
    let home_path = match get_home_path() {
        Ok(path) => path,
        Err(_) => {
            return false;
        },
    };
    let config_folder_path = get_config_folder_path(home_path);
    if !check_config_folder(config_folder_path.clone()) {
        return false;
    }
    let config_file_path = get_config_file_path(config_folder_path);
    check_config_file(config_file_path)
}

/// The model of the one example profile that a fresh store is created with.
pub open spec fn default_server_view() -> ServerView {
    ServerView {
        alias: "example-server"@,
        username: "example"@,
        host: "example"@,
        identity: Some(""@),
    }
}

/// Builds the store contents that a first run (or an explicit reset) writes:
/// exactly one example profile.
pub fn make_default_config() -> (c: Config)
    ensures
        c@ =~= seq![default_server_view()],
{
    let server = Server {
        alias: String::from_str("example-server"),
        username: String::from_str("example"),
        host: String::from_str("example"),
        identity: Some(String::from_str("")),
    };
    let mut servers: Vec<Server> = Vec::new();
    servers.push(server);
    Config { servers }
}

/// Renders the whole store as its persisted document text.
pub fn serialize(config: &Config) -> (r: String)
    ensures
        r@ == crate::document::enc_config(config@),
{
    let mut out = String::from_str("servers:\n");
    let n = config.servers.len();
    let mut k: usize = 0;
    proof {
        assert(config@.take(0) =~= Seq::<ServerView>::empty());
        assert(out@ =~= crate::document::spec_header() + crate::document::enc_servers(
            config@.take(0),
        ));
    }
    while k < n
        invariant
            n == config.servers@.len(),
            k <= n,
            out@ == crate::document::spec_header() + crate::document::enc_servers(
                config@.take(k as int),
            ),
        decreases n - k,
    {
        proof {
            assert(config@[k as int] == config.servers@.map_values(|s: Server| s@)[k as int]);
            assert(config@.take(k + 1) =~= config@.take(k as int).push(config@[k as int]));
            crate::document::lemma_enc_servers_push(config@.take(k as int), config@[k as int]);
        }
        crate::document::write_server(&mut out, &config.servers[k]);
        k += 1;
    }
    proof {
        assert(config@.take(n as int) =~= config@);
    }
    out
}

/// Parses a persisted document back into the store it describes. Succeeds,
/// with exactly the decoded profile sequence, if and only if the text is a
/// well-formed profile document; every malformed text yields `ParseFailed`.
pub fn parse(document: &str) -> (r: Result<Config, ConfigError>)
    ensures
        r matches Ok(c) ==> crate::document::dec_config(document@) == Some(c@),
        r matches Err(e) ==> e == ConfigError::ParseFailed && crate::document::dec_config(
            document@,
        ) is None,
{
    let n = document.unicode_len();
    let ok = crate::text::match_at(document, 0, "servers:\n");
    proof {
        if 0 + crate::document::spec_header().len() <= n {
            assert(document@.take(crate::document::spec_header().len() as int)
                =~= document@.subrange(0, crate::document::spec_header().len() as int));
        }
        assert(ok == crate::document::starts_with(document@, crate::document::spec_header()));
    }
    if !ok {
        return Err(ConfigError::ParseFailed);
    }
    let start = "servers:\n".unicode_len();
    proof {
        assert(document@.skip(crate::document::spec_header().len() as int) == document@.skip(
            start as int,
        ));
    }
    match crate::document::parse_servers(document, start, n) {
        Some(servers) => Ok(Config { servers }),
        None => Err(ConfigError::ParseFailed),
    }
}

/// Law: initializing the store and immediately loading it yields exactly one
/// profile, the documented example — the default document decodes back to the
/// default store.
pub proof fn lemma_init_then_load()
    ensures
        crate::document::dec_config(
            crate::document::enc_config(seq![default_server_view()]),
        ) == Some(seq![default_server_view()]),
{
    crate::document::lemma_document_round_trip(seq![default_server_view()]);
}

} // verus!
