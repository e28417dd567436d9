//! The user's settings, where the application keeps its files, and the environment in which the
//! watcher is started.

use vstd::prelude::*;
use vstd::string::*;
use vstd::utf8::encode_utf8;

use crate::number::{decimal, decimal_text, law_decimal_reads_back};
use crate::text::{texts, trim, trimmed};
use crate::text_map::TextMap;

verus! {

pub const DEFAULT_SSE_PORT: u16 = 8089;

pub const DEFAULT_PEER_ANNOUNCE_INTERVAL: u64 = 300;

pub const DEFAULT_PEER_ENDORSE_INTERVAL: u64 = 45;

pub const DEFAULT_SSE_BUFFER_SIZE: usize = 1000;

/// The limits within which the settings form keeps its numbers.
pub const MIN_SSE_PORT: u16 = 1;

pub const MAX_SSE_PORT: u16 = 65535;

pub const MIN_PEER_ANNOUNCE_INTERVAL: u64 = 0;

pub const MAX_PEER_ANNOUNCE_INTERVAL: u64 = 86400;

pub const MIN_PEER_ENDORSE_INTERVAL: u64 = 1;

pub const MAX_PEER_ENDORSE_INTERVAL: u64 = 86400;

pub const MIN_SSE_BUFFER_SIZE: usize = 16;

pub const MAX_SSE_BUFFER_SIZE: usize = 100_000;

/// The settings that the user can edit.
///
/// The paths of keys, archive and trust lists follow from the data directory (see [`Paths`])
/// and are not settings.
#[derive(Debug, PartialEq, Eq)]
pub struct Settings {
    pub node_friendly_name: String,
    pub archive_enabled: bool,
    pub catchup_enabled: bool,
    pub sse_enabled: bool,
    pub sse_port: u16,
    /// Empty: the executable next to the tray application.
    pub watcher_exe: String,
    pub bootstrap_peer_ids: String,
    pub peer_announce_interval: u64,
    pub peer_endorse_interval: u64,
    pub sse_buffer_size: usize,
    pub trace_to_file: bool,
    pub start_with_windows: bool,
}

/// [`Settings`], with the texts as sequences.
#[verifier::ext_equal]
pub struct SettingsView {
    pub node_friendly_name: Seq<char>,
    pub archive_enabled: bool,
    pub catchup_enabled: bool,
    pub sse_enabled: bool,
    pub sse_port: u16,
    pub watcher_exe: Seq<char>,
    pub bootstrap_peer_ids: Seq<char>,
    pub peer_announce_interval: u64,
    pub peer_endorse_interval: u64,
    pub sse_buffer_size: usize,
    pub trace_to_file: bool,
    pub start_with_windows: bool,
}

impl View for Settings {
    type V = SettingsView;

    open spec fn view(&self) -> SettingsView {
        SettingsView {
            node_friendly_name: self.node_friendly_name@,
            archive_enabled: self.archive_enabled,
            catchup_enabled: self.catchup_enabled,
            sse_enabled: self.sse_enabled,
            sse_port: self.sse_port,
            watcher_exe: self.watcher_exe@,
            bootstrap_peer_ids: self.bootstrap_peer_ids@,
            peer_announce_interval: self.peer_announce_interval,
            peer_endorse_interval: self.peer_endorse_interval,
            sse_buffer_size: self.sse_buffer_size,
            trace_to_file: self.trace_to_file,
            start_with_windows: self.start_with_windows,
        }
    }
}

impl Clone for Settings {
    fn clone(&self) -> (r: Self)
        ensures
            r == *self,
    {
        Settings {
            node_friendly_name: self.node_friendly_name.clone(),
            archive_enabled: self.archive_enabled,
            catchup_enabled: self.catchup_enabled,
            sse_enabled: self.sse_enabled,
            sse_port: self.sse_port,
            watcher_exe: self.watcher_exe.clone(),
            bootstrap_peer_ids: self.bootstrap_peer_ids.clone(),
            peer_announce_interval: self.peer_announce_interval,
            peer_endorse_interval: self.peer_endorse_interval,
            sse_buffer_size: self.sse_buffer_size,
            trace_to_file: self.trace_to_file,
            start_with_windows: self.start_with_windows,
        }
    }
}

/// Whether the web server is on where the settings file does not say.
pub fn default_sse_enabled() -> (r: bool)
    ensures
        r == default_settings().sse_enabled,
        r,
{
    true
}

/// The web server's port where the settings file does not say.
pub fn default_sse_port() -> (r: u16)
    ensures
        r == default_settings().sse_port,
        r == 8089,
{
    DEFAULT_SSE_PORT
}

/// The seconds between peer announcements where the settings file does not say.
pub fn default_announce() -> (r: u64)
    ensures
        r == default_settings().peer_announce_interval,
        r == 300,
{
    DEFAULT_PEER_ANNOUNCE_INTERVAL
}

/// The seconds between peer endorsements where the settings file does not say.
pub fn default_endorse() -> (r: u64)
    ensures
        r == default_settings().peer_endorse_interval,
        r == 45,
{
    DEFAULT_PEER_ENDORSE_INTERVAL
}

/// The size of the event buffer where the settings file does not say.
pub fn default_buffer() -> (r: usize)
    ensures
        r == default_settings().sse_buffer_size,
        r == 1000,
{
    DEFAULT_SSE_BUFFER_SIZE
}

/// The settings of a first start.
pub open spec fn default_settings() -> SettingsView {
    SettingsView {
        node_friendly_name: Seq::empty(),
        archive_enabled: false,
        catchup_enabled: false,
        sse_enabled: true,
        sse_port: 8089,
        watcher_exe: Seq::empty(),
        bootstrap_peer_ids: Seq::empty(),
        peer_announce_interval: 300,
        peer_endorse_interval: 45,
        sse_buffer_size: 1000,
        trace_to_file: false,
        start_with_windows: false,
    }
}

impl Default for Settings {
    fn default() -> (r: Self)
        ensures
            r@ == default_settings(),
    {
        Settings {
            node_friendly_name: String::new(),
            archive_enabled: false,
            catchup_enabled: false,
            sse_enabled: true,
            sse_port: DEFAULT_SSE_PORT,
            watcher_exe: String::new(),
            bootstrap_peer_ids: String::new(),
            peer_announce_interval: DEFAULT_PEER_ANNOUNCE_INTERVAL,
            peer_endorse_interval: DEFAULT_PEER_ENDORSE_INTERVAL,
            sse_buffer_size: DEFAULT_SSE_BUFFER_SIZE,
            trace_to_file: false,
            start_with_windows: false,
        }
    }
}

/// Where the application keeps its files, as path text.
#[derive(Debug, PartialEq, Eq)]
pub struct Paths {
    pub root: String,
    pub data: String,
    pub settings_file: String,
    pub node_key: String,
    pub known_peers: String,
    pub trusted_publishers: String,
    pub trusted_monitors: String,
    pub archive_db: String,
    pub trace_log: String,
}

/// [`Paths`], as sequences.
#[verifier::ext_equal]
pub struct PathsView {
    pub root: Seq<char>,
    pub data: Seq<char>,
    pub settings_file: Seq<char>,
    pub node_key: Seq<char>,
    pub known_peers: Seq<char>,
    pub trusted_publishers: Seq<char>,
    pub trusted_monitors: Seq<char>,
    pub archive_db: Seq<char>,
    pub trace_log: Seq<char>,
}

impl View for Paths {
    type V = PathsView;

    open spec fn view(&self) -> PathsView {
        PathsView {
            root: self.root@,
            data: self.data@,
            settings_file: self.settings_file@,
            node_key: self.node_key@,
            known_peers: self.known_peers@,
            trusted_publishers: self.trusted_publishers@,
            trusted_monitors: self.trusted_monitors@,
            archive_db: self.archive_db@,
            trace_log: self.trace_log@,
        }
    }
}

/// What a trust list that does not exist yet is created with.
pub const TRUST_FILE_TEXT: &'static str = "# One ed25519 hex pubkey per line\n";

/// The path of `name` in the directory `base`, which ends in no separator.
pub open spec fn joined_path(base: Seq<char>, separator: char, name: Seq<char>) -> Seq<char> {
    base.push(separator) + name
}

/// The path of `name` in the directory `base`, which ends in no separator.
fn join_path(base: &str, separator: char, name: &str) -> (r: String)
    ensures
        r@ == joined_path(base@, separator, name@),
{
    let mut out = base.to_owned();
    out.push(separator);
    out.append(name);
    out
}

/// The application's files, relative to the directory of the user's configuration.
pub open spec fn own_paths(separator: char) -> PathsView {
    let root = "PodpingGossipWatcher"@;
    let data = joined_path(root, separator, "data"@);
    PathsView {
        root,
        data,
        settings_file: joined_path(root, separator, "settings.toml"@),
        node_key: joined_path(data, separator, "node.key"@),
        known_peers: joined_path(data, separator, "known_peers.txt"@),
        trusted_publishers: joined_path(data, separator, "trusted_publishers.txt"@),
        trusted_monitors: joined_path(data, separator, "trusted_monitors.txt"@),
        archive_db: joined_path(data, separator, "listener_archive.db"@),
        trace_log: joined_path(data, separator, "trace.log"@),
    }
}

impl Paths {
    /// The application's files on a platform with this path separator, relative to the directory of
    /// the user's configuration. That directory need not be text, and how a path is put behind it
    /// is the platform's own, so joining the two is left to the caller.
    pub fn resolve(separator: char) -> (r: Self)
        ensures
            r@ == own_paths(separator),
            r.root@ == "PodpingGossipWatcher"@,
            r.data@ == r.root@.push(separator) + "data"@,
            r.settings_file@ == r.root@.push(separator) + "settings.toml"@,
            r.node_key@ == r.data@.push(separator) + "node.key"@,
            r.known_peers@ == r.data@.push(separator) + "known_peers.txt"@,
            r.trusted_publishers@ == r.data@.push(separator) + "trusted_publishers.txt"@,
            r.trusted_monitors@ == r.data@.push(separator) + "trusted_monitors.txt"@,
            r.archive_db@ == r.data@.push(separator) + "listener_archive.db"@,
            r.trace_log@ == r.data@.push(separator) + "trace.log"@,
    {
        let root = "PodpingGossipWatcher".to_owned();
        let data = join_path(root.as_str(), separator, "data");
        Paths {
            settings_file: join_path(root.as_str(), separator, "settings.toml"),
            node_key: join_path(data.as_str(), separator, "node.key"),
            known_peers: join_path(data.as_str(), separator, "known_peers.txt"),
            trusted_publishers: join_path(data.as_str(), separator, "trusted_publishers.txt"),
            trusted_monitors: join_path(data.as_str(), separator, "trusted_monitors.txt"),
            archive_db: join_path(data.as_str(), separator, "listener_archive.db"),
            trace_log: join_path(data.as_str(), separator, "trace.log"),
            root,
            data,
        }
    }

    /// The trust lists that are to be created, publishers first: those that do not exist.
    pub fn ensure_trust_files(&self, publishers_exist: bool, monitors_exist: bool) -> (r: Vec<
        String,
    >)
        ensures
            texts(r@) == missing_trust_files(self@, publishers_exist, monitors_exist),
            r@.len() == (if publishers_exist {
                0int
            } else {
                1
            }) + (if monitors_exist {
                0int
            } else {
                1
            }),
            !publishers_exist ==> r@[0]@ == self.trusted_publishers@,
            !monitors_exist ==> r@.last()@ == self.trusted_monitors@,
    {
        let mut missing: Vec<String> = Vec::new();
        if !publishers_exist {
            missing.push(self.trusted_publishers.clone());
        }
        if !monitors_exist {
            missing.push(self.trusted_monitors.clone());
        }
        assert(texts(missing@) == missing_trust_files(self@, publishers_exist, monitors_exist));
        missing
    }
}

/// The trust lists that do not exist, publishers first.
pub open spec fn missing_trust_files(
    paths: PathsView,
    publishers_exist: bool,
    monitors_exist: bool,
) -> Seq<Seq<char>> {
    (if publishers_exist {
        Seq::empty()
    } else {
        seq![paths.trusted_publishers]
    }) + (if monitors_exist {
        Seq::empty()
    } else {
        seq![paths.trusted_monitors]
    })
}

/// A switch as the watcher's environment spells it.
pub open spec fn flag(on: bool) -> Seq<char> {
    if on {
        "true"@
    } else {
        "false"@
    }
}

/// A switch as the watcher's environment spells it.
fn flag_text(on: bool) -> (r: String)
    ensures
        r@ == flag(on),
{
    if on {
        "true".to_owned()
    } else {
        "false".to_owned()
    }
}

/// `env` with the value for `name` set where `set`.
pub open spec fn with(
    env: Map<Seq<char>, Seq<char>>,
    set: bool,
    name: Seq<char>,
    value: Seq<char>,
) -> Map<Seq<char>, Seq<char>> {
    if set {
        env.insert(name, value)
    } else {
        env
    }
}

/// The address on which the watcher serves its web pages.
pub open spec fn bind_address(port: u16) -> Seq<char> {
    "127.0.0.1:"@ + decimal(port as nat)
}

/// The environment variables with which the watcher is started.
pub open spec fn environment(s: SettingsView, paths: PathsView) -> Map<Seq<char>, Seq<char>> {
    let name = trimmed(s.node_friendly_name);
    let bootstrap = trimmed(s.bootstrap_peer_ids);
    let env = Map::empty().insert("SSE_ENABLED"@, flag(s.sse_enabled));
    let env = with(env, s.sse_enabled, "SSE_BIND_ADDR"@, bind_address(s.sse_port));
    let env = with(env, s.sse_enabled, "SSE_BUFFER_SIZE"@, decimal(s.sse_buffer_size as nat));
    let env = env.insert("IROH_NODE_KEY_FILE"@, paths.node_key);
    let env = env.insert("KNOWN_PEERS_FILE"@, paths.known_peers);
    let env = env.insert("TRUSTED_PUBLISHERS_FILE"@, paths.trusted_publishers);
    let env = env.insert("TRUSTED_MONITORS_FILE"@, paths.trusted_monitors);
    let env = env.insert("ARCHIVE_PATH"@, paths.archive_db);
    let env = env.insert("ARCHIVE_ENABLED"@, flag(s.archive_enabled));
    let env = env.insert("CATCHUP_ENABLED"@, flag(s.catchup_enabled));
    let env = env.insert("PEER_ANNOUNCE_INTERVAL"@, decimal(s.peer_announce_interval as nat));
    let env = env.insert("PEER_ENDORSE_INTERVAL"@, decimal(s.peer_endorse_interval as nat));
    let env = with(env, name.len() > 0, "NODE_FRIENDLY_NAME"@, name);
    let env = with(env, bootstrap.len() > 0, "BOOTSTRAP_PEER_IDS"@, bootstrap);
    with(env, s.trace_to_file, "TRACE_FILE"@, paths.trace_log)
}

/// The complaint `text`, where `raised`.
pub open spec fn complaint(raised: bool, text: Seq<char>) -> Seq<Seq<char>> {
    if raised {
        seq![text]
    } else {
        Seq::empty()
    }
}

/// The settings name a watcher executable of their own, and there is no such file.
pub open spec fn watcher_missing(s: SettingsView, watcher_is_file: bool) -> bool {
    trimmed(s.watcher_exe).len() > 0 && !watcher_is_file
}

/// What is to be said of the settings.
pub open spec fn complaints(s: SettingsView, watcher_is_file: bool) -> Seq<Seq<char>> {
    complaint(s.sse_enabled && s.sse_port == 0, "SSE port must be non-zero"@) + complaint(
        watcher_missing(s, watcher_is_file),
        "Watcher executable not found: "@ + trimmed(s.watcher_exe),
    ) + complaint(
        encode_utf8(s.node_friendly_name).len() > 64,
        "Node name will be truncated to 64 characters"@,
    )
}

impl Settings {
    /// The settings that were read from the settings file; the defaults where the file could not
    /// be read or understood.
    pub fn load_or_default(read: Option<Settings>) -> (r: Self)
        ensures
            read is Some ==> r == read->0,
            read is None ==> r@ == default_settings(),
    {
        match read {
            Some(s) => s,
            None => Settings::default(),
        }
    }

    /// Checks what the settings form holds, and says what is wrong for a human to read. Whether
    /// the executable that the settings name is a file is for the caller to find out.
    pub fn validate(&self, watcher_is_file: bool) -> (r: Vec<String>)
        ensures
            texts(r@) == complaints(self@, watcher_is_file),
            texts(r@).contains("SSE port must be non-zero"@) <==> self.sse_enabled && self.sse_port
                == 0,
            texts(r@).contains("Watcher executable not found: "@ + trimmed(self.watcher_exe@))
                <==> trimmed(self.watcher_exe@).len() > 0 && !watcher_is_file,
            texts(r@).contains("Node name will be truncated to 64 characters"@) <==> encode_utf8(
                self.node_friendly_name@,
            ).len() > 64,
            forall|i: int|
                0 <= i < texts(r@).len() ==> ({
                    ||| #[trigger] texts(r@)[i] == "SSE port must be non-zero"@
                    ||| texts(r@)[i] == "Watcher executable not found: "@ + trimmed(
                        self.watcher_exe@,
                    )
                    ||| texts(r@)[i] == "Node name will be truncated to 64 characters"@
                }),
            texts(r@).no_duplicates(),
    {
        let mut errs: Vec<String> = Vec::new();
        if self.sse_enabled && self.sse_port == 0 {
            errs.push("SSE port must be non-zero".to_owned());
        }
        let watcher = trim(self.watcher_exe.as_str());
        if !watcher.as_str().is_empty() && !watcher_is_file {
            errs.push("Watcher executable not found: ".to_owned().concat(watcher.as_str()));
        }
        if self.node_friendly_name.as_str().as_bytes().len() > 64 {
            errs.push("Node name will be truncated to 64 characters".to_owned());
        }
        assert(texts(errs@) == complaints(self@, watcher_is_file));
        proof {
            law_each_complaint_has_its_cause(self@, watcher_is_file);
        }
        errs
    }

    /// The environment variables with which the watcher is started.
    pub fn to_env(&self, paths: &Paths) -> (r: TextMap)
        ensures
            r@ == environment(self@, paths@),
            r@.contains_key("SSE_ENABLED"@),
            r@["SSE_ENABLED"@] == (if self.sse_enabled {
                "true"@
            } else {
                "false"@
            }),
            r@.contains_key("ARCHIVE_ENABLED"@),
            r@["ARCHIVE_ENABLED"@] == (if self.archive_enabled {
                "true"@
            } else {
                "false"@
            }),
            r@.contains_key("CATCHUP_ENABLED"@),
            r@["CATCHUP_ENABLED"@] == (if self.catchup_enabled {
                "true"@
            } else {
                "false"@
            }),
            r@.contains_key("IROH_NODE_KEY_FILE"@),
            r@["IROH_NODE_KEY_FILE"@] == paths.node_key@,
            r@.contains_key("KNOWN_PEERS_FILE"@),
            r@["KNOWN_PEERS_FILE"@] == paths.known_peers@,
            r@.contains_key("TRUSTED_PUBLISHERS_FILE"@),
            r@["TRUSTED_PUBLISHERS_FILE"@] == paths.trusted_publishers@,
            r@.contains_key("TRUSTED_MONITORS_FILE"@),
            r@["TRUSTED_MONITORS_FILE"@] == paths.trusted_monitors@,
            r@.contains_key("ARCHIVE_PATH"@),
            r@["ARCHIVE_PATH"@] == paths.archive_db@,
            r@.contains_key("PEER_ANNOUNCE_INTERVAL"@),
            r@["PEER_ANNOUNCE_INTERVAL"@] == decimal(self.peer_announce_interval as nat),
            r@.contains_key("PEER_ENDORSE_INTERVAL"@),
            r@["PEER_ENDORSE_INTERVAL"@] == decimal(self.peer_endorse_interval as nat),
            r@.contains_key("SSE_BIND_ADDR"@) <==> self.sse_enabled,
            self.sse_enabled ==> r@["SSE_BIND_ADDR"@] == "127.0.0.1:"@ + decimal(self.sse_port as nat),
            r@.contains_key("SSE_BUFFER_SIZE"@) <==> self.sse_enabled,
            self.sse_enabled ==> r@["SSE_BUFFER_SIZE"@] == decimal(self.sse_buffer_size as nat),
            r@.contains_key("NODE_FRIENDLY_NAME"@) <==> trimmed(self.node_friendly_name@).len() > 0,
            trimmed(self.node_friendly_name@).len() > 0 ==> r@["NODE_FRIENDLY_NAME"@] == trimmed(self.node_friendly_name@),
            r@.contains_key("BOOTSTRAP_PEER_IDS"@) <==> trimmed(self.bootstrap_peer_ids@).len() > 0,
            trimmed(self.bootstrap_peer_ids@).len() > 0 ==> r@["BOOTSTRAP_PEER_IDS"@] == trimmed(self.bootstrap_peer_ids@),
            r@.contains_key("TRACE_FILE"@) <==> self.trace_to_file,
            self.trace_to_file ==> r@["TRACE_FILE"@] == paths.trace_log@,
            forall|name: Seq<char>| #[trigger]
                r@.contains_key(name) ==> {
                    ||| name == "SSE_ENABLED"@
                    ||| name == "ARCHIVE_ENABLED"@
                    ||| name == "CATCHUP_ENABLED"@
                    ||| name == "IROH_NODE_KEY_FILE"@
                    ||| name == "KNOWN_PEERS_FILE"@
                    ||| name == "TRUSTED_PUBLISHERS_FILE"@
                    ||| name == "TRUSTED_MONITORS_FILE"@
                    ||| name == "ARCHIVE_PATH"@
                    ||| name == "PEER_ANNOUNCE_INTERVAL"@
                    ||| name == "PEER_ENDORSE_INTERVAL"@
                    ||| name == "SSE_BIND_ADDR"@
                    ||| name == "SSE_BUFFER_SIZE"@
                    ||| name == "NODE_FRIENDLY_NAME"@
                    ||| name == "BOOTSTRAP_PEER_IDS"@
                    ||| name == "TRACE_FILE"@
                },
    {
        let mut env = TextMap::new();
        env.insert("SSE_ENABLED".to_owned(), flag_text(self.sse_enabled));
        if self.sse_enabled {
            env.insert(
                "SSE_BIND_ADDR".to_owned(),
                "127.0.0.1:".to_owned().concat(decimal_text(self.sse_port as u64).as_str()),
            );
            env.insert("SSE_BUFFER_SIZE".to_owned(), decimal_text(self.sse_buffer_size as u64));
        }
        env.insert("IROH_NODE_KEY_FILE".to_owned(), paths.node_key.clone());
        env.insert("KNOWN_PEERS_FILE".to_owned(), paths.known_peers.clone());
        env.insert("TRUSTED_PUBLISHERS_FILE".to_owned(), paths.trusted_publishers.clone());
        env.insert("TRUSTED_MONITORS_FILE".to_owned(), paths.trusted_monitors.clone());
        env.insert("ARCHIVE_PATH".to_owned(), paths.archive_db.clone());
        env.insert("ARCHIVE_ENABLED".to_owned(), flag_text(self.archive_enabled));
        env.insert("CATCHUP_ENABLED".to_owned(), flag_text(self.catchup_enabled));
        env.insert("PEER_ANNOUNCE_INTERVAL".to_owned(), decimal_text(self.peer_announce_interval));
        env.insert("PEER_ENDORSE_INTERVAL".to_owned(), decimal_text(self.peer_endorse_interval));
        let name = trim(self.node_friendly_name.as_str());
        if !name.as_str().is_empty() {
            env.insert("NODE_FRIENDLY_NAME".to_owned(), name);
        }
        let bootstrap = trim(self.bootstrap_peer_ids.as_str());
        if !bootstrap.as_str().is_empty() {
            env.insert("BOOTSTRAP_PEER_IDS".to_owned(), bootstrap);
        }
        if self.trace_to_file {
            env.insert("TRACE_FILE".to_owned(), paths.trace_log.clone());
        }
        proof {
            lemma_names_of_variables();
        }
        env
    }
}

/// Each complaint is raised exactly for its cause, once, and there is no other: a web server without
/// a port, an executable that is named and is no file, and a name of more than 64 bytes.
pub proof fn law_each_complaint_has_its_cause(s: SettingsView, watcher_is_file: bool)
    ensures
        ({
            let said = complaints(s, watcher_is_file);
            let missing = "Watcher executable not found: "@ + trimmed(s.watcher_exe);
            &&& said.contains("SSE port must be non-zero"@) <==> s.sse_enabled && s.sse_port == 0
            &&& said.contains(missing) <==> trimmed(s.watcher_exe).len() > 0 && !watcher_is_file
            &&& said.contains("Node name will be truncated to 64 characters"@) <==> encode_utf8(
                s.node_friendly_name,
            ).len() > 64
            &&& said.no_duplicates()
            &&& forall|i: int|
                0 <= i < said.len() ==> #[trigger] said[i] == "SSE port must be non-zero"@
                    || said[i] == missing || said[i]
                    == "Node name will be truncated to 64 characters"@
        }),
{
    let port = "SSE port must be non-zero"@;
    let missing = "Watcher executable not found: "@ + trimmed(s.watcher_exe);
    let name = "Node name will be truncated to 64 characters"@;
    reveal_strlit("SSE port must be non-zero");
    reveal_strlit("Watcher executable not found: ");
    reveal_strlit("Node name will be truncated to 64 characters");
    assert(port[0] == 'S' && missing[0] == 'W' && name[0] == 'N');
    let said = complaints(s, watcher_is_file);
    let first = complaint(s.sse_enabled && s.sse_port == 0, port);
    let second = complaint(watcher_missing(s, watcher_is_file), missing);
    let third = complaint(encode_utf8(s.node_friendly_name).len() > 64, name);
    assert(said == first + second + third);
    if s.sse_enabled && s.sse_port == 0 {
        assert(said[0] == port);
    }
    if watcher_missing(s, watcher_is_file) {
        assert(said[first.len() as int] == missing);
    }
    if encode_utf8(s.node_friendly_name).len() > 64 {
        assert(said[first.len() as int + second.len() as int] == name);
    }
}

/// The value of the environment variable `name`, where it is set.
pub open spec fn variable(s: SettingsView, paths: PathsView, name: Seq<char>) -> Option<Seq<char>> {
    if name == "SSE_ENABLED"@ {
        Some(flag(s.sse_enabled))
    } else if name == "SSE_BIND_ADDR"@ && s.sse_enabled {
        Some(bind_address(s.sse_port))
    } else if name == "SSE_BUFFER_SIZE"@ && s.sse_enabled {
        Some(decimal(s.sse_buffer_size as nat))
    } else if name == "IROH_NODE_KEY_FILE"@ {
        Some(paths.node_key)
    } else if name == "KNOWN_PEERS_FILE"@ {
        Some(paths.known_peers)
    } else if name == "TRUSTED_PUBLISHERS_FILE"@ {
        Some(paths.trusted_publishers)
    } else if name == "TRUSTED_MONITORS_FILE"@ {
        Some(paths.trusted_monitors)
    } else if name == "ARCHIVE_PATH"@ {
        Some(paths.archive_db)
    } else if name == "ARCHIVE_ENABLED"@ {
        Some(flag(s.archive_enabled))
    } else if name == "CATCHUP_ENABLED"@ {
        Some(flag(s.catchup_enabled))
    } else if name == "PEER_ANNOUNCE_INTERVAL"@ {
        Some(decimal(s.peer_announce_interval as nat))
    } else if name == "PEER_ENDORSE_INTERVAL"@ {
        Some(decimal(s.peer_endorse_interval as nat))
    } else if name == "NODE_FRIENDLY_NAME"@ && trimmed(s.node_friendly_name).len() > 0 {
        Some(trimmed(s.node_friendly_name))
    } else if name == "BOOTSTRAP_PEER_IDS"@ && trimmed(s.bootstrap_peer_ids).len() > 0 {
        Some(trimmed(s.bootstrap_peer_ids))
    } else if name == "TRACE_FILE"@ && s.trace_to_file {
        Some(paths.trace_log)
    } else {
        None
    }
}

/// The names of the variables differ, by their lengths or by how they begin.
proof fn lemma_names_of_variables()
    ensures
        "SSE_ENABLED"@.len() == 11,
        "SSE_BIND_ADDR"@.len() == 13,
        "SSE_BUFFER_SIZE"@.len() == 15,
        "IROH_NODE_KEY_FILE"@.len() == 18,
        "KNOWN_PEERS_FILE"@.len() == 16,
        "TRUSTED_PUBLISHERS_FILE"@.len() == 23,
        "TRUSTED_MONITORS_FILE"@.len() == 21,
        "ARCHIVE_PATH"@.len() == 12,
        "ARCHIVE_ENABLED"@.len() == 15,
        "CATCHUP_ENABLED"@.len() == 15,
        "PEER_ANNOUNCE_INTERVAL"@.len() == 22,
        "PEER_ENDORSE_INTERVAL"@.len() == 21,
        "NODE_FRIENDLY_NAME"@.len() == 18,
        "BOOTSTRAP_PEER_IDS"@.len() == 18,
        "TRACE_FILE"@.len() == 10,
        "SSE_BUFFER_SIZE"@[0] != "ARCHIVE_ENABLED"@[0],
        "SSE_BUFFER_SIZE"@[0] != "CATCHUP_ENABLED"@[0],
        "ARCHIVE_ENABLED"@[0] != "CATCHUP_ENABLED"@[0],
        "IROH_NODE_KEY_FILE"@[0] != "NODE_FRIENDLY_NAME"@[0],
        "IROH_NODE_KEY_FILE"@[0] != "BOOTSTRAP_PEER_IDS"@[0],
        "NODE_FRIENDLY_NAME"@[0] != "BOOTSTRAP_PEER_IDS"@[0],
        "TRUSTED_MONITORS_FILE"@[0] != "PEER_ENDORSE_INTERVAL"@[0],
{
    reveal_strlit("SSE_ENABLED");
    reveal_strlit("SSE_BIND_ADDR");
    reveal_strlit("SSE_BUFFER_SIZE");
    reveal_strlit("IROH_NODE_KEY_FILE");
    reveal_strlit("KNOWN_PEERS_FILE");
    reveal_strlit("TRUSTED_PUBLISHERS_FILE");
    reveal_strlit("TRUSTED_MONITORS_FILE");
    reveal_strlit("ARCHIVE_PATH");
    reveal_strlit("ARCHIVE_ENABLED");
    reveal_strlit("CATCHUP_ENABLED");
    reveal_strlit("PEER_ANNOUNCE_INTERVAL");
    reveal_strlit("PEER_ENDORSE_INTERVAL");
    reveal_strlit("NODE_FRIENDLY_NAME");
    reveal_strlit("BOOTSTRAP_PEER_IDS");
    reveal_strlit("TRACE_FILE");
}

/// Each setting reaches the watcher under a name of its own, and nothing else does: a variable is
/// set exactly where [`variable`] gives it a value, and to that value.
pub proof fn law_each_variable_has_its_value(s: SettingsView, paths: PathsView, name: Seq<char>)
    ensures
        environment(s, paths).contains_key(name) <==> variable(s, paths, name) is Some,
        variable(s, paths, name) is Some ==> environment(s, paths)[name] == variable(
            s,
            paths,
            name,
        )->0,
{
    lemma_names_of_variables();
}

/// Where the watcher is told to serve its web pages, it is told exactly that address.
pub proof fn lemma_bind_variable(s: SettingsView, paths: PathsView)
    ensures
        environment(s, paths).contains_key("SSE_BIND_ADDR"@) <==> s.sse_enabled,
        s.sse_enabled ==> environment(s, paths)["SSE_BIND_ADDR"@] == bind_address(s.sse_port),
{
    law_each_variable_has_its_value(s, paths, "SSE_BIND_ADDR"@);
    lemma_names_of_variables();
}

/// A switch or a number of the settings reaches the watcher under its own name and no other: settings
/// that agree in all else give environments that differ there, if they differ in it, and nowhere
/// else.
pub proof fn law_each_setting_decides_its_own_variable(
    a: SettingsView,
    b: SettingsView,
    paths: PathsView,
)
    ensures
        b == (SettingsView { archive_enabled: b.archive_enabled, ..a }) ==> {
            let name = "ARCHIVE_ENABLED"@;
            &&& environment(a, paths).remove(name) == environment(b, paths).remove(name)
            &&& a != b ==> environment(a, paths)[name] != environment(b, paths)[name]
        },
        b == (SettingsView { catchup_enabled: b.catchup_enabled, ..a }) ==> {
            let name = "CATCHUP_ENABLED"@;
            &&& environment(a, paths).remove(name) == environment(b, paths).remove(name)
            &&& a != b ==> environment(a, paths)[name] != environment(b, paths)[name]
        },
        b == (SettingsView { peer_announce_interval: b.peer_announce_interval, ..a }) ==> {
            let name = "PEER_ANNOUNCE_INTERVAL"@;
            &&& environment(a, paths).remove(name) == environment(b, paths).remove(name)
            &&& a != b ==> environment(a, paths)[name] != environment(b, paths)[name]
        },
        b == (SettingsView { peer_endorse_interval: b.peer_endorse_interval, ..a }) ==> {
            let name = "PEER_ENDORSE_INTERVAL"@;
            &&& environment(a, paths).remove(name) == environment(b, paths).remove(name)
            &&& a != b ==> environment(a, paths)[name] != environment(b, paths)[name]
        },
        b == (SettingsView { sse_port: b.sse_port, ..a }) ==> {
            let name = "SSE_BIND_ADDR"@;
            &&& environment(a, paths).remove(name) == environment(b, paths).remove(name)
            &&& a != b && a.sse_enabled ==> environment(a, paths)[name] != environment(
                b,
                paths,
            )[name]
        },
        b == (SettingsView { sse_buffer_size: b.sse_buffer_size, ..a }) ==> {
            let name = "SSE_BUFFER_SIZE"@;
            &&& environment(a, paths).remove(name) == environment(b, paths).remove(name)
            &&& a != b && a.sse_enabled ==> environment(a, paths)[name] != environment(
                b,
                paths,
            )[name]
        },
        b == (SettingsView { node_friendly_name: b.node_friendly_name, ..a }) ==> environment(
            a,
            paths,
        ).remove("NODE_FRIENDLY_NAME"@) == environment(b, paths).remove("NODE_FRIENDLY_NAME"@),
        b == (SettingsView { bootstrap_peer_ids: b.bootstrap_peer_ids, ..a }) ==> environment(
            a,
            paths,
        ).remove("BOOTSTRAP_PEER_IDS"@) == environment(b, paths).remove("BOOTSTRAP_PEER_IDS"@),
        b == (SettingsView { trace_to_file: b.trace_to_file, ..a }) ==> {
            let name = "TRACE_FILE"@;
            &&& environment(a, paths).remove(name) == environment(b, paths).remove(name)
            &&& a != b ==> environment(a, paths).contains_key(name) != environment(
                b,
                paths,
            ).contains_key(name)
        },
{
    lemma_names_of_variables();
    lemma_flags_differ();
    lemma_decimals_differ(a.peer_announce_interval as nat, b.peer_announce_interval as nat);
    lemma_decimals_differ(a.peer_endorse_interval as nat, b.peer_endorse_interval as nat);
    lemma_decimals_differ(a.sse_buffer_size as nat, b.sse_buffer_size as nat);
    lemma_decimals_differ(a.sse_port as nat, b.sse_port as nat);
    if a.sse_port != b.sse_port {
        lemma_names_differ("127.0.0.1:"@, decimal(a.sse_port as nat), decimal(b.sse_port as nat));
    }
}

proof fn lemma_flags_differ()
    ensures
        "true"@ != "false"@,
{
    reveal_strlit("true");
    reveal_strlit("false");
    assert("true"@[0] != "false"@[0]);
}

proof fn lemma_decimals_differ(m: nat, n: nat)
    ensures
        m != n ==> decimal(m) != decimal(n),
{
    law_decimal_reads_back(m, m + n);
    law_decimal_reads_back(n, m + n);
}

/// The web server's switch decides three variables: whether it is on, and whether its address and
/// the size of its buffer are given; and which executable is started, and whether at sign-in, is not
/// for the watcher to know.
pub proof fn law_web_server_switch_decides_its_variables(
    a: SettingsView,
    b: SettingsView,
    paths: PathsView,
)
    ensures
        b == (SettingsView { sse_enabled: b.sse_enabled, ..a }) ==> environment(a, paths).remove(
            "SSE_ENABLED"@,
        ).remove("SSE_BIND_ADDR"@).remove("SSE_BUFFER_SIZE"@) == environment(b, paths).remove(
            "SSE_ENABLED"@,
        ).remove("SSE_BIND_ADDR"@).remove("SSE_BUFFER_SIZE"@),
        a.sse_enabled != b.sse_enabled ==> environment(a, paths)["SSE_ENABLED"@] != environment(
            b,
            paths,
        )["SSE_ENABLED"@],
        a.sse_enabled <==> environment(a, paths).contains_key("SSE_BIND_ADDR"@),
        a.sse_enabled <==> environment(a, paths).contains_key("SSE_BUFFER_SIZE"@),
        b == (SettingsView {
            watcher_exe: b.watcher_exe,
            start_with_windows: b.start_with_windows,
            ..a
        }) ==> environment(a, paths) == environment(b, paths),
{
    lemma_names_of_variables();
    lemma_flags_differ();
}

/// The numbers in `s` are within the limits of the settings form.
pub open spec fn within_form(s: SettingsView) -> bool {
    &&& MIN_SSE_PORT <= s.sse_port <= MAX_SSE_PORT
    &&& MIN_PEER_ANNOUNCE_INTERVAL <= s.peer_announce_interval <= MAX_PEER_ANNOUNCE_INTERVAL
    &&& MIN_PEER_ENDORSE_INTERVAL <= s.peer_endorse_interval <= MAX_PEER_ENDORSE_INTERVAL
    &&& MIN_SSE_BUFFER_SIZE <= s.sse_buffer_size <= MAX_SSE_BUFFER_SIZE
}

/// There is nothing to say against the settings of a first start, and the form can hold them.
pub proof fn law_defaults_are_sound(watcher_is_file: bool)
    ensures
        complaints(default_settings(), watcher_is_file) == Seq::<Seq<char>>::empty(),
        within_form(default_settings()),
{
}

/// The application's files.
pub open spec fn files(p: PathsView) -> Seq<Seq<char>> {
    seq![
        p.settings_file,
        p.node_key,
        p.known_peers,
        p.trusted_publishers,
        p.trusted_monitors,
        p.archive_db,
        p.trace_log,
    ]
}

proof fn lemma_names_differ(front: Seq<char>, a: Seq<char>, b: Seq<char>)
    requires
        a != b,
    ensures
        front + a != front + b,
{
    let n = front.len() as int;
    if front + a == front + b {
        assert((front + a).skip(n) == a);
        assert((front + b).skip(n) == b);
    }
}

/// No two of the application's files share a path, whatever the separator and whatever directory
/// stands in `front` of them; all lie in the application's directory, and all but the settings in
/// its data directory.
pub proof fn law_files_do_not_collide(front: Seq<char>, separator: char)
    ensures
        ({
            let p = own_paths(separator);
            &&& forall|i: int, j: int|
                0 <= i < files(p).len() && 0 <= j < files(p).len() && i != j ==> front
                    + #[trigger] files(p)[i] != front + #[trigger] files(p)[j]
            &&& forall|i: int|
                0 <= i < files(p).len() ==> p.root.push(separator).is_prefix_of(
                    #[trigger] files(p)[i],
                )
            &&& forall|i: int|
                1 <= i < files(p).len() ==> p.data.push(separator).is_prefix_of(
                    #[trigger] files(p)[i],
                )
        }),
{
    let p = own_paths(separator);
    reveal_strlit("data");
    reveal_strlit("settings.toml");
    reveal_strlit("node.key");
    reveal_strlit("known_peers.txt");
    reveal_strlit("trusted_publishers.txt");
    reveal_strlit("trusted_monitors.txt");
    reveal_strlit("listener_archive.db");
    reveal_strlit("trace.log");
    let names = seq![
        "settings.toml"@,
        "node.key"@,
        "known_peers.txt"@,
        "trusted_publishers.txt"@,
        "trusted_monitors.txt"@,
        "listener_archive.db"@,
        "trace.log"@,
    ];
    assert(names[1].len() == 8 && names[2].len() == 15 && names[3].len() == 22 && names[4].len()
        == 20 && names[5].len() == 19 && names[6].len() == 9);
    let at = p.root.len() as int + 1;
    assert("settings.toml"@[0] == 's' && "data"@[0] == 'd');
    assert(p.settings_file[at] == 's');
    assert forall|i: int| 1 <= i < 7 implies (#[trigger] files(p)[i]) == p.data.push(separator)
        + names[i] && files(p)[i][at] == 'd' by {
        assert(p.data[at] == 'd');
    }
    assert forall|i: int, j: int| 0 <= i < 7 && 0 <= j < 7 && i != j implies front
        + #[trigger] files(p)[i] != front + #[trigger] files(p)[j] by {
        assert(files(p)[i] != files(p)[j]) by {
            if i == 0 {
                assert(files(p)[j][at] == 'd');
            } else if j == 0 {
                assert(files(p)[i][at] == 'd');
            } else {
                lemma_names_differ(p.data.push(separator), names[i], names[j]);
            }
        }
        lemma_names_differ(front, files(p)[i], files(p)[j]);
    }
}

} // verus!
