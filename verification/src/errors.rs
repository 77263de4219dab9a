use vstd::prelude::*;

use crate::text::{extend_chars, str_chars, string_from_chars};

verus! {

/// What failed on a file.
#[derive(Clone, Copy, Debug, PartialEq, Eq, Structural)]
pub enum FileAction {
    Read,
    Write,
    Parse,
    Remove,
    Find,
    Create,
}

/// What failed on a directory.
#[derive(Clone, Copy, Debug, PartialEq, Eq, Structural)]
pub enum DirAction {
    Read,
    Create,
    Remove,
    Find,
}

/// What failed on a DBus connection.
#[derive(Clone, Copy, Debug, PartialEq, Eq, Structural)]
pub enum DBusAction {
    Connect,
    Construct,
    Send,
    Call,
}

/// What failed on a socket.
#[derive(Clone, Copy, Debug, PartialEq, Eq, Structural)]
pub enum SocketAction {
    Close,
    Connect,
    Write,
    Read,
}

/// What failed on a network request.
#[derive(Clone, Copy, Debug, PartialEq, Eq, Structural)]
pub enum NetworkAction {
    Get,
    Post,
    Put,
    Update,
    Delete,
}

/// What failed on the database.
#[derive(Clone, Copy, Debug, PartialEq, Eq, Structural)]
pub enum DbAction {
    Connect,
    Query,
    Initialize,
    Migrate,
    Transaction,
}

/// The kinds of errors Sherlock reports. Paths are held as strings.
#[derive(Clone, Debug)]
pub enum SherlockErrorType {
    /// Logical branch that code logic dictates is impossible to reach.
    Unreachable,
    /// General-purpose Input/Output failures from the standard library.
    IO,
    /// Failure while converting internal data structures to a string/byte format.
    SerializationError,
    /// Failure while parsing external data (JSON/YAML) into internal structures.
    DeserializationError,
    /// The requested UI or system action is not recognized or defined.
    InvalidAction,
    /// The specific internal function is not supported by the active launcher.
    InvalidFunction,
    /// A concurrency error where a resource is already mutably borrowed.
    BorrowCongestion,
    /// A placeholder for "no error" (null object pattern); its message is `None`.
    NoError,
    /// File-specific issues (read/write/permissions) at the given path.
    FileError(FileAction, String),
    /// Directory-specific issues (creation/deletion/access) at the given path.
    DirError(DirAction, String),
    /// Errors in logic or syntax within the user's configuration file.
    ConfigError(String),
    /// Failure when executing external shell commands or system binaries.
    CommandError(String),
    /// Missing or malformed system environment variables (e.g., $PATH, $HOME).
    EnvError(String),
    /// Communication failures with the system or session DBus.
    DBusError(DBusAction, String),
    /// Low-level IPC or network socket connection/read/write failures.
    SocketError(SocketAction, String),
    /// Remote request failures (HTTP, timeouts, or DNS issues).
    NetworkError(NetworkAction, String),
    /// SQL or connection failures involving the local SQLite database.
    DatabaseError(DbAction),
    /// Error triggered when a requested feature requires an unsupported web browser.
    UnsupportedBrowser(String),
}

/// Lower-case name of a file action.
pub open spec fn file_action_name(a: FileAction) -> Seq<char> {
    match a {
        FileAction::Read => "read"@,
        FileAction::Write => "write"@,
        FileAction::Parse => "parse"@,
        FileAction::Remove => "remove"@,
        FileAction::Find => "find"@,
        FileAction::Create => "create"@,
    }
}

pub open spec fn dir_action_name(a: DirAction) -> Seq<char> {
    match a {
        DirAction::Read => "read"@,
        DirAction::Create => "create"@,
        DirAction::Remove => "remove"@,
        DirAction::Find => "find"@,
    }
}

pub open spec fn dbus_action_name(a: DBusAction) -> Seq<char> {
    match a {
        DBusAction::Connect => "connect"@,
        DBusAction::Construct => "construct"@,
        DBusAction::Send => "send"@,
        DBusAction::Call => "call"@,
    }
}

pub open spec fn socket_action_name(a: SocketAction) -> Seq<char> {
    match a {
        SocketAction::Close => "close"@,
        SocketAction::Connect => "connect"@,
        SocketAction::Write => "write"@,
        SocketAction::Read => "read"@,
    }
}

pub open spec fn network_action_name(a: NetworkAction) -> Seq<char> {
    match a {
        NetworkAction::Get => "get"@,
        NetworkAction::Post => "post"@,
        NetworkAction::Put => "put"@,
        NetworkAction::Update => "update"@,
        NetworkAction::Delete => "delete"@,
    }
}

pub open spec fn db_action_name(a: DbAction) -> Seq<char> {
    match a {
        DbAction::Connect => "connect"@,
        DbAction::Query => "query"@,
        DbAction::Initialize => "initialize"@,
        DbAction::Migrate => "migrate"@,
        DbAction::Transaction => "transaction"@,
    }
}

/// The message that describes an error kind.
pub open spec fn error_message_spec(e: SherlockErrorType) -> Seq<char> {
    match e {
        SherlockErrorType::Unreachable => "It should never come to this"@,
        SherlockErrorType::EnvError(var) => "Failed to read \""@ + var@ + "\""@,
        SherlockErrorType::FileError(act, path) => "Failed to "@ + file_action_name(act)
            + " file \""@ + path@ + "\""@,
        SherlockErrorType::DirError(act, path) => "Failed to "@ + dir_action_name(act)
            + " directory \""@ + path@ + "\""@,
        SherlockErrorType::ConfigError(msg) => "Config error: "@ + msg@,
        SherlockErrorType::DBusError(act, target) => "DBus failed to "@ + dbus_action_name(act)
            + " ("@ + target@ + ")"@,
        SherlockErrorType::SocketError(act, loc) => "Failed to "@ + socket_action_name(act)
            + " socket at \""@ + loc@ + "\""@,
        SherlockErrorType::BorrowCongestion => "Resource is currently locked/in use"@,
        SherlockErrorType::NetworkError(act, loc) => "Network failure during "@
            + network_action_name(act) + " from \""@ + loc@ + "\""@,
        SherlockErrorType::DatabaseError(act) => "Database failure during operation: "@
            + db_action_name(act),
        SherlockErrorType::IO => "IO"@,
        SherlockErrorType::SerializationError => "SerializationError"@,
        SherlockErrorType::DeserializationError => "DeserializationError"@,
        SherlockErrorType::InvalidAction => "InvalidAction"@,
        SherlockErrorType::InvalidFunction => "InvalidFunction"@,
        SherlockErrorType::NoError => "None"@,
        SherlockErrorType::CommandError(_) => "CommandError"@,
        SherlockErrorType::UnsupportedBrowser(_) => "UnsupportedBrowser"@,
    }
}

impl FileAction {
    pub fn name(&self) -> (r: &'static str)
        ensures
            r@ == file_action_name(*self),
    {
        match self {
            FileAction::Read => "read",
            FileAction::Write => "write",
            FileAction::Parse => "parse",
            FileAction::Remove => "remove",
            FileAction::Find => "find",
            FileAction::Create => "create",
        }
    }
}

impl DirAction {
    pub fn name(&self) -> (r: &'static str)
        ensures
            r@ == dir_action_name(*self),
    {
        match self {
            DirAction::Read => "read",
            DirAction::Create => "create",
            DirAction::Remove => "remove",
            DirAction::Find => "find",
        }
    }
}

impl DBusAction {
    pub fn name(&self) -> (r: &'static str)
        ensures
            r@ == dbus_action_name(*self),
    {
        match self {
            DBusAction::Connect => "connect",
            DBusAction::Construct => "construct",
            DBusAction::Send => "send",
            DBusAction::Call => "call",
        }
    }
}

impl SocketAction {
    pub fn name(&self) -> (r: &'static str)
        ensures
            r@ == socket_action_name(*self),
    {
        match self {
            SocketAction::Close => "close",
            SocketAction::Connect => "connect",
            SocketAction::Write => "write",
            SocketAction::Read => "read",
        }
    }
}

impl NetworkAction {
    pub fn name(&self) -> (r: &'static str)
        ensures
            r@ == network_action_name(*self),
    {
        match self {
            NetworkAction::Get => "get",
            NetworkAction::Post => "post",
            NetworkAction::Put => "put",
            NetworkAction::Update => "update",
            NetworkAction::Delete => "delete",
        }
    }
}

impl DbAction {
    pub fn name(&self) -> (r: &'static str)
        ensures
            r@ == db_action_name(*self),
    {
        match self {
            DbAction::Connect => "connect",
            DbAction::Query => "query",
            DbAction::Initialize => "initialize",
            DbAction::Migrate => "migrate",
            DbAction::Transaction => "transaction",
        }
    }
}

fn concat(parts: &Vec<&str>) -> (r: String)
    ensures
        r@ == concat_spec(parts@.map_values(|p: &str| p@)),
{
    let mut out: Vec<char> = Vec::new();
    let mut i: usize = 0;
    let ghost all = parts@.map_values(|p: &str| p@);
    while i < parts.len()
        invariant
            i <= parts@.len(),
            all == parts@.map_values(|p: &str| p@),
            out@ == concat_spec(all.take(i as int)),
        decreases parts.len() - i,
    {
        let v = str_chars(parts[i]);
        extend_chars(&mut out, &v);
        assert(all.take(i + 1).drop_last() == all.take(i as int));
        i += 1;
    }
    assert(all.take(parts@.len() as int) == all);
    string_from_chars(out.as_slice())
}

/// Concatenation of a list of character sequences.
pub open spec fn concat_spec(parts: Seq<Seq<char>>) -> Seq<char>
    decreases parts.len(),
{
    if parts.len() == 0 {
        seq![]
    } else {
        concat_spec(parts.drop_last()) + parts.last()
    }
}

impl SherlockErrorType {
    /// The human-readable message for this error kind.
    pub fn message(&self) -> (r: String)
        ensures
            r@ == error_message_spec(*self),
    {
        let parts: Vec<&str> = match self {
            SherlockErrorType::Unreachable => vec!["It should never come to this"],
            SherlockErrorType::EnvError(var) => vec!["Failed to read \"", var.as_str(), "\""],
            SherlockErrorType::FileError(act, path) => vec!["Failed to ", act.name(), " file \"", path.as_str(), "\""],
            SherlockErrorType::DirError(act, path) => vec!["Failed to ", act.name(), " directory \"", path.as_str(), "\""],
            SherlockErrorType::ConfigError(msg) => vec!["Config error: ", msg.as_str()],
            SherlockErrorType::DBusError(act, target) => vec!["DBus failed to ", act.name(), " (", target.as_str(), ")"],
            SherlockErrorType::SocketError(act, loc) => vec!["Failed to ", act.name(), " socket at \"", loc.as_str(), "\""],
            SherlockErrorType::BorrowCongestion => vec!["Resource is currently locked/in use"],
            SherlockErrorType::NetworkError(act, loc) => vec!["Network failure during ", act.name(), " from \"", loc.as_str(), "\""],
            SherlockErrorType::DatabaseError(act) => vec!["Database failure during operation: ", act.name()],
            SherlockErrorType::IO => vec!["IO"],
            SherlockErrorType::SerializationError => vec!["SerializationError"],
            SherlockErrorType::DeserializationError => vec!["DeserializationError"],
            SherlockErrorType::InvalidAction => vec!["InvalidAction"],
            SherlockErrorType::InvalidFunction => vec!["InvalidFunction"],
            SherlockErrorType::NoError => vec!["None"],
            SherlockErrorType::CommandError(_) => vec!["CommandError"],
            SherlockErrorType::UnsupportedBrowser(_) => vec!["UnsupportedBrowser"],
        };
        let r = concat(&parts);
        proof {
            let v = parts@.map_values(|p: &str| p@);
            assert(v.len() == parts@.len());
            reveal_with_fuel(concat_spec, 6);
        }
        r
    }
}

} // verus!
