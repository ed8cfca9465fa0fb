//! The decisions of one control connection: how each command changes the
//! session and what the server must do in answer. The connection itself
//! (sockets, files) is driven from outside: a command yields an `Effect`;
//! when that effect needs work outside (a data listener, a directory
//! listing, a transfer, a file system change), its result comes back as an
//! `Outcome` and yields the next `Effect`.
use vstd::prelude::*;
use vstd::string::*;
use crate::commands::{
    cwd_outcome, parse_spec, CommandView,
    DataChannelFunction, DataChannelView, FtpCommand,
};
use crate::errors::{error_text, ErrorsData};
use crate::ftp_responses::{
    current_dir, current_dir_reply, failed_pasv, failed_pasv_reply, internal_error,
    internal_error_reply, mkd_del, mkd_del_reply, mkd_ok, mkd_ok_reply, pasv_mode,
    pasv_mode_reply, user_ok, user_ok_reply, DIR_ALREADY_EXISTS, DIR_NOT_FOUND, FILE_DELETED,
    FILE_NOT_FOUND, FILE_RENAMED, LOGIN_SUCCESS, OPENING_DATA, RFNR, RNTO_ERROR,
    TRANSFER_COMPLETE, TYPE_SET, UNKNOWN_CMD, USE_PASV_FIRST, WELCOME,
};
use crate::paths::{
    has_root, has_root_text, join_names, join_names_text, lexical_names, lexical_names_of, push_path,
    push_path_text,
};
use crate::user_session::{SessionView, UserSession};

verus! {

/// What the connection waits for before it takes the next command.
pub enum Awaiting {
    Command,
    Passive,
    Listing,
    Transfer,
    Rename,
    MakeDir(String),
    RemoveFile,
    RemoveDir(String),
    /// What is found at the server path of this command.
    Probe(FtpCommand),
}

/// `Awaiting` with its texts as character sequences.
pub enum AwaitingView {
    Command,
    Passive,
    Listing,
    Transfer,
    Rename,
    MakeDir(Seq<char>),
    RemoveFile,
    RemoveDir(Seq<char>),
    Probe(CommandView),
}

impl View for Awaiting {
    type V = AwaitingView;

    open spec fn view(&self) -> AwaitingView {
        match self {
            Awaiting::Command => AwaitingView::Command,
            Awaiting::Passive => AwaitingView::Passive,
            Awaiting::Listing => AwaitingView::Listing,
            Awaiting::Transfer => AwaitingView::Transfer,
            Awaiting::Rename => AwaitingView::Rename,
            Awaiting::MakeDir(s) => AwaitingView::MakeDir(s@),
            Awaiting::RemoveFile => AwaitingView::RemoveFile,
            Awaiting::RemoveDir(s) => AwaitingView::RemoveDir(s@),
            Awaiting::Probe(c) => AwaitingView::Probe(c@),
        }
    }
}

/// What the server must do next.
#[derive(Debug, PartialEq, Eq)]
pub enum Effect {
    /// Write this reply on the control channel.
    Reply(String),
    /// Write nothing.
    NoReply,
    /// Open a fresh data listener and report its port.
    OpenPassive,
    /// Read the listing of the directory at this server path.
    ListDirectory(String),
    /// Write the announcement on the control channel, then accept a data
    /// connection and use it as said.
    Transfer(String, DataChannelFunction),
    /// Rename the entry at the first server path to the second.
    Rename(String, String),
    /// Create a directory at this server path.
    CreateDir(String),
    /// Remove the file at this server path.
    RemoveFile(String),
    /// Remove the (empty) directory at this server path.
    RemoveDir(String),
    /// Look on the disk at this server path: whether an entry exists there
    /// and whether it is a directory.
    Probe(String),
}

/// `Effect` with its texts as character sequences.
pub enum EffectView {
    Reply(Seq<char>),
    NoReply,
    OpenPassive,
    ListDirectory(Seq<char>),
    Transfer(Seq<char>, DataChannelView),
    Rename(Seq<char>, Seq<char>),
    CreateDir(Seq<char>),
    RemoveFile(Seq<char>),
    RemoveDir(Seq<char>),
    Probe(Seq<char>),
}

impl View for Effect {
    type V = EffectView;

    open spec fn view(&self) -> EffectView {
        match self {
            Effect::Reply(s) => EffectView::Reply(s@),
            Effect::NoReply => EffectView::NoReply,
            Effect::OpenPassive => EffectView::OpenPassive,
            Effect::ListDirectory(s) => EffectView::ListDirectory(s@),
            Effect::Transfer(s, op) => EffectView::Transfer(s@, op@),
            Effect::Rename(a, b) => EffectView::Rename(a@, b@),
            Effect::CreateDir(s) => EffectView::CreateDir(s@),
            Effect::RemoveFile(s) => EffectView::RemoveFile(s@),
            Effect::RemoveDir(s) => EffectView::RemoveDir(s@),
            Effect::Probe(s) => EffectView::Probe(s@),
        }
    }
}

/// The result of the outside work that an effect asked for.
#[derive(Debug, PartialEq, Eq)]
pub enum Outcome {
    /// A data listener was opened on this port.
    PassiveOpened(u16),
    /// No data listener could be opened; `true` when a listener was bound
    /// but its address could not be read (it is kept).
    PassiveFailed(bool),
    /// The directory listing that was read.
    Listed(String),
    /// The work succeeded.
    Done,
    /// The work failed, with this message.
    Failed(String),
    /// What was found at a probed path: whether an entry exists, and
    /// whether it is a directory.
    Probed(bool, bool),
}

/// `Outcome` with its texts as character sequences.
pub enum OutcomeView {
    PassiveOpened(u16),
    PassiveFailed(bool),
    Listed(Seq<char>),
    Done,
    Failed(Seq<char>),
    Probed(bool, bool),
}

impl View for Outcome {
    type V = OutcomeView;

    open spec fn view(&self) -> OutcomeView {
        match self {
            Outcome::PassiveOpened(p) => OutcomeView::PassiveOpened(*p),
            Outcome::PassiveFailed(b) => OutcomeView::PassiveFailed(*b),
            Outcome::Listed(s) => OutcomeView::Listed(s@),
            Outcome::Done => OutcomeView::Done,
            Outcome::Failed(s) => OutcomeView::Failed(s@),
            Outcome::Probed(e, d) => OutcomeView::Probed(*e, *d),
        }
    }
}

/// Marker for what serves a control connection; a stand-in for the real
/// connection can implement it.
pub trait Client {}

impl Client for FtpClient {}

/// The state of one control connection: the user's session, whether a data
/// listener is open (set up by PASV, used up by one transfer), and what the
/// connection waits for.
pub struct FtpClient {
    session: UserSession,
    passive: bool,
    awaiting: Awaiting,
}

/// `FtpClient` as values.
pub struct ClientView {
    pub session: SessionView,
    pub passive: bool,
    pub awaiting: AwaitingView,
}

impl View for FtpClient {
    type V = ClientView;

    closed spec fn view(&self) -> ClientView {
        ClientView { session: self.session@, passive: self.passive, awaiting: self.awaiting@ }
    }
}

/// The user path that a name given in a command stands for: a name with a
/// root as it is, any other name pushed onto the current directory.
pub open spec fn absolute_or_relative_spec(s: SessionView, name: Seq<char>) -> Seq<char> {
    if has_root(name) {
        name
    } else {
        push_path(s.current_dir, name)
    }
}

/// The server path of a user path: its `.` and `..` resolved by their
/// text from the user's root (`..` never climbs above that root), and the
/// names that remain pushed onto the starting directory.
pub open spec fn resolve_any_path_spec(s: SessionView, virtual_path: Seq<char>) -> Seq<char> {
    push_path(s.starting_dir, join_names(lexical_names(virtual_path)))
}

/// The server path of the current directory.
pub open spec fn resolve_path_spec(s: SessionView) -> Seq<char> {
    resolve_any_path_spec(s, s.current_dir)
}

/// The server path that a name given in a command stands for.
pub open spec fn server_path(s: SessionView, name: Seq<char>) -> Seq<char> {
    resolve_any_path_spec(s, absolute_or_relative_spec(s, name))
}

/// Starting a transfer: refused unless a data listener is open; otherwise
/// the opening is announced and the transfer awaited.
pub open spec fn data_transfer_step(c: ClientView, op: DataChannelView) -> (ClientView, EffectView) {
    if c.passive {
        (
            ClientView { awaiting: AwaitingView::Transfer, ..c },
            EffectView::Transfer(OPENING_DATA@, op),
        )
    } else {
        (ClientView { awaiting: AwaitingView::Command, ..c }, EffectView::Reply(USE_PASV_FIRST@))
    }
}

/// The session after a command that changes nothing but waits for `a`.
pub open spec fn await_step(c: ClientView, a: AwaitingView, e: EffectView) -> (ClientView, EffectView) {
    (ClientView { awaiting: a, ..c }, e)
}

/// How a command changes the connection and what the server does first,
/// given whether an entry exists at the command's server path and whether
/// it is a directory (only RETR, RNFR, DELE, RMD and CWD look at these).
pub open spec fn command_step(c: ClientView, cmd: CommandView, exists: bool, is_dir: bool) -> (
    ClientView,
    EffectView,
) {
    let s = c.session;
    match cmd {
        CommandView::Usr(u) => (
            ClientView { session: SessionView { usr: u, ..s }, ..c },
            EffectView::Reply(user_ok_reply(u)),
        ),
        CommandView::Pass(p) => (
            ClientView { session: SessionView { pwd: p, ..s }, ..c },
            EffectView::Reply(LOGIN_SUCCESS@),
        ),
        CommandView::Pasv => await_step(c, AwaitingView::Passive, EffectView::OpenPassive),
        CommandView::List => await_step(
            c,
            AwaitingView::Listing,
            EffectView::ListDirectory(resolve_path_spec(s)),
        ),
        CommandView::Retr(f) => if exists {
            data_transfer_step(c, DataChannelView::SendFile(server_path(s, f)))
        } else {
            (c, EffectView::Reply(FILE_NOT_FOUND@))
        },
        CommandView::Stor(f) => data_transfer_step(
            c,
            DataChannelView::ReceiveFile(server_path(s, f)),
        ),
        CommandView::Pwd => (c, EffectView::Reply(current_dir_reply(s.current_dir))),
        CommandView::Cwd(d) => match cwd_outcome(exists, is_dir) {
            Ok(m) => (
                ClientView {
                    session: SessionView {
                        current_dir: absolute_or_relative_spec(s, d),
                        ..s
                    },
                    ..c
                },
                EffectView::Reply(m),
            ),
            Err(m) => (c, EffectView::Reply(m)),
        },
        CommandView::Type => (c, EffectView::Reply(TYPE_SET@)),
        CommandView::Rfnr(f) => if exists {
            (
                ClientView { session: SessionView { pending_file: server_path(s, f), ..s }, ..c },
                EffectView::Reply(RFNR@),
            )
        } else {
            (c, EffectView::Reply(FILE_NOT_FOUND@))
        },
        CommandView::Rnto(f) => if s.pending_file.len() > 0 {
            await_step(
                c,
                AwaitingView::Rename,
                EffectView::Rename(s.pending_file, server_path(s, f)),
            )
        } else {
            (c, EffectView::NoReply)
        },
        CommandView::Mkd(d) => await_step(
            c,
            AwaitingView::MakeDir(absolute_or_relative_spec(s, d)),
            EffectView::CreateDir(server_path(s, d)),
        ),
        CommandView::Dele(n) => if exists {
            await_step(c, AwaitingView::RemoveFile, EffectView::RemoveFile(server_path(s, n)))
        } else {
            (c, EffectView::NoReply)
        },
        CommandView::Rmd(n) => if exists {
            await_step(
                c,
                AwaitingView::RemoveDir(absolute_or_relative_spec(s, n)),
                EffectView::RemoveDir(server_path(s, n)),
            )
        } else {
            (c, EffectView::NoReply)
        },
    }
}

/// The server path that a command must look at on the disk before it can
/// act (RETR, RNFR, DELE, RMD and CWD), if any.
pub open spec fn probe_target(s: SessionView, cmd: CommandView) -> Option<Seq<char>> {
    match cmd {
        CommandView::Retr(f) => Some(server_path(s, f)),
        CommandView::Rfnr(f) => Some(server_path(s, f)),
        CommandView::Dele(n) => Some(server_path(s, n)),
        CommandView::Rmd(n) => Some(server_path(s, n)),
        CommandView::Cwd(d) => Some(server_path(s, d)),
        _ => None,
    }
}

/// How a command received while waiting for one changes the connection
/// and what the server does first: a command that needs the disk asks for
/// its server path to be looked at and waits for the answer; any other
/// command acts at once.
pub open spec fn request_step(c: ClientView, cmd: CommandView) -> (ClientView, EffectView) {
    match probe_target(c.session, cmd) {
        Some(path) => await_step(c, AwaitingView::Probe(cmd), EffectView::Probe(path)),
        None => command_step(c, cmd, false, false),
    }
}

/// How the result of outside work changes the connection and what the
/// server does next. A result that does not answer what the connection
/// waits for changes nothing.
pub open spec fn resume_step(c: ClientView, o: OutcomeView) -> (ClientView, EffectView) {
    let idle = ClientView { awaiting: AwaitingView::Command, ..c };
    let ignored = (c, EffectView::NoReply);
    match c.awaiting {
        AwaitingView::Passive => match o {
            OutcomeView::PassiveOpened(port) => (
                ClientView { passive: true, ..idle },
                EffectView::Reply(pasv_mode_reply((port / 256) as nat, (port % 256) as nat)),
            ),
            OutcomeView::PassiveFailed(bound) => (
                ClientView { passive: c.passive || bound, ..idle },
                EffectView::Reply(
                    failed_pasv_reply(error_text(ErrorsData::ServerConnectionError)),
                ),
            ),
            _ => ignored,
        },
        AwaitingView::Listing => match o {
            OutcomeView::Listed(l) => data_transfer_step(c, DataChannelView::SendListing(l)),
            OutcomeView::Failed(m) => (idle, EffectView::Reply(internal_error_reply(m))),
            _ => ignored,
        },
        AwaitingView::Transfer => match o {
            OutcomeView::Done => (
                ClientView { passive: false, ..idle },
                EffectView::Reply(TRANSFER_COMPLETE@),
            ),
            OutcomeView::Failed(m) => (idle, EffectView::Reply(internal_error_reply(m))),
            _ => ignored,
        },
        AwaitingView::Rename => match o {
            OutcomeView::Done => (idle, EffectView::Reply(FILE_RENAMED@)),
            OutcomeView::Failed(_) => (idle, EffectView::Reply(RNTO_ERROR@)),
            _ => ignored,
        },
        AwaitingView::MakeDir(dir) => match o {
            OutcomeView::Done => (idle, EffectView::Reply(mkd_ok_reply(dir))),
            OutcomeView::Failed(_) => (idle, EffectView::Reply(DIR_ALREADY_EXISTS@)),
            _ => ignored,
        },
        AwaitingView::RemoveFile => match o {
            OutcomeView::Done => (idle, EffectView::Reply(FILE_DELETED@)),
            OutcomeView::Failed(_) => (idle, EffectView::Reply(FILE_NOT_FOUND@)),
            _ => ignored,
        },
        AwaitingView::RemoveDir(dir) => match o {
            OutcomeView::Done => (idle, EffectView::Reply(mkd_del_reply(dir))),
            OutcomeView::Failed(_) => (idle, EffectView::Reply(DIR_NOT_FOUND@)),
            _ => ignored,
        },
        AwaitingView::Probe(cmd) => match o {
            OutcomeView::Probed(exists, is_dir) => command_step(idle, cmd, exists, is_dir),
            _ => ignored,
        },
        AwaitingView::Command => ignored,
    }
}

impl FtpClient {
    /// A connection for the given session, with no data listener open,
    /// ready for a command.
    pub fn new(usr_s: UserSession) -> (r: FtpClient)
        ensures
            r@ == (ClientView { session: usr_s@, passive: false, awaiting: AwaitingView::Command }),
    {
        FtpClient { session: usr_s, passive: false, awaiting: Awaiting::Command }
    }

    /// The greeting that opens a control connection.
    pub fn greeting() -> (r: Effect)
        ensures
            r@ == EffectView::Reply(WELCOME@),
    {
        Effect::Reply(String::from_str(WELCOME))
    }

    /// The session of this connection.
    pub fn session(&self) -> (r: &UserSession)
        ensures
            r@ == self@.session,
    {
        &self.session
    }

    /// Whether a data listener is open.
    pub fn passive_open(&self) -> (r: bool)
        ensures
            r == self@.passive,
    {
        self.passive
    }

    /// Whether the connection is ready for the next command, rather than
    /// waiting for the result of outside work.
    pub fn ready_for_command(&self) -> (r: bool)
        ensures
            r == (self@.awaiting is Command),
    {
        match self.awaiting {
            Awaiting::Command => true,
            _ => false,
        }
    }

    /// The server path of the current directory (the directory that LIST
    /// shows).
    pub fn resolve_path(&self) -> (r: String)
        ensures
            r@ == resolve_path_spec(self@.session),
    {
        self.resolve_any_path(self.session.current_dir.as_str())
    }

    /// The server path of a user path.
    pub fn resolve_any_path(&self, virtual_path: &str) -> (r: String)
        ensures
            r@ == resolve_any_path_spec(self@.session, virtual_path@),
    {
        let names = lexical_names_of(virtual_path);
        let rest = join_names_text(&names);
        push_path_text(self.session.starting_dir.as_str(), rest.as_str())
    }

    /// The user path that a name given in a command stands for.
    pub fn absolute_or_relative(&self, filename: String) -> (r: String)
        ensures
            r@ == absolute_or_relative_spec(self@.session, filename@),
    {
        if has_root_text(filename.as_str()) {
            filename
        } else {
            push_path_text(self.session.current_dir.as_str(), filename.as_str())
        }
    }

    /// The server path that a name given in a command stands for.
    fn target_path(&self, name: &String) -> (r: String)
        ensures
            r@ == server_path(self@.session, name@),
    {
        let p = self.absolute_or_relative(name.clone());
        self.resolve_any_path(p.as_str())
    }

    /// Starts a transfer on the data connection, or refuses it when no data
    /// listener is open.
    pub fn handle_data_transfer(&mut self, operation: DataChannelFunction) -> (r: Effect)
        ensures
            (final(self)@, r@) == data_transfer_step(old(self)@, operation@),
    {
        if !self.passive {
            self.awaiting = Awaiting::Command;
            return Effect::Reply(String::from_str(USE_PASV_FIRST));
        }
        self.awaiting = Awaiting::Transfer;
        Effect::Transfer(String::from_str(OPENING_DATA), operation)
    }

    /// Carries out a command, given whether an entry exists at the
    /// command's server path and whether it is a directory.
    pub fn apply_command(&mut self, cmd: FtpCommand, exists: bool, is_dir: bool) -> (r: Effect)
        requires
            old(self)@.awaiting is Command,
        ensures
            (final(self)@, r@) == command_step(old(self)@, cmd@, exists, is_dir),
    {
        match cmd {
            FtpCommand::Usr(username) => {
                let reply = user_ok(username.as_str());
                self.session.usr = username;
                Effect::Reply(reply)
            },
            FtpCommand::Pass(pass) => {
                self.session.pwd = pass;
                Effect::Reply(String::from_str(LOGIN_SUCCESS))
            },
            FtpCommand::Pasv => {
                self.awaiting = Awaiting::Passive;
                Effect::OpenPassive
            },
            FtpCommand::List => {
                let path = self.resolve_path();
                self.awaiting = Awaiting::Listing;
                Effect::ListDirectory(path)
            },
            FtpCommand::Retr(filename) => {
                if exists {
                    let path = self.target_path(&filename);
                    self.handle_data_transfer(DataChannelFunction::SendFile(path))
                } else {
                    Effect::Reply(String::from_str(FILE_NOT_FOUND))
                }
            },
            FtpCommand::Stor(filename) => {
                let path = self.target_path(&filename);
                self.handle_data_transfer(DataChannelFunction::ReceiveFile(path))
            },
            FtpCommand::Pwd => Effect::Reply(current_dir(self.session.current_dir.as_str())),
            FtpCommand::Cwd(new_dir) => {
                let path = self.absolute_or_relative(new_dir);
                match FtpCommand::cwd_reply(exists, is_dir) {
                    Ok(m) => {
                        self.session.current_dir = path;
                        Effect::Reply(m)
                    },
                    Err(m) => Effect::Reply(m),
                }
            },
            FtpCommand::Type => Effect::Reply(String::from_str(TYPE_SET)),
            FtpCommand::Rfnr(old_file) => {
                if exists {
                    let path = self.target_path(&old_file);
                    self.session.pending_file = path;
                    Effect::Reply(String::from_str(RFNR))
                } else {
                    Effect::Reply(String::from_str(FILE_NOT_FOUND))
                }
            },
            FtpCommand::Rnto(new_file) => {
                if self.session.pending_file.as_str().unicode_len() > 0 {
                    let path = self.target_path(&new_file);
                    let from = self.session.pending_file.clone();
                    self.awaiting = Awaiting::Rename;
                    Effect::Rename(from, path)
                } else {
                    Effect::NoReply
                }
            },
            FtpCommand::Mkd(dirname) => {
                let dir = self.absolute_or_relative(dirname);
                let path = self.resolve_any_path(dir.as_str());
                self.awaiting = Awaiting::MakeDir(dir);
                Effect::CreateDir(path)
            },
            FtpCommand::Dele(name) => {
                if exists {
                    let path = self.target_path(&name);
                    self.awaiting = Awaiting::RemoveFile;
                    Effect::RemoveFile(path)
                } else {
                    Effect::NoReply
                }
            },
            FtpCommand::Rmd(name) => {
                if exists {
                    let path_name = self.absolute_or_relative(name);
                    let path = self.resolve_any_path(path_name.as_str());
                    self.awaiting = Awaiting::RemoveDir(path_name);
                    Effect::RemoveDir(path)
                } else {
                    Effect::NoReply
                }
            },
        }
    }

    /// The server path that a command looks at on the disk, if any.
    pub fn probe_path(&self, cmd: &FtpCommand) -> (r: Option<String>)
        ensures
            match r {
                Some(p) => probe_target(self@.session, cmd@) == Some(p@),
                None => probe_target(self@.session, cmd@) is None,
            },
    {
        match cmd {
            FtpCommand::Retr(name) => Some(self.target_path(name)),
            FtpCommand::Rfnr(name) => Some(self.target_path(name)),
            FtpCommand::Dele(name) => Some(self.target_path(name)),
            FtpCommand::Rmd(name) => Some(self.target_path(name)),
            FtpCommand::Cwd(name) => Some(self.target_path(name)),
            _ => None,
        }
    }

    /// Takes a command: one that needs the disk asks for its server path to
    /// be looked at (the answer comes back through `resume` as `Probed`);
    /// any other acts at once, as `apply_command` says.
    pub fn handle_command(&mut self, cmd: FtpCommand) -> (r: Effect)
        requires
            old(self)@.awaiting is Command,
        ensures
            (final(self)@, r@) == request_step(old(self)@, cmd@),
    {
        match self.probe_path(&cmd) {
            Some(path) => {
                self.awaiting = Awaiting::Probe(cmd);
                Effect::Probe(path)
            },
            None => self.apply_command(cmd, false, false),
        }
    }

    /// Reads a line of the control channel and carries out its command;
    /// a line that is no command is answered as unknown.
    pub fn handle_line(&mut self, line: &str) -> (r: Effect)
        requires
            old(self)@.awaiting is Command,
        ensures
            match parse_spec(line@) {
                Some(cmd) => (final(self)@, r@) == request_step(old(self)@, cmd),
                None => final(self)@ == old(self)@ && r@ == EffectView::Reply(UNKNOWN_CMD@),
            },
    {
        match FtpCommand::parse_ftp_command(line) {
            Some(cmd) => self.handle_command(cmd),
            None => Effect::Reply(String::from_str(UNKNOWN_CMD)),
        }
    }

    /// Takes in the result of the outside work the connection waits for.
    pub fn resume(&mut self, outcome: Outcome) -> (r: Effect)
        ensures
            (final(self)@, r@) == resume_step(old(self)@, outcome@),
    {
        if let Outcome::Probed(e, d) = &outcome {
            if let Awaiting::Probe(_) = &self.awaiting {
                let mut waiting = Awaiting::Command;
                std::mem::swap(&mut waiting, &mut self.awaiting);
                match waiting {
                    Awaiting::Probe(cmd) => {
                        return self.apply_command(cmd, *e, *d);
                    },
                    other => {
                        self.awaiting = other;
                        return Effect::NoReply;
                    },
                }
            }
        }
        match &self.awaiting {
            Awaiting::Command => Effect::NoReply,
            Awaiting::Probe(_) => Effect::NoReply,
            Awaiting::Passive => match outcome {
                Outcome::PassiveOpened(port) => {
                    self.passive = true;
                    self.awaiting = Awaiting::Command;
                    Effect::Reply(pasv_mode(port / 256, port % 256))
                },
                Outcome::PassiveFailed(bound) => {
                    self.passive = self.passive || bound;
                    self.awaiting = Awaiting::Command;
                    let msg = ErrorsData::ServerConnectionError.message();
                    Effect::Reply(failed_pasv(msg.as_str()))
                },
                _ => Effect::NoReply,
            },
            Awaiting::Listing => match outcome {
                Outcome::Listed(listing) => {
                    self.handle_data_transfer(DataChannelFunction::SendListing(listing))
                },
                Outcome::Failed(msg) => {
                    self.awaiting = Awaiting::Command;
                    Effect::Reply(internal_error(msg.as_str()))
                },
                _ => Effect::NoReply,
            },
            Awaiting::Transfer => match outcome {
                Outcome::Done => {
                    self.passive = false;
                    self.awaiting = Awaiting::Command;
                    Effect::Reply(String::from_str(TRANSFER_COMPLETE))
                },
                Outcome::Failed(msg) => {
                    self.awaiting = Awaiting::Command;
                    Effect::Reply(internal_error(msg.as_str()))
                },
                _ => Effect::NoReply,
            },
            Awaiting::Rename => match outcome {
                Outcome::Done => {
                    self.awaiting = Awaiting::Command;
                    Effect::Reply(String::from_str(FILE_RENAMED))
                },
                Outcome::Failed(_) => {
                    self.awaiting = Awaiting::Command;
                    Effect::Reply(String::from_str(RNTO_ERROR))
                },
                _ => Effect::NoReply,
            },
            Awaiting::MakeDir(dir) => match outcome {
                Outcome::Done => {
                    let reply = mkd_ok(dir.as_str());
                    self.awaiting = Awaiting::Command;
                    Effect::Reply(reply)
                },
                Outcome::Failed(_) => {
                    self.awaiting = Awaiting::Command;
                    Effect::Reply(String::from_str(DIR_ALREADY_EXISTS))
                },
                _ => Effect::NoReply,
            },
            Awaiting::RemoveFile => match outcome {
                Outcome::Done => {
                    self.awaiting = Awaiting::Command;
                    Effect::Reply(String::from_str(FILE_DELETED))
                },
                Outcome::Failed(_) => {
                    self.awaiting = Awaiting::Command;
                    Effect::Reply(String::from_str(FILE_NOT_FOUND))
                },
                _ => Effect::NoReply,
            },
            Awaiting::RemoveDir(dir) => match outcome {
                Outcome::Done => {
                    let reply = mkd_del(dir.as_str());
                    self.awaiting = Awaiting::Command;
                    Effect::Reply(reply)
                },
                Outcome::Failed(_) => {
                    self.awaiting = Awaiting::Command;
                    Effect::Reply(String::from_str(DIR_NOT_FOUND))
                },
                _ => Effect::NoReply,
            },
        }
    }
}

} // verus!
