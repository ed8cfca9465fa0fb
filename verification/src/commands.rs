//! The commands of the control channel, how a line is read as one, and the
//! replies of the commands that only look at a path.
use vstd::prelude::*;
use vstd::string::*;
use crate::ftp_responses::{current_dir, current_dir_reply, DIR_CHANGED, DIR_NOT_FOUND, NOT_A_DIR};
use crate::paths::{file_name, file_name_text};
use crate::text::{chars_of, same_chars, split_words, string_of, trim, trim_bounds, views_of, words};

verus! {

/// A command received on the control channel.
#[derive(Debug, PartialEq, Eq)]
pub enum FtpCommand {
    Usr(String),
    Pass(String),
    Cwd(String),
    Pwd,
    List,
    Pasv,
    Retr(String),
    Stor(String),
    Rfnr(String),
    Rnto(String),
    Mkd(String),
    Dele(String),
    Rmd(String),
    Type,
}

/// A command with its argument as a character sequence.
pub enum CommandView {
    Usr(Seq<char>),
    Pass(Seq<char>),
    Cwd(Seq<char>),
    Pwd,
    List,
    Pasv,
    Retr(Seq<char>),
    Stor(Seq<char>),
    Rfnr(Seq<char>),
    Rnto(Seq<char>),
    Mkd(Seq<char>),
    Dele(Seq<char>),
    Rmd(Seq<char>),
    Type,
}

impl View for FtpCommand {
    type V = CommandView;

    open spec fn view(&self) -> CommandView {
        match self {
            FtpCommand::Usr(s) => CommandView::Usr(s@),
            FtpCommand::Pass(s) => CommandView::Pass(s@),
            FtpCommand::Cwd(s) => CommandView::Cwd(s@),
            FtpCommand::Pwd => CommandView::Pwd,
            FtpCommand::List => CommandView::List,
            FtpCommand::Pasv => CommandView::Pasv,
            FtpCommand::Retr(s) => CommandView::Retr(s@),
            FtpCommand::Stor(s) => CommandView::Stor(s@),
            FtpCommand::Rfnr(s) => CommandView::Rfnr(s@),
            FtpCommand::Rnto(s) => CommandView::Rnto(s@),
            FtpCommand::Mkd(s) => CommandView::Mkd(s@),
            FtpCommand::Dele(s) => CommandView::Dele(s@),
            FtpCommand::Rmd(s) => CommandView::Rmd(s@),
            FtpCommand::Type => CommandView::Type,
        }
    }
}

/// What a data connection is used for: sending a listing, sending the file
/// at a server path, or receiving a file into a server path.
#[derive(Debug, PartialEq, Eq)]
pub enum DataChannelFunction {
    SendListing(String),
    SendFile(String),
    ReceiveFile(String),
}

/// A data channel use with its text as a character sequence.
pub enum DataChannelView {
    SendListing(Seq<char>),
    SendFile(Seq<char>),
    ReceiveFile(Seq<char>),
}

impl View for DataChannelFunction {
    type V = DataChannelView;

    open spec fn view(&self) -> DataChannelView {
        match self {
            DataChannelFunction::SendListing(s) => DataChannelView::SendListing(s@),
            DataChannelFunction::SendFile(s) => DataChannelView::SendFile(s@),
            DataChannelFunction::ReceiveFile(s) => DataChannelView::ReceiveFile(s@),
        }
    }
}

pub open spec fn kw_type() -> Seq<char> {
    seq!['T', 'Y', 'P', 'E']
}

pub open spec fn kw_user() -> Seq<char> {
    seq!['U', 'S', 'E', 'R']
}

pub open spec fn kw_pass() -> Seq<char> {
    seq!['P', 'A', 'S', 'S']
}

pub open spec fn kw_pwd() -> Seq<char> {
    seq!['P', 'W', 'D']
}

pub open spec fn kw_list() -> Seq<char> {
    seq!['L', 'I', 'S', 'T']
}

pub open spec fn kw_cwd() -> Seq<char> {
    seq!['C', 'W', 'D']
}

pub open spec fn kw_retr() -> Seq<char> {
    seq!['R', 'E', 'T', 'R']
}

pub open spec fn kw_stor() -> Seq<char> {
    seq!['S', 'T', 'O', 'R']
}

pub open spec fn kw_pasv() -> Seq<char> {
    seq!['P', 'A', 'S', 'V']
}

pub open spec fn kw_rnfr() -> Seq<char> {
    seq!['R', 'N', 'F', 'R']
}

pub open spec fn kw_rnto() -> Seq<char> {
    seq!['R', 'N', 'T', 'O']
}

pub open spec fn kw_mkd() -> Seq<char> {
    seq!['M', 'K', 'D']
}

pub open spec fn kw_dele() -> Seq<char> {
    seq!['D', 'E', 'L', 'E']
}

pub open spec fn kw_rmd() -> Seq<char> {
    seq!['R', 'M', 'D']
}

/// The words of a command line, once its surrounding white space is gone.
pub open spec fn line_words(line: Seq<char>) -> Seq<Seq<char>> {
    words(trim(line))
}

/// The command that a line stands for. The first word selects the command
/// (case matters); commands that take a name use the second word and need
/// one; any further words are ignored. An empty line or an unknown first
/// word is no command.
pub open spec fn parse_spec(line: Seq<char>) -> Option<CommandView> {
    let w = line_words(line);
    if w.len() == 0 {
        None
    } else {
        let k = w[0];
        let has_arg = w.len() >= 2;
        if k == kw_type() {
            Some(CommandView::Type)
        } else if k == kw_pwd() {
            Some(CommandView::Pwd)
        } else if k == kw_list() {
            Some(CommandView::List)
        } else if k == kw_pasv() {
            Some(CommandView::Pasv)
        } else if !has_arg {
            None
        } else if k == kw_user() {
            Some(CommandView::Usr(w[1]))
        } else if k == kw_pass() {
            Some(CommandView::Pass(w[1]))
        } else if k == kw_cwd() {
            Some(CommandView::Cwd(w[1]))
        } else if k == kw_retr() {
            Some(CommandView::Retr(w[1]))
        } else if k == kw_stor() {
            Some(CommandView::Stor(w[1]))
        } else if k == kw_rnfr() {
            Some(CommandView::Rfnr(w[1]))
        } else if k == kw_rnto() {
            Some(CommandView::Rnto(w[1]))
        } else if k == kw_mkd() {
            Some(CommandView::Mkd(w[1]))
        } else if k == kw_dele() {
            Some(CommandView::Dele(w[1]))
        } else if k == kw_rmd() {
            Some(CommandView::Rmd(w[1]))
        } else {
            None
        }
    }
}

/// The view of an optional command.
pub open spec fn command_option_view(c: Option<FtpCommand>) -> Option<CommandView> {
    match c {
        Some(cmd) => Some(cmd@),
        None => None,
    }
}

/// The words of a line, after trimming.
fn line_words_of(line: &str) -> (r: Vec<Vec<char>>)
    ensures
        views_of(r@) == line_words(line@),
{
    let v = chars_of(line);
    let (lo, hi) = trim_bounds(&v);
    split_words(&v, lo, hi)
}

/// The view of a reply that is either a success or a failure text.
pub open spec fn reply_result_view(r: Result<String, String>) -> Result<Seq<char>, Seq<char>> {
    match r {
        Ok(s) => Ok(s@),
        Err(s) => Err(s@),
    }
}

/// The reply to CWD given what is found at the new directory's server path:
/// nothing, something that is not a directory, or a directory.
pub open spec fn cwd_outcome(exists: bool, is_dir: bool) -> Result<Seq<char>, Seq<char>> {
    if !exists {
        Err(DIR_NOT_FOUND@)
    } else if !is_dir {
        Err(NOT_A_DIR@)
    } else {
        Ok(DIR_CHANGED@)
    }
}

/// `Path::exists` on a server path: whether an entry is found there. The
/// answer depends on the disk at the time of the call, so nothing is stated
/// of it.
#[verifier::external_body]
pub(crate) fn path_exists(path: &str) -> bool {
    std::path::Path::new(path).exists()
}

/// `Path::is_dir` on a server path: whether a directory is found there. The
/// answer depends on the disk at the time of the call, so nothing is stated
/// of it.
#[verifier::external_body]
pub(crate) fn path_is_dir(path: &str) -> bool {
    std::path::Path::new(path).is_dir()
}

/// The name of the archive that a directory is sent as: the directory's
/// name (empty when it has none) followed by `.tar`.
pub open spec fn archive_name_spec(dir_path: Seq<char>) -> Seq<char> {
    match file_name(dir_path) {
        Some(n) => n + ".tar"@,
        None => ".tar"@,
    }
}

/// The suffix that names an archive.
pub open spec fn archive_suffix() -> Seq<char> {
    seq!['.', 't', 'a', 'r']
}

/// Whether a stored file is an archive to unpack: the name of its last
/// component ends in `.tar` (the name a directory is sent under).
pub open spec fn is_archive_spec(path: Seq<char>) -> bool {
    match file_name(path) {
        Some(n) => archive_suffix().is_suffix_of(n),
        None => false,
    }
}

impl FtpCommand {
    /// The name of the archive that the directory at `dir_path` is sent as.
    pub fn archive_name(dir_path: &str) -> (r: String)
        ensures
            r@ == archive_name_spec(dir_path@),
    {
        let mut r = match file_name_text(dir_path) {
            Some(n) => n,
            None => String::new(),
        };
        r.append(".tar");
        r
    }

    /// Whether the file stored at `path` is an archive to unpack.
    pub fn stored_file_is_archive(path: &str) -> (b: bool)
        ensures
            b == is_archive_spec(path@),
    {
        match file_name_text(path) {
            Some(n) => {
                let v = chars_of(n.as_str());
                let k = v.len();
                if k < 4 {
                    return false;
                }
                let ends = v[k - 4] == '.' && v[k - 3] == 't' && v[k - 2] == 'a' && v[k - 1] == 'r';
                proof {
                    let suffix = archive_suffix();
                    let tail = v@.subrange(k - 4, k as int);
                    if ends {
                        assert(tail =~= suffix);
                    } else if suffix.is_suffix_of(v@) {
                        assert(tail[0] == v@[k - 4] && tail[1] == v@[k - 3]);
                        assert(tail[2] == v@[k - 2] && tail[3] == v@[k - 1]);
                        assert(tail == suffix);
                    }
                }
                ends
            },
            None => false,
        }
    }

    /// The reply to CWD when the server path of the new directory exists
    /// or not, and is a directory or not.
    pub fn cwd_reply(exists: bool, is_dir: bool) -> (r: Result<String, String>)
        ensures
            reply_result_view(r) == cwd_outcome(exists, is_dir),
    {
        if !exists {
            Err(String::from_str(DIR_NOT_FOUND))
        } else if !is_dir {
            Err(String::from_str(NOT_A_DIR))
        } else {
            Ok(String::from_str(DIR_CHANGED))
        }
    }

    /// Checks the server path of a new working directory: an error reply
    /// when nothing is there or it is not a directory, the success reply
    /// otherwise.
    pub fn ftp_command_cwd(new_path: &str) -> (r: Result<String, String>)
        ensures
            exists|e: bool, d: bool| reply_result_view(r) == #[trigger] cwd_outcome(e, d),
    {
        let e = path_exists(new_path);
        let d = if e {
            path_is_dir(new_path)
        } else {
            false
        };
        let r = Self::cwd_reply(e, d);
        assert(reply_result_view(r) == cwd_outcome(e, d));
        r
    }

    /// Reply to PWD for the given current directory.
    pub fn ftp_command_pwd(path: &str) -> (r: String)
        ensures
            r@ == current_dir_reply(path@),
    {
        current_dir(path)
    }

    /// Reads a line of the control channel as a command.
    pub fn parse_ftp_command(line: &str) -> (r: Option<FtpCommand>)
        ensures
            command_option_view(r) == parse_spec(line@),
    {
        let parts = line_words_of(line);
        let ghost w = views_of(parts@);
        if parts.len() == 0 {
            return None;
        }
        assert(w[0] == parts@[0]@);
        let k = &parts[0];
        if same_chars(k, &vec!['T', 'Y', 'P', 'E']) {
            return Some(FtpCommand::Type);
        }
        if same_chars(k, &vec!['P', 'W', 'D']) {
            return Some(FtpCommand::Pwd);
        }
        if same_chars(k, &vec!['L', 'I', 'S', 'T']) {
            return Some(FtpCommand::List);
        }
        if same_chars(k, &vec!['P', 'A', 'S', 'V']) {
            return Some(FtpCommand::Pasv);
        }
        if parts.len() < 2 {
            return None;
        }
        assert(w[1] == parts@[1]@);
        let arg = string_of(&parts[1]);
        if same_chars(k, &vec!['U', 'S', 'E', 'R']) {
            Some(FtpCommand::Usr(arg))
        } else if same_chars(k, &vec!['P', 'A', 'S', 'S']) {
            Some(FtpCommand::Pass(arg))
        } else if same_chars(k, &vec!['C', 'W', 'D']) {
            Some(FtpCommand::Cwd(arg))
        } else if same_chars(k, &vec!['R', 'E', 'T', 'R']) {
            Some(FtpCommand::Retr(arg))
        } else if same_chars(k, &vec!['S', 'T', 'O', 'R']) {
            Some(FtpCommand::Stor(arg))
        } else if same_chars(k, &vec!['R', 'N', 'F', 'R']) {
            Some(FtpCommand::Rfnr(arg))
        } else if same_chars(k, &vec!['R', 'N', 'T', 'O']) {
            Some(FtpCommand::Rnto(arg))
        } else if same_chars(k, &vec!['M', 'K', 'D']) {
            Some(FtpCommand::Mkd(arg))
        } else if same_chars(k, &vec!['D', 'E', 'L', 'E']) {
            Some(FtpCommand::Dele(arg))
        } else if same_chars(k, &vec!['R', 'M', 'D']) {
            Some(FtpCommand::Rmd(arg))
        } else {
            None
        }
    }
}

} // verus!
