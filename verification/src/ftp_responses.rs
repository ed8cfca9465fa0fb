//! The reply texts that the server sends on the control channel.
use vstd::prelude::*;
use vstd::string::*;
use crate::text::{decimal, push_decimal};

verus! {

pub const OPENING_DATA: &'static str = "150 Opening data connection.\r\n";

pub const WELCOME: &'static str = "220 Welcome to Rust FTP Server\r\n";

pub const LOGIN_SUCCESS: &'static str = "230 User logged in.\r\n";

pub const TRANSFER_COMPLETE: &'static str = "226 Transfer complete.\r\n";

pub const DIR_CHANGED: &'static str = "250 Directory successfully changed.\r\n";

pub const PASV_MODE: &'static str = "227 Entering Passive Mode\r\n";

pub const RFNR: &'static str = "350 File exists and ready to be modified\r\n";

pub const FILE_RENAMED: &'static str = "250 File renamed with success\r\n";

pub const FILE_DELETED: &'static str = "250 File deleted successfully\r\n";

pub const USE_PASV_FIRST: &'static str = "425 Use PASV first.\r\n";

pub const DATA_CONNECTION_FAILED: &'static str = "425 Can’t Open Data Connection.\r\n";

pub const FILE_NOT_FOUND: &'static str = "550 File not found.\r\n";

pub const NOT_A_DIR: &'static str = "550 Not a directory.\r\n";

pub const DIR_NOT_FOUND: &'static str = "550 Directory does not exist.\r\n";

pub const FAILED_PASV: &'static str = "500 Failed to enter passive mode";

pub const UNKNOWN_CMD: &'static str = "500 Unknown command.\r\n";

pub const RNTO_ERROR: &'static str = "550 File renamed failed\r\n";

pub const DIR_ALREADY_EXISTS: &'static str = "500 Directory already exists.\r\n";

pub const TYPE_SET: &'static str = "200 Type set OK.\r\n";

/// A path as the client sees it: with a leading `/` added when it has none.
pub open spec fn rooted(path: Seq<char>) -> Seq<char> {
    if path.len() > 0 && path[0] == '/' {
        path
    } else {
        seq!['/'] + path
    }
}

/// The text of the USER reply.
pub open spec fn user_ok_reply(username: Seq<char>) -> Seq<char> {
    "331 User "@ + username + " OK. Password required.\r\n"@
}

/// The text of the reply when passive mode fails, with the reason.
pub open spec fn failed_pasv_reply(msg: Seq<char>) -> Seq<char> {
    "500 Failed to enter passive mode: "@ + msg + "\r\n"@
}

/// The text of the reply when a command fails inside the server.
pub open spec fn internal_error_reply(msg: Seq<char>) -> Seq<char> {
    "500 Internal error: "@ + msg + "\r\n"@
}

/// The text of the PASV reply for the port halves `p1` and `p2`.
pub open spec fn pasv_mode_reply(p1: nat, p2: nat) -> Seq<char> {
    "227 Entering Passif Mode (127,0,0,1,"@ + decimal(p1) + ","@ + decimal(p2) + ").\r\n"@
}

/// The text of the MKD reply.
pub open spec fn mkd_ok_reply(dirname: Seq<char>) -> Seq<char> {
    "257 "@ + dirname + " created.\r\n"@
}

/// The text of the RMD reply.
pub open spec fn mkd_del_reply(dirname: Seq<char>) -> Seq<char> {
    "257 "@ + dirname + " deleted.\r\n"@
}

/// The text of the PWD reply for `path`.
pub open spec fn current_dir_reply(path: Seq<char>) -> Seq<char> {
    "257 \""@ + rooted(path) + "\" is the current directory.\r\n"@
}

/// Reply to PWD: the current directory, quoted, always shown from the root.
pub fn current_dir(path: &str) -> (r: String)
    ensures
        r@ == current_dir_reply(path@),
{
    let mut r = String::from_str("257 \"");
    let n = path.unicode_len();
    if n == 0 || path.get_char(0) != '/' {
        r.push('/');
    }
    r.append(path);
    r.append("\" is the current directory.\r\n");
    r
}

/// Reply to USER: the name is accepted and a password is asked for.
pub fn user_ok(username: &str) -> (r: String)
    ensures
        r@ == user_ok_reply(username@),
{
    let mut r = String::from_str("331 User ");
    r.append(username);
    r.append(" OK. Password required.\r\n");
    r
}

/// Reply when passive mode could not be entered.
pub fn failed_pasv(msg: &str) -> (r: String)
    ensures
        r@ == failed_pasv_reply(msg@),
{
    let mut r = String::from_str("500 Failed to enter passive mode: ");
    r.append(msg);
    r.append("\r\n");
    r
}

/// Reply when a command failed inside the server.
pub fn internal_error(msg: &str) -> (r: String)
    ensures
        r@ == internal_error_reply(msg@),
{
    let mut r = String::from_str("500 Internal error: ");
    r.append(msg);
    r.append("\r\n");
    r
}

/// Reply to PASV: the data port is `p1 * 256 + p2` on the loopback address.
pub fn pasv_mode(p1: u16, p2: u16) -> (r: String)
    ensures
        r@ == pasv_mode_reply(p1 as nat, p2 as nat),
{
    let mut r = String::from_str("227 Entering Passif Mode (127,0,0,1,");
    push_decimal(&mut r, p1 as u64);
    r.append(",");
    push_decimal(&mut r, p2 as u64);
    r.append(").\r\n");
    r
}

/// Reply to MKD: the directory was created.
pub fn mkd_ok(dirname: &str) -> (r: String)
    ensures
        r@ == mkd_ok_reply(dirname@),
{
    let mut r = String::from_str("257 ");
    r.append(dirname);
    r.append(" created.\r\n");
    r
}

/// Reply to RMD: the directory was removed.
pub fn mkd_del(dirname: &str) -> (r: String)
    ensures
        r@ == mkd_del_reply(dirname@),
{
    let mut r = String::from_str("257 ");
    r.append(dirname);
    r.append(" deleted.\r\n");
    r
}

} // verus!
