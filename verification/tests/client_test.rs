use ftp_server::client::{Effect, FtpClient, Outcome};
use ftp_server::commands::{DataChannelFunction, FtpCommand};
use ftp_server::user_session::UserSession;
use std::path::PathBuf;
use tempfile::TempDir;

fn client_at(dir: &str) -> FtpClient {
    FtpClient::new(UserSession::init_id_dir(1, dir.to_string()))
}

/// Answers a probe by looking at the disk, as the server does.
fn answer(client: &mut FtpClient, effect: Effect) -> Effect {
    match effect {
        Effect::Probe(path) => {
            let p = std::path::Path::new(&path);
            client.resume(Outcome::Probed(p.exists(), p.is_dir()))
        }
        other => other,
    }
}

fn reply(text: &str) -> Effect {
    Effect::Reply(text.to_string())
}

#[test]
fn test_resolve_path_root() {
    let client = client_at("./ftp_root");
    let result = client.resolve_path();
    assert_eq!(PathBuf::from(result), PathBuf::from("./ftp_root"));
}

#[test]
fn test_resolve_any_path_absolute() {
    let client = client_at("./ftp_root");
    let virtual_path = PathBuf::from("/photos");
    let result = client.resolve_any_path(virtual_path.to_str().unwrap());
    assert!(result.contains("ftp_root"));
    assert!(result.contains("photos"));
}

#[test]
fn test_absolute_or_relative_absolute() {
    let client = client_at("./ftp_root");
    let result = client.absolute_or_relative("/test.txt".to_string());
    assert_eq!(PathBuf::from(result), PathBuf::from("/test.txt"));
}

#[test]
fn test_absolute_or_relative_relative() {
    let client = client_at("./ftp_root");
    let result = client.absolute_or_relative("test.txt".to_string());
    assert!(result.contains("test.txt"));
}

#[test]
fn test_setup_passive_mode_opens_port() {
    let mut client = client_at("./ftp_root");
    assert_eq!(client.handle_command(FtpCommand::Pasv), Effect::OpenPassive);
    let result = client.resume(Outcome::PassiveOpened(50234));
    assert_eq!(result, reply("227 Entering Passif Mode (127,0,0,1,196,58).\r\n"));
    assert!(client.passive_open());
}

#[test]
fn test_passive_mode_calculates_port() {
    let port: u16 = 50234;
    let p1 = port / 256;
    let p2 = port % 256;

    assert_eq!(p1, 196);
    assert_eq!(p2, 58);

    let reconstructed_port = (p1 as u16) * 256 + (p2 as u16);
    assert_eq!(reconstructed_port, port);
}

#[test]
fn test_handle_command_type() {
    let mut client = client_at("./ftp_root");
    let result = client.handle_command(FtpCommand::Type);
    assert_eq!(result, reply("200 Type set OK.\r\n"));
}

#[test]
fn user_and_pass_are_recorded() {
    let mut client = client_at("./ftp_root");
    assert_eq!(
        client.handle_command(FtpCommand::Usr("alice".to_string())),
        reply("331 User alice OK. Password required.\r\n")
    );
    assert_eq!(
        client.handle_command(FtpCommand::Pass("pw".to_string())),
        reply("230 User logged in.\r\n")
    );
    assert_eq!(client.session().usr, "alice");
    assert_eq!(client.session().pwd, "pw");
}

#[test]
fn unknown_line_is_answered() {
    let mut client = client_at("./ftp_root");
    assert_eq!(client.handle_line("HELLO there"), reply("500 Unknown command.\r\n"));
    assert_eq!(client.handle_line("PWD\r\n"), reply("257 \"/\" is the current directory.\r\n"));
}

#[test]
fn cwd_then_pwd_shows_new_directory() {
    let root = TempDir::new().unwrap();
    let _docs = tempfile::Builder::new().prefix("docs").rand_bytes(0).tempdir_in(root.path()).unwrap();
    let mut client = client_at(root.path().to_str().unwrap());
    let probe = client.handle_command(FtpCommand::Cwd("docs".to_string()));
    assert_eq!(probe, Effect::Probe(format!("{}/docs", root.path().to_str().unwrap())));
    assert!(!client.ready_for_command());
    assert_eq!(answer(&mut client, probe), reply("250 Directory successfully changed.\r\n"));
    assert_eq!(
        client.handle_command(FtpCommand::Pwd),
        reply("257 \"/docs\" is the current directory.\r\n")
    );
    let probe = client.handle_command(FtpCommand::Cwd("missing".to_string()));
    assert_eq!(answer(&mut client, probe), reply("550 Directory does not exist.\r\n"));
    assert_eq!(client.session().current_dir, "/docs");
}

#[test]
fn apply_command_cwd_decides_from_the_probe() {
    let mut client = client_at("./srv");
    assert_eq!(
        client.apply_command(FtpCommand::Cwd("a".to_string()), true, false),
        reply("550 Not a directory.\r\n")
    );
    assert_eq!(client.session().current_dir, "/");
    assert_eq!(
        client.apply_command(FtpCommand::Cwd("a".to_string()), true, true),
        reply("250 Directory successfully changed.\r\n")
    );
    assert_eq!(client.session().current_dir, "/a");
    assert_eq!(client.resolve_path(), "./srv/a");
}

#[test]
fn transfer_needs_pasv_first() {
    let mut client = client_at("./srv");
    assert_eq!(
        client.apply_command(FtpCommand::Stor("up.txt".to_string()), false, false),
        reply("425 Use PASV first.\r\n")
    );
    assert!(client.ready_for_command());
    assert_eq!(
        client.apply_command(FtpCommand::Retr("x".to_string()), false, false),
        reply("550 File not found.\r\n")
    );
}

#[test]
fn transfer_uses_up_the_listener() {
    let mut client = client_at("./srv");
    client.apply_command(FtpCommand::Pasv, false, false);
    client.resume(Outcome::PassiveOpened(2000));
    assert_eq!(
        client.apply_command(FtpCommand::Retr("/a.txt".to_string()), true, false),
        Effect::Transfer(
            "150 Opening data connection.\r\n".to_string(),
            DataChannelFunction::SendFile("./srv/a.txt".to_string())
        )
    );
    assert!(!client.ready_for_command());
    assert_eq!(client.resume(Outcome::Done), reply("226 Transfer complete.\r\n"));
    assert!(!client.passive_open());
    assert!(client.ready_for_command());
}

#[test]
fn failed_transfer_keeps_the_listener() {
    let mut client = client_at("./srv");
    client.apply_command(FtpCommand::Pasv, false, false);
    client.resume(Outcome::PassiveOpened(2000));
    client.apply_command(FtpCommand::Stor("b".to_string()), false, false);
    assert_eq!(
        client.resume(Outcome::Failed("broken pipe".to_string())),
        reply("500 Internal error: broken pipe\r\n")
    );
    assert!(client.passive_open());
}

#[test]
fn list_goes_through_listing_then_transfer() {
    let mut client = client_at("./srv");
    assert_eq!(
        client.apply_command(FtpCommand::List, false, false),
        Effect::ListDirectory("./srv/".to_string())
    );
    assert_eq!(client.resume(Outcome::Listed("x\r\n".to_string())), reply("425 Use PASV first.\r\n"));
    client.apply_command(FtpCommand::Pasv, false, false);
    client.resume(Outcome::PassiveOpened(1));
    client.apply_command(FtpCommand::List, false, false);
    assert_eq!(
        client.resume(Outcome::Listed("x\r\n".to_string())),
        Effect::Transfer(
            "150 Opening data connection.\r\n".to_string(),
            DataChannelFunction::SendListing("x\r\n".to_string())
        )
    );
}

#[test]
fn pasv_failures() {
    let mut client = client_at("./srv");
    client.apply_command(FtpCommand::Pasv, false, false);
    assert_eq!(
        client.resume(Outcome::PassiveFailed(false)),
        reply("500 Failed to enter passive mode: Error while connecting to server\r\n")
    );
    assert!(!client.passive_open());
    client.apply_command(FtpCommand::Pasv, false, false);
    client.resume(Outcome::PassiveFailed(true));
    assert!(client.passive_open());
}

#[test]
fn rename_after_rnfr() {
    let mut client = client_at("./srv");
    assert_eq!(
        client.apply_command(FtpCommand::Rnto("b".to_string()), false, false),
        Effect::NoReply
    );
    assert_eq!(
        client.apply_command(FtpCommand::Rfnr("a".to_string()), false, false),
        reply("550 File not found.\r\n")
    );
    assert_eq!(
        client.apply_command(FtpCommand::Rfnr("a".to_string()), true, false),
        reply("350 File exists and ready to be modified\r\n")
    );
    assert_eq!(
        client.apply_command(FtpCommand::Rnto("b".to_string()), false, false),
        Effect::Rename("./srv/a".to_string(), "./srv/b".to_string())
    );
    assert_eq!(client.resume(Outcome::Done), reply("250 File renamed with success\r\n"));
    client.apply_command(FtpCommand::Rnto("c".to_string()), false, false);
    assert_eq!(client.resume(Outcome::Failed("no".to_string())), reply("550 File renamed failed\r\n"));
}

#[test]
fn mkd_dele_rmd() {
    let mut client = client_at("./srv");
    assert_eq!(
        client.apply_command(FtpCommand::Mkd("new".to_string()), false, false),
        Effect::CreateDir("./srv/new".to_string())
    );
    assert_eq!(client.resume(Outcome::Done), reply("257 /new created.\r\n"));
    client.apply_command(FtpCommand::Mkd("new".to_string()), false, false);
    assert_eq!(client.resume(Outcome::Failed("e".to_string())), reply("500 Directory already exists.\r\n"));

    assert_eq!(client.apply_command(FtpCommand::Dele("f".to_string()), false, false), Effect::NoReply);
    assert_eq!(
        client.apply_command(FtpCommand::Dele("f".to_string()), true, false),
        Effect::RemoveFile("./srv/f".to_string())
    );
    assert_eq!(client.resume(Outcome::Done), reply("250 File deleted successfully\r\n"));
    client.apply_command(FtpCommand::Dele("f".to_string()), true, false);
    assert_eq!(client.resume(Outcome::Failed("e".to_string())), reply("550 File not found.\r\n"));

    assert_eq!(client.apply_command(FtpCommand::Rmd("d".to_string()), false, false), Effect::NoReply);
    assert_eq!(
        client.apply_command(FtpCommand::Rmd("d".to_string()), true, true),
        Effect::RemoveDir("./srv/d".to_string())
    );
    assert_eq!(client.resume(Outcome::Done), reply("257 /d deleted.\r\n"));
    client.apply_command(FtpCommand::Rmd("d".to_string()), true, true);
    assert_eq!(client.resume(Outcome::Failed("e".to_string())), reply("550 Directory does not exist.\r\n"));
}

#[test]
fn listing_failure_is_an_internal_error() {
    let mut client = client_at("./srv");
    client.apply_command(FtpCommand::List, false, false);
    assert_eq!(
        client.resume(Outcome::Failed("No such file or directory (os error 2)".to_string())),
        reply("500 Internal error: No such file or directory (os error 2)\r\n")
    );
}

#[test]
fn unexpected_outcome_changes_nothing() {
    let mut client = client_at("./srv");
    assert_eq!(client.resume(Outcome::Done), Effect::NoReply);
    assert!(client.ready_for_command());
}

#[test]
fn server_paths_stay_under_starting_dir() {
    let client = client_at("./srv");
    for p in ["/a", "b", "//c/./", "/", "", "../up"] {
        assert!(client.resolve_any_path(p).starts_with("./srv"), "{}", p);
    }
}

#[test]
fn parent_components_stay_inside() {
    let client = client_at("./srv");
    assert_eq!(client.resolve_any_path("/../etc"), "./srv/etc");
    assert_eq!(client.resolve_any_path("/../etc/passwd"), "./srv/etc/passwd");
    assert_eq!(client.resolve_any_path("a/../../b"), "./srv/b");
    assert_eq!(client.absolute_or_relative("..".to_string()), "/..");
    let mut client = client_at("./srv");
    client.apply_command(FtpCommand::Cwd("..".to_string()), true, true);
    assert_eq!(client.resolve_path(), "./srv/");
    assert_eq!(
        client.apply_command(FtpCommand::Retr("../../secret".to_string()), true, false),
        reply("425 Use PASV first.\r\n")
    );
    assert_eq!(
        client.apply_command(FtpCommand::Mkd("../x".to_string()), false, false),
        Effect::CreateDir("./srv/x".to_string())
    );
}

#[test]
fn commands_that_need_the_disk_probe_their_server_path() {
    let mut client = client_at("./srv");
    client.apply_command(FtpCommand::Cwd("d".to_string()), true, true);
    for (cmd, path) in [
        (FtpCommand::Retr("a".to_string()), "./srv/d/a"),
        (FtpCommand::Rfnr("/b".to_string()), "./srv/b"),
        (FtpCommand::Dele("../c".to_string()), "./srv/c"),
        (FtpCommand::Rmd("e/".to_string()), "./srv/d/e"),
        (FtpCommand::Cwd("f".to_string()), "./srv/d/f"),
    ] {
        assert_eq!(client.probe_path(&cmd), Some(path.to_string()));
        assert_eq!(client.handle_command(cmd), Effect::Probe(path.to_string()));
        assert_eq!(client.resume(Outcome::Probed(false, false)) == Effect::NoReply, path.contains("srv/c") || path.contains("srv/d/e"));
    }
    assert_eq!(client.probe_path(&FtpCommand::Stor("x".to_string())), None);
}

#[test]
fn probed_retr_starts_a_transfer() {
    let mut client = client_at("./srv");
    client.handle_command(FtpCommand::Pasv);
    client.resume(Outcome::PassiveOpened(7));
    assert_eq!(client.handle_command(FtpCommand::Retr("a".to_string())), Effect::Probe("./srv/a".to_string()));
    assert_eq!(client.resume(Outcome::Done), Effect::NoReply);
    assert_eq!(
        client.resume(Outcome::Probed(true, false)),
        Effect::Transfer(
            "150 Opening data connection.\r\n".to_string(),
            DataChannelFunction::SendFile("./srv/a".to_string())
        )
    );
}

#[test]
fn greeting_welcomes() {
    assert_eq!(FtpClient::greeting(), reply("220 Welcome to Rust FTP Server\r\n"));
}

#[test]
fn verb_alone_is_unknown() {
    let mut client = client_at("./srv");
    assert_eq!(client.handle_line("RNFR\r\n"), reply("500 Unknown command.\r\n"));
    assert_eq!(client.handle_line("RNTO"), reply("500 Unknown command.\r\n"));
}

#[test]
fn current_dir_keeps_its_root() {
    let mut client = client_at("./srv");
    client.apply_command(FtpCommand::Cwd("a/b".to_string()), true, true);
    assert_eq!(client.session().current_dir, "/a/b");
    client.apply_command(FtpCommand::Cwd("/x".to_string()), true, true);
    assert_eq!(client.session().current_dir, "/x");
    client.apply_command(FtpCommand::Cwd("y/".to_string()), true, true);
    assert_eq!(client.session().current_dir, "/x/y/");
    assert_eq!(client.resolve_path(), "./srv/x/y");
}
