use ftp_server::commands::FtpCommand;
use ftp_server::listing::{clean_name_text, listable_entries, listing_date, remove_char, ListingEntry};
use std::time::UNIX_EPOCH;

/// A current time for the listings: 14 November 2023, 22:13:20 UTC.
const NOW: (i64, u32) = (1_700_000_000, 0);
use std::io::Write;
use std::path::PathBuf;
use tempfile::{Builder, NamedTempFile, TempDir};

/// A file with exactly the given name and contents inside `dir`.
fn file_in(dir: &TempDir, name: &str, contents: &str) -> NamedTempFile {
    let mut file = Builder::new().prefix(name).rand_bytes(0).tempfile_in(dir.path()).unwrap();
    file.write_all(contents.as_bytes()).unwrap();
    file.flush().unwrap();
    file
}

/// The listing entry of a file made by `file_in`.
fn entry_of(file: &NamedTempFile) -> ListingEntry {
    let metadata = file.as_file().metadata().unwrap();
    ListingEntry {
        name: file.path().file_name().unwrap().to_str().unwrap().to_string(),
        is_dir: metadata.is_dir(),
        size: metadata.len(),
        modified: metadata.modified().ok().map(|t| {
            let d = t.duration_since(UNIX_EPOCH).unwrap();
            (d.as_secs() as i64, d.subsec_nanos())
        }),
    }
}

#[test]
fn test_parse_user() {
    let result = FtpCommand::parse_ftp_command("USER alice");
    assert!(result.is_some());
}

#[test]
fn test_parse_list() {
    let result = FtpCommand::parse_ftp_command("LIST");
    assert!(result.is_some());
}

#[test]
fn test_parse_pwd() {
    let result = FtpCommand::parse_ftp_command("PWD");
    assert!(result.is_some());
}

#[test]
fn test_pwd() {
    let path = PathBuf::from("/test");
    let result = FtpCommand::ftp_command_pwd(path.to_str().unwrap());
    assert!(result.contains("257"));
}

#[test]
fn test_cwd_success() {
    let temp_dir = TempDir::new().unwrap();
    let result = FtpCommand::ftp_command_cwd(temp_dir.path().to_str().unwrap());
    assert!(result.is_ok());
}

#[test]
fn test_cwd_not_exists() {
    let path = PathBuf::from("/inexistant999");
    let result = FtpCommand::ftp_command_cwd(path.to_str().unwrap());
    assert!(result.is_err());
}

#[test]
fn test_list_empty() {
    let entries: Vec<ListingEntry> = Vec::new();
    let result = FtpCommand::ftp_command_list(&entries, NOW);
    assert_eq!(result, "");
}

#[test]
fn test_list_with_files() {
    let temp_dir = TempDir::new().unwrap();
    let file = file_in(&temp_dir, "test.txt", "hello");
    let result = FtpCommand::ftp_command_list(&vec![entry_of(&file)], NOW);
    assert!(result.contains("test.txt"));
}

#[test]
fn parse_every_command() {
    let cases: Vec<(&str, FtpCommand)> = vec![
        ("TYPE I", FtpCommand::Type),
        ("USER alice", FtpCommand::Usr("alice".to_string())),
        ("PASS secret", FtpCommand::Pass("secret".to_string())),
        ("PWD", FtpCommand::Pwd),
        ("LIST", FtpCommand::List),
        ("CWD docs", FtpCommand::Cwd("docs".to_string())),
        ("RETR a.txt", FtpCommand::Retr("a.txt".to_string())),
        ("STOR b.txt", FtpCommand::Stor("b.txt".to_string())),
        ("PASV", FtpCommand::Pasv),
        ("RNFR old", FtpCommand::Rfnr("old".to_string())),
        ("RNTO new", FtpCommand::Rnto("new".to_string())),
        ("MKD d", FtpCommand::Mkd("d".to_string())),
        ("DELE f", FtpCommand::Dele("f".to_string())),
        ("RMD d", FtpCommand::Rmd("d".to_string())),
    ];
    for (line, expected) in cases {
        assert_eq!(FtpCommand::parse_ftp_command(line), Some(expected), "{}", line);
    }
}

#[test]
fn parse_ignores_surrounding_white_space_and_extra_words() {
    assert_eq!(
        FtpCommand::parse_ftp_command("  \tUSER   bob  extra\r\n"),
        Some(FtpCommand::Usr("bob".to_string()))
    );
    assert_eq!(FtpCommand::parse_ftp_command("PWD\r\n"), Some(FtpCommand::Pwd));
    assert_eq!(
        FtpCommand::parse_ftp_command("CWD\u{3000}dir\u{a0}"),
        Some(FtpCommand::Cwd("dir".to_string()))
    );
}

#[test]
fn parse_refuses_unknown_empty_and_missing_arguments() {
    assert_eq!(FtpCommand::parse_ftp_command(""), None);
    assert_eq!(FtpCommand::parse_ftp_command("   \r\n"), None);
    assert_eq!(FtpCommand::parse_ftp_command("NOOP"), None);
    assert_eq!(FtpCommand::parse_ftp_command("user alice"), None);
    assert_eq!(FtpCommand::parse_ftp_command("USER"), None);
    assert_eq!(FtpCommand::parse_ftp_command("RETR"), None);
    assert_eq!(FtpCommand::parse_ftp_command("MKD \r\n"), None);
}

#[test]
fn verbs_without_their_name_are_no_command() {
    for verb in ["USER", "PASS", "CWD", "RETR", "STOR", "RNFR", "RNTO", "MKD", "DELE", "RMD"] {
        assert_eq!(FtpCommand::parse_ftp_command(verb), None, "{}", verb);
        assert_eq!(FtpCommand::parse_ftp_command(&format!("  {} \r\n", verb)), None, "{}", verb);
    }
}

#[test]
fn cwd_replies() {
    assert_eq!(
        FtpCommand::cwd_reply(false, false),
        Err("550 Directory does not exist.\r\n".to_string())
    );
    assert_eq!(FtpCommand::cwd_reply(true, false), Err("550 Not a directory.\r\n".to_string()));
    assert_eq!(
        FtpCommand::cwd_reply(true, true),
        Ok("250 Directory successfully changed.\r\n".to_string())
    );
}

#[test]
fn cwd_on_a_file_is_not_a_directory() {
    let temp_dir = TempDir::new().unwrap();
    let file = file_in(&temp_dir, "f.txt", "x");
    assert_eq!(
        FtpCommand::ftp_command_cwd(file.path().to_str().unwrap()),
        Err("550 Not a directory.\r\n".to_string())
    );
}

#[test]
fn pwd_reply_is_rooted() {
    assert_eq!(
        FtpCommand::ftp_command_pwd("/test"),
        "257 \"/test\" is the current directory.\r\n"
    );
    assert_eq!(
        FtpCommand::ftp_command_pwd("docs"),
        "257 \"/docs\" is the current directory.\r\n"
    );
}

#[test]
fn listing_line_shape() {
    let temp_dir = TempDir::new().unwrap();
    let file = file_in(&temp_dir, "test.txt", "hello");
    let sub = ListingEntry { name: "sub".to_string(), is_dir: true, size: 4096, modified: None };
    let result = FtpCommand::ftp_command_list(&vec![entry_of(&file), sub], NOW);
    let lines: Vec<&str> = result.split("\r\n").filter(|l| !l.is_empty()).collect();
    assert_eq!(lines.len(), 2);
    for line in lines {
        if line.ends_with("test.txt") {
            assert!(line.starts_with("-rw-r--r--    1 owner    group 5 "));
        } else {
            assert!(line.starts_with("drwxr-xr-x    1 owner    group 4096 "));
            assert!(line.ends_with(" sub"));
        }
    }
}

#[test]
fn listing_date_has_listing_shape() {
    for date in [
        listing_date(None, NOW),
        listing_date(Some((0, 0)), NOW),
        listing_date(Some((-86_400 * 400, 5)), NOW),
        listing_date(Some((8_210_266_790_399, 0)), NOW),
        listing_date(Some((-8_334_601_228_800, 0)), NOW),
    ] {
        check_listing_date(&date);
    }
}

#[test]
fn listable_times() {
    let entry = |m| ListingEntry { name: "f".to_string(), is_dir: false, size: 0, modified: m };
    assert!(listable_entries(&vec![entry(None), entry(Some((1_700_000_000, 0)))], NOW));
    assert!(!listable_entries(&vec![entry(Some((i64::MAX, 0)))], NOW));
    assert!(!listable_entries(&vec![entry(Some((0, 1_000_000_000)))], NOW));
    assert!(listable_entries(&vec![entry(Some((-8_334_601_228_800, 999_999_999)))], NOW));
    assert!(listable_entries(&vec![entry(Some((8_210_266_790_399, 0)))], NOW));
    assert!(!listable_entries(&vec![entry(Some((8_210_266_790_400, 0)))], NOW));
    assert!(!listable_entries(&vec![entry(Some((-8_334_601_228_801, 0)))], NOW));
}

fn check_listing_date(date: &str) {
    let chars: Vec<char> = date.chars().collect();
    assert_eq!(chars.len(), 12);
    assert_eq!(chars[3], ' ');
    assert_eq!(chars[6], ' ');
    assert_eq!(chars[9], ':');
    let months = ["Jan", "Feb", "Mar", "Apr", "May", "Jun", "Jul", "Aug", "Sep", "Oct", "Nov", "Dec"];
    assert!(months.contains(&&date[0..3]));
}

#[test]
fn listed_names_are_trimmed() {
    assert_eq!(clean_name_text("\"quoted\""), "quoted");
    assert_eq!(clean_name_text("\\/name/\\"), "name");
    assert_eq!(clean_name_text("in\"side"), "in\"side");
    assert_eq!(remove_char("a\u{a0}b\u{a0}", '\u{a0}'), "ab");
}

#[test]
fn archive_names() {
    assert_eq!(FtpCommand::archive_name("./root/photos"), "photos.tar");
    assert_eq!(FtpCommand::archive_name("./root/photos/"), "photos.tar");
    assert_eq!(FtpCommand::archive_name("/"), ".tar");
    assert!(FtpCommand::stored_file_is_archive("./root/.tar"));
    assert!(FtpCommand::stored_file_is_archive("./root/photos.tar"));
    assert!(FtpCommand::stored_file_is_archive("photos.tar/"));
    assert!(!FtpCommand::stored_file_is_archive("./root/photos.tar.gz"));
    assert!(!FtpCommand::stored_file_is_archive("./root/tar"));
    assert!(!FtpCommand::stored_file_is_archive("/"));
}

#[test]
fn a_sent_directory_is_unpacked_when_stored() {
    let name = FtpCommand::archive_name("./root/photos");
    assert!(FtpCommand::stored_file_is_archive(&format!("./other/{}", name)));
}

#[test]
fn listing_dates_are_written_as_chrono_writes_them() {
    for (y, mo, d, h, mi) in [(2024, 1, 5, 0, 7), (1999, 12, 31, 23, 59), (2001, 7, 8, 12, 30)] {
        let dt = chrono::NaiveDate::from_ymd_opt(y, mo, d).unwrap().and_hms_opt(h, mi, 0).unwrap();
        assert_eq!(
            ftp_server::listing::format_listing_date(mo, d, h, mi),
            dt.format("%b %d %H:%M").to_string()
        );
    }
}

#[test]
fn listing_date_is_the_local_date_of_the_time() {
    for secs in [0i64, 1_700_000_000, -86_400 * 400 + 59, 951_782_400] {
        let expected = chrono::DateTime::from_timestamp(secs, 0)
            .unwrap()
            .with_timezone(&chrono::Local)
            .format("%b %d %H:%M")
            .to_string();
        assert_eq!(listing_date(Some((secs, 0)), NOW), expected, "{}", secs);
    }
    assert_eq!(listing_date(None, (1_700_000_000, 0)), listing_date(Some((1_700_000_000, 7)), NOW));
}

#[test]
fn current_time_must_be_listable() {
    let entries: Vec<ListingEntry> = Vec::new();
    assert!(listable_entries(&entries, NOW));
    assert!(!listable_entries(&entries, (i64::MIN, 0)));
}
