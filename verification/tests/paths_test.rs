use ftp_server::paths::{file_name_text, has_root_text, join_names_text, lexical_names_of, push_path_text};
use ftp_server::text::{chars_of, split_words, trim_bounds};
use std::path::{Path, PathBuf};

#[test]
fn push_agrees_with_pathbuf() {
    let cases = [
        ("./root", "a"),
        ("./root/", "a"),
        ("", "a"),
        ("./root", "/abs"),
        ("./root", ""),
        ("/", "x/y"),
    ];
    for (base, p) in cases {
        let mut expected = PathBuf::from(base);
        expected.push(p);
        assert_eq!(push_path_text(base, p), expected.to_str().unwrap(), "{} {}", base, p);
    }
}

fn resolved(p: &str) -> String {
    join_names_text(&lexical_names_of(p))
}

#[test]
fn dot_components_resolve_by_their_text() {
    assert_eq!(resolved("/a/b"), "a/b");
    assert_eq!(resolved("/"), "");
    assert_eq!(resolved("//a/./b//"), "a/b");
    assert_eq!(resolved("/a/../b"), "b");
    assert_eq!(resolved("/../../etc/passwd"), "etc/passwd");
    assert_eq!(resolved("a/b/../../.."), "");
    assert_eq!(resolved("..."), "...");
    assert_eq!(resolved("/a/.../.b"), "a/.../.b");
}

#[test]
fn file_name_agrees_with_path() {
    for p in ["/a/b", "/", "a/", "a/..", ".", "./x/.", "", "x.tar", "/a/b/./"] {
        let expected = Path::new(p).file_name().map(|n| n.to_str().unwrap().to_string());
        assert_eq!(file_name_text(p), expected, "{}", p);
    }
}

#[test]
fn roots() {
    assert!(has_root_text("/x"));
    assert!(!has_root_text("x"));
    assert!(!has_root_text(""));
}

#[test]
fn words_agree_with_split_whitespace() {
    for line in ["  USER  alice \r\n", "", "   ", "a\u{2003}b\tc", "\u{85}x"] {
        let v = chars_of(line);
        let (lo, hi) = trim_bounds(&v);
        let words: Vec<String> = split_words(&v, lo, hi).iter().map(|w| w.iter().collect()).collect();
        let expected: Vec<String> = line.trim().split_whitespace().map(|s| s.to_string()).collect();
        assert_eq!(words, expected, "{:?}", line);
    }
}

/// Without `..`, a resolved server path names the same components as
/// `PathBuf::push` of `Path::strip_prefix("/")` gives (trailing separators
/// and `.` components go in both).
#[test]
fn resolution_without_parents_names_what_std_names() {
    assert_eq!(Path::new("/f.txt/").strip_prefix("/").unwrap().to_str().unwrap(), "f.txt");
    let session = ftp_server::user_session::UserSession::init_id_dir(1, "./srv".to_string());
    let client = ftp_server::client::FtpClient::new(session);
    for p in ["/f.txt/", "/a/./b", "/a//b/.", "/", "//x", "/a/b/"] {
        let mut std_path = PathBuf::from("./srv");
        std_path.push(Path::new(p).strip_prefix("/").unwrap());
        assert_eq!(PathBuf::from(client.resolve_any_path(p)), std_path, "{}", p);
    }
}
