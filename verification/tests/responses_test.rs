use ftp_server::errors::ErrorsData;
use ftp_server::ftp_responses::{
    current_dir, failed_pasv, internal_error, mkd_del, mkd_ok, pasv_mode, user_ok, WELCOME,
};
use ftp_server::listener::listen_address;
use ftp_server::text::push_decimal;

#[test]
fn reply_texts() {
    assert_eq!(current_dir("/a b"), "257 \"/a b\" is the current directory.\r\n");
    assert_eq!(current_dir(""), "257 \"/\" is the current directory.\r\n");
    assert_eq!(user_ok("bob"), "331 User bob OK. Password required.\r\n");
    assert_eq!(failed_pasv("x"), "500 Failed to enter passive mode: x\r\n");
    assert_eq!(internal_error("boom"), "500 Internal error: boom\r\n");
    assert_eq!(pasv_mode(0, 255), "227 Entering Passif Mode (127,0,0,1,0,255).\r\n");
    assert_eq!(mkd_ok("/d"), "257 /d created.\r\n");
    assert_eq!(mkd_del("/d"), "257 /d deleted.\r\n");
    assert_eq!(WELCOME, "220 Welcome to Rust FTP Server\r\n");
}

#[test]
fn decimal_rendering() {
    for n in [0u64, 7, 10, 256, 65535, u64::MAX] {
        let mut s = String::from("n=");
        push_decimal(&mut s, n);
        assert_eq!(s, format!("n={}", n));
    }
}

#[test]
fn listen_addresses() {
    assert_eq!(listen_address("127.0.0.1", 32638), "127.0.0.1:32638");
    assert_eq!(listen_address("::1", -5), "::1:-5");
    assert_eq!(listen_address("h", i32::MIN), format!("h:{}", i32::MIN));
}

#[test]
fn error_messages() {
    assert_eq!(ErrorsData::ServerConnectionError.message(), "Error while connecting to server");
    assert_eq!(ErrorsData::ClientConnectionError.message(), "Error while handling client connection");
    assert_eq!(ErrorsData::StreamUnwrapError.message(), "Error while unwrapping stream");
    assert_eq!(ErrorsData::DataConnectionError.message(), "Error while opening Data chanel");
}
