use fins::create_client;
use fins::Config;
use fins::ErrorResponse;
use fins::LogLevel;
use fins::LoggerWriter;

#[test]
fn lib_it_works() {
    let result = 2 + 2;
    assert_eq!(result, 4);
}

#[test]
fn fairing_it_works() {
    let result = 2 + 2;
    assert_eq!(result, 4);
}

#[test]
fn error_response_uses_reason() {
    let r = ErrorResponse::for_status(404, Some("Not Found".to_string()));
    assert_eq!(r.error.code, 404);
    assert_eq!(r.error.message, "Not Found");
}

#[test]
fn error_response_falls_back() {
    let r = ErrorResponse::for_status(520, None);
    assert_eq!(r.error.code, 520);
    assert_eq!(r.error.message, "Something went wrong");
}

#[test]
fn logger_writer_carries_its_metadata() {
    let w = LoggerWriter::new("migrate_database".to_string(), LogLevel::Info);
    assert_eq!(w.target, "migrate_database");
    assert_eq!(w.level, LogLevel::Info);
}

#[test]
fn trim_newline_drops_one_trailing_newline() {
    assert_eq!(fins::trim_newline(b"done.\n"), b"done.".to_vec());
    assert_eq!(fins::trim_newline(b"done."), b"done.".to_vec());
    assert_eq!(fins::trim_newline(b"\n\n"), b"\n".to_vec());
    assert_eq!(fins::trim_newline(b""), Vec::<u8>::new());
}

#[test]
fn create_client_hands_the_url_through() {
    let config = Config { url: "http://localhost:8000/api".to_string() };
    let (_client, url) = create_client(config);
    assert_eq!(url, "http://localhost:8000/api");
}
