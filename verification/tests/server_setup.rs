use wiki_storage::config::LoggingConfig as LogSettings;
use wiki_storage::logging::LoggingConfig;
use wiki_storage::server::{
    listen_address, oauth_callback_url, release_name, session_cookie_domain, DomainError,
};

#[test]
fn listen_address_joins_host_and_port() {
    assert_eq!(listen_address("0.0.0.0", 8080), "0.0.0.0:8080");
    assert_eq!(listen_address("localhost", 1), "localhost:1");
    assert_eq!(listen_address("::", 65535), ":::65535");
}

#[test]
fn callback_urls_are_routes_of_the_app() {
    assert_eq!(
        oauth_callback_url("https://wiki.example.com", "github"),
        "https://wiki.example.com/api/v1/auth/callback/github"
    );
    assert_eq!(
        oauth_callback_url("http://localhost:3000", "modrinth"),
        "http://localhost:3000/api/v1/auth/callback/modrinth"
    );
}

#[test]
fn release_name_format() {
    assert_eq!(release_name("wiki", "1.2.0", "abc123"), "wiki@1.2.0-abc123");
}

#[test]
fn session_domain_of_frontend_url() {
    assert_eq!(
        session_cookie_domain("https://docs.example.com/path?q=1"),
        Ok("docs.example.com".to_owned())
    );
    assert_eq!(session_cookie_domain("http://localhost:3000"), Ok("localhost".to_owned()));
    assert_eq!(session_cookie_domain("http://127.0.0.1:3000"), Err(DomainError::NoDomain));
    assert_eq!(session_cookie_domain("not a url"), Err(DomainError::InvalidUrl));
}

#[test]
fn log_files_follow_settings() {
    let settings = LogSettings { path: "logs".to_owned(), filter: "info".to_owned(), max_files: 14 };
    let cfg = LoggingConfig::from_settings(&settings);
    assert_eq!(cfg.dir, "logs");
    assert_eq!(cfg.file_prefix, "wiki");
    assert_eq!(cfg.default_filter, "info");
    assert_eq!(cfg.max_files, 14);
}
