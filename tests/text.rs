use feedrv3::text::{chunk_statements, host_of_url, quote_ident, validate_db_name};

#[test]
fn statements_are_split_trimmed_and_nonempty() {
    let s = chunk_statements("CREATE TABLE a (x INT);\n\n  CREATE INDEX i ON a(x) ;;  \n");
    assert_eq!(s, vec!["CREATE TABLE a (x INT)".to_string(), "CREATE INDEX i ON a(x)".to_string()]);
    assert!(chunk_statements("").is_empty());
    assert!(chunk_statements(" ; \t;\n").is_empty());
    assert_eq!(chunk_statements("select 1"), vec!["select 1".to_string()]);
    assert_eq!(chunk_statements("\u{3000}é;"), vec!["é".to_string()]);
}

#[test]
fn identifiers_are_quoted() {
    assert_eq!(quote_ident("fetcher"), "\"fetcher\"");
    assert_eq!(quote_ident("a\"b"), "\"a\"\"b\"");
    assert_eq!(quote_ident(""), "\"\"");
}

#[test]
fn database_names_are_checked() {
    assert!(validate_db_name("feeds_db-1").is_ok());
    assert_eq!(
        validate_db_name("bad name").unwrap_err(),
        "invalid postgres database name 'bad name': only alphanumeric, '_' and '-' allowed"
    );
    assert!(validate_db_name("x;drop").is_err());
    assert!(validate_db_name("").is_ok());
}

#[test]
fn url_hosts_are_extracted() {
    assert_eq!(host_of_url("https://blog.example.com/feed.xml"), "blog.example.com");
    assert_eq!(host_of_url("http://user:pw@example.org:8080/rss?x=1"), "example.org");
    assert_eq!(host_of_url("example.net/atom"), "example.net");
    assert_eq!(host_of_url("https://h.io#frag"), "h.io");
    assert_eq!(host_of_url(""), "");
}

#[test]
fn feed_domain_comes_from_url() {
    let f = feedrv3::config::FeedConfig::new("a".to_string(), "https://news.site/rss".to_string(), 60);
    assert_eq!(f.domain, "news.site");
    assert_eq!(f.base_poll_seconds, 60);
}
