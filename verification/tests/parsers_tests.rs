use vhost_enumerator::constants::{USERAGENT_LINUX, USERAGENT_WINDOWS};
use vhost_enumerator::parsers::{Agent, ParseError, Url, Wordlist, WordlistSource};

#[test]
fn agent_by_index_or_literal() {
    assert_eq!(Agent::from("0"), Ok(USERAGENT_WINDOWS.to_string()));
    assert_eq!(Agent::from("2"), Ok(USERAGENT_LINUX.to_string()));
    assert_eq!(Agent::from("3"), Ok("3".to_string()));
    assert_eq!(Agent::from("curl/8.0"), Ok("curl/8.0".to_string()));
}

#[test]
fn bare_address_gets_scheme() {
    assert_eq!(Url::from("10.10.11.28", true), Ok("http://10.10.11.28/".to_string()));
    assert_eq!(Url::from("10.10.11.28", false), Ok("https://10.10.11.28/".to_string()));
    assert_eq!(Url::from("172.17.0.1", true), Ok("http://172.17.0.1/".to_string()));
}

#[test]
fn url_with_scheme_is_kept() {
    assert_eq!(Url::from("http://vhf-test.vhf", false), Ok("http://vhf-test.vhf/".to_string()));
    assert_eq!(Url::from("https://sea.htb/", true), Ok("https://sea.htb/".to_string()));
    assert_eq!(Url::from("x https://a.b", true), Ok("x https://a.b/".to_string()));
}

#[test]
fn scheme_needs_a_dot_after_it() {
    assert_eq!(Url::has_scheme("http://localhost"), Ok(false));
    assert_eq!(Url::from("http://localhost", true), Ok("http://http://localhost/".to_string()));
    assert_eq!(Url::has_scheme("ftp://a.b"), Ok(false));
    assert_eq!(Url::has_scheme("https://a.b"), Ok(true));
    assert_eq!(Url::has_scheme("http://a\n.b"), Ok(false));
}

#[test]
fn url_from_match_cases() {
    assert_eq!(Url::from_match("a.b", true, true), "a.b/");
    assert_eq!(Url::from_match("a.b/", true, true), "a.b/");
    assert_eq!(Url::from_match("", true, true), "/");
    assert_eq!(Url::from_match("", false, false), "https:///");
    assert_eq!(Url::from_match("host", true, false), "http://host/");
}

#[test]
fn invalid_pattern_error_exists() {
    assert_ne!(Url::has_scheme("x"), Err(ParseError::InvalidPattern));
}

#[test]
fn target_url_is_stable() {
    for ip in ["https://a.b", "http://x.y/", "10.0.0.1"] {
        let once = Url::from(ip, true).unwrap();
        assert!(once.ends_with('/'));
        assert_eq!(Url::from(&once, true).unwrap(), once);
    }
}

#[test]
fn wordlist_words_are_lines() {
    assert_eq!(Wordlist::words("www\ndev\r\nmail\n"), vec!["www", "dev", "mail"]);
    assert!(Wordlist::words("").is_empty());
}

#[test]
fn wordlist_source_decision() {
    assert_eq!(Wordlist::source(true, true), WordlistSource::Open);
    assert_eq!(Wordlist::source(true, false), WordlistSource::Open);
    assert_eq!(Wordlist::source(false, true), WordlistSource::Download);
    assert_eq!(Wordlist::source(false, false), WordlistSource::Missing);
}

#[test]
fn wordlist_holds_path() {
    let w = Wordlist { path: "/tmp/x.txt".to_string() };
    assert_eq!(w.path, "/tmp/x.txt");
}
