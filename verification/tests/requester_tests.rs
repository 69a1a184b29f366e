use reqwest::header::{ACCEPT, ACCEPT_ENCODING, ACCEPT_LANGUAGE, CONNECTION, HOST, USER_AGENT};
use vhost_enumerator::requester::{is_valid_header_value, RequestHeaders, Requester};

#[test]
fn header_values_checked() {
    assert!(is_valid_header_value("dev.vhf-test.vhf"));
    assert!(is_valid_header_value("a\tb"));
    assert!(is_valid_header_value(""));
    assert!(is_valid_header_value("é"));
    assert!(!is_valid_header_value("a\nb"));
    assert!(!is_valid_header_value("a\rb"));
    assert!(!is_valid_header_value("\x7f"));
    assert!(!is_valid_header_value("\x00"));
}

#[test]
fn header_check_agrees_with_http() {
    for s in ["abc", "a b", "\t", "\u{1f}", "\u{7f}", "ü", "x\ny", "~!@#"] {
        assert_eq!(
            is_valid_header_value(s),
            reqwest::header::HeaderValue::from_str(s).is_ok(),
            "value {:?}",
            s
        );
    }
}

#[test]
fn raw_values() {
    let h = RequestHeaders::raw("dev.sea.htb".to_string(), "agent/1".to_string());
    assert_eq!(h.vhost, "dev.sea.htb");
    assert_eq!(h.user_agent, "agent/1");
    assert_eq!(h.accept_lang, "en-US");
    assert_eq!(h.accept_enc, "gzip, deflate, br");
    assert_eq!(h.accept, "*/*");
    assert_eq!(h.conn_state, "close");
}

#[test]
fn header_map_of_probe() {
    let m = RequestHeaders::new("dev.sea.htb".to_string(), "agent/1".to_string());
    assert_eq!(m.len(), 6);
    assert_eq!(m[HOST], "dev.sea.htb");
    assert_eq!(m[USER_AGENT], "agent/1");
    assert_eq!(m[ACCEPT_LANGUAGE], "en-US");
    assert_eq!(m[ACCEPT_ENCODING], "gzip, deflate, br");
    assert_eq!(m[ACCEPT], "*/*");
    assert_eq!(m[CONNECTION], "close");
}

#[test]
fn requester_names_vhost() {
    let r = Requester::new("www.example.com", "http://10.0.0.1/".to_string(), "ua".to_string());
    assert_eq!(r.url, "http://10.0.0.1/");
    assert_eq!(r.headers[HOST], "www.example.com");
    assert_eq!(r.headers[USER_AGENT], "ua");
    assert_eq!(r.headers.len(), 6);
}
