use std::sync::Arc;
use tokio::sync::Semaphore;
use vhost_enumerator::fuzzer::{Fuzzer, NOISE_LEN};
use vhost_enumerator::probe::{
    failure_message, filtered_message, found_message, report, report_line, verdict, ProbeVerdict,
};
use vhost_enumerator::progress::requests_made;

#[test]
fn new_fuzzer_has_no_tasks() {
    let words = Arc::new(vec!["dev".to_string(), "www".to_string()]);
    let pool = Arc::new(Semaphore::new(25));
    let f = Fuzzer::new("10.0.0.1".to_string(), words.clone(), pool);
    assert_eq!(f.target_ip, "10.0.0.1");
    assert_eq!(*f.wordlist, *words);
    assert!(f.handles.is_empty());
    assert_eq!(f.threadpool.available_permits(), 25);
}

#[test]
fn progress_lines() {
    let s = Fuzzer::progress(3, 5);
    assert_eq!(s.line, "\r[3] => ");
    assert!(!s.finished);
    let s = Fuzzer::progress(5, 5);
    assert_eq!(s.line, "\r[5] => ");
    assert!(s.finished);
    assert!(Fuzzer::progress(0, 0).finished);
}

#[test]
fn vhost_names() {
    assert_eq!(Fuzzer::vhost("dev", "vhf-test.vhf"), "dev.vhf-test.vhf");
    assert_eq!(Fuzzer::vhost("", "x"), ".x");
}

#[test]
fn noise_is_alphanumeric() {
    let n = Fuzzer::noise();
    assert_eq!(n.len(), NOISE_LEN);
    assert!(n.chars().all(|c| c.is_ascii_alphanumeric()));
    assert_ne!(Fuzzer::noise(), Fuzzer::noise());
}

#[test]
fn heuristic_host_under_domain() {
    let h = Fuzzer::heuristic("vhf-test.vhf");
    assert_eq!(h.len(), 32 + 1 + "vhf-test.vhf".len());
    assert!(h.ends_with(".vhf-test.vhf"));
    assert!(h[..32].chars().all(|c| c.is_ascii_alphanumeric()));
}

#[test]
fn requests_made_line() {
    assert_eq!(requests_made(0), "\rmade [ 0 ] requests..");
    assert_eq!(requests_made(1234), "\rmade [ 1234 ] requests..");
}

#[test]
fn verdicts() {
    assert_eq!(verdict(200, Some(19), 19), ProbeVerdict::Filtered);
    assert_eq!(verdict(200, Some(20), 19), ProbeVerdict::Found);
    assert_eq!(verdict(200, None, 19), ProbeVerdict::Found);
    assert_eq!(verdict(404, Some(19), 19), ProbeVerdict::Ignored);
    assert_eq!(verdict(301, Some(5), 19), ProbeVerdict::Ignored);
}

#[test]
fn messages() {
    assert_eq!(
        found_message("200 OK", "dev.vhf-test.vhf", Some(612)),
        "[+]  got status '200 OK' on 'dev.vhf-test.vhf' (Some(612) bytes)"
    );
    assert_eq!(
        found_message("200 OK", "a.b", None),
        "[+]  got status '200 OK' on 'a.b' (None bytes)"
    );
    assert_eq!(
        filtered_message("200 OK", "driss.vhf-test.vhf"),
        "filtered response [200 OK] for 'driss.vhf-test.vhf'"
    );
    assert_eq!(failure_message("boom", "a.b"), "[!] boom - a.b\r");
    assert_eq!(report_line(7, "x"), "\r[7] => x\r");
}

#[test]
fn debug_length_matches_std() {
    for l in [Some(0u64), Some(19), Some(u64::MAX), None] {
        assert_eq!(found_message("s", "h", l), format!("[+]  got status 's' on 'h' ({:?} bytes)", l));
    }
}

#[test]
fn reports() {
    let r = report(200, "200 OK", Some(19), 19, "a.b");
    assert_eq!(r.verdict, ProbeVerdict::Filtered);
    assert_eq!(r.message, "filtered response [200 OK] for 'a.b'");
    let r = report(200, "200 OK", Some(7), 19, "a.b");
    assert_eq!(r.verdict, ProbeVerdict::Found);
    assert_eq!(r.message, "[+]  got status '200 OK' on 'a.b' (Some(7) bytes)");
    let r = report(500, "500 Internal Server Error", Some(7), 19, "a.b");
    assert_eq!(r.verdict, ProbeVerdict::Ignored);
    assert_eq!(r.message, "");
}
