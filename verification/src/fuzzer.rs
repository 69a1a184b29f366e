//! The fuzzing run: its shared state, the probe that calibrates the
//! response filter, and the progress display.

use vstd::prelude::*;

use rand::Rng;
use std::sync::Arc;
use tokio::sync::Semaphore;
use tokio::task::JoinHandle;

use crate::text::{
    decimal, digits_value, lemma_decimal_digits, lemma_parse_decimal, parse_unsigned, push_char,
    push_decimal,
};

verus! {

broadcast use vstd::string::group_string_axioms;

#[verifier::external_type_specification]
#[verifier::external_body]
pub struct ExSemaphore(Semaphore);

#[verifier::external_type_specification]
#[verifier::external_body]
#[verifier::reject_recursive_types(T)]
pub struct ExJoinHandle<T>(JoinHandle<T>);

#[verifier::external_type_specification]
#[verifier::external_body]
pub struct ExJoinError(tokio::task::JoinError);

#[verifier::external_type_specification]
#[verifier::external_body]
pub struct ExThreadRng(rand::rngs::ThreadRng);

/// The thread-local random number generator (`rand::thread_rng`).
/// Nothing is claimed of it.
#[verifier::external_body]
fn thread_rng() -> rand::rngs::ThreadRng {
    rand::thread_rng()
}

/// An ASCII letter or digit.
pub open spec fn is_alphanumeric(c: char) -> bool {
    ('A' <= c <= 'Z') || ('a' <= c <= 'z') || ('0' <= c <= '9')
}

/// Draws one byte from `rand::distributions::Alphanumeric` (`Rng::sample`).
/// Claimed: whatever is drawn is an ASCII letter or digit. Which one is
/// left to chance and is not stated.
#[verifier::external_body]
fn sample_alphanumeric(rng: &mut rand::rngs::ThreadRng) -> (b: u8)
    ensures
        is_alphanumeric(b as char),
{
    rng.sample(rand::distributions::Alphanumeric)
}

/// The length of the random label of a calibration probe.
pub const NOISE_LEN: usize = 32;

/// The name of the virtual host `label` under `domain`.
pub open spec fn vhost_of(label: Seq<char>, domain: Seq<char>) -> Seq<char> {
    label + seq!['.'] + domain
}

/// The text shown while requests are being counted.
pub open spec fn progress_text(count: nat) -> Seq<char> {
    "\r["@ + decimal(count) + "] => "@
}

/// One look at the request counters: what to show, and whether all
/// requests are done.
pub struct ProgressStep {
    pub line: String,
    pub finished: bool,
}

/// The state of a fuzzing run.
pub struct Fuzzer {
    pub target_ip: String,
    pub wordlist: Arc<Vec<String>>,
    pub threadpool: Arc<Semaphore>,
    pub handles: Vec<JoinHandle<()>>,
}

impl Fuzzer {
    /// A run against `target_ip` over `wordlist`, with no task started yet.
    pub fn new(target_ip: String, wordlist: Arc<Vec<String>>, threadpool: Arc<Semaphore>) -> (f: Fuzzer)
        ensures
            f.target_ip == target_ip,
            f.wordlist == wordlist,
            f.threadpool == threadpool,
            f.handles@.len() == 0,
    {
        let handles = Vec::new();
        Fuzzer { target_ip, wordlist, threadpool, handles }
    }

    /// What the progress display shows after `curr` of `total` requests,
    /// and whether it stops: it stops when the two counts are equal.
    pub fn progress(curr: usize, total: usize) -> (step: ProgressStep)
        ensures
            step.line@ == progress_text(curr as nat),
            step.finished == (curr == total),
    {
        let mut line = "\r[".to_owned();
        push_decimal(&mut line, curr as u64);
        line.append("] => ");
        ProgressStep { line, finished: curr == total }
    }

    /// The name of the virtual host `label` under `domain`: `label.domain`.
    pub fn vhost(label: &str, domain: &str) -> (name: String)
        ensures
            name@ == vhost_of(label@, domain@),
    {
        let mut name = label.to_owned();
        push_char(&mut name, '.');
        name.append(domain);
        name
    }

    /// A random label of `NOISE_LEN` ASCII letters and digits.
    pub fn noise() -> (label: String)
        ensures
            label@.len() == NOISE_LEN,
            forall|i: int| 0 <= i < label@.len() ==> is_alphanumeric(#[trigger] label@[i]),
    {
        let mut rng = thread_rng();
        let mut label = String::new();
        let mut i: usize = 0;
        while i < NOISE_LEN
            invariant
                i <= NOISE_LEN,
                label@.len() == i,
                forall|j: int| 0 <= j < label@.len() ==> is_alphanumeric(#[trigger] label@[j]),
            decreases NOISE_LEN - i,
        {
            let b = sample_alphanumeric(&mut rng);
            push_char(&mut label, b as char);
            i = i + 1;
        }
        label
    }

    /// The virtual host of a calibration probe: a random label that no
    /// real subdomain is expected to carry, under `domain`. Its response
    /// tells what the server answers for unknown hosts.
    pub fn heuristic(domain: &str) -> (name: String)
        ensures
            name@.len() == NOISE_LEN + 1 + domain@.len(),
            forall|i: int| 0 <= i < NOISE_LEN ==> is_alphanumeric(#[trigger] name@[i]),
            name@ == vhost_of(name@.take(NOISE_LEN as int), domain@),
            name@[NOISE_LEN as int] == '.',
            name@.skip(NOISE_LEN + 1) == domain@,
    {
        let label = Fuzzer::noise();
        let name = Fuzzer::vhost(label.as_str(), domain);
        assert(name@.take(NOISE_LEN as int) =~= label@);
        assert(name@.skip(NOISE_LEN + 1) =~= domain@);
        name
    }
}

/// Law: a virtual host name is the whole label, one `.`, and the whole
/// domain, whatever characters the label holds.
pub proof fn lemma_vhost_of_parts(label: Seq<char>, domain: Seq<char>)
    ensures
        vhost_of(label, domain) == label + seq!['.'] + domain,
        vhost_of(label, domain).len() == label.len() + 1 + domain.len(),
        vhost_of(label, domain).take(label.len() as int) == label,
        vhost_of(label, domain)[label.len() as int] == '.',
        vhost_of(label, domain).skip(label.len() as int + 1) == domain,
{
    let v = vhost_of(label, domain);
    assert(v.take(label.len() as int) =~= label);
    assert(v.skip(label.len() as int + 1) =~= domain);
}

/// Law: the progress text is `\r[`, the count in decimal, and `] => `;
/// the digits between the brackets read back as the count itself.
pub proof fn lemma_progress_text_count(n: nat)
    ensures
        progress_text(n) == "\r["@ + decimal(n) + "] => "@,
        progress_text(n).len() == decimal(n).len() + 7,
        progress_text(n).take(2) == "\r["@,
        progress_text(n).subrange(2, 2 + decimal(n).len() as int) == decimal(n),
        progress_text(n).skip(2 + decimal(n).len() as int) == "] => "@,
        parse_unsigned(progress_text(n).subrange(2, 2 + decimal(n).len() as int), n) == Some(n),
        digits_value(decimal(n)) == n,
{
    reveal_strlit("\r[");
    reveal_strlit("] => ");
    let t = progress_text(n);
    let d = decimal(n);
    assert(t.take(2) =~= "\r["@);
    assert(t.subrange(2, 2 + d.len() as int) =~= d);
    assert(t.skip(2 + d.len() as int) =~= "] => "@);
    lemma_parse_decimal(n, n);
    lemma_decimal_digits(n);
}

} // verus!
