//! Fixed data of the fuzzer and the resolution of "index or literal"
//! command-line arguments.

use vstd::prelude::*;

use crate::text::{decimal, lemma_parse_decimal, parse_unsigned, parse_usize, push_char};

verus! {

broadcast use vstd::string::group_string_axioms;

/// Where the SecLists DNS wordlists are published.
pub const SECLIST_BASE_URL: &'static str =
    "https://raw.githubusercontent.com/danielmiessler/SecLists/master/Discovery/DNS";

/// The name of the directory that holds the downloaded wordlists.
pub const DATA_DIR_NAME: &'static str = "vhfuzz";

/// The three SecLists subdomain wordlists, largest first.
pub const WORDLIST_LARGE: &'static str = "subdomains-top1million-110000.txt";
pub const WORDLIST_MEDIUM: &'static str = "subdomains-top1million-20000.txt";
pub const WORDLIST_SMALL: &'static str = "subdomains-top1million-5000.txt";

/// The three stock user agents.
pub const USERAGENT_WINDOWS: &'static str = "Mozilla/5.0 (Windows NT 10.0; Win64; x64) AppleWebKit/537.36 (KHTML, like Gecko) Chrome/126.0.0.0 Safari/537.3";
pub const USERAGENT_MAC: &'static str = "Mozilla/5.0 (Macintosh; Intel Mac OS X 10_15_7) AppleWebKit/537.36 (KHTML, like Gecko) Chrome/126.0.0.0 Safari/537.3";
pub const USERAGENT_LINUX: &'static str = "Mozilla/5.0 (X11; Linux x86_64) AppleWebKit/537.36 (KHTML, like Gecko) Chrome/127.0.0.0 Safari/537.3";

/// The wordlist file names, in the order in which an index selects them.
pub fn wordlists() -> (names: Vec<&'static str>)
    ensures
        names.deep_view() == seq![WORDLIST_LARGE@, WORDLIST_MEDIUM@, WORDLIST_SMALL@],
{
    let names = vec![WORDLIST_LARGE, WORDLIST_MEDIUM, WORDLIST_SMALL];
    assert(names.deep_view() =~= seq![WORDLIST_LARGE@, WORDLIST_MEDIUM@, WORDLIST_SMALL@]);
    names
}

/// The stock user agents, in the order in which an index selects them.
pub fn useragents() -> (agents: Vec<&'static str>)
    ensures
        agents.deep_view() == seq![USERAGENT_WINDOWS@, USERAGENT_MAC@, USERAGENT_LINUX@],
{
    let agents = vec![USERAGENT_WINDOWS, USERAGENT_MAC, USERAGENT_LINUX];
    assert(agents.deep_view() =~= seq![USERAGENT_WINDOWS@, USERAGENT_MAC@, USERAGENT_LINUX@]);
    agents
}

/// What an "index or literal" argument stands for: when the argument reads
/// as a machine-size unsigned integer below the number of choices, the
/// choice at that index; otherwise the argument itself.
pub open spec fn resolve_arg(arg: Seq<char>, choices: Seq<Seq<char>>) -> Seq<char> {
    match parse_unsigned(arg, usize::MAX as nat) {
        Some(n) => if n < choices.len() {
            choices[n as int]
        } else {
            arg
        },
        None => arg,
    }
}

/// Takes either an index into `arr` or a raw string that is used as it stands.
pub fn index_arg(arg: &str, arr: Vec<&str>) -> (r: String)
    ensures
        r@ == resolve_arg(arg@, arr.deep_view()),
{
    match parse_usize(arg) {
        Some(num) => {
            if num < arr.len() {
                arr[num].to_owned()
            } else {
                arg.to_owned()
            }
        },
        None => arg.to_owned(),
    }
}

/// Law: the decimal form of an index in range selects the choice at that index.
pub proof fn lemma_index_arg_selects(n: nat, choices: Seq<Seq<char>>)
    requires
        n < choices.len(),
        choices.len() <= usize::MAX + 1,
    ensures
        resolve_arg(decimal(n), choices) == choices[n as int],
{
    lemma_parse_decimal(n, usize::MAX as nat);
}

/// Law: an argument that is no number in range stands for itself.
pub proof fn lemma_index_arg_literal(arg: Seq<char>, choices: Seq<Seq<char>>)
    requires
        match parse_unsigned(arg, usize::MAX as nat) {
            Some(n) => n >= choices.len(),
            None => true,
        },
    ensures
        resolve_arg(arg, choices) == arg,
{
}

/// The download address of a SecLists wordlist.
pub open spec fn seclist_url_of(list_name: Seq<char>) -> Seq<char> {
    SECLIST_BASE_URL@ + seq!['/'] + list_name
}

/// The download address of a SecLists wordlist: the base address, `/`, the name.
pub fn seclist_url(list_name: &str) -> (url: String)
    ensures
        url@ == seclist_url_of(list_name@),
{
    let mut url = SECLIST_BASE_URL.to_owned();
    push_char(&mut url, '/');
    url.append(list_name);
    url
}

/// Law: a download address is the base address, one `/`, and the whole
/// list name, whatever its length.
pub proof fn lemma_seclist_url_whole_name(list_name: Seq<char>)
    ensures
        seclist_url_of(list_name).len() == SECLIST_BASE_URL@.len() + 1 + list_name.len(),
        seclist_url_of(list_name).take(SECLIST_BASE_URL@.len() as int) == SECLIST_BASE_URL@,
        seclist_url_of(list_name)[SECLIST_BASE_URL@.len() as int] == '/',
        seclist_url_of(list_name).skip(SECLIST_BASE_URL@.len() as int + 1) == list_name,
{
    let u = seclist_url_of(list_name);
    let b = SECLIST_BASE_URL@;
    assert(u.take(b.len() as int) =~= b);
    assert(u.skip(b.len() as int + 1) =~= list_name);
}

} // verus!
