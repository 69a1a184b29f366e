//! Command-line argument parsers: the wordlist, the user agent and the
//! target URL.

use vstd::prelude::*;

use crate::constants::{index_arg, resolve_arg, useragents, USERAGENT_LINUX, USERAGENT_MAC, USERAGENT_WINDOWS};
use crate::text::{lines_of, push_char, split_lines};

verus! {

broadcast use vstd::string::group_string_axioms;

// ---------------------------------------------------------------------------
// Regular expressions (the `regex` crate)
// ---------------------------------------------------------------------------

#[verifier::external_type_specification]
#[verifier::external_body]
pub struct ExRegex(regex::Regex);

#[verifier::external_type_specification]
#[verifier::external_body]
pub struct ExRegexError(regex::Error);

/// Whether `regex::Regex::new` accepts a pattern (its syntax and the
/// default size limit decide; nothing else does).
pub uninterp spec fn regex_compiles(pattern: Seq<char>) -> bool;

/// Whether the regular expression `pattern` matches somewhere in `text`
/// (`Regex::captures` finds a match).
pub uninterp spec fn regex_finds(pattern: Seq<char>, text: Seq<char>) -> bool;

/// A compiled regular expression together with the pattern it was
/// compiled from. Only `compile_pattern` makes one.
pub struct CompiledPattern {
    regex: regex::Regex,
    source: String,
}

impl View for CompiledPattern {
    type V = Seq<char>;

    closed spec fn view(&self) -> Seq<char> {
        self.source@
    }
}

/// Compiles a pattern with `regex::Regex::new`.
/// Claimed: it succeeds exactly when `regex_compiles(pattern@)`, and the
/// result remembers `pattern`. The `Ok` value is built from the compiled
/// regex and a copy of the pattern.
#[verifier::external_body]
fn compile_pattern(pattern: &str) -> (r: Result<CompiledPattern, regex::Error>)
    ensures
        r is Ok <==> regex_compiles(pattern@),
        r matches Ok(p) ==> p@ == pattern@,
{
    match regex::Regex::new(pattern) {
        Ok(regex) => Ok(CompiledPattern { regex, source: pattern.to_string() }),
        Err(e) => Err(e),
    }
}

/// Searches `text` with `Regex::captures`.
/// Claimed: the result is `Some` exactly when `regex_finds(p@, text@)`.
#[verifier::external_body]
fn pattern_captures(p: &CompiledPattern, text: &str) -> (found: bool)
    ensures
        found == regex_finds(p@, text@),
{
    p.regex.captures(text).is_some()
}

// ---------------------------------------------------------------------------
// Errors
// ---------------------------------------------------------------------------

/// Why an argument could not be parsed.
#[derive(Debug, PartialEq, Eq, Structural)]
pub enum ParseError {
    /// The pattern that recognises a URL with a scheme did not compile.
    InvalidPattern,
}

// ---------------------------------------------------------------------------
// Wordlist
// ---------------------------------------------------------------------------

/// A wordlist on disk.
pub struct Wordlist {
    pub path: String,
}

/// How a wordlist file is to be obtained.
#[derive(Debug, PartialEq, Eq, Structural, Clone, Copy)]
pub enum WordlistSource {
    /// The file exists: open it.
    Open,
    /// The file is missing but is one of the stock lists: download the lists.
    Download,
    /// The file is missing and unknown: give up.
    Missing,
}

impl Wordlist {
    /// Decides how to obtain the wordlist at a path, from whether the path
    /// exists and whether it is one of the stock wordlist paths.
    pub fn source(exists: bool, is_stock: bool) -> (s: WordlistSource)
        ensures
            s == (if exists {
                WordlistSource::Open
            } else if is_stock {
                WordlistSource::Download
            } else {
                WordlistSource::Missing
            }),
    {
        if exists {
            WordlistSource::Open
        } else if is_stock {
            WordlistSource::Download
        } else {
            WordlistSource::Missing
        }
    }

    /// The words of a wordlist file's text: one per line.
    pub fn words(text: &str) -> (words: Vec<String>)
        ensures
            words.deep_view() == lines_of(text@),
    {
        split_lines(text)
    }
}

// ---------------------------------------------------------------------------
// User agent
// ---------------------------------------------------------------------------

pub struct Agent;

impl Agent {
    /// The user agent that an argument names: an index into the stock
    /// agents, or a literal user agent.
    pub fn from(arg: &str) -> (r: Result<String, ParseError>)
        ensures
            r matches Ok(agent) && agent@ == resolve_arg(
                arg@,
                seq![USERAGENT_WINDOWS@, USERAGENT_MAC@, USERAGENT_LINUX@],
            ),
    {
        Ok(index_arg(arg, useragents()))
    }
}

// ---------------------------------------------------------------------------
// Target URL
// ---------------------------------------------------------------------------

/// Recognises a target that already carries an `http` or `https` scheme
/// followed by a dotted host.
pub const SCHEME_PATTERN: &'static str = r"(http|https)://(.*?)\.(?:.*)+";

/// The URL that a target argument is turned into: one that carries a
/// scheme is kept, with a `/` added unless it ends with one; a bare host or
/// address gets `http://` (without TLS) or `https://` in front and `/` after.
pub open spec fn target_url(ip: Seq<char>, no_tls: bool, has_scheme: bool) -> Seq<char> {
    if has_scheme {
        if ip.len() > 0 && ip.last() == '/' {
            ip
        } else {
            ip.push('/')
        }
    } else {
        (if no_tls { "http://"@ } else { "https://"@ }) + ip.push('/')
    }
}

pub struct Url;

impl Url {
    /// Builds the target URL, given whether the argument carries a scheme.
    pub fn from_match(ip_arg: &str, no_tls: bool, has_scheme: bool) -> (url: String)
        ensures
            url@ == target_url(ip_arg@, no_tls, has_scheme),
    {
        if has_scheme {
            let mut url = ip_arg.to_owned();
            if ip_arg.is_empty() || ip_arg.get_char(ip_arg.unicode_len() - 1) != '/' {
                push_char(&mut url, '/');
            }
            url
        } else {
            let mut url = if no_tls {
                "http://".to_owned()
            } else {
                "https://".to_owned()
            };
            url.append(ip_arg);
            push_char(&mut url, '/');
            assert(url@ =~= target_url(ip_arg@, no_tls, has_scheme));
            url
        }
    }

    /// Whether the argument carries a scheme (`SCHEME_PATTERN` matches in it).
    pub fn has_scheme(ip_arg: &str) -> (r: Result<bool, ParseError>)
        ensures
            match r {
                Ok(found) => regex_compiles(SCHEME_PATTERN@) && found == regex_finds(
                    SCHEME_PATTERN@,
                    ip_arg@,
                ),
                Err(e) => !regex_compiles(SCHEME_PATTERN@) && e == ParseError::InvalidPattern,
            },
    {
        match compile_pattern(SCHEME_PATTERN) {
            Ok(p) => Ok(pattern_captures(&p, ip_arg)),
            Err(_) => Err(ParseError::InvalidPattern),
        }
    }

    /// The URL of the server to send requests to.
    pub fn from(ip_arg: &str, no_tls: bool) -> (r: Result<String, ParseError>)
        ensures
            match r {
                Ok(url) => regex_compiles(SCHEME_PATTERN@) && url@ == target_url(
                    ip_arg@,
                    no_tls,
                    regex_finds(SCHEME_PATTERN@, ip_arg@),
                ),
                Err(e) => !regex_compiles(SCHEME_PATTERN@) && e == ParseError::InvalidPattern,
            },
    {
        match Url::has_scheme(ip_arg) {
            Ok(found) => Ok(Url::from_match(ip_arg, no_tls, found)),
            Err(e) => Err(e),
        }
    }
}

/// Law: every target URL ends with `/`.
pub proof fn lemma_target_url_ends_with_slash(ip: Seq<char>, no_tls: bool, has_scheme: bool)
    ensures
        target_url(ip, no_tls, has_scheme).len() > 0,
        target_url(ip, no_tls, has_scheme).last() == '/',
{
}

/// Law: a URL that carries a scheme is kept as it is, up to the final `/`;
/// turning the result into a target URL once more changes nothing.
pub proof fn lemma_target_url_with_scheme(ip: Seq<char>, no_tls: bool)
    ensures
        target_url(ip, no_tls, true).take(ip.len() as int) == ip,
        target_url(target_url(ip, no_tls, true), no_tls, true) == target_url(ip, no_tls, true),
{
    assert(ip.push('/').take(ip.len() as int) =~= ip);
    assert(ip.take(ip.len() as int) =~= ip);
}

/// Law: a bare host or address is put between a scheme and `/`: `http://`
/// exactly when TLS is off.
pub proof fn lemma_target_url_without_scheme(ip: Seq<char>, no_tls: bool)
    ensures
        target_url(ip, no_tls, false) == (if no_tls { "http://"@ } else { "https://"@ }) + ip
            + seq!['/'],
{
    assert(ip.push('/') =~= ip + seq!['/']);
    let scheme = if no_tls { "http://"@ } else { "https://"@ };
    assert(scheme + ip.push('/') =~= scheme + ip + seq!['/']);
}

/// Law: a target that carries a scheme and ends with `/` is kept as it is;
/// one that carries a scheme and does not end with `/` gains exactly one
/// `/` and nothing else, whatever its last character.
pub proof fn lemma_target_url_scheme_one_slash(ip: Seq<char>, no_tls: bool)
    ensures
        (ip.len() > 0 && ip.last() == '/') ==> target_url(ip, no_tls, true) == ip,
        !(ip.len() > 0 && ip.last() == '/') ==> target_url(ip, no_tls, true) == ip + seq!['/'],
        target_url(ip, no_tls, true).len() <= ip.len() + 1,
        target_url(ip, true, true) == target_url(ip, false, true),
{
    assert(ip.push('/') =~= ip + seq!['/']);
}

} // verus!
