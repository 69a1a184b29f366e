//! What one probe of a virtual host reports: whether its response counts
//! as a hit, and the line that tells about it.

use vstd::prelude::*;

use crate::fuzzer::progress_text;
use crate::text::{decimal, lemma_parse_decimal, parse_unsigned, push_decimal};

verus! {

broadcast use vstd::string::group_string_axioms;

/// The HTTP status of a successful response.
pub const STATUS_OK: u16 = 200;

/// How a probe's response is judged.
#[derive(Debug, PartialEq, Eq, Structural, Clone, Copy)]
pub enum ProbeVerdict {
    /// `200` with a body length other than the calibration length: a virtual host.
    Found,
    /// `200` with exactly the calibration length: the server's answer to unknown hosts.
    Filtered,
    /// Any other status.
    Ignored,
}

/// The verdict on a response with `status` and `content_length`, when
/// unknown hosts are answered with a body of `filtered` bytes.
pub open spec fn verdict_of(status: u16, content_length: Option<u64>, filtered: u64) -> ProbeVerdict {
    if status != STATUS_OK {
        ProbeVerdict::Ignored
    } else if content_length == Some(filtered) {
        ProbeVerdict::Filtered
    } else {
        ProbeVerdict::Found
    }
}

/// How an optional length is shown (`{:?}`): `Some(n)` or `None`.
pub open spec fn debug_length(len: Option<u64>) -> Seq<char> {
    match len {
        Some(n) => "Some("@ + decimal(n as nat) + ")"@,
        None => "None"@,
    }
}

/// The report on a hit.
pub open spec fn found_text(status: Seq<char>, subdomain: Seq<char>, len: Option<u64>) -> Seq<char> {
    "[+]  got status '"@ + status + "' on '"@ + subdomain + "' ("@ + debug_length(len) + " bytes)"@
}

/// The report on a response that matches the calibration.
pub open spec fn filtered_text(status: Seq<char>, subdomain: Seq<char>) -> Seq<char> {
    "filtered response ["@ + status + "] for '"@ + subdomain + "'"@
}

/// The report on a request that failed.
pub open spec fn failure_text(error: Seq<char>, subdomain: Seq<char>) -> Seq<char> {
    "[!] "@ + error + " - "@ + subdomain + "\r"@
}

/// The report of a probe for the display: nothing for an ignored response.
pub open spec fn report_text(
    verdict: ProbeVerdict,
    status: Seq<char>,
    subdomain: Seq<char>,
    len: Option<u64>,
) -> Seq<char> {
    match verdict {
        ProbeVerdict::Found => found_text(status, subdomain, len),
        ProbeVerdict::Filtered => filtered_text(status, subdomain),
        ProbeVerdict::Ignored => Seq::empty(),
    }
}

/// The line that shows the report of the `count`-th request.
pub open spec fn report_line_text(count: nat, report: Seq<char>) -> Seq<char> {
    progress_text(count) + report + "\r"@
}

/// What a probe's response amounts to.
pub struct ProbeReport {
    pub verdict: ProbeVerdict,
    pub message: String,
}

/// Judges a response.
pub fn verdict(status: u16, content_length: Option<u64>, filtered: u64) -> (v: ProbeVerdict)
    ensures
        v == verdict_of(status, content_length, filtered),
{
    if status != STATUS_OK {
        ProbeVerdict::Ignored
    } else {
        match content_length {
            Some(n) => if n == filtered {
                ProbeVerdict::Filtered
            } else {
                ProbeVerdict::Found
            },
            None => ProbeVerdict::Found,
        }
    }
}

/// Appends how an optional length is shown.
fn push_debug_length(s: &mut String, len: Option<u64>)
    ensures
        final(s)@ == old(s)@ + debug_length(len),
{
    match len {
        Some(n) => {
            s.append("Some(");
            push_decimal(s, n);
            s.append(")");
        },
        None => s.append("None"),
    }
}

/// The report on a hit: status, subdomain and body length.
pub fn found_message(status: &str, subdomain: &str, content_length: Option<u64>) -> (m: String)
    ensures
        m@ == found_text(status@, subdomain@, content_length),
{
    let mut m = "[+]  got status '".to_owned();
    m.append(status);
    m.append("' on '");
    m.append(subdomain);
    m.append("' (");
    push_debug_length(&mut m, content_length);
    m.append(" bytes)");
    m
}

/// The report on a response that matches the calibration.
pub fn filtered_message(status: &str, subdomain: &str) -> (m: String)
    ensures
        m@ == filtered_text(status@, subdomain@),
{
    let mut m = "filtered response [".to_owned();
    m.append(status);
    m.append("] for '");
    m.append(subdomain);
    m.append("'");
    m
}

/// The report on a request that failed with the error `error`.
pub fn failure_message(error: &str, subdomain: &str) -> (m: String)
    ensures
        m@ == failure_text(error@, subdomain@),
{
    let mut m = "[!] ".to_owned();
    m.append(error);
    m.append(" - ");
    m.append(subdomain);
    m.append("\r");
    m
}

/// Judges a response and words the report on it. `status_text` is how
/// the status is shown (such as `200 OK`).
pub fn report(
    status: u16,
    status_text: &str,
    content_length: Option<u64>,
    filtered: u64,
    subdomain: &str,
) -> (r: ProbeReport)
    ensures
        r.verdict == verdict_of(status, content_length, filtered),
        r.message@ == report_text(r.verdict, status_text@, subdomain@, content_length),
{
    let v = verdict(status, content_length, filtered);
    let message = match v {
        ProbeVerdict::Found => found_message(status_text, subdomain, content_length),
        ProbeVerdict::Filtered => filtered_message(status_text, subdomain),
        ProbeVerdict::Ignored => String::new(),
    };
    ProbeReport { verdict: v, message }
}

/// The line that shows the report of the `count`-th request.
pub fn report_line(count: usize, report: &str) -> (line: String)
    ensures
        line@ == report_line_text(count as nat, report@),
{
    let mut line = "\r[".to_owned();
    push_decimal(&mut line, count as u64);
    line.append("] => ");
    line.append(report);
    line.append("\r");
    line
}

/// Law: a response like the calibration response, `200` with the
/// calibration length, is never reported as a hit; a hit is always a `200`.
pub proof fn lemma_calibration_filtered(content_length: Option<u64>, filtered: u64)
    ensures
        verdict_of(STATUS_OK, Some(filtered), filtered) == ProbeVerdict::Filtered,
        verdict_of(STATUS_OK, content_length, filtered) == ProbeVerdict::Found
            <==> content_length != Some(filtered),
{
}

/// Law: a hit requires status `200`; any other status is ignored.
pub proof fn lemma_only_ok_counts(status: u16, content_length: Option<u64>, filtered: u64)
    ensures
        status != STATUS_OK ==> verdict_of(status, content_length, filtered) == ProbeVerdict::Ignored,
        verdict_of(status, content_length, filtered) != ProbeVerdict::Ignored ==> status == STATUS_OK,
{
}

/// Law: the report on a hit always names status, subdomain and body
/// length, with or without a known length; the report on a filtered
/// response names status and subdomain; an ignored response has none.
pub proof fn lemma_report_texts(status: Seq<char>, subdomain: Seq<char>, n: u64, len: Option<u64>)
    ensures
        report_text(ProbeVerdict::Found, status, subdomain, Some(n)) == "[+]  got status '"@
            + status + "' on '"@ + subdomain + "' (Some("@ + decimal(n as nat) + ") bytes)"@,
        report_text(ProbeVerdict::Found, status, subdomain, None) == "[+]  got status '"@ + status
            + "' on '"@ + subdomain + "' (None bytes)"@,
        report_text(ProbeVerdict::Filtered, status, subdomain, len) == "filtered response ["@
            + status + "] for '"@ + subdomain + "'"@,
        report_text(ProbeVerdict::Ignored, status, subdomain, len).len() == 0,
        failure_text(status, subdomain) == "[!] "@ + status + " - "@ + subdomain + "\r"@,
{
    let a = "[+]  got status '"@ + status + "' on '"@ + subdomain + "' ("@;
    assert(a + ("Some("@ + decimal(n as nat) + ")"@) + " bytes)"@ =~= "[+]  got status '"@
        + status + "' on '"@ + subdomain + "' (Some("@ + decimal(n as nat) + ") bytes)"@) by {
        reveal_strlit("' (");
        reveal_strlit("Some(");
        reveal_strlit(")");
        reveal_strlit("' (Some(");
        reveal_strlit(") bytes)");
        reveal_strlit(" bytes)");
    }
    assert(a + "None"@ + " bytes)"@ =~= "[+]  got status '"@ + status + "' on '"@ + subdomain
        + "' (None bytes)"@) by {
        reveal_strlit("' (");
        reveal_strlit("None");
        reveal_strlit(" bytes)");
        reveal_strlit("' (None bytes)");
    }
}

/// Law: a report line shows the count itself, then the report: the
/// digits between `\r[` and `] => ` read back as the count.
pub proof fn lemma_report_line_count(n: nat, report: Seq<char>)
    ensures
        report_line_text(n, report) == "\r["@ + decimal(n) + "] => "@ + report + "\r"@,
        report_line_text(n, report).subrange(2, 2 + decimal(n).len() as int) == decimal(n),
        parse_unsigned(report_line_text(n, report).subrange(2, 2 + decimal(n).len() as int), n) == Some(n),
        report_line_text(n, report).subrange(2 + decimal(n).len() as int + 5, 2 + decimal(n).len() as int + 5
            + report.len() as int) == report,
        report_line_text(n, report).len() == decimal(n).len() + 7 + report.len() + 1,
{
    reveal_strlit("\r[");
    reveal_strlit("] => ");
    reveal_strlit("\r");
    let t = report_line_text(n, report);
    let d = decimal(n);
    assert(t.subrange(2, 2 + d.len() as int) =~= d);
    assert(t.subrange(2 + d.len() as int + 5, 2 + d.len() as int + 5 + report.len() as int) =~= report);
    lemma_parse_decimal(n, n);
}

} // verus!
