//! The periodic request counter display.

use vstd::prelude::*;

use crate::text::{decimal, lemma_parse_decimal, parse_unsigned, push_decimal};

verus! {

broadcast use vstd::string::group_string_axioms;

/// The line that reports how many requests were made.
pub open spec fn requests_made_text(count: nat) -> Seq<char> {
    "\rmade [ "@ + decimal(count) + " ] requests.."@
}

/// The line that reports `count` requests made.
pub fn requests_made(count: usize) -> (line: String)
    ensures
        line@ == requests_made_text(count as nat),
{
    let mut line = "\rmade [ ".to_owned();
    push_decimal(&mut line, count as u64);
    line.append(" ] requests..");
    line
}

/// Law: the counter line shows the count itself: the digits after
/// `\rmade [ ` read back as the count.
pub proof fn lemma_requests_made_count(n: nat)
    ensures
        requests_made_text(n).len() == 8 + decimal(n).len() as int + 13,
        requests_made_text(n).take(8) == "\rmade [ "@,
        requests_made_text(n).subrange(8, 8 + decimal(n).len() as int) == decimal(n),
        requests_made_text(n).skip(8 + decimal(n).len() as int) == " ] requests.."@,
        parse_unsigned(requests_made_text(n).subrange(8, 8 + decimal(n).len() as int), n) == Some(n),
{
    reveal_strlit("\rmade [ ");
    reveal_strlit(" ] requests..");
    let t = requests_made_text(n);
    let d = decimal(n);
    assert(t.take(8) =~= "\rmade [ "@);
    assert(t.subrange(8, 8 + d.len() as int) =~= d);
    assert(t.skip(8 + d.len() as int) =~= " ] requests.."@);
    lemma_parse_decimal(n, n);
}

} // verus!
