//! Text utilities shared by the rest of the library: decimal numbers,
//! line splitting and string building.

use vstd::prelude::*;

verus! {

broadcast use vstd::string::group_string_axioms;

/// Appends one character to a `String` (`String::push`).
/// Claimed: the new contents are the old contents followed by `c`.
#[verifier::external_body]
pub(crate) fn push_char(s: &mut String, c: char)
    ensures
        final(s)@ == old(s)@.push(c),
{
    s.push(c);
}

// ---------------------------------------------------------------------------
// Decimal numbers
// ---------------------------------------------------------------------------

/// An ASCII decimal digit.
pub open spec fn is_digit(c: char) -> bool {
    '0' <= c && c <= '9'
}

/// The value of an ASCII decimal digit.
pub open spec fn digit_value(c: char) -> nat {
    (c as int - '0' as int) as nat
}

/// The ASCII digit for a value below ten.
pub open spec fn digit_char(d: nat) -> char {
    ((d + 48) as u8) as char
}

pub open spec fn all_digits(s: Seq<char>) -> bool {
    forall|i: int| 0 <= i < s.len() ==> is_digit(#[trigger] s[i])
}

/// The number that a string of decimal digits denotes (most significant first).
pub open spec fn digits_value(s: Seq<char>) -> nat
    decreases s.len(),
{
    if s.len() == 0 {
        0
    } else {
        digits_value(s.drop_last()) * 10 + digit_value(s.last())
    }
}

/// What follows an optional leading `+` sign.
pub open spec fn unsigned_body(s: Seq<char>) -> Seq<char> {
    if s.len() > 0 && s[0] == '+' {
        s.drop_first()
    } else {
        s
    }
}

/// How an unsigned integer no larger than `max` is read from text: an
/// optional `+`, then one or more ASCII digits, whose value must not
/// exceed `max`. Anything else (empty text, a lone `+`, a `-`, blanks,
/// any other character, a value above `max`) is no number.
pub open spec fn parse_unsigned(s: Seq<char>, max: nat) -> Option<nat> {
    let b = unsigned_body(s);
    if b.len() > 0 && all_digits(b) && digits_value(b) <= max {
        Some(digits_value(b))
    } else {
        None
    }
}

/// The shortest decimal form of `n`: no sign, no leading zero (but `0` itself).
pub open spec fn decimal(n: nat) -> Seq<char>
    decreases n,
{
    if n < 10 {
        seq![digit_char(n)]
    } else {
        decimal(n / 10).push(digit_char(n % 10))
    }
}

pub proof fn lemma_digit_char(d: nat)
    requires
        d < 10,
    ensures
        is_digit(digit_char(d)),
        digit_value(digit_char(d)) == d,
{
}

/// The digits of a prefix never denote more than the whole digit string.
pub proof fn lemma_digits_value_prefix(t: Seq<char>, k: int)
    requires
        all_digits(t),
        0 <= k <= t.len(),
    ensures
        digits_value(t.take(k)) <= digits_value(t),
    decreases t.len(),
{
    if k == t.len() {
        assert(t.take(k) =~= t);
    } else {
        let d = t.drop_last();
        assert(d.take(k) =~= t.take(k));
        assert(all_digits(d)) by {
            assert forall|i: int| 0 <= i < d.len() implies is_digit(#[trigger] d[i]) by {
                assert(d[i] == t[i]);
            }
        }
        lemma_digits_value_prefix(d, k);
    }
}

/// `decimal` writes digits only, and reading them back gives the number.
pub proof fn lemma_decimal_digits(n: nat)
    ensures
        decimal(n).len() > 0,
        all_digits(decimal(n)),
        digits_value(decimal(n)) == n,
    decreases n,
{
    if n < 10 {
        lemma_digit_char(n);
        assert(decimal(n).drop_last() =~= Seq::<char>::empty());
        assert(digits_value(Seq::<char>::empty()) == 0);
    } else {
        lemma_decimal_digits(n / 10);
        lemma_digit_char(n % 10);
        let s = decimal(n);
        assert(s.drop_last() =~= decimal(n / 10));
        assert(s.last() == digit_char(n % 10));
        assert(n == (n / 10) * 10 + n % 10) by (nonlinear_arith);
        assert forall|i: int| 0 <= i < s.len() implies is_digit(#[trigger] s[i]) by {
            if i < s.len() - 1 {
                assert(s[i] == decimal(n / 10)[i]);
            }
        }
    }
}

/// Law: reading back the decimal form of a number gives that number.
pub proof fn lemma_parse_decimal(n: nat, max: nat)
    requires
        n <= max,
    ensures
        parse_unsigned(decimal(n), max) == Some(n),
{
    lemma_decimal_digits(n);
    assert(is_digit(decimal(n)[0]));
    assert(unsigned_body(decimal(n)) == decimal(n));
}

/// The character of a decimal digit.
fn digit_to_char(d: u64) -> (c: char)
    requires
        d < 10,
    ensures
        c == digit_char(d as nat),
{
    let b: u8 = 48u8 + (d as u8);
    b as char
}

/// Appends the decimal form of `n` to `s`.
pub fn push_decimal(s: &mut String, n: u64)
    ensures
        final(s)@ == old(s)@ + decimal(n as nat),
    decreases n,
{
    if n >= 10 {
        push_decimal(s, n / 10);
    }
    let c = digit_to_char(n % 10);
    push_char(s, c);
    proof {
        if n >= 10 {
            assert(decimal(n as nat) == decimal((n / 10) as nat).push(digit_char((n % 10) as nat)));
        } else {
            assert(decimal(n as nat) == seq![digit_char(n as nat)]);
        }
    }
}

/// The decimal form of `n` (as `n.to_string()` writes it).
pub fn decimal_string(n: u64) -> (s: String)
    ensures
        s@ == decimal(n as nat),
{
    let mut s = String::new();
    push_decimal(&mut s, n);
    s
}

/// Reads an unsigned machine-size integer from text, the way
/// `str::parse::<usize>` does.
pub fn parse_usize(s: &str) -> (r: Option<usize>)
    ensures
        match r {
            Some(n) => parse_unsigned(s@, usize::MAX as nat) == Some(n as nat),
            None => parse_unsigned(s@, usize::MAX as nat) is None,
        },
{
    if s.is_empty() {
        return None;
    }
    let body: &str = if s.get_char(0) == '+' {
        s.substring_char(1, s.unicode_len())
    } else {
        s
    };
    proof {
        assert(body@ == unsigned_body(s@));
    }
    if body.is_empty() {
        return None;
    }
    let mut acc: usize = 0;
    for c in it: body.chars()
        invariant
            it.seq() == body@,
            body@ == unsigned_body(s@),
            body@.len() > 0,
            all_digits(body@.take(it.index() as int)),
            acc as nat == digits_value(body@.take(it.index() as int)),
    {
        let ghost k = it.index() as int;
        let ghost t = body@.take(k + 1);
        assert(c == body@[k]);
        assert(t.drop_last() =~= body@.take(k));
        if c < '0' || c > '9' {
            assert(!all_digits(body@)) by {
                assert(!is_digit(body@[k]));
            }
            return None;
        }
        let d: usize = (c as u32 - 48u32) as usize;
        assert(d as nat == digit_value(c));
        let next = match acc.checked_mul(10) {
            Some(m) => m.checked_add(d),
            None => None,
        };
        match next {
            Some(v) => {
                acc = v;
                assert(all_digits(t)) by {
                    assert forall|i: int| 0 <= i < t.len() implies is_digit(#[trigger] t[i]) by {
                        if i < k {
                            assert(t[i] == body@.take(k)[i]);
                        }
                    }
                }
            },
            None => {
                assert(parse_unsigned(s@, usize::MAX as nat) is None) by {
                    if all_digits(body@) {
                        lemma_digits_value_prefix(body@, k + 1);
                    }
                }
                return None;
            },
        }
    }
    assert(body@.take(body@.len() as int) =~= body@);
    Some(acc)
}

// ---------------------------------------------------------------------------
// Lines
// ---------------------------------------------------------------------------

pub open spec fn has_newline(s: Seq<char>) -> bool {
    s.contains('\n')
}

/// A line without its terminator: a `\r` that stood just before the `\n`
/// is part of the terminator.
pub open spec fn without_cr(line: Seq<char>) -> Seq<char> {
    if line.len() > 0 && line.last() == '\r' {
        line.drop_last()
    } else {
        line
    }
}

/// The lines of a text, as `str::lines` gives them: the text is cut after
/// each `\n`; each piece loses its `\n` and a `\r` just before it; a last
/// piece without `\n` is a line as it stands, and an empty last piece is
/// no line.
pub open spec fn lines_of(s: Seq<char>) -> Seq<Seq<char>>
    decreases s.len(),
{
    match s.index_of_first('\n') {
        Some(i) => {
            proof {
                s.index_of_first_ensures('\n');
            }
            seq![without_cr(s.take(i))] + lines_of(s.skip(i + 1))
        },
        None => if s.len() == 0 {
            seq![]
        } else {
            seq![s]
        },
    }
}

/// The lines of a text that holds a `\n` at `cur.len()` and none before.
pub proof fn lemma_lines_of_newline(cur: Seq<char>, rest: Seq<char>)
    requires
        !has_newline(cur),
        rest.len() > 0,
        rest[0] == '\n',
    ensures
        lines_of(cur + rest) == seq![without_cr(cur)] + lines_of(rest.skip(1)),
{
    let s = cur + rest;
    s.index_of_first_ensures('\n');
    assert(s[cur.len() as int] == '\n');
    assert(s.contains('\n'));
    let i = s.index_of_first('\n').unwrap();
    if i < cur.len() {
        assert(cur[i] == s[i]);
        assert(cur.contains('\n'));
    }
    assert(i == cur.len());
    assert(s.take(i) =~= cur);
    assert(s.skip(i + 1) =~= rest.skip(1));
}

/// The lines of a text without any `\n`.
pub proof fn lemma_lines_of_no_newline(s: Seq<char>)
    requires
        !has_newline(s),
    ensures
        lines_of(s) == (if s.len() == 0 { Seq::<Seq<char>>::empty() } else { seq![s] }),
{
    s.index_of_first_ensures('\n');
}

/// Splits a text into its lines (`str::lines`).
pub fn split_lines(s: &str) -> (lines: Vec<String>)
    ensures
        lines.deep_view() == lines_of(s@),
{
    let mut out: Vec<String> = Vec::new();
    let mut cur = String::new();
    let mut pending_cr = false;
    assert(s@.skip(0) =~= s@);
    assert(cur@ + s@ =~= s@);
    assert(out.deep_view() + lines_of(s@) =~= lines_of(s@));
    assert(!cur@.contains('\n'));
    for c in it: s.chars()
        invariant
            it.seq() == s@,
            ({
                let full = if pending_cr { cur@.push('\r') } else { cur@ };
                &&& !has_newline(full)
                &&& lines_of(s@) == out.deep_view() + lines_of(full + s@.skip(it.index() as int))
            }),
            !pending_cr ==> (cur@.len() == 0 || cur@.last() != '\r'),
    {
        let ghost k = it.index() as int;
        let ghost full = if pending_cr { cur@.push('\r') } else { cur@ };
        let ghost old_out = out.deep_view();
        assert(c == s@[k]);
        assert(s@.skip(k) =~= seq![c] + s@.skip(k + 1));
        if c == '\n' {
            proof {
                lemma_lines_of_newline(full, s@.skip(k));
                assert(s@.skip(k).skip(1) =~= s@.skip(k + 1));
                assert(without_cr(full) == cur@);
            }
            let line = cur;
            out.push(line);
            cur = String::new();
            pending_cr = false;
            proof {
                assert(out.deep_view() =~= old_out + seq![without_cr(full)]);
                assert(Seq::<char>::empty() + s@.skip(k + 1) =~= s@.skip(k + 1));
            }
        } else {
            if pending_cr {
                push_char(&mut cur, '\r');
            }
            if c == '\r' {
                pending_cr = true;
            } else {
                push_char(&mut cur, c);
                pending_cr = false;
            }
            proof {
                let nfull = if pending_cr { cur@.push('\r') } else { cur@ };
                assert(nfull =~= full.push(c));
                assert(full + s@.skip(k) =~= nfull + s@.skip(k + 1));
                if nfull.contains('\n') {
                    let j = choose|j: int| 0 <= j < nfull.len() && nfull[j] == '\n';
                    if j < full.len() {
                        assert(full[j] == nfull[j]);
                        assert(full.contains('\n'));
                    }
                }
            }
        }
    }
    let ghost full = if pending_cr { cur@.push('\r') } else { cur@ };
    assert(s@.skip(s@.len() as int) =~= Seq::<char>::empty());
    assert(full + Seq::<char>::empty() =~= full);
    if pending_cr {
        push_char(&mut cur, '\r');
    }
    proof {
        lemma_lines_of_no_newline(full);
    }
    if !cur.as_str().is_empty() {
        let ghost old_out = out.deep_view();
        out.push(cur);
        assert(out.deep_view() =~= old_out + seq![full]);
    } else {
        assert(out.deep_view() =~= out.deep_view() + Seq::<Seq<char>>::empty());
    }
    out
}

/// A line that reads back as itself: no `\n` in it and no `\r` at its end.
pub open spec fn is_plain_line(w: Seq<char>) -> bool {
    !has_newline(w) && !(w.len() > 0 && w.last() == '\r')
}

/// The text that holds the given lines, each followed by `\n`.
pub open spec fn terminated_lines(ws: Seq<Seq<char>>) -> Seq<char>
    decreases ws.len(),
{
    if ws.len() == 0 {
        Seq::empty()
    } else {
        ws[0] + seq!['\n'] + terminated_lines(ws.drop_first())
    }
}

/// Law: writing plain lines, each followed by `\n`, and splitting the text
/// into lines gives the same lines back.
pub proof fn lemma_lines_of_terminated(ws: Seq<Seq<char>>)
    requires
        forall|i: int| 0 <= i < ws.len() ==> is_plain_line(#[trigger] ws[i]),
    ensures
        lines_of(terminated_lines(ws)) == ws,
    decreases ws.len(),
{
    if ws.len() == 0 {
        lemma_lines_of_no_newline(Seq::<char>::empty());
    } else {
        let rest = ws.drop_first();
        assert forall|i: int| 0 <= i < rest.len() implies is_plain_line(#[trigger] rest[i]) by {
            assert(rest[i] == ws[i + 1]);
        }
        lemma_lines_of_terminated(rest);
        let tail = seq!['\n'] + terminated_lines(rest);
        assert(terminated_lines(ws) =~= ws[0] + tail);
        assert(is_plain_line(ws[0]));
        lemma_lines_of_newline(ws[0], tail);
        assert(tail.skip(1) =~= terminated_lines(rest));
        assert(without_cr(ws[0]) == ws[0]);
        assert(seq![ws[0]] + rest =~= ws);
    }
}

/// Law: a final line ending changes nothing: a non-empty text that does
/// not already end with `\n` or `\r` has the same lines with `\n` or
/// `\r\n` after it.
pub proof fn lemma_final_line_ending_optional(t: Seq<char>)
    requires
        t.len() > 0,
        t.last() != '\n',
        t.last() != '\r',
    ensures
        lines_of(t + seq!['\n']) == lines_of(t),
        lines_of(t + seq!['\r', '\n']) == lines_of(t),
    decreases t.len(),
{
    let nl = seq!['\n'];
    let crnl = seq!['\r', '\n'];
    t.index_of_first_ensures('\n');
    match t.index_of_first('\n') {
        None => {
            lemma_lines_of_no_newline(t);
            lemma_lines_of_newline(t, nl);
            assert(nl.skip(1) =~= Seq::<char>::empty());
            lemma_lines_of_no_newline(Seq::<char>::empty());
            let tr = t.push('\r');
            assert(!tr.contains('\n')) by {
                if tr.contains('\n') {
                    let j = choose|j: int| 0 <= j < tr.len() && tr[j] == '\n';
                    assert(t[j] == tr[j]);
                }
            }
            assert(t + crnl =~= tr + nl);
            lemma_lines_of_newline(tr, nl);
            assert(tr.drop_last() =~= t);
        },
        Some(i) => {
            let cur = t.take(i);
            let rest = t.skip(i);
            let after = t.skip(i + 1);
            assert(!cur.contains('\n')) by {
                if cur.contains('\n') {
                    let j = choose|j: int| 0 <= j < cur.len() && cur[j] == '\n';
                    assert(t[j] == cur[j]);
                }
            }
            assert(t =~= cur + rest);
            lemma_lines_of_newline(cur, rest);
            assert(rest.skip(1) =~= after);
            assert(after.len() > 0);
            assert(after.last() == t.last());
            lemma_final_line_ending_optional(after);
            assert(t + nl =~= cur + (rest + nl));
            lemma_lines_of_newline(cur, rest + nl);
            assert((rest + nl).skip(1) =~= after + nl);
            assert(t + crnl =~= cur + (rest + crnl));
            lemma_lines_of_newline(cur, rest + crnl);
            assert((rest + crnl).skip(1) =~= after + crnl);
        },
    }
}

/// Law: the decimal form has no leading zero: `0` is written `0`, and any
/// other number starts with a digit from `1` to `9`.
pub proof fn lemma_decimal_no_leading_zero(n: nat)
    ensures
        n == 0 ==> decimal(n) == seq!['0'],
        n > 0 ==> decimal(n)[0] != '0' && is_digit(decimal(n)[0]),
    decreases n,
{
    lemma_decimal_digits(n);
    if n >= 10 {
        lemma_decimal_no_leading_zero(n / 10);
        assert(decimal(n)[0] == decimal(n / 10)[0]);
    } else if n > 0 {
        assert(digits_value(decimal(n).drop_last()) == 0) by {
            assert(decimal(n).drop_last() =~= Seq::<char>::empty());
        }
        assert(digit_value(decimal(n)[0]) == n);
    } else {
        assert(digit_char(0) == '0');
    }
}

} // verus!
