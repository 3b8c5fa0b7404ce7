use vstd::prelude::*;

use crate::decimal::{
    decimal, digits_value, is_canonical_decimal, is_digit, lemma_canonical_unique, lemma_decimal,
    parse_decimal, push_char, write_decimal,
};

verus! {

/// `{"sub":"`
pub open spec fn head_key() -> Seq<char> {
    seq!['{', '"', 's', 'u', 'b', '"', ':', '"']
}

/// `","iat":`
pub open spec fn issued_key() -> Seq<char> {
    seq!['"', ',', '"', 'i', 'a', 't', '"', ':']
}

/// `,"exp":`
pub open spec fn expiry_key() -> Seq<char> {
    seq![',', '"', 'e', 'x', 'p', '"', ':']
}

/// The JSON text of a claim set: subject, issue time and expiry, in that order.
pub open spec fn claims_text(subject: Seq<char>, issued_at: nat, expires_at: nat) -> Seq<char> {
    head_key() + subject + issued_key() + decimal(issued_at) + expiry_key() + decimal(expires_at)
        + seq!['}']
}

pub open spec fn quote_free(s: Seq<char>) -> bool {
    forall|i: int| 0 <= i < s.len() ==> #[trigger] s[i] != '"'
}

pub open spec fn has_at(p: Seq<char>, i: int, pat: Seq<char>) -> bool {
    &&& 0 <= i
    &&& i + pat.len() <= p.len()
    &&& p.subrange(i, i + pat.len()) == pat
}

/// The first index at or after `i` that holds a quote, or the length.
pub open spec fn quote_from(p: Seq<char>, i: int) -> int
    decreases p.len() - i,
{
    if 0 <= i < p.len() && p[i] != '"' {
        quote_from(p, i + 1)
    } else {
        i
    }
}

/// The first index at or after `i` that holds no digit, or the length.
pub open spec fn digits_end(p: Seq<char>, i: int) -> int
    decreases p.len() - i,
{
    if 0 <= i < p.len() && is_digit(p[i]) {
        digits_end(p, i + 1)
    } else {
        i
    }
}

/// Reads a claim set written as `claims_text` with a quote-free subject and both
/// times within `u64`; anything else reads as `None`.
pub open spec fn parse_claims_spec(p: Seq<char>) -> Option<(Seq<char>, nat, nat)> {
    let j = quote_from(p, 8);
    let k = digits_end(p, j + 8);
    let m = digits_end(p, k + 7);
    let a = p.subrange(j + 8, k);
    let b = p.subrange(k + 7, m);
    if has_at(p, 0, head_key()) && has_at(p, j, issued_key()) && is_canonical_decimal(a)
        && has_at(p, k, expiry_key()) && is_canonical_decimal(b) && m + 1 == p.len() && p[m]
        == '}' && digits_value(a) <= u64::MAX && digits_value(b) <= u64::MAX {
        Some((p.subrange(8, j), digits_value(a), digits_value(b)))
    } else {
        None
    }
}

proof fn lemma_quote_from(p: Seq<char>, i: int, j: int)
    requires
        0 <= i <= j <= p.len(),
        forall|k: int| i <= k < j ==> #[trigger] p[k] != '"',
        j == p.len() || p[j] == '"',
    ensures
        quote_from(p, i) == j,
    decreases j - i,
{
    if i < j {
        lemma_quote_from(p, i + 1, j);
    }
}

proof fn lemma_digits_end(p: Seq<char>, i: int, j: int)
    requires
        0 <= i <= j <= p.len(),
        forall|k: int| i <= k < j ==> is_digit(#[trigger] p[k]),
        j == p.len() || !is_digit(p[j]),
    ensures
        digits_end(p, i) == j,
    decreases j - i,
{
    if i < j {
        lemma_digits_end(p, i + 1, j);
    }
}

/// What `parse_claims_spec` reads is exactly the text it was read from.
pub proof fn lemma_parse_sound(p: Seq<char>)
    requires
        parse_claims_spec(p) is Some,
    ensures
        ({
            let (s, i, e) = parse_claims_spec(p)->Some_0;
            p == claims_text(s, i, e) && quote_free(s)
        }),
{
    let j = quote_from(p, 8);
    let k = digits_end(p, j + 8);
    let m = digits_end(p, k + 7);
    let a = p.subrange(j + 8, k);
    let b = p.subrange(k + 7, m);
    lemma_quote_from_facts(p, 8);
    lemma_digits_end_bounds(p, j + 8);
    lemma_digits_end_bounds(p, k + 7);
    lemma_canonical_unique(a);
    lemma_canonical_unique(b);
    let s = p.subrange(8, j);
    assert(quote_free(s)) by {
        assert forall|t: int| 0 <= t < s.len() implies #[trigger] s[t] != '"' by {
            assert(s[t] == p[8 + t]);
        }
    }
    assert(p =~= claims_text(s, digits_value(a), digits_value(b))) by {
        assert(p.subrange(0, 8) =~= head_key());
        assert(p.subrange(j, j + 8) =~= issued_key());
        assert(p.subrange(k, k + 7) =~= expiry_key());
        assert(p =~= p.subrange(0, 8) + s + p.subrange(j, j + 8) + a + p.subrange(k, k + 7) + b
            + seq![p[m]]);
    }
}

proof fn lemma_quote_from_facts(p: Seq<char>, i: int)
    requires
        0 <= i <= p.len(),
    ensures
        i <= quote_from(p, i) <= p.len(),
        forall|k: int| i <= k < quote_from(p, i) ==> #[trigger] p[k] != '"',
    decreases p.len() - i,
{
    if i < p.len() && p[i] != '"' {
        lemma_quote_from_facts(p, i + 1);
    }
}

proof fn lemma_digits_end_bounds(p: Seq<char>, i: int)
    ensures
        i <= digits_end(p, i),
        0 <= i <= p.len() ==> digits_end(p, i) <= p.len(),
        forall|k: int| i <= k < digits_end(p, i) ==> is_digit(#[trigger] p[k]),
    decreases p.len() - i,
{
    if 0 <= i < p.len() && is_digit(p[i]) {
        lemma_digits_end_bounds(p, i + 1);
    }
}

/// A claim set written with a quote-free subject reads back as written.
pub proof fn lemma_parse_claims_text(s: Seq<char>, i: nat, e: nat)
    requires
        quote_free(s),
        i <= u64::MAX,
        e <= u64::MAX,
    ensures
        parse_claims_spec(claims_text(s, i, e)) == Some((s, i, e)),
{
    let p = claims_text(s, i, e);
    let di = decimal(i);
    let de = decimal(e);
    lemma_decimal(i);
    lemma_decimal(e);
    let j: int = 8 + s.len() as int;
    let a0: int = j + 8;
    let k: int = a0 + di.len() as int;
    let b0: int = k + 7;
    let m: int = b0 + de.len() as int;
    assert(p.len() == m + 1);
    assert(p.subrange(0, 8) =~= head_key());
    assert(p.subrange(8, j) =~= s);
    assert(p.subrange(j, a0) =~= issued_key());
    assert(p.subrange(a0, k) =~= di);
    assert(p.subrange(k, b0) =~= expiry_key());
    assert(p.subrange(b0, m) =~= de);
    assert(p[m] == '}');
    assert forall|t: int| 8 <= t < j implies #[trigger] p[t] != '"' by {
        assert(p[t] == s[t - 8]);
    }
    assert(p[j] == '"');
    lemma_quote_from(p, 8, j);
    assert forall|t: int| a0 <= t < k implies is_digit(#[trigger] p[t]) by {
        assert(p[t] == di[t - a0]);
    }
    assert(p[k] == ',');
    lemma_digits_end(p, a0, k);
    assert forall|t: int| b0 <= t < m implies is_digit(#[trigger] p[t]) by {
        assert(p[t] == de[t - b0]);
    }
    lemma_digits_end(p, b0, m);
}

/// Appends each character of `cs` to `out`.
pub(crate) fn push_chars(out: &mut String, cs: &Vec<char>)
    ensures
        final(out)@ == old(out)@ + cs@,
{
    let mut i: usize = 0;
    while i < cs.len()
        invariant
            i <= cs@.len(),
            out@ == old(out)@ + cs@.subrange(0, i as int),
        decreases cs.len() - i,
    {
        push_char(out, cs[i]);
        i = i + 1;
        assert(out@ =~= old(out)@ + cs@.subrange(0, i as int));
    }
    assert(cs@.subrange(0, i as int) =~= cs@);
}

fn head_chars() -> (v: Vec<char>)
    ensures
        v@ == head_key(),
{
    let mut v: Vec<char> = Vec::new();
    v.push('{');
    v.push('"');
    v.push('s');
    v.push('u');
    v.push('b');
    v.push('"');
    v.push(':');
    v.push('"');
    assert(v@ =~= head_key());
    v
}

fn issued_chars() -> (v: Vec<char>)
    ensures
        v@ == issued_key(),
{
    let mut v: Vec<char> = Vec::new();
    v.push('"');
    v.push(',');
    v.push('"');
    v.push('i');
    v.push('a');
    v.push('t');
    v.push('"');
    v.push(':');
    assert(v@ =~= issued_key());
    v
}

fn expiry_chars() -> (v: Vec<char>)
    ensures
        v@ == expiry_key(),
{
    let mut v: Vec<char> = Vec::new();
    v.push(',');
    v.push('"');
    v.push('e');
    v.push('x');
    v.push('p');
    v.push('"');
    v.push(':');
    assert(v@ =~= expiry_key());
    v
}

/// Writes the claim set of a numeric subject.
pub fn write_claims(subject: u64, issued_at: u64, expires_at: u64) -> (r: String)
    ensures
        r@ == claims_text(decimal(subject as nat), issued_at as nat, expires_at as nat),
{
    let mut out = String::new();
    push_chars(&mut out, &head_chars());
    write_decimal(&mut out, subject);
    push_chars(&mut out, &issued_chars());
    write_decimal(&mut out, issued_at);
    push_chars(&mut out, &expiry_chars());
    write_decimal(&mut out, expires_at);
    push_char(&mut out, '}');
    assert(out@ =~= claims_text(decimal(subject as nat), issued_at as nat, expires_at as nat));
    out
}

/// Whether `p[pos..]` starts with `pat`.
pub(crate) fn has_at_exec(p: &str, n: usize, pos: usize, pat: &Vec<char>) -> (r: bool)
    requires
        n == p@.len(),
    ensures
        r == has_at(p@, pos as int, pat@),
{
    if pos > n || pat.len() > n - pos {
        return false;
    }
    let mut t: usize = 0;
    while t < pat.len()
        invariant
            pos + pat@.len() <= n == p@.len(),
            t <= pat@.len(),
            p@.subrange(pos as int, pos + t) == pat@.subrange(0, t as int),
        decreases pat.len() - t,
    {
        if p.get_char(pos + t) != pat[t] {
            assert(p@.subrange(pos as int, pos + pat@.len())[t as int] == p@[pos + t]);
            return false;
        }
        t = t + 1;
        assert(p@.subrange(pos as int, pos + t) =~= pat@.subrange(0, t as int));
    }
    assert(pat@.subrange(0, t as int) =~= pat@);
    true
}

/// The first index at or after `from` that holds no digit, or the length.
fn scan_digits(p: &str, n: usize, from: usize) -> (r: usize)
    requires
        n == p@.len(),
        from <= n,
    ensures
        r == digits_end(p@, from as int),
        from <= r <= n,
{
    proof {
        lemma_digits_end_bounds(p@, from as int);
    }
    let mut i: usize = from;
    while i < n && '0' <= p.get_char(i) && p.get_char(i) <= '9'
        invariant
            from <= i <= n == p@.len(),
            digits_end(p@, i as int) == digits_end(p@, from as int),
        decreases n - i,
    {
        i = i + 1;
    }
    i
}

/// Reads a claim set: the subject, the issue time and the expiry.
pub fn parse_claims(p: &str) -> (r: Option<(String, u64, u64)>)
    ensures
        match r {
            Some((s, i, e)) => parse_claims_spec(p@) == Some((s@, i as nat, e as nat)),
            None => parse_claims_spec(p@) is None,
        },
{
    let n = p.unicode_len();
    if !has_at_exec(p, n, 0, &head_chars()) {
        return None;
    }
    let mut j: usize = 8;
    while j < n && p.get_char(j) != '"'
        invariant
            8 <= j <= n == p@.len(),
            quote_from(p@, j as int) == quote_from(p@, 8),
        decreases n - j,
    {
        j = j + 1;
    }
    if !has_at_exec(p, n, j, &issued_chars()) {
        return None;
    }
    let k = scan_digits(p, n, j + 8);
    let issued = parse_decimal(p, j + 8, k);
    if issued.is_none() || !has_at_exec(p, n, k, &expiry_chars()) {
        return None;
    }
    let m = scan_digits(p, n, k + 7);
    let expires = parse_decimal(p, k + 7, m);
    if expires.is_none() || m >= n || m != n - 1 || p.get_char(m) != '}' {
        return None;
    }
    let subject = p.substring_char(8, j).to_owned();
    Some((subject, issued.unwrap(), expires.unwrap()))
}

} // verus!
