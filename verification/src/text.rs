//! Decimal text of numbers, and the forms in which types, nodes and counters
//! are displayed. Numbers are written, and pieces of text joined, by std's
//! formatting.

use vstd::prelude::*;

verus! {

/// The digit character for `d`, below ten.
pub open spec fn digit_char(d: nat) -> char {
    (d + 48) as char
}

/// The decimal digits of `n`, most significant first, with no leading zero.
pub open spec fn decimal(n: nat) -> Seq<char>
    decreases n,
{
    if n < 10 {
        seq![digit_char(n)]
    } else {
        decimal(n / 10).push(digit_char(n % 10))
    }
}

/// Formats `[elem; len]`, with `len` in decimal.
pub(crate) fn array_text(elem: &str, len: usize) -> (r: String)
    ensures
        r@ == seq!['['] + elem@ + seq![';', ' '] + decimal(len as nat) + seq![']'],
{
    proof {
        reveal_strlit("[");
        reveal_strlit("; ");
        reveal_strlit("]");
    }
    let open = joined_text("[", elem);
    let sep = joined_text(open.as_str(), "; ");
    let digits = decimal_text(len);
    let body = joined_text(sep.as_str(), digits.as_str());
    let r = joined_text(body.as_str(), "]");
    assert(r@ =~= seq!['['] + elem@ + seq![';', ' '] + decimal(len as nat) + seq![']']);
    r
}

/// Formats `name(n)`, with `n` in decimal.
pub(crate) fn call_text(name: &str, n: usize) -> (r: String)
    ensures
        r@ == name@ + seq!['('] + decimal(n as nat) + seq![')'],
{
    proof {
        reveal_strlit("(");
        reveal_strlit(")");
    }
    let open = joined_text(name, "(");
    let digits = decimal_text(n);
    let body = joined_text(open.as_str(), digits.as_str());
    let r = joined_text(body.as_str(), ")");
    assert(r@ =~= name@ + seq!['('] + decimal(n as nat) + seq![')']);
    r
}

/// Writes `n` in decimal with `format!`.
#[verifier::external_body]
pub(crate) fn decimal_text(n: usize) -> (r: String)
    ensures
        r@ == decimal(n as nat),
{
    format!("{}", n)
}

/// Joins `prefix` and `s` with `format!`.
#[verifier::external_body]
pub(crate) fn joined_text(prefix: &str, s: &str) -> (r: String)
    ensures
        r@ == prefix@ + s@,
{
    format!("{}{}", prefix, s)
}

} // verus!
