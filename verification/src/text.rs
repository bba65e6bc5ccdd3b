//! Small pieces of text: decimal numbers, durations, joined lines.

use vstd::prelude::*;
use vstd::string::*;

verus! {

/// The character of one decimal digit.
pub open spec fn digit_char(d: nat) -> char {
    if d == 0 {
        '0'
    } else if d == 1 {
        '1'
    } else if d == 2 {
        '2'
    } else if d == 3 {
        '3'
    } else if d == 4 {
        '4'
    } else if d == 5 {
        '5'
    } else if d == 6 {
        '6'
    } else if d == 7 {
        '7'
    } else if d == 8 {
        '8'
    } else {
        '9'
    }
}

/// A number in decimal digits, without leading zeros.
pub open spec fn decimal_digits(n: nat) -> Seq<char>
    decreases n,
{
    if n < 10 {
        seq![digit_char(n)]
    } else {
        decimal_digits(n / 10).push(digit_char(n % 10))
    }
}

/// A number in decimal digits, with a leading zero below ten.
pub open spec fn two_digits(n: nat) -> Seq<char> {
    if n < 10 {
        "0"@ + decimal_digits(n)
    } else {
        decimal_digits(n)
    }
}

/// A count of minutes as hours and minutes, `HH:MM`.
pub open spec fn duration_digits(minutes: nat) -> Seq<char> {
    two_digits(minutes / 60) + ":"@ + two_digits(minutes % 60)
}

/// The pieces in order, with `sep` between each two of them.
pub open spec fn joined(pieces: Seq<Seq<char>>, sep: Seq<char>) -> Seq<char>
    decreases pieces.len(),
{
    if pieces.len() == 0 {
        Seq::empty()
    } else if pieces.len() == 1 {
        pieces[0]
    } else {
        joined(pieces.drop_last(), sep) + sep + pieces.last()
    }
}

/// The texts of some strings.
pub open spec fn texts(lines: Seq<String>) -> Seq<Seq<char>> {
    lines.map_values(|s: String| s@)
}

/// The order of texts: character by character, by the characters' numbers,
/// and a text comes after each of its proper beginnings.
pub open spec fn text_before(a: Seq<char>, b: Seq<char>) -> bool
    decreases a.len(),
{
    if b.len() == 0 {
        false
    } else if a.len() == 0 {
        true
    } else if a[0] != b[0] {
        (a[0] as int) < (b[0] as int)
    } else {
        text_before(a.drop_first(), b.drop_first())
    }
}

/// Of two different texts one comes before the other.
pub proof fn lemma_text_order_total(a: Seq<char>, b: Seq<char>)
    ensures
        a == b || text_before(a, b) || text_before(b, a),
    decreases a.len(),
{
    if a.len() == 0 || b.len() == 0 {
        if a.len() == 0 && b.len() == 0 {
            assert(a =~= b);
        }
    } else if a[0] == b[0] {
        lemma_text_order_total(a.drop_first(), b.drop_first());
        if a.drop_first() == b.drop_first() {
            assert(a =~= seq![a[0]] + a.drop_first());
            assert(b =~= seq![b[0]] + b.drop_first());
        }
    }
}

/// What comes before a text comes before all that the text comes before.
pub proof fn lemma_text_order_transitive(a: Seq<char>, b: Seq<char>, c: Seq<char>)
    requires
        text_before(a, b),
        text_before(b, c),
    ensures
        text_before(a, c),
    decreases a.len(),
{
    if a.len() > 0 && b.len() > 0 && c.len() > 0 && a[0] == b[0] && b[0] == c[0] {
        lemma_text_order_transitive(a.drop_first(), b.drop_first(), c.drop_first());
    }
}

/// Calls std's `<` on two `str`.
/// Claimed: std orders strings by their bytes, which is the order of their
/// characters' numbers, position by position.
#[verifier::external_body]
pub(crate) fn name_before(a: &str, b: &str) -> (before: bool)
    ensures
        before == text_before(a@, b@),
{
    a < b
}

/// The pieces in order, with `sep` between each two of them.
pub fn join(pieces: &Vec<String>, sep: &str) -> (text: String)
    ensures
        text@ == joined(texts(pieces@), sep@),
{
    let mut text = String::new();
    let mut i: usize = 0;
    while i < pieces.len()
        invariant
            i <= pieces.len(),
            text@ == joined(texts(pieces@.take(i as int)), sep@),
        decreases pieces.len() - i,
    {
        proof {
            let now = texts(pieces@.take(i + 1));
            assert(now.drop_last() =~= texts(pieces@.take(i as int)));
            assert(now.last() == pieces@[i as int]@);
            if i == 0 {
                assert(text@ =~= Seq::<char>::empty());
                assert(now[0] =~= text@ + pieces@[0]@);
            }
        }
        if i > 0 {
            text.append(sep);
        }
        text.append(pieces[i].as_str());
        i += 1;
    }
    assert(pieces@.take(pieces.len() as int) =~= pieces@);
    text
}

/// Calls std's `ToString::to_string` on a `u128`.
/// Claimed: the text is the number in decimal digits without leading zeros.
#[verifier::external_body]
fn decimal_text(n: u128) -> (text: String)
    ensures
        text@ == decimal_digits(n as nat),
{
    n.to_string()
}

fn two_digit_text(n: u128) -> (text: String)
    ensures
        text@ == two_digits(n as nat),
{
    let digits = decimal_text(n);
    if n < 10 {
        String::from_str("0").concat(digits.as_str())
    } else {
        digits
    }
}

/// The display form of a count of minutes.
pub fn duration_text(minutes: u128) -> (text: String)
    ensures
        text@ == duration_digits(minutes as nat),
{
    let mut text = two_digit_text(minutes / 60);
    text.append(":");
    let low = two_digit_text(minutes % 60);
    text.append(low.as_str());
    text
}

} // verus!
