//! Character and number text handling that the entry fields rely on.
use vstd::prelude::*;
use vstd::string::StrSliceExecFns;

verus! {

/// An ASCII decimal digit.
pub open spec fn is_ascii_digit(c: char) -> bool {
    '0' <= c && c <= '9'
}

/// The value of an ASCII decimal digit.
pub open spec fn digit_value(c: char) -> int {
    (c as int) - ('0' as int)
}

/// A non-empty run of ASCII decimal digits.
pub open spec fn all_digits(s: Seq<char>) -> bool {
    &&& s.len() > 0
    &&& forall|i: int| 0 <= i < s.len() ==> is_ascii_digit(#[trigger] s[i])
}

/// The value of a run of decimal digits, most significant first.
pub open spec fn digits_value(s: Seq<char>) -> int
    decreases s.len(),
{
    if s.len() == 0 {
        0
    } else {
        digits_value(s.drop_last()) * 10 + digit_value(s.last())
    }
}

/// The value an `i32` written in decimal text stands for: an optional `+` or
/// `-` sign followed by one or more digits, nothing else, and within range.
pub open spec fn decimal_i32(s: Seq<char>) -> Option<i32> {
    let negative = s.len() > 0 && s[0] == '-';
    let signed = s.len() > 0 && (s[0] == '-' || s[0] == '+');
    let body = if signed { s.drop_first() } else { s };
    let value = if negative { -digits_value(body) } else { digits_value(body) };
    if all_digits(body) && i32::MIN <= value <= i32::MAX {
        Some(value as i32)
    } else {
        None
    }
}

/// Whether some character of the text is not numeric.
pub open spec fn has_non_numeric(s: Seq<char>) -> bool {
    exists|i: int| 0 <= i < s.len() && !char_numeric(#[trigger] s[i])
}

/// What `char::is_numeric` answers for a character (Unicode general
/// categories Nd, Nl and No).
pub uninterp spec fn char_numeric(c: char) -> bool;

/// Calls `char::is_numeric`. Claimed: the answer is `char_numeric(c)`; every
/// ASCII digit is numeric and no other ASCII character is. Which non-ASCII
/// characters are numeric is left to the name.
#[verifier::external_body]
fn char_is_numeric(c: char) -> (r: bool)
    ensures
        r == char_numeric(c),
        is_ascii_digit(c) ==> r,
        (c as u32) < 128 && !is_ascii_digit(c) ==> !r,
{
    c.is_numeric()
}

/// The character test that a numeric-only entry rejects: true for every
/// character that is not numeric.
pub fn is_non_numeric(c: char) -> (r: bool)
    ensures
        r == !char_numeric(c),
        is_ascii_digit(c) ==> !r,
        (c as u32) < 128 && !is_ascii_digit(c) ==> r,
{
    !char_is_numeric(c)
}

/// The value of a run of digits is at least that of any prefix of it, and
/// never negative.
proof fn lemma_digits_value_grows(s: Seq<char>, k: int)
    requires
        0 <= k <= s.len(),
        forall|i: int| 0 <= i < s.len() ==> is_ascii_digit(#[trigger] s[i]),
    ensures
        0 <= digits_value(s.take(k)) <= digits_value(s),
    decreases s.len(),
{
    if s.len() == 0 {
        assert(s.take(k) =~= s);
    } else if k == s.len() {
        assert(s.take(k) =~= s);
        lemma_digits_value_grows(s.drop_last(), k - 1);
        assert(s.drop_last().take(k - 1) =~= s.drop_last());
    } else {
        lemma_digits_value_grows(s.drop_last(), k);
        assert(s.drop_last().take(k) =~= s.take(k));
        lemma_digits_value_grows(s.drop_last(), s.len() - 1);
        assert(s.drop_last().take(s.len() - 1) =~= s.drop_last());
    }
}

/// The `i32` an entry's text stands for, if any: an optional `+` or `-`
/// sign, then one or more ASCII digits, within range (as `str::parse::<i32>`
/// reads it).
pub fn parse_number(text: &str) -> (r: Option<i32>)
    ensures
        r == decimal_i32(text@),
{
    let n = text.unicode_len();
    if n == 0 {
        return None;
    }
    let first = text.get_char(0);
    let negative = first == '-';
    let start: usize = if first == '-' || first == '+' {
        1
    } else {
        0
    };
    let ghost body = text@.subrange(start as int, n as int);
    proof {
        if start == 1 {
            assert(body =~= text@.drop_first());
        } else {
            assert(body =~= text@);
        }
    }
    if start == n {
        return None;
    }
    let mut acc: u64 = 0;
    let mut i: usize = start;
    while i < n
        invariant
            n == text@.len(),
            n > 0,
            start == 1 <==> (text@[0] == '-' || text@[0] == '+'),
            start == 0 || start == 1,
            negative == (text@[0] == '-'),
            start <= i <= n,
            body == text@.subrange(start as int, n as int),
            forall|j: int| 0 <= j < i - start ==> is_ascii_digit(#[trigger] body[j]),
            acc == digits_value(body.take(i - start)),
            acc <= 2147483648,
        decreases n - i,
    {
        let c = text.get_char(i);
        assert(body[i - start] == c);
        if c < '0' || c > '9' {
            assert(!all_digits(body));
            return None;
        }
        let d: u64 = (c as u64) - ('0' as u64);
        proof {
            let k = i - start;
            assert(body.take(k + 1).drop_last() =~= body.take(k));
            assert(body.take(k + 1).last() == c);
        }
        acc = acc * 10 + d;
        if acc > 2147483648 {
            proof {
                let k = i - start;
                if start == 1 {
                    assert(body =~= text@.drop_first());
                } else {
                    assert(body =~= text@);
                }
                if all_digits(body) {
                    lemma_digits_value_grows(body, k + 1);
                }
            }
            return None;
        }
        i = i + 1;
    }
    assert(body.take(n - start) =~= body);
    if negative {
        Some((0i64 - (acc as i64)) as i32)
    } else if acc <= 2147483647 {
        Some(acc as i32)
    } else {
        None
    }
}

/// Calls `str::contains` with `is_non_numeric` as the pattern. Claimed: the
/// answer is whether some character of the text is not numeric.
#[verifier::external_body]
fn contains_non_numeric(text: &str) -> (r: bool)
    ensures
        r == has_non_numeric(text@),
{
    text.contains(is_non_numeric)
}

/// Calls `str::replace` with `is_non_numeric` as the pattern and an empty
/// replacement. Claimed: the result is the text with every non-numeric
/// character removed, the others kept in order.
#[verifier::external_body]
fn remove_non_numeric(text: &str) -> (r: String)
    ensures
        r@ == text@.filter(|c: char| char_numeric(c)),
{
    text.replace(is_non_numeric, "")
}

/// What a numeric-only entry does with inserted text: where the text holds a
/// character that is not numeric, it is replaced by the text with those
/// characters removed (`Some`); otherwise the insertion goes ahead unchanged
/// (`None`).
pub fn entry_disallow(text: &str) -> (r: Option<String>)
    ensures
        has_non_numeric(text@) <==> r.is_some(),
        r matches Some(s) ==> s@ == text@.filter(|c: char| char_numeric(c)),
{
    if contains_non_numeric(text) {
        Some(remove_non_numeric(text))
    } else {
        None
    }
}

/// The ASCII digit for a value below 10.
pub open spec fn digit_char(d: int) -> char {
    if d == 0 {
        '0'
    } else if d == 1 {
        '1'
    } else if d == 2 {
        '2'
    } else if d == 3 {
        '3'
    } else if d == 4 {
        '4'
    } else if d == 5 {
        '5'
    } else if d == 6 {
        '6'
    } else if d == 7 {
        '7'
    } else if d == 8 {
        '8'
    } else {
        '9'
    }
}

/// A natural number in decimal, without leading zeros.
pub open spec fn decimal_text(n: nat) -> Seq<char>
    decreases n,
{
    if n < 10 {
        seq![digit_char(n as int)]
    } else {
        decimal_text(n / 10).push(digit_char((n % 10) as int))
    }
}

/// An integer in decimal, with a leading `-` where it is negative.
pub open spec fn signed_text(v: int) -> Seq<char> {
    if v < 0 {
        seq!['-'] + decimal_text((-v) as nat)
    } else {
        decimal_text(v as nat)
    }
}

fn digit_str(d: u32) -> (r: &'static str)
    requires
        d < 10,
    ensures
        r@ == seq![digit_char(d as int)],
{
    proof {
        reveal_strlit("0");
        reveal_strlit("1");
        reveal_strlit("2");
        reveal_strlit("3");
        reveal_strlit("4");
        reveal_strlit("5");
        reveal_strlit("6");
        reveal_strlit("7");
        reveal_strlit("8");
        reveal_strlit("9");
    }
    if d == 0 {
        "0"
    } else if d == 1 {
        "1"
    } else if d == 2 {
        "2"
    } else if d == 3 {
        "3"
    } else if d == 4 {
        "4"
    } else if d == 5 {
        "5"
    } else if d == 6 {
        "6"
    } else if d == 7 {
        "7"
    } else if d == 8 {
        "8"
    } else {
        "9"
    }
}

fn natural_text(n: u32) -> (r: String)
    ensures
        r@ == decimal_text(n as nat),
    decreases n,
{
    if n < 10 {
        String::from_str(digit_str(n))
    } else {
        let front = natural_text(n / 10);
        front.concat(digit_str(n % 10))
    }
}

/// A number as an entry shows it: in decimal, with a leading `-` where it is
/// negative.
pub fn number_text(v: i32) -> (r: String)
    ensures
        r@ == signed_text(v as int),
{
    if v < 0 {
        let magnitude = (0i64 - (v as i64)) as u32;
        proof {
            reveal_strlit("-");
        }
        String::from_str("-").concat(natural_text(magnitude).as_str())
    } else {
        natural_text(v as u32)
    }
}

proof fn lemma_digit_char(d: int)
    requires
        0 <= d < 10,
    ensures
        is_ascii_digit(digit_char(d)),
        digit_value(digit_char(d)) == d,
{
}

proof fn lemma_decimal_text_digits(n: nat)
    ensures
        all_digits(decimal_text(n)),
        digits_value(decimal_text(n)) == n,
    decreases n,
{
    lemma_digit_char((n % 10) as int);
    if n >= 10 {
        lemma_decimal_text_digits(n / 10);
        let t = decimal_text(n);
        assert(t.drop_last() =~= decimal_text(n / 10));
        assert(t.last() == digit_char((n % 10) as int));
        assert(digits_value(t) == digits_value(t.drop_last()) * 10 + digit_value(t.last()));
        assert((n / 10) * 10 + n % 10 == n);
    } else {
        let t = decimal_text(n);
        assert(t.drop_last() =~= Seq::<char>::empty());
        assert(digits_value(t) == digits_value(t.drop_last()) * 10 + digit_value(t.last()));
        assert(n % 10 == n);
    }
}

/// A number shown by `number_text` reads back, as an entry's text, as the
/// same number.
pub proof fn law_number_text_reads_back(v: i32)
    ensures
        decimal_i32(signed_text(v as int)) == Some(v),
{
    let s = signed_text(v as int);
    if v < 0 {
        let m = (-(v as int)) as nat;
        lemma_decimal_text_digits(m);
        assert(s.drop_first() =~= decimal_text(m));
    } else {
        lemma_decimal_text_digits(v as nat);
        let t = decimal_text(v as nat);
        assert(is_ascii_digit(t[0]));
    }
}

} // verus!
