//! Character-level helpers: stripping characters out of strings and the
//! decimal notation of workspace numbers.

use vstd::prelude::*;
use vstd::string::*;

verus! {

/// The characters of `s` that are not line breaks, in their order.
pub open spec fn without_newlines(s: Seq<char>) -> Seq<char> {
    s.filter(|c: char| c != '\n')
}

/// Whether `c` lies in the ASCII range.
pub open spec fn is_ascii_char(c: char) -> bool {
    (c as u32) < 128
}

/// The characters of `s` outside the ASCII range, in their order.
pub open spec fn non_ascii_only(s: Seq<char>) -> Seq<char> {
    s.filter(|c: char| !is_ascii_char(c))
}

/// Whether `c` is one of the ten decimal digits.
pub open spec fn is_digit(c: char) -> bool {
    48 <= (c as u32) <= 57
}

/// The number that a decimal digit stands for.
pub open spec fn digit_value(c: char) -> nat {
    ((c as u32) - 48) as nat
}

/// The decimal digit that stands for `d`, for `d < 10`.
pub open spec fn digit_char(d: nat) -> char {
    if d == 0 {
        '0'
    } else if d == 1 {
        '1'
    } else if d == 2 {
        '2'
    } else if d == 3 {
        '3'
    } else if d == 4 {
        '4'
    } else if d == 5 {
        '5'
    } else if d == 6 {
        '6'
    } else if d == 7 {
        '7'
    } else if d == 8 {
        '8'
    } else {
        '9'
    }
}

/// Whether every character of `s` is a decimal digit.
pub open spec fn all_digits(s: Seq<char>) -> bool {
    forall|i: int| 0 <= i < s.len() ==> is_digit(#[trigger] s[i])
}

/// The number written by the digit string `s`, most significant digit first.
pub open spec fn digits_value(s: Seq<char>) -> nat
    decreases s.len(),
{
    if s.len() == 0 {
        0
    } else {
        digits_value(s.drop_last()) * 10 + digit_value(s.last())
    }
}

/// `s` without one leading plus sign, if it has one.
pub open spec fn unsigned_part(s: Seq<char>) -> Seq<char> {
    if s.len() > 0 && s[0] == '+' {
        s.drop_first()
    } else {
        s
    }
}

/// The machine-sized number that `s` denotes: an optional plus sign followed
/// by at least one decimal digit, with a value that fits. `None` otherwise.
pub open spec fn parse_number(s: Seq<char>) -> Option<usize> {
    let d = unsigned_part(s);
    if d.len() > 0 && all_digits(d) && digits_value(d) <= usize::MAX {
        Some(digits_value(d) as usize)
    } else {
        None
    }
}

/// The decimal notation of `n`, without sign or leading zeros.
pub open spec fn decimal(n: nat) -> Seq<char>
    decreases n,
{
    if n < 10 {
        seq![digit_char(n)]
    } else {
        decimal(n / 10).push(digit_char(n % 10))
    }
}

/// Filtering one more character either appends it or leaves the result as it was.
pub proof fn lemma_filter_step(s: Seq<char>, pred: spec_fn(char) -> bool, i: int)
    requires
        0 <= i < s.len(),
    ensures
        s.take(i + 1).filter(pred) == if pred(s[i]) {
            s.take(i).filter(pred).push(s[i])
        } else {
            s.take(i).filter(pred)
        },
{
    assert(s.take(i + 1) =~= s.take(i).push(s[i]));
    s.take(i).lemma_filter_push(s[i], pred);
}

/// A digit string is worth at least as much as any of its prefixes.
pub proof fn lemma_prefix_value(s: Seq<char>, k: int)
    requires
        0 <= k <= s.len(),
    ensures
        digits_value(s.take(k)) <= digits_value(s),
    decreases s.len() - k,
{
    if k == s.len() {
        assert(s.take(k) =~= s);
    } else {
        lemma_prefix_value(s.drop_last(), k);
        assert(s.drop_last().take(k) =~= s.take(k));
    }
}

/// Removes every line break from `input` and keeps the other characters in
/// their order.
pub fn trim_newlines(input: &mut String)
    ensures
        final(input)@ == without_newlines(old(input)@),
{
    let mut kept = String::new();
    let n = input.as_str().unicode_len();
    let mut i: usize = 0;
    while i < n
        invariant
            i <= n,
            n == input@.len(),
            kept@ == without_newlines(input@.take(i as int)),
        decreases n - i,
    {
        let c = input.as_str().get_char(i);
        proof {
            lemma_filter_step(input@, |c: char| c != '\n', i as int);
            assert(input@.subrange(i as int, i + 1) =~= seq![input@[i as int]]);
        }
        if c != '\n' {
            kept.append(input.as_str().substring_char(i, i + 1));
        }
        i += 1;
    }
    proof {
        assert(input@.take(n as int) =~= input@);
    }
    *input = kept;
}

/// The characters of `s` outside the ASCII range, as a new string.
pub fn strip_ascii(s: &str) -> (kept: String)
    ensures
        kept@ == non_ascii_only(s@),
{
    let mut kept = String::new();
    let n = s.unicode_len();
    let mut i: usize = 0;
    while i < n
        invariant
            i <= n,
            n == s@.len(),
            kept@ == non_ascii_only(s@.take(i as int)),
        decreases n - i,
    {
        let c = s.get_char(i);
        proof {
            lemma_filter_step(s@, |c: char| !is_ascii_char(c), i as int);
            assert(s@.subrange(i as int, i + 1) =~= seq![s@[i as int]]);
        }
        if (c as u32) >= 128 {
            kept.append(s.substring_char(i, i + 1));
        }
        i += 1;
    }
    proof {
        assert(s@.take(n as int) =~= s@);
    }
    kept
}

/// Reads `s` as a non-negative decimal number.
pub fn parse_usize(s: &str) -> (r: Option<usize>)
    ensures
        r == parse_number(s@),
{
    let n = s.unicode_len();
    let start: usize = if n > 0 && s.get_char(0) == '+' {
        1
    } else {
        0
    };
    let ghost d = unsigned_part(s@);
    assert(d =~= s@.subrange(start as int, n as int));
    if start == n {
        return None;
    }
    let mut acc: usize = 0;
    let mut i: usize = start;
    assert(d.take(0) =~= Seq::<char>::empty());
    while i < n
        invariant
            start <= i <= n,
            n == s@.len(),
            d == unsigned_part(s@),
            d == s@.subrange(start as int, n as int),
            all_digits(d.take(i - start)),
            acc == digits_value(d.take(i - start)),
        decreases n - i,
    {
        let c = s.get_char(i);
        let code: u32 = c as u32;
        let ghost k = i - start;
        assert(d[k] == c);
        if code < 48 || code > 57 {
            return None;
        }
        let digit: usize = (code - 48) as usize;
        proof {
            assert(d.take(k + 1).drop_last() =~= d.take(k));
            assert(d.take(k + 1).last() == c);
            assert(digits_value(d.take(k + 1)) == acc * 10 + digit);
            lemma_prefix_value(d, k + 1);
        }
        if acc > (usize::MAX - digit) / 10 {
            return None;
        }
        acc = acc * 10 + digit;
        i += 1;
    }
    proof {
        assert(d.take(n - start) =~= d);
    }
    Some(acc)
}

/// The one-character text of a decimal digit.
fn digit_text(d: usize) -> (t: &'static str)
    requires
        d < 10,
    ensures
        t@ == seq![digit_char(d as nat)],
{
    proof {
        reveal_strlit("0");
        reveal_strlit("1");
        reveal_strlit("2");
        reveal_strlit("3");
        reveal_strlit("4");
        reveal_strlit("5");
        reveal_strlit("6");
        reveal_strlit("7");
        reveal_strlit("8");
        reveal_strlit("9");
    }
    let t = if d == 0 {
        "0"
    } else if d == 1 {
        "1"
    } else if d == 2 {
        "2"
    } else if d == 3 {
        "3"
    } else if d == 4 {
        "4"
    } else if d == 5 {
        "5"
    } else if d == 6 {
        "6"
    } else if d == 7 {
        "7"
    } else if d == 8 {
        "8"
    } else {
        "9"
    };
    assert(t@ =~= seq![digit_char(d as nat)]);
    t
}

/// Writes `n` in decimal notation.
pub fn decimal_string(n: usize) -> (s: String)
    ensures
        s@ == decimal(n as nat),
    decreases n,
{
    if n < 10 {
        String::from_str(digit_text(n))
    } else {
        let mut s = decimal_string(n / 10);
        s.append(digit_text(n % 10));
        assert(s@ =~= decimal(n as nat));
        s
    }
}

} // verus!
