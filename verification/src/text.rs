//! Text helpers: decimal rendering of integers and substring search, each
//! proved against a definition over sequences of characters.

use vstd::prelude::*;
use vstd::string::*;

verus! {

/// The character of one decimal digit.
pub open spec fn digit(d: nat) -> char {
    if d == 0 {
        '0'
    } else if d == 1 {
        '1'
    } else if d == 2 {
        '2'
    } else if d == 3 {
        '3'
    } else if d == 4 {
        '4'
    } else if d == 5 {
        '5'
    } else if d == 6 {
        '6'
    } else if d == 7 {
        '7'
    } else if d == 8 {
        '8'
    } else {
        '9'
    }
}

/// The decimal digits of a natural number, most significant first, with no
/// leading zero except for zero itself.
pub open spec fn decimal_digits(n: nat) -> Seq<char>
    decreases n,
{
    if n < 10 {
        seq![digit(n)]
    } else {
        decimal_digits(n / 10).push(digit(n % 10))
    }
}

/// The decimal rendering of an integer: a minus sign for a negative one,
/// then the digits of its magnitude.
pub open spec fn decimal(i: int) -> Seq<char> {
    if i < 0 {
        seq!['-'] + decimal_digits((-i) as nat)
    } else {
        decimal_digits(i as nat)
    }
}

/// The digits of a number are at least one, none of them a minus sign,
/// and as many as the number has decimal places.
pub proof fn lemma_decimal_digits_shape(n: nat)
    ensures
        decimal_digits(n).len() >= 1,
        n >= 10 ==> decimal_digits(n).len() >= 2,
        decimal_digits(n)[0] != '-',
    decreases n,
{
    if n >= 10 {
        lemma_decimal_digits_shape(n / 10);
    }
}

/// Two numbers with the same digits are the same number.
pub proof fn lemma_decimal_digits_distinct(a: nat, b: nat)
    requires
        decimal_digits(a) == decimal_digits(b),
    ensures
        a == b,
    decreases a,
{
    lemma_decimal_digits_shape(a);
    lemma_decimal_digits_shape(b);
    if a >= 10 && b >= 10 {
        let left = decimal_digits(a / 10).push(digit(a % 10));
        let right = decimal_digits(b / 10).push(digit(b % 10));
        assert(left.drop_last() =~= decimal_digits(a / 10));
        assert(right.drop_last() =~= decimal_digits(b / 10));
        assert(left.last() == digit(a % 10));
        assert(right.last() == digit(b % 10));
        lemma_decimal_digits_distinct(a / 10, b / 10);
    } else {
        assert(decimal_digits(a)[0] == decimal_digits(b)[0]);
    }
}

/// Two integers with the same decimal rendering are the same integer: no
/// two values of an integer variable are counted as one.
pub proof fn lemma_decimal_distinct(a: int, b: int)
    requires
        decimal(a) == decimal(b),
    ensures
        a == b,
{
    if a < 0 {
        lemma_decimal_digits_shape((-a) as nat);
    } else {
        lemma_decimal_digits_shape(a as nat);
    }
    if b < 0 {
        lemma_decimal_digits_shape((-b) as nat);
    } else {
        lemma_decimal_digits_shape(b as nat);
    }
    if a < 0 && b < 0 {
        let left = seq!['-'] + decimal_digits((-a) as nat);
        let right = seq!['-'] + decimal_digits((-b) as nat);
        assert(left.subrange(1, left.len() as int) =~= decimal_digits((-a) as nat));
        assert(right.subrange(1, right.len() as int) =~= decimal_digits((-b) as nat));
        lemma_decimal_digits_distinct((-a) as nat, (-b) as nat);
    } else if a >= 0 && b >= 0 {
        lemma_decimal_digits_distinct(a as nat, b as nat);
    } else {
        assert(decimal(a)[0] == decimal(b)[0]);
    }
}

/// Whether `pattern` stands in `text` at offset `at`.
pub open spec fn occurs_at(text: Seq<char>, pattern: Seq<char>, at: int) -> bool {
    &&& 0 <= at
    &&& at + pattern.len() <= text.len()
    &&& text.subrange(at, at + pattern.len()) == pattern
}

/// Whether `pattern` stands anywhere in `text`. The empty pattern stands in
/// every text.
pub open spec fn occurs_in(text: Seq<char>, pattern: Seq<char>) -> bool {
    exists|at: int| occurs_at(text, pattern, at)
}

/// Whether any of `patterns` stands in `text`.
pub open spec fn any_occurs_in(text: Seq<char>, patterns: Seq<Seq<char>>) -> bool {
    exists|k: int| 0 <= k < patterns.len() && occurs_in(text, #[trigger] patterns[k])
}

/// The views of a list of strings.
pub open spec fn views(strings: Seq<String>) -> Seq<Seq<char>> {
    Seq::new(strings.len(), |k: int| strings[k]@)
}

fn digit_text(d: u64) -> (text: &'static str)
    requires
        d < 10,
    ensures
        text@ == seq![digit(d as nat)],
{
    let text = if d == 0 {
        proof {
            reveal_strlit("0");
        }
        "0"
    } else if d == 1 {
        proof {
            reveal_strlit("1");
        }
        "1"
    } else if d == 2 {
        proof {
            reveal_strlit("2");
        }
        "2"
    } else if d == 3 {
        proof {
            reveal_strlit("3");
        }
        "3"
    } else if d == 4 {
        proof {
            reveal_strlit("4");
        }
        "4"
    } else if d == 5 {
        proof {
            reveal_strlit("5");
        }
        "5"
    } else if d == 6 {
        proof {
            reveal_strlit("6");
        }
        "6"
    } else if d == 7 {
        proof {
            reveal_strlit("7");
        }
        "7"
    } else if d == 8 {
        proof {
            reveal_strlit("8");
        }
        "8"
    } else {
        proof {
            reveal_strlit("9");
        }
        "9"
    };
    assert(text@ =~= seq![digit(d as nat)]);
    text
}

/// Renders an unsigned integer in decimal.
pub fn render_unsigned(value: u64) -> (text: String)
    ensures
        text@ == decimal_digits(value as nat),
{
    let mut text = String::from_str(digit_text(value % 10));
    let mut rest: u64 = value / 10;
    while rest > 0
        invariant
            decimal_digits(value as nat) == if rest == 0 {
                text@
            } else {
                decimal_digits(rest as nat) + text@
            },
        decreases rest,
    {
        let ghost before = text@;
        let head = String::from_str(digit_text(rest % 10));
        text = head.concat(text.as_str());
        proof {
            if rest >= 10 {
                assert(decimal_digits(rest as nat) + before =~= decimal_digits((rest / 10) as nat)
                    + text@);
            } else {
                assert(decimal_digits(rest as nat) + before =~= text@);
            }
        }
        rest = rest / 10;
    }
    text
}

/// Renders a signed integer in decimal.
pub fn render_integer(value: i64) -> (text: String)
    ensures
        text@ == decimal(value as int),
{
    if value < 0 {
        let magnitude: u64 = (-(value + 1)) as u64 + 1;
        let digits = render_unsigned(magnitude);
        proof {
            reveal_strlit("-");
            assert("-"@ =~= seq!['-']);
        }
        String::from_str("-").concat(digits.as_str())
    } else {
        render_unsigned(value as u64)
    }
}

/// The characters of a string, in order.
pub fn chars_of(text: &str) -> (chars: Vec<char>)
    ensures
        chars@ == text@,
{
    let mut chars: Vec<char> = Vec::new();
    for c in it: text.chars()
        invariant
            it.seq() == text@,
            chars@ == it.seq().take(it.index() as int),
    {
        chars.push(c);
    }
    chars
}

fn stands_at(text: &Vec<char>, pattern: &Vec<char>, at: usize) -> (found: bool)
    requires
        at + pattern.len() <= text.len(),
    ensures
        found == occurs_at(text@, pattern@, at as int),
{
    let mut k: usize = 0;
    while k < pattern.len()
        invariant
            k <= pattern.len(),
            at + pattern.len() <= text.len(),
            forall|j: int| 0 <= j < k ==> text@[at + j] == pattern@[j],
        decreases pattern.len() - k,
    {
        if text[at + k] != pattern[k] {
            proof {
                let window = text@.subrange(at as int, at + pattern.len());
                assert(window[k as int] == text@[at + k]);
            }
            return false;
        }
        k += 1;
    }
    assert(text@.subrange(at as int, at + pattern.len()) =~= pattern@);
    true
}

/// Whether `pattern` stands anywhere in `text`.
pub fn contains_text(text: &str, pattern: &str) -> (found: bool)
    ensures
        found == occurs_in(text@, pattern@),
{
    let text_chars = chars_of(text);
    let pattern_chars = chars_of(pattern);
    if pattern_chars.len() > text_chars.len() {
        return false;
    }
    let last: usize = text_chars.len() - pattern_chars.len();
    let mut at: usize = 0;
    loop
        invariant
            last == text_chars.len() - pattern_chars.len(),
            pattern_chars.len() <= text_chars.len(),
            at <= last,
            text_chars@ == text@,
            pattern_chars@ == pattern@,
            forall|j: int| 0 <= j < at ==> !occurs_at(text@, pattern@, j),
        decreases last - at,
    {
        if stands_at(&text_chars, &pattern_chars, at) {
            return true;
        }
        if at == last {
            return false;
        }
        at += 1;
    }
}

/// Whether any of `patterns` stands in `text`.
pub fn contains(text: &str, patterns: &Vec<String>) -> (found: bool)
    ensures
        found == any_occurs_in(text@, views(patterns@)),
{
    let mut k: usize = 0;
    while k < patterns.len()
        invariant
            k <= patterns.len(),
            forall|j: int| 0 <= j < k ==> !occurs_in(text@, #[trigger] views(patterns@)[j]),
        decreases patterns.len() - k,
    {
        if contains_text(text, patterns[k].as_str()) {
            assert(occurs_in(text@, views(patterns@)[k as int]));
            return true;
        }
        k += 1;
    }
    false
}

/// A copy of a list of strings.
pub fn clone_strings(strings: &Vec<String>) -> (copy: Vec<String>)
    ensures
        views(copy@) == views(strings@),
{
    let mut copy: Vec<String> = Vec::new();
    let mut k: usize = 0;
    while k < strings.len()
        invariant
            k <= strings.len(),
            copy.len() == k,
            forall|j: int| 0 <= j < k ==> (#[trigger] copy[j])@ == strings[j]@,
        decreases strings.len() - k,
    {
        copy.push(strings[k].clone());
        k += 1;
    }
    assert(views(copy@) =~= views(strings@));
    copy
}

} // verus!
