//! Decimal text: reading an amount written as `[-]digits[.digits]`, and
//! writing an integer in decimal.

use vstd::prelude::*;
use crate::text::same_text;
use crate::verbalize::Amount;

verus! {

pub open spec fn is_digit(c: char) -> bool {
    '0' <= c && c <= '9'
}

pub open spec fn digit_of(c: char) -> nat {
    (c as u32 - '0' as u32) as nat
}

pub open spec fn all_digits(s: Seq<char>) -> bool {
    forall|i: int| 0 <= i < s.len() ==> is_digit(#[trigger] s[i])
}

/// The number that a run of decimal digits denotes.
pub open spec fn digits_value(s: Seq<char>) -> nat
    decreases s.len(),
{
    if s.len() == 0 {
        0
    } else {
        digits_value(s.drop_last()) * 10 + digit_of(s.last())
    }
}

/// The amount `units / 10^scale` with a sign, where it fits the types.
pub open spec fn finite_amount(negative: bool, units: nat, scale: nat) -> Option<Amount> {
    if units <= u64::MAX && scale <= u32::MAX {
        Some(Amount::Finite { negative, units: units as u64, scale: scale as u32 })
    } else {
        None
    }
}

/// `body` is `int "." frac` with the dot at `p` and digits on both sides.
pub open spec fn dot_split(body: Seq<char>, p: int) -> bool {
    &&& 0 < p < body.len() - 1
    &&& body[p] == '.'
    &&& all_digits(body.subrange(0, p))
    &&& all_digits(body.subrange(p + 1, body.len() as int))
}

/// The amount written in `text`: an optional minus sign, one or more
/// digits, and optionally a dot followed by one or more digits.
pub open spec fn decimal_amount(text: Seq<char>) -> Option<Amount> {
    let negative = text.len() > 0 && text[0] == '-';
    unsigned_decimal_amount(
        negative,
        if negative {
            text.drop_first()
        } else {
            text
        },
    )
}

/// The amount written in `body`, digits with at most one inner dot, with
/// the given sign.
pub open spec fn unsigned_decimal_amount(negative: bool, body: Seq<char>) -> Option<Amount> {
    if body.len() > 0 && all_digits(body) {
        if digits_value(body) > u64::MAX {
            Some(Amount::Beyond { negative })
        } else {
            finite_amount(negative, digits_value(body), 0)
        }
    } else if exists|p: int| dot_split(body, p) {
        let p = choose|p: int| dot_split(body, p);
        if digits_value(body.subrange(0, p)) > u64::MAX {
            Some(Amount::Beyond { negative })
        } else {
            finite_amount(
            negative,
            digits_value(body.subrange(0, p) + body.subrange(p + 1, body.len() as int)),
                (body.len() - p - 1) as nat,
            )
        }
    } else {
        None
    }
}

proof fn lemma_digits_monotone(x: Seq<char>, y: Seq<char>)
    ensures
        digits_value(x + y) >= digits_value(x),
    decreases y.len(),
{
    if y.len() > 0 {
        assert((x + y).drop_last() =~= x + y.drop_last());
        lemma_digits_monotone(x, y.drop_last());
    } else {
        assert(x + y =~= x);
    }
}

proof fn lemma_two_non_digits(negative: bool, body: Seq<char>, j: int, k: int)
    requires
        0 <= j < k < body.len(),
        !is_digit(body[j]),
        !is_digit(body[k]),
    ensures
        unsigned_decimal_amount(negative, body) is None,
{
    assert forall|p: int| !dot_split(body, p) by {
        if dot_split(body, p) {
            if j < p {
                assert(body.subrange(0, p)[j] == body[j]);
            } else if j > p {
                assert(body.subrange(p + 1, body.len() as int)[j - p - 1] == body[j]);
            } else {
                assert(body.subrange(p + 1, body.len() as int)[k - p - 1] == body[k]);
            }
        }
    }
}

proof fn lemma_stray_char(negative: bool, body: Seq<char>, j: int)
    requires
        0 <= j < body.len(),
        !is_digit(body[j]),
        body[j] != '.',
    ensures
        unsigned_decimal_amount(negative, body) is None,
{
    assert forall|p: int| !dot_split(body, p) by {
        if dot_split(body, p) {
            if j < p {
                assert(body.subrange(0, p)[j] == body[j]);
            } else if j > p {
                assert(body.subrange(p + 1, body.len() as int)[j - p - 1] == body[j]);
            }
        }
    }
}

/// With its one dot at `q`, the body is read around that dot, or not at
/// all when the dot stands first or last.
proof fn lemma_single_dot(negative: bool, body: Seq<char>, q: int)
    requires
        0 <= q < body.len(),
        body[q] == '.',
        all_digits(body.subrange(0, q)),
        all_digits(body.subrange(q + 1, body.len() as int)),
    ensures
        0 < q < body.len() - 1 ==> unsigned_decimal_amount(negative, body) == if digits_value(
            body.subrange(0, q),
        ) > u64::MAX {
            Some(Amount::Beyond { negative })
        } else {
            finite_amount(
                negative,
                digits_value(body.subrange(0, q) + body.subrange(q + 1, body.len() as int)),
                (body.len() - q - 1) as nat,
            )
        },
        !(0 < q < body.len() - 1) ==> unsigned_decimal_amount(negative, body) is None,
{
    assert(!is_digit(body[q]));
    assert forall|p: int| dot_split(body, p) implies p == q by {
        if p < q {
            assert(body.subrange(p + 1, body.len() as int)[q - p - 1] == body[q]);
        } else if p > q {
            assert(body.subrange(0, p)[q] == body[q]);
        }
    }
    if 0 < q < body.len() - 1 {
        assert(dot_split(body, q));
    }
}

/// Folds the digits `s[from..to]` into `acc`, the value of `prefix`.
fn accumulate(s: &str, from: usize, to: usize, acc: u64, Ghost(prefix): Ghost<Seq<char>>) -> (r:
    Option<u64>)
    requires
        from <= to <= s@.len(),
        all_digits(s@.subrange(from as int, to as int)),
        acc == digits_value(prefix),
    ensures
        match r {
            Some(v) => v == digits_value(prefix + s@.subrange(from as int, to as int)),
            None => digits_value(prefix + s@.subrange(from as int, to as int)) > u64::MAX,
        },
{
    let mut v = acc;
    let mut k = from;
    while k < to
        invariant
            from <= k <= to <= s@.len(),
            all_digits(s@.subrange(from as int, to as int)),
            v == digits_value(prefix + s@.subrange(from as int, k as int)),
        decreases to - k,
    {
        let c = s.get_char(k);
        assert(s@.subrange(from as int, to as int)[k - from] == c);
        let d = (c as u32 - '0' as u32) as u64;
        let ghost next = prefix + s@.subrange(from as int, k + 1);
        assert(next.drop_last() =~= prefix + s@.subrange(from as int, k as int));
        assert(next.last() == c);
        if v > (u64::MAX - d) / 10 {
            proof {
                let rest = s@.subrange(k + 1, to as int);
                assert(next + rest =~= prefix + s@.subrange(from as int, to as int));
                lemma_digits_monotone(next, rest);
            }
            return None;
        }
        v = v * 10 + d;
        k = k + 1;
    }
    Some(v)
}

/// Reads an amount written as `[-]digits[.digits]`; `None` when the text
/// is not of that form or its digits do not fit.
pub fn parse_decimal(text: &str) -> (r: Option<Amount>)
    ensures
        r == decimal_amount(text@),
{
    let n = text.unicode_len();
    let negative = n > 0 && text.get_char(0) == '-';
    let start: usize = if negative {
        1
    } else {
        0
    };
    let ghost body = if negative {
        text@.drop_first()
    } else {
        text@
    };
    assert(body =~= text@.subrange(start as int, n as int));
    assert(decimal_amount(text@) == unsigned_decimal_amount(negative, body));
    let mut dot: Option<usize> = None;
    let mut i = start;
    while i < n
        invariant
            n == text@.len(),
            start <= i <= n,
            body == text@.subrange(start as int, n as int),
            decimal_amount(text@) == unsigned_decimal_amount(negative, body),
            match dot {
                None => all_digits(text@.subrange(start as int, i as int)),
                Some(p) => start <= p < i && text@[p as int] == '.' && all_digits(
                    text@.subrange(start as int, p as int),
                ) && all_digits(text@.subrange(p + 1, i as int)),
            },
        decreases n - i,
    {
        let c = text.get_char(i);
        assert(body[i - start] == c);
        if c == '.' && dot.is_none() {
            dot = Some(i);
        } else if !('0' <= c && c <= '9') {
            proof {
                match dot {
                    None => lemma_stray_char(negative, body, i - start),
                    Some(q) => {
                        if c == '.' {
                            assert(body[q - start] == '.');
                            lemma_two_non_digits(negative, body, q - start, i - start);
                        } else {
                            lemma_stray_char(negative, body, i - start);
                        }
                    },
                }
            }
            return None;
        }
        i = i + 1;
    }
    match dot {
        None => {
            if start == n {
                assert(forall|p: int| !dot_split(body, p));
                return None;
            }
            let ghost empty = Seq::<char>::empty();
            assert(empty + text@.subrange(start as int, n as int) =~= body);
            match accumulate(text, start, n, 0, Ghost(empty)) {
                Some(units) => Some(Amount::Finite { negative, units, scale: 0 }),
                None => Some(Amount::Beyond { negative }),
            }
        },
        Some(p) => {
            let ghost q: int = p - start;
            assert(body.subrange(0, q) =~= text@.subrange(start as int, p as int));
            assert(body.subrange(q + 1, body.len() as int) =~= text@.subrange(p + 1, n as int));
            proof {
                lemma_single_dot(negative, body, q);
            }
            if p == start || p + 1 == n {
                return None;
            }
            let ghost empty = Seq::<char>::empty();
            assert(empty + text@.subrange(start as int, p as int) =~= text@.subrange(
                start as int,
                p as int,
            ));
            let whole = match accumulate(text, start, p, 0, Ghost(empty)) {
                None => return Some(Amount::Beyond { negative }),
                Some(whole) => whole,
            };
            if n - p - 1 > u32::MAX as usize {
                return None;
            }
            match accumulate(text, p + 1, n, whole, Ghost(text@.subrange(start as int, p as int))) {
                Some(units) => Some(Amount::Finite { negative, units, scale: (n - p - 1) as u32 }),
                None => None,
            }
        },
    }
}

/// The amount that std's text of a float denotes: "NaN", "inf", "-inf",
/// or a decimal.
pub open spec fn float_text_amount(text: Seq<char>) -> Option<Amount> {
    if text == "NaN"@ {
        Some(Amount::NotANumber)
    } else if text == "inf"@ {
        Some(Amount::Infinite { negative: false })
    } else if text == "-inf"@ {
        Some(Amount::Infinite { negative: true })
    } else {
        decimal_amount(text)
    }
}

/// Reads a float written as std writes it; `None` for text of another form.
pub fn parse_float_text(text: &str) -> (r: Option<Amount>)
    ensures
        r == float_text_amount(text@),
{
    if same_text(text, "NaN") {
        Some(Amount::NotANumber)
    } else if same_text(text, "inf") {
        Some(Amount::Infinite { negative: false })
    } else if same_text(text, "-inf") {
        Some(Amount::Infinite { negative: true })
    } else {
        parse_decimal(text)
    }
}

/// The decimal text of a digit.
pub open spec fn digit_text(d: nat) -> Seq<char> {
    if d == 0 {
        "0"@
    } else if d == 1 {
        "1"@
    } else if d == 2 {
        "2"@
    } else if d == 3 {
        "3"@
    } else if d == 4 {
        "4"@
    } else if d == 5 {
        "5"@
    } else if d == 6 {
        "6"@
    } else if d == 7 {
        "7"@
    } else if d == 8 {
        "8"@
    } else {
        "9"@
    }
}

/// The decimal text of a natural number, without leading zeros.
pub open spec fn nat_text(n: nat) -> Seq<char>
    decreases n,
{
    if n < 10 {
        digit_text(n)
    } else {
        nat_text(n / 10) + digit_text(n % 10)
    }
}

/// The decimal text of an integer, with a minus sign when negative.
pub open spec fn int_text(i: int) -> Seq<char> {
    if i < 0 {
        "-"@ + nat_text((-i) as nat)
    } else {
        nat_text(i as nat)
    }
}

fn digit_str(d: u64) -> (r: &'static str)
    requires
        d < 10,
    ensures
        r@ == digit_text(d as nat),
{
    match d {
        0 => "0",
        1 => "1",
        2 => "2",
        3 => "3",
        4 => "4",
        5 => "5",
        6 => "6",
        7 => "7",
        8 => "8",
        _ => "9",
    }
}

fn nat_to_text(n: u64) -> (r: String)
    ensures
        r@ == nat_text(n as nat),
    decreases n,
{
    if n < 10 {
        String::from_str(digit_str(n))
    } else {
        let mut s = nat_to_text(n / 10);
        s.append(digit_str(n % 10));
        s
    }
}

/// Writes an integer in decimal.
pub fn int_to_text(i: i64) -> (r: String)
    ensures
        r@ == int_text(i as int),
{
    if i < 0 {
        let magnitude = (-(i as i128)) as u64;
        let mut s = String::from_str("-");
        let digits = nat_to_text(magnitude);
        s.append(digits.as_str());
        s
    } else {
        nat_to_text(i as u64)
    }
}

} // verus!
