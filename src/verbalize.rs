//! Rendering of a cheque amount into English words.

use vstd::prelude::*;
use crate::text::{contains, occurs_at};

verus! {

/// Word for a digit 0..=9.
pub open spec fn ones_word(d: nat) -> Seq<char> {
    if d == 0 {
        "Zero"@
    } else if d == 1 {
        "One"@
    } else if d == 2 {
        "Two"@
    } else if d == 3 {
        "Three"@
    } else if d == 4 {
        "Four"@
    } else if d == 5 {
        "Five"@
    } else if d == 6 {
        "Six"@
    } else if d == 7 {
        "Seven"@
    } else if d == 8 {
        "Eight"@
    } else {
        "Nine"@
    }
}

/// Word for 10 + d, with d in 0..=9.
pub open spec fn teens_word(d: nat) -> Seq<char> {
    if d == 0 {
        "Ten"@
    } else if d == 1 {
        "Eleven"@
    } else if d == 2 {
        "Twelve"@
    } else if d == 3 {
        "Thirteen"@
    } else if d == 4 {
        "Fourteen"@
    } else if d == 5 {
        "Fifteen"@
    } else if d == 6 {
        "Sixteen"@
    } else if d == 7 {
        "Seventeen"@
    } else if d == 8 {
        "Eighteen"@
    } else {
        "Nineteen"@
    }
}

/// Word for 10 * d, with d in 2..=9.
pub open spec fn tens_word(d: nat) -> Seq<char> {
    if d == 2 {
        "Twenty"@
    } else if d == 3 {
        "Thirty"@
    } else if d == 4 {
        "Forty"@
    } else if d == 5 {
        "Fifty"@
    } else if d == 6 {
        "Sixty"@
    } else if d == 7 {
        "Seventy"@
    } else if d == 8 {
        "Eighty"@
    } else {
        "Ninety"@
    }
}

/// Words for a number below one thousand.
pub open spec fn chunk_words(n: nat) -> Seq<char>
    decreases n,
{
    if n < 10 {
        ones_word(n)
    } else if n < 20 {
        teens_word((n - 10) as nat)
    } else if n < 100 {
        if n % 10 == 0 {
            tens_word(n / 10)
        } else {
            tens_word(n / 10) + "-"@ + ones_word(n % 10)
        }
    } else if n % 100 == 0 {
        ones_word(n / 100) + " hundred"@
    } else {
        ones_word(n / 100) + " hundred and "@ + chunk_words(n % 100)
    }
}

fn ones_str(d: u64) -> (r: &'static str)
    requires
        d < 10,
    ensures
        r@ == ones_word(d as nat),
{
    match d {
        0 => "Zero",
        1 => "One",
        2 => "Two",
        3 => "Three",
        4 => "Four",
        5 => "Five",
        6 => "Six",
        7 => "Seven",
        8 => "Eight",
        _ => "Nine",
    }
}

fn teens_str(d: u64) -> (r: &'static str)
    requires
        d < 10,
    ensures
        r@ == teens_word(d as nat),
{
    match d {
        0 => "Ten",
        1 => "Eleven",
        2 => "Twelve",
        3 => "Thirteen",
        4 => "Fourteen",
        5 => "Fifteen",
        6 => "Sixteen",
        7 => "Seventeen",
        8 => "Eighteen",
        _ => "Nineteen",
    }
}

fn tens_str(d: u64) -> (r: &'static str)
    requires
        2 <= d < 10,
    ensures
        r@ == tens_word(d as nat),
{
    match d {
        2 => "Twenty",
        3 => "Thirty",
        4 => "Forty",
        5 => "Fifty",
        6 => "Sixty",
        7 => "Seventy",
        8 => "Eighty",
        _ => "Ninety",
    }
}

/// Renders a number below one thousand: "Seven", "Forty-Two",
/// "Three hundred and Five".
pub fn chunk_to_words(n: u64) -> (r: String)
    requires
        n < 1000,
    ensures
        r@ == chunk_words(n as nat),
    decreases n,
{
    if n < 10 {
        String::from_str(ones_str(n))
    } else if n < 20 {
        String::from_str(teens_str(n - 10))
    } else if n < 100 {
        let mut s = String::from_str(tens_str(n / 10));
        if n % 10 != 0 {
            s.append("-");
            s.append(ones_str(n % 10));
        }
        s
    } else {
        let mut s = String::from_str(ones_str(n / 100));
        if n % 100 == 0 {
            s.append(" hundred");
        } else {
            s.append(" hundred and ");
            let rest = chunk_to_words(n % 100);
            s.append(rest.as_str());
        }
        s
    }
}

/// Scale word of the base-1000 group at position `idx` (0 = units).
pub open spec fn scale_word(idx: nat) -> Seq<char> {
    if idx == 1 {
        "Thousand"@
    } else {
        "Million"@
    }
}

/// Words for one non-zero group `c` at position `idx`, scale word included.
pub open spec fn group_words(c: nat, idx: nat) -> Seq<char> {
    if idx == 0 {
        chunk_words(c)
    } else {
        chunk_words(c) + " "@ + scale_word(idx)
    }
}

/// The rendered non-zero groups of `number`, whose lowest group sits at
/// position `idx`, most significant first.
pub open spec fn groups_from(number: nat, idx: nat) -> Seq<Seq<char>>
    decreases number,
{
    if number == 0 {
        Seq::empty()
    } else {
        groups_from(number / 1000, idx + 1) + if number % 1000 != 0 {
            seq![group_words(number % 1000, idx)]
        } else {
            Seq::empty()
        }
    }
}

/// The parts joined with single spaces.
pub open spec fn join_words(parts: Seq<Seq<char>>) -> Seq<char>
    decreases parts.len(),
{
    if parts.len() == 0 {
        Seq::empty()
    } else if parts.len() == 1 {
        parts[0]
    } else {
        join_words(parts.drop_last()) + " "@ + parts.last()
    }
}

/// Words for a whole number below one billion; zero is the word "zero".
pub open spec fn number_words(n: nat) -> Seq<char> {
    if n == 0 {
        "zero"@
    } else {
        join_words(groups_from(n, 0))
    }
}

fn scale_str(idx: usize) -> (r: &'static str)
    requires
        1 <= idx <= 2,
    ensures
        r@ == scale_word(idx as nat),
{
    if idx == 1 {
        "Thousand"
    } else {
        "Million"
    }
}

/// Renders a whole number below one billion in words, groups of three digits
/// from the most significant down: "Two Million Forty Thousand Seven".
pub fn number_to_words(n: u64) -> (r: String)
    requires
        n < 1_000_000_000,
    ensures
        r@ == number_words(n as nat),
{
    if n == 0 {
        return String::from_str("zero");
    }
    let mut words: Vec<String> = Vec::new();
    let mut number: u64 = n;
    let mut index: usize = 0;
    while number > 0
        invariant
            n < 1_000_000_000,
            index <= 3,
            index == 0 ==> number == n,
            index == 1 ==> number < 1_000_000,
            index == 2 ==> number < 1000,
            index == 3 ==> number == 0,
            groups_from(n as nat, 0) == groups_from(number as nat, index as nat) + words@.map_values(
                |w: String| w@,
            ),
        decreases number,
    {
        let ghost before = words@.map_values(|w: String| w@);
        let chunk = number % 1000;
        if chunk != 0 {
            let mut w = chunk_to_words(chunk);
            if index > 0 {
                w.append(" ");
                w.append(scale_str(index));
            }
            words.insert(0, w);
            assert(words@.map_values(|w: String| w@) =~= seq![group_words(chunk as nat, index as nat)]
                + before);
        }
        assert(groups_from(number as nat, index as nat) == groups_from(
            (number / 1000) as nat,
            (index + 1) as nat,
        ) + if number % 1000 != 0 {
            seq![group_words((number % 1000) as nat, index as nat)]
        } else {
            Seq::empty()
        });
        number = number / 1000;
        index = index + 1;
    }
    proof {
        assert(groups_from(0, index as nat) =~= Seq::empty());
    }
    assert(groups_from(n as nat, 0) =~= words@.map_values(|w: String| w@));
    join_with_spaces(&words)
}

/// Joins the words with single spaces.
fn join_with_spaces(words: &Vec<String>) -> (r: String)
    ensures
        r@ == join_words(words@.map_values(|w: String| w@)),
{
    let ghost parts = words@.map_values(|w: String| w@);
    let mut out = String::new();
    let mut i: usize = 0;
    while i < words.len()
        invariant
            i <= words@.len(),
            parts == words@.map_values(|w: String| w@),
            out@ == join_words(parts.subrange(0, i as int)),
        decreases words@.len() - i,
    {
        assert(parts.subrange(0, i + 1).drop_last() =~= parts.subrange(0, i as int));
        if i > 0 {
            out.append(" ");
        }
        out.append(words[i].as_str());
        i = i + 1;
    }
    assert(parts.subrange(0, words@.len() as int) =~= parts);
    out
}

/// An amount as handed to the verbalizer: a signed decimal
/// `units / 10^scale`; a finite amount whose whole part is too large to
/// hold in `u64` units; or one of the non-finite values of a float input.
#[derive(Debug, Clone, Copy, PartialEq, Eq, Structural)]
pub enum Amount {
    Finite { negative: bool, units: u64, scale: u32 },
    Beyond { negative: bool },
    Infinite { negative: bool },
    NotANumber,
}

/// Why an amount cannot be verbalized.
#[derive(Debug, Clone, Copy, PartialEq, Eq, Structural)]
pub enum AmountError {
    ExceedsLimit,
    Negative,
    NotFinite,
    TooManyDecimals,
}

/// The message that reports an amount error.
pub open spec fn amount_message(e: AmountError) -> Seq<char> {
    match e {
        AmountError::ExceedsLimit => "Amount exceeds the limit of 25 million."@,
        AmountError::Negative => "Negative amounts are not allowed."@,
        AmountError::NotFinite => "Amount is not a finite number."@,
        AmountError::TooManyDecimals => "Amount has more than two decimal places."@,
    }
}

impl AmountError {
    /// A message stating the rule the amount breaks.
    pub fn message(&self) -> (r: String)
        ensures
            r@ == amount_message(*self),
    {
        match self {
            AmountError::ExceedsLimit => String::from_str("Amount exceeds the limit of 25 million."),
            AmountError::Negative => String::from_str("Negative amounts are not allowed."),
            AmountError::NotFinite => String::from_str("Amount is not a finite number."),
            AmountError::TooManyDecimals => String::from_str(
                "Amount has more than two decimal places.",
            ),
        }
    }
}

/// The largest payable amount, in whole currency units.
pub const MAX_CHEQUE_PAYMENT: u64 = 25_000_000;

/// Ten to the power `e`.
pub open spec fn pow10(e: nat) -> nat
    decreases e,
{
    if e == 0 {
        1
    } else {
        10 * pow10((e - 1) as nat)
    }
}

/// The amount is above the payment limit.
pub open spec fn exceeds_limit(a: Amount) -> bool {
    match a {
        Amount::Finite { negative, units, scale } => !negative && units > MAX_CHEQUE_PAYMENT
            * pow10(scale as nat),
        Amount::Beyond { negative } => !negative,
        Amount::Infinite { negative } => !negative,
        Amount::NotANumber => false,
    }
}

/// The amount is below zero.
pub open spec fn below_zero(a: Amount) -> bool {
    match a {
        Amount::Finite { negative, units, .. } => negative && units > 0,
        Amount::Beyond { negative } => negative,
        Amount::Infinite { negative } => negative,
        Amount::NotANumber => false,
    }
}

/// The amount has a non-zero digit beyond the second decimal place.
pub open spec fn too_many_decimals(a: Amount) -> bool {
    match a {
        Amount::Finite { units, scale, .. } => scale > 2 && (units as nat) % pow10((scale - 2) as nat) != 0,
        _ => false,
    }
}

/// The amount `units / 10^scale` counted in cents (exact when no digit
/// beyond the second decimal place is non-zero).
pub open spec fn cents_of(units: nat, scale: nat) -> nat {
    if scale <= 2 {
        units * pow10((2 - scale) as nat)
    } else {
        units / pow10((scale - 2) as nat)
    }
}

/// The second line of a cheque text: whole units and cents in words.
pub open spec fn amount_line(whole: nat, cents: nat) -> Seq<char> {
    number_words(whole) + " "@ + (if whole == 1 {
        "Dollar"@
    } else {
        "Dollars"@
    }) + " and "@ + chunk_words(cents) + " "@ + (if cents == 1 {
        "Cent"@
    } else {
        "Cents"@
    })
}

/// The full two-line cheque text.
pub open spec fn cheque_text(payee: Seq<char>, whole: nat, cents: nat) -> Seq<char> {
    "Payee: "@ + payee + "\nAmount: "@ + amount_line(whole, cents)
}

/// The amount in cents once it passes the checks, in the order limit,
/// sign, finiteness, precision; otherwise the first check it fails.
pub open spec fn checked_cents(a: Amount) -> Result<nat, AmountError> {
    if exceeds_limit(a) {
        Err(AmountError::ExceedsLimit)
    } else if below_zero(a) {
        Err(AmountError::Negative)
    } else if !(a is Finite) {
        Err(AmountError::NotFinite)
    } else if too_many_decimals(a) {
        Err(AmountError::TooManyDecimals)
    } else {
        Ok(cents_of(a->units as nat, a->scale as nat))
    }
}

/// What verbalizing `a` for `payee` yields: the cheque text of the checked
/// amount, or the first check it fails.
pub open spec fn verbalized(a: Amount, payee: Seq<char>) -> Result<Seq<char>, AmountError> {
    match checked_cents(a) {
        Ok(c) => Ok(cheque_text(payee, c / 100, c % 100)),
        Err(e) => Err(e),
    }
}

proof fn lemma_pow10_positive(e: nat)
    ensures
        pow10(e) >= 1,
    decreases e,
{
    if e > 0 {
        lemma_pow10_positive((e - 1) as nat);
    }
}

proof fn lemma_pow10_mono(a: nat, b: nat)
    requires
        a <= b,
    ensures
        pow10(a) <= pow10(b),
    decreases b,
{
    if a < b {
        lemma_pow10_mono(a, (b - 1) as nat);
        lemma_pow10_positive((b - 1) as nat);
    }
}

proof fn lemma_pow10_20()
    ensures
        pow10(20) == 100_000_000_000_000_000_000,
{
    reveal_with_fuel(pow10, 21);
}

fn pow10_exec(e: u32) -> (r: u128)
    requires
        e <= 19,
    ensures
        r == pow10(e as nat),
        r <= 10_000_000_000_000_000_000,
{
    let mut r: u128 = 1;
    let mut i: u32 = 0;
    while i < e
        invariant
            i <= e <= 19,
            r == pow10(i as nat),
        decreases e - i,
    {
        proof {
            lemma_pow10_mono((i + 1) as nat, 19);
            reveal_with_fuel(pow10, 20);
        }
        r = r * 10;
        i = i + 1;
    }
    proof {
        lemma_pow10_mono(e as nat, 19);
        reveal_with_fuel(pow10, 20);
    }
    r
}

fn exceeds_limit_units(units: u64, scale: u32) -> (r: bool)
    ensures
        r == (units > MAX_CHEQUE_PAYMENT * pow10(scale as nat)),
{
    if scale >= 20 {
        proof {
            lemma_pow10_mono(20, scale as nat);
            lemma_pow10_20();
        }
        false
    } else {
        (units as u128) > (MAX_CHEQUE_PAYMENT as u128) * pow10_exec(scale)
    }
}

/// Renders a validated amount, already counted in cents.
fn render(payee: &str, cents: u64) -> (r: String)
    requires
        cents <= 2_500_000_000,
    ensures
        r@ == cheque_text(payee@, (cents / 100) as nat, (cents % 100) as nat),
{
    let whole = cents / 100;
    let frac = cents % 100;
    let mut s = String::from_str("Payee: ");
    s.append(payee);
    s.append("\nAmount: ");
    let w = number_to_words(whole);
    s.append(w.as_str());
    s.append(" ");
    s.append(if whole == 1 { "Dollar" } else { "Dollars" });
    s.append(" and ");
    let c = chunk_to_words(frac);
    s.append(c.as_str());
    s.append(" ");
    s.append(if frac == 1 { "Cent" } else { "Cents" });
    assert(s@ =~= cheque_text(payee@, whole as nat, frac as nat));
    s
}

/// Checks an amount against the payment limit, its sign, finiteness and
/// currency precision, in this order, and counts it in cents.
pub fn amount_to_cents(amount: Amount) -> (r: Result<u64, AmountError>)
    ensures
        match r {
            Ok(c) => checked_cents(amount) == Ok::<nat, AmountError>(c as nat) && c
                <= 2_500_000_000,
            Err(e) => checked_cents(amount) == Err::<nat, AmountError>(e),
        },
{
    match amount {
        Amount::Infinite { negative } | Amount::Beyond { negative } => {
            if !negative {
                Err(AmountError::ExceedsLimit)
            } else {
                Err(AmountError::Negative)
            }
        },
        Amount::NotANumber => Err(AmountError::NotFinite),
        Amount::Finite { negative, units, scale } => {
            if !negative && exceeds_limit_units(units, scale) {
                return Err(AmountError::ExceedsLimit);
            }
            if negative && units > 0 {
                return Err(AmountError::Negative);
            }
            let cents: u64;
            if scale <= 2 {
                proof {
                    reveal_with_fuel(pow10, 3);
                }
                let factor: u64 = if scale == 0 {
                    100
                } else if scale == 1 {
                    10
                } else {
                    1
                };
                cents = units * factor;
            } else {
                let shift = scale - 2;
                proof {
                    assert(pow10(scale as nat) == 100 * pow10(shift as nat)) by {
                        reveal_with_fuel(pow10, 3);
                        assert(pow10((shift + 1) as nat) == 10 * pow10(shift as nat));
                    }
                    lemma_pow10_positive(shift as nat);
                }
                if shift > 19 {
                    proof {
                        lemma_pow10_mono(20, shift as nat);
                        lemma_pow10_20();
                        vstd::arithmetic::div_mod::lemma_small_mod(
                            units as nat,
                            pow10(shift as nat),
                        );
                        vstd::arithmetic::div_mod::lemma_basic_div(
                            units as int,
                            pow10(shift as nat) as int,
                        );
                    }
                    if units != 0 {
                        return Err(AmountError::TooManyDecimals);
                    }
                    cents = 0;
                } else {
                    let p = pow10_exec(shift) as u64;
                    if units % p != 0 {
                        return Err(AmountError::TooManyDecimals);
                    }
                    proof {
                        let pp = pow10(shift as nat) as int;
                        let u = units as int;
                        assert(u <= 2_500_000_000 * pp);
                        assert(u / pp <= 2_500_000_000) by (nonlinear_arith)
                            requires
                                pp > 0,
                                u <= 2_500_000_000 * pp,
                                u >= 0,
                        ;
                    }
                    cents = units / p;
                }
            }
            Ok(cents)
        },
    }
}

/// Verbalizes `amount` for `name` as
/// "Payee: {name}\nAmount: {words} Dollar(s) and {words} Cent(s)",
/// after checking, in this order, the payment limit, the sign, finiteness
/// and currency precision.
pub fn cheque_to_text(amount: Amount, name: &str) -> (r: Result<String, AmountError>)
    ensures
        match r {
            Ok(s) => verbalized(amount, name@) == Ok::<Seq<char>, AmountError>(s@),
            Err(e) => verbalized(amount, name@) == Err::<Seq<char>, AmountError>(e),
        },
{
    match amount_to_cents(amount) {
        Ok(cents) => Ok(render(name, cents)),
        Err(e) => Err(e),
    }
}

spec fn no_z(s: Seq<char>) -> bool {
    forall|i: int| 0 <= i < s.len() ==> s[i] != 'z'
}

proof fn lemma_no_z_concat(a: Seq<char>, b: Seq<char>)
    requires
        no_z(a),
        no_z(b),
    ensures
        no_z(a + b),
{
    assert forall|i: int| 0 <= i < (a + b).len() implies (a + b)[i] != 'z' by {
        if i >= a.len() {
            assert((a + b)[i] == b[i - a.len()]);
        }
    }
}

proof fn lemma_table_words_no_z(d: nat)
    ensures
        no_z(ones_word(d)),
        no_z(teens_word(d)),
        no_z(tens_word(d)),
{
    reveal_strlit("Zero");
    reveal_strlit("One");
    reveal_strlit("Two");
    reveal_strlit("Three");
    reveal_strlit("Four");
    reveal_strlit("Five");
    reveal_strlit("Six");
    reveal_strlit("Seven");
    reveal_strlit("Eight");
    reveal_strlit("Nine");
    reveal_strlit("Ten");
    reveal_strlit("Eleven");
    reveal_strlit("Twelve");
    reveal_strlit("Thirteen");
    reveal_strlit("Fourteen");
    reveal_strlit("Fifteen");
    reveal_strlit("Sixteen");
    reveal_strlit("Seventeen");
    reveal_strlit("Eighteen");
    reveal_strlit("Nineteen");
    reveal_strlit("Twenty");
    reveal_strlit("Thirty");
    reveal_strlit("Forty");
    reveal_strlit("Fifty");
    reveal_strlit("Sixty");
    reveal_strlit("Seventy");
    reveal_strlit("Eighty");
    reveal_strlit("Ninety");
}

proof fn lemma_chunk_no_z(n: nat)
    ensures
        no_z(chunk_words(n)),
    decreases n,
{
    reveal_strlit("-");
    reveal_strlit(" hundred");
    reveal_strlit(" hundred and ");
    lemma_table_words_no_z(n);
    lemma_table_words_no_z((n - 10) as nat);
    lemma_table_words_no_z(n / 10);
    lemma_table_words_no_z(n % 10);
    lemma_table_words_no_z(n / 100);
    if 20 <= n < 100 && n % 10 != 0 {
        lemma_no_z_concat(tens_word(n / 10), "-"@);
        lemma_no_z_concat(tens_word(n / 10) + "-"@, ones_word(n % 10));
    } else if n >= 100 {
        lemma_no_z_concat(ones_word(n / 100), " hundred"@);
        lemma_no_z_concat(ones_word(n / 100), " hundred and "@);
        lemma_chunk_no_z(n % 100);
        lemma_no_z_concat(ones_word(n / 100) + " hundred and "@, chunk_words(n % 100));
    }
}

proof fn lemma_groups_no_z(number: nat, idx: nat)
    ensures
        forall|j: int| 0 <= j < groups_from(number, idx).len() ==> no_z(#[trigger] groups_from(number, idx)[j]),
    decreases number,
{
    if number > 0 {
        lemma_groups_no_z(number / 1000, idx + 1);
        let c = (number % 1000) as nat;
        lemma_chunk_no_z(c);
        reveal_strlit(" ");
        reveal_strlit("Thousand");
        reveal_strlit("Million");
        lemma_no_z_concat(chunk_words(c), " "@);
        lemma_no_z_concat(chunk_words(c) + " "@, scale_word(idx));
        let g = groups_from(number, idx);
        let head = groups_from(number / 1000, idx + 1);
        assert forall|j: int| 0 <= j < g.len() implies no_z(#[trigger] g[j]) by {
            if j >= head.len() {
                assert(g[j] == group_words(c, idx));
            } else {
                assert(g[j] == head[j]);
            }
        }
    }
}

proof fn lemma_join_no_z(parts: Seq<Seq<char>>)
    requires
        forall|j: int| 0 <= j < parts.len() ==> no_z(#[trigger] parts[j]),
    ensures
        no_z(join_words(parts)),
    decreases parts.len(),
{
    if parts.len() > 1 {
        let init = parts.drop_last();
        assert forall|j: int| 0 <= j < init.len() implies no_z(#[trigger] init[j]) by {
            assert(init[j] == parts[j]);
        }
        lemma_join_no_z(init);
        reveal_strlit(" ");
        lemma_no_z_concat(join_words(init), " "@);
        lemma_no_z_concat(join_words(init) + " "@, parts.last());
    }
}

proof fn lemma_amount_line_no_z(whole: nat, cents: nat)
    requires
        whole > 0,
    ensures
        no_z(amount_line(whole, cents)),
{
    lemma_groups_no_z(whole, 0);
    lemma_join_no_z(groups_from(whole, 0));
    lemma_chunk_no_z(cents);
    reveal_strlit(" ");
    reveal_strlit(" and ");
    reveal_strlit("Dollar");
    reveal_strlit("Dollars");
    reveal_strlit("Cent");
    reveal_strlit("Cents");
    let dollar = if whole == 1 {
        "Dollar"@
    } else {
        "Dollars"@
    };
    let cent = if cents == 1 {
        "Cent"@
    } else {
        "Cents"@
    };
    let w = number_words(whole);
    lemma_no_z_concat(w, " "@);
    lemma_no_z_concat(w + " "@, dollar);
    lemma_no_z_concat(w + " "@ + dollar, " and "@);
    lemma_no_z_concat(w + " "@ + dollar + " and "@, chunk_words(cents));
    lemma_no_z_concat(w + " "@ + dollar + " and "@ + chunk_words(cents), " "@);
    lemma_no_z_concat(w + " "@ + dollar + " and "@ + chunk_words(cents) + " "@, cent);
}

/// Every whole amount from zero up to the payment limit verbalizes, and the
/// text holds the word "zero" exactly when the amount is zero, for any payee
/// name that does not itself hold that word.
pub proof fn lemma_whole_amounts_verbalize(n: u64, payee: Seq<char>)
    requires
        n <= MAX_CHEQUE_PAYMENT,
        !contains(payee, "zero"@),
    ensures
        verbalized(Amount::Finite { negative: false, units: n, scale: 0 }, payee) is Ok,
        contains(
            verbalized(Amount::Finite { negative: false, units: n, scale: 0 }, payee)->Ok_0,
            "zero"@,
        ) <==> n == 0,
{
    reveal_with_fuel(pow10, 3);
    let a = Amount::Finite { negative: false, units: n, scale: 0 };
    assert(cents_of(n as nat, 0) == n * 100);
    assert((n * 100) / 100 == n);
    assert((n * 100) % 100 == 0);
    let text = cheque_text(payee, n as nat, 0);
    assert(verbalized(a, payee) == Ok::<Seq<char>, AmountError>(text));
    let head = "Payee: "@;
    let sep = "\nAmount: "@;
    let zero = "zero"@;
    reveal_strlit("Payee: ");
    reveal_strlit("\nAmount: ");
    reveal_strlit("zero");
    let line = amount_line(n as nat, 0);
    assert(text == head + payee + sep + line);
    let at: int = 16 + payee.len() as int;
    if n == 0 {
        assert(line == zero + (" "@ + "Dollars"@ + " and "@ + chunk_words(0) + " "@ + "Cents"@));
        assert(text.subrange(at, at + 4) =~= zero);
        assert(occurs_at(text, zero, at));
    } else {
        lemma_amount_line_no_z(n as nat, 0);
        assert(no_z(head));
        assert(no_z(sep));
        lemma_no_z_concat(sep, line);
        if contains(text, zero) {
            let i = choose|i: int| occurs_at(text, zero, i);
            assert(text.subrange(i, i + 4)[0] == 'z');
            assert(text[i] == 'z');
            if i < 7 {
                assert(text[i] == head[i]);
            } else if i >= 7 + payee.len() {
                assert(text[i] == (sep + line)[i - 7 - payee.len()]);
            } else if i + 4 <= 7 + payee.len() {
                assert(payee.subrange(i - 7, i - 3) =~= text.subrange(i, i + 4));
                assert(occurs_at(payee, zero, i - 7));
            } else {
                let k = 7 + payee.len() - i;
                assert(text[7 + payee.len() as int] == '\n');
                assert(text.subrange(i, i + 4)[k] == text[i + k]);
            }
        }
    }
}

} // verus!
