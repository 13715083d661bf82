use cheque_workflow::verbalize::{
    amount_to_cents, cheque_to_text, chunk_to_words, number_to_words, Amount, AmountError,
};

fn dec(units: u64, scale: u32) -> Amount {
    Amount::Finite { negative: false, units, scale }
}

#[test]
fn limit_itself_is_payable() {
    assert!(cheque_to_text(dec(2_500_000_000, 2), "X").is_ok());
}

#[test]
fn one_cent_over_limit_is_refused() {
    assert_eq!(cheque_to_text(dec(2_500_000_001, 2), "X"), Err(AmountError::ExceedsLimit));
}

#[test]
fn third_decimal_is_refused() {
    assert_eq!(cheque_to_text(dec(10_005, 3), "X"), Err(AmountError::TooManyDecimals));
}

#[test]
fn two_decimals_are_accepted() {
    assert!(cheque_to_text(dec(1_000, 2), "X").is_ok());
}

#[test]
fn trailing_zero_decimals_are_accepted() {
    assert_eq!(amount_to_cents(dec(10_500, 3)), Ok(1_050));
}

#[test]
fn one_dollar_is_singular_and_zero_cents_plural() {
    let text = cheque_to_text(dec(100, 2), "X").unwrap();
    assert!(text.contains("One Dollar"));
    assert!(!text.contains("One Dollars"));
    assert!(text.contains("Zero Cents"));
}

#[test]
fn one_cent_is_singular() {
    let text = cheque_to_text(dec(101, 2), "X").unwrap();
    assert!(text.contains("and One Cent"));
    assert!(!text.contains("One Cents"));
}

#[test]
fn literal_scenario_jane_doe() {
    let text = cheque_to_text(dec(123_456_789, 2), "Jane Doe").unwrap();
    assert_eq!(
        text,
        "Payee: Jane Doe\nAmount: One Million Two hundred and Thirty-Four Thousand Five hundred and Sixty-Seven Dollars and Eighty-Nine Cents"
    );
    let lower = text.to_lowercase();
    assert!(lower.contains(
        &"One Million Two Hundred and Thirty-Four Thousand Five Hundred and Sixty-Seven".to_lowercase()
    ));
    assert!(text.contains("Eighty-Nine Cents"));
}

#[test]
fn zero_amount_uses_lower_case_zero() {
    let text = cheque_to_text(dec(0, 0), "X").unwrap();
    assert_eq!(text, "Payee: X\nAmount: zero Dollars and Zero Cents");
}

#[test]
fn whole_amounts_mention_zero_only_for_zero() {
    for n in [0u64, 1, 7, 19, 20, 99, 100, 101, 999, 1_000, 1_001, 20_000, 999_999, 1_000_000, 25_000_000] {
        let text = cheque_to_text(dec(n, 0), "X").unwrap();
        assert_eq!(text.contains("zero"), n == 0, "amount {}", n);
    }
}

#[test]
fn negative_amount_is_refused() {
    let a = Amount::Finite { negative: true, units: 1, scale: 2 };
    assert_eq!(cheque_to_text(a, "X"), Err(AmountError::Negative));
}

#[test]
fn negative_zero_is_zero() {
    let a = Amount::Finite { negative: true, units: 0, scale: 0 };
    assert!(cheque_to_text(a, "X").is_ok());
}

#[test]
fn non_finite_amounts() {
    assert_eq!(cheque_to_text(Amount::NotANumber, "X"), Err(AmountError::NotFinite));
    assert_eq!(
        cheque_to_text(Amount::Infinite { negative: false }, "X"),
        Err(AmountError::ExceedsLimit)
    );
    assert_eq!(
        cheque_to_text(Amount::Infinite { negative: true }, "X"),
        Err(AmountError::Negative)
    );
}

#[test]
fn amounts_beyond_the_type_are_refused() {
    assert_eq!(cheque_to_text(Amount::Beyond { negative: false }, "X"), Err(AmountError::ExceedsLimit));
    assert_eq!(cheque_to_text(Amount::Beyond { negative: true }, "X"), Err(AmountError::Negative));
}

#[test]
fn limit_checked_before_precision() {
    assert_eq!(cheque_to_text(dec(30_000_000_001, 3), "X"), Err(AmountError::ExceedsLimit));
}

#[test]
fn very_deep_scale() {
    assert_eq!(amount_to_cents(dec(5, 40)), Err(AmountError::TooManyDecimals));
    assert_eq!(amount_to_cents(dec(0, 40)), Ok(0));
    assert_eq!(amount_to_cents(dec(u64::MAX, 25)), Err(AmountError::TooManyDecimals));
    assert_eq!(amount_to_cents(dec(u64::MAX, 0)), Err(AmountError::ExceedsLimit));
}

#[test]
fn chunk_words() {
    assert_eq!(chunk_to_words(0), "Zero");
    assert_eq!(chunk_to_words(13), "Thirteen");
    assert_eq!(chunk_to_words(40), "Forty");
    assert_eq!(chunk_to_words(42), "Forty-Two");
    assert_eq!(chunk_to_words(300), "Three hundred");
    assert_eq!(chunk_to_words(305), "Three hundred and Five");
    assert_eq!(chunk_to_words(999), "Nine hundred and Ninety-Nine");
}

#[test]
fn number_words() {
    assert_eq!(number_to_words(0), "zero");
    assert_eq!(number_to_words(1_000), "One Thousand");
    assert_eq!(number_to_words(1_000_000), "One Million");
    assert_eq!(number_to_words(2_040_007), "Two Million Forty Thousand Seven");
    assert_eq!(number_to_words(25_000_000), "Twenty-Five Million");
}

#[test]
fn amount_error_messages() {
    assert_eq!(AmountError::ExceedsLimit.message(), "Amount exceeds the limit of 25 million.");
    assert_eq!(AmountError::TooManyDecimals.message(), "Amount has more than two decimal places.");
}
