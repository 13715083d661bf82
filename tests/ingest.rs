use cheque_workflow::decimal::{int_to_text, parse_decimal, parse_float_text};
use cheque_workflow::ingest::{cheque_row, cheque_rows, column_key, Cell};
use cheque_workflow::verbalize::Amount;

#[test]
fn parses_decimal_text() {
    assert_eq!(parse_decimal("1234567.89"), Some(Amount::Finite { negative: false, units: 123456789, scale: 2 }));
    assert_eq!(parse_decimal("10.005"), Some(Amount::Finite { negative: false, units: 10005, scale: 3 }));
    assert_eq!(parse_decimal("-5"), Some(Amount::Finite { negative: true, units: 5, scale: 0 }));
    assert_eq!(parse_decimal("0.5"), Some(Amount::Finite { negative: false, units: 5, scale: 1 }));
}

#[test]
fn rejects_malformed_decimal_text() {
    for t in ["", "-", ".5", "5.", "1.2.3", "12a", "1e5", "--1", "NaN", "inf"] {
        assert_eq!(parse_decimal(t), None, "{}", t);
    }
}

#[test]
fn oversized_whole_part_is_beyond() {
    assert_eq!(parse_decimal("99999999999999999999"), Some(Amount::Beyond { negative: false }));
    assert_eq!(parse_decimal("-1000000000000000000000.5"), Some(Amount::Beyond { negative: true }));
    assert_eq!(parse_decimal("1.00000000000000000000000001"), None);
}

#[test]
fn reads_float_text() {
    assert_eq!(parse_float_text("NaN"), Some(Amount::NotANumber));
    assert_eq!(parse_float_text("inf"), Some(Amount::Infinite { negative: false }));
    assert_eq!(parse_float_text("-inf"), Some(Amount::Infinite { negative: true }));
    assert_eq!(parse_float_text(&(0.1f64 + 0.2f64).to_string()), Some(Amount::Finite { negative: false, units: 30000000000000004, scale: 17 }));
    assert_eq!(parse_float_text(&1e30f64.to_string()), Some(Amount::Beyond { negative: false }));
    assert_eq!(parse_float_text("Infinity"), None);
}

#[test]
fn non_finite_and_huge_float_cells_still_yield_cheques() {
    for (text, amount) in [
        (f64::NAN.to_string(), Amount::NotANumber),
        (f64::INFINITY.to_string(), Amount::Infinite { negative: false }),
        (f64::NEG_INFINITY.to_string(), Amount::Infinite { negative: true }),
        (1e25f64.to_string(), Amount::Beyond { negative: false }),
    ] {
        let cells = vec![Cell::Text("C".to_string()), Cell::Number(text), Cell::Text("Dee".to_string())];
        assert_eq!(cheque_row(&cells).unwrap().amount, amount);
    }
}

#[test]
fn preview_column_keys() {
    assert_eq!(column_key(0), "cheque_number");
    assert_eq!(column_key(1), "amount");
    assert_eq!(column_key(2), "client_name");
    assert_eq!(column_key(7), "unknown");
}

#[test]
fn writes_integers() {
    assert_eq!(int_to_text(0), "0");
    assert_eq!(int_to_text(1205), "1205");
    assert_eq!(int_to_text(-42), "-42");
    assert_eq!(int_to_text(i64::MIN), "-9223372036854775808");
}

#[test]
fn reads_a_row() {
    let cells = vec![Cell::Int(1001), Cell::Number("250.75".to_string()), Cell::Text("Acme".to_string())];
    let row = cheque_row(&cells).unwrap();
    assert_eq!(row.cheque_number, "1001");
    assert_eq!(row.amount, Amount::Finite { negative: false, units: 25075, scale: 2 });
    assert_eq!(row.client_name, "Acme");
}

#[test]
fn skips_rows_of_wrong_shape() {
    assert!(cheque_row(&vec![Cell::Text("A".to_string()), Cell::Int(5)]).is_none());
    assert!(cheque_row(&vec![Cell::Text("A".to_string()), Cell::Text("5".to_string()), Cell::Text("B".to_string())]).is_none());
    assert!(cheque_row(&vec![Cell::Other, Cell::Int(5), Cell::Text("B".to_string())]).is_none());
    assert!(cheque_row(&vec![Cell::Text("A".to_string()), Cell::Int(5), Cell::Int(7)]).is_none());
}

#[test]
fn skips_header_and_bad_rows() {
    let rows = vec![
        vec![Cell::Text("No".to_string()), Cell::Text("Amount".to_string()), Cell::Text("Client".to_string())],
        vec![Cell::Text("C1".to_string()), Cell::Int(10), Cell::Text("Ann".to_string())],
        vec![Cell::Text("C2".to_string()), Cell::Other, Cell::Text("Bob".to_string())],
        vec![Cell::Number("3.5".to_string()), Cell::Number("7.25".to_string()), Cell::Text("Cy".to_string()), Cell::Other],
    ];
    let out = cheque_rows(&rows);
    assert_eq!(out.len(), 2);
    assert_eq!(out[0].0, 1);
    assert_eq!(out[0].1.client_name, "Ann");
    assert_eq!(out[1].0, 3);
    assert_eq!(out[1].1.cheque_number, "3.5");
    assert_eq!(out[1].1.amount, Amount::Finite { negative: false, units: 725, scale: 2 });
    assert_eq!(cheque_rows(&vec![]).len(), 0);
}
