use iceberg_transaction::text::push_i64;

fn numeral(n: i64) -> String {
    let mut out = String::from(">");
    push_i64(&mut out, n);
    out
}

#[test]
fn numerals_are_decimal() {
    for n in [0, 7, 10, 99, 100, 1234567890, -1, -10, -305, i64::MAX, i64::MIN] {
        assert_eq!(numeral(n), format!(">{}", n));
    }
}
