use yakyak::domain::billing::{invoice_number, Currency};

#[test]
fn invoice_numbers_are_zero_padded() {
    assert_eq!(invoice_number(1), "INV-00000001");
    assert_eq!(invoice_number(12_345_678), "INV-12345678");
    assert_eq!(invoice_number(123_456_789), "INV-123456789");
    assert_eq!(invoice_number(0), "INV-00000000");
}

#[test]
fn currency_symbols() {
    assert_eq!(Currency::USD.symbol(), "$");
    assert_eq!(Currency::EUR.symbol(), "€");
    assert_eq!(Currency::Custom("XBT".to_string()).symbol(), "");
}
