use autothesis::price::{current_price_url, historical_prices_url, price_cache_key, urlencoding_encode};

#[test]
fn encodes_path_segments() {
    assert_eq!(urlencoding_encode("BRK.B"), "BRK.B");
    assert_eq!(urlencoding_encode("BF-B_~"), "BF-B_~");
    assert_eq!(urlencoding_encode("A/B C"), "A%2FB%20C");
    assert_eq!(urlencoding_encode("é"), "%C3%A9");
}

#[test]
fn builds_chart_urls() {
    assert_eq!(
        current_price_url("AAPL"),
        "https://query1.finance.yahoo.com/v8/finance/chart/AAPL?interval=1d&range=1d"
    );
    assert_eq!(
        historical_prices_url("^GSPC", 1700000000, -5),
        "https://query1.finance.yahoo.com/v8/finance/chart/%5EGSPC?period1=1700000000&period2=-5&interval=1d"
    );
}

#[test]
fn cache_key_is_upper_case() {
    assert_eq!(price_cache_key("brk.b"), "BRK.B");
    assert_eq!(price_cache_key("straße"), "STRASSE");
}

#[test]
fn encoded_segments_have_the_expected_shape() {
    let input = "BRK.B/é ?";
    let encoded = urlencoding_encode(input);
    let expected_len: usize = input
        .bytes()
        .map(|b| if b.is_ascii_alphanumeric() || b"-_.~".contains(&b) { 1 } else { 3 })
        .sum();
    assert_eq!(encoded.len(), expected_len);
    assert!(encoded.is_ascii());
    assert_eq!(encoded, "BRK.B%2F%C3%A9%20%3F");
    let bytes = encoded.as_bytes();
    for (i, b) in bytes.iter().enumerate() {
        if *b == b'%' {
            assert!(i + 2 < bytes.len());
            assert!(bytes[i + 1].is_ascii_hexdigit() && bytes[i + 2].is_ascii_hexdigit());
        }
    }
}
