use asset_ledger::price::price_text;
use asset_ledger::price::quote;
use asset_ledger::price::read_body;
use asset_ledger::price::PriceError;

const BODY: &[u8] = br#"{"data":{"base":"BTC","currency":"USD","amount":"64123.45"}}"#;

#[test]
fn price_is_the_text_at_data_amount() {
    assert_eq!(price_text(200, BODY), Ok("64123.45".to_string()));
}

#[test]
fn price_text_is_not_the_body_itself() {
    let text = price_text(200, BODY).unwrap();
    assert_ne!(text.as_bytes(), BODY);
    assert_eq!(text.len(), 8);
}

#[test]
fn any_other_status_is_a_request_error() {
    assert_eq!(price_text(404, BODY), Err(PriceError::Request));
    assert_eq!(price_text(201, BODY), Err(PriceError::Request));
    assert_eq!(price_text(500, b"not json"), Err(PriceError::Request));
}

#[test]
fn a_body_that_is_not_json_is_a_json_error() {
    assert_eq!(price_text(200, b"not json"), Err(PriceError::Json));
    assert_eq!(price_text(200, b""), Err(PriceError::Json));
    assert_eq!(price_text(200, br#"{"data":"#), Err(PriceError::Json));
}

#[test]
fn a_body_without_the_amount_is_a_request_error() {
    assert_eq!(price_text(200, br#"{"data":{"base":"BTC"}}"#), Err(PriceError::Request));
    assert_eq!(price_text(200, br#"{"amount":"1.0"}"#), Err(PriceError::Request));
    assert_eq!(price_text(200, br#"{"data":{"amount":64123.45}}"#), Err(PriceError::Request));
    assert_eq!(price_text(200, br#"{"data":["amount"]}"#), Err(PriceError::Request));
    assert_eq!(price_text(200, b"[]"), Err(PriceError::Request));
}

#[test]
fn read_body_tells_the_three_outcomes_apart() {
    assert_eq!(read_body(b"{"), None);
    assert_eq!(read_body(b"{}"), Some(None));
    assert_eq!(read_body(BODY), Some(Some("64123.45".to_string())));
    assert_eq!(read_body(br#"{"data":{"amount":""}}"#), Some(Some(String::new())));
}

#[test]
fn quote_decides_on_status_first() {
    assert_eq!(quote(200, Some(Some("1.5".to_string()))), Ok("1.5".to_string()));
    assert_eq!(quote(199, Some(Some("1.5".to_string()))), Err(PriceError::Request));
    assert_eq!(quote(200, Some(None)), Err(PriceError::Request));
    assert_eq!(quote(200, None), Err(PriceError::Json));
    assert_eq!(quote(503, None), Err(PriceError::Request));
}
