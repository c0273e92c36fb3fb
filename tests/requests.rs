use bitfinex::account::{Account, MovementReq, TransferReq, WithdrawReq};
use bitfinex::error::ClientError;
use bitfinex::nonce::NonceSource;
use bitfinex::orders::{Orders, SubmitOrder};
use bitfinex::signer::SignedRequest;

fn account() -> Account {
    Account::new(Some("my-key".to_string()), Some("my-secret".to_string()))
}

fn expected_signature(secret: &str, text: &str) -> String {
    let key = ring::hmac::Key::new(ring::hmac::HMAC_SHA384, secret.as_bytes());
    hex::encode(ring::hmac::sign(&key, text.as_bytes()).as_ref())
}

#[test]
fn wallets_call_is_signed() {
    let s: SignedRequest = account().get_wallets(1690901416558).unwrap();
    assert_eq!(s.path, "v2/auth/r/wallets");
    assert_eq!(s.nonce, "1690901416558");
    assert_eq!(s.body, "{}");
    assert_eq!(s.api_key, "my-key");
    let sig = expected_signature("my-secret", "/api/v2/auth/r/wallets1690901416558{}");
    assert_eq!(s.signature, sig);
    assert_eq!(s.signature.len(), 96);
    assert!(s.signature.chars().all(|c| c.is_ascii_digit() || ('a'..='f').contains(&c)));
}

#[test]
fn signature_depends_on_nonce() {
    let a = account().margin_base(1).unwrap();
    let b = account().margin_base(2).unwrap();
    assert_ne!(a.signature, b.signature);
    assert_eq!(a.path, "v2/auth/r/info/margin/base");
}

#[test]
fn headers_carry_key_nonce_signature() {
    let s = account().funding_info("USD", 77).unwrap();
    assert_eq!(s.path, "v2/auth/r/info/funding/fUSD");
    let h = s.headers();
    assert_eq!(h.len(), 4);
    assert_eq!(h[0], ("bfx-nonce".to_string(), "77".to_string()));
    assert_eq!(h[1], ("bfx-apikey".to_string(), "my-key".to_string()));
    assert_eq!(h[2], ("bfx-signature".to_string(), s.signature.clone()));
    assert_eq!(h[3], ("content-type".to_string(), "application/json".to_string()));
}

#[test]
fn missing_credentials_fail_fast() {
    let none = Account::new(None, Some("s".to_string()));
    assert!(matches!(none.get_wallets(1), Err(ClientError::Configuration)));
    let empty = Account::new(Some("k".to_string()), Some(String::new()));
    assert!(matches!(empty.margin_symbol("BTCUSD", 1), Err(ClientError::Configuration)));
    let orders = Orders::new(None, None);
    assert!(matches!(orders.active_orders(1), Err(ClientError::Configuration)));
}

#[test]
fn margin_symbol_path() {
    let s = account().margin_symbol("BTCUSD", 5).unwrap();
    assert_eq!(s.path, "v2/auth/r/info/margin/tBTCUSD");
}

#[test]
fn transfer_body_writes_null_currency_to() {
    let req = TransferReq {
        from: "exchange".to_string(),
        to: "margin".to_string(),
        currency: "BTC".to_string(),
        currency_to: None,
        amount: "0.5".to_string(),
    };
    assert_eq!(
        req.to_body(),
        "{\"from\":\"exchange\",\"to\":\"margin\",\"currency\":\"BTC\",\"currency_to\":null,\"amount\":\"0.5\"}"
    );
    let s = account().transfer(&req, 9).unwrap();
    assert_eq!(s.path, "v2/auth/w/transfer");
    assert_eq!(s.body, req.to_body());
    let sig = expected_signature("my-secret", &format!("/api/v2/auth/w/transfer9{}", s.body));
    assert_eq!(s.signature, sig);
}

#[test]
fn withdraw_body_omits_absent_fields() {
    let mut req = WithdrawReq {
        wallet: "exchange".to_string(),
        method: "ethereum".to_string(),
        amount: Some("0.01".to_string()),
        address: None,
        invoice: None,
        payment_id: None,
        fee_deduct: None,
        travel_rule_tos: None,
    };
    assert_eq!(req.to_body(), "{\"wallet\":\"exchange\",\"method\":\"ethereum\",\"amount\":\"0.01\"}");
    req.fee_deduct = Some(-1);
    req.travel_rule_tos = Some(true);
    req.address = Some("0xab\"c".to_string());
    assert_eq!(
        req.to_body(),
        "{\"wallet\":\"exchange\",\"method\":\"ethereum\",\"amount\":\"0.01\",\"address\":\"0xab\\\"c\",\"fee_deduct\":-1,\"travel_rule_tos\":true}"
    );
}

#[test]
fn movement_and_order_bodies() {
    assert_eq!(MovementReq { id: 24 }.to_body(), "{\"id\":24}");
    let order = SubmitOrder {
        order_type: "EXCHANGE LIMIT".to_string(),
        symbol: "tBTCUSD".to_string(),
        amount: "-0.1".to_string(),
        price: "30000".to_string(),
    };
    assert_eq!(
        order.to_body(),
        "{\"type\":\"EXCHANGE LIMIT\",\"symbol\":\"tBTCUSD\",\"amount\":\"-0.1\",\"price\":\"30000\"}"
    );
    let o = Orders::new(Some("k".to_string()), Some("s".to_string()));
    assert_eq!(o.submit(&order, 3).unwrap().path, "v2/auth/w/order/submit");
}

#[test]
fn invoice_address_call() {
    let s = account().generate_invoice_address(11).unwrap();
    assert_eq!(s.path, "v2/auth/w/deposit/address");
    assert_eq!(s.body, "{\"method\":\"LNX\",\"wallet\":\"exchange\"}");
}

#[test]
fn history_paths() {
    let o = Orders::new(Some("k".to_string()), Some("s".to_string()));
    assert_eq!(o.history(None, 1).unwrap().path, "v2/auth/r/orders/hist");
    assert_eq!(o.history(Some(String::new()), 1).unwrap().path, "v2/auth/r/orders/hist");
    assert_eq!(o.history(Some("BTCUSD".to_string()), 1).unwrap().path, "v2/auth/r/orders/tBTCUSD/hist");
    assert_eq!(o.active_orders(1).unwrap().path, "v2/auth/r/orders");
}

#[test]
fn nonces_strictly_increase_across_callers() {
    let mut source = NonceSource::starting_after(0);
    let clocks = [1000u64, 1000, 999, 1000, 1005, 1001, 1001, 2000];
    let mut seen: Vec<u64> = Vec::new();
    for (i, c) in clocks.iter().enumerate() {
        // three callers take turns at the shared source
        let _caller = i % 3;
        seen.push(source.issue(*c).unwrap());
    }
    let mut sorted = seen.clone();
    sorted.sort();
    assert_eq!(sorted, seen);
    for w in sorted.windows(2) {
        assert!(w[0] < w[1]);
    }
    assert_eq!(seen, vec![1000, 1001, 1002, 1003, 1005, 1006, 1007, 2000]);
}

#[test]
fn nonce_source_exhausts_at_max() {
    let mut source = NonceSource::starting_after(u64::MAX - 1);
    assert_eq!(source.issue(0), Some(u64::MAX));
    assert_eq!(source.issue(5), None);
}

#[test]
fn integer_fields_written_in_decimal() {
    assert_eq!(MovementReq { id: 0 }.to_body(), "{\"id\":0}");
    assert_eq!(MovementReq { id: i64::MIN }.to_body(), "{\"id\":-9223372036854775808}");
    assert_eq!(MovementReq { id: i64::MAX }.to_body(), "{\"id\":9223372036854775807}");
    assert_eq!(account().get_wallets(u64::MAX).unwrap().nonce, "18446744073709551615");
    assert_eq!(account().get_wallets(0).unwrap().nonce, "0");
}

#[test]
fn control_characters_escaped_in_bodies() {
    let req = TransferReq {
        from: "a\\b".to_string(),
        to: "line\nfeed\u{1}".to_string(),
        currency: "é".to_string(),
        currency_to: Some("USD".to_string()),
        amount: "1".to_string(),
    };
    assert_eq!(
        req.to_body(),
        "{\"from\":\"a\\\\b\",\"to\":\"line\\nfeed\\u0001\",\"currency\":\"é\",\"currency_to\":\"USD\",\"amount\":\"1\"}"
    );
}
