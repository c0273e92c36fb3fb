use bitfinex::codec::envelope_outcome;
use bitfinex::account::{MovementResp, TransferResp, Wallet, WithdrawResp};
use bitfinex::error::ClientError;
use bitfinex::orders::{Order, SubmitOrderResp};
use bitfinex::wire::{parse_decimal, Decimal, Wire};
use serde_json::Value;

fn to_wire(v: &Value) -> Wire {
    match v {
        Value::Null => Wire::Null,
        Value::Bool(b) => Wire::Bool(*b),
        Value::Number(n) => match n.as_i64() {
            Some(i) => Wire::Int(i),
            None => {
                let text = match n.as_u64() {
                    Some(u) => u.to_string(),
                    None => n.as_f64().unwrap().to_string(),
                };
                Wire::Num(parse_decimal(&text).unwrap())
            }
        },
        Value::String(s) => Wire::Str(s.clone()),
        Value::Array(items) => Wire::Array(items.iter().map(to_wire).collect()),
        Value::Object(map) => Wire::Object(map.iter().map(|(k, v)| (k.clone(), to_wire(v))).collect()),
    }
}

fn parse(text: &str) -> Wire {
    to_wire(&serde_json::from_str(text).unwrap())
}

fn elements(w: Wire) -> Vec<Wire> {
    match w {
        Wire::Array(items) => items,
        _ => panic!("not an array"),
    }
}

const TRANSFER: &str = "[1690901416558,\"acc_tf\",null,null,[1690901416558,\"exchange\",\"exchange\",null,\"LNX\",\"BTC\",null,0.00034774],null,\"SUCCESS\",\"0.00034774 Bitcoin (Lightning Network) transfered from Exchange to Exchange\"]";
const WITHDRAWAL: &str = "[1568742390999,\"acc_wd-req\",null,null,[13080092,null,\"ethereum\",null,\"exchange\",0.01,null,null,0.00135],null,\"SUCCESS\",\"Your withdrawal request has been successfully submitted.\"]";
const MOVEMENT: &str = "[24,\"EUR\",\"WIRE\",null,\"remark related to bank details\",1677086074000,1677086210000,null,null,\"COMPLETED\",null,null,-29.5,-0.5,null,null,null,null,null,null,null,\"testing note\",null,null,0,123,null,null,\"abcd-1234\",\"COMPLETED\",\"finished withdrawal in platform\",{\"router\":\"my-router\",\"meta\":{\"foo\":\"bar\"}}]";
const SUBMIT: &str = "[1690988463,\"on-req\",null,null,[[123836039427,null,1690988463421,\"tBTCUST\",1690988463421,1690988463421,-0.00034232,-0.00034232,\"EXCHANGE LIMIT\",null,null,null,0,\"ACTIVE\",null,null,29290,0,0,0,null,null,null,0,0,null,null,null,\"API>BFX\",null,null,{}]],null,\"SUCCESS\",\"Submitting 1 orders.\"]";

#[test]
fn account_test_transfer_resp() {
    let _: TransferResp = TransferResp::from_wire(parse(TRANSFER)).expect("parsed");
}

#[test]
fn test_withdrawal_resp() {
    let _: WithdrawResp = WithdrawResp::from_wire(parse(WITHDRAWAL)).expect("parsed");
}

#[test]
fn test_movement_resp() {
    let _: MovementResp = MovementResp::from_wire(parse(MOVEMENT)).expect("parsed");
}

#[test]
fn orders_test_transfer_resp() {
    let _: SubmitOrderResp = SubmitOrderResp::from_wire(parse(SUBMIT)).expect("parsed");
}

#[test]
fn transfer_fields_decode() {
    let r = TransferResp::from_wire(parse(TRANSFER)).unwrap();
    assert_eq!(r.mts, 1690901416558);
    assert_eq!(r.notification_type, "acc_tf");
    assert_eq!(r.status, "SUCCESS");
    assert_eq!(r.message_id, None);
    assert_eq!(r.code, None);
    assert_eq!(r.info.mts_updated, Some(1690901416558));
    assert_eq!(r.info.amount, Decimal { mantissa: 34774, scale: 8 });
    assert_eq!(r.info.wallet_from, "exchange");
    assert_eq!(r.info.wallet_to, "exchange");
    assert_eq!(r.info.currency, "LNX");
    assert_eq!(r.info.currency_to, "BTC");
}

#[test]
fn withdrawal_null_payment_id() {
    let r = WithdrawResp::from_wire(parse(WITHDRAWAL)).unwrap();
    assert_eq!(r.data.payment_id, None);
    assert_eq!(r.data.method, "ethereum");
    assert_eq!(r.data.withdrawal_id, 13080092);
    assert_eq!(r.data.wallet, "exchange");
    assert_eq!(r.data.amount, Decimal { mantissa: 1, scale: 2 });
    assert_eq!(r.data.withdraw_fee, Decimal { mantissa: 135, scale: 5 });
}

#[test]
fn movement_fields_decode() {
    let r = MovementResp::from_wire(parse(MOVEMENT)).unwrap();
    assert_eq!(r.id, 24);
    assert_eq!(r.remark.as_deref(), Some("remark related to bank details"));
    assert_eq!(r.amount, Decimal { mantissa: -295, scale: 1 });
    assert_eq!(r.fees, Decimal { mantissa: -5, scale: 1 });
    assert_eq!(r.movement_note.as_deref(), Some("testing note"));
    assert_eq!(r.bank_fees, Some(Decimal { mantissa: 0, scale: 0 }));
    assert_eq!(r.bank_router_id, Some(123));
    assert_eq!(r.external_bank_mov_status.as_deref(), Some("COMPLETED"));
    assert!(matches!(r.external_bank_mov_acc_info, Some(Wire::Object(_))));
}

#[test]
fn submitted_order_decodes_first_element() {
    let r = SubmitOrderResp::from_wire(parse(SUBMIT)).unwrap();
    let d = r.data.data;
    assert_eq!(d.id, 123836039427);
    assert_eq!(d.gid, None);
    assert_eq!(d.cid, Some(1690988463421));
    assert_eq!(d.symbol.as_deref(), Some("tBTCUST"));
    assert_eq!(d.amount, Decimal { mantissa: -34232, scale: 8 });
    assert_eq!(d.status, "ACTIVE");
    assert_eq!(d.price, Decimal { mantissa: 29290, scale: 0 });
    assert_eq!(d.routing.as_deref(), Some("API>BFX"));
    assert!(matches!(d.meta, Some(Wire::Object(_))));
}

#[test]
fn submitted_order_empty_list_is_protocol_error() {
    let text = "[1690988463,\"on-req\",null,null,[],null,\"SUCCESS\",\"Submitting 1 orders.\"]";
    let r = SubmitOrderResp::from_wire(parse(text));
    assert!(matches!(r, Err(ClientError::Protocol { .. })));
}

#[test]
fn failed_envelope_is_exchange_error() {
    let text = "[1690901416558,\"acc_tf\",null,null,null,10001,\"ERROR\",\"Invalid wallet\"]";
    match WithdrawResp::from_wire(parse(text)) {
        Err(ClientError::Exchange { status, code, text }) => {
            assert_eq!(status, "ERROR");
            assert!(matches!(code, Some(Wire::Int(10001))));
            assert_eq!(text.as_deref(), Some("Invalid wallet"));
        }
        other => panic!("unexpected {:?}", other),
    }
}

#[test]
fn failed_envelope_with_payload_is_exchange_error() {
    let text = TRANSFER.replace("\"SUCCESS\"", "\"FAILURE\"");
    let r = TransferResp::from_wire(parse(&text));
    assert!(matches!(r, Err(ClientError::Exchange { .. })));
}

#[test]
fn extra_trailing_elements_are_ignored() {
    let text = "[1568742390999,\"acc_wd-req\",null,null,[13080092,null,\"ethereum\",null,\"exchange\",0.01,null,null,0.00135,\"new\",7],null,\"SUCCESS\",\"ok\",42,[1]]";
    let r = WithdrawResp::from_wire(parse(text)).unwrap();
    assert_eq!(r.mts, 1568742390999);
    assert_eq!(r.text.as_deref(), Some("ok"));
    assert_eq!(r.data.withdraw_fee, Decimal { mantissa: 135, scale: 5 });
}

#[test]
fn truncated_array_is_protocol_error() {
    let mut items = elements(parse(MOVEMENT));
    items.truncate(12);
    let r = MovementResp::from_wire(Wire::Array(items));
    assert!(matches!(r, Err(ClientError::Protocol { .. })));
}

#[test]
fn truncated_inner_record_is_protocol_error() {
    let text = "[1690901416558,\"acc_tf\",null,null,[1690901416558,\"exchange\",\"exchange\",null,\"LNX\"],null,\"SUCCESS\",null]";
    let r = TransferResp::from_wire(parse(text));
    assert!(matches!(r, Err(ClientError::Protocol { .. })));
}

#[test]
fn missing_optional_tail_decodes() {
    let r = Wallet::from_wire(parse("[\"exchange\",\"BTC\",1.5,0]")).unwrap();
    assert_eq!(r.wallet_type, "exchange");
    assert_eq!(r.balance, Decimal { mantissa: 15, scale: 1 });
    assert_eq!(r.unsettled_interest, Decimal { mantissa: 0, scale: 0 });
    assert_eq!(r.balance_available, None);
    assert!(r.trade_details.is_none());
}

#[test]
fn wrong_element_type_is_protocol_error() {
    let r = Wallet::from_wire(parse("[\"exchange\",\"BTC\",\"1.5\",0]"));
    assert!(matches!(r, Err(ClientError::Protocol { .. })));
    let r = WithdrawResp::from_wire(parse("{\"a\":1}"));
    assert!(matches!(r, Err(ClientError::Protocol { .. })));
}

#[test]
fn wallet_list_decodes() {
    let text = "[[\"exchange\",\"BTC\",0.5,0,0.25,\"note\",null],[\"margin\",\"USD\",10,1,null,null,{\"k\":1}]]";
    let ws = Wallet::list_from_wire(parse(text)).unwrap();
    assert_eq!(ws.len(), 2);
    assert_eq!(ws[0].balance_available, Some(Decimal { mantissa: 25, scale: 2 }));
    assert_eq!(ws[0].last_change.as_deref(), Some("note"));
    assert_eq!(ws[1].currency, "USD");
    assert!(ws[1].trade_details.is_some());
    let bad = "[[\"exchange\",\"BTC\",0.5,0],[\"margin\"]]";
    assert!(Wallet::list_from_wire(parse(bad)).is_err());
}

#[test]
fn order_list_decodes() {
    let one = "[1,null,2,\"tBTCUSD\",3,4,0.5,1,\"LIMIT\",null,null,null,null,\"ACTIVE\",null,null,100,0,null,null,null,null,null,0,1,null]";
    let orders = Order::list_from_wire(parse(&format!("[{},{}]", one, one))).unwrap();
    assert_eq!(orders.len(), 2);
    assert_eq!(orders[1].symbol, "tBTCUSD");
    assert_eq!(orders[0].hidden, 1);
    assert_eq!(orders[0].group_id, None);
    let out_of_range = one.replace(",0,1,null]", ",0,4294967296,null]");
    assert!(Order::list_from_wire(parse(&format!("[{}]", out_of_range))).is_err());
}

#[test]
fn decimal_text_parses() {
    assert_eq!(parse_decimal("-29.5"), Some(Decimal { mantissa: -295, scale: 1 }));
    assert_eq!(parse_decimal("0.00034774"), Some(Decimal { mantissa: 34774, scale: 8 }));
    assert_eq!(parse_decimal("18446744073709551615"), Some(Decimal { mantissa: 18446744073709551615, scale: 0 }));
    assert_eq!(parse_decimal("1."), None);
    assert_eq!(parse_decimal(".5"), None);
    assert_eq!(parse_decimal("1.2.3"), None);
    assert_eq!(parse_decimal("-"), None);
    assert_eq!(parse_decimal(""), None);
    assert_eq!(parse_decimal("1e5"), None);
    assert_eq!(parse_decimal(&"9".repeat(37)).map(|d| d.scale), Some(0));
    assert_eq!(parse_decimal(&"9".repeat(38)), None);
}

#[test]
fn wallet_object_form_decodes() {
    let text = "[{\"currency\":\"BTC\",\"wallet_type\":\"exchange\",\"balance\":2,\"unsettled_interest\":0.5,\"extra\":1},{\"wallet_type\":\"margin\",\"currency\":\"USD\",\"balance\":1,\"unsettled_interest\":0,\"balance_available\":0.75,\"trade_details\":[1]}]";
    let ws = Wallet::list_from_wire(parse(text)).unwrap();
    assert_eq!(ws[0].wallet_type, "exchange");
    assert_eq!(ws[0].currency, "BTC");
    assert_eq!(ws[0].balance, Decimal { mantissa: 2, scale: 0 });
    assert_eq!(ws[0].unsettled_interest, Decimal { mantissa: 5, scale: 1 });
    assert_eq!(ws[0].balance_available, None);
    assert_eq!(ws[1].balance_available, Some(Decimal { mantissa: 75, scale: 2 }));
    assert!(matches!(ws[1].trade_details, Some(Wire::Array(_))));
    let missing = Wallet::from_wire(parse("{\"wallet_type\":\"exchange\",\"balance\":2,\"unsettled_interest\":0}"));
    assert!(matches!(missing, Err(ClientError::Protocol { .. })));
}

fn entry<'a>(w: &'a Wire, name: &str) -> &'a Wire {
    match w {
        Wire::Object(entries) => &entries.iter().find(|(k, _)| k == name).expect("present").1,
        _ => panic!("not an object"),
    }
}

#[test]
fn decoded_record_written_as_object() {
    let r = TransferResp::from_wire(parse(TRANSFER)).unwrap();
    let o = r.into_object();
    assert!(matches!(entry(&o, "mts"), Wire::Int(1690901416558)));
    assert!(matches!(entry(&o, "status"), Wire::Str(s) if s == "SUCCESS"));
    assert!(matches!(entry(&o, "message_id"), Wire::Null));
    let info = entry(&o, "info");
    assert!(matches!(entry(info, "amount"), Wire::Num(Decimal { mantissa: 34774, scale: 8 })));
    assert!(matches!(entry(info, "wallet_from"), Wire::Str(s) if s == "exchange"));
    match info {
        Wire::Object(entries) => {
            let names: Vec<&str> = entries.iter().map(|(k, _)| k.as_str()).collect();
            assert_eq!(names, vec!["mts_updated", "wallet_from", "wallet_to", "currency", "currency_to", "amount"]);
        }
        _ => panic!("not an object"),
    }
}

#[test]
fn movement_written_as_object_keeps_values() {
    let r = MovementResp::from_wire(parse(MOVEMENT)).unwrap();
    let o = r.into_object();
    assert!(matches!(entry(&o, "bank_fees"), Wire::Num(Decimal { mantissa: 0, scale: 0 })));
    assert!(matches!(entry(&o, "fees"), Wire::Num(Decimal { mantissa: -5, scale: 1 })));
    assert!(matches!(entry(&o, "external_bank_mov_acc_info"), Wire::Object(_)));
    match &o {
        Wire::Object(entries) => assert_eq!(entries.len(), 19),
        _ => panic!("not an object"),
    }
}

#[test]
fn envelope_outcome_reads_status_only() {
    let ok = "[1,\"acc_dep\",null,null,[1,\"whatever\"],null,\"SUCCESS\",null]";
    assert!(envelope_outcome(parse(ok)).is_ok());
    let refused = "[1,\"acc_dep\",null,null,null,\"E1\",\"ERROR\",\"no address\"]";
    match envelope_outcome(parse(refused)) {
        Err(ClientError::Exchange { status, code, text }) => {
            assert_eq!(status, "ERROR");
            assert!(matches!(code, Some(Wire::Str(c)) if c == "E1"));
            assert_eq!(text.as_deref(), Some("no address"));
        }
        other => panic!("unexpected {:?}", other),
    }
    assert!(matches!(envelope_outcome(parse("[1,\"x\"]")), Err(ClientError::Protocol { .. })));
}

#[test]
fn decimal_forms_of_one_value_agree() {
    assert_eq!(parse_decimal("29290.0"), Some(Decimal { mantissa: 29290, scale: 0 }));
    assert_eq!(parse_decimal("0.500"), Some(Decimal { mantissa: 5, scale: 1 }));
    assert_eq!(parse_decimal("-0.0"), Some(Decimal { mantissa: 0, scale: 0 }));
    let one = "[1,null,2,\"tBTCUSD\",3,4,0.5,1,\"LIMIT\",null,null,null,null,\"ACTIVE\",null,null,PRICE,AVG,null,null,null,null,null,0,1,null]";
    let a = Order::list_from_wire(parse(&format!("[{}]", one.replace("PRICE", "29290").replace("AVG", "0")))).unwrap();
    let b = Order::list_from_wire(parse(&format!("[{}]", one.replace("PRICE", "29290.0").replace("AVG", "0.0")))).unwrap();
    assert_eq!(a[0].price, b[0].price);
    assert_eq!(a[0].price_avg, b[0].price_avg);
}

#[test]
fn protocol_error_carries_value_and_record() {
    match MovementResp::from_wire(parse("[24,\"EUR\"]")) {
        Err(ClientError::Protocol { record, payload }) => {
            assert_eq!(record, "MovementResp");
            assert!(matches!(payload, Wire::Array(items) if items.len() == 2));
        }
        other => panic!("unexpected {:?}", other),
    }
    let text = "[1568742390999,\"acc_wd-req\",null,null,[\"abc\",null,\"ethereum\",null,\"exchange\",0.01,null,null,0.00135],null,\"SUCCESS\",null]";
    match WithdrawResp::from_wire(parse(text)) {
        Err(ClientError::Protocol { record, payload }) => {
            assert_eq!(record, "WithdrawData");
            assert!(matches!(payload, Wire::Array(items) if items.len() == 9));
        }
        other => panic!("unexpected {:?}", other),
    }
}
