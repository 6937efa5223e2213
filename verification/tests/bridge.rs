use cashregisterbridge::command::{default_footnote, CashierCommand, PaymentKind};
use cashregisterbridge::connection::{protocol_accepted, step, ConnState, Msg, Reply};
use cashregisterbridge::decode::{decode, DecodeError};
use cashregisterbridge::protocol::format_command;

#[test]
fn test_deserialize() {
    assert!(decode(r#"{"total_price": 12, "payment_kind":"Cash"}"#).is_ok());
    assert!(decode(r#"{"total_price": 12, "payment_kind":"Card"}"#).is_ok());
    assert!(decode(r#"{"total_price": 12, "payment_kind":"Cashh"}"#).is_err());
    let command = decode(r#"{"total_price": 12, "payment_kind":"Cash"}"#).unwrap();
    assert_eq!(command.footnote.len() > 0, true);
}

#[test]
fn decode_applies_default_footnote() {
    let command = decode(r#"{"total_price": 500, "payment_kind": "Cash"}"#).unwrap();
    assert_eq!(
        command.footnote,
        vec![
            "Köszönjük, hogy nálunk vásárolt!".to_string(),
            "*".to_string(),
            "www.gardenzilla.hu".to_string(),
            "Eszelős favágó".to_string(),
        ]
    );
    assert_eq!(command.total_price, 500);
    assert_eq!(command.payment_kind, PaymentKind::Cash);
}

#[test]
fn decode_keeps_supplied_footnote() {
    let command =
        decode(r#"{"total_price": 7, "payment_kind": "Card", "footnote": ["a", "b"]}"#).unwrap();
    assert_eq!(command.footnote, vec!["a".to_string(), "b".to_string()]);
    assert_eq!(command.payment_kind, PaymentKind::Card);
}

#[test]
fn decode_accepts_empty_footnote() {
    let command =
        decode(r#"{"total_price": 1200, "payment_kind": "Card", "footnote": []}"#).unwrap();
    assert_eq!(command.footnote.len(), 0);
}

#[test]
fn decode_rejects_malformed_text() {
    assert_eq!(decode("{oops"), Err(DecodeError::Malformed));
    assert_eq!(decode(""), Err(DecodeError::Malformed));
}

#[test]
fn decode_rejects_non_object() {
    assert_eq!(decode("[1, 2]"), Err(DecodeError::NotAnObject));
    assert_eq!(decode("\"Cash\""), Err(DecodeError::NotAnObject));
    assert_eq!(decode("42"), Err(DecodeError::NotAnObject));
}

#[test]
fn decode_rejects_missing_total_price() {
    assert_eq!(
        decode(r#"{"payment_kind": "Cash"}"#),
        Err(DecodeError::MissingTotalPrice)
    );
}

#[test]
fn decode_rejects_non_integer_total_price() {
    assert_eq!(
        decode(r#"{"total_price": 12.5, "payment_kind": "Cash"}"#),
        Err(DecodeError::TotalPriceNotInteger)
    );
    assert_eq!(
        decode(r#"{"total_price": "12", "payment_kind": "Cash"}"#),
        Err(DecodeError::TotalPriceNotInteger)
    );
    assert_eq!(
        decode(r#"{"total_price": 3000000000, "payment_kind": "Cash"}"#),
        Err(DecodeError::TotalPriceNotInteger)
    );
}

#[test]
fn decode_rejects_missing_payment_kind() {
    assert_eq!(
        decode(r#"{"total_price": 12}"#),
        Err(DecodeError::MissingPaymentKind)
    );
}

#[test]
fn decode_rejects_unknown_payment_kind() {
    assert_eq!(
        decode(r#"{"total_price": 12, "payment_kind": "Cashh"}"#),
        Err(DecodeError::UnknownPaymentKind)
    );
    assert_eq!(
        decode(r#"{"total_price": 12, "payment_kind": 5}"#),
        Err(DecodeError::UnknownPaymentKind)
    );
}

#[test]
fn decode_rejects_bad_footnote() {
    assert_eq!(
        decode(r#"{"total_price": 12, "payment_kind": "Cash", "footnote": "x"}"#),
        Err(DecodeError::FootnoteNotTextLines)
    );
    assert_eq!(
        decode(r#"{"total_price": 12, "payment_kind": "Cash", "footnote": ["a", 1]}"#),
        Err(DecodeError::FootnoteNotTextLines)
    );
}

#[test]
fn format_default_footnote_cash() {
    let command = decode(r#"{"total_price": 500, "payment_kind": "Cash"}"#).unwrap();
    let line = format_command(&command);
    assert_eq!(
        line,
        "fiscat/AEE|SLD|||4|Köszönjük, hogy nálunk vásárolt!|*|www.gardenzilla.hu|Eszelős favágó|||\"\"|1|Tételek|8|500|||P"
    );
}

#[test]
fn format_empty_footnote_card() {
    let command =
        decode(r#"{"total_price": 1200, "payment_kind": "Card", "footnote": []}"#).unwrap();
    let line = format_command(&command);
    assert_eq!(line, "fiscat/AEE|SLD|||0|||\"\"|1|Tételek|8|1200|||N");
}

#[test]
fn format_negative_total_price() {
    let command = CashierCommand {
        footnote: vec!["x".to_string()],
        total_price: -25,
        payment_kind: PaymentKind::Cash,
    };
    assert_eq!(format_command(&command), "fiscat/AEE|SLD|||1|x|||\"\"|1|Tételek|8|-25|||P");
}

#[test]
fn format_is_deterministic() {
    let a = decode(r#"{"total_price": 12, "payment_kind": "Card", "footnote": ["a"]}"#).unwrap();
    let b = decode(r#"{"total_price": 12, "payment_kind": "Card", "footnote": ["a"]}"#).unwrap();
    assert_eq!(format_command(&a), format_command(&b));
    assert_eq!(format_command(&a), format_command(&a));
}

#[test]
fn footnote_count_prefix_matches_line_count() {
    for n in 0..7usize {
        let lines: Vec<String> = (0..n).map(|k| format!("line{}", k)).collect();
        let command = CashierCommand {
            footnote: lines,
            total_price: 1,
            payment_kind: PaymentKind::Cash,
        };
        let line = format_command(&command);
        let segment = &line["fiscat/AEE|SLD|||".len()..];
        let digits: String = segment.chars().take_while(|c| c.is_ascii_digit()).collect();
        assert_eq!(digits.parse::<usize>().unwrap(), n);
        let after = &segment[digits.len()..segment.find("\"\"").unwrap()];
        assert_eq!(after.matches('|').count(), n + 3);
    }
}

#[test]
fn payment_codes() {
    assert_eq!(PaymentKind::Cash.to_code_str(), "P");
    assert_eq!(PaymentKind::Card.to_code_str(), "N");
}

#[test]
fn default_footnote_lines() {
    let lines = default_footnote();
    assert_eq!(
        lines,
        vec![
            "Köszönjük, hogy nálunk vásárolt!".to_string(),
            "*".to_string(),
            "www.gardenzilla.hu".to_string(),
            "Eszelős favágó".to_string(),
        ]
    );
}

#[test]
fn handshake_requires_sub_protocol() {
    assert!(protocol_accepted(&vec!["cashregisterbridge".to_string()]));
    assert!(protocol_accepted(&vec![
        "other".to_string(),
        "cashregisterbridge".to_string()
    ]));
    assert!(!protocol_accepted(&vec![]));
    assert!(!protocol_accepted(&vec!["other".to_string()]));
    assert!(!protocol_accepted(&vec!["cashregisterbridg".to_string()]));
}

#[test]
fn step_ping_yields_identical_pong() {
    let payload = vec![1u8, 2, 3];
    let (state, reply) = step(Msg::Ping(payload.clone()));
    assert_eq!(state, ConnState::Open);
    assert!(matches!(reply, Reply::Pong(p) if p == payload));
}

#[test]
fn step_close_acknowledges_and_closes() {
    let (state, reply) = step(Msg::Close);
    assert_eq!(state, ConnState::Closed);
    assert!(matches!(reply, Reply::CloseAck));
}

#[test]
fn step_text_writes_formatted_command() {
    let (state, reply) = step(Msg::Text(
        r#"{"total_price": 1200, "payment_kind": "Card", "footnote": []}"#.to_string(),
    ));
    assert_eq!(state, ConnState::Open);
    assert!(
        matches!(reply, Reply::DeviceWrite(line) if line == "fiscat/AEE|SLD|||0|||\"\"|1|Tételek|8|1200|||N")
    );
}

#[test]
fn step_bad_text_only_logs() {
    let (state, reply) = step(Msg::Text("{oops".to_string()));
    assert_eq!(state, ConnState::Open);
    assert!(matches!(reply, Reply::LogDecodeError(DecodeError::Malformed)));
}

#[test]
fn step_other_echoes_back() {
    let (state, reply) = step(Msg::Other);
    assert_eq!(state, ConnState::Open);
    assert!(matches!(reply, Reply::EchoBack));
}

#[test]
fn two_commands_write_in_order() {
    let first = r#"{"total_price": 1, "payment_kind": "Cash", "footnote": []}"#;
    let second = r#"{"total_price": 2, "payment_kind": "Card", "footnote": []}"#;
    let mut writes: Vec<String> = Vec::new();
    for text in [first, second] {
        let (state, reply) = step(Msg::Text(text.to_string()));
        assert_eq!(state, ConnState::Open);
        if let Reply::DeviceWrite(line) = reply {
            writes.push(line);
        }
    }
    assert_eq!(
        writes,
        vec![
            "fiscat/AEE|SLD|||0|||\"\"|1|Tételek|8|1|||P".to_string(),
            "fiscat/AEE|SLD|||0|||\"\"|1|Tételek|8|2|||N".to_string(),
        ]
    );
}
