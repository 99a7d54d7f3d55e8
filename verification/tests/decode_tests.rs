use moneypool::snapshot::{
    build_snapshot, decode_snapshot_str, DecodeError, RawSnapshot, RawTransaction,
};

fn decode_err(text: &str, pool: &str) -> DecodeError {
    match decode_snapshot_str(text, pool) {
        Ok(_) => panic!("unexpectedly decoded"),
        Err(e) => e,
    }
}

fn pool_json() -> String {
    String::from(
        r#"{
        "campaign": {
            "pool42": {
                "title": "Garden fund",
                "owner": { "id": "owner1", "full_name": "Owner Name" },
                "pledge": 100.0
            }
        },
        "contributors": {
            "map": {
                "abc": { "full_name": "Abby" },
                "def": { "full_name": "Dee" }
            }
        },
        "txns": {
            "list": [
                { "date": "2021-01-01T00:00:00Z", "amount": 5.0, "contributor_id": "abc", "id": "x1" },
                { "date": "1970-01-01T00:00:00Z", "amount": 2.5, "contributor_id": "def", "id": "x2" }
            ]
        }
    }"#,
    )
}

#[test]
fn well_formed_document_decodes() {
    let s = decode_snapshot_str(&pool_json(), "pool42").unwrap();
    assert_eq!(s.pool_id, "pool42");
    assert_eq!(s.title, "Garden fund");
    assert_eq!(s.owner_id, "owner1");
    assert_eq!(s.owner_name, "Owner Name");
    assert_eq!(s.owner_pledge_cents, 10000);
    assert_eq!(s.txns.len(), 2);
    assert_eq!(s.txns[0].timestamp_secs, 1609459200);
    assert_eq!(s.txns[0].amount_cents, 500);
    assert_eq!(s.txns[0].contributor_id, "abc");
    assert_eq!(s.txns[1].timestamp_secs, 0);
    assert_eq!(s.txns[1].amount_cents, 250);
    assert_eq!(s.txns[1].contributor_id, "def");
    // serde_json's object iteration is sorted by key.
    assert_eq!(s.contributors.len(), 2);
    assert_eq!(s.contributors[0], (String::from("abc"), String::from("Abby")));
    assert_eq!(s.contributors[1], (String::from("def"), String::from("Dee")));
}

#[test]
fn invalid_json_is_not_json() {
    assert_eq!(decode_err("not json at all", "pool42"), DecodeError::NotJson);
}

#[test]
fn unknown_pool_is_missing_field() {
    assert_eq!(decode_err(&pool_json(), "other"), DecodeError::MissingField);
}

#[test]
fn missing_owner_id_is_missing_field() {
    let text = r#"{
        "campaign": { "p": { "owner": { "full_name": "N" }, "pledge": 1 } },
        "contributors": { "map": {} },
        "txns": { "list": [] }
    }"#;
    assert_eq!(decode_err(text, "p"), DecodeError::MissingField);
}

#[test]
fn non_numeric_pledge_is_missing_field() {
    let text = r#"{
        "campaign": { "p": { "owner": { "id": "o" }, "pledge": "100" } },
        "contributors": { "map": {} },
        "txns": { "list": [] }
    }"#;
    assert_eq!(decode_err(text, "p"), DecodeError::MissingField);
}

#[test]
fn unparseable_pledge_number_is_bad_pledge() {
    let text = r#"{
        "campaign": { "p": { "owner": { "id": "o" }, "pledge": 1e30 } },
        "contributors": { "map": {} },
        "txns": { "list": [] }
    }"#;
    assert_eq!(decode_err(text, "p"), DecodeError::BadPledgeAmount);
}

#[test]
fn bad_transaction_date_names_its_position() {
    let text = r#"{
        "campaign": { "p": { "owner": { "id": "o" }, "pledge": 1 } },
        "contributors": { "map": {} },
        "txns": { "list": [
            { "date": "2021-01-01T00:00:00Z", "amount": 1, "contributor_id": "a" },
            { "date": "yesterday", "amount": 1, "contributor_id": "b" }
        ] }
    }"#;
    assert_eq!(decode_err(text, "p"), DecodeError::BadTransactionDate(1));
}

#[test]
fn bad_transaction_amount_names_its_position() {
    let text = r#"{
        "campaign": { "p": { "owner": { "id": "o" }, "pledge": 1 } },
        "contributors": { "map": {} },
        "txns": { "list": [
            { "date": "2021-01-01T00:00:00Z", "amount": 1e30, "contributor_id": "a" }
        ] }
    }"#;
    assert_eq!(decode_err(text, "p"), DecodeError::BadTransactionAmount(0));
}

#[test]
fn sub_cent_amounts_decode_to_zero_cents() {
    let text = r#"{
        "campaign": { "p": { "owner": { "id": "o" }, "pledge": 1 } },
        "contributors": { "map": {} },
        "txns": { "list": [
            { "date": "2021-01-01T00:00:00Z", "amount": 0.000001, "contributor_id": "a" }
        ] }
    }"#;
    let s = decode_snapshot_str(text, "p").unwrap();
    assert_eq!(s.txns[0].amount_cents, 0);
}

#[test]
fn missing_transaction_list_is_missing_field() {
    let text = r#"{
        "campaign": { "p": { "owner": { "id": "o" }, "pledge": 1 } },
        "contributors": { "map": {} },
        "txns": {}
    }"#;
    assert_eq!(decode_err(text, "p"), DecodeError::MissingField);
}

#[test]
fn missing_contributor_map_is_missing_field() {
    let text = r#"{
        "campaign": { "p": { "owner": { "id": "o" }, "pledge": 1 } },
        "contributors": {},
        "txns": { "list": [] }
    }"#;
    assert_eq!(decode_err(text, "p"), DecodeError::MissingField);
}

#[test]
fn missing_title_and_owner_name_default_to_empty() {
    let text = r#"{
        "campaign": { "p": { "owner": { "id": "o" }, "pledge": 2.5 } },
        "contributors": { "map": {} },
        "txns": { "list": [] }
    }"#;
    let s = decode_snapshot_str(text, "p").unwrap();
    assert_eq!(s.title, "");
    assert_eq!(s.owner_name, "");
    assert_eq!(s.owner_pledge_cents, 250);
}

#[test]
fn build_snapshot_reads_raw_pieces() {
    let raw = RawSnapshot {
        pool_id: String::from("p"),
        title: String::from("t"),
        owner_id: String::from("o"),
        owner_name: String::from("n"),
        pledge_text: b"12.34".to_vec(),
        txns: vec![RawTransaction {
            date_text: String::from("2021-01-01T00:00:00Z"),
            amount_text: b"5.0".to_vec(),
            contributor_id: String::from("abc"),
        }],
        contributors: vec![(String::from("abc"), String::from("Abby"))],
    };
    let s = build_snapshot(raw).unwrap();
    assert_eq!(s.owner_pledge_cents, 1234);
    assert_eq!(s.txns[0].timestamp_secs, 1609459200);
    assert_eq!(s.txns[0].amount_cents, 500);
}

#[test]
fn build_snapshot_rejects_bad_date() {
    let raw = RawSnapshot {
        pool_id: String::from("p"),
        title: String::new(),
        owner_id: String::from("o"),
        owner_name: String::new(),
        pledge_text: b"1".to_vec(),
        txns: vec![RawTransaction {
            date_text: String::from("2021-13-45T99:00:00Z"),
            amount_text: b"5.0".to_vec(),
            contributor_id: String::from("abc"),
        }],
        contributors: vec![],
    };
    match build_snapshot(raw) {
        Ok(_) => panic!("unexpectedly decoded"),
        Err(e) => assert_eq!(e, DecodeError::BadTransactionDate(0)),
    }
}
