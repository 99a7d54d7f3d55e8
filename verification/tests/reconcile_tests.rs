use moneypool::clock::parse_utc_instant;
use moneypool::ident::derive_payment_id;
use moneypool::reconcile::{reconcile, reconcile_now};
use moneypool::snapshot::{Snapshot, Transaction};

fn snapshot(
    pledge_cents: i64,
    txns: Vec<Transaction>,
    contributors: Vec<(String, String)>,
) -> Snapshot {
    Snapshot {
        pool_id: String::from("pool42"),
        title: String::from("A pool"),
        owner_id: String::from("owner1"),
        owner_name: String::from("Owner Name"),
        owner_pledge_cents: pledge_cents,
        txns,
        contributors,
    }
}

#[test]
fn payment_id_is_deterministic() {
    let a = derive_payment_id(1609459200, "abc");
    let b = derive_payment_id(1609459200, "abc");
    assert_eq!(a, b);
    assert_eq!(a, "1609459200abc");
}

#[test]
fn payment_id_of_negative_timestamp() {
    assert_eq!(derive_payment_id(-5, "x"), "-5x");
    assert_eq!(derive_payment_id(0, "y"), "0y");
}

#[test]
fn distinct_timestamps_give_distinct_ids() {
    assert_ne!(derive_payment_id(100, "abc"), derive_payment_id(101, "abc"));
    assert_ne!(derive_payment_id(100, "abc"), derive_payment_id(100, "abd"));
}

// Scenario: pledge of 100.00, nothing recorded, no transactions, empty
// contributor map. One contributor (the owner) and one owner-remainder
// payment of the full pledge come out.
#[test]
fn fresh_pool_emits_owner_remainder() {
    let s = snapshot(10000, vec![], vec![]);
    let now: i64 = 1700000000;
    let (contributors, payments) = reconcile(&s, 0, now);

    assert_eq!(contributors.len(), 1);
    assert_eq!(contributors[0].contributor_id, "owner1");
    assert_eq!(contributors[0].full_name, "Owner Name");

    assert_eq!(payments.len(), 1);
    assert_eq!(payments[0].amount_cents, 10000);
    assert_eq!(payments[0].contributor_id, "owner1");
    assert_eq!(payments[0].date_secs, now);
    assert_eq!(payments[0].id, "1700000000owner1");
}

// Scenario: pledge of 100.00 already fully recorded, one transaction of 5.00
// by "abc" who is listed in the contributor map. No owner payment, one
// transaction payment, two contributors.
#[test]
fn recorded_pledge_emits_no_owner_payment() {
    let t: i64 = 1609459200;
    let s = snapshot(
        10000,
        vec![Transaction { timestamp_secs: t, amount_cents: 500, contributor_id: String::from("abc") }],
        vec![(String::from("abc"), String::from("Abby"))],
    );
    let (contributors, payments) = reconcile(&s, 10000, 1700000000);

    assert_eq!(payments.len(), 1);
    assert_eq!(payments[0].amount_cents, 500);
    assert_eq!(payments[0].contributor_id, "abc");
    assert_eq!(payments[0].date_secs, t);
    assert_eq!(payments[0].id, "1609459200abc");

    assert_eq!(contributors.len(), 2);
    assert_eq!(contributors[0].contributor_id, "owner1");
    assert_eq!(contributors[1].contributor_id, "abc");
    assert_eq!(contributors[1].full_name, "Abby");
}

// Scenario: re-running with the store already holding every emitted payment.
// An idempotent upsert keyed by the stable identifier inserts zero new rows.
#[test]
fn second_run_inserts_nothing_new() {
    let t: i64 = 1609459200;
    let s = snapshot(
        10000,
        vec![Transaction { timestamp_secs: t, amount_cents: 500, contributor_id: String::from("abc") }],
        vec![(String::from("abc"), String::from("Abby"))],
    );
    let (_, first) = reconcile(&s, 10000, 1700000000);
    let store: Vec<String> = first.iter().map(|p| p.id.clone()).collect();

    let (_, second) = reconcile(&s, 10000, 1700000600);
    let newly_inserted = second.iter().filter(|p| !store.contains(&p.id)).count();
    assert_eq!(newly_inserted, 0);
}

// Two runs over the same snapshot and recorded sum: the transaction-derived
// rows agree, identifiers included; only the owner-remainder row's identifier
// and date follow the run's instant.
#[test]
fn reruns_agree_up_to_the_owner_row() {
    let t: i64 = 1609459200;
    let s = snapshot(
        20000,
        vec![Transaction { timestamp_secs: t, amount_cents: 500, contributor_id: String::from("abc") }],
        vec![(String::from("abc"), String::from("Abby"))],
    );
    let (_, run1) = reconcile(&s, 5000, 1700000000);
    let (_, run2) = reconcile(&s, 5000, 1700000600);

    assert_eq!(run1.len(), 2);
    assert_eq!(run2.len(), 2);
    assert_eq!(run1[1].id, run2[1].id);
    assert_eq!(run1[1].amount_cents, run2[1].amount_cents);
    assert_eq!(run1[0].amount_cents, run2[0].amount_cents);
    assert_eq!(run1[0].contributor_id, run2[0].contributor_id);
    assert_ne!(run1[0].id, run2[0].id);
    assert_eq!(run1[0].id, "1700000000owner1");
    assert_eq!(run2[0].id, "1700000600owner1");
}

#[test]
fn remainder_is_pledge_minus_recorded() {
    let s = snapshot(10000, vec![], vec![]);
    let (_, payments) = reconcile(&s, 2500, 1700000000);
    assert_eq!(payments.len(), 1);
    assert_eq!(payments[0].amount_cents, 7500);
}

#[test]
fn over_recorded_sum_emits_no_owner_payment() {
    let s = snapshot(10000, vec![], vec![]);
    let (_, payments) = reconcile(&s, 12000, 1700000000);
    assert_eq!(payments.len(), 0);
}

#[test]
fn owner_always_among_contributors() {
    // The contributor map lacks the owner; the owner still comes out first.
    let s = snapshot(100, vec![], vec![(String::from("zzz"), String::from("Zed"))]);
    let (contributors, _) = reconcile(&s, 100, 1700000000);
    assert!(contributors.iter().any(|c| c.contributor_id == "owner1"));
    assert_eq!(contributors[0].contributor_id, "owner1");
}

#[test]
fn transaction_order_is_preserved() {
    let txns = vec![
        Transaction { timestamp_secs: 30, amount_cents: 1, contributor_id: String::from("c") },
        Transaction { timestamp_secs: 10, amount_cents: 2, contributor_id: String::from("a") },
        Transaction { timestamp_secs: 20, amount_cents: 3, contributor_id: String::from("b") },
    ];
    let s = snapshot(0, txns, vec![]);
    let (_, payments) = reconcile(&s, 0, 1700000000);
    assert_eq!(payments.len(), 3);
    assert_eq!(payments[0].id, "30c");
    assert_eq!(payments[1].id, "10a");
    assert_eq!(payments[2].id, "20b");
}

#[test]
fn instants_parse_to_utc_seconds() {
    assert_eq!(parse_utc_instant("2021-01-01T00:00:00Z"), Some(1609459200));
    assert_eq!(parse_utc_instant("1970-01-01T00:00:00Z"), Some(0));
    assert_eq!(parse_utc_instant("1969-12-31T23:59:59Z"), Some(-1));
    assert_eq!(parse_utc_instant("2021-01-01T01:00:00+01:00"), Some(1609459200));
    assert_eq!(parse_utc_instant("yesterday"), None);
}

#[test]
fn reconcile_now_dates_the_owner_row_at_the_run() {
    let s = snapshot(10000, vec![], vec![]);
    let (contributors, payments) = reconcile_now(&s, 2500);
    assert_eq!(contributors.len(), 1);
    assert_eq!(payments.len(), 1);
    assert_eq!(payments[0].amount_cents, 7500);
    assert_eq!(payments[0].contributor_id, "owner1");
    assert!(payments[0].id.ends_with("owner1"));
    assert_eq!(payments[0].id, format!("{}owner1", payments[0].date_secs));
}

#[test]
fn negative_transaction_amounts_pass_through() {
    let txns = vec![Transaction {
        timestamp_secs: 5,
        amount_cents: -250,
        contributor_id: String::from("abc"),
    }];
    let s = snapshot(0, txns, vec![]);
    let (_, payments) = reconcile(&s, 0, 1700000000);
    assert_eq!(payments.len(), 1);
    assert_eq!(payments[0].amount_cents, -250);
}
