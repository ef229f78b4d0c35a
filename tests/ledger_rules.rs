use sledge::account::{Account, AccountId, AccountKind};
use sledge::audit::Audited;
use sledge::commodity::{Amount, CommodityId, CurrencyCode, Quantity, RatedQuantity};
use sledge::entity::EntityStore;
use sledge::error::{Error, Violation};
use sledge::journal::{Journal, Split, Transaction, TransactionId};
use sledge::ledger::{Ledger, LedgerKind};
use sledge::time::{Span, Timestamp};

fn currency(code: &str) -> CommodityId {
    CommodityId::Currency(CurrencyCode::parse(code).unwrap())
}

fn split(tx: &str, account: &str, code: &str, mantissa: i64, scale: u32) -> Split {
    Split {
        id: TransactionId(tx.to_string()),
        account: AccountId(account.to_string()),
        quantity: Quantity { commodity: currency(code), amount: Amount::new(mantissa, scale).unwrap() },
        exchanged_from: None,
        description: None,
        reconciled: None,
    }
}

fn transaction(id: &str, splits: Vec<Split>) -> Transaction {
    Transaction { id: TransactionId(id.to_string()), name: format!("event {}", id), date: Timestamp { millis: 1000 }, splits }
}

fn journal(name: &str, txs: Vec<Transaction>) -> Journal {
    Journal {
        name: name.to_string(),
        created: Timestamp { millis: 0 },
        read_only_after: None,
        transactions: txs,
        currency: CurrencyCode::parse("USD").unwrap(),
        signature: None,
    }
}

fn account(id: &str, parent: Option<&str>) -> Account {
    Account {
        id: AccountId(id.to_string()),
        created: Timestamp { millis: 0 },
        is_active: true,
        parent_id: parent.map(|p| p.to_string()),
        kind: AccountKind::Asset,
        commodity: currency("USD"),
        description: format!("account {}", id),
        is_recording: true,
    }
}

fn ledger(accounts: Vec<Account>) -> Ledger {
    Ledger {
        kind: LedgerKind::General,
        created: Timestamp { millis: 0 },
        description: "general ledger".to_string(),
        currency: CurrencyCode::parse("USD").unwrap(),
        book: accounts,
    }
}

#[test]
fn two_opposite_splits_balance_and_a_short_one_does_not() {
    let good = transaction("t1", vec![split("t1", "A", "USD", 100, 0), split("t1", "B", "USD", -100, 0)]);
    assert!(good.check_balance(&currency("USD")).is_ok());

    let mut table: EntityStore<Journal> = EntityStore::new();
    assert_eq!(table.create(journal("main", vec![good])).unwrap(), "main");

    let bad = transaction("t1", vec![split("t1", "A", "USD", 100, 0), split("t1", "B", "USD", -90, 0)]);
    assert_eq!(bad.check_balance(&currency("USD")), Err(Violation::Unbalanced));
    match table.update(journal("main", vec![bad.clone()]), Timestamp { millis: 5 }) {
        Err(Error::InvariantViolation { violation }) => assert_eq!(violation, Violation::Unbalanced),
        other => panic!("unexpected {:?}", other),
    }
    match table.create(journal("other", vec![bad])) {
        Err(Error::InvariantViolation { violation }) => assert_eq!(violation, Violation::Unbalanced),
        other => panic!("unexpected {:?}", other),
    }
}

#[test]
fn amounts_of_different_scales_balance_exactly() {
    // 12.50 + 0.125 - 12.625 == 0
    let tx = transaction("t", vec![
        split("t", "A", "USD", 1250, 2),
        split("t", "B", "USD", 125, 3),
        split("t", "C", "USD", -12625, 3),
    ]);
    assert!(tx.check_balance(&currency("USD")).is_ok());
    let off = transaction("t", vec![split("t", "A", "USD", 1250, 2), split("t", "C", "USD", -12624, 3)]);
    assert_eq!(off.check_balance(&currency("USD")), Err(Violation::Unbalanced));
}

#[test]
fn sums_beyond_one_limb_still_balance() {
    let big = i64::MAX;
    let mut splits = Vec::new();
    for k in 0..20 {
        splits.push(split("t", &format!("A{}", k), "USD", big, 0));
    }
    for k in 0..20 {
        splits.push(split("t", &format!("B{}", k), "USD", -big, 0));
    }
    assert!(transaction("t", splits.clone()).check_balance(&currency("USD")).is_ok());
    splits.push(split("t", "C", "USD", 1, 18));
    assert_eq!(transaction("t", splits).check_balance(&currency("USD")), Err(Violation::Unbalanced));
}

#[test]
fn empty_transaction_balances() {
    assert!(transaction("t", vec![]).check_balance(&currency("USD")).is_ok());
}

#[test]
fn foreign_split_converts_through_its_exchange() {
    // 90 EUR received for 100 USD at 0.9
    let mut eur = split("t", "E", "EUR", 90, 0);
    eur.exchanged_from = Some(RatedQuantity {
        source: Quantity { commodity: currency("USD"), amount: Amount::units(100) },
        rate: Amount::new(9, 1).unwrap(),
    });
    let tx = transaction("t", vec![eur.clone(), split("t", "U", "USD", -100, 0)]);
    assert!(tx.check_balance(&currency("USD")).is_ok());
    assert_eq!(eur.reference_fine_units(&currency("USD")), Some(100 * 1_000_000_000_000_000_000i128));

    let mut wrong_rate = eur.clone();
    wrong_rate.exchanged_from.as_mut().unwrap().rate = Amount::new(8, 1).unwrap();
    let tx = transaction("t", vec![wrong_rate, split("t", "U", "USD", -100, 0)]);
    assert_eq!(tx.check_balance(&currency("USD")), Err(Violation::Conversion));

    let no_exchange = split("t", "E", "EUR", 90, 0);
    let tx = transaction("t", vec![no_exchange, split("t", "U", "USD", -100, 0)]);
    assert_eq!(tx.check_balance(&currency("USD")), Err(Violation::Conversion));
}

#[test]
fn rate_check_is_exact_across_scales() {
    let rq = RatedQuantity {
        source: Quantity { commodity: currency("USD"), amount: Amount::new(12345, 2).unwrap() },
        rate: Amount::new(2, 0).unwrap(),
    };
    assert!(rq.yields(Amount::new(24690, 2).unwrap()));
    assert!(rq.yields(Amount::new(2469, 1).unwrap()));
    assert!(rq.yields(Amount::new(246900000, 6).unwrap()));
    assert!(!rq.yields(Amount::new(24691, 2).unwrap()));
    let huge = RatedQuantity {
        source: Quantity { commodity: currency("USD"), amount: Amount::units(i64::MAX) },
        rate: Amount::units(i64::MAX),
    };
    assert!(!huge.yields(Amount::new(1, 18).unwrap()));
}

#[test]
fn amount_out_of_range_is_refused() {
    assert!(Amount::new(1, 19).is_none());
    let mut s = split("t", "A", "USD", 1, 0);
    s.quantity.amount = Amount { mantissa: 1, scale: 30 };
    let tx = transaction("t", vec![s, split("t", "B", "USD", -1, 0)]);
    assert_eq!(tx.check_balance(&currency("USD")), Err(Violation::AmountRange));
}

#[test]
fn fine_units_are_exact() {
    assert_eq!(Amount::new(-25, 1).unwrap().fine_units(), -2_500_000_000_000_000_000i128);
    assert_eq!(Amount::new(7, 18).unwrap().fine_units(), 7);
}

#[test]
fn duplicate_transaction_ids_are_refused() {
    let t = transaction("t", vec![]);
    let j = journal("j", vec![t.clone(), t]);
    assert_eq!(j.validate(), Err(Violation::DuplicateMember));
}

#[test]
fn ledger_accounts_form_a_forest() {
    let ok = ledger(vec![account("root", None), account("cash", Some("root")), account("bank", Some("root"))]);
    assert!(ok.validate().is_ok());

    let unknown = ledger(vec![account("root", None), account("cash", Some("nowhere"))]);
    assert_eq!(unknown.validate(), Err(Violation::UnknownParent));

    let cycle = ledger(vec![account("a", Some("c")), account("b", Some("a")), account("c", Some("b")), account("d", None)]);
    assert_eq!(cycle.validate(), Err(Violation::ParentCycle));

    let own = ledger(vec![account("a", Some("a"))]);
    assert_eq!(own.validate(), Err(Violation::ParentCycle));

    let dup = ledger(vec![account("a", None), account("a", None)]);
    assert_eq!(dup.validate(), Err(Violation::DuplicateMember));
}

#[test]
fn ledger_store_refuses_a_cyclic_ledger() {
    let mut table: EntityStore<Ledger> = EntityStore::new();
    let cycle = ledger(vec![account("a", Some("b")), account("b", Some("a"))]);
    match table.create(cycle) {
        Err(Error::InvariantViolation { violation }) => assert_eq!(violation, Violation::ParentCycle),
        other => panic!("unexpected {:?}", other.map(|_| ())),
    }
    assert_eq!(table.create(ledger(vec![account("a", None)])).unwrap(), "general");
}

#[test]
fn reconciled_split_cannot_change_or_be_deleted() {
    let t = transaction("t1", vec![split("t1", "A", "USD", 100, 0), split("t1", "B", "USD", -100, 0)]);
    let mut j = journal("main", vec![t]);
    j.reconcile(0, 1, "statement 7".to_string(), Timestamp { millis: 50 }).unwrap();
    assert!(j.transactions[0].splits[1].reconciled.is_some());
    match j.reconcile(0, 1, "again".to_string(), Timestamp { millis: 60 }) {
        Err(Error::Immutable { id }) => assert_eq!(id, "t1"),
        other => panic!("unexpected {:?}", other),
    }
    assert!(j.is_frozen());

    let mut table: EntityStore<Journal> = EntityStore::new();
    table.create(j.clone()).unwrap();

    let mut changed = j.clone();
    changed.transactions[0].splits[0].quantity.amount = Amount::units(90);
    changed.transactions[0].splits[1].quantity.amount = Amount::units(-90);
    match table.update(changed, Timestamp { millis: 70 }) {
        Err(Error::Immutable { id }) => assert_eq!(id, "main"),
        other => panic!("unexpected {:?}", other),
    }
    match table.delete("main") {
        Err(Error::Immutable { id }) => assert_eq!(id, "main"),
        other => panic!("unexpected {:?}", other),
    }

    // Adding a transaction keeps the reconciled split: allowed.
    let mut grown = j.clone();
    grown.transactions.push(transaction("t2", vec![split("t2", "A", "USD", 5, 0), split("t2", "B", "USD", -5, 0)]));
    assert!(table.update(grown, Timestamp { millis: 80 }).is_ok());
    assert_eq!(table.get_by_id("main").unwrap().transactions.len(), 2);
}

#[test]
fn signed_journal_is_immutable() {
    let mut j = journal("main", vec![]);
    j.sign(sledge::audit::KeyIdentifier("key-1".to_string()), vec![1, 2, 3], Timestamp { millis: 9 }).unwrap();
    assert_eq!(j.signature.as_ref().unwrap().binary, vec![1, 2, 3]);
    assert!(matches!(j.sign(sledge::audit::KeyIdentifier("key-2".to_string()), vec![4], Timestamp { millis: 10 }), Err(Error::Immutable { .. })));
    let mut table: EntityStore<Journal> = EntityStore::new();
    table.create(j.clone()).unwrap();
    assert!(matches!(table.update(j.clone(), Timestamp { millis: 11 }), Err(Error::Immutable { .. })));
    assert!(matches!(table.delete("main"), Err(Error::Immutable { .. })));
}

#[test]
fn read_only_window_freezes_transactions() {
    let mut j = journal("main", vec![]);
    j.read_only_after = Some(Span::from_secs(10));
    assert!(!j.is_read_only_at(Timestamp { millis: 9_999 }));
    assert!(j.is_read_only_at(Timestamp { millis: 10_000 }));
    let mut table: EntityStore<Journal> = EntityStore::new();
    table.create(j.clone()).unwrap();
    let mut grown = j.clone();
    grown.transactions.push(transaction("t", vec![]));
    match table.update(grown.clone(), Timestamp { millis: 20_000 }) {
        Err(Error::InvariantViolation { violation }) => assert_eq!(violation, Violation::ReadOnly),
        other => panic!("unexpected {:?}", other),
    }
    assert!(table.update(grown, Timestamp { millis: 5_000 }).is_ok());
}

#[test]
fn account_kind_refinements_have_a_base() {
    assert_eq!(AccountKind::Bank.base(), AccountKind::Asset);
    assert_eq!(AccountKind::Credit.base(), AccountKind::Liability);
    assert_eq!(AccountKind::Income.base(), AccountKind::Income);
}

#[test]
fn stable_representation_is_exact_and_ignores_the_signature() {
    let mut j = journal("j", vec![]);
    let mut expected: Vec<u8> = vec![0, 0, 0, 0, 0, 0, 0, 1, b'j'];
    expected.extend_from_slice(&[0; 8]);
    expected.push(0);
    expected.extend_from_slice(&[0, 0, 0, 0, 0, 0, 0, 3, b'U', b'S', b'D']);
    expected.extend_from_slice(&[0; 8]);
    assert_eq!(j.stable_representation(), expected);

    let before = j.stable_representation();
    j.sign(sledge::audit::KeyIdentifier("k".to_string()), vec![9], Timestamp { millis: 3 }).unwrap();
    assert!(j.is_signed());
    assert_eq!(j.signature().unwrap().signed_on, Timestamp { millis: 3 });
    assert_eq!(j.stable_representation(), before);

    let id = j.audit_identifier();
    assert_eq!(id.kind, "journal");
    assert_eq!(id.identifier, "j");
    assert_eq!((id.version.major, id.version.minor, id.version.patch), (0, 1, 0));
}

#[test]
fn stable_representation_changes_with_a_split() {
    let a = journal("j", vec![transaction("t", vec![split("t", "A", "USD", 1, 0), split("t", "B", "USD", -1, 0)])]);
    let b = journal("j", vec![transaction("t", vec![split("t", "A", "USD", 2, 0), split("t", "B", "USD", -2, 0)])]);
    assert_ne!(a.stable_representation(), b.stable_representation());
    assert_eq!(a.stable_representation(), a.clone().stable_representation());
}

#[test]
fn appending_checks_each_rule() {
    let mut j = journal("main", vec![]);
    let ok = transaction("t1", vec![split("t1", "A", "USD", 3, 0), split("t1", "B", "USD", -3, 0)]);
    assert!(j.append_transaction(ok.clone(), Timestamp { millis: 1 }).is_ok());
    assert_eq!(j.transactions.len(), 1);
    assert!(matches!(j.append_transaction(ok, Timestamp { millis: 2 }), Err(Error::DuplicateIdentifier { ref id }) if id == "t1"));
    let short = transaction("t2", vec![split("t2", "A", "USD", 3, 0)]);
    assert!(matches!(j.append_transaction(short, Timestamp { millis: 3 }), Err(Error::InvariantViolation { violation: Violation::Unbalanced })));
    assert!(j.validate().is_ok());

    j.read_only_after = Some(Span { millis: 10 });
    let late = transaction("t3", vec![]);
    assert!(matches!(j.append_transaction(late.clone(), Timestamp { millis: 10 }), Err(Error::InvariantViolation { violation: Violation::ReadOnly })));
    j.read_only_after = None;
    j.sign(sledge::audit::KeyIdentifier("k".to_string()), vec![], Timestamp { millis: 4 }).unwrap();
    assert!(matches!(j.append_transaction(late, Timestamp { millis: 5 }), Err(Error::Immutable { .. })));
    assert_eq!(j.transactions.len(), 1);
}

#[test]
fn quantities_add_only_within_one_commodity() {
    let a = Quantity { commodity: currency("USD"), amount: Amount::new(1250, 2).unwrap() };
    let b = Quantity { commodity: currency("USD"), amount: Amount::new(5, 3).unwrap() };
    let sum = a.checked_add(&b).unwrap();
    assert_eq!(sum.amount, Amount { mantissa: 12505, scale: 3 });
    assert!(matches!(sum.commodity, CommodityId::Currency(ref c) if c.alpha_code() == "USD"));
    let eur = Quantity { commodity: currency("EUR"), amount: Amount::units(1) };
    assert!(matches!(a.checked_add(&eur), Err(Violation::Conversion)));
    let big = Quantity { commodity: currency("USD"), amount: Amount::units(i64::MAX) };
    let tiny = Quantity { commodity: currency("USD"), amount: Amount::new(1, 1).unwrap() };
    assert!(matches!(big.checked_add(&tiny), Err(Violation::AmountRange)));
    let neg = Quantity { commodity: currency("USD"), amount: Amount::units(-1) };
    assert_eq!(big.checked_add(&neg).unwrap().amount, Amount::units(i64::MAX - 1));
}

#[test]
fn accounts_join_a_ledger_only_as_a_forest() {
    let mut l = ledger(vec![account("root", None)]);
    assert!(l.add_account(account("cash", Some("root"))).is_ok());
    assert_eq!(l.add_account(account("cash", None)), Err(Violation::DuplicateMember));
    assert_eq!(l.add_account(account("card", Some("missing"))), Err(Violation::UnknownParent));
    assert_eq!(l.add_account(account("loop", Some("loop"))), Err(Violation::ParentCycle));
    assert_eq!(l.book.len(), 2);
    assert_eq!(l.account(&"cash".to_string()).unwrap().parent_id.as_deref(), Some("root"));
    assert!(l.account(&"card".to_string()).is_none());
}
