use ledger_parser::{
    Amount, Balance, Commodity, CommodityPosition, CommodityPrice, Date, Decimal, Ledger,
    LedgerItem, Posting, PostingAmount, PostingMetadata, Price, Reality, Serializer,
    SerializerSettings, Transaction, TransactionStatus,
};

fn no_metadata() -> PostingMetadata {
    PostingMetadata { date: None, effective_date: None, tags: vec![] }
}

#[test]
fn display_transaction_status() {
    let settings = SerializerSettings::default();
    assert_eq!(TransactionStatus::Pending.to_string_pretty(&settings), "!");
    assert_eq!(TransactionStatus::Cleared.to_string_pretty(&settings), "*");
}

#[test]
fn model_display_transaction_status() {
    let settings = SerializerSettings::default();
    assert_eq!(TransactionStatus::Pending.to_string_pretty(&settings), "!");
    assert_eq!(TransactionStatus::Cleared.to_string_pretty(&settings), "*");
}

#[test]
fn display_amount() {
    let settings = SerializerSettings::default();
    assert_eq!(
        Amount {
            quantity: Decimal::new(4200, 2),
            commodity: Commodity { name: "€".to_owned(), position: CommodityPosition::Right }
        }
        .to_string_pretty(&settings),
        "42.00 €"
    );
    assert_eq!(
        Amount {
            quantity: Decimal::new(4200, 2),
            commodity: Commodity { name: "USD".to_owned(), position: CommodityPosition::Left }
        }
        .to_string_pretty(&settings),
        "USD42.00"
    );
}

#[test]
fn model_display_amount() {
    let settings = SerializerSettings::default();
    assert_eq!(
        Amount {
            quantity: Decimal::new(4200, 2),
            commodity: Commodity { name: "€".to_owned(), position: CommodityPosition::Right }
        }
        .to_string_pretty(&settings),
        "42.00 €"
    );
    assert_eq!(
        Amount {
            quantity: Decimal::new(4200, 2),
            commodity: Commodity { name: "USD".to_owned(), position: CommodityPosition::Left }
        }
        .to_string_pretty(&settings),
        "USD42.00"
    );
}

fn price_mbh() -> CommodityPrice {
    CommodityPrice {
        datetime: Date::from_ymd_opt(2017, 11, 12).unwrap().and_hms_opt(12, 0, 0).unwrap(),
        commodity_name: "mBH".to_owned(),
        amount: Amount {
            quantity: Decimal::new(500, 2),
            commodity: Commodity { name: "PLN".to_owned(), position: CommodityPosition::Right },
        },
    }
}

#[test]
fn display_commodity_price() {
    let actual = price_mbh().to_string_pretty(&SerializerSettings::default());
    assert_eq!(actual, "P 2017-11-12 12:00:00 mBH 5.00 PLN");
}

#[test]
fn model_display_commodity_price() {
    let actual = price_mbh().to_string_pretty(&SerializerSettings::default());
    assert_eq!(actual, "P 2017-11-12 12:00:00 mBH 5.00 PLN");
}

#[test]
fn display_balance() {
    let settings = SerializerSettings::default();
    assert_eq!(
        Balance::Amount(Amount {
            quantity: Decimal::new(4200, 2),
            commodity: Commodity { name: "€".to_owned(), position: CommodityPosition::Right }
        })
        .to_string_pretty(&settings),
        "42.00 €"
    );
    assert_eq!(Balance::Zero.to_string_pretty(&settings), "0");
}

#[test]
fn model_display_balance() {
    let settings = SerializerSettings::default();
    assert_eq!(
        Balance::Amount(Amount {
            quantity: Decimal::new(4200, 2),
            commodity: Commodity { name: "€".to_owned(), position: CommodityPosition::Right }
        })
        .to_string_pretty(&settings),
        "42.00 €"
    );
    assert_eq!(Balance::Zero.to_string_pretty(&settings), "0");
}

fn checking_posting() -> Posting {
    Posting {
        account: "Assets:Checking".to_owned(),
        reality: Reality::Real,
        amount: Some(PostingAmount {
            amount: Amount {
                quantity: Decimal::new(4200, 2),
                commodity: Commodity { name: "USD".to_owned(), position: CommodityPosition::Left },
            },
            lot_price: None,
            price: None,
        }),
        balance: Some(Balance::Amount(Amount {
            quantity: Decimal::new(5000, 2),
            commodity: Commodity { name: "USD".to_owned(), position: CommodityPosition::Left },
        })),
        status: Some(TransactionStatus::Cleared),
        comment: Some("asdf".to_owned()),
        metadata: no_metadata(),
    }
}

#[test]
fn display_posting() {
    let actual = checking_posting().to_string_pretty(&SerializerSettings::default());
    assert_eq!(actual, "* Assets:Checking  USD42.00 = USD50.00\n  ; asdf");
}

#[test]
fn model_display_posting() {
    let actual = checking_posting().to_string_pretty(&SerializerSettings::default());
    assert_eq!(actual, "* Assets:Checking  USD42.00 = USD50.00\n  ; asdf");
}

fn dollar_posting(comment: Option<&str>) -> Posting {
    Posting {
        account: "TEST:ABC 123".to_owned(),
        reality: Reality::Real,
        amount: Some(PostingAmount {
            amount: Amount {
                quantity: Decimal::new(120, 2),
                commodity: Commodity { name: "$".to_owned(), position: CommodityPosition::Left },
            },
            lot_price: None,
            price: None,
        }),
        balance: None,
        status: None,
        comment: comment.map(str::to_owned),
        metadata: no_metadata(),
    }
}

fn marek_transaction() -> Transaction {
    Transaction {
        comment: Some("Comment Line 1\nComment Line 2".to_owned()),
        date: Date::from_ymd_opt(2018, 10, 1).unwrap(),
        effective_date: Some(Date::from_ymd_opt(2018, 10, 14).unwrap()),
        status: Some(TransactionStatus::Pending),
        code: Some("123".to_owned()),
        description: Some("Marek Ogarek".to_owned()),
        posting_metadata: no_metadata(),
        postings: vec![dollar_posting(Some("dd")), dollar_posting(None)],
    }
}

#[test]
fn display_transaction() {
    let actual = marek_transaction().to_string_pretty(&SerializerSettings::default());
    let expected = "2018-10-01=2018-10-14 ! (123) Marek Ogarek\n  ; Comment Line 1\n  ; Comment Line 2\n  TEST:ABC 123  $1.20\n  ; dd\n  TEST:ABC 123  $1.20";
    assert_eq!(actual, expected);
}

#[test]
fn model_display_transaction() {
    let actual = marek_transaction().to_string_pretty(&SerializerSettings::default());
    let expected = "2018-10-01=2018-10-14 ! (123) Marek Ogarek\n  ; Comment Line 1\n  ; Comment Line 2\n  TEST:ABC 123  $1.20\n  ; dd\n  TEST:ABC 123  $1.20";
    assert_eq!(actual, expected);
}

fn pln_amount(mantissa: i64) -> Amount {
    Amount {
        quantity: Decimal::new(mantissa, 2),
        commodity: Commodity { name: "PLN".to_owned(), position: CommodityPosition::Right },
    }
}

fn annotated_posting(lot: Price, price: Price) -> Posting {
    Posting {
        account: "TEST:ABC 123".to_owned(),
        reality: Reality::Real,
        amount: Some(PostingAmount {
            amount: Amount {
                quantity: Decimal::new(120, 2),
                commodity: Commodity { name: "$".to_owned(), position: CommodityPosition::Left },
            },
            lot_price: Some(lot),
            price: Some(price),
        }),
        balance: None,
        status: None,
        comment: None,
        metadata: no_metadata(),
    }
}

#[test]
fn display_ledger() {
    let second = Transaction {
        comment: None,
        date: Date::from_ymd_opt(2018, 10, 1).unwrap(),
        effective_date: Some(Date::from_ymd_opt(2018, 10, 14).unwrap()),
        status: Some(TransactionStatus::Pending),
        code: Some("123".to_owned()),
        description: Some("Marek Ogarek".to_owned()),
        posting_metadata: no_metadata(),
        postings: vec![
            annotated_posting(Price::Unit(pln_amount(500)), Price::Unit(pln_amount(600))),
            annotated_posting(Price::Total(pln_amount(500)), Price::Total(pln_amount(600))),
        ],
    };
    let ledger = Ledger {
        items: vec![
            LedgerItem::Transaction(marek_transaction()),
            LedgerItem::EmptyLine,
            LedgerItem::Transaction(second),
            LedgerItem::EmptyLine,
            LedgerItem::CommodityPrice(price_mbh()),
        ],
    };
    let actual = ledger.to_string_pretty(&SerializerSettings::default());
    let expected = "2018-10-01=2018-10-14 ! (123) Marek Ogarek\n  ; Comment Line 1\n  ; Comment Line 2\n  TEST:ABC 123  $1.20\n  ; dd\n  TEST:ABC 123  $1.20\n\n2018-10-01=2018-10-14 ! (123) Marek Ogarek\n  TEST:ABC 123  $1.20 {5.00 PLN} @ 6.00 PLN\n  TEST:ABC 123  $1.20 {{5.00 PLN}} @@ 6.00 PLN\n\nP 2017-11-12 12:00:00 mBH 5.00 PLN\n";
    assert_eq!(actual, expected);
}

#[test]
fn model_display_ledger() {
    let second = Transaction {
        comment: None,
        date: Date::from_ymd_opt(2018, 10, 1).unwrap(),
        effective_date: Some(Date::from_ymd_opt(2018, 10, 14).unwrap()),
        status: Some(TransactionStatus::Pending),
        code: Some("123".to_owned()),
        description: Some("Marek Ogarek".to_owned()),
        posting_metadata: no_metadata(),
        postings: vec![dollar_posting(None), dollar_posting(None)],
    };
    let ledger = Ledger {
        items: vec![
            LedgerItem::Transaction(marek_transaction()),
            LedgerItem::EmptyLine,
            LedgerItem::Transaction(second),
            LedgerItem::EmptyLine,
            LedgerItem::CommodityPrice(price_mbh()),
        ],
    };
    let actual = ledger.to_string_pretty(&SerializerSettings::default());
    let expected = "2018-10-01=2018-10-14 ! (123) Marek Ogarek\n  ; Comment Line 1\n  ; Comment Line 2\n  TEST:ABC 123  $1.20\n  ; dd\n  TEST:ABC 123  $1.20\n\n2018-10-01=2018-10-14 ! (123) Marek Ogarek\n  TEST:ABC 123  $1.20\n  TEST:ABC 123  $1.20\n\nP 2017-11-12 12:00:00 mBH 5.00 PLN\n";
    assert_eq!(actual, expected);
}

#[test]
fn display_ledger_internal() {
    let second = Transaction {
        comment: None,
        date: Date::from_ymd_opt(2018, 10, 1).unwrap(),
        effective_date: Some(Date::from_ymd_opt(2018, 10, 14).unwrap()),
        status: Some(TransactionStatus::Pending),
        code: Some("123".to_owned()),
        description: Some("Marek Ogarek".to_owned()),
        posting_metadata: no_metadata(),
        postings: vec![dollar_posting(None), dollar_posting(None)],
    };
    let ledger = Ledger {
        items: vec![
            LedgerItem::Transaction(marek_transaction()),
            LedgerItem::EmptyLine,
            LedgerItem::Transaction(second),
            LedgerItem::EmptyLine,
            LedgerItem::CommodityPrice(price_mbh()),
        ],
    };
    let actual = ledger.to_string_pretty(&SerializerSettings::default());
    let expected = "2018-10-01=2018-10-14 ! (123) Marek Ogarek\n  ; Comment Line 1\n  ; Comment Line 2\n  TEST:ABC 123  $1.20\n  ; dd\n  TEST:ABC 123  $1.20\n\n2018-10-01=2018-10-14 ! (123) Marek Ogarek\n  TEST:ABC 123  $1.20\n  TEST:ABC 123  $1.20\n\nP 2017-11-12 12:00:00 mBH 5.00 PLN\n";
    assert_eq!(actual, expected);
}
