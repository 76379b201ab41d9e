use ledger_parser::parser::{
    parse_account, parse_amount, parse_balance, parse_commodity, parse_commodity_price,
    parse_date, parse_datetime, parse_include_file, parse_ledger, parse_lot_price, parse_posting,
    parse_posting_amount, parse_price, parse_quantity, parse_transaction,
    parse_transaction_status,
};
use ledger_parser::{
    Amount, Balance, Commodity, CommodityPosition, CommodityPrice, Date, Decimal, LedgerItem,
    ParseErrorKind, Posting, PostingAmount, PostingMetadata, Price, Reality, Tag, TagValue,
    Transaction, TransactionStatus,
};

fn no_metadata() -> PostingMetadata {
    PostingMetadata { date: None, effective_date: None, tags: vec![] }
}

fn directive_kw() -> String {
    let mut kw = "incl".to_owned();
    kw.push_str("ude");
    kw
}

#[test]
fn parse_date_test() {
    assert_eq!(parse_date("2017-03-24"), Ok(("", Date::from_ymd_opt(2017, 3, 24).unwrap())));
    assert_eq!(parse_date("2017/03/24"), Ok(("", Date::from_ymd_opt(2017, 3, 24).unwrap())));
    assert_eq!(parse_date("2017.03.24"), Ok(("", Date::from_ymd_opt(2017, 3, 24).unwrap())));
    assert_eq!(parse_date("2017-13-24"), Err(ParseErrorKind::InvalidDate));
}

#[test]
fn parse_datetime_test() {
    assert_eq!(
        parse_datetime("2017-03-24 17:15:23"),
        Ok(("", Date::from_ymd_opt(2017, 3, 24).unwrap().and_hms_opt(17, 15, 23).unwrap()))
    );
    assert_eq!(parse_datetime("2017-13-24 22:11:22"), Err(ParseErrorKind::InvalidDate));
    assert_eq!(parse_datetime("2017-03-24 25:11:22"), Err(ParseErrorKind::InvalidDate));
}

#[test]
fn parse_quantity_test() {
    assert_eq!(parse_quantity("1000"), Some(("", Decimal::new(1000, 0))));
    assert_eq!(parse_quantity("2.02"), Some(("", Decimal::new(202, 2))));
    assert_eq!(parse_quantity("-12.13"), Some(("", Decimal::new(-1213, 2))));
    assert_eq!(parse_quantity("0.1"), Some(("", Decimal::new(1, 1))));
    assert_eq!(parse_quantity("3"), Some(("", Decimal::new(3, 0))));
    assert_eq!(parse_quantity("1"), Some(("", Decimal::new(1, 0))));
    assert_eq!(parse_quantity("1,000"), Some(("", Decimal::new(1000, 0))));
    assert_eq!(parse_quantity("12,456,132.14"), Some(("", Decimal::new(1245613214, 2))));
}

#[test]
fn parse_commodity_test() {
    assert_eq!(parse_commodity("\"ABC 123\""), Some(("", "ABC 123".to_owned())));
    assert_eq!(parse_commodity("ABC "), Some((" ", "ABC".to_owned())));
    assert_eq!(parse_commodity("$1"), Some(("1", "$".to_owned())));
    assert_eq!(parse_commodity("€1"), Some(("1", "€".to_owned())));
    assert_eq!(parse_commodity("€ "), Some((" ", "€".to_owned())));
    assert_eq!(parse_commodity("€-1"), Some(("-1", "€".to_owned())));
}

fn dollar(mantissa: i64) -> Amount {
    Amount {
        quantity: Decimal::new(mantissa, 2),
        commodity: Commodity { name: "$".to_owned(), position: CommodityPosition::Left },
    }
}

fn usd(mantissa: i64) -> Amount {
    Amount {
        quantity: Decimal::new(mantissa, 2),
        commodity: Commodity { name: "USD".to_owned(), position: CommodityPosition::Right },
    }
}

fn pln(mantissa: i64) -> Amount {
    Amount {
        quantity: Decimal::new(mantissa, 2),
        commodity: Commodity { name: "PLN".to_owned(), position: CommodityPosition::Right },
    }
}

#[test]
fn parse_amount_test() {
    assert_eq!(parse_amount("$1.20"), Some(("", dollar(120))));
    assert_eq!(parse_amount("$-1.20"), Some(("", dollar(-120))));
    assert_eq!(parse_amount("-$1.20 "), Some((" ", dollar(-120))));
    assert_eq!(parse_amount("- $ 1.20"), Some(("", dollar(-120))));
    assert_eq!(
        parse_amount("1.20USD"),
        Some((
            "",
            Amount {
                quantity: Decimal::new(120, 2),
                commodity: Commodity { name: "USD".to_owned(), position: CommodityPosition::Right }
            }
        ))
    );
    assert_eq!(parse_amount("1.20USD "), Some((" ", usd(120))));
    assert_eq!(parse_amount("-1.20 USD"), Some(("", usd(-120))));
}

#[test]
fn parse_lot_price_test() {
    assert_eq!(parse_lot_price("{$1.20}"), Some(("", Price::Unit(dollar(120)))));
    assert_eq!(parse_lot_price("{ $1.20 }"), Some(("", Price::Unit(dollar(120)))));
    assert_eq!(parse_lot_price("{1.20PLN}"), Some(("", Price::Unit(pln(120)))));
    assert_eq!(parse_lot_price("{ 1.20 PLN } "), Some((" ", Price::Unit(pln(120)))));
}

#[test]
fn parse_price_test() {
    assert_eq!(parse_price("@$1.20"), Some(("", Price::Unit(dollar(120)))));
    assert_eq!(parse_price("@ $1.20"), Some(("", Price::Unit(dollar(120)))));
    assert_eq!(parse_price("@@1.20PLN"), Some(("", Price::Total(pln(120)))));
    assert_eq!(parse_price("@@ 1.20 PLN "), Some((" ", Price::Total(pln(120)))));
}

#[test]
fn parse_posting_amount_test() {
    assert_eq!(
        parse_posting_amount("$1.20"),
        Some(("", PostingAmount { amount: dollar(120), lot_price: None, price: None }))
    );
    assert_eq!(
        parse_posting_amount("$1.20 @ 5.00 PLN"),
        Some((
            "",
            PostingAmount {
                amount: dollar(120),
                lot_price: None,
                price: Some(Price::Unit(pln(500)))
            }
        ))
    );
    assert_eq!(
        parse_posting_amount("$1.20 {5.00 PLN}"),
        Some((
            "",
            PostingAmount {
                amount: dollar(120),
                lot_price: Some(Price::Unit(pln(500))),
                price: None
            }
        ))
    );
    assert_eq!(
        parse_posting_amount("$1.20 {{5.00 PLN}} @@6.0PLN "),
        Some((
            " ",
            PostingAmount {
                amount: dollar(120),
                lot_price: Some(Price::Total(pln(500))),
                price: Some(Price::Total(pln(600)))
            }
        ))
    );
}

#[test]
fn parse_balance_test() {
    assert_eq!(parse_balance("$1.20"), Some(("", Balance::Amount(dollar(120)))));
    assert_eq!(
        parse_balance("0 PLN"),
        Some((
            "",
            Balance::Amount(Amount {
                quantity: Decimal::new(0, 0),
                commodity: Commodity { name: "PLN".to_owned(), position: CommodityPosition::Right }
            })
        ))
    );
    assert_eq!(parse_balance("0"), Some(("", Balance::Zero)));
}

#[test]
fn parse_commodity_price_test() {
    assert_eq!(
        parse_commodity_price("P 2017-11-12 12:00:00 mBH 5.00 PLN"),
        Ok((
            "",
            CommodityPrice {
                datetime: Date::from_ymd_opt(2017, 11, 12)
                    .unwrap()
                    .and_hms_opt(12, 0, 0)
                    .unwrap(),
                commodity_name: "mBH".to_owned(),
                amount: pln(500)
            }
        ))
    );
}

#[test]
fn parse_account_test() {
    assert_eq!(
        parse_account("TEST:ABC 123  "),
        Some(("  ", ("TEST:ABC 123".to_owned(), Reality::Real)))
    );
    assert_eq!(
        parse_account("TEST:ABC 123\t"),
        Some(("\t", ("TEST:ABC 123".to_owned(), Reality::Real)))
    );
    assert_eq!(
        parse_account("TEST:ABC 123"),
        Some(("", ("TEST:ABC 123".to_owned(), Reality::Real)))
    );
    assert_eq!(
        parse_account("[TEST:ABC 123]"),
        Some(("", ("TEST:ABC 123".to_owned(), Reality::BalancedVirtual)))
    );
    assert_eq!(
        parse_account("(TEST:ABC 123)"),
        Some(("", ("TEST:ABC 123".to_owned(), Reality::UnbalancedVirtual)))
    );
}

#[test]
fn parse_transaction_status_test() {
    assert_eq!(parse_transaction_status("!"), Some(("", TransactionStatus::Pending)));
    assert_eq!(parse_transaction_status("*"), Some(("", TransactionStatus::Cleared)));
}

fn plain_posting(account: &str) -> Posting {
    Posting {
        account: account.to_owned(),
        reality: Reality::Real,
        amount: None,
        balance: None,
        status: None,
        comment: None,
        metadata: no_metadata(),
    }
}

#[test]
fn parse_posting_test() {
    assert_eq!(
        parse_posting(" TEST:ABC 123  $1.20"),
        Some((
            "",
            Posting {
                account: "TEST:ABC 123".to_owned(),
                reality: Reality::Real,
                amount: Some(PostingAmount { amount: dollar(120), lot_price: None, price: None }),
                balance: None,
                status: None,
                comment: None,
                metadata: no_metadata(),
            }
        ))
    );
    assert_eq!(
        parse_posting(" ! TEST:ABC 123  $1.20;test\n;comment line 2"),
        Some((
            "",
            Posting {
                account: "TEST:ABC 123".to_owned(),
                reality: Reality::Real,
                amount: Some(PostingAmount { amount: dollar(120), lot_price: None, price: None }),
                balance: None,
                status: Some(TransactionStatus::Pending),
                comment: Some("test\ncomment line 2".to_owned()),
                metadata: no_metadata(),
            }
        ))
    );
    assert_eq!(
        parse_posting(" ! TEST:ABC 123;test\n;comment"),
        Some((
            "",
            Posting {
                account: "TEST:ABC 123;test".to_owned(),
                reality: Reality::Real,
                amount: None,
                balance: None,
                status: Some(TransactionStatus::Pending),
                comment: Some("comment".to_owned()),
                metadata: no_metadata(),
            }
        ))
    );
    assert_eq!(
        parse_posting(" ! TEST:ABC 123  ;test\n;comment line 2"),
        Some((
            "",
            Posting {
                account: "TEST:ABC 123".to_owned(),
                reality: Reality::Real,
                amount: None,
                balance: None,
                status: Some(TransactionStatus::Pending),
                comment: Some("test\ncomment line 2".to_owned()),
                metadata: no_metadata(),
            }
        ))
    );
    assert_eq!(
        parse_posting(" ! TEST:ABC 123   ;  test     \n       ;        comment line 2     "),
        Some((
            "",
            Posting {
                account: "TEST:ABC 123".to_owned(),
                reality: Reality::Real,
                amount: None,
                balance: None,
                status: Some(TransactionStatus::Pending),
                comment: Some("test\ncomment line 2".to_owned()),
                metadata: no_metadata(),
            }
        ))
    );
    assert_eq!(
        parse_posting(" TEST:ABC 123  $1.20 = $2.40 ;comment"),
        Some((
            "",
            Posting {
                account: "TEST:ABC 123".to_owned(),
                reality: Reality::Real,
                amount: Some(PostingAmount { amount: dollar(120), lot_price: None, price: None }),
                balance: Some(Balance::Amount(dollar(240))),
                status: None,
                comment: Some("comment".to_owned()),
                metadata: no_metadata(),
            }
        ))
    );
    assert_eq!(parse_posting(" TEST:ABC 123"), Some(("", plain_posting("TEST:ABC 123"))));
    assert_eq!(
        parse_posting(" TEST:ABC 123   ; 456"),
        Some((
            "",
            Posting { comment: Some("456".to_owned()), ..plain_posting("TEST:ABC 123") }
        ))
    );
    assert_eq!(
        parse_posting(" TEST:ABC 123   ; [2018-10-01]"),
        Some((
            "",
            Posting {
                metadata: PostingMetadata {
                    date: Some(Date::from_ymd_opt(2018, 10, 1).unwrap()),
                    effective_date: None,
                    tags: vec![],
                },
                ..plain_posting("TEST:ABC 123")
            }
        ))
    );
    assert_eq!(
        parse_posting(" TEST:ABC 123   ; [=2018-10-01]"),
        Some((
            "",
            Posting {
                metadata: PostingMetadata {
                    date: None,
                    effective_date: Some(Date::from_ymd_opt(2018, 10, 1).unwrap()),
                    tags: vec![],
                },
                ..plain_posting("TEST:ABC 123")
            }
        ))
    );
    assert_eq!(
        parse_posting(" TEST:ABC 123   ; [2018-10-01=2018-10-14]"),
        Some((
            "",
            Posting {
                metadata: PostingMetadata {
                    date: Some(Date::from_ymd_opt(2018, 10, 1).unwrap()),
                    effective_date: Some(Date::from_ymd_opt(2018, 10, 14).unwrap()),
                    tags: vec![],
                },
                ..plain_posting("TEST:ABC 123")
            }
        ))
    );
    assert_eq!(
        parse_posting(" TEST:ABC 123   ; Tag: tag value"),
        Some((
            "",
            Posting {
                metadata: PostingMetadata {
                    date: None,
                    effective_date: None,
                    tags: vec![Tag {
                        name: "Tag".to_owned(),
                        value: Some(TagValue::String("tag value".to_owned())),
                    }],
                },
                ..plain_posting("TEST:ABC 123")
            }
        ))
    );
    assert_eq!(
        parse_posting(" TEST:ABC 123   ; :tag1:tag2:   "),
        Some((
            "",
            Posting {
                metadata: PostingMetadata {
                    date: None,
                    effective_date: None,
                    tags: vec![
                        Tag { name: "tag1".to_owned(), value: None },
                        Tag { name: "tag2".to_owned(), value: None },
                    ],
                },
                ..plain_posting("TEST:ABC 123")
            }
        ))
    );
    assert_eq!(
        parse_posting(" TEST:ABC 123   ; comment :tag1:tag2: and: more comment"),
        Some((
            "",
            Posting {
                comment: Some("comment and: more comment".to_owned()),
                metadata: PostingMetadata {
                    date: None,
                    effective_date: None,
                    tags: vec![
                        Tag { name: "tag1".to_owned(), value: None },
                        Tag { name: "tag2".to_owned(), value: None },
                    ],
                },
                ..plain_posting("TEST:ABC 123")
            }
        ))
    );
    assert_eq!(
        parse_posting(" TEST:ABC 123   ; Tag:: [2018-01-05]"),
        Some((
            "",
            Posting {
                metadata: PostingMetadata {
                    date: None,
                    effective_date: None,
                    tags: vec![Tag {
                        name: "Tag".to_owned(),
                        value: Some(TagValue::Date(Date::from_ymd_opt(2018, 1, 5).unwrap())),
                    }],
                },
                ..plain_posting("TEST:ABC 123")
            }
        ))
    );
    assert_eq!(
        parse_posting(" TEST:ABC 123   ; TheAnswer:: 42"),
        Some((
            "",
            Posting {
                metadata: PostingMetadata {
                    date: None,
                    effective_date: None,
                    tags: vec![Tag {
                        name: "TheAnswer".to_owned(),
                        value: Some(TagValue::Integer(42)),
                    }],
                },
                ..plain_posting("TEST:ABC 123")
            }
        ))
    );
    assert_eq!(
        parse_posting(" TEST:ABC 123   ; ISquared:: -1"),
        Some((
            "",
            Posting {
                metadata: PostingMetadata {
                    date: None,
                    effective_date: None,
                    tags: vec![Tag {
                        name: "ISquared".to_owned(),
                        value: Some(TagValue::Integer(-1)),
                    }],
                },
                ..plain_posting("TEST:ABC 123")
            }
        ))
    );
    assert_eq!(
        parse_posting(" TEST:ABC 123   ; Pi:: 3.141592653589793"),
        Some((
            "",
            Posting {
                metadata: PostingMetadata {
                    date: None,
                    effective_date: None,
                    tags: vec![Tag {
                        name: "Pi".to_owned(),
                        value: Some(TagValue::Float(Decimal::new(3141592653589793, 15))),
                    }],
                },
                ..plain_posting("TEST:ABC 123")
            }
        ))
    );
}

#[test]
fn parse_transaction_test() {
    assert_eq!(
        parse_transaction(
            "2018-10-01=2018-10-14 ! (123) Marek Ogarek  ; Transaction comment\n TEST:ABC 123  $1.20 ; Posting comment\n                     ; over two lines\n TEST:ABC 123  $1.20"
        ),
        Ok((
            "",
            Transaction {
                comment: Some("Transaction comment".to_owned()),
                date: Date::from_ymd_opt(2018, 10, 1).unwrap(),
                effective_date: Some(Date::from_ymd_opt(2018, 10, 14).unwrap()),
                posting_metadata: no_metadata(),
                status: Some(TransactionStatus::Pending),
                code: Some("123".to_owned()),
                description: Some("Marek Ogarek".to_owned()),
                postings: vec![
                    Posting {
                        account: "TEST:ABC 123".to_owned(),
                        reality: Reality::Real,
                        amount: Some(PostingAmount {
                            amount: dollar(120),
                            lot_price: None,
                            price: None
                        }),
                        balance: None,
                        status: None,
                        comment: Some("Posting comment\nover two lines".to_owned()),
                        metadata: no_metadata(),
                    },
                    Posting {
                        account: "TEST:ABC 123".to_owned(),
                        reality: Reality::Real,
                        amount: Some(PostingAmount {
                            amount: dollar(120),
                            lot_price: None,
                            price: None
                        }),
                        balance: None,
                        status: None,
                        comment: None,
                        metadata: no_metadata(),
                    }
                ]
            }
        ))
    );
    let eur = |m: i64| Amount {
        quantity: Decimal::new(m, 2),
        commodity: Commodity { name: "EUR".to_owned(), position: CommodityPosition::Left },
    };
    assert_eq!(
        parse_transaction(
            "2018-10-01=2018-10-14 Marek Ogarek ; one space\n TEST:ABC 123  $1.20 ; test\n TEST:DEF 123  EUR-1.20\n TEST:GHI 123\n TEST:JKL 123  EUR-2.00"
        ),
        Ok((
            "",
            Transaction {
                comment: None,
                date: Date::from_ymd_opt(2018, 10, 1).unwrap(),
                effective_date: Some(Date::from_ymd_opt(2018, 10, 14).unwrap()),
                posting_metadata: no_metadata(),
                status: None,
                code: None,
                description: Some("Marek Ogarek ; one space".to_owned()),
                postings: vec![
                    Posting {
                        account: "TEST:ABC 123".to_owned(),
                        reality: Reality::Real,
                        amount: Some(PostingAmount {
                            amount: dollar(120),
                            lot_price: None,
                            price: None
                        }),
                        balance: None,
                        status: None,
                        comment: Some("test".to_owned()),
                        metadata: no_metadata(),
                    },
                    Posting {
                        account: "TEST:DEF 123".to_owned(),
                        reality: Reality::Real,
                        amount: Some(PostingAmount {
                            amount: eur(-120),
                            lot_price: None,
                            price: None
                        }),
                        balance: None,
                        status: None,
                        comment: None,
                        metadata: no_metadata(),
                    },
                    plain_posting("TEST:GHI 123"),
                    Posting {
                        account: "TEST:JKL 123".to_owned(),
                        reality: Reality::Real,
                        amount: Some(PostingAmount {
                            amount: eur(-200),
                            lot_price: None,
                            price: None
                        }),
                        balance: None,
                        status: None,
                        comment: None,
                        metadata: no_metadata(),
                    },
                ]
            }
        ))
    );
    assert_eq!(
        parse_transaction(
            "2018-10-01=2018-10-14 ! (123) Marek Ogarek  two spaces\n TEST:ABC 123  $1.20 ; test\n TEST:DEF 123"
        ),
        Ok((
            "",
            Transaction {
                comment: None,
                date: Date::from_ymd_opt(2018, 10, 1).unwrap(),
                effective_date: Some(Date::from_ymd_opt(2018, 10, 14).unwrap()),
                posting_metadata: no_metadata(),
                status: Some(TransactionStatus::Pending),
                code: Some("123".to_owned()),
                description: Some("Marek Ogarek  two spaces".to_owned()),
                postings: vec![
                    Posting {
                        account: "TEST:ABC 123".to_owned(),
                        reality: Reality::Real,
                        amount: Some(PostingAmount {
                            amount: dollar(120),
                            lot_price: None,
                            price: None
                        }),
                        balance: None,
                        status: None,
                        comment: Some("test".to_owned()),
                        metadata: no_metadata(),
                    },
                    plain_posting("TEST:DEF 123"),
                ]
            }
        ))
    );
    assert_eq!(
        parse_transaction("2018-10-01=2018-10-14 ! (123)\n TEST:ABC 123  $1.20\n TEST:DEF 123"),
        Ok((
            "",
            Transaction {
                comment: None,
                date: Date::from_ymd_opt(2018, 10, 1).unwrap(),
                effective_date: Some(Date::from_ymd_opt(2018, 10, 14).unwrap()),
                posting_metadata: no_metadata(),
                status: Some(TransactionStatus::Pending),
                code: Some("123".to_owned()),
                description: None,
                postings: vec![
                    Posting {
                        account: "TEST:ABC 123".to_owned(),
                        reality: Reality::Real,
                        amount: Some(PostingAmount {
                            amount: dollar(120),
                            lot_price: None,
                            price: None
                        }),
                        balance: None,
                        status: None,
                        comment: None,
                        metadata: no_metadata(),
                    },
                    plain_posting("TEST:DEF 123"),
                ]
            }
        ))
    );
}

#[test]
fn parse_include_test() {
    let input = format!("{} other_file.ledger", directive_kw());
    assert_eq!(parse_include_file(&input), Ok(("", "other_file.ledger".to_owned())));
}

#[test]
fn parse_ledger_test() {
    let input = format!(
        "; Example 1\n\n{} other_file.ledger\n\nP 2017-11-12 12:00:00 mBH 5.00 PLN  ; comment\n\n; Comment\n2018-10-01=2018-10-14 ! (123) Marek Ogarek\n TEST:ABC 123  $1.20\n TEST:ABC 123  $1.20\n\n2018-10-01=2018-10-14 ! (123) Marek Ogarek\n TEST:ABC 123  $1.20\n TEST:ABC 123  $1.20\n",
        directive_kw()
    );
    let res = parse_ledger(&input).unwrap();
    assert_eq!(res.items.len(), 10);
    assert!(matches!(res.items[0], LedgerItem::LineComment(_)));
    assert!(matches!(res.items[1], LedgerItem::EmptyLine));
    assert!(matches!(res.items[2], LedgerItem::Include(_)));
    assert!(matches!(res.items[3], LedgerItem::EmptyLine));
    assert!(matches!(res.items[4], LedgerItem::CommodityPrice(_)));
    assert!(matches!(res.items[5], LedgerItem::EmptyLine));
    assert!(matches!(res.items[6], LedgerItem::LineComment(_)));
    assert!(matches!(res.items[7], LedgerItem::Transaction(_)));
    assert!(matches!(res.items[8], LedgerItem::EmptyLine));
    assert!(matches!(res.items[9], LedgerItem::Transaction(_)));
}
