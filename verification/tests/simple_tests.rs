use ledger_parser::simple;
use ledger_parser::{Amount, Commodity, CommodityPosition, CommodityPrice, Date, Decimal,
    TransactionStatus};

#[test]
fn from_ast_test() {
    let input = "; Example 1\n\nP 2017-11-12 12:00:00 mBH 5.00 PLN\n\n; Comment Line 1\n; Comment Line 2\n2018-10-01=2018-10-14 ! (123) Marek Ogarek  ; Comment Line 3\n; Comment Line 4\n; Comment Line 5\n TEST:ABC 123  $1.20; Posting comment line 1\n ; Posting comment line 2\n TEST:ABC 123  $1.20 = $2.40\n\n2018-10-01=2018-10-14 ! (123) Marek Ogarek\n TEST:ABC 123  $1.20\n TEST:ABC 123  $1.20\n";
    let dollar_amount = || Amount {
        quantity: Decimal::new(120, 2),
        commodity: Commodity { name: "$".to_owned(), position: CommodityPosition::Left },
    };
    let expected = simple::Ledger {
        transactions: vec![
            simple::Transaction {
                comment: Some(
                    "Comment Line 1\nComment Line 2\nComment Line 3\nComment Line 4\nComment Line 5"
                        .to_owned(),
                ),
                date: Date::from_ymd_opt(2018, 10, 1).unwrap(),
                effective_date: Some(Date::from_ymd_opt(2018, 10, 14).unwrap()),
                status: Some(TransactionStatus::Pending),
                code: Some("123".to_owned()),
                description: Some("Marek Ogarek".to_owned()),
                postings: vec![
                    simple::Posting {
                        account: "TEST:ABC 123".to_owned(),
                        amount: dollar_amount(),
                        status: None,
                        comment: Some(
                            "Posting comment line 1\nPosting comment line 2".to_owned(),
                        ),
                    },
                    simple::Posting {
                        account: "TEST:ABC 123".to_owned(),
                        amount: dollar_amount(),
                        status: None,
                        comment: None,
                    },
                ],
            },
            simple::Transaction {
                comment: None,
                date: Date::from_ymd_opt(2018, 10, 1).unwrap(),
                effective_date: Some(Date::from_ymd_opt(2018, 10, 14).unwrap()),
                status: Some(TransactionStatus::Pending),
                code: Some("123".to_owned()),
                description: Some("Marek Ogarek".to_owned()),
                postings: vec![
                    simple::Posting {
                        account: "TEST:ABC 123".to_owned(),
                        amount: dollar_amount(),
                        status: None,
                        comment: None,
                    },
                    simple::Posting {
                        account: "TEST:ABC 123".to_owned(),
                        amount: dollar_amount(),
                        status: None,
                        comment: None,
                    },
                ],
            },
        ],
        commodity_prices: vec![CommodityPrice {
            datetime: Date::from_ymd_opt(2017, 11, 12).unwrap().and_hms_opt(12, 0, 0).unwrap(),
            commodity_name: "mBH".to_owned(),
            amount: Amount {
                quantity: Decimal::new(500, 2),
                commodity: Commodity {
                    name: "PLN".to_owned(),
                    position: CommodityPosition::Right,
                },
            },
        }],
    };
    assert_eq!(simple::parse(input).unwrap(), expected);
}

#[test]
fn simple_conversion_needs_amounts() {
    // A posting without an amount cannot enter the flattened model.
    let input = "2018-10-01 Payee\n AA  $1.20\n BB";
    match simple::parse(input) {
        Err(simple::Error::ConvertError(simple::ConvertError::MissingAmount)) => {},
        other => panic!("unexpected result: {:?}", other.map(|_| ())),
    }
}
