use ledger_parser::{parse, Serializer, SerializerSettings};

#[test]
fn serialize_transaction() {
    let ledger = parse("2018/10/01    (123)     Payee 123\n  TEST:ABC 123        $1.20\n    TEST:DEF 123")
        .expect("parsing test transaction");
    let actual = ledger.to_string_pretty(&SerializerSettings::default());
    assert_eq!(actual, "2018-10-01 (123) Payee 123\n  TEST:ABC 123  $1.20\n  TEST:DEF 123\n");
}

#[test]
fn serialize_with_custom_date_format() {
    let ledger = parse("2018-10-01    (123)     Payee 123\n  TEST:ABC 123        $1.20\n    TEST:DEF 123")
        .expect("parsing test transaction");
    let settings = SerializerSettings {
        transaction_date_format: "%Y/%m/%d".to_owned(),
        ..SerializerSettings::default()
    };
    let actual = ledger.to_string_pretty(&settings);
    assert_eq!(actual, "2018/10/01 (123) Payee 123\n  TEST:ABC 123  $1.20\n  TEST:DEF 123\n");
}

#[test]
fn serialize_tags() {
    let ledger = parse(
        "2018-10-01   (123)    Payee 123\n  ;   Tag1:   Foo bar\n  TEST:ABC 123       $1.20      ;   Tag2:  Fizz bazz\n  TEST:DEF 123",
    )
    .expect("parsing test transaction");
    let actual = ledger.to_string_pretty(&SerializerSettings::default());
    assert_eq!(
        actual,
        "2018-10-01 (123) Payee 123\n  ; Tag1: Foo bar\n  TEST:ABC 123  $1.20  ; Tag2: Fizz bazz\n  TEST:DEF 123\n"
    );
}

#[test]
fn serialize_posting_comments_sameline() {
    let ledger = parse(
        "2018-10-01 Payee 123\n  TEST:ABC 123  $1.20\n  ; This is a one-line comment\n  TEST:DEF 123\n  ; This is a two-\n  ; line comment",
    )
    .expect("parsing test transaction");
    let settings = SerializerSettings {
        posting_comments_sameline: true,
        ..SerializerSettings::default()
    };
    let actual = ledger.to_string_pretty(&settings);
    assert_eq!(
        actual,
        "2018-10-01 Payee 123\n  TEST:ABC 123  $1.20  ; This is a one-line comment\n  TEST:DEF 123\n  ; This is a two-\n  ; line comment\n"
    );
}
