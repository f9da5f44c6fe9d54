use drizzly::amount::Amount;
use drizzly::csv_ingestor::{read_csv, CsvRow, CsvTransaction, TransactionType};
use drizzly::error::ApplicationError;
use rust_decimal::Decimal;

fn row(tx_type: &str, client_id: u16, tx_id: u32, amount: Option<&str>) -> CsvRow {
    CsvRow {
        tx_type: tx_type.to_string(),
        client_id,
        tx_id,
        amount: amount.map(|text| text.to_string()),
    }
}

fn ids(records: &Vec<CsvTransaction>) -> Vec<u32> {
    records.iter().map(|record| record.tx_id).collect()
}

#[test]
fn each_keyword_names_its_kind() {
    assert_eq!(TransactionType::parse("deposit"), Some(TransactionType::Deposit));
    assert_eq!(TransactionType::parse("withdrawal"), Some(TransactionType::Withdrawal));
    assert_eq!(TransactionType::parse("dispute"), Some(TransactionType::Dispute));
    assert_eq!(TransactionType::parse("resolve"), Some(TransactionType::Resolve));
    assert_eq!(TransactionType::parse("chargeback"), Some(TransactionType::Chargeback));
}

#[test]
fn a_keyword_is_read_without_regard_to_case() {
    assert_eq!(TransactionType::parse("DEPOSIT"), Some(TransactionType::Deposit));
    assert_eq!(TransactionType::parse("Deposit"), Some(TransactionType::Deposit));
    assert_eq!(TransactionType::parse("wIthDrawAL"), Some(TransactionType::Withdrawal));
    assert_eq!(TransactionType::parse("Dispute"), Some(TransactionType::Dispute));
    assert_eq!(TransactionType::parse("RESOLVE"), Some(TransactionType::Resolve));
    assert_eq!(TransactionType::parse("ChargeBack"), Some(TransactionType::Chargeback));
}

#[test]
fn a_keyword_is_read_without_the_blanks_around_it() {
    assert_eq!(TransactionType::parse("  deposit"), Some(TransactionType::Deposit));
    assert_eq!(TransactionType::parse("deposit \t"), Some(TransactionType::Deposit));
    assert_eq!(TransactionType::parse("\t Resolve\r\n"), Some(TransactionType::Resolve));
    assert_eq!(TransactionType::parse(" \x0C dispute \x0C "), Some(TransactionType::Dispute));
}

#[test]
fn what_is_no_keyword_names_no_kind() {
    for text in [
        "",
        " ",
        "deposits",
        "deposi",
        "eposit",
        "de posit",
        "withdraw",
        "refund",
        "dépôt",
        "deposit,",
        "chargeback1",
        "deposit\u{a0}",
        "depos\u{131}t",
        "\u{212a}",
    ] {
        assert_eq!(TransactionType::parse(text), None);
    }
}

#[test]
fn a_row_denotes_the_record_of_its_fields() {
    let record = row(" Deposit ", 7, 42, Some("12.345")).record().unwrap();
    assert_eq!(record.tx_type, TransactionType::Deposit);
    assert_eq!(record.client_id, 7);
    assert_eq!(record.tx_id, 42);
    assert_eq!(record.amount.unwrap().units(), 123_450);

    let record = row("dispute", 65535, 4294967295, None).record().unwrap();
    assert_eq!(record.tx_type, TransactionType::Dispute);
    assert_eq!(record.client_id, 65535);
    assert_eq!(record.tx_id, 4294967295);
    assert!(record.amount.is_none());
}

#[test]
fn a_row_rounds_its_amount_to_four_digits() {
    let record = row("withdrawal", 1, 1, Some("0.00015")).record().unwrap();
    assert_eq!(record.amount, Amount::from_units(2));
    let record = row("withdrawal", 1, 1, Some("0.00025")).record().unwrap();
    assert_eq!(record.amount, Amount::from_units(2));
}

#[test]
fn a_row_may_carry_an_amount_whatever_its_kind() {
    let record = row("chargeback", 1, 1, Some("3")).record().unwrap();
    assert_eq!(record.tx_type, TransactionType::Chargeback);
    assert_eq!(record.amount.unwrap().units(), 30_000);
    let record = row("deposit", 1, 1, None).record().unwrap();
    assert!(record.amount.is_none());
}

#[test]
fn a_row_with_an_unknown_kind_is_malformed() {
    assert!(matches!(
        row("transfer", 1, 1, Some("1.0")).record(),
        Err(ApplicationError::FailedDeserializedCsvTransaction(_))
    ));
}

#[test]
fn a_row_with_an_unreadable_amount_is_malformed() {
    assert!(matches!(
        row("deposit", 1, 1, Some("one")).record(),
        Err(ApplicationError::FailedDeserializedCsvTransaction(_))
    ));
    assert!(matches!(
        row("deposit", 1, 1, Some("")).record(),
        Err(ApplicationError::FailedDeserializedCsvTransaction(_))
    ));
}

#[test]
fn reading_forwards_every_record_in_order() {
    let rows = vec![
        Ok(row("deposit", 1, 1, Some("1.0"))),
        Ok(row("deposit", 2, 2, Some("2.0"))),
        Ok(row("withdrawal", 1, 3, Some("1.5"))),
        Ok(row("dispute", 1, 1, None)),
    ];
    let mut forwarded = Vec::new();
    let records = read_csv(&rows, &mut forwarded).unwrap();
    assert_eq!(ids(&records), vec![1, 2, 3, 1]);
    assert_eq!(ids(&forwarded), vec![1, 2, 3, 1]);
    assert_eq!(records[2].tx_type, TransactionType::Withdrawal);
    assert_eq!(records[2].client_id, 1);
    assert_eq!(records[2].amount.unwrap().units(), 15_000);
    assert_eq!(forwarded[1].amount.unwrap().units(), 20_000);
    assert!(forwarded[3].amount.is_none());
}

#[test]
fn reading_nothing_forwards_nothing() {
    let mut forwarded = Vec::new();
    let records = read_csv(&Vec::new(), &mut forwarded).unwrap();
    assert!(records.is_empty());
    assert!(forwarded.is_empty());
}

#[test]
fn reading_appends_to_what_was_forwarded_before() {
    let mut forwarded = vec![CsvTransaction {
        tx_type: TransactionType::Resolve,
        client_id: 9,
        tx_id: 90,
        amount: None,
    }];
    let records = read_csv(&vec![Ok(row("deposit", 1, 1, Some("1")))], &mut forwarded).unwrap();
    assert_eq!(ids(&records), vec![1]);
    assert_eq!(ids(&forwarded), vec![90, 1]);
}

#[test]
fn reading_ends_at_the_first_malformed_row() {
    let rows = vec![
        Ok(row("deposit", 1, 1, Some("1.0"))),
        Ok(row("deposit", 1, 2, Some("2.0"))),
        Ok(row("deposit", 1, 3, Some("x"))),
        Ok(row("deposit", 1, 4, Some("4.0"))),
        Ok(row("bogus", 1, 5, None)),
    ];
    let mut forwarded = Vec::new();
    let outcome = read_csv(&rows, &mut forwarded);
    assert!(matches!(outcome, Err(ApplicationError::FailedDeserializedCsvTransaction(_))));
    assert_eq!(ids(&forwarded), vec![1, 2]);
}

#[test]
fn reading_ends_at_a_row_that_could_not_be_split() {
    let rows = vec![
        Ok(row("deposit", 1, 1, Some("1.0"))),
        Err("record 2 has 3 fields".to_string()),
        Ok(row("deposit", 1, 3, Some("3.0"))),
    ];
    let mut forwarded = Vec::new();
    match read_csv(&rows, &mut forwarded) {
        Err(ApplicationError::FailedDeserializedCsvTransaction(text)) => {
            assert_eq!(text, "record 2 has 3 fields");
        }
        _ => panic!("expected a malformed record"),
    }
    assert_eq!(ids(&forwarded), vec![1]);
}

#[test]
fn reading_a_malformed_first_row_forwards_nothing() {
    let rows = vec![Ok(row("", 1, 1, None)), Ok(row("deposit", 1, 2, Some("1")))];
    let mut forwarded = Vec::new();
    assert!(read_csv(&rows, &mut forwarded).is_err());
    assert!(forwarded.is_empty());
}

// the rows of a well-formed input
fn transactions() -> Vec<Result<CsvRow, String>> {
    vec![
        Ok(row("deposit", 1, 1, Some("1.0"))),
        Ok(row("deposit", 2, 2, Some("2.0"))),
        Ok(row("deposit", 1, 3, Some("2.0"))),
        Ok(row("withdrawal", 1, 4, Some("1.5"))),
        Ok(row("withdrawal", 2, 5, Some("3.0"))),
        Ok(row("deposit", 3, 6, Some("10.123456"))),
        Ok(row("dispute", 1, 1, None)),
        Ok(row("resolve", 1, 1, None)),
        Ok(row("dispute", 2, 2, None)),
        Ok(row("chargeback", 2, 2, None)),
    ]
}

// the rows of an input with a deliberately bad row
fn malformed() -> Vec<Result<CsvRow, String>> {
    vec![
        Ok(row("deposit", 1, 1, Some("1.0"))),
        Ok(row("deposit", 2, 2, Some("not-a-number"))),
        Ok(row("withdrawal", 1, 3, Some("0.5"))),
    ]
}

#[test]
fn csv_ingestor_test_read_csv_real_file() {
    let mut dispatcher_sender = Vec::new();

    let transactions =
        read_csv(&transactions(), &mut dispatcher_sender).expect("Failed to read CSV");

    // Check that we actually read transactions
    assert!(!transactions.is_empty(), "CSV should have at least one transaction");

    // Validate each transaction
    for (row_number, tx) in transactions.iter().enumerate() {
        // Transaction type should be one of the enum variants
        match tx.tx_type {
            TransactionType::Deposit
            | TransactionType::Withdrawal
            | TransactionType::Dispute
            | TransactionType::Resolve
            | TransactionType::Chargeback => {}
        }

        // Amount rules
        match tx.tx_type {
            TransactionType::Deposit | TransactionType::Withdrawal => {
                let amount = tx.amount.expect(&format!(
                    "Withdrawl or Deposit type {} should have amount",
                    row_number
                ));
                let amount = Decimal::from_i128_with_scale(amount.units(), 4);

                let amount_rounded = amount.round_dp(4);
                println!("amount {} and amount_rounded {} are:", amount, amount_rounded);
                assert_eq!(
                    amount, amount_rounded,
                    "Withdraw or Deposit type at Row {} amount not rounded to 4 decimals",
                    row_number
                );
            }
            TransactionType::Dispute | TransactionType::Resolve | TransactionType::Chargeback => {
                assert!(
                    tx.amount.is_none(),
                    "Transaction type {:?} at Row {} should not have an amount",
                    tx.tx_type,
                    row_number
                );
            }
        }
    }
}

#[test]
fn csv_ingestor_test_read_csv_malformed_file() {
    let mut dispatcher_sender = Vec::new();

    let err = read_csv(&malformed(), &mut dispatcher_sender).unwrap_err();

    match err {
        ApplicationError::FailedDeserializedCsvTransaction(_) => (),
        _ => panic!("Expected FailedDeserializedCsvTransaction error"),
    }
}

#[test]
fn ingestion_test_read_csv_real_file() {
    let mut dispatcher_sender = Vec::new();
    let transactions =
        read_csv(&transactions(), &mut dispatcher_sender).expect("Failed to read CSV");

    assert!(!transactions.is_empty(), "CSV should have at least one transaction");

    // example checks on the first row
    let first_tx = &transactions[0];
    assert!(matches!(
        first_tx.tx_type,
        TransactionType::Deposit | TransactionType::Withdrawal
    ));
    assert!(first_tx.client_id > 0);
    assert!(first_tx.tx_id > 0);
    assert!(first_tx.amount.is_some());
}

#[test]
fn ingestion_test_read_csv_malformed_file() {
    let mut dispatcher_sender = Vec::new();
    let err = read_csv(&malformed(), &mut dispatcher_sender).unwrap_err();

    match err {
        ApplicationError::FailedDeserializedCsvTransaction(_) => (),
        _ => panic!("Expected FailedDeserializedCsvTransaction error"),
    }
}
