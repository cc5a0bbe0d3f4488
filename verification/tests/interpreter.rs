use chrono::Datelike;
use ledger::arguments_interpreter::{interpret, Actions};
use ledger::cli;
use ledger::entities::amount::{Amount, NonNegativeAmount};
use ledger::entities::date::Date;
use ledger::entities::{account, transaction, unit};
use ledger::error::LedgerError;
use ledger::events::{self, Event};
use ledger::reports::Report;
use proptest::arbitrary::any;
use proptest::strategy::Strategy;
use proptest::test_runner::TestRunner;

fn naive_date_strategy() -> impl Strategy<Value = Date> {
    (chrono::NaiveDate::MIN.num_days_from_ce()..chrono::NaiveDate::MAX.num_days_from_ce())
        .prop_map(|days| Date(chrono::NaiveDate::from_num_days_from_ce_opt(days).unwrap()))
}

fn kind_strategy() -> impl Strategy<Value = account::Kind> {
    any::<bool>().prop_map(|budget| {
        if budget {
            account::Kind::Budget
        } else {
            account::Kind::External
        }
    })
}

fn prefixed_account_name_strategy(prefix: String) -> impl Strategy<Value = account::Name> {
    any::<String>().prop_map(move |name| account::Name(prefix.clone() + &name))
}

fn non_negative_amount_strategy() -> impl Strategy<Value = NonNegativeAmount> {
    (any::<u64>(), 0u32..=28).prop_map(|(mantissa, scale)| {
        NonNegativeAmount::from_amount(Amount::new(mantissa as i128, scale).unwrap()).unwrap()
    })
}

fn move_add_strategy() -> impl Strategy<Value = cli::MoveAdd> {
    (
        any::<u64>(),
        prefixed_account_name_strategy("debit_".to_string()),
        prefixed_account_name_strategy("credit_".to_string()),
        non_negative_amount_strategy(),
        any::<String>(),
    )
        .prop_map(|(transaction, debit_account, credit_account, amount, unit)| cli::MoveAdd {
            transaction: transaction::Id(transaction),
            debit_account,
            credit_account,
            amount,
            unit: unit::Name(unit),
        })
}

#[test]
fn account_create() {
    let mut runner = TestRunner::default();
    runner
        .run(&(any::<String>().prop_map(account::Name), kind_strategy()), |(name, kind)| {
            assert_eq!(
                interpret(cli::Arguments {
                    category: cli::Category::Account(cli::Account::Create(cli::AccountCreate {
                        name: name.clone(),
                        kind,
                    }))
                })
                .unwrap(),
                Actions {
                    event: Some(Event::AccountCreated(events::AccountCreated { name, kind })),
                    report: None
                }
            );
            Ok(())
        })
        .unwrap();
}

#[test]
fn transaction_record() {
    let mut runner = TestRunner::default();
    runner
        .run(&naive_date_strategy(), |date| {
            assert_eq!(
                interpret(cli::Arguments {
                    category: cli::Category::Transaction(cli::Transaction::Record(
                        cli::TransactionRecord { date }
                    )),
                })
                .unwrap(),
                Actions {
                    event: Some(Event::TransactionRecorded(events::TransactionRecorded { date })),
                    report: Some(Report::TransactionRecordResponse)
                }
            );
            Ok(())
        })
        .unwrap();
}

#[test]
fn transaction_show() {
    let mut runner = TestRunner::default();
    runner
        .run(&any::<u64>().prop_map(transaction::Id), |id| {
            assert_eq!(
                interpret(cli::Arguments {
                    category: cli::Category::Transaction(cli::Transaction::Show(
                        cli::TransactionShow { id }
                    )),
                })
                .unwrap(),
                Actions { event: None, report: Some(Report::TransactionShow { id }) }
            );
            Ok(())
        })
        .unwrap();
}

#[test]
fn unit_create() {
    let mut runner = TestRunner::default();
    runner
        .run(&(any::<String>().prop_map(unit::Name), any::<u8>()), |(name, decimal_places)| {
            assert_eq!(
                interpret(cli::Arguments {
                    category: cli::Category::Unit(cli::Unit::Create(cli::UnitCreate {
                        decimal_places,
                        name: name.clone(),
                    }))
                })
                .unwrap(),
                Actions {
                    event: Some(Event::UnitCreated(events::UnitCreated { name, decimal_places })),
                    report: None
                }
            );
            Ok(())
        })
        .unwrap();
}

#[test]
fn move_add() {
    let mut runner = TestRunner::default();
    runner
        .run(&move_add_strategy(), |move_add| {
            assert_eq!(
                interpret(cli::Arguments {
                    category: cli::Category::Move(cli::Move::Add(move_add.clone()))
                })
                .unwrap(),
                Actions {
                    event: Some(Event::MoveAdded(events::MoveAdded {
                        transaction: move_add.transaction,
                        debit_account: move_add.debit_account,
                        credit_account: move_add.credit_account,
                        amount: move_add.amount,
                        unit: move_add.unit
                    })),
                    report: None
                }
            );
            Ok(())
        })
        .unwrap();
}

#[test]
fn move_add_when_account_names_identical() {
    let mut runner = TestRunner::default();
    runner
        .run(
            &move_add_strategy().prop_map(|mut move_add| {
                move_add.credit_account.0 = move_add.debit_account.0.clone();
                move_add
            }),
            |move_add| {
                let error = interpret(cli::Arguments {
                    category: cli::Category::Move(cli::Move::Add(move_add)),
                })
                .unwrap_err();
                assert!(matches!(error, LedgerError::ArgumentsInterpreterMoveAddSameAccount(_)));
                Ok(())
            },
        )
        .unwrap();
}

#[test]
fn the_refused_move_names_the_account() {
    let error = interpret(cli::Arguments {
        category: cli::Category::Move(cli::Move::Add(cli::MoveAdd {
            transaction: transaction::Id(1),
            debit_account: account::Name("checking".to_string()),
            credit_account: account::Name("checking".to_string()),
            amount: NonNegativeAmount::from_str("1.00").unwrap(),
            unit: unit::Name("USD".to_string()),
        })),
    })
    .unwrap_err();
    match error {
        LedgerError::ArgumentsInterpreterMoveAddSameAccount(name) => {
            assert_eq!(name, account::Name("checking".to_string()))
        }
        other => panic!("{other:?}"),
    }
}

#[test]
fn balances_are_a_report_without_an_event() {
    assert_eq!(
        interpret(cli::Arguments { category: cli::Category::Balances }).unwrap(),
        Actions { event: None, report: Some(Report::Balances) }
    );
}

#[test]
fn a_running_balance_is_a_report_without_an_event() {
    assert_eq!(
        interpret(cli::Arguments {
            category: cli::Category::RunningBalance(cli::RunningBalance {
                account: account::Name("checking".to_string()),
                unit: unit::Name("USD".to_string()),
            })
        })
        .unwrap(),
        Actions {
            event: None,
            report: Some(Report::RunningBalance {
                account: account::Name("checking".to_string()),
                unit: unit::Name("USD".to_string()),
            })
        }
    );
}
