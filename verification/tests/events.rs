use chrono::Datelike;
use ledger::entities::amount::{Amount, NonNegativeAmount};
use ledger::entities::date::Date;
use ledger::entities::{account, transaction, unit};
use ledger::error::{
    EventValidateForAppendingToError, EventValidateForAppendingToErrorMoveAdded,
    EventValidateForAppendingToErrorMoveAddedUnit, LedgerError,
};
use ledger::events::{AccountCreated, Event, Events, MoveAdded, TransactionRecorded, UnitCreated};
use proptest::arbitrary::any;
use proptest::sample::Index;
use proptest::strategy::Strategy;
use proptest::test_runner::TestRunner;

/// What a generated event is made of; which parts are used depends on the
/// kind of event and on the log that the event is made for.
#[derive(Debug, Clone)]
struct Draft {
    choice: u8,
    name: String,
    budget: bool,
    decimal_places: u8,
    days: i32,
    mantissa: u64,
    picks: [Index; 4],
}

fn draft_strategy() -> impl Strategy<Value = Draft> {
    (
        0u8..4,
        any::<String>(),
        any::<bool>(),
        any::<u8>(),
        chrono::NaiveDate::MIN.num_days_from_ce()..chrono::NaiveDate::MAX.num_days_from_ce(),
        any::<u64>(),
        any::<[Index; 4]>(),
    )
        .prop_map(|(choice, name, budget, decimal_places, days, mantissa, picks)| Draft {
            choice,
            name,
            budget,
            decimal_places,
            days,
            mantissa,
            picks,
        })
}

/// What a log has seen, as far as the making of further events needs it.
#[derive(Debug, Default, Clone)]
struct Observations {
    account_names: Vec<account::Name>,
    transaction_recorded_events: u64,
    unit_created_events: Vec<UnitCreated>,
}

fn observe(events: &Events) -> Observations {
    let mut observations = Observations::default();
    for i in 0..events.len() {
        match events.get(i) {
            Event::AccountCreated(created) => observations.account_names.push(created.name.clone()),
            Event::TransactionRecorded(_) => observations.transaction_recorded_events += 1,
            Event::UnitCreated(created) => observations.unit_created_events.push(created.clone()),
            Event::MoveAdded(_) => {}
        }
    }
    observations
}

fn usable_units(observations: &Observations) -> Vec<UnitCreated> {
    observations
        .unit_created_events
        .iter()
        .filter(|unit| unit.decimal_places <= 28)
        .cloned()
        .collect()
}

fn move_is_possible(observations: &Observations) -> bool {
    observations.transaction_recorded_events > 0
        && observations.account_names.len() >= 2
        && !usable_units(observations).is_empty()
}

fn kind(budget: bool) -> account::Kind {
    if budget {
        account::Kind::Budget
    } else {
        account::Kind::External
    }
}

fn date(days: i32) -> Date {
    Date(chrono::NaiveDate::from_num_days_from_ce_opt(days).unwrap())
}

fn amount_with_scale(mantissa: u64, scale: u8) -> NonNegativeAmount {
    NonNegativeAmount::from_amount(Amount::new(mantissa as i128, scale as u32).unwrap()).unwrap()
}

fn unused_name(taken: &[String], wanted: &str) -> String {
    let mut name = wanted.to_string();
    while taken.contains(&name) {
        name.push('\'');
    }
    name
}

fn account_names(observations: &Observations) -> Vec<String> {
    observations.account_names.iter().map(|name| name.0.clone()).collect()
}

fn unit_names(observations: &Observations) -> Vec<String> {
    observations.unit_created_events.iter().map(|unit| unit.name.0.clone()).collect()
}

fn valid_move(observations: &Observations, draft: &Draft) -> MoveAdded {
    let names = &observations.account_names;
    let units = usable_units(observations);
    let debit = draft.picks[1].index(names.len());
    let credit = (debit + 1 + draft.picks[2].index(names.len() - 1)) % names.len();
    let unit = &units[draft.picks[3].index(units.len())];
    MoveAdded {
        transaction: transaction::Id(
            draft.picks[0].index(observations.transaction_recorded_events as usize) as u64 + 1,
        ),
        debit_account: names[debit].clone(),
        credit_account: names[credit].clone(),
        amount: amount_with_scale(draft.mantissa, unit.decimal_places),
        unit: unit.name.clone(),
    }
}

/// An event that the log with these observations accepts.
fn valid_event(observations: &Observations, draft: &Draft) -> Event {
    match draft.choice {
        0 => Event::AccountCreated(AccountCreated {
            name: account::Name(unused_name(&account_names(observations), &draft.name)),
            kind: kind(draft.budget),
        }),
        2 => Event::UnitCreated(UnitCreated {
            name: unit::Name(unused_name(&unit_names(observations), &draft.name)),
            decimal_places: draft.decimal_places,
        }),
        3 if move_is_possible(observations) => Event::MoveAdded(valid_move(observations, draft)),
        _ => Event::TransactionRecorded(TransactionRecorded { date: date(draft.days) }),
    }
}

/// A log made of events each of which the events before it accept. The
/// events are put into the log's place without asking the log, so that a test
/// of the log's judgement does not lean on that judgement.
fn valid_sequence(drafts: &[Draft]) -> Vec<Event> {
    let mut sequence: Vec<Event> = Vec::new();
    let mut observations = Observations::default();
    for draft in drafts {
        let event = valid_event(&observations, draft);
        match &event {
            Event::AccountCreated(created) => observations.account_names.push(created.name.clone()),
            Event::TransactionRecorded(_) => observations.transaction_recorded_events += 1,
            Event::UnitCreated(created) => observations.unit_created_events.push(created.clone()),
            Event::MoveAdded(_) => {}
        }
        sequence.push(event);
    }
    sequence
}

fn log_of(sequence: &[Event]) -> Events {
    let mut events = Events::default();
    for event in sequence {
        events.try_push(event.clone()).unwrap();
    }
    events
}

fn sequence_of(events: &Events) -> Vec<Event> {
    (0..events.len()).map(|i| events.get(i).clone()).collect()
}

fn events_strategy() -> impl Strategy<Value = Events> {
    proptest::collection::vec(draft_strategy(), 0..=20).prop_map(|drafts| log_of(&valid_sequence(&drafts)))
}

/// A log in which a move is possible: two accounts, a unit and a transaction
/// are there at least.
fn events_with_moves_strategy() -> impl Strategy<Value = Events> {
    proptest::collection::vec(draft_strategy(), 0..=20).prop_map(|drafts| {
        let mut sequence = vec![
            Event::AccountCreated(AccountCreated {
                name: account::Name("checking".to_string()),
                kind: account::Kind::Budget,
            }),
            Event::AccountCreated(AccountCreated {
                name: account::Name("groceries".to_string()),
                kind: account::Kind::Budget,
            }),
            Event::UnitCreated(UnitCreated { name: unit::Name("USD".to_string()), decimal_places: 2 }),
            Event::TransactionRecorded(TransactionRecorded { date: date(738_000) }),
        ];
        let mut events = log_of(&sequence);
        for draft in &drafts {
            let event = valid_event(&observe(&events), draft);
            events.try_push(event.clone()).unwrap();
            sequence.push(event);
        }
        events
    })
}

fn missing_transaction(observations: &Observations, draft: &Draft) -> transaction::Id {
    if draft.budget {
        transaction::Id(0)
    } else {
        transaction::Id(
            observations.transaction_recorded_events + 1 + draft.mantissa % 1_000_000,
        )
    }
}

fn other_scale(decimal_places: u8, draft: &Draft) -> u8 {
    let scale = draft.decimal_places % 29;
    if scale == decimal_places {
        (scale + 1) % 29
    } else {
        scale
    }
}

/// An event that the log with these observations refuses.
fn invalid_event(observations: &Observations, draft: &Draft) -> Event {
    match draft.choice {
        0 if !observations.account_names.is_empty() => Event::AccountCreated(AccountCreated {
            name: observations.account_names
                [draft.picks[0].index(observations.account_names.len())]
            .clone(),
            kind: kind(draft.budget),
        }),
        2 if !observations.unit_created_events.is_empty() => Event::UnitCreated(UnitCreated {
            name: observations.unit_created_events
                [draft.picks[0].index(observations.unit_created_events.len())]
            .name
            .clone(),
            decimal_places: draft.decimal_places,
        }),
        _ if move_is_possible(observations) => {
            let mut added = valid_move(observations, draft);
            match draft.picks[0].index(5) {
                0 => added.transaction = missing_transaction(observations, draft),
                1 => {
                    added.debit_account =
                        account::Name(unused_name(&account_names(observations), &draft.name))
                }
                2 => {
                    added.credit_account =
                        account::Name(unused_name(&account_names(observations), &draft.name))
                }
                3 => added.unit = unit::Name(unused_name(&unit_names(observations), &draft.name)),
                _ => {
                    let places = usable_units(observations)
                        .iter()
                        .find(|unit| unit.name == added.unit)
                        .unwrap()
                        .decimal_places;
                    added.amount = amount_with_scale(draft.mantissa, other_scale(places, draft));
                }
            }
            Event::MoveAdded(added)
        }
        _ => Event::MoveAdded(MoveAdded {
            transaction: missing_transaction(observations, draft),
            debit_account: account::Name(draft.name.clone()),
            credit_account: account::Name(unused_name(&[draft.name.clone()], &draft.name)),
            amount: amount_with_scale(draft.mantissa, draft.decimal_places % 29),
            unit: unit::Name(draft.name.clone()),
        }),
    }
}

fn events_and_valid_event() -> impl Strategy<Value = (Events, Event)> {
    (events_strategy(), draft_strategy()).prop_map(|(events, draft)| {
        let event = valid_event(&observe(&events), &draft);
        (events, event)
    })
}

fn events_and_invalid_event() -> impl Strategy<Value = (Events, Event)> {
    (events_strategy(), draft_strategy()).prop_map(|(events, draft)| {
        let event = invalid_event(&observe(&events), &draft);
        (events, event)
    })
}

#[test]
fn events_try_from_reader_event_fails_validation() {
    let mut runner = TestRunner::default();
    runner
        .run(&events_and_invalid_event(), |(events, event)| {
            let mut invalid_events = sequence_of(&events);
            invalid_events.push(event);
            assert!(matches!(
                Events::try_from_sequence(invalid_events),
                Err(LedgerError::EventValidateForAppendingTo(_)),
            ));
            Ok(())
        })
        .unwrap()
}

#[test]
fn events_try_from_reader_success() {
    let mut runner = TestRunner::default();
    runner
        .run(&events_strategy(), |expected| {
            let actual = Events::try_from_sequence(sequence_of(&expected)).unwrap();
            assert_eq!(actual, expected);
            Ok(())
        })
        .unwrap()
}

#[test]
fn events_try_push_failed_validation() {
    let mut runner = TestRunner::default();
    runner
        .run(&events_and_invalid_event(), |(mut events, event)| {
            let before = events.clone();
            let error = events.try_push(event).unwrap_err();
            assert!(matches!(error, LedgerError::EventValidateForAppendingTo(_),));
            assert_eq!(events, before);
            Ok(())
        })
        .unwrap();
}

#[test]
fn events_try_push_success() {
    let mut runner = TestRunner::default();
    runner
        .run(&events_and_valid_event(), |(mut events, event)| {
            let len_before = events.len();
            events.try_push(event.clone()).unwrap();
            assert_eq!(events.len(), len_before + 1);
            assert_eq!(events.get(len_before), &event);
            Ok(())
        })
        .unwrap();
}

#[test]
fn event_validate_for_appending_to_account_created_name_collision() {
    let mut runner = TestRunner::default();
    let strategy = (events_with_moves_strategy(), any::<Index>(), any::<bool>()).prop_map(
        |(events, index, budget)| {
            let names = observe(&events).account_names;
            let account_created =
                AccountCreated { name: names[index.index(names.len())].clone(), kind: kind(budget) };
            (events, account_created)
        },
    );
    runner
        .run(&strategy, |(events, account_created)| {
            let error = Event::AccountCreated(account_created.clone())
                .validate_for_appending_to(&events)
                .unwrap_err();

            assert_eq!(
                error,
                EventValidateForAppendingToError::AccountCreatedNameCollision(account_created.name)
            );

            Ok(())
        })
        .unwrap();
}

#[test]
fn event_validate_for_appending_to_unit_created_name_collision() {
    let mut runner = TestRunner::default();
    let strategy = (events_with_moves_strategy(), any::<Index>(), any::<u8>()).prop_map(
        |(events, index, decimal_places)| {
            let units = observe(&events).unit_created_events;
            let unit_created =
                UnitCreated { name: units[index.index(units.len())].name.clone(), decimal_places };
            (events, unit_created)
        },
    );
    runner
        .run(&strategy, |(events, unit_created)| {
            let error = Event::UnitCreated(unit_created.clone())
                .validate_for_appending_to(&events)
                .unwrap_err();

            assert_eq!(
                error,
                EventValidateForAppendingToError::UnitCreatedNameCollision(unit_created.name)
            );

            Ok(())
        })
        .unwrap();
}

#[test]
fn event_validate_for_appending_to_move_added_transaction_not_found() {
    let mut runner = TestRunner::default();
    let strategy =
        (events_with_moves_strategy(), draft_strategy()).prop_map(|(events, draft)| {
            let observations = observe(&events);
            let mut move_added = valid_move(&observations, &draft);
            move_added.transaction = missing_transaction(&observations, &draft);
            (events, move_added)
        });
    runner
        .run(&strategy, |(events, move_added)| {
            let error = Event::MoveAdded(move_added.clone())
                .validate_for_appending_to(&events)
                .unwrap_err();

            assert_eq!(
                error,
                EventValidateForAppendingToError::MoveAdded(
                    EventValidateForAppendingToErrorMoveAdded {
                        transaction_not_found: Some(move_added.transaction),
                        ..Default::default()
                    }
                )
            );

            Ok(())
        })
        .unwrap();
}

#[test]
fn event_validate_for_appending_to_success() {
    let mut runner = TestRunner::default();
    runner
        .run(&events_and_valid_event(), |(events, event)| {
            event.validate_for_appending_to(&events).unwrap();
            Ok(())
        })
        .unwrap();
}

fn ledger_with_two_accounts() -> Events {
    log_of(&[
        Event::AccountCreated(AccountCreated {
            name: account::Name("checking".to_string()),
            kind: account::Kind::Budget,
        }),
        Event::AccountCreated(AccountCreated {
            name: account::Name("groceries".to_string()),
            kind: account::Kind::External,
        }),
        Event::UnitCreated(UnitCreated { name: unit::Name("USD".to_string()), decimal_places: 2 }),
        Event::TransactionRecorded(TransactionRecorded { date: date(738_000) }),
    ])
}

fn move_of(transaction: u64, debit: &str, credit: &str, amount: &str, unit: &str) -> MoveAdded {
    MoveAdded {
        transaction: transaction::Id(transaction),
        debit_account: account::Name(debit.to_string()),
        credit_account: account::Name(credit.to_string()),
        amount: NonNegativeAmount::from_str(amount).unwrap(),
        unit: unit::Name(unit.to_string()),
    }
}

fn refusal(events: &Events, added: MoveAdded) -> EventValidateForAppendingToErrorMoveAdded {
    match Event::MoveAdded(added).validate_for_appending_to(events) {
        Err(EventValidateForAppendingToError::MoveAdded(error)) => error,
        other => panic!("{other:?}"),
    }
}

#[test]
fn a_move_is_refused_for_its_debit_account_alone() {
    let events = ledger_with_two_accounts();
    assert_eq!(
        refusal(&events, move_of(1, "savings", "groceries", "1.00", "USD")),
        EventValidateForAppendingToErrorMoveAdded {
            debit_account_not_found: Some(account::Name("savings".to_string())),
            ..Default::default()
        }
    );
}

#[test]
fn a_move_is_refused_for_its_credit_account_alone() {
    let events = ledger_with_two_accounts();
    assert_eq!(
        refusal(&events, move_of(1, "checking", "rent", "1.00", "USD")),
        EventValidateForAppendingToErrorMoveAdded {
            credit_account_not_found: Some(account::Name("rent".to_string())),
            ..Default::default()
        }
    );
}

#[test]
fn a_move_is_refused_for_its_unit_alone() {
    let events = ledger_with_two_accounts();
    assert_eq!(
        refusal(&events, move_of(1, "checking", "groceries", "1.00", "EUR")),
        EventValidateForAppendingToErrorMoveAdded {
            unit: Some(EventValidateForAppendingToErrorMoveAddedUnit::UnitNotFound(unit::Name(
                "EUR".to_string()
            ))),
            ..Default::default()
        }
    );
}

#[test]
fn a_move_is_refused_for_its_scale_alone() {
    let events = ledger_with_two_accounts();
    assert_eq!(
        refusal(&events, move_of(1, "checking", "groceries", "1.000", "USD")),
        EventValidateForAppendingToErrorMoveAdded {
            unit: Some(EventValidateForAppendingToErrorMoveAddedUnit::DecimalPlacesMismatch {
                unit_scale: 2,
                amount_scale: 3,
            }),
            ..Default::default()
        }
    );
    assert_eq!(
        refusal(&events, move_of(1, "checking", "groceries", "1", "USD")).unit,
        Some(EventValidateForAppendingToErrorMoveAddedUnit::DecimalPlacesMismatch {
            unit_scale: 2,
            amount_scale: 0,
        })
    );
}

#[test]
fn a_move_is_refused_for_everything_that_is_wrong_with_it() {
    let events = ledger_with_two_accounts();
    assert_eq!(
        refusal(&events, move_of(2, "savings", "rent", "1.0", "EUR")),
        EventValidateForAppendingToErrorMoveAdded {
            transaction_not_found: Some(transaction::Id(2)),
            debit_account_not_found: Some(account::Name("savings".to_string())),
            credit_account_not_found: Some(account::Name("rent".to_string())),
            unit: Some(EventValidateForAppendingToErrorMoveAddedUnit::UnitNotFound(unit::Name(
                "EUR".to_string()
            ))),
        }
    );
    assert_eq!(
        refusal(&events, move_of(0, "checking", "rent", "1.0", "USD")),
        EventValidateForAppendingToErrorMoveAdded {
            transaction_not_found: Some(transaction::Id(0)),
            debit_account_not_found: None,
            credit_account_not_found: Some(account::Name("rent".to_string())),
            unit: Some(EventValidateForAppendingToErrorMoveAddedUnit::DecimalPlacesMismatch {
                unit_scale: 2,
                amount_scale: 1,
            }),
        }
    );
}

#[test]
fn a_move_from_an_account_to_itself_is_not_refused_by_the_log() {
    let mut events = ledger_with_two_accounts();
    events
        .try_push(Event::MoveAdded(move_of(1, "checking", "checking", "1.00", "USD")))
        .unwrap();
    assert_eq!(events.len(), 5);
}

#[test]
fn a_transaction_is_always_accepted() {
    let mut events = Events::default();
    for days in [1, 738_000, 738_000] {
        events
            .try_push(Event::TransactionRecorded(TransactionRecorded { date: date(days) }))
            .unwrap();
    }
    assert_eq!(events.len(), 3);
}

#[test]
fn the_first_event_that_does_not_fit_stops_the_load() {
    let mut sequence = sequence_of(&ledger_with_two_accounts());
    sequence.push(Event::MoveAdded(move_of(1, "checking", "groceries", "12.34", "USD")));
    sequence.push(Event::UnitCreated(UnitCreated {
        name: unit::Name("USD".to_string()),
        decimal_places: 3,
    }));
    sequence.push(Event::AccountCreated(AccountCreated {
        name: account::Name("checking".to_string()),
        kind: account::Kind::Budget,
    }));
    match Events::try_from_sequence(sequence) {
        Err(LedgerError::EventValidateForAppendingTo(
            EventValidateForAppendingToError::UnitCreatedNameCollision(name),
        )) => assert_eq!(name, unit::Name("USD".to_string())),
        other => panic!("{other:?}"),
    }
}

#[test]
fn an_empty_sequence_loads_as_the_empty_log() {
    assert_eq!(Events::try_from_sequence(Vec::new()).unwrap(), Events::default());
    assert_eq!(Events::default().len(), 0);
}

#[test]
fn a_clone_of_a_log_holds_the_same_events() {
    let events = ledger_with_two_accounts();
    let clone = events.clone();
    assert_eq!(clone, events);
    assert_eq!(sequence_of(&clone), sequence_of(&events));
}

#[test]
fn the_projections_hold_what_the_log_has_seen() {
    let mut runner = TestRunner::default();
    runner
        .run(&events_strategy(), |events| {
            let observations = observe(&events);
            let mut names = account_names(&observations);
            names.sort();
            let found: Vec<String> =
                events.all_account_names().into_iter().map(|name| name.0).collect();
            assert_eq!(found, names);
            let accounts = events.all_accounts();
            assert_eq!(accounts.len(), names.len());
            for name in &names {
                assert_eq!(&accounts.get(name).unwrap()._name.0, name);
            }
            let mut names = unit_names(&observations);
            names.sort();
            let found: Vec<String> =
                events.all_unit_names().into_iter().map(|name| name.0).collect();
            assert_eq!(found, names);
            for created in &observations.unit_created_events {
                assert_eq!(
                    events.get_unit(&created.name).unwrap().decimal_places,
                    created.decimal_places
                );
            }
            let ids: Vec<u64> = events.all_transaction_ids().into_iter().map(|id| id.0).collect();
            let expected: Vec<u64> = (1..=observations.transaction_recorded_events).collect();
            assert_eq!(ids, expected);
            assert_eq!(events.transaction_count() as u64, observations.transaction_recorded_events);
            let moves = sequence_of(&events)
                .iter()
                .filter(|event| matches!(event, Event::MoveAdded(_)))
                .count();
            assert_eq!(events.all_moves().len(), moves);
            Ok(())
        })
        .unwrap();
}

#[test]
fn the_balances_of_every_unit_add_up_to_nothing() {
    let mut runner = TestRunner::default();
    runner
        .run(&events_with_moves_strategy(), |events| {
            let balances = events.all_balances().unwrap();
            for created in observe(&events).unit_created_events {
                let mut total: i128 = 0;
                for i in 0..balances.len() {
                    if let Some(amount) = balances.value_at(i).0.get(&created.name.0) {
                        assert_eq!(amount.scale(), created.decimal_places as u32);
                        total += amount.mantissa();
                    }
                }
                assert_eq!(total, 0);
            }
            Ok(())
        })
        .unwrap();
}

#[test]
fn the_running_balance_of_every_account_ends_with_its_balance() {
    let mut runner = TestRunner::default();
    runner
        .run(&events_with_moves_strategy(), |events| {
            let balances = events.all_balances().unwrap();
            let observations = observe(&events);
            for account in &observations.account_names {
                for created in &observations.unit_created_events {
                    let rows = events.running_balance(account, &created.name).unwrap();
                    let held = balances
                        .get(&account.0)
                        .and_then(|balance| balance.0.get(&created.name.0))
                        .copied();
                    assert_eq!(rows.last().map(|row| row.balance), held);
                    let mut running: i128 = 0;
                    let mut last = 0;
                    for row in &rows {
                        assert!(row.transaction.id.0 > last);
                        last = row.transaction.id.0;
                        assert_eq!(events.get_transaction(&row.transaction.id), Some(row.transaction));
                        running += row.affect.mantissa();
                        assert_eq!(row.balance.mantissa(), running);
                    }
                }
            }
            Ok(())
        })
        .unwrap();
}
