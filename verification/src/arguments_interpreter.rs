//! From a request to what is to be done: an event to append, a report to
//! compile, or both.

use vstd::prelude::*;
use crate::cli;
use crate::entities::move_::MoveView;
use crate::error::LedgerError;
use crate::events::{self, Event, EventView};
use crate::reports::{Report, ReportView};

verus! {

/// What a request asks for.
#[derive(Debug, PartialEq, Eq)]
pub struct Actions {
    pub event: Option<Event>,
    pub report: Option<Report>,
}

/// [`Actions`] with the event and the report as their views.
pub ghost struct ActionsView {
    pub event: Option<EventView>,
    pub report: Option<ReportView>,
}

impl View for Actions {
    type V = ActionsView;

    open spec fn view(&self) -> ActionsView {
        ActionsView {
            event: match self.event {
                Some(event) => Some(event@),
                None => None,
            },
            report: match self.report {
                Some(report) => Some(report@),
                None => None,
            },
        }
    }
}

/// What the request `args` asks for, where it asks for something that can be
/// done; a move from an account to itself cannot.
pub open spec fn interpretation(args: cli::Arguments) -> Option<ActionsView> {
    match args.category {
        cli::Category::Account(cli::Account::Create(create)) => Some(
            ActionsView {
                event: Some(EventView::AccountCreated { name: create.name@, kind: create.kind }),
                report: None,
            },
        ),
        cli::Category::Transaction(cli::Transaction::Record(record)) => Some(
            ActionsView {
                event: Some(EventView::TransactionRecorded { date: record.date }),
                report: Some(ReportView::TransactionRecordResponse),
            },
        ),
        cli::Category::Transaction(cli::Transaction::Show(show)) => Some(
            ActionsView { event: None, report: Some(ReportView::TransactionShow { id: show.id }) },
        ),
        cli::Category::Unit(cli::Unit::Create(create)) => Some(
            ActionsView {
                event: Some(
                    EventView::UnitCreated {
                        name: create.name@,
                        decimal_places: create.decimal_places,
                    },
                ),
                report: None,
            },
        ),
        cli::Category::Move(cli::Move::Add(add)) => if add.debit_account@ == add.credit_account@ {
            None
        } else {
            Some(
                ActionsView {
                    event: Some(
                        EventView::MoveAdded(
                            MoveView {
                                transaction: add.transaction,
                                debit_account: add.debit_account@,
                                credit_account: add.credit_account@,
                                amount: add.amount@,
                                unit: add.unit@,
                            },
                        ),
                    ),
                    report: None,
                },
            )
        },
        cli::Category::Balances => Some(
            ActionsView { event: None, report: Some(ReportView::Balances) },
        ),
        cli::Category::RunningBalance(asked) => Some(
            ActionsView {
                event: None,
                report: Some(
                    ReportView::RunningBalance { account: asked.account@, unit: asked.unit@ },
                ),
            },
        ),
    }
}

/// Says what a request asks for. A move from an account to itself is refused
/// here, before it becomes an event.
pub fn interpret(args: cli::Arguments) -> (r: Result<Actions, LedgerError>)
    ensures
        match interpretation(args) {
            Some(asked) => r matches Ok(actions) && actions@ == asked,
            None => {
                &&& args.category matches cli::Category::Move(cli::Move::Add(add))
                &&& r matches Err(LedgerError::ArgumentsInterpreterMoveAddSameAccount(name))
                &&& name@ == add.debit_account@
            },
        },
{
    match args.category {
        cli::Category::Account(cli::Account::Create(cli::AccountCreate { kind, name })) => {
            Ok(
                Actions {
                    event: Some(Event::AccountCreated(events::AccountCreated { name, kind })),
                    report: None,
                },
            )
        },
        cli::Category::Transaction(cli::Transaction::Record(cli::TransactionRecord { date })) => {
            Ok(
                Actions {
                    event: Some(Event::TransactionRecorded(events::TransactionRecorded { date })),
                    report: Some(Report::TransactionRecordResponse),
                },
            )
        },
        cli::Category::Transaction(cli::Transaction::Show(cli::TransactionShow { id })) => {
            Ok(Actions { event: None, report: Some(Report::TransactionShow { id }) })
        },
        cli::Category::Unit(cli::Unit::Create(cli::UnitCreate { name, decimal_places })) => Ok(
            Actions {
                event: Some(Event::UnitCreated(events::UnitCreated { name, decimal_places })),
                report: None,
            },
        ),
        cli::Category::Move(
            cli::Move::Add(
                cli::MoveAdd { transaction, debit_account, credit_account, amount, unit },
            ),
        ) => {
            if debit_account.0 == credit_account.0 {
                return Err(LedgerError::ArgumentsInterpreterMoveAddSameAccount(debit_account));
            }
            Ok(
                Actions {
                    event: Some(
                        Event::MoveAdded(
                            events::MoveAdded {
                                transaction,
                                debit_account,
                                credit_account,
                                amount,
                                unit,
                            },
                        ),
                    ),
                    report: None,
                },
            )
        },
        cli::Category::Balances => Ok(Actions { event: None, report: Some(Report::Balances) }),
        cli::Category::RunningBalance(cli::RunningBalance { account, unit }) => Ok(
            Actions { event: None, report: Some(Report::RunningBalance { account, unit }) },
        ),
    }
}

} // verus!
