//! The events of the ledger and the log that holds them.
//!
//! The log is append-only. An event enters it through [`Events::try_push`],
//! which holds the event against the log as it stands and commits it or
//! refuses it. Every log is therefore valid: each of its events passed
//! validation against the events before it.

use vstd::prelude::*;
use crate::entities::account;
use crate::entities::amount::NonNegativeAmount;
use crate::entities::date::Date;
use crate::entities::move_::MoveView;
use crate::entities::transaction;
use crate::entities::unit;
use crate::error::{
    EventValidateForAppendingToError, EventValidateForAppendingToErrorMoveAdded,
    EventValidateForAppendingToErrorMoveAddedUnit, LedgerError, MoveAddedErrorView,
    MoveAddedUnitErrorView, ValidationErrorView,
};
use crate::views::{accounts, transaction_count, units};

verus! {

/// A fact that happened.
#[derive(Debug, PartialEq, Eq)]
pub enum Event {
    AccountCreated(AccountCreated),
    TransactionRecorded(TransactionRecorded),
    UnitCreated(UnitCreated),
    MoveAdded(MoveAdded),
}

/// An account came into being.
#[derive(Clone, Debug, PartialEq, Eq)]
pub struct AccountCreated {
    pub name: account::Name,
    pub kind: account::Kind,
}

/// A transaction was recorded. Its identifier is its position among the
/// recorded transactions and is not stored.
#[derive(Debug, PartialEq, Eq, Clone)]
pub struct TransactionRecorded {
    pub date: Date,
}

/// A unit came into being.
#[derive(Clone, Debug, PartialEq, Eq)]
pub struct UnitCreated {
    pub name: unit::Name,
    pub decimal_places: u8,
}

/// An amount moved from the debit account to the credit account.
#[derive(Debug, PartialEq, Eq, Clone)]
pub struct MoveAdded {
    pub transaction: transaction::Id,
    pub debit_account: account::Name,
    pub credit_account: account::Name,
    pub amount: NonNegativeAmount,
    pub unit: unit::Name,
}

/// An [`Event`] with names as their characters and the amount as its
/// mantissa and scale.
pub ghost enum EventView {
    AccountCreated { name: Seq<char>, kind: account::Kind },
    TransactionRecorded { date: Date },
    UnitCreated { name: Seq<char>, decimal_places: u8 },
    MoveAdded(MoveView),
}

impl View for MoveAdded {
    type V = MoveView;

    open spec fn view(&self) -> MoveView {
        MoveView {
            transaction: self.transaction,
            debit_account: self.debit_account@,
            credit_account: self.credit_account@,
            amount: self.amount@,
            unit: self.unit@,
        }
    }
}

impl View for Event {
    type V = EventView;

    open spec fn view(&self) -> EventView {
        match *self {
            Event::AccountCreated(created) => EventView::AccountCreated {
                name: created.name@,
                kind: created.kind,
            },
            Event::TransactionRecorded(recorded) => EventView::TransactionRecorded {
                date: recorded.date,
            },
            Event::UnitCreated(created) => EventView::UnitCreated {
                name: created.name@,
                decimal_places: created.decimal_places,
            },
            Event::MoveAdded(added) => EventView::MoveAdded(added@),
        }
    }
}

/// What is wrong with the unit of a move, if anything: the unit is unknown,
/// or the amount is not written with the unit's number of fractional digits.
/// Of an unknown unit no scale is compared.
pub open spec fn unit_rejection(log: Seq<EventView>, added: MoveView) -> Option<
    MoveAddedUnitErrorView,
> {
    if !units(log).contains_key(added.unit) {
        Some(MoveAddedUnitErrorView::UnitNotFound(added.unit))
    } else if added.amount.scale != units(log)[added.unit].decimal_places {
        Some(
            MoveAddedUnitErrorView::DecimalPlacesMismatch {
                unit_scale: units(log)[added.unit].decimal_places,
                amount_scale: added.amount.scale as u32,
            },
        )
    } else {
        None
    }
}

/// Everything that is wrong with a move offered to `log`: the four things
/// are judged each for itself and reported together.
pub open spec fn move_rejection(log: Seq<EventView>, added: MoveView) -> MoveAddedErrorView {
    MoveAddedErrorView {
        transaction_not_found: if 1 <= added.transaction.0 <= transaction_count(log) {
            None
        } else {
            Some(added.transaction)
        },
        debit_account_not_found: if accounts(log).contains_key(added.debit_account) {
            None
        } else {
            Some(added.debit_account)
        },
        credit_account_not_found: if accounts(log).contains_key(added.credit_account) {
            None
        } else {
            Some(added.credit_account)
        },
        unit: unit_rejection(log, added),
    }
}

/// Why `event` may not be appended to `log`, or `None` where it may.
pub open spec fn rejection(log: Seq<EventView>, event: EventView) -> Option<ValidationErrorView> {
    match event {
        EventView::AccountCreated { name, .. } => if accounts(log).contains_key(name) {
            Some(ValidationErrorView::AccountCreatedNameCollision(name))
        } else {
            None
        },
        EventView::TransactionRecorded { .. } => None,
        EventView::UnitCreated { name, .. } => if units(log).contains_key(name) {
            Some(ValidationErrorView::UnitCreatedNameCollision(name))
        } else {
            None
        },
        EventView::MoveAdded(added) => if move_rejection(log, added)
            == MoveAddedErrorView::nothing() {
            None
        } else {
            Some(ValidationErrorView::MoveAdded(move_rejection(log, added)))
        },
    }
}

/// Whether every event of `log` could be appended to the events before it.
pub open spec fn valid_log(log: Seq<EventView>) -> bool {
    forall|i: int| 0 <= i < log.len() ==> rejection(log.take(i), #[trigger] log[i]) is None
}

/// A valid log stays valid when an event that it does not reject is appended.
pub proof fn lemma_valid_log_push(log: Seq<EventView>, event: EventView)
    requires
        valid_log(log),
        rejection(log, event) is None,
    ensures
        valid_log(log.push(event)),
{
    let longer = log.push(event);
    assert forall|i: int| 0 <= i < longer.len() implies rejection(
        longer.take(i),
        #[trigger] longer[i],
    ) is None by {
        if i < log.len() {
            assert(longer.take(i) =~= log.take(i));
            assert(longer[i] == log[i]);
        } else {
            assert(longer.take(i) =~= log);
        }
    }
}

/// The beginning of a valid log is a valid log.
pub proof fn lemma_valid_log_take(log: Seq<EventView>, n: int)
    requires
        valid_log(log),
        0 <= n <= log.len(),
    ensures
        valid_log(log.take(n)),
{
    let shorter = log.take(n);
    assert forall|i: int| 0 <= i < shorter.len() implies rejection(
        shorter.take(i),
        #[trigger] shorter[i],
    ) is None by {
        assert(shorter.take(i) =~= log.take(i));
        assert(shorter[i] == log[i]);
    }
}

/// Whether the event at place `i` is the first of `events` that the events
/// before it reject, and `cause` is why.
pub open spec fn first_rejection(events: Seq<EventView>, i: int, cause: ValidationErrorView) -> bool {
    &&& 0 <= i < events.len()
    &&& valid_log(events.take(i))
    &&& rejection(events.take(i), events[i]) == Some(cause)
}

/// The views of a sequence of events.
pub open spec fn event_views(events: Seq<Event>) -> Seq<EventView> {
    Seq::new(events.len(), |i: int| events[i]@)
}

impl Clone for Event {
    fn clone(&self) -> (event: Event)
        ensures
            event@ == self@,
    {
        match self {
            Event::AccountCreated(created) => Event::AccountCreated(
                AccountCreated { name: created.name.clone(), kind: created.kind },
            ),
            Event::TransactionRecorded(recorded) => Event::TransactionRecorded(
                TransactionRecorded { date: recorded.date },
            ),
            Event::UnitCreated(created) => Event::UnitCreated(
                UnitCreated { name: created.name.clone(), decimal_places: created.decimal_places },
            ),
            Event::MoveAdded(added) => Event::MoveAdded(
                MoveAdded {
                    transaction: added.transaction,
                    debit_account: added.debit_account.clone(),
                    credit_account: added.credit_account.clone(),
                    amount: added.amount,
                    unit: added.unit.clone(),
                },
            ),
        }
    }
}

/// The log: the events in the order in which they were appended.
#[derive(Debug, PartialEq, Eq)]
pub struct Events {
    log: Vec<Event>,
}

impl View for Events {
    type V = Seq<EventView>;

    closed spec fn view(&self) -> Seq<EventView> {
        event_views(self.log@)
    }
}

impl Default for Events {
    /// The empty log.
    fn default() -> (events: Events)
        ensures
            events@ == Seq::<EventView>::empty(),
    {
        let events = Events { log: Vec::new() };
        assert(events@ =~= Seq::<EventView>::empty());
        events
    }
}

impl Clone for Events {
    fn clone(&self) -> (events: Events)
        ensures
            events@ == self@,
    {
        proof {
            use_type_invariant(self);
        }
        let mut log: Vec<Event> = Vec::new();
        let mut i: usize = 0;
        while i < self.log.len()
            invariant
                i <= self.log@.len(),
                log@.len() == i,
                forall|j: int| 0 <= j < i ==> (#[trigger] log@[j])@ == self.log@[j]@,
            decreases self.log@.len() - i,
        {
            log.push(self.log[i].clone());
            i += 1;
        }
        assert(event_views(log@) =~= self@);
        Events { log }
    }
}

impl Events {
    #[verifier::type_invariant]
    spec fn valid(self) -> bool {
        valid_log(self@)
    }

    /// The number of events. Every log is valid.
    pub fn len(&self) -> (n: usize)
        ensures
            n == self@.len(),
            valid_log(self@),
    {
        proof {
            use_type_invariant(self);
        }
        self.log.len()
    }

    /// The `i`-th event.
    pub fn get(&self, i: usize) -> (event: &Event)
        requires
            i < self@.len(),
        ensures
            event@ == self@[i as int],
    {
        &self.log[i]
    }

    /// Appends `event` if the log as it stands accepts it, and leaves the log
    /// as it is if not.
    pub fn try_push(&mut self, event: Event) -> (r: Result<(), LedgerError>)
        ensures
            match rejection(old(self)@, event@) {
                None => {
                    &&& r is Ok
                    &&& final(self)@ == old(self)@.push(event@)
                    &&& final(self)@.len() == old(self)@.len() + 1
                    &&& final(self)@.last() == event@
                },
                Some(cause) => {
                    &&& r matches Err(LedgerError::EventValidateForAppendingTo(error))
                    &&& error@ == cause
                    &&& final(self)@ == old(self)@
                },
            },
    {
        proof {
            use_type_invariant(&*self);
        }
        match event.validate_for_appending_to(self) {
            Err(error) => Err(LedgerError::EventValidateForAppendingTo(error)),
            Ok(()) => {
                let ghost before = self@;
                let mut log: Vec<Event> = Vec::new();
                core::mem::swap(&mut self.log, &mut log);
                log.push(event);
                proof {
                    assert(event_views(log@) =~= before.push(event@));
                    lemma_valid_log_push(before, event@);
                }
                self.log = log;
                Ok(())
            },
        }
    }

    /// The log that holds `events` in their order, if each of them can be
    /// appended to those before it; else the refusal of the first that cannot.
    pub fn try_from_sequence(events: Vec<Event>) -> (r: Result<Events, LedgerError>)
        ensures
            match r {
                Ok(log) => valid_log(event_views(events@)) && log@ == event_views(events@),
                Err(error) => {
                    &&& error matches LedgerError::EventValidateForAppendingTo(cause)
                    &&& exists|i: int| #[trigger] first_rejection(event_views(events@), i, cause@)
                },
            },
    {
        let ghost all = event_views(events@);
        let mut validated = Events::default();
        for event in iter: events
            invariant
                all == event_views(iter.seq()),
                iter.seq() == events@,
                validated@ == all.take(iter.index() as int),
        {
            let ghost done = iter.index() as int;
            proof {
                use_type_invariant(&validated);
            }
            match validated.try_push(event) {
                Err(error) => {
                    proof {
                        assert(first_rejection(
                            all,
                            done,
                            rejection(all.take(done), all[done])->0,
                        ));
                    }
                    return Err(error);
                },
                Ok(()) => {
                    assert(validated@ =~= all.take(done + 1));
                },
            }
        }
        proof {
            use_type_invariant(&validated);
            assert(all.take(all.len() as int) =~= all);
        }
        Ok(validated)
    }
}

impl Event {
    /// Holds the event against `events` and says whether it may be appended:
    /// an account or a unit must be new, and a move must name a recorded
    /// transaction, two known accounts and a known unit, with an amount
    /// written with the unit's number of fractional digits.
    pub fn validate_for_appending_to(&self, events: &Events) -> (r: Result<
        (),
        EventValidateForAppendingToError,
    >)
        ensures
            match rejection(events@, self@) {
                None => r is Ok,
                Some(cause) => r matches Err(error) && error@ == cause,
            },
    {
        match self {
            Event::AccountCreated(created) => {
                let name_collision = events.all_accounts().contains_key(created.name.0.as_str());
                if name_collision {
                    Err(
                        EventValidateForAppendingToError::AccountCreatedNameCollision(
                            created.name.clone(),
                        ),
                    )
                } else {
                    Ok(())
                }
            },
            Event::TransactionRecorded(_) => Ok(()),
            Event::UnitCreated(created) => {
                let name_collision = events.all_units().contains_key(created.name.0.as_str());
                if name_collision {
                    Err(
                        EventValidateForAppendingToError::UnitCreatedNameCollision(
                            created.name.clone(),
                        ),
                    )
                } else {
                    Ok(())
                }
            },
            Event::MoveAdded(added) => {
                let mut error = EventValidateForAppendingToErrorMoveAdded::default();
                let mut rejected = false;
                let recorded = events.transaction_count();
                let transaction_found = 1 <= added.transaction.0 && added.transaction.0
                    <= recorded as u64;
                if !transaction_found {
                    error.transaction_not_found = Some(added.transaction);
                    rejected = true;
                }
                let accounts = events.all_accounts();
                if !accounts.contains_key(added.debit_account.0.as_str()) {
                    error.debit_account_not_found = Some(added.debit_account.clone());
                    rejected = true;
                }
                if !accounts.contains_key(added.credit_account.0.as_str()) {
                    error.credit_account_not_found = Some(added.credit_account.clone());
                    rejected = true;
                }
                match events.get_unit(&added.unit) {
                    None => {
                        error.unit = Some(
                            EventValidateForAppendingToErrorMoveAddedUnit::UnitNotFound(
                                added.unit.clone(),
                            ),
                        );
                        rejected = true;
                    },
                    Some(unit) => {
                        if added.amount.scale() != unit.decimal_places as u32 {
                            error.unit = Some(
                                EventValidateForAppendingToErrorMoveAddedUnit::DecimalPlacesMismatch {
                                    unit_scale: unit.decimal_places,
                                    amount_scale: added.amount.scale(),
                                },
                            );
                            rejected = true;
                        }
                    },
                }
                if rejected {
                    Err(EventValidateForAppendingToError::MoveAdded(error))
                } else {
                    Ok(())
                }
            },
        }
    }
}

} // verus!
