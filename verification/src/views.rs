//! What the log says when it is read: accounts, units, transactions, moves
//! and balances. Nothing here is stored; every answer is computed from the
//! events by a scan of the whole log.

use vstd::prelude::*;
use crate::entities::account::{Account, AccountView};
use crate::entities::amount::{Amount, AmountView};
use crate::entities::balance::Balance;
use crate::entities::date::Date;
use crate::entities::move_::{Move, MoveView};
use crate::entities::transaction::{Id, Transaction};
use crate::entities::unit::{Unit, UnitView};
use crate::entities::{account, unit};
use crate::error::LedgerError;
use crate::events::{Event, EventView, Events};
use crate::sorted_map::{key_before, SortedMap};

verus! {

/// The accounts that `log` creates, by name. Of two accounts of one name the
/// later one stands.
pub open spec fn accounts(log: Seq<EventView>) -> Map<Seq<char>, AccountView>
    decreases log.len(),
{
    if log.len() == 0 {
        Map::empty()
    } else {
        match log.last() {
            EventView::AccountCreated { name, kind } => accounts(log.drop_last()).insert(
                name,
                AccountView { kind, name },
            ),
            _ => accounts(log.drop_last()),
        }
    }
}

/// The units that `log` creates, by name. Of two units of one name the later
/// one stands.
pub open spec fn units(log: Seq<EventView>) -> Map<Seq<char>, UnitView>
    decreases log.len(),
{
    if log.len() == 0 {
        Map::empty()
    } else {
        match log.last() {
            EventView::UnitCreated { name, decimal_places } => units(log.drop_last()).insert(
                name,
                UnitView { name, decimal_places },
            ),
            _ => units(log.drop_last()),
        }
    }
}

/// The dates of the transactions that `log` records, in log order.
pub open spec fn transaction_dates(log: Seq<EventView>) -> Seq<Date>
    decreases log.len(),
{
    if log.len() == 0 {
        Seq::empty()
    } else {
        match log.last() {
            EventView::TransactionRecorded { date } => transaction_dates(log.drop_last()).push(
                date,
            ),
            _ => transaction_dates(log.drop_last()),
        }
    }
}

/// The number of transactions that `log` records.
pub open spec fn transaction_count(log: Seq<EventView>) -> nat {
    transaction_dates(log).len()
}

/// The transaction that `id` identifies in `log`: the one at that position,
/// counted from one, among the recorded transactions.
pub open spec fn transaction(log: Seq<EventView>, id: Id) -> Option<Transaction> {
    if 1 <= id.0 <= transaction_count(log) {
        Some(Transaction { id, date: transaction_dates(log)[id.0 - 1] })
    } else {
        None
    }
}

/// The moves that `log` adds, in log order.
pub open spec fn moves(log: Seq<EventView>) -> Seq<MoveView>
    decreases log.len(),
{
    if log.len() == 0 {
        Seq::empty()
    } else {
        match log.last() {
            EventView::MoveAdded(added) => moves(log.drop_last()).push(added),
            _ => moves(log.drop_last()),
        }
    }
}

/// The views of a sequence of moves.
pub open spec fn move_views(moves: Seq<Move>) -> Seq<MoveView> {
    Seq::new(moves.len(), |i: int| moves[i]@)
}

/// What `account` holds of `unit` according to `balances`: nothing where
/// the account or the unit does not occur.
pub open spec fn amount_in(
    balances: Map<Seq<char>, Map<Seq<char>, AmountView>>,
    account: Seq<char>,
    unit: Seq<char>,
) -> AmountView {
    if balances.contains_key(account) && balances[account].contains_key(unit) {
        balances[account][unit]
    } else {
        AmountView::zero()
    }
}

/// `balances` after `delta` was added to what `account` holds of `unit`, or
/// `None` where that sum is not exact.
pub open spec fn adjusted(
    balances: Map<Seq<char>, Map<Seq<char>, AmountView>>,
    account: Seq<char>,
    unit: Seq<char>,
    delta: AmountView,
) -> Option<Map<Seq<char>, Map<Seq<char>, AmountView>>> {
    match amount_in(balances, account, unit).exact_sum(delta) {
        Some(amount) => Some(
            balances.insert(
                account,
                if balances.contains_key(account) {
                    balances[account].insert(unit, amount)
                } else {
                    Map::<Seq<char>, AmountView>::empty().insert(unit, amount)
                },
            ),
        ),
        None => None,
    }
}

/// `balances` after one move: the debit account holds less of the unit by the
/// amount, then the credit account holds more of it by the same amount.
pub open spec fn moved(balances: Map<Seq<char>, Map<Seq<char>, AmountView>>, one: MoveView)
    -> Option<Map<Seq<char>, Map<Seq<char>, AmountView>>> {
    match adjusted(balances, one.debit_account, one.unit, one.amount.negated()) {
        Some(debited) => adjusted(debited, one.credit_account, one.unit, one.amount),
        None => None,
    }
}

/// The balances after `moves`, each applied in its turn to the balances
/// before it, starting from none; `None` where a sum on the way is not exact.
pub open spec fn balances_after(moves: Seq<MoveView>) -> Option<
    Map<Seq<char>, Map<Seq<char>, AmountView>>,
>
    decreases moves.len(),
{
    if moves.len() == 0 {
        Some(Map::empty())
    } else {
        match balances_after(moves.drop_last()) {
            Some(balances) => moved(balances, moves.last()),
            None => None,
        }
    }
}

/// What each account holds of each unit after all the moves of `log`.
pub open spec fn balances(log: Seq<EventView>) -> Option<
    Map<Seq<char>, Map<Seq<char>, AmountView>>,
> {
    balances_after(moves(log))
}

/// Adds `amount` to what `account` holds of `unit`, or takes it away.
fn adjust(
    balances: SortedMap<Balance>,
    account: &account::Name,
    unit: &unit::Name,
    amount: Amount,
    decrease: bool,
) -> (r: Option<SortedMap<Balance>>)
    ensures
        match adjusted(
            balances@,
            account@,
            unit@,
            if decrease {
                amount@.negated()
            } else {
                amount@
            },
        ) {
            Some(after) => r matches Some(done) && done@ == after,
            None => r is None,
        },
{
    let mut balances = balances;
    let ghost before = balances@;
    let mut balance = match balances.remove(account.0.as_str()) {
        Some(balance) => balance,
        None => Balance::default(),
    };
    let current = match balance.0.get(unit.0.as_str()) {
        Some(amount) => *amount,
        None => Amount::default(),
    };
    assert(current@ == amount_in(before, account@, unit@));
    let next = if decrease {
        current.checked_sub(amount)
    } else {
        current.checked_add(amount)
    };
    match next {
        Some(held) => {
            balance.0.insert(unit.0.clone(), held);
            balances.insert(account.0.clone(), balance);
            assert(balances@ =~= adjusted(
                before,
                account@,
                unit@,
                if decrease {
                    amount@.negated()
                } else {
                    amount@
                },
            )->0);
            Some(balances)
        },
        None => None,
    }
}

impl Events {
    /// The names of the accounts, each once, in ascending order.
    pub fn all_account_names(&self) -> (names: Vec<account::Name>)
        ensures
            names@.len() == accounts(self@).len(),
            forall|i: int, j: int|
                0 <= i < j < names@.len() ==> key_before(
                    (#[trigger] names@[i])@,
                    (#[trigger] names@[j])@,
                ),
            forall|name: Seq<char>|
                accounts(self@).contains_key(name) <==> exists|i: int|
                    0 <= i < names@.len() && (#[trigger] names@[i])@ == name,
    {
        let accounts = self.all_accounts();
        let mut names: Vec<account::Name> = Vec::new();
        let n = accounts.len();
        let mut i: usize = 0;
        while i < n
            invariant
                i <= n,
                n == accounts.pairs().len(),
                names@.len() == i,
                forall|j: int| 0 <= j < i ==> (#[trigger] names@[j])@ == accounts.pairs()[j].0,
            decreases n - i,
        {
            names.push(account::Name(accounts.key_at(i).clone()));
            i += 1;
        }
        proof {
            crate::sorted_map::lemma_lookup_len(accounts.pairs());
            assert forall|name: Seq<char>|
                accounts@.contains_key(name) <==> exists|i: int|
                    0 <= i < names@.len() && (#[trigger] names@[i])@ == name by {
                if accounts@.contains_key(name) {
                    let j = crate::sorted_map::place_of(accounts.pairs(), name);
                    assert(names@[j]@ == name);
                }
                if exists|i: int| 0 <= i < names@.len() && (#[trigger] names@[i])@ == name {
                    let j = choose|i: int| 0 <= i < names@.len() && (#[trigger] names@[i])@ == name;
                    assert(accounts.pairs()[j].0 == name);
                }
            }
        }
        names
    }

    /// The accounts by name.
    pub fn all_accounts(&self) -> (all: SortedMap<Account>)
        ensures
            all@ == accounts(self@),
    {
        let mut all: SortedMap<Account> = SortedMap::new();
        let n = self.len();
        let mut i: usize = 0;
        while i < n
            invariant
                i <= n,
                n == self@.len(),
                all@ == accounts(self@.take(i as int)),
            decreases n - i,
        {
            proof {
                assert(self@.take(i + 1).drop_last() =~= self@.take(i as int));
            }
            match self.get(i) {
                Event::AccountCreated(created) => {
                    all.insert(
                        created.name.0.clone(),
                        Account { _kind: created.kind, _name: created.name.clone() },
                    );
                },
                _ => {},
            }
            i += 1;
        }
        proof {
            assert(self@.take(n as int) =~= self@);
        }
        all
    }

    /// The names of the units, each once, in ascending order.
    pub fn all_unit_names(&self) -> (names: Vec<unit::Name>)
        ensures
            names@.len() == units(self@).len(),
            forall|i: int, j: int|
                0 <= i < j < names@.len() ==> key_before(
                    (#[trigger] names@[i])@,
                    (#[trigger] names@[j])@,
                ),
            forall|name: Seq<char>|
                units(self@).contains_key(name) <==> exists|i: int|
                    0 <= i < names@.len() && (#[trigger] names@[i])@ == name,
    {
        let units = self.all_units();
        let mut names: Vec<unit::Name> = Vec::new();
        let n = units.len();
        let mut i: usize = 0;
        while i < n
            invariant
                i <= n,
                n == units.pairs().len(),
                names@.len() == i,
                forall|j: int| 0 <= j < i ==> (#[trigger] names@[j])@ == units.pairs()[j].0,
            decreases n - i,
        {
            names.push(unit::Name(units.key_at(i).clone()));
            i += 1;
        }
        proof {
            crate::sorted_map::lemma_lookup_len(units.pairs());
            assert forall|name: Seq<char>|
                units@.contains_key(name) <==> exists|i: int|
                    0 <= i < names@.len() && (#[trigger] names@[i])@ == name by {
                if units@.contains_key(name) {
                    let j = crate::sorted_map::place_of(units.pairs(), name);
                    assert(names@[j]@ == name);
                }
                if exists|i: int| 0 <= i < names@.len() && (#[trigger] names@[i])@ == name {
                    let j = choose|i: int| 0 <= i < names@.len() && (#[trigger] names@[i])@ == name;
                    assert(units.pairs()[j].0 == name);
                }
            }
        }
        names
    }

    /// The units by name.
    pub fn all_units(&self) -> (all: SortedMap<Unit>)
        ensures
            all@ == units(self@),
    {
        let mut all: SortedMap<Unit> = SortedMap::new();
        let n = self.len();
        let mut i: usize = 0;
        while i < n
            invariant
                i <= n,
                n == self@.len(),
                all@ == units(self@.take(i as int)),
            decreases n - i,
        {
            proof {
                assert(self@.take(i + 1).drop_last() =~= self@.take(i as int));
            }
            match self.get(i) {
                Event::UnitCreated(created) => {
                    all.insert(
                        created.name.0.clone(),
                        Unit { _name: created.name.clone(), decimal_places: created.decimal_places },
                    );
                },
                _ => {},
            }
            i += 1;
        }
        proof {
            assert(self@.take(n as int) =~= self@);
        }
        all
    }

    /// The number of recorded transactions.
    pub fn transaction_count(&self) -> (count: usize)
        ensures
            count == transaction_count(self@),
    {
        let n = self.len();
        let mut count: usize = 0;
        let mut i: usize = 0;
        while i < n
            invariant
                i <= n,
                n == self@.len(),
                count <= i,
                count == transaction_count(self@.take(i as int)),
            decreases n - i,
        {
            proof {
                assert(self@.take(i + 1).drop_last() =~= self@.take(i as int));
            }
            match self.get(i) {
                Event::TransactionRecorded(_) => {
                    count += 1;
                },
                _ => {},
            }
            i += 1;
        }
        proof {
            assert(self@.take(n as int) =~= self@);
        }
        count
    }

    /// The identifiers of the recorded transactions: the numbers from one to
    /// their count.
    pub fn all_transaction_ids(&self) -> (ids: Vec<Id>)
        ensures
            ids@.len() == transaction_count(self@),
            forall|i: int| 0 <= i < ids@.len() ==> (#[trigger] ids@[i]).0 == i + 1,
    {
        let count = self.transaction_count();
        let mut ids: Vec<Id> = Vec::new();
        let mut i: usize = 0;
        while i < count
            invariant
                i <= count,
                ids@.len() == i,
                forall|j: int| 0 <= j < i ==> (#[trigger] ids@[j]).0 == j + 1,
            decreases count - i,
        {
            ids.push(Id(i as u64 + 1));
            i += 1;
        }
        ids
    }

    /// The unit of the given name, if the log creates one.
    pub fn get_unit(&self, unit_name: &unit::Name) -> (found: Option<Unit>)
        ensures
            match found {
                Some(unit) => units(self@).contains_key(unit_name@) && unit@ == units(
                    self@,
                )[unit_name@],
                None => !units(self@).contains_key(unit_name@),
            },
    {
        let mut all = self.all_units();
        let found = all.remove(unit_name.0.as_str());
        found
    }

    /// The moves in log order.
    pub fn all_moves(&self) -> (all: Vec<Move>)
        ensures
            move_views(all@) == moves(self@),
    {
        let mut all: Vec<Move> = Vec::new();
        let n = self.len();
        let mut i: usize = 0;
        while i < n
            invariant
                i <= n,
                n == self@.len(),
                move_views(all@) == moves(self@.take(i as int)),
            decreases n - i,
        {
            proof {
                assert(self@.take(i + 1).drop_last() =~= self@.take(i as int));
            }
            let ghost before = all@;
            match self.get(i) {
                Event::MoveAdded(added) => {
                    let one = Move {
                        transaction: added.transaction,
                        debit_account: added.debit_account.clone(),
                        credit_account: added.credit_account.clone(),
                        amount: added.amount,
                        unit: added.unit.clone(),
                    };
                    all.push(one);
                    assert(move_views(all@) =~= move_views(before).push(one@));
                },
                _ => {},
            }
            i += 1;
        }
        proof {
            assert(self@.take(n as int) =~= self@);
        }
        all
    }

    /// The transaction that `transaction_id` identifies, if there is one.
    pub fn get_transaction(&self, transaction_id: &Id) -> (found: Option<Transaction>)
        ensures
            found == transaction(self@, *transaction_id),
    {
        if transaction_id.0 == 0 {
            return None;
        }
        let n = self.len();
        let mut seen: u64 = 0;
        let mut i: usize = 0;
        proof {
            assert(transaction_dates(self@).take(0) =~= Seq::<Date>::empty());
        }
        while i < n
            invariant
                i <= n,
                n == self@.len(),
                seen <= i,
                seen == transaction_count(self@.take(i as int)),
                seen < transaction_id.0,
                transaction_dates(self@.take(i as int)) == transaction_dates(self@).take(
                    seen as int,
                ),
                seen <= transaction_count(self@),
            decreases n - i,
        {
            proof {
                assert(self@.take(i + 1).drop_last() =~= self@.take(i as int));
                lemma_transaction_dates_prefix(self@, i + 1);
            }
            match self.get(i) {
                Event::TransactionRecorded(recorded) => {
                    let current_id = Id(seen + 1);
                    if current_id.0 == transaction_id.0 {
                        proof {
                            assert(transaction_dates(self@.take(i + 1))[seen as int]
                                == recorded.date);
                        }
                        return Some(Transaction { id: current_id, date: recorded.date });
                    }
                    seen += 1;
                },
                _ => {},
            }
            i += 1;
        }
        proof {
            assert(self@.take(n as int) =~= self@);
        }
        None
    }

    /// What each account holds of each unit: every move takes its amount
    /// from the debit account and gives it to the credit account. Fails where
    /// a balance on the way leaves the range in which sums are exact.
    pub fn all_balances(&self) -> (r: Result<SortedMap<Balance>, LedgerError>)
        ensures
            match balances(self@) {
                Some(all) => r matches Ok(held) && held@ == all,
                None => r matches Err(LedgerError::BalanceNotRepresentable),
            },
    {
        let added = self.all_moves();
        let mut all: SortedMap<Balance> = SortedMap::new();
        let n = added.len();
        let mut i: usize = 0;
        while i < n
            invariant
                i <= n,
                n == added@.len(),
                move_views(added@) == moves(self@),
                balances_after(move_views(added@).take(i as int)) == Some(all@),
            decreases n - i,
        {
            let one = &added[i];
            proof {
                assert(move_views(added@).take(i + 1).drop_last() =~= move_views(added@).take(
                    i as int,
                ));
                assert(move_views(added@).take(i + 1).last() == one@);
                lemma_balances_after_none(move_views(added@), i + 1);
            }
            let amount = Amount::from(one.amount);
            match adjust(all, &one.debit_account, &one.unit, amount, true) {
                None => {
                    return Err(LedgerError::BalanceNotRepresentable);
                },
                Some(debited) => match adjust(
                    debited,
                    &one.credit_account,
                    &one.unit,
                    amount,
                    false,
                ) {
                    None => {
                        return Err(LedgerError::BalanceNotRepresentable);
                    },
                    Some(credited) => {
                        all = credited;
                    },
                },
            }
            i += 1;
        }
        proof {
            assert(move_views(added@).take(n as int) =~= move_views(added@));
        }
        Ok(all)
    }

    /// The identifier of the transaction that was recorded last.
    pub fn last_transaction_id(&self) -> (id: Id)
        requires
            transaction_count(self@) > 0,
        ensures
            id.0 == transaction_count(self@),
    {
        Id(self.transaction_count() as u64)
    }
}

/// Where the balances after the first `n` moves are not exact, those after
/// all the moves are not either.
pub proof fn lemma_balances_after_none(moves: Seq<MoveView>, n: int)
    requires
        0 <= n <= moves.len(),
    ensures
        balances_after(moves.take(n)) is None ==> balances_after(moves) is None,
    decreases moves.len(),
{
    if n == moves.len() {
        assert(moves.take(n) =~= moves);
    } else {
        assert(moves.drop_last().take(n) =~= moves.take(n));
        lemma_balances_after_none(moves.drop_last(), n);
    }
}

/// The transactions of the beginning of a log are the first of the log's.
pub proof fn lemma_transaction_dates_prefix(log: Seq<EventView>, n: int)
    requires
        0 <= n <= log.len(),
    ensures
        transaction_count(log.take(n)) <= transaction_count(log),
        transaction_dates(log.take(n)) == transaction_dates(log).take(
            transaction_count(log.take(n)) as int,
        ),
    decreases log.len(),
{
    if n == log.len() {
        assert(log.take(n) =~= log);
        assert(transaction_dates(log).take(transaction_count(log) as int) =~= transaction_dates(
            log,
        ));
    } else {
        lemma_transaction_dates_prefix(log.drop_last(), n);
        assert(log.drop_last().take(n) =~= log.take(n));
        let shorter = transaction_dates(log.drop_last());
        let k = transaction_count(log.take(n)) as int;
        assert(transaction_dates(log).take(k) =~= shorter.take(k));
    }
}

} // verus!
