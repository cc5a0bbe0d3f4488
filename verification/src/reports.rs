//! The reports that can be asked of the log, and what each of them holds.
//! How a report is laid out as text is not decided here.

use vstd::prelude::*;
use crate::entities::amount::{Amount, AmountView};
use crate::entities::balance::Balance;
use crate::entities::date::Date;
use crate::entities::move_::{Move, MoveView};
use crate::entities::transaction::{Id, Transaction};
use crate::entities::{account, unit};
use crate::error::LedgerError;
use crate::events::{EventView, Events};
use crate::sorted_map::SortedMap;
use crate::views::{
    balances, move_views, moves, transaction, transaction_count, transaction_dates,
};

verus! {

/// One row of a running balance: a transaction in which the account took or
/// gave the unit, what the transaction did to the account in all, and what
/// the account held after it.
#[derive(Debug, Clone, Copy, PartialEq, Eq)]
pub struct RunningBalanceRow {
    pub transaction: Transaction,
    pub affect: Amount,
    pub balance: Amount,
}

/// A [`RunningBalanceRow`] with its amounts as mantissa and scale.
pub ghost struct RunningBalanceRowView {
    pub transaction: Transaction,
    pub affect: AmountView,
    pub balance: AmountView,
}

impl View for RunningBalanceRow {
    type V = RunningBalanceRowView;

    open spec fn view(&self) -> RunningBalanceRowView {
        RunningBalanceRowView {
            transaction: self.transaction,
            affect: self.affect@,
            balance: self.balance@,
        }
    }
}

/// The views of a sequence of rows.
pub open spec fn row_views(rows: Seq<RunningBalanceRow>) -> Seq<RunningBalanceRowView> {
    Seq::new(rows.len(), |i: int| rows[i]@)
}

/// A row while the moves of its transaction are gone through: whether a move
/// touched the account yet, what the moves did to it so far, and what it
/// holds.
pub ghost struct RowProgress {
    pub touched: bool,
    pub affect: AmountView,
    pub balance: AmountView,
}

/// Whether a move of the transaction `id` takes `unit` from `account` or
/// gives it to `account`.
pub open spec fn touches(one: MoveView, id: Id, account: Seq<char>, unit: Seq<char>) -> bool {
    &&& one.transaction == id
    &&& one.unit == unit
    &&& (one.debit_account == account || one.credit_account == account)
}

/// The row after `delta` was added to what the transaction did and to what
/// the account holds, or `None` where one of the two sums is not exact.
pub open spec fn row_adjusted(row: RowProgress, delta: AmountView) -> Option<RowProgress> {
    match (row.affect.exact_sum(delta), row.balance.exact_sum(delta)) {
        (Some(affect), Some(balance)) => Some(RowProgress { touched: true, affect, balance }),
        _ => None,
    }
}

/// The row after one more move was gone through. A move that does not touch
/// the account leaves the row as it is; one that does takes its amount away
/// where the account is debited, and adds it where the account is credited.
pub open spec fn row_step(
    row: RowProgress,
    one: MoveView,
    id: Id,
    account: Seq<char>,
    unit: Seq<char>,
) -> Option<RowProgress> {
    if !touches(one, id, account, unit) {
        Some(row)
    } else {
        let debited = if one.debit_account == account {
            row_adjusted(row, one.amount.negated())
        } else {
            Some(row)
        };
        match debited {
            Some(row) => if one.credit_account == account {
                row_adjusted(row, one.amount)
            } else {
                Some(row)
            },
            None => None,
        }
    }
}

/// The row after `moves` were gone through in their order.
pub open spec fn row_after(
    moves: Seq<MoveView>,
    start: RowProgress,
    id: Id,
    account: Seq<char>,
    unit: Seq<char>,
) -> Option<RowProgress>
    decreases moves.len(),
{
    if moves.len() == 0 {
        Some(start)
    } else {
        match row_after(moves.drop_last(), start, id, account, unit) {
            Some(row) => row_step(row, moves.last(), id, account, unit),
            None => None,
        }
    }
}

/// The rows found so far, with what the account holds after them.
pub ghost struct RowsProgress {
    pub rows: Seq<RunningBalanceRowView>,
    pub balance: AmountView,
}

/// The rows of the first `n` transactions of `log` in the order of their
/// identifiers, with what the account holds after them.
pub open spec fn rows_through(log: Seq<EventView>, n: nat, account: Seq<char>, unit: Seq<char>)
    -> Option<RowsProgress>
    decreases n,
{
    if n == 0 {
        Some(RowsProgress { rows: Seq::empty(), balance: AmountView::zero() })
    } else {
        match rows_through(log, (n - 1) as nat, account, unit) {
            None => None,
            Some(found) => match row_after(
                moves(log),
                RowProgress { touched: false, affect: AmountView::zero(), balance: found.balance },
                Id(n as u64),
                account,
                unit,
            ) {
                None => None,
                Some(row) => if row.touched {
                    Some(
                        RowsProgress {
                            rows: found.rows.push(
                                RunningBalanceRowView {
                                    transaction: Transaction {
                                        id: Id(n as u64),
                                        date: transaction_dates(log)[n - 1],
                                    },
                                    affect: row.affect,
                                    balance: row.balance,
                                },
                            ),
                            balance: row.balance,
                        },
                    )
                } else {
                    Some(found)
                },
            },
        }
    }
}

/// The running balance of `account` in `unit`: one row for each transaction
/// with a move that touches the account in that unit, in the order of the
/// transactions' identifiers; `None` where a sum on the way is not exact.
pub open spec fn running_balance(log: Seq<EventView>, account: Seq<char>, unit: Seq<char>)
    -> Option<Seq<RunningBalanceRowView>> {
    match rows_through(log, transaction_count(log), account, unit) {
        Some(found) => Some(found.rows),
        None => None,
    }
}

/// [`RowProgress`] as the scan holds it.
struct Row {
    touched: bool,
    affect: Amount,
    balance: Amount,
}

impl View for Row {
    type V = RowProgress;

    closed spec fn view(&self) -> RowProgress {
        RowProgress { touched: self.touched, affect: self.affect@, balance: self.balance@ }
    }
}

/// Adds `amount` to the row, or takes it away.
fn adjust_row(row: Row, amount: Amount, decrease: bool) -> (r: Option<Row>)
    ensures
        match row_adjusted(
            row@,
            if decrease {
                amount@.negated()
            } else {
                amount@
            },
        ) {
            Some(after) => r matches Some(done) && done@ == after,
            None => r is None,
        },
{
    let affect = if decrease {
        row.affect.checked_sub(amount)
    } else {
        row.affect.checked_add(amount)
    };
    let balance = if decrease {
        row.balance.checked_sub(amount)
    } else {
        row.balance.checked_add(amount)
    };
    match (affect, balance) {
        (Some(affect), Some(balance)) => Some(Row { touched: true, affect, balance }),
        _ => None,
    }
}

/// Goes through one more move.
fn step_row(row: Row, one: &Move, id: Id, account: &account::Name, unit: &unit::Name) -> (r:
    Option<Row>)
    ensures
        match row_step(row@, one@, id, account@, unit@) {
            Some(after) => r matches Some(done) && done@ == after,
            None => r is None,
        },
{
    let debit = one.debit_account.0 == account.0;
    let credit = one.credit_account.0 == account.0;
    if one.transaction.0 != id.0 || !(one.unit.0 == unit.0) || !(debit || credit) {
        return Some(row);
    }
    let amount = Amount::from(one.amount);
    let debited = if debit {
        adjust_row(row, amount, true)
    } else {
        Some(row)
    };
    match debited {
        Some(row) => if credit {
            adjust_row(row, amount, false)
        } else {
            Some(row)
        },
        None => None,
    }
}

/// Where the row is not exact after the first `n` moves, it is not after all
/// of them.
proof fn lemma_row_after_none(
    moves: Seq<MoveView>,
    n: int,
    start: RowProgress,
    id: Id,
    account: Seq<char>,
    unit: Seq<char>,
)
    requires
        0 <= n <= moves.len(),
    ensures
        row_after(moves.take(n), start, id, account, unit) is None ==> row_after(
            moves,
            start,
            id,
            account,
            unit,
        ) is None,
    decreases moves.len(),
{
    if n == moves.len() {
        assert(moves.take(n) =~= moves);
    } else {
        assert(moves.drop_last().take(n) =~= moves.take(n));
        lemma_row_after_none(moves.drop_last(), n, start, id, account, unit);
    }
}

/// Where the rows of the first `n` transactions are not exact, those of the
/// first `m >= n` are not either.
proof fn lemma_rows_through_none(
    log: Seq<EventView>,
    n: nat,
    m: nat,
    account: Seq<char>,
    unit: Seq<char>,
)
    requires
        n <= m,
    ensures
        rows_through(log, n, account, unit) is None ==> rows_through(log, m, account, unit)
            is None,
    decreases m,
{
    if n < m {
        lemma_rows_through_none(log, n, (m - 1) as nat, account, unit);
    }
}

impl Events {
    /// The running balance of `account` in `unit`: for each transaction with
    /// a move that takes the unit from the account or gives it to the
    /// account, in the order of the transactions' identifiers, what the
    /// transaction did to the account in all and what the account held after
    /// it. Fails where a sum on the way leaves the range in which sums are
    /// exact.
    pub fn running_balance(&self, account: &account::Name, unit: &unit::Name) -> (r: Result<
        Vec<RunningBalanceRow>,
        LedgerError,
    >)
        ensures
            match running_balance(self@, account@, unit@) {
                Some(rows) => r matches Ok(found) && row_views(found@) == rows,
                None => r matches Err(LedgerError::BalanceNotRepresentable),
            },
    {
        let added = self.all_moves();
        let count = self.transaction_count();
        let mut rows: Vec<RunningBalanceRow> = Vec::new();
        let mut balance = Amount::default();
        let mut n: usize = 0;
        assert(row_views(rows@) =~= Seq::<RunningBalanceRowView>::empty());
        while n < count
            invariant
                n <= count,
                count == transaction_count(self@),
                move_views(added@) == moves(self@),
                rows_through(self@, n as nat, account@, unit@) == Some(
                    RowsProgress { rows: row_views(rows@), balance: balance@ },
                ),
            decreases count - n,
        {
            let id = Id(n as u64 + 1);
            let ghost start = RowProgress {
                touched: false,
                affect: AmountView::zero(),
                balance: balance@,
            };
            let mut row = Row { touched: false, affect: Amount::default(), balance };
            let mut i: usize = 0;
            while i < added.len()
                invariant
                    i <= added@.len(),
                    n < count,
                    count == transaction_count(self@),
                    id == Id((n + 1) as u64),
                    move_views(added@) == moves(self@),
                    rows_through(self@, n as nat, account@, unit@) == Some(
                        RowsProgress { rows: row_views(rows@), balance: balance@ },
                    ),
                    start == (RowProgress {
                        touched: false,
                        affect: AmountView::zero(),
                        balance: balance@,
                    }),
                    row_after(move_views(added@).take(i as int), start, id, account@, unit@)
                        == Some(row@),
                decreases added@.len() - i,
            {
                proof {
                    assert(move_views(added@).take(i + 1).drop_last() =~= move_views(added@).take(
                        i as int,
                    ));
                    assert(move_views(added@).take(i + 1).last() == added@[i as int]@);
                    lemma_row_after_none(move_views(added@), i + 1, start, id, account@, unit@);
                    lemma_rows_through_none(
                        self@,
                        (n + 1) as nat,
                        transaction_count(self@),
                        account@,
                        unit@,
                    );
                }
                match step_row(row, &added[i], id, account, unit) {
                    Some(next) => {
                        row = next;
                    },
                    None => {
                        return Err(LedgerError::BalanceNotRepresentable);
                    },
                }
                i += 1;
            }
            proof {
                assert(move_views(added@).take(added@.len() as int) =~= move_views(added@));
            }
            if row.touched {
                match self.get_transaction(&id) {
                    Some(transaction) => {
                        let ghost before = rows@;
                        let found = RunningBalanceRow {
                            transaction,
                            affect: row.affect,
                            balance: row.balance,
                        };
                        rows.push(found);
                        balance = row.balance;
                        assert(row_views(rows@) =~= row_views(before).push(found@));
                    },
                    None => {
                        assert(false);
                    },
                }
            }
            n += 1;
        }
        Ok(rows)
    }
}

/// A report that can be asked of the log.
#[derive(Debug, PartialEq, Eq)]
pub enum Report {
    /// The identifier of the transaction that was recorded last.
    TransactionRecordResponse,
    /// What each account holds of each unit.
    Balances,
    /// The running balance of an account in a unit.
    RunningBalance { account: account::Name, unit: unit::Name },
    /// The date and the moves of a transaction.
    TransactionShow { id: Id },
}

/// A [`Report`] with names as their characters.
pub ghost enum ReportView {
    TransactionRecordResponse,
    Balances,
    RunningBalance { account: Seq<char>, unit: Seq<char> },
    TransactionShow { id: Id },
}

impl View for Report {
    type V = ReportView;

    open spec fn view(&self) -> ReportView {
        match *self {
            Report::TransactionRecordResponse => ReportView::TransactionRecordResponse,
            Report::Balances => ReportView::Balances,
            Report::RunningBalance { account, unit } => ReportView::RunningBalance {
                account: account@,
                unit: unit@,
            },
            Report::TransactionShow { id } => ReportView::TransactionShow { id },
        }
    }
}

/// What a report holds, ready to be laid out.
#[derive(Debug)]
pub enum Compiled {
    TransactionRecordResponse { id: Id },
    Balances(SortedMap<Balance>),
    RunningBalance(Vec<RunningBalanceRow>),
    TransactionShow { date: Date, moves: Vec<Move> },
}

/// The moves among `moves` that belong to the transaction `id`, in their
/// order.
pub open spec fn transaction_moves(moves: Seq<MoveView>, id: Id) -> Seq<MoveView>
    decreases moves.len(),
{
    if moves.len() == 0 {
        Seq::empty()
    } else if moves.last().transaction == id {
        transaction_moves(moves.drop_last(), id).push(moves.last())
    } else {
        transaction_moves(moves.drop_last(), id)
    }
}

/// The moves of the transaction `id` in log order.
fn moves_of(events: &Events, id: Id) -> (found: Vec<Move>)
    ensures
        move_views(found@) == transaction_moves(moves(events@), id),
{
    let added = events.all_moves();
    let mut found: Vec<Move> = Vec::new();
    let mut i: usize = 0;
    assert(move_views(added@).take(0) =~= Seq::<MoveView>::empty());
    assert(move_views(found@) =~= Seq::<MoveView>::empty());
    while i < added.len()
        invariant
            i <= added@.len(),
            move_views(added@) == moves(events@),
            move_views(found@) == transaction_moves(move_views(added@).take(i as int), id),
        decreases added@.len() - i,
    {
        proof {
            assert(move_views(added@).take(i + 1).drop_last() =~= move_views(added@).take(
                i as int,
            ));
            assert(move_views(added@).take(i + 1).last() == added@[i as int]@);
        }
        let one = &added[i];
        if one.transaction.0 == id.0 {
            let ghost before = found@;
            let copy = Move {
                transaction: one.transaction,
                debit_account: one.debit_account.clone(),
                credit_account: one.credit_account.clone(),
                amount: one.amount,
                unit: one.unit.clone(),
            };
            found.push(copy);
            assert(move_views(found@) =~= move_views(before).push(copy@));
        }
        i += 1;
    }
    proof {
        assert(move_views(added@).take(added@.len() as int) =~= move_views(added@));
    }
    found
}

impl Report {
    /// Gathers from `events` what the report holds. The response to a
    /// recorded transaction can be asked for only once a transaction has been
    /// recorded. A transaction that the log does not hold cannot be shown, and
    /// balances fail where a sum on the way is not exact.
    pub fn compile(&self, events: &Events) -> (r: Result<Compiled, LedgerError>)
        requires
            self is TransactionRecordResponse ==> transaction_count(events@) > 0,
        ensures
            match self@ {
                ReportView::TransactionRecordResponse => {
                    &&& r matches Ok(Compiled::TransactionRecordResponse { id })
                    &&& id.0 == transaction_count(events@)
                },
                ReportView::Balances => match balances(events@) {
                    Some(all) => r matches Ok(Compiled::Balances(held)) && held@ == all,
                    None => r matches Err(LedgerError::BalanceNotRepresentable),
                },
                ReportView::RunningBalance { account, unit } => match running_balance(
                    events@,
                    account,
                    unit,
                ) {
                    Some(rows) => r matches Ok(Compiled::RunningBalance(found)) && row_views(
                        found@,
                    ) == rows,
                    None => r matches Err(LedgerError::BalanceNotRepresentable),
                },
                ReportView::TransactionShow { id } => match transaction(events@, id) {
                    Some(shown) => {
                        &&& r matches Ok(Compiled::TransactionShow { date, moves: found })
                        &&& date == shown.date
                        &&& move_views(found@) == transaction_moves(moves(events@), id)
                    },
                    None => {
                        &&& r matches Err(
                            LedgerError::ReportTransactionShowTransactionNotFound(missing),
                        )
                        &&& missing == id
                    },
                },
            },
    {
        match self {
            Report::TransactionRecordResponse => Ok(
                Compiled::TransactionRecordResponse { id: events.last_transaction_id() },
            ),
            Report::Balances => match events.all_balances() {
                Ok(held) => Ok(Compiled::Balances(held)),
                Err(error) => Err(error),
            },
            Report::RunningBalance { account, unit } => match events.running_balance(
                account,
                unit,
            ) {
                Ok(found) => Ok(Compiled::RunningBalance(found)),
                Err(error) => Err(error),
            },
            Report::TransactionShow { id } => match events.get_transaction(id) {
                Some(shown) => Ok(
                    Compiled::TransactionShow { date: shown.date, moves: moves_of(events, *id) },
                ),
                None => Err(LedgerError::ReportTransactionShowTransactionNotFound(*id)),
            },
        }
    }
}

} // verus!
