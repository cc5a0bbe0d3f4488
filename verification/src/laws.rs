//! What holds of every log, proved from the definitions of validation and of
//! the projections.

use vstd::prelude::*;
use vstd::set::fold::*;
use crate::entities::amount::AmountView;
use crate::entities::move_::MoveView;
use crate::entities::transaction::Id;
use crate::error::{MoveAddedErrorView, MoveAddedUnitErrorView, ValidationErrorView};
use crate::events::{
    lemma_valid_log_take, move_rejection, rejection, unit_rejection, valid_log, EventView,
};
use crate::entities::transaction::Transaction;
use crate::reports::{
    row_after, rows_through, running_balance, RowProgress, RunningBalanceRowView,
};
use crate::views::{
    accounts, adjusted, amount_in, balances, balances_after, lemma_transaction_dates_prefix, moved,
    moves, transaction, transaction_count, transaction_dates, units,
};

verus! {

/// Adds what `f` gives for a key to a running total.
pub open spec fn adder(f: spec_fn(Seq<char>) -> int) -> spec_fn(int, Seq<char>) -> int {
    |total: int, key: Seq<char>| total + f(key)
}

/// The sum of what `f` gives for each key of a finite set.
pub open spec fn sum_over(keys: Set<Seq<char>>, f: spec_fn(Seq<char>) -> int) -> int {
    keys.fold(0int, adder(f))
}

/// One more key adds what `f` gives for it.
proof fn lemma_sum_insert(keys: Set<Seq<char>>, f: spec_fn(Seq<char>) -> int, key: Seq<char>)
    requires
        keys.finite(),
        !keys.contains(key),
    ensures
        sum_over(keys.insert(key), f) == sum_over(keys, f) + f(key),
{
    assert(is_fun_commutative(adder(f)));
    lemma_fold_insert(keys, 0int, adder(f), key);
}

/// Two functions that agree on every key have the same sum.
proof fn lemma_sum_same(
    keys: Set<Seq<char>>,
    f: spec_fn(Seq<char>) -> int,
    g: spec_fn(Seq<char>) -> int,
)
    requires
        keys.finite(),
        forall|key: Seq<char>| keys.contains(key) ==> f(key) == g(key),
    ensures
        sum_over(keys, f) == sum_over(keys, g),
    decreases keys.len(),
{
    if keys =~= Set::empty() {
        lemma_fold_empty::<Seq<char>, int>(0int, adder(f));
        lemma_fold_empty::<Seq<char>, int>(0int, adder(g));
    } else {
        let key = keys.choose();
        let rest = keys.remove(key);
        lemma_sum_same(rest, f, g);
        lemma_sum_insert(rest, f, key);
        lemma_sum_insert(rest, g, key);
        assert(rest.insert(key) =~= keys);
    }
}

/// What each account holds of `unit`, as a whole number of the unit's
/// smallest parts.
pub open spec fn held(balances: Map<Seq<char>, Map<Seq<char>, AmountView>>, unit: Seq<char>)
    -> spec_fn(Seq<char>) -> int {
    |account: Seq<char>| amount_in(balances, account, unit).mantissa
}

/// What all the accounts together hold of `unit`.
pub open spec fn unit_total(balances: Map<Seq<char>, Map<Seq<char>, AmountView>>, unit: Seq<char>)
    -> int {
    sum_over(balances.dom(), held(balances, unit))
}

/// Adding to what one account holds of a unit adds as much to what all hold
/// of that unit, and nothing to what they hold of another.
proof fn lemma_adjusted_total(
    balances: Map<Seq<char>, Map<Seq<char>, AmountView>>,
    account: Seq<char>,
    changed: Seq<char>,
    delta: AmountView,
    unit: Seq<char>,
)
    requires
        balances.dom().finite(),
        adjusted(balances, account, changed, delta) is Some,
    ensures
        adjusted(balances, account, changed, delta)->0.dom().finite(),
        unit_total(adjusted(balances, account, changed, delta)->0, unit) == unit_total(
            balances,
            unit,
        ) + if changed == unit {
            delta.mantissa
        } else {
            0
        },
{
    let after = adjusted(balances, account, changed, delta)->0;
    let f = held(balances, unit);
    let g = held(after, unit);
    let rest = balances.dom().remove(account);
    assert(after.dom() =~= balances.dom().insert(account));
    assert(rest.insert(account) =~= after.dom());
    lemma_sum_same(rest, f, g);
    lemma_sum_insert(rest, g, account);
    if balances.dom().contains(account) {
        lemma_sum_insert(rest, f, account);
        assert(rest.insert(account) =~= balances.dom());
    } else {
        assert(rest =~= balances.dom());
    }
}

/// A move changes nothing in what all the accounts together hold of a unit.
proof fn lemma_moved_total(
    balances: Map<Seq<char>, Map<Seq<char>, AmountView>>,
    one: MoveView,
    unit: Seq<char>,
)
    requires
        balances.dom().finite(),
        moved(balances, one) is Some,
    ensures
        moved(balances, one)->0.dom().finite(),
        unit_total(moved(balances, one)->0, unit) == unit_total(balances, unit),
{
    let debited = adjusted(balances, one.debit_account, one.unit, one.amount.negated())->0;
    lemma_adjusted_total(balances, one.debit_account, one.unit, one.amount.negated(), unit);
    lemma_adjusted_total(debited, one.credit_account, one.unit, one.amount, unit);
}

/// After any moves all the accounts together hold nothing of any unit.
pub proof fn lemma_balances_after_total(moves: Seq<MoveView>, unit: Seq<char>)
    requires
        balances_after(moves) is Some,
    ensures
        balances_after(moves)->0.dom().finite(),
        unit_total(balances_after(moves)->0, unit) == 0,
    decreases moves.len(),
{
    if moves.len() == 0 {
        lemma_fold_empty::<Seq<char>, int>(
            0int,
            adder(held(Map::<Seq<char>, Map<Seq<char>, AmountView>>::empty(), unit)),
        );
    } else {
        lemma_balances_after_total(moves.drop_last(), unit);
        lemma_moved_total(balances_after(moves.drop_last())->0, moves.last(), unit);
    }
}

/// Whether every move of `log` has a known unit and an amount written with
/// that unit's number of fractional digits.
pub open spec fn scales_agree(log: Seq<EventView>) -> bool {
    forall|i: int|
        0 <= i < moves(log).len() ==> {
            &&& units(log).contains_key((#[trigger] moves(log)[i]).unit)
            &&& moves(log)[i].amount.scale == units(log)[moves(log)[i].unit].decimal_places
        }
}

/// In a valid log every move is written with its unit's number of fractional
/// digits: the move was held against the unit when it was appended, and no
/// later event can change a unit.
pub proof fn lemma_valid_log_scales(log: Seq<EventView>)
    requires
        valid_log(log),
    ensures
        scales_agree(log),
    decreases log.len(),
{
    if log.len() > 0 {
        let before = log.drop_last();
        assert(before =~= log.take(log.len() - 1));
        lemma_valid_log_take(log, log.len() - 1);
        lemma_valid_log_scales(before);
        assert(rejection(log.take(log.len() - 1), log[log.len() - 1]) is None);
        match log.last() {
            EventView::MoveAdded(added) => {
                assert(move_rejection(before, added) == MoveAddedErrorView::nothing());
            },
            _ => {},
        }
        assert forall|i: int| 0 <= i < moves(log).len() implies {
            &&& units(log).contains_key((#[trigger] moves(log)[i]).unit)
            &&& moves(log)[i].amount.scale == units(log)[moves(log)[i].unit].decimal_places
        } by {
            if i < moves(before).len() {
                assert(moves(log)[i] == moves(before)[i]);
            }
        }
    }
}

/// Where every move in `unit` is written with `places` fractional digits,
/// every balance in that unit is.
pub proof fn lemma_balances_after_scale(moves: Seq<MoveView>, unit: Seq<char>, places: nat)
    requires
        balances_after(moves) is Some,
        forall|i: int| 0 <= i < moves.len() && (#[trigger] moves[i]).unit == unit
            ==> moves[i].amount.scale == places,
    ensures
        forall|account: Seq<char>|
            (#[trigger] balances_after(moves)->0.contains_key(account)) && balances_after(
                moves,
            )->0[account].contains_key(unit) ==> balances_after(moves)->0[account][unit].scale
                == places,
    decreases moves.len(),
{
    if moves.len() > 0 {
        let before = moves.drop_last();
        assert forall|i: int| 0 <= i < before.len() && (#[trigger] before[i]).unit
            == unit implies before[i].amount.scale == places by {
            assert(before[i] == moves[i]);
        }
        lemma_balances_after_scale(before, unit, places);
        let one = moves.last();
        assert(one == moves[moves.len() - 1]);
        let start = balances_after(before)->0;
        let debited = adjusted(start, one.debit_account, one.unit, one.amount.negated())->0;
        let after = balances_after(moves)->0;
        assert forall|account: Seq<char>|
            (#[trigger] after.contains_key(account)) && after[account].contains_key(
                unit,
            ) implies after[account][unit].scale == places by {
            if debited.contains_key(account) && debited[account].contains_key(unit) {
                if start.contains_key(account) && start[account].contains_key(unit) {
                    assert(start[account][unit].scale == places);
                }
                assert(debited[account][unit].scale == places);
            }
        }
    }
}

/// **Balance closure.** In a valid log whose balances are exact, the
/// balances of all the accounts in one unit are written with that unit's
/// number of fractional digits and add up to nothing: every move takes from
/// one account what it gives to another.
pub proof fn lemma_balance_closure(log: Seq<EventView>, unit: Seq<char>)
    requires
        valid_log(log),
        balances(log) is Some,
    ensures
        balances(log)->0.dom().finite(),
        unit_total(balances(log)->0, unit) == 0,
        forall|account: Seq<char>|
            (#[trigger] balances(log)->0.contains_key(account)) && balances(
                log,
            )->0[account].contains_key(unit) ==> {
                &&& units(log).contains_key(unit)
                &&& balances(log)->0[account][unit].scale == units(log)[unit].decimal_places
            },
{
    lemma_balances_after_total(moves(log), unit);
    lemma_valid_log_scales(log);
    if units(log).contains_key(unit) {
        lemma_balances_after_scale(moves(log), unit, units(log)[unit].decimal_places as nat);
    } else {
        lemma_balances_untouched(moves(log), unit);
    }
}

/// No account holds anything of a unit in which nothing moved.
pub proof fn lemma_balances_untouched(moves: Seq<MoveView>, unit: Seq<char>)
    requires
        balances_after(moves) is Some,
        forall|i: int| 0 <= i < moves.len() ==> (#[trigger] moves[i]).unit != unit,
    ensures
        forall|account: Seq<char>|
            (#[trigger] balances_after(moves)->0.contains_key(account)) ==> !balances_after(
                moves,
            )->0[account].contains_key(unit),
    decreases moves.len(),
{
    if moves.len() > 0 {
        let before = moves.drop_last();
        assert forall|i: int| 0 <= i < before.len() implies (#[trigger] before[i]).unit
            != unit by {
            assert(before[i] == moves[i]);
        }
        lemma_balances_untouched(before, unit);
        let one = moves.last();
        assert(one == moves[moves.len() - 1]);
        let start = balances_after(before)->0;
        let debited = adjusted(start, one.debit_account, one.unit, one.amount.negated())->0;
        let after = balances_after(moves)->0;
        assert forall|account: Seq<char>| (#[trigger] after.contains_key(account)) implies !after[
            account
        ].contains_key(unit) by {
            if debited.contains_key(account) {
                if start.contains_key(account) {
                    assert(!start[account].contains_key(unit));
                }
                assert(!debited[account].contains_key(unit));
            }
        }
    }
}

/// **Decimal scale enforcement.** A move in a known unit whose amount is not
/// written with the unit's number of fractional digits is refused, and the
/// refusal names both scales; a move whose amount is written with that number
/// of digits is not refused for its unit, and is accepted where its
/// transaction and its accounts are known.
pub proof fn lemma_decimal_scale_enforcement(log: Seq<EventView>, added: MoveView)
    requires
        units(log).contains_key(added.unit),
        added.amount.scale <= u32::MAX,
    ensures
        added.amount.scale != units(log)[added.unit].decimal_places ==> {
            &&& rejection(log, EventView::MoveAdded(added)) matches Some(
                ValidationErrorView::MoveAdded(error),
            )
            &&& error.unit == Some(
                MoveAddedUnitErrorView::DecimalPlacesMismatch {
                    unit_scale: units(log)[added.unit].decimal_places,
                    amount_scale: added.amount.scale as u32,
                },
            )
        },
        added.amount.scale == units(log)[added.unit].decimal_places ==> unit_rejection(log, added)
            is None,
        added.amount.scale == units(log)[added.unit].decimal_places && 1 <= added.transaction.0
            <= transaction_count(log) && accounts(log).contains_key(added.debit_account)
            && accounts(log).contains_key(added.credit_account) ==> rejection(
            log,
            EventView::MoveAdded(added),
        ) is None,
{
}

/// **Rejection names the cause.** An event is refused for what is wrong with
/// it and for nothing else: a new account or unit for its name being taken,
/// a move for each of its transaction, its two accounts and its unit that is
/// not in order, each judged for itself.
pub proof fn lemma_rejection_names_the_cause(log: Seq<EventView>, event: EventView)
    ensures
        match event {
            EventView::AccountCreated { name, .. } => rejection(log, event) == if accounts(
                log,
            ).contains_key(name) {
                Some(ValidationErrorView::AccountCreatedNameCollision(name))
            } else {
                None
            },
            EventView::TransactionRecorded { .. } => rejection(log, event) is None,
            EventView::UnitCreated { name, .. } => rejection(log, event) == if units(
                log,
            ).contains_key(name) {
                Some(ValidationErrorView::UnitCreatedNameCollision(name))
            } else {
                None
            },
            EventView::MoveAdded(added) => {
                let transaction_known = 1 <= added.transaction.0 <= transaction_count(log);
                let debit_known = accounts(log).contains_key(added.debit_account);
                let credit_known = accounts(log).contains_key(added.credit_account);
                let unit_in_order = units(log).contains_key(added.unit) && added.amount.scale
                    == units(log)[added.unit].decimal_places;
                if transaction_known && debit_known && credit_known && unit_in_order {
                    rejection(log, event) is None
                } else {
                    &&& rejection(log, event) matches Some(ValidationErrorView::MoveAdded(error))
                    &&& error.transaction_not_found == if transaction_known {
                        None
                    } else {
                        Some(added.transaction)
                    }
                    &&& error.debit_account_not_found == if debit_known {
                        None
                    } else {
                        Some(added.debit_account)
                    }
                    &&& error.credit_account_not_found == if credit_known {
                        None
                    } else {
                        Some(added.credit_account)
                    }
                    &&& (error.unit is None) == unit_in_order
                }
            },
        },
{
}

/// What a move does to what `account` holds of `unit`: it takes its amount
/// away where it debits the account in that unit, and adds it where it
/// credits the account.
pub open spec fn effect(one: MoveView, account: Seq<char>, unit: Seq<char>) -> AmountView {
    let taken = if one.unit == unit && one.debit_account == account {
        one.amount.negated()
    } else {
        AmountView::zero()
    };
    let given = if one.unit == unit && one.credit_account == account {
        one.amount
    } else {
        AmountView::zero()
    };
    taken.plus(given)
}

/// Whether a move takes `unit` from `account` or gives it to `account`.
pub open spec fn touching(one: MoveView, account: Seq<char>, unit: Seq<char>) -> bool {
    one.unit == unit && (one.debit_account == account || one.credit_account == account)
}

/// What `moves` do in all to what `account` holds of `unit`.
pub open spec fn net(moves: Seq<MoveView>, account: Seq<char>, unit: Seq<char>) -> AmountView
    decreases moves.len(),
{
    if moves.len() == 0 {
        AmountView::zero()
    } else {
        net(moves.drop_last(), account, unit).plus(effect(moves.last(), account, unit))
    }
}

/// Whether one of `moves` takes `unit` from `account` or gives it to it.
pub open spec fn touched(moves: Seq<MoveView>, account: Seq<char>, unit: Seq<char>) -> bool
    decreases moves.len(),
{
    if moves.len() == 0 {
        false
    } else {
        touched(moves.drop_last(), account, unit) || touching(moves.last(), account, unit)
    }
}

/// What the moves of the transaction `id` among `moves` do in all to what
/// `account` holds of `unit`.
pub open spec fn transaction_net(
    moves: Seq<MoveView>,
    id: Id,
    account: Seq<char>,
    unit: Seq<char>,
) -> AmountView
    decreases moves.len(),
{
    if moves.len() == 0 {
        AmountView::zero()
    } else if moves.last().transaction == id {
        transaction_net(moves.drop_last(), id, account, unit).plus(
            effect(moves.last(), account, unit),
        )
    } else {
        transaction_net(moves.drop_last(), id, account, unit)
    }
}

/// Whether a move of the transaction `id` among `moves` takes `unit` from
/// `account` or gives it to it.
pub open spec fn transaction_touched(
    moves: Seq<MoveView>,
    id: Id,
    account: Seq<char>,
    unit: Seq<char>,
) -> bool
    decreases moves.len(),
{
    if moves.len() == 0 {
        false
    } else {
        transaction_touched(moves.drop_last(), id, account, unit) || (moves.last().transaction
            == id && touching(moves.last(), account, unit))
    }
}

/// What the moves of the transactions one to `n` do in all to what `account`
/// holds of `unit`, transaction by transaction.
pub open spec fn net_through(moves: Seq<MoveView>, n: nat, account: Seq<char>, unit: Seq<char>)
    -> AmountView
    decreases n,
{
    if n == 0 {
        AmountView::zero()
    } else {
        net_through(moves, (n - 1) as nat, account, unit).plus(
            transaction_net(moves, Id(n as u64), account, unit),
        )
    }
}

/// Whether a move of one of the transactions one to `n` takes `unit` from
/// `account` or gives it to it.
pub open spec fn touched_through(
    moves: Seq<MoveView>,
    n: nat,
    account: Seq<char>,
    unit: Seq<char>,
) -> bool
    decreases n,
{
    if n == 0 {
        false
    } else {
        touched_through(moves, (n - 1) as nat, account, unit) || transaction_touched(
            moves,
            Id(n as u64),
            account,
            unit,
        )
    }
}

/// What an account holds of a unit is what the moves did to it in all, and
/// it holds a balance in the unit exactly when a move touched it there.
pub proof fn lemma_balances_after_net(moves: Seq<MoveView>, account: Seq<char>, unit: Seq<char>)
    requires
        balances_after(moves) is Some,
    ensures
        amount_in(balances_after(moves)->0, account, unit) == net(moves, account, unit),
        (balances_after(moves)->0.contains_key(account) && balances_after(
            moves,
        )->0[account].contains_key(unit)) == touched(moves, account, unit),
    decreases moves.len(),
{
    if moves.len() > 0 {
        lemma_balances_after_net(moves.drop_last(), account, unit);
        let one = moves.last();
        let start = balances_after(moves.drop_last())->0;
        let debited = adjusted(start, one.debit_account, one.unit, one.amount.negated())->0;
        let after = balances_after(moves)->0;
        let taken = if one.unit == unit && one.debit_account == account {
            one.amount.negated()
        } else {
            AmountView::zero()
        };
        let given = if one.unit == unit && one.credit_account == account {
            one.amount
        } else {
            AmountView::zero()
        };
        assert(amount_in(debited, account, unit) == amount_in(start, account, unit).plus(taken));
        assert(amount_in(after, account, unit) == amount_in(debited, account, unit).plus(given));
    }
}

/// A transaction without a move that touches the account does nothing to it.
pub proof fn lemma_transaction_untouched(
    moves: Seq<MoveView>,
    id: Id,
    account: Seq<char>,
    unit: Seq<char>,
)
    requires
        !transaction_touched(moves, id, account, unit),
    ensures
        transaction_net(moves, id, account, unit) == AmountView::zero(),
    decreases moves.len(),
{
    if moves.len() > 0 {
        lemma_transaction_untouched(moves.drop_last(), id, account, unit);
    }
}

/// A row that was brought through the moves holds what the moves of its
/// transaction did to the account.
pub proof fn lemma_row_after_net(
    moves: Seq<MoveView>,
    start: RowProgress,
    id: Id,
    account: Seq<char>,
    unit: Seq<char>,
)
    requires
        row_after(moves, start, id, account, unit) is Some,
    ensures
        row_after(moves, start, id, account, unit)->0.affect == start.affect.plus(
            transaction_net(moves, id, account, unit),
        ),
        row_after(moves, start, id, account, unit)->0.balance == start.balance.plus(
            transaction_net(moves, id, account, unit),
        ),
        row_after(moves, start, id, account, unit)->0.touched == (start.touched
            || transaction_touched(moves, id, account, unit)),
    decreases moves.len(),
{
    if moves.len() > 0 {
        lemma_row_after_net(moves.drop_last(), start, id, account, unit);
    }
}

/// The rows of the first `n` transactions end with what the moves of those
/// transactions did to the account, and there is a row exactly when one of
/// those moves touched the account.
pub proof fn lemma_rows_through_net(log: Seq<EventView>, n: nat, account: Seq<char>, unit: Seq<char>)
    requires
        rows_through(log, n, account, unit) is Some,
    ensures
        rows_through(log, n, account, unit)->0.balance == net_through(
            moves(log),
            n,
            account,
            unit,
        ),
        (rows_through(log, n, account, unit)->0.rows.len() > 0) == touched_through(
            moves(log),
            n,
            account,
            unit,
        ),
        rows_through(log, n, account, unit)->0.rows.len() > 0 ==> rows_through(
            log,
            n,
            account,
            unit,
        )->0.rows.last().balance == rows_through(log, n, account, unit)->0.balance,
    decreases n,
{
    if n > 0 {
        lemma_rows_through_net(log, (n - 1) as nat, account, unit);
        let before = rows_through(log, (n - 1) as nat, account, unit)->0;
        let start = RowProgress { touched: false, affect: AmountView::zero(), balance: before.balance };
        lemma_row_after_net(moves(log), start, Id(n as u64), account, unit);
        if !transaction_touched(moves(log), Id(n as u64), account, unit) {
            lemma_transaction_untouched(moves(log), Id(n as u64), account, unit);
        }
    }
}

/// One more move adds its effect to the transactions one to `n` where its
/// transaction is among them.
pub proof fn lemma_net_through_push(
    moves: Seq<MoveView>,
    one: MoveView,
    n: nat,
    account: Seq<char>,
    unit: Seq<char>,
)
    requires
        n <= u64::MAX,
    ensures
        net_through(moves.push(one), n, account, unit) == net_through(
            moves,
            n,
            account,
            unit,
        ).plus(
            if 1 <= one.transaction.0 <= n {
                effect(one, account, unit)
            } else {
                AmountView::zero()
            },
        ),
        touched_through(moves.push(one), n, account, unit) == (touched_through(
            moves,
            n,
            account,
            unit,
        ) || (1 <= one.transaction.0 <= n && touching(one, account, unit))),
    decreases n,
{
    if n > 0 {
        lemma_net_through_push(moves, one, (n - 1) as nat, account, unit);
        assert(moves.push(one).drop_last() =~= moves);
        assert(moves.push(one).last() == one);
        assert((one.transaction == Id(n as u64)) == (one.transaction.0 == n));
    }
}

/// Transaction by transaction or move by move, the moves do the same to an
/// account, where every move belongs to one of the transactions.
pub proof fn lemma_net_through_all(
    moves: Seq<MoveView>,
    n: nat,
    account: Seq<char>,
    unit: Seq<char>,
)
    requires
        n <= u64::MAX,
        forall|i: int| 0 <= i < moves.len() ==> 1 <= (#[trigger] moves[i]).transaction.0 <= n,
    ensures
        net_through(moves, n, account, unit) == net(moves, account, unit),
        touched_through(moves, n, account, unit) == touched(moves, account, unit),
    decreases moves.len(),
{
    if moves.len() == 0 {
        lemma_net_through_none(moves, n, account, unit);
    } else {
        let before = moves.drop_last();
        assert forall|i: int| 0 <= i < before.len() implies 1 <= (
        #[trigger] before[i]).transaction.0 <= n by {
            assert(before[i] == moves[i]);
        }
        lemma_net_through_all(before, n, account, unit);
        assert(moves.last() == moves[moves.len() - 1]);
        lemma_net_through_push(before, moves.last(), n, account, unit);
        assert(before.push(moves.last()) =~= moves);
    }
}

/// Without moves no transaction does anything.
pub proof fn lemma_net_through_none(
    moves: Seq<MoveView>,
    n: nat,
    account: Seq<char>,
    unit: Seq<char>,
)
    requires
        moves.len() == 0,
    ensures
        net_through(moves, n, account, unit) == AmountView::zero(),
        !touched_through(moves, n, account, unit),
    decreases n,
{
    if n > 0 {
        lemma_net_through_none(moves, (n - 1) as nat, account, unit);
    }
}

/// In a valid log every move belongs to a recorded transaction.
pub proof fn lemma_valid_log_transactions(log: Seq<EventView>)
    requires
        valid_log(log),
    ensures
        forall|i: int|
            0 <= i < moves(log).len() ==> 1 <= (#[trigger] moves(log)[i]).transaction.0
                <= transaction_count(log),
    decreases log.len(),
{
    if log.len() > 0 {
        let before = log.drop_last();
        assert(before =~= log.take(log.len() - 1));
        lemma_valid_log_take(log, log.len() - 1);
        lemma_valid_log_transactions(before);
        lemma_transaction_dates_prefix(log, log.len() - 1);
        assert(rejection(log.take(log.len() - 1), log[log.len() - 1]) is None);
        match log.last() {
            EventView::MoveAdded(added) => {
                assert(move_rejection(before, added) == MoveAddedErrorView::nothing());
            },
            _ => {},
        }
        assert forall|i: int| 0 <= i < moves(log).len() implies 1 <= (
        #[trigger] moves(log)[i]).transaction.0 <= transaction_count(log) by {
            if i < moves(before).len() {
                assert(moves(log)[i] == moves(before)[i]);
            }
        }
    }
}

/// **Running balance consistency.** In a valid log, the running balance of
/// an account in a unit has a row exactly when the account has a balance in
/// that unit, and its last row ends with that balance.
pub proof fn lemma_running_balance_consistency(
    log: Seq<EventView>,
    account: Seq<char>,
    unit: Seq<char>,
)
    requires
        valid_log(log),
        transaction_count(log) <= u64::MAX,
        running_balance(log, account, unit) is Some,
        balances(log) is Some,
    ensures
        (running_balance(log, account, unit)->0.len() > 0) == (balances(log)->0.contains_key(
            account,
        ) && balances(log)->0[account].contains_key(unit)),
        running_balance(log, account, unit)->0.len() > 0 ==> running_balance(
            log,
            account,
            unit,
        )->0.last().balance == balances(log)->0[account][unit],
{
    let n = transaction_count(log);
    lemma_rows_through_net(log, n, account, unit);
    lemma_valid_log_transactions(log);
    lemma_net_through_all(moves(log), n, account, unit);
    lemma_balances_after_net(moves(log), account, unit);
}

/// The row of the transaction `id` in the running balance of `account` in
/// `unit`: the transaction with its date, what its moves did to the account
/// in all, and what the moves of the transactions up to it did.
pub open spec fn row_of(log: Seq<EventView>, id: Id, account: Seq<char>, unit: Seq<char>)
    -> RunningBalanceRowView {
    RunningBalanceRowView {
        transaction: Transaction { id, date: transaction_dates(log)[id.0 - 1] },
        affect: transaction_net(moves(log), id, account, unit),
        balance: net_through(moves(log), id.0 as nat, account, unit),
    }
}

/// Whether `rows` are the rows of those of the transactions one to `n` that
/// have a move which touches the account, in the order of their identifiers.
pub open spec fn rows_of_touched(
    rows: Seq<RunningBalanceRowView>,
    log: Seq<EventView>,
    n: nat,
    account: Seq<char>,
    unit: Seq<char>,
) -> bool {
    &&& forall|i: int|
        0 <= i < rows.len() ==> {
            &&& 1 <= (#[trigger] rows[i]).transaction.id.0 <= n
            &&& transaction_touched(moves(log), rows[i].transaction.id, account, unit)
            &&& rows[i] == row_of(log, rows[i].transaction.id, account, unit)
        }
    &&& forall|i: int, j: int|
        0 <= i < j < rows.len() ==> (#[trigger] rows[i]).transaction.id.0 < (
        #[trigger] rows[j]).transaction.id.0
    &&& forall|id: Id|
        1 <= id.0 <= n && #[trigger] transaction_touched(moves(log), id, account, unit)
            ==> exists|i: int| 0 <= i < rows.len() && (#[trigger] rows[i]).transaction.id == id
}

/// The rows of the first `n` transactions are one row for each of them that
/// has a move which touches the account.
pub proof fn lemma_rows_through_rows(
    log: Seq<EventView>,
    n: nat,
    account: Seq<char>,
    unit: Seq<char>,
)
    requires
        n <= u64::MAX,
        rows_through(log, n, account, unit) is Some,
    ensures
        rows_of_touched(rows_through(log, n, account, unit)->0.rows, log, n, account, unit),
    decreases n,
{
    let rows = rows_through(log, n, account, unit)->0.rows;
    if n > 0 {
        let id = Id(n as u64);
        let before = rows_through(log, (n - 1) as nat, account, unit)->0;
        lemma_rows_through_rows(log, (n - 1) as nat, account, unit);
        lemma_rows_through_net(log, (n - 1) as nat, account, unit);
        let start = RowProgress {
            touched: false,
            affect: AmountView::zero(),
            balance: before.balance,
        };
        lemma_row_after_net(moves(log), start, id, account, unit);
        let row = row_after(moves(log), start, id, account, unit)->0;
        assert(row.affect == transaction_net(moves(log), id, account, unit));
        assert forall|i: int| 0 <= i < rows.len() implies {
            &&& 1 <= (#[trigger] rows[i]).transaction.id.0 <= n
            &&& transaction_touched(moves(log), rows[i].transaction.id, account, unit)
            &&& rows[i] == row_of(log, rows[i].transaction.id, account, unit)
        } by {
            if i < before.rows.len() {
                assert(rows[i] == before.rows[i]);
            }
        }
        assert forall|i: int, j: int| 0 <= i < j < rows.len() implies (
        #[trigger] rows[i]).transaction.id.0 < (#[trigger] rows[j]).transaction.id.0 by {
            assert(rows[i] == before.rows[i]);
            if j < before.rows.len() {
                assert(rows[j] == before.rows[j]);
            }
        }
        assert forall|other: Id|
            1 <= other.0 <= n && #[trigger] transaction_touched(
                moves(log),
                other,
                account,
                unit,
            ) implies exists|i: int|
            0 <= i < rows.len() && (#[trigger] rows[i]).transaction.id == other by {
            if other.0 < n {
                let i = choose|i: int|
                    0 <= i < before.rows.len() && (#[trigger] before.rows[i]).transaction.id
                        == other;
                assert(rows[i] == before.rows[i]);
            } else {
                assert(other == id);
                assert(rows[rows.len() - 1].transaction.id == id);
            }
        }
    }
}

/// **Running balance rows.** The running balance of an account in a unit has
/// one row for each transaction with a move that takes the unit from the
/// account or gives it to the account, and no other row. The rows stand in
/// the order of the transactions' identifiers. Each holds the transaction
/// with its date, the sum of what the transaction's moves did to the
/// account, and the sum of what the moves of all the transactions up to it
/// did.
pub proof fn lemma_running_balance_rows(log: Seq<EventView>, account: Seq<char>, unit: Seq<char>)
    requires
        transaction_count(log) <= u64::MAX,
        running_balance(log, account, unit) is Some,
    ensures
        rows_of_touched(
            running_balance(log, account, unit)->0,
            log,
            transaction_count(log),
            account,
            unit,
        ),
        forall|i: int|
            0 <= i < running_balance(log, account, unit)->0.len() ==> transaction(
                log,
                (#[trigger] running_balance(log, account, unit)->0[i]).transaction.id,
            ) == Some(running_balance(log, account, unit)->0[i].transaction),
{
    lemma_rows_through_rows(log, transaction_count(log), account, unit);
}

} // verus!
