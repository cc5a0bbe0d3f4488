use vstd::prelude::*;
use crate::entities::amount::{Amount, AmountView};
use crate::sorted_map::SortedMap;

verus! {

/// What an account holds of each unit, by the unit's name.
#[derive(Debug)]
pub struct Balance(pub SortedMap<Amount>);

impl View for Balance {
    type V = Map<Seq<char>, AmountView>;

    open spec fn view(&self) -> Map<Seq<char>, AmountView> {
        self.0@
    }
}

impl Default for Balance {
    /// The balance of an account that has taken part in no move.
    fn default() -> (balance: Balance)
        ensures
            balance@ == Map::<Seq<char>, AmountView>::empty(),
    {
        Balance(SortedMap::new())
    }
}

} // verus!
