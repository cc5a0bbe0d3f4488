use vstd::prelude::*;
use crate::error::LedgerError;

verus! {

/// The name of a unit (a currency or another denomination).
#[derive(Debug, PartialEq, Eq, PartialOrd, Ord)]
pub struct Name(pub String);

impl Clone for Name {
    fn clone(&self) -> (name: Name)
        ensures
            name@ == self@,
    {
        Name(self.0.clone())
    }
}

impl View for Name {
    type V = Seq<char>;

    open spec fn view(&self) -> Seq<char> {
        self.0@
    }
}

impl Name {
    /// Makes a name of the characters of `s`; every string is a name.
    pub fn from_str(s: &str) -> (r: Result<Name, LedgerError>)
        ensures
            r matches Ok(name) && name@ == s@,
    {
        Ok(Name(s.to_owned()))
    }

    /// The characters of the name.
    pub fn to_string(&self) -> (s: String)
        ensures
            s@ == self@,
    {
        self.0.clone()
    }
}

/// A unit with the number of fractional digits that its amounts carry.
#[derive(Debug)]
pub struct Unit {
    pub _name: Name,
    pub decimal_places: u8,
}

/// What a [`Unit`] holds, with the name as its characters.
pub ghost struct UnitView {
    pub name: Seq<char>,
    pub decimal_places: u8,
}

impl View for Unit {
    type V = UnitView;

    open spec fn view(&self) -> UnitView {
        UnitView { name: self._name@, decimal_places: self.decimal_places }
    }
}

} // verus!
