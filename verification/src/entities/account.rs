use vstd::prelude::*;
use crate::error::LedgerError;

verus! {

/// Whether an account belongs to the budget or stands for the outside world.
#[derive(Clone, Copy, Debug, PartialEq, Eq, Structural)]
pub enum Kind {
    External,
    Budget,
}

/// The name of an account; two names are the same when their characters are.
#[derive(Debug, PartialEq, Eq, PartialOrd, Ord)]
pub struct Name(pub String);

impl Clone for Name {
    fn clone(&self) -> (name: Name)
        ensures
            name@ == self@,
    {
        Name(self.0.clone())
    }
}

impl View for Name {
    type V = Seq<char>;

    open spec fn view(&self) -> Seq<char> {
        self.0@
    }
}

impl Name {
    /// Makes a name of the characters of `s`; every string is a name.
    pub fn from_str(s: &str) -> (r: Result<Name, LedgerError>)
        ensures
            r matches Ok(name) && name@ == s@,
    {
        Ok(Name(s.to_owned()))
    }

    /// The characters of the name.
    pub fn to_string(&self) -> (s: String)
        ensures
            s@ == self@,
    {
        self.0.clone()
    }
}

/// An account as the log knows it.
#[derive(Debug)]
pub struct Account {
    pub _kind: Kind,
    pub _name: Name,
}

/// What an [`Account`] holds, with the name as its characters.
pub ghost struct AccountView {
    pub kind: Kind,
    pub name: Seq<char>,
}

impl View for Account {
    type V = AccountView;

    open spec fn view(&self) -> AccountView {
        AccountView { kind: self._kind, name: self._name@ }
    }
}

} // verus!
