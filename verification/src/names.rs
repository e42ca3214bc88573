use vstd::prelude::*;
use vstd::std_specs::cmp::PartialEqSpecImpl;

verus! {

/// The name under which a cell is registered.
///
/// Two names are the same name when they hold the same characters; the view
/// of a name is the sequence of its characters.
#[derive(Debug, Eq, Hash)]
pub struct CellName {
    text: String,
}

impl View for CellName {
    type V = Seq<char>;

    closed spec fn view(&self) -> Seq<char> {
        self.text@
    }
}

impl CellName {
    /// The name that holds the characters of `text`.
    pub fn new(text: String) -> (name: Self)
        ensures
            name@ == text@,
    {
        CellName { text }
    }

    /// The characters of the name.
    pub fn as_string(&self) -> (text: &String)
        ensures
            text@ == self@,
    {
        &self.text
    }
}

impl Clone for CellName {
    fn clone(&self) -> (copy: Self)
        ensures
            copy == *self,
    {
        CellName { text: self.text.clone() }
    }
}

impl PartialEq for CellName {
    fn eq(&self, other: &Self) -> (same: bool) {
        self.text == other.text
    }
}

impl PartialEqSpecImpl for CellName {
    open spec fn obeys_eq_spec() -> bool {
        true
    }

    open spec fn eq_spec(&self, other: &Self) -> bool {
        self@ == other@
    }
}

/// The name of an executable, which tells it apart from the other
/// executables of the same cell.
///
/// Two names are the same name when they hold the same characters; the view
/// of a name is the sequence of its characters.
#[derive(Debug, Eq, Hash)]
pub struct ExecutableName {
    text: String,
}

impl View for ExecutableName {
    type V = Seq<char>;

    closed spec fn view(&self) -> Seq<char> {
        self.text@
    }
}

impl ExecutableName {
    /// The name that holds the characters of `text`.
    pub fn new(text: String) -> (name: Self)
        ensures
            name@ == text@,
    {
        ExecutableName { text }
    }

    /// The characters of the name.
    pub fn as_string(&self) -> (text: &String)
        ensures
            text@ == self@,
    {
        &self.text
    }
}

impl Clone for ExecutableName {
    fn clone(&self) -> (copy: Self)
        ensures
            copy == *self,
    {
        ExecutableName { text: self.text.clone() }
    }
}

impl PartialEq for ExecutableName {
    fn eq(&self, other: &Self) -> (same: bool) {
        self.text == other.text
    }
}

impl PartialEqSpecImpl for ExecutableName {
    open spec fn obeys_eq_spec() -> bool {
        true
    }

    open spec fn eq_spec(&self, other: &Self) -> bool {
        self@ == other@
    }
}

} // verus!
