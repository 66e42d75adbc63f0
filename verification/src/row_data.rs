//! One row of the branch list.

use vstd::prelude::*;

verus! {

/// A row of the list: it carries the name of one branch.
#[derive(Debug, PartialEq, Eq)]
pub struct RowData {
    name: String,
}

impl View for RowData {
    type V = Seq<char>;

    closed spec fn view(&self) -> Seq<char> {
        self.name@
    }
}

impl DeepView for RowData {
    type V = Seq<char>;

    open spec fn deep_view(&self) -> Seq<char> {
        self@
    }
}

impl Clone for RowData {
    fn clone(&self) -> (row: Self)
        ensures
            row@ == self@,
    {
        RowData { name: self.name.clone() }
    }
}

impl RowData {
    /// Makes the row for the branch `name`.
    pub fn new(name: &str) -> (row: RowData)
        ensures
            row@ == name@,
    {
        RowData { name: name.to_owned() }
    }

    /// The name that the row carries.
    pub fn name(&self) -> (name: &str)
        ensures
            name@ == self@,
    {
        self.name.as_str()
    }

    /// Gives the row another name.
    pub fn set_name(&mut self, name: &str)
        ensures
            final(self)@ == name@,
    {
        self.name = name.to_owned();
    }
}

} // verus!
