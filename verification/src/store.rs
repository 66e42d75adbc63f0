//! The branch store: the one owner of the list of branches of one repository.
//!
//! The store runs nothing itself. For each operation it hands out the command
//! to run, and it takes the outcome of that run to decide what its list
//! becomes: a refresh replaces the list as a whole, a deletion removes one
//! row, and an operation that failed leaves the list as it was.

use crate::git::{
    delete_branch, delete_command, delete_command_line, list_branches, list_command,
    list_command_line, listed, DeleteError, RefreshError,
};
use crate::parser::{all_branch_names, is_branch_name, lemma_branch_names_are_names, parsed_names};
use crate::process::{ran_successfully, Outcome};
use crate::row_data::RowData;
use crate::text::decode;
use vstd::prelude::*;

verus! {

/// The list after a refresh that met `outcome`: the names parsed from the
/// tool's output where it ran successfully, the list as it was otherwise.
pub open spec fn after_refresh(entries: Seq<Seq<char>>, outcome: Outcome) -> Seq<Seq<char>> {
    match listed(outcome) {
        Some(names) => names,
        None => entries,
    }
}

/// The list after a deletion at `position` that met `outcome`: without that
/// row where the tool ran successfully, the list as it was otherwise.
pub open spec fn after_delete(entries: Seq<Seq<char>>, position: int, outcome: Outcome) -> Seq<
    Seq<char>,
> {
    if ran_successfully(outcome) {
        entries.remove(position)
    } else {
        entries
    }
}

/// The list after a run of refreshes, one for each of `outcomes` in turn.
pub open spec fn after_refreshes(entries: Seq<Seq<char>>, outcomes: Seq<Outcome>) -> Seq<
    Seq<char>,
>
    decreases outcomes.len(),
{
    if outcomes.len() == 0 {
        entries
    } else {
        after_refresh(after_refreshes(entries, outcomes.drop_last()), outcomes.last())
    }
}

/// After any run of refreshes that all succeeded, the list holds the names
/// parsed from the output of the last one, in the order of its lines: what
/// earlier refreshes gave, and what the list held at first, leaves no trace.
pub proof fn lemma_refreshes_give_latest(entries: Seq<Seq<char>>, outcomes: Seq<Outcome>)
    requires
        outcomes.len() > 0,
        forall|i: int| 0 <= i < outcomes.len() ==> ran_successfully(#[trigger] outcomes[i]),
    ensures
        after_refreshes(entries, outcomes) == parsed_names(outcomes.last()->Ok_0.stdout@),
{
    assert(ran_successfully(outcomes.last()));
}

/// Two refreshes in a row that meet the same outcome give the same list as
/// one of them.
pub proof fn lemma_refresh_idempotent(entries: Seq<Seq<char>>, outcome: Outcome)
    ensures
        after_refresh(after_refresh(entries, outcome), outcome) == after_refresh(entries, outcome),
{
}

/// A refresh that did not succeed leaves the list as it was.
pub proof fn lemma_failed_refresh_keeps_list(entries: Seq<Seq<char>>, outcome: Outcome)
    requires
        !ran_successfully(outcome),
    ensures
        after_refresh(entries, outcome) == entries,
{
}

/// A deletion that succeeded makes the list shorter by one row: the rows
/// before the position stay where they were, and each row behind it moves up
/// by one.
pub proof fn lemma_delete_shifts_rows(entries: Seq<Seq<char>>, position: int, outcome: Outcome)
    requires
        0 <= position < entries.len(),
        ran_successfully(outcome),
    ensures
        after_delete(entries, position, outcome).len() == entries.len() - 1,
        forall|i: int|
            0 <= i < position ==> #[trigger] after_delete(entries, position, outcome)[i]
                == entries[i],
        forall|i: int|
            position <= i < entries.len() - 1 ==> #[trigger] after_delete(
                entries,
                position,
                outcome,
            )[i] == entries[i + 1],
{
}

/// A deletion that did not succeed leaves the list as it was, row for row.
pub proof fn lemma_failed_delete_keeps_list(
    entries: Seq<Seq<char>>,
    position: int,
    outcome: Outcome,
)
    requires
        !ran_successfully(outcome),
    ensures
        after_delete(entries, position, outcome) == entries,
{
}

/// A refresh, whatever its outcome, leaves a list in which no name is empty,
/// untrimmed or broken over lines, given that the list was such before.
pub proof fn lemma_refresh_keeps_names(entries: Seq<Seq<char>>, outcome: Outcome)
    requires
        all_branch_names(entries),
    ensures
        all_branch_names(after_refresh(entries, outcome)),
{
    if let Ok(output) = outcome {
        lemma_branch_names_are_names(decode(output.stdout@));
    }
}

/// A deletion, whatever its outcome, leaves a list in which no name is empty,
/// untrimmed or broken over lines, given that the list was such before.
pub proof fn lemma_delete_keeps_names(entries: Seq<Seq<char>>, position: int, outcome: Outcome)
    requires
        all_branch_names(entries),
        0 <= position < entries.len(),
    ensures
        all_branch_names(after_delete(entries, position, outcome)),
{
    let shorter = entries.remove(position);
    assert forall|i: int| 0 <= i < shorter.len() implies is_branch_name(
        #[trigger] shorter[i],
    ) by {
        if i < position {
            assert(shorter[i] == entries[i]);
        } else {
            assert(shorter[i] == entries[i + 1]);
        }
    }
}

/// The branches of one repository, in the order in which the tool lists them.
pub struct BranchStore {
    directory: String,
    entries: Vec<RowData>,
}

impl View for BranchStore {
    type V = Seq<Seq<char>>;

    /// The names of the rows, in their order.
    closed spec fn view(&self) -> Seq<Seq<char>> {
        self.entries.deep_view()
    }
}

impl BranchStore {
    /// The working directory of the repository that the store speaks of.
    pub closed spec fn directory_view(&self) -> Seq<char> {
        self.directory@
    }

    /// What holds of the list at all times: each row carries a name that is
    /// not empty, neither begins nor ends with whitespace, and holds no line
    /// feed.
    pub open spec fn well_formed(&self) -> bool {
        all_branch_names(self@)
    }

    /// Makes the store for the repository in `directory`, with an empty list.
    pub fn new(directory: String) -> (store: BranchStore)
        ensures
            store@ == Seq::<Seq<char>>::empty(),
            store.directory_view() == directory@,
            store.well_formed(),
    {
        let store = BranchStore { directory, entries: Vec::new() };
        assert(store@ =~= Seq::<Seq<char>>::empty());
        store
    }

    /// The working directory in which every command of this store runs.
    pub fn directory(&self) -> (directory: &str)
        ensures
            directory@ == self.directory_view(),
    {
        self.directory.as_str()
    }

    /// The number of rows.
    pub fn len(&self) -> (n: usize)
        ensures
            n == self@.len(),
    {
        self.entries.len()
    }

    /// The rows, in their order.
    pub fn entries(&self) -> (rows: &Vec<RowData>)
        ensures
            rows.deep_view() == self@,
    {
        &self.entries
    }

    /// The name of the row at `position`, or `None` where there is no such row.
    pub fn name_at(&self, position: usize) -> (name: Option<&str>)
        ensures
            position < self@.len() ==> (name matches Some(n) && n@ == self@[position as int]),
            position >= self@.len() ==> name is None,
    {
        if position < self.entries.len() {
            Some(self.entries[position].name())
        } else {
            None
        }
    }

    /// The command that a refresh runs.
    pub fn list_command(&self) -> (command: Vec<String>)
        ensures
            command.deep_view() == list_command_line(),
    {
        list_command()
    }

    /// The command that deletes the branch of the row at `position`. The name
    /// is the one that the row carries now.
    pub fn delete_command(&self, position: usize) -> (command: Vec<String>)
        requires
            position < self@.len(),
        ensures
            command.deep_view() == delete_command_line(self@[position as int]),
    {
        delete_command(self.entries[position].name())
    }

    /// Ends a refresh: `outcome` is what running `list_command` gave.
    ///
    /// Where the tool ran successfully the list is replaced as a whole by the
    /// names parsed from its output, and a copy of the new rows is returned.
    /// Otherwise the list stays as it was and the error says why.
    pub fn refresh(&mut self, outcome: Outcome) -> (result: Result<Vec<RowData>, RefreshError>)
        requires
            old(self).well_formed(),
        ensures
            final(self).well_formed(),
            final(self).directory_view() == old(self).directory_view(),
            final(self)@ == after_refresh(old(self)@, outcome),
            match outcome {
                Ok(output) => if output.succeeded() {
                    &&& result matches Ok(rows)
                    &&& rows.deep_view() == parsed_names(output.stdout@)
                    &&& final(self)@ == parsed_names(output.stdout@)
                } else {
                    &&& result matches Err(RefreshError::Failed { exit_status, stderr })
                    &&& exit_status == output.exit_status
                    &&& stderr@ == decode(output.stderr@)
                    &&& final(self)@ == old(self)@
                },
                Err(error) => {
                    &&& result == Err::<Vec<RowData>, RefreshError>(RefreshError::Launch(error))
                    &&& final(self)@ == old(self)@
                },
            },
    {
        match list_branches(outcome) {
            Ok(names) => {
                let rows = rows_of(&names);
                let copy = copy_rows(&rows);
                self.entries = rows;
                Ok(copy)
            },
            Err(error) => Err(error),
        }
    }

    /// Ends a deletion: `outcome` is what running `delete_command(position)`
    /// gave.
    ///
    /// Where the tool ran successfully the row at `position` leaves the list
    /// and the rows behind it move up by one. Otherwise the list stays as it
    /// was and the error says why.
    pub fn delete_at(&mut self, position: usize, outcome: Outcome) -> (result: Result<
        (),
        DeleteError,
    >)
        requires
            old(self).well_formed(),
            position < old(self)@.len(),
        ensures
            final(self).well_formed(),
            final(self).directory_view() == old(self).directory_view(),
            final(self)@ == after_delete(old(self)@, position as int, outcome),
            match outcome {
                Ok(output) => if output.succeeded() {
                    &&& result is Ok
                    &&& final(self)@ == old(self)@.remove(position as int)
                } else {
                    &&& result matches Err(DeleteError::Refused { stderr })
                    &&& stderr@ == decode(output.stderr@)
                    &&& final(self)@ == old(self)@
                },
                Err(error) => {
                    &&& result == Err::<(), DeleteError>(DeleteError::Launch(error))
                    &&& final(self)@ == old(self)@
                },
            },
    {
        match delete_branch(outcome) {
            Ok(()) => {
                let _ = self.entries.remove(position);
                proof {
                    assert(self@ =~= old(self)@.remove(position as int));
                }
                Ok(())
            },
            Err(error) => Err(error),
        }
    }
}

/// Makes one row for each name, in the order of the names.
pub fn rows_of(names: &Vec<String>) -> (rows: Vec<RowData>)
    ensures
        rows.deep_view() == names.deep_view(),
{
    let mut rows: Vec<RowData> = Vec::new();
    let mut i: usize = 0;
    while i < names.len()
        invariant
            i <= names.len(),
            rows.len() == i,
            forall|j: int| 0 <= j < i ==> rows[j]@ == names[j]@,
        decreases names.len() - i,
    {
        rows.push(RowData::new(names[i].as_str()));
        i += 1;
    }
    assert(rows.deep_view() =~= names.deep_view());
    rows
}

/// Copies a list of rows.
pub fn copy_rows(rows: &Vec<RowData>) -> (copy: Vec<RowData>)
    ensures
        copy.deep_view() == rows.deep_view(),
{
    let mut copy: Vec<RowData> = Vec::new();
    let mut i: usize = 0;
    while i < rows.len()
        invariant
            i <= rows.len(),
            copy.len() == i,
            forall|j: int| 0 <= j < i ==> copy[j]@ == rows[j]@,
        decreases rows.len() - i,
    {
        copy.push(rows[i].clone());
        i += 1;
    }
    assert(copy.deep_view() =~= rows.deep_view());
    copy
}

} // verus!
