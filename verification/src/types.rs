//! The records that the rest of the library works on.

use vstd::prelude::*;

verus! {

/// One path of a group, under the name the user gave it.
#[derive(Debug)]
pub struct VersionEntry {
    pub path: String,
    pub alias: String,
}

/// What a [`VersionEntry`] holds.
pub struct VersionEntryView {
    pub path: Seq<char>,
    pub alias: Seq<char>,
}

impl View for VersionEntry {
    type V = VersionEntryView;

    open spec fn view(&self) -> VersionEntryView {
        VersionEntryView { path: self.path@, alias: self.alias@ }
    }
}

impl Clone for VersionEntry {
    fn clone(&self) -> (copy: Self)
        ensures
            copy == *self,
    {
        VersionEntry { path: self.path.clone(), alias: self.alias.clone() }
    }
}

/// The two things that can be wrong with an entry of the path list.
#[derive(Clone, Copy, Debug, PartialEq, Eq, Structural)]
pub enum IssueType {
    /// Nothing exists at the path.
    Missing,
    /// An earlier entry is the same path up to case.
    Duplicate,
}

/// An entry of the path list that a scan found fault with. `selected` says
/// whether a cleanup is to act on it.
#[derive(Debug)]
pub struct CleanerEntry {
    pub path: String,
    pub issue: IssueType,
    pub selected: bool,
}

/// What a [`CleanerEntry`] holds.
pub struct CleanerEntryView {
    pub path: Seq<char>,
    pub issue: IssueType,
    pub selected: bool,
}

impl View for CleanerEntry {
    type V = CleanerEntryView;

    open spec fn view(&self) -> CleanerEntryView {
        CleanerEntryView { path: self.path@, issue: self.issue, selected: self.selected }
    }
}

impl Clone for CleanerEntry {
    fn clone(&self) -> (copy: Self)
        ensures
            copy == *self,
    {
        CleanerEntry { path: self.path.clone(), issue: self.issue, selected: self.selected }
    }
}

/// One line of the activity history: what was done, and when.
#[derive(Debug)]
pub struct HistoryEntry {
    pub time: String,
    pub message: String,
}

/// What a [`HistoryEntry`] holds.
pub struct HistoryEntryView {
    pub time: Seq<char>,
    pub message: Seq<char>,
}

impl View for HistoryEntry {
    type V = HistoryEntryView;

    open spec fn view(&self) -> HistoryEntryView {
        HistoryEntryView { time: self.time@, message: self.message@ }
    }
}

impl Clone for HistoryEntry {
    fn clone(&self) -> (copy: Self)
        ensures
            copy == *self,
    {
        HistoryEntry { time: self.time.clone(), message: self.message.clone() }
    }
}

/// The contents of a list of version entries.
pub open spec fn version_views(list: Seq<VersionEntry>) -> Seq<VersionEntryView> {
    Seq::new(list.len(), |i: int| list[i]@)
}

/// The contents of a list of cleaner entries.
pub open spec fn issue_views(list: Seq<CleanerEntry>) -> Seq<CleanerEntryView> {
    Seq::new(list.len(), |i: int| list[i]@)
}

/// The contents of a history.
pub open spec fn history_views(list: Seq<HistoryEntry>) -> Seq<HistoryEntryView> {
    Seq::new(list.len(), |i: int| list[i]@)
}

} // verus!
