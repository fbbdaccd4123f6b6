//! The activity history: newest first, and never longer than its limit.

use vstd::prelude::*;
use crate::types::{history_views, HistoryEntry, HistoryEntryView};

verus! {

/// The number of entries that a history keeps.
pub const HISTORY_LIMIT: usize = 100;

/// The history after `entry` was recorded: `entry` first, then the earlier
/// entries in their order. Where that is more than the limit, the oldest
/// entry is gone.
pub open spec fn recorded(
    history: Seq<HistoryEntryView>,
    entry: HistoryEntryView,
) -> Seq<HistoryEntryView> {
    let grown = seq![entry] + history;
    if grown.len() > HISTORY_LIMIT {
        grown.drop_last()
    } else {
        grown
    }
}

/// Recording puts the entry first and keeps the earlier ones in order; a
/// history within the limit stays within it.
pub proof fn lemma_recorded(history: Seq<HistoryEntryView>, entry: HistoryEntryView)
    ensures
        recorded(history, entry).len() >= 1,
        recorded(history, entry)[0] == entry,
        forall|i: int|
            1 <= i < recorded(history, entry).len() ==> #[trigger] recorded(history, entry)[i]
                == history[i - 1],
        history.len() < HISTORY_LIMIT ==> recorded(history, entry).len() == history.len() + 1,
        history.len() >= HISTORY_LIMIT ==> recorded(history, entry).len() == history.len(),
        history.len() <= HISTORY_LIMIT ==> recorded(history, entry).len() <= HISTORY_LIMIT,
{
}

/// Records that `message` happened at `time`.
pub fn record(history: &mut Vec<HistoryEntry>, time: String, message: String)
    ensures
        history_views(final(history)@) == recorded(
            history_views(old(history)@),
            HistoryEntryView { time: time@, message: message@ },
        ),
{
    let ghost before = history_views(history@);
    let ghost entry = HistoryEntryView { time: time@, message: message@ };
    history.insert(0, HistoryEntry { time, message });
    assert(history_views(history@) =~= seq![entry] + before);
    if history.len() > HISTORY_LIMIT {
        history.pop();
        assert(history_views(history@) =~= (seq![entry] + before).drop_last());
    }
}

} // verus!
