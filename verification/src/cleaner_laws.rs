//! What holds of every scan and every cleanup.

use vstd::prelude::*;
use crate::cleaner::{
    cleaned, is_kept, issue_at, issues_among, issues_of, kept_among, key_among, keyed,
    lemma_key_among_grows, seen_before, selected_keys, KeyedPathView,
};
use crate::host::lowercase;
use crate::path_list::{
    entries, is_entry, is_path_list, joined, lemma_entries_form_path_list, lemma_read_after_write,
};
use crate::seq_facts::is_subsequence;
use crate::types::{CleanerEntryView, IssueType};

verus! {

/// No two paths of the list have the same lower-case form.
pub open spec fn distinct_keys(paths: Seq<Seq<char>>) -> bool {
    forall|a: int, b: int|
        0 <= a < b < paths.len() ==> lowercase(#[trigger] paths[a]) != lowercase(
            #[trigger] paths[b],
        )
}

/// Whether `issue` is what a scan reports of entry `i`.
pub open spec fn reports(
    paths: Seq<Seq<char>>,
    missing: Set<Seq<char>>,
    i: int,
    issue: CleanerEntryView,
) -> bool {
    &&& 0 <= i < paths.len()
    &&& issue_at(keyed(paths), missing, i) == Some(issue.issue)
    &&& issue.path == paths[i]
    &&& issue.selected
}

/// Whether `issue` is what a scan reports of one of the first `n` entries.
pub open spec fn reports_among(
    paths: Seq<Seq<char>>,
    missing: Set<Seq<char>>,
    n: int,
    issue: CleanerEntryView,
) -> bool {
    exists|i: int| i < n && reports(paths, missing, i, issue)
}

/// What a scan finds at an entry is among the issues it reports, and every
/// issue it reports is what it found at some entry.
pub proof fn lemma_issues_match_entries(paths: Seq<Seq<char>>, missing: Set<Seq<char>>, n: int)
    requires
        0 <= n <= paths.len(),
    ensures
        forall|i: int|
            0 <= i < n && issue_at(keyed(paths), missing, i) is Some ==> issues_among(
                keyed(paths),
                missing,
                n,
            ).contains(
                CleanerEntryView {
                    path: #[trigger] paths[i],
                    issue: issue_at(keyed(paths), missing, i)->0,
                    selected: true,
                },
            ),
        forall|a: int|
            0 <= a < issues_among(keyed(paths), missing, n).len() ==> reports_among(
                paths,
                missing,
                n,
                #[trigger] issues_among(keyed(paths), missing, n)[a],
            ),
    decreases n,
{
    let items = keyed(paths);
    if n > 0 {
        lemma_issues_match_entries(paths, missing, n - 1);
        let before = issues_among(items, missing, n - 1);
        let now = issues_among(items, missing, n);
        assert(paths[n - 1] == items[n - 1].path);
        assert forall|i: int|
            0 <= i < n && issue_at(items, missing, i) is Some implies now.contains(
            CleanerEntryView {
                path: #[trigger] paths[i],
                issue: issue_at(items, missing, i)->0,
                selected: true,
            },
        ) by {
            let wanted = CleanerEntryView {
                path: paths[i],
                issue: issue_at(items, missing, i)->0,
                selected: true,
            };
            if i < n - 1 {
                assert(before.contains(wanted));
                let at = choose|at: int| 0 <= at < before.len() && before[at] == wanted;
                assert(now[at] == wanted);
            } else {
                assert(now[before.len() as int] == wanted);
            }
        }
        assert forall|a: int| 0 <= a < now.len() implies reports_among(
            paths,
            missing,
            n,
            #[trigger] now[a],
        ) by {
            if a < before.len() {
                assert(now[a] == before[a]);
                assert(reports_among(paths, missing, n - 1, before[a]));
                let i = choose|i: int| i < n - 1 && reports(paths, missing, i, before[a]);
                assert(i < n && reports(paths, missing, i, now[a]));
            } else {
                assert(reports(paths, missing, n - 1, now[a]));
            }
        }
    }
}

/// A cleanup that acts on all that a scan reported keeps just the entries
/// at which the scan found nothing.
pub proof fn lemma_kept_iff_no_issue(
    paths: Seq<Seq<char>>,
    missing: Set<Seq<char>>,
    i: int,
)
    requires
        0 <= i < paths.len(),
    ensures
        is_kept(
            keyed(paths),
            selected_keys(issues_of(keyed(paths), missing), IssueType::Missing),
            selected_keys(issues_of(keyed(paths), missing), IssueType::Duplicate),
            i,
        ) <==> issue_at(keyed(paths), missing, i) is None,
{
    let items = keyed(paths);
    let issues = issues_of(items, missing);
    let drop = selected_keys(issues, IssueType::Missing);
    lemma_issues_match_entries(paths, missing, paths.len() as int);
    assert(items[i].key == lowercase(paths[i]));
    if issue_at(items, missing, i) is Some {
        let kind = issue_at(items, missing, i)->0;
        let report = CleanerEntryView { path: paths[i], issue: kind, selected: true };
        assert(issues.contains(report));
        let at = choose|at: int| 0 <= at < issues.len() && issues[at] == report;
        assert(issues[at].selected && issues[at].issue == kind && lowercase(issues[at].path)
            == items[i].key);
        assert(selected_keys(issues, kind).contains(items[i].key));
    } else {
        if drop.contains(items[i].key) {
            let a = choose|a: int|
                0 <= a < issues.len() && (#[trigger] issues[a]).selected && issues[a].issue
                    == IssueType::Missing && lowercase(issues[a].path) == items[i].key;
            assert(reports_among(paths, missing, paths.len() as int, issues[a]));
            let j = choose|j: int| j < paths.len() && reports(paths, missing, j, issues[a]);
            assert(items[j].key == lowercase(paths[j]));
            assert(!seen_before(items, j));
            if j < i {
                assert(seen_before(items, i));
            } else if i < j {
                assert(seen_before(items, j));
            }
        }
    }
}

/// A cleanup that acts on all that a scan reported takes out as many
/// entries as the scan reported issues.
pub proof fn lemma_cleanup_removes_what_was_reported(
    paths: Seq<Seq<char>>,
    missing: Set<Seq<char>>,
)
    ensures
        cleaned(paths, issues_of(keyed(paths), missing)).len() + issues_of(
            keyed(paths),
            missing,
        ).len() == paths.len(),
{
    lemma_kept_and_reported(paths, missing, paths.len() as int);
}

/// Among the first `n` entries, each is either kept or reported.
proof fn lemma_kept_and_reported(paths: Seq<Seq<char>>, missing: Set<Seq<char>>, n: int)
    requires
        0 <= n <= paths.len(),
    ensures
        kept_among(
            keyed(paths),
            selected_keys(issues_of(keyed(paths), missing), IssueType::Missing),
            selected_keys(issues_of(keyed(paths), missing), IssueType::Duplicate),
            n,
        ).len() + issues_among(keyed(paths), missing, n).len() == n,
    decreases n,
{
    if n > 0 {
        lemma_kept_and_reported(paths, missing, n - 1);
        lemma_kept_iff_no_issue(paths, missing, n - 1);
    }
}

/// What a cleanup keeps after a scan: paths of the list that exist, no two
/// with the same lower-case form.
proof fn lemma_kept_after_scan(paths: Seq<Seq<char>>, missing: Set<Seq<char>>, n: int)
    requires
        0 <= n <= paths.len(),
    ensures
        ({
            let issues = issues_of(keyed(paths), missing);
            let kept = kept_among(
                keyed(paths),
                selected_keys(issues, IssueType::Missing),
                selected_keys(issues, IssueType::Duplicate),
                n,
            );
            &&& distinct_keys(kept)
            &&& forall|a: int|
                0 <= a < kept.len() ==> !missing.contains(#[trigger] kept[a]) && paths.contains(
                    kept[a],
                ) && key_among(keyed(paths), n, lowercase(kept[a]))
        }),
    decreases n,
{
    let items = keyed(paths);
    let issues = issues_of(items, missing);
    let drop = selected_keys(issues, IssueType::Missing);
    let dedup = selected_keys(issues, IssueType::Duplicate);
    let kept = kept_among(items, drop, dedup, n);
    if n > 0 {
        lemma_kept_after_scan(paths, missing, n - 1);
        let before = kept_among(items, drop, dedup, n - 1);
        assert forall|a: int| 0 <= a < before.len() implies key_among(
            items,
            n,
            lowercase(#[trigger] before[a]),
        ) by {
            lemma_key_among_grows(items, n - 1, lowercase(before[a]));
        }
        if is_kept(items, drop, dedup, n - 1) {
            lemma_kept_iff_no_issue(paths, missing, n - 1);
            let path = paths[n - 1];
            assert(items[n - 1].path == path && items[n - 1].key == lowercase(path));
            assert(!seen_before(items, n - 1));
            assert(kept == before.push(path));
            assert forall|a: int| 0 <= a < kept.len() implies !missing.contains(#[trigger] kept[a])
                && paths.contains(kept[a]) && key_among(items, n, lowercase(kept[a])) by {
                if a < before.len() {
                    assert(kept[a] == before[a]);
                } else {
                    assert(kept[a] == path);
                    assert(0 <= n - 1 < n && items[n - 1].key == lowercase(path));
                }
            }
            assert forall|a: int, b: int| 0 <= a < b < kept.len() implies lowercase(
                #[trigger] kept[a],
            ) != lowercase(#[trigger] kept[b]) by {
                if b < before.len() {
                    assert(kept[a] == before[a] && kept[b] == before[b]);
                } else {
                    assert(kept[a] == before[a]);
                    assert(key_among(items, n - 1, lowercase(before[a])));
                }
            }
        } else {
            assert(kept == before);
        }
    }
}

/// A scan finds nothing in a list whose paths all exist and differ in their
/// lower-case forms.
pub proof fn lemma_scan_of_clean_list(paths: Seq<Seq<char>>, missing: Set<Seq<char>>, n: int)
    requires
        distinct_keys(paths),
        forall|i: int| 0 <= i < paths.len() ==> !missing.contains(#[trigger] paths[i]),
        0 <= n <= paths.len(),
    ensures
        issues_among(keyed(paths), missing, n) == Seq::<CleanerEntryView>::empty(),
    decreases n,
{
    let items = keyed(paths);
    if n > 0 {
        lemma_scan_of_clean_list(paths, missing, n - 1);
        assert(items[n - 1].path == paths[n - 1]);
        if seen_before(items, n - 1) {
            let j = choose|j: int|
                0 <= j < n - 1 && j < items.len() && (#[trigger] items[j]).key == items[n - 1].key;
            assert(lowercase(paths[j]) == lowercase(paths[n - 1]));
        }
    }
}

/// A scan, a cleanup of all it reported, and a second scan: the second scan
/// finds nothing. Stated for path lists; the disk is the same for both scans.
pub proof fn lemma_rescan_of_cleaned_list(paths: Seq<Seq<char>>, missing: Set<Seq<char>>)
    ensures
        issues_of(keyed(cleaned(paths, issues_of(keyed(paths), missing))), missing) == Seq::<
            CleanerEntryView,
        >::empty(),
        distinct_keys(cleaned(paths, issues_of(keyed(paths), missing))),
        forall|a: int|
            0 <= a < cleaned(paths, issues_of(keyed(paths), missing)).len() ==> paths.contains(
                #[trigger] cleaned(paths, issues_of(keyed(paths), missing))[a],
            ),
{
    let after = cleaned(paths, issues_of(keyed(paths), missing));
    lemma_kept_after_scan(paths, missing, paths.len() as int);
    lemma_scan_of_clean_list(after, missing, after.len() as int);
}

/// What a cleanup keeps among the first `n` entries: entries of the list
/// whose lower-case form is not to be dropped, and no two of them with the
/// same form but where that form is left alone.
pub proof fn lemma_kept_shape(
    paths: Seq<Seq<char>>,
    drop: Set<Seq<char>>,
    dedup: Set<Seq<char>>,
    n: int,
)
    requires
        0 <= n <= paths.len(),
    ensures
        ({
            let kept = kept_among(keyed(paths), drop, dedup, n);
            &&& forall|a: int|
                0 <= a < kept.len() ==> paths.contains(#[trigger] kept[a]) && !drop.contains(
                    lowercase(kept[a]),
                ) && key_among(keyed(paths), n, lowercase(kept[a]))
            &&& forall|a: int, b: int|
                0 <= a < b < kept.len() && lowercase(#[trigger] kept[a]) == lowercase(
                    #[trigger] kept[b],
                ) ==> !dedup.contains(lowercase(kept[a]))
        }),
    decreases n,
{
    let items = keyed(paths);
    let kept = kept_among(items, drop, dedup, n);
    if n > 0 {
        lemma_kept_shape(paths, drop, dedup, n - 1);
        let before = kept_among(items, drop, dedup, n - 1);
        let path = paths[n - 1];
        assert(items[n - 1].path == path && items[n - 1].key == lowercase(path));
        assert forall|a: int| 0 <= a < before.len() implies key_among(
            items,
            n,
            lowercase(#[trigger] before[a]),
        ) by {
            lemma_key_among_grows(items, n - 1, lowercase(before[a]));
        }
        if is_kept(items, drop, dedup, n - 1) {
            assert(kept == before.push(path));
            assert forall|a: int| 0 <= a < kept.len() implies paths.contains(#[trigger] kept[a])
                && !drop.contains(lowercase(kept[a])) && key_among(
                items,
                n,
                lowercase(kept[a]),
            ) by {
                if a < before.len() {
                    assert(kept[a] == before[a]);
                } else {
                    assert(kept[a] == path);
                    assert(0 <= n - 1 < n && items[n - 1].key == lowercase(path));
                }
            }
            assert forall|a: int, b: int|
                0 <= a < b < kept.len() && lowercase(#[trigger] kept[a]) == lowercase(
                    #[trigger] kept[b],
                ) implies !dedup.contains(lowercase(kept[a])) by {
                if b < before.len() {
                    assert(kept[a] == before[a] && kept[b] == before[b]);
                } else {
                    assert(kept[a] == before[a] && kept[b] == path);
                    assert(key_among(items, n - 1, lowercase(before[a])));
                    assert(seen_before(items, n - 1));
                }
            }
        } else {
            assert(kept == before);
        }
    }
}

/// What a cleanup keeps is the list with entries left out: nothing is
/// added, changed or moved.
pub proof fn lemma_cleaned_is_subsequence(paths: Seq<Seq<char>>, issues: Seq<CleanerEntryView>)
    ensures
        is_subsequence(cleaned(paths, issues), paths),
{
    lemma_kept_is_subsequence(
        paths,
        selected_keys(issues, IssueType::Missing),
        selected_keys(issues, IssueType::Duplicate),
        paths.len() as int,
    );
    assert(paths.take(paths.len() as int) =~= paths);
}

/// What a cleanup keeps among the first `n` entries is these entries with
/// some left out.
proof fn lemma_kept_is_subsequence(
    paths: Seq<Seq<char>>,
    drop: Set<Seq<char>>,
    dedup: Set<Seq<char>>,
    n: int,
)
    requires
        0 <= n <= paths.len(),
    ensures
        is_subsequence(kept_among(keyed(paths), drop, dedup, n), paths.take(n)),
    decreases n,
{
    let items = keyed(paths);
    if n > 0 {
        lemma_kept_is_subsequence(paths, drop, dedup, n - 1);
        let before = kept_among(items, drop, dedup, n - 1);
        let kept = kept_among(items, drop, dedup, n);
        assert(paths.take(n).drop_last() =~= paths.take(n - 1));
        assert(paths.take(n).last() == paths[n - 1]);
        assert(items[n - 1].path == paths[n - 1]);
        if is_kept(items, drop, dedup, n - 1) {
            assert(kept.drop_last() =~= before);
            assert(kept.last() == paths[n - 1]);
        }
    }
}

/// What a cleanup keeps of a path list is a path list, whatever the issues.
pub proof fn lemma_cleaned_is_path_list(paths: Seq<Seq<char>>, issues: Seq<CleanerEntryView>)
    requires
        is_path_list(paths),
    ensures
        is_path_list(cleaned(paths, issues)),
{
    let after = cleaned(paths, issues);
    lemma_kept_shape(
        paths,
        selected_keys(issues, IssueType::Missing),
        selected_keys(issues, IssueType::Duplicate),
        paths.len() as int,
    );
    assert forall|a: int| 0 <= a < after.len() implies is_entry(#[trigger] after[a]) by {
        assert(paths.contains(after[a]));
        let j = choose|j: int| 0 <= j < paths.len() && paths[j] == after[a];
        assert(is_entry(paths[j]));
    }
}

/// The value that a cleanup gives reads back as the list that the cleanup
/// kept, whatever the issues.
pub proof fn lemma_cleaned_reads_back(current: Seq<char>, issues: Seq<CleanerEntryView>)
    ensures
        entries(joined(cleaned(entries(current), issues))) == cleaned(entries(current), issues),
{
    lemma_entries_form_path_list(current);
    lemma_cleaned_is_path_list(entries(current), issues);
    lemma_read_after_write(cleaned(entries(current), issues));
}

/// A second cleanup with the same issues takes nothing more out.
pub proof fn lemma_cleanup_twice(paths: Seq<Seq<char>>, issues: Seq<CleanerEntryView>)
    ensures
        cleaned(cleaned(paths, issues), issues) == cleaned(paths, issues),
{
    let drop = selected_keys(issues, IssueType::Missing);
    let dedup = selected_keys(issues, IssueType::Duplicate);
    let after = cleaned(paths, issues);
    let items = keyed(after);
    lemma_kept_shape(paths, drop, dedup, paths.len() as int);
    assert forall|i: int| 0 <= i < after.len() implies is_kept(items, drop, dedup, i) by {
        assert(items[i].key == lowercase(after[i]));
        if seen_before(items, i) {
            let j = choose|j: int|
                0 <= j < i && j < items.len() && (#[trigger] items[j]).key == items[i].key;
            assert(lowercase(after[j]) == lowercase(after[i]));
        }
    }
    lemma_all_kept(after, drop, dedup, after.len() as int);
    assert(after.take(after.len() as int) =~= after);
}

/// A second cleanup of the stored value with the same issues gives the
/// value that the first one gave.
pub proof fn lemma_cleanup_of_value_twice(current: Seq<char>, issues: Seq<CleanerEntryView>)
    ensures
        ({
            let stored = joined(cleaned(entries(current), issues));
            &&& joined(cleaned(entries(stored), issues)) == stored
            &&& cleaned(entries(stored), issues).len() == entries(stored).len()
        }),
{
    lemma_cleaned_reads_back(current, issues);
    lemma_cleanup_twice(entries(current), issues);
}

/// A scan of a stored path list, a cleanup of all it reported, and a scan of
/// the value that the cleanup gives: the second scan finds nothing. The disk
/// is the same for both scans.
pub proof fn lemma_rescan_after_cleanup(current: Seq<char>, missing: Set<Seq<char>>)
    ensures
        ({
            let issues = issues_of(keyed(entries(current)), missing);
            let stored = joined(cleaned(entries(current), issues));
            issues_of(keyed(entries(stored)), missing) == Seq::<CleanerEntryView>::empty()
        }),
{
    lemma_rescan_of_cleaned_list(entries(current), missing);
    lemma_cleaned_reads_back(current, issues_of(keyed(entries(current)), missing));
}

/// A cleanup never keeps more than there was.
pub proof fn lemma_kept_among_len(
    items: Seq<KeyedPathView>,
    drop: Set<Seq<char>>,
    dedup: Set<Seq<char>>,
    n: int,
)
    requires
        0 <= n,
    ensures
        kept_among(items, drop, dedup, n).len() <= n,
    decreases n,
{
    if n > 0 {
        lemma_kept_among_len(items, drop, dedup, n - 1);
    }
}

/// An entry that a cleanup keeps is in its result.
pub proof fn lemma_kept_entry_stays(
    paths: Seq<Seq<char>>,
    drop: Set<Seq<char>>,
    dedup: Set<Seq<char>>,
    n: int,
    i: int,
)
    requires
        0 <= i < n <= paths.len(),
        is_kept(keyed(paths), drop, dedup, i),
    ensures
        kept_among(keyed(paths), drop, dedup, n).contains(paths[i]),
    decreases n,
{
    let items = keyed(paths);
    let before = kept_among(items, drop, dedup, n - 1);
    let now = kept_among(items, drop, dedup, n);
    if i < n - 1 {
        lemma_kept_entry_stays(paths, drop, dedup, n - 1, i);
        let at = choose|at: int| 0 <= at < before.len() && before[at] == paths[i];
        assert(now[at] == paths[i]);
    } else {
        assert(items[i].path == paths[i]);
        assert(now[before.len() as int] == paths[i]);
    }
}

/// A cleanup never takes out the first entry with a given lower-case form,
/// unless that form is the one of a selected missing path.
pub proof fn lemma_first_occurrence_stays(
    paths: Seq<Seq<char>>,
    issues: Seq<CleanerEntryView>,
    i: int,
)
    requires
        0 <= i < paths.len(),
        !seen_before(keyed(paths), i),
        !selected_keys(issues, IssueType::Missing).contains(lowercase(paths[i])),
    ensures
        is_kept(
            keyed(paths),
            selected_keys(issues, IssueType::Missing),
            selected_keys(issues, IssueType::Duplicate),
            i,
        ),
        cleaned(paths, issues).contains(paths[i]),
{
    lemma_kept_entry_stays(
        paths,
        selected_keys(issues, IssueType::Missing),
        selected_keys(issues, IssueType::Duplicate),
        paths.len() as int,
        i,
    );
}

/// A cleanup that takes nothing out gives the list as it was.
pub proof fn lemma_nothing_removed(
    paths: Seq<Seq<char>>,
    drop: Set<Seq<char>>,
    dedup: Set<Seq<char>>,
    n: int,
)
    requires
        0 <= n <= paths.len(),
        kept_among(keyed(paths), drop, dedup, n).len() == n,
    ensures
        kept_among(keyed(paths), drop, dedup, n) == paths.take(n),
    decreases n,
{
    let items = keyed(paths);
    if n > 0 {
        lemma_kept_among_len(items, drop, dedup, n - 1);
        lemma_nothing_removed(paths, drop, dedup, n - 1);
        assert(items[n - 1].path == paths[n - 1]);
        assert(paths.take(n) =~= paths.take(n - 1).push(paths[n - 1]));
    } else {
        assert(paths.take(0) =~= Seq::<Seq<char>>::empty());
    }
}

/// Where a cleanup reports that it took nothing out, the list is as it was.
pub proof fn lemma_cleanup_that_removes_nothing(
    paths: Seq<Seq<char>>,
    issues: Seq<CleanerEntryView>,
)
    requires
        cleaned(paths, issues).len() == paths.len(),
    ensures
        cleaned(paths, issues) == paths,
{
    lemma_nothing_removed(
        paths,
        selected_keys(issues, IssueType::Missing),
        selected_keys(issues, IssueType::Duplicate),
        paths.len() as int,
    );
    assert(paths.take(paths.len() as int) =~= paths);
}

/// A cleanup with nothing selected takes nothing out.
pub proof fn lemma_cleanup_without_selection(paths: Seq<Seq<char>>, issues: Seq<CleanerEntryView>)
    requires
        forall|a: int| 0 <= a < issues.len() ==> !(#[trigger] issues[a]).selected,
    ensures
        cleaned(paths, issues) == paths,
{
    let drop = selected_keys(issues, IssueType::Missing);
    let dedup = selected_keys(issues, IssueType::Duplicate);
    lemma_all_kept(paths, drop, dedup, paths.len() as int);
    assert(paths.take(paths.len() as int) =~= paths);
}

/// After a scan and a cleanup of all it reported, a second scan and a
/// second cleanup leave the stored value as it is. The disk is the same for
/// both scans.
pub proof fn lemma_second_cleanup_changes_nothing(current: Seq<char>, missing: Set<Seq<char>>)
    ensures
        ({
            let issues = issues_of(keyed(entries(current)), missing);
            let stored = joined(cleaned(entries(current), issues));
            let again = issues_of(keyed(entries(stored)), missing);
            &&& cleaned(entries(stored), again).len() == entries(stored).len()
            &&& joined(cleaned(entries(stored), again)) == stored
        }),
{
    let paths = entries(current);
    let after = cleaned(paths, issues_of(keyed(paths), missing));
    let stored = joined(after);
    let again = issues_of(keyed(entries(stored)), missing);
    lemma_rescan_after_cleanup(current, missing);
    lemma_cleanup_without_selection(entries(stored), again);
    lemma_cleaned_reads_back(current, issues_of(keyed(entries(current)), missing));
}

/// Where a cleanup keeps each of the first `n` entries, it keeps them as
/// they stand.
proof fn lemma_all_kept(paths: Seq<Seq<char>>, drop: Set<Seq<char>>, dedup: Set<Seq<char>>, n: int)
    requires
        0 <= n <= paths.len(),
        forall|i: int| 0 <= i < n ==> is_kept(keyed(paths), drop, dedup, i),
    ensures
        kept_among(keyed(paths), drop, dedup, n) == paths.take(n),
    decreases n,
{
    let items = keyed(paths);
    if n > 0 {
        lemma_all_kept(paths, drop, dedup, n - 1);
        assert(items[n - 1].path == paths[n - 1]);
        assert(paths.take(n) =~= paths.take(n - 1).push(paths[n - 1]));
    } else {
        assert(paths.take(0) =~= Seq::<Seq<char>>::empty());
    }
}

} // verus!
