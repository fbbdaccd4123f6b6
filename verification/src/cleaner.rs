//! Finding and removing what is wrong in a path list.
//!
//! A scan walks the list once and reports two kinds of entries: those whose
//! lower-case form stood in the list before (duplicates), and, among the
//! others, those at whose path nothing exists (missing). A cleanup takes the
//! reported entries that are still selected and walks the list again: it
//! drops every entry that was reported missing, and of the entries that were
//! reported as duplicates all but the first.

use vstd::prelude::*;
use crate::host::{lowercase, path_exists, to_lowercase};
use crate::path_list::{entries, join_path_list, joined, parse_path_list};
use crate::text::{contains_text, texts};
use crate::types::{issue_views, CleanerEntry, CleanerEntryView, IssueType};

verus! {

/// An entry of the path list together with the key under which it is
/// compared with the other entries.
#[derive(Debug)]
pub struct KeyedPath {
    pub path: String,
    pub key: String,
}

/// What a [`KeyedPath`] holds.
pub struct KeyedPathView {
    pub path: Seq<char>,
    pub key: Seq<char>,
}

impl View for KeyedPath {
    type V = KeyedPathView;

    open spec fn view(&self) -> KeyedPathView {
        KeyedPathView { path: self.path@, key: self.key@ }
    }
}

/// The contents of a list of keyed paths.
pub open spec fn keyed_views(list: Seq<KeyedPath>) -> Seq<KeyedPathView> {
    Seq::new(list.len(), |i: int| list[i]@)
}

/// The paths of a list, each with its lower-case form as its key.
pub open spec fn keyed(paths: Seq<Seq<char>>) -> Seq<KeyedPathView> {
    Seq::new(paths.len(), |i: int| KeyedPathView { path: paths[i], key: lowercase(paths[i]) })
}

/// Whether one of the first `n` items has the key `key`.
pub open spec fn key_among(items: Seq<KeyedPathView>, n: int, key: Seq<char>) -> bool {
    exists|j: int| 0 <= j < n && j < items.len() && (#[trigger] items[j]).key == key
}

/// Whether the key of item `i` stood in the list before it.
pub open spec fn seen_before(items: Seq<KeyedPathView>, i: int) -> bool {
    key_among(items, i, items[i].key)
}

/// What a scan finds at item `i`, given the set of paths at which nothing
/// exists. A repeated key makes a duplicate whether or not the path exists.
pub open spec fn issue_at(items: Seq<KeyedPathView>, missing: Set<Seq<char>>, i: int) -> Option<
    IssueType,
> {
    if seen_before(items, i) {
        Some(IssueType::Duplicate)
    } else if missing.contains(items[i].path) {
        Some(IssueType::Missing)
    } else {
        None
    }
}

/// The issues among the first `n` items, in the order of the list. Each is
/// selected.
pub open spec fn issues_among(items: Seq<KeyedPathView>, missing: Set<Seq<char>>, n: int) -> Seq<
    CleanerEntryView,
>
    decreases n,
{
    if n <= 0 {
        Seq::empty()
    } else {
        let before = issues_among(items, missing, n - 1);
        match issue_at(items, missing, n - 1) {
            Some(kind) => before.push(
                CleanerEntryView { path: items[n - 1].path, issue: kind, selected: true },
            ),
            None => before,
        }
    }
}

/// The issues of a whole list.
pub open spec fn issues_of(items: Seq<KeyedPathView>, missing: Set<Seq<char>>) -> Seq<
    CleanerEntryView,
> {
    issues_among(items, missing, items.len() as int)
}

/// The keys that a cleanup acts on for one kind of issue: the lower-case
/// forms of the paths of the selected issues of that kind.
pub open spec fn selected_keys(issues: Seq<CleanerEntryView>, kind: IssueType) -> Set<Seq<char>> {
    Set::new(
        |key: Seq<char>|
            exists|i: int|
                0 <= i < issues.len() && (#[trigger] issues[i]).selected && issues[i].issue == kind
                    && lowercase(issues[i].path) == key,
    )
}

/// Whether a cleanup keeps item `i`: its key is not to be dropped, and it
/// is the first with its key unless that key is left alone.
pub open spec fn is_kept(
    items: Seq<KeyedPathView>,
    drop: Set<Seq<char>>,
    dedup: Set<Seq<char>>,
    i: int,
) -> bool {
    !drop.contains(items[i].key) && (!dedup.contains(items[i].key) || !seen_before(items, i))
}

/// The paths that a cleanup keeps among the first `n` items, in the order
/// of the list.
pub open spec fn kept_among(
    items: Seq<KeyedPathView>,
    drop: Set<Seq<char>>,
    dedup: Set<Seq<char>>,
    n: int,
) -> Seq<Seq<char>>
    decreases n,
{
    if n <= 0 {
        Seq::empty()
    } else {
        let before = kept_among(items, drop, dedup, n - 1);
        if is_kept(items, drop, dedup, n - 1) {
            before.push(items[n - 1].path)
        } else {
            before
        }
    }
}

/// The paths that a cleanup keeps of a whole list.
pub open spec fn kept_of(
    items: Seq<KeyedPathView>,
    drop: Set<Seq<char>>,
    dedup: Set<Seq<char>>,
) -> Seq<Seq<char>> {
    kept_among(items, drop, dedup, items.len() as int)
}

/// The path list after a cleanup that acts on the selected `issues`.
pub open spec fn cleaned(paths: Seq<Seq<char>>, issues: Seq<CleanerEntryView>) -> Seq<Seq<char>> {
    kept_of(
        keyed(paths),
        selected_keys(issues, IssueType::Missing),
        selected_keys(issues, IssueType::Duplicate),
    )
}

/// Whether `seen` holds just the keys of the first `n` items, leaving out
/// the keys in `except`.
spec fn holds_keys(
    seen: Seq<Seq<char>>,
    items: Seq<KeyedPathView>,
    n: int,
    except: Set<Seq<char>>,
) -> bool {
    &&& forall|k: Seq<char>| #[trigger]
        seen.contains(k) ==> key_among(items, n, k) && !except.contains(k)
    &&& forall|j: int|
        0 <= j < n && j < items.len() && !except.contains((#[trigger] items[j]).key)
            ==> seen.contains(items[j].key)
}

/// A key that one of the first `n` items has, one of the first `n + 1` has.
pub proof fn lemma_key_among_grows(items: Seq<KeyedPathView>, n: int, key: Seq<char>)
    requires
        key_among(items, n, key),
    ensures
        key_among(items, n + 1, key),
{
    let j = choose|j: int| 0 <= j < n && j < items.len() && (#[trigger] items[j]).key == key;
    assert(0 <= j < n + 1 && items[j].key == key);
}

/// With the keys so far at hand, a look into them tells whether the key of
/// the next item stood in the list before.
proof fn lemma_holds_keys_tells(
    seen: Seq<Seq<char>>,
    items: Seq<KeyedPathView>,
    n: int,
    except: Set<Seq<char>>,
)
    requires
        holds_keys(seen, items, n, except),
        0 <= n < items.len(),
        !except.contains(items[n].key),
    ensures
        seen.contains(items[n].key) == seen_before(items, n),
{
    if seen_before(items, n) {
        let j = choose|j: int|
            0 <= j < n && j < items.len() && (#[trigger] items[j]).key == items[n].key;
        assert(seen.contains(items[j].key));
    }
}

/// Moving on by one item: the keys at hand stay right if the key of the
/// item is among them or is left out, and if it is added.
proof fn lemma_holds_keys_step(
    seen: Seq<Seq<char>>,
    items: Seq<KeyedPathView>,
    n: int,
    except: Set<Seq<char>>,
)
    requires
        holds_keys(seen, items, n, except),
        0 <= n < items.len(),
    ensures
        seen.contains(items[n].key) || except.contains(items[n].key) ==> holds_keys(
            seen,
            items,
            n + 1,
            except,
        ),
        !except.contains(items[n].key) ==> holds_keys(
            seen.push(items[n].key),
            items,
            n + 1,
            except,
        ),
{
    let key = items[n].key;
    assert forall|k: Seq<char>| key_among(items, n, k) implies key_among(items, n + 1, k) by {
        lemma_key_among_grows(items, n, k);
    }
    assert(key_among(items, n + 1, key)) by {
        assert(items[n].key == key);
    }
    if !except.contains(key) {
        let more = seen.push(key);
        assert forall|k: Seq<char>| #[trigger] more.contains(k) implies key_among(items, n + 1, k)
            && !except.contains(k) by {
            let at = choose|at: int| 0 <= at < more.len() && more[at] == k;
            if at < seen.len() {
                assert(seen[at] == k);
                assert(seen.contains(k));
            }
        }
        assert forall|j: int|
            0 <= j < n + 1 && j < items.len() && !except.contains(
                (#[trigger] items[j]).key,
            ) implies more.contains(items[j].key) by {
            if j < n {
                assert(seen.contains(items[j].key));
                let at = choose|at: int| 0 <= at < seen.len() && seen[at] == items[j].key;
                assert(more[at] == items[j].key);
            } else {
                assert(more[seen.len() as int] == key);
            }
        }
    }
}

/// Gives every part of a path list its lower-case form as its key.
pub fn with_keys(parts: &Vec<String>) -> (items: Vec<KeyedPath>)
    ensures
        keyed_views(items@) == keyed(texts(parts@)),
{
    let mut items: Vec<KeyedPath> = Vec::new();
    let mut i: usize = 0;
    while i < parts.len()
        invariant
            i <= parts.len(),
            items.len() == i,
            forall|j: int|
                0 <= j < i ==> (#[trigger] items[j])@ == (KeyedPathView {
                    path: parts[j]@,
                    key: lowercase(parts[j]@),
                }),
        decreases parts.len() - i,
    {
        let key = to_lowercase(parts[i].as_str());
        items.push(KeyedPath { path: parts[i].clone(), key });
        i = i + 1;
    }
    assert(keyed_views(items@) =~= keyed(texts(parts@)));
    items
}

/// Scans a list of keyed paths, given the paths at which nothing exists.
///
/// An item whose key stood in the list before is reported as a duplicate.
/// Of the others, those whose path is in `missing` are reported as missing.
/// The issues come in the order of the list, each selected.
pub fn scan_keyed(items: &Vec<KeyedPath>, missing: &Vec<String>) -> (issues: Vec<CleanerEntry>)
    ensures
        issue_views(issues@) == issues_of(keyed_views(items@), texts(missing@).to_set()),
{
    let ghost model = keyed_views(items@);
    let ghost absent = texts(missing@).to_set();
    let ghost nothing = Set::<Seq<char>>::empty();
    let mut issues: Vec<CleanerEntry> = Vec::new();
    let mut seen: Vec<String> = Vec::new();
    let mut i: usize = 0;
    proof {
        assert(issue_views(issues@) =~= issues_among(model, absent, 0));
    }
    while i < items.len()
        invariant
            i <= items.len(),
            model == keyed_views(items@),
            absent == texts(missing@).to_set(),
            nothing == Set::<Seq<char>>::empty(),
            holds_keys(texts(seen@), model, i as int, nothing),
            issue_views(issues@) == issues_among(model, absent, i as int),
        decreases items.len() - i,
    {
        let item = &items[i];
        let ghost seen_keys = texts(seen@);
        let ghost found = issue_views(issues@);
        proof {
            assert(model[i as int] == item@);
            lemma_holds_keys_tells(seen_keys, model, i as int, nothing);
            lemma_holds_keys_step(seen_keys, model, i as int, nothing);
        }
        let mut issue: Option<IssueType> = None;
        if contains_text(&seen, &item.key) {
            issue = Some(IssueType::Duplicate);
        } else {
            seen.push(item.key.clone());
            assert(texts(seen@) =~= seen_keys.push(item.key@));
            if contains_text(missing, &item.path) {
                issue = Some(IssueType::Missing);
            }
        }
        assert(issue == issue_at(model, absent, i as int));
        if let Some(kind) = issue {
            issues.push(CleanerEntry { path: item.path.clone(), issue: kind, selected: true });
            proof {
                assert(issue_views(issues@) =~= found.push(
                    CleanerEntryView { path: model[i as int].path, issue: kind, selected: true },
                ));
            }
        }
        i = i + 1;
    }
    issues
}

/// Scans the stored path list `current_path`, given the paths at which
/// nothing exists. Entries are compared by their lower-case forms.
pub fn scan_with_missing(current_path: &str, missing: &Vec<String>) -> (issues: Vec<CleanerEntry>)
    ensures
        issue_views(issues@) == issues_of(
            keyed(entries(current_path@)),
            texts(missing@).to_set(),
        ),
{
    let parts = parse_path_list(current_path);
    let items = with_keys(&parts);
    scan_keyed(&items, missing)
}

/// Whether `path` is the path of one of the first `n` items, and of one
/// whose key did not stand in the list before it.
pub open spec fn is_first_path(items: Seq<KeyedPathView>, n: int, path: Seq<char>) -> bool {
    exists|j: int|
        0 <= j < n && j < items.len() && !seen_before(items, j) && (#[trigger] items[j]).path
            == path
}

/// Whether `issues` is the scan of the stored value `current` for the
/// missing paths `missing`, and `missing` holds only paths that such a scan
/// asks the disk for.
pub open spec fn explains(
    current: Seq<char>,
    missing: Set<Seq<char>>,
    issues: Seq<CleanerEntryView>,
) -> bool {
    &&& forall|path: Seq<char>| #[trigger]
        missing.contains(path) ==> is_first_path(
            keyed(entries(current)),
            entries(current).len() as int,
            path,
        )
    &&& issues == issues_of(keyed(entries(current)), missing)
}

/// Whether `issues` is a scan of the stored value `current` against a disk,
/// whatever the disk held.
pub open spec fn scanned(current: Seq<char>, issues: Seq<CleanerEntryView>) -> bool {
    exists|missing: Set<Seq<char>>| explains(current, missing, issues)
}

/// Takes down what the disk said of `item`: where nothing was found at its
/// path, the path joins the missing ones; else they stay as they are.
pub fn note_answer(missing: &mut Vec<String>, item: &KeyedPath, found: bool)
    ensures
        texts(final(missing)@) == if found {
            texts(old(missing)@)
        } else {
            texts(old(missing)@).push(item@.path)
        },
{
    let ghost before = texts(missing@);
    if !found {
        missing.push(item.path.clone());
        assert(texts(missing@) =~= before.push(item@.path));
    }
}

/// Scans the stored path list `current_path` against the disk as it is.
///
/// The first entry of each lower-case form is looked up on the disk, and
/// no other; the result is the scan for the set of paths at which nothing
/// was found. Which of the paths asked for are in that set depends on the
/// disk alone, so the contract says that there is such a set, and that it
/// holds only paths that were asked for.
pub fn scan_for_issues(current_path: &str) -> (issues: Vec<CleanerEntry>)
    ensures
        scanned(current_path@, issue_views(issues@)),
{
    let parts = parse_path_list(current_path);
    let items = with_keys(&parts);
    let ghost model = keyed_views(items@);
    let ghost nothing = Set::<Seq<char>>::empty();
    let mut missing: Vec<String> = Vec::new();
    let mut seen: Vec<String> = Vec::new();
    let mut i: usize = 0;
    while i < items.len()
        invariant
            i <= items.len(),
            model == keyed_views(items@),
            nothing == Set::<Seq<char>>::empty(),
            holds_keys(texts(seen@), model, i as int, nothing),
            forall|path: Seq<char>| #[trigger]
                texts(missing@).contains(path) ==> is_first_path(model, i as int, path),
        decreases items.len() - i,
    {
        let ghost seen_keys = texts(seen@);
        let ghost noted = texts(missing@);
        proof {
            assert(model[i as int] == items[i as int]@);
            lemma_holds_keys_tells(seen_keys, model, i as int, nothing);
            lemma_holds_keys_step(seen_keys, model, i as int, nothing);
            assert forall|path: Seq<char>|
                is_first_path(model, i as int, path) implies is_first_path(
                model,
                i as int + 1,
                path,
            ) by {
                let j = choose|j: int|
                    0 <= j < i as int && j < model.len() && !seen_before(model, j) && (
                    #[trigger] model[j]).path == path;
                assert(0 <= j < i as int + 1 && model[j].path == path);
            }
        }
        if !contains_text(&seen, &items[i].key) {
            seen.push(items[i].key.clone());
            assert(texts(seen@) =~= seen_keys.push(items[i as int].key@));
            let found = path_exists(items[i].path.as_str());
            note_answer(&mut missing, &items[i], found);
            proof {
                assert(is_first_path(model, i as int + 1, model[i as int].path));
                assert forall|path: Seq<char>| #[trigger]
                    texts(missing@).contains(path) implies is_first_path(
                    model,
                    i as int + 1,
                    path,
                ) by {
                    let at = choose|at: int|
                        0 <= at < texts(missing@).len() && texts(missing@)[at] == path;
                    if at < noted.len() {
                        assert(noted[at] == path);
                        assert(noted.contains(path));
                    }
                }
            }
        }
        i = i + 1;
    }
    let issues = scan_keyed(&items, &missing);
    proof {
        let absent = texts(missing@).to_set();
        assert forall|path: Seq<char>| #[trigger] absent.contains(path) implies is_first_path(
            keyed(entries(current_path@)),
            entries(current_path@).len() as int,
            path,
        ) by {
            assert(texts(missing@).contains(path));
        }
        assert(explains(current_path@, absent, issue_views(issues@)));
    }
    issues
}

/// The lower-case forms of the paths of the selected issues of one kind.
pub fn keys_of_selected(issues: &[CleanerEntry], kind: IssueType) -> (keys: Vec<String>)
    ensures
        texts(keys@).to_set() == selected_keys(issue_views(issues@), kind),
{
    let ghost model = issue_views(issues@);
    let mut keys: Vec<String> = Vec::new();
    let mut i: usize = 0;
    while i < issues.len()
        invariant
            i <= issues.len(),
            model == issue_views(issues@),
            forall|k: Seq<char>| #[trigger]
                texts(keys@).contains(k) ==> selected_keys(model, kind).contains(k),
            forall|j: int|
                0 <= j < i && (#[trigger] model[j]).selected && model[j].issue == kind
                    ==> texts(keys@).contains(lowercase(model[j].path)),
        decreases issues.len() - i,
    {
        let ghost earlier = texts(keys@);
        assert(model[i as int] == issues[i as int]@);
        if issues[i].selected && issues[i].issue == kind {
            let key = to_lowercase(issues[i].path.as_str());
            keys.push(key);
            proof {
                let more = texts(keys@);
                assert(more =~= earlier.push(key@));
                assert forall|k: Seq<char>| #[trigger] more.contains(k) implies selected_keys(
                    model,
                    kind,
                ).contains(k) by {
                    let at = choose|at: int| 0 <= at < more.len() && more[at] == k;
                    if at < earlier.len() {
                        assert(earlier[at] == k);
                        assert(earlier.contains(k));
                    } else {
                        assert(model[i as int].selected && lowercase(model[i as int].path) == k);
                    }
                }
                assert forall|j: int|
                    0 <= j < i + 1 && (#[trigger] model[j]).selected && model[j].issue
                        == kind implies more.contains(lowercase(model[j].path)) by {
                    if j < i {
                        let k = lowercase(model[j].path);
                        assert(earlier.contains(k));
                        let at = choose|at: int| 0 <= at < earlier.len() && earlier[at] == k;
                        assert(more[at] == k);
                    } else {
                        assert(more[earlier.len() as int] == key@);
                    }
                }
            }
        }
        i = i + 1;
    }
    proof {
        assert forall|k: Seq<char>| selected_keys(model, kind).contains(k) implies texts(
            keys@,
        ).to_set().contains(k) by {
            let j = choose|j: int|
                0 <= j < model.len() && (#[trigger] model[j]).selected && model[j].issue == kind
                    && lowercase(model[j].path) == k;
            assert(texts(keys@).contains(lowercase(model[j].path)));
        }
        assert(texts(keys@).to_set() =~= selected_keys(model, kind));
    }
    keys
}

/// Cleans a list of keyed paths, given the keys to drop and the keys to
/// keep only once. Gives the paths that stay, in their order, and the number
/// of items taken out.
///
/// An item whose key is in `drop` goes. Of the items whose key is in
/// `dedup`, the first stays and the later ones go. Every other item stays.
pub fn clean_keyed(items: &Vec<KeyedPath>, drop: &Vec<String>, dedup: &Vec<String>) -> (out: (
    Vec<String>,
    usize,
))
    ensures
        texts(out.0@) == kept_of(
            keyed_views(items@),
            texts(drop@).to_set(),
            texts(dedup@).to_set(),
        ),
        out.1 == items.len() - out.0.len(),
{
    let ghost model = keyed_views(items@);
    let ghost drop_keys = texts(drop@).to_set();
    let ghost dedup_keys = texts(dedup@).to_set();
    let mut kept: Vec<String> = Vec::new();
    let mut seen: Vec<String> = Vec::new();
    let mut removed_count: usize = 0;
    let mut i: usize = 0;
    proof {
        assert(texts(kept@) =~= kept_among(model, drop_keys, dedup_keys, 0));
    }
    while i < items.len()
        invariant
            i <= items.len(),
            model == keyed_views(items@),
            drop_keys == texts(drop@).to_set(),
            dedup_keys == texts(dedup@).to_set(),
            holds_keys(texts(seen@), model, i as int, drop_keys),
            texts(kept@) == kept_among(model, drop_keys, dedup_keys, i as int),
            removed_count + kept.len() == i,
        decreases items.len() - i,
    {
        let item = &items[i];
        let ghost seen_keys = texts(seen@);
        let ghost stayed = texts(kept@);
        proof {
            assert(model[i as int] == item@);
            lemma_holds_keys_step(seen_keys, model, i as int, drop_keys);
            if !drop_keys.contains(item.key@) {
                lemma_holds_keys_tells(seen_keys, model, i as int, drop_keys);
            }
        }
        if contains_text(drop, &item.key) {
            removed_count = removed_count + 1;
        } else if contains_text(dedup, &item.key) && contains_text(&seen, &item.key) {
            removed_count = removed_count + 1;
        } else {
            if !contains_text(&seen, &item.key) {
                seen.push(item.key.clone());
                assert(texts(seen@) =~= seen_keys.push(item.key@));
            }
            kept.push(item.path.clone());
            assert(texts(kept@) =~= stayed.push(model[i as int].path));
        }
        i = i + 1;
    }
    (kept, removed_count)
}

/// Cleans the stored path list `current_path` of the selected `issues`.
///
/// Gives the value to store and the number of entries taken out. An entry
/// goes if its lower-case form is that of a selected missing path, or if it
/// is that of a selected duplicate and stood in the list before. Where the
/// number is zero the list is as it was read.
pub fn perform_cleanup(current_path: &str, issues: &[CleanerEntry]) -> (out: (String, usize))
    ensures
        out.0@ == joined(cleaned(entries(current_path@), issue_views(issues@))),
        out.1 == entries(current_path@).len() - cleaned(
            entries(current_path@),
            issue_views(issues@),
        ).len(),
{
    let to_remove_missing = keys_of_selected(issues, IssueType::Missing);
    let to_deduplicate = keys_of_selected(issues, IssueType::Duplicate);
    let parts = parse_path_list(current_path);
    let items = with_keys(&parts);
    let (new_parts, removed_count) = clean_keyed(&items, &to_remove_missing, &to_deduplicate);
    (join_path_list(&new_parts), removed_count)
}

} // verus!
