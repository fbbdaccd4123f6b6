//! Making one path of a group the active one.
//!
//! Activation takes every path of the group out of the path list, wherever
//! it stands and in whatever case it is written, and puts the chosen path in
//! front. Paths are compared as texts, up to the case of ASCII letters:
//! a trailing backslash or another spelling of the same place makes a
//! different path.

use vstd::prelude::*;
use vstd::string::StringExecFns;
use crate::path_list::{
    entries, entries_of_all, is_entry, is_path_list, join_path_list, joined,
    lemma_entries_form_path_list, lemma_entries_of_entry, lemma_entries_of_joined,
    lemma_entries_of_path_list, parse_path_list, SEPARATOR,
};
use crate::seq_facts::{lemma_filter_drops_all, lemma_filter_keeps_all, lemma_filter_members};
use crate::text::{eq_ignore_ascii_case, same_ignoring_ascii_case, texts};

verus! {

/// Whether `p` is, up to ASCII case, one of the paths in `managed`.
pub open spec fn is_managed(p: Seq<char>, managed: Set<Seq<char>>) -> bool {
    exists|m: Seq<char>| #[trigger] managed.contains(m) && same_ignoring_ascii_case(p, m)
}

/// `list` without its managed paths.
pub open spec fn unmanaged(list: Seq<Seq<char>>, managed: Set<Seq<char>>) -> Seq<Seq<char>> {
    list.filter(|p: Seq<char>| !is_managed(p, managed))
}

/// The path list after `target` was activated: `target` first, then what
/// `list` holds besides the managed paths, in the order it had.
pub open spec fn activated(
    list: Seq<Seq<char>>,
    managed: Set<Seq<char>>,
    target: Seq<char>,
) -> Seq<Seq<char>> {
    seq![target] + unmanaged(list, managed)
}

/// The stored value after `target` was activated on the stored value
/// `current`.
pub open spec fn activated_value(
    current: Seq<char>,
    managed: Set<Seq<char>>,
    target: Seq<char>,
) -> Seq<char> {
    joined(activated(entries(current), managed, target))
}

/// After an activation the target stands first, and no managed path
/// follows it.
pub proof fn lemma_activated_shape(
    list: Seq<Seq<char>>,
    managed: Set<Seq<char>>,
    target: Seq<char>,
)
    ensures
        activated(list, managed, target).len() >= 1,
        activated(list, managed, target)[0] == target,
        forall|i: int|
            1 <= i < activated(list, managed, target).len() ==> !is_managed(
                #[trigger] activated(list, managed, target)[i],
                managed,
            ),
        forall|i: int|
            1 <= i < activated(list, managed, target).len() ==> list.contains(
                #[trigger] activated(list, managed, target)[i],
            ),
{
    let stay = |p: Seq<char>| !is_managed(p, managed);
    lemma_filter_members(list, stay);
    assert forall|i: int| 1 <= i < activated(list, managed, target).len() implies !is_managed(
        #[trigger] activated(list, managed, target)[i],
        managed,
    ) && list.contains(activated(list, managed, target)[i]) by {
        assert(activated(list, managed, target)[i] == list.filter(stay)[i - 1]);
    }
}

/// Activating a managed path a second time changes nothing.
pub proof fn lemma_activated_twice(
    list: Seq<Seq<char>>,
    managed: Set<Seq<char>>,
    target: Seq<char>,
)
    requires
        is_managed(target, managed),
    ensures
        activated(activated(list, managed, target), managed, target) == activated(
            list,
            managed,
            target,
        ),
{
    let stay = |p: Seq<char>| !is_managed(p, managed);
    let rest = unmanaged(list, managed);
    lemma_filter_members(list, stay);
    lemma_filter_keeps_all(rest, stay);
    lemma_filter_drops_all(seq![target], stay);
    Seq::filter_distributes_over_add(seq![target], rest, stay);
    assert(Seq::<Seq<char>>::empty() + rest =~= rest);
}

/// What is left of a path list after an activation is a path list.
pub proof fn lemma_unmanaged_is_path_list(list: Seq<Seq<char>>, managed: Set<Seq<char>>)
    requires
        is_path_list(list),
    ensures
        is_path_list(unmanaged(list, managed)),
{
    let stay = |p: Seq<char>| !is_managed(p, managed);
    lemma_filter_members(list, stay);
    assert forall|i: int| 0 <= i < unmanaged(list, managed).len() implies is_entry(
        #[trigger] unmanaged(list, managed)[i],
    ) by {
        let e = unmanaged(list, managed)[i];
        assert(list.contains(e));
        let j = choose|j: int| 0 <= j < list.len() && list[j] == e;
        assert(is_entry(list[j]));
    }
}

/// The value that an activation stores reads back as the entries of the
/// target, followed by what was left of the list.
pub proof fn lemma_activated_value_entries(
    current: Seq<char>,
    managed: Set<Seq<char>>,
    target: Seq<char>,
)
    ensures
        entries(activated_value(current, managed, target)) == entries(target) + unmanaged(
            entries(current),
            managed,
        ),
        is_entry(target) ==> entries(activated_value(current, managed, target)) == activated(
            entries(current),
            managed,
            target,
        ),
{
    let rest = unmanaged(entries(current), managed);
    let list = activated(entries(current), managed, target);
    lemma_entries_form_path_list(current);
    lemma_unmanaged_is_path_list(entries(current), managed);
    lemma_entries_of_joined(list);
    lemma_entries_of_all_prepend(target, rest);
    lemma_entries_of_path_list(rest);
    if is_entry(target) {
        assert(!target.contains(SEPARATOR));
        lemma_entries_of_entry(target);
    }
}

/// The entries of a list with one more part in front.
proof fn lemma_entries_of_all_prepend(first: Seq<char>, rest: Seq<Seq<char>>)
    ensures
        entries_of_all(seq![first] + rest) == entries(first) + entries_of_all(rest),
    decreases rest.len(),
{
    let whole = seq![first] + rest;
    if rest.len() == 0 {
        assert(whole.drop_last() =~= Seq::<Seq<char>>::empty());
        assert(whole.last() == first);
        assert(entries_of_all(whole.drop_last()) =~= Seq::<Seq<char>>::empty());
        assert(entries_of_all(whole) =~= entries(first) + entries_of_all(rest));
    } else {
        lemma_entries_of_all_prepend(first, rest.drop_last());
        assert(whole.drop_last() =~= seq![first] + rest.drop_last());
        assert(whole.last() == rest.last());
        assert(entries_of_all(whole) =~= entries(first) + entries_of_all(rest));
    }
}

/// Activating the same target on the value that an activation stored gives
/// that value again, provided every entry of the target is managed.
pub proof fn lemma_activated_value_twice(
    current: Seq<char>,
    managed: Set<Seq<char>>,
    target: Seq<char>,
)
    requires
        forall|i: int|
            0 <= i < entries(target).len() ==> is_managed(#[trigger] entries(target)[i], managed),
    ensures
        activated_value(activated_value(current, managed, target), managed, target)
            == activated_value(current, managed, target),
{
    let stay = |p: Seq<char>| !is_managed(p, managed);
    let rest = unmanaged(entries(current), managed);
    lemma_activated_value_entries(current, managed, target);
    lemma_filter_members(entries(current), stay);
    lemma_filter_keeps_all(rest, stay);
    lemma_filter_drops_all(entries(target), stay);
    Seq::filter_distributes_over_add(entries(target), rest, stay);
    assert(Seq::<Seq<char>>::empty() + rest =~= rest);
}

/// Where a second activation on the stored value changes nothing, every
/// entry of the target is managed: the law above asks for no more than it
/// needs.
pub proof fn lemma_activated_value_twice_needs_managed_target(
    current: Seq<char>,
    managed: Set<Seq<char>>,
    target: Seq<char>,
)
    requires
        activated_value(activated_value(current, managed, target), managed, target)
            == activated_value(current, managed, target),
    ensures
        forall|i: int|
            0 <= i < entries(target).len() ==> is_managed(#[trigger] entries(target)[i], managed),
{
    let stay = |p: Seq<char>| !is_managed(p, managed);
    let rest = unmanaged(entries(current), managed);
    let once = activated_value(current, managed, target);
    lemma_activated_value_entries(current, managed, target);
    lemma_activated_value_entries(once, managed, target);
    lemma_filter_members(entries(current), stay);
    lemma_filter_keeps_all(rest, stay);
    Seq::filter_distributes_over_add(entries(target), rest, stay);
    assert(entries(target).filter(stay).len() == 0);
    assert forall|i: int| 0 <= i < entries(target).len() implies is_managed(
        #[trigger] entries(target)[i],
        managed,
    ) by {
        if stay(entries(target)[i]) {
            entries(target).lemma_filter_contains(stay, i);
        }
    }
}

/// Whether `path` is, up to ASCII case, one of the paths in `managed`.
pub fn is_managed_path(path: &str, managed: &Vec<String>) -> (found: bool)
    ensures
        found == is_managed(path@, texts(managed@).to_set()),
{
    let mut i: usize = 0;
    while i < managed.len()
        invariant
            i <= managed.len(),
            forall|j: int| 0 <= j < i ==> !same_ignoring_ascii_case(path@, texts(managed@)[j]),
        decreases managed.len() - i,
    {
        if eq_ignore_ascii_case(path, managed[i].as_str()) {
            proof {
                let m = texts(managed@)[i as int];
                assert(texts(managed@).contains(m));
                assert(texts(managed@).to_set().contains(m));
            }
            return true;
        }
        i = i + 1;
    }
    proof {
        assert forall|m: Seq<char>| #[trigger]
            texts(managed@).to_set().contains(m) implies !same_ignoring_ascii_case(path@, m) by {
            assert(texts(managed@).contains(m));
            let j = choose|j: int| 0 <= j < texts(managed@).len() && texts(managed@)[j] == m;
            assert(!same_ignoring_ascii_case(path@, texts(managed@)[j]));
        }
    }
    false
}

/// Activates `target` on a path list: the result starts with `target`, and
/// then holds the entries of `current` that are not managed, in their order.
pub fn activate_list(current: &Vec<String>, managed: &Vec<String>, target: &str) -> (list: Vec<
    String,
>)
    ensures
        texts(list@) == activated(texts(current@), texts(managed@).to_set(), target@),
        list.len() >= 1,
        list[0]@ == target@,
        forall|i: int|
            1 <= i < list.len() ==> !is_managed(
                (#[trigger] list[i])@,
                texts(managed@).to_set(),
            ),
{
    let ghost group = texts(managed@).to_set();
    let ghost stay = |p: Seq<char>| !is_managed(p, group);
    let mut list: Vec<String> = Vec::new();
    list.push(String::from_str(target));
    let mut i: usize = 0;
    proof {
        assert(texts(current@).take(0) =~= Seq::<Seq<char>>::empty());
        reveal(Seq::filter);
        assert(texts(list@) =~= seq![target@] + texts(current@).take(0).filter(stay));
    }
    while i < current.len()
        invariant
            i <= current.len(),
            group == texts(managed@).to_set(),
            stay == |p: Seq<char>| !is_managed(p, group),
            texts(list@) == seq![target@] + texts(current@).take(i as int).filter(stay),
        decreases current.len() - i,
    {
        let ghost done = texts(current@).take(i as int);
        let ghost more = texts(current@).take(i as int + 1);
        proof {
            assert(more =~= done.push(current@[i as int]@));
            done.lemma_filter_push(current@[i as int]@, stay);
        }
        if !is_managed_path(current[i].as_str(), managed) {
            let ghost earlier = texts(list@);
            list.push(current[i].clone());
            proof {
                assert(texts(list@) =~= earlier.push(current@[i as int]@));
                assert(texts(list@) =~= seq![target@] + more.filter(stay));
            }
        }
        i = i + 1;
    }
    proof {
        assert(texts(current@).take(i as int) =~= texts(current@));
        lemma_activated_shape(texts(current@), group, target@);
        assert forall|i: int| 1 <= i < list.len() implies !is_managed(
            (#[trigger] list[i])@,
            group,
        ) by {
            assert(list[i]@ == texts(list@)[i]);
        }
        assert(list[0]@ == texts(list@)[0]);
    }
    list
}

/// Activates `target_path` on the stored path list `current_path` and gives
/// the value to store: `target_path` first, then the entries of
/// `current_path` that are none of the paths in `managed`.
pub fn activate(current_path: &str, managed: &Vec<String>, target_path: &str) -> (stored: String)
    ensures
        stored@ == activated_value(current_path@, texts(managed@).to_set(), target_path@),
{
    let current = parse_path_list(current_path);
    let list = activate_list(&current, managed, target_path);
    join_path_list(&list)
}

} // verus!
