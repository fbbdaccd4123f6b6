//! The groups: each a name with its versions in the order the user gave
//! them. No two groups have the same name. A name that no group has stands
//! for a group without versions; asking for it is no error.

use vstd::prelude::*;
use crate::text::{same_text, texts};
use crate::types::{version_views, VersionEntry, VersionEntryView};

verus! {

/// What one group holds.
pub struct GroupView {
    pub name: Seq<char>,
    pub versions: Seq<VersionEntryView>,
}

/// Where the group called `name` stands among `groups`, or `-1` where there
/// is none of that name.
pub open spec fn position(groups: Seq<GroupView>, name: Seq<char>) -> int
    decreases groups.len(),
{
    if groups.len() == 0 {
        -1
    } else if groups.last().name == name {
        groups.len() - 1
    } else {
        position(groups.drop_last(), name)
    }
}

/// Whether there is a group called `name`.
pub open spec fn has_group(groups: Seq<GroupView>, name: Seq<char>) -> bool {
    position(groups, name) >= 0
}

/// The versions of the group called `name`; none where there is no such
/// group.
pub open spec fn versions_of(groups: Seq<GroupView>, name: Seq<char>) -> Seq<VersionEntryView> {
    if has_group(groups, name) {
        groups[position(groups, name)].versions
    } else {
        Seq::empty()
    }
}

/// The paths of a list of versions, in their order.
pub open spec fn paths_of(versions: Seq<VersionEntryView>) -> Seq<Seq<char>> {
    Seq::new(versions.len(), |i: int| versions[i].path)
}

/// The names of the groups, in their order.
pub open spec fn names_of(groups: Seq<GroupView>) -> Seq<Seq<char>> {
    Seq::new(groups.len(), |i: int| groups[i].name)
}

/// No two groups have the same name.
pub open spec fn distinct_names(groups: Seq<GroupView>) -> bool {
    forall|i: int, j: int|
        0 <= i < j < groups.len() ==> (#[trigger] groups[i]).name != (#[trigger] groups[j]).name
}

/// `groups` with the versions of the group called `name` replaced. Nothing
/// changes where there is no such group.
pub open spec fn with_versions(
    groups: Seq<GroupView>,
    name: Seq<char>,
    versions: Seq<VersionEntryView>,
) -> Seq<GroupView> {
    if has_group(groups, name) {
        groups.update(position(groups, name), GroupView { name, versions })
    } else {
        groups
    }
}

/// `groups` without the group called `name`.
pub open spec fn without_group(groups: Seq<GroupView>, name: Seq<char>) -> Seq<GroupView> {
    if has_group(groups, name) {
        groups.remove(position(groups, name))
    } else {
        groups
    }
}

/// `list` with the entries at `i` and `j` exchanged.
pub open spec fn swapped<A>(list: Seq<A>, i: int, j: int) -> Seq<A> {
    list.update(i, list[j]).update(j, list[i])
}

/// Where a name is found, a group of that name stands; where it is not
/// found, no group has it.
pub proof fn lemma_position(groups: Seq<GroupView>, name: Seq<char>)
    ensures
        -1 <= position(groups, name) < groups.len(),
        position(groups, name) >= 0 ==> groups[position(groups, name)].name == name,
        position(groups, name) < 0 ==> forall|i: int|
            0 <= i < groups.len() ==> (#[trigger] groups[i]).name != name,
        forall|i: int|
            position(groups, name) < i < groups.len() ==> (#[trigger] groups[i]).name != name,
    decreases groups.len(),
{
    if groups.len() > 0 {
        lemma_position(groups.drop_last(), name);
        assert forall|i: int| position(groups, name) < i < groups.len() implies (
        #[trigger] groups[i]).name != name by {
            if i < groups.len() - 1 {
                assert(groups.drop_last()[i] == groups[i]);
            }
        }
        if position(groups, name) < 0 {
            assert forall|i: int| 0 <= i < groups.len() implies (#[trigger] groups[i]).name
                != name by {
                if i < groups.len() - 1 {
                    assert(groups.drop_last()[i] == groups[i]);
                }
            }
        }
    }
}

/// Among groups with distinct names, a group stands where its name is
/// found.
pub proof fn lemma_position_of_member(groups: Seq<GroupView>, i: int)
    requires
        distinct_names(groups),
        0 <= i < groups.len(),
    ensures
        position(groups, groups[i].name) == i,
{
    lemma_position(groups, groups[i].name);
    let at = position(groups, groups[i].name);
    if at < i {
        if at >= 0 {
            assert(groups[at].name != groups[i].name);
        }
    }
}

/// One group: a name and the versions under it.
struct Group {
    name: String,
    versions: Vec<VersionEntry>,
}

impl View for Group {
    type V = GroupView;

    closed spec fn view(&self) -> GroupView {
        GroupView { name: self.name@, versions: version_views(self.versions@) }
    }
}

/// What a list of groups holds.
spec fn group_views(list: Seq<Group>) -> Seq<GroupView> {
    Seq::new(list.len(), |i: int| list[i]@)
}

/// Where the group called `name` stands in `list`, if there is one.
fn find_in(list: &Vec<Group>, name: &str) -> (at: Option<usize>)
    requires
        distinct_names(group_views(list@)),
    ensures
        match at {
            Some(i) => i == position(group_views(list@), name@) && i < list.len(),
            None => position(group_views(list@), name@) == -1,
        },
{
    let ghost groups = group_views(list@);
    proof {
        lemma_position(groups, name@);
    }
    let mut i: usize = 0;
    while i < list.len()
        invariant
            i <= list.len(),
            groups == group_views(list@),
            distinct_names(groups),
            forall|j: int| 0 <= j < i ==> (#[trigger] groups[j]).name != name@,
            -1 <= position(groups, name@) < groups.len(),
            position(groups, name@) >= 0 ==> groups[position(groups, name@)].name == name@,
        decreases list.len() - i,
    {
        if same_text(list[i].name.as_str(), name) {
            proof {
                assert(groups[i as int].name == name@);
                lemma_position_of_member(groups, i as int);
            }
            return Some(i);
        }
        i = i + 1;
    }
    None
}

/// The groups of the application, by name.
pub struct Groups {
    list: Vec<Group>,
}

impl View for Groups {
    type V = Seq<GroupView>;

    closed spec fn view(&self) -> Seq<GroupView> {
        group_views(self.list@)
    }
}

impl Groups {
    /// No two groups have the same name.
    #[verifier::type_invariant]
    spec fn well_formed(self) -> bool {
        distinct_names(self@)
    }

    /// No groups.
    pub fn new() -> (groups: Groups)
        ensures
            groups@ == Seq::<GroupView>::empty(),
    {
        let groups = Groups { list: Vec::new() };
        assert(groups@ =~= Seq::<GroupView>::empty());
        groups
    }

    /// The number of groups. Their names are distinct, whatever was done
    /// to them.
    pub fn len(&self) -> (n: usize)
        ensures
            n == self@.len(),
            distinct_names(self@),
    {
        proof {
            use_type_invariant(self);
        }
        self.list.len()
    }

    /// Takes the list out to work on it; an empty one stands in meanwhile.
    fn take_list(&mut self) -> (list: Vec<Group>)
        ensures
            group_views(list@) == old(self)@,
            distinct_names(group_views(list@)),
            final(self)@ == Seq::<GroupView>::empty(),
    {
        proof {
            use_type_invariant(&*self);
        }
        let mut list: Vec<Group> = Vec::new();
        assert(group_views(list@) =~= Seq::<GroupView>::empty());
        std::mem::swap(&mut list, &mut self.list);
        list
    }

    /// Whether there is a group called `name`.
    pub fn contains_key(&self, name: &str) -> (found: bool)
        ensures
            found == has_group(self@, name@),
    {
        proof {
            use_type_invariant(self);
        }
        find_in(&self.list, name).is_some()
    }

    /// The names of the groups, in their order.
    pub fn names(&self) -> (names: Vec<String>)
        ensures
            texts(names@) == names_of(self@),
    {
        let mut names: Vec<String> = Vec::new();
        let mut i: usize = 0;
        while i < self.list.len()
            invariant
                i <= self.list.len(),
                names.len() == i,
                forall|j: int| 0 <= j < i ==> (#[trigger] names[j])@ == self@[j].name,
            decreases self.list.len() - i,
        {
            names.push(self.list[i].name.clone());
            i = i + 1;
        }
        assert(texts(names@) =~= names_of(self@));
        names
    }

    /// The name of the first group, if there is a group.
    pub fn first_name(&self) -> (name: Option<String>)
        ensures
            match name {
                Some(text) => self@.len() > 0 && text@ == self@[0].name,
                None => self@.len() == 0,
            },
    {
        if self.list.len() > 0 {
            Some(self.list[0].name.clone())
        } else {
            None
        }
    }

    /// The versions of the group called `name`: a copy, in their order.
    /// Where there is no such group, there are none.
    pub fn versions(&self, name: &str) -> (versions: Vec<VersionEntry>)
        ensures
            version_views(versions@) == versions_of(self@, name@),
    {
        proof {
            use_type_invariant(self);
        }
        let mut versions: Vec<VersionEntry> = Vec::new();
        match find_in(&self.list, name) {
            Some(at) => {
                let group = &self.list[at];
                let mut i: usize = 0;
                while i < group.versions.len()
                    invariant
                        i <= group.versions.len(),
                        versions.len() == i,
                        forall|j: int|
                            0 <= j < i ==> (#[trigger] versions[j])@ == group.versions[j]@,
                    decreases group.versions.len() - i,
                {
                    versions.push(group.versions[i].clone());
                    i = i + 1;
                }
                assert(version_views(versions@) =~= self@[at as int].versions);
            },
            None => {
                assert(version_views(versions@) =~= Seq::<VersionEntryView>::empty());
            },
        }
        versions
    }

    /// The number of versions of the group called `name`; none where there
    /// is no such group.
    pub fn version_count(&self, name: &str) -> (n: usize)
        ensures
            n == versions_of(self@, name@).len(),
    {
        proof {
            use_type_invariant(self);
        }
        match find_in(&self.list, name) {
            Some(at) => self.list[at].versions.len(),
            None => 0,
        }
    }

    /// The paths of the group called `name`, in their order. Where there
    /// is no such group, there are none.
    pub fn paths(&self, name: &str) -> (paths: Vec<String>)
        ensures
            texts(paths@) == paths_of(versions_of(self@, name@)),
    {
        proof {
            use_type_invariant(self);
        }
        let mut paths: Vec<String> = Vec::new();
        if let Some(at) = find_in(&self.list, name) {
            let group = &self.list[at];
            let mut i: usize = 0;
            while i < group.versions.len()
                invariant
                    i <= group.versions.len(),
                    paths.len() == i,
                    forall|j: int| 0 <= j < i ==> (#[trigger] paths[j])@ == group.versions[j].path@,
                decreases group.versions.len() - i,
            {
                paths.push(group.versions[i].path.clone());
                i = i + 1;
            }
            assert(self@[at as int].versions =~= version_views(group.versions@));
        }
        assert(texts(paths@) =~= paths_of(versions_of(self@, name@)));
        paths
    }

    /// Makes a group called `name`, without versions, unless there is one
    /// of that name already. Says whether it made one.
    pub fn ensure(&mut self, name: &str) -> (made: bool)
        ensures
            made == !has_group(old(self)@, name@),
            made ==> final(self)@ == old(self)@.push(
                GroupView { name: name@, versions: Seq::empty() },
            ),
            !made ==> final(self)@ == old(self)@,
    {
        let mut list = self.take_list();
        let ghost before = group_views(list@);
        proof {
            lemma_position(before, name@);
        }
        let made = find_in(&list, name).is_none();
        if made {
            let group = Group { name: name.to_owned(), versions: Vec::new() };
            assert(group@.versions =~= Seq::<VersionEntryView>::empty());
            list.push(group);
            assert(group_views(list@) =~= before.push(
                GroupView { name: name@, versions: Seq::empty() },
            ));
        }
        self.list = list;
        made
    }

    /// Puts `versions` under `name`: in place of the versions of the group
    /// of that name, or as a new last group.
    pub fn insert(&mut self, name: &str, versions: Vec<VersionEntry>)
        ensures
            has_group(old(self)@, name@) ==> final(self)@ == with_versions(
                old(self)@,
                name@,
                version_views(versions@),
            ),
            !has_group(old(self)@, name@) ==> final(self)@ == old(self)@.push(
                GroupView { name: name@, versions: version_views(versions@) },
            ),
    {
        let mut list = self.take_list();
        let ghost before = group_views(list@);
        let ghost content = GroupView { name: name@, versions: version_views(versions@) };
        proof {
            lemma_position(before, name@);
        }
        match find_in(&list, name) {
            Some(at) => {
                list.set(at, Group { name: name.to_owned(), versions });
                assert(group_views(list@) =~= before.update(at as int, content));
            },
            None => {
                list.push(Group { name: name.to_owned(), versions });
                assert(group_views(list@) =~= before.push(content));
            },
        }
        self.list = list;
    }

    /// Takes the group called `name` away. Says whether there was one.
    pub fn remove(&mut self, name: &str) -> (found: bool)
        ensures
            found == has_group(old(self)@, name@),
            final(self)@ == without_group(old(self)@, name@),
    {
        let mut list = self.take_list();
        let ghost before = group_views(list@);
        let found = match find_in(&list, name) {
            Some(at) => {
                list.remove(at);
                assert(group_views(list@) =~= before.remove(at as int));
                true
            },
            None => false,
        };
        self.list = list;
        found
    }

    /// Adds `entry` as the last version of the group called `name`. Says
    /// whether there is such a group; where there is none, nothing changes.
    pub fn push_version(&mut self, name: &str, entry: VersionEntry) -> (found: bool)
        ensures
            found == has_group(old(self)@, name@),
            final(self)@ == with_versions(
                old(self)@,
                name@,
                versions_of(old(self)@, name@).push(entry@),
            ),
    {
        let mut list = self.take_list();
        let ghost before = group_views(list@);
        proof {
            lemma_position(before, name@);
        }
        let found = match find_in(&list, name) {
            Some(at) => {
                let ghost earlier = version_views(list[at as int].versions@);
                list[at].versions.push(entry);
                assert(version_views(list[at as int].versions@) =~= earlier.push(entry@));
                assert(group_views(list@) =~= before.update(
                    at as int,
                    GroupView { name: name@, versions: earlier.push(entry@) },
                ));
                true
            },
            None => false,
        };
        self.list = list;
        found
    }

    /// Exchanges the versions at `i` and `j` of the group called `name`.
    /// Says whether it did: there must be such a group, and both places in it.
    pub fn swap_versions(&mut self, name: &str, i: usize, j: usize) -> (done: bool)
        ensures
            done == (i < versions_of(old(self)@, name@).len() && j < versions_of(
                old(self)@,
                name@,
            ).len()),
            done ==> final(self)@ == with_versions(
                old(self)@,
                name@,
                swapped(versions_of(old(self)@, name@), i as int, j as int),
            ),
            !done ==> final(self)@ == old(self)@,
    {
        let mut list = self.take_list();
        let ghost before = group_views(list@);
        proof {
            lemma_position(before, name@);
        }
        let mut done = false;
        if let Some(at) = find_in(&list, name) {
            let ghost earlier = version_views(list[at as int].versions@);
            if i < list[at].versions.len() && j < list[at].versions.len() {
                let first = list[at].versions[i].clone();
                let second = list[at].versions[j].clone();
                list[at].versions.set(i, second);
                list[at].versions.set(j, first);
                assert(version_views(list[at as int].versions@) =~= swapped(
                    earlier,
                    i as int,
                    j as int,
                ));
                assert(group_views(list@) =~= before.update(
                    at as int,
                    GroupView { name: name@, versions: swapped(earlier, i as int, j as int) },
                ));
                done = true;
            }
        }
        self.list = list;
        done
    }

    /// Puts `entry` in place of version `i` of the group called `name`.
    /// Says whether it did: there must be such a group, and that place in it.
    pub fn set_version(&mut self, name: &str, i: usize, entry: VersionEntry) -> (done: bool)
        ensures
            done == (i < versions_of(old(self)@, name@).len()),
            done ==> final(self)@ == with_versions(
                old(self)@,
                name@,
                versions_of(old(self)@, name@).update(i as int, entry@),
            ),
            !done ==> final(self)@ == old(self)@,
    {
        let mut list = self.take_list();
        let ghost before = group_views(list@);
        proof {
            lemma_position(before, name@);
        }
        let mut done = false;
        if let Some(at) = find_in(&list, name) {
            let ghost earlier = version_views(list[at as int].versions@);
            if i < list[at].versions.len() {
                list[at].versions.set(i, entry);
                assert(version_views(list[at as int].versions@) =~= earlier.update(
                    i as int,
                    entry@,
                ));
                assert(group_views(list@) =~= before.update(
                    at as int,
                    GroupView { name: name@, versions: earlier.update(i as int, entry@) },
                ));
                done = true;
            }
        }
        self.list = list;
        done
    }

    /// Takes version `i` out of the group called `name` and gives it back.
    /// Where there is no such group, or no such place in it, nothing changes.
    pub fn remove_version(&mut self, name: &str, i: usize) -> (taken: Option<VersionEntry>)
        ensures
            taken is Some == (i < versions_of(old(self)@, name@).len()),
            match taken {
                Some(entry) => entry@ == versions_of(old(self)@, name@)[i as int] && final(self)@
                    == with_versions(
                    old(self)@,
                    name@,
                    versions_of(old(self)@, name@).remove(i as int),
                ),
                None => final(self)@ == old(self)@,
            },
    {
        let mut list = self.take_list();
        let ghost before = group_views(list@);
        proof {
            lemma_position(before, name@);
        }
        let mut taken: Option<VersionEntry> = None;
        if let Some(at) = find_in(&list, name) {
            let ghost earlier = version_views(list[at as int].versions@);
            if i < list[at].versions.len() {
                let entry = list[at].versions.remove(i);
                assert(version_views(list[at as int].versions@) =~= earlier.remove(i as int));
                assert(group_views(list@) =~= before.update(
                    at as int,
                    GroupView { name: name@, versions: earlier.remove(i as int) },
                ));
                taken = Some(entry);
            }
        }
        self.list = list;
        taken
    }
}

} // verus!
