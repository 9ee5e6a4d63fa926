//! The projects of a ledger, kept by key. They are held in the order of
//! their keys, so that listing them needs no sorting and no key occurs twice.

use crate::clock::Timestamp;
use crate::key::{key_before, precedes_irreflexive, precedes_transitive, ProjectKey, Rank};
use crate::project::{AdditionResult, Project, ProjectView};
use crate::record::{RResult, Record};
use vstd::prelude::*;
use vstd::utf8::encode_utf8;

verus! {

/// Whether the projects of `list` stand in the strict order of their keys.
pub open spec fn in_key_order(list: Seq<ProjectView>) -> bool {
    forall|i: int, j: int|
        0 <= i < j < list.len() ==> key_before(
            (#[trigger] list[i]).key(),
            (#[trigger] list[j]).key(),
        )
}

/// Whether `list` lists what `map` holds: every project of the list is the
/// one that the map holds under its key, every key of the map is met in the
/// list, and the list is in the order of the keys.
pub open spec fn is_listing(map: Map<Seq<char>, ProjectView>, list: Seq<ProjectView>) -> bool {
    &&& in_key_order(list)
    &&& forall|i: int|
        0 <= i < list.len() ==> map.dom().contains((#[trigger] list[i]).key()) && map[list[i].key()]
            == list[i]
    &&& forall|key: Seq<char>|
        map.dom().contains(key) ==> exists|i: int|
            0 <= i < list.len() && (#[trigger] list[i]).key() == key
}

/// Whether some project of `list` has the key `key`.
spec fn listed(list: Seq<ProjectView>, key: Seq<char>) -> bool {
    exists|i: int| 0 <= i < list.len() && (#[trigger] list[i]).key() == key
}

/// A place in `list` where the key `key` is met.
spec fn place_of(list: Seq<ProjectView>, key: Seq<char>) -> int {
    choose|i: int| 0 <= i < list.len() && (#[trigger] list[i]).key() == key
}

/// The map from keys to the projects of `list`.
spec fn as_map(list: Seq<ProjectView>) -> Map<Seq<char>, ProjectView> {
    Map::new(|key: Seq<char>| listed(list, key), |key: Seq<char>| list[place_of(list, key)])
}

/// In a list in key order a key is met at one place only.
proof fn one_place(list: Seq<ProjectView>, i: int, j: int)
    requires
        in_key_order(list),
        0 <= i < list.len(),
        0 <= j < list.len(),
        list[i].key() == list[j].key(),
    ensures
        i == j,
{
    precedes_irreflexive(encode_utf8(list[i].key()));
}

/// In a list in key order each project is found at its own place.
proof fn found_in_place(list: Seq<ProjectView>, i: int)
    requires
        in_key_order(list),
        0 <= i < list.len(),
    ensures
        listed(list, list[i].key()),
        place_of(list, list[i].key()) == i,
        as_map(list).dom().contains(list[i].key()),
        as_map(list)[list[i].key()] == list[i],
{
    one_place(list, i, place_of(list, list[i].key()));
}

/// A list in key order lists its own map.
proof fn lists_own_map(list: Seq<ProjectView>)
    requires
        in_key_order(list),
    ensures
        is_listing(as_map(list), list),
{
    assert forall|i: int| 0 <= i < list.len() implies as_map(list).dom().contains(
        (#[trigger] list[i]).key(),
    ) && as_map(list)[list[i].key()] == list[i] by {
        found_in_place(list, i);
    }
}

/// Where `key` belongs in `list`: after all keys before it, and before all
/// keys after it.
spec fn belongs_at(list: Seq<ProjectView>, key: Seq<char>, at: int) -> bool {
    &&& 0 <= at <= list.len()
    &&& forall|i: int| 0 <= i < at ==> key_before((#[trigger] list[i]).key(), key)
    &&& forall|i: int| at <= i < list.len() ==> key_before(key, (#[trigger] list[i]).key())
}

/// A key that would belong between two projects of a list in key order is
/// not the key of any of them.
proof fn absent_where_it_belongs(list: Seq<ProjectView>, key: Seq<char>, at: int)
    requires
        in_key_order(list),
        belongs_at(list, key, at),
    ensures
        !listed(list, key),
        !as_map(list).dom().contains(key),
{
    precedes_irreflexive(encode_utf8(key));
}

/// Putting a project where its key belongs keeps the order and adds it to
/// the map.
proof fn insert_in_order(list: Seq<ProjectView>, project: ProjectView, at: int)
    requires
        in_key_order(list),
        belongs_at(list, project.key(), at),
    ensures
        in_key_order(list.insert(at, project)),
        as_map(list.insert(at, project)) == as_map(list).insert(project.key(), project),
{
    let grown = list.insert(at, project);
    assert(in_key_order(grown)) by {
        assert forall|i: int, j: int| 0 <= i < j < grown.len() implies key_before(
            (#[trigger] grown[i]).key(),
            (#[trigger] grown[j]).key(),
        ) by {
            if j < at {
                assert(grown[i] == list[i] && grown[j] == list[j]);
            } else if j == at {
                assert(grown[i] == list[i]);
            } else if i < at {
                assert(grown[i] == list[i] && grown[j] == list[j - 1]);
                if j - 1 < at {
                } else {
                    precedes_transitive(
                        encode_utf8(list[i].key()),
                        encode_utf8(project.key()),
                        encode_utf8(list[j - 1].key()),
                    );
                }
            } else if i == at {
                assert(grown[j] == list[j - 1]);
            } else {
                assert(grown[i] == list[i - 1] && grown[j] == list[j - 1]);
            }
        }
    }
    let target = as_map(list).insert(project.key(), project);
    assert forall|key: Seq<char>| as_map(grown).dom().contains(key) implies target.dom().contains(
        key,
    ) && as_map(grown)[key] == target[key] by {
        let g = place_of(grown, key);
        found_in_place(grown, g);
        precedes_irreflexive(encode_utf8(project.key()));
        assert(grown[at] == project);
        if g < at {
            assert(grown[g] == list[g]);
            found_in_place(list, g);
        } else if g > at {
            assert(grown[g] == list[g - 1]);
            found_in_place(list, g - 1);
        }
    }
    assert forall|key: Seq<char>| target.dom().contains(key) implies as_map(grown).dom().contains(
        key,
    ) by {
        if key == project.key() {
            assert(grown[at] == project);
            found_in_place(grown, at);
        } else {
            let p = place_of(list, key);
            if p < at {
                assert(grown[p] == list[p]);
                found_in_place(grown, p);
            } else {
                assert(grown[p + 1] == list[p]);
                found_in_place(grown, p + 1);
            }
        }
    }
    assert(as_map(grown) =~= target);
}

/// Taking a project out of a list in key order keeps the order and takes
/// its key out of the map.
proof fn remove_in_order(list: Seq<ProjectView>, at: int)
    requires
        in_key_order(list),
        0 <= at < list.len(),
    ensures
        in_key_order(list.remove(at)),
        as_map(list.remove(at)) == as_map(list).remove(list[at].key()),
{
    let shrunk = list.remove(at);
    assert(in_key_order(shrunk)) by {
        assert forall|i: int, j: int| 0 <= i < j < shrunk.len() implies key_before(
            (#[trigger] shrunk[i]).key(),
            (#[trigger] shrunk[j]).key(),
        ) by {
            let i0 = if i < at {
                i
            } else {
                i + 1
            };
            let j0 = if j < at {
                j
            } else {
                j + 1
            };
            assert(shrunk[i] == list[i0] && shrunk[j] == list[j0]);
        }
    }
    let target = as_map(list).remove(list[at].key());
    assert forall|key: Seq<char>| #[trigger]
        as_map(shrunk).dom().contains(key) == target.dom().contains(key) by {
        if as_map(shrunk).dom().contains(key) {
            let s = place_of(shrunk, key);
            let s0 = if s < at {
                s
            } else {
                s + 1
            };
            assert(shrunk[s] == list[s0]);
            found_in_place(list, s0);
            if key == list[at].key() {
                one_place(list, s0, at);
            }
        }
        if target.dom().contains(key) {
            let p = place_of(list, key);
            if p < at {
                assert(shrunk[p] == list[p]);
                found_in_place(shrunk, p);
            } else {
                assert(p != at);
                assert(shrunk[p - 1] == list[p]);
                found_in_place(shrunk, p - 1);
            }
        }
    }
    assert forall|key: Seq<char>| #[trigger]
        as_map(shrunk).dom().contains(key) implies as_map(shrunk)[key] == target[key] by {
        let s = place_of(shrunk, key);
        found_in_place(shrunk, s);
        let s0 = if s < at {
            s
        } else {
            s + 1
        };
        assert(shrunk[s] == list[s0]);
        found_in_place(list, s0);
    }
    assert(as_map(shrunk) =~= target);
}

/// Replacing a project by one of the same key keeps the order and replaces
/// it in the map.
proof fn update_in_order(list: Seq<ProjectView>, at: int, project: ProjectView)
    requires
        in_key_order(list),
        0 <= at < list.len(),
        project.key() == list[at].key(),
    ensures
        in_key_order(list.update(at, project)),
        as_map(list.update(at, project)) == as_map(list).insert(project.key(), project),
{
    let changed = list.update(at, project);
    assert(in_key_order(changed)) by {
        assert forall|i: int, j: int| 0 <= i < j < changed.len() implies key_before(
            (#[trigger] changed[i]).key(),
            (#[trigger] changed[j]).key(),
        ) by {
            assert(changed[i].key() == list[i].key() && changed[j].key() == list[j].key());
        }
    }
    let target = as_map(list).insert(project.key(), project);
    assert forall|key: Seq<char>| as_map(changed).dom().contains(key) implies target.dom().contains(
        key,
    ) && as_map(changed)[key] == target[key] by {
        let c = place_of(changed, key);
        found_in_place(changed, c);
        if c != at {
            assert(changed[c] == list[c]);
            found_in_place(list, c);
            if key == project.key() {
                one_place(list, c, at);
            }
        }
    }
    assert forall|key: Seq<char>| target.dom().contains(key) implies as_map(changed).dom().contains(
        key,
    ) by {
        if key == project.key() {
            found_in_place(changed, at);
        } else {
            let p = place_of(list, key);
            assert(changed[p] == list[p]);
            found_in_place(changed, p);
        }
    }
    assert(as_map(changed) =~= target);
}

/// The projects of a ledger, each under the key of its name.
#[derive(Debug, Clone)]
pub struct Projects {
    entries: Vec<Project>,
}

impl View for Projects {
    type V = Map<Seq<char>, ProjectView>;

    closed spec fn view(&self) -> Map<Seq<char>, ProjectView> {
        as_map(self.listing())
    }
}

impl Projects {
    /// The projects as they are listed: in the order of their keys.
    pub closed spec fn listing(&self) -> Seq<ProjectView> {
        self.entries@.map_values(|p: Project| p@)
    }

    /// The projects stand in the order of their keys, and each is
    /// well-formed.
    pub closed spec fn wf(&self) -> bool {
        &&& in_key_order(self.listing())
        &&& forall|i: int| 0 <= i < self.entries@.len() ==> (#[trigger] self.entries@[i]).wf()
    }

    /// The listing of well-formed projects lists what the map holds, every
    /// project is well-formed, and none is kept under a key but its own.
    pub proof fn wf_listing(&self)
        requires
            self.wf(),
        ensures
            is_listing(self@, self.listing()),
            forall|key: Seq<char>|
                self@.dom().contains(key) ==> (#[trigger] self@[key]).wf() && self@[key].key()
                    == key,
    {
        lists_own_map(self.listing());
        assert forall|key: Seq<char>| self@.dom().contains(key) implies (#[trigger] self@[key]).wf()
            && self@[key].key() == key by {
            let at = place_of(self.listing(), key);
            assert(self.listing()[at] == self.entries@[at]@);
            assert(self.entries@[at].wf());
        }
    }

    /// Projects that differ from well-formed ones in one place, where a
    /// well-formed project of the same key stands, are well-formed, and hold
    /// that project under its key and the others as before.
    proof fn one_replaced(&self, before: &Projects, at: int)
        requires
            before.wf(),
            0 <= at < before.entries@.len(),
            self.entries@ == before.entries@.update(at, self.entries@[at]),
            self.entries@[at].wf(),
            self.entries@[at]@.key() == before.entries@[at]@.key(),
        ensures
            self.wf(),
            self@ == before@.insert(before.entries@[at]@.key(), self.entries@[at]@),
    {
        let project = self.entries@[at]@;
        assert(self.listing() =~= before.listing().update(at, project));
        update_in_order(before.listing(), at, project);
        assert forall|i: int| 0 <= i < self.entries@.len() implies (#[trigger] self.entries@[i]).wf() by {
            if i != at {
                assert(self.entries@[i] == before.entries@[i]);
            }
        }
    }

    /// No projects.
    pub fn new() -> (projects: Projects)
        ensures
            projects@ == Map::<Seq<char>, ProjectView>::empty(),
            projects.wf(),
    {
        let projects = Projects { entries: Vec::new() };
        assert(projects@ =~= Map::<Seq<char>, ProjectView>::empty());
        projects
    }

    /// Where `key` is, or where it belongs.
    fn locate(&self, key: &ProjectKey) -> (found: (usize, bool))
        requires
            self.wf(),
        ensures
            found.1 ==> found.0 < self.entries@.len() && self.listing()[found.0 as int].key()
                == key@,
            !found.1 ==> belongs_at(self.listing(), key@, found.0 as int),
            found.1 == self@.dom().contains(key@),
    {
        let mut at: usize = 0;
        while at < self.entries.len()
            invariant
                self.wf(),
                at <= self.entries@.len(),
                forall|i: int| 0 <= i < at ==> key_before((#[trigger] self.listing()[i]).key(), key@),
            decreases self.entries@.len() - at,
        {
            assert(self.entries@[at as int].wf());
            assert(self.listing()[at as int] == self.entries@[at as int]@);
            match self.entries[at].key().rank(key) {
                Rank::Before => {
                    at += 1;
                },
                Rank::Same => {
                    proof {
                        found_in_place(self.listing(), at as int);
                    }
                    return (at, true);
                },
                Rank::After => {
                    proof {
                        let list = self.listing();
                        assert forall|i: int| at <= i < list.len() implies key_before(
                            key@,
                            (#[trigger] list[i]).key(),
                        ) by {
                            if i > at {
                                precedes_transitive(
                                    encode_utf8(key@),
                                    encode_utf8(list[at as int].key()),
                                    encode_utf8(list[i].key()),
                                );
                            }
                        }
                        absent_where_it_belongs(list, key@, at as int);
                    }
                    return (at, false);
                },
            }
        }
        proof {
            absent_where_it_belongs(self.listing(), key@, at as int);
        }
        (at, false)
    }

    /// How many projects there are.
    pub fn len(&self) -> (count: usize)
        ensures
            count == self.listing().len(),
    {
        self.entries.len()
    }

    /// Whether a project is kept under `key`.
    pub fn contains(&self, key: &ProjectKey) -> (found: bool)
        requires
            self.wf(),
        ensures
            found == self@.dom().contains(key@),
    {
        self.locate(key).1
    }

    /// The project kept under `key`.
    pub fn get(&self, key: &ProjectKey) -> (project: Option<&Project>)
        requires
            self.wf(),
        ensures
            project is Some <==> self@.dom().contains(key@),
            project matches Some(project) ==> project@ == self@[key@] && project.wf(),
    {
        let (at, found) = self.locate(key);
        if found {
            proof {
                found_in_place(self.listing(), at as int);
                assert(self.listing()[at as int] == self.entries@[at as int]@);
            }
            Some(&self.entries[at])
        } else {
            None
        }
    }

    /// Keeps `project` under its key, unless a project is kept there
    /// already: then nothing changes.
    pub fn insert(&mut self, project: Project) -> (added: bool)
        requires
            old(self).wf(),
            project.wf(),
        ensures
            added == !old(self)@.dom().contains(project@.key()),
            added ==> final(self)@ == old(self)@.insert(project@.key(), project@),
            !added ==> final(self)@ == old(self)@,
            final(self).wf(),
    {
        let (at, found) = self.locate(project.key());
        if found {
            false
        } else {
            proof {
                insert_in_order(self.listing(), project@, at as int);
            }
            self.entries.insert(at, project);
            assert(self.listing() =~= old(self).listing().insert(at as int, project@));
            true
        }
    }

    /// Takes out the project kept under `key` and hands it over.
    pub fn remove(&mut self, key: &ProjectKey) -> (removed: Option<Project>)
        requires
            old(self).wf(),
        ensures
            removed is Some <==> old(self)@.dom().contains(key@),
            removed matches Some(project) ==> project@ == old(self)@[key@] && project.wf(),
            final(self)@ == old(self)@.remove(key@),
            final(self).wf(),
    {
        let (at, found) = self.locate(key);
        if found {
            proof {
                remove_in_order(self.listing(), at as int);
                found_in_place(self.listing(), at as int);
                assert(self.listing()[at as int] == self.entries@[at as int]@);
            }
            let project = self.entries.remove(at);
            assert(self.listing() =~= old(self).listing().remove(at as int));
            Some(project)
        } else {
            assert(self@ =~= old(self)@.remove(key@));
            None
        }
    }

    /// Adds `record` to the project kept under `key`, as
    /// [`Project::add_record`] does. Without such a project nothing happens.
    pub fn add_record(&mut self, key: &ProjectKey, record: Record) -> (added: Option<
        AdditionResult,
    >)
        requires
            old(self).wf(),
            record@.wf(),
        ensures
            added is Some <==> old(self)@.dom().contains(key@),
            added matches Some(verdict) ==> {
                &&& verdict == old(self)@[key@].add_outcome(record@)
                &&& final(self)@ == old(self)@.insert(
                    key@,
                    old(self)@[key@].with_record(record@),
                )
            },
            added is None ==> final(self)@ == old(self)@,
            final(self).wf(),
    {
        let (at, found) = self.locate(key);
        if found {
            proof {
                found_in_place(self.listing(), at as int);
                assert(self.listing()[at as int] == self.entries@[at as int]@);
                assert(self.entries@[at as int].wf());
            }
            let verdict = self.entries[at].add_record(record);
            proof {
                self.one_replaced(old(self), at as int);
            }
            Some(verdict)
        } else {
            None
        }
    }

    /// Closes or corrects at `end` the last record of the project kept under
    /// `key`, as [`Project::end_at`] does. Without such a project, or while
    /// it has no record, nothing happens.
    pub fn end_at(&mut self, key: &ProjectKey, end: Timestamp) -> (ended: Option<RResult>)
        requires
            old(self).wf(),
        ensures
            ended is Some <==> old(self)@.dom().contains(key@) && old(self)@[key@].records.len()
                > 0,
            ended matches Some(verdict) ==> {
                &&& verdict == old(self)@[key@].records.last().crop_outcome(end@)
                &&& final(self)@ == old(self)@.insert(key@, old(self)@[key@].ended_at(end@))
            },
            ended is None ==> final(self)@ == old(self)@,
            final(self).wf(),
    {
        let (at, found) = self.locate(key);
        if found {
            proof {
                found_in_place(self.listing(), at as int);
                assert(self.listing()[at as int] == self.entries@[at as int]@);
                assert(self.entries@[at as int].wf());
            }
            if self.entries[at].last_record().is_none() {
                return None;
            }
            let verdict = self.entries[at].end_at(end);
            proof {
                self.one_replaced(old(self), at as int);
            }
            Some(verdict)
        } else {
            None
        }
    }

    /// All projects, in the order of their keys.
    pub fn list(&self) -> (list: Vec<&Project>)
        ensures
            list@.map_values(|p: &Project| p@) == self.listing(),
    {
        let mut list: Vec<&Project> = Vec::new();
        let mut at: usize = 0;
        while at < self.entries.len()
            invariant
                at <= self.entries@.len(),
                list@.len() == at,
                forall|i: int| 0 <= i < at ==> (#[trigger] list@[i])@ == self.entries@[i]@,
            decreases self.entries@.len() - at,
        {
            list.push(&self.entries[at]);
            at += 1;
        }
        assert(list@.map_values(|p: &Project| p@) =~= self.listing());
        list
    }
}

} // verus!
