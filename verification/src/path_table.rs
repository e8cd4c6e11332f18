//! A finite map from paths to inode numbers.
use vstd::prelude::*;
use crate::path::{within, MountPath, PathView};

verus! {

pub struct PathEntry {
    pub path: MountPath,
    pub id: u64,
}

/// Associates each path with at most one number.
pub struct PathTable {
    entries: Vec<PathEntry>,
}

/// The path and number of an entry.
pub open spec fn pair(entry: PathEntry) -> (PathView, u64) {
    (entry.path@, entry.id)
}

/// `path` has an entry.
spec fn listed(entries: Seq<PathEntry>, path: PathView) -> bool {
    exists|i: int| 0 <= i < entries.len() && (#[trigger] entries[i]).path@ == path
}

/// Where the entry of `path` is.
spec fn position(entries: Seq<PathEntry>, path: PathView) -> int {
    choose|i: int| 0 <= i < entries.len() && (#[trigger] entries[i]).path@ == path
}

spec fn distinct(entries: Seq<PathEntry>) -> bool {
    forall|i: int, j: int|
        0 <= i < j < entries.len() ==> (#[trigger] entries[i]).path@ != (#[trigger] entries[j]).path@
}

impl View for PathTable {
    type V = Map<PathView, u64>;

    closed spec fn view(&self) -> Map<PathView, u64> {
        Map::new(
            |path: PathView| listed(self.entries@, path),
            |path: PathView| self.entries@[position(self.entries@, path)].id,
        )
    }
}

/// `moved` lists every entry within `from` once, in some order.
pub open spec fn lists_within(
    moved: Seq<(PathView, u64)>,
    paths: Map<PathView, u64>,
    from: PathView,
) -> bool {
    &&& forall|i: int|
        0 <= i < moved.len() ==> {
            &&& paths.contains_key((#[trigger] moved[i]).0)
            &&& paths[moved[i].0] == moved[i].1
            &&& within(moved[i].0, from)
        }
    &&& forall|i: int, j: int|
        0 <= i < j < moved.len() ==> (#[trigger] moved[i]).0 != (#[trigger] moved[j]).0
    &&& forall|path: PathView| #[trigger]
        paths.contains_key(path) && within(path, from) ==> exists|i: int|
            0 <= i < moved.len() && (#[trigger] moved[i]).0 == path
}

impl PathTable {
    #[verifier::type_invariant]
    spec fn no_path_twice(self) -> bool {
        distinct(self.entries@)
    }

    pub fn new() -> (table: Self)
        ensures
            table@ == Map::<PathView, u64>::empty(),
    {
        let table = PathTable { entries: Vec::new() };
        assert(table@ =~= Map::<PathView, u64>::empty());
        table
    }

    /// Where the entry of `path` is, or the number of entries.
    fn find(&self, path: &MountPath) -> (at: usize)
        ensures
            at <= self.entries@.len(),
            at < self.entries@.len() ==> self.entries@[at as int].path@ == path@,
            at == self.entries@.len() ==> !listed(self.entries@, path@),
    {
        let mut i: usize = 0;
        while i < self.entries.len()
            invariant
                i <= self.entries@.len(),
                forall|j: int| 0 <= j < i ==> (#[trigger] self.entries@[j]).path@ != path@,
            decreases self.entries@.len() - i,
        {
            if self.entries[i].path.same(path) {
                return i;
            }
            i += 1;
        }
        i
    }

    /// The number of `path`.
    pub fn get(&self, path: &MountPath) -> (id: Option<u64>)
        ensures
            id == self@.get(path@),
    {
        proof {
            use_type_invariant(self);
        }
        let at: usize = self.find(path);
        if at < self.entries.len() {
            assert(position(self.entries@, path@) == at);
            Some(self.entries[at].id)
        } else {
            None
        }
    }

    /// Drops the entry of `path`.
    pub fn remove(&mut self, path: &MountPath) -> (id: Option<u64>)
        ensures
            id == old(self)@.get(path@),
            final(self)@ == old(self)@.remove(path@),
    {
        proof {
            use_type_invariant(&*self);
        }
        let at: usize = self.find(path);
        let ghost before = self.entries@;
        if at < self.entries.len() {
            assert(position(before, path@) == at);
            let mut entries: Vec<PathEntry> = Vec::new();
            std::mem::swap(&mut entries, &mut self.entries);
            let entry = entries.remove(at);
            proof {
                assert(entries@ =~= before.remove(at as int));
                lemma_removed(before, at as int, path@);
            }
            self.entries = entries;
            assert(self@ =~= old(self)@.remove(path@));
            Some(entry.id)
        } else {
            assert(self@ =~= old(self)@.remove(path@));
            None
        }
    }

    /// Gives `path` the number `id`, in place of the one it had.
    pub fn insert(&mut self, path: MountPath, id: u64)
        ensures
            final(self)@ == old(self)@.insert(path@, id),
    {
        let _ = self.remove(&path);
        proof {
            use_type_invariant(&*self);
        }
        let ghost before = self.entries@;
        let ghost middle = self@;
        let ghost key = path@;
        let mut entries: Vec<PathEntry> = Vec::new();
        std::mem::swap(&mut entries, &mut self.entries);
        entries.push(PathEntry { path, id });
        proof {
            assert(!middle.contains_key(key));
            lemma_pushed(before, entries@.last());
            assert(entries@ =~= before.push(entries@.last()));
        }
        self.entries = entries;
        assert forall|p: PathView| self@.contains_key(p) == #[trigger] middle.insert(
            key,
            id,
        ).contains_key(p) by {
            assert(listed(self.entries@, p) <==> p == key || listed(before, p));
        }
        assert forall|p: PathView| #[trigger] self@.contains_key(p) implies self@[p]
            == middle.insert(key, id)[p] by {
            assert(listed(self.entries@, p) <==> p == key || listed(before, p));
        }
        assert(self@ =~= middle.insert(key, id));
        assert(self@ =~= old(self)@.insert(key, id));
    }

    /// The entries within `from`.
    pub fn within(&self, from: &MountPath) -> (moved: Vec<PathEntry>)
        ensures
            lists_within(moved@.map_values(|entry: PathEntry| pair(entry)), self@, from@),
    {
        proof {
            use_type_invariant(self);
        }
        let mut moved: Vec<PathEntry> = Vec::new();
        let mut i: usize = 0;
        while i < self.entries.len()
            invariant
                i <= self.entries@.len(),
                distinct(self.entries@),
                forall|k: int|
                    0 <= k < moved@.len() ==> exists|j: int|
                        0 <= j < i && pair(#[trigger] self.entries@[j]) == pair(
                            #[trigger] moved@[k],
                        ) && within(moved@[k].path@, from@),
                forall|k: int, l: int|
                    0 <= k < l < moved@.len() ==> (#[trigger] moved@[k]).path@ != (
                    #[trigger] moved@[l]).path@,
                forall|j: int|
                    0 <= j < i && within((#[trigger] self.entries@[j]).path@, from@) ==> exists|
                        k: int,
                    |
                        0 <= k < moved@.len() && (#[trigger] moved@[k]).path@
                            == self.entries@[j].path@,
            decreases self.entries@.len() - i,
        {
            let ghost before = moved@;
            if self.entries[i].path.is_within(from) {
                moved.push(PathEntry { path: self.entries[i].path.clone(), id: self.entries[i].id });
                assert(moved@ =~= before.push(moved@.last()));
                assert(pair(self.entries@[i as int]) == pair(moved@.last()));
                assert forall|j: int|
                    0 <= j < i && within((#[trigger] self.entries@[j]).path@, from@) implies exists|
                    k: int,
                |
                    0 <= k < moved@.len() && (#[trigger] moved@[k]).path@
                        == self.entries@[j].path@ by {
                    let k = choose|k: int|
                        0 <= k < before.len() && (#[trigger] before[k]).path@
                            == self.entries@[j].path@;
                    assert(moved@[k] == before[k]);
                }
                assert(moved@[before.len() as int].path@ == self.entries@[i as int].path@);
            }
            i += 1;
        }
        proof {
            let pairs = moved@.map_values(|entry: PathEntry| pair(entry));
            assert forall|k: int| 0 <= k < pairs.len() implies {
                &&& self@.contains_key((#[trigger] pairs[k]).0)
                &&& self@[pairs[k].0] == pairs[k].1
                &&& within(pairs[k].0, from@)
            } by {
                let j = choose|j: int|
                    0 <= j < i && pair(#[trigger] self.entries@[j]) == pair(moved@[k]) && within(
                        moved@[k].path@,
                        from@,
                    );
                assert(self.entries@[j].path@ == pairs[k].0);
                assert(position(self.entries@, pairs[k].0) == j);
            }
            assert forall|path: PathView| #[trigger]
                self@.contains_key(path) && within(path, from@) implies exists|k: int|
                0 <= k < pairs.len() && (#[trigger] pairs[k]).0 == path by {
                let j = position(self.entries@, path);
                assert(self.entries@[j].path@ == path);
                let k = choose|k: int|
                    0 <= k < moved@.len() && (#[trigger] moved@[k]).path@ == self.entries@[j].path@;
                assert(pairs[k].0 == path);
            }
        }
        moved
    }
}

/// Dropping the entry of `path` leaves the others where they are found.
proof fn lemma_removed(before: Seq<PathEntry>, at: int, path: PathView)
    requires
        distinct(before),
        0 <= at < before.len(),
        before[at].path@ == path,
    ensures
        distinct(before.remove(at)),
        !listed(before.remove(at), path),
        forall|p: PathView|
            p != path ==> (#[trigger] listed(before.remove(at), p) <==> listed(before, p)),
        forall|p: PathView|
            p != path && #[trigger] listed(before, p) ==> before.remove(at)[position(
                before.remove(at),
                p,
            )] == before[position(before, p)],
{
    let after = before.remove(at);
    assert forall|p: PathView| p != path implies (#[trigger] listed(after, p) <==> listed(
        before,
        p,
    )) by {
        if listed(before, p) {
            let i = position(before, p);
            let j = if i < at { i } else { i - 1 };
            assert(after[j] == before[i]);
        }
        if listed(after, p) {
            let j = position(after, p);
            let i = if j < at { j } else { j + 1 };
            assert(after[j] == before[i]);
        }
    }
    if listed(after, path) {
        let j = position(after, path);
        let i = if j < at { j } else { j + 1 };
        assert(after[j] == before[i]);
        assert(before[i].path@ == before[at].path@);
    }
    assert forall|p: PathView| p != path && #[trigger] listed(before, p) implies after[position(
        after,
        p,
    )] == before[position(before, p)] by {
        let i = position(before, p);
        let j = if i < at { i } else { i - 1 };
        assert(after[j] == before[i]);
        let k = position(after, p);
        assert(after[k].path@ == p && 0 <= k < after.len());
        let l = if k < at { k } else { k + 1 };
        assert(after[k] == before[l]);
        assert(before[l].path@ == before[i].path@);
    }
}

/// Adding an entry for a new path leaves the others where they are found.
proof fn lemma_pushed(before: Seq<PathEntry>, entry: PathEntry)
    requires
        distinct(before),
        !listed(before, entry.path@),
    ensures
        distinct(before.push(entry)),
        forall|p: PathView|
            #[trigger]
            listed(before.push(entry), p) <==> p == entry.path@ || listed(before, p),
        before.push(entry)[position(before.push(entry), entry.path@)] == entry,
        forall|p: PathView| #[trigger]
            listed(before, p) ==> before.push(entry)[position(before.push(entry), p)]
                == before[position(before, p)],
{
    let after = before.push(entry);
    assert(after[before.len() as int] == entry);
    assert forall|p: PathView| #[trigger] listed(after, p) <==> p == entry.path@ || listed(
        before,
        p,
    ) by {
        if listed(before, p) {
            let i = position(before, p);
            assert(after[i] == before[i]);
        }
        if listed(after, p) {
            let i = position(after, p);
            if i < before.len() {
                assert(after[i] == before[i]);
            }
        }
    }
    let k = position(after, entry.path@);
    assert(listed(after, entry.path@));
    if k < before.len() {
        assert(after[k] == before[k]);
    }
    assert forall|p: PathView| #[trigger] listed(before, p) implies after[position(after, p)]
        == before[position(before, p)] by {
        let i = position(before, p);
        assert(after[i] == before[i]);
        assert(listed(after, p));
        let l = position(after, p);
        assert(0 <= l < after.len() && after[l].path@ == p);
        if l < before.len() && l != i {
            assert(after[l] == before[l]);
        }
    }
}

/// What is listed within a directory is all that is there, each entry once with its
/// number, and nothing else.
pub proof fn law_entries_within_are_listed_once(
    moved: Seq<(PathView, u64)>,
    paths: Map<PathView, u64>,
    from: PathView,
    path: PathView,
    i: int,
    j: int,
)
    requires
        lists_within(moved, paths, from),
        0 <= i < moved.len(),
        0 <= j < moved.len(),
    ensures
        within(path, from) && paths.contains_key(path) ==> moved.contains((path, paths[path])),
        moved.contains((path, paths[path])) ==> within(path, from) && paths.contains_key(path),
        paths[moved[i].0] == moved[i].1,
        moved[i].0 == moved[j].0 ==> i == j,
{
    if within(path, from) && paths.contains_key(path) {
        let k = choose|k: int| 0 <= k < moved.len() && (#[trigger] moved[k]).0 == path;
        assert(moved[k] == (path, paths[path]));
    }
}

} // verus!
