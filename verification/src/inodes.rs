//! The inode table of a mounted root: which number stands for which path, how
//! often the kernel holds each number, and which handles are open.
use std::collections::{HashMap, VecDeque};
use vstd::prelude::*;
use crate::errno::Errno;
use crate::metadata::{entries_view, EntryView, FsDirectoryEntry};
use crate::path::{rebased, within, MountPath, PathView};
use crate::path_table::{lists_within, pair, PathEntry, PathTable};

verus! {

broadcast use vstd::std_specs::hash::group_hash_axioms;

/// The number of the root directory.
pub const ROOT: u64 = 1;

/// One number that the kernel may hold. A node whose entry was removed or
/// replaced has no path left.
pub struct Node {
    pub path: Option<MountPath>,
    pub lookups: u64,
    pub opens: u64,
}

#[verifier::ext_equal]
pub struct NodeView {
    pub path: Option<PathView>,
    pub lookups: u64,
    pub opens: u64,
}

/// What an optional path says.
pub open spec fn path_view(path: Option<MountPath>) -> Option<PathView> {
    match path {
        Some(p) => Some(p@),
        None => None,
    }
}

impl View for Node {
    type V = NodeView;

    open spec fn view(&self) -> NodeView {
        NodeView { path: path_view(self.path), lookups: self.lookups, opens: self.opens }
    }
}

/// An open directory: the provider's handle, how many entries have been passed,
/// and the entries received but not passed yet.
pub struct Directory {
    pub ino: u64,
    pub path: MountPath,
    pub remote: u64,
    pub offset: u64,
    pub pending: VecDeque<FsDirectoryEntry>,
    pub eof: bool,
}

#[verifier::ext_equal]
pub struct DirectoryView {
    pub ino: u64,
    pub path: PathView,
    pub remote: u64,
    pub offset: u64,
    pub pending: Seq<EntryView>,
    pub eof: bool,
}

impl View for Directory {
    type V = DirectoryView;

    open spec fn view(&self) -> DirectoryView {
        DirectoryView {
            ino: self.ino,
            path: self.path@,
            remote: self.remote,
            offset: self.offset,
            pending: entries_view(self.pending@),
            eof: self.eof,
        }
    }
}

impl DirectoryView {
    /// The position after the last entry received is below the limit.
    pub open spec fn has_room(self) -> bool {
        self.offset + self.pending.len() < u64::MAX
    }

    /// The directory after its ancestor `from` has become `to`.
    pub open spec fn renamed(self, from: PathView, to: PathView) -> Self {
        if within(self.path, from) {
            DirectoryView { path: rebased(self.path, from, to), ..self }
        } else {
            self
        }
    }
}

pub struct State {
    next: u64,
    nodes: HashMap<u64, Node>,
    paths: PathTable,
    files: HashMap<u64, u64>,
    dirs: HashMap<u64, Directory>,
}

/// The contents of a [`State`]. `next` is the last number given out.
#[verifier::ext_equal]
pub struct StateView {
    pub next: u64,
    pub nodes: Map<u64, NodeView>,
    pub paths: Map<PathView, u64>,
    pub files: Map<u64, u64>,
    pub dirs: Map<u64, DirectoryView>,
}

impl View for State {
    type V = StateView;

    closed spec fn view(&self) -> StateView {
        StateView {
            next: self.next,
            nodes: self.nodes@.map_values(|node: Node| node@),
            paths: self.paths@,
            files: self.files@,
            dirs: self.dirs@.map_values(|directory: Directory| directory@),
        }
    }
}

impl StateView {
    /// A table in which the kernel holds the root and nothing is open.
    pub open spec fn initial() -> Self {
        StateView {
            next: ROOT,
            nodes: map![ROOT => NodeView { path: Some(PathView::empty()), lookups: 1, opens: 0 }],
            paths: map![PathView::empty() => ROOT],
            files: Map::empty(),
            dirs: Map::empty(),
        }
    }

    /// Every listed path leads to a node that knows that path, numbers stay
    /// below the last one given out, and number 1 is in use.
    pub open spec fn is_linked(self) -> bool {
        &&& forall|path: PathView| #[trigger]
            self.paths.contains_key(path) ==> self.nodes.contains_key(self.paths[path])
                && self.nodes[self.paths[path]].path == Some(path)
        &&& forall|id: u64| #[trigger] self.nodes.contains_key(id) ==> ROOT <= id <= self.next
        &&& self.nodes.contains_key(ROOT)
    }

    /// The table is linked, and every node that knows a path is listed under it:
    /// paths and numbers match one to one.
    pub open spec fn is_matched(self) -> bool {
        &&& self.is_linked()
        &&& forall|id: u64| #[trigger]
            self.nodes.contains_key(id) ==> (self.nodes[id].path matches Some(path)
                ==> self.paths.contains_key(path) && self.paths[path] == id)
    }

    /// The table is linked, the root is number 1 and no other, and the position
    /// after every entry received can still be counted.
    pub open spec fn is_consistent(self) -> bool {
        &&& self.is_linked()
        &&& forall|id: u64| #[trigger]
            self.nodes.contains_key(id) && self.nodes[id].path == Some(PathView::empty()) ==> id
                == ROOT
        &&& self.paths.contains_key(PathView::empty())
        &&& self.paths[PathView::empty()] == ROOT
        &&& forall|key: u64| #[trigger] self.dirs.contains_key(key) ==> self.dirs[key].has_room()
    }

    pub open spec fn with_node(self, id: u64, node: NodeView) -> Self {
        StateView { nodes: self.nodes.insert(id, node), ..self }
    }

    /// The path that a number stands for.
    pub open spec fn path_of(self, id: u64) -> Option<PathView> {
        if self.nodes.contains_key(id) {
            self.nodes[id].path
        } else {
            None
        }
    }

    /// The lookup count that another lookup of `path` raises is below its limit.
    pub open spec fn can_look_up(self, path: PathView) -> bool {
        self.paths.contains_key(path) ==> self.nodes[self.paths[path]].lookups < u64::MAX
    }

    /// The open count of `id` is below its limit.
    pub open spec fn can_open(self, id: u64) -> bool {
        self.nodes.contains_key(id) ==> self.nodes[id].opens < u64::MAX
    }

    /// The position after `count` more entries of the directory under `key` is
    /// below its limit.
    pub open spec fn can_receive(self, key: u64, count: nat) -> bool {
        self.dirs.contains_key(key) ==> self.dirs[key].offset + self.dirs[key].pending.len()
            + count < u64::MAX
    }

    /// The number of `path` and the table after one more lookup of it: the number
    /// it has, or a new one. `None` when no new number is left.
    pub open spec fn looked_up(self, path: PathView) -> Option<(Self, u64)> {
        if self.paths.contains_key(path) {
            let id = self.paths[path];
            let node = self.nodes[id];
            Some(
                (
                    self.with_node(id, NodeView { lookups: (node.lookups + 1) as u64, ..node }),
                    id,
                ),
            )
        } else if self.next == u64::MAX {
            None
        } else {
            let id = (self.next + 1) as u64;
            Some(
                (
                    StateView {
                        next: id,
                        nodes: self.nodes.insert(
                            id,
                            NodeView { path: Some(path), lookups: 1, opens: 0 },
                        ),
                        paths: self.paths.insert(path, id),
                        ..self
                    },
                    id,
                ),
            )
        }
    }

    /// Neither the kernel nor an open handle needs `id`, and it is not the root.
    pub open spec fn is_unused(self, id: u64) -> bool {
        &&& id != ROOT
        &&& self.nodes.contains_key(id)
        &&& self.nodes[id].lookups == 0
        &&& self.nodes[id].opens == 0
    }

    /// The table without `id`, if nothing needs it any more.
    pub open spec fn collected(self, id: u64) -> Self {
        if self.is_unused(id) {
            StateView {
                nodes: self.nodes.remove(id),
                paths: match self.nodes[id].path {
                    Some(path) => self.paths.remove(path),
                    None => self.paths,
                },
                ..self
            }
        } else {
            self
        }
    }

    /// The table after the entry at `path` has gone.
    pub open spec fn retired(self, path: PathView) -> Self {
        if self.paths.contains_key(path) {
            let id = self.paths[path];
            StateView {
                paths: self.paths.remove(path),
                nodes: self.nodes.insert(id, NodeView { path: None, ..self.nodes[id] }),
                ..self
            }.collected(id)
        } else {
            self
        }
    }

    /// The table after the kernel has given back `count` lookups of `id`.
    pub open spec fn forgotten(self, id: u64, count: u64) -> Self {
        if self.nodes.contains_key(id) {
            let node = self.nodes[id];
            let left = if node.lookups >= count {
                (node.lookups - count) as u64
            } else {
                0
            };
            self.with_node(id, NodeView { lookups: left, ..node }).collected(id)
        } else {
            self
        }
    }

    /// The table after one more handle on `id`, which is in it.
    pub open spec fn opened(self, id: u64) -> Self {
        let node = self.nodes[id];
        self.with_node(id, NodeView { opens: (node.opens + 1) as u64, ..node })
    }

    /// The table after one handle less on `id`.
    pub open spec fn closed(self, id: u64) -> Self {
        if self.nodes.contains_key(id) {
            let node = self.nodes[id];
            let left = if node.opens >= 1 {
                (node.opens - 1) as u64
            } else {
                0
            };
            self.with_node(id, NodeView { opens: left, ..node }).collected(id)
        } else {
            self
        }
    }

    /// The table after one listed path within `from` has followed a rename.
    pub open spec fn moved_one(
        self,
        entry: (PathView, u64),
        from: PathView,
        to: PathView,
    ) -> Self {
        let new = rebased(entry.0, from, to);
        StateView {
            paths: self.paths.remove(entry.0).insert(new, entry.1),
            nodes: self.nodes.insert(
                entry.1,
                NodeView { path: Some(new), ..self.nodes[entry.1] },
            ),
            ..self
        }
    }

    /// The table after listed paths within `from` have followed a rename, one by one.
    pub open spec fn moved_all(
        self,
        entries: Seq<(PathView, u64)>,
        from: PathView,
        to: PathView,
    ) -> Self
        decreases entries.len(),
    {
        if entries.len() == 0 {
            self
        } else {
            self.moved_all(entries.drop_last(), from, to).moved_one(entries.last(), from, to)
        }
    }

    /// The open directories after a rename.
    pub open spec fn directories_renamed(self, from: PathView, to: PathView) -> Self {
        StateView {
            dirs: self.dirs.map_values(|directory: DirectoryView| directory.renamed(from, to)),
            ..self
        }
    }

    /// `after` is the table after the provider has renamed `from` to `to`: what was
    /// at `to` is retired, and the paths within `from` follow in some order.
    pub open spec fn renamed_to(self, from: PathView, to: PathView, after: Self) -> bool {
        let cleared = self.retired(to);
        exists|entries: Seq<(PathView, u64)>|
            {
                &&& #[trigger] lists_within(entries, cleared.paths, from)
                &&& after == cleared.moved_all(entries, from, to).directories_renamed(from, to)
            }
    }
}

impl State {
    /// The table is consistent; see [`StateView::is_consistent`].
    pub open spec fn wf(&self) -> bool {
        self@.is_consistent()
    }

    pub fn new() -> (state: Self)
        ensures
            state.wf(),
            state@ == StateView::initial(),
    {
        let mut nodes: HashMap<u64, Node> = HashMap::new();
        nodes.insert(1, Node { path: Some(MountPath::root()), lookups: 1, opens: 0 });
        let mut paths = PathTable::new();
        paths.insert(MountPath::root(), 1);
        let state = State { next: 1, nodes, paths, files: HashMap::new(), dirs: HashMap::new() };
        assert(state@ =~= StateView::initial());
        state
    }

    /// The path that a number stands for.
    pub fn path_of(&self, id: u64) -> (path: Option<MountPath>)
        ensures
            path_view(path) == self@.path_of(id),
    {
        match self.nodes.get(&id) {
            Some(node) => match &node.path {
                Some(path) => Some(path.clone()),
                None => None,
            },
            None => None,
        }
    }

    /// The number of `path`, if it has one.
    pub fn number_of(&self, path: &MountPath) -> (id: Option<u64>)
        ensures
            id == (if self@.paths.contains_key(path@) {
                Some(self@.paths[path@])
            } else {
                None
            }),
    {
        self.paths.get(path)
    }

    /// Whether another lookup of `path` can be counted.
    pub fn can_look_up(&self, path: &MountPath) -> (can: bool)
        requires
            self@.is_linked(),
        ensures
            can == self@.can_look_up(path@),
    {
        match self.paths.get(path) {
            Some(id) => match self.nodes.get(&id) {
                Some(node) => node.lookups < u64::MAX,
                None => true,
            },
            None => true,
        }
    }

    /// Whether another handle on `id` can be counted.
    pub fn can_open(&self, id: u64) -> (can: bool)
        ensures
            can == self@.can_open(id),
    {
        match self.nodes.get(&id) {
            Some(node) => node.opens < u64::MAX,
            None => true,
        }
    }

    /// Counts a lookup of `path` and returns its number.
    pub fn lookup(&mut self, path: MountPath) -> (id: Result<u64, Errno>)
        requires
            old(self)@.is_linked(),
            old(self)@.can_look_up(path@),
        ensures
            final(self)@.is_linked(),
            old(self).wf() ==> final(self).wf(),
            match old(self)@.looked_up(path@) {
                Some((after, number)) => id == Ok::<u64, Errno>(number) && final(self)@ == after,
                None => id == Err::<u64, Errno>(Errno::EOVERFLOW) && final(self)@ == old(self)@,
            },
    {
        match self.paths.get(&path) {
            Some(id) => {
                if let Some(node) = self.nodes.remove(&id) {
                    let raised: u64 = node.lookups + 1;
                    self.nodes.insert(
                        id,
                        Node { path: node.path, lookups: raised, opens: node.opens },
                    );
                }
                assert(self@ =~= (old(self)@.looked_up(path@)->0).0);
                Ok(id)
            },
            None => {
                if self.next == u64::MAX {
                    return Err(Errno::EOVERFLOW);
                }
                let id: u64 = self.next + 1;
                self.next = id;
                self.nodes.insert(id, Node { path: Some(path.clone()), lookups: 1, opens: 0 });
                self.paths.insert(path, id);
                assert(self@ =~= (old(self)@.looked_up(path@)->0).0);
                Ok(id)
            },
        }
    }

    /// Drops `id` if nothing needs it any more.
    pub fn collect(&mut self, id: u64)
        ensures
            final(self)@ == old(self)@.collected(id),
            old(self)@.is_linked() ==> final(self)@.is_linked(),
            old(self).wf() ==> final(self).wf(),
    {
        if id == 1 {
            return;
        }
        let unused = match self.nodes.get(&id) {
            Some(node) => node.lookups == 0 && node.opens == 0,
            None => false,
        };
        if !unused {
            return;
        }
        if let Some(node) = self.nodes.remove(&id) {
            if let Some(path) = node.path {
                let _ = self.paths.remove(&path);
            }
        }
        assert(self@ =~= old(self)@.collected(id));
    }

    /// Forgets the entry at `path`. Handles on it keep working. The root can be
    /// forgotten too; its number stays in use.
    pub fn retire_path(&mut self, path: &MountPath)
        requires
            old(self)@.is_linked(),
        ensures
            final(self)@ == old(self)@.retired(path@),
            final(self)@.is_linked(),
            old(self).wf() && path@.len() > 0 ==> final(self).wf(),
    {
        proof {
            lemma_retired_is_linked(self@, path@);
            if self.wf() && path@.len() > 0 {
                lemma_retired_is_consistent(self@, path@);
            }
        }
        if let Some(id) = self.paths.remove(path) {
            let ghost detached = StateView {
                paths: old(self)@.paths.remove(path@),
                nodes: old(self)@.nodes.insert(
                    id,
                    NodeView { path: None, ..old(self)@.nodes[id] },
                ),
                ..old(self)@
            };
            if let Some(node) = self.nodes.remove(&id) {
                self.nodes.insert(
                    id,
                    Node { path: None, lookups: node.lookups, opens: node.opens },
                );
            }
            assert(self@ =~= detached);
            self.collect(id);
        } else {
            assert(self@ =~= old(self)@);
        }
    }

    /// Takes back `count` lookups of `id`.
    pub fn forget(&mut self, id: u64, count: u64)
        ensures
            old(self)@.is_linked() ==> final(self)@.is_linked(),
            old(self).wf() ==> final(self).wf(),
            final(self)@ == old(self)@.forgotten(id, count),
    {
        if let Some(node) = self.nodes.remove(&id) {
            let left: u64 = if node.lookups >= count {
                node.lookups - count
            } else {
                0
            };
            self.nodes.insert(id, Node { path: node.path, lookups: left, opens: node.opens });
            assert(self@ =~= old(self)@.with_node(
                id,
                NodeView { lookups: left, ..old(self)@.nodes[id] },
            ));
            self.collect(id);
        } else {
            assert(self@ =~= old(self)@);
        }
    }

    /// Counts a handle on `id`; says whether the number is known.
    pub fn count_open(&mut self, id: u64) -> (known: bool)
        requires
            old(self)@.can_open(id),
        ensures
            old(self)@.is_linked() ==> final(self)@.is_linked(),
            old(self).wf() ==> final(self).wf(),
            known == old(self)@.nodes.contains_key(id),
            final(self)@ == (if known {
                old(self)@.opened(id)
            } else {
                old(self)@
            }),
    {
        if let Some(node) = self.nodes.remove(&id) {
            let raised: u64 = node.opens + 1;
            self.nodes.insert(id, Node { path: node.path, lookups: node.lookups, opens: raised });
            assert(self@ =~= old(self)@.opened(id));
            true
        } else {
            assert(self@ =~= old(self)@);
            false
        }
    }

    /// Takes back a handle on `id`.
    pub fn count_close(&mut self, id: u64)
        ensures
            old(self)@.is_linked() ==> final(self)@.is_linked(),
            old(self).wf() ==> final(self).wf(),
            final(self)@ == old(self)@.closed(id),
    {
        if let Some(node) = self.nodes.remove(&id) {
            let left: u64 = if node.opens >= 1 {
                node.opens - 1
            } else {
                0
            };
            self.nodes.insert(id, Node { path: node.path, lookups: node.lookups, opens: left });
            assert(self@ =~= old(self)@.with_node(
                id,
                NodeView { opens: left, ..old(self)@.nodes[id] },
            ));
            self.collect(id);
        } else {
            assert(self@ =~= old(self)@);
        }
    }

    /// Follows a rename that the provider has made.
    pub fn rename_paths(&mut self, from: &MountPath, to: &MountPath)
        requires
            old(self).wf(),
            from@.len() > 0,
            to@.len() > 0,
        ensures
            final(self).wf(),
            old(self)@.renamed_to(from@, to@, final(self)@),
    {
        self.retire_path(to);
        let ghost cleared = self@;
        let moved = self.paths.within(from);
        let ghost entries = moved@.map_values(|entry: PathEntry| pair(entry));
        proof {
            assert(entries.take(0) =~= Seq::<(PathView, u64)>::empty());
        }
        let mut i: usize = 0;
        while i < moved.len()
            invariant
                i <= moved@.len(),
                from@.len() > 0,
                to@.len() > 0,
                entries == moved@.map_values(|entry: PathEntry| pair(entry)),
                lists_within(entries, cleared.paths, from@),
                cleared.is_consistent(),
                self.wf(),
                self@ == cleared.moved_all(entries.take(i as int), from@, to@),
                self@.dirs == cleared.dirs,
                forall|k: int|
                    i <= k < entries.len() ==> {
                        &&& self@.nodes.contains_key((#[trigger] entries[k]).1)
                        &&& self@.nodes[entries[k].1].path == Some(entries[k].0)
                    },
            decreases moved@.len() - i,
        {
            let ghost before = self@;
            let ghost entry = entries[i as int];
            let old_path = &moved[i].path;
            let id: u64 = moved[i].id;
            assert(entry == pair(moved@[i as int]));
            if let Some(new_path) = old_path.rebase(from, to) {
                let _ = self.paths.remove(old_path);
                if let Some(node) = self.nodes.remove(&id) {
                    self.nodes.insert(
                        id,
                        Node {
                            path: Some(new_path.clone()),
                            lookups: node.lookups,
                            opens: node.opens,
                        },
                    );
                }
                self.paths.insert(new_path, id);
            }
            i += 1;
            proof {
                assert(self@ =~= before.moved_one(entry, from@, to@));
                assert(entries.take(i as int).drop_last() =~= entries.take(i - 1));
                assert(entries.take(i as int).last() == entry);
                lemma_moved_is_consistent(before, entry, from@, to@);
                assert forall|k: int| i <= k < entries.len() implies {
                    &&& self@.nodes.contains_key((#[trigger] entries[k]).1)
                    &&& self@.nodes[entries[k].1].path == Some(entries[k].0)
                } by {
                    assert(entries[k].0 != entries[i - 1].0);
                    assert(cleared.nodes[entries[k].1].path == Some(entries[k].0));
                    assert(cleared.nodes[entry.1].path == Some(entry.0));
                }
            }
        }
        assert(entries.take(i as int) =~= entries);
        self.rename_directories(from, to);
    }

    /// The keys of the open directories, each once.
    fn directory_keys(&self) -> (keys: Vec<u64>)
        ensures
            keys@.no_duplicates(),
            keys@.to_set() == self@.dirs.dom(),
    {
        let mut keys: Vec<u64> = Vec::new();
        for key in it: self.dirs.keys()
            invariant
                it.seq() == vstd::std_specs::iter::IteratorSpec::remaining(
                    &vstd::std_specs::hash::spec_keys_iter(&self.dirs),
                ),
                keys@ == it.seq().unref().take(it.index() as int),
        {
            keys.push(*key);
            assert(keys@ =~= it.seq().unref().take(it.index() + 1));
        }
        proof {
            let seen = vstd::std_specs::iter::IteratorSpec::remaining(
                    &vstd::std_specs::hash::spec_keys_iter(&self.dirs),
                );
            assert(keys@ =~= seen.unref());
            assert(self@.dirs.dom() =~= self.dirs@.dom());
            assert forall|a: int, b: int| 0 <= a < b < keys@.len() implies keys@[a] != keys@[b] by {
                assert(seen[a] != seen[b]);
            }
        }
        keys
    }

    /// Rewrites the paths of the open directories within `from`.
    fn rename_directories(&mut self, from: &MountPath, to: &MountPath)
        requires
            old(self).wf(),
        ensures
            final(self).wf(),
            final(self)@ == old(self)@.directories_renamed(from@, to@),
    {
        let keys = self.directory_keys();
        let ghost before = self@;
        let mut i: usize = 0;
        while i < keys.len()
            invariant
                i <= keys@.len(),
                keys@.no_duplicates(),
                keys@.to_set() == before.dirs.dom(),
                self.wf(),
                self@ == (StateView { dirs: self@.dirs, ..before }),
                self@.dirs.dom() == before.dirs.dom(),
                forall|k: int|
                    0 <= k < i ==> self@.dirs[#[trigger] keys@[k]] == before.dirs[keys@[k]].renamed(
                        from@,
                        to@,
                    ),
                forall|k: int|
                    i <= k < keys@.len() ==> self@.dirs[#[trigger] keys@[k]]
                        == before.dirs[keys@[k]],
            decreases keys@.len() - i,
        {
            let key: u64 = keys[i];
            let ghost middle = self@;
            assert(keys@.to_set().contains(key)) by {
                assert(keys@[i as int] == key);
            }
            if let Some(directory) = self.dirs.remove(&key) {
                let path = match directory.path.rebase(from, to) {
                    Some(new_path) => new_path,
                    None => directory.path.clone(),
                };
                self.dirs.insert(
                    key,
                    Directory {
                        ino: directory.ino,
                        path,
                        remote: directory.remote,
                        offset: directory.offset,
                        pending: directory.pending,
                        eof: directory.eof,
                    },
                );
                assert(self@.dirs =~= middle.dirs.insert(
                    key,
                    middle.dirs[key].renamed(from@, to@),
                ));
                assert(self@ =~= (StateView { dirs: self@.dirs, ..before }));
            }
            i += 1;
        }
        proof {
            assert forall|key: u64| before.dirs.contains_key(key) implies #[trigger] self@.dirs[key]
                == before.dirs[key].renamed(from@, to@) by {
                assert(keys@.to_set().contains(key));
                let k = choose|k: int| 0 <= k < keys@.len() && keys@[k] == key;
                assert(self@.dirs[keys@[k]] == before.dirs[keys@[k]].renamed(from@, to@));
            }
            assert(self@.dirs =~= before.directories_renamed(from@, to@).dirs);
            assert(self@ =~= before.directories_renamed(from@, to@));
        }
    }

    /// Whether `handle` is an open file.
    pub fn has_file(&self, handle: u64) -> (open: bool)
        ensures
            open == self@.files.contains_key(handle),
    {
        self.files.contains_key(&handle)
    }

    /// Notes `handle` as a file opened on `id`.
    pub fn add_file(&mut self, handle: u64, id: u64)
        requires
            old(self).wf(),
        ensures
            final(self).wf(),
            final(self)@ == (StateView {
                files: old(self)@.files.insert(handle, id),
                ..old(self)@
            }),
    {
        self.files.insert(handle, id);
        assert(self@ =~= (StateView { files: old(self)@.files.insert(handle, id), ..old(self)@ }));
    }

    /// Forgets the file handle `handle`.
    pub fn remove_file(&mut self, handle: u64)
        requires
            old(self).wf(),
        ensures
            final(self).wf(),
            final(self)@ == (StateView { files: old(self)@.files.remove(handle), ..old(self)@ }),
    {
        let _ = self.files.remove(&handle);
        assert(self@ =~= (StateView { files: old(self)@.files.remove(handle), ..old(self)@ }));
    }

    /// Keeps `directory` under the handle `key`.
    pub fn put_directory(&mut self, key: u64, directory: Directory)
        requires
            old(self).wf(),
            directory@.has_room(),
        ensures
            final(self).wf(),
            final(self)@ == (StateView {
                dirs: old(self)@.dirs.insert(key, directory@),
                ..old(self)@
            }),
    {
        let ghost view = directory@;
        self.dirs.insert(key, directory);
        assert(self@.dirs =~= old(self)@.dirs.insert(key, view));
        assert(self@ =~= (StateView { dirs: old(self)@.dirs.insert(key, view), ..old(self)@ }));
    }

    /// Whether the position after `count` more entries of the directory under
    /// `key` can be counted.
    pub fn can_receive(&self, key: u64, count: usize) -> (can: bool)
        requires
            self.wf(),
        ensures
            can == self@.can_receive(key, count as nat),
    {
        match self.dirs.get(&key) {
            Some(directory) => {
                assert(self@.dirs.contains_key(key));
                assert(self@.dirs[key] == directory@);
                let last: u64 = directory.offset + directory.pending.len() as u64;
                (count as u64) < u64::MAX - last
            },
            None => true,
        }
    }

    /// Takes out the directory under the handle `key`.
    pub fn take_directory(&mut self, key: u64) -> (directory: Option<Directory>)
        requires
            old(self).wf(),
        ensures
            final(self).wf(),
            final(self)@ == (StateView { dirs: old(self)@.dirs.remove(key), ..old(self)@ }),
            directory is Some <==> old(self)@.dirs.contains_key(key),
            directory matches Some(d) ==> d@ == old(self)@.dirs[key],
    {
        let directory = self.dirs.remove(&key);
        assert(self@.dirs =~= old(self)@.dirs.remove(key));
        assert(self@ =~= (StateView { dirs: old(self)@.dirs.remove(key), ..old(self)@ }));
        directory
    }
}

proof fn lemma_moved_is_consistent(
    state: StateView,
    entry: (PathView, u64),
    from: PathView,
    to: PathView,
)
    requires
        state.is_consistent(),
        from.len() > 0,
        to.len() > 0,
        within(entry.0, from),
        state.nodes.contains_key(entry.1),
        state.nodes[entry.1].path == Some(entry.0),
    ensures
        state.moved_one(entry, from, to).is_consistent(),
{
    let new = rebased(entry.0, from, to);
    let after = state.moved_one(entry, from, to);
    assert(new.len() > 0);
    assert(entry.0.len() > 0);
    assert(state.nodes[ROOT].path == Some(PathView::empty()));
    assert forall|path: PathView| #[trigger] after.paths.contains_key(path) implies {
        &&& after.nodes.contains_key(after.paths[path])
        &&& after.nodes[after.paths[path]].path == Some(path)
    } by {
        if path != new {
            assert(state.paths.contains_key(path));
        }
    }
}

proof fn lemma_looked_up_is_consistent(state: StateView, path: PathView)
    requires
        state.is_consistent(),
    ensures
        state.looked_up(path) matches Some((after, _)) ==> after.is_consistent(),
{
}

proof fn lemma_collected_is_consistent(state: StateView, id: u64)
    requires
        state.is_consistent(),
    ensures
        state.collected(id).is_consistent(),
{
}

proof fn lemma_retired_is_linked(state: StateView, path: PathView)
    requires
        state.is_linked(),
    ensures
        state.retired(path).is_linked(),
{
}

proof fn lemma_retired_is_consistent(state: StateView, path: PathView)
    requires
        state.is_consistent(),
        path.len() > 0,
    ensures
        state.retired(path).is_consistent(),
{
}

/// The root is always number 1, whatever else the table holds.
pub proof fn law_root_is_always_known(state: StateView)
    requires
        state.is_consistent(),
    ensures
        state.path_of(ROOT) == Some(PathView::empty()),
        StateView::initial().is_consistent(),
{
    assert(state.paths.contains_key(PathView::empty()));
}

/// Every operation on the table keeps it consistent, but for a removal of the root.
pub proof fn law_table_stays_consistent(
    state: StateView,
    path: PathView,
    id: u64,
    count: u64,
)
    requires
        state.is_consistent(),
    ensures
        state.looked_up(path) matches Some((after, _)) ==> after.is_consistent(),
        state.collected(id).is_consistent(),
        path.len() > 0 ==> state.retired(path).is_consistent(),
        state.forgotten(id, count).is_consistent(),
        state.nodes.contains_key(id) ==> state.opened(id).is_consistent(),
        state.closed(id).is_consistent(),
{
    lemma_looked_up_is_consistent(state, path);
    lemma_collected_is_consistent(state, id);
    if path.len() > 0 {
        lemma_retired_is_consistent(state, path);
    }
    if state.nodes.contains_key(id) {
        let node = state.nodes[id];
        let left = if node.lookups >= count {
            (node.lookups - count) as u64
        } else {
            0
        };
        lemma_collected_is_consistent(
            state.with_node(id, NodeView { lookups: left, ..node }),
            id,
        );
        let fewer = if node.opens >= 1 {
            (node.opens - 1) as u64
        } else {
            0
        };
        lemma_collected_is_consistent(state.with_node(id, NodeView { opens: fewer, ..node }), id);
    }
}

/// A number that a lookup returns stands for the path that was looked up, and
/// looking it up again returns the same number.
pub proof fn law_lookup_names_the_path(state: StateView, path: PathView)
    requires
        state.is_consistent(),
        state.can_look_up(path),
    ensures
        state.looked_up(path) matches Some((after, id)) ==> {
            &&& after.path_of(id) == Some(path)
            &&& after.nodes[id].lookups >= 1
            &&& after.looked_up(path) matches Some((_, again)) && again == id
        },
{
}

/// A new number has never been given out before: it is above every number in
/// use and above the last one given out, and no operation lowers that mark.
pub proof fn law_numbers_are_never_reused(
    state: StateView,
    path: PathView,
    other: u64,
    count: u64,
)
    requires
        state.is_consistent(),
    ensures
        !state.paths.contains_key(path) ==> (state.looked_up(path) matches Some((after, id)) ==> {
            &&& id > state.next
            &&& after.next == id
            &&& forall|used: u64| #[trigger] state.nodes.contains_key(used) ==> used < id
        }),
        state.paths.contains_key(path) ==> (state.looked_up(path) matches Some((after, _))
            && after.next == state.next),
        state.collected(other).next == state.next,
        state.retired(path).next == state.next,
        state.forgotten(other, count).next == state.next,
        state.closed(other).next == state.next,
{
}

/// Something that happens to a table.
pub enum Change {
    Lookup { path: PathView },
    Collect { id: u64 },
    Retire { path: PathView },
}

impl StateView {
    /// The table after a change. A lookup that finds no number left changes nothing.
    pub open spec fn changed(self, change: Change) -> Self {
        match change {
            Change::Lookup { path } => match self.looked_up(path) {
                Some((after, _)) => after,
                None => self,
            },
            Change::Collect { id } => self.collected(id),
            Change::Retire { path } => self.retired(path),
        }
    }

    /// The table after a series of changes.
    pub open spec fn after(self, changes: Seq<Change>) -> Self
        decreases changes.len(),
    {
        if changes.len() == 0 {
            self
        } else {
            self.after(changes.drop_last()).changed(changes.last())
        }
    }
}

/// The number that change `k` of a series on a new table gives out, if it is a
/// lookup that gets one.
pub open spec fn given_out(changes: Seq<Change>, k: int) -> Option<u64> {
    match changes[k] {
        Change::Lookup { path } => match StateView::initial().after(changes.take(k)).looked_up(
            path,
        ) {
            Some((_, id)) => Some(id),
            None => None,
        },
        _ => None,
    }
}

/// Whatever is looked up, collected and removed, the root included, paths and
/// numbers match one to one: a path is listed under a number exactly where the
/// node of that number knows the path, so that no two paths share a number. Number
/// 1 stays in use, and every number is at most the last one given out.
pub proof fn law_paths_and_numbers_match(changes: Seq<Change>)
    ensures
        ({
            let state = StateView::initial().after(changes);
            &&& state.is_matched()
            &&& forall|path: PathView, id: u64|
                #![trigger state.paths.contains_key(path), state.nodes.contains_key(id)]
                (state.paths.contains_key(path) && state.paths[path] == id) <==> (
                state.nodes.contains_key(id) && state.nodes[id].path == Some(path))
        }),
    decreases changes.len(),
{
    if changes.len() > 0 {
        law_paths_and_numbers_match(changes.drop_last());
        let before = StateView::initial().after(changes.drop_last());
        lemma_changed_is_matched(before, changes.last());
    }
}

/// The other steps keep paths and numbers matched too.
pub proof fn law_counting_keeps_the_match(state: StateView, id: u64, count: u64)
    requires
        state.is_matched(),
    ensures
        state.forgotten(id, count).is_matched(),
        state.nodes.contains_key(id) ==> state.opened(id).is_matched(),
        state.closed(id).is_matched(),
{
    if state.nodes.contains_key(id) {
        let node = state.nodes[id];
        let left = if node.lookups >= count {
            (node.lookups - count) as u64
        } else {
            0
        };
        let fewer = if node.opens >= 1 {
            (node.opens - 1) as u64
        } else {
            0
        };
        lemma_changed_is_matched(
            state.with_node(id, NodeView { lookups: left, ..node }),
            Change::Collect { id },
        );
        lemma_changed_is_matched(
            state.with_node(id, NodeView { opens: fewer, ..node }),
            Change::Collect { id },
        );
    }
}

proof fn lemma_changed_is_matched(state: StateView, change: Change)
    requires
        state.is_matched(),
    ensures
        state.changed(change).is_matched(),
        state.changed(change).next >= state.next,
{
}

/// A path that is looked up while it has no number gets one above every number
/// given out before, also those of nodes that are gone.
pub proof fn law_new_numbers_are_above_all_before(changes: Seq<Change>, i: int, k: int)
    requires
        0 <= i < k < changes.len(),
        changes[k] matches Change::Lookup { path } && !StateView::initial().after(
            changes.take(k),
        ).paths.contains_key(path),
    ensures
        given_out(changes, i) matches Some(earlier) ==> (given_out(changes, k) matches Some(new)
            ==> earlier < new),
{
    let before = StateView::initial().after(changes.take(i));
    law_paths_and_numbers_match(changes.take(i));
    lemma_mark_only_rises(changes, i + 1, k);
    assert(changes.take(i + 1).drop_last() =~= changes.take(i));
    assert(changes.take(i + 1).last() == changes[i]);
    if let Some(earlier) = given_out(changes, i) {
        assert(earlier <= before.changed(changes[i]).next);
    }
}

proof fn lemma_mark_only_rises(changes: Seq<Change>, i: int, k: int)
    requires
        0 <= i <= k <= changes.len(),
    ensures
        StateView::initial().after(changes.take(i)).next <= StateView::initial().after(
            changes.take(k),
        ).next,
    decreases k - i,
{
    if i < k {
        lemma_mark_only_rises(changes, i, k - 1);
        assert(changes.take(k).drop_last() =~= changes.take(k - 1));
        law_paths_and_numbers_match(changes.take(k - 1));
        lemma_changed_is_matched(
            StateView::initial().after(changes.take(k - 1)),
            changes.take(k).last(),
        );
    }
}

/// A number that the kernel or an open handle still holds survives the removal
/// of its entry, and its counts are unchanged by it.
pub proof fn law_held_numbers_survive_removal(state: StateView, path: PathView, id: u64)
    requires
        state.is_consistent(),
        state.nodes.contains_key(id),
        state.nodes[id].lookups > 0 || state.nodes[id].opens > 0,
    ensures
        state.retired(path).nodes.contains_key(id),
        state.retired(path).nodes[id].lookups == state.nodes[id].lookups,
        state.retired(path).nodes[id].opens == state.nodes[id].opens,
        state.collected(id) == state,
{
}

/// A number that the kernel or an open handle still holds survives every rename,
/// also one that replaces its entry, with its counts and the open files unchanged.
pub proof fn law_held_numbers_survive_rename(
    state: StateView,
    from: PathView,
    to: PathView,
    after: StateView,
    id: u64,
)
    requires
        state.is_consistent(),
        state.nodes.contains_key(id),
        state.nodes[id].lookups > 0 || state.nodes[id].opens > 0,
        state.renamed_to(from, to, after),
    ensures
        after.nodes.contains_key(id),
        after.nodes[id].lookups == state.nodes[id].lookups,
        after.nodes[id].opens == state.nodes[id].opens,
        after.files == state.files,
{
    let cleared = state.retired(to);
    law_held_numbers_survive_removal(state, to, id);
    let entries = choose|entries: Seq<(PathView, u64)>|
        {
            &&& #[trigger] lists_within(entries, cleared.paths, from)
            &&& after == cleared.moved_all(entries, from, to).directories_renamed(from, to)
        };
    lemma_moved_keeps_counts(cleared, entries, from, to, id);
}

proof fn lemma_moved_keeps_counts(
    state: StateView,
    entries: Seq<(PathView, u64)>,
    from: PathView,
    to: PathView,
    id: u64,
)
    requires
        state.nodes.contains_key(id),
    ensures
        ({
            let moved = state.moved_all(entries, from, to);
            &&& moved.nodes.contains_key(id)
            &&& moved.nodes[id].lookups == state.nodes[id].lookups
            &&& moved.nodes[id].opens == state.nodes[id].opens
            &&& moved.files == state.files
        }),
    decreases entries.len(),
{
    if entries.len() > 0 {
        lemma_moved_keeps_counts(state, entries.drop_last(), from, to, id);
    }
}

/// Removing an entry affects no other path.
pub proof fn law_removal_affects_one_path(state: StateView, path: PathView, other: PathView)
    requires
        state.is_consistent(),
        other != path,
    ensures
        !state.retired(path).paths.contains_key(path),
        state.retired(path).paths.contains_key(other) == state.paths.contains_key(other),
        state.paths.contains_key(other) ==> state.retired(path).paths[other] == state.paths[other],
{
}

impl StateView {
    /// The table after `times` lookups of `path`.
    pub open spec fn looked_up_times(self, path: PathView, times: nat) -> Self
        decreases times,
    {
        if times == 0 {
            self
        } else {
            self.looked_up_times(path, (times - 1) as nat).changed(Change::Lookup { path })
        }
    }
}

/// A new path that is looked up any number of times gets one number. Giving back
/// at least as many lookups leaves no trace of it but the mark of the last number
/// given out; giving back fewer leaves the rest, under the same number.
pub proof fn law_forget_undoes_lookup(state: StateView, path: PathView, times: nat, count: u64)
    requires
        state.is_consistent(),
        !state.paths.contains_key(path),
        state.next < u64::MAX,
        0 < times <= u64::MAX,
    ensures
        ({
            let id = (state.next + 1) as u64;
            let after = state.looked_up_times(path, times);
            let left = NodeView { path: Some(path), lookups: (times - count) as u64, opens: 0 };
            &&& after.paths == state.paths.insert(path, id)
            &&& after.forgotten(id, count) == (if count >= times {
                StateView { next: id, ..state }
            } else {
                StateView {
                    next: id,
                    nodes: state.nodes.insert(id, left),
                    paths: state.paths.insert(path, id),
                    ..state
                }
            })
        }),
{
    let id = (state.next + 1) as u64;
    lemma_looked_up_times(state, path, times);
    let after = state.looked_up_times(path, times).forgotten(id, count);
    if count >= times {
        assert(after.nodes =~= state.nodes);
        assert(after.paths =~= state.paths);
    } else {
        let left = NodeView { path: Some(path), lookups: (times - count) as u64, opens: 0 };
        assert(after.nodes =~= state.nodes.insert(id, left));
    }
}

proof fn lemma_looked_up_times(state: StateView, path: PathView, times: nat)
    requires
        state.is_consistent(),
        !state.paths.contains_key(path),
        state.next < u64::MAX,
        0 < times <= u64::MAX,
    ensures
        ({
            let id = (state.next + 1) as u64;
            let node = NodeView { path: Some(path), lookups: times as u64, opens: 0 };
            state.looked_up_times(path, times) == (StateView {
                next: id,
                nodes: state.nodes.insert(id, node),
                paths: state.paths.insert(path, id),
                ..state
            })
        }),
    decreases times,
{
    let id = (state.next + 1) as u64;
    reveal_with_fuel(StateView::looked_up_times, 2);
    if times > 1 {
        lemma_looked_up_times(state, path, (times - 1) as nat);
        let node = NodeView { path: Some(path), lookups: times as u64, opens: 0 };
        assert(state.looked_up_times(path, times).nodes =~= state.nodes.insert(id, node));
    }
}

/// The listed path that arrives at `path` when `from` becomes `to`, if there is one.
pub open spec fn arrives(
    paths: Map<PathView, u64>,
    from: PathView,
    to: PathView,
    path: PathView,
) -> bool {
    within(path, to) && paths.contains_key(rebased(path, to, from))
}

/// The listed paths after `from` has become `to`: those within `from` stand
/// within `to`, in place of what was listed there, and the others stay.
pub open spec fn paths_renamed(
    paths: Map<PathView, u64>,
    from: PathView,
    to: PathView,
) -> Map<PathView, u64> {
    Map::new(
        |path: PathView|
            arrives(paths, from, to, path) || (paths.contains_key(path) && !within(path, from)),
        |path: PathView|
            if arrives(paths, from, to, path) {
                paths[rebased(path, to, from)]
            } else {
                paths[path]
            },
    )
}

/// A node after `from` has become `to`: if its path is listed as its own and lies
/// within `from`, it follows.
pub open spec fn node_renamed(state: StateView, id: u64, from: PathView, to: PathView) -> NodeView {
    let node = state.nodes[id];
    match node.path {
        Some(path) => if within(path, from) && state.paths.contains_key(path)
            && state.paths[path] == id {
            NodeView { path: Some(rebased(path, from, to)), ..node }
        } else {
            node
        },
        None => node,
    }
}

/// A rename between places of which neither lies within the other takes every
/// listed path within `from` to its new place, keeps every number and count, and
/// touches nothing else. The order in which the paths follow makes no difference.
pub proof fn law_rename_moves_exactly_the_subtree(
    state: StateView,
    from: PathView,
    to: PathView,
    after: StateView,
)
    requires
        state.is_consistent(),
        from.len() > 0,
        to.len() > 0,
        !within(from, to),
        !within(to, from),
        state.renamed_to(from, to, after),
    ensures
        ({
            let cleared = state.retired(to);
            &&& after.next == state.next
            &&& after.files == state.files
            &&& after.paths == paths_renamed(cleared.paths, from, to)
            &&& after.nodes.dom() == cleared.nodes.dom()
            &&& forall|id: u64| #[trigger]
                cleared.nodes.contains_key(id) ==> after.nodes[id] == node_renamed(
                    cleared,
                    id,
                    from,
                    to,
                )
            &&& after.dirs == state.dirs.map_values(
                |directory: DirectoryView| directory.renamed(from, to),
            )
        }),
{
    let cleared = state.retired(to);
    lemma_retired_is_consistent(state, to);
    let entries = choose|entries: Seq<(PathView, u64)>|
        {
            &&& #[trigger] lists_within(entries, cleared.paths, from)
            &&& after == cleared.moved_all(entries, from, to).directories_renamed(from, to)
        };
    lemma_moved_all(cleared, entries, entries.len() as int, from, to);
    assert(entries.take(entries.len() as int) =~= entries);
    let moved = cleared.moved_all(entries, from, to);
    assert forall|path: PathView| moved.paths.contains_key(path) == #[trigger] paths_renamed(
        cleared.paths,
        from,
        to,
    ).contains_key(path) by {
        lemma_place(cleared, entries, from, to, path);
    }
    assert forall|path: PathView| #[trigger] moved.paths.contains_key(path) implies moved.paths[path]
        == paths_renamed(cleared.paths, from, to)[path] by {
        lemma_place(cleared, entries, from, to, path);
    }
    assert(moved.paths =~= paths_renamed(cleared.paths, from, to));
    assert forall|id: u64| #[trigger] cleared.nodes.contains_key(id) implies moved.nodes[id]
        == node_renamed(cleared, id, from, to) by {
        if let Some(path) = cleared.nodes[id].path {
            if within(path, from) && cleared.paths.contains_key(path) && cleared.paths[path] == id {
                let j = choose|j: int| 0 <= j < entries.len() && (#[trigger] entries[j]).0 == path;
                assert(entries[j].1 == id);
            } else {
                assert forall|j: int| 0 <= j < entries.len() implies (#[trigger] entries[j]).1
                    != id by {
                    if entries[j].1 == id {
                        assert(cleared.nodes[entries[j].1].path == Some(entries[j].0));
                    }
                }
            }
        } else {
            assert forall|j: int| 0 <= j < entries.len() implies (#[trigger] entries[j]).1
                != id by {
                assert(cleared.nodes[entries[j].1].path == Some(entries[j].0));
            }
        }
    }
    assert(moved.nodes.dom() =~= cleared.nodes.dom());
}

/// What stands within `to` does not stand within `from`, when neither lies
/// within the other.
pub(crate) proof fn lemma_apart(path: PathView, from: PathView, to: PathView)
    requires
        !within(from, to),
        !within(to, from),
        within(path, to),
    ensures
        !within(path, from),
{
    if within(path, from) {
        if from.len() <= to.len() {
            assert(to.take(from.len() as int) =~= from) by {
                assert(path.take(from.len() as int) =~= path.take(to.len() as int).take(
                    from.len() as int,
                ));
            }
        } else {
            assert(from.take(to.len() as int) =~= to) by {
                assert(path.take(to.len() as int) =~= path.take(from.len() as int).take(
                    to.len() as int,
                ));
            }
        }
    }
}

/// The table after the first `k` of `entries` have followed a rename.
proof fn lemma_moved_all(
    cleared: StateView,
    entries: Seq<(PathView, u64)>,
    k: int,
    from: PathView,
    to: PathView,
)
    requires
        cleared.is_consistent(),
        !within(from, to),
        !within(to, from),
        lists_within(entries, cleared.paths, from),
        0 <= k <= entries.len(),
    ensures
        ({
            let moved = cleared.moved_all(entries.take(k), from, to);
            &&& moved.next == cleared.next
            &&& moved.files == cleared.files
            &&& moved.dirs == cleared.dirs
            &&& forall|j: int|
                0 <= j < k ==> moved.paths.contains_key(
                    rebased((#[trigger] entries[j]).0, from, to),
                ) && moved.paths[rebased(entries[j].0, from, to)] == entries[j].1
            &&& forall|path: PathView|
                (forall|j: int| 0 <= j < k ==> rebased((#[trigger] entries[j]).0, from, to) != path)
                    ==> (#[trigger] moved.paths.contains_key(path) <==> cleared.paths.contains_key(
                    path,
                ) && (forall|j: int| 0 <= j < k ==> (#[trigger] entries[j]).0 != path))
            &&& forall|path: PathView| #[trigger]
                moved.paths.contains_key(path) && (forall|j: int|
                    0 <= j < k ==> rebased((#[trigger] entries[j]).0, from, to) != path)
                    ==> moved.paths[path] == cleared.paths[path]
            &&& moved.nodes.dom() == cleared.nodes.dom()
            &&& forall|j: int|
                0 <= j < k ==> moved.nodes[(#[trigger] entries[j]).1] == (NodeView {
                    path: Some(rebased(entries[j].0, from, to)),
                    ..cleared.nodes[entries[j].1]
                })
            &&& forall|id: u64|
                (forall|j: int| 0 <= j < k ==> (#[trigger] entries[j]).1 != id)
                    ==> #[trigger] moved.nodes[id] == cleared.nodes[id]
        }),
    decreases k,
{
    if k == 0 {
        assert(entries.take(0) =~= Seq::<(PathView, u64)>::empty());
    } else {
        lemma_moved_all(cleared, entries, k - 1, from, to);
        assert(entries.take(k).drop_last() =~= entries.take(k - 1));
        assert(entries.take(k).last() == entries[k - 1]);
        let before = cleared.moved_all(entries.take(k - 1), from, to);
        let moved = cleared.moved_all(entries.take(k), from, to);
        let entry = entries[k - 1];
        assert(moved == before.moved_one(entry, from, to));
        let new = rebased(entry.0, from, to);
        assert(new.take(to.len() as int) =~= to);
        lemma_apart(new, from, to);
        assert forall|j: int| 0 <= j < k - 1 implies {
            &&& rebased((#[trigger] entries[j]).0, from, to) != entry.0
            &&& rebased(entries[j].0, from, to) != new
            &&& entries[j].1 != entry.1
        } by {
            let place = rebased(entries[j].0, from, to);
            assert(place.take(to.len() as int) =~= to);
            lemma_apart(place, from, to);
            assert(entries[j].0 != entry.0);
            if place == new {
                crate::path::law_rebase_is_injective(entries[j].0, entry.0, from, to);
            }
            assert(cleared.nodes[entries[j].1].path == Some(entries[j].0));
            assert(cleared.nodes[entry.1].path == Some(entry.0));
        }
        assert(before.nodes[entry.1] == cleared.nodes[entry.1]);
        assert(cleared.nodes.contains_key(entry.1));
        assert(moved.nodes.dom() =~= cleared.nodes.dom());
        assert forall|path: PathView|
            (forall|j: int| 0 <= j < k ==> rebased((#[trigger] entries[j]).0, from, to) != path)
            implies (#[trigger] moved.paths.contains_key(path) <==> cleared.paths.contains_key(path)
            && (forall|j: int| 0 <= j < k ==> (#[trigger] entries[j]).0 != path)) by {
            assert(path != new);
            if moved.paths.contains_key(path) {
                assert(before.paths.contains_key(path));
                assert(path != entry.0);
            }
        }
        assert forall|path: PathView| #[trigger]
            moved.paths.contains_key(path) && (forall|j: int|
                0 <= j < k ==> rebased((#[trigger] entries[j]).0, from, to) != path) implies moved.paths[path]
            == cleared.paths[path] by {
            assert(path != new);
            assert(before.paths.contains_key(path));
        }
    }
}

/// What is listed at `path` after all `entries` have followed a rename.
proof fn lemma_place(
    cleared: StateView,
    entries: Seq<(PathView, u64)>,
    from: PathView,
    to: PathView,
    path: PathView,
)
    requires
        cleared.is_consistent(),
        !within(from, to),
        !within(to, from),
        lists_within(entries, cleared.paths, from),
    ensures
        ({
            let moved = cleared.moved_all(entries, from, to);
            let direct = paths_renamed(cleared.paths, from, to);
            &&& moved.paths.contains_key(path) == direct.contains_key(path)
            &&& moved.paths.contains_key(path) ==> moved.paths[path] == direct[path]
        }),
{
    lemma_moved_all(cleared, entries, entries.len() as int, from, to);
    assert(entries.take(entries.len() as int) =~= entries);
    let source = rebased(path, to, from);
    if arrives(cleared.paths, from, to, path) {
        crate::path::law_rebase_is_reversible(path, to, from);
        let j = choose|j: int| 0 <= j < entries.len() && (#[trigger] entries[j]).0 == source;
        assert(rebased(entries[j].0, from, to) == path);
    } else {
        assert forall|j: int| 0 <= j < entries.len() implies rebased(
            (#[trigger] entries[j]).0,
            from,
            to,
        ) != path by {
            crate::path::law_rebase_is_reversible(entries[j].0, from, to);
        }
        if cleared.paths.contains_key(path) && within(path, from) {
            let j = choose|j: int| 0 <= j < entries.len() && (#[trigger] entries[j]).0 == path;
            assert(entries[j].0 == path);
        }
    }
}

/// An open directory follows a rename of itself or of a directory that it is in; one
/// elsewhere stays. Its handle and what it has listed stay as they are.
pub proof fn law_open_directories_follow_a_rename(
    directory: DirectoryView,
    from: PathView,
    rest: PathView,
    to: PathView,
)
    ensures
        directory.path == from + rest ==> directory.renamed(from, to) == (DirectoryView {
            path: to + rest,
            ..directory
        }),
        !within(directory.path, from) ==> directory.renamed(from, to) == directory,
{
    if directory.path == from + rest {
        assert(directory.path.take(from.len() as int) =~= from);
        assert(directory.renamed(from, to).path =~= to + rest);
    }
}

/// In a new table the number 1 stands for the root, which the kernel holds once and has
/// not open; there is no other number and no other path, and nothing is open.
pub proof fn law_a_new_table_holds_the_root(id: u64, path: PathView)
    ensures
        ({
            let state = StateView::initial();
            &&& state.next == 1
            &&& state.nodes.contains_key(id) <==> id == 1
            &&& state.nodes[1] == (NodeView {
                path: Some(PathView::empty()),
                lookups: 1,
                opens: 0,
            })
            &&& state.paths.contains_key(path) <==> path.len() == 0
            &&& state.paths[PathView::empty()] == 1
            &&& !state.files.contains_key(id) && !state.dirs.contains_key(id)
        }),
{
    assert(path.len() == 0 ==> path =~= PathView::empty());
}

/// A path that is there says what its names are; one that is not says nothing.
pub proof fn law_known_paths_are_shown(path: Option<MountPath>)
    ensures
        path_view(path) is Some <==> path is Some,
        path matches Some(p) ==> path_view(path) == Some(p@),
{
}

/// Only a count at the largest number that can be kept stops a lookup or an open, and
/// only a directory that would reach the largest position stops what is received.
pub proof fn law_only_full_counts_stop(state: StateView, path: PathView, id: u64, count: nat)
    requires
        state.paths.contains_key(path),
        state.nodes.contains_key(id),
        state.dirs.contains_key(id),
    ensures
        state.nodes[state.paths[path]].lookups <= 0xffff_ffff_ffff_fffe <==> state.can_look_up(
            path,
        ),
        state.nodes[id].opens <= 0xffff_ffff_ffff_fffe <==> state.can_open(id),
        state.dirs[id].offset + state.dirs[id].pending.len() + count <= 0xffff_ffff_ffff_fffe
            <==> state.can_receive(id, count),
        state.dirs[id].offset + state.dirs[id].pending.len() <= 0xffff_ffff_ffff_fffe
            <==> state.dirs[id].has_room(),
        state.path_of(id) == state.nodes[id].path,
{
}

} // verus!
