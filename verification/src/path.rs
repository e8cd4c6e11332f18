//! Paths within a granted root: validated relative components and nothing else.
use vstd::prelude::*;
use crate::error::{error_of, fails_with, FsError, FsErrorKind, FsErrorView, FsResult};
use crate::text::characters;

verus! {

/// What a path is: its component names from the root down.
pub type PathView = Seq<Seq<char>>;

/// Characters that separate components, end a C string or open an alternate namespace.
pub open spec fn is_reserved(c: char) -> bool {
    c == '/' || c == '\\' || c == '\0' || c == ':'
}

/// A name that stands for exactly one entry of its directory on every platform.
pub open spec fn is_component(name: Seq<char>) -> bool {
    &&& name.len() > 0
    &&& name != seq!['.']
    &&& name != seq!['.', '.']
    &&& forall|i: int| 0 <= i < name.len() ==> !is_reserved(#[trigger] name[i])
}

/// Every component is a usable name.
pub open spec fn is_path(path: PathView) -> bool {
    forall|i: int| 0 <= i < path.len() ==> is_component(#[trigger] path[i])
}

/// `path` is `ancestor` or lies below it.
pub open spec fn within(path: PathView, ancestor: PathView) -> bool {
    &&& ancestor.len() <= path.len()
    &&& path.take(ancestor.len() as int) == ancestor
}

/// Where `path` lies after its ancestor `from` has become `to`.
pub open spec fn rebased(path: PathView, from: PathView, to: PathView) -> PathView {
    to + path.skip(from.len() as int)
}

/// The error for a name that is no component.
pub open spec fn invalid_name() -> FsErrorView {
    error_of(FsErrorKind::InvalidInput, "Invalid mounted filename"@)
}

/// Relative components within the granted root. The empty path is that root.
/// Local separators are translated before a path is made; no drive prefix and
/// no parent traversal can be held.
#[derive(Debug, PartialEq, Eq, Hash)]
pub struct MountPath(Vec<String>);

impl View for MountPath {
    type V = PathView;

    closed spec fn view(&self) -> PathView {
        self.0@.map_values(|name: String| name@)
    }
}

impl Clone for MountPath {
    fn clone(&self) -> (copy: Self)
        ensures
            copy@ == self@,
    {
        proof {
            use_type_invariant(self);
        }
        let names = self.0.clone();
        assert(names@ =~= self.0@);
        MountPath(names)
    }
}

impl Default for MountPath {
    fn default() -> (path: Self)
        ensures
            path@ == PathView::empty(),
    {
        MountPath::root()
    }
}

/// Whether `name` can be one component of a path.
fn component_ok(name: &str) -> (ok: bool)
    ensures
        ok == is_component(name@),
{
    let chars = characters(name);
    let length: usize = chars.len();
    if length == 0 {
        return false;
    }
    if length == 1 && chars[0] == '.' {
        assert(name@ == seq!['.']);
        return false;
    }
    if length == 2 && chars[0] == '.' && chars[1] == '.' {
        assert(name@ == seq!['.', '.']);
        return false;
    }
    let mut i: usize = 0;
    while i < length
        invariant
            i <= length,
            length == chars@.len(),
            chars@ == name@,
            forall|j: int| 0 <= j < i ==> !is_reserved(#[trigger] name@[j]),
        decreases length - i,
    {
        let c = chars[i];
        if c == '/' || c == '\\' || c == '\0' || c == ':' {
            assert(is_reserved(name@[i as int]));
            return false;
        }
        i += 1;
    }
    true
}

impl MountPath {
    #[verifier::type_invariant]
    spec fn components_valid(self) -> bool {
        is_path(self@)
    }

    /// The granted root itself.
    pub fn root() -> (path: Self)
        ensures
            path@ == PathView::empty(),
    {
        let names: Vec<String> = Vec::new();
        assert(names@.map_values(|name: String| name@) =~= PathView::empty());
        MountPath(names)
    }

    /// Builds a path from names, refusing it as soon as one of them is no component.
    pub fn try_from(names: Vec<String>) -> (path: FsResult<Self>)
        ensures
            path is Ok <==> is_path(names@.map_values(|name: String| name@)),
            path matches Ok(p) ==> p@ == names@.map_values(|name: String| name@),
            path is Err ==> fails_with(path, invalid_name()),
    {
        let ghost views = names@.map_values(|name: String| name@);
        let mut i: usize = 0;
        while i < names.len()
            invariant
                i <= names.len(),
                views == names@.map_values(|name: String| name@),
                forall|j: int| 0 <= j < i ==> is_component(#[trigger] views[j]),
            decreases names.len() - i,
        {
            if !component_ok(names[i].as_str()) {
                assert(!is_component(views[i as int]));
                return Err(FsError::new(FsErrorKind::InvalidInput, "Invalid mounted filename"));
            }
            assert(is_component(views[i as int]));
            i += 1;
        }
        Ok(MountPath(names))
    }

    /// The names from the root down.
    pub fn components(&self) -> (names: &[String])
        ensures
            names@.map_values(|name: String| name@) == self@,
            is_path(self@),
    {
        proof {
            use_type_invariant(self);
        }
        self.0.as_slice()
    }

    /// The names from the root down, by value.
    pub fn into_components(self) -> (names: Vec<String>)
        ensures
            names@.map_values(|name: String| name@) == self@,
            is_path(self@),
    {
        proof {
            use_type_invariant(&self);
        }
        self.0
    }

    /// The number of components.
    pub fn depth(&self) -> (depth: usize)
        ensures
            depth == self@.len(),
    {
        self.0.len()
    }

    /// The entry `name` of this directory.
    pub fn child(&self, name: &str) -> (path: FsResult<Self>)
        ensures
            path is Ok <==> is_component(name@),
            path matches Ok(p) ==> p@ == self@.push(name@),
            path is Err ==> fails_with(path, invalid_name()),
    {
        if !component_ok(name) {
            return Err(FsError::new(FsErrorKind::InvalidInput, "Invalid mounted filename"));
        }
        proof {
            use_type_invariant(self);
        }
        let mut names = self.0.clone();
        assert(names@ =~= self.0@);
        names.push(name.to_owned());
        assert(names@.map_values(|name: String| name@) =~= self@.push(name@));
        Ok(MountPath(names))
    }

    /// The directory that holds this entry; the root has none.
    pub fn parent(&self) -> (path: Option<Self>)
        ensures
            path is Some <==> self@.len() > 0,
            path matches Some(p) ==> p@ == self@.drop_last(),
    {
        proof {
            use_type_invariant(self);
        }
        if self.0.len() == 0 {
            return None;
        }
        let mut names = self.0.clone();
        assert(names@ =~= self.0@);
        let _ = names.pop();
        assert(names@.map_values(|name: String| name@) =~= self@.drop_last());
        Some(MountPath(names))
    }

    /// Whether both paths name the same entry.
    pub fn same(&self, other: &MountPath) -> (same: bool)
        ensures
            same == (self@ == other@),
    {
        if self.0.len() != other.0.len() {
            return false;
        }
        assert(self@.take(self@.len() as int) =~= self@);
        self.is_within(other)
    }

    /// Whether this path is `ancestor` or lies below it.
    pub fn is_within(&self, ancestor: &MountPath) -> (inside: bool)
        ensures
            inside == within(self@, ancestor@),
    {
        let length: usize = ancestor.0.len();
        if self.0.len() < length {
            return false;
        }
        let mut i: usize = 0;
        while i < length
            invariant
                i <= length,
                length == ancestor@.len(),
                length == ancestor.0@.len(),
                length <= self@.len(),
                self.0@.len() == self@.len(),
                forall|j: int| 0 <= j < i ==> #[trigger] self@[j] == ancestor@[j],
            decreases length - i,
        {
            if self.0[i] != ancestor.0[i] {
                assert(self@.take(length as int)[i as int] != ancestor@[i as int]);
                return false;
            }
            i += 1;
        }
        assert(self@.take(length as int) =~= ancestor@);
        true
    }

    /// Where this path lies after its ancestor `from` has become `to`; `None`
    /// when it is not within `from`.
    pub fn rebase(&self, from: &MountPath, to: &MountPath) -> (path: Option<Self>)
        ensures
            path is Some <==> within(self@, from@),
            path matches Some(p) ==> p@ == rebased(self@, from@, to@),
    {
        proof {
            use_type_invariant(self);
            use_type_invariant(to);
        }
        if !self.is_within(from) {
            return None;
        }
        let mut names = to.0.clone();
        assert(names@ =~= to.0@);
        let mut i: usize = from.0.len();
        while i < self.0.len()
            invariant
                from@.len() <= i <= self.0@.len(),
                names@ == to.0@ + self.0@.subrange(from@.len() as int, i as int),
            decreases self.0.len() - i,
        {
            names.push(self.0[i].clone());
            i += 1;
            assert(names@ =~= to.0@ + self.0@.subrange(from@.len() as int, i as int));
        }
        assert(names@.map_values(|name: String| name@) =~= rebased(self@, from@, to@));
        assert(is_path(rebased(self@, from@, to@)));
        Some(MountPath(names))
    }
}

/// A child's parent is the directory it was made in, and only the root has no parent.
pub proof fn law_child_has_its_directory_as_parent(directory: PathView, name: Seq<char>)
    ensures
        directory.push(name).len() > 0,
        directory.push(name).drop_last() == directory,
{
    assert(directory.push(name).drop_last() =~= directory);
}

/// A rename keeps paths valid, keeps what lies within the renamed entry within
/// its new place, and is undone by the opposite rename.
pub proof fn law_rebase_is_reversible(path: PathView, from: PathView, to: PathView)
    requires
        within(path, from),
    ensures
        is_path(path) && is_path(to) ==> is_path(rebased(path, from, to)),
        within(rebased(path, from, to), to),
        rebased(rebased(path, from, to), to, from) == path,
{
    let moved = rebased(path, from, to);
    assert(moved.take(to.len() as int) =~= to);
    assert(moved.skip(to.len() as int) =~= path.skip(from.len() as int));
    assert(from + path.skip(from.len() as int) =~= path) by {
        assert(path.take(from.len() as int) + path.skip(from.len() as int) =~= path);
    }
    if is_path(path) && is_path(to) {
        assert forall|i: int| 0 <= i < moved.len() implies is_component(#[trigger] moved[i]) by {
            if i >= to.len() {
                assert(moved[i] == path[i - to.len() + from.len()]);
            }
        }
    }
}

/// A rename takes two different paths to two different paths.
pub proof fn law_rebase_is_injective(a: PathView, b: PathView, from: PathView, to: PathView)
    requires
        within(a, from),
        within(b, from),
        rebased(a, from, to) == rebased(b, from, to),
    ensures
        a == b,
{
    law_rebase_is_reversible(a, from, to);
    law_rebase_is_reversible(b, from, to);
}

/// No valid path climbs out of its root: a parent-traversal name, a separator, a
/// stream or drive marker and a terminator are no part of any component.
pub proof fn law_paths_cannot_escape(path: PathView, i: int, j: int)
    requires
        is_path(path),
        0 <= i < path.len(),
        0 <= j < path[i].len(),
    ensures
        path[i] != seq!['.', '.'],
        path[i][j] != '/',
        path[i][j] != '\\',
        path[i][j] != '\0',
        path[i][j] != ':',
{
    assert(is_component(path[i]));
    assert(!is_reserved(path[i][j]));
}

/// A name is usable exactly if it is not empty, is neither the directory itself
/// nor its parent, and holds no separator, terminator or namespace marker.
pub proof fn law_usable_names(name: Seq<char>)
    ensures
        is_component(name) <==> {
            &&& name.len() >= 1
            &&& !(name.len() == 1 && name[0] == '.')
            &&& !(name.len() == 2 && name[0] == '.' && name[1] == '.')
            &&& !name.contains('/')
            &&& !name.contains('\\')
            &&& !name.contains('\0')
            &&& !name.contains(':')
        },
{
    if name.len() == 1 && name[0] == '.' {
        assert(name =~= seq!['.']);
    }
    if name.len() == 2 && name[0] == '.' && name[1] == '.' {
        assert(name =~= seq!['.', '.']);
    }
    if is_component(name) {
        assert forall|c: char| is_reserved(c) implies !name.contains(c) by {
            if name.contains(c) {
                let i = choose|i: int| 0 <= i < name.len() && name[i] == c;
                assert(!is_reserved(name[i]));
            }
        }
        assert(is_reserved('/') && is_reserved('\\') && is_reserved('\0') && is_reserved(':'));
    } else if name.len() >= 1 && name != seq!['.'] && name != seq!['.', '.'] {
        let i = choose|i: int| 0 <= i < name.len() && is_reserved(#[trigger] name[i]);
        assert(name.contains(name[i]));
    }
}

/// What lies within a directory is the directory followed by further names, and
/// nothing else; when the directory becomes another one, those names stay.
pub proof fn law_renamed_subtrees_keep_their_shape(
    path: PathView,
    from: PathView,
    to: PathView,
    rest: PathView,
)
    ensures
        within(from + rest, from),
        rebased(from + rest, from, to) == to + rest,
        within(path, from) <==> from.len() <= path.len() && (forall|i: int|
            0 <= i < from.len() ==> #[trigger] path[i] == from[i]),
{
    assert((from + rest).take(from.len() as int) =~= from);
    assert((from + rest).skip(from.len() as int) =~= rest);
    if from.len() <= path.len() {
        if within(path, from) {
            assert forall|i: int| 0 <= i < from.len() implies #[trigger] path[i] == from[i] by {
                assert(path.take(from.len() as int)[i] == path[i]);
            }
        }
        if forall|i: int| 0 <= i < from.len() ==> #[trigger] path[i] == from[i] {
            assert(path.take(from.len() as int) =~= from);
        }
    }
}

} // verus!
