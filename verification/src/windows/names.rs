//! Windows names as paths within the root.
use vstd::prelude::*;
use vstd::string::StrSliceExecFns;
use crate::path::{is_path, MountPath, PathView};
use crate::text::characters;
use crate::windows::{failure, NtResult, NtStatus};

verus! {

/// The number of characters before the first separator.
pub open spec fn name_length(text: Seq<char>) -> nat
    decreases text.len(),
{
    if text.len() == 0 || text[0] == '\\' {
        0
    } else {
        1 + name_length(text.skip(1))
    }
}

/// The names between separators, without empty ones.
pub open spec fn names(text: Seq<char>) -> PathView
    decreases text.len(),
{
    let length = name_length(text) as int;
    let first = if length > 0 {
        seq![text.take(length)]
    } else {
        PathView::empty()
    };
    if length < text.len() {
        first + names(text.skip(length + 1))
    } else {
        first
    }
}

/// The path that a name stands for; a name is `None` where it is not Unicode.
pub open spec fn path_named(name: Option<Seq<char>>) -> NtResult<PathView> {
    match name {
        None => Err(NtStatus::InvalidParameter),
        Some(text) => if is_path(names(text)) {
            Ok(names(text))
        } else {
            Err(NtStatus::ObjectNameInvalid)
        },
    }
}

/// What a result that is a path says.
pub open spec fn path_result(result: NtResult<MountPath>) -> NtResult<PathView> {
    match result {
        Ok(path) => Ok(path@),
        Err(status) => Err(status),
    }
}

/// What a name says; `None` where it is not Unicode.
pub open spec fn name_view(name: Option<&str>) -> Option<Seq<char>> {
    match name {
        Some(text) => Some(text@),
        None => None,
    }
}

proof fn lemma_name_length(text: Seq<char>, length: int)
    requires
        0 <= length <= text.len(),
        forall|k: int| 0 <= k < length ==> text[k] != '\\',
        length < text.len() ==> text[length] == '\\',
    ensures
        name_length(text) == length,
    decreases length,
{
    if length > 0 {
        let rest = text.skip(1);
        assert forall|k: int| 0 <= k < length - 1 implies rest[k] != '\\' by {
            assert(rest[k] == text[k + 1]);
        }
        lemma_name_length(rest, length - 1);
    }
}

/// The names in `text`.
fn split(text: &str) -> (parts: Vec<String>)
    ensures
        parts@.map_values(|name: String| name@) == names(text@),
{
    let chars = characters(text);
    let total: usize = chars.len();
    let mut parts: Vec<String> = Vec::new();
    let mut start: usize = 0;
    let mut i: usize = 0;
    proof {
        assert(text@.skip(0) =~= text@);
        assert(parts@.map_values(|name: String| name@) =~= PathView::empty());
        assert(PathView::empty() + names(text@) =~= names(text@));
    }
    while i < total
        invariant
            start <= i <= total,
            total == text@.len(),
            chars@ == text@,
            forall|k: int| start <= k < i ==> text@[k] != '\\',
            parts@.map_values(|name: String| name@) + names(text@.skip(start as int)) == names(
                text@,
            ),
        decreases total - i,
    {
        if chars[i] == '\\' {
            let ghost before = parts@.map_values(|name: String| name@);
            let ghost rest = text@.skip(start as int);
            proof {
                lemma_name_length(rest, i - start);
                assert(rest.take(i - start) =~= text@.subrange(start as int, i as int));
                assert(rest.skip(i - start + 1) =~= text@.skip(i + 1));
            }
            if start < i {
                let part = text.substring_char(start, i).to_owned();
                parts.push(part);
                assert(parts@.map_values(|name: String| name@) =~= before.push(part@));
                assert(before.push(part@) =~= before + seq![part@]);
                assert(before + (seq![part@] + names(text@.skip(i + 1))) =~= (before + seq![part@])
                    + names(text@.skip(i + 1)));
            } else {
                assert(PathView::empty() + names(text@.skip(i + 1)) =~= names(text@.skip(i + 1)));
            }
            start = i + 1;
        }
        i += 1;
    }
    let ghost before = parts@.map_values(|name: String| name@);
    let ghost rest = text@.skip(start as int);
    proof {
        lemma_name_length(rest, total - start);
        assert(rest.take(total - start) =~= text@.subrange(start as int, total as int));
    }
    if start < total {
        let part = text.substring_char(start, total).to_owned();
        parts.push(part);
        assert(parts@.map_values(|name: String| name@) =~= before + seq![part@]);
    } else {
        assert(before + PathView::empty() =~= before);
    }
    parts
}

/// The path that `name` stands for; `None` is a name that is not Unicode.
pub fn path(name: Option<&str>) -> (path: NtResult<MountPath>)
    ensures
        path_result(path) == path_named(name_view(name)),
{
    match name {
        None => Err(NtStatus::InvalidParameter),
        Some(text) => match MountPath::try_from(split(text)) {
            Ok(path) => Ok(path),
            Err(e) => Err(failure(e)),
        },
    }
}

proof fn lemma_first_name(text: Seq<char>)
    ensures
        name_length(text) <= text.len(),
        forall|k: int| 0 <= k < name_length(text) ==> text[k] != '\\',
        name_length(text) < text.len() ==> text[name_length(text) as int] == '\\',
    decreases text.len(),
{
    if text.len() > 0 && text[0] != '\\' {
        let rest = text.skip(1);
        lemma_first_name(rest);
        assert forall|k: int| 0 <= k < name_length(text) implies text[k] != '\\' by {
            if k > 0 {
                assert(rest[k - 1] == text[k]);
            }
        }
    }
}

/// A separator parts the names before it from those after it, and does nothing
/// else: separators at either end, or several in a row, add no name. Text without a
/// separator is one name.
pub proof fn law_separators_part_names(before: Seq<char>, after: Seq<char>)
    ensures
        names(before + seq!['\\'] + after) == names(before) + names(after),
        !before.contains('\\') && before.len() > 0 ==> names(before) == seq![before],
        names(Seq::<char>::empty()) == PathView::empty(),
    decreases before.len(),
{
    let whole = before + seq!['\\'] + after;
    let length = name_length(before) as int;
    lemma_first_name(before);
    lemma_name_length(whole, length);
    assert(whole.take(length) =~= before.take(length));
    let first = if length > 0 {
        seq![before.take(length)]
    } else {
        PathView::empty()
    };
    if length < before.len() {
        let rest = before.skip(length + 1);
        law_separators_part_names(rest, after);
        assert(whole.skip(length + 1) =~= rest + seq!['\\'] + after);
        assert(first + (names(rest) + names(after)) =~= (first + names(rest)) + names(after));
        assert(before.contains(before[length]));
    } else {
        assert(whole.skip(length + 1) =~= after);
        assert(before.take(length) =~= before);
    }
}

/// A name of Windows stands for the path of its parts, where all of them are usable
/// names; one that is not Unicode is no parameter, and one with other parts is no
/// name.
pub proof fn law_names_stand_for_paths(text: Seq<char>)
    ensures
        path_named(Some(text)) matches Ok(path) ==> path == names(text) && is_path(path),
        is_path(names(text)) ==> path_named(Some(text)) is Ok,
        !is_path(names(text)) ==> path_named(Some(text)) == Err::<PathView, NtStatus>(
            NtStatus::ObjectNameInvalid,
        ),
        path_named(None) == Err::<PathView, NtStatus>(NtStatus::InvalidParameter),
{
}

/// The name of an entry: its directory's name, a separator, and the entry's own. It
/// stands for that entry of that directory, and of no other.
pub proof fn law_an_entry_is_named_in_its_directory(directory: Seq<char>, name: Seq<char>)
    requires
        is_path(names(directory)),
        crate::path::is_component(name),
    ensures
        path_named(Some(directory + seq!['\\'] + name)) == Ok::<PathView, NtStatus>(
            names(directory) + seq![name],
        ),
        path_named(Some(seq!['\\'] + name)) == Ok::<PathView, NtStatus>(seq![name]),
{
    crate::path::law_usable_names(name);
    law_separators_part_names(directory, name);
    law_separators_part_names(name, Seq::empty());
    law_separators_part_names(Seq::empty(), name);
    assert(Seq::<char>::empty() + seq!['\\'] + name =~= seq!['\\'] + name);
    assert(PathView::empty() + seq![name] =~= seq![name]);
    let path = names(directory) + seq![name];
    assert forall|i: int| 0 <= i < path.len() implies crate::path::is_component(
        #[trigger] path[i],
    ) by {
        if i < names(directory).len() {
            assert(path[i] == names(directory)[i]);
        }
    }
    assert forall|i: int| 0 <= i < seq![name].len() implies crate::path::is_component(
        #[trigger] seq![name][i],
    ) by {}
}

/// A name that is Unicode says what it says; any other says nothing.
pub proof fn law_names_are_shown(name: Option<&str>)
    ensures
        name_view(name) is Some <==> name is Some,
        name matches Some(text) ==> name_view(name) == Some(text@),
{
}

} // verus!
