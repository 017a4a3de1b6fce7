//! Paths, as byte strings in which slashes separate the components.

use vstd::prelude::*;
use vstd::slice::{slice_subrange, slice_to_vec};

use crate::ascii::{DOT, SLASH};

verus! {

/// A path without its trailing separators and trailing `.` components.
pub open spec fn trimmed(path: Seq<u8>) -> Seq<u8>
    decreases path.len(),
{
    if path.len() == 0 {
        path
    } else if path.last() == SLASH {
        trimmed(path.drop_last())
    } else if path.last() == DOT && (path.len() == 1 || path[path.len() - 2] == SLASH) {
        trimmed(path.drop_last())
    } else {
        path
    }
}

/// The position behind the last separator of a path.
pub open spec fn last_component_start(path: Seq<u8>) -> int
    decreases path.len(),
{
    if path.len() == 0 || path.last() == SLASH {
        path.len() as int
    } else {
        last_component_start(path.drop_last())
    }
}

/// Whether a component names the parent directory.
pub open spec fn is_parent(component: Seq<u8>) -> bool {
    component == seq![DOT, DOT]
}

/// The final component of a path, unless there is none or it names the parent
/// directory.
pub open spec fn name_of(path: Seq<u8>) -> Option<Seq<u8>> {
    let t = trimmed(path);
    let name = t.skip(last_component_start(t));
    if t.len() == 0 || is_parent(name) {
        None
    } else {
        Some(name)
    }
}

/// The position of the last dot of a name, or -1 where it has none.
pub open spec fn last_dot(name: Seq<u8>) -> int
    decreases name.len(),
{
    if name.len() == 0 {
        -1
    } else if name.last() == DOT {
        name.len() - 1
    } else {
        last_dot(name.drop_last())
    }
}

/// A name without its last extension. A dot in front of the name starts no
/// extension.
pub open spec fn without_extension(name: Seq<u8>) -> Seq<u8> {
    if last_dot(name) > 0 {
        name.take(last_dot(name))
    } else {
        name
    }
}

/// The position of the first dot at or behind a position, or the length of the
/// name where there is none.
pub open spec fn dot_from(name: Seq<u8>, from: int) -> int
    decreases name.len() - from,
{
    if from >= name.len() {
        name.len() as int
    } else if name[from] == DOT {
        from
    } else {
        dot_from(name, from + 1)
    }
}

/// The name that a path ends in, up to its first extension. There is none for
/// a path without a name, and for a name that starts with two dots.
pub open spec fn stem_of(path: Seq<u8>) -> Option<Seq<u8>> {
    match name_of(path) {
        Some(name) => if name.len() >= 2 && name[0] == DOT && name[1] == DOT {
            None
        } else {
            Some(name.take(dot_from(name, 1)))
        },
        None => None,
    }
}

/// Whether a byte string is a component that names an entry of a directory.
pub open spec fn is_entry_name(name: Seq<u8>) -> bool {
    &&& name.len() > 0
    &&& !name.contains(SLASH)
    &&& name != seq![DOT]
    &&& !is_parent(name)
}

/// A path, followed relative to a base.
pub open spec fn joined(base: Seq<u8>, path: Seq<u8>) -> Seq<u8> {
    if path.len() > 0 && path[0] == SLASH {
        path
    } else if base.len() > 0 && base.last() != SLASH {
        base + seq![SLASH] + path
    } else {
        base + path
    }
}

/// A path has no file stem.
#[derive(Debug, Clone, Copy, PartialEq, Eq, Structural)]
pub struct NoFileStem;

proof fn lemma_trimmed(path: Seq<u8>)
    ensures
        trimmed(path).len() <= path.len(),
        trimmed(path) == path.take(trimmed(path).len() as int),
        trimmed(path).len() > 0 ==> trimmed(path).last() != SLASH,
    decreases path.len(),
{
    if path.len() > 0 {
        lemma_trimmed(path.drop_last());
        let n = trimmed(path.drop_last()).len() as int;
        assert(path.drop_last().take(n) =~= path.take(n));
    }
    assert(path.take(path.len() as int) =~= path);
}

proof fn lemma_last_component_start(path: Seq<u8>)
    ensures
        0 <= last_component_start(path) <= path.len(),
        forall|i: int|
            last_component_start(path) <= i < path.len() ==> path[i] != SLASH,
        last_component_start(path) > 0 ==> path[last_component_start(path) - 1] == SLASH,
    decreases path.len(),
{
    if path.len() > 0 && path.last() != SLASH {
        let head = path.drop_last();
        lemma_last_component_start(head);
        assert forall|i: int| last_component_start(path) <= i < path.len() implies path[i]
            != SLASH by {
            if i < head.len() {
                assert(path[i] == head[i]);
            }
        }
    }
}

proof fn lemma_last_component_start_is(path: Seq<u8>, start: int)
    requires
        0 <= start <= path.len(),
        forall|i: int| start <= i < path.len() ==> path[i] != SLASH,
        start > 0 ==> path[start - 1] == SLASH,
    ensures
        last_component_start(path) == start,
{
    lemma_last_component_start(path);
}

proof fn lemma_last_dot(name: Seq<u8>)
    ensures
        -1 <= last_dot(name) < name.len(),
        last_dot(name) >= 0 ==> name[last_dot(name)] == DOT,
        forall|i: int| last_dot(name) < i < name.len() ==> name[i] != DOT,
    decreases name.len(),
{
    if name.len() > 0 && name.last() != DOT {
        let head = name.drop_last();
        lemma_last_dot(head);
        assert forall|i: int| last_dot(name) < i < name.len() implies name[i] != DOT by {
            if i < head.len() {
                assert(name[i] == head[i]);
            }
        }
    }
}

proof fn lemma_dot_from(name: Seq<u8>, from: int)
    requires
        0 <= from,
    ensures
        from <= name.len() ==> from <= dot_from(name, from) <= name.len(),
        dot_from(name, from) < name.len() ==> name[dot_from(name, from)] == DOT,
        forall|i: int| from <= i < dot_from(name, from) && i < name.len() ==> name[i] != DOT,
    decreases name.len() - from,
{
    if from < name.len() && name[from] != DOT {
        lemma_dot_from(name, from + 1);
    }
}

/// The name of a path names an entry of a directory.
pub proof fn name_is_entry(path: Seq<u8>)
    ensures
        name_of(path) matches Some(name) ==> is_entry_name(name),
{
    let t = trimmed(path);
    lemma_trimmed(path);
    lemma_last_component_start(t);
    lemma_not_current(path);
    let start = last_component_start(t);
    let name = t.skip(start);
    if t.len() > 0 {
        assert(start < t.len());
        assert(!name.contains(SLASH));
        if name == seq![DOT] {
            assert(t.last() == name[0]);
        }
    }
}

/// A trimmed path ends in no `.` component.
proof fn lemma_not_current(path: Seq<u8>)
    ensures
        ({
            let t = trimmed(path);
            t.len() > 0 && t.last() == DOT ==> t.len() > 1 && t[t.len() - 2] != SLASH
        }),
    decreases path.len(),
{
    if path.len() > 0 {
        lemma_not_current(path.drop_last());
    }
}

/// A path that ends in the name of an entry has that name.
pub proof fn name_of_entry(parent: Seq<u8>, name: Seq<u8>)
    requires
        is_entry_name(name),
        parent.len() > 0 ==> parent.last() == SLASH,
    ensures
        name_of(parent + name) == Some(name),
        trimmed(parent + name) == parent + name,
{
    let path = parent + name;
    assert(path.last() == name.last());
    assert(name.contains(name.last()));
    if path.last() == DOT {
        if name.len() == 1 {
            assert(name =~= seq![DOT]);
        } else {
            assert(path[path.len() - 2] == name[name.len() - 2]);
            assert(name.contains(name[name.len() - 2]));
        }
    }
    assert forall|i: int| parent.len() <= i < path.len() implies path[i] != SLASH by {
        assert(path[i] == name[i - parent.len()]);
        assert(name.contains(name[i - parent.len()]));
    }
    lemma_last_component_start_is(path, parent.len() as int);
    assert(path.skip(parent.len() as int) =~= name);
}

/// The name of the entry that a path leads to.
pub fn file_name(path: &[u8]) -> (r: Option<&[u8]>)
    ensures
        r is Some <==> name_of(path@) is Some,
        r matches Some(name) ==> name_of(path@) == Some(name@),
{
    let mut end: usize = path.len();
    assert(path@.take(end as int) =~= path@);
    while end > 0 && (path[end - 1] == SLASH || (path[end - 1] == DOT && (end == 1 || path[end - 2]
        == SLASH)))
        invariant
            end <= path@.len(),
            trimmed(path@) == trimmed(path@.take(end as int)),
        decreases end,
    {
        assert(path@.take(end as int).drop_last() =~= path@.take(end - 1));
        end -= 1;
    }
    assert(trimmed(path@) == path@.take(end as int));
    if end == 0 {
        return None;
    }
    let ghost t = trimmed(path@);
    let mut start: usize = end;
    while start > 0 && path[start - 1] != SLASH
        invariant
            start <= end <= path@.len(),
            t == path@.take(end as int),
            forall|i: int| start <= i < end ==> t[i] != SLASH,
        decreases start,
    {
        start -= 1;
    }
    proof {
        lemma_last_component_start_is(t, start as int);
        assert(t.skip(start as int) =~= path@.subrange(start as int, end as int));
    }
    if end - start == 2 && path[start] == DOT && path[start + 1] == DOT {
        assert(t.skip(start as int) =~= seq![DOT, DOT]);
        return None;
    }
    proof {
        let name = t.skip(start as int);
        if is_parent(name) {
            assert(name[0] == path@[start as int]);
            assert(name[1] == path@[start + 1]);
        }
    }
    Some(slice_subrange(path, start, end))
}

/// The length of a name without its last extension.
fn stem_length(name: &[u8]) -> (r: usize)
    ensures
        r <= name@.len(),
        name@.take(r as int) == without_extension(name@),
{
    let mut i: usize = name.len();
    proof {
        lemma_last_dot(name@);
        assert(name@.take(name@.len() as int) =~= name@);
    }
    while i > 0
        invariant
            i <= name@.len(),
            last_dot(name@) < i,
            last_dot(name@) >= -1,
            last_dot(name@) >= 0 ==> name@[last_dot(name@)] == DOT,
            forall|j: int| last_dot(name@) < j < name@.len() ==> name@[j] != DOT,
        decreases i,
    {
        i -= 1;
        if name[i] == DOT {
            return if i > 0 {
                i
            } else {
                name.len()
            };
        }
    }
    name.len()
}

/// The name of the entry that a path leads to, without its last extension.
pub fn last_stem(path: &[u8]) -> (r: Option<&[u8]>)
    ensures
        r is Some <==> name_of(path@) is Some,
        r matches Some(stem) ==> name_of(path@) is Some && stem@ == without_extension(
            name_of(path@)->0,
        ),
{
    match file_name(path) {
        Some(name) => Some(slice_subrange(name, 0, stem_length(name))),
        None => None,
    }
}

/// Whether a byte string is what is left of a name once some of its extensions,
/// or none, were cut off from behind.
spec fn is_cut(name: Seq<u8>, cut: Seq<u8>) -> bool {
    &&& 1 <= cut.len() <= name.len()
    &&& cut == name.take(cut.len() as int)
    &&& cut.len() < name.len() ==> name[cut.len() as int] == DOT
}

/// What is left of a name, with or without extensions, has a stem just where
/// the name has one.
proof fn lemma_cut(name: Seq<u8>, cut: Seq<u8>)
    requires
        is_entry_name(name),
        is_cut(name, cut),
    ensures
        ({
            let starts_with_dots = name.len() >= 2 && name[0] == DOT && name[1] == DOT;
            let next = without_extension(cut);
            &&& name_of(cut) is None ==> starts_with_dots
            &&& name_of(cut) is Some ==> name_of(cut) == Some(cut)
            &&& name_of(cut) is Some && next.len() == cut.len() ==> !starts_with_dots && cut
                == name.take(dot_from(name, 1))
            &&& next.len() < cut.len() ==> is_cut(name, next)
            &&& next.len() >= cut.len() ==> next == cut
        }),
{
    let next = without_extension(cut);
    lemma_last_dot(cut);
    lemma_dot_from(name, 1);
    assert(!cut.contains(SLASH)) by {
        if cut.contains(SLASH) {
            let i = cut.index_of(SLASH);
            assert(name[i] == SLASH);
            assert(name.contains(name[i]));
        }
    }
    if cut == seq![DOT] {
        assert(name[0] == cut[0]);
        assert(cut.last() == DOT);
        assert(cut.drop_last() =~= Seq::<u8>::empty());
        assert(trimmed(cut.drop_last()) == Seq::<u8>::empty());
        assert(name.len() > 1) by {
            if name.len() == 1 {
                assert(name =~= seq![DOT]);
            }
        }
    } else if is_parent(cut) {
        assert(name[0] == cut[0]);
        assert(name[1] == cut[1]);
        assert(last_dot(cut) == 1);
        assert(next =~= name.take(1));
        lemma_last_component_start_is(cut, 0);
        assert(cut.skip(0) =~= cut);
        assert(trimmed(cut) == cut);
    } else {
        name_of_entry(Seq::<u8>::empty(), cut);
        assert(Seq::<u8>::empty() + cut =~= cut);
        if last_dot(cut) > 0 {
            let d = last_dot(cut);
            assert(next =~= name.take(d));
            assert(name[d] == cut[d]);
        } else {
            assert forall|i: int| 1 <= i < cut.len() implies name[i] != DOT by {
                assert(name[i] == cut[i]);
            }
            assert(dot_from(name, 1) == cut.len()) by {
                if dot_from(name, 1) < cut.len() {
                    assert(name[dot_from(name, 1)] == DOT);
                }
                if dot_from(name, 1) > cut.len() {
                    assert(name[cut.len() as int] != DOT);
                }
            }
            if name.len() >= 2 && name[0] == DOT && name[1] == DOT {
                assert(cut.len() == 1);
                assert(cut[0] == name[0]);
                assert(cut =~= seq![DOT]);
            }
        }
    }
}

/// Extract the file stem of a path: the part of its name in front of any
/// extension, not just of the last one.
pub fn file_stem(path: &[u8]) -> (r: Result<&[u8], NoFileStem>)
    ensures
        r is Ok <==> stem_of(path@) is Some,
        r matches Ok(stem) ==> stem_of(path@) == Some(stem@),
{
    let mut rest: &[u8] = path;
    let ghost mut name: Seq<u8> = Seq::empty();
    let ghost mut named = false;
    loop
        invariant
            !named ==> rest@ == path@,
            named ==> name_of(path@) == Some(name) && is_entry_name(name) && is_cut(name, rest@),
        decreases rest@.len(),
    {
        let stem = match last_stem(rest) {
            Some(stem) => stem,
            None => {
                proof {
                    if named {
                        lemma_cut(name, rest@);
                    }
                }
                return Err(NoFileStem);
            },
        };
        proof {
            lemma_trimmed(rest@);
            lemma_last_component_start(trimmed(rest@));
            if named {
                lemma_cut(name, rest@);
            } else {
                name = name_of(path@)->0;
                name_is_entry(path@);
                assert(name.take(name.len() as int) =~= name);
                assert(is_cut(name, name));
                lemma_cut(name, name);
                named = true;
            }
        }
        if stem.len() == rest.len() {
            return Ok(stem);
        }
        rest = stem;
    }
}

/// Append a path to a base.
pub fn join(base: &[u8], path: &[u8]) -> (r: Vec<u8>)
    ensures
        r@ == joined(base@, path@),
{
    if path.len() > 0 && path[0] == SLASH {
        return slice_to_vec(path);
    }
    let mut r = slice_to_vec(base);
    if base.len() > 0 && base[base.len() - 1] != SLASH {
        r.push(SLASH);
    }
    r.extend_from_slice(path);
    assert(r@ =~= joined(base@, path@));
    r
}

/// A file stem names an entry of a directory, and has no extension.
pub proof fn stem_is_entry(path: Seq<u8>)
    ensures
        stem_of(path) matches Some(stem) ==> is_entry_name(stem) && (forall|i: int|
            1 <= i < stem.len() ==> stem[i] != DOT),
{
    if let Some(stem) = stem_of(path) {
        let name = name_of(path)->0;
        name_is_entry(path);
        lemma_dot_from(name, 1);
        if stem.contains(SLASH) {
            let i = stem.index_of(SLASH);
            assert(name[i] == SLASH);
            assert(name.contains(name[i]));
        }
        if stem == seq![DOT] {
            assert(name[0] == stem[0]);
            if name.len() == 1 {
                assert(name =~= seq![DOT]);
            }
        }
        if is_parent(stem) {
            assert(name[1] == stem[1]);
        }
        assert forall|i: int| 1 <= i < stem.len() implies stem[i] != DOT by {
            assert(stem[i] == name[i]);
        }
    }
}

/// A file stem starts the name of its path, and an extension, if anything,
/// follows it there.
pub proof fn stem_starts_name(path: Seq<u8>)
    ensures
        stem_of(path) matches Some(stem) ==> {
            &&& name_of(path) matches Some(name)
            &&& stem.is_prefix_of(name)
            &&& stem.len() < name.len() ==> name[stem.len() as int] == DOT
        },
{
    if let Some(stem) = stem_of(path) {
        lemma_dot_from(name_of(path)->0, 1);
        name_is_entry(path);
    }
}

/// A file stem is its own file stem.
pub proof fn stem_is_idempotent(path: Seq<u8>)
    ensures
        stem_of(path) matches Some(stem) ==> stem_of(stem) == Some(stem),
{
    if let Some(stem) = stem_of(path) {
        stem_is_entry(path);
        name_of_entry(Seq::<u8>::empty(), stem);
        assert(Seq::<u8>::empty() + stem =~= stem);
        lemma_dot_from(stem, 1);
        assert(stem.take(stem.len() as int) =~= stem);
        if stem.len() >= 2 {
            assert(stem[1] != DOT);
        }
    }
}

/// An entry that is joined to a base is the name of the joined path, and what
/// stands in front of it does not depend on the entry.
pub proof fn join_ends_in_entry(base: Seq<u8>, entry: Seq<u8>)
    requires
        is_entry_name(entry),
    ensures
        name_of(joined(base, entry)) == Some(entry),
        joined(base, entry) == joined(base, Seq::<u8>::empty()) + entry,
{
    assert(entry.contains(entry[0]));
    let parent = joined(base, Seq::<u8>::empty());
    assert(joined(base, entry) =~= parent + entry);
    name_of_entry(parent, entry);
}

/// A path that starts with a separator is joined to nothing. Any other one is
/// found at the end of what it is joined to, with the whole base in front of it,
/// and with nothing between them but one separator, where the base does not end in
/// one.
pub proof fn join_keeps_both(base: Seq<u8>, path: Seq<u8>)
    ensures
        path.len() > 0 && path[0] == '/' as u8 ==> joined(base, path) == path,
        path.len() == 0 || path[0] != '/' as u8 ==> {
            let between = joined(base, path).len() - base.len() - path.len();
            &&& base.is_prefix_of(joined(base, path))
            &&& joined(base, path).skip(base.len() + between) == path
            &&& between == if base.len() == 0 || base.last() == '/' as u8 {
                0int
            } else {
                1
            }
            &&& between == 1 ==> joined(base, path)[base.len() as int] == '/' as u8
        },
{
    if path.len() == 0 || path[0] != '/' as u8 {
        let between = joined(base, path).len() - base.len() - path.len();
        assert(joined(base, path).take(base.len() as int) =~= base);
        assert(joined(base, path).skip(base.len() + between) =~= path);
    }
}

/// Two bases that give the same path with an entry are the same, but for one
/// separator at the end.
pub proof fn join_tells_bases_apart(base: Seq<u8>, other: Seq<u8>, path: Seq<u8>)
    requires
        path.len() == 0 || path[0] != '/' as u8,
        joined(base, path) == joined(other, path),
    ensures
        base == other || base == other.push('/' as u8) || other == base.push('/' as u8),
{
    join_keeps_both(base, path);
    join_keeps_both(other, path);
    let all = joined(base, path);
    if base.len() == other.len() {
        assert(base =~= other);
    } else if base.len() < other.len() {
        assert(all[base.len() as int] == '/' as u8);
        assert(other =~= base.push('/' as u8));
    } else {
        assert(all[other.len() as int] == '/' as u8);
        assert(base =~= other.push('/' as u8));
    }
}

/// Separators and `.` components at the end of a path change neither its name nor
/// its stem.
pub proof fn trailing_separators_are_ignored(path: Seq<u8>)
    ensures
        name_of(path.push('/' as u8)) == name_of(path),
        name_of(path.push('/' as u8).push('.' as u8)) == name_of(path),
        stem_of(path.push('/' as u8)) == stem_of(path),
        stem_of(path.push('/' as u8).push('.' as u8)) == stem_of(path),
{
    let separated = path.push('/' as u8);
    let dotted = separated.push('.' as u8);
    assert(separated.drop_last() =~= path);
    assert(dotted.drop_last() =~= separated);
    assert(trimmed(separated) == trimmed(path));
    assert(trimmed(dotted) == trimmed(separated));
}

/// Nothing, the current directory and a parent directory have neither a name nor a
/// stem.
pub proof fn directories_have_no_name(parent: Seq<u8>)
    requires
        parent.len() > 0 ==> parent.last() == '/' as u8,
    ensures
        name_of(Seq::<u8>::empty()) is None,
        name_of(seq!['.' as u8]) is None,
        name_of(parent.push('.' as u8).push('.' as u8)) is None,
        stem_of(Seq::<u8>::empty()) is None,
        stem_of(seq!['.' as u8]) is None,
        stem_of(parent.push('.' as u8).push('.' as u8)) is None,
{
    assert(seq![DOT].drop_last() =~= Seq::<u8>::empty());
    assert(trimmed(seq![DOT].drop_last()) =~= Seq::<u8>::empty());
    let path = parent.push(DOT).push(DOT);
    assert(trimmed(path) == path);
    lemma_last_component_start_is(path, parent.len() as int);
    assert(path.skip(parent.len() as int) =~= seq![DOT, DOT]);
}

/// The name of a path is all that follows its last separator. Its stem ends in
/// front of the first dot, other than one at its very start, and is the whole name
/// where there is no such dot. A name that starts with two dots has no stem.
pub proof fn stem_ends_at_first_extension(parent: Seq<u8>, name: Seq<u8>)
    requires
        parent.len() > 0 ==> parent.last() == '/' as u8,
        name.len() > 0,
        !name.contains('/' as u8),
        name != seq!['.' as u8],
        name != seq!['.' as u8, '.' as u8],
    ensures
        name_of(parent + name) == Some(name),
        name.len() >= 2 && name[0] == '.' as u8 && name[1] == '.' as u8 ==> stem_of(
            parent + name,
        ) is None,
        !(name.len() >= 2 && name[0] == '.' as u8 && name[1] == '.' as u8) ==> {
            &&& stem_of(parent + name) matches Some(stem)
            &&& 1 <= stem.len() <= name.len()
            &&& stem == name.take(stem.len() as int)
            &&& forall|i: int| 1 <= i < stem.len() ==> name[i] != '.' as u8
            &&& stem.len() < name.len() ==> name[stem.len() as int] == '.' as u8
        },
{
    name_of_entry(parent, name);
    lemma_dot_from(name, 1);
}

/// A name without its last extension is followed, in the name, by a dot and no
/// further one, or else it is the whole name, which has no dot but one at its very
/// start.
pub proof fn last_extension_is_cut(name: Seq<u8>)
    ensures
        ({
            let rest = without_extension(name);
            &&& rest.is_prefix_of(name)
            &&& rest.len() < name.len() ==> {
                &&& rest.len() > 0
                &&& name[rest.len() as int] == '.' as u8
                &&& forall|i: int| rest.len() < i < name.len() ==> name[i] != '.' as u8
            }
            &&& rest.len() == name.len() ==> forall|i: int|
                1 <= i < name.len() ==> name[i] != '.' as u8
        }),
{
    lemma_last_dot(name);
    let rest = without_extension(name);
    assert(rest =~= name.take(rest.len() as int));
}

} // verus!
