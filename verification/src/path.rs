//! Host paths as byte strings.
//!
//! A path is the sequence of bytes that the host uses for it, with `/` between
//! components. The functions here are the few path operations that the
//! filesystem's bookkeeping rests on.

use vstd::prelude::*;

verus! {

/// Whether two byte strings hold the same bytes.
pub fn bytes_eq(a: &Vec<u8>, b: &Vec<u8>) -> (same: bool)
    ensures
        same == (a@ == b@),
{
    if a.len() != b.len() {
        return false;
    }
    let mut i: usize = 0;
    while i < a.len()
        invariant
            a.len() == b.len(),
            i <= a.len(),
            a@.subrange(0, i as int) == b@.subrange(0, i as int),
        decreases a.len() - i,
    {
        if a[i] != b[i] {
            return false;
        }
        proof {
            assert(a@.subrange(0, i + 1) == a@.subrange(0, i as int).push(a@[i as int]));
            assert(b@.subrange(0, i + 1) == b@.subrange(0, i as int).push(b@[i as int]));
        }
        i += 1;
    }
    proof {
        assert(a@ == a@.subrange(0, a.len() as int));
        assert(b@ == b@.subrange(0, b.len() as int));
    }
    true
}

/// A fresh copy of a byte string.
pub fn clone_bytes(a: &Vec<u8>) -> (copy: Vec<u8>)
    ensures
        copy@ == a@,
{
    let mut copy: Vec<u8> = Vec::with_capacity(a.len());
    let mut i: usize = 0;
    while i < a.len()
        invariant
            i <= a.len(),
            copy@ == a@.subrange(0, i as int),
        decreases a.len() - i,
    {
        copy.push(a[i]);
        proof {
            assert(a@.subrange(0, i + 1) == a@.subrange(0, i as int).push(a@[i as int]));
        }
        i += 1;
    }
    proof {
        assert(a@ == a@.subrange(0, a.len() as int));
    }
    copy
}

/// The byte that separates the components of a path.
pub const SEPARATOR: u8 = 47;

/// The byte of which the names `.` and `..` are made.
pub const DOT: u8 = 46;

/// A path is absolute when it begins with the separator.
pub open spec fn is_absolute_spec(path: Seq<u8>) -> bool {
    path.len() > 0 && path[0] == SEPARATOR
}

/// The number of bytes in front of the first separator of `path`; the
/// length of `path` where it holds no separator.
pub open spec fn first_separator(path: Seq<u8>) -> int
    decreases path.len(),
{
    if path.len() == 0 || path[0] == SEPARATOR {
        0
    } else {
        1 + first_separator(path.subrange(1, path.len() as int))
    }
}

/// The components of a path: the runs of bytes between separators, in
/// order, without the empty runs and without the runs that are a single
/// dot. A run of two dots is a component like any other name.
pub open spec fn components(path: Seq<u8>) -> Seq<Seq<u8>>
    decreases path.len(),
{
    if path.len() == 0 {
        Seq::empty()
    } else {
        let cut = first_separator(path);
        if 0 <= cut <= path.len() {
            let head = path.subrange(0, cut);
            let rest = if cut < path.len() {
                path.subrange(cut + 1, path.len() as int)
            } else {
                Seq::empty()
            };
            if head.len() == 0 || head == seq![DOT] {
                components(rest)
            } else {
                seq![head] + components(rest)
            }
        } else {
            Seq::empty()
        }
    }
}

/// Whether `path` lies at or below `base`: both are absolute or both are
/// relative, and the components of `base` are the first components of `path`.
pub open spec fn starts_with_spec(path: Seq<u8>, base: Seq<u8>) -> bool {
    &&& is_absolute_spec(path) == is_absolute_spec(base)
    &&& components(base).len() <= components(path).len()
    &&& components(path).subrange(0, components(base).len() as int) == components(base)
}

/// The first of `parts` that is not the name `..`.
pub open spec fn first_normal(parts: Seq<Seq<u8>>) -> Option<Seq<u8>>
    decreases parts.len(),
{
    if parts.len() == 0 {
        None
    } else if parts[0] != seq![DOT, DOT] {
        Some(parts[0])
    } else {
        first_normal(parts.skip(1))
    }
}

/// The project that `path` belongs to, seen from the directory `storage`:
/// the first ordinary name among the components that `path` has beyond
/// those of `storage`. Paths outside `storage`, and `storage` itself, belong
/// to no project.
pub open spec fn project_name_spec(storage: Seq<u8>, path: Seq<u8>) -> Option<Seq<u8>> {
    if starts_with_spec(path, storage) {
        first_normal(components(path).skip(components(storage).len() as int))
    } else {
        None
    }
}

/// The path of the entry `name` in the directory `parent`: an absolute
/// `name` stands for itself; otherwise `name` follows `parent`, with one
/// separator between them unless `parent` is empty or ends with one.
pub open spec fn join_spec(parent: Seq<u8>, name: Seq<u8>) -> Seq<u8> {
    if is_absolute_spec(name) {
        name
    } else if parent.len() == 0 || parent.last() == SEPARATOR {
        parent + name
    } else {
        parent.push(SEPARATOR) + name
    }
}

/// The views of a list of byte strings.
pub open spec fn views(parts: Seq<Vec<u8>>) -> Seq<Seq<u8>> {
    parts.map_values(|part: Vec<u8>| part@)
}

/// A directory belongs to no project of its own.
pub proof fn lemma_no_project_at_base(base: Seq<u8>)
    ensures
        project_name_spec(base, base) is None,
{
    let parts = components(base);
    assert(parts.skip(parts.len() as int).len() == 0);
}

/// `first_separator` is the position of the first separator.
pub proof fn lemma_first_separator(path: Seq<u8>, cut: int)
    requires
        0 <= cut <= path.len(),
        forall|k: int| 0 <= k < cut ==> path[k] != SEPARATOR,
        cut < path.len() ==> path[cut] == SEPARATOR,
    ensures
        first_separator(path) == cut,
    decreases path.len(),
{
    if path.len() == 0 || path[0] == SEPARATOR {
    } else {
        let tail = path.subrange(1, path.len() as int);
        assert forall|k: int| 0 <= k < cut - 1 implies tail[k] != SEPARATOR by {
            assert(tail[k] == path[k + 1]);
        }
        lemma_first_separator(tail, cut - 1);
    }
}

/// Whether `path` is absolute.
pub fn is_absolute(path: &Vec<u8>) -> (absolute: bool)
    ensures
        absolute == is_absolute_spec(path@),
{
    path.len() > 0 && path[0] == SEPARATOR
}

/// A copy of the bytes of `path` from `from` up to, not including, `to`.
fn copy_range(path: &Vec<u8>, from: usize, to: usize) -> (part: Vec<u8>)
    requires
        from <= to <= path.len(),
    ensures
        part@ == path@.subrange(from as int, to as int),
{
    let mut part: Vec<u8> = Vec::with_capacity(to - from);
    let mut i: usize = from;
    while i < to
        invariant
            from <= i <= to <= path.len(),
            part@ == path@.subrange(from as int, i as int),
        decreases to - i,
    {
        part.push(path[i]);
        proof {
            assert(path@.subrange(from as int, i + 1) == path@.subrange(
                from as int,
                i as int,
            ).push(path@[i as int]));
        }
        i += 1;
    }
    part
}

/// Splits a path into its components.
pub fn split_components(path: &Vec<u8>) -> (parts: Vec<Vec<u8>>)
    ensures
        views(parts@) == components(path@),
{
    let n = path.len();
    let mut parts: Vec<Vec<u8>> = Vec::new();
    let mut pos: usize = 0;
    proof {
        assert(path@.subrange(0, n as int) == path@);
        assert(views(parts@) == Seq::<Seq<u8>>::empty());
        assert(Seq::<Seq<u8>>::empty() + components(path@) == components(path@));
    }
    while pos < n
        invariant
            n == path.len(),
            pos <= n,
            components(path@) == views(parts@) + components(path@.subrange(pos as int, n as int)),
        decreases n - pos,
    {
        let mut end: usize = pos;
        while end < n && path[end] != SEPARATOR
            invariant
                n == path.len(),
                pos <= end <= n,
                forall|k: int| pos <= k < end ==> path@[k] != SEPARATOR,
            decreases n - end,
        {
            end += 1;
        }
        let ghost suffix = path@.subrange(pos as int, n as int);
        let ghost head = suffix.subrange(0, end - pos);
        let ghost before = views(parts@);
        proof {
            assert forall|k: int| 0 <= k < end - pos implies suffix[k] != SEPARATOR by {
                assert(suffix[k] == path@[pos + k]);
            }
            lemma_first_separator(suffix, end - pos);
            assert(head == path@.subrange(pos as int, end as int));
        }
        let single_dot = end - pos == 1 && path[pos] == DOT;
        proof {
            if single_dot {
                assert(head == seq![DOT]);
            } else if head == seq![DOT] {
                assert(head.len() == 1);
                assert(head[0] == DOT);
                assert(false);
            }
        }
        if end > pos && !single_dot {
            let part = copy_range(path, pos, end);
            parts.push(part);
            proof {
                assert(views(parts@) == before.push(head));
                assert(before.push(head) == before + seq![head]);
            }
        }
        let next: usize = if end < n {
            end + 1
        } else {
            n
        };
        proof {
            let rest = if end - pos < suffix.len() {
                suffix.subrange(end - pos + 1, suffix.len() as int)
            } else {
                Seq::empty()
            };
            assert(rest == path@.subrange(next as int, n as int));
            if head.len() == 0 || head == seq![DOT] {
                assert(components(suffix) == components(rest));
            } else {
                assert(components(suffix) == seq![head] + components(rest));
                assert(before + (seq![head] + components(rest)) == (before + seq![head])
                    + components(rest));
            }
        }
        pos = next;
    }
    proof {
        assert(path@.subrange(n as int, n as int).len() == 0);
        assert(views(parts@) + Seq::<Seq<u8>>::empty() == views(parts@));
    }
    parts
}

/// Whether `path` lies at or below `base`, component by component.
pub fn starts_with(path: &Vec<u8>, base: &Vec<u8>) -> (below: bool)
    ensures
        below == starts_with_spec(path@, base@),
{
    if is_absolute(path) != is_absolute(base) {
        return false;
    }
    let path_parts = split_components(path);
    let base_parts = split_components(base);
    if base_parts.len() > path_parts.len() {
        return false;
    }
    let ghost pc = components(path@);
    let ghost bc = components(base@);
    let mut i: usize = 0;
    while i < base_parts.len()
        invariant
            i <= base_parts.len() <= path_parts.len(),
            pc == components(path@),
            bc == components(base@),
            is_absolute_spec(path@) == is_absolute_spec(base@),
            views(path_parts@) == pc,
            views(base_parts@) == bc,
            forall|k: int| 0 <= k < i ==> pc[k] == bc[k],
        decreases base_parts.len() - i,
    {
        proof {
            assert(views(path_parts@).len() == path_parts.len());
            assert(views(base_parts@).len() == base_parts.len());
            assert(views(path_parts@)[i as int] == path_parts@[i as int]@);
            assert(views(base_parts@)[i as int] == base_parts@[i as int]@);
        }
        if !bytes_eq(&path_parts[i], &base_parts[i]) {
            proof {
                assert(pc.subrange(0, bc.len() as int)[i as int] == pc[i as int]);
            }
            return false;
        }
        i += 1;
    }
    proof {
        assert(pc.subrange(0, bc.len() as int) =~= bc);
    }
    true
}

/// The first of `parts`, from position `start` on, that is not the name
/// `..`.
pub fn first_normal_part(parts: &Vec<Vec<u8>>, start: usize) -> (found: Option<Vec<u8>>)
    requires
        start <= parts.len(),
    ensures
        match found {
            Some(name) => first_normal(views(parts@).skip(start as int)) == Some(name@),
            None => first_normal(views(parts@).skip(start as int)) is None,
        },
{
    let ghost all = views(parts@);
    let mut i: usize = start;
    while i < parts.len()
        invariant
            start <= i <= parts.len(),
            all == views(parts@),
            first_normal(all.skip(start as int)) == first_normal(all.skip(i as int)),
        decreases parts.len() - i,
    {
        let part = &parts[i];
        proof {
            assert(all.len() == parts.len());
            assert(all[i as int] == parts@[i as int]@);
            assert(all.skip(i as int).len() == all.len() - i);
            assert(all.skip(i as int)[0] == all[i as int]);
            assert(all.skip(i as int).skip(1) == all.skip(i + 1));
        }
        let parent = part.len() == 2 && part[0] == DOT && part[1] == DOT;
        proof {
            if parent {
                assert(part@ == seq![DOT, DOT]);
            } else if part@ == seq![DOT, DOT] {
                assert(part@.len() == 2);
                assert(part@[0] == DOT && part@[1] == DOT);
                assert(false);
            }
        }
        if !parent {
            return Some(clone_bytes(part));
        }
        i += 1;
    }
    proof {
        assert(all.len() == parts.len());
        assert(all.skip(i as int).len() == 0);
    }
    None
}

/// The project that `path` belongs to, seen from the directory `storage`,
/// if it belongs to one.
pub fn project_name(storage: &Vec<u8>, path: &Vec<u8>) -> (project: Option<Vec<u8>>)
    ensures
        match project {
            Some(name) => project_name_spec(storage@, path@) == Some(name@),
            None => project_name_spec(storage@, path@) is None,
        },
{
    if !starts_with(path, storage) {
        return None;
    }
    let path_parts = split_components(path);
    let base_parts = split_components(storage);
    proof {
        assert(views(path_parts@).len() == path_parts.len());
        assert(views(base_parts@).len() == base_parts.len());
    }
    first_normal_part(&path_parts, base_parts.len())
}

/// The path of the entry `name` in the directory `parent`.
pub fn join(parent: &Vec<u8>, name: &Vec<u8>) -> (path: Vec<u8>)
    ensures
        path@ == join_spec(parent@, name@),
{
    if is_absolute(name) {
        return clone_bytes(name);
    }
    let mut path = clone_bytes(parent);
    if parent.len() > 0 && parent[parent.len() - 1] != SEPARATOR {
        path.push(SEPARATOR);
    }
    let ghost stem = path@;
    let mut i: usize = 0;
    while i < name.len()
        invariant
            i <= name.len(),
            path@ == stem + name@.subrange(0, i as int),
        decreases name.len() - i,
    {
        path.push(name[i]);
        proof {
            assert(name@.subrange(0, i + 1) == name@.subrange(0, i as int).push(name@[i as int]));
            assert(stem + name@.subrange(0, i as int).push(name@[i as int]) == (stem
                + name@.subrange(0, i as int)).push(name@[i as int]));
        }
        i += 1;
    }
    proof {
        assert(name@.subrange(0, name.len() as int) == name@);
    }
    path
}

} // verus!
