//! File paths as the bytes that a Unix system uses.
//!
//! A path is split at `/`; empty parts and `.` parts (except a leading one) do not
//! count, so `a//b/./` has the parts `a` and `b`.

use vstd::prelude::*;

verus! {

/// The separator byte.
pub const SEPARATOR: u8 = 47;

/// The byte `.`.
pub const DOT: u8 = 46;

/// The path without trailing separators and without trailing `.` parts. A path that
/// is only separators keeps one.
pub open spec fn trimmed(p: Seq<u8>) -> Seq<u8>
    decreases p.len(),
{
    if p.len() > 1 && p.last() == SEPARATOR {
        trimmed(p.drop_last())
    } else if p.len() > 1 && p.last() == DOT && p[p.len() - 2] == SEPARATOR {
        trimmed(p.drop_last())
    } else {
        p
    }
}

/// Where the part after the last separator of `p` begins.
pub open spec fn last_part_start(p: Seq<u8>) -> int
    decreases p.len(),
{
    if p.len() == 0 || p.last() == SEPARATOR {
        p.len() as int
    } else {
        last_part_start(p.drop_last())
    }
}

/// The last part of a path.
pub open spec fn last_part(p: Seq<u8>) -> Seq<u8> {
    let t = trimmed(p);
    t.subrange(last_part_start(t), t.len() as int)
}

/// The name of the file that the path leads to: its last part, unless that part is
/// missing, `.` or `..`.
pub open spec fn file_name(p: Seq<u8>) -> Option<Seq<u8>> {
    let n = last_part(p);
    if n.len() == 0 || n == seq![DOT] || n == seq![DOT, DOT] {
        None
    } else {
        Some(n)
    }
}

/// The path without its last part; a path without parts has no parent.
pub open spec fn parent(p: Seq<u8>) -> Option<Seq<u8>> {
    let t = trimmed(p);
    if last_part(p).len() == 0 {
        None
    } else {
        Some(trimmed(t.subrange(0, last_part_start(t))))
    }
}

/// `name` inside the directory `dir`.
pub open spec fn joined(dir: Seq<u8>, name: Seq<u8>) -> Seq<u8> {
    if dir.len() == 0 || dir.last() == SEPARATOR {
        dir + name
    } else {
        dir.push(SEPARATOR) + name
    }
}

/// Where the last `.` of `name` stands, if it has one.
pub open spec fn last_dot(name: Seq<u8>) -> Option<int>
    decreases name.len(),
{
    if name.len() == 0 {
        None
    } else if name.last() == DOT {
        Some(name.len() - 1)
    } else {
        last_dot(name.drop_last())
    }
}

/// The start of the last part lies within the path.
pub proof fn last_part_start_bounds(p: Seq<u8>)
    ensures
        0 <= last_part_start(p) <= p.len(),
        forall|i: int| last_part_start(p) <= i < p.len() ==> p[i] != SEPARATOR,
        last_part_start(p) > 0 ==> p[last_part_start(p) - 1] == SEPARATOR,
    decreases p.len(),
{
    if p.len() > 0 && p.last() != SEPARATOR {
        last_part_start_bounds(p.drop_last());
        assert forall|i: int| last_part_start(p) <= i < p.len() implies p[i] != SEPARATOR by {
            if i < p.len() - 1 {
                assert(p[i] == p.drop_last()[i]);
            }
        }
    }
}

/// The last dot of a name is one of its bytes and no dot follows it.
pub proof fn last_dot_bounds(name: Seq<u8>)
    ensures
        match last_dot(name) {
            Some(d) => 0 <= d < name.len() && name[d] == DOT && (forall|i: int|
                d < i < name.len() ==> name[i] != DOT),
            None => forall|i: int| 0 <= i < name.len() ==> name[i] != DOT,
        },
    decreases name.len(),
{
    if name.len() > 0 && name.last() != DOT {
        let shorter = name.drop_last();
        last_dot_bounds(shorter);
        assert forall|i: int| 0 <= i < name.len() - 1 implies name[i] == shorter[i] by {}
    }
}

/// How long the path is without trailing separators and `.` parts.
pub fn trimmed_len(p: &[u8]) -> (n: usize)
    ensures
        n <= p@.len(),
        p@.subrange(0, n as int) == trimmed(p@),
{
    let mut n: usize = p.len();
    assert(p@.subrange(0, n as int) =~= p@);
    while n > 1 && (p[n - 1] == SEPARATOR || (p[n - 1] == DOT && p[n - 2] == SEPARATOR))
        invariant
            n <= p@.len(),
            trimmed(p@.subrange(0, n as int)) == trimmed(p@),
        decreases n,
    {
        assert(p@.subrange(0, n as int).drop_last() =~= p@.subrange(0, n - 1));
        n = n - 1;
    }
    n
}

/// Where the last part of the first `n` bytes of `p` begins.
pub fn part_start(p: &[u8], n: usize) -> (s: usize)
    requires
        n <= p@.len(),
    ensures
        s <= n,
        s == last_part_start(p@.subrange(0, n as int)),
{
    let mut s: usize = n;
    while s > 0 && p[s - 1] != SEPARATOR
        invariant
            s <= n <= p@.len(),
            last_part_start(p@.subrange(0, s as int)) == last_part_start(
                p@.subrange(0, n as int),
            ),
        decreases s,
    {
        assert(p@.subrange(0, s as int).drop_last() =~= p@.subrange(0, s - 1));
        s = s - 1;
    }
    s
}

/// Where the last `.` of `name` stands.
pub fn find_last_dot(name: &[u8]) -> (r: Option<usize>)
    ensures
        match r {
            Some(d) => last_dot(name@) == Some(d as int),
            None => last_dot(name@) is None,
        },
{
    let mut n: usize = name.len();
    assert(name@.subrange(0, n as int) =~= name@);
    while n > 0
        invariant
            n <= name@.len(),
            last_dot(name@.subrange(0, n as int)) == last_dot(name@),
        decreases n,
    {
        if name[n - 1] == DOT {
            return Some(n - 1);
        }
        assert(name@.subrange(0, n as int).drop_last() =~= name@.subrange(0, n - 1));
        n = n - 1;
    }
    None
}

/// Whether `name` is `.` or `..`.
pub fn is_dots(name: &[u8]) -> (b: bool)
    ensures
        b == (name@ == seq![DOT] || name@ == seq![DOT, DOT]),
{
    let b = (name.len() == 1 && name[0] == DOT) || (name.len() == 2 && name[0] == DOT && name[1]
        == DOT);
    assert(b ==> name@ =~= seq![DOT] || name@ =~= seq![DOT, DOT]);
    b
}

/// A path that ends in something else than a separator or a dot is as it should be; a
/// separator or a `.` part at its end does not count.
pub proof fn ends_do_not_count(p: Seq<u8>)
    requires
        p.len() > 0,
    ensures
        p.last() != 47 && p.last() != 46 ==> trimmed(p) == p,
        trimmed(p.push(47)) == trimmed(p),
        trimmed(p.push(47).push(46)) == trimmed(p),
{
    assert(p.push(47).drop_last() =~= p);
    assert(p.push(47).push(46).drop_last() =~= p.push(47));
}

proof fn name_begins(dir: Seq<u8>, name: Seq<u8>)
    requires
        dir.len() == 0 || dir.last() == 47,
        forall|i: int| 0 <= i < name.len() ==> #[trigger] name[i] != 47,
    ensures
        last_part_start(dir + name) == dir.len(),
    decreases name.len(),
{
    if name.len() == 0 {
        assert(dir + name =~= dir);
    } else {
        name_begins(dir, name.drop_last());
        assert((dir + name).drop_last() =~= dir + name.drop_last());
        assert((dir + name).last() == name[name.len() - 1]);
    }
}

/// A path is split at its last separator: behind it stands the name of the file, and what
/// is before it is the parent.
pub proof fn paths_are_split_at_the_last_separator(dir: Seq<u8>, name: Seq<u8>)
    requires
        dir.len() == 0 || dir.last() == 47,
        name.len() > 0,
        name.last() != 46,
        forall|i: int| 0 <= i < name.len() ==> #[trigger] name[i] != 47,
    ensures
        trimmed(dir + name) == dir + name,
        last_part_start(dir + name) == dir.len(),
        file_name(dir + name) == Some(name),
        parent(dir + name) == Some(trimmed(dir)),
{
    let p = dir + name;
    assert(p.last() == name.last());
    assert(name[name.len() - 1] != 47);
    ends_do_not_count(p);
    name_begins(dir, name);
    assert(p.subrange(dir.len() as int, p.len() as int) =~= name);
    assert(p.subrange(0, dir.len() as int) =~= dir);
    assert(seq![DOT].last() == 46 && seq![DOT, DOT].last() == 46);
}

/// A name in a directory stands behind exactly one separator; in no directory it stands
/// alone.
pub proof fn names_stand_behind_one_separator(dir: Seq<u8>, name: Seq<u8>)
    ensures
        joined(Seq::empty(), name) == name,
        joined(dir.push(47), name) == dir.push(47) + name,
        dir.len() > 0 && dir.last() != 47 ==> joined(dir, name) == dir.push(47) + name,
{
    assert(Seq::<u8>::empty() + name =~= name);
}

/// A path that ends in `..` has a last part but names no file; an empty path and a lone
/// separator have neither a name nor a parent.
pub proof fn some_paths_name_no_file(dir: Seq<u8>)
    requires
        dir.len() == 0 || dir.last() == 47,
    ensures
        file_name(dir + seq![46u8, 46u8]) is None,
        parent(dir + seq![46u8, 46u8]) == Some(trimmed(dir)),
        file_name(Seq::empty()) is None && parent(Seq::empty()) is None,
        file_name(seq![47u8]) is None && parent(seq![47u8]) is None,
{
    let dots = seq![46u8, 46u8];
    let p = dir + dots;
    assert(p[p.len() - 2] == 46);
    assert(trimmed(p) == p);
    name_begins(dir, dots);
    assert(p.subrange(dir.len() as int, p.len() as int) =~= seq![DOT, DOT]);
    assert(p.subrange(0, dir.len() as int) =~= dir);
    assert(trimmed(seq![47u8]) == seq![47u8]);
}

} // verus!
