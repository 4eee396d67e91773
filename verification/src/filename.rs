//! Filenames: a request names a file by a path, of which only the terminal
//! component counts.

use vstd::prelude::*;

verus! {

pub const SLASH: u8 = 0x2F;

pub const DOT: u8 = 0x2E;

/// Where the terminal component of the first `n` bytes of a path ends:
/// separators at the end, and components at the end that are a single dot, do
/// not count.
pub open spec fn leaf_end(raw: Seq<u8>, n: int) -> int
    decreases n,
{
    if n <= 0 {
        0
    } else if raw[n - 1] == SLASH {
        leaf_end(raw, n - 1)
    } else if raw[n - 1] == DOT && (n == 1 || raw[n - 2] == SLASH) {
        leaf_end(raw, n - 1)
    } else {
        n
    }
}

/// Where the component that ends at `end` starts: behind the last separator
/// before `end`, or at the start of the path.
pub open spec fn leaf_start(raw: Seq<u8>, end: int) -> int
    decreases end,
{
    if end <= 0 {
        0
    } else if raw[end - 1] == SLASH {
        end
    } else {
        leaf_start(raw, end - 1)
    }
}

/// The terminal component of a path: the last component that is neither empty
/// nor a single dot. `None` where the path has no such component, or where
/// that component is `..`.
pub open spec fn leaf_name(raw: Seq<u8>) -> Option<Seq<u8>> {
    let end = leaf_end(raw, raw.len() as int);
    let start = leaf_start(raw, end);
    let name = raw.subrange(start, end);
    if name.len() == 0 || name == seq![DOT, DOT] {
        None
    } else {
        Some(name)
    }
}

/// A name that can stand as one component of a path: not empty, without a
/// separator, and neither `.` nor `..`.
pub open spec fn is_leaf(name: Seq<u8>) -> bool {
    &&& name.len() > 0
    &&& forall|i: int| 0 <= i < name.len() ==> name[i] != SLASH
    &&& name != seq![DOT]
    &&& name != seq![DOT, DOT]
}

proof fn lemma_leaf_end_bounds(raw: Seq<u8>, n: int)
    requires
        0 <= n <= raw.len(),
    ensures
        0 <= leaf_end(raw, n) <= n,
        leaf_end(raw, n) > 0 ==> raw[leaf_end(raw, n) - 1] != SLASH,
        leaf_end(raw, n) > 0 && raw[leaf_end(raw, n) - 1] == DOT ==> leaf_end(raw, n) >= 2
            && raw[leaf_end(raw, n) - 2] != SLASH,
    decreases n,
{
    if n > 0 {
        lemma_leaf_end_bounds(raw, n - 1);
    }
}

proof fn lemma_leaf_start_bounds(raw: Seq<u8>, end: int)
    requires
        0 <= end <= raw.len(),
    ensures
        0 <= leaf_start(raw, end) <= end,
        forall|j: int| leaf_start(raw, end) <= j < end ==> raw[j] != SLASH,
        leaf_start(raw, end) > 0 ==> raw[leaf_start(raw, end) - 1] == SLASH,
    decreases end,
{
    if end > 0 && raw[end - 1] != SLASH {
        lemma_leaf_start_bounds(raw, end - 1);
    }
}

/// Sanitising works: the terminal component of any path is a single component.
/// It holds no separator, is not empty, and is neither `.` nor `..`, so joined
/// to a directory it names an entry of that directory.
pub proof fn lemma_leaf_name_is_leaf(raw: Seq<u8>)
    ensures
        leaf_name(raw) matches Some(name) ==> is_leaf(name),
{
    let end = leaf_end(raw, raw.len() as int);
    lemma_leaf_end_bounds(raw, raw.len() as int);
    lemma_leaf_start_bounds(raw, end);
    let start = leaf_start(raw, end);
    let name = raw.subrange(start, end);
    if name.len() > 0 {
        assert(name[name.len() - 1] == raw[end - 1]);
        if name =~= seq![DOT] {
            assert(name[0] == DOT);
            assert(raw[end - 1] == DOT);
            assert(start == end - 1);
        }
    }
}

/// Whether the bytes of a path from `from` on make no component that counts:
/// each is a separator, or a dot that stands alone behind a separator or at
/// the start of the path.
pub open spec fn is_idle(raw: Seq<u8>, from: int) -> bool {
    forall|i: int|
        from <= i < raw.len() ==> #[trigger] raw[i] == SLASH || (raw[i] == DOT && (i == 0 || raw[i
            - 1] == SLASH))
}

proof fn lemma_leaf_end_idle(raw: Seq<u8>, n: int)
    requires
        0 <= n <= raw.len(),
        is_idle(raw, n),
    ensures
        is_idle(raw, leaf_end(raw, n)),
    decreases n,
{
    if n > 0 && leaf_end(raw, n) != n {
        assert(is_idle(raw, n - 1));
        lemma_leaf_end_idle(raw, n - 1);
    }
}

/// Where the terminal component lies: it starts at the start of the path or
/// behind a separator, it holds no separator, and nothing follows it but
/// separators and single dots. There is none exactly where nothing is left
/// before those, or where what is left ends in the component `..`.
pub proof fn lemma_leaf_name_position(raw: Seq<u8>)
    ensures
        ({
            let end = leaf_end(raw, raw.len() as int);
            let start = leaf_start(raw, end);
            &&& 0 <= start <= end <= raw.len()
            &&& start == 0 || raw[start - 1] == SLASH
            &&& forall|j: int| start <= j < end ==> raw[j] != SLASH
            &&& is_idle(raw, end)
            &&& leaf_name(raw) is None <==> end == 0 || raw.subrange(start, end) == seq![DOT, DOT]
            &&& leaf_name(raw) matches Some(name) ==> name == raw.subrange(start, end)
        }),
{
    let end = leaf_end(raw, raw.len() as int);
    lemma_leaf_end_bounds(raw, raw.len() as int);
    lemma_leaf_end_idle(raw, raw.len() as int);
    lemma_leaf_start_bounds(raw, end);
}

/// A name that is a single component is its own terminal component.
pub proof fn lemma_leaf_name_of_leaf(name: Seq<u8>)
    requires
        is_leaf(name),
    ensures
        leaf_name(name) == Some(name),
{
    let n = name.len() as int;
    if name[n - 1] == DOT {
        if n == 1 {
            assert(name =~= seq![DOT]);
        }
    }
    assert(leaf_end(name, n) == n);
    lemma_leaf_start_is_zero(name, n);
    assert(name.subrange(0, n) =~= name);
}

proof fn lemma_leaf_start_is_zero(raw: Seq<u8>, end: int)
    requires
        0 <= end <= raw.len(),
        forall|i: int| 0 <= i < end ==> raw[i] != SLASH,
    ensures
        leaf_start(raw, end) == 0,
    decreases end,
{
    if end > 0 {
        lemma_leaf_start_is_zero(raw, end - 1);
    }
}

/// Finds the terminal component of a path.
pub(crate) fn find_leaf(raw: &[u8]) -> (res: Option<(usize, usize)>)
    ensures
        match leaf_name(raw@) {
            Some(name) => res matches Some(r) && r.0 <= r.1 <= raw.len() && raw@.subrange(
                r.0 as int,
                r.1 as int,
            ) == name,
            None => res is None,
        },
{
    let mut end: usize = raw.len();
    while end > 0 && (raw[end - 1] == SLASH || (raw[end - 1] == DOT && (end == 1 || raw[end - 2]
        == SLASH)))
        invariant
            end <= raw.len(),
            leaf_end(raw@, raw.len() as int) == leaf_end(raw@, end as int),
        decreases end,
    {
        end -= 1;
    }
    assert(leaf_end(raw@, end as int) == end);
    let mut start: usize = end;
    while start > 0 && raw[start - 1] != SLASH
        invariant
            start <= end <= raw.len(),
            leaf_start(raw@, end as int) == leaf_start(raw@, start as int),
        decreases start,
    {
        start -= 1;
    }
    assert(leaf_start(raw@, start as int) == start);
    let ghost name = raw@.subrange(start as int, end as int);
    if start == end {
        return None;
    }
    if end - start == 2 && raw[start] == DOT && raw[start + 1] == DOT {
        assert(name =~= seq![DOT, DOT]);
        return None;
    }
    proof {
        let dots = seq![DOT, DOT];
        assert(name.len() == end - start);
        if name == dots {
            assert(dots.len() == 2);
            assert(name[0] == dots[0] && name[1] == dots[1]);
            assert(name[0] == raw@[start as int] && name[1] == raw@[start + 1]);
        }
        assert(leaf_name(raw@) == Some(name));
    }
    Some((start, end))
}


} // verus!
