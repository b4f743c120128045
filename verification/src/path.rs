//! The path grammar behind directory derivation.
//!
//! A path is a sequence of characters split into components at `/`. Empty
//! components and `.` components carry no meaning and are skipped, except for
//! a leading `.`, which stands for the current directory. The parent of a path
//! is the path without its last meaningful component; it is always a prefix of
//! the path it was taken from.
use vstd::prelude::*;
use vstd::string::*;

verus! {

/// Number of leading characters that no component scan consumes: the root
/// slash of an absolute path, or the leading `.` of a path that is `.` or
/// begins with `./`.
pub open spec fn body_start(p: Seq<char>) -> int {
    if p.len() > 0 && p[0] == '/' {
        1
    } else if p.len() > 0 && p[0] == '.' && (p.len() == 1 || p[1] == '/') {
        1
    } else {
        0
    }
}

/// Length of `p.take(end)` once trailing separators and trailing `.`
/// components have been dropped, never going below `start`.
pub open spec fn trimmed_end(p: Seq<char>, start: int, end: int) -> int
    decreases end,
{
    if end <= start || end > p.len() || start < 0 {
        end
    } else if p[end - 1] == '/' {
        trimmed_end(p, start, end - 1)
    } else if p[end - 1] == '.' && end - 1 == start {
        start
    } else if p[end - 1] == '.' && p[end - 2] == '/' {
        trimmed_end(p, start, end - 2)
    } else {
        end
    }
}

/// Index at which the last component of `p.take(end)` begins: just behind the
/// last separator at or after `start`, or `start` where there is none.
pub open spec fn component_start(p: Seq<char>, start: int, end: int) -> int
    decreases end,
{
    if end <= start || end > p.len() || start < 0 {
        start
    } else if p[end - 1] == '/' {
        end
    } else {
        component_start(p, start, end - 1)
    }
}

/// Length that remains when the component beginning at `from` is cut off
/// together with the separator in front of it.
pub open spec fn before_component(start: int, from: int) -> int {
    if from > start {
        from - 1
    } else {
        start
    }
}

/// Length of the parent of `p`, if `p` has one.
///
/// A path that holds a component besides its root has as parent the path
/// before its last component. A path that only names the current directory
/// has the empty path as parent. The root and the empty path have none.
pub open spec fn parent_len(p: Seq<char>) -> Option<int> {
    let start = body_start(p);
    let end = trimmed_end(p, start, p.len() as int);
    if end > start {
        Some(trimmed_end(p, start, before_component(start, component_start(p, start, end))))
    } else if start == 1 && p[0] == '.' {
        Some(0)
    } else {
        None
    }
}

/// The parent of `p`, if `p` has one.
pub open spec fn parent_of(p: Seq<char>) -> Option<Seq<char>> {
    match parent_len(p) {
        Some(k) => Some(p.take(k)),
        None => None,
    }
}

/// `trimmed_end` stays between `start` and `end`.
pub proof fn lemma_trimmed_end_bounds(p: Seq<char>, start: int, end: int)
    requires
        0 <= start <= end <= p.len(),
    ensures
        start <= trimmed_end(p, start, end) <= end,
    decreases end,
{
    if end > start && p[end - 1] == '/' {
        lemma_trimmed_end_bounds(p, start, end - 1);
    } else if end > start && p[end - 1] == '.' && end - 1 != start && p[end - 2] == '/' {
        lemma_trimmed_end_bounds(p, start, end - 2);
    }
}

/// `component_start` stays between `start` and `end`.
pub proof fn lemma_component_start_bounds(p: Seq<char>, start: int, end: int)
    requires
        0 <= start <= end <= p.len(),
    ensures
        start <= component_start(p, start, end) <= end,
    decreases end,
{
    if end > start && p[end - 1] != '/' {
        lemma_component_start_bounds(p, start, end - 1);
    }
}

/// A trimmed path that is longer than `start` ends in a component that is
/// neither empty nor `.`, so its last component begins before its end.
pub proof fn lemma_trimmed_ends_in_component(p: Seq<char>, start: int, end: int)
    requires
        0 <= start <= end <= p.len(),
        trimmed_end(p, start, end) > start,
    ensures
        component_start(p, start, trimmed_end(p, start, end)) < trimmed_end(p, start, end),
    decreases end,
{
    if end > start && p[end - 1] == '/' {
        lemma_trimmed_end_bounds(p, start, end - 1);
        lemma_trimmed_ends_in_component(p, start, end - 1);
    } else if end > start && p[end - 1] == '.' && end - 1 == start {
    } else if end > start && p[end - 1] == '.' && p[end - 2] == '/' {
        lemma_trimmed_end_bounds(p, start, end - 2);
        lemma_trimmed_ends_in_component(p, start, end - 2);
    } else {
        lemma_component_start_bounds(p, start, end - 1);
    }
}

/// A parent is strictly shorter than the path it was taken from.
pub proof fn lemma_parent_is_shorter(p: Seq<char>)
    ensures
        parent_len(p) matches Some(k) ==> 0 <= k < p.len(),
        parent_of(p) matches Some(q) ==> q.len() < p.len() && q.is_prefix_of(p),
{
    let start = body_start(p);
    let len = p.len() as int;
    lemma_trimmed_end_bounds(p, start, len);
    let end = trimmed_end(p, start, len);
    if end > start {
        lemma_trimmed_ends_in_component(p, start, len);
        lemma_component_start_bounds(p, start, end);
        let cut = before_component(start, component_start(p, start, end));
        lemma_trimmed_end_bounds(p, start, cut);
    }
}

/// `p` followed upwards: `p` itself and every path above it, as long as the
/// path has a parent, outermost first. The topmost path (the root, or the
/// empty path) has no parent and is left out.
pub open spec fn lineage(p: Seq<char>) -> Seq<Seq<char>>
    decreases p.len(),
{
    match parent_of(p) {
        Some(q) => {
            proof {
                lemma_parent_is_shorter(p);
            }
            lineage(q).push(p)
        },
        None => Seq::empty(),
    }
}

/// The directories above `p`, outermost first, without the root and without
/// `p` itself.
pub open spec fn ancestors(p: Seq<char>) -> Seq<Seq<char>> {
    match parent_of(p) {
        Some(q) => lineage(q),
        None => Seq::empty(),
    }
}

/// Each path of a lineage has the paths before it as its ancestors.
pub proof fn lemma_lineage_is_closed(p: Seq<char>)
    ensures
        forall|k: int|
            0 <= k < lineage(p).len() ==> ancestors(#[trigger] lineage(p)[k]) == lineage(p).take(k),
    decreases p.len(),
{
    match parent_of(p) {
        Some(q) => {
            lemma_parent_is_shorter(p);
            lemma_lineage_is_closed(q);
            assert forall|k: int| 0 <= k < lineage(p).len() implies ancestors(
                #[trigger] lineage(p)[k],
            ) == lineage(p).take(k) by {
                if k < lineage(q).len() {
                    assert(lineage(p)[k] == lineage(q)[k]);
                    assert(lineage(p).take(k) =~= lineage(q).take(k));
                } else {
                    assert(lineage(p).take(k) =~= lineage(q));
                }
            }
        },
        None => {},
    }
}

/// Each ancestor of a path has the ancestors before it as its own.
pub proof fn lemma_ancestors_are_closed(p: Seq<char>)
    ensures
        forall|k: int|
            0 <= k < ancestors(p).len() ==> ancestors(#[trigger] ancestors(p)[k]) == ancestors(
                p,
            ).take(k),
{
    match parent_of(p) {
        Some(q) => {
            lemma_lineage_is_closed(q);
        },
        None => {},
    }
}

fn chars_of(s: &str) -> (v: Vec<char>)
    ensures
        v@ == s@,
{
    let mut v: Vec<char> = Vec::new();
    for c in it: s.chars()
        invariant
            it.seq() == s@,
            v@ == it.seq().take(it.index()),
    {
        v.push(c);
    }
    v
}

fn body_start_in(p: &Vec<char>) -> (r: usize)
    ensures
        r == body_start(p@),
        r <= p.len(),
{
    if p.len() > 0 && p[0] == '/' {
        1
    } else if p.len() > 0 && p[0] == '.' && (p.len() == 1 || p[1] == '/') {
        1
    } else {
        0
    }
}

fn trimmed_end_in(p: &Vec<char>, start: usize, end: usize) -> (r: usize)
    requires
        start <= end <= p.len(),
    ensures
        r == trimmed_end(p@, start as int, end as int),
        start <= r <= end,
{
    let mut e: usize = end;
    while e > start
        invariant
            start <= e <= end <= p.len(),
            trimmed_end(p@, start as int, e as int) == trimmed_end(p@, start as int, end as int),
        decreases e,
    {
        if p[e - 1] == '/' {
            e = e - 1;
        } else if p[e - 1] == '.' && e - 1 == start {
            e = start;
        } else if p[e - 1] == '.' && p[e - 2] == '/' {
            e = e - 2;
        } else {
            return e;
        }
    }
    e
}

fn component_start_in(p: &Vec<char>, start: usize, end: usize) -> (r: usize)
    requires
        start <= end <= p.len(),
    ensures
        r == component_start(p@, start as int, end as int),
        start <= r <= end,
{
    let mut e: usize = end;
    while e > start
        invariant
            start <= e <= end <= p.len(),
            component_start(p@, start as int, e as int) == component_start(
                p@,
                start as int,
                end as int,
            ),
        decreases e,
    {
        if p[e - 1] == '/' {
            return e;
        }
        e = e - 1;
    }
    e
}

/// The parent of `path`: the path without its last component.
///
/// Separators and `.` components at the end of either path are dropped, so
/// the parent of `/usr//lib/` is `/usr`. A path of one relative component has
/// the empty path as parent. The root and the empty path have no parent.
pub fn parent<'a>(path: &'a str) -> (r: Option<&'a str>)
    ensures
        match r {
            Some(q) => parent_of(path@) == Some(q@),
            None => parent_of(path@) is None,
        },
{
    let p = chars_of(path);
    let start = body_start_in(&p);
    let end = trimmed_end_in(&p, start, p.len());
    if end > start {
        let from = component_start_in(&p, start, end);
        let cut = if from > start {
            from - 1
        } else {
            start
        };
        let k = trimmed_end_in(&p, start, cut);
        Some(path.substring_char(0, k))
    } else if start == 1 && p[0] == '.' {
        Some(path.substring_char(0, 0))
    } else {
        None
    }
}

} // verus!
