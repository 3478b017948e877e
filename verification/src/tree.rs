//! The order a recursive permission change visits a directory tree.
//!
//! The front end walks the real directory tree and mirrors it as an
//! [`FsNode`]: each node carries its path, a directory also its entries in
//! enumeration order. The visit order computed here applies the permission
//! to every entry of a directory, transitively, before the directory
//! itself, and reaches every node of the tree.

use vstd::prelude::*;

use crate::expand::views_of;

verus! {

/// A mirrored filesystem subtree: a non-directory entry, or a directory
/// with its entries in enumeration order. Either carries its full path.
pub enum FsNode {
    File { path: String },
    Dir { path: String, entries: Vec<FsNode> },
}

/// The paths of a subtree in visit order: for a directory, first every
/// entry's subtree in order, then the directory itself.
pub open spec fn visit_order(t: FsNode) -> Seq<Seq<char>>
    decreases t,
{
    match t {
        FsNode::File { path } => seq![path@],
        FsNode::Dir { path, entries } => visit_order_all(entries@, entries@.len() as int).push(
            path@,
        ),
    }
}

/// The visit order of the first `n` subtrees of `ts`, concatenated.
pub open spec fn visit_order_all(ts: Seq<FsNode>, n: int) -> Seq<Seq<char>>
    decreases ts, n,
{
    if n <= 0 || n > ts.len() {
        Seq::empty()
    } else {
        visit_order_all(ts, n - 1) + visit_order(ts[n - 1])
    }
}

/// The path at a subtree's root.
pub open spec fn root_path(t: FsNode) -> Seq<char> {
    match t {
        FsNode::File { path } => path@,
        FsNode::Dir { path, entries } => path@,
    }
}

/// Whether `p` is the path of some node of the subtree `t`.
pub open spec fn in_tree(t: FsNode, p: Seq<char>) -> bool
    decreases t,
{
    match t {
        FsNode::File { path } => p == path@,
        FsNode::Dir { path, entries } => p == path@ || in_subtrees(
            entries@,
            entries@.len() as int,
            p,
        ),
    }
}

/// Whether `p` is the path of some node of the first `n` subtrees of `ts`.
pub open spec fn in_subtrees(ts: Seq<FsNode>, n: int, p: Seq<char>) -> bool
    decreases ts, n,
{
    if n <= 0 || n > ts.len() {
        false
    } else {
        in_subtrees(ts, n - 1, p) || in_tree(ts[n - 1], p)
    }
}

proof fn lemma_add_contains(a: Seq<Seq<char>>, b: Seq<Seq<char>>, x: Seq<char>)
    ensures
        (a + b).contains(x) <==> a.contains(x) || b.contains(x),
{
    if (a + b).contains(x) {
        let i = choose|i: int| 0 <= i < (a + b).len() && (a + b)[i] == x;
        if i < a.len() {
            assert(a[i] == x);
        } else {
            assert(b[i - a.len()] == x);
        }
    }
    if a.contains(x) {
        let i = choose|i: int| 0 <= i < a.len() && a[i] == x;
        assert((a + b)[i] == x);
    }
    if b.contains(x) {
        let i = choose|i: int| 0 <= i < b.len() && b[i] == x;
        assert((a + b)[a.len() + i] == x);
    }
}

proof fn lemma_push_contains(s: Seq<Seq<char>>, x: Seq<char>, y: Seq<char>)
    ensures
        s.push(x).contains(y) <==> s.contains(y) || y == x,
{
    assert(s.push(x) =~= s + seq![x]);
    lemma_add_contains(s, seq![x], y);
    assert(seq![x][0] == x);
    if y == x {
        assert(seq![x].contains(y));
    }
}

/// The visit order of a recursive permission change covers a directory
/// tree whole: a path stands in it exactly when it is the path of some
/// node of the tree. Applying one mode to every listed path therefore sets
/// that same mode on every nested file and subdirectory and on the root.
pub proof fn lemma_visit_order_covers(t: FsNode)
    ensures
        forall|p: Seq<char>| #[trigger] visit_order(t).contains(p) <==> in_tree(t, p),
    decreases t,
{
    match t {
        FsNode::File { path } => {
            assert forall|p: Seq<char>| #[trigger]
                visit_order(t).contains(p) <==> in_tree(t, p) by {
                assert(visit_order(t)[0] == path@);
                if visit_order(t).contains(p) {
                    let i = choose|i: int|
                        0 <= i < visit_order(t).len() && visit_order(t)[i] == p;
                    assert(p == path@);
                }
            }
        },
        FsNode::Dir { path, entries } => {
            let n = entries@.len() as int;
            lemma_subtrees_covered(entries@, n);
            assert forall|p: Seq<char>| #[trigger]
                visit_order(t).contains(p) <==> in_tree(t, p) by {
                lemma_push_contains(visit_order_all(entries@, n), path@, p);
            }
        },
    }
}

proof fn lemma_subtrees_covered(ts: Seq<FsNode>, n: int)
    ensures
        forall|p: Seq<char>| #[trigger]
            visit_order_all(ts, n).contains(p) <==> in_subtrees(ts, n, p),
    decreases ts, n,
{
    if 0 < n <= ts.len() {
        lemma_subtrees_covered(ts, n - 1);
        lemma_visit_order_covers(ts[n - 1]);
        assert forall|p: Seq<char>| #[trigger]
            visit_order_all(ts, n).contains(p) <==> in_subtrees(ts, n, p) by {
            lemma_add_contains(visit_order_all(ts, n - 1), visit_order(ts[n - 1]), p);
        }
    }
}

/// A subtree's own root comes last in its visit order: every entry of a
/// directory, transitively, receives the permission before the directory
/// itself does.
pub proof fn lemma_root_visited_last(t: FsNode)
    ensures
        visit_order(t).len() >= 1,
        visit_order(t).last() == root_path(t),
{
}

/// The paths of a mirrored subtree in the order a recursive permission
/// change visits them, as [`visit_order`] gives them: entries of a
/// directory, transitively and in enumeration order, before the directory
/// itself.
pub fn chmod_targets(t: &FsNode) -> (r: Vec<String>)
    ensures
        views_of(r@) == visit_order(*t),
    decreases *t,
{
    let mut out: Vec<String> = Vec::new();
    match t {
        FsNode::File { path } => {
            out.push(path.clone());
            assert(views_of(out@) =~= visit_order(*t));
        },
        FsNode::Dir { path, entries } => {
            let n = entries.len();
            let mut i: usize = 0;
            assert(views_of(out@) =~= visit_order_all(entries@, 0));
            while i < n
                invariant
                    *t is Dir,
                    *entries == t->Dir_entries,
                    n == entries@.len(),
                    i <= n,
                    views_of(out@) =~= visit_order_all(entries@, i as int),
                decreases n - i,
            {
                proof {
                    assert(decreases_to!(*t => t->Dir_entries));
                    assert(decreases_to!(t->Dir_entries => t->Dir_entries@));
                    assert(decreases_to!(t->Dir_entries@ => t->Dir_entries@[i as int]));
                    assert(t->Dir_entries@[i as int] == entries@[i as int]);
                }
                let mut part = chmod_targets(&entries[i]);
                let ghost old_out = out@;
                let ghost part_view = part@;
                out.append(&mut part);
                proof {
                    assert(views_of(out@) =~= views_of(old_out) + views_of(part_view));
                }
                i = i + 1;
            }
            out.push(path.clone());
            proof {
                assert(views_of(out@) =~= visit_order_all(entries@, n as int).push(path@));
            }
        },
    }
    out
}

} // verus!
