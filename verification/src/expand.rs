//! Resolution of glob patterns into concrete target paths.
//!
//! The filesystem walk itself happens outside this crate: for each pattern
//! the front end reports either that the pattern was malformed, or the list
//! of directory entries it matched, each entry being a readable path or an
//! unreadable one carrying an error text. These functions turn those
//! reports into the ordered list of target paths: a malformed pattern is
//! skipped, a pattern with no matches stands for itself as a literal path,
//! and a pattern with matches contributes exactly its readable matches in
//! enumeration order.

use vstd::prelude::*;

verus! {

/// One directory entry a pattern matched: a path, or an entry whose path
/// could not be read, with the reported error text.
pub enum PathEntry {
    Found(String),
    Unreadable(String),
}

/// What matching one pattern against the filesystem reported: the pattern
/// was malformed, or it matched these entries (possibly none).
pub enum PatternLookup {
    Invalid,
    Entries(Vec<PathEntry>),
}

/// The views of a sequence of strings.
pub open spec fn views_of(v: Seq<String>) -> Seq<Seq<char>> {
    v.map_values(|s: String| s@)
}

/// The paths of the readable entries, in order.
pub open spec fn found_paths(es: Seq<PathEntry>) -> Seq<Seq<char>>
    decreases es.len(),
{
    if es.len() == 0 {
        Seq::empty()
    } else {
        found_paths(es.drop_last()) + match es.last() {
            PathEntry::Found(p) => seq![p@],
            PathEntry::Unreadable(_) => Seq::<Seq<char>>::empty(),
        }
    }
}

/// The target paths one pattern contributes: none if it was malformed, the
/// pattern itself if it matched nothing, else its readable matches in order.
pub open spec fn resolved_paths(pattern: Seq<char>, lookup: PatternLookup) -> Seq<Seq<char>> {
    match lookup {
        PatternLookup::Invalid => Seq::empty(),
        PatternLookup::Entries(es) => if es@.len() == 0 {
            seq![pattern]
        } else {
            found_paths(es@)
        },
    }
}

/// The target paths of a whole pattern list, pattern by pattern, in order.
pub open spec fn expanded_paths(patterns: Seq<Seq<char>>, lookups: Seq<PatternLookup>) -> Seq<
    Seq<char>,
>
    decreases patterns.len(),
{
    if patterns.len() == 0 {
        Seq::empty()
    } else {
        expanded_paths(patterns.drop_last(), lookups.drop_last()) + resolved_paths(
            patterns.last(),
            lookups.last(),
        )
    }
}

/// A pattern that matched at least one entry contributes exactly the paths
/// of its readable matches, in the order they were enumerated.
pub proof fn lemma_matched_pattern_uses_matches(pattern: Seq<char>, es: Vec<PathEntry>)
    requires
        es@.len() > 0,
    ensures
        resolved_paths(pattern, PatternLookup::Entries(es)) == found_paths(es@),
{
}

/// A pattern that matched every entry readably contributes each matched
/// path, in enumeration order, one for one.
pub proof fn lemma_all_found_in_order(es: Seq<PathEntry>)
    requires
        forall|i: int| 0 <= i < es.len() ==> #[trigger] es[i] is Found,
    ensures
        found_paths(es).len() == es.len(),
        forall|i: int|
            0 <= i < es.len() ==> #[trigger] found_paths(es)[i] == es[i]->Found_0@,
    decreases es.len(),
{
    if es.len() > 0 {
        assert(forall|i: int| 0 <= i < es.drop_last().len() ==> #[trigger] es.drop_last()[i] is Found);
        lemma_all_found_in_order(es.drop_last());
    }
}

/// A well-formed pattern that matched nothing contributes the pattern
/// string itself, as a single literal target path.
pub proof fn lemma_unmatched_pattern_is_literal(pattern: Seq<char>, es: Vec<PathEntry>)
    requires
        es@.len() == 0,
    ensures
        resolved_paths(pattern, PatternLookup::Entries(es)) == seq![pattern],
{
}

/// A malformed pattern contributes no target path: it is reported and
/// skipped, and the remaining patterns still go through.
pub proof fn lemma_invalid_pattern_skipped(pattern: Seq<char>)
    ensures
        resolved_paths(pattern, PatternLookup::Invalid) == Seq::<Seq<char>>::empty(),
{
}

/// The target paths one pattern contributes, as [`resolved_paths`] gives
/// them.
pub fn resolve_pattern(pattern: &String, lookup: &PatternLookup) -> (r: Vec<String>)
    ensures
        views_of(r@) == resolved_paths(pattern@, *lookup),
{
    let mut out: Vec<String> = Vec::new();
    match lookup {
        PatternLookup::Invalid => {
            assert(views_of(out@) =~= resolved_paths(pattern@, *lookup));
        },
        PatternLookup::Entries(es) => {
            if es.len() == 0 {
                out.push(pattern.clone());
                assert(views_of(out@) =~= seq![pattern@]);
            } else {
                let n = es.len();
                let mut i: usize = 0;
                while i < n
                    invariant
                        n == es@.len(),
                        i <= n,
                        views_of(out@) =~= found_paths(es@.take(i as int)),
                    decreases n - i,
                {
                    proof {
                        assert(es@.take(i + 1).drop_last() =~= es@.take(i as int));
                        assert(es@.take(i + 1).last() == es@[i as int]);
                    }
                    match &es[i] {
                        PathEntry::Found(p) => {
                            out.push(p.clone());
                        },
                        PathEntry::Unreadable(_) => {},
                    }
                    proof {
                        assert(views_of(out@) =~= found_paths(es@.take(i + 1)));
                    }
                    i = i + 1;
                }
                proof {
                    assert(es@.take(n as int) =~= es@);
                }
            }
        },
    }
    out
}

/// The whole expansion: the target paths of every pattern, in pattern
/// order, as [`expanded_paths`] gives them from the per-pattern reports.
pub fn expand_paths(patterns: &Vec<String>, lookups: &Vec<PatternLookup>) -> (r: Vec<String>)
    requires
        patterns@.len() == lookups@.len(),
    ensures
        views_of(r@) == expanded_paths(views_of(patterns@), lookups@),
{
    let mut out: Vec<String> = Vec::new();
    let n = patterns.len();
    let mut i: usize = 0;
    while i < n
        invariant
            n == patterns@.len() == lookups@.len(),
            i <= n,
            views_of(out@) =~= expanded_paths(views_of(patterns@.take(i as int)), lookups@.take(i as int)),
        decreases n - i,
    {
        let mut part = resolve_pattern(&patterns[i], &lookups[i]);
        let ghost old_out = out@;
        let ghost part_view = part@;
        out.append(&mut part);
        proof {
            assert(views_of(out@) =~= views_of(old_out) + views_of(part_view));
            assert(views_of(patterns@.take(i + 1)).drop_last() =~= views_of(
                patterns@.take(i as int),
            ));
            assert(views_of(patterns@.take(i + 1)).last() == patterns@[i as int]@);
            assert(lookups@.take(i + 1).drop_last() =~= lookups@.take(i as int));
            assert(lookups@.take(i + 1).last() == lookups@[i as int]);
            assert(views_of(out@) =~= expanded_paths(
                views_of(patterns@.take(i + 1)),
                lookups@.take(i + 1),
            ));
        }
        i = i + 1;
    }
    proof {
        assert(patterns@.take(n as int) =~= patterns@);
        assert(lookups@.take(n as int) =~= lookups@);
    }
    out
}

} // verus!
