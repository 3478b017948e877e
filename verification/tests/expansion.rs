use tap::expand::{expand_paths, resolve_pattern, PathEntry, PatternLookup};

fn s(v: &str) -> String {
    v.to_string()
}

#[test]
fn matched_pattern_yields_matches_in_order() {
    let lookup = PatternLookup::Entries(vec![
        PathEntry::Found(s("test1.txt")),
        PathEntry::Found(s("test2.txt")),
    ]);
    let resolved = resolve_pattern(&s("test*.txt"), &lookup);
    assert_eq!(resolved, vec![s("test1.txt"), s("test2.txt")]);
}

#[test]
fn unmatched_pattern_becomes_literal_path() {
    let lookup = PatternLookup::Entries(vec![]);
    let resolved = resolve_pattern(&s("brand_new.txt"), &lookup);
    assert_eq!(resolved, vec![s("brand_new.txt")]);
}

#[test]
fn invalid_pattern_is_skipped() {
    let resolved = resolve_pattern(&s("a[bad"), &PatternLookup::Invalid);
    assert_eq!(resolved, Vec::<String>::new());
}

#[test]
fn unreadable_entries_are_dropped_but_count_as_matches() {
    let lookup = PatternLookup::Entries(vec![
        PathEntry::Found(s("a.txt")),
        PathEntry::Unreadable(s("permission denied")),
        PathEntry::Found(s("b.txt")),
    ]);
    let resolved = resolve_pattern(&s("*.txt"), &lookup);
    assert_eq!(resolved, vec![s("a.txt"), s("b.txt")]);
}

#[test]
fn all_entries_unreadable_yields_nothing() {
    let lookup = PatternLookup::Entries(vec![PathEntry::Unreadable(s("io error"))]);
    let resolved = resolve_pattern(&s("*.txt"), &lookup);
    assert_eq!(resolved, Vec::<String>::new());
}

#[test]
fn expansion_concatenates_patterns_in_order() {
    let patterns = vec![s("x*"), s("missing.txt"), s("bad[")];
    let lookups = vec![
        PatternLookup::Entries(vec![PathEntry::Found(s("x1")), PathEntry::Found(s("x2"))]),
        PatternLookup::Entries(vec![]),
        PatternLookup::Invalid,
    ];
    let expanded = expand_paths(&patterns, &lookups);
    assert_eq!(expanded, vec![s("x1"), s("x2"), s("missing.txt")]);
}

#[test]
fn expansion_preserves_duplicates_across_patterns() {
    let patterns = vec![s("a*"), s("*1")];
    let lookups = vec![
        PatternLookup::Entries(vec![PathEntry::Found(s("a1"))]),
        PatternLookup::Entries(vec![PathEntry::Found(s("a1"))]),
    ];
    let expanded = expand_paths(&patterns, &lookups);
    assert_eq!(expanded, vec![s("a1"), s("a1")]);
}
