use tap::plan::{content_mode, open_flags, plan_for_path, ContentMode, Options, PathStep};
use tap::tree::{chmod_targets, FsNode};

fn base_options() -> Options {
    Options {
        patterns: vec!["test.txt".to_string()],
        dir: false,
        chmod: None,
        write: None,
        timestamp: None,
        append: false,
        verbose: false,
        recursive: false,
        template: None,
        trim: false,
        check: false,
    }
}

#[test]
fn touch_only_never_truncates() {
    let opts = base_options();
    assert_eq!(content_mode(&opts), ContentMode::TouchOnly);
    let flags = open_flags(&opts);
    assert!(!flags.truncate);
    assert!(!flags.append);
}

#[test]
fn literal_overwrite_truncates() {
    let mut opts = base_options();
    opts.write = Some("B".to_string());
    assert_eq!(content_mode(&opts), ContentMode::FromLiteral);
    let flags = open_flags(&opts);
    assert!(flags.truncate);
    assert!(!flags.append);
}

#[test]
fn append_mode_does_not_truncate() {
    let mut opts = base_options();
    opts.write = Some("Appended content".to_string());
    opts.append = true;
    assert_eq!(content_mode(&opts), ContentMode::FromLiteral);
    let flags = open_flags(&opts);
    assert!(flags.append);
    assert!(!flags.truncate);
}

#[test]
fn template_truncates_unless_appending() {
    let mut opts = base_options();
    opts.template = Some("tpl.txt".to_string());
    assert_eq!(content_mode(&opts), ContentMode::FromTemplate);
    assert!(open_flags(&opts).truncate);
    opts.append = true;
    assert!(!open_flags(&opts).truncate);
}

#[test]
fn trim_wins_over_template_and_literal() {
    let mut opts = base_options();
    opts.trim = true;
    opts.template = Some("tpl.txt".to_string());
    opts.write = Some("text".to_string());
    assert_eq!(content_mode(&opts), ContentMode::Trim);
}

#[test]
fn template_wins_over_literal() {
    let mut opts = base_options();
    opts.template = Some("tpl.txt".to_string());
    opts.write = Some("text".to_string());
    assert_eq!(content_mode(&opts), ContentMode::FromTemplate);
}

#[test]
fn check_only_plan_mutates_nothing() {
    let mut opts = base_options();
    opts.check = true;
    opts.chmod = Some("644".to_string());
    opts.timestamp = Some("2023-05-01 12:00:00".to_string());
    assert_eq!(plan_for_path(&opts), vec![PathStep::CheckExistence]);
}

#[test]
fn default_plan_touches_file() {
    let opts = base_options();
    assert_eq!(
        plan_for_path(&opts),
        vec![PathStep::EnsureParent, PathStep::WriteContent(ContentMode::TouchOnly)],
    );
}

#[test]
fn full_plan_orders_creation_before_chmod_and_timestamp() {
    let mut opts = base_options();
    opts.write = Some("Test content".to_string());
    opts.chmod = Some("644".to_string());
    opts.timestamp = Some("2023-05-01 12:00:00".to_string());
    assert_eq!(
        plan_for_path(&opts),
        vec![
            PathStep::EnsureParent,
            PathStep::WriteContent(ContentMode::FromLiteral),
            PathStep::ApplyPermissions,
            PathStep::ApplyTimestamp,
        ],
    );
}

#[test]
fn directory_plan_creates_directory_tree() {
    let mut opts = base_options();
    opts.dir = true;
    opts.chmod = Some("755".to_string());
    assert_eq!(
        plan_for_path(&opts),
        vec![PathStep::EnsureParent, PathStep::CreateDirTree, PathStep::ApplyPermissions],
    );
}

#[test]
fn recursive_chmod_visits_children_before_each_directory() {
    let tree = FsNode::Dir {
        path: "root".to_string(),
        entries: vec![
            FsNode::File { path: "root/a".to_string() },
            FsNode::Dir {
                path: "root/sub".to_string(),
                entries: vec![FsNode::File { path: "root/sub/b".to_string() }],
            },
        ],
    };
    let order = chmod_targets(&tree);
    assert_eq!(
        order,
        vec![
            "root/a".to_string(),
            "root/sub/b".to_string(),
            "root/sub".to_string(),
            "root".to_string(),
        ],
    );
}

#[test]
fn recursive_chmod_on_single_file_visits_it() {
    let tree = FsNode::File { path: "only.txt".to_string() };
    assert_eq!(chmod_targets(&tree), vec!["only.txt".to_string()]);
}
