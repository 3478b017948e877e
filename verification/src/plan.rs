//! The invocation options record and the per-path dispatch plan.
//!
//! One run is driven by an immutable [`Options`] record. For each resolved
//! path the run takes the same steps, decided here: a check-only run only
//! reports existence; otherwise the parent directory chain is ensured, the
//! path is created as a directory or handed to the content writer, and a
//! requested permission or timestamp change follows creation. The front
//! end walks the returned step list in order and performs each step.

use vstd::prelude::*;

verus! {

/// The options of one invocation, fixed at startup and read-only after.
pub struct Options {
    /// Path or glob patterns naming the targets, in command-line order.
    pub patterns: Vec<String>,
    /// Create directories instead of files.
    pub dir: bool,
    /// Octal permission string to apply, if any.
    pub chmod: Option<String>,
    /// Literal content to write, if any.
    pub write: Option<String>,
    /// Timestamp string to apply, if any.
    pub timestamp: Option<String>,
    /// Append content instead of overwriting.
    pub append: bool,
    /// Report each action.
    pub verbose: bool,
    /// Apply the permission change through directory trees.
    pub recursive: bool,
    /// Path of a template file whose content is written, if any.
    pub template: Option<String>,
    /// Strip trailing whitespace from each line of the target.
    pub trim: bool,
    /// Only report whether each target exists; mutate nothing.
    pub check: bool,
}

/// How the content writer treats a file, in falling precedence: rewrite it
/// with its own lines trimmed; write the template file's content; write the
/// literal content; or only touch it, creating it empty if absent and
/// leaving its bytes alone otherwise.
#[derive(Clone, Copy, Debug, PartialEq, Eq, Structural)]
pub enum ContentMode {
    Trim,
    FromTemplate,
    FromLiteral,
    TouchOnly,
}

/// With which flags the target file is opened: whether writes append, and
/// whether existing content is discarded on open.
#[derive(Clone, Copy, Debug, PartialEq, Eq, Structural)]
pub struct OpenFlags {
    pub append: bool,
    pub truncate: bool,
}

/// The content mode the options select: trimming wins over a template,
/// a template over literal content, and with none of the three the file is
/// only touched.
pub open spec fn content_mode_of(opts: Options) -> ContentMode {
    if opts.trim {
        ContentMode::Trim
    } else if opts.template is Some {
        ContentMode::FromTemplate
    } else if opts.write is Some {
        ContentMode::FromLiteral
    } else {
        ContentMode::TouchOnly
    }
}

/// The open flags the options select: appending never truncates, and the
/// file is truncated only when new content is about to replace the old.
pub open spec fn open_flags_of(opts: Options) -> OpenFlags {
    OpenFlags {
        append: opts.append,
        truncate: !opts.append && (opts.write is Some || opts.template is Some),
    }
}

/// A touch-only open never truncates: with no content, no template and no
/// trimming requested, the file is opened without discarding a byte, so an
/// existing file keeps its content exactly and only its times move.
pub proof fn lemma_touch_only_preserves_content(opts: Options)
    requires
        content_mode_of(opts) == ContentMode::TouchOnly,
    ensures
        !open_flags_of(opts).truncate,
{
}

/// Writing literal content without appending truncates on open: the old
/// bytes are discarded and the file holds exactly the new content.
pub proof fn lemma_overwrite_truncates(opts: Options)
    requires
        !opts.trim,
        opts.template is None,
        opts.write is Some,
        !opts.append,
    ensures
        content_mode_of(opts) == ContentMode::FromLiteral,
        open_flags_of(opts).truncate,
{
}

/// Appending opens the file at its end without truncating: the old bytes
/// stay and the new content lands after them.
pub proof fn lemma_append_concatenates(opts: Options)
    requires
        opts.append,
    ensures
        open_flags_of(opts).append,
        !open_flags_of(opts).truncate,
{
}

/// The content mode the options select, as [`content_mode_of`] gives it.
pub fn content_mode(opts: &Options) -> (m: ContentMode)
    ensures
        m == content_mode_of(*opts),
{
    if opts.trim {
        ContentMode::Trim
    } else if opts.template.is_some() {
        ContentMode::FromTemplate
    } else if opts.write.is_some() {
        ContentMode::FromLiteral
    } else {
        ContentMode::TouchOnly
    }
}

/// The open flags the options select, as [`open_flags_of`] gives them.
pub fn open_flags(opts: &Options) -> (f: OpenFlags)
    ensures
        f == open_flags_of(*opts),
{
    OpenFlags {
        append: opts.append,
        truncate: !opts.append && (opts.write.is_some() || opts.template.is_some()),
    }
}

/// One step of the per-path dispatch, in the order the run performs them.
#[derive(Clone, Copy, Debug, PartialEq, Eq, Structural)]
pub enum PathStep {
    /// Report whether the path exists; mutate nothing.
    CheckExistence,
    /// Create the path's parent directory chain if absent.
    EnsureParent,
    /// Create the path itself as a directory tree.
    CreateDirTree,
    /// Hand the path to the content writer in the given mode.
    WriteContent(ContentMode),
    /// Parse the requested octal string and apply the permission bits.
    ApplyPermissions,
    /// Parse the requested timestamp string and set the modification time.
    ApplyTimestamp,
}

/// The steps one path goes through. A check-only run reports existence and
/// does nothing else. Every other run first ensures the parent chain, then
/// creates a directory or writes the file, and only after that creation
/// applies a requested permission change, and after that a requested
/// timestamp change.
pub open spec fn path_plan_of(opts: Options) -> Seq<PathStep> {
    if opts.check {
        seq![PathStep::CheckExistence]
    } else {
        let creation = seq![
            PathStep::EnsureParent,
            if opts.dir {
                PathStep::CreateDirTree
            } else {
                PathStep::WriteContent(content_mode_of(opts))
            },
        ];
        let with_chmod = if opts.chmod is Some {
            creation.push(PathStep::ApplyPermissions)
        } else {
            creation
        };
        if opts.timestamp is Some {
            with_chmod.push(PathStep::ApplyTimestamp)
        } else {
            with_chmod
        }
    }
}

/// A check-only run mutates nothing: its whole plan is the existence
/// report.
pub proof fn lemma_check_short_circuits(opts: Options)
    requires
        opts.check,
    ensures
        path_plan_of(opts) == seq![PathStep::CheckExistence],
{
}

/// Permission and timestamp changes come only after creation: in every
/// plan that holds them, the parent chain and the creating step stand
/// before them.
pub proof fn lemma_mutation_order(opts: Options)
    requires
        !opts.check,
    ensures
        path_plan_of(opts)[0] == PathStep::EnsureParent,
        path_plan_of(opts)[1] == (if opts.dir {
            PathStep::CreateDirTree
        } else {
            PathStep::WriteContent(content_mode_of(opts))
        }),
        forall|i: int|
            2 <= i < path_plan_of(opts).len() ==> (#[trigger] path_plan_of(opts)[i]
                == PathStep::ApplyPermissions || path_plan_of(opts)[i]
                == PathStep::ApplyTimestamp),
{
}

/// The steps one path goes through, as [`path_plan_of`] gives them.
pub fn plan_for_path(opts: &Options) -> (r: Vec<PathStep>)
    ensures
        r@ == path_plan_of(*opts),
{
    let mut steps: Vec<PathStep> = Vec::new();
    if opts.check {
        steps.push(PathStep::CheckExistence);
        assert(steps@ =~= path_plan_of(*opts));
        return steps;
    }
    steps.push(PathStep::EnsureParent);
    if opts.dir {
        steps.push(PathStep::CreateDirTree);
    } else {
        steps.push(PathStep::WriteContent(content_mode(opts)));
    }
    if opts.chmod.is_some() {
        steps.push(PathStep::ApplyPermissions);
    }
    if opts.timestamp.is_some() {
        steps.push(PathStep::ApplyTimestamp);
    }
    assert(steps@ =~= path_plan_of(*opts));
    steps
}

} // verus!
