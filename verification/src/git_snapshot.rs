//! The starting snapshot of a project: what it would hold, making it, and
//! finishing it after an interruption.

use crate::git_command::{
    branch_of, branch_ref, branch_reference, changed_paths, commit_tree, commit_tree_args, failure_detail,
    git_bytes, git_failure, git_ok, git_text, lemma_commits_name_their_parents, reply_bytes, reply_paths, reply_text, symbolic_head,
    update_ref, update_ref_args, zero_oid, GitReply,
};
use crate::git_coordinator::GitCoordinator;
use crate::git_paths::{
    fault, filled_fields, git_error, normalize_git_path, repository_path, user_changed_paths, user_paths,
    GitError, GitFault,
};
use crate::git_resolution::ends_with_fault;
use crate::order::{in_order, insert_ordered, insert_sorted, lemma_in_order, ordered, sorted};
use crate::paths::{is_within, join_path, joined_path, path_below, relative_to};
use crate::text::{
    ends_with, finishes_with, glue_texts, glued, is_text, lemma_pieces_not_empty, lower_text,
    pieces, same_text, split_text, split_zero, strip_end, text_list, text_of, texts_of, trim_end_of,
    unicode_lower, utf8_text,
};
use vstd::prelude::*;
use vstd::string::*;
use vstd::utf8::{decode_utf8, valid_utf8};

verus! {

/// What a starting snapshot would hold.
#[derive(Clone, Debug, PartialEq, Eq)]
pub struct InitialSnapshotPreview {
    pub repository_root: String,
    pub target_branch: String,
    pub included_paths: Vec<String>,
    pub warnings: Vec<String>,
    pub tree_oid: Option<String>,
    pub target_oid: Option<String>,
    pub ready: bool,
    pub unsafe_to_snapshot: bool,
}

/// What was seen before a snapshot is built: the answers of Git for the branch,
/// the head and the status, for each marker of an operation under way the
/// answer with its place and whether something is there, the answer for staged
/// changes, and for each changed path whether a repository lies in it. The
/// questions are those of `GitQuery`.
#[derive(Debug)]
pub struct PreflightFacts {
    pub branch: GitReply,
    pub head: GitReply,
    pub status: GitReply,
    pub markers: Vec<(GitReply, bool)>,
    pub staged: GitReply,
    pub nested: Vec<bool>,
}

/// What a snapshot is built from.
#[derive(Debug)]
pub struct SnapshotBasis {
    pub target_branch: String,
    pub target_oid: Option<String>,
    pub warnings: Vec<String>,
}

/// What a look at the project comes to before a snapshot is built: a preview
/// already, or the basis of a snapshot.
#[derive(Debug)]
pub enum Preflight {
    Settled { preview: InitialSnapshotPreview },
    Build { basis: SnapshotBasis },
}

/// The warning for the operation that each marker stands for.
pub open spec fn marker_warning(at: int) -> Seq<char> {
    if at == 0 {
        "A merge is currently in progress."@
    } else if at == 1 {
        "A cherry-pick is currently in progress."@
    } else if at == 2 {
        "A revert is currently in progress."@
    } else if at == 3 || at == 4 {
        "A rebase is currently in progress."@
    } else {
        "Git bisect is currently in progress."@
    }
}

/// The markers of Git operations under way.
pub fn operation_markers() -> (r: Vec<String>)
    ensures
        texts_of(r@) == seq![
            "MERGE_HEAD"@,
            "CHERRY_PICK_HEAD"@,
            "REVERT_HEAD"@,
            "rebase-merge"@,
            "rebase-apply"@,
            "BISECT_LOG"@,
        ],
{
    let r = text_list(
        ["MERGE_HEAD", "CHERRY_PICK_HEAD", "REVERT_HEAD", "rebase-merge", "rebase-apply", "BISECT_LOG"],
    );
    assert(texts_of(r@) =~= seq![
        "MERGE_HEAD"@,
        "CHERRY_PICK_HEAD"@,
        "REVERT_HEAD"@,
        "rebase-merge"@,
        "rebase-apply"@,
        "BISECT_LOG"@,
    ]);
    r
}

/// Where a marker would lie, from the answer of `git rev-parse --git-path`.
pub fn marker_place(repository_root: &str, answer: &GitReply) -> (r: Result<String, GitError>)
    ensures
        match reply_text(*answer) {
            Ok(path) => r matches Ok(place) && place@ == joined_path(repository_root@, path),
            Err(e) => ends_with_fault(r, e),
        },
{
    match git_text(answer) {
        Ok(path) => Ok(join_path(repository_root, path.as_str())),
        Err(e) => Err(e),
    }
}

/// The warnings of the markers that were found, up to the first failure.
pub open spec fn found_markers(markers: Seq<(GitReply, bool)>) -> Result<Seq<Seq<char>>, GitFault>
    decreases markers.len(),
{
    if markers.len() == 0 {
        Ok(Seq::empty())
    } else {
        match found_markers(markers.drop_last()) {
            Err(e) => Err(e),
            Ok(before) => match reply_text(markers.last().0) {
                Err(e) => Err(e),
                Ok(_) => if markers.last().1 {
                    Ok(before.push(marker_warning(markers.len() - 1)))
                } else {
                    Ok(before)
                },
            },
        }
    }
}

/// Whether a file name suggests credentials.
pub open spec fn is_sensitive(name: Seq<char>) -> bool {
    name == ".env"@ || name == "id_rsa"@ || name == "id_ed25519"@ || finishes_with(name, ".pem"@)
        || finishes_with(name, ".key"@)
}

/// The last step of a path in lower case, a separator at its end left out.
pub open spec fn lower_name(path: Seq<char>) -> Seq<char> {
    pieces(strip_end(lower_text(path), "/"@), '/').last()
}

pub open spec fn credential_warning(path: Seq<char>) -> Seq<char> {
    path + " may contain credentials; review it before creating the snapshot."@
}

pub open spec fn nested_warning(path: Seq<char>) -> Seq<char> {
    path + " is a nested Git repository and must be prepared manually."@
}

/// The warnings for the first of some changed paths.
pub open spec fn path_warnings(paths: Seq<Seq<char>>, nested: Seq<bool>, first: int) -> Set<Seq<char>>
    decreases first,
{
    if first <= 0 {
        Set::empty()
    } else {
        let before = path_warnings(paths, nested, first - 1);
        let path = paths[first - 1];
        let named = if is_sensitive(lower_name(path)) {
            before.insert(credential_warning(path))
        } else {
            before
        };
        if is_nested(nested, first - 1) {
            named.insert(nested_warning(strip_end(path, "/"@)))
        } else {
            named
        }
    }
}

/// Whether a repository lies in the path at a place of a list.
pub open spec fn is_nested(nested: Seq<bool>, at: int) -> bool {
    0 <= at < nested.len() && nested[at]
}

/// Whether a repository lies in one of the first of some paths.
pub open spec fn any_nested(nested: Seq<bool>, first: int) -> bool {
    exists|at: int| 0 <= at < first && #[trigger] is_nested(nested, at)
}

pub open spec fn staged_warning() -> Seq<char> {
    "Some changes were staged in Terminal. Review before Ditch saves the complete current project state."@
}

/// The warning about staged changes, where there are any.
pub open spec fn staged_warnings(target: Option<Seq<char>>, staged: GitReply) -> Result<
    Set<Seq<char>>,
    GitFault,
> {
    if target is None {
        Ok(Set::empty())
    } else {
        match staged {
            GitReply::NotRun(description) => Err(fault("git_io_failed"@, description@)),
            GitReply::Ended { code, stdout, stderr } => if code == Some(0i32) {
                Ok(Set::empty())
            } else if code == Some(1i32) {
                Ok(Set::empty().insert(staged_warning()))
            } else {
                Err(fault("git_command_failed"@, failure_detail(stdout@, stderr@)))
            },
        }
    }
}

/// What a look at the project comes to before a snapshot is built.
pub enum PreflightOutcome {
    Failed(GitFault),
    /// Git is in the middle of something.
    UnderWay { branch: Seq<char>, target: Option<Seq<char>>, paths: Seq<Seq<char>>, active: Seq<Seq<char>> },
    /// Nothing has changed since the head.
    Ready { branch: Seq<char>, target: Option<Seq<char>> },
    /// A repository lies in the project.
    Nested { branch: Seq<char>, target: Option<Seq<char>>, paths: Seq<Seq<char>>, warnings: Set<Seq<char>> },
    /// A snapshot can be built.
    Build { branch: Seq<char>, target: Option<Seq<char>>, warnings: Set<Seq<char>> },
}

/// The head, where there is one.
pub open spec fn head_of(reply: GitReply) -> Option<Seq<char>> {
    match reply_text(reply) {
        Ok(head) => Some(head),
        Err(_) => None,
    }
}

/// What a look at the project comes to before a snapshot is built.
pub open spec fn preflight_outcome(seen: PreflightFacts) -> PreflightOutcome {
    match branch_of(seen.branch) {
        Err(e) => PreflightOutcome::Failed(e),
        Ok(branch) => match reply_paths(seen.status) {
            Err(e) => PreflightOutcome::Failed(e),
            Ok(changed) => {
                let target = head_of(seen.head);
                let paths = user_paths(in_order(changed));
                match found_markers(seen.markers@) {
                    Err(e) => PreflightOutcome::Failed(e),
                    Ok(active) => if active.len() > 0 {
                        PreflightOutcome::UnderWay { branch, target, paths, active }
                    } else if target is Some && paths.len() == 0 {
                        PreflightOutcome::Ready { branch, target }
                    } else {
                        match staged_warnings(target, seen.staged) {
                            Err(e) => PreflightOutcome::Failed(e),
                            Ok(staged) => {
                                let warnings = staged.union(
                                    path_warnings(paths, seen.nested@, paths.len() as int),
                                );
                                if any_nested(seen.nested@, paths.len() as int) {
                                    PreflightOutcome::Nested { branch, target, paths, warnings }
                                } else {
                                    PreflightOutcome::Build { branch, target, warnings }
                                }
                            },
                        }
                    },
                }
            },
        },
    }
}

/// Whether a preview says the given things.
pub open spec fn previews(
    preview: InitialSnapshotPreview,
    root: Seq<char>,
    branch: Seq<char>,
    paths: Seq<Seq<char>>,
    warnings: Seq<Seq<char>>,
    tree: Option<Seq<char>>,
    target: Option<Seq<char>>,
    ready: bool,
    risky: bool,
) -> bool {
    &&& preview.repository_root@ == root
    &&& preview.target_branch@ == branch
    &&& texts_of(preview.included_paths@) == paths
    &&& texts_of(preview.warnings@) == warnings
    &&& text_of(preview.tree_oid) == tree
    &&& text_of(preview.target_oid) == target
    &&& preview.ready == ready
    &&& preview.unsafe_to_snapshot == risky
}

/// Whether a file name suggests credentials.
pub fn sensitive_snapshot_name(name: &str) -> (r: bool)
    ensures
        r == is_sensitive(name@),
{
    same_text(name, ".env") || same_text(name, "id_rsa") || same_text(name, "id_ed25519") || ends_with(
        name,
        ".pem",
    ) || ends_with(name, ".key")
}

/// The last step of a path in lower case.
fn name_in_lower_case(path: &str) -> (r: String)
    ensures
        r@ == lower_name(path@),
{
    let low = trim_end_of(unicode_lower(path).as_str(), "/");
    let steps = split_text(low.as_str(), '/');
    proof {
        lemma_pieces_not_empty(low@, '/');
        assert(texts_of(steps@).last() == steps@.last()@);
    }
    steps[steps.len() - 1].clone()
}

/// The warnings of the markers that were found.
fn active_operations(markers: &Vec<(GitReply, bool)>) -> (r: Result<Vec<String>, GitError>)
    ensures
        match found_markers(markers@) {
            Ok(warnings) => r matches Ok(list) && texts_of(list@) == warnings,
            Err(e) => ends_with_fault(r, e),
        },
{
    let mut found: Vec<String> = Vec::new();
    let mut i: usize = 0;
    proof {
        assert(markers@.take(0) =~= Seq::empty());
        assert(texts_of(found@) =~= Seq::empty());
    }
    while i < markers.len()
        invariant
            0 <= i <= markers.len(),
            found_markers(markers@.take(i as int)) == Ok::<Seq<Seq<char>>, GitFault>(texts_of(found@)),
        decreases markers.len() - i,
    {
        let ghost before = texts_of(found@);
        assert(markers@.take(i + 1).drop_last() =~= markers@.take(i as int));
        match git_text(&markers[i].0) {
            Err(e) => {
                proof {
                    lemma_marker_failure(markers@, i + 1);
                }
                return Err(e);
            },
            Ok(_) => {},
        }
        if markers[i].1 {
            let warning = if i == 0 {
                "A merge is currently in progress."
            } else if i == 1 {
                "A cherry-pick is currently in progress."
            } else if i == 2 {
                "A revert is currently in progress."
            } else if i == 3 || i == 4 {
                "A rebase is currently in progress."
            } else {
                "Git bisect is currently in progress."
            };
            found.push(warning.to_owned());
            assert(texts_of(found@) =~= before.push(marker_warning(i as int)));
        }
        i += 1;
    }
    assert(markers@.take(markers@.len() as int) =~= markers@);
    Ok(found)
}

proof fn lemma_marker_failure(markers: Seq<(GitReply, bool)>, at: int)
    requires
        0 <= at <= markers.len(),
        found_markers(markers.take(at)) is Err,
    ensures
        found_markers(markers) == found_markers(markers.take(at)),
    decreases markers.len() - at,
{
    if at == markers.len() {
        assert(markers.take(at) =~= markers);
    } else {
        assert(markers.take(at + 1).drop_last() =~= markers.take(at));
        lemma_marker_failure(markers, at + 1);
    }
}

/// Adds the warnings for changed paths to some warnings, and tells whether a
/// repository lies in one of them.
fn add_path_warnings(warnings: &mut Vec<String>, paths: &Vec<String>, nested: &Vec<bool>) -> (r: bool)
    requires
        ordered(texts_of(old(warnings)@)),
    ensures
        ordered(texts_of(final(warnings)@)),
        texts_of(final(warnings)@).to_set() == texts_of(old(warnings)@).to_set().union(
            path_warnings(texts_of(paths@), nested@, paths.len() as int),
        ),
        r == any_nested(nested@, paths.len() as int),
{
    let ghost start = texts_of(warnings@).to_set();
    let ghost views = texts_of(paths@);
    let mut found = false;
    let mut i: usize = 0;
    assert(start.union(Set::empty()) =~= start);
    while i < paths.len()
        invariant
            0 <= i <= paths.len(),
            views == texts_of(paths@),
            ordered(texts_of(warnings@)),
            texts_of(warnings@).to_set() == start.union(path_warnings(views, nested@, i as int)),
            found == any_nested(nested@, i as int),
        decreases paths.len() - i,
    {
        let ghost before = texts_of(warnings@).to_set();
        let ghost so_far = path_warnings(views, nested@, i as int);
        assert(views[i as int] == paths@[i as int]@);
        if sensitive_snapshot_name(name_in_lower_case(paths[i].as_str()).as_str()) {
            let mut warning = paths[i].clone();
            warning.append(" may contain credentials; review it before creating the snapshot.");
            insert_ordered(warnings, warning);
            assert(start.union(so_far).insert(credential_warning(views[i as int])) =~= start.union(
                so_far.insert(credential_warning(views[i as int])),
            ));
        }
        let ghost named = texts_of(warnings@).to_set();
        if i < nested.len() && nested[i] {
            let mut warning = trim_end_of(paths[i].as_str(), "/");
            warning.append(" is a nested Git repository and must be prepared manually.");
            insert_ordered(warnings, warning);
            found = true;
            assert(is_nested(nested@, i as int));
        }
        proof {
            assert(texts_of(warnings@).to_set() =~= start.union(path_warnings(views, nested@, i + 1)));
            assert(any_nested(nested@, i + 1) == (any_nested(nested@, i as int) || is_nested(
                nested@,
                i as int,
            ))) by {
                if any_nested(nested@, i + 1) {
                    let at = choose|at: int| 0 <= at < i + 1 && #[trigger] is_nested(nested@, at);
                    if at < i {
                        assert(any_nested(nested@, i as int));
                    }
                }
                if any_nested(nested@, i as int) {
                    let at = choose|at: int| 0 <= at < i && #[trigger] is_nested(nested@, at);
                    assert(0 <= at < i + 1 && is_nested(nested@, at));
                }
            }
        }
        i += 1;
    }
    found
}

/// Whether a look at the project comes to what it should.
pub open spec fn inspection_begun(
    root: Seq<char>,
    seen: PreflightFacts,
    r: Result<Preflight, GitError>,
) -> bool {
    match preflight_outcome(seen) {
        PreflightOutcome::Failed(e) => ends_with_fault(r, e),
        PreflightOutcome::UnderWay { branch, target, paths, active } => r matches Ok(
            Preflight::Settled { preview },
        ) && previews(
            preview,
            root,
            branch,
            paths,
            active,
            None,
            target,
            false,
            true,
        ),
        PreflightOutcome::Ready { branch, target } => r matches Ok(Preflight::Settled { preview })
            && previews(
            preview,
            root,
            branch,
            Seq::empty(),
            Seq::empty(),
            None,
            target,
            true,
            false,
        ),
        PreflightOutcome::Nested { branch, target, paths, warnings } => r matches Ok(
            Preflight::Settled { preview },
        ) && previews(
            preview,
            root,
            branch,
            paths,
            in_order(warnings),
            None,
            target,
            false,
            true,
        ),
        PreflightOutcome::Build { branch, target, warnings } => {
            &&& r matches Ok(Preflight::Build { basis })
            &&& basis.target_branch@ == branch
            &&& text_of(basis.target_oid) == target
            &&& ordered(texts_of(basis.warnings@))
            &&& texts_of(basis.warnings@).to_set() == warnings
        },
    }
}

impl GitCoordinator {
    /// What a look at the project comes to before a snapshot is built.
    pub fn begin_inspection(&self, repository_root: &str, seen: &PreflightFacts) -> (r: Result<Preflight, GitError>)
        ensures
            inspection_begun(repository_root@, *seen, r),
    {
        let target_branch = match symbolic_head(&seen.branch) {
            Ok(branch) => branch,
            Err(e) => {
                return Err(e);
            },
        };
        let target_oid = match git_text(&seen.head) {
            Ok(head) => Some(head),
            Err(_) => None,
        };
        let changed = match changed_paths(&seen.status) {
            Ok(paths) => paths,
            Err(e) => {
                return Err(e);
            },
        };
        proof {
            lemma_in_order(texts_of(changed@));
        }
        let paths = user_changed_paths(&changed);
        assert(texts_of(paths@).len() == paths@.len());
        let active = match active_operations(&seen.markers) {
            Ok(active) => active,
            Err(e) => {
                return Err(e);
            },
        };
        assert(texts_of(active@).len() == active@.len());
        if active.len() > 0 {
            return Ok(
                Preflight::Settled {
                    preview: InitialSnapshotPreview {
                        repository_root: repository_root.to_owned(),
                        target_branch,
                        included_paths: paths,
                        warnings: active,
                        tree_oid: None,
                        target_oid,
                        ready: false,
                        unsafe_to_snapshot: true,
                    },
                },
            );
        }
        if target_oid.is_some() && paths.len() == 0 {
            let none: Vec<String> = Vec::new();
            assert(texts_of(none@) =~= Seq::empty());
            return Ok(
                Preflight::Settled {
                    preview: InitialSnapshotPreview {
                        repository_root: repository_root.to_owned(),
                        target_branch,
                        included_paths: Vec::new(),
                        warnings: Vec::new(),
                        tree_oid: None,
                        target_oid,
                        ready: true,
                        unsafe_to_snapshot: false,
                    },
                },
            );
        }
        let mut warnings: Vec<String> = Vec::new();
        assert(texts_of(warnings@).to_set() =~= Set::empty());
        if target_oid.is_some() {
            match &seen.staged {
                GitReply::NotRun(description) => {
                    return Err(GitError::from_io(description.as_str()));
                },
                GitReply::Ended { code, stdout, stderr } => {
                    let exit: i64 = match code {
                        Some(value) => *value as i64,
                        None => -1,
                    };
                    let signalled = code.is_none();
                    if !signalled && exit == 1 {
                        insert_ordered(
                            &mut warnings,
                            "Some changes were staged in Terminal. Review before Ditch saves the complete current project state.".to_owned(),
                        );
                    } else if signalled || exit != 0 {
                        return Err(git_failure(stdout.as_slice(), stderr.as_slice()));
                    }
                },
            }
        }
        let nested = add_path_warnings(&mut warnings, &paths, &seen.nested);
        proof {
            lemma_in_order(texts_of(warnings@));
        }
        if nested {
            return Ok(
                Preflight::Settled {
                    preview: InitialSnapshotPreview {
                        repository_root: repository_root.to_owned(),
                        target_branch,
                        included_paths: paths,
                        warnings,
                        tree_oid: None,
                        target_oid,
                        ready: false,
                        unsafe_to_snapshot: true,
                    },
                },
            );
        }
        Ok(Preflight::Build { basis: SnapshotBasis { target_branch, target_oid, warnings } })
    }
}

/// What was seen of a file that a snapshot would hold: whether it is a
/// repository of its own, and its size.
#[derive(Debug)]
pub struct EntryFacts {
    pub nested: bool,
    pub size: Option<u64>,
}

/// What was seen of a snapshot that has been built in an index of its own: its
/// tree, the list of its files, the files themselves, and the answer of Git for
/// the tree of the head.
#[derive(Debug)]
pub struct BuildFacts {
    pub tree: String,
    pub listed: Vec<u8>,
    pub entries: Vec<EntryFacts>,
    pub head_tree: GitReply,
}

/// Which command of the building of a snapshot has been answered. All of them work
/// on an index of their own.
#[derive(Debug)]
pub enum BuildStep {
    /// The index has been emptied.
    ReadTree,
    /// All files have been added.
    AddAll,
    /// The runtime's own folder has been taken out again.
    RemoveMetadata,
    /// The tree has been written.
    WriteTree,
    /// The files have been listed.
    List { tree: String },
}

/// What the building of a snapshot does next.
#[derive(Debug)]
pub enum BuildProgress {
    Run { args: Vec<String>, step: BuildStep },
    Done { tree: String, listed: Vec<u8> },
}

/// The files that a snapshot would hold, the warnings about them, and whether
/// one of them stands against it.
pub struct Listing {
    pub paths: Seq<Seq<char>>,
    pub warnings: Set<Seq<char>>,
    pub risky: bool,
}

pub open spec fn unreadable_warning() -> Seq<char> {
    "A repository path is not valid UTF-8 and cannot be reviewed safely."@
}

/// Whether the file at a place of a list is larger than a hundred megabytes.
pub open spec fn is_large(entries: Seq<EntryFacts>, at: int) -> bool {
    0 <= at < entries.len() && entries[at].size is Some && entries[at].size->0 > 104857600
}

/// Whether the file at a place of a list is a repository of its own.
pub open spec fn is_repository(entries: Seq<EntryFacts>, at: int) -> bool {
    0 <= at < entries.len() && entries[at].nested
}

/// What the list of files comes to.
pub open spec fn listing(fields: Seq<Seq<u8>>, entries: Seq<EntryFacts>) -> Result<Listing, GitFault>
    decreases fields.len(),
{
    if fields.len() == 0 {
        Ok(Listing { paths: Seq::empty(), warnings: Set::empty(), risky: false })
    } else {
        match listing(fields.drop_last(), entries) {
            Err(e) => Err(e),
            Ok(before) => if !valid_utf8(fields.last()) {
                Ok(
                    Listing {
                        paths: before.paths,
                        warnings: before.warnings.insert(unreadable_warning()),
                        risky: true,
                    },
                )
            } else {
                match repository_path(decode_utf8(fields.last())) {
                    Err(e) => Err(e),
                    Ok(path) => Ok(listed_file(before, path, entries, fields.len() - 1)),
                }
            },
        }
    }
}

/// The last step of a path in lower case.
pub open spec fn last_step(path: Seq<char>) -> Seq<char> {
    pieces(lower_text(path), '/').last()
}

/// The list of files after one more.
pub open spec fn listed_file(before: Listing, path: Seq<char>, entries: Seq<EntryFacts>, at: int) -> Listing {
    let named = if is_sensitive(last_step(path)) {
        before.warnings.insert(credential_warning(path))
    } else {
        before.warnings
    };
    let nested = if is_repository(entries, at) {
        named.insert(nested_warning(path))
    } else {
        named
    };
    Listing {
        paths: before.paths.push(path),
        warnings: if is_large(entries, at) {
            nested.insert(path + " is larger than 100 MB."@)
        } else {
            nested
        },
        risky: before.risky || is_repository(entries, at),
    }
}

/// What building a snapshot comes to.
pub enum BuildOutcome {
    Failed(GitFault),
    /// The project is what its head holds.
    Unchanged { head: Seq<char> },
    /// The tree, the files, the warnings, and whether something stands against it.
    Snapshot { tree: Seq<char>, listing: Listing },
}

/// The arguments that take the runtime's own folder out of the index.
pub open spec fn remove_metadata_args(project_place: Seq<char>, root: Seq<char>) -> Seq<Seq<char>> {
    seq![
        "rm"@,
        "-r"@,
        "--cached"@,
        "--ignore-unmatch"@,
        "--"@,
        path_below(joined_path(project_place, ".ditch"@), root),
    ]
}

/// Whether the building of a snapshot goes on as it should after a command: it
/// stops at the first failure.
pub open spec fn build_moves(
    project_place: Seq<char>,
    root: Seq<char>,
    step: BuildStep,
    reply: GitReply,
    r: Result<BuildProgress, GitError>,
) -> bool {
    match step {
        BuildStep::ReadTree => match reply_bytes(reply) {
            Err(e) => ends_with_fault(r, e),
            Ok(_) => {
                &&& r matches Ok(BuildProgress::Run { args, step: BuildStep::AddAll })
                &&& texts_of(args@) == seq!["add"@, "-A"@, "--"@, "."@]
            },
        },
        BuildStep::AddAll => match reply_bytes(reply) {
            Err(e) => ends_with_fault(r, e),
            Ok(_) => if !is_within(joined_path(project_place, ".ditch"@), root) {
                ends_with_fault(
                    r,
                    fault(
                        "project_repository_mismatch"@,
                        "The project metadata path is outside its Git repository"@,
                    ),
                )
            } else {
                &&& r matches Ok(BuildProgress::Run { args, step: BuildStep::RemoveMetadata })
                &&& texts_of(args@) == remove_metadata_args(project_place, root)
            },
        },
        BuildStep::RemoveMetadata => match reply_bytes(reply) {
            Err(e) => ends_with_fault(r, e),
            Ok(_) => {
                &&& r matches Ok(BuildProgress::Run { args, step: BuildStep::WriteTree })
                &&& texts_of(args@) == seq!["write-tree"@]
            },
        },
        BuildStep::WriteTree => match reply_text(reply) {
            Err(e) => ends_with_fault(r, e),
            Ok(text) => {
                &&& r matches Ok(BuildProgress::Run { args, step: BuildStep::List { tree } })
                &&& tree@ == text
                &&& texts_of(args@) == seq!["ls-files"@, "-z"@]
            },
        },
        BuildStep::List { tree } => match reply_bytes(reply) {
            Err(e) => ends_with_fault(r, e),
            Ok(bytes) => {
                &&& r matches Ok(BuildProgress::Done { tree: t, listed })
                &&& t == tree
                &&& listed@ == bytes
            },
        },
    }
}

/// The runtime's own folder is in no snapshot: a tree is written only after the
/// command that takes the folder out has succeeded.
pub proof fn lemma_metadata_is_left_out(
    project_place: Seq<char>,
    root: Seq<char>,
    step: BuildStep,
    reply: GitReply,
    r: Result<BuildProgress, GitError>,
)
    requires
        build_moves(project_place, root, step, reply, r),
    ensures
        r matches Ok(BuildProgress::Run { step: BuildStep::RemoveMetadata, args }) ==> texts_of(args@)
            == remove_metadata_args(project_place, root),
        r matches Ok(BuildProgress::Run { step: BuildStep::WriteTree, .. }) ==> step is RemoveMetadata
            && reply_bytes(reply) is Ok,
        r matches Ok(BuildProgress::Run { step: BuildStep::List { .. }, .. }) ==> step is WriteTree,
        r is Ok && r->Ok_0 is Done ==> step is List,
{
}

/// What building a snapshot comes to.
pub open spec fn build_outcome(basis: SnapshotBasis, seen: BuildFacts) -> BuildOutcome {
    match listing(filled_fields(pieces(seen.listed@, 0u8)), seen.entries@) {
        Err(e) => BuildOutcome::Failed(e),
        Ok(files) => match basis.target_oid {
            None => BuildOutcome::Snapshot { tree: seen.tree@, listing: files },
            Some(head) => match reply_text(seen.head_tree) {
                Err(e) => BuildOutcome::Failed(e),
                Ok(head_tree) => if head_tree == seen.tree@ {
                    BuildOutcome::Unchanged { head: head@ }
                } else {
                    BuildOutcome::Snapshot { tree: seen.tree@, listing: files }
                },
            },
        },
    }
}

/// The place of the runtime's metadata below the repository.
fn metadata_path(project_place: &str, repository_root: &str) -> (r: Result<String, GitError>)
    ensures
        if is_within(joined_path(project_place@, ".ditch"@), repository_root@) {
            r matches Ok(path) && path@ == path_below(
                joined_path(project_place@, ".ditch"@),
                repository_root@,
            )
        } else {
            ends_with_fault(
                r,
                fault(
                    "project_repository_mismatch"@,
                    "The project metadata path is outside its Git repository"@,
                ),
            )
        },
{
    match relative_to(join_path(project_place, ".ditch").as_str(), repository_root) {
        Some(path) => Ok(path),
        None => Err(
            git_error(
                "project_repository_mismatch",
                "The project metadata path is outside its Git repository",
            ),
        ),
    }
}

/// The path of a listed file, where it has one that can be looked at.
pub open spec fn listed_path(field: Seq<u8>) -> Option<Seq<char>> {
    if !valid_utf8(field) {
        None
    } else {
        match repository_path(decode_utf8(field)) {
            Ok(path) => Some(path),
            Err(_) => None,
        }
    }
}

/// The views of paths, where there are some.
pub open spec fn paths_view(paths: Seq<Option<String>>) -> Seq<Option<Seq<char>>> {
    paths.map_values(|path: Option<String>| text_of(path))
}

/// The files of a snapshot that are to be looked at, one for each that is listed.
pub fn snapshot_files(listed: &Vec<u8>) -> (r: Vec<Option<String>>)
    ensures
        paths_view(r@) == filled_fields(pieces(listed@, 0u8)).map_values(|field: Seq<u8>| listed_path(field)),
{
    let fields = split_zero(listed.as_slice());
    let ghost every = pieces(listed@, 0u8);
    let mut paths: Vec<Option<String>> = Vec::new();
    let mut i: usize = 0;
    proof {
        assert(every.take(0) =~= Seq::empty());
        assert(paths_view(paths@) =~= filled_fields(every.take(0)).map_values(
            |field: Seq<u8>| listed_path(field),
        ));
    }
    while i < fields.len()
        invariant
            0 <= i <= fields.len(),
            fields.len() == every.len(),
            forall|k: int| 0 <= k < fields.len() ==> #[trigger] fields@[k]@ == every[k],
            paths_view(paths@) == filled_fields(every.take(i as int)).map_values(
                |field: Seq<u8>| listed_path(field),
            ),
        decreases fields.len() - i,
    {
        let ghost past = filled_fields(every.take(i as int));
        let ghost before = paths_view(paths@);
        proof {
            assert(every.take(i + 1).drop_last() =~= every.take(i as int));
            assert(every.take(i + 1).last() == fields@[i as int]@);
        }
        if fields[i].len() > 0 {
            let path = match utf8_text(fields[i].as_slice()) {
                None => None,
                Some(text) => match normalize_git_path(text.as_str()) {
                    Ok(path) => Some(path),
                    Err(_) => None,
                },
            };
            let ghost shown = text_of(path);
            paths.push(path);
            proof {
                assert(paths_view(paths@) =~= before.push(shown));
                assert(past.push(every[i as int]).map_values(|field: Seq<u8>| listed_path(field))
                    =~= past.map_values(|field: Seq<u8>| listed_path(field)).push(
                    listed_path(every[i as int]),
                ));
            }
        }
        i += 1;
    }
    assert(every.take(every.len() as int) =~= every);
    paths
}

/// The files that a snapshot would hold, as they are read.
struct ListingProgress {
    paths: Vec<String>,
    warnings: Vec<String>,
    risky: bool,
}

spec fn progress_shows(progress: ListingProgress, start: Set<Seq<char>>, files: Listing) -> bool {
    &&& sorted(texts_of(progress.paths@))
    &&& texts_of(progress.paths@).to_multiset() == files.paths.to_multiset()
    &&& ordered(texts_of(progress.warnings@))
    &&& texts_of(progress.warnings@).to_set() == start.union(files.warnings)
    &&& progress.risky == files.risky
}

fn list_file(
    progress: &mut ListingProgress,
    path: String,
    entries: &Vec<EntryFacts>,
    at: usize,
    Ghost(start): Ghost<Set<Seq<char>>>,
    Ghost(before): Ghost<Listing>,
)
    requires
        progress_shows(*old(progress), start, before),
    ensures
        progress_shows(*final(progress), start, listed_file(before, path@, entries@, at as int)),
{
    let low = unicode_lower(path.as_str());
    let steps = split_text(low.as_str(), '/');
    proof {
        lemma_pieces_not_empty(low@, '/');
        assert(texts_of(steps@).last() == steps@.last()@);
    }
    let ghost mut shown = before.warnings;
    if sensitive_snapshot_name(steps[steps.len() - 1].as_str()) {
        let mut warning = path.clone();
        warning.append(" may contain credentials; review it before creating the snapshot.");
        insert_ordered(&mut progress.warnings, warning);
        proof {
            assert(start.union(shown).insert(credential_warning(path@)) =~= start.union(
                shown.insert(credential_warning(path@)),
            ));
            shown = shown.insert(credential_warning(path@));
        }
    }
    if at < entries.len() && entries[at].nested {
        let mut warning = path.clone();
        warning.append(" is a nested Git repository and must be prepared manually.");
        insert_ordered(&mut progress.warnings, warning);
        progress.risky = true;
        proof {
            assert(start.union(shown).insert(nested_warning(path@)) =~= start.union(
                shown.insert(nested_warning(path@)),
            ));
            shown = shown.insert(nested_warning(path@));
        }
    }
    if at < entries.len() {
        if let Some(size) = entries[at].size {
            if size > 104857600 {
                let mut warning = path.clone();
                warning.append(" is larger than 100 MB.");
                insert_ordered(&mut progress.warnings, warning);
                proof {
                    let large = path@ + " is larger than 100 MB."@;
                    assert(start.union(shown).insert(large) =~= start.union(shown.insert(large)));
                    shown = shown.insert(large);
                }
            }
        }
    }
    proof {
        vstd::seq_lib::to_multiset_build(before.paths, path@);
    }
    insert_sorted(&mut progress.paths, path);
}

/// Whether the preview of a snapshot says what it should.
pub open spec fn snapshot_inspected(
    root: Seq<char>,
    basis: SnapshotBasis,
    seen: BuildFacts,
    r: Result<InitialSnapshotPreview, GitError>,
) -> bool {
    match build_outcome(basis, seen) {
        BuildOutcome::Failed(e) => ends_with_fault(r, e),
        BuildOutcome::Unchanged { head } => r matches Ok(preview) && previews(
            preview,
            root,
            basis.target_branch@,
            Seq::empty(),
            Seq::empty(),
            None,
            Some(head),
            true,
            false,
        ),
        BuildOutcome::Snapshot { tree, listing: files } => {
            &&& r matches Ok(preview)
            &&& sorted(texts_of(preview.included_paths@))
            &&& texts_of(preview.included_paths@).to_multiset() == files.paths.to_multiset()
            &&& previews(
                preview,
                root,
                basis.target_branch@,
                texts_of(preview.included_paths@),
                in_order(texts_of(basis.warnings@).to_set().union(files.warnings)),
                Some(tree),
                text_of(basis.target_oid),
                false,
                files.risky,
            )
        },
    }
}

impl GitCoordinator {
    /// The first command of the building of a snapshot.
    pub fn begin_build(&self) -> (r: Vec<String>)
        ensures
            texts_of(r@) == seq!["read-tree"@, "--empty"@],
    {
        let r = text_list(["read-tree", "--empty"]);
        assert(texts_of(r@) =~= seq!["read-tree"@, "--empty"@]);
        r
    }

    /// What the building of a snapshot does after a command.
    pub fn build_snapshot(
        &self,
        project_place: &str,
        repository_root: &str,
        step: BuildStep,
        reply: &GitReply,
    ) -> (r: Result<BuildProgress, GitError>)
        ensures
            build_moves(project_place@, repository_root@, step, *reply, r),
    {
        match step {
            BuildStep::ReadTree => match git_ok(reply) {
                Err(e) => Err(e),
                Ok(()) => {
                    let args = text_list(["add", "-A", "--", "."]);
                    assert(texts_of(args@) =~= seq!["add"@, "-A"@, "--"@, "."@]);
                    Ok(BuildProgress::Run { args, step: BuildStep::AddAll })
                },
            },
            BuildStep::AddAll => match git_ok(reply) {
                Err(e) => Err(e),
                Ok(()) => match metadata_path(project_place, repository_root) {
                    Err(e) => Err(e),
                    Ok(path) => {
                        let args = text_list(
                            ["rm", "-r", "--cached", "--ignore-unmatch", "--", path.as_str()],
                        );
                        assert(texts_of(args@) =~= remove_metadata_args(
                            project_place@,
                            repository_root@,
                        ));
                        Ok(BuildProgress::Run { args, step: BuildStep::RemoveMetadata })
                    },
                },
            },
            BuildStep::RemoveMetadata => match git_ok(reply) {
                Err(e) => Err(e),
                Ok(()) => {
                    let args = text_list(["write-tree"]);
                    assert(texts_of(args@) =~= seq!["write-tree"@]);
                    Ok(BuildProgress::Run { args, step: BuildStep::WriteTree })
                },
            },
            BuildStep::WriteTree => match git_text(reply) {
                Err(e) => Err(e),
                Ok(tree) => {
                    let args = text_list(["ls-files", "-z"]);
                    assert(texts_of(args@) =~= seq!["ls-files"@, "-z"@]);
                    Ok(BuildProgress::Run { args, step: BuildStep::List { tree } })
                },
            },
            BuildStep::List { tree } => match git_bytes(reply) {
                Err(e) => Err(e),
                Ok(bytes) => Ok(BuildProgress::Done { tree, listed: bytes.clone() }),
            },
        }
    }

    /// What building a snapshot comes to.
    pub fn inspect_initial_snapshot(&self, repository_root: &str, basis: SnapshotBasis, seen: &BuildFacts) -> (r: Result<
        InitialSnapshotPreview,
        GitError,
    >)
        requires
            ordered(texts_of(basis.warnings@)),
        ensures
            snapshot_inspected(repository_root@, basis, *seen, r),
    {
        let bytes = &seen.listed;
        let fields = split_zero(bytes.as_slice());
        let ghost every = pieces(bytes@, 0u8);
        let ghost start = texts_of(basis.warnings@).to_set();
        let ghost mut files = Listing { paths: Seq::empty(), warnings: Set::empty(), risky: false };
        let mut progress = ListingProgress { paths: Vec::new(), warnings: basis.warnings, risky: false };
        let mut at: usize = 0;
        let mut i: usize = 0;
        proof {
            assert(every.take(0) =~= Seq::empty());
            assert(texts_of(progress.paths@) =~= Seq::empty());
            assert(start.union(Set::empty()) =~= start);
        }
        while i < fields.len()
            invariant
                0 <= i <= fields.len(),
                fields.len() == every.len(),
                every == pieces(bytes@, 0u8),
                bytes@ == seen.listed@,
                forall|k: int| 0 <= k < fields.len() ==> #[trigger] fields@[k]@ == every[k],
                at == filled_fields(every.take(i as int)).len(),
                at <= i,
                listing(filled_fields(every.take(i as int)), seen.entries@) == Ok::<Listing, GitFault>(files),
                progress_shows(progress, start, files),
            decreases fields.len() - i,
        {
            let ghost past = filled_fields(every.take(i as int));
            proof {
                assert(every.take(i + 1).drop_last() =~= every.take(i as int));
                assert(every.take(i + 1).last() == fields@[i as int]@);
            }
            if fields[i].len() > 0 {
                let ghost here = past.push(fields@[i as int]@);
                assert(here.drop_last() =~= past);
                match utf8_text(fields[i].as_slice()) {
                    None => {
                        insert_ordered(
                            &mut progress.warnings,
                            "A repository path is not valid UTF-8 and cannot be reviewed safely.".to_owned(),
                        );
                        progress.risky = true;
                        proof {
                            assert(start.union(files.warnings).insert(unreadable_warning()) =~= start.union(
                                files.warnings.insert(unreadable_warning()),
                            ));
                            files = Listing {
                                paths: files.paths,
                                warnings: files.warnings.insert(unreadable_warning()),
                                risky: true,
                            };
                        }
                    },
                    Some(text) => match normalize_git_path(text.as_str()) {
                        Err(e) => {
                            proof {
                                lemma_listing_failure(every, seen.entries@, i + 1);
                            }
                            return Err(e);
                        },
                        Ok(path) => {
                            let ghost next = listed_file(files, path@, seen.entries@, at as int);
                            list_file(&mut progress, path, &seen.entries, at, Ghost(start), Ghost(files));
                            proof {
                                files = next;
                            }
                        },
                    },
                }
                at += 1;
            }
            i += 1;
        }
        proof {
            assert(every.take(fields@.len() as int) =~= every);
            lemma_in_order(texts_of(progress.warnings@));
        }
        let target_oid = basis.target_oid;
        if let Some(head) = &target_oid {
            let head_tree = match git_text(&seen.head_tree) {
                Ok(head_tree) => head_tree,
                Err(e) => {
                    return Err(e);
                },
            };
            if same_text(head_tree.as_str(), seen.tree.as_str()) {
                let none: Vec<String> = Vec::new();
                assert(texts_of(none@) =~= Seq::empty());
                return Ok(
                    InitialSnapshotPreview {
                        repository_root: repository_root.to_owned(),
                        target_branch: basis.target_branch,
                        included_paths: Vec::new(),
                        warnings: Vec::new(),
                        tree_oid: None,
                        target_oid: Some(head.clone()),
                        ready: true,
                        unsafe_to_snapshot: false,
                    },
                );
            }
        }
        Ok(
            InitialSnapshotPreview {
                repository_root: repository_root.to_owned(),
                target_branch: basis.target_branch,
                included_paths: progress.paths,
                warnings: progress.warnings,
                tree_oid: Some(seen.tree.clone()),
                target_oid,
                ready: false,
                unsafe_to_snapshot: progress.risky,
            },
        )
    }
}

proof fn lemma_listing_failure(every: Seq<Seq<u8>>, entries: Seq<EntryFacts>, at: int)
    requires
        0 <= at <= every.len(),
        listing(filled_fields(every.take(at)), entries) is Err,
    ensures
        listing(filled_fields(every), entries) == listing(filled_fields(every.take(at)), entries),
    decreases every.len() - at,
{
    if at == every.len() {
        assert(every.take(at) =~= every);
    } else {
        assert(every.take(at + 1).drop_last() =~= every.take(at));
        let past = filled_fields(every.take(at));
        if every[at].len() > 0 {
            assert(past.push(every[at]).drop_last() =~= past);
        }
        lemma_listing_failure(every, entries, at + 1);
    }
}

/// How far a recorded Git operation of a project has come.
#[derive(Clone, Copy, Debug, PartialEq, Eq, Structural)]
pub enum ProjectGitOperationState {
    Preparing,
    CommitCreated,
    RefUpdated,
    Completed,
    RecoveryNeeded,
    Failed,
}

/// A Git operation of a project as the journal keeps it.
#[derive(Debug)]
pub struct ProjectGitOperation {
    pub id: u128,
    pub project_id: u128,
    pub kind: String,
    pub target_branch: String,
    pub expected_tree_oid: String,
    pub expected_old_oid: Option<String>,
    pub created_commit_oid: Option<String>,
    pub state: ProjectGitOperationState,
    pub last_error: Option<String>,
    pub created_at: i64,
    pub updated_at: i64,
}

/// How far the making of a snapshot has come: which command was last run.
#[derive(Clone, Copy, Debug, PartialEq, Eq, Structural)]
pub enum SnapshotStep {
    Commit,
    Reference,
    Index,
}

/// What the making of a snapshot does next, once the operation is journaled: run
/// a command, or hand the commit out.
#[derive(Debug)]
pub enum SnapshotProgress {
    Run { args: Vec<String>, step: SnapshotStep },
    Done { commit: String },
}

/// What a wish for a snapshot comes to: the head is the snapshot already, or an
/// operation begins.
#[derive(Debug)]
pub enum SnapshotStart {
    AlreadyThere,
    Begin { operation: ProjectGitOperation, args: Vec<String> },
}

/// What a wish for a snapshot comes to.
pub enum SnapshotOutcome {
    Refused(GitFault),
    AlreadyThere,
    Begin,
}

/// What a wish for a snapshot comes to.
pub open spec fn snapshot_outcome(preview: InitialSnapshotPreview, expected_tree: Seq<char>) -> SnapshotOutcome {
    if preview.ready {
        SnapshotOutcome::AlreadyThere
    } else if preview.unsafe_to_snapshot {
        SnapshotOutcome::Refused(
            fault("initial_snapshot_unsafe"@, glued(texts_of(preview.warnings@), " "@)),
        )
    } else if preview.tree_oid is None {
        SnapshotOutcome::Refused(
            fault("initial_snapshot_missing"@, "The proposed starting snapshot could not be built"@),
        )
    } else if preview.tree_oid->0@ != expected_tree {
        SnapshotOutcome::Refused(
            fault(
                "initial_snapshot_changed"@,
                "Project files changed while the starting snapshot was being reviewed. Review the refreshed snapshot and try again."@,
            ),
        )
    } else {
        SnapshotOutcome::Begin
    }
}

/// The message of the commit that holds a snapshot.
pub open spec fn snapshot_message(has_head: bool) -> Seq<char> {
    if has_head {
        "Save current project state (The Ditch)"@
    } else {
        "Initial project snapshot (The Ditch)"@
    }
}

/// The parents of the commit that holds a snapshot.
pub open spec fn snapshot_parents(head: Option<String>) -> Seq<Seq<char>> {
    match head {
        Some(head) => seq![head@],
        None => Seq::empty(),
    }
}

/// Whether an operation differs from an earlier state in its progress alone.
pub open spec fn advanced(
    before: ProjectGitOperation,
    after: ProjectGitOperation,
    state: ProjectGitOperationState,
    now: i64,
) -> bool {
    after == (ProjectGitOperation { state, updated_at: now, ..before })
}

/// Whether the making of a snapshot goes on as it should after a command. A
/// reference moves only once the commit is on record.
pub open spec fn snapshot_moves(
    before: ProjectGitOperation,
    after: ProjectGitOperation,
    step: SnapshotStep,
    reply: GitReply,
    now: i64,
    r: Result<SnapshotProgress, GitError>,
) -> bool {
    match step {
        SnapshotStep::Commit => match reply_text(reply) {
            Err(e) => after == before && ends_with_fault(r, e),
            Ok(commit) => {
                &&& text_of(after.created_commit_oid) == Some(commit)
                &&& after == (ProjectGitOperation {
                    created_commit_oid: after.created_commit_oid,
                    state: ProjectGitOperationState::CommitCreated,
                    updated_at: now,
                    ..before
                })
                &&& r matches Ok(SnapshotProgress::Run { args, step: next })
                &&& next == SnapshotStep::Reference
                &&& texts_of(args@) == update_ref_args(
                    branch_ref(before.target_branch@),
                    commit,
                    match before.expected_old_oid {
                        Some(old) => old@,
                        None => zero_oid(),
                    },
                )
            },
        },
        SnapshotStep::Reference => match reply_bytes(reply) {
            Err(e) => after == before && ends_with_fault(r, e),
            Ok(_) => {
                &&& advanced(before, after, ProjectGitOperationState::RefUpdated, now)
                &&& r matches Ok(SnapshotProgress::Run { args, step: next })
                &&& next == SnapshotStep::Index
                &&& texts_of(args@) == seq!["read-tree"@, "--reset"@, before.created_commit_oid->0@]
            },
        },
        SnapshotStep::Index => match reply_bytes(reply) {
            Err(e) => after == before && ends_with_fault(r, e),
            Ok(_) => {
                &&& advanced(before, after, ProjectGitOperationState::Completed, now)
                &&& r matches Ok(SnapshotProgress::Done { commit })
                &&& Some(commit@) == text_of(before.created_commit_oid)
            },
        },
    }
}

/// The arguments that set the index to a commit without touching any file.
fn reset_index(commit: &str) -> (r: Vec<String>)
    ensures
        texts_of(r@) == seq!["read-tree"@, "--reset"@, commit@],
{
    let r = text_list(["read-tree", "--reset", commit]);
    assert(texts_of(r@) =~= seq!["read-tree"@, "--reset"@, commit@]);
    r
}

/// Whether a snapshot begins as it should.
pub open spec fn snapshot_begun(
    preview: InitialSnapshotPreview,
    expected_tree: Seq<char>,
    id: u128,
    project_id: u128,
    now: i64,
    r: Result<SnapshotStart, GitError>,
) -> bool {
    match snapshot_outcome(preview, expected_tree) {
        SnapshotOutcome::Refused(e) => ends_with_fault(r, e),
        SnapshotOutcome::AlreadyThere => r matches Ok(SnapshotStart::AlreadyThere),
        SnapshotOutcome::Begin => {
            &&& r matches Ok(SnapshotStart::Begin { operation, args })
            &&& operation.id == id
            &&& operation.project_id == project_id
            &&& operation.kind@ == "initial_snapshot"@
            &&& operation.target_branch@ == preview.target_branch@
            &&& operation.expected_tree_oid@ == expected_tree
            &&& operation.expected_old_oid == preview.target_oid
            &&& operation.created_commit_oid is None
            &&& operation.state == ProjectGitOperationState::Preparing
            &&& operation.last_error is None
            &&& operation.created_at == now
            &&& operation.updated_at == now
            &&& texts_of(args@) == commit_tree_args(
                expected_tree,
                snapshot_parents(preview.target_oid),
                snapshot_message(preview.target_oid is Some),
            )
        },
    }
}

impl GitCoordinator {
    /// Begins a snapshot of what was reviewed.
    pub fn begin_snapshot(
        &self,
        preview: &InitialSnapshotPreview,
        expected_tree_oid: &str,
        id: u128,
        project_id: u128,
        now: i64,
    ) -> (r: Result<SnapshotStart, GitError>)
        ensures
            snapshot_begun(*preview, expected_tree_oid@, id, project_id, now, r),
    {
        if preview.ready {
            return Ok(SnapshotStart::AlreadyThere);
        }
        if preview.unsafe_to_snapshot {
            let reasons = glue_texts(&preview.warnings, " ");
            return Err(git_error("initial_snapshot_unsafe", reasons.as_str()));
        }
        let tree = match &preview.tree_oid {
            Some(tree) => tree,
            None => {
                return Err(
                    git_error(
                        "initial_snapshot_missing",
                        "The proposed starting snapshot could not be built",
                    ),
                );
            },
        };
        if !same_text(tree.as_str(), expected_tree_oid) {
            return Err(
                git_error(
                    "initial_snapshot_changed",
                    "Project files changed while the starting snapshot was being reviewed. Review the refreshed snapshot and try again.",
                ),
            );
        }
        let operation = ProjectGitOperation {
            id,
            project_id,
            kind: "initial_snapshot".to_owned(),
            target_branch: preview.target_branch.clone(),
            expected_tree_oid: tree.clone(),
            expected_old_oid: crate::text::copy_text(&preview.target_oid),
            created_commit_oid: None,
            state: ProjectGitOperationState::Preparing,
            last_error: None,
            created_at: now,
            updated_at: now,
        };
        let mut parents: Vec<String> = Vec::new();
        assert(texts_of(parents@) =~= Seq::empty());
        let message = match &preview.target_oid {
            Some(head) => {
                parents.push(head.clone());
                assert(texts_of(parents@) =~= seq![head@]);
                "Save current project state (The Ditch)"
            },
            None => "Initial project snapshot (The Ditch)",
        };
        let args = commit_tree(tree.as_str(), &parents, message);
        Ok(SnapshotStart::Begin { operation, args })
    }

    /// What the making of a snapshot does after a command.
    pub fn create_initial_snapshot(
        &self,
        operation: &mut ProjectGitOperation,
        step: SnapshotStep,
        reply: &GitReply,
        now: i64,
    ) -> (r: Result<SnapshotProgress, GitError>)
        requires
            step != SnapshotStep::Commit ==> old(operation).created_commit_oid is Some,
        ensures
            snapshot_moves(*old(operation), *final(operation), step, *reply, now, r),
    {
        match step {
            SnapshotStep::Commit => match git_text(reply) {
                Err(e) => Err(e),
                Ok(commit) => {
                    let reference = branch_reference(operation.target_branch.as_str());
                    let args = match &operation.expected_old_oid {
                        Some(old) => update_ref(reference.as_str(), commit.as_str(), old.as_str()),
                        None => update_ref(
                            reference.as_str(),
                            commit.as_str(),
                            "0000000000000000000000000000000000000000",
                        ),
                    };
                    operation.created_commit_oid = Some(commit);
                    operation.state = ProjectGitOperationState::CommitCreated;
                    operation.updated_at = now;
                    Ok(SnapshotProgress::Run { args, step: SnapshotStep::Reference })
                },
            },
            SnapshotStep::Reference => match git_ok(reply) {
                Err(e) => Err(e),
                Ok(()) => {
                    let commit = operation.created_commit_oid.as_ref().unwrap().clone();
                    operation.state = ProjectGitOperationState::RefUpdated;
                    operation.updated_at = now;
                    Ok(
                        SnapshotProgress::Run {
                            args: reset_index(commit.as_str()),
                            step: SnapshotStep::Index,
                        },
                    )
                },
            },
            SnapshotStep::Index => match git_ok(reply) {
                Err(e) => Err(e),
                Ok(()) => {
                    let commit = operation.created_commit_oid.as_ref().unwrap().clone();
                    operation.state = ProjectGitOperationState::Completed;
                    operation.updated_at = now;
                    Ok(SnapshotProgress::Done { commit })
                },
            },
        }
    }
}

/// What an interrupted snapshot comes to.
pub enum SnapshotRecovery {
    /// There is nothing to finish.
    Nothing,
    /// Git could not be asked.
    Failed(GitFault),
    /// The operation ends here for the given reason.
    Stop(ProjectGitOperationState, Seq<char>),
    /// The index is set to the commit.
    Reset(Seq<char>),
    /// The branch is moved to the commit, then the index is set to it.
    MoveAndReset(Seq<char>, Seq<char>),
}

/// What an interrupted snapshot comes to, from the answers of Git for the branch
/// and for the tree of the recorded commit.
pub open spec fn snapshot_recovery(
    operation: ProjectGitOperation,
    branch: GitReply,
    tree: GitReply,
) -> SnapshotRecovery {
    if operation.kind@ != "initial_snapshot"@ || operation.state == ProjectGitOperationState::Completed {
        SnapshotRecovery::Nothing
    } else {
        match (head_of(branch), operation.created_commit_oid) {
            (Some(current), Some(created)) => if current == created@ {
                match reply_text(tree) {
                    Err(e) => SnapshotRecovery::Failed(e),
                    Ok(actual) => if actual != operation.expected_tree_oid@ {
                        SnapshotRecovery::Stop(
                            ProjectGitOperationState::RecoveryNeeded,
                            "The recorded starting snapshot does not match its Git commit"@,
                        )
                    } else {
                        SnapshotRecovery::Reset(created@)
                    },
                }
            } else if text_of(operation.expected_old_oid) == Some(current) {
                match reply_text(tree) {
                    Err(e) => SnapshotRecovery::Failed(e),
                    Ok(actual) => if actual != operation.expected_tree_oid@ {
                        SnapshotRecovery::Stop(
                            ProjectGitOperationState::RecoveryNeeded,
                            "The recorded project save point has the wrong tree"@,
                        )
                    } else {
                        SnapshotRecovery::MoveAndReset(created@, current)
                    },
                }
            } else {
                SnapshotRecovery::Stop(
                    ProjectGitOperationState::RecoveryNeeded,
                    "Another Git operation changed the project target; Ditch left it untouched."@,
                )
            },
            (None, Some(created)) => if operation.expected_old_oid is Some {
                SnapshotRecovery::Stop(
                    ProjectGitOperationState::RecoveryNeeded,
                    "The project target disappeared while Ditch was saving its state"@,
                )
            } else {
                SnapshotRecovery::MoveAndReset(created@, zero_oid())
            },
            (Some(_), None) => SnapshotRecovery::Stop(
                ProjectGitOperationState::RecoveryNeeded,
                "Another Git operation changed the project target; Ditch left it untouched."@,
            ),
            (None, None) => SnapshotRecovery::Stop(
                ProjectGitOperationState::Failed,
                "Starting snapshot preparation stopped before a commit was created"@,
            ),
        }
    }
}

/// The commands that finish an interrupted snapshot: none, or the last, or both.
#[derive(Debug)]
pub struct SnapshotRepair {
    pub move_branch: Option<Vec<String>>,
    pub reset_index: Vec<String>,
}

/// Ends an operation for a reason.
fn stop_operation(operation: &mut ProjectGitOperation, state: ProjectGitOperationState, reason: &str, now: i64)
    ensures
        text_of(final(operation).last_error) == Some(reason@),
        *final(operation) == (ProjectGitOperation {
            state,
            last_error: final(operation).last_error,
            updated_at: now,
            ..*old(operation)
        }),
{
    operation.state = state;
    operation.last_error = Some(reason.to_owned());
    operation.updated_at = now;
}

/// Whether an interrupted snapshot is taken up as it should be.
pub open spec fn snapshot_reconciled(
    before: ProjectGitOperation,
    after: ProjectGitOperation,
    branch: GitReply,
    tree: GitReply,
    now: i64,
    r: Result<Option<SnapshotRepair>, GitError>,
) -> bool {
    match snapshot_recovery(before, branch, tree) {
        SnapshotRecovery::Nothing => r matches Ok(None) && after == before,
        SnapshotRecovery::Failed(e) => ends_with_fault(r, e) && after == before,
        SnapshotRecovery::Stop(state, reason) => {
            &&& r matches Ok(None)
            &&& text_of(after.last_error) == Some(reason)
            &&& after == (ProjectGitOperation {
                state,
                last_error: after.last_error,
                updated_at: now,
                ..before
            })
        },
        SnapshotRecovery::Reset(commit) => {
            &&& r matches Ok(Some(repair))
            &&& repair.move_branch is None
            &&& texts_of(repair.reset_index@) == seq!["read-tree"@, "--reset"@, commit]
            &&& after == before
        },
        SnapshotRecovery::MoveAndReset(commit, old_oid) => {
            &&& r matches Ok(Some(repair))
            &&& repair.move_branch matches Some(args)
            &&& texts_of(args@) == update_ref_args(
                branch_ref(before.target_branch@),
                commit,
                old_oid,
            )
            &&& texts_of(repair.reset_index@) == seq!["read-tree"@, "--reset"@, commit]
            &&& after == before
        },
    }
}

impl GitCoordinator {
    /// What finishes an interrupted snapshot. No branch is moved unless it is
    /// still where the operation found it.
    pub fn reconcile_initial_snapshot(
        &self,
        operation: &mut ProjectGitOperation,
        branch: &GitReply,
        tree: &GitReply,
        now: i64,
    ) -> (r: Result<Option<SnapshotRepair>, GitError>)
        ensures
            snapshot_reconciled(*old(operation), *final(operation), *branch, *tree, now, r),
    {
        if !same_text(operation.kind.as_str(), "initial_snapshot") || matches!(
            operation.state,
            ProjectGitOperationState::Completed
        ) {
            return Ok(None);
        }
        let current = match git_text(branch) {
            Ok(current) => Some(current),
            Err(_) => None,
        };
        let created = crate::text::copy_text(&operation.created_commit_oid);
        let reference = branch_reference(operation.target_branch.as_str());
        match (current, created) {
            (Some(current), Some(created)) => {
                if same_text(current.as_str(), created.as_str()) {
                    let actual = match git_text(tree) {
                        Ok(actual) => actual,
                        Err(e) => {
                            return Err(e);
                        },
                    };
                    if !same_text(actual.as_str(), operation.expected_tree_oid.as_str()) {
                        stop_operation(
                            operation,
                            ProjectGitOperationState::RecoveryNeeded,
                            "The recorded starting snapshot does not match its Git commit",
                            now,
                        );
                        return Ok(None);
                    }
                    return Ok(
                        Some(
                            SnapshotRepair {
                                move_branch: None,
                                reset_index: reset_index(created.as_str()),
                            },
                        ),
                    );
                }
                if is_text(&operation.expected_old_oid, current.as_str()) {
                    let actual = match git_text(tree) {
                        Ok(actual) => actual,
                        Err(e) => {
                            return Err(e);
                        },
                    };
                    if !same_text(actual.as_str(), operation.expected_tree_oid.as_str()) {
                        stop_operation(
                            operation,
                            ProjectGitOperationState::RecoveryNeeded,
                            "The recorded project save point has the wrong tree",
                            now,
                        );
                        return Ok(None);
                    }
                    return Ok(
                        Some(
                            SnapshotRepair {
                                move_branch: Some(
                                    update_ref(reference.as_str(), created.as_str(), current.as_str()),
                                ),
                                reset_index: reset_index(created.as_str()),
                            },
                        ),
                    );
                }
                stop_operation(
                    operation,
                    ProjectGitOperationState::RecoveryNeeded,
                    "Another Git operation changed the project target; Ditch left it untouched.",
                    now,
                );
                Ok(None)
            },
            (None, Some(created)) => {
                if operation.expected_old_oid.is_some() {
                    stop_operation(
                        operation,
                        ProjectGitOperationState::RecoveryNeeded,
                        "The project target disappeared while Ditch was saving its state",
                        now,
                    );
                    return Ok(None);
                }
                Ok(
                    Some(
                        SnapshotRepair {
                            move_branch: Some(
                                update_ref(
                                    reference.as_str(),
                                    created.as_str(),
                                    "0000000000000000000000000000000000000000",
                                ),
                            ),
                            reset_index: reset_index(created.as_str()),
                        },
                    ),
                )
            },
            (Some(_), None) => {
                stop_operation(
                    operation,
                    ProjectGitOperationState::RecoveryNeeded,
                    "Another Git operation changed the project target; Ditch left it untouched.",
                    now,
                );
                Ok(None)
            },
            (None, None) => {
                stop_operation(
                    operation,
                    ProjectGitOperationState::Failed,
                    "Starting snapshot preparation stopped before a commit was created",
                    now,
                );
                Ok(None)
            },
        }
    }

    /// Records that an interrupted snapshot has been finished.
    pub fn finish_recovery(&self, operation: &mut ProjectGitOperation, now: i64)
        ensures
            *final(operation) == (ProjectGitOperation {
                state: ProjectGitOperationState::Completed,
                last_error: None,
                updated_at: now,
                ..*old(operation)
            }),
    {
        operation.state = ProjectGitOperationState::Completed;
        operation.last_error = None;
        operation.updated_at = now;
    }
}

/// Finishing an interrupted snapshot never moves a branch that something else
/// has moved meanwhile.
pub proof fn lemma_recovery_respects_others(operation: ProjectGitOperation, branch: GitReply, tree: GitReply)
    requires
        snapshot_recovery(operation, branch, tree) is MoveAndReset,
    ensures
        head_of(branch) == text_of(operation.expected_old_oid),
        operation.created_commit_oid is Some,
{
}

/// Once a snapshot is completed, recovery has nothing more to do.
pub proof fn lemma_recovery_is_final(operation: ProjectGitOperation, branch: GitReply, tree: GitReply)
    requires
        operation.state == ProjectGitOperationState::Completed,
    ensures
        snapshot_recovery(operation, branch, tree) is Nothing,
{
}

/// A snapshot is begun only of the tree that was reviewed, never of one that
/// something stands against, and its commit follows the head that the preview saw.
pub proof fn lemma_snapshot_is_of_the_reviewed_tree(
    preview: InitialSnapshotPreview,
    expected_tree: Seq<char>,
    id: u128,
    project_id: u128,
    now: i64,
    r: Result<SnapshotStart, GitError>,
)
    requires
        snapshot_begun(preview, expected_tree, id, project_id, now, r),
    ensures
        r matches Ok(SnapshotStart::AlreadyThere) <==> preview.ready,
        (r is Ok && r->Ok_0 is Begin) <==> !preview.ready && !preview.unsafe_to_snapshot
            && preview.tree_oid is Some && preview.tree_oid->0@ == expected_tree,
        !preview.ready && preview.unsafe_to_snapshot ==> r is Err && r->Err_0@.code
            == "initial_snapshot_unsafe"@,
        !preview.ready && !preview.unsafe_to_snapshot && preview.tree_oid is Some && preview.tree_oid->0@
            != expected_tree ==> r is Err && r->Err_0@.code == "initial_snapshot_changed"@,
        r matches Ok(SnapshotStart::Begin { operation, args }) ==> {
            &&& operation.id == id
            &&& operation.project_id == project_id
            &&& operation.target_branch@ == preview.target_branch@
            &&& operation.expected_old_oid == preview.target_oid
            &&& operation.expected_tree_oid@ == preview.tree_oid->0@
            &&& operation.state == ProjectGitOperationState::Preparing
            &&& operation.created_commit_oid is None
            &&& args@[0]@ == "commit-tree"@
            &&& args@[1]@ == preview.tree_oid->0@
            &&& preview.target_oid is Some ==> args@.len() == 6 && args@[2]@ == "-p"@ && args@[3]@
                == preview.target_oid->0@ && args@[5]@ == "Save current project state (The Ditch)"@
            &&& preview.target_oid is None ==> args@.len() == 4 && args@[3]@
                == "Initial project snapshot (The Ditch)"@
        },
{
    if r is Ok && r->Ok_0 is Begin {
        let args = r->Ok_0->Begin_args;
        assert(texts_of(args@).len() == args@.len());
        assert forall|i: int| 0 <= i < args@.len() implies #[trigger] args@[i]@ == texts_of(args@)[i] by {}
        match preview.target_oid {
            Some(head) => {
                lemma_commits_name_their_parents(expected_tree, seq![head@], snapshot_message(true), 0);
            },
            None => {
                assert(crate::git_command::parent_args(Seq::<Seq<char>>::empty()).len() == 0);
            },
        }
    }
}

/// The steps of a snapshot: the branch is moved from where it was found to the new
/// commit once that is on record, then the index is set to the same commit, and only
/// then the snapshot counts as completed.
pub proof fn lemma_snapshot_steps(
    before: ProjectGitOperation,
    after: ProjectGitOperation,
    step: SnapshotStep,
    reply: GitReply,
    now: i64,
    r: Result<SnapshotProgress, GitError>,
)
    requires
        snapshot_moves(before, after, step, reply, now, r),
    ensures
        r is Err ==> after == before,
        step == SnapshotStep::Commit && reply_text(reply) is Ok ==> {
            &&& after.created_commit_oid is Some && after.created_commit_oid->0@ == reply_text(reply)->Ok_0
            &&& after.state == ProjectGitOperationState::CommitCreated
            &&& r matches Ok(SnapshotProgress::Run { args, step: next }) && next == SnapshotStep::Reference
                && args@.len() == 4 && args@[0]@ == "update-ref"@ && args@[1]@ == "refs/heads/"@
                + before.target_branch@ && args@[2]@ == reply_text(reply)->Ok_0 && (
            before.expected_old_oid is Some ==> args@[3]@ == before.expected_old_oid->0@) && (
            before.expected_old_oid is None ==> args@[3]@ == "0000000000000000000000000000000000000000"@)
        },
        step == SnapshotStep::Reference && reply_bytes(reply) is Ok ==> {
            &&& after.state == ProjectGitOperationState::RefUpdated
            &&& r matches Ok(SnapshotProgress::Run { args, step: next }) && next == SnapshotStep::Index
                && args@.len() == 3 && args@[0]@ == "read-tree"@ && args@[1]@ == "--reset"@ && args@[2]@
                == before.created_commit_oid->0@
        },
        step == SnapshotStep::Index && reply_bytes(reply) is Ok ==> {
            &&& after.state == ProjectGitOperationState::Completed
            &&& before.created_commit_oid is Some ==> (r matches Ok(SnapshotProgress::Done { commit })
                && commit@ == before.created_commit_oid->0@)
        },
        after.state == ProjectGitOperationState::Completed && before.state
            != ProjectGitOperationState::Completed ==> step == SnapshotStep::Index && reply_bytes(reply) is Ok,
        reply_bytes(reply) is Err ==> r is Err,
        after.expected_tree_oid == before.expected_tree_oid,
        after.target_branch == before.target_branch,
{
    if r is Ok && r->Ok_0 is Run {
        let args = r->Ok_0->Run_args;
        assert(texts_of(args@).len() == args@.len());
        assert forall|i: int| 0 <= i < args@.len() implies #[trigger] args@[i]@ == texts_of(args@)[i] by {}
    }
}

/// What takes an interrupted snapshot up: its commands name the commit on record and
/// nothing else, and the branch is moved only where it does not name that commit yet
/// and still reads what it read at the beginning.
pub proof fn lemma_repair_is_of_the_recorded_commit(
    before: ProjectGitOperation,
    after: ProjectGitOperation,
    branch: GitReply,
    tree: GitReply,
    now: i64,
    r: Result<Option<SnapshotRepair>, GitError>,
)
    requires
        snapshot_reconciled(before, after, branch, tree, now, r),
    ensures
        before.state == ProjectGitOperationState::Completed ==> (r matches Ok(None)) && after == before,
        r matches Ok(Some(repair)) ==> {
            &&& after == before
            &&& before.created_commit_oid is Some
            &&& repair.reset_index@.len() == 3
            &&& repair.reset_index@[0]@ == "read-tree"@
            &&& repair.reset_index@[1]@ == "--reset"@
            &&& repair.reset_index@[2]@ == before.created_commit_oid->0@
            &&& reply_text(branch) is Ok ==> reply_text(tree) == Ok::<Seq<char>, GitFault>(
                before.expected_tree_oid@,
            )
            &&& repair.move_branch is None <==> (reply_text(branch) is Ok && reply_text(branch)->Ok_0
                == before.created_commit_oid->0@)
            &&& repair.move_branch is Some ==> {
                let args = repair.move_branch->0;
                &&& args@.len() == 4
                &&& args@[0]@ == "update-ref"@
                &&& args@[1]@ == "refs/heads/"@ + before.target_branch@
                &&& args@[2]@ == before.created_commit_oid->0@
                &&& before.expected_old_oid is Some ==> args@[3]@ == before.expected_old_oid->0@ && reply_text(
                    branch,
                ) == Ok::<Seq<char>, GitFault>(before.expected_old_oid->0@)
                &&& before.expected_old_oid is None ==> reply_text(branch) is Err && args@[3]@
                    == "0000000000000000000000000000000000000000"@
            }
        },
        reply_text(branch) is Ok && before.created_commit_oid is None && before.kind@ == "initial_snapshot"@
            && before.state != ProjectGitOperationState::Completed ==> (r matches Ok(None)) && after.state
            == ProjectGitOperationState::RecoveryNeeded,
        reply_text(branch) is Err && before.created_commit_oid is None && before.kind@ == "initial_snapshot"@
            && before.state != ProjectGitOperationState::Completed ==> (r matches Ok(None)) && after.state
            == ProjectGitOperationState::Failed,
{
    if r is Ok && r->Ok_0 is Some {
        let repair = r->Ok_0->0;
        assert(texts_of(repair.reset_index@).len() == repair.reset_index@.len());
        assert forall|i: int| 0 <= i < repair.reset_index@.len() implies #[trigger] repair.reset_index@[i]@
            == texts_of(repair.reset_index@)[i] by {}
        if repair.move_branch is Some {
            let args = repair.move_branch->0;
            assert(texts_of(args@).len() == args@.len());
            assert forall|i: int| 0 <= i < args@.len() implies #[trigger] args@[i]@ == texts_of(args@)[i] by {}
        }
    }
}

/// A project is ready without a snapshot only where it has a head and nothing
/// changed since; where Git is in the middle of something, or a repository lies in
/// the project, no snapshot is built.
pub proof fn lemma_inspection_is_careful(
    root: Seq<char>,
    seen: PreflightFacts,
    r: Result<Preflight, GitError>,
)
    requires
        inspection_begun(root, seen, r),
    ensures
        r matches Ok(Preflight::Settled { preview }) ==> {
            &&& preview.repository_root@ == root
            &&& preview.target_branch@ == reply_text(seen.branch)->Ok_0
            &&& preview.tree_oid is None
            &&& preview.ready == !preview.unsafe_to_snapshot
            &&& preview.ready ==> reply_text(seen.head) is Ok && user_paths(
                in_order(reply_paths(seen.status)->Ok_0),
            ).len() == 0 && preview.target_oid is Some && preview.target_oid->0@ == reply_text(
                seen.head,
            )->Ok_0
        },
        r matches Ok(Preflight::Build { basis }) ==> {
            &&& basis.target_branch@ == reply_text(seen.branch)->Ok_0
            &&& reply_text(seen.head) is Ok ==> basis.target_oid is Some && basis.target_oid->0@ == reply_text(
                seen.head,
            )->Ok_0
            &&& reply_text(seen.head) is Err ==> basis.target_oid is None
            &&& reply_text(seen.head) is Err || user_paths(in_order(reply_paths(seen.status)->Ok_0)).len() > 0
        },
        reply_text(seen.branch) is Err ==> r is Err,
        reply_paths(seen.status) is Err ==> r is Err,
        forall|i: int|
            0 <= i < seen.markers@.len() && (#[trigger] seen.markers@[i]).1 ==> !(r matches Ok(
                Preflight::Build { .. },
            )) && !(r matches Ok(Preflight::Settled { preview }) && preview.ready),
        forall|i: int|
            0 <= i < seen.nested@.len() && i < user_paths(in_order(reply_paths(seen.status)->Ok_0)).len()
                && #[trigger] seen.nested@[i] ==> !(r matches Ok(Preflight::Build { .. })),
{
    assert forall|i: int| 0 <= i < seen.markers@.len() && (#[trigger] seen.markers@[i]).1 implies (
    found_markers(seen.markers@) is Err || found_markers(seen.markers@)->Ok_0.len() > 0) by {
        lemma_marker_is_warned_of(seen.markers@, i);
    }
    assert forall|i: int|
        0 <= i < seen.nested@.len() && i < user_paths(in_order(reply_paths(seen.status)->Ok_0)).len()
            && #[trigger] seen.nested@[i] implies any_nested(
        seen.nested@,
        user_paths(in_order(reply_paths(seen.status)->Ok_0)).len() as int,
    ) by {
        assert(is_nested(seen.nested@, i));
    }
}

proof fn lemma_marker_is_warned_of(markers: Seq<(GitReply, bool)>, i: int)
    requires
        0 <= i < markers.len(),
        markers[i].1,
    ensures
        found_markers(markers) is Ok ==> found_markers(markers)->Ok_0.len() > 0,
    decreases markers.len(),
{
    if i < markers.len() - 1 {
        lemma_marker_is_warned_of(markers.drop_last(), i);
    }
}

/// The preview of a snapshot names the tree that was built, unless that is the tree
/// of the head already.
pub proof fn lemma_preview_is_of_the_built_tree(
    root: Seq<char>,
    basis: SnapshotBasis,
    seen: BuildFacts,
    r: Result<InitialSnapshotPreview, GitError>,
)
    requires
        snapshot_inspected(root, basis, seen, r),
        r is Ok,
    ensures
        r->Ok_0.repository_root@ == root,
        r->Ok_0.target_branch@ == basis.target_branch@,
        r->Ok_0.ready <==> basis.target_oid is Some && reply_text(seen.head_tree) == Ok::<
            Seq<char>,
            GitFault,
        >(seen.tree@),
        !r->Ok_0.ready ==> r->Ok_0.tree_oid is Some && r->Ok_0.tree_oid->0@ == seen.tree@,
        text_of(r->Ok_0.target_oid) == text_of(basis.target_oid),
        r->Ok_0.ready ==> !r->Ok_0.unsafe_to_snapshot,
{
}

/// A name counts as one of credentials exactly for the files that keep keys.
pub proof fn lemma_credentials_are_noticed(name: Seq<char>)
    ensures
        is_sensitive(".env"@),
        is_sensitive("id_rsa"@),
        is_sensitive("id_ed25519"@),
        finishes_with(name, ".pem"@) ==> is_sensitive(name),
        finishes_with(name, ".key"@) ==> is_sensitive(name),
        is_sensitive(name) ==> name == ".env"@ || name == "id_rsa"@ || name == "id_ed25519"@ || finishes_with(
            name,
            ".pem"@,
        ) || finishes_with(name, ".key"@),
{
}

/// One more file of a snapshot: it is listed, it is warned of where its name is that
/// of credentials, where it is a repository and where it is larger than a hundred
/// megabytes, and only a repository stands against the snapshot.
pub proof fn lemma_listed_file_is_reviewed(before: Listing, path: Seq<char>, entries: Seq<EntryFacts>, at: int)
    requires
        0 <= at < entries.len(),
    ensures
        ({
            let after = listed_file(before, path, entries, at);
            &&& after.paths == before.paths.push(path)
            &&& before.warnings.subset_of(after.warnings)
            &&& after.risky <==> before.risky || entries[at].nested
            &&& is_sensitive(last_step(path)) ==> after.warnings.contains(
                path + " may contain credentials; review it before creating the snapshot."@,
            )
            &&& entries[at].nested ==> after.warnings.contains(
                path + " is a nested Git repository and must be prepared manually."@,
            )
            &&& entries[at].size is Some && entries[at].size->0 > 104857600 ==> after.warnings.contains(
                path + " is larger than 100 MB."@,
            )
            &&& !is_sensitive(last_step(path)) && !entries[at].nested && !(entries[at].size is Some
                && entries[at].size->0 > 104857600) ==> after.warnings == before.warnings
        }),
{
}

/// That something is staged is warned of exactly where Git says so by its code; a
/// project without a commit has nothing to compare with.
pub proof fn lemma_staged_changes_are_noticed(target: Option<Seq<char>>, code: Option<i32>, stdout: Vec<u8>, stderr: Vec<u8>)
    ensures
        ({
            let staged = GitReply::Ended { code, stdout, stderr };
            &&& target is None ==> staged_warnings(target, staged) == Ok::<Set<Seq<char>>, GitFault>(Set::empty())
            &&& target is Some && code == Some(0i32) ==> staged_warnings(target, staged) == Ok::<
                Set<Seq<char>>,
                GitFault,
            >(Set::empty())
            &&& target is Some && code == Some(1i32) ==> (staged_warnings(target, staged) matches Ok(warnings)
                && warnings.contains(staged_warning()))
            &&& target is Some && code != Some(0i32) && code != Some(1i32) ==> (staged_warnings(target, staged) matches Err(
                e,
            ) && e.code == "git_command_failed"@)
        }),
{
}

/// Each path with a name like that of credentials is warned of, and each that is a
/// repository of its own.
pub proof fn lemma_paths_are_warned_of(paths: Seq<Seq<char>>, nested: Seq<bool>, first: int, i: int)
    requires
        0 <= i < first <= paths.len(),
    ensures
        is_sensitive(lower_name(paths[i])) ==> path_warnings(paths, nested, first).contains(
            credential_warning(paths[i]),
        ),
        is_nested(nested, i) ==> path_warnings(paths, nested, first).contains(
            nested_warning(strip_end(paths[i], "/"@)),
        ),
    decreases first,
{
    if i < first - 1 {
        lemma_paths_are_warned_of(paths, nested, first - 1, i);
    }
}

} // verus!
