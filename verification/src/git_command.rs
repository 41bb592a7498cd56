//! Git commands: their arguments, and what their results mean.

use crate::git_paths::{fault, git_error, parse_status_porcelain_v2, status_paths, GitError, GitFault};
use crate::order::ordered;
use crate::text::{
    append_texts, begins_with, blank_pieces, byte_count, byte_len, filled, lossy_text, pieces, split_blank,
    same_text, starts_with, text_list, text_lossy, text_of, texts_of, trim, trimmed, utf8_text,
};
use vstd::prelude::*;
use vstd::string::*;
use vstd::utf8::{decode_utf8, valid_utf8};

verus! {

/// How a Git command ended: it could not be run, or it ended with an exit code
/// (none where a signal ended it) and its output.
#[derive(Debug)]
pub enum GitReply {
    NotRun(String),
    Ended { code: Option<i32>, stdout: Vec<u8>, stderr: Vec<u8> },
}

/// What a failed command says about itself.
pub open spec fn failure_detail(stdout: Seq<u8>, stderr: Seq<u8>) -> Seq<char> {
    let complaint = trimmed(lossy_text(stderr));
    if complaint.len() > 0 {
        complaint
    } else {
        trimmed(lossy_text(stdout))
    }
}

/// The output of a command that succeeded.
pub open spec fn reply_bytes(reply: GitReply) -> Result<Seq<u8>, GitFault> {
    match reply {
        GitReply::NotRun(description) => Err(fault("git_io_failed"@, description@)),
        GitReply::Ended { code, stdout, stderr } => if code == Some(0i32) {
            Ok(stdout@)
        } else {
            Err(fault("git_command_failed"@, failure_detail(stdout@, stderr@)))
        },
    }
}

/// The output of a command that succeeded, as a trimmed text.
pub open spec fn reply_text(reply: GitReply) -> Result<Seq<char>, GitFault> {
    match reply_bytes(reply) {
        Err(e) => Err(e),
        Ok(bytes) => if valid_utf8(bytes) {
            Ok(trimmed(decode_utf8(bytes)))
        } else {
            Err(fault("git_output_invalid"@, "Git returned non-UTF-8 object data"@))
        },
    }
}

/// The object name with which the output of `git merge-tree` begins.
pub open spec fn leading_oid(bytes: Seq<u8>) -> Option<Seq<char>> {
    if valid_utf8(bytes) {
        let parts = filled(blank_pieces(decode_utf8(bytes), true));
        if parts.len() > 0 && (byte_count(parts[0]) == 40 || byte_count(parts[0]) == 64) {
            Some(parts[0])
        } else {
            None
        }
    } else {
        None
    }
}

/// The object name that stands for no object.
pub open spec fn zero_oid() -> Seq<char> {
    "0000000000000000000000000000000000000000"@
}

/// The arguments that name the parents of a commit.
pub open spec fn parent_args(parents: Seq<Seq<char>>) -> Seq<Seq<char>>
    decreases parents.len(),
{
    if parents.len() == 0 {
        Seq::empty()
    } else {
        parent_args(parents.drop_last()) + seq!["-p"@, parents.last()]
    }
}

/// What a failed command says about itself.
pub fn output_detail(stdout: &[u8], stderr: &[u8]) -> (r: String)
    ensures
        r@ == failure_detail(stdout@, stderr@),
{
    let complaint = trim(text_lossy(stderr).as_str());
    if !complaint.as_str().is_empty() {
        complaint
    } else {
        trim(text_lossy(stdout).as_str())
    }
}

/// The failure of a command.
pub fn git_failure(stdout: &[u8], stderr: &[u8]) -> (r: GitError)
    ensures
        r@ == fault("git_command_failed"@, failure_detail(stdout@, stderr@)),
{
    let detail = output_detail(stdout, stderr);
    git_error("git_command_failed", detail.as_str())
}

/// The output of a command that succeeded.
pub fn git_bytes(reply: &GitReply) -> (r: Result<&Vec<u8>, GitError>)
    ensures
        match r {
            Ok(bytes) => reply_bytes(*reply) == Ok::<Seq<u8>, GitFault>(bytes@),
            Err(e) => reply_bytes(*reply) == Err::<Seq<u8>, GitFault>(e@),
        },
{
    match reply {
        GitReply::NotRun(description) => Err(GitError::from_io(description.as_str())),
        GitReply::Ended { code, stdout, stderr } => {
            let ended_well = match code {
                Some(value) => *value == 0,
                None => false,
            };
            if ended_well {
                Ok(stdout)
            } else {
                Err(git_failure(stdout.as_slice(), stderr.as_slice()))
            }
        },
    }
}

/// The output of a command that succeeded, as a trimmed text.
pub fn git_text(reply: &GitReply) -> (r: Result<String, GitError>)
    ensures
        match r {
            Ok(text) => reply_text(*reply) == Ok::<Seq<char>, GitFault>(text@),
            Err(e) => reply_text(*reply) == Err::<Seq<char>, GitFault>(e@),
        },
{
    match git_bytes(reply) {
        Err(e) => Err(e),
        Ok(bytes) => match utf8_text(bytes.as_slice()) {
            Some(text) => Ok(trim(text.as_str())),
            None => Err(git_error("git_output_invalid", "Git returned non-UTF-8 object data")),
        },
    }
}

/// Whether a command succeeded.
pub fn git_ok(reply: &GitReply) -> (r: Result<(), GitError>)
    ensures
        match r {
            Ok(()) => reply_bytes(*reply) is Ok,
            Err(e) => reply_bytes(*reply) == Err::<Seq<u8>, GitFault>(e@),
        },
{
    match git_bytes(reply) {
        Ok(_) => Ok(()),
        Err(e) => Err(e),
    }
}

/// The object name with which the output of `git merge-tree` begins.
pub fn first_oid(bytes: &[u8]) -> (r: Option<String>)
    ensures
        text_of(r) == leading_oid(bytes@),
{
    match utf8_text(bytes) {
        None => None,
        Some(text) => {
            let parts = split_blank(text.as_str(), true);
            if parts.len() == 0 {
                assert(texts_of(parts@).len() == 0);
                return None;
            }
            assert(texts_of(parts@)[0] == parts@[0]@);
            let length: usize = byte_len(parts[0].as_str());
            if length == 40 || length == 64 {
                Some(parts[0].clone())
            } else {
                None
            }
        },
    }
}

/// The current branch, from the answer of `git symbolic-ref --quiet --short HEAD`.
pub open spec fn branch_of(reply: GitReply) -> Result<Seq<char>, GitFault> {
    match reply_text(reply) {
        Ok(branch) => Ok(branch),
        Err(_) => Err(
            fault(
                "detached_target_unsupported"@,
                "Choose a project branch before starting parallel work; detached HEAD cannot be an integration target"@,
            ),
        ),
    }
}

/// The current branch, from the answer of `git symbolic-ref --quiet --short HEAD`.
pub fn symbolic_head(reply: &GitReply) -> (r: Result<String, GitError>)
    ensures
        match r {
            Ok(branch) => branch_of(*reply) == Ok::<Seq<char>, GitFault>(branch@),
            Err(e) => branch_of(*reply) == Err::<Seq<char>, GitFault>(e@),
        },
{
    match git_text(reply) {
        Ok(branch) => Ok(branch),
        Err(_) => Err(
            git_error(
                "detached_target_unsupported",
                "Choose a project branch before starting parallel work; detached HEAD cannot be an integration target",
            ),
        ),
    }
}

/// The paths that a workspace has changed, from the answer of
/// `git status --porcelain=v2 -z --untracked-files=all`.
pub open spec fn reply_paths(reply: GitReply) -> Result<Set<Seq<char>>, GitFault> {
    match reply_bytes(reply) {
        Ok(bytes) => status_paths(pieces(bytes, 0u8)),
        Err(e) => Err(e),
    }
}

/// The paths that a workspace has changed, in order and each once, from the
/// answer of `git status --porcelain=v2 -z --untracked-files=all`.
pub fn changed_paths(reply: &GitReply) -> (r: Result<Vec<String>, GitError>)
    ensures
        match r {
            Ok(paths) => ordered(texts_of(paths@)) && reply_paths(*reply) == Ok::<
                Set<Seq<char>>,
                GitFault,
            >(texts_of(paths@).to_set()),
            Err(e) => reply_paths(*reply) == Err::<Set<Seq<char>>, GitFault>(e@),
        },
{
    match git_bytes(reply) {
        Ok(bytes) => parse_status_porcelain_v2(bytes.as_slice()),
        Err(e) => Err(e),
    }
}

/// The arguments that every Git command starts with.
pub fn base_args() -> (r: Vec<String>)
    ensures
        texts_of(r@) == seq!["-c"@, "color.ui=false"@, "-c"@, "core.quotepath=false"@],
{
    let r = text_list(["-c", "color.ui=false", "-c", "core.quotepath=false"]);
    assert(texts_of(r@) =~= seq!["-c"@, "color.ui=false"@, "-c"@, "core.quotepath=false"@]);
    r
}

/// The arguments that look a reference up.
pub fn rev_parse(reference: &str) -> (r: Vec<String>)
    ensures
        texts_of(r@) == seq!["rev-parse"@, "--verify"@, reference@],
{
    let r = text_list(["rev-parse", "--verify", reference]);
    assert(texts_of(r@) =~= seq!["rev-parse"@, "--verify"@, reference@]);
    r
}

/// What is asked of Git about a repository or a workspace.
#[derive(Debug)]
pub enum GitQuery {
    /// The top of the repository.
    Root,
    /// The branch that is checked out.
    Branch,
    /// The paths that differ from the head.
    Status,
    /// The worktrees of the repository.
    Worktrees,
    /// Where the marker of an operation would lie.
    Marker(String),
    /// Whether changes are staged.
    Staged,
    /// The paths with conflicts.
    Unmerged,
    /// The other side of a merge under way.
    MergeHead,
    /// The files that differ between two commits.
    Changes { from: String, to: String },
    /// The tree of a commit.
    Tree(String),
}

/// The arguments that ask something of Git.
pub open spec fn query_of(query: GitQuery) -> Seq<Seq<char>> {
    match query {
        GitQuery::Root => seq!["rev-parse"@, "--show-toplevel"@],
        GitQuery::Branch => seq!["symbolic-ref"@, "--quiet"@, "--short"@, "HEAD"@],
        GitQuery::Status => seq!["status"@, "--porcelain=v2"@, "-z"@, "--untracked-files=all"@],
        GitQuery::Worktrees => seq!["worktree"@, "list"@, "--porcelain"@, "-z"@],
        GitQuery::Marker(name) => seq!["rev-parse"@, "--git-path"@, name@],
        GitQuery::Staged => seq!["diff"@, "--cached"@, "--quiet"@, "--ignore-submodules"@],
        GitQuery::Unmerged => seq!["ls-files"@, "-u"@, "-z"@],
        GitQuery::MergeHead => seq!["rev-parse"@, "--quiet"@, "--verify"@, "MERGE_HEAD"@],
        GitQuery::Changes { from, to } => seq![
            "diff"@,
            "--name-status"@,
            "-z"@,
            "--find-renames"@,
            from@,
            to@,
        ],
        GitQuery::Tree(commit) => seq!["rev-parse"@, "--verify"@, commit@ + "^{tree}"@],
    }
}

/// The arguments that ask something of Git.
pub fn query_args(query: &GitQuery) -> (r: Vec<String>)
    ensures
        texts_of(r@) == query_of(*query),
{
    let r = match query {
        GitQuery::Root => text_list(["rev-parse", "--show-toplevel"]),
        GitQuery::Branch => text_list(["symbolic-ref", "--quiet", "--short", "HEAD"]),
        GitQuery::Status => text_list(["status", "--porcelain=v2", "-z", "--untracked-files=all"]),
        GitQuery::Worktrees => text_list(["worktree", "list", "--porcelain", "-z"]),
        GitQuery::Marker(name) => text_list(["rev-parse", "--git-path", name.as_str()]),
        GitQuery::Staged => text_list(["diff", "--cached", "--quiet", "--ignore-submodules"]),
        GitQuery::Unmerged => text_list(["ls-files", "-u", "-z"]),
        GitQuery::MergeHead => text_list(["rev-parse", "--quiet", "--verify", "MERGE_HEAD"]),
        GitQuery::Changes { from, to } => text_list(
            ["diff", "--name-status", "-z", "--find-renames", from.as_str(), to.as_str()],
        ),
        GitQuery::Tree(commit) => {
            let mut reference = commit.clone();
            reference.append("^{tree}");
            text_list(["rev-parse", "--verify", reference.as_str()])
        },
    };
    assert(texts_of(r@) =~= query_of(*query));
    r
}

/// The variables that a Git command runs with: messages are not translated, and a
/// commit is the runtime's own.
pub open spec fn environment_of(args: Seq<Seq<char>>) -> Seq<(Seq<char>, Seq<char>)> {
    if args.len() > 0 && args[0] == "commit-tree"@ {
        seq![
            ("LC_ALL"@, "C"@),
            ("GIT_AUTHOR_NAME"@, "The Ditch"@),
            ("GIT_AUTHOR_EMAIL"@, "ditch@localhost"@),
            ("GIT_COMMITTER_NAME"@, "The Ditch"@),
            ("GIT_COMMITTER_EMAIL"@, "ditch@localhost"@),
        ]
    } else {
        seq![("LC_ALL"@, "C"@)]
    }
}

/// The variables that a Git command runs with.
pub fn command_environment(args: &Vec<String>) -> (r: Vec<(&'static str, &'static str)>)
    ensures
        r@.map_values(|pair: (&'static str, &'static str)| (pair.0@, pair.1@)) == environment_of(
            texts_of(args@),
        ),
{
    let mut r: Vec<(&'static str, &'static str)> = Vec::new();
    r.push(("LC_ALL", "C"));
    if args.len() > 0 && same_text(args[0].as_str(), "commit-tree") {
        r.push(("GIT_AUTHOR_NAME", "The Ditch"));
        r.push(("GIT_AUTHOR_EMAIL", "ditch@localhost"));
        r.push(("GIT_COMMITTER_NAME", "The Ditch"));
        r.push(("GIT_COMMITTER_EMAIL", "ditch@localhost"));
    }
    assert(r@.map_values(|pair: (&'static str, &'static str)| (pair.0@, pair.1@)) =~= environment_of(
        texts_of(args@),
    ));
    r
}

/// The full name of a branch.
pub open spec fn branch_ref(branch: Seq<char>) -> Seq<char> {
    "refs/heads/"@ + branch
}

/// The full name of a branch.
pub fn branch_reference(branch: &str) -> (r: String)
    ensures
        r@ == branch_ref(branch@),
{
    let mut r = "refs/heads/".to_owned();
    r.append(branch);
    r
}

/// The arguments that make a commit of a tree.
pub open spec fn commit_tree_args(
    tree: Seq<char>,
    parents: Seq<Seq<char>>,
    message: Seq<char>,
) -> Seq<Seq<char>> {
    seq!["commit-tree"@, tree] + parent_args(parents) + seq!["-m"@, message]
}

/// The arguments that make a commit of a tree.
pub fn commit_tree(tree: &str, parents: &Vec<String>, message: &str) -> (r: Vec<String>)
    ensures
        texts_of(r@) == commit_tree_args(tree@, texts_of(parents@), message@),
{
    let mut args = text_list(["commit-tree", tree]);
    assert(texts_of(args@) =~= seq!["commit-tree"@, tree@] + parent_args(texts_of(parents@).take(0)));
    let mut i: usize = 0;
    while i < parents.len()
        invariant
            0 <= i <= parents.len(),
            texts_of(args@) == seq!["commit-tree"@, tree@] + parent_args(texts_of(parents@).take(i as int)),
        decreases parents.len() - i,
    {
        let ghost views = texts_of(parents@);
        let pair = text_list(["-p", parents[i].as_str()]);
        proof {
            assert(texts_of(pair@) =~= seq!["-p"@, parents@[i as int]@]);
            assert(views.take(i + 1).drop_last() =~= views.take(i as int));
            assert(views.take(i + 1).last() == parents@[i as int]@);
        }
        append_texts(&mut args, pair);
        assert(texts_of(args@) =~= seq!["commit-tree"@, tree@] + parent_args(views.take(i + 1)));
        i += 1;
    }
    assert(texts_of(parents@).take(parents@.len() as int) =~= texts_of(parents@));
    let tail = text_list(["-m", message]);
    assert(texts_of(tail@) =~= seq!["-m"@, message@]);
    append_texts(&mut args, tail);
    args
}

/// The arguments that move a reference from one object to another.
pub open spec fn update_ref_args(reference: Seq<char>, oid: Seq<char>, old: Seq<char>) -> Seq<Seq<char>> {
    seq!["update-ref"@, reference, oid, old]
}

/// The arguments that move a reference from one object to another.
pub fn update_ref(reference: &str, oid: &str, old: &str) -> (r: Vec<String>)
    ensures
        texts_of(r@) == update_ref_args(reference@, oid@, old@),
{
    let r = text_list(["update-ref", reference, oid, old]);
    assert(texts_of(r@) =~= update_ref_args(reference@, oid@, old@));
    r
}

/// The arguments that delete a reference that still names an object.
pub fn delete_ref(reference: &str, current: &str) -> (r: Vec<String>)
    ensures
        texts_of(r@) == seq!["update-ref"@, "-d"@, reference@, current@],
{
    let r = text_list(["update-ref", "-d", reference, current]);
    assert(texts_of(r@) =~= seq!["update-ref"@, "-d"@, reference@, current@]);
    r
}

/// The arguments that move one of the runtime's own references. No other
/// reference is moved.
pub fn update_internal_ref(reference: &str, oid: &str, old: Option<&str>) -> (r: Result<
    Vec<String>,
    GitError,
>)
    ensures
        match r {
            Ok(args) => begins_with(reference@, "refs/ditch/"@) && texts_of(args@) == update_ref_args(
                reference@,
                oid@,
                match old {
                    Some(old) => old@,
                    None => zero_oid(),
                },
            ),
            Err(e) => !begins_with(reference@, "refs/ditch/"@) && e@ == fault(
                "unsafe_ref"@,
                "Refusing to update a non-Ditch internal ref"@,
            ),
        },
{
    if !starts_with(reference, "refs/ditch/") {
        return Err(git_error("unsafe_ref", "Refusing to update a non-Ditch internal ref"));
    }
    match old {
        Some(old) => Ok(update_ref(reference, oid, old)),
        None => Ok(update_ref(reference, oid, "0000000000000000000000000000000000000000")),
    }
}

/// What a command printed is read exactly where it ended with code zero; its text
/// then stands without blank ends. Anything else is an error that tells what the
/// command said.
pub proof fn lemma_only_success_is_read(reply: GitReply)
    ensures
        reply_bytes(reply) is Ok <==> (reply is Ended && reply->code == Some(0i32)),
        reply_bytes(reply) is Ok ==> reply_bytes(reply)->Ok_0 == reply->stdout@,
        reply_text(reply) is Ok <==> (reply is Ended && reply->code == Some(0i32) && valid_utf8(
            reply->stdout@,
        )),
        reply_text(reply) is Ok ==> reply_text(reply)->Ok_0 == trimmed(decode_utf8(reply->stdout@)),
        reply is NotRun ==> reply_bytes(reply)->Err_0.code == "git_io_failed"@ && reply_bytes(
            reply,
        )->Err_0.message == reply->NotRun_0@,
        reply is Ended && reply->code != Some(0i32) ==> {
            &&& reply_bytes(reply)->Err_0.code == "git_command_failed"@
            &&& trimmed(lossy_text(reply->stderr@)).len() > 0 ==> reply_bytes(reply)->Err_0.message == trimmed(
                lossy_text(reply->stderr@),
            )
            &&& trimmed(lossy_text(reply->stderr@)).len() == 0 ==> reply_bytes(reply)->Err_0.message == trimmed(
                lossy_text(reply->stdout@),
            )
        },
{
}

/// A branch is known exactly where its name could be read; otherwise the error says
/// that a branch is needed.
pub proof fn lemma_detached_heads_have_no_branch(reply: GitReply)
    ensures
        branch_of(reply) is Ok <==> reply_text(reply) is Ok,
        branch_of(reply) is Ok ==> branch_of(reply)->Ok_0 == reply_text(reply)->Ok_0,
        branch_of(reply) is Err ==> branch_of(reply)->Err_0.code == "detached_target_unsupported"@,
{
}

proof fn lemma_parent_args(parents: Seq<Seq<char>>, i: int)
    requires
        0 <= i < parents.len(),
    ensures
        parent_args(parents).len() == 2 * parents.len(),
        parent_args(parents)[2 * i] == "-p"@,
        parent_args(parents)[2 * i + 1] == parents[i],
    decreases parents.len(),
{
    let before = parents.drop_last();
    if before.len() > 0 {
        lemma_parent_args(before, if i < before.len() {
            i
        } else {
            0
        });
    } else {
        assert(parent_args(before).len() == 0);
    }
    assert(parent_args(parents) == parent_args(before) + seq!["-p"@, parents.last()]);
    if i < before.len() {
        assert(before[i] == parents[i]);
    }
}

/// The command that makes a commit names its tree first, then each parent behind a
/// `-p` in the order given, and its message last.
pub proof fn lemma_commits_name_their_parents(
    tree: Seq<char>,
    parents: Seq<Seq<char>>,
    message: Seq<char>,
    i: int,
)
    requires
        0 <= i < parents.len(),
    ensures
        commit_tree_args(tree, parents, message).len() == 2 * parents.len() + 4,
        commit_tree_args(tree, parents, message)[0] == "commit-tree"@,
        commit_tree_args(tree, parents, message)[1] == tree,
        commit_tree_args(tree, parents, message)[2 * i + 2] == "-p"@,
        commit_tree_args(tree, parents, message)[2 * i + 3] == parents[i],
        commit_tree_args(tree, parents, message).last() == message,
{
    lemma_parent_args(parents, i);
    let args = commit_tree_args(tree, parents, message);
    let middle = parent_args(parents);
    assert(args[2 + (2 * i)] == middle[2 * i]);
    assert(args[2 + (2 * i + 1)] == middle[2 * i + 1]);
}

/// Only commits are made under the runtime's own name.
pub proof fn lemma_commits_are_the_runtimes_own(args: Seq<Seq<char>>)
    ensures
        environment_of(args)[0] == ("LC_ALL"@, "C"@),
        args.len() > 0 && args[0] == "commit-tree"@ ==> environment_of(args).len() == 5
            && environment_of(args)[1] == ("GIT_AUTHOR_NAME"@, "The Ditch"@) && environment_of(args)[2] == (
            "GIT_AUTHOR_EMAIL"@,
            "ditch@localhost"@,
        ) && environment_of(args)[3] == ("GIT_COMMITTER_NAME"@, "The Ditch"@) && environment_of(args)[4] == (
            "GIT_COMMITTER_EMAIL"@,
            "ditch@localhost"@,
        ),
        args.len() == 0 || args[0] != "commit-tree"@ ==> environment_of(args).len() == 1,
{
}

/// The question for the files that differ names the earlier commit before the
/// later one.
pub proof fn lemma_changes_are_asked_in_order(from: String, to: String)
    ensures
        query_of(GitQuery::Changes { from, to }).len() == 6,
        query_of(GitQuery::Changes { from, to })[0] == "diff"@,
        query_of(GitQuery::Changes { from, to })[4] == from@,
        query_of(GitQuery::Changes { from, to })[5] == to@,
{
}

/// Where Git complains, its complaint says why it failed; where it does not, what
/// else it printed.
pub proof fn lemma_complaints_come_first(stdout: Seq<u8>, stderr: Seq<u8>)
    ensures
        trimmed(lossy_text(stderr)).len() > 0 ==> failure_detail(stdout, stderr) == trimmed(lossy_text(stderr)),
        trimmed(lossy_text(stderr)).len() == 0 ==> failure_detail(stdout, stderr) == trimmed(lossy_text(stdout)),
{
}

} // verus!
