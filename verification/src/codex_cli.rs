//! The Codex command line: how it is started, and whether an installation of it
//! can be worked with.

use crate::model::{
    error_of, protocol_error, AgentApprovalPreset, AgentExecutionProfile, CodexLaunchMode,
    ProfileView, ProtocolError,
};
use crate::text::{
    append_texts, contains, copy_text, glue_texts, glued, has_part, lossy_text, str_of, text_list,
    text_lossy, text_of, texts_of, trim, trimmed,
};
use vstd::prelude::*;

verus! {

// ---- arguments ----

/// The arguments for what an agent may do.
pub open spec fn approval_args(approval: AgentApprovalPreset) -> Seq<Seq<char>> {
    match approval {
        AgentApprovalPreset::Ask => seq![
            "--sandbox"@,
            "workspace-write"@,
            "--ask-for-approval"@,
            "on-request"@,
            "--config"@,
            "sandbox_workspace_write.network_access=true"@,
        ],
        AgentApprovalPreset::ApproveForMe => seq![
            "--sandbox"@,
            "workspace-write"@,
            "--ask-for-approval"@,
            "never"@,
            "--config"@,
            "sandbox_workspace_write.network_access=true"@,
        ],
        AgentApprovalPreset::FullAccess => seq!["--dangerously-bypass-approvals-and-sandbox"@],
    }
}

/// The arguments for access to the web, which every agent has.
pub open spec fn web_args() -> Seq<Seq<char>> {
    seq!["--config"@, "web_search=\"live\""@, "--config"@, "tools.web_search=true"@]
}

/// The arguments for the model.
pub open spec fn model_args(profile: ProfileView) -> Seq<Seq<char>> {
    (match profile.model {
        Some(model) => seq!["--model"@, model],
        None => Seq::empty(),
    }) + (match profile.reasoning_effort {
        Some(effort) => seq!["--config"@, "model_reasoning_effort=\""@ + effort + "\""@],
        None => Seq::empty(),
    })
}

/// The arguments for the folder: a session that is resumed has its own.
pub open spec fn folder_args(cwd: Seq<char>, resume: Option<Seq<char>>) -> Seq<Seq<char>> {
    match resume {
        Some(_) => Seq::empty(),
        None => seq!["--cd"@, cwd],
    }
}

/// The command and its own arguments.
pub open spec fn exec_args(resume: Option<Seq<char>>, allow_non_git: bool) -> Seq<Seq<char>> {
    seq!["exec"@] + (if allow_non_git {
        seq!["--skip-git-repo-check"@]
    } else {
        Seq::empty()
    }) + (match resume {
        Some(thread) => seq!["resume"@, "--json"@, thread, "-"@],
        None => seq!["--json"@, "--color"@, "never"@, "-"@],
    })
}

/// The arguments with which Codex is started.
pub open spec fn child_args(
    cwd: Seq<char>,
    resume: Option<Seq<char>>,
    allow_non_git: bool,
    profile: ProfileView,
) -> Seq<Seq<char>> {
    approval_args(profile.approval) + web_args() + model_args(profile) + folder_args(cwd, resume)
        + exec_args(resume, allow_non_git)
}

/// The arguments with which Codex is started. Both modes are started alike.
#[verifier::spinoff_prover]
#[verifier::rlimit(60)]
pub fn codex_child_args(
    cwd: &str,
    mode: CodexLaunchMode,
    resume_thread: Option<&str>,
    allow_non_git: bool,
    execution_profile: &AgentExecutionProfile,
) -> (r: Vec<String>)
    ensures
        texts_of(r@) == child_args(cwd@, str_of(resume_thread), allow_non_git, execution_profile@),
{
    let ghost profile = execution_profile@;
    let mut args: Vec<String> = match execution_profile.approval {
        AgentApprovalPreset::Ask => text_list(
            [
                "--sandbox",
                "workspace-write",
                "--ask-for-approval",
                "on-request",
                "--config",
                "sandbox_workspace_write.network_access=true",
            ],
        ),
        AgentApprovalPreset::ApproveForMe => text_list(
            [
                "--sandbox",
                "workspace-write",
                "--ask-for-approval",
                "never",
                "--config",
                "sandbox_workspace_write.network_access=true",
            ],
        ),
        AgentApprovalPreset::FullAccess => text_list(["--dangerously-bypass-approvals-and-sandbox"]),
    };
    assert(texts_of(args@) =~= approval_args(profile.approval));
    let web = text_list(["--config", "web_search=\"live\"", "--config", "tools.web_search=true"]);
    assert(texts_of(web@) =~= web_args());
    append_texts(&mut args, web);
    let ghost start = texts_of(args@);
    if let Some(model) = &execution_profile.model {
        let more = text_list(["--model", model.as_str()]);
        assert(texts_of(more@) =~= seq!["--model"@, model@]);
        append_texts(&mut args, more);
    }
    if let Some(effort) = &execution_profile.reasoning_effort {
        let mut setting = "model_reasoning_effort=\"".to_owned();
        setting.append(effort.as_str());
        setting.append("\"");
        let more = text_list(["--config", setting.as_str()]);
        assert(texts_of(more@) =~= seq![
            "--config"@,
            "model_reasoning_effort=\""@ + effort@ + "\""@,
        ]);
        append_texts(&mut args, more);
    }
    assert(texts_of(args@) =~= start + model_args(profile));
    let ghost with_model = texts_of(args@);
    if resume_thread.is_none() {
        let more = text_list(["--cd", cwd]);
        assert(texts_of(more@) =~= seq!["--cd"@, cwd@]);
        append_texts(&mut args, more);
    }
    assert(texts_of(args@) =~= with_model + folder_args(cwd@, str_of(resume_thread)));
    let ghost with_folder = texts_of(args@);
    let exec = text_list(["exec"]);
    assert(texts_of(exec@) =~= seq!["exec"@]);
    append_texts(&mut args, exec);
    if allow_non_git {
        let more = text_list(["--skip-git-repo-check"]);
        assert(texts_of(more@) =~= seq!["--skip-git-repo-check"@]);
        append_texts(&mut args, more);
    }
    let tail = match resume_thread {
        Some(thread) => {
            let tail = text_list(["resume", "--json", thread, "-"]);
            assert(texts_of(tail@) =~= seq!["resume"@, "--json"@, thread@, "-"@]);
            tail
        },
        None => match mode {
            CodexLaunchMode::Exec | CodexLaunchMode::InteractiveTui => {
                let tail = text_list(["--json", "--color", "never", "-"]);
                assert(texts_of(tail@) =~= seq!["--json"@, "--color"@, "never"@, "-"@]);
                tail
            },
        },
    };
    append_texts(&mut args, tail);
    assert(texts_of(args@) =~= with_folder + exec_args(str_of(resume_thread), allow_non_git));
    args
}

/// Whatever an agent is asked to do, it has access to the web, and an agent that
/// asks or is asked for works in the sandbox of its workspace.
pub proof fn lemma_web_access_is_always_on(
    cwd: Seq<char>,
    resume: Option<Seq<char>>,
    allow_non_git: bool,
    profile: ProfileView,
)
    ensures
        child_args(cwd, resume, allow_non_git, profile).contains("web_search=\"live\""@),
        child_args(cwd, resume, allow_non_git, profile).contains("tools.web_search=true"@),
        profile.approval != AgentApprovalPreset::FullAccess ==> child_args(
            cwd,
            resume,
            allow_non_git,
            profile,
        ).take(2) == seq!["--sandbox"@, "workspace-write"@],
{
    let args = child_args(cwd, resume, allow_non_git, profile);
    let first = approval_args(profile.approval);
    assert(args[first.len() as int + 1] == "web_search=\"live\""@);
    assert(args[first.len() as int + 3] == "tools.web_search=true"@);
    if profile.approval != AgentApprovalPreset::FullAccess {
        assert(args[0] == first[0]);
        assert(args[1] == first[1]);
        assert(args.take(2) =~= seq!["--sandbox"@, "workspace-write"@]);
    }
}

// ---- what a command printed ----

/// What a command that has ended printed.
#[derive(Debug)]
pub struct CommandOutput {
    pub success: bool,
    /// How its end is shown.
    pub status: String,
    pub stdout: Vec<u8>,
    pub stderr: Vec<u8>,
}

/// What was printed, without blank ends.
pub open spec fn printed(bytes: Seq<u8>) -> Seq<char> {
    trimmed(lossy_text(bytes))
}

/// What was printed, without blank ends.
fn printed_text(bytes: &Vec<u8>) -> (r: String)
    ensures
        r@ == printed(bytes@),
{
    let text = text_lossy(bytes);
    trim(text.as_str())
}

/// The text of a command that succeeded: what it printed, and after it what it
/// printed as an error.
pub open spec fn text_printed(output: Option<CommandOutput>) -> Option<Seq<char>> {
    match output {
        Some(output) if output.success => {
            let out = printed(output.stdout@);
            let err = printed(output.stderr@);
            Some(
                if out.len() > 0 && err.len() > 0 {
                    out + "\n"@ + err
                } else {
                    out + err
                },
            )
        },
        _ => None,
    }
}

/// What is known of a command that was run, or was not.
pub open spec fn output_of(output: Option<&CommandOutput>) -> Option<CommandOutput> {
    match output {
        Some(output) => Some(*output),
        None => None,
    }
}

/// The text of a command that succeeded.
pub fn command_text(output: Option<&CommandOutput>) -> (r: Option<String>)
    ensures
        text_of(r) == text_printed(output_of(output)),
{
    let output = match output {
        Some(output) => output,
        None => {
            return None;
        },
    };
    if !output.success {
        return None;
    }
    let mut out = printed_text(&output.stdout);
    let err = printed_text(&output.stderr);
    let ghost first = out@;
    let ghost second = err@;
    if !crate::text::same_text(out.as_str(), "") && !crate::text::same_text(err.as_str(), "") {
        out.append("\n");
    }
    out.append(err.as_str());
    proof {
        reveal_strlit("");
        assert(first.len() == 0 ==> first =~= ""@);
        assert(second.len() == 0 ==> second =~= ""@);
    }
    Some(out)
}

/// What is told of a command that failed.
pub open spec fn detail_of(output: CommandOutput) -> Seq<char> {
    if printed(output.stderr@).len() > 0 {
        printed(output.stderr@)
    } else if printed(output.stdout@).len() > 0 {
        printed(output.stdout@)
    } else {
        "Codex exited with "@ + output.status@
    }
}

/// What is told of a command that failed.
pub fn command_output_detail(output: &CommandOutput) -> (r: String)
    ensures
        r@ == detail_of(*output),
{
    let err = printed_text(&output.stderr);
    let out = printed_text(&output.stdout);
    proof {
        reveal_strlit("");
        assert(err@.len() == 0 ==> err@ =~= ""@);
        assert(out@.len() == 0 ==> out@ =~= ""@);
    }
    if !crate::text::same_text(err.as_str(), "") {
        err
    } else if !crate::text::same_text(out.as_str(), "") {
        out
    } else {
        let mut text = "Codex exited with ".to_owned();
        text.append(output.status.as_str());
        text
    }
}

/// The version that an executable reports.
pub open spec fn version_of(output: Option<CommandOutput>) -> Option<Seq<char>> {
    match output {
        Some(output) if output.success && printed(output.stdout@).len() > 0 => Some(
            printed(output.stdout@),
        ),
        _ => None,
    }
}

/// The version that an executable reports.
pub fn executable_version(output: Option<&CommandOutput>) -> (r: Option<String>)
    ensures
        text_of(r) == version_of(output_of(output)),
{
    let output = match output {
        Some(output) => output,
        None => {
            return None;
        },
    };
    if !output.success {
        return None;
    }
    let version = printed_text(&output.stdout);
    proof {
        reveal_strlit("");
        assert(version@.len() == 0 ==> version@ =~= ""@);
    }
    if crate::text::same_text(version.as_str(), "") {
        None
    } else {
        Some(version)
    }
}

// ---- trial launches ----

/// A launch that is tried without work.
#[derive(Debug)]
pub struct LaunchProbe {
    pub label: String,
    pub args: Vec<String>,
}

/// What a launch that was tried led to.
#[derive(Debug)]
pub struct LaunchResult {
    pub label: String,
    pub refusal: Option<String>,
}

/// Launches that are tried, as texts.
pub open spec fn probes_view(list: Seq<LaunchProbe>) -> Seq<(Seq<char>, Seq<Seq<char>>)> {
    list.map_values(|probe: LaunchProbe| (probe.label@, texts_of(probe.args@)))
}

/// The launches that are tried.
pub open spec fn launches_tried() -> Seq<(Seq<char>, Seq<Seq<char>>)> {
    seq![
        (
            "automatic workspace launch"@,
            seq![
                "--sandbox"@,
                "workspace-write"@,
                "--ask-for-approval"@,
                "never"@,
                "--config"@,
                "sandbox_workspace_write.network_access=true"@,
                "--config"@,
                "web_search=\"live\""@,
                "--config"@,
                "tools.web_search=true"@,
                "exec"@,
                "--help"@,
            ],
        ),
        (
            "approval-based resumed launch"@,
            seq![
                "--sandbox"@,
                "workspace-write"@,
                "--ask-for-approval"@,
                "on-request"@,
                "exec"@,
                "resume"@,
                "--help"@,
            ],
        ),
        (
            "full-access launch"@,
            seq!["--dangerously-bypass-approvals-and-sandbox"@, "exec"@, "--help"@],
        ),
    ]
}

/// The launches that are tried.
pub fn launch_probes() -> (r: Vec<LaunchProbe>)
    ensures
        probes_view(r@) == launches_tried(),
{
    let automatic = text_list(
        [
            "--sandbox",
            "workspace-write",
            "--ask-for-approval",
            "never",
            "--config",
            "sandbox_workspace_write.network_access=true",
            "--config",
            "web_search=\"live\"",
            "--config",
            "tools.web_search=true",
            "exec",
            "--help",
        ],
    );
    assert(texts_of(automatic@) =~= launches_tried()[0].1);
    let resumed = text_list(
        [
            "--sandbox",
            "workspace-write",
            "--ask-for-approval",
            "on-request",
            "exec",
            "resume",
            "--help",
        ],
    );
    assert(texts_of(resumed@) =~= launches_tried()[1].1);
    let full = text_list(["--dangerously-bypass-approvals-and-sandbox", "exec", "--help"]);
    assert(texts_of(full@) =~= launches_tried()[2].1);
    let mut list: Vec<LaunchProbe> = Vec::new();
    list.push(LaunchProbe { label: "automatic workspace launch".to_owned(), args: automatic });
    list.push(LaunchProbe { label: "approval-based resumed launch".to_owned(), args: resumed });
    list.push(LaunchProbe { label: "full-access launch".to_owned(), args: full });
    assert(probes_view(list@) =~= launches_tried());
    list
}

/// Why a launch that was tried was refused.
pub open spec fn probe_refusal(args: Seq<Seq<char>>, output: Option<CommandOutput>) -> Option<Seq<char>> {
    match output {
        None => Some("`codex "@ + glued(args, " "@) + "` did not complete"@),
        Some(output) => if output.success {
            None
        } else {
            Some("`codex "@ + glued(args, " "@) + "` failed: "@ + detail_of(output))
        },
    }
}

/// What a launch that was tried led to.
pub fn codex_argument_probe(probe: &LaunchProbe, output: Option<&CommandOutput>) -> (r: LaunchResult)
    ensures
        r.label@ == probe.label@,
        text_of(r.refusal) == probe_refusal(texts_of(probe.args@), output_of(output)),
{
    let refusal = match output {
        None => {
            let mut text = "`codex ".to_owned();
            text.append(glue_texts(&probe.args, " ").as_str());
            text.append("` did not complete");
            Some(text)
        },
        Some(output) => if output.success {
            None
        } else {
            let mut text = "`codex ".to_owned();
            text.append(glue_texts(&probe.args, " ").as_str());
            text.append("` failed: ");
            text.append(command_output_detail(output).as_str());
            Some(text)
        },
    };
    LaunchResult { label: probe.label.clone(), refusal }
}

// ---- readiness ----

/// What an installation answered.
#[derive(Debug)]
pub struct CodexAnswers {
    pub version: Option<String>,
    pub root_help: Option<String>,
    pub exec_help: Option<String>,
    pub resume_help: Option<String>,
    pub launches: Vec<LaunchResult>,
    pub authenticated: bool,
}

/// Whether an installation can be worked with.
#[derive(Debug)]
pub struct CodexReadiness {
    pub path: Option<String>,
    pub version: Option<String>,
    pub compatible: bool,
    pub authenticated: bool,
    pub update_supported: bool,
    pub doctor_supported: bool,
    pub issues: Vec<String>,
    pub diagnostics: Option<String>,
}

/// The mathematical value of a readiness.
pub struct ReadinessView {
    pub path: Option<Seq<char>>,
    pub version: Option<Seq<char>>,
    pub compatible: bool,
    pub authenticated: bool,
    pub update_supported: bool,
    pub doctor_supported: bool,
    pub issues: Seq<Seq<char>>,
    pub diagnostics: Option<Seq<char>>,
}

impl View for CodexReadiness {
    type V = ReadinessView;

    open spec fn view(&self) -> ReadinessView {
        ReadinessView {
            path: text_of(self.path),
            version: text_of(self.version),
            compatible: self.compatible,
            authenticated: self.authenticated,
            update_supported: self.update_supported,
            doctor_supported: self.doctor_supported,
            issues: texts_of(self.issues@),
            diagnostics: text_of(self.diagnostics),
        }
    }
}

/// The options that Codex itself must have.
pub open spec fn global_flags() -> Seq<Seq<char>> {
    seq![
        "--ask-for-approval"@,
        "--sandbox"@,
        "--cd"@,
        "--model"@,
        "--config"@,
        "--dangerously-bypass-approvals-and-sandbox"@,
    ]
}

/// The options that `codex exec` must have.
pub open spec fn exec_flags() -> Seq<Seq<char>> {
    seq!["--json"@, "--color"@, "--skip-git-repo-check"@]
}

/// That a help text does not mention an option.
pub open spec fn lacks(help: Seq<char>) -> spec_fn(Seq<char>) -> bool {
    |flag: Seq<char>| !has_part(help, flag)
}

/// What is wrong with a help text: a list of one, or none.
pub open spec fn help_issues(
    help: Option<Seq<char>>,
    flags: Seq<Seq<char>>,
    missing: Seq<char>,
    absent: Seq<char>,
) -> Seq<Seq<char>> {
    match help {
        None => seq![absent],
        Some(help) => if flags.filter(lacks(help)).len() == 0 {
            Seq::empty()
        } else {
            seq![missing + glued(flags.filter(lacks(help)), ", "@) + "."@]
        },
    }
}

/// What is wrong with launches that were tried.
pub open spec fn launch_issues(launches: Seq<LaunchResult>) -> Seq<Seq<char>>
    decreases launches.len(),
{
    if launches.len() == 0 {
        Seq::empty()
    } else {
        let before = launch_issues(launches.drop_last());
        match launches.last().refusal {
            Some(detail) => before.push(
                "Codex rejected Ditch's "@ + launches.last().label@ + ": "@ + detail@,
            ),
            None => before,
        }
    }
}

/// A list of one where a condition holds, else of none.
pub open spec fn issue_if(wrong: bool, issue: Seq<char>) -> Seq<Seq<char>> {
    if wrong {
        seq![issue]
    } else {
        Seq::empty()
    }
}

/// Whether a help text is there and mentions something.
pub open spec fn mentions(help: Option<Seq<char>>, what: Seq<char>) -> bool {
    match help {
        Some(help) => has_part(help, what),
        None => false,
    }
}

/// What is wrong with an installation.
pub open spec fn issues_of(answers: CodexAnswers) -> Seq<Seq<char>> {
    issue_if(
        answers.version is None,
        "The selected executable did not report a Codex version."@,
    ) + help_issues(
        text_of(answers.root_help),
        global_flags(),
        "This Codex CLI is missing required global options: "@,
        "The selected Codex CLI does not provide command help."@,
    ) + help_issues(
        text_of(answers.exec_help),
        exec_flags(),
        "This Codex CLI is missing required exec options: "@,
        "The selected Codex CLI does not provide `codex exec`."@,
    ) + issue_if(
        answers.resume_help is None,
        "The selected Codex CLI does not support resumable exec sessions."@,
    ) + launch_issues(answers.launches@) + issue_if(
        !mentions(text_of(answers.root_help), "app-server"@),
        "The selected Codex CLI cannot provide the model catalog required by Ditch."@,
    ) + issue_if(!answers.authenticated, "Codex is not signed in for this user."@)
}

/// That all that is wrong is that nobody is signed in.
pub open spec fn only_signed_out(issues: Seq<Seq<char>>) -> bool {
    forall|i: int| 0 <= i < issues.len() ==> has_part(#[trigger] issues[i], "not signed in"@)
}

/// Whether Codex is to be asked for its own diagnosis.
pub open spec fn wants_doctor(answers: CodexAnswers) -> bool {
    mentions(text_of(answers.root_help), "doctor"@) && answers.authenticated
}

/// Whether an installation can be worked with.
pub open spec fn readiness_of(path: Seq<char>, answers: CodexAnswers, doctor: Option<Seq<char>>) -> ReadinessView {
    let issues = issues_of(answers);
    ReadinessView {
        path: Some(path),
        version: text_of(answers.version),
        compatible: answers.version is Some && answers.exec_help is Some && answers.resume_help is Some
            && only_signed_out(issues),
        authenticated: answers.authenticated,
        update_supported: mentions(text_of(answers.root_help), "update"@),
        doctor_supported: mentions(text_of(answers.root_help), "doctor"@),
        issues,
        diagnostics: if wants_doctor(answers) {
            Some(
                match doctor {
                    Some(text) => text,
                    None => "Codex diagnostics could not be completed."@,
                },
            )
        } else {
            None
        },
    }
}

/// The readiness where no installation was found.
pub fn no_codex() -> (r: CodexReadiness)
    ensures
        r@ == (ReadinessView {
            path: None,
            version: None,
            compatible: false,
            authenticated: false,
            update_supported: false,
            doctor_supported: false,
            issues: seq![
                "Codex CLI was not found. Install Codex for this macOS user, then check again."@,
            ],
            diagnostics: None,
        }),
{
    let issues = text_list(
        ["Codex CLI was not found. Install Codex for this macOS user, then check again."],
    );
    assert(texts_of(issues@) =~= seq![
        "Codex CLI was not found. Install Codex for this macOS user, then check again."@,
    ]);
    CodexReadiness {
        path: None,
        version: None,
        compatible: false,
        authenticated: false,
        update_supported: false,
        doctor_supported: false,
        issues,
        diagnostics: None,
    }
}

/// Whether a help text is there and mentions something.
fn help_mentions(help: &Option<String>, what: &str) -> (r: bool)
    ensures
        r == mentions(text_of(*help), what@),
{
    match help {
        Some(help) => contains(help.as_str(), what),
        None => false,
    }
}

/// Appends what is wrong with a help text.
fn note_help(issues: &mut Vec<String>, help: &Option<String>, flags: Vec<String>, missing: &str, absent: &str)
    ensures
        texts_of(final(issues)@) == texts_of(old(issues)@) + help_issues(
            text_of(*help),
            texts_of(flags@),
            missing@,
            absent@,
        ),
{
    let ghost before = texts_of(issues@);
    let help = match help {
        Some(help) => help,
        None => {
            issues.push(absent.to_owned());
            assert(texts_of(issues@) =~= before + seq![absent@]);
            return ;
        },
    };
    let ghost wanted = texts_of(flags@);
    let mut lacking: Vec<String> = Vec::new();
    let mut i: usize = 0;
    proof {
        reveal(Seq::filter);
        assert(wanted.take(0) =~= Seq::empty());
        assert(texts_of(lacking@) =~= Seq::empty());
    }
    while i < flags.len()
        invariant
            0 <= i <= flags.len(),
            wanted == texts_of(flags@),
            texts_of(lacking@) == wanted.take(i as int).filter(lacks(help@)),
        decreases flags.len() - i,
    {
        proof {
            reveal(Seq::filter);
            assert(wanted.take(i + 1).drop_last() =~= wanted.take(i as int));
            assert(wanted.take(i + 1).last() == flags@[i as int]@);
        }
        let ghost so_far = texts_of(lacking@);
        if !contains(help.as_str(), flags[i].as_str()) {
            lacking.push(flags[i].clone());
            assert(texts_of(lacking@) =~= so_far.push(flags@[i as int]@));
        }
        i += 1;
    }
    assert(wanted.take(wanted.len() as int) =~= wanted);
    if lacking.len() > 0 {
        let mut issue = missing.to_owned();
        issue.append(glue_texts(&lacking, ", ").as_str());
        issue.append(".");
        issues.push(issue);
        assert(texts_of(issues@) =~= before + seq![issue@]);
    } else {
        assert(texts_of(issues@) =~= before + Seq::empty());
    }
}

/// Appends what is wrong with launches that were tried.
fn note_launches(issues: &mut Vec<String>, launches: &Vec<LaunchResult>)
    ensures
        texts_of(final(issues)@) == texts_of(old(issues)@) + launch_issues(launches@),
{
    let ghost before = texts_of(issues@);
    let mut i: usize = 0;
    proof {
        assert(launches@.take(0) =~= Seq::empty());
        assert(before =~= before + Seq::empty());
    }
    while i < launches.len()
        invariant
            0 <= i <= launches.len(),
            texts_of(issues@) == before + launch_issues(launches@.take(i as int)),
        decreases launches.len() - i,
    {
        let ghost so_far = texts_of(issues@);
        assert(launches@.take(i + 1).drop_last() =~= launches@.take(i as int));
        if let Some(detail) = &launches[i].refusal {
            let mut issue = "Codex rejected Ditch's ".to_owned();
            issue.append(launches[i].label.as_str());
            issue.append(": ");
            issue.append(detail.as_str());
            issues.push(issue);
            assert(texts_of(issues@) =~= so_far.push(issue@));
        }
        i += 1;
        assert(texts_of(issues@) =~= before + launch_issues(launches@.take(i as int)));
    }
    assert(launches@.take(launches@.len() as int) =~= launches@);
}

/// Appends an issue where a condition holds.
fn note_if(issues: &mut Vec<String>, wrong: bool, issue: &str)
    ensures
        texts_of(final(issues)@) == texts_of(old(issues)@) + issue_if(wrong, issue@),
{
    let ghost before = texts_of(issues@);
    if wrong {
        issues.push(issue.to_owned());
    }
    assert(texts_of(issues@) =~= before + issue_if(wrong, issue@));
}

/// Whether all that is wrong is that nobody is signed in.
fn merely_signed_out(issues: &Vec<String>) -> (r: bool)
    ensures
        r == only_signed_out(texts_of(issues@)),
{
    let ghost list = texts_of(issues@);
    let mut i: usize = 0;
    while i < issues.len()
        invariant
            0 <= i <= issues.len(),
            list == texts_of(issues@),
            forall|k: int| 0 <= k < i ==> has_part(#[trigger] list[k], "not signed in"@),
        decreases issues.len() - i,
    {
        assert(list[i as int] == issues@[i as int]@);
        if !contains(issues[i].as_str(), "not signed in") {
            return false;
        }
        i += 1;
    }
    true
}

/// Whether Codex is to be asked for its own diagnosis.
pub fn asks_doctor(answers: &CodexAnswers) -> (r: bool)
    ensures
        r == wants_doctor(*answers),
{
    help_mentions(&answers.root_help, "doctor") && answers.authenticated
}

/// Whether an installation can be worked with. What its own diagnosis printed is
/// told where it was to be asked.
pub fn check_codex_readiness(binary: &str, answers: &CodexAnswers, doctor: &Option<String>) -> (r:
    CodexReadiness)
    ensures
        r@ == readiness_of(binary@, *answers, text_of(*doctor)),
{
    let mut issues: Vec<String> = Vec::new();
    assert(texts_of(issues@) =~= Seq::empty());
    note_if(
        &mut issues,
        answers.version.is_none(),
        "The selected executable did not report a Codex version.",
    );
    let flags = text_list(
        [
            "--ask-for-approval",
            "--sandbox",
            "--cd",
            "--model",
            "--config",
            "--dangerously-bypass-approvals-and-sandbox",
        ],
    );
    assert(texts_of(flags@) =~= global_flags());
    note_help(
        &mut issues,
        &answers.root_help,
        flags,
        "This Codex CLI is missing required global options: ",
        "The selected Codex CLI does not provide command help.",
    );
    let flags = text_list(["--json", "--color", "--skip-git-repo-check"]);
    assert(texts_of(flags@) =~= exec_flags());
    note_help(
        &mut issues,
        &answers.exec_help,
        flags,
        "This Codex CLI is missing required exec options: ",
        "The selected Codex CLI does not provide `codex exec`.",
    );
    note_if(
        &mut issues,
        answers.resume_help.is_none(),
        "The selected Codex CLI does not support resumable exec sessions.",
    );
    note_launches(&mut issues, &answers.launches);
    note_if(
        &mut issues,
        !help_mentions(&answers.root_help, "app-server"),
        "The selected Codex CLI cannot provide the model catalog required by Ditch.",
    );
    note_if(&mut issues, !answers.authenticated, "Codex is not signed in for this user.");
    assert(texts_of(issues@) =~= issues_of(*answers));
    let compatible = answers.version.is_some() && answers.exec_help.is_some()
        && answers.resume_help.is_some() && merely_signed_out(&issues);
    let diagnostics = if asks_doctor(answers) {
        match doctor {
            Some(text) => Some(text.clone()),
            None => Some("Codex diagnostics could not be completed.".to_owned()),
        }
    } else {
        None
    };
    CodexReadiness {
        path: Some(binary.to_owned()),
        version: copy_text(&answers.version),
        compatible,
        authenticated: answers.authenticated,
        update_supported: help_mentions(&answers.root_help, "update"),
        doctor_supported: help_mentions(&answers.root_help, "doctor"),
        issues,
        diagnostics,
    }
}

/// That no blank of a text follows a `t`.
spec fn keeps_t_apart(text: Seq<char>) -> bool {
    forall|k: int| 0 < k < text.len() && #[trigger] text[k] == ' ' ==> text[k - 1] != 't'
}

/// That a text is not empty and has no blank.
spec fn is_word(text: Seq<char>) -> bool {
    text.len() > 0 && forall|k: int| 0 <= k < text.len() ==> #[trigger] text[k] != ' '
}

proof fn lemma_not_signed_in(text: Seq<char>)
    requires
        forall|k: int|
            2 <= k < text.len() && #[trigger] text[k] == 's' && text[k - 1] == ' ' ==> text[k - 2]
                != 't',
    ensures
        !has_part(text, "not signed in"@),
{
    reveal_strlit("not signed in");
    if has_part(text, "not signed in"@) {
        let at = choose|at: int| crate::text::stands_at(text, "not signed in"@, at);
        let part = text.subrange(at, at + "not signed in"@.len());
        assert(part[2] == 't' && part[3] == ' ' && part[4] == 's');
        assert(text[at + 2] == 't' && text[at + 3] == ' ' && text[at + 4] == 's');
        assert(text[at + 4 - 1] == ' ' && text[at + 4 - 2] == 't');
        assert(false);
    }
}

proof fn lemma_words_of(flags: Seq<Seq<char>>, keep: spec_fn(Seq<char>) -> bool)
    requires
        forall|i: int| 0 <= i < flags.len() ==> is_word(#[trigger] flags[i]),
    ensures
        forall|i: int| 0 <= i < flags.filter(keep).len() ==> is_word(#[trigger] flags.filter(keep)[i]),
    decreases flags.len(),
{
    reveal(Seq::filter);
    if flags.len() > 0 {
        let shorter = flags.drop_last();
        assert forall|i: int| 0 <= i < shorter.len() implies is_word(#[trigger] shorter[i]) by {
            assert(shorter[i] == flags[i]);
        }
        lemma_words_of(shorter, keep);
        assert(is_word(flags[flags.len() - 1]));
        let kept = flags.filter(keep);
        assert forall|i: int| 0 <= i < kept.len() implies is_word(#[trigger] kept[i]) by {
            if i < shorter.filter(keep).len() {
                assert(kept[i] == shorter.filter(keep)[i]);
            }
        }
    }
}

proof fn lemma_glued_words(parts: Seq<Seq<char>>)
    requires
        forall|i: int| 0 <= i < parts.len() ==> is_word(#[trigger] parts[i]),
    ensures
        keeps_t_apart(glued(parts, ", "@)),
        parts.len() > 0 ==> glued(parts, ", "@).len() > 0 && glued(parts, ", "@)[0] != ' ',
    decreases parts.len(),
{
    reveal_strlit(", ");
    if parts.len() > 0 {
        let shorter = parts.drop_last();
        assert forall|i: int| 0 <= i < shorter.len() implies is_word(#[trigger] shorter[i]) by {
            assert(shorter[i] == parts[i]);
        }
        lemma_glued_words(shorter);
        assert(is_word(parts[parts.len() - 1]));
        let whole = glued(parts, ", "@);
        let last = parts.last();
        if parts.len() == 1 {
            assert(whole =~= last);
        } else {
            let start = glued(shorter, ", "@);
            assert(whole =~= start + ", "@ + last);
            assert forall|k: int| 0 < k < whole.len() && #[trigger] whole[k] == ' ' implies whole[k - 1]
                != 't' by {
                if k < start.len() {
                    assert(start[k] == whole[k]);
                } else if k >= start.len() + 2 {
                    assert(last[k - start.len() - 2] == whole[k]);
                }
            }
        }
    }
}

proof fn lemma_missing_is_wrong(start: Seq<char>, flags: Seq<Seq<char>>, help: Seq<char>)
    requires
        forall|i: int| 0 <= i < flags.len() ==> is_word(#[trigger] flags[i]),
        keeps_t_apart(start),
        start.len() > 0 && start.last() == ' ',
    ensures
        flags.filter(lacks(help)).len() > 0 ==> !has_part(
            start + glued(flags.filter(lacks(help)), ", "@) + "."@,
            "not signed in"@,
        ),
        flags.filter(lacks(help)).len() == 0 ==> forall|i: int|
            0 <= i < flags.len() ==> has_part(help, #[trigger] flags[i]),
{
    let lacking = flags.filter(lacks(help));
    reveal_strlit(".");
    if lacking.len() > 0 {
        lemma_words_of(flags, lacks(help));
        lemma_glued_words(lacking);
        let list = glued(lacking, ", "@);
        let issue = start + list + "."@;
        assert forall|k: int| 2 <= k < issue.len() && #[trigger] issue[k] == 's' && issue[k - 1]
            == ' ' implies issue[k - 2] != 't' by {
            let gap = k - 1;
            if gap < start.len() {
                assert(start[gap] == ' ');
            } else if gap < start.len() + list.len() {
                assert(list[gap - start.len()] == ' ');
            }
        }
        lemma_not_signed_in(issue);
    } else {
        assert forall|i: int| 0 <= i < flags.len() implies has_part(help, #[trigger] flags[i]) by {
            if !has_part(help, flags[i]) {
                flags.lemma_filter_contains(lacks(help), i);
            }
        }
    }
}

proof fn lemma_flags_are_words()
    ensures
        forall|i: int| 0 <= i < global_flags().len() ==> is_word(#[trigger] global_flags()[i]),
        forall|i: int| 0 <= i < exec_flags().len() ==> is_word(#[trigger] exec_flags()[i]),
{
    reveal_strlit("--ask-for-approval");
    reveal_strlit("--sandbox");
    reveal_strlit("--cd");
    reveal_strlit("--model");
    reveal_strlit("--config");
    reveal_strlit("--dangerously-bypass-approvals-and-sandbox");
    reveal_strlit("--json");
    reveal_strlit("--color");
    reveal_strlit("--skip-git-repo-check");
}

proof fn lemma_openings()
    ensures
        keeps_t_apart("This Codex CLI is missing required global options: "@),
        "This Codex CLI is missing required global options: "@.last() == ' ',
        keeps_t_apart("This Codex CLI is missing required exec options: "@),
        "This Codex CLI is missing required exec options: "@.last() == ' ',
        "This Codex CLI is missing required global options: "@.len() > 0,
        "This Codex CLI is missing required exec options: "@.len() > 0,
        !has_part("The selected Codex CLI does not provide command help."@, "not signed in"@),
{
    reveal_strlit("This Codex CLI is missing required global options: ");
    reveal_strlit("This Codex CLI is missing required exec options: ");
    reveal_strlit("The selected Codex CLI does not provide command help.");
    lemma_not_signed_in("The selected Codex CLI does not provide command help."@);
}

/// An installation that can be worked with reports a version, and its help texts
/// mention every option that agents are launched with.
pub proof fn lemma_compatible_means_complete(path: Seq<char>, answers: CodexAnswers, doctor: Option<Seq<char>>)
    requires
        readiness_of(path, answers, doctor).compatible,
    ensures
        answers.version is Some,
        answers.root_help is Some,
        answers.exec_help is Some,
        answers.resume_help is Some,
        forall|i: int|
            0 <= i < global_flags().len() ==> has_part(
                answers.root_help->0@,
                #[trigger] global_flags()[i],
            ),
        forall|i: int|
            0 <= i < exec_flags().len() ==> has_part(
                answers.exec_help->0@,
                #[trigger] exec_flags()[i],
            ),
{
    let issues = issues_of(answers);
    let missing_global = "This Codex CLI is missing required global options: "@;
    let missing_exec = "This Codex CLI is missing required exec options: "@;
    lemma_flags_are_words();
    lemma_openings();
    if answers.root_help is None {
        assert(issues[0] == "The selected Codex CLI does not provide command help."@);
        assert(false);
    }
    let root = answers.root_help->0@;
    let exec = answers.exec_help->0@;
    lemma_missing_is_wrong(missing_global, global_flags(), root);
    lemma_missing_is_wrong(missing_exec, exec_flags(), exec);
    if global_flags().filter(lacks(root)).len() > 0 {
        assert(issues[0] == missing_global + glued(global_flags().filter(lacks(root)), ", "@) + "."@);
        assert(false);
    }
    if exec_flags().filter(lacks(exec)).len() > 0 {
        assert(issues[0] == missing_exec + glued(exec_flags().filter(lacks(exec)), ", "@) + "."@);
        assert(false);
    }
}

/// Why the selected installation is not updated.
pub fn update_refusal(readiness: Option<&CodexReadiness>) -> (r: Option<ProtocolError>)
    ensures
        match readiness {
            None => r matches Some(e) && e@ == error_of(
                "codex_not_found"@,
                "No working Codex CLI installation was found for this user"@,
            ),
            Some(readiness) => if readiness.update_supported {
                r is None
            } else {
                r matches Some(e) && e@ == error_of(
                    "codex_update_unsupported"@,
                    "This Codex installation does not support `codex update`. Ditch will not guess or alter its package manager."@,
                )
            },
        },
{
    match readiness {
        None => Some(
            protocol_error(
                "codex_not_found",
                "No working Codex CLI installation was found for this user",
            ),
        ),
        Some(readiness) => if readiness.update_supported {
            None
        } else {
            Some(
                protocol_error(
                    "codex_update_unsupported",
                    "This Codex installation does not support `codex update`. Ditch will not guess or alter its package manager.",
                ),
            )
        },
    }
}

/// Why an update that was tried failed.
pub fn update_failure(output: Option<&CommandOutput>) -> (r: Option<ProtocolError>)
    ensures
        match output {
            None => r matches Some(e) && e@ == error_of(
                "codex_update_failed"@,
                "Codex update did not finish within three minutes"@,
            ),
            Some(output) => if output.success {
                r is None
            } else {
                r matches Some(e) && e@ == error_of("codex_update_failed"@, detail_of(*output))
            },
        },
{
    match output {
        None => Some(
            protocol_error(
                "codex_update_failed",
                "Codex update did not finish within three minutes",
            ),
        ),
        Some(output) => if output.success {
            None
        } else {
            Some(
                protocol_error("codex_update_failed", command_output_detail(output).as_str()),
            )
        },
    }
}

/// Where the arguments name the command: everything for Codex itself stands before
/// that place.
pub open spec fn command_place(
    cwd: Seq<char>,
    resume: Option<Seq<char>>,
    allow_non_git: bool,
    profile: ProfileView,
) -> int {
    child_args(cwd, resume, allow_non_git, profile).len() - (if allow_non_git {
        6int
    } else {
        5int
    })
}

/// The command is `exec`, and behind it stands how it is to run: a thread that is
/// resumed is named, a new one is not, and the prompt is read from the input.
pub proof fn lemma_command_and_thread(
    cwd: Seq<char>,
    resume: Option<Seq<char>>,
    allow_non_git: bool,
    profile: ProfileView,
)
    ensures
        ({
            let args = child_args(cwd, resume, allow_non_git, profile);
            let at = command_place(cwd, resume, allow_non_git, profile);
            &&& 0 <= at < args.len()
            &&& args[at] == "exec"@
            &&& allow_non_git ==> args[at + 1] == "--skip-git-repo-check"@ && args.len() == at + 6
            &&& !allow_non_git ==> args.len() == at + 5
            &&& args.last() == "-"@
            &&& resume is Some ==> args[args.len() - 2] == resume->0 && args[args.len() - 3] == "--json"@
                && args[args.len() - 4] == "resume"@
            &&& resume is None ==> args[args.len() - 4] == "--json"@ && args[args.len() - 3] == "--color"@
                && args[args.len() - 2] == "never"@
            &&& resume is None ==> args[at - 2] == "--cd"@ && args[at - 1] == cwd
        }),
{
    let args = child_args(cwd, resume, allow_non_git, profile);
    let tail = exec_args(resume, allow_non_git);
    let front = approval_args(profile.approval) + web_args() + model_args(profile) + folder_args(cwd, resume);
    assert(args =~= front + tail);
    assert(tail.len() == (if allow_non_git {
        6int
    } else {
        5int
    }));
    assert forall|i: int| 0 <= i < tail.len() implies #[trigger] args[front.len() + i] == tail[i] by {}
    assert(args[front.len() + 0int] == tail[0]);
    if allow_non_git {
        assert(args[front.len() + 1int] == tail[1]);
    }
    assert(args[front.len() + (tail.len() - 1)] == tail.last());
    assert(args[front.len() + (tail.len() - 2)] == tail[tail.len() - 2]);
    assert(args[front.len() + (tail.len() - 3)] == tail[tail.len() - 3]);
    assert(args[front.len() + (tail.len() - 4)] == tail[tail.len() - 4]);
}

/// Whether or not a thread is resumed, a profile with a model has `--model` and
/// right behind it that model among the arguments before the command, and a
/// profile with a reasoning effort has `--config` and right behind it the setting
/// of that effort.
pub proof fn lemma_model_and_effort_are_passed(
    cwd: Seq<char>,
    resume: Option<Seq<char>>,
    allow_non_git: bool,
    profile: ProfileView,
)
    ensures
        profile.model is Some ==> exists|k: int|
            {
                &&& 0 <= k
                &&& k + 1 < command_place(cwd, resume, allow_non_git, profile)
                &&& #[trigger] child_args(cwd, resume, allow_non_git, profile)[k] == "--model"@
                &&& child_args(cwd, resume, allow_non_git, profile)[k + 1] == profile.model->0
            },
        profile.reasoning_effort is Some ==> exists|k: int|
            {
                &&& 0 <= k
                &&& k + 1 < command_place(cwd, resume, allow_non_git, profile)
                &&& #[trigger] child_args(cwd, resume, allow_non_git, profile)[k] == "--config"@
                &&& child_args(cwd, resume, allow_non_git, profile)[k + 1] == "model_reasoning_effort=\""@
                    + profile.reasoning_effort->0 + "\""@
            },
{
    let args = child_args(cwd, resume, allow_non_git, profile);
    let start = approval_args(profile.approval).len() + web_args().len();
    let own = model_args(profile);
    assert forall|i: int| 0 <= i < own.len() implies #[trigger] args[start + i] == own[i] by {}
    assert(exec_args(resume, allow_non_git).len() == (if allow_non_git {
        6int
    } else {
        5int
    }));
    if profile.model is Some {
        assert(args[start + 0int] == own[0]);
        assert(args[start + 1int] == own[1]);
        assert(args[start as int] == "--model"@);
    }
    if profile.reasoning_effort is Some {
        let at = own.len() - 2;
        assert(args[start + at] == own[at]);
        assert(args[start + (at + 1)] == own[at + 1]);
        assert(args[start + at] == "--config"@);
    }
}

/// Resuming a thread takes nothing from a profile: the arguments of a resumed
/// agent and those of a new one begin alike, up to the folder.
pub proof fn lemma_resumed_agents_keep_their_profile(
    cwd: Seq<char>,
    thread: Seq<char>,
    allow_non_git: bool,
    profile: ProfileView,
)
    ensures
        ({
            let fresh = child_args(cwd, None, allow_non_git, profile);
            let resumed = child_args(cwd, Some(thread), allow_non_git, profile);
            let at = command_place(cwd, Some(thread), allow_non_git, profile);
            resumed.take(at) == fresh.take(at)
        }),
{
    let fresh = child_args(cwd, None, allow_non_git, profile);
    let resumed = child_args(cwd, Some(thread), allow_non_git, profile);
    let at = command_place(cwd, Some(thread), allow_non_git, profile);
    assert(resumed.take(at) =~= fresh.take(at));
}

/// What each preset allows: the two that keep the sandbox differ in whether the
/// agent may ask, and only full access leaves the sandbox.
pub proof fn lemma_presets_are_kept(
    cwd: Seq<char>,
    resume: Option<Seq<char>>,
    allow_non_git: bool,
    profile: ProfileView,
)
    ensures
        ({
            let args = child_args(cwd, resume, allow_non_git, profile);
            &&& profile.approval == AgentApprovalPreset::Ask ==> args[0] == "--sandbox"@ && args[1]
                == "workspace-write"@ && args[2] == "--ask-for-approval"@ && args[3] == "on-request"@
            &&& profile.approval == AgentApprovalPreset::ApproveForMe ==> args[0] == "--sandbox"@ && args[1]
                == "workspace-write"@ && args[2] == "--ask-for-approval"@ && args[3] == "never"@
            &&& profile.approval != AgentApprovalPreset::FullAccess ==> args[4] == "--config"@ && args[5]
                == "sandbox_workspace_write.network_access=true"@
            &&& args[0] == "--dangerously-bypass-approvals-and-sandbox"@ <==> profile.approval
                == AgentApprovalPreset::FullAccess
        }),
{
    let args = child_args(cwd, resume, allow_non_git, profile);
    let first = approval_args(profile.approval);
    assert forall|i: int| 0 <= i < first.len() implies #[trigger] args[i] == first[i] by {}
    reveal_strlit("--sandbox");
    reveal_strlit("--dangerously-bypass-approvals-and-sandbox");
    assert("--sandbox"@.len() == 9);
    assert("--dangerously-bypass-approvals-and-sandbox"@.len() == 42);
}

/// A launch that was tried is refused exactly where its command did not succeed,
/// and a command that succeeded is never reported.
pub proof fn lemma_refused_launches_failed(args: Seq<Seq<char>>, output: Option<CommandOutput>)
    ensures
        probe_refusal(args, output) is None <==> (output is Some && output->0.success),
{
}

/// An installation to which somebody is signed in can be worked with exactly where
/// nothing at all is wrong with it.
pub proof fn lemma_nothing_wrong_is_compatible(path: Seq<char>, answers: CodexAnswers, doctor: Option<Seq<char>>)
    ensures
        issues_of(answers).len() == 0 ==> readiness_of(path, answers, doctor).compatible
            && answers.authenticated,
        answers.version is None ==> !readiness_of(path, answers, doctor).compatible,
        answers.exec_help is None ==> !readiness_of(path, answers, doctor).compatible,
        answers.resume_help is None ==> !readiness_of(path, answers, doctor).compatible,
        readiness_of(path, answers, doctor).path == Some(path),
        readiness_of(path, answers, doctor).authenticated == answers.authenticated,
        readiness_of(path, answers, doctor).diagnostics is Some ==> answers.authenticated,
        !answers.authenticated ==> readiness_of(path, answers, doctor).issues.last()
            == "Codex is not signed in for this user."@,
{
    let issues = issues_of(answers);
    if answers.version is None {
        assert(issues[0] == "The selected executable did not report a Codex version."@);
    }
    if answers.exec_help is None {
        let front = issue_if(
            answers.version is None,
            "The selected executable did not report a Codex version."@,
        ) + help_issues(
            text_of(answers.root_help),
            global_flags(),
            "This Codex CLI is missing required global options: "@,
            "The selected Codex CLI does not provide command help."@,
        );
        assert(issues[front.len() as int] == "The selected Codex CLI does not provide `codex exec`."@);
    }
}

/// What is tried on an installation is what agents are launched with: the same
/// sandbox and approvals, the same access to the web, and the same commands.
pub proof fn lemma_launches_are_tried_as_they_are_made()
    ensures
        launches_tried().len() == 3,
        launches_tried()[0].1 == approval_args(AgentApprovalPreset::ApproveForMe) + web_args() + seq![
            "exec"@,
            "--help"@,
        ],
        launches_tried()[1].1 == approval_args(AgentApprovalPreset::Ask).take(4) + seq![
            "exec"@,
            "resume"@,
            "--help"@,
        ],
        launches_tried()[2].1 == approval_args(AgentApprovalPreset::FullAccess) + seq!["exec"@, "--help"@],
{
    assert(launches_tried()[0].1 =~= approval_args(AgentApprovalPreset::ApproveForMe) + web_args() + seq![
        "exec"@,
        "--help"@,
    ]);
    assert(launches_tried()[1].1 =~= approval_args(AgentApprovalPreset::Ask).take(4) + seq![
        "exec"@,
        "resume"@,
        "--help"@,
    ]);
    assert(launches_tried()[2].1 =~= approval_args(AgentApprovalPreset::FullAccess) + seq![
        "exec"@,
        "--help"@,
    ]);
}

/// What a command printed is believed only where it succeeded. A version is what
/// it printed, where that is anything; a complaint comes before what else it
/// printed, and its status before nothing.
pub proof fn lemma_what_commands_print(output: CommandOutput)
    ensures
        version_of(None) is None,
        text_printed(None) is None,
        !output.success ==> version_of(Some(output)) is None && text_printed(Some(output)) is None,
        output.success ==> text_printed(Some(output)) is Some,
        version_of(Some(output)) matches Some(version) ==> version.len() > 0 && version == trimmed(
            lossy_text(output.stdout@),
        ),
        output.success && trimmed(lossy_text(output.stdout@)).len() > 0 ==> version_of(Some(output)) is Some,
        output.success && trimmed(lossy_text(output.stderr@)).len() == 0 ==> text_printed(Some(output)) == Some(
            trimmed(lossy_text(output.stdout@)),
        ),
        output.success && trimmed(lossy_text(output.stdout@)).len() == 0 ==> text_printed(Some(output)) == Some(
            trimmed(lossy_text(output.stderr@)),
        ),
        output.success && trimmed(lossy_text(output.stdout@)).len() > 0 && trimmed(
            lossy_text(output.stderr@),
        ).len() > 0 ==> text_printed(Some(output)) == Some(
            trimmed(lossy_text(output.stdout@)) + "\n"@ + trimmed(lossy_text(output.stderr@)),
        ),
        trimmed(lossy_text(output.stderr@)).len() > 0 ==> detail_of(output) == trimmed(
            lossy_text(output.stderr@),
        ),
        trimmed(lossy_text(output.stderr@)).len() == 0 && trimmed(lossy_text(output.stdout@)).len() > 0
            ==> detail_of(output) == trimmed(lossy_text(output.stdout@)),
        trimmed(lossy_text(output.stderr@)).len() == 0 && trimmed(lossy_text(output.stdout@)).len() == 0
            ==> detail_of(output) == "Codex exited with "@ + output.status@,
{
    let out = trimmed(lossy_text(output.stdout@));
    let err = trimmed(lossy_text(output.stderr@));
    if err.len() == 0 {
        assert(out + err =~= out);
    }
    if out.len() == 0 {
        assert(out + err =~= err);
    }
}

} // verus!
