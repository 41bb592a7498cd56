use ditchd::codex_cli::{
    asks_doctor, check_codex_readiness, codex_argument_probe, codex_child_args, command_output_detail,
    command_text, executable_version, launch_probes, no_codex, update_failure, update_refusal,
    CodexAnswers, CommandOutput, LaunchResult,
};
use ditchd::codex_models::{list_agent_models, model_requests, read_models, ModelLine};
use ditchd::codex_places::{
    binary_candidates, codex_candidates, codex_state_file, dependency_environment,
    effective_path_for_binary, keeps_codex_binary, login_shell_binary, login_shell_command,
    login_shell_path, mark_selected, reselect_codex, resolve_codex_binary, select_codex_binary,
    validate_codex_home, CodexPlaces, Discovery,
};
use ditchd::json::{parse_json, render_json};
use ditchd::model::{AgentApprovalPreset, AgentExecutionProfile, CodexLaunchMode};
use ditchd::requests::AgentProvider;

fn args(resume: Option<&str>, allow_non_git: bool, profile: &AgentExecutionProfile) -> Vec<String> {
    codex_child_args("/tmp/project", CodexLaunchMode::Exec, resume, allow_non_git, profile)
}

fn output(success: bool, stdout: &str, stderr: &str) -> CommandOutput {
    CommandOutput {
        success,
        status: "exit status: 2".to_owned(),
        stdout: stdout.as_bytes().to_vec(),
        stderr: stderr.as_bytes().to_vec(),
    }
}

#[test]
fn new_codex_session_disables_color_output() {
    assert_eq!(
        args(None, false, &AgentExecutionProfile::standard()),
        vec![
            "--sandbox",
            "workspace-write",
            "--ask-for-approval",
            "never",
            "--config",
            "sandbox_workspace_write.network_access=true",
            "--config",
            "web_search=\"live\"",
            "--config",
            "tools.web_search=true",
            "--cd",
            "/tmp/project",
            "exec",
            "--json",
            "--color",
            "never",
            "-"
        ]
    );
}

#[test]
fn resumed_codex_session_does_not_pass_color_flag() {
    let args = args(Some("thread-123"), false, &AgentExecutionProfile::standard());
    assert_eq!(
        args,
        vec![
            "--sandbox",
            "workspace-write",
            "--ask-for-approval",
            "never",
            "--config",
            "sandbox_workspace_write.network_access=true",
            "--config",
            "web_search=\"live\"",
            "--config",
            "tools.web_search=true",
            "exec",
            "resume",
            "--json",
            "thread-123",
            "-"
        ]
    );
    assert!(!args.iter().any(|arg| arg == "--color"));
}

#[test]
fn explicit_non_git_policy_adds_skip_check_to_new_and_resumed_sessions() {
    let fresh = args(None, true, &AgentExecutionProfile::standard());
    let resumed = args(Some("thread-123"), true, &AgentExecutionProfile::standard());
    assert_eq!(
        fresh[fresh.iter().position(|arg| arg == "exec").unwrap() + 1],
        "--skip-git-repo-check"
    );
    assert_eq!(
        resumed[resumed.iter().position(|arg| arg == "exec").unwrap() + 1],
        "--skip-git-repo-check"
    );
}

#[test]
fn codex_execution_profile_maps_approval_and_model_flags() {
    let ask = AgentExecutionProfile {
        model: Some("gpt-test".to_owned()),
        reasoning_effort: Some("high".to_owned()),
        approval: AgentApprovalPreset::Ask,
    };
    let ask_args = args(None, false, &ask);
    assert!(ask_args.windows(2).any(|args| args == ["--model", "gpt-test"]));
    assert!(ask_args.windows(2).any(|args| args == ["--sandbox", "workspace-write"]));
    assert!(ask_args.windows(2).any(|args| args == ["--ask-for-approval", "on-request"]));
    assert!(ask_args
        .windows(2)
        .any(|args| args == ["--config", "sandbox_workspace_write.network_access=true"]));
    assert!(ask_args.windows(2).any(|args| args == ["--config", "model_reasoning_effort=\"high\""]));
    for setting in ["web_search=\"live\"", "tools.web_search=true"] {
        assert!(ask_args.windows(2).any(|args| args == ["--config", setting]));
    }
    let ask_exec = ask_args.iter().position(|arg| arg == "exec").unwrap();
    for global in ["--ask-for-approval", "--sandbox", "--model", "--config"] {
        assert!(ask_args.iter().position(|arg| arg == global).unwrap() < ask_exec);
    }

    let full_access = AgentExecutionProfile {
        approval: AgentApprovalPreset::FullAccess,
        ..AgentExecutionProfile::standard()
    };
    let full_access_args = args(Some("thread-123"), false, &full_access);
    assert!(full_access_args
        .iter()
        .any(|arg| arg == "--dangerously-bypass-approvals-and-sandbox"));
    for setting in ["web_search=\"live\"", "tools.web_search=true"] {
        assert!(full_access_args.windows(2).any(|args| args == ["--config", setting]));
    }
    assert!(
        full_access_args
            .iter()
            .position(|arg| arg == "--dangerously-bypass-approvals-and-sandbox")
            .unwrap()
            < full_access_args.iter().position(|arg| arg == "exec").unwrap()
    );
    assert!(!full_access_args.iter().any(|arg| arg == "--approve-for-me"));
}

fn answers(root_help: &str, launches: Vec<LaunchResult>) -> CodexAnswers {
    CodexAnswers {
        version: executable_version(Some(&output(true, "codex-cli 1.2.3\n", ""))),
        root_help: command_text(Some(&output(true, root_help, ""))),
        exec_help: command_text(Some(&output(true, "--json --color --skip-git-repo-check\n", ""))),
        resume_help: command_text(Some(&output(true, "resume\n", ""))),
        launches,
        authenticated: true,
    }
}

#[test]
fn codex_readiness_checks_capabilities_and_authentication() {
    let help = "exec app-server doctor update login --ask-for-approval --sandbox --cd --model --config --dangerously-bypass-approvals-and-sandbox";
    let launches = launch_probes()
        .iter()
        .map(|probe| codex_argument_probe(probe, Some(&output(true, "accepted\n", ""))))
        .collect();
    let mut answers = answers(help, launches);
    assert!(asks_doctor(&answers));
    let readiness = check_codex_readiness("/opt/codex", &answers, &Some("{}".to_owned()));
    assert!(readiness.compatible);
    assert!(readiness.authenticated);
    assert!(readiness.update_supported);
    assert!(readiness.doctor_supported);
    assert!(readiness.issues.is_empty());
    assert_eq!(readiness.version.as_deref(), Some("codex-cli 1.2.3"));
    assert_eq!(readiness.diagnostics.as_deref(), Some("{}"));
    assert!(update_refusal(Some(&readiness)).is_none());

    answers.authenticated = false;
    let signed_out = check_codex_readiness("/opt/codex", &answers, &None);
    assert!(signed_out.compatible && !signed_out.authenticated);
    assert_eq!(signed_out.issues, ["Codex is not signed in for this user."]);
    assert_eq!(signed_out.diagnostics, None);
}

#[test]
fn codex_readiness_rejects_a_genuinely_incompatible_cli() {
    let launches = launch_probes()
        .iter()
        .map(|probe| codex_argument_probe(probe, Some(&output(false, "", "unexpected argument\n"))))
        .collect();
    let answers = answers("exec app-server login", launches);
    let readiness = check_codex_readiness("/opt/codex", &answers, &None);
    assert!(!readiness.compatible);
    assert!(readiness
        .issues
        .iter()
        .any(|issue| issue.contains("missing required global options")));
    assert!(readiness.issues.iter().any(|issue| issue.contains("unexpected argument")));
    assert_eq!(
        update_refusal(Some(&readiness)).unwrap().code,
        "codex_update_unsupported"
    );
}

#[test]
fn without_an_installation_nothing_is_ready() {
    let readiness = no_codex();
    assert!(!readiness.compatible);
    assert_eq!(readiness.issues.len(), 1);
    assert_eq!(update_refusal(None).unwrap().code, "codex_not_found");
}

#[test]
fn output_of_commands_is_told_in_order_of_worth() {
    assert_eq!(command_text(Some(&output(true, " a \n", " b "))).as_deref(), Some("a\nb"));
    assert_eq!(command_text(Some(&output(true, "", " b "))).as_deref(), Some("b"));
    assert_eq!(command_text(Some(&output(false, "a", ""))), None);
    assert_eq!(command_text(None), None);
    assert_eq!(command_output_detail(&output(false, "out", "err")), "err");
    assert_eq!(command_output_detail(&output(false, "out", " ")), "out");
    assert_eq!(command_output_detail(&output(false, "", "")), "Codex exited with exit status: 2");
    assert_eq!(executable_version(Some(&output(true, "  ", ""))), None);
    assert_eq!(
        update_failure(None).unwrap().message,
        "Codex update did not finish within three minutes"
    );
    assert_eq!(update_failure(Some(&output(false, "", "denied"))).unwrap().message, "denied");
    assert!(update_failure(Some(&output(true, "", ""))).is_none());
    let late = codex_argument_probe(&launch_probes()[2], None);
    assert_eq!(
        late.refusal.as_deref(),
        Some("`codex --dangerously-bypass-approvals-and-sandbox exec --help` did not complete")
    );
}

#[test]
fn the_models_are_asked_for_and_read() {
    let asked = model_requests("1.0");
    assert_eq!(asked.len(), 3);
    assert_eq!(
        render_json(&asked[1]),
        "{\"method\":\"initialized\",\"params\":{}}"
    );
    assert_eq!(asked[2].get2("params", "limit").unwrap().as_signed(), Some(100));
    let other = parse_json("{\"id\":1,\"result\":{}}").unwrap();
    assert!(matches!(read_models(&other), ModelLine::Other));
    let failed = parse_json("{\"id\":2,\"error\":{\"message\":\"no\"}}").unwrap();
    assert!(matches!(read_models(&failed), ModelLine::Failed(_)));
    let listed = parse_json(
        r#"{"id":2,"result":{"data":[
            {"id":"gpt","displayName":"GPT","isDefault":true,"defaultReasoningEffort":"high",
             "supportedReasoningEfforts":[{"reasoningEffort":"low"},{"other":1},{"reasoningEffort":"high"}],
             "contextWindow":"200000"},
            {"displayName":"no id"},
            {"id":"mini","contextWindowTokens":128000}]}}"#,
    )
    .unwrap();
    let ModelLine::Models(models) = read_models(&listed) else {
        panic!("models should be read");
    };
    assert_eq!(models.len(), 2);
    assert_eq!(models[0].display_name, "GPT");
    assert!(models[0].is_default);
    assert_eq!(models[0].supported_reasoning_efforts, ["low", "high"]);
    assert_eq!(models[0].context_window_tokens, Some(200_000));
    assert_eq!(models[1].display_name, "mini");
    assert_eq!(models[1].context_window_tokens, Some(128_000));
}

#[test]
fn only_codex_is_asked_for_models() {
    assert_eq!(list_agent_models(AgentProvider::Claude, None).unwrap(), None);
    assert_eq!(list_agent_models(AgentProvider::Codex, None).unwrap_err().code, "codex_not_found");
    assert_eq!(
        list_agent_models(AgentProvider::Codex, Some("/codex".into())).unwrap().as_deref(),
        Some("/codex")
    );
}

#[test]
fn candidates_stand_in_the_order_of_their_worth() {
    let places = CodexPlaces {
        preferred: Some("/chosen".into()),
        login_shell: None,
        found: Some("/found".into()),
        home: Some("/home/me".into()),
        nvm: vec!["/home/me/.nvm/versions/node/v20".into()],
        fnm: Vec::new(),
    };
    let candidates = codex_candidates(&places);
    assert_eq!(candidates[0], "/chosen");
    assert_eq!(candidates[1], "/found");
    assert_eq!(candidates[2], "/home/me/.volta/bin/codex");
    assert_eq!(candidates[12], "/home/me/.nvm/versions/node/v20/bin/codex");
    assert_eq!(candidates[13], "/opt/homebrew/bin/codex");
    assert_eq!(candidates.len(), 17);
    let homeless = CodexPlaces { home: None, preferred: None, found: None, ..places };
    assert_eq!(codex_candidates(&homeless).len(), 4);
    assert_eq!(
        binary_candidates(Some("/h"), Some("/a:/b"), "git"),
        [
            "/h/.nvm/current/bin/git",
            "/h/.npm-global/bin/git",
            "/h/.local/bin/git",
            "/opt/homebrew/bin/git",
            "/usr/local/bin/git",
            "/usr/bin/git",
            "/a/git",
            "/b/git"
        ]
    );
}

#[test]
fn login_shells_are_read_from_their_last_line() {
    assert_eq!(login_shell_command("codex"), "command -v codex");
    let printed = output(true, "welcome\n/old/codex\n  /new/codex \nbye\n", "");
    assert_eq!(login_shell_binary(Some(&printed)), ["/new/codex", "/old/codex"]);
    assert!(login_shell_binary(Some(&output(false, "/x", ""))).is_empty());
    assert!(login_shell_binary(None).is_empty());
    let path = output(true, "a:b\n/usr/bin:/bin\n\n", "");
    assert_eq!(login_shell_path(Some(&path)).as_deref(), Some("/usr/bin:/bin"));
    assert_eq!(login_shell_path(Some(&output(true, "nothing", ""))), None);
}

#[test]
fn a_search_path_names_no_place_twice() {
    assert_eq!(
        effective_path_for_binary(Some("/opt/bin"), Some("/usr/bin:/bin"), Some("/usr/bin/:/opt/bin:/x"))
            .as_deref(),
        Some("/opt/bin:/usr/bin:/bin:/x")
    );
    assert_eq!(effective_path_for_binary(Some("/odd:place"), None, None), None);
    let environment = dependency_environment("/repo", true, false, Some("/bin"));
    assert_eq!(environment.node_path.as_deref(), Some("/repo/node_modules"));
    assert_eq!(environment.virtual_env, None);
    assert_eq!(environment.path.as_deref(), Some("/repo/node_modules/.bin:/bin"));
    assert_eq!(
        dependency_environment("/repo", false, true, None).path.as_deref(),
        Some("/repo/.venv/bin")
    );
}

#[test]
fn installations_are_found_once_and_the_selected_one_is_kept() {
    let mut discovery = Discovery::new(Some("/b/codex".into()));
    assert!(!discovery.consider(false, "/a"));
    assert!(discovery.consider(true, "/real/a"));
    discovery.report("/a/codex".into(), Some("1.0".into()));
    assert!(!discovery.consider(true, "/real//a"));
    assert!(discovery.consider(true, "/real/b"));
    discovery.report("/b/codex".into(), Some("2.0".into()));
    assert!(discovery.consider(true, "/real/c"));
    discovery.report("/c/codex".into(), None);
    assert_eq!(discovery.found.len(), 2);
    assert_eq!(
        resolve_codex_binary(&discovery.found, &Vec::new()).as_deref(),
        Some("/b/codex")
    );
    assert_eq!(reselect_codex(&Some("/b/codex".into()), &discovery.found), None);
    assert_eq!(
        reselect_codex(&Some("/gone".into()), &discovery.found).as_deref(),
        Some("/a/codex")
    );
    assert!(select_codex_binary("/b/codex", &discovery.found).is_ok());
    assert_eq!(
        select_codex_binary("/c/codex", &discovery.found).unwrap_err().code,
        "invalid_codex_binary"
    );
    let marked = mark_selected(discovery.found, &Some("/a/codex".into()));
    assert!(marked[0].selected && !marked[1].selected);
    assert_eq!(resolve_codex_binary(&Vec::new(), &marked).as_deref(), Some("/a/codex"));
    assert!(keeps_codex_binary(&Some("/a".into()), true, &Some("1".into())));
    assert!(!keeps_codex_binary(&Some("/a".into()), true, &None));
}

#[test]
fn the_folder_of_codex_is_absolute() {
    assert!(validate_codex_home(None).is_ok());
    assert!(validate_codex_home(Some("/home/me/.codex")).is_ok());
    assert_eq!(
        validate_codex_home(Some("~/.codex")).unwrap_err(),
        "CODEX_HOME must be an absolute path; use $HOME/.codex-name instead of ~/.codex"
    );
    assert_eq!(
        codex_state_file(None, Some("/home/me")).as_deref(),
        Some("/home/me/.codex/state_5.sqlite")
    );
    assert_eq!(
        codex_state_file(Some("/c"), Some("/home/me")).as_deref(),
        Some("/c/state_5.sqlite")
    );
    assert_eq!(codex_state_file(None, None), None);
}
