use ditchd::git_names::{sanitize_slug, validate_ditch_branch};
use ditchd::git_overlap::{
    overlapping_paths, path_is_under, paths_overlap, pattern_pair_overlaps, patterns_overlap,
};
use ditchd::git_paths::{
    normalize_git_path, parse_name_status_z, parse_status_porcelain_v2, parse_worktree_porcelain,
    user_changed_paths,
};
use ditchd::git_coordinator::GitCoordinator;
use ditchd::git_validation::{check_failure_text, discover_validation_commands, CheckFailure, ProjectFacts};

#[test]
fn parses_nul_status_including_rename_and_spaces() {
    let data = b"1 .M N... 100644 100644 100644 aaaaaaa bbbbbbb file with space.txt\x002 R. N... 100644 100644 100644 aaaaaaa bbbbbbb R100 new name.txt\0old name.txt\0? untracked.txt\0";
    assert_eq!(
        parse_status_porcelain_v2(data).unwrap(),
        vec!["file with space.txt", "new name.txt", "old name.txt", "untracked.txt"]
    );
}

#[test]
fn path_prefix_overlap_respects_component_boundaries() {
    assert!(pattern_pair_overlaps("lib/auth/**", "lib/auth/login.dart"));
    assert!(!pattern_pair_overlaps("lib/auth/**", "lib/authentication_old/a.dart"));
}

#[test]
fn name_status_z_parses_paths_with_spaces_and_renames() {
    let changes = parse_name_status_z(
        b"M\0lib/file with spaces.dart\0R100\0old name.dart\0new name.dart\0D\0gone.txt\0",
    )
    .unwrap();
    assert_eq!(changes.len(), 3);
    assert_eq!(changes[0].path, "lib/file with spaces.dart");
    assert_eq!(changes[1].status, "R100");
    assert_eq!(changes[1].previous_path.as_deref(), Some("old name.dart"));
    assert_eq!(changes[1].path, "new name.dart");
    assert_eq!(changes[2].status, "D");
}

#[test]
fn discovers_declared_checks_across_supported_project_tooling() {
    let facts = ProjectFacts {
        config: None,
        makefile: None,
        justfile: None,
        package_json: Some(
            br#"{"scripts":{"lint":"eslint .","typecheck":"tsc --noEmit","test":"echo \"Error: no test specified\" && exit 1","build":"next build"}}"#
                .to_vec(),
        ),
        composer_json: None,
        pyproject: Some("[tool.ruff]\n[tool.pytest.ini_options]\n".to_owned()),
        pytest_ini: None,
        tox_ini: None,
        files: ["package.json", "pnpm-lock.yaml", "go.mod", "pyproject.toml"]
            .iter()
            .map(|name| name.to_string())
            .collect(),
        entries: ["tests", "package.json", "pnpm-lock.yaml", "go.mod", "pyproject.toml"]
            .iter()
            .map(|name| name.to_string())
            .collect(),
        tests_directory: true,
    };
    let commands = discover_validation_commands(&facts);
    let names = commands.iter().map(|command| command.name.as_str()).collect::<Vec<_>>();
    assert_eq!(&names[..3], &["lint (pnpm)", "typecheck (pnpm)", "build (pnpm)"]);
    assert!(names.contains(&"Go tests"));
    assert!(names.contains(&"Python lint"));
    assert!(names.contains(&"Python tests"));
    assert!(!names.iter().any(|name| name.starts_with("test (pnpm)")));
}

#[test]
fn malformed_output_of_git_is_refused() {
    assert!(parse_name_status_z(b"R100\0only one path\0").is_err());
    assert!(parse_status_porcelain_v2(b"2 R. N... 1 1 1 a b R100 new\0").is_err());
    assert!(normalize_git_path("../outside").is_err());
    assert!(normalize_git_path("/absolute").is_err());
    assert_eq!(normalize_git_path("lib/main.rs").unwrap(), "lib/main.rs");
}

#[test]
fn worktrees_are_read_with_their_branches_and_locks() {
    let listed = parse_worktree_porcelain(
        b"worktree /repo\0HEAD aaaa\0branch refs/heads/main\0\0worktree /managed\0HEAD bbbb\0branch refs/heads/ditch/x\0locked session\0\0",
    )
    .unwrap();
    assert_eq!(listed.len(), 2);
    assert_eq!(listed[0].path, "/repo");
    assert_eq!(listed[1].branch.as_deref(), Some("refs/heads/ditch/x"));
    assert!(listed[1].locked);
    assert!(!listed[0].locked && !listed[0].prunable);
}

#[test]
fn work_of_the_runtime_itself_is_not_the_users() {
    let paths = vec![".ditch/state.json".to_owned(), "src/main.rs".to_owned()];
    assert_eq!(user_changed_paths(&paths), ["src/main.rs"]);
}

#[test]
fn overlaps_are_found_by_path_and_by_pattern() {
    assert!(path_is_under("lib/auth/login.dart", "lib/auth"));
    assert!(!path_is_under("lib/authentication", "lib/auth"));
    let left = vec!["a.rs".to_owned(), "b.rs".to_owned()];
    let right = vec!["b.rs".to_owned(), "c.rs".to_owned()];
    assert_eq!(overlapping_paths(&left, &right), ["b.rs"]);
    assert!(patterns_overlap(&vec!["lib/**".to_owned()], &vec!["lib/a.rs".to_owned()]));
}

#[test]
fn names_of_branches_are_the_runtimes_own() {
    assert_eq!(sanitize_slug("Fix the Login!"), "fix-the-login");
    assert!(validate_ditch_branch("main").is_err());
}

#[test]
fn one_operation_at_a_time_in_each_repository() {
    let mut coordinator = GitCoordinator::new();
    assert!(coordinator.enter("/repo"));
    assert!(!coordinator.enter("/repo"));
    assert!(coordinator.enter("/other"));
    coordinator.leave("/repo");
    assert!(coordinator.enter("/repo"));
}

#[test]
fn checks_without_an_answer_are_told_as_such() {
    assert_eq!(
        check_failure_text(&CheckFailure::NotStarted("no sh".into())),
        "Could not start validation: no sh"
    );
    assert_eq!(check_failure_text(&CheckFailure::TimedOut), "Validation timed out after 10 minutes");
    assert_eq!(check_failure_text(&CheckFailure::Lost("gone".into())), "Validation process failed: gone");
}

#[test]
fn patterns_meet_by_their_place() {
    for (left, right) in [("lib/auth", "lib/auth/login.dart"), ("lib/auth", "lib/other"), ("a", "a")] {
        let meets = pattern_pair_overlaps(left, right);
        assert_eq!(pattern_pair_overlaps(right, left), meets);
        assert_eq!(pattern_pair_overlaps(&format!("{left}/**"), right), meets);
        assert_eq!(pattern_pair_overlaps(&left.to_uppercase(), right), meets);
        assert!(pattern_pair_overlaps(left, left));
    }
}

#[test]
fn shared_paths_are_in_order_and_spelled_as_on_the_left() {
    let list = |paths: &[&str]| paths.iter().map(|path| (*path).to_owned()).collect::<Vec<_>>();
    let left = list(&["src/B.rs", "src/a.rs", "src/B.rs", "docs/x.md"]);
    let right = list(&["SRC/A.RS", "src/b.rs"]);
    assert_eq!(overlapping_paths(&left, &right), ["src/B.rs", "src/a.rs"]);
    assert_eq!(overlapping_paths(&right, &left), ["SRC/A.RS", "src/b.rs"]);
    assert!(paths_overlap(&left, &right));
    let apart = list(&["tests/t.rs"]);
    assert!(overlapping_paths(&left, &apart).is_empty() && !paths_overlap(&left, &apart));
}

#[test]
fn a_slug_is_its_own_slug() {
    let long = "word ".repeat(20);
    let cut = format!("{} b c", "a".repeat(39));
    for text in ["Fix the Login!", "", "  --  ", "ÄÖ", "\u{130}stanbul 2", long.as_str(), cut.as_str()] {
        let slug = sanitize_slug(text);
        assert_eq!(sanitize_slug(&slug), slug, "{text}");
        assert!((1..=41).contains(&slug.len()), "{text}");
    }
    assert_eq!(sanitize_slug("--  --"), "task");
    assert_eq!(sanitize_slug(&cut), format!("{}-b", "a".repeat(39)));
}
