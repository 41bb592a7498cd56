use ditchd::listing::{listing_order, SortKey};
use ditchd::project_files::{
    FoundEntry, FoundFolder, MAX_EDITABLE_FILE_BYTES, ProjectFileKind, check_content,
    check_folder_path, check_project_path, check_resolved_path, check_revision, file_revision,
    list_filesystem_directory, list_project_directory, project_candidate, project_file_at,
    project_path_failed, project_root_failed, read_project_file, revision_text, saved_file,
    saved_file_at, temporary_file,
};
use ditchd::service::{
    authentication_binary, check_bridge_line, check_sandbox_setup, installed_codex, remove_stale_socket,
    runtime_metadata, start_command, temporary_metadata, terminal_size, SetupOutput, SocketProbe,
    SocketStep, StartCommand, MAX_BRIDGE_BYTES, MAX_SETUP_OUTPUT,
};

fn entry(name: &str, kind: Option<ProjectFileKind>) -> FoundEntry {
    FoundEntry { name: name.to_owned(), kind, size: 7 }
}

#[test]
fn a_file_has_the_revision_that_is_given() {
    assert_eq!(revision_text(0), "0000000000000000");
    assert_eq!(revision_text(0x01ab_cdef_0123_4567), "01abcdef01234567");
    assert_eq!(revision_text(u64::MAX), "ffffffffffffffff");
    let file = project_file_at(5, "src/a.rs", &b"text".to_vec(), revision_text(7)).unwrap();
    assert_eq!((file.project_id, file.relative_path.as_str(), file.size), (5, "src/a.rs", 4));
    assert_eq!((file.content.as_str(), file.revision.as_str()), ("text", "0000000000000007"));
    assert_eq!(
        project_file_at(5, "a", &vec![0xff], revision_text(7)).unwrap_err().code,
        "binary_file"
    );
    let saved = saved_file_at(5, "src/a.rs", "text", revision_text(9));
    assert_eq!((saved.project_id, saved.relative_path.as_str(), saved.size), (5, "src/a.rs", 4));
    assert_eq!(saved.revision, "0000000000000009");
}

#[test]
fn project_files_are_scoped_readable_and_revision_safe() {
    let found = vec![
        entry("README.md", Some(ProjectFileKind::File)),
        entry(".git", Some(ProjectFileKind::Directory)),
        entry("lib", Some(ProjectFileKind::Directory)),
    ];
    let directory = list_project_directory(1, "", &found);
    assert_eq!(
        directory.entries.iter().map(|entry| entry.name.as_str()).collect::<Vec<_>>(),
        vec!["lib", "README.md"]
    );

    let file = read_project_file(1, "README.md", &b"before\n".to_vec()).expect("text file should open");
    assert_eq!(file.content, "before\n");
    assert_eq!(file.size, 7);
    assert!(check_revision(&file_revision(b"before\n"), Some(&file.revision)).is_ok());
    let saved = saved_file(1, "README.md", "after\n");
    assert_ne!(saved.revision, file.revision);
    assert_eq!(saved.size, 6);
    assert_eq!(saved.revision, file_revision(b"after\n"));
    assert_eq!(
        check_revision(&saved.revision, Some(&file.revision)).unwrap_err().code,
        "file_changed"
    );
    assert!(check_revision(&saved.revision, None).is_ok());
    assert_eq!(check_project_path("../outside.txt").unwrap_err().code, "invalid_project_path");
}

#[test]
fn revisions_are_sixteen_digits() {
    let revision = file_revision(b"content");
    assert_eq!(revision.len(), 16);
    assert!(revision.chars().all(|c| c.is_ascii_digit() || ('a'..='f').contains(&c)));
    assert_ne!(revision, file_revision(b"other"));
}

#[test]
fn paths_stay_inside_their_project() {
    assert!(check_project_path("lib/./main.dart").is_ok());
    assert!(check_project_path("").is_ok());
    assert!(check_project_path("/etc/passwd").is_err());
    assert!(check_project_path("lib/../../etc").is_err());
    assert_eq!(project_candidate("/srv/app", "lib/main"), "/srv/app/lib/main");
    assert!(check_resolved_path("/srv/app", "/srv/app/lib").is_ok());
    assert_eq!(
        check_resolved_path("/srv/app", "/srv/application").unwrap_err().code,
        "project_path_outside_root"
    );
    assert_eq!(project_root_failed("gone").message, "project root: gone");
    assert_eq!(project_path_failed("a.txt", "gone").message, "a.txt: gone");
}

#[test]
fn files_that_cannot_be_edited_are_refused() {
    let large = vec![b'a'; MAX_EDITABLE_FILE_BYTES as usize + 1];
    assert_eq!(read_project_file(1, "a", &large).unwrap_err().code, "file_too_large");
    assert_eq!(read_project_file(1, "a", &vec![0xff, 0xfe]).unwrap_err().code, "binary_file");
    assert_eq!(read_project_file(1, "a", &b"a\0b".to_vec()).unwrap_err().code, "binary_file");
    assert_eq!(read_project_file(1, "a", &"é".as_bytes().to_vec()).unwrap().content, "é");
    assert!(check_content("small").is_ok());
    let text = "é".repeat(MAX_EDITABLE_FILE_BYTES as usize / 2 + 1);
    assert_eq!(check_content(&text).unwrap_err().code, "file_too_large");
}

#[test]
fn listings_put_folders_first_and_ignore_case() {
    let found = vec![
        entry("zebra.txt", Some(ProjectFileKind::File)),
        entry("Apple.txt", Some(ProjectFileKind::File)),
        entry("socket", None),
        entry("node_modules", Some(ProjectFileKind::Directory)),
        entry("Äpfel", Some(ProjectFileKind::Symlink)),
        entry("src", Some(ProjectFileKind::Directory)),
        entry("Docs", Some(ProjectFileKind::Directory)),
    ];
    let directory = list_project_directory(1, "sub", &found);
    assert_eq!(
        directory.entries.iter().map(|entry| entry.name.as_str()).collect::<Vec<_>>(),
        ["Docs", "src", "Apple.txt", "zebra.txt", "Äpfel"]
    );
    assert_eq!(directory.entries[1].relative_path, "sub/src");
}

#[test]
fn equal_keys_keep_their_order() {
    let key = |late: bool, text: &str| SortKey { late, text: text.to_owned() };
    assert_eq!(
        listing_order(&vec![key(true, "a"), key(false, "b"), key(false, "a"), key(false, "b")]),
        [2, 1, 3, 0]
    );
}

fn folder(name: &str, known: bool, is_directory: bool) -> FoundFolder {
    FoundFolder {
        name: name.to_owned(),
        path: format!("/root/{name}"),
        known,
        is_directory,
        is_symlink: false,
    }
}

#[test]
fn remote_folder_browser_lists_directories_and_not_files() {
    let found = vec![
        folder("notes.txt", true, false),
        folder("project", true, true),
        folder("unknown", false, true),
    ];
    let directory = list_filesystem_directory("/root", Some("/"), &found);
    assert_eq!(
        directory.entries.iter().map(|entry| entry.name.as_str()).collect::<Vec<_>>(),
        ["project"]
    );
    assert_eq!(directory.parent_path.as_deref(), Some("/"));
    assert_eq!(directory.entries[0].absolute_path, "/root/project");
}

#[test]
fn long_names_are_shortened_and_odd_paths_refused() {
    let long = "n".repeat(2000);
    let directory = list_filesystem_directory("/root", None, &vec![folder(&long, true, true)]);
    assert_eq!(directory.entries[0].name.len(), 1024);
    assert!(check_folder_path("/srv").is_ok());
    assert!(check_folder_path("srv").is_err());
    assert!(check_folder_path("/srv\0").is_err());
    assert!(check_folder_path(&format!("/{}", "a".repeat(4095))).is_ok());
    assert_eq!(
        check_folder_path(&format!("/{}", "a".repeat(4096))).unwrap_err().code,
        "invalid_remote_path"
    );
}

#[test]
fn temporary_files_stand_beside_their_target() {
    let id = 0x1111_2222_3333_4444_5555_6666_7777_8888u128;
    assert_eq!(
        temporary_file("/srv/app", id),
        "/srv/app/.ditch-save-11112222-3333-4444-5555-666677778888.tmp"
    );
    assert_eq!(
        temporary_metadata("/run", id),
        "/run/.daemon-11112222-3333-4444-5555-666677778888.tmp"
    );
    let metadata = runtime_metadata(42, id, "2026-01-01T00:00:00Z", "1.0");
    assert_eq!(metadata.get("pid").unwrap().as_signed(), Some(42));
    assert_eq!(metadata.text_at("epoch"), Some("11112222-3333-4444-5555-666677778888"));
}

#[test]
fn commands_of_the_program_are_read() {
    let command = |args: &[&str]| start_command(&args.iter().map(|arg| arg.to_string()).collect());
    assert_eq!(command(&[]), Ok(StartCommand::Runtime));
    assert_eq!(command(&["daemon"]), Ok(StartCommand::RemoteRuntime));
    assert_eq!(command(&["daemon", "--remote"]), Ok(StartCommand::RemoteRuntime));
    assert_eq!(command(&["bridge", "--stdio"]), Ok(StartCommand::Bridge));
    assert_eq!(command(&["version-json"]), Ok(StartCommand::Version));
    assert_eq!(command(&["bridge"]), Err("unsupported ditchd command"));
    assert_eq!(command(&["daemon", "--local"]), Err("unsupported ditchd command"));
}

#[test]
fn live_runtime_socket_is_never_removed() {
    assert_eq!(remove_stale_socket(SocketProbe::Answered), SocketStep::AlreadyRunning);
    assert_eq!(remove_stale_socket(SocketProbe::Unserved), SocketStep::Remove);
    assert_eq!(remove_stale_socket(SocketProbe::Absent), SocketStep::Proceed);
    assert_eq!(remove_stale_socket(SocketProbe::Failed), SocketStep::GiveUp);
}

#[test]
fn the_bridge_passes_no_overlong_line() {
    assert!(check_bridge_line(&"a".repeat(MAX_BRIDGE_BYTES)).is_ok());
    assert_eq!(
        check_bridge_line(&"a".repeat(MAX_BRIDGE_BYTES + 1)),
        Err("bridge request is too large")
    );
}

#[test]
fn terminals_have_a_sensible_size_and_keep_their_last_output() {
    assert_eq!(terminal_size(0, 1000), (2, 300));
    assert_eq!(terminal_size(80, 24), (80, 24));
    assert_eq!(terminal_size(600, 2), (500, 2));
    let mut output = SetupOutput::new();
    output.keep(b"ab");
    output.keep(&vec![b'c'; MAX_SETUP_OUTPUT - 1]);
    let kept = output.take();
    assert_eq!(kept.len(), MAX_SETUP_OUTPUT);
    assert_eq!(kept[0], b'b');
    assert!(output.take().is_empty());
}

#[test]
fn codex_is_signed_in_where_it_is() {
    assert_eq!(authentication_binary(Some("/a".into()), Some("/b".into())).unwrap(), "/a");
    assert_eq!(authentication_binary(None, Some("/b".into())).unwrap(), "/b");
    assert_eq!(authentication_binary(None, None).unwrap_err().code, "codex_missing");
    assert_eq!(installed_codex("/home/me"), "/home/me/.local/bin/codex");
    assert!(check_sandbox_setup("linux").is_ok());
    assert_eq!(
        check_sandbox_setup("macos").unwrap_err().code,
        "codex_sandbox_setup_unsupported"
    );
}
