//! Folders and files of projects: what is listed, what may be read and what may be
//! written.

use crate::ids::{hex_digit, hex_digits, hyphenated, identifier_text};
use crate::listing::{
    key_precedes, keys_view, lemma_listing_is_stable, listed_order, listing_order, numbers, KeyView,
    SortKey,
};
use crate::model::{error_of, protocol_error, ErrorView, ProtocolError};
use crate::order::precedes;
use crate::paths::{
    absolute, is_absolute, is_within, join_path, joined_path, lemma_joined_is_below, parts_of,
    path_parts, real_steps, start_part, within,
};
use crate::text::{
    byte_count, byte_len, contains_char, first_chars, holds_text, lower_text, pieces, same_text, str_of,
    take_chars, text_list, text_of, texts_of, unicode_lower, utf8_text,
};
use vstd::prelude::*;

verus! {

// ---- places in a project ----

/// That a path may be looked at below a project: not absolute, and without a step
/// upwards.
pub open spec fn is_project_path(relative: Seq<char>) -> bool {
    !is_absolute(relative) && !path_parts(relative).contains(".."@)
}

/// Whether a path may be looked at below a project.
pub fn check_project_path(relative: &str) -> (r: Result<(), ProtocolError>)
    ensures
        if is_project_path(relative@) {
            r is Ok
        } else {
            r matches Err(e) && e@ == error_of(
                "invalid_project_path"@,
                "path must stay inside the selected project"@,
            )
        },
{
    let parts = parts_of(relative);
    if absolute(relative) || holds_text(&parts, "..") {
        return Err(
            protocol_error("invalid_project_path", "path must stay inside the selected project"),
        );
    }
    Ok(())
}

/// A path that may be looked at leads to a place inside its project, and takes no
/// step upwards below the root.
pub proof fn lemma_project_paths_stay_inside(root: Seq<char>, relative: Seq<char>)
    requires
        is_absolute(root),
        is_project_path(relative),
    ensures
        is_within(joined_path(root, relative), root),
        !path_parts(joined_path(root, relative)).skip(path_parts(root).len() as int).contains(".."@),
{
    lemma_joined_is_below(root, relative);
    let steps = real_steps(pieces(relative, '/'));
    assert(path_parts(joined_path(root, relative)).skip(path_parts(root).len() as int) =~= steps);
    if steps.contains(".."@) {
        let at = choose|at: int| 0 <= at < steps.len() && steps[at] == ".."@;
        assert(path_parts(relative)[start_part(relative).len() + at] == ".."@);
    }
}

/// What is told where the root of a project cannot be resolved.
pub fn project_root_failed(error: &str) -> (r: ProtocolError)
    ensures
        r@ == error_of("project_path_failed"@, "project root: "@ + error@),
{
    let mut message = "project root: ".to_owned();
    message.append(error);
    protocol_error("project_path_failed", message.as_str())
}

/// What is told where a path in a project cannot be resolved.
pub fn project_path_failed(relative: &str, error: &str) -> (r: ProtocolError)
    ensures
        r@ == error_of("project_path_failed"@, relative@ + ": "@ + error@),
{
    let mut message = relative.to_owned();
    message.append(": ");
    message.append(error);
    protocol_error("project_path_failed", message.as_str())
}

/// Where a path in a project leads before links are followed.
pub fn project_candidate(root: &str, relative: &str) -> (r: String)
    ensures
        r@ == joined_path(root@, relative@),
{
    join_path(root, relative)
}

/// Whether a path that has been resolved is still inside its project.
pub fn check_resolved_path(root: &str, resolved: &str) -> (r: Result<(), ProtocolError>)
    ensures
        if is_within(resolved@, root@) {
            r is Ok
        } else {
            r matches Err(e) && e@ == error_of(
                "project_path_outside_root"@,
                "path resolves outside the selected project"@,
            )
        },
{
    if within(resolved, root) {
        Ok(())
    } else {
        Err(
            protocol_error(
                "project_path_outside_root",
                "path resolves outside the selected project",
            ),
        )
    }
}

// ---- folders of a project ----

/// What an entry of a folder is.
#[derive(Clone, Copy, Debug, PartialEq, Eq, Structural)]
pub enum ProjectFileKind {
    File,
    Directory,
    Symlink,
}

/// An entry of a folder as it is found. What is neither a link, a folder nor a
/// file, and what cannot be looked at, has no kind.
#[derive(Debug)]
pub struct FoundEntry {
    pub name: String,
    pub kind: Option<ProjectFileKind>,
    pub size: u64,
}

/// An entry of a folder as it is listed.
#[derive(Debug)]
pub struct ProjectFileEntry {
    pub name: String,
    pub relative_path: String,
    pub kind: ProjectFileKind,
    pub size: u64,
}

/// The mathematical value of an entry.
pub struct EntryView {
    pub name: Seq<char>,
    pub relative_path: Seq<char>,
    pub kind: ProjectFileKind,
    pub size: u64,
}

impl View for ProjectFileEntry {
    type V = EntryView;

    open spec fn view(&self) -> EntryView {
        EntryView {
            name: self.name@,
            relative_path: self.relative_path@,
            kind: self.kind,
            size: self.size,
        }
    }
}

/// The mathematical value of entries.
pub open spec fn entries_view(list: Seq<ProjectFileEntry>) -> Seq<EntryView> {
    list.map_values(|entry: ProjectFileEntry| entry@)
}

/// A folder of a project.
#[derive(Debug)]
pub struct ProjectDirectory {
    pub project_id: u128,
    pub relative_path: String,
    pub entries: Vec<ProjectFileEntry>,
}

/// The names that are not listed.
pub open spec fn hidden_names() -> Seq<Seq<char>> {
    seq![".git"@, ".ditch"@, ".dart_tool"@, "build"@, "target"@, "node_modules"@]
}

/// The path of an entry of a folder.
pub open spec fn child_path(relative: Seq<char>, name: Seq<char>) -> Seq<char> {
    if relative.len() == 0 {
        name
    } else {
        relative + "/"@ + name
    }
}

/// The entry that is listed for one that is found.
pub open spec fn shown_entry(relative: Seq<char>, entry: FoundEntry) -> Option<EntryView> {
    if hidden_names().contains(entry.name@) {
        None
    } else {
        match entry.kind {
            Some(kind) => Some(
                EntryView {
                    name: entry.name@,
                    relative_path: child_path(relative, entry.name@),
                    kind,
                    size: entry.size,
                },
            ),
            None => None,
        }
    }
}

/// The entries that are listed, in the order in which they are found.
pub open spec fn shown_entries(relative: Seq<char>, found: Seq<FoundEntry>) -> Seq<EntryView>
    decreases found.len(),
{
    if found.len() == 0 {
        Seq::empty()
    } else {
        let before = shown_entries(relative, found.drop_last());
        match shown_entry(relative, found.last()) {
            Some(entry) => before.push(entry),
            None => before,
        }
    }
}

/// What an entry of a project is ordered by.
pub open spec fn entry_key(entry: EntryView) -> KeyView {
    KeyView {
        late: entry.kind != ProjectFileKind::Directory,
        text: lower_text(entry.name),
    }
}

/// Entries of a project in the order in which they are listed: folders first.
pub open spec fn arranged_entries(list: Seq<EntryView>) -> Seq<EntryView> {
    let keys = list.map_values(|entry: EntryView| entry_key(entry));
    listed_order(keys, list.len()).map_values(|i: int| list[i])
}

/// An entry equal to this one.
fn copy_entry(entry: &ProjectFileEntry) -> (r: ProjectFileEntry)
    ensures
        r@ == entry@,
{
    ProjectFileEntry {
        name: entry.name.clone(),
        relative_path: entry.relative_path.clone(),
        kind: entry.kind,
        size: entry.size,
    }
}

/// The entry that is listed for one that is found.
fn show_entry(relative: &str, entry: &FoundEntry) -> (r: Option<ProjectFileEntry>)
    ensures
        match r {
            Some(shown) => shown_entry(relative@, *entry) == Some(shown@),
            None => shown_entry(relative@, *entry) is None,
        },
{
    let hidden = text_list([".git", ".ditch", ".dart_tool", "build", "target", "node_modules"]);
    assert(texts_of(hidden@) =~= hidden_names());
    if holds_text(&hidden, entry.name.as_str()) {
        return None;
    }
    let kind = match entry.kind {
        Some(kind) => kind,
        None => {
            return None;
        },
    };
    proof {
        reveal_strlit("");
        assert(relative@.len() == 0 ==> relative@ =~= ""@);
    }
    let relative_path = if same_text(relative, "") {
        entry.name.clone()
    } else {
        let mut path = relative.to_owned();
        path.append("/");
        path.append(entry.name.as_str());
        path
    };
    Some(ProjectFileEntry { name: entry.name.clone(), relative_path, kind, size: entry.size })
}

/// The listing of a folder of a project.
pub fn list_project_directory(project_id: u128, relative_path: &str, found: &Vec<FoundEntry>) -> (r:
    ProjectDirectory)
    ensures
        r.project_id == project_id,
        r.relative_path@ == relative_path@,
        entries_view(r.entries@) == arranged_entries(shown_entries(relative_path@, found@)),
{
    let mut shown: Vec<ProjectFileEntry> = Vec::new();
    let mut keys: Vec<SortKey> = Vec::new();
    let mut i: usize = 0;
    proof {
        assert(found@.take(0) =~= Seq::empty());
        assert(entries_view(shown@) =~= Seq::empty());
        assert(keys_view(keys@) =~= Seq::<EntryView>::empty().map_values(
            |entry: EntryView| entry_key(entry),
        ));
    }
    while i < found.len()
        invariant
            0 <= i <= found.len(),
            entries_view(shown@) == shown_entries(relative_path@, found@.take(i as int)),
            keys_view(keys@) == entries_view(shown@).map_values(|entry: EntryView| entry_key(entry)),
        decreases found.len() - i,
    {
        let ghost before = entries_view(shown@);
        let ghost before_keys = keys_view(keys@);
        proof {
            assert(found@.take(i + 1).drop_last() =~= found@.take(i as int));
            assert(found@.take(i + 1).last() == found@[i as int]);
        }
        if let Some(entry) = show_entry(relative_path, &found[i]) {
            let key = SortKey {
                late: !matches!(entry.kind, ProjectFileKind::Directory),
                text: unicode_lower(entry.name.as_str()),
            };
            assert(key@ == entry_key(entry@));
            shown.push(entry);
            keys.push(key);
            assert(entries_view(shown@) =~= before.push(entry@));
            assert(keys_view(keys@) =~= before_keys.push(key@));
            assert(keys_view(keys@) =~= entries_view(shown@).map_values(
                |entry: EntryView| entry_key(entry),
            ));
        }
        i += 1;
    }
    assert(found@.take(found@.len() as int) =~= found@);
    let ghost list = entries_view(shown@);
    let order = listing_order(&keys);
    let mut entries: Vec<ProjectFileEntry> = Vec::new();
    let ghost wanted = arranged_entries(list);
    let mut k: usize = 0;
    assert(entries_view(entries@) =~= wanted.take(0));
    while k < order.len()
        invariant
            0 <= k <= order.len(),
            list == entries_view(shown@),
            shown.len() == list.len(),
            crate::listing::is_arrangement(numbers(order@), list.len()),
            wanted == numbers(order@).map_values(|i: int| list[i]),
            entries_view(entries@) == wanted.take(k as int),
        decreases order.len() - k,
    {
        let ghost before = entries_view(entries@);
        assert(numbers(order@)[k as int] == order@[k as int] as int);
        let entry = copy_entry(&shown[order[k]]);
        assert(wanted[k as int] == entry@);
        entries.push(entry);
        assert(entries_view(entries@) =~= before.push(entry@));
        k += 1;
        assert(entries_view(entries@) =~= wanted.take(k as int));
    }
    assert(wanted.take(wanted.len() as int) =~= wanted);
    ProjectDirectory { project_id, relative_path: relative_path.to_owned(), entries }
}

// ---- files of a project ----

/// How large a file may be that is edited, in bytes.
pub const MAX_EDITABLE_FILE_BYTES: u64 = 1048576;

/// A file of a project.
#[derive(Debug)]
pub struct ProjectFile {
    pub project_id: u128,
    pub relative_path: String,
    pub revision: String,
    pub size: u64,
    pub content: String,
}

/// A file of a project that has been saved.
#[derive(Debug)]
pub struct ProjectFileSaved {
    pub project_id: u128,
    pub relative_path: String,
    pub revision: String,
    pub size: u64,
}

/// `std::hash::BuildHasher::hash_one` with the standard hasher in its initial
/// state: a number for bytes. What the number is depends on the release of the
/// standard library and on the machine, so nothing is said of it.
#[verifier::external_body]
fn hash_bytes(bytes: &[u8]) -> (r: u64) {
    std::hash::BuildHasher::hash_one(
        &std::hash::BuildHasherDefault::<std::collections::hash_map::DefaultHasher>::default(),
        bytes,
    )
}

/// The revision that a number drawn from the content of a file stands for: its
/// hexadecimal digits.
pub fn revision_text(n: u64) -> (r: String)
    ensures
        r@ == hex_digits(n as nat, 16),
{
    let mut digits: Vec<char> = Vec::new();
    let mut rest: u64 = n;
    let mut count: usize = 0;
    assert(hex_digits(rest as nat, 16) + digits@.reverse() =~= hex_digits(n as nat, 16));
    while count < 16
        invariant
            0 <= count <= 16,
            hex_digits(rest as nat, (16 - count) as nat) + digits@.reverse() == hex_digits(n as nat, 16),
        decreases 16 - count,
    {
        let digit: u8 = (rest % 16) as u8;
        let c: char = if digit < 10 {
            (48 + digit) as char
        } else {
            (87 + digit) as char
        };
        let ghost before = digits@.reverse();
        assert(c == hex_digit((rest % 16) as nat));
        digits.push(c);
        proof {
            assert(digits@.reverse() =~= seq![c] + before);
            assert(hex_digits(rest as nat, (16 - count) as nat) =~= hex_digits(
                (rest / 16) as nat,
                (16 - count - 1) as nat,
            ).push(c));
            assert(hex_digits((rest / 16) as nat, (16 - count - 1) as nat) + digits@.reverse()
                =~= hex_digits(rest as nat, (16 - count) as nat) + before);
        }
        rest = rest / 16;
        count += 1;
    }
    let mut text = String::new();
    let ghost wanted = digits@.reverse();
    let mut i: usize = digits.len();
    assert(text@ =~= wanted.take(0));
    while i > 0
        invariant
            0 <= i <= digits.len(),
            wanted == digits@.reverse(),
            text@ == wanted.take(digits.len() - i),
        decreases i,
    {
        i -= 1;
        let ghost before = text@;
        text.push(digits[i]);
        assert(wanted[digits.len() - 1 - i] == digits@[i as int]);
        assert(text@ =~= wanted.take(digits.len() - i));
    }
    assert(wanted.take(wanted.len() as int) =~= wanted);
    assert(hex_digits(rest as nat, 0) =~= Seq::empty());
    assert(text@ =~= hex_digits(n as nat, 16));
    text
}

/// That a text is a revision: sixteen hexadecimal digits.
pub open spec fn is_revision(text: Seq<char>) -> bool {
    exists|n: u64| text == #[trigger] hex_digits(n as nat, 16)
}

/// The revision of a file with the given content. The number that it shows rests
/// on the release of the standard library and on the machine.
pub fn file_revision(bytes: &[u8]) -> (r: String)
    ensures
        is_revision(r@),
{
    revision_text(hash_bytes(bytes))
}

/// The text of a file that may be edited: UTF-8 without zeros, and not too long.
pub open spec fn editable_text(bytes: Seq<u8>) -> Result<Seq<char>, ErrorView> {
    if bytes.len() > MAX_EDITABLE_FILE_BYTES {
        Err(error_of("file_too_large"@, "files larger than 1 MB are not editable"@))
    } else if !vstd::utf8::valid_utf8(bytes) || vstd::utf8::decode_utf8(bytes).contains('\0') {
        Err(error_of("binary_file"@, "only UTF-8 text files are editable"@))
    } else {
        Ok(vstd::utf8::decode_utf8(bytes))
    }
}

/// A file of a project, as it is read, with the revision that it has.
pub fn project_file_at(project_id: u128, relative_path: &str, bytes: &Vec<u8>, revision: String) -> (r:
    Result<ProjectFile, ProtocolError>)
    ensures
        match editable_text(bytes@) {
            Ok(content) => {
                &&& r matches Ok(file)
                &&& file.project_id == project_id
                &&& file.relative_path@ == relative_path@
                &&& file.content@ == content
                &&& file.size == bytes@.len()
                &&& file.revision == revision
            },
            Err(error) => r matches Err(e) && e@ == error,
        },
{
    if bytes.len() as u64 > MAX_EDITABLE_FILE_BYTES {
        return Err(protocol_error("file_too_large", "files larger than 1 MB are not editable"));
    }
    let content = match utf8_text(bytes) {
        Some(content) => content,
        None => {
            return Err(protocol_error("binary_file", "only UTF-8 text files are editable"));
        },
    };
    if contains_char(content.as_str(), '\0') {
        return Err(protocol_error("binary_file", "only UTF-8 text files are editable"));
    }
    Ok(
        ProjectFile {
            project_id,
            relative_path: relative_path.to_owned(),
            revision,
            size: bytes.len() as u64,
            content,
        },
    )
}

/// A file of a project, as it is read.
pub fn read_project_file(project_id: u128, relative_path: &str, bytes: &Vec<u8>) -> (r: Result<
    ProjectFile,
    ProtocolError,
>)
    ensures
        match editable_text(bytes@) {
            Ok(content) => {
                &&& r matches Ok(file)
                &&& file.project_id == project_id
                &&& file.relative_path@ == relative_path@
                &&& file.content@ == content
                &&& file.size == bytes@.len()
                &&& is_revision(file.revision@)
            },
            Err(error) => r matches Err(e) && e@ == error,
        },
{
    project_file_at(project_id, relative_path, bytes, file_revision(bytes))
}

/// Whether a text is short enough for a file that is edited.
pub fn check_content(content: &str) -> (r: Result<(), ProtocolError>)
    ensures
        if byte_count(content@) > MAX_EDITABLE_FILE_BYTES {
            r matches Err(e) && e@ == error_of(
                "file_too_large"@,
                "files larger than 1 MB are not editable"@,
            )
        } else {
            r is Ok
        },
{
    if byte_len(content) as u64 > MAX_EDITABLE_FILE_BYTES {
        return Err(protocol_error("file_too_large", "files larger than 1 MB are not editable"));
    }
    Ok(())
}

/// Whether a file may be overwritten: where a revision is expected, only while the
/// file is still of that revision.
pub fn check_revision(revision: &str, expected: Option<&str>) -> (r: Result<(), ProtocolError>)
    ensures
        if expected is Some && expected->0@ != revision@ {
            r matches Err(e) && e@ == error_of(
                "file_changed"@,
                "the file changed on disk; reload it before saving"@,
            )
        } else {
            r is Ok
        },
{
    if let Some(expected) = expected {
        if !same_text(revision, expected) {
            return Err(
                protocol_error(
                    "file_changed",
                    "the file changed on disk; reload it before saving",
                ),
            );
        }
    }
    Ok(())
}

/// The file beside a file that its new content is written to first.
pub fn temporary_file(parent: &str, id: u128) -> (r: String)
    ensures
        r@ == joined_path(parent@, ".ditch-save-"@ + hyphenated(id) + ".tmp"@),
{
    let mut name = ".ditch-save-".to_owned();
    name.append(identifier_text(id).as_str());
    name.append(".tmp");
    join_path(parent, name.as_str())
}

/// A file of a project, as it has been saved, with the revision that it has.
pub fn saved_file_at(project_id: u128, relative_path: &str, content: &str, revision: String) -> (r:
    ProjectFileSaved)
    ensures
        r.project_id == project_id,
        r.relative_path@ == relative_path@,
        r.size == byte_count(content@),
        r.revision == revision,
{
    ProjectFileSaved {
        project_id,
        relative_path: relative_path.to_owned(),
        revision,
        size: byte_len(content) as u64,
    }
}

/// A file of a project, as it has been saved.
pub fn saved_file(project_id: u128, relative_path: &str, content: &str) -> (r: ProjectFileSaved)
    ensures
        r.project_id == project_id,
        r.relative_path@ == relative_path@,
        r.size == byte_count(content@),
        is_revision(r.revision@),
{
    saved_file_at(project_id, relative_path, content, file_revision(content.as_bytes()))
}

// ---- folders of the machine ----

/// How long a path may be that is looked at, in bytes.
pub const MAX_PATH_BYTES: usize = 4096;

/// How many entries of a folder are looked at.
pub const MAX_FOLDER_ENTRIES: usize = 20000;

/// How long a name is that is told, in characters.
pub const MAX_NAME_CHARS: usize = 1024;

/// How long a path is that is told, in characters.
pub const MAX_PATH_CHARS: usize = 4096;

/// Whether a folder of the machine may be looked at.
pub fn check_folder_path(path: &str) -> (r: Result<(), ProtocolError>)
    ensures
        if is_absolute(path@) && byte_count(path@) <= MAX_PATH_BYTES && !path@.contains('\0') {
            r is Ok
        } else {
            r matches Err(e) && e@ == error_of(
                "invalid_remote_path"@,
                "path must be an absolute directory path"@,
            )
        },
{
    if !absolute(path) || byte_len(path) > MAX_PATH_BYTES || contains_char(path, '\0') {
        return Err(
            protocol_error("invalid_remote_path", "path must be an absolute directory path"),
        );
    }
    Ok(())
}

/// An entry of a folder of the machine as it is found. Of one that cannot be looked
/// at nothing is known.
#[derive(Debug)]
pub struct FoundFolder {
    pub name: String,
    pub path: String,
    pub known: bool,
    pub is_directory: bool,
    pub is_symlink: bool,
}

/// A folder of the machine as it is told.
#[derive(Debug)]
pub struct RemoteDirectoryEntry {
    pub name: String,
    pub absolute_path: String,
    pub is_directory: bool,
    pub is_symlink: bool,
}

/// The mathematical value of a folder.
pub struct FolderView {
    pub name: Seq<char>,
    pub absolute_path: Seq<char>,
    pub is_directory: bool,
    pub is_symlink: bool,
}

impl View for RemoteDirectoryEntry {
    type V = FolderView;

    open spec fn view(&self) -> FolderView {
        FolderView {
            name: self.name@,
            absolute_path: self.absolute_path@,
            is_directory: self.is_directory,
            is_symlink: self.is_symlink,
        }
    }
}

/// The mathematical value of folders.
pub open spec fn folders_view(list: Seq<RemoteDirectoryEntry>) -> Seq<FolderView> {
    list.map_values(|entry: RemoteDirectoryEntry| entry@)
}

/// Folders in a folder of the machine.
#[derive(Debug)]
pub struct RemoteDirectory {
    pub ssh_host_alias: String,
    pub absolute_path: String,
    pub parent_path: Option<String>,
    pub entries: Vec<RemoteDirectoryEntry>,
}

/// The folder that is told for an entry. Only folders are.
pub open spec fn shown_folder(entry: FoundFolder) -> Option<FolderView> {
    if entry.known && entry.is_directory {
        Some(
            FolderView {
                name: first_chars(entry.name@, MAX_NAME_CHARS as nat),
                absolute_path: first_chars(entry.path@, MAX_PATH_CHARS as nat),
                is_directory: true,
                is_symlink: entry.is_symlink,
            },
        )
    } else {
        None
    }
}

/// The folders that are told, in the order in which they are found.
pub open spec fn shown_folders(found: Seq<FoundFolder>) -> Seq<FolderView>
    decreases found.len(),
{
    if found.len() == 0 {
        Seq::empty()
    } else {
        let before = shown_folders(found.drop_last());
        match shown_folder(found.last()) {
            Some(folder) => before.push(folder),
            None => before,
        }
    }
}

/// The entries of a folder that are looked at.
pub open spec fn looked_at(found: Seq<FoundFolder>) -> Seq<FoundFolder> {
    if found.len() > MAX_FOLDER_ENTRIES {
        found.take(MAX_FOLDER_ENTRIES as int)
    } else {
        found
    }
}

/// Folders in the order in which they are listed.
pub open spec fn arranged_folders(list: Seq<FolderView>) -> Seq<FolderView> {
    let keys = list.map_values(
        |folder: FolderView| KeyView { late: false, text: lower_text(folder.name) },
    );
    listed_order(keys, list.len()).map_values(|i: int| list[i])
}

/// Folders in a folder of the machine.
pub fn list_filesystem_directory(path: &str, parent: Option<&str>, found: &Vec<FoundFolder>) -> (r:
    RemoteDirectory)
    ensures
        r.ssh_host_alias@ == ""@,
        r.absolute_path@ == path@,
        text_of(r.parent_path) == str_of(parent),
        folders_view(r.entries@) == arranged_folders(shown_folders(looked_at(found@))),
{
    let count: usize = if found.len() > MAX_FOLDER_ENTRIES {
        MAX_FOLDER_ENTRIES
    } else {
        found.len()
    };
    let ghost seen = looked_at(found@);
    assert(seen =~= found@.take(count as int));
    let mut shown: Vec<RemoteDirectoryEntry> = Vec::new();
    let mut keys: Vec<SortKey> = Vec::new();
    let ghost key_of = |folder: FolderView|
        KeyView { late: false, text: lower_text(folder.name) };
    let mut i: usize = 0;
    proof {
        assert(seen.take(0) =~= Seq::empty());
        assert(folders_view(shown@) =~= Seq::empty());
        assert(keys_view(keys@) =~= Seq::<FolderView>::empty().map_values(key_of));
    }
    while i < count
        invariant
            0 <= i <= count <= found.len(),
            seen == found@.take(count as int),
            key_of == (|folder: FolderView|
                KeyView { late: false, text: lower_text(folder.name) }),
            folders_view(shown@) == shown_folders(seen.take(i as int)),
            keys_view(keys@) == folders_view(shown@).map_values(key_of),
        decreases count - i,
    {
        let ghost before = folders_view(shown@);
        let ghost before_keys = keys_view(keys@);
        proof {
            assert(seen.take(i + 1).drop_last() =~= seen.take(i as int));
            assert(seen.take(i + 1).last() == found@[i as int]);
        }
        let entry = &found[i];
        if entry.known && entry.is_directory {
            let folder = RemoteDirectoryEntry {
                name: take_chars(entry.name.as_str(), MAX_NAME_CHARS),
                absolute_path: take_chars(entry.path.as_str(), MAX_PATH_CHARS),
                is_directory: true,
                is_symlink: entry.is_symlink,
            };
            let key = SortKey { late: false, text: unicode_lower(folder.name.as_str()) };
            shown.push(folder);
            keys.push(key);
            assert(folders_view(shown@) =~= before.push(folder@));
            assert(keys_view(keys@) =~= before_keys.push(key@));
            assert(keys_view(keys@) =~= folders_view(shown@).map_values(key_of));
        }
        i += 1;
    }
    assert(seen.take(count as int) =~= seen);
    let ghost list = folders_view(shown@);
    let order = listing_order(&keys);
    let mut entries: Vec<RemoteDirectoryEntry> = Vec::new();
    let ghost wanted = arranged_folders(list);
    let mut k: usize = 0;
    assert(folders_view(entries@) =~= wanted.take(0));
    while k < order.len()
        invariant
            0 <= k <= order.len(),
            list == folders_view(shown@),
            shown.len() == list.len(),
            crate::listing::is_arrangement(numbers(order@), list.len()),
            wanted == numbers(order@).map_values(|i: int| list[i]),
            folders_view(entries@) == wanted.take(k as int),
        decreases order.len() - k,
    {
        let ghost before = folders_view(entries@);
        assert(numbers(order@)[k as int] == order@[k as int] as int);
        let folder = &shown[order[k]];
        let copy = RemoteDirectoryEntry {
            name: folder.name.clone(),
            absolute_path: folder.absolute_path.clone(),
            is_directory: folder.is_directory,
            is_symlink: folder.is_symlink,
        };
        assert(wanted[k as int] == copy@);
        entries.push(copy);
        assert(folders_view(entries@) =~= before.push(copy@));
        k += 1;
        assert(folders_view(entries@) =~= wanted.take(k as int));
    }
    assert(wanted.take(wanted.len() as int) =~= wanted);
    RemoteDirectory {
        ssh_host_alias: "".to_owned(),
        absolute_path: path.to_owned(),
        parent_path: match parent {
            Some(parent) => Some(parent.to_owned()),
            None => None,
        },
        entries,
    }
}

// ---- what the listings promise ----

/// What belongs to Git, to the runtime and to build tools is not listed, nor is
/// what has no kind. Everything else is, under its own name and kind, with its
/// path below the project.
pub proof fn lemma_what_is_listed(relative: Seq<char>, entry: FoundEntry)
    ensures
        entry.name@ == ".git"@ || entry.name@ == ".ditch"@ || entry.name@ == ".dart_tool"@ || entry.name@
            == "build"@ || entry.name@ == "target"@ || entry.name@ == "node_modules"@ || entry.kind is None
            <==> shown_entry(relative, entry) is None,
        shown_entry(relative, entry) matches Some(shown) ==> shown.name == entry.name@ && entry.kind == Some(
            shown.kind,
        ) && shown.size == entry.size && (relative.len() == 0 ==> shown.relative_path == entry.name@) && (
        relative.len() > 0 ==> shown.relative_path == relative + "/"@ + entry.name@),
{
    let names = hidden_names();
    assert(names.len() == 6);
    assert(names[0] == ".git"@ && names[1] == ".ditch"@ && names[2] == ".dart_tool"@ && names[3] == "build"@
        && names[4] == "target"@ && names[5] == "node_modules"@);
    if names.contains(entry.name@) {
        let i = choose|i: int| 0 <= i < names.len() && names[i] == entry.name@;
        assert(i == 0 || i == 1 || i == 2 || i == 3 || i == 4 || i == 5);
    }
}

/// An entry is listed exactly if it is shown for one that is found.
pub proof fn lemma_listed_entries_are_found(relative: Seq<char>, found: Seq<FoundEntry>, entry: EntryView)
    ensures
        shown_entries(relative, found).contains(entry) <==> exists|i: int|
            0 <= i < found.len() && shown_entry(relative, #[trigger] found[i]) == Some(entry),
    decreases found.len(),
{
    if found.len() > 0 {
        let before = found.drop_last();
        lemma_listed_entries_are_found(relative, before, entry);
        let old_list = shown_entries(relative, before);
        let list = shown_entries(relative, found);
        assert forall|i: int| 0 <= i < before.len() implies #[trigger] before[i] == found[i] by {}
        if old_list.contains(entry) {
            let i = choose|i: int|
                0 <= i < before.len() && shown_entry(relative, #[trigger] before[i]) == Some(entry);
            assert(shown_entry(relative, found[i]) == Some(entry));
            let k = choose|k: int| 0 <= k < old_list.len() && old_list[k] == entry;
            assert(list[k] == entry);
        }
        if shown_entry(relative, found.last()) == Some(entry) {
            assert(shown_entry(relative, found[found.len() - 1]) == Some(entry));
            assert(list[list.len() - 1] == entry);
        }
        if list.contains(entry) && !old_list.contains(entry) {
            let k = choose|k: int| 0 <= k < list.len() && list[k] == entry;
            if k < old_list.len() {
                assert(old_list[k] == entry);
            }
        }
        if exists|i: int| 0 <= i < found.len() && shown_entry(relative, #[trigger] found[i]) == Some(entry) {
            let i = choose|i: int|
                0 <= i < found.len() && shown_entry(relative, #[trigger] found[i]) == Some(entry);
            if i < before.len() {
                assert(shown_entry(relative, before[i]) == Some(entry));
            }
        }
    }
}

/// A listing has all entries, each once, folders before everything else, and in
/// each of the two groups none whose name in lower case comes before that of one
/// ahead of it.
pub proof fn lemma_folders_are_listed_first(list: Seq<EntryView>, i: int, j: int)
    requires
        0 <= i < j < list.len(),
    ensures
        arranged_entries(list).len() == list.len(),
        list.contains(arranged_entries(list)[i]),
        arranged_entries(list)[j].kind == ProjectFileKind::Directory ==> arranged_entries(list)[i].kind
            == ProjectFileKind::Directory,
        arranged_entries(list)[i].kind == arranged_entries(list)[j].kind ==> !precedes(
            lower_text(arranged_entries(list)[j].name),
            lower_text(arranged_entries(list)[i].name),
        ),
{
    let keys = list.map_values(|entry: EntryView| entry_key(entry));
    lemma_listing_is_stable(keys, list.len());
    let order = listed_order(keys, list.len());
    assert(arranged_entries(list)[i] == list[order[i]]);
    assert(arranged_entries(list)[j] == list[order[j]]);
    assert(keys[order[i]] == entry_key(list[order[i]]));
    assert(keys[order[j]] == entry_key(list[order[j]]));
    assert(!key_precedes(keys[order[j]], keys[order[i]]));
}

/// A file can be edited exactly if it has at most a mebibyte, is UTF-8 and holds
/// no zero; then its text is what its bytes stand for.
pub proof fn lemma_what_can_be_edited(bytes: Seq<u8>)
    ensures
        bytes.len() > 1048576 ==> (editable_text(bytes) matches Err(e) && e.code == "file_too_large"@),
        bytes.len() <= 1048576 && !vstd::utf8::valid_utf8(bytes) ==> (editable_text(bytes) matches Err(e)
            && e.code == "binary_file"@),
        editable_text(bytes) matches Ok(text) ==> text == vstd::utf8::decode_utf8(bytes) && forall|i: int|
            0 <= i < text.len() ==> #[trigger] text[i] != '\0',
        bytes.len() <= 1048576 && vstd::utf8::valid_utf8(bytes) && !vstd::utf8::decode_utf8(bytes).contains(
            '\0',
        ) ==> editable_text(bytes) is Ok,
{
    if editable_text(bytes) is Ok {
        let text = editable_text(bytes)->Ok_0;
        assert forall|i: int| 0 <= i < text.len() implies #[trigger] text[i] != '\0' by {
            if text[i] == '\0' {
                assert(text.contains('\0'));
            }
        }
    }
}

/// Of a folder of the machine only folders are told, links to folders as what
/// they are, with the beginning of a name or a path that is too long. Only the
/// first twenty thousand entries are looked at.
pub proof fn lemma_only_folders_are_told(found: Seq<FoundFolder>, entry: FoundFolder)
    ensures
        shown_folder(entry) is Some <==> entry.known && entry.is_directory,
        shown_folder(entry) matches Some(shown) ==> shown.is_directory && shown.is_symlink == entry.is_symlink && (
        entry.name@.len() <= 1024 ==> shown.name == entry.name@) && (entry.name@.len() > 1024 ==> shown.name
            == entry.name@.take(1024)) && (entry.path@.len() <= 4096 ==> shown.absolute_path == entry.path@) && (
        entry.path@.len() > 4096 ==> shown.absolute_path == entry.path@.take(4096)),
        found.len() <= 20000 ==> looked_at(found) == found,
        found.len() > 20000 ==> looked_at(found) == found.take(20000),
{
}

/// Every folder among the entries that are looked at is told, and nothing else.
pub proof fn lemma_told_folders_are_found(found: Seq<FoundFolder>, folder: FolderView)
    ensures
        shown_folders(found).contains(folder) <==> exists|i: int|
            0 <= i < found.len() && shown_folder(#[trigger] found[i]) == Some(folder),
    decreases found.len(),
{
    if found.len() > 0 {
        let before = found.drop_last();
        lemma_told_folders_are_found(before, folder);
        let old_list = shown_folders(before);
        let list = shown_folders(found);
        assert forall|i: int| 0 <= i < before.len() implies #[trigger] before[i] == found[i] by {}
        if old_list.contains(folder) {
            let i = choose|i: int| 0 <= i < before.len() && shown_folder(#[trigger] before[i]) == Some(folder);
            assert(shown_folder(found[i]) == Some(folder));
            let k = choose|k: int| 0 <= k < old_list.len() && old_list[k] == folder;
            assert(list[k] == folder);
        }
        if shown_folder(found.last()) == Some(folder) {
            assert(shown_folder(found[found.len() - 1]) == Some(folder));
            assert(list[list.len() - 1] == folder);
        }
        if list.contains(folder) && !old_list.contains(folder) {
            let k = choose|k: int| 0 <= k < list.len() && list[k] == folder;
            if k < old_list.len() {
                assert(old_list[k] == folder);
            }
        }
        if exists|i: int| 0 <= i < found.len() && shown_folder(#[trigger] found[i]) == Some(folder) {
            let i = choose|i: int| 0 <= i < found.len() && shown_folder(#[trigger] found[i]) == Some(folder);
            if i < before.len() {
                assert(shown_folder(before[i]) == Some(folder));
            }
        }
    }
}

/// Folders are told completely and in the order of their names in lower case.
pub proof fn lemma_folders_are_told_in_order(list: Seq<FolderView>, i: int, j: int)
    requires
        0 <= i < j < list.len(),
    ensures
        arranged_folders(list).len() == list.len(),
        list.contains(arranged_folders(list)[i]),
        !precedes(
            lower_text(arranged_folders(list)[j].name),
            lower_text(arranged_folders(list)[i].name),
        ),
{
    let keys = list.map_values(
        |folder: FolderView| KeyView { late: false, text: lower_text(folder.name) },
    );
    lemma_listing_is_stable(keys, list.len());
    let order = listed_order(keys, list.len());
    assert(arranged_folders(list)[i] == list[order[i]]);
    assert(arranged_folders(list)[j] == list[order[j]]);
    assert(keys[order[i]].text == lower_text(list[order[i]].name));
    assert(keys[order[j]].text == lower_text(list[order[j]].name));
    assert(!key_precedes(keys[order[j]], keys[order[i]]));
}

} // verus!
