//! Where Codex is looked for, which installation is worked with, and the search
//! path that it is started with.

use crate::codex_cli::{output_of, CommandOutput};
use crate::model::{error_of, protocol_error, ProtocolError};
use crate::paths::{absolute, is_absolute, join_path, joined_path, path_parts};
use crate::sessions::same_path;
use crate::text::{
    append_texts, begins_with, contains, contains_char, glue_texts, glued, has_part, is_text,
    lemma_pieces_not_empty,
    lossy_text, pieces, same_text, split_text, starts_with, str_of, text_list, text_lossy, text_of,
    stands_at, texts_of, trim, trimmed,
};
use vstd::prelude::*;

verus! {

// ---- candidates ----

/// What is known of places in which Codex may be.
#[derive(Debug)]
pub struct CodexPlaces {
    /// The installation that was selected.
    pub preferred: Option<String>,
    /// The one that a login shell finds.
    pub login_shell: Option<String>,
    /// The one that is found in the usual places.
    pub found: Option<String>,
    /// The user's folder.
    pub home: Option<String>,
    /// The versions of Node under `.nvm` in the user's folder.
    pub nvm: Vec<String>,
    /// The versions of Node under `fnm` in the user's folder.
    pub fnm: Vec<String>,
}

/// A list of one, or of none.
pub open spec fn listed(text: Option<String>) -> Seq<Seq<char>> {
    match text {
        Some(text) => seq![text@],
        None => Seq::empty(),
    }
}

/// Places below a folder.
pub open spec fn below(root: Seq<char>, rest: Seq<Seq<char>>) -> Seq<Seq<char>> {
    rest.map_values(|path: Seq<char>| joined_path(root, path))
}

/// One place below each of several folders.
pub open spec fn below_each(roots: Seq<Seq<char>>, rest: Seq<char>) -> Seq<Seq<char>> {
    roots.map_values(|root: Seq<char>| joined_path(root, rest))
}

/// The places below the user's folder in which Codex may be.
pub open spec fn home_places() -> Seq<Seq<char>> {
    seq![
        ".volta/bin/codex"@,
        ".asdf/shims/codex"@,
        ".local/share/mise/shims/codex"@,
        ".local/bin/codex"@,
        ".npm-global/bin/codex"@,
        ".bun/bin/codex"@,
        ".nix-profile/bin/codex"@,
        ".yarn/bin/codex"@,
        "Library/pnpm/codex"@,
        ".local/share/pnpm/codex"@,
    ]
}

/// The places of the system in which Codex may be.
pub open spec fn system_places() -> Seq<Seq<char>> {
    seq![
        "/opt/homebrew/bin/codex"@,
        "/usr/local/bin/codex"@,
        "/opt/local/bin/codex"@,
        "/usr/bin/codex"@,
    ]
}

/// Where Codex may be, the most wanted first.
pub open spec fn candidates_of(places: CodexPlaces) -> Seq<Seq<char>> {
    listed(places.preferred) + listed(places.login_shell) + listed(places.found) + (
    match places.home {
        Some(home) => below(home@, home_places()) + below_each(texts_of(places.nvm@), "bin/codex"@)
            + below_each(texts_of(places.fnm@), "installation/bin/codex"@),
        None => Seq::empty(),
    }) + system_places()
}

/// Appends a text, where there is one.
fn append_listed(list: &mut Vec<String>, text: &Option<String>)
    ensures
        texts_of(final(list)@) == texts_of(old(list)@) + listed(*text),
{
    let ghost before = texts_of(list@);
    if let Some(text) = text {
        list.push(text.clone());
    }
    assert(texts_of(list@) =~= before + listed(*text));
}

/// Appends places below a folder.
fn append_below(list: &mut Vec<String>, root: &str, rest: &Vec<String>)
    ensures
        texts_of(final(list)@) == texts_of(old(list)@) + below(root@, texts_of(rest@)),
{
    let ghost before = texts_of(list@);
    let ghost added = below(root@, texts_of(rest@));
    let mut i: usize = 0;
    assert(before =~= before + added.take(0));
    while i < rest.len()
        invariant
            0 <= i <= rest.len(),
            added == below(root@, texts_of(rest@)),
            texts_of(list@) == before + added.take(i as int),
        decreases rest.len() - i,
    {
        let ghost so_far = texts_of(list@);
        let path = join_path(root, rest[i].as_str());
        list.push(path);
        assert(texts_of(list@) =~= so_far.push(added[i as int]));
        i += 1;
        assert(texts_of(list@) =~= before + added.take(i as int));
    }
    assert(added.take(added.len() as int) =~= added);
}

/// Appends one place below each of several folders.
fn append_below_each(list: &mut Vec<String>, roots: &Vec<String>, rest: &str)
    ensures
        texts_of(final(list)@) == texts_of(old(list)@) + below_each(texts_of(roots@), rest@),
{
    let ghost before = texts_of(list@);
    let ghost added = below_each(texts_of(roots@), rest@);
    let mut i: usize = 0;
    assert(before =~= before + added.take(0));
    while i < roots.len()
        invariant
            0 <= i <= roots.len(),
            added == below_each(texts_of(roots@), rest@),
            texts_of(list@) == before + added.take(i as int),
        decreases roots.len() - i,
    {
        let ghost so_far = texts_of(list@);
        let path = join_path(roots[i].as_str(), rest);
        list.push(path);
        assert(texts_of(list@) =~= so_far.push(added[i as int]));
        i += 1;
        assert(texts_of(list@) =~= before + added.take(i as int));
    }
    assert(added.take(added.len() as int) =~= added);
}

/// Where Codex may be, the most wanted first.
pub fn codex_candidates(places: &CodexPlaces) -> (r: Vec<String>)
    ensures
        texts_of(r@) == candidates_of(*places),
{
    let mut list: Vec<String> = Vec::new();
    assert(texts_of(list@) =~= Seq::empty());
    append_listed(&mut list, &places.preferred);
    append_listed(&mut list, &places.login_shell);
    append_listed(&mut list, &places.found);
    let ghost start = texts_of(list@);
    if let Some(home) = &places.home {
        let rest = text_list(
            [
                ".volta/bin/codex",
                ".asdf/shims/codex",
                ".local/share/mise/shims/codex",
                ".local/bin/codex",
                ".npm-global/bin/codex",
                ".bun/bin/codex",
                ".nix-profile/bin/codex",
                ".yarn/bin/codex",
                "Library/pnpm/codex",
                ".local/share/pnpm/codex",
            ],
        );
        assert(texts_of(rest@) =~= home_places());
        append_below(&mut list, home.as_str(), &rest);
        append_below_each(&mut list, &places.nvm, "bin/codex");
        append_below_each(&mut list, &places.fnm, "installation/bin/codex");
    }
    let system = text_list(
        [
            "/opt/homebrew/bin/codex",
            "/usr/local/bin/codex",
            "/opt/local/bin/codex",
            "/usr/bin/codex",
        ],
    );
    assert(texts_of(system@) =~= system_places());
    append_texts(&mut list, system);
    assert(texts_of(list@) =~= candidates_of(*places));
    list
}

/// The folders below the user's in which executables usually are.
pub open spec fn home_folders() -> Seq<Seq<char>> {
    seq![".nvm/current/bin"@, ".npm-global/bin"@, ".local/bin"@]
}

/// The folders of the system in which executables usually are.
pub open spec fn system_folders() -> Seq<Seq<char>> {
    seq!["/opt/homebrew/bin"@, "/usr/local/bin"@, "/usr/bin"@]
}

/// Where an executable may be: in the usual folders, then in those of the search
/// path.
pub open spec fn binary_places(home: Option<Seq<char>>, path: Option<Seq<char>>, name: Seq<char>) -> Seq<
    Seq<char>,
> {
    below_each(
        (match home {
            Some(home) => below(home, home_folders()),
            None => Seq::empty(),
        }) + system_folders() + (match path {
            Some(path) => pieces(path, ':'),
            None => Seq::empty(),
        }),
        name,
    )
}

/// Where an executable may be, the most wanted first.
pub fn binary_candidates(home: Option<&str>, path: Option<&str>, name: &str) -> (r: Vec<String>)
    ensures
        texts_of(r@) == binary_places(str_of(home), str_of(path), name@),
{
    let mut folders: Vec<String> = Vec::new();
    assert(texts_of(folders@) =~= Seq::empty());
    if let Some(home) = home {
        let rest = text_list([".nvm/current/bin", ".npm-global/bin", ".local/bin"]);
        assert(texts_of(rest@) =~= home_folders());
        append_below(&mut folders, home, &rest);
    }
    let ghost start = texts_of(folders@);
    let system = text_list(["/opt/homebrew/bin", "/usr/local/bin", "/usr/bin"]);
    assert(texts_of(system@) =~= system_folders());
    append_texts(&mut folders, system);
    if let Some(path) = path {
        append_texts(&mut folders, split_text(path, ':'));
    }
    let ghost folder_views = texts_of(folders@);
    assert(folder_views =~= (match str_of(home) {
        Some(home) => below(home, home_folders()),
        None => Seq::empty(),
    }) + system_folders() + (match str_of(path) {
        Some(path) => pieces(path, ':'),
        None => Seq::empty(),
    }));
    let mut list: Vec<String> = Vec::new();
    assert(texts_of(list@) =~= Seq::empty());
    append_below_each(&mut list, &folders, name);
    assert(texts_of(list@) =~= below_each(folder_views, name@));
    list
}

// ---- login shells ----

/// The command with which a login shell is asked for an executable.
pub fn login_shell_command(name: &str) -> (r: String)
    ensures
        r@ == "command -v "@ + name@,
{
    let mut text = "command -v ".to_owned();
    text.append(name);
    text
}

/// The lines of a text, the last first, without blank ends.
pub open spec fn lines_back(text: Seq<char>) -> Seq<Seq<char>> {
    pieces(text, '\n').map_values(|line: Seq<char>| trimmed(line)).reverse()
}

/// That a line names an absolute place.
pub open spec fn names_place() -> spec_fn(Seq<char>) -> bool {
    |line: Seq<char>| begins_with(line, "/"@)
}

/// That a line may be a search path.
pub open spec fn names_path() -> spec_fn(Seq<char>) -> bool {
    |line: Seq<char>| has_part(line, "/"@) && has_part(line, ":"@)
}

/// The lines that a command that succeeded printed, the last first, that pass a
/// test.
pub open spec fn printed_lines(output: Option<CommandOutput>, keep: spec_fn(Seq<char>) -> bool) -> Seq<
    Seq<char>,
> {
    match output {
        Some(output) if output.success => lines_back(lossy_text(output.stdout@)).filter(keep),
        _ => Seq::empty(),
    }
}

/// The lines of a text, the last first, without blank ends.
fn read_lines_back(text: &str) -> (r: Vec<String>)
    ensures
        texts_of(r@) == lines_back(text@),
{
    let lines = split_text(text, '\n');
    let ghost forward = pieces(text@, '\n').map_values(|line: Seq<char>| trimmed(line));
    let ghost wanted = lines_back(text@);
    let mut list: Vec<String> = Vec::new();
    let mut i: usize = lines.len();
    assert(texts_of(list@) =~= wanted.take(0));
    while i > 0
        invariant
            0 <= i <= lines.len(),
            texts_of(lines@) == pieces(text@, '\n'),
            forward == pieces(text@, '\n').map_values(|line: Seq<char>| trimmed(line)),
            wanted == forward.reverse(),
            texts_of(list@) == wanted.take(lines.len() - i),
        decreases i,
    {
        i -= 1;
        let ghost before = texts_of(list@);
        let ghost at = lines.len() - 1 - i;
        let line = trim(lines[i].as_str());
        proof {
            assert(texts_of(lines@)[i as int] == lines@[i as int]@);
            assert(wanted[at] == forward[i as int]);
        }
        list.push(line);
        assert(texts_of(list@) =~= before.push(line@));
        assert(texts_of(list@) =~= wanted.take(at + 1));
    }
    assert(texts_of(lines@).len() == lines@.len());
    assert(wanted.take(wanted.len() as int) =~= wanted);
    list
}

/// What a login shell may have named as the place of an executable, the most
/// likely first.
pub fn login_shell_binary(output: Option<&CommandOutput>) -> (r: Vec<String>)
    ensures
        texts_of(r@) == printed_lines(output_of(output), names_place()),
{
    let mut list: Vec<String> = Vec::new();
    assert(texts_of(list@) =~= Seq::empty());
    let output = match output {
        Some(output) => output,
        None => {
            return list;
        },
    };
    if !output.success {
        return list;
    }
    let text = text_lossy(&output.stdout);
    let lines = read_lines_back(text.as_str());
    let ghost views = texts_of(lines@);
    let mut i: usize = 0;
    proof {
        reveal(Seq::filter);
        assert(views.take(0) =~= Seq::empty());
    }
    while i < lines.len()
        invariant
            0 <= i <= lines.len(),
            views == texts_of(lines@),
            texts_of(list@) == views.take(i as int).filter(names_place()),
        decreases lines.len() - i,
    {
        proof {
            reveal(Seq::filter);
            assert(views.take(i + 1).drop_last() =~= views.take(i as int));
            assert(views.take(i + 1).last() == lines@[i as int]@);
        }
        let ghost before = texts_of(list@);
        if starts_with(lines[i].as_str(), "/") {
            list.push(lines[i].clone());
            assert(texts_of(list@) =~= before.push(lines@[i as int]@));
        }
        i += 1;
    }
    assert(views.take(views.len() as int) =~= views);
    list
}

/// The search path that a login shell printed: the last line that may be one.
pub fn login_shell_path(output: Option<&CommandOutput>) -> (r: Option<String>)
    ensures
        ({
            let lines = printed_lines(output_of(output), names_path());
            text_of(r) == (if lines.len() > 0 {
                Some(lines[0])
            } else {
                None
            })
        }),
{
    let run = match output {
        Some(run) => run,
        None => {
            return None;
        },
    };
    if !run.success {
        return None;
    }
    let text = text_lossy(&run.stdout);
    let lines = read_lines_back(text.as_str());
    let ghost views = texts_of(lines@);
    let mut i: usize = 0;
    proof {
        reveal(Seq::filter);
        assert(views.take(0) =~= Seq::empty());
    }
    while i < lines.len()
        invariant
            0 <= i <= lines.len(),
            views == texts_of(lines@),
            output == Some(run),
            views == lines_back(lossy_text(run.stdout@)),
            run.success,
            views.take(i as int).filter(names_path()) == Seq::<Seq<char>>::empty(),
        decreases lines.len() - i,
    {
        proof {
            reveal(Seq::filter);
            assert(views.take(i + 1).drop_last() =~= views.take(i as int));
            assert(views.take(i + 1).last() == lines@[i as int]@);
        }
        if contains(lines[i].as_str(), "/") && contains(lines[i].as_str(), ":") {
            proof {
                lemma_filter_starts(views, names_path(), i + 1);
                assert(views.take(i + 1).filter(names_path())[0] == lines@[i as int]@);
            }
            return Some(lines[i].clone());
        }
        i += 1;
    }
    assert(views.take(views.len() as int) =~= views);
    None
}

proof fn lemma_filter_starts(list: Seq<Seq<char>>, keep: spec_fn(Seq<char>) -> bool, at: int)
    requires
        0 <= at <= list.len(),
        list.take(at).filter(keep).len() > 0,
    ensures
        list.filter(keep).len() > 0,
        list.filter(keep)[0] == list.take(at).filter(keep)[0],
    decreases list.len() - at,
{
    reveal(Seq::filter);
    if at == list.len() {
        assert(list.take(at) =~= list);
    } else {
        assert(list.take(at + 1).drop_last() =~= list.take(at));
        lemma_filter_starts(list, keep, at + 1);
    }
}

// ---- the search path ----

/// That two paths have the same parts.
pub open spec fn same_place(left: Seq<char>, right: Seq<char>) -> bool {
    path_parts(left) == path_parts(right)
}

/// That a place is among others.
pub open spec fn has_place(list: Seq<Seq<char>>, path: Seq<char>) -> bool {
    exists|i: int| 0 <= i < list.len() && same_place(#[trigger] list[i], path)
}

/// Paths without those whose place came before.
pub open spec fn first_places(list: Seq<Seq<char>>) -> Seq<Seq<char>>
    decreases list.len(),
{
    if list.len() == 0 {
        Seq::empty()
    } else {
        let before = first_places(list.drop_last());
        if has_place(before, list.last()) {
            before
        } else {
            before.push(list.last())
        }
    }
}

/// The folders that a search path is made of.
pub open spec fn path_folders(parent: Option<Seq<char>>, login: Option<Seq<char>>, current: Option<Seq<char>>) -> Seq<
    Seq<char>,
> {
    (match parent {
        Some(folder) => seq![folder],
        None => Seq::empty(),
    }) + (match login {
        Some(path) => pieces(path, ':'),
        None => Seq::empty(),
    }) + (match current {
        Some(path) => pieces(path, ':'),
        None => Seq::empty(),
    })
}

/// That no folder holds the sign between folders.
pub open spec fn can_be_joined(folders: Seq<Seq<char>>) -> bool {
    forall|i: int| 0 <= i < folders.len() ==> !(#[trigger] folders[i]).contains(':')
}

/// The search path with which an executable is started: its own folder first, then
/// those of the login shell, then the present ones, each place once.
pub open spec fn effective_path(parent: Option<Seq<char>>, login: Option<Seq<char>>, current: Option<Seq<char>>) -> Option<
    Seq<char>,
> {
    let folders = first_places(path_folders(parent, login, current));
    if can_be_joined(folders) {
        Some(glued(folders, ":"@))
    } else {
        None
    }
}

/// Whether a place is among others.
fn holds_place(list: &Vec<String>, path: &str) -> (r: bool)
    ensures
        r == has_place(texts_of(list@), path@),
{
    let ghost views = texts_of(list@);
    let mut i: usize = 0;
    while i < list.len()
        invariant
            0 <= i <= list.len(),
            views == texts_of(list@),
            forall|k: int| 0 <= k < i ==> !same_place(#[trigger] views[k], path@),
        decreases list.len() - i,
    {
        assert(views[i as int] == list@[i as int]@);
        if same_path(list[i].as_str(), path) {
            assert(same_place(texts_of(list@)[i as int], path@));
            return true;
        }
        i += 1;
    }
    false
}

/// The search path with which an executable is started.
pub fn effective_path_for_binary(parent: Option<&str>, login: Option<&str>, current: Option<&str>) -> (r:
    Option<String>)
    ensures
        text_of(r) == effective_path(str_of(parent), str_of(login), str_of(current)),
{
    let mut all: Vec<String> = Vec::new();
    assert(texts_of(all@) =~= Seq::empty());
    if let Some(folder) = parent {
        all.push(folder.to_owned());
        assert(texts_of(all@) =~= seq![folder@]);
    }
    if let Some(path) = login {
        append_texts(&mut all, split_text(path, ':'));
    }
    if let Some(path) = current {
        append_texts(&mut all, split_text(path, ':'));
    }
    let ghost folders = texts_of(all@);
    assert(folders =~= path_folders(str_of(parent), str_of(login), str_of(current)));
    let mut kept: Vec<String> = Vec::new();
    let mut i: usize = 0;
    proof {
        assert(folders.take(0) =~= Seq::empty());
        assert(texts_of(kept@) =~= Seq::empty());
    }
    while i < all.len()
        invariant
            0 <= i <= all.len(),
            folders == texts_of(all@),
            texts_of(kept@) == first_places(folders.take(i as int)),
        decreases all.len() - i,
    {
        proof {
            assert(folders.take(i + 1).drop_last() =~= folders.take(i as int));
            assert(folders.take(i + 1).last() == all@[i as int]@);
        }
        let ghost before = texts_of(kept@);
        if !holds_place(&kept, all[i].as_str()) {
            kept.push(all[i].clone());
            assert(texts_of(kept@) =~= before.push(all@[i as int]@));
        }
        i += 1;
    }
    assert(folders.take(folders.len() as int) =~= folders);
    join_folders(&kept)
}

/// The search path made of folders, where they can be joined.
fn join_folders(folders: &Vec<String>) -> (r: Option<String>)
    ensures
        text_of(r) == (if can_be_joined(texts_of(folders@)) {
            Some(glued(texts_of(folders@), ":"@))
        } else {
            None
        }),
{
    let ghost places = texts_of(folders@);
    let mut k: usize = 0;
    while k < folders.len()
        invariant
            0 <= k <= folders.len(),
            places == texts_of(folders@),
            forall|j: int| 0 <= j < k ==> !(#[trigger] places[j]).contains(':'),
        decreases folders.len() - k,
    {
        assert(places[k as int] == folders@[k as int]@);
        if contains_char(folders[k].as_str(), ':') {
            assert(texts_of(folders@)[k as int].contains(':'));
            return None;
        }
        k += 1;
    }
    Some(glue_texts(folders, ":"))
}

/// What a check of a task finds of the project's own dependencies: they are used
/// where they lie, not copied.
#[derive(Debug)]
pub struct DependencyEnvironment {
    pub node_path: Option<String>,
    pub virtual_env: Option<String>,
    pub path: Option<String>,
}

/// The folders that a check of a task searches.
pub open spec fn dependency_folders(root: Seq<char>, node: bool, python: bool, path: Option<Seq<char>>) -> Seq<
    Seq<char>,
> {
    (if node {
        seq![joined_path(joined_path(root, "node_modules"@), ".bin"@)]
    } else {
        Seq::empty()
    }) + (if python {
        seq![joined_path(joined_path(root, ".venv"@), "bin"@)]
    } else {
        Seq::empty()
    }) + (match path {
        Some(path) => pieces(path, ':'),
        None => Seq::empty(),
    })
}

/// What a check of a task finds of the project's own dependencies, by whether the
/// project has a folder of Node's and one of Python's.
pub fn dependency_environment(root: &str, node: bool, python: bool, path: Option<&str>) -> (r:
    DependencyEnvironment)
    ensures
        text_of(r.node_path) == (if node {
            Some(joined_path(root@, "node_modules"@))
        } else {
            None
        }),
        text_of(r.virtual_env) == (if python {
            Some(joined_path(root@, ".venv"@))
        } else {
            None
        }),
        ({
            let folders = dependency_folders(root@, node, python, str_of(path));
            text_of(r.path) == (if can_be_joined(folders) {
                Some(glued(folders, ":"@))
            } else {
                None
            })
        }),
{
    let mut folders: Vec<String> = Vec::new();
    assert(texts_of(folders@) =~= Seq::empty());
    let node_modules = join_path(root, "node_modules");
    let virtual_env = join_path(root, ".venv");
    if node {
        folders.push(join_path(node_modules.as_str(), ".bin"));
    }
    if python {
        folders.push(join_path(virtual_env.as_str(), "bin"));
    }
    if let Some(path) = path {
        append_texts(&mut folders, split_text(path, ':'));
    }
    assert(texts_of(folders@) =~= dependency_folders(root@, node, python, str_of(path)));
    DependencyEnvironment {
        node_path: if node {
            Some(node_modules)
        } else {
            None
        },
        virtual_env: if python {
            Some(virtual_env)
        } else {
            None
        },
        path: join_folders(&folders),
    }
}

/// The file in which Codex keeps what it knows of its sessions.
pub fn codex_state_file(codex_home: Option<&str>, home: Option<&str>) -> (r: Option<String>)
    ensures
        text_of(r) == (match str_of(codex_home) {
            Some(folder) => Some(joined_path(folder, "state_5.sqlite"@)),
            None => match str_of(home) {
                Some(home) => Some(
                    joined_path(joined_path(home, ".codex"@), "state_5.sqlite"@),
                ),
                None => None,
            },
        }),
{
    match codex_home {
        Some(folder) => Some(join_path(folder, "state_5.sqlite")),
        None => match home {
            Some(home) => Some(join_path(join_path(home, ".codex").as_str(), "state_5.sqlite")),
            None => None,
        },
    }
}

proof fn lemma_first_places(list: Seq<Seq<char>>)
    ensures
        forall|i: int, j: int|
            0 <= i < j < first_places(list).len() ==> !same_place(
                #[trigger] first_places(list)[i],
                #[trigger] first_places(list)[j],
            ),
        forall|i: int|
            0 <= i < list.len() ==> has_place(first_places(list), #[trigger] list[i]),
    decreases list.len(),
{
    if list.len() > 0 {
        let shorter = list.drop_last();
        let before = first_places(shorter);
        let kept = first_places(list);
        lemma_first_places(shorter);
        assert forall|i: int, j: int| 0 <= i < j < kept.len() implies !same_place(
            #[trigger] kept[i],
            #[trigger] kept[j],
        ) by {
            assert(kept[i] == before[i]);
            if j < before.len() {
                assert(kept[j] == before[j]);
            }
        }
        assert forall|i: int| 0 <= i < list.len() implies has_place(kept, #[trigger] list[i]) by {
            if i < shorter.len() {
                assert(shorter[i] == list[i]);
                let at = choose|at: int| 0 <= at < before.len() && same_place(#[trigger] before[at], list[i]);
                assert(same_place(kept[at], list[i]));
            } else if !has_place(before, list.last()) {
                assert(same_place(kept[before.len() as int], list[i]));
            } else {
                let at = choose|at: int|
                    0 <= at < before.len() && same_place(#[trigger] before[at], list.last());
                assert(same_place(kept[at], list[i]));
            }
        }
    }
}

/// A search path names no place twice, and loses no folder that it is made of.
pub proof fn lemma_search_path_is_exact(parent: Option<Seq<char>>, login: Option<Seq<char>>, current: Option<Seq<char>>)
    ensures
        ({
            let folders = path_folders(parent, login, current);
            let kept = first_places(folders);
            &&& forall|i: int, j: int|
                0 <= i < j < kept.len() ==> !same_place(#[trigger] kept[i], #[trigger] kept[j])
            &&& forall|i: int| 0 <= i < folders.len() ==> has_place(kept, #[trigger] folders[i])
        }),
{
    lemma_first_places(path_folders(parent, login, current));
}

// ---- installations ----

/// An installation of Codex.
#[derive(Debug)]
pub struct CodexInstallation {
    pub path: String,
    pub version: String,
    pub selected: bool,
}

/// The mathematical value of an installation.
pub struct InstallationView {
    pub path: Seq<char>,
    pub version: Seq<char>,
    pub selected: bool,
}

impl View for CodexInstallation {
    type V = InstallationView;

    open spec fn view(&self) -> InstallationView {
        InstallationView { path: self.path@, version: self.version@, selected: self.selected }
    }
}

/// The mathematical value of installations.
pub open spec fn installations_view(list: Seq<CodexInstallation>) -> Seq<InstallationView> {
    list.map_values(|item: CodexInstallation| item@)
}

/// The installations that are found, one after the other.
#[derive(Debug)]
pub struct Discovery {
    pub preferred: Option<String>,
    /// The places that have been looked at.
    pub seen: Vec<String>,
    pub found: Vec<CodexInstallation>,
}

impl Discovery {
    /// Nothing has been looked at.
    pub fn new(preferred: Option<String>) -> (r: Discovery)
        ensures
            r.preferred == preferred,
            texts_of(r.seen@) == Seq::<Seq<char>>::empty(),
            installations_view(r.found@) == Seq::<InstallationView>::empty(),
    {
        let r = Discovery { preferred, seen: Vec::new(), found: Vec::new() };
        assert(texts_of(r.seen@) =~= Seq::<Seq<char>>::empty());
        assert(installations_view(r.found@) =~= Seq::<InstallationView>::empty());
        r
    }

    /// Whether a candidate is to be asked for its version: one that can be run, at
    /// a place that has not been looked at. The place is a canonical one.
    pub fn consider(&mut self, executable: bool, place: &str) -> (r: bool)
        ensures
            r == (executable && !has_place(texts_of(old(self).seen@), place@)),
            texts_of(final(self).seen@) == (if r {
                texts_of(old(self).seen@).push(place@)
            } else {
                texts_of(old(self).seen@)
            }),
            final(self).preferred == old(self).preferred,
            final(self).found == old(self).found,
    {
        let ghost before = texts_of(self.seen@);
        if !executable || holds_place(&self.seen, place) {
            return false;
        }
        self.seen.push(place.to_owned());
        assert(texts_of(self.seen@) =~= before.push(place@));
        true
    }

    /// A candidate has answered. One that reports no version is no installation.
    pub fn report(&mut self, path: String, version: Option<String>)
        ensures
            final(self).preferred == old(self).preferred,
            final(self).seen == old(self).seen,
            installations_view(final(self).found@) == (match version {
                Some(version) => installations_view(old(self).found@).push(
                    InstallationView {
                        path: path@,
                        version: version@,
                        selected: text_of(old(self).preferred) == Some(path@),
                    },
                ),
                None => installations_view(old(self).found@),
            }),
    {
        let ghost before = installations_view(self.found@);
        if let Some(version) = version {
            let selected = is_text(&self.preferred, path.as_str());
            self.found.push(CodexInstallation { path, version, selected });
            assert(installations_view(self.found@) =~= before.push(self.found@.last()@));
        }
    }
}

/// The place of the first installation that was selected.
pub open spec fn selected_at(list: Seq<InstallationView>) -> Option<Seq<char>>
    decreases list.len(),
{
    if list.len() == 0 {
        None
    } else {
        match selected_at(list.drop_last()) {
            Some(path) => Some(path),
            None => if list.last().selected {
                Some(list.last().path)
            } else {
                None
            },
        }
    }
}

/// The installation that is worked with: the selected one, else the first of those
/// that are found without a preference.
pub open spec fn resolved(found: Seq<InstallationView>, others: Seq<InstallationView>) -> Option<Seq<char>> {
    match selected_at(found) {
        Some(path) => Some(path),
        None => if others.len() > 0 {
            Some(others[0].path)
        } else {
            None
        },
    }
}

proof fn lemma_selected_found(list: Seq<InstallationView>, at: int)
    requires
        0 <= at <= list.len(),
        selected_at(list.take(at)) is Some,
    ensures
        selected_at(list) == selected_at(list.take(at)),
    decreases list.len() - at,
{
    if at == list.len() {
        assert(list.take(at) =~= list);
    } else {
        assert(list.take(at + 1).drop_last() =~= list.take(at));
        lemma_selected_found(list, at + 1);
    }
}

/// The installation that is worked with.
pub fn resolve_codex_binary(found: &Vec<CodexInstallation>, others: &Vec<CodexInstallation>) -> (r:
    Option<String>)
    ensures
        text_of(r) == resolved(installations_view(found@), installations_view(others@)),
{
    let ghost views = installations_view(found@);
    let mut i: usize = 0;
    assert(views.take(0) =~= Seq::empty());
    while i < found.len()
        invariant
            0 <= i <= found.len(),
            views == installations_view(found@),
            selected_at(views.take(i as int)) is None,
        decreases found.len() - i,
    {
        proof {
            assert(views.take(i + 1).drop_last() =~= views.take(i as int));
            assert(views.take(i + 1).last() == found@[i as int]@);
        }
        if found[i].selected {
            proof {
                lemma_selected_found(views, i + 1);
            }
            return Some(found[i].path.clone());
        }
        i += 1;
    }
    assert(views.take(views.len() as int) =~= views);
    if others.len() > 0 {
        assert(installations_view(others@)[0] == others@[0]@);
        Some(others[0].path.clone())
    } else {
        None
    }
}

/// That an installation is at a place.
pub open spec fn is_installed(list: Seq<InstallationView>, path: Seq<char>) -> bool {
    exists|i: int| 0 <= i < list.len() && (#[trigger] list[i]).path == path
}

/// The installation that is selected once those that there are have been found:
/// the old one where it is still there, else the first.
pub open spec fn reselected(binary: Option<Seq<char>>, list: Seq<InstallationView>) -> Option<Seq<char>> {
    if binary is Some && is_installed(list, binary->0) {
        binary
    } else if list.len() > 0 {
        Some(list[0].path)
    } else {
        binary
    }
}

/// Installations, with the selected one marked.
pub open spec fn marked(list: Seq<InstallationView>, binary: Option<Seq<char>>) -> Seq<InstallationView> {
    list.map_values(
        |item: InstallationView| InstallationView { selected: binary == Some(item.path), ..item },
    )
}

/// Whether an installation is at a place.
fn find_installed(list: &Vec<CodexInstallation>, path: &str) -> (r: bool)
    ensures
        r == is_installed(installations_view(list@), path@),
{
    let ghost views = installations_view(list@);
    let mut i: usize = 0;
    while i < list.len()
        invariant
            0 <= i <= list.len(),
            views == installations_view(list@),
            forall|k: int| 0 <= k < i ==> (#[trigger] views[k]).path != path@,
        decreases list.len() - i,
    {
        assert(views[i as int] == list@[i as int]@);
        if same_text(list[i].path.as_str(), path) {
            assert(installations_view(list@)[i as int].path == path@);
            return true;
        }
        i += 1;
    }
    false
}

/// The installation that is to be selected from now on and saved, where it is
/// another than before.
pub fn reselect_codex(binary: &Option<String>, list: &Vec<CodexInstallation>) -> (r: Option<String>)
    ensures
        ({
            let views = installations_view(list@);
            let kept = text_of(*binary) is Some && is_installed(views, text_of(*binary)->0);
            &&& r is Some <==> !kept && views.len() > 0
            &&& r is Some ==> text_of(r) == reselected(text_of(*binary), views)
            &&& r is None ==> reselected(text_of(*binary), views) == text_of(*binary)
        }),
{
    let kept = match binary {
        Some(path) => find_installed(list, path.as_str()),
        None => false,
    };
    if kept || list.len() == 0 {
        return None;
    }
    assert(installations_view(list@)[0] == list@[0]@);
    Some(list[0].path.clone())
}

/// Installations, with the selected one marked.
pub fn mark_selected(list: Vec<CodexInstallation>, binary: &Option<String>) -> (r: Vec<CodexInstallation>)
    ensures
        installations_view(r@) == marked(installations_view(list@), text_of(*binary)),
{
    let ghost wanted = marked(installations_view(list@), text_of(*binary));
    let mut done: Vec<CodexInstallation> = Vec::new();
    let mut i: usize = 0;
    assert(installations_view(done@) =~= wanted.take(0));
    while i < list.len()
        invariant
            0 <= i <= list.len(),
            wanted == marked(installations_view(list@), text_of(*binary)),
            installations_view(done@) == wanted.take(i as int),
        decreases list.len() - i,
    {
        let ghost before = installations_view(done@);
        let item = CodexInstallation {
            path: list[i].path.clone(),
            version: list[i].version.clone(),
            selected: is_text(binary, list[i].path.as_str()),
        };
        proof {
            assert(installations_view(list@)[i as int] == list@[i as int]@);
            assert(wanted[i as int] == item@);
        }
        done.push(item);
        assert(installations_view(done@) =~= before.push(item@));
        i += 1;
        assert(installations_view(done@) =~= wanted.take(i as int));
    }
    assert(wanted.take(wanted.len() as int) =~= wanted);
    done
}

/// Whether an installation can be selected.
pub fn select_codex_binary(path: &str, list: &Vec<CodexInstallation>) -> (r: Result<(), ProtocolError>)
    ensures
        if is_installed(installations_view(list@), path@) {
            r is Ok
        } else {
            r matches Err(e) && e@ == error_of(
                "invalid_codex_binary"@,
                "The selected Codex executable is unavailable or did not report a version"@,
            )
        },
{
    if find_installed(list, path) {
        Ok(())
    } else {
        Err(
            protocol_error(
                "invalid_codex_binary",
                "The selected Codex executable is unavailable or did not report a version",
            ),
        )
    }
}

/// Whether the selected installation is worked with as it is: one that can be run
/// and reports a version. Otherwise another is looked for.
pub fn keeps_codex_binary(preferred: &Option<String>, executable: bool, version: &Option<String>) -> (r: bool)
    ensures
        r == (preferred is Some && executable && version is Some),
{
    preferred.is_some() && executable && version.is_some()
}

/// Whether the folder that Codex keeps its own things in can be used: one that is
/// not named, or by an absolute path.
pub fn validate_codex_home(value: Option<&str>) -> (r: Result<(), String>)
    ensures
        match value {
            None => r is Ok,
            Some(path) => if is_absolute(path@) {
                r is Ok
            } else {
                r matches Err(message) && message@
                    == "CODEX_HOME must be an absolute path; use $HOME/.codex-name instead of "@ + path@
            },
        },
{
    match value {
        None => Ok(()),
        Some(path) => if absolute(path) {
            Ok(())
        } else {
            let mut message =
                "CODEX_HOME must be an absolute path; use $HOME/.codex-name instead of ".to_owned();
            message.append(path);
            Err(message)
        },
    }
}

// ---- what the searches promise ----

/// Codex is looked for where it was selected first, then where a login shell finds
/// it, then in the usual places; last of all in those of the system.
pub proof fn lemma_selected_place_comes_first(places: CodexPlaces)
    ensures
        ({
            let all = candidates_of(places);
            let n = all.len() as int;
            &&& n >= 4
            &&& places.preferred matches Some(path) ==> all[0] == path@
            &&& places.preferred is None ==> (places.login_shell matches Some(path) ==> all[0] == path@)
            &&& places.preferred is Some ==> (places.login_shell matches Some(path) ==> all[1] == path@)
            &&& places.preferred is None && places.login_shell is None ==> (places.found matches Some(path)
                ==> all[0] == path@)
            &&& all[n - 4] == "/opt/homebrew/bin/codex"@
            &&& all[n - 3] == "/usr/local/bin/codex"@
            &&& all[n - 2] == "/opt/local/bin/codex"@
            &&& all[n - 1] == "/usr/bin/codex"@
        }),
{
}

/// With a folder of the user's known, Codex is looked for in each place below it
/// that installers use, and in every version of Node there.
pub proof fn lemma_places_below_the_users_folder(places: CodexPlaces, k: int)
    requires
        places.home is Some,
        0 <= k,
    ensures
        ({
            let all = candidates_of(places);
            let home = places.home->0@;
            &&& all.contains(joined_path(home, ".volta/bin/codex"@))
            &&& all.contains(joined_path(home, ".asdf/shims/codex"@))
            &&& all.contains(joined_path(home, ".local/share/mise/shims/codex"@))
            &&& all.contains(joined_path(home, ".local/bin/codex"@))
            &&& all.contains(joined_path(home, ".npm-global/bin/codex"@))
            &&& all.contains(joined_path(home, ".bun/bin/codex"@))
            &&& all.contains(joined_path(home, ".nix-profile/bin/codex"@))
            &&& all.contains(joined_path(home, ".yarn/bin/codex"@))
            &&& all.contains(joined_path(home, "Library/pnpm/codex"@))
            &&& all.contains(joined_path(home, ".local/share/pnpm/codex"@))
            &&& k < places.nvm@.len() ==> all.contains(joined_path(places.nvm@[k]@, "bin/codex"@))
            &&& k < places.fnm@.len() ==> all.contains(joined_path(places.fnm@[k]@, "installation/bin/codex"@))
        }),
{
    let all = candidates_of(places);
    let home = places.home->0@;
    let at: int = listed(places.preferred).len() + listed(places.login_shell).len() + listed(
        places.found,
    ).len() as int;
    let known = below(home, home_places());
    assert(known.len() == 10);
    assert forall|i: int| 0 <= i < 10 implies #[trigger] all[at + i] == joined_path(home, home_places()[i]) by {
        assert(known[i] == joined_path(home, home_places()[i]));
    }
    assert(all[at + 0] == joined_path(home, ".volta/bin/codex"@));
    assert(all[at + 1] == joined_path(home, ".asdf/shims/codex"@));
    assert(all[at + 2] == joined_path(home, ".local/share/mise/shims/codex"@));
    assert(all[at + 3] == joined_path(home, ".local/bin/codex"@));
    assert(all[at + 4] == joined_path(home, ".npm-global/bin/codex"@));
    assert(all[at + 5] == joined_path(home, ".bun/bin/codex"@));
    assert(all[at + 6] == joined_path(home, ".nix-profile/bin/codex"@));
    assert(all[at + 7] == joined_path(home, ".yarn/bin/codex"@));
    assert(all[at + 8] == joined_path(home, "Library/pnpm/codex"@));
    assert(all[at + 9] == joined_path(home, ".local/share/pnpm/codex"@));
    if k < places.nvm@.len() {
        let list = below_each(texts_of(places.nvm@), "bin/codex"@);
        assert(texts_of(places.nvm@)[k] == places.nvm@[k]@);
        assert(list[k] == joined_path(places.nvm@[k]@, "bin/codex"@));
        assert(all[at + 10 + k] == list[k]);
    }
    if k < places.fnm@.len() {
        let list = below_each(texts_of(places.fnm@), "installation/bin/codex"@);
        assert(texts_of(places.fnm@)[k] == places.fnm@[k]@);
        assert(list[k] == joined_path(places.fnm@[k]@, "installation/bin/codex"@));
        assert(all[at + 10 + places.nvm@.len() + k] == list[k]);
    }
}

/// An executable is looked for in the usual folders before any folder of the
/// search path, and in every one of both.
pub proof fn lemma_usual_folders_come_first(home: Option<Seq<char>>, path: Option<Seq<char>>, name: Seq<char>, k: int)
    ensures
        ({
            let all = binary_places(home, path, name);
            let at: int = if home is Some {
                3
            } else {
                0
            };
            &&& home matches Some(folder) ==> all[0] == joined_path(
                joined_path(folder, ".nvm/current/bin"@),
                name,
            ) && all[1] == joined_path(joined_path(folder, ".npm-global/bin"@), name) && all[2] == joined_path(
                joined_path(folder, ".local/bin"@),
                name,
            )
            &&& all[at] == joined_path("/opt/homebrew/bin"@, name)
            &&& all[at + 1] == joined_path("/usr/local/bin"@, name)
            &&& all[at + 2] == joined_path("/usr/bin"@, name)
            &&& path is None ==> all.len() == at + 3
            &&& path matches Some(list) ==> all.len() == at + 3 + pieces(list, ':').len() && (0 <= k < pieces(
                list,
                ':',
            ).len() ==> all[at + 3 + k] == joined_path(pieces(list, ':')[k], name))
        }),
{
}

/// The folder of an executable comes first in the path that it is started with.
pub proof fn lemma_own_folder_is_searched_first(parent: Seq<char>, login: Option<Seq<char>>, current: Option<Seq<char>>)
    ensures
        first_places(path_folders(Some(parent), login, current)).len() > 0,
        first_places(path_folders(Some(parent), login, current))[0] == parent,
{
    let folders = path_folders(Some(parent), login, current);
    assert(folders[0] == parent);
    lemma_first_is_kept(folders);
}

proof fn lemma_first_is_kept(list: Seq<Seq<char>>)
    requires
        list.len() > 0,
    ensures
        first_places(list).len() > 0,
        first_places(list)[0] == list[0],
    decreases list.len(),
{
    if list.len() == 1 {
        assert(first_places(list.drop_last()) =~= Seq::empty());
    } else {
        lemma_first_is_kept(list.drop_last());
        assert(list.drop_last()[0] == list[0]);
    }
}

/// What a login shell prints is taken only where it succeeded, the last line that
/// fits first; a line fits where it begins at the root, or as a search path where
/// it has both separators.
pub proof fn lemma_shells_are_believed_where_they_succeed(output: Option<CommandOutput>, line: Seq<char>)
    ensures
        output is None || !output->0.success ==> printed_lines(output, names_place()).len() == 0
            && printed_lines(output, names_path()).len() == 0,
        printed_lines(output, names_place()).contains(line) ==> line.len() > 0 && line[0] == '/',
        printed_lines(output, names_path()).contains(line) ==> line.contains('/') && line.contains(':'),
        output matches Some(printed) && printed.success && lines_back(lossy_text(printed.stdout@)).contains(line)
            && line.len() > 0 && line[0] == '/' ==> printed_lines(output, names_place()).contains(line),
{
    broadcast use vstd::seq_lib::group_filter_ensures;

    reveal_strlit("/");
    reveal_strlit(":");
    let places = printed_lines(output, names_place());
    let paths = printed_lines(output, names_path());
    if places.contains(line) {
        let i = choose|i: int| 0 <= i < places.len() && places[i] == line;
        assert(names_place()(places[i]));
        assert(line.subrange(0, 1)[0] == line[0]);
    }
    if paths.contains(line) {
        let i = choose|i: int| 0 <= i < paths.len() && paths[i] == line;
        assert(names_path()(paths[i]));
        let a = choose|a: int| #[trigger] stands_at(line, "/"@, a);
        assert(line.subrange(a, a + 1)[0] == line[a]);
        let b = choose|b: int| #[trigger] stands_at(line, ":"@, b);
        assert(line.subrange(b, b + 1)[0] == line[b]);
    }
    if output is Some && output->0.success && line.len() > 0 && line[0] == '/' {
        let lines = lines_back(lossy_text(output->0.stdout@));
        if lines.contains(line) {
            assert(line.subrange(0, 1) =~= "/"@);
            assert(names_place()(line));
            let i = choose|i: int| 0 <= i < lines.len() && lines[i] == line;
            assert(names_place()(lines[i]));
            assert(lines.filter(names_place()).contains(lines[i]));
        }
    }
}

/// The lines of a text are read from its end.
pub proof fn lemma_last_lines_come_first(text: Seq<char>, i: int)
    requires
        0 <= i < pieces(text, '\n').len(),
    ensures
        lines_back(text).len() == pieces(text, '\n').len(),
        lines_back(text)[i] == trimmed(pieces(text, '\n')[pieces(text, '\n').len() - 1 - i]),
{
}

/// The installation that is worked with is a selected one, where there is one,
/// and the first of the others where there is none.
pub proof fn lemma_selected_installation_is_worked_with(found: Seq<InstallationView>, others: Seq<InstallationView>)
    ensures
        match resolved(found, others) {
            Some(path) => (exists|i: int|
                0 <= i < found.len() && (#[trigger] found[i]).selected && found[i].path == path && (forall|k: int|
                    0 <= k < i ==> !(#[trigger] found[k]).selected)) || ((forall|k: int|
                0 <= k < found.len() ==> !(#[trigger] found[k]).selected) && others.len() > 0 && path
                == others[0].path),
            None => others.len() == 0 && forall|k: int|
                0 <= k < found.len() ==> !(#[trigger] found[k]).selected,
        },
{
    lemma_selected_is_first(found);
}

proof fn lemma_selected_is_first(list: Seq<InstallationView>)
    ensures
        match selected_at(list) {
            Some(path) => exists|i: int|
                0 <= i < list.len() && (#[trigger] list[i]).selected && list[i].path == path && (forall|k: int|
                    0 <= k < i ==> !(#[trigger] list[k]).selected),
            None => forall|k: int| 0 <= k < list.len() ==> !(#[trigger] list[k]).selected,
        },
    decreases list.len(),
{
    if list.len() > 0 {
        let before = list.drop_last();
        lemma_selected_is_first(before);
        assert forall|i: int| 0 <= i < before.len() implies #[trigger] before[i] == list[i] by {}
        match selected_at(before) {
            Some(path) => {
                let i = choose|i: int|
                    0 <= i < before.len() && (#[trigger] before[i]).selected && before[i].path == path && (forall|
                        k: int,
                    |
                        0 <= k < i ==> !(#[trigger] before[k]).selected);
                assert(list[i].selected && list[i].path == path);
                assert forall|k: int| 0 <= k < i implies !(#[trigger] list[k]).selected by {
                    assert(!before[k].selected);
                }
            },
            None => {
                assert forall|k: int| 0 <= k < before.len() implies !(#[trigger] list[k]).selected by {
                    assert(!before[k].selected);
                }
                if list.last().selected {
                    assert(list[list.len() - 1].selected);
                }
            },
        }
    }
}

/// A selection stands as long as its installation is there; otherwise the first
/// that is found takes its place. Just the selected installation is marked.
pub proof fn lemma_selection_stands_while_installed(binary: Option<Seq<char>>, list: Seq<InstallationView>, i: int)
    requires
        0 <= i < list.len(),
    ensures
        binary == Some(list[i].path) ==> reselected(binary, list) == binary,
        (forall|k: int| 0 <= k < list.len() ==> Some((#[trigger] list[k]).path) != binary) ==> reselected(binary, list)
            == Some(list[0].path),
        marked(list, binary).len() == list.len(),
        marked(list, binary)[i].path == list[i].path,
        marked(list, binary)[i].version == list[i].version,
        marked(list, binary)[i].selected <==> binary == Some(list[i].path),
{
    if binary is Some && is_installed(list, binary->0) {
        let k = choose|k: int| 0 <= k < list.len() && (#[trigger] list[k]).path == binary->0;
        assert(Some(list[k].path) == binary);
    }
}

/// The path that an executable is started with falls apart into just the folders
/// that it is made of. There is none exactly if a folder holds the separator.
pub proof fn lemma_search_path_is_read_back(parent: Seq<char>, login: Option<Seq<char>>, current: Option<Seq<char>>)
    ensures
        ({
            let folders = first_places(path_folders(Some(parent), login, current));
            match effective_path(Some(parent), login, current) {
                Some(path) => pieces(path, ':') == folders && forall|i: int|
                    0 <= i < folders.len() ==> !(#[trigger] folders[i]).contains(':'),
                None => exists|i: int| 0 <= i < folders.len() && (#[trigger] folders[i]).contains(':'),
            }
        }),
{
    let folders = first_places(path_folders(Some(parent), login, current));
    lemma_own_folder_is_searched_first(parent, login, current);
    if can_be_joined(folders) {
        lemma_glued_pieces(folders);
    }
}

proof fn lemma_glued_pieces(parts: Seq<Seq<char>>)
    requires
        parts.len() > 0,
        can_be_joined(parts),
    ensures
        pieces(glued(parts, ":"@), ':') == parts,
    decreases parts.len(),
{
    reveal_strlit(":");
    if parts.len() == 1 {
        assert(!parts[0].contains(':'));
        assert(Seq::<char>::empty() + parts[0] =~= parts[0]);
        lemma_more_in_piece(Seq::empty(), parts[0]);
        let none = pieces(Seq::<char>::empty(), ':');
        assert(none.last() + parts[0] =~= parts[0]);
        assert(pieces(parts[0], ':') =~= parts);
    } else {
        let before = parts.drop_last();
        assert forall|i: int| 0 <= i < before.len() implies !(#[trigger] before[i]).contains(':') by {
            assert(before[i] == parts[i]);
        }
        lemma_glued_pieces(before);
        let head = glued(before, ":"@) + ":"@;
        assert(head =~= glued(before, ":"@).push(':'));
        assert(head.drop_last() =~= glued(before, ":"@));
        assert(pieces(head, ':') == before.push(Seq::empty()));
        assert(parts[parts.len() - 1] == parts.last());
        lemma_more_in_piece(head, parts.last());
        assert(Seq::<char>::empty() + parts.last() =~= parts.last());
        assert(pieces(head + parts.last(), ':') =~= parts);
    }
}

proof fn lemma_more_in_piece(head: Seq<char>, rest: Seq<char>)
    requires
        !rest.contains(':'),
    ensures
        pieces(head, ':').len() > 0,
        pieces(head + rest, ':') == pieces(head, ':').update(
            pieces(head, ':').len() - 1,
            pieces(head, ':').last() + rest,
        ),
    decreases rest.len(),
{
    lemma_pieces_not_empty(head, ':');
    let own = pieces(head, ':');
    if rest.len() == 0 {
        assert(head + rest =~= head);
        assert(own.last() + rest =~= own.last());
        assert(own.update(own.len() - 1, own.last() + rest) =~= own);
    } else {
        let less = rest.drop_last();
        assert(!less.contains(':')) by {
            if less.contains(':') {
                let i = choose|i: int| 0 <= i < less.len() && less[i] == ':';
                assert(rest[i] == ':');
            }
        }
        lemma_more_in_piece(head, less);
        assert((head + rest).drop_last() =~= head + less);
        assert((head + rest).last() == rest.last());
        assert(rest[rest.len() - 1] != ':') by {
            if rest[rest.len() - 1] == ':' {
                assert(rest.contains(':'));
            }
        }
        assert((own.last() + less).push(rest.last()) =~= own.last() + rest);
        assert(pieces(head + rest, ':') =~= own.update(own.len() - 1, own.last() + rest));
    }
}

/// A check searches the project's own tools before those of the search path: first
/// Node's, then Python's, each only where the project has them.
pub proof fn lemma_own_tools_are_searched_first(root: Seq<char>, node: bool, python: bool, path: Seq<char>, k: int)
    requires
        0 <= k < pieces(path, ':').len(),
    ensures
        ({
            let folders = dependency_folders(root, node, python, Some(path));
            let at: int = if node && python {
                2
            } else if node || python {
                1
            } else {
                0
            };
            &&& node ==> folders[0] == joined_path(joined_path(root, "node_modules"@), ".bin"@)
            &&& python ==> folders[at - 1] == joined_path(joined_path(root, ".venv"@), "bin"@)
            &&& folders[at + k] == pieces(path, ':')[k]
            &&& folders.len() == at + pieces(path, ':').len()
        }),
{
}

} // verus!
