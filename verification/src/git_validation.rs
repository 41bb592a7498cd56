//! Which combined checks a project has.

use crate::json::{all_texts, parsed_json, read_json, Json, JsonView};
use crate::text::{
    after_last, after_last_char, append_texts, contains, glue_texts, glued, has_part, holds_text,
    lemma_pieces_not_empty, pieces, same_text, split_text, text_list, text_of, texts_of, to_chars, trim,
    trimmed, utf8_text,
};
use vstd::prelude::*;
use vstd::string::*;
use vstd::utf8::{decode_utf8, valid_utf8};

verus! {

/// A command that checks a project, run in the project's directory.
#[derive(Debug)]
pub struct ValidationCommand {
    pub name: String,
    pub program: String,
    pub args: Vec<String>,
}

/// The mathematical value of a check command.
pub struct CommandView {
    pub name: Seq<char>,
    pub program: Seq<char>,
    pub args: Seq<Seq<char>>,
}

impl View for ValidationCommand {
    type V = CommandView;

    open spec fn view(&self) -> CommandView {
        CommandView { name: self.name@, program: self.program@, args: texts_of(self.args@) }
    }
}

/// The views of some commands.
pub open spec fn commands_of(list: Seq<ValidationCommand>) -> Seq<CommandView> {
    list.map_values(|command: ValidationCommand| command@)
}

/// What was seen of a project: the contents of the files that tell about its
/// checks, the names of the files and of all entries in its directory, and
/// whether it has a directory of tests.
#[derive(Debug)]
pub struct ProjectFacts {
    pub config: Option<Vec<u8>>,
    pub makefile: Option<String>,
    pub justfile: Option<String>,
    pub package_json: Option<Vec<u8>>,
    pub composer_json: Option<Vec<u8>>,
    pub pyproject: Option<String>,
    pub pytest_ini: Option<String>,
    pub tox_ini: Option<String>,
    pub files: Vec<String>,
    pub entries: Vec<String>,
    pub tests_directory: bool,
}

/// Whether a project has a file.
pub open spec fn has_file(facts: ProjectFacts, name: Seq<char>) -> bool {
    texts_of(facts.files@).contains(name)
}

/// The JSON value that a file holds.
pub open spec fn file_json(bytes: Option<Vec<u8>>) -> Option<JsonView> {
    match bytes {
        None => None,
        Some(bytes) => if valid_utf8(bytes@) {
            parsed_json(decode_utf8(bytes@))
        } else {
            None
        },
    }
}

/// The command that a configured list of words stands for.
pub open spec fn configured_command(item: JsonView) -> Option<CommandView> {
    match item.items() {
        None => None,
        Some(parts) => match all_texts(parts) {
            None => None,
            Some(texts) => if texts.len() == 0 {
                None
            } else {
                Some(CommandView { name: glued(texts, " "@), program: texts[0], args: texts.skip(1) })
            },
        },
    }
}

/// The commands that a configured list stands for.
pub open spec fn configured_commands(items: Seq<JsonView>) -> Seq<CommandView>
    decreases items.len(),
{
    if items.len() == 0 {
        Seq::empty()
    } else {
        match configured_command(items.last()) {
            Some(command) => configured_commands(items.drop_last()).push(command),
            None => configured_commands(items.drop_last()),
        }
    }
}

/// The list of commands in a configuration.
pub open spec fn configured_items(value: Option<JsonView>) -> Option<Seq<JsonView>> {
    match value {
        None => None,
        Some(value) => match value.member("commands"@) {
            None => None,
            Some(commands) => commands.items(),
        },
    }
}

/// Whether a line of a task file begins the given target.
pub open spec fn begins_target(line: Seq<char>, target: Seq<char>) -> bool {
    &&& !(line.len() > 0 && (line[0] == ' ' || line[0] == '\t'))
    &&& pieces(line, ':').len() > 1
    &&& trimmed(pieces(line, ':')[0]) == target
}

/// Whether a task file has the given target.
pub open spec fn has_target(text: Seq<char>, target: Seq<char>) -> bool {
    exists|i: int|
        0 <= i < pieces(text, '\n').len() && #[trigger] begins_target(pieces(text, '\n')[i], target)
}

/// The target of a task file that checks the project.
pub open spec fn check_target(text: Seq<char>) -> Option<Seq<char>> {
    if has_target(text, "check"@) {
        Some("check"@)
    } else if has_target(text, "validate"@) {
        Some("validate"@)
    } else if has_target(text, "test"@) {
        Some("test"@)
    } else {
        None
    }
}

/// The command that runs a target with a program.
pub open spec fn target_command(target: Seq<char>, program: Seq<char>) -> CommandView {
    CommandView { name: target + " ("@ + program + ")"@, program, args: seq![target] }
}

/// The command of a task file.
pub open spec fn file_command(text: Option<String>, program: Seq<char>) -> Option<CommandView> {
    match text {
        None => None,
        Some(text) => match check_target(text@) {
            Some(target) => Some(target_command(target, program)),
            None => None,
        },
    }
}

/// The command of the first task file that has one.
pub open spec fn task_command(facts: ProjectFacts) -> Option<CommandView> {
    match file_command(facts.makefile, "make"@) {
        Some(command) => Some(command),
        None => file_command(facts.justfile, "just"@),
    }
}

/// The scripts of a project that check it, in the order in which they are run.
pub open spec fn package_scripts() -> Seq<Seq<char>> {
    seq!["check"@, "validate"@, "lint"@, "typecheck"@, "type-check"@, "test"@, "build"@]
}

/// The program that runs package scripts.
pub open spec fn package_program(facts: ProjectFacts) -> Seq<char> {
    if has_file(facts, "pnpm-lock.yaml"@) {
        "pnpm"@
    } else if has_file(facts, "yarn.lock"@) {
        "yarn"@
    } else if has_file(facts, "bun.lock"@) || has_file(facts, "bun.lockb"@) {
        "bun"@
    } else {
        "npm"@
    }
}

/// Whether a package has a script that does something.
pub open spec fn has_script(scripts: JsonView, script: Seq<char>) -> bool {
    scripts.text_at(script) is Some && !has_part(scripts.text_at(script)->0, "no test specified"@)
}

/// The commands for the first of some scripts.
pub open spec fn script_commands(
    scripts: JsonView,
    names: Seq<Seq<char>>,
    program: Seq<char>,
) -> Seq<CommandView>
    decreases names.len(),
{
    if names.len() == 0 {
        Seq::empty()
    } else {
        let before = script_commands(scripts, names.drop_last(), program);
        if has_script(scripts, names.last()) {
            before.push(
                CommandView {
                    name: names.last() + " ("@ + program + ")"@,
                    program,
                    args: seq!["run"@, names.last()],
                },
            )
        } else {
            before
        }
    }
}

/// The scripts of a package file.
pub open spec fn scripts_of(value: Option<JsonView>) -> Option<JsonView> {
    match value {
        None => None,
        Some(value) => match value.member("scripts"@) {
            Some(scripts) => if scripts is Object {
                Some(scripts)
            } else {
                None
            },
            None => None,
        },
    }
}

/// The commands of a package file.
pub open spec fn package_commands(facts: ProjectFacts) -> Seq<CommandView> {
    match scripts_of(file_json(facts.package_json)) {
        None => Seq::empty(),
        Some(scripts) => script_commands(scripts, package_scripts(), package_program(facts)),
    }
}

/// The command for a script of a Composer file.
pub open spec fn composer_command(scripts: JsonView, name: Seq<char>) -> Seq<CommandView> {
    when(
        scripts.member(name) is Some,
        CommandView { name: name + " (Composer)"@, program: "composer"@, args: seq!["run-script"@, name] },
    )
}

/// The commands of a Composer file.
pub open spec fn composer_commands(facts: ProjectFacts) -> Seq<CommandView> {
    match scripts_of(file_json(facts.composer_json)) {
        None => Seq::empty(),
        Some(scripts) => composer_command(scripts, "check"@) + composer_command(scripts, "lint"@)
            + composer_command(scripts, "test"@),
    }
}

/// A command where it is wanted.
pub open spec fn when(wanted: bool, command: CommandView) -> Seq<CommandView> {
    if wanted {
        seq![command]
    } else {
        Seq::empty()
    }
}

/// The texts that are there.
pub open spec fn present(texts: Seq<Option<Seq<char>>>) -> Seq<Seq<char>>
    decreases texts.len(),
{
    if texts.len() == 0 {
        Seq::empty()
    } else {
        match texts.last() {
            Some(text) => present(texts.drop_last()).push(text),
            None => present(texts.drop_last()),
        }
    }
}

/// All that the Python configuration files of a project say.
pub open spec fn python_config(facts: ProjectFacts) -> Seq<char> {
    glued(
        present(seq![text_of(facts.pyproject), text_of(facts.pytest_ini), text_of(facts.tox_ini)]),
        "\n"@,
    )
}

/// A Python tool run by the environment manager of a project.
pub open spec fn python_command(
    facts: ProjectFacts,
    name: Seq<char>,
    tool: Seq<char>,
    args: Seq<Seq<char>>,
) -> CommandView {
    if has_file(facts, "uv.lock"@) {
        CommandView { name, program: "uv"@, args: seq!["run"@, tool] + args }
    } else if has_file(facts, "poetry.lock"@) {
        CommandView { name, program: "poetry"@, args: seq!["run"@, tool] + args }
    } else {
        CommandView { name, program: tool, args }
    }
}

/// The commands of a Python project.
pub open spec fn python_commands(facts: ProjectFacts) -> Seq<CommandView> {
    if has_file(facts, "tox.ini"@) {
        seq![CommandView { name: "Python tox environments"@, program: "tox"@, args: Seq::empty() }]
    } else if has_file(facts, "noxfile.py"@) {
        seq![CommandView { name: "Python nox sessions"@, program: "nox"@, args: Seq::empty() }]
    } else {
        let config = python_config(facts);
        when(
            has_part(config, "[tool.ruff"@) || has_file(facts, "ruff.toml"@),
            python_command(facts, "Python lint"@, "ruff"@, seq!["check"@, "."@]),
        ) + when(
            has_part(config, "[tool.mypy"@),
            python_command(facts, "Python typecheck"@, "mypy"@, seq!["."@]),
        ) + when(
            has_part(config, "pytest"@) || facts.tests_directory,
            python_command(facts, "Python tests"@, "pytest"@, Seq::empty()),
        )
    }
}

/// Whether a name ends in the given extension behind a stem.
pub open spec fn name_has_extension(name: Seq<char>, extension: Seq<char>) -> bool {
    after_last(name, '.') == Some(extension) && name.len() > extension.len() + 1
}

/// Whether one of some names has the given extension.
pub open spec fn any_has_extension(names: Seq<Seq<char>>, extension: Seq<char>) -> bool {
    exists|i: int| 0 <= i < names.len() && #[trigger] name_has_extension(names[i], extension)
}

pub open spec fn is_python(facts: ProjectFacts) -> bool {
    has_file(facts, "pyproject.toml"@) || has_file(facts, "pytest.ini"@) || has_file(facts, "tox.ini"@)
        || has_file(facts, "noxfile.py"@)
}

pub open spec fn is_gradle(facts: ProjectFacts) -> bool {
    has_file(facts, "gradlew"@) || has_file(facts, "build.gradle"@) || has_file(facts, "build.gradle.kts"@)
}

pub open spec fn command(name: Seq<char>, program: Seq<char>, args: Seq<Seq<char>>) -> CommandView {
    CommandView { name, program, args }
}

/// The commands that the files of a project suggest.
pub open spec fn suggested(facts: ProjectFacts) -> Seq<CommandView> {
    (if has_file(facts, "package.json"@) {
        package_commands(facts)
    } else {
        Seq::empty()
    }) + when(
        has_file(facts, "Cargo.toml"@),
        command("Rust tests"@, "cargo"@, seq!["test"@, "--workspace"@]),
    ) + when(
        has_file(facts, "pubspec.yaml"@),
        command("Dart/Flutter analysis"@, "flutter"@, seq!["analyze"@]),
    ) + when(has_file(facts, "pubspec.yaml"@), command("Flutter tests"@, "flutter"@, seq!["test"@])) + when(
        has_file(facts, "go.mod"@),
        command("Go tests"@, "go"@, seq!["test"@, "./..."@]),
    ) + when(has_file(facts, "Package.swift"@), command("Swift tests"@, "swift"@, seq!["test"@])) + when(
        is_gradle(facts),
        command(
            "Gradle tests"@,
            if has_file(facts, "gradlew"@) {
                "./gradlew"@
            } else {
                "gradle"@
            },
            seq!["test"@, "--no-daemon"@],
        ),
    ) + when(
        !is_gradle(facts) && (has_file(facts, "mvnw"@) || has_file(facts, "pom.xml"@)),
        command(
            "Maven tests"@,
            if has_file(facts, "mvnw"@) {
                "./mvnw"@
            } else {
                "mvn"@
            },
            seq!["test"@],
        ),
    ) + (if is_python(facts) {
        python_commands(facts)
    } else {
        Seq::empty()
    }) + when(has_file(facts, "mix.exs"@), command("Elixir tests"@, "mix"@, seq!["test"@])) + when(
        has_file(facts, "Gemfile"@) && has_file(facts, "Rakefile"@),
        command("Ruby tests"@, "bundle"@, seq!["exec"@, "rake"@, "test"@]),
    ) + (if has_file(facts, "composer.json"@) {
        composer_commands(facts)
    } else {
        Seq::empty()
    }) + when(
        any_has_extension(texts_of(facts.entries@), "csproj"@) || any_has_extension(
            texts_of(facts.entries@),
            "sln"@,
        ),
        command(".NET tests"@, "dotnet"@, seq!["test"@, "--no-restore"@]),
    ) + when(
        has_file(facts, "MODULE.bazel"@) || has_file(facts, "WORKSPACE"@),
        command("Bazel tests"@, "bazel"@, seq!["test"@, "//..."@]),
    ) + when(
        has_file(facts, "pants.toml"@),
        command(
            "Pants tests"@,
            if has_file(facts, "pants"@) {
                "./pants"@
            } else {
                "pants"@
            },
            seq!["test"@, "::"@],
        ),
    )
}

/// The combined checks of a project: those that its configuration lists, or the
/// check target of a task file, or those that its files suggest.
pub open spec fn discovered(facts: ProjectFacts) -> Seq<CommandView> {
    match configured_items(file_json(facts.config)) {
        Some(items) => configured_commands(items),
        None => match task_command(facts) {
            Some(command) => seq![command],
            None => suggested(facts),
        },
    }
}

/// Adds a command to a list where it is wanted.
fn add_when<const N: usize>(
    list: &mut Vec<ValidationCommand>,
    wanted: bool,
    name: &str,
    program: &str,
    args: [&str; N],
)
    ensures
        commands_of(final(list)@) == commands_of(old(list)@) + when(
            wanted,
            command(name@, program@, args@.map_values(|arg: &str| arg@)),
        ),
{
    if wanted {
        list.push(
            ValidationCommand {
                name: name.to_owned(),
                program: program.to_owned(),
                args: text_list(args),
            },
        );
        assert(commands_of(list@) =~= commands_of(old(list)@) + seq![list@.last()@]);
    } else {
        assert(commands_of(list@) =~= commands_of(old(list)@) + Seq::empty());
    }
}

/// Adds commands to a list.
fn add_all(list: &mut Vec<ValidationCommand>, more: Vec<ValidationCommand>)
    ensures
        commands_of(final(list)@) == commands_of(old(list)@) + commands_of(more@),
{
    let ghost added = more@;
    let mut more = more;
    list.append(&mut more);
    assert(commands_of(list@) =~= commands_of(old(list)@) + commands_of(added));
}

/// The JSON value that a file holds.
fn read_file_json(bytes: &Option<Vec<u8>>) -> (r: Option<Json>)
    ensures
        match r {
            Some(value) => file_json(*bytes) == Some(value@),
            None => file_json(*bytes) is None,
        },
{
    match bytes {
        None => None,
        Some(bytes) => match utf8_text(bytes.as_slice()) {
            None => None,
            Some(text) => read_json(text.as_str()),
        },
    }
}

/// The texts of a list of values, where every one of them is a text.
pub fn texts_in(items: &Vec<Json>) -> (r: Option<Vec<String>>)
    ensures
        match r {
            Some(texts) => all_texts(items@.map_values(|item: Json| item@)) == Some(texts_of(texts@)),
            None => all_texts(items@.map_values(|item: Json| item@)) is None,
        },
{
    let ghost views = items@.map_values(|item: Json| item@);
    let mut texts: Vec<String> = Vec::new();
    let mut i: usize = 0;
    proof {
        assert(views.take(0) =~= Seq::empty());
        assert(texts_of(texts@) =~= Seq::empty());
    }
    while i < items.len()
        invariant
            0 <= i <= items.len(),
            views == items@.map_values(|item: Json| item@),
            all_texts(views.take(i as int)) == Some(texts_of(texts@)),
        decreases items.len() - i,
    {
        let ghost before = texts_of(texts@);
        proof {
            assert(views.take(i + 1).drop_last() =~= views.take(i as int));
            assert(views.take(i + 1).last() == items@[i as int]@);
        }
        match items[i].as_text() {
            Some(text) => {
                texts.push(text.to_owned());
                assert(texts_of(texts@) =~= before.push(text@));
            },
            None => {
                proof {
                    lemma_not_all_texts(views, i + 1);
                }
                return None;
            },
        }
        i += 1;
    }
    assert(views.take(items@.len() as int) =~= views);
    Some(texts)
}

proof fn lemma_not_all_texts(items: Seq<JsonView>, at: int)
    requires
        0 <= at <= items.len(),
        all_texts(items.take(at)) is None,
    ensures
        all_texts(items) is None,
    decreases items.len() - at,
{
    if at == items.len() {
        assert(items.take(at) =~= items);
    } else {
        assert(items.take(at + 1).drop_last() =~= items.take(at));
        lemma_not_all_texts(items, at + 1);
    }
}

/// The commands that a configured list stands for.
fn commands_in(items: &Vec<Json>) -> (r: Vec<ValidationCommand>)
    ensures
        commands_of(r@) == configured_commands(items@.map_values(|item: Json| item@)),
{
    let ghost views = items@.map_values(|item: Json| item@);
    let mut commands: Vec<ValidationCommand> = Vec::new();
    let mut i: usize = 0;
    proof {
        assert(views.take(0) =~= Seq::empty());
        assert(commands_of(commands@) =~= Seq::empty());
    }
    while i < items.len()
        invariant
            0 <= i <= items.len(),
            views == items@.map_values(|item: Json| item@),
            commands_of(commands@) == configured_commands(views.take(i as int)),
        decreases items.len() - i,
    {
        let ghost before = commands_of(commands@);
        proof {
            assert(views.take(i + 1).drop_last() =~= views.take(i as int));
            assert(views.take(i + 1).last() == items@[i as int]@);
        }
        if let Some(parts) = items[i].as_items() {
            if let Some(texts) = texts_in(parts) {
                assert(texts_of(texts@).len() == texts@.len());
                if texts.len() > 0 {
                    let name = glue_texts(&texts, " ");
                    let program = texts[0].clone();
                    let ghost every = texts_of(texts@);
                    let mut args: Vec<String> = Vec::new();
                    let mut k: usize = 1;
                    assert(texts_of(args@) =~= every.subrange(1, 1));
                    while k < texts.len()
                        invariant
                            1 <= k <= texts.len(),
                            every == texts_of(texts@),
                            texts_of(args@) == every.subrange(1, k as int),
                        decreases texts.len() - k,
                    {
                        let ghost past = texts_of(args@);
                        args.push(texts[k].clone());
                        assert(texts_of(args@) =~= past.push(texts@[k as int]@));
                        k += 1;
                        assert(texts_of(args@) =~= every.subrange(1, k as int));
                    }
                    assert(texts_of(args@) =~= every.skip(1));
                    commands.push(ValidationCommand { name, program, args });
                    assert(commands_of(commands@) =~= before.push(commands@.last()@));
                }
            }
        }
        i += 1;
    }
    assert(views.take(items@.len() as int) =~= views);
    commands
}

/// Whether a line of a task file begins the given target.
fn line_begins(line: &str, target: &str) -> (r: bool)
    ensures
        r == begins_target(line@, target@),
{
    let chars = to_chars(line);
    if chars.len() > 0 && (chars[0] == ' ' || chars[0] == '\t') {
        return false;
    }
    let parts = split_text(line, ':');
    proof {
        lemma_pieces_not_empty(line@, ':');
        assert(texts_of(parts@).len() == parts@.len());
        assert(texts_of(parts@)[0] == parts@[0]@);
    }
    parts.len() > 1 && same_text(trim(parts[0].as_str()).as_str(), target)
}

/// Whether a task file has the given target.
fn file_has_target(text: &str, target: &str) -> (r: bool)
    ensures
        r == has_target(text@, target@),
{
    let lines = split_text(text, '\n');
    let ghost views = pieces(text@, '\n');
    let mut i: usize = 0;
    while i < lines.len()
        invariant
            0 <= i <= lines.len(),
            views == texts_of(lines@),
            views == pieces(text@, '\n'),
            forall|k: int| 0 <= k < i ==> !#[trigger] begins_target(views[k], target@),
        decreases lines.len() - i,
    {
        assert(views[i as int] == lines@[i as int]@);
        if line_begins(lines[i].as_str(), target) {
            assert(begins_target(views[i as int], target@));
            return true;
        }
        i += 1;
    }
    false
}

/// The command of a task file.
fn command_of_file(text: &Option<String>, program: &str) -> (r: Option<ValidationCommand>)
    ensures
        match r {
            Some(command) => file_command(*text, program@) == Some(command@),
            None => file_command(*text, program@) is None,
        },
{
    let text = match text {
        Some(text) => text,
        None => {
            return None;
        },
    };
    let target = if file_has_target(text.as_str(), "check") {
        "check"
    } else if file_has_target(text.as_str(), "validate") {
        "validate"
    } else if file_has_target(text.as_str(), "test") {
        "test"
    } else {
        return None;
    };
    let mut name = target.to_owned();
    name.append(" (");
    name.append(program);
    name.append(")");
    let args = text_list([target]);
    assert(texts_of(args@) =~= seq![target@]);
    Some(ValidationCommand { name, program: program.to_owned(), args })
}

/// The command of the first task file that has one.
pub fn discover_task_runner_commands(facts: &ProjectFacts) -> (r: Option<ValidationCommand>)
    ensures
        match r {
            Some(command) => task_command(*facts) == Some(command@),
            None => task_command(*facts) is None,
        },
{
    match command_of_file(&facts.makefile, "make") {
        Some(command) => Some(command),
        None => command_of_file(&facts.justfile, "just"),
    }
}

/// The scripts of a package file.
fn read_scripts(bytes: &Option<Vec<u8>>) -> (r: Option<Json>)
    ensures
        match r {
            Some(scripts) => scripts_of(file_json(*bytes)) == Some(scripts@),
            None => scripts_of(file_json(*bytes)) is None,
        },
{
    match read_file_json(bytes) {
        None => None,
        Some(value) => match value.get("scripts") {
            None => None,
            Some(scripts) => if scripts.is_object() {
                Some(scripts.copy())
            } else {
                None
            },
        },
    }
}

/// The commands of a package file.
pub fn discover_package_json_commands(facts: &ProjectFacts) -> (r: Vec<ValidationCommand>)
    ensures
        commands_of(r@) == package_commands(*facts),
{
    let mut commands: Vec<ValidationCommand> = Vec::new();
    assert(commands_of(commands@) =~= Seq::empty());
    let scripts = match read_scripts(&facts.package_json) {
        Some(scripts) => scripts,
        None => {
            return commands;
        },
    };
    let program = if holds_text(&facts.files, "pnpm-lock.yaml") {
        "pnpm"
    } else if holds_text(&facts.files, "yarn.lock") {
        "yarn"
    } else if holds_text(&facts.files, "bun.lock") || holds_text(&facts.files, "bun.lockb") {
        "bun"
    } else {
        "npm"
    };
    let names = text_list(["check", "validate", "lint", "typecheck", "type-check", "test", "build"]);
    let ghost views = texts_of(names@);
    assert(views =~= package_scripts());
    let mut i: usize = 0;
    assert(views.take(0) =~= Seq::empty());
    while i < names.len()
        invariant
            0 <= i <= names.len(),
            views == texts_of(names@),
            commands_of(commands@) == script_commands(scripts@, views.take(i as int), program@),
        decreases names.len() - i,
    {
        let ghost before = commands_of(commands@);
        proof {
            assert(views.take(i + 1).drop_last() =~= views.take(i as int));
            assert(views.take(i + 1).last() == names@[i as int]@);
        }
        if let Some(body) = scripts.text_at(names[i].as_str()) {
            if !contains(body, "no test specified") {
                let mut name = names[i].clone();
                name.append(" (");
                name.append(program);
                name.append(")");
                let args = text_list(["run", names[i].as_str()]);
                assert(texts_of(args@) =~= seq!["run"@, names@[i as int]@]);
                commands.push(ValidationCommand { name, program: program.to_owned(), args });
                assert(commands_of(commands@) =~= before.push(commands@.last()@));
            }
        }
        i += 1;
    }
    assert(views.take(names@.len() as int) =~= views);
    commands
}

/// Adds the command for a script of a Composer file.
fn add_composer(list: &mut Vec<ValidationCommand>, scripts: &Json, name: &str)
    ensures
        commands_of(final(list)@) == commands_of(old(list)@) + composer_command(scripts@, name@),
{
    let mut title = name.to_owned();
    title.append(" (Composer)");
    let wanted = scripts.get(name).is_some();
    add_when(list, wanted, title.as_str(), "composer", ["run-script", name]);
    proof {
        let args: [&str; 2] = ["run-script", name];
        assert(args@.map_values(|arg: &str| arg@) =~= seq!["run-script"@, name@]);
    }
}

/// The commands of a Composer file.
pub fn discover_composer_commands(facts: &ProjectFacts) -> (r: Vec<ValidationCommand>)
    ensures
        commands_of(r@) == composer_commands(*facts),
{
    let mut commands: Vec<ValidationCommand> = Vec::new();
    assert(commands_of(commands@) =~= Seq::empty());
    if let Some(scripts) = read_scripts(&facts.composer_json) {
        add_composer(&mut commands, &scripts, "check");
        assert(commands_of(commands@) =~= composer_command(scripts@, "check"@));
        add_composer(&mut commands, &scripts, "lint");
        add_composer(&mut commands, &scripts, "test");
    }
    commands
}

/// Adds a Python tool where it is wanted.
fn add_python<const N: usize>(
    list: &mut Vec<ValidationCommand>,
    facts: &ProjectFacts,
    wanted: bool,
    name: &str,
    tool: &str,
    args: [&str; N],
)
    ensures
        commands_of(final(list)@) == commands_of(old(list)@) + when(
            wanted,
            python_command(*facts, name@, tool@, args@.map_values(|arg: &str| arg@)),
        ),
{
    if !wanted {
        assert(commands_of(list@) =~= commands_of(old(list)@) + Seq::empty());
        return;
    }
    let rest = text_list(args);
    let (program, all) = if holds_text(&facts.files, "uv.lock") || holds_text(
        &facts.files,
        "poetry.lock",
    ) {
        let manager = if holds_text(&facts.files, "uv.lock") {
            "uv"
        } else {
            "poetry"
        };
        let mut all = text_list(["run", tool]);
        assert(texts_of(all@) =~= seq!["run"@, tool@]);
        append_texts(&mut all, rest);
        (manager.to_owned(), all)
    } else {
        (tool.to_owned(), rest)
    };
    list.push(ValidationCommand { name: name.to_owned(), program, args: all });
    assert(commands_of(list@) =~= commands_of(old(list)@) + seq![list@.last()@]);
}

/// All that the Python configuration files of a project say.
fn python_settings(facts: &ProjectFacts) -> (r: String)
    ensures
        r@ == python_config(*facts),
{
    let mut texts: Vec<String> = Vec::new();
    let ghost a = seq![text_of(facts.pyproject)];
    let ghost b = seq![text_of(facts.pyproject), text_of(facts.pytest_ini)];
    let ghost c = seq![text_of(facts.pyproject), text_of(facts.pytest_ini), text_of(facts.tox_ini)];
    proof {
        assert(texts_of(texts@) =~= present(Seq::empty()));
        assert(a.drop_last() =~= Seq::empty());
        assert(b.drop_last() =~= a);
        assert(c.drop_last() =~= b);
    }
    if let Some(text) = &facts.pyproject {
        texts.push(text.clone());
        assert(texts_of(texts@) =~= present(a));
    }
    let ghost first = texts_of(texts@);
    assert(first =~= present(a));
    if let Some(text) = &facts.pytest_ini {
        texts.push(text.clone());
        assert(texts_of(texts@) =~= first.push(text@));
    }
    let ghost second = texts_of(texts@);
    assert(second =~= present(b));
    if let Some(text) = &facts.tox_ini {
        texts.push(text.clone());
        assert(texts_of(texts@) =~= second.push(text@));
    }
    assert(texts_of(texts@) =~= present(c));
    glue_texts(&texts, "\n")
}

/// The commands of a Python project.
pub fn discover_python_commands(facts: &ProjectFacts) -> (r: Vec<ValidationCommand>)
    ensures
        commands_of(r@) == python_commands(*facts),
{
    let mut commands: Vec<ValidationCommand> = Vec::new();
    assert(commands_of(commands@) =~= Seq::empty());
    proof {
        let none: [&str; 0] = [];
        assert(none@.map_values(|arg: &str| arg@) =~= Seq::empty());
        let ruff: [&str; 2] = ["check", "."];
        assert(ruff@.map_values(|arg: &str| arg@) =~= seq!["check"@, "."@]);
        let mypy: [&str; 1] = ["."];
        assert(mypy@.map_values(|arg: &str| arg@) =~= seq!["."@]);
    }
    if holds_text(&facts.files, "tox.ini") {
        add_when(&mut commands, true, "Python tox environments", "tox", []);
        assert(commands_of(commands@) =~= python_commands(*facts));
        return commands;
    }
    if holds_text(&facts.files, "noxfile.py") {
        add_when(&mut commands, true, "Python nox sessions", "nox", []);
        assert(commands_of(commands@) =~= python_commands(*facts));
        return commands;
    }
    let config = python_settings(facts);
    let ruff = contains(config.as_str(), "[tool.ruff") || holds_text(&facts.files, "ruff.toml");
    let mypy = contains(config.as_str(), "[tool.mypy");
    let pytest = contains(config.as_str(), "pytest") || facts.tests_directory;
    add_python(&mut commands, facts, ruff, "Python lint", "ruff", ["check", "."]);
    add_python(&mut commands, facts, mypy, "Python typecheck", "mypy", ["."]);
    add_python(&mut commands, facts, pytest, "Python tests", "pytest", []);
    assert(commands_of(commands@) =~= python_commands(*facts));
    commands
}

/// Whether one of some names has the given extension.
pub fn has_extension(names: &Vec<String>, extension: &str) -> (r: bool)
    ensures
        r == any_has_extension(texts_of(names@), extension@),
{
    let ghost views = texts_of(names@);
    let wanted: usize = to_chars(extension).len();
    let mut i: usize = 0;
    while i < names.len()
        invariant
            0 <= i <= names.len(),
            views == texts_of(names@),
            wanted == extension@.len(),
            forall|k: int| 0 <= k < i ==> !#[trigger] name_has_extension(views[k], extension@),
        decreases names.len() - i,
    {
        assert(views[i as int] == names@[i as int]@);
        let length: usize = to_chars(names[i].as_str()).len();
        if let Some(found) = after_last_char(names[i].as_str(), '.') {
            if same_text(found.as_str(), extension) && length > wanted && length - wanted > 1 {
                assert(name_has_extension(views[i as int], extension@));
                return true;
            }
        }
        i += 1;
    }
    false
}

/// The combined checks of a project.
pub fn discover_validation_commands(facts: &ProjectFacts) -> (r: Vec<ValidationCommand>)
    ensures
        commands_of(r@) == discovered(*facts),
{
    if let Some(value) = read_file_json(&facts.config) {
        if let Some(commands) = value.get("commands") {
            if let Some(items) = commands.as_items() {
                return commands_in(items);
            }
        }
    }
    if let Some(command) = discover_task_runner_commands(facts) {
        let mut r: Vec<ValidationCommand> = Vec::new();
        r.push(command);
        assert(commands_of(r@) =~= seq![command@]);
        return r;
    }
    suggest_commands(facts)
}

/// The commands that the files of a project suggest.
fn suggest_commands(facts: &ProjectFacts) -> (r: Vec<ValidationCommand>)
    ensures
        commands_of(r@) == suggested(*facts),
{
    let files = &facts.files;
    let mut list: Vec<ValidationCommand> = Vec::new();
    assert(commands_of(list@) =~= Seq::empty());
    if holds_text(files, "package.json") {
        list = discover_package_json_commands(facts);
    }
    add_when(&mut list, holds_text(files, "Cargo.toml"), "Rust tests", "cargo", ["test", "--workspace"]);
    let dart = holds_text(files, "pubspec.yaml");
    add_when(&mut list, dart, "Dart/Flutter analysis", "flutter", ["analyze"]);
    add_when(&mut list, dart, "Flutter tests", "flutter", ["test"]);
    add_when(&mut list, holds_text(files, "go.mod"), "Go tests", "go", ["test", "./..."]);
    add_when(&mut list, holds_text(files, "Package.swift"), "Swift tests", "swift", ["test"]);
    let gradle = holds_text(files, "gradlew") || holds_text(files, "build.gradle") || holds_text(
        files,
        "build.gradle.kts",
    );
    let gradle_program = if holds_text(files, "gradlew") {
        "./gradlew"
    } else {
        "gradle"
    };
    add_when(&mut list, gradle, "Gradle tests", gradle_program, ["test", "--no-daemon"]);
    let maven = !gradle && (holds_text(files, "mvnw") || holds_text(files, "pom.xml"));
    let maven_program = if holds_text(files, "mvnw") {
        "./mvnw"
    } else {
        "mvn"
    };
    add_when(&mut list, maven, "Maven tests", maven_program, ["test"]);
    let ghost before_python = commands_of(list@);
    if holds_text(files, "pyproject.toml") || holds_text(files, "pytest.ini") || holds_text(
        files,
        "tox.ini",
    ) || holds_text(files, "noxfile.py") {
        add_all(&mut list, discover_python_commands(facts));
    } else {
        assert(commands_of(list@) =~= before_python + Seq::empty());
    }
    add_when(&mut list, holds_text(files, "mix.exs"), "Elixir tests", "mix", ["test"]);
    add_when(
        &mut list,
        holds_text(files, "Gemfile") && holds_text(files, "Rakefile"),
        "Ruby tests",
        "bundle",
        ["exec", "rake", "test"],
    );
    let ghost before_composer = commands_of(list@);
    if holds_text(files, "composer.json") {
        add_all(&mut list, discover_composer_commands(facts));
    } else {
        assert(commands_of(list@) =~= before_composer + Seq::empty());
    }
    add_when(
        &mut list,
        has_extension(&facts.entries, "csproj") || has_extension(&facts.entries, "sln"),
        ".NET tests",
        "dotnet",
        ["test", "--no-restore"],
    );
    add_when(
        &mut list,
        holds_text(files, "MODULE.bazel") || holds_text(files, "WORKSPACE"),
        "Bazel tests",
        "bazel",
        ["test", "//..."],
    );
    let pants_program = if holds_text(files, "pants") {
        "./pants"
    } else {
        "pants"
    };
    add_when(&mut list, holds_text(files, "pants.toml"), "Pants tests", pants_program, ["test", "::"]);
    proof {
        lemma_args_1("analyze");
        lemma_args_1("test");
        lemma_args_2("test", "--workspace");
        lemma_args_2("test", "./...");
        lemma_args_2("test", "--no-daemon");
        lemma_args_2("test", "--no-restore");
        lemma_args_2("test", "//...");
        lemma_args_2("test", "::");
        let three: [&str; 3] = ["exec", "rake", "test"];
        assert(three@.map_values(|arg: &str| arg@) =~= seq!["exec"@, "rake"@, "test"@]);
    }
    list
}

proof fn lemma_args_1(a: &str)
    ensures
        [a]@.map_values(|arg: &str| arg@) == seq![a@],
{
    assert([a]@.map_values(|arg: &str| arg@) =~= seq![a@]);
}

proof fn lemma_args_2(a: &str, b: &str)
    ensures
        [a, b]@.map_values(|arg: &str| arg@) == seq![a@, b@],
{
    assert([a, b]@.map_values(|arg: &str| arg@) =~= seq![a@, b@]);
}

/// Why a check of a task gave no answer.
#[derive(Debug)]
pub enum CheckFailure {
    /// It could not be started.
    NotStarted(String),
    /// It took too long.
    TimedOut,
    /// It was lost sight of.
    Lost(String),
}

/// How long a check of a task may take, in milliseconds.
pub const CHECK_TIMEOUT: u64 = 600000;

/// What is told of a check that gave no answer.
pub fn check_failure_text(failure: &CheckFailure) -> (r: String)
    ensures
        r@ == (match *failure {
            CheckFailure::NotStarted(error) => "Could not start validation: "@ + error@,
            CheckFailure::TimedOut => "Validation timed out after 10 minutes"@,
            CheckFailure::Lost(error) => "Validation process failed: "@ + error@,
        }),
{
    match failure {
        CheckFailure::NotStarted(error) => {
            let mut text = "Could not start validation: ".to_owned();
            text.append(error.as_str());
            text
        },
        CheckFailure::TimedOut => "Validation timed out after 10 minutes".to_owned(),
        CheckFailure::Lost(error) => {
            let mut text = "Validation process failed: ".to_owned();
            text.append(error.as_str());
            text
        },
    }
}

/// The checks that a project lists itself are the only ones that are run; without a
/// list the check target of a task file is, and only without either the files of the
/// project decide.
pub proof fn lemma_own_checks_come_first(facts: ProjectFacts)
    ensures
        configured_items(file_json(facts.config)) is Some ==> discovered(facts) == configured_commands(
            configured_items(file_json(facts.config))->0,
        ),
        configured_items(file_json(facts.config)) is None && task_command(facts) is Some ==> discovered(facts)
            == seq![task_command(facts)->0],
        facts.makefile is Some && check_target(facts.makefile->0@) is Some ==> task_command(facts) is Some
            && task_command(facts)->0.program == "make"@ && task_command(facts)->0.args == seq![
            check_target(facts.makefile->0@)->0,
        ],
        (facts.makefile is None || check_target(facts.makefile->0@) is None) && facts.justfile is Some
            && check_target(facts.justfile->0@) is Some ==> task_command(facts) is Some && task_command(
            facts,
        )->0.program == "just"@ && task_command(facts)->0.args == seq![check_target(facts.justfile->0@)->0],
{
}

/// A task file is checked by its `check` target where it has one, else by `validate`,
/// else by `test`.
pub proof fn lemma_check_targets_have_an_order(text: Seq<char>)
    ensures
        has_target(text, "check"@) ==> check_target(text) == Some("check"@),
        !has_target(text, "check"@) && has_target(text, "validate"@) ==> check_target(text) == Some(
            "validate"@,
        ),
        !has_target(text, "check"@) && !has_target(text, "validate"@) && has_target(text, "test"@)
            ==> check_target(text) == Some("test"@),
        check_target(text) is None <==> !has_target(text, "check"@) && !has_target(text, "validate"@)
            && !has_target(text, "test"@),
{
}

/// A list of words is a command with the first word as its program and the others
/// as its arguments; anything else is no command.
pub proof fn lemma_configured_words_are_a_command(item: JsonView)
    ensures
        match configured_command(item) {
            Some(command) => {
                &&& item is Array
                &&& item->Array_0.len() == command.args.len() + 1
                &&& all_texts(item->Array_0) == Some(seq![command.program] + command.args)
            },
            None => item is Array ==> item->Array_0.len() == 0 || all_texts(item->Array_0) is None,
        },
{
    if item is Array {
        lemma_all_texts_len(item->Array_0);
        match all_texts(item->Array_0) {
            Some(texts) => {
                if texts.len() > 0 {
                    assert(seq![texts[0]] + texts.skip(1) =~= texts);
                }
            },
            None => {},
        }
    }
}

proof fn lemma_all_texts_len(items: Seq<JsonView>)
    ensures
        all_texts(items) is Some ==> all_texts(items)->0.len() == items.len(),
    decreases items.len(),
{
    if items.len() > 0 {
        lemma_all_texts_len(items.drop_last());
    }
}

/// The program that runs package scripts is told by the lock file.
pub proof fn lemma_lock_files_name_the_program(facts: ProjectFacts)
    ensures
        has_file(facts, "pnpm-lock.yaml"@) ==> package_program(facts) == "pnpm"@,
        !has_file(facts, "pnpm-lock.yaml"@) && has_file(facts, "yarn.lock"@) ==> package_program(facts)
            == "yarn"@,
        !has_file(facts, "pnpm-lock.yaml"@) && !has_file(facts, "yarn.lock"@) && (has_file(
            facts,
            "bun.lock"@,
        ) || has_file(facts, "bun.lockb"@)) ==> package_program(facts) == "bun"@,
        !has_file(facts, "pnpm-lock.yaml"@) && !has_file(facts, "yarn.lock"@) && !has_file(facts, "bun.lock"@)
            && !has_file(facts, "bun.lockb"@) ==> package_program(facts) == "npm"@,
{
}

/// Each script of a package that checks it is run by name, unless it is the
/// placeholder for missing tests.
pub proof fn lemma_scripts_are_run(scripts: JsonView, names: Seq<Seq<char>>, program: Seq<char>, i: int)
    requires
        0 <= i < names.len(),
        scripts.text_at(names[i]) is Some,
        !has_part(scripts.text_at(names[i])->0, "no test specified"@),
    ensures
        script_commands(scripts, names, program).contains(
            CommandView {
                name: names[i] + " ("@ + program + ")"@,
                program,
                args: seq!["run"@, names[i]],
            },
        ),
    decreases names.len(),
{
    let shorter = names.drop_last();
    let wanted = CommandView {
        name: names[i] + " ("@ + program + ")"@,
        program,
        args: seq!["run"@, names[i]],
    };
    let before = script_commands(scripts, shorter, program);
    if i < shorter.len() {
        assert(shorter[i] == names[i]);
        lemma_scripts_are_run(scripts, shorter, program, i);
        let k = choose|k: int| 0 <= k < before.len() && before[k] == wanted;
        assert(script_commands(scripts, names, program)[k] == wanted);
    } else {
        assert(script_commands(scripts, names, program)[before.len() as int] == wanted);
    }
}

/// A project of Python's with tox is checked by tox alone, one with nox by nox
/// alone; another by the tools that it is set up for, each through the program that
/// locks its dependencies.
pub proof fn lemma_python_tools_are_run(facts: ProjectFacts, name: Seq<char>, tool: Seq<char>, args: Seq<Seq<char>>)
    ensures
        has_file(facts, "tox.ini"@) ==> python_commands(facts).len() == 1 && python_commands(facts)[0].program
            == "tox"@ && python_commands(facts)[0].args.len() == 0,
        !has_file(facts, "tox.ini"@) && has_file(facts, "noxfile.py"@) ==> python_commands(facts).len() == 1
            && python_commands(facts)[0].program == "nox"@ && python_commands(facts)[0].args.len() == 0,
        has_file(facts, "uv.lock"@) ==> python_command(facts, name, tool, args).program == "uv"@
            && python_command(facts, name, tool, args).args == seq!["run"@, tool] + args,
        !has_file(facts, "uv.lock"@) && has_file(facts, "poetry.lock"@) ==> python_command(
            facts,
            name,
            tool,
            args,
        ).program == "poetry"@ && python_command(facts, name, tool, args).args == seq!["run"@, tool] + args,
        !has_file(facts, "uv.lock"@) && !has_file(facts, "poetry.lock"@) ==> python_command(
            facts,
            name,
            tool,
            args,
        ).program == tool && python_command(facts, name, tool, args).args == args,
{
}

/// Where neither tox nor nox decides, lint, types and tests are checked exactly if
/// the project is set up for them.
pub proof fn lemma_python_checks_follow_the_setup(facts: ProjectFacts)
    requires
        !has_file(facts, "tox.ini"@),
        !has_file(facts, "noxfile.py"@),
    ensures
        ({
            let config = python_config(facts);
            let commands = python_commands(facts);
            let lint = python_command(facts, "Python lint"@, "ruff"@, seq!["check"@, "."@]);
            let types = python_command(facts, "Python typecheck"@, "mypy"@, seq!["."@]);
            let tests = python_command(facts, "Python tests"@, "pytest"@, Seq::empty());
            &&& has_part(config, "[tool.ruff"@) || has_file(facts, "ruff.toml"@) ==> commands.contains(lint)
            &&& has_part(config, "[tool.mypy"@) ==> commands.contains(types)
            &&& has_part(config, "pytest"@) || facts.tests_directory ==> commands.contains(tests)
            &&& !has_part(config, "[tool.ruff"@) && !has_file(facts, "ruff.toml"@) && !has_part(
                config,
                "[tool.mypy"@,
            ) && !has_part(config, "pytest"@) && !facts.tests_directory ==> commands.len() == 0
        }),
{
    let config = python_config(facts);
    let commands = python_commands(facts);
    let lint = has_part(config, "[tool.ruff"@) || has_file(facts, "ruff.toml"@);
    let types = has_part(config, "[tool.mypy"@);
    let at: int = if lint {
        1
    } else {
        0
    };
    let then: int = if types {
        at + 1
    } else {
        at
    };
    if lint {
        assert(commands[0] == python_command(facts, "Python lint"@, "ruff"@, seq!["check"@, "."@]));
    }
    if types {
        assert(commands[at] == python_command(facts, "Python typecheck"@, "mypy"@, seq!["."@]));
    }
    if has_part(config, "pytest"@) || facts.tests_directory {
        assert(commands[then] == python_command(facts, "Python tests"@, "pytest"@, Seq::empty()));
    }
}

/// Composer runs the scripts named `check`, `lint` and `test` that a project has,
/// in this order.
pub proof fn lemma_composer_runs_its_scripts(scripts: JsonView, name: Seq<char>)
    ensures
        scripts.member(name) is None ==> composer_command(scripts, name).len() == 0,
        scripts.member(name) is Some ==> composer_command(scripts, name).len() == 1 && composer_command(
            scripts,
            name,
        )[0].program == "composer"@ && composer_command(scripts, name)[0].args == seq!["run-script"@, name],
{
}

broadcast proof fn lemma_in_either(a: Seq<CommandView>, b: Seq<CommandView>, item: CommandView)
    ensures
        #[trigger] (a + b).contains(item) <==> a.contains(item) || b.contains(item),
{
    let all = a + b;
    if a.contains(item) {
        let i = choose|i: int| 0 <= i < a.len() && a[i] == item;
        assert(all[i] == item);
    }
    if b.contains(item) {
        let i = choose|i: int| 0 <= i < b.len() && b[i] == item;
        assert(all[a.len() + i] == item);
    }
    if all.contains(item) {
        let i = choose|i: int| 0 <= i < all.len() && all[i] == item;
        if i < a.len() {
            assert(a[i] == item);
        } else {
            assert(b[i - a.len()] == item);
        }
    }
}

broadcast proof fn lemma_in_when(wanted: bool, wished: CommandView, item: CommandView)
    ensures
        #[trigger] when(wanted, wished).contains(item) <==> wanted && item == wished,
{
    if wanted {
        assert(when(wanted, wished)[0] == wished);
    }
}

/// Each build system that a project has is found by its file, and its tests are
/// run by its own program, by the project's own copy where there is one.
pub proof fn lemma_build_systems_are_found(facts: ProjectFacts)
    ensures
        has_file(facts, "Cargo.toml"@) ==> suggested(facts).contains(
            CommandView { name: "Rust tests"@, program: "cargo"@, args: seq!["test"@, "--workspace"@] },
        ),
        has_file(facts, "pubspec.yaml"@) ==> suggested(facts).contains(
            CommandView { name: "Dart/Flutter analysis"@, program: "flutter"@, args: seq!["analyze"@] },
        ) && suggested(facts).contains(
            CommandView { name: "Flutter tests"@, program: "flutter"@, args: seq!["test"@] },
        ),
        has_file(facts, "go.mod"@) ==> suggested(facts).contains(
            CommandView { name: "Go tests"@, program: "go"@, args: seq!["test"@, "./..."@] },
        ),
        has_file(facts, "Package.swift"@) ==> suggested(facts).contains(
            CommandView { name: "Swift tests"@, program: "swift"@, args: seq!["test"@] },
        ),
        is_gradle(facts) && has_file(facts, "gradlew"@) ==> suggested(facts).contains(
            CommandView { name: "Gradle tests"@, program: "./gradlew"@, args: seq!["test"@, "--no-daemon"@] },
        ),
        is_gradle(facts) && !has_file(facts, "gradlew"@) ==> suggested(facts).contains(
            CommandView { name: "Gradle tests"@, program: "gradle"@, args: seq!["test"@, "--no-daemon"@] },
        ),
        !is_gradle(facts) && has_file(facts, "mvnw"@) ==> suggested(facts).contains(
            CommandView { name: "Maven tests"@, program: "./mvnw"@, args: seq!["test"@] },
        ),
        !is_gradle(facts) && !has_file(facts, "mvnw"@) && has_file(facts, "pom.xml"@) ==> suggested(facts).contains(
            CommandView { name: "Maven tests"@, program: "mvn"@, args: seq!["test"@] },
        ),
        has_file(facts, "mix.exs"@) ==> suggested(facts).contains(
            CommandView { name: "Elixir tests"@, program: "mix"@, args: seq!["test"@] },
        ),
        has_file(facts, "Gemfile"@) && has_file(facts, "Rakefile"@) ==> suggested(facts).contains(
            CommandView { name: "Ruby tests"@, program: "bundle"@, args: seq!["exec"@, "rake"@, "test"@] },
        ),
        has_file(facts, "MODULE.bazel"@) || has_file(facts, "WORKSPACE"@) ==> suggested(facts).contains(
            CommandView { name: "Bazel tests"@, program: "bazel"@, args: seq!["test"@, "//..."@] },
        ),
        has_file(facts, "pants.toml"@) && has_file(facts, "pants"@) ==> suggested(facts).contains(
            CommandView { name: "Pants tests"@, program: "./pants"@, args: seq!["test"@, "::"@] },
        ),
        has_file(facts, "pants.toml"@) && !has_file(facts, "pants"@) ==> suggested(facts).contains(
            CommandView { name: "Pants tests"@, program: "pants"@, args: seq!["test"@, "::"@] },
        ),
{
    broadcast use {lemma_in_either, lemma_in_when};

}

/// Commands of Node, Python and Composer are among those that are found, where the
/// project has their files.
pub proof fn lemma_commands_of_tools_are_found(facts: ProjectFacts, item: CommandView)
    ensures
        has_file(facts, "package.json"@) && package_commands(facts).contains(item) ==> suggested(facts).contains(
            item,
        ),
        is_python(facts) && python_commands(facts).contains(item) ==> suggested(facts).contains(item),
        has_file(facts, "composer.json"@) && composer_commands(facts).contains(item) ==> suggested(facts).contains(
            item,
        ),
        any_has_extension(texts_of(facts.entries@), "csproj"@) || any_has_extension(
            texts_of(facts.entries@),
            "sln"@,
        ) ==> suggested(facts).contains(
            CommandView { name: ".NET tests"@, program: "dotnet"@, args: seq!["test"@, "--no-restore"@] },
        ),
{
    broadcast use {lemma_in_either, lemma_in_when};

}

} // verus!
