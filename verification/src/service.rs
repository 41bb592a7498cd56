//! The runtime as a service: how it is started, what it numbers and tells, the
//! terminals that it keeps, and when it can be replaced.

use crate::edition::State;
use crate::ids::{hyphenated, identifier_text};
use crate::json::{no_members, Json, JsonView};
use crate::model::{error_of, protocol_error, ProtocolError};
use crate::paths::{join_path, joined_path};
use crate::state::{position, ServerEvent, ServerEventView};
use crate::text::{
    byte_count, byte_len, contains, decimal, decimal_text, has_part, number_of, read_number,
    same_text, str_of, text_list, text_of, texts_of,
};
use vstd::prelude::*;

verus! {

// ---- starting ----

/// What the runtime is started as.
#[derive(Clone, Copy, Debug, PartialEq, Eq, Structural)]
pub enum StartCommand {
    /// The runtime of this user's own machine.
    Runtime,
    /// The runtime on an SSH host.
    RemoteRuntime,
    /// The bridge from standard input to the runtime on an SSH host.
    Bridge,
    /// What tells its version.
    Version,
}

/// What the runtime is started as, by its arguments.
pub open spec fn command_of(args: Seq<Seq<char>>) -> Option<StartCommand> {
    if args.len() == 0 {
        Some(StartCommand::Runtime)
    } else if args == seq!["daemon"@] || args == seq!["daemon"@, "--remote"@] {
        Some(StartCommand::RemoteRuntime)
    } else if args == seq!["bridge"@, "--stdio"@] {
        Some(StartCommand::Bridge)
    } else if args == seq!["version-json"@] {
        Some(StartCommand::Version)
    } else {
        None
    }
}

/// Whether arguments are just the given ones.
fn args_are<const N: usize>(args: &Vec<String>, wanted: [&str; N]) -> (r: bool)
    ensures
        r == (texts_of(args@) == wanted@.map_values(|part: &str| part@)),
{
    let ghost list = texts_of(args@);
    let ghost parts = wanted@.map_values(|part: &str| part@);
    if args.len() != N {
        assert(list.len() != parts.len());
        return false;
    }
    let mut i: usize = 0;
    while i < N
        invariant
            0 <= i <= N,
            args.len() == N,
            wanted@.len() == N,
            list == texts_of(args@),
            parts == wanted@.map_values(|part: &str| part@),
            forall|k: int| 0 <= k < i ==> list[k] == #[trigger] parts[k],
        decreases N - i,
    {
        assert(list[i as int] == args@[i as int]@);
        assert(parts[i as int] == wanted@[i as int]@);
        if !same_text(args[i].as_str(), wanted[i]) {
            return false;
        }
        i += 1;
    }
    assert(list =~= parts);
    true
}

/// What the runtime is started as, by its arguments.
pub fn start_command(args: &Vec<String>) -> (r: Result<StartCommand, &'static str>)
    ensures
        match command_of(texts_of(args@)) {
            Some(command) => r == Ok::<StartCommand, &'static str>(command),
            None => r matches Err(text) && text@ == "unsupported ditchd command"@,
        },
{
    proof {
        assert(["daemon"]@.map_values(|part: &str| part@) =~= seq!["daemon"@]);
        assert(["daemon", "--remote"]@.map_values(|part: &str| part@) =~= seq![
            "daemon"@,
            "--remote"@,
        ]);
        assert(["bridge", "--stdio"]@.map_values(|part: &str| part@) =~= seq!["bridge"@, "--stdio"@]);
        assert(["version-json"]@.map_values(|part: &str| part@) =~= seq!["version-json"@]);
    }
    if args.len() == 0 {
        Ok(StartCommand::Runtime)
    } else if args_are(args, ["daemon"]) || args_are(args, ["daemon", "--remote"]) {
        Ok(StartCommand::RemoteRuntime)
    } else if args_are(args, ["bridge", "--stdio"]) {
        Ok(StartCommand::Bridge)
    } else if args_are(args, ["version-json"]) {
        Ok(StartCommand::Version)
    } else {
        Err("unsupported ditchd command")
    }
}

/// How long a line is that the bridge passes on, in bytes.
pub const MAX_BRIDGE_BYTES: usize = 4194304;

/// Whether the bridge passes a line on.
pub fn check_bridge_line(line: &str) -> (r: Result<(), &'static str>)
    ensures
        if byte_count(line@) > MAX_BRIDGE_BYTES {
            r matches Err(text) && text@ == "bridge request is too large"@
        } else {
            r is Ok
        },
{
    if byte_len(line) > MAX_BRIDGE_BYTES {
        Err("bridge request is too large")
    } else {
        Ok(())
    }
}

/// What was found where the runtime's socket is to be.
#[derive(Clone, Copy, Debug, PartialEq, Eq, Structural)]
pub enum SocketProbe {
    /// Nothing.
    Absent,
    /// A socket on which somebody answers.
    Answered,
    /// A socket that nobody serves.
    Unserved,
    /// Something that could not be asked.
    Failed,
}

/// What is done about the runtime's socket.
#[derive(Clone, Copy, Debug, PartialEq, Eq, Structural)]
pub enum SocketStep {
    /// It can be made.
    Proceed,
    /// What is left of it is removed first.
    Remove,
    /// The runtime is not started: another one runs.
    AlreadyRunning,
    /// The runtime is not started: what is there is not touched.
    GiveUp,
}

/// Whether what was found of a socket is handled as it should be.
pub open spec fn socket_handled(
    found: SocketProbe,
    r: SocketStep,
) -> bool {
    r == (match found {
        SocketProbe::Absent => SocketStep::Proceed,
        SocketProbe::Answered => SocketStep::AlreadyRunning,
        SocketProbe::Unserved => SocketStep::Remove,
        SocketProbe::Failed => SocketStep::GiveUp,
    })
}

/// What is done about the runtime's socket. One that is served is never removed.
pub fn remove_stale_socket(found: SocketProbe) -> (r: SocketStep)
    ensures
        socket_handled(found, r),
{
    match found {
        SocketProbe::Absent => SocketStep::Proceed,
        SocketProbe::Answered => SocketStep::AlreadyRunning,
        SocketProbe::Unserved => SocketStep::Remove,
        SocketProbe::Failed => SocketStep::GiveUp,
    }
}

/// Whether a credential can be one of an official build, by its length in bytes.
pub fn accepts_credential(length: usize) -> (r: bool)
    ensures
        r == (0 < length <= 128),
{
    0 < length && length <= 128
}

/// What is written down of a runtime that has started.
pub fn runtime_metadata(pid: u32, epoch: u128, started_at: &str, version: &str) -> (r: Json)
    ensures
        r@ == no_members().with("pid"@, crate::json::integer(pid as i64)).with(
            "epoch"@,
            JsonView::Text(hyphenated(epoch)),
        ).with("started_at"@, JsonView::Text(started_at@)).with("version"@, JsonView::Text(version@)),
{
    Json::object().with("pid", Json::of_signed(pid as i64)).with(
        "epoch",
        Json::of_text(identifier_text(epoch).as_str()),
    ).with("started_at", Json::of_text(started_at)).with("version", Json::of_text(version))
}

/// The file beside the runtime's description that it is written to first.
pub fn temporary_metadata(folder: &str, id: u128) -> (r: String)
    ensures
        r@ == joined_path(folder@, ".daemon-"@ + hyphenated(id) + ".tmp"@),
{
    let mut name = ".daemon-".to_owned();
    name.append(identifier_text(id).as_str());
    name.append(".tmp");
    join_path(folder, name.as_str())
}

/// What the runtime can do.
pub open spec fn capabilities_of(protocol: u64, edition: State, now: i64) -> Seq<Seq<char>> {
    let all = seq![
        "edition_commercial"@,
        "persistent_sessions_v1"@,
        "attention_stream_v1"@,
        "transcript_pagination_v1"@,
        "project_files_v1"@,
        "persistent_attention_read_v1"@,
        "always_on_web_access_v1"@,
        "ssh_remote_runtime_v1"@,
        "remote_directory_picker_v1"@,
        "remote_runtime_protocol_v"@ + decimal(protocol as nat),
    ];
    crate::edition::capabilities_with(edition, all, now)
}

/// What the runtime can do.
pub fn runtime_capabilities(protocol: u64, edition: &State, now: i64) -> (r: Vec<String>)
    ensures
        texts_of(r@) == capabilities_of(protocol, *edition, now),
{
    let mut last = "remote_runtime_protocol_v".to_owned();
    last.append(decimal_text(protocol).as_str());
    let mut list = text_list(
        [
            "edition_commercial",
            "persistent_sessions_v1",
            "attention_stream_v1",
            "transcript_pagination_v1",
            "project_files_v1",
            "persistent_attention_read_v1",
            "always_on_web_access_v1",
            "ssh_remote_runtime_v1",
            "remote_directory_picker_v1",
            last.as_str(),
        ],
    );
    assert(texts_of(list@) =~= seq![
        "edition_commercial"@,
        "persistent_sessions_v1"@,
        "attention_stream_v1"@,
        "transcript_pagination_v1"@,
        "project_files_v1"@,
        "persistent_attention_read_v1"@,
        "always_on_web_access_v1"@,
        "ssh_remote_runtime_v1"@,
        "remote_directory_picker_v1"@,
        "remote_runtime_protocol_v"@ + decimal(protocol as nat),
    ]);
    crate::edition::extend_runtime_capabilities(edition, &mut list, now);
    list
}

// ---- telling ----

/// Whether an event is told to those who listen for notices alone.
pub open spec fn is_attention_event(event: ServerEventView) -> bool {
    event is AttentionRaised || event is AttentionDismissed || event is AttentionRead
}

/// The number of the next event.
#[derive(Debug)]
pub struct Sequence {
    pub next: u64,
}

/// An event with its number, and whether those who listen for notices alone hear
/// it too.
#[derive(Clone, Copy, Debug, PartialEq, Eq, Structural)]
pub struct Stamp {
    pub sequence: u64,
    pub for_attention: bool,
}

impl Sequence {
    /// Nothing has been told.
    pub fn new() -> (r: Sequence)
        ensures
            r.next == 1,
    {
        Sequence { next: 1 }
    }

    /// Numbers an event that is told to all.
    pub fn broadcast(&mut self, event: &ServerEvent) -> (r: Stamp)
        requires
            old(self).next < u64::MAX,
        ensures
            r.sequence == old(self).next,
            r.for_attention == is_attention_event(event@),
            final(self).next == old(self).next + 1,
    {
        let for_attention = matches!(
            event,
            ServerEvent::AttentionRaised(_) | ServerEvent::AttentionDismissed { .. }
                | ServerEvent::AttentionRead { .. }
        );
        let sequence = self.next;
        self.next += 1;
        Stamp { sequence, for_attention }
    }

    /// The number of the last event, which somebody who missed events is told a
    /// snapshot with. It takes no number of its own.
    pub fn last(&self) -> (r: u64)
        ensures
            self.next > 0 ==> r == self.next - 1,
            self.next == 0 ==> r == 0,
    {
        if self.next > 0 {
            self.next - 1
        } else {
            0
        }
    }

    /// Numbers what somebody who begins to listen is told first.
    pub fn first(&mut self) -> (r: u64)
        requires
            old(self).next < u64::MAX,
        ensures
            r == old(self).next,
            final(self).next == old(self).next + 1,
    {
        let sequence = self.next;
        self.next += 1;
        sequence
    }
}

// ---- terminals ----

/// The size of a terminal: columns, then rows.
pub fn terminal_size(columns: u16, rows: u16) -> (r: (u16, u16))
    ensures
        r.0 == (if columns < 2 {
            2u16
        } else if columns > 500 {
            500u16
        } else {
            columns
        }),
        r.1 == (if rows < 2 {
            2u16
        } else if rows > 300 {
            300u16
        } else {
            rows
        }),
{
    (
        if columns < 2 {
            2
        } else if columns > 500 {
            500
        } else {
            columns
        },
        if rows < 2 {
            2
        } else if rows > 300 {
            300
        } else {
            rows
        },
    )
}

/// How much of what a setup terminal printed is kept, in bytes.
pub const MAX_SETUP_OUTPUT: usize = 1048576;

/// The last bytes of a row, at most so many.
pub open spec fn last_bytes(bytes: Seq<u8>, most: nat) -> Seq<u8> {
    if bytes.len() > most {
        bytes.skip(bytes.len() - most)
    } else {
        bytes
    }
}

/// What a setup terminal printed and nobody has read.
#[derive(Debug)]
pub struct SetupOutput {
    pub bytes: Vec<u8>,
}

impl SetupOutput {
    /// Nothing was printed.
    pub fn new() -> (r: SetupOutput)
        ensures
            r.bytes@ == Seq::<u8>::empty(),
    {
        SetupOutput { bytes: Vec::new() }
    }

    /// Keeps what was printed, and no more than the last bytes of all.
    pub fn keep(&mut self, printed: &[u8])
        requires
            old(self).bytes@.len() + printed@.len() <= usize::MAX,
        ensures
            final(self).bytes@ == last_bytes(
                old(self).bytes@ + printed@,
                MAX_SETUP_OUTPUT as nat,
            ),
            final(self).bytes@.len() <= MAX_SETUP_OUTPUT,
    {
        let ghost all = self.bytes@ + printed@;
        let total: usize = self.bytes.len() + printed.len();
        let skipped: usize = if total > MAX_SETUP_OUTPUT {
            total - MAX_SETUP_OUTPUT
        } else {
            0
        };
        let mut kept: Vec<u8> = Vec::new();
        let mut i: usize = skipped;
        let old_len = self.bytes.len();
        assert(kept@ =~= all.subrange(skipped as int, skipped as int));
        while i < total
            invariant
                skipped <= i <= total,
                all == self.bytes@ + printed@,
                old_len == self.bytes@.len(),
                total == all.len(),
                kept@ == all.subrange(skipped as int, i as int),
            decreases total - i,
        {
            let byte = if i < old_len {
                self.bytes[i]
            } else {
                printed[i - old_len]
            };
            assert(byte == all[i as int]);
            kept.push(byte);
            assert(kept@ =~= all.subrange(skipped as int, i + 1));
            i += 1;
        }
        assert(kept@ =~= last_bytes(all, MAX_SETUP_OUTPUT as nat));
        self.bytes = kept;
    }

    /// Hands out what was printed and keeps nothing.
    pub fn take(&mut self) -> (r: Vec<u8>)
        ensures
            r@ == old(self).bytes@,
            final(self).bytes@ == Seq::<u8>::empty(),
    {
        let mut taken: Vec<u8> = Vec::new();
        std::mem::swap(&mut taken, &mut self.bytes);
        taken
    }
}

/// A terminal in a project.
#[derive(Debug)]
pub struct ProjectTerminal {
    pub id: u128,
    pub project_id: u128,
    pub shell: String,
}

/// The mathematical value of a terminal.
pub struct TerminalView {
    pub id: u128,
    pub project_id: u128,
    pub shell: Seq<char>,
}

impl View for ProjectTerminal {
    type V = TerminalView;

    open spec fn view(&self) -> TerminalView {
        TerminalView { id: self.id, project_id: self.project_id, shell: self.shell@ }
    }
}

impl ProjectTerminal {
    /// A terminal equal to this one.
    pub fn copy(&self) -> (r: ProjectTerminal)
        ensures
            r == *self,
    {
        ProjectTerminal { id: self.id, project_id: self.project_id, shell: self.shell.clone() }
    }
}

/// The terminals in projects.
#[derive(Debug)]
pub struct Terminals {
    pub list: Vec<ProjectTerminal>,
}

/// The projects of terminals.
pub open spec fn terminal_projects(list: Seq<TerminalView>) -> Seq<u128> {
    list.map_values(|terminal: TerminalView| terminal.project_id)
}

/// The numbers of terminals.
pub open spec fn terminal_ids(list: Seq<TerminalView>) -> Seq<u128> {
    list.map_values(|terminal: TerminalView| terminal.id)
}

impl View for Terminals {
    type V = Seq<TerminalView>;

    open spec fn view(&self) -> Seq<TerminalView> {
        self.list@.map_values(|terminal: ProjectTerminal| terminal@)
    }
}

/// That no project has two terminals.
pub open spec fn one_each(list: Seq<TerminalView>) -> bool {
    forall|i: int, j: int|
        0 <= i < j < list.len() ==> (#[trigger] list[i]).project_id != (#[trigger] list[j]).project_id
}

/// The terminal of a project.
pub open spec fn terminal_in(list: Seq<TerminalView>, project_id: u128) -> Option<TerminalView> {
    match position(terminal_projects(list), project_id) {
        Some(i) => Some(list[i]),
        None => None,
    }
}

/// The terminals without one.
pub open spec fn terminal_closed(list: Seq<TerminalView>, id: u128) -> Seq<TerminalView> {
    match position(terminal_ids(list), id) {
        Some(i) => list.remove(i),
        None => list,
    }
}

impl Terminals {
    /// There are no terminals.
    pub fn new() -> (r: Terminals)
        ensures
            r@ == Seq::<TerminalView>::empty(),
    {
        let r = Terminals { list: Vec::new() };
        assert(r@ =~= Seq::<TerminalView>::empty());
        r
    }

    /// The place of the terminal of a project.
    fn find_in(&self, project_id: u128) -> (r: Option<usize>)
        ensures
            match r {
                Some(i) => i < self.list.len() && position(terminal_projects(self@), project_id) == Some(
                    i as int,
                ),
                None => position(terminal_projects(self@), project_id) is None,
            },
    {
        let ghost ids = terminal_projects(self@);
        let mut i: usize = 0;
        assert(ids.take(0) =~= Seq::empty());
        while i < self.list.len()
            invariant
                0 <= i <= self.list.len(),
                ids == terminal_projects(self@),
                position(ids.take(i as int), project_id) is None,
            decreases self.list.len() - i,
        {
            assert(ids.take(i + 1).drop_last() =~= ids.take(i as int));
            assert(ids.take(i + 1).last() == self.list@[i as int].project_id);
            if self.list[i].project_id == project_id {
                proof {
                    crate::state::lemma_position_found(ids, project_id, i + 1);
                }
                return Some(i);
            }
            i += 1;
        }
        assert(ids.take(ids.len() as int) =~= ids);
        None
    }

    /// The place of a terminal.
    fn find(&self, id: u128) -> (r: Option<usize>)
        ensures
            match r {
                Some(i) => i < self.list.len() && position(terminal_ids(self@), id) == Some(i as int),
                None => position(terminal_ids(self@), id) is None,
            },
    {
        let ghost ids = terminal_ids(self@);
        let mut i: usize = 0;
        assert(ids.take(0) =~= Seq::empty());
        while i < self.list.len()
            invariant
                0 <= i <= self.list.len(),
                ids == terminal_ids(self@),
                position(ids.take(i as int), id) is None,
            decreases self.list.len() - i,
        {
            assert(ids.take(i + 1).drop_last() =~= ids.take(i as int));
            assert(ids.take(i + 1).last() == self.list@[i as int].id);
            if self.list[i].id == id {
                proof {
                    crate::state::lemma_position_found(ids, id, i + 1);
                }
                return Some(i);
            }
            i += 1;
        }
        assert(ids.take(ids.len() as int) =~= ids);
        None
    }

    /// The terminal of a project.
    pub fn of_project(&self, project_id: u128) -> (r: Option<ProjectTerminal>)
        ensures
            match r {
                Some(terminal) => terminal_in(self@, project_id) == Some(terminal@),
                None => terminal_in(self@, project_id) is None,
            },
    {
        match self.find_in(project_id) {
            Some(i) => {
                assert(self@[i as int] == self.list@[i as int]@);
                Some(self.list[i].copy())
            },
            None => None,
        }
    }

    /// Keeps a terminal that has been opened, unless its project has got one
    /// meanwhile: then that one is handed out, and the new one is to be ended.
    pub fn open(&mut self, terminal: ProjectTerminal) -> (r: Option<ProjectTerminal>)
        ensures
            match terminal_in(old(self)@, terminal.project_id) {
                Some(existing) => r matches Some(kept) && kept@ == existing && final(self)@ == old(
                    self,
                )@,
                None => r is None && final(self)@ == old(self)@.push(terminal@),
            },
            one_each(old(self)@) ==> one_each(final(self)@),
    {
        let ghost before = self@;
        if let Some(existing) = self.of_project(terminal.project_id) {
            return Some(existing);
        }
        proof {
            crate::state::lemma_position(terminal_projects(before), terminal.project_id);
        }
        self.list.push(terminal);
        assert(self@ =~= before.push(terminal@));
        assert forall|i: int, j: int|
            one_each(before) && 0 <= i < j < self@.len() implies (#[trigger] self@[i]).project_id != (
        #[trigger] self@[j]).project_id by {
            assert(self@[i] == before[i]);
            assert(terminal_projects(before)[i] == before[i].project_id);
            if j < before.len() {
                assert(self@[j] == before[j]);
            }
        }
        None
    }

    /// Whether a terminal is there.
    pub fn check(&self, id: u128) -> (r: Result<(), ProtocolError>)
        ensures
            if position(terminal_ids(self@), id) is Some {
                r is Ok
            } else {
                r matches Err(e) && e@ == error_of(
                    "terminal_not_found"@,
                    "The terminal session is no longer active"@,
                )
            },
    {
        match self.find(id) {
            Some(_) => Ok(()),
            None => Err(
                protocol_error("terminal_not_found", "The terminal session is no longer active"),
            ),
        }
    }

    /// Forgets a terminal, and tells whether it was there and is to be ended.
    pub fn close(&mut self, id: u128) -> (r: bool)
        ensures
            r == (position(terminal_ids(old(self)@), id) is Some),
            final(self)@ == terminal_closed(old(self)@, id),
            one_each(old(self)@) ==> one_each(final(self)@),
    {
        let ghost before = self@;
        match self.find(id) {
            Some(i) => {
                self.list.remove(i);
                assert(self@ =~= before.remove(i as int));
                assert forall|a: int, b: int|
                    one_each(before) && 0 <= a < b < self@.len() implies (
                #[trigger] self@[a]).project_id != (#[trigger] self@[b]).project_id by {
                    let from = if a < i {
                        a
                    } else {
                        a + 1
                    };
                    let to = if b < i {
                        b
                    } else {
                        b + 1
                    };
                    assert(self@[a] == before[from]);
                    assert(self@[b] == before[to]);
                }
                true
            },
            None => false,
        }
    }
}

/// The executable with which Codex is signed in: the one that is worked with, else
/// the one that an installer of Codex itself leaves, where it is there.
pub fn authentication_binary(active: Option<String>, installed: Option<String>) -> (r: Result<
    String,
    ProtocolError,
>)
    ensures
        match active {
            Some(path) => r == Ok::<String, ProtocolError>(path),
            None => match installed {
                Some(path) => r == Ok::<String, ProtocolError>(path),
                None => r matches Err(e) && e@ == error_of(
                    "codex_missing"@,
                    "Codex is not installed on this machine"@,
                ),
            },
        },
{
    match active {
        Some(path) => Ok(path),
        None => match installed {
            Some(path) => Ok(path),
            None => Err(protocol_error("codex_missing", "Codex is not installed on this machine")),
        },
    }
}

/// Where an installer of Codex itself leaves it.
pub fn installed_codex(home: &str) -> (r: String)
    ensures
        r@ == joined_path(home@, ".local/bin/codex"@),
{
    join_path(home, ".local/bin/codex")
}

/// Whether the sandbox of Codex is set up on a system: only where there is one to
/// set up.
pub fn check_sandbox_setup(system: &str) -> (r: Result<(), ProtocolError>)
    ensures
        if system@ == "linux"@ {
            r is Ok
        } else {
            r matches Err(e) && e@ == error_of(
                "codex_sandbox_setup_unsupported"@,
                "Codex sandbox setup is only required on Linux"@,
            )
        },
{
    if same_text(system, "linux") {
        Ok(())
    } else {
        Err(
            protocol_error(
                "codex_sandbox_setup_unsupported",
                "Codex sandbox setup is only required on Linux",
            ),
        )
    }
}

// ---- replacing the runtime ----

/// What is told where an installation waits for agents.
pub open spec fn deferral(count: nat) -> Seq<char> {
    "Commercial installation is waiting for "@ + decimal(count) + " active agent"@ + (if count == 1 {
        ""@
    } else {
        "s"@
    }) + " to finish. Ditch will not interrupt running work."@
}

/// Whether an installation waits: as long as an agent works.
pub fn commercial_upgrade_deferred(active_session_count: usize) -> (r: Option<ProtocolError>)
    ensures
        if active_session_count > 0 {
            r matches Some(e) && e@ == error_of(
                "commercial_upgrade_deferred"@,
                deferral(active_session_count as nat),
            )
        } else {
            r is None
        },
{
    if active_session_count == 0 {
        return None;
    }
    let mut message = "Commercial installation is waiting for ".to_owned();
    message.append(decimal_text(active_session_count as u64).as_str());
    message.append(" active agent");
    message.append(
        if active_session_count == 1 {
            ""
        } else {
            "s"
        },
    );
    message.append(" to finish. Ditch will not interrupt running work.");
    Some(protocol_error("commercial_upgrade_deferred", message.as_str()))
}

/// Why an official release cannot be had.
#[derive(Debug)]
pub enum UpgradeError {
    Network,
    Relay { code: String },
    Rejected,
    Expired,
    Downgrade,
    Incompatible,
    ManifestSignature,
    Digest,
    Size,
    ApplicationIdentity,
    InvalidResponse(String),
    Io,
}

/// The code under which it is told that a release cannot be had.
pub open spec fn release_code(error: UpgradeError) -> Seq<char> {
    match error {
        UpgradeError::Network => "commercial_release_network_failed"@,
        UpgradeError::Relay { code } => if code@ == "release_unavailable"@ {
            "commercial_release_unavailable"@
        } else if code@ == "device_not_licensed"@ {
            "commercial_device_not_licensed"@
        } else {
            "commercial_release_rejected"@
        },
        UpgradeError::Rejected => "commercial_release_rejected"@,
        UpgradeError::Expired => "commercial_release_authorization_expired"@,
        UpgradeError::Downgrade => "commercial_release_downgrade_refused"@,
        UpgradeError::Incompatible => "commercial_release_incompatible"@,
        UpgradeError::ManifestSignature => "commercial_release_signature_invalid"@,
        UpgradeError::Digest => "commercial_release_artifact_invalid"@,
        UpgradeError::Size => "commercial_release_artifact_invalid"@,
        UpgradeError::ApplicationIdentity => "commercial_release_identity_invalid"@,
        UpgradeError::InvalidResponse(message) => if has_part(
            message@,
            "not configured for official Commercial artifacts"@,
        ) || has_part(message@, "Apple Team ID is not configured"@) {
            "commercial_release_verification_not_configured"@
        } else {
            "commercial_release_invalid"@
        },
        UpgradeError::Io => "commercial_release_staging_failed"@,
    }
}

/// What is told where a release cannot be had, with the words of the failure
/// itself.
pub fn commercial_release_error(error: &UpgradeError, text: &str) -> (r: ProtocolError)
    ensures
        r@ == error_of(release_code(*error), text@),
{
    let code: &str = match error {
        UpgradeError::Network => "commercial_release_network_failed",
        UpgradeError::Relay { code } => if same_text(code.as_str(), "release_unavailable") {
            "commercial_release_unavailable"
        } else if same_text(code.as_str(), "device_not_licensed") {
            "commercial_device_not_licensed"
        } else {
            "commercial_release_rejected"
        },
        UpgradeError::Rejected => "commercial_release_rejected",
        UpgradeError::Expired => "commercial_release_authorization_expired",
        UpgradeError::Downgrade => "commercial_release_downgrade_refused",
        UpgradeError::Incompatible => "commercial_release_incompatible",
        UpgradeError::ManifestSignature => "commercial_release_signature_invalid",
        UpgradeError::Digest | UpgradeError::Size => "commercial_release_artifact_invalid",
        UpgradeError::ApplicationIdentity => "commercial_release_identity_invalid",
        UpgradeError::InvalidResponse(message) => if contains(
            message.as_str(),
            "not configured for official Commercial artifacts",
        ) || contains(message.as_str(), "Apple Team ID is not configured") {
            "commercial_release_verification_not_configured"
        } else {
            "commercial_release_invalid"
        },
        UpgradeError::Io => "commercial_release_staging_failed",
    };
    protocol_error(code, text)
}

/// The character of base 64 that stands for six bits.
pub open spec fn standard_char(n: int) -> char {
    if n == 62 {
        '+'
    } else if n == 63 {
        '/'
    } else {
        crate::remote_pairing::base64_char(n)
    }
}

/// Bytes in base 64, padded to groups of four characters.
pub open spec fn base64_padded(bytes: Seq<u8>) -> Seq<char>
    decreases bytes.len(),
{
    if bytes.len() == 0 {
        Seq::empty()
    } else if bytes.len() == 1 {
        seq![standard_char((bytes[0] / 4) as int), standard_char(bytes[0] % 4 * 16), '=', '=']
    } else if bytes.len() == 2 {
        seq![
            standard_char((bytes[0] / 4) as int),
            standard_char(bytes[0] % 4 * 16 + bytes[1] / 16),
            standard_char(bytes[1] % 16 * 4),
            '=',
        ]
    } else {
        seq![
            standard_char((bytes[0] / 4) as int),
            standard_char(bytes[0] % 4 * 16 + bytes[1] / 16),
            standard_char(bytes[1] % 16 * 4 + bytes[2] / 64),
            standard_char((bytes[2] % 64) as int),
        ] + base64_padded(bytes.skip(3))
    }
}

/// `base64::Engine::decode` of the standard engine, which takes only what it would
/// itself make of some bytes.
#[verifier::external_body]
fn decode_base64(text: &str) -> (r: Option<Vec<u8>>)
    ensures
        match r {
            Some(bytes) => text@ == base64_padded(bytes@),
            None => forall|bytes: Seq<u8>| text@ != #[trigger] base64_padded(bytes),
        },
{
    base64::Engine::decode(&base64::engine::general_purpose::STANDARD, text).ok()
}

/// What an official release is held to.
#[derive(Debug)]
pub struct ReleaseSettings {
    pub public_key: Vec<u8>,
    pub team_id: String,
    pub community_build: u64,
    pub installed_sequence: u64,
}

/// What a build was given to hold official releases to.
#[derive(Debug)]
pub struct BuildSettings {
    pub public_key: Option<String>,
    pub team_id: Option<String>,
    pub build_number: Option<String>,
    pub community_build_sequence: Option<String>,
    pub release_sequence: Option<String>,
}

/// The first of two texts that is there, else `0`.
pub open spec fn number_text(first: Option<Seq<char>>, second: Option<Seq<char>>) -> Seq<char> {
    match first {
        Some(text) => text,
        None => match second {
            Some(text) => text,
            None => "0"@,
        },
    }
}

/// Why a build cannot hold an official release to anything.
pub open spec fn settings_failure(build: BuildSettings) -> Option<Seq<char>> {
    if build.public_key is None {
        Some("this source build is not configured for official Commercial artifacts"@)
    } else if forall|bytes: Seq<u8>| build.public_key->0@ != #[trigger] base64_padded(bytes) {
        Some("release verification key is invalid"@)
    } else if build.team_id is None {
        Some("official Apple Team ID is not configured"@)
    } else if number_of(
        number_text(text_of(build.build_number), text_of(build.community_build_sequence)),
    ) is None {
        Some("Community build sequence is invalid"@)
    } else if number_of(number_text(text_of(build.release_sequence), None)) is None {
        Some("installed release sequence is invalid"@)
    } else {
        None
    }
}

/// What an official release is held to by a build.
pub fn release_settings(build: &BuildSettings) -> (r: Result<ReleaseSettings, &'static str>)
    ensures
        match settings_failure(*build) {
            Some(failure) => r matches Err(text) && text@ == failure,
            None => {
                &&& r matches Ok(settings)
                &&& base64_padded(settings.public_key@) == build.public_key->0@
                &&& settings.team_id@ == build.team_id->0@
                &&& number_of(
                    number_text(
                        text_of(build.build_number),
                        text_of(build.community_build_sequence),
                    ),
                ) == Some(settings.community_build)
                &&& number_of(number_text(text_of(build.release_sequence), None)) == Some(
                    settings.installed_sequence,
                )
            },
        },
{
    let key = match &build.public_key {
        Some(key) => key,
        None => {
            return Err("this source build is not configured for official Commercial artifacts");
        },
    };
    let public_key = match decode_base64(key.as_str()) {
        Some(bytes) => bytes,
        None => {
            return Err("release verification key is invalid");
        },
    };
    assert(build.public_key->0@ == base64_padded(public_key@));
    let team_id = match &build.team_id {
        Some(team) => team.clone(),
        None => {
            return Err("official Apple Team ID is not configured");
        },
    };
    let build_text: &str = match &build.build_number {
        Some(text) => text.as_str(),
        None => match &build.community_build_sequence {
            Some(text) => text.as_str(),
            None => "0",
        },
    };
    let community_build = match read_number(build_text) {
        Some(n) => n,
        None => {
            return Err("Community build sequence is invalid");
        },
    };
    let sequence_text: &str = match &build.release_sequence {
        Some(text) => text.as_str(),
        None => "0",
    };
    let installed_sequence = match read_number(sequence_text) {
        Some(n) => n,
        None => {
            return Err("installed release sequence is invalid");
        },
    };
    Ok(ReleaseSettings { public_key, team_id, community_build, installed_sequence })
}

/// The sequence of the installed release, as it is told: none where it cannot be
/// read.
pub fn told_release_sequence(text: Option<&str>) -> (r: u64)
    ensures
        r == (match str_of(text) {
            Some(text) => match number_of(text) {
                Some(n) => n,
                None => 0u64,
            },
            None => 0u64,
        }),
{
    match text {
        Some(text) => match read_number(text) {
            Some(n) => n,
            None => 0,
        },
        None => 0,
    }
}

/// A socket that somebody serves is never removed, and nothing is removed that could
/// not be asked.
pub proof fn lemma_served_sockets_stay(found: SocketProbe, r: SocketStep)
    requires
        socket_handled(found, r),
    ensures
        r is Remove <==> found is Unserved,
        r is AlreadyRunning <==> found is Answered,
        r is Proceed <==> found is Absent,
        r is GiveUp <==> found is Failed,
{
}

/// What the runtime is started as: without arguments as the runtime of this machine,
/// and with any but the known ones not at all.
pub proof fn lemma_start_commands(args: Seq<Seq<char>>)
    ensures
        args.len() == 0 <==> command_of(args) == Some(StartCommand::Runtime),
        command_of(seq!["daemon"@]) == Some(StartCommand::RemoteRuntime),
        command_of(seq!["daemon"@, "--remote"@]) == Some(StartCommand::RemoteRuntime),
        command_of(seq!["bridge"@, "--stdio"@]) == Some(StartCommand::Bridge),
        command_of(seq!["version-json"@]) == Some(StartCommand::Version),
        args.len() > 2 ==> command_of(args) is None,
{
    reveal_strlit("daemon");
    reveal_strlit("bridge");
    reveal_strlit("version-json");
    reveal_strlit("--remote");
    reveal_strlit("--stdio");
    assert("daemon"@[0] == 'd' && "bridge"@[0] == 'b');
    assert("daemon"@.len() == 6 && "version-json"@.len() == 12);
    let bridge = seq!["bridge"@, "--stdio"@];
    let version = seq!["version-json"@];
    assert(bridge[0] == "bridge"@ && bridge.len() == 2);
    assert(seq!["daemon"@, "--remote"@][0] == "daemon"@);
    assert(version[0] == "version-json"@);
    assert(seq!["daemon"@][0] == "daemon"@);
}

/// Only events about notices reach those who listen for notices alone.
pub proof fn lemma_listeners_for_notices(event: ServerEventView)
    ensures
        is_attention_event(event) <==> event is AttentionRaised || event is AttentionDismissed
            || event is AttentionRead,
        event is AgentChanged ==> !is_attention_event(event),
        event is AgentMessageAppended ==> !is_attention_event(event),
{
}

/// Of what a setup terminal printed the last bytes are kept, as many as may be.
pub proof fn lemma_last_bytes_are_kept(bytes: Seq<u8>, most: nat)
    ensures
        last_bytes(bytes, most).len() <= most || last_bytes(bytes, most) == bytes,
        bytes.len() <= most ==> last_bytes(bytes, most) == bytes,
        bytes.len() > most ==> last_bytes(bytes, most).len() == most && (forall|i: int|
            0 <= i < most ==> #[trigger] last_bytes(bytes, most)[i] == bytes[bytes.len() - most + i]),
{
}

/// A terminal is found in the project that it was opened in, and none is found once it
/// is closed where no project has two.
pub proof fn lemma_terminals_belong_to_projects(list: Seq<TerminalView>, project_id: u128, id: u128, i: int)
    ensures
        terminal_in(list, project_id) is Some ==> terminal_in(list, project_id)->0.project_id == project_id
            && list.contains(terminal_in(list, project_id)->0),
        terminal_in(list, project_id) is None && 0 <= i < list.len() ==> list[i].project_id != project_id,
        0 <= i < list.len() && list[i].id != id ==> terminal_closed(list, id).contains(list[i]),
        terminal_ids(list).contains(id) ==> terminal_closed(list, id).len() == list.len() - 1,
{
    crate::state::lemma_position(terminal_projects(list), project_id);
    crate::state::lemma_position(terminal_ids(list), id);
    if terminal_in(list, project_id) is Some {
        let at = position(terminal_projects(list), project_id)->0;
        assert(terminal_projects(list)[at] == list[at].project_id);
    } else if 0 <= i < list.len() {
        assert(terminal_projects(list)[i] == list[i].project_id);
    }
    if 0 <= i < list.len() && list[i].id != id {
        match position(terminal_ids(list), id) {
            Some(at) => {
                assert(terminal_ids(list)[at] == list[at].id);
                if i < at {
                    assert(terminal_closed(list, id)[i] == list[i]);
                } else {
                    assert(terminal_closed(list, id)[i - 1] == list[i]);
                }
            },
            None => {
                assert(terminal_closed(list, id)[i] == list[i]);
            },
        }
    }
}

/// Why a release cannot be had is told with a code of its own for each failure that a
/// user can act on; a signature that does not hold is never told as anything else.
pub proof fn lemma_release_failures_have_their_codes(code: String)
    ensures
        release_code(UpgradeError::Network) == "commercial_release_network_failed"@,
        release_code(UpgradeError::Expired) == "commercial_release_authorization_expired"@,
        release_code(UpgradeError::Downgrade) == "commercial_release_downgrade_refused"@,
        release_code(UpgradeError::Incompatible) == "commercial_release_incompatible"@,
        release_code(UpgradeError::ManifestSignature) == "commercial_release_signature_invalid"@,
        release_code(UpgradeError::Digest) == "commercial_release_artifact_invalid"@,
        release_code(UpgradeError::Size) == "commercial_release_artifact_invalid"@,
        release_code(UpgradeError::ApplicationIdentity) == "commercial_release_identity_invalid"@,
        release_code(UpgradeError::Io) == "commercial_release_staging_failed"@,
        code@ == "release_unavailable"@ ==> release_code(UpgradeError::Relay { code })
            == "commercial_release_unavailable"@,
        code@ == "device_not_licensed"@ ==> release_code(UpgradeError::Relay { code })
            == "commercial_device_not_licensed"@,
        code@ != "release_unavailable"@ && code@ != "device_not_licensed"@ ==> release_code(
            UpgradeError::Relay { code },
        ) == "commercial_release_rejected"@,
{
    reveal_strlit("release_unavailable");
    reveal_strlit("device_not_licensed");
    assert("release_unavailable"@[0] == 'r' && "device_not_licensed"@[0] == 'd');
}

/// Everything that a runtime can do is told, and the version of its protocol,
/// whatever the plan.
pub proof fn lemma_what_a_runtime_can_do_is_told(protocol: u64, edition: State, now: i64)
    ensures
        ({
            let told = capabilities_of(protocol, edition, now);
            &&& told.len() >= 10
            &&& told.contains("persistent_sessions_v1"@)
            &&& told.contains("attention_stream_v1"@)
            &&& told.contains("transcript_pagination_v1"@)
            &&& told.contains("project_files_v1"@)
            &&& told.contains("persistent_attention_read_v1"@)
            &&& told.contains("always_on_web_access_v1"@)
            &&& told.contains("ssh_remote_runtime_v1"@)
            &&& told.contains("remote_directory_picker_v1"@)
            &&& told[0] == "edition_commercial"@
            &&& told[9] == "remote_runtime_protocol_v"@ + decimal(protocol as nat)
        }),
{
    let told = capabilities_of(protocol, edition, now);
    assert(told[1] == "persistent_sessions_v1"@);
    assert(told[2] == "attention_stream_v1"@);
    assert(told[3] == "transcript_pagination_v1"@);
    assert(told[4] == "project_files_v1"@);
    assert(told[5] == "persistent_attention_read_v1"@);
    assert(told[6] == "always_on_web_access_v1"@);
    assert(told[7] == "ssh_remote_runtime_v1"@);
    assert(told[8] == "remote_directory_picker_v1"@);
}

/// An upgrade that waits says for how many agents, one or several.
pub proof fn lemma_waiting_upgrades_say_for_whom(count: nat)
    ensures
        count == 1 ==> deferral(count) == "Commercial installation is waiting for "@ + decimal(1)
            + " active agent"@ + ""@ + " to finish. Ditch will not interrupt running work."@,
        count != 1 ==> deferral(count) == "Commercial installation is waiting for "@ + decimal(count)
            + " active agent"@ + "s"@ + " to finish. Ditch will not interrupt running work."@,
{
}

/// The first text that is set stands for a number, and where none is, zero.
pub proof fn lemma_numbers_have_a_fallback(first: Option<Seq<char>>, second: Option<Seq<char>>)
    ensures
        first matches Some(text) ==> number_text(first, second) == text,
        first is None ==> (second matches Some(text) ==> number_text(first, second) == text),
        first is None && second is None ==> number_text(first, second) == "0"@,
{
}

/// A build is complete exactly if its key can be read, its team is named and its
/// numbers are numbers. Without a key it is no official one, whatever else is set.
pub proof fn lemma_what_an_official_build_needs(build: BuildSettings)
    ensures
        build.public_key is None ==> settings_failure(build) == Some(
            "this source build is not configured for official Commercial artifacts"@,
        ),
        settings_failure(build) is None ==> build.public_key is Some && build.team_id is Some && (exists|
            bytes: Seq<u8>,
        |
            build.public_key->0@ == #[trigger] base64_padded(bytes)),
        build.public_key is Some && (exists|bytes: Seq<u8>|
            build.public_key->0@ == #[trigger] base64_padded(bytes)) && build.team_id is None
            ==> settings_failure(build) == Some("official Apple Team ID is not configured"@),
{
}

} // verus!
