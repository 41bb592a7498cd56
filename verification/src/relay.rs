//! The connection to the relay: how it is opened and kept, and what the frames
//! that come in over it ask for.

use crate::ids::{hyphenated, id_text, parsed_optional_id, read_optional_id};
use crate::json::{no_members, parsed_json, read_json, rendered_json, Json, JsonView, NumberView};
use crate::remote_machine::{is_version_one, RemoteDeviceRecord};
use crate::remote_pairing::{id_at, RemoteMachineRecord};
use crate::text::{replace_once, replaced_once, same_text};
use crate::transport::{frame_value, has_passed, websocket_frame, HEARTBEAT_INTERVAL};
use vstd::prelude::*;
use vstd::string::*;

verus! {

/// What a frame of the relay asks for.
#[derive(Debug)]
pub enum RelayFrameAction {
    Nothing,
    ProjectionAck { epoch: u128, sequence: u64, status: String },
    ProjectionGap { epoch: u128 },
    /// A device may no longer control this machine.
    ForgetDevice { device_id: u128 },
    /// This machine may no longer be controlled at all.
    Revoked,
    Command { message_id: u128, payload: Json },
}

/// The mathematical value of what a frame asks for.
pub enum FrameAction {
    Nothing,
    ProjectionAck { epoch: u128, sequence: u64, status: Seq<char> },
    ProjectionGap { epoch: u128 },
    ForgetDevice { device_id: u128 },
    Revoked,
    Command { message_id: u128, payload: JsonView },
}

impl View for RelayFrameAction {
    type V = FrameAction;

    open spec fn view(&self) -> FrameAction {
        match self {
            RelayFrameAction::Nothing => FrameAction::Nothing,
            RelayFrameAction::ProjectionAck { epoch, sequence, status } => FrameAction::ProjectionAck {
                epoch: *epoch,
                sequence: *sequence,
                status: status@,
            },
            RelayFrameAction::ProjectionGap { epoch } => FrameAction::ProjectionGap { epoch: *epoch },
            RelayFrameAction::ForgetDevice { device_id } => FrameAction::ForgetDevice {
                device_id: *device_id,
            },
            RelayFrameAction::Revoked => FrameAction::Revoked,
            RelayFrameAction::Command { message_id, payload } => FrameAction::Command {
                message_id: *message_id,
                payload: payload@,
            },
        }
    }
}

/// The payload of a frame, where it is an object.
pub open spec fn payload_object(frame: JsonView) -> Option<JsonView> {
    match frame.member("payload"@) {
        Some(JsonView::Object(members)) => Some(JsonView::Object(members)),
        _ => None,
    }
}

/// The number in a field.
pub open spec fn unsigned_at(value: JsonView, key: Seq<char>) -> Option<u64> {
    match value.member(key) {
        Some(value) => value.unsigned(),
        None => None,
    }
}

/// What an acknowledgement says.
pub open spec fn acknowledgement(frame: JsonView) -> Result<FrameAction, Seq<char>> {
    match payload_object(frame) {
        None => Err("projection acknowledgement omitted payload"@),
        Some(payload) => match (
            id_at(payload, "epoch"@),
            unsigned_at(payload, "accepted_sequence"@),
            payload.text_at("status"@),
        ) {
            (None, _, _) => Err("projection acknowledgement omitted epoch"@),
            (_, None, _) => Err("projection acknowledgement omitted sequence"@),
            (_, _, None) => Err("projection acknowledgement omitted status"@),
            (Some(epoch), Some(sequence), Some(status)) => Ok(
                FrameAction::ProjectionAck { epoch, sequence, status },
            ),
        },
    }
}

/// What a report of a gap says.
pub open spec fn gap_report(frame: JsonView) -> Result<FrameAction, Seq<char>> {
    match payload_object(frame) {
        None => Err("projection gap omitted payload"@),
        Some(payload) => match id_at(payload, "epoch"@) {
            None => Err("projection gap omitted epoch"@),
            Some(epoch) => if unsigned_at(payload, "expected_sequence"@) is None {
                Err("projection gap omitted expected sequence"@)
            } else if unsigned_at(payload, "received_sequence"@) is None {
                Err("projection gap omitted received sequence"@)
            } else if payload.member("full_snapshot_required"@) != Some(JsonView::Bool(true)) {
                Err("projection gap did not require reconciliation"@)
            } else {
                Ok(FrameAction::ProjectionGap { epoch })
            },
        },
    }
}

/// What a frame of the relay asks for, or why the connection ends.
pub open spec fn frame_action(frame: Option<JsonView>) -> Result<FrameAction, Seq<char>> {
    match frame {
        None => Err("invalid relay frame"@),
        Some(frame) => if frame.member("protocol_version"@) != Some(
            JsonView::Number(NumberView::Unsigned(1)),
        ) {
            Err("unsupported relay protocol"@)
        } else {
            match frame.text_at("type"@) {
                None => Err("relay frame omitted type"@),
                Some(kind) => typed_action(kind, frame),
            }
        },
    }
}

/// What a frame of a type asks for.
pub open spec fn typed_action(kind: Seq<char>, frame: JsonView) -> Result<FrameAction, Seq<char>> {
    if kind == "projection_ack"@ {
        acknowledgement(frame)
    } else if kind == "projection_gap"@ {
        gap_report(frame)
    } else if kind == "hello"@ || kind == "presence"@ {
        Ok(FrameAction::Nothing)
    } else if kind == "machine_access_revoked"@ {
        match parsed_optional_id(frame.text_at2("payload"@, "device_id"@)) {
            Some(device_id) => Ok(FrameAction::ForgetDevice { device_id }),
            None => Ok(FrameAction::Nothing),
        }
    } else if kind == "revoked"@ {
        Ok(FrameAction::Revoked)
    } else if kind == "error"@ {
        Err(
            "relay error: "@ + match frame.text_at2("payload"@, "code"@) {
                Some(code) => code,
                None => "relay_error"@,
            },
        )
    } else if kind != "command"@ {
        Err("relay frame type denied"@)
    } else {
        match (id_at(frame, "message_id"@), frame.member("payload"@)) {
            (None, _) => Err("command omitted message id"@),
            (_, None) => Err("command omitted payload"@),
            (Some(message_id), Some(payload)) => Ok(FrameAction::Command { message_id, payload }),
        }
    }
}

/// The payload of a frame, where it is an object.
fn read_payload(frame: &Json) -> (r: Option<&Json>)
    ensures
        match r {
            Some(payload) => payload_object(frame@) == Some(payload@),
            None => payload_object(frame@) is None,
        },
{
    match frame.get("payload") {
        Some(payload) => if payload.is_object() {
            Some(payload)
        } else {
            None
        },
        None => None,
    }
}

/// The number in a field.
pub(crate) fn read_unsigned(value: &Json, key: &str) -> (r: Option<u64>)
    ensures
        r == unsigned_at(value@, key@),
{
    match value.get(key) {
        Some(value) => value.as_unsigned(),
        None => None,
    }
}

/// What an acknowledgement says.
fn read_acknowledgement(frame: &Json) -> (r: Result<RelayFrameAction, String>)
    ensures
        match acknowledgement(frame@) {
            Ok(action) => r matches Ok(read) && read@ == action,
            Err(message) => r matches Err(text) && text@ == message,
        },
{
    let payload = match read_payload(frame) {
        Some(payload) => payload,
        None => {
            return Err("projection acknowledgement omitted payload".to_owned());
        },
    };
    let epoch = match read_optional_id(payload.text_at("epoch")) {
        Some(epoch) => epoch,
        None => {
            return Err("projection acknowledgement omitted epoch".to_owned());
        },
    };
    let sequence = match read_unsigned(payload, "accepted_sequence") {
        Some(sequence) => sequence,
        None => {
            return Err("projection acknowledgement omitted sequence".to_owned());
        },
    };
    match payload.text_at("status") {
        Some(status) => Ok(
            RelayFrameAction::ProjectionAck { epoch, sequence, status: status.to_owned() },
        ),
        None => Err("projection acknowledgement omitted status".to_owned()),
    }
}

/// What a report of a gap says.
fn read_gap(frame: &Json) -> (r: Result<RelayFrameAction, String>)
    ensures
        match gap_report(frame@) {
            Ok(action) => r matches Ok(read) && read@ == action,
            Err(message) => r matches Err(text) && text@ == message,
        },
{
    let payload = match read_payload(frame) {
        Some(payload) => payload,
        None => {
            return Err("projection gap omitted payload".to_owned());
        },
    };
    let epoch = match read_optional_id(payload.text_at("epoch")) {
        Some(epoch) => epoch,
        None => {
            return Err("projection gap omitted epoch".to_owned());
        },
    };
    if read_unsigned(payload, "expected_sequence").is_none() {
        return Err("projection gap omitted expected sequence".to_owned());
    }
    if read_unsigned(payload, "received_sequence").is_none() {
        return Err("projection gap omitted received sequence".to_owned());
    }
    let required = match payload.get("full_snapshot_required") {
        Some(value) => match value.as_bool() {
            Some(b) => b,
            None => false,
        },
        None => false,
    };
    if !required {
        return Err("projection gap did not require reconciliation".to_owned());
    }
    Ok(RelayFrameAction::ProjectionGap { epoch })
}

/// What a frame of the relay asks for, its value having been read.
pub fn read_frame(frame: Option<&Json>) -> (r: Result<RelayFrameAction, String>)
    ensures
        match frame_action(
            match frame {
                Some(value) => Some(value@),
                None => None,
            },
        ) {
            Ok(action) => r matches Ok(read) && read@ == action,
            Err(message) => r matches Err(text) && text@ == message,
        },
{
    let frame = match frame {
        Some(frame) => frame,
        None => {
            return Err("invalid relay frame".to_owned());
        },
    };
    if !is_version_one(frame) {
        return Err("unsupported relay protocol".to_owned());
    }
    let kind = match frame.text_at("type") {
        Some(kind) => kind,
        None => {
            return Err("relay frame omitted type".to_owned());
        },
    };
    if same_text(kind, "projection_ack") {
        return read_acknowledgement(frame);
    }
    if same_text(kind, "projection_gap") {
        return read_gap(frame);
    }
    if same_text(kind, "hello") || same_text(kind, "presence") {
        return Ok(RelayFrameAction::Nothing);
    }
    if same_text(kind, "machine_access_revoked") {
        return match read_optional_id(frame.text_at2("payload", "device_id")) {
            Some(device_id) => Ok(RelayFrameAction::ForgetDevice { device_id }),
            None => Ok(RelayFrameAction::Nothing),
        };
    }
    if same_text(kind, "revoked") {
        return Ok(RelayFrameAction::Revoked);
    }
    if same_text(kind, "error") {
        let mut text = "relay error: ".to_owned();
        match frame.text_at2("payload", "code") {
            Some(code) => text.append(code),
            None => text.append("relay_error"),
        }
        return Err(text);
    }
    if !same_text(kind, "command") {
        return Err("relay frame type denied".to_owned());
    }
    let message_id = match read_optional_id(frame.text_at("message_id")) {
        Some(id) => id,
        None => {
            return Err("command omitted message id".to_owned());
        },
    };
    match frame.get("payload") {
        Some(payload) => Ok(RelayFrameAction::Command { message_id, payload: payload.copy() }),
        None => Err("command omitted payload".to_owned()),
    }
}

/// What a frame of the relay asks for.
pub fn handle_socket_frame(text: &str) -> (r: Result<RelayFrameAction, String>)
    ensures
        match frame_action(parsed_json(text@)) {
            Ok(action) => r matches Ok(read) && read@ == action,
            Err(message) => r matches Err(text) && text@ == message,
        },
{
    match read_json(text) {
        Some(frame) => read_frame(Some(&frame)),
        None => read_frame(None),
    }
}

// ---- the connection ----

/// How long the next attempt to connect is put off, in seconds.
#[derive(Clone, Copy, Debug, PartialEq, Eq, Structural)]
pub struct Backoff {
    pub seconds: u64,
}

impl Backoff {
    /// At least a second, at most a minute.
    pub open spec fn well_formed(self) -> bool {
        1 <= self.seconds <= 60
    }

    /// The time before the second attempt.
    pub fn new() -> (r: Backoff)
        ensures
            r.seconds == 1,
            r.well_formed(),
    {
        Backoff { seconds: 1 }
    }

    /// The connection has held: the next one is attempted soon.
    pub fn reset(&mut self)
        ensures
            final(self).seconds == 1,
            final(self).well_formed(),
    {
        self.seconds = 1;
    }

    /// The time to wait after a failure, in milliseconds: the present one and
    /// some chance. The next one is twice as long, up to a minute.
    pub fn after_failure(&mut self, jitter: u8) -> (r: u64)
        requires
            old(self).well_formed(),
        ensures
            r == old(self).seconds * 1000 + jitter,
            final(self).seconds == (if old(self).seconds * 2 < 60 {
                old(self).seconds * 2
            } else {
                60
            }),
            final(self).well_formed(),
    {
        let delay = self.seconds * 1000 + jitter as u64;
        self.seconds = if self.seconds * 2 < 60 {
            self.seconds * 2
        } else {
            60
        };
        delay
    }
}

/// Whether a connection is kept as it should be.
pub open spec fn connection_kept(
    entitled: bool,
    machine: Option<RemoteMachineRecord>,
    r: bool,
) -> bool {
    r == (entitled && machine is Some && machine->0.enabled)
}

/// Whether the machine is to stay connected.
pub fn stays_connected(entitled: bool, machine: &Option<RemoteMachineRecord>) -> (r: bool)
    ensures
        connection_kept(entitled, *machine, r),
{
    match machine {
        Some(record) => entitled && record.enabled,
        None => false,
    }
}

/// The request for a ticket to the socket.
pub fn ticket_request(machine_id: u128, connection_epoch: u128) -> (r: Json)
    ensures
        r@ == no_members().with("machine_id"@, JsonView::Text(hyphenated(machine_id))).with(
            "role"@,
            JsonView::Text("machine"@),
        ).with("connection_epoch"@, JsonView::Text(hyphenated(connection_epoch))),
{
    Json::object().with("machine_id", Json::Text(id_text(machine_id))).with(
        "role",
        Json::of_text("machine"),
    ).with("connection_epoch", Json::Text(id_text(connection_epoch)))
}

/// The address of the socket at an origin.
pub open spec fn socket_text(origin: Seq<char>, ticket: Seq<char>) -> Seq<char> {
    replaced_once(replaced_once(origin, "https://"@, "wss://"@), "http://"@, "ws://"@)
        + "/v1/socket?ticket="@ + ticket
}

/// The address of the socket, with the ticket that the relay gave.
pub fn socket_address(origin: &str, answer: &Json) -> (r: Result<String, &'static str>)
    ensures
        match answer@.text_at("ticket"@) {
            Some(ticket) => r matches Ok(text) && text@ == socket_text(origin@, ticket),
            None => r matches Err(text) && text@ == "relay omitted socket ticket"@,
        },
{
    match answer.text_at("ticket") {
        Some(ticket) => {
            let secure = replace_once(origin, "https://", "wss://");
            let mut text = replace_once(secure.as_str(), "http://", "ws://");
            text.append("/v1/socket?ticket=");
            text.append(ticket);
            Ok(text)
        },
        None => Err("relay omitted socket ticket"),
    }
}

/// The owner for whom this machine is connected, and the machine.
pub fn connected_owner(machine: &Option<RemoteMachineRecord>) -> (r: Result<(u128, u128), &'static str>)
    ensures
        match machine {
            None => r matches Err(text) && text@ == "remote identity unavailable"@,
            Some(record) => match record.owner_id {
                None => r matches Err(text) && text@ == "remote owner unavailable"@,
                Some(owner) => r == Ok::<(u128, u128), &'static str>((owner, record.machine_id)),
            },
        },
{
    match machine {
        None => Err("remote identity unavailable"),
        Some(record) => match record.owner_id {
            None => Err("remote owner unavailable"),
            Some(owner) => Ok((owner, record.machine_id)),
        },
    }
}

/// Whether the connection is to show that it lives. The time is one that only
/// grows.
pub fn heartbeat_due(last: u64, now: u64) -> (r: bool)
    ensures
        r == has_passed(last, now, HEARTBEAT_INTERVAL),
{
    now >= last && now - last >= HEARTBEAT_INTERVAL
}

/// The frame that shows that the connection lives.
pub fn heartbeat_frame(message_id: u128, created_at: i64) -> (r: String)
    ensures
        r@ == rendered_json(frame_value("heartbeat"@, no_members(), message_id, created_at)),
{
    websocket_frame("heartbeat", Json::object(), message_id, created_at)
}

// ---- commands ----

/// Whether a device may control this machine.
pub open spec fn is_authorized(devices: Seq<RemoteDeviceRecord>, device_id: u128) -> bool {
    exists|i: int|
        0 <= i < devices.len() && (#[trigger] devices[i]).device_id == device_id && devices[i].state@
            == "active"@
}

/// The place of the first device with an identifier that is active.
pub open spec fn active_device(devices: Seq<RemoteDeviceRecord>, device_id: u128) -> Option<int>
    decreases devices.len(),
{
    if devices.len() == 0 {
        None
    } else {
        match active_device(devices.drop_last(), device_id) {
            Some(i) => Some(i),
            None => if devices.last().device_id == device_id && devices.last().state@ == "active"@ {
                Some(devices.len() - 1)
            } else {
                None
            },
        }
    }
}

proof fn lemma_active_device(devices: Seq<RemoteDeviceRecord>, device_id: u128)
    ensures
        active_device(devices, device_id) is Some <==> is_authorized(devices, device_id),
        active_device(devices, device_id) matches Some(i) ==> 0 <= i < devices.len()
            && devices[i].device_id == device_id && devices[i].state@ == "active"@,
    decreases devices.len(),
{
    if devices.len() > 0 {
        lemma_active_device(devices.drop_last(), device_id);
        if is_authorized(devices.drop_last(), device_id) {
            let i = choose|i: int|
                0 <= i < devices.drop_last().len() && (#[trigger] devices.drop_last()[i]).device_id
                    == device_id && devices.drop_last()[i].state@ == "active"@;
            assert(devices[i].device_id == device_id);
        }
        if is_authorized(devices, device_id) {
            let i = choose|i: int|
                0 <= i < devices.len() && (#[trigger] devices[i]).device_id == device_id
                    && devices[i].state@ == "active"@;
            if i < devices.len() - 1 {
                assert(devices.drop_last()[i] == devices[i]);
            }
        }
    }
}

/// The place of the first device with an identifier that is active.
pub fn find_active_device(devices: &Vec<RemoteDeviceRecord>, device_id: u128) -> (r: Option<usize>)
    ensures
        match r {
            Some(i) => i < devices.len() && active_device(devices@, device_id) == Some(i as int),
            None => active_device(devices@, device_id) is None,
        },
        r is Some <==> is_authorized(devices@, device_id),
{
    let ghost list = devices@;
    let mut i: usize = 0;
    proof {
        lemma_active_device(list, device_id);
        assert(list.take(0) =~= Seq::empty());
    }
    while i < devices.len()
        invariant
            0 <= i <= devices.len(),
            list == devices@,
            active_device(list.take(i as int), device_id) is None,
            active_device(list, device_id) is Some <==> is_authorized(list, device_id),
        decreases devices.len() - i,
    {
        assert(list.take(i + 1).drop_last() =~= list.take(i as int));
        if devices[i].device_id == device_id && same_text(devices[i].state.as_str(), "active") {
            proof {
                lemma_first_active(list, device_id, i + 1);
            }
            return Some(i);
        }
        i += 1;
    }
    assert(list.take(list.len() as int) =~= list);
    None
}

proof fn lemma_first_active(devices: Seq<RemoteDeviceRecord>, device_id: u128, at: int)
    requires
        0 <= at <= devices.len(),
        active_device(devices.take(at), device_id) is Some,
    ensures
        active_device(devices, device_id) == active_device(devices.take(at), device_id),
    decreases devices.len() - at,
{
    if at == devices.len() {
        assert(devices.take(at) =~= devices);
    } else {
        assert(devices.take(at + 1).drop_last() =~= devices.take(at));
        lemma_first_active(devices, device_id, at + 1);
    }
}

/// How long the owner's authentication on the device holds, in milliseconds.
pub const AUTHENTICATION_WINDOW: i64 = 60000;

/// Whether the owner has authenticated on the device within the last minute.
pub open spec fn is_fresh(wrapper: JsonView, now: i64) -> bool {
    match wrapper.member("owner_authenticated_at"@) {
        Some(value) => match value.signed() {
            Some(at) => 0 <= now - at <= AUTHENTICATION_WINDOW,
            None => false,
        },
        None => false,
    }
}

/// The body of a decrypted command, and whether the owner has authenticated on
/// the device within the last minute.
pub fn unwrap_command(wrapper: &Json, now: i64) -> (r: (Json, bool))
    ensures
        r.0@ == (match wrapper@.member("body"@) {
            Some(body) => body,
            None => wrapper@,
        }),
        r.1 == is_fresh(wrapper@, now),
{
    let body = match wrapper.get("body") {
        Some(body) => body.copy(),
        None => wrapper.copy(),
    };
    let authenticated = match wrapper.get("owner_authenticated_at") {
        Some(value) => match value.as_signed() {
            Some(at) => {
                let age = now as i128 - at as i128;
                0 <= age && age <= AUTHENTICATION_WINDOW as i128
            },
            None => false,
        },
        None => false,
    };
    (body, authenticated)
}

/// The frame that tells that a command has come in.
pub fn command_ack_frame(command_id: u128, device_id: u128, message_id: u128, created_at: i64) -> (r: String)
    ensures
        r@ == rendered_json(
            frame_value(
                "command_ack"@,
                no_members().with("command_id"@, JsonView::Text(hyphenated(command_id))).with(
                    "device_id"@,
                    JsonView::Text(hyphenated(device_id)),
                ).with("status"@, JsonView::Text("accepted"@)),
                message_id,
                created_at,
            ),
        ),
{
    let payload = Json::object().with("command_id", Json::Text(id_text(command_id))).with(
        "device_id",
        Json::Text(id_text(device_id)),
    ).with("status", Json::of_text("accepted"));
    websocket_frame("command_ack", payload, message_id, created_at)
}

/// How long the result of a command may be read, in milliseconds.
pub const RESULT_LIFETIME: i64 = 60000;

/// The frame that tells what became of a command, encrypted for the device.
pub fn command_result_frame(
    command_id: u128,
    device_id: u128,
    encrypted: Json,
    message_id: u128,
    created_at: i64,
) -> (r: String)
    requires
        created_at <= i64::MAX - RESULT_LIFETIME,
    ensures
        r@ == rendered_json(
            frame_value(
                "command_result"@,
                no_members().with("command_id"@, JsonView::Text(hyphenated(command_id))).with(
                    "device_id"@,
                    JsonView::Text(hyphenated(device_id)),
                ).with("expires_at"@, crate::json::integer((created_at + RESULT_LIFETIME) as i64)).with(
                    "encrypted"@,
                    encrypted@,
                ),
                message_id,
                created_at,
            ),
        ),
{
    let payload = Json::object().with("command_id", Json::Text(id_text(command_id))).with(
        "device_id",
        Json::Text(id_text(device_id)),
    ).with("expires_at", Json::of_signed(created_at + RESULT_LIFETIME)).with("encrypted", encrypted);
    websocket_frame("command_result", payload, message_id, created_at)
}

/// A device may control this machine exactly while one of the devices on record with its
/// identifier is active.
pub proof fn lemma_only_active_devices_control(devices: Seq<RemoteDeviceRecord>, device_id: u128, i: int)
    ensures
        is_authorized(devices, device_id) <==> exists|k: int|
            0 <= k < devices.len() && (#[trigger] devices[k]).device_id == device_id && devices[k].state@
                == "active"@,
        active_device(devices, device_id) matches Some(at) ==> devices[at].device_id == device_id
            && devices[at].state@ == "active"@,
        active_device(devices, device_id) is None && 0 <= i < devices.len() && devices[i].device_id == device_id
            ==> devices[i].state@ != "active"@,
{
    lemma_active_device(devices, device_id);
}

/// The authentication of the owner counts for a minute after it and never before it.
pub proof fn lemma_authentication_lasts_a_minute(wrapper: JsonView, at: i64, now: i64)
    requires
        wrapper.member("owner_authenticated_at"@) is Some,
        wrapper.member("owner_authenticated_at"@)->0.signed() == Some(at),
    ensures
        is_fresh(wrapper, now) <==> at <= now <= at + 60000,
{
}

/// Without a time of authentication nobody has authenticated.
pub proof fn lemma_authentication_must_be_told(wrapper: JsonView, now: i64)
    requires
        wrapper.member("owner_authenticated_at"@) is None,
    ensures
        !is_fresh(wrapper, now),
{
}

proof fn lemma_frame_kinds()
    ensures
        "projection_ack"@ != "projection_gap"@,
        "projection_ack"@.len() == 14,
        "projection_gap"@.len() == 14,
        "hello"@.len() == 5,
        "presence"@.len() == 8,
        "machine_access_revoked"@.len() == 22,
        "revoked"@.len() == 7,
        "error"@.len() == 5,
        "command"@.len() == 7,
        "hello"@ != "error"@,
        "revoked"@ != "command"@,
{
    reveal_strlit("projection_ack");
    reveal_strlit("projection_gap");
    reveal_strlit("hello");
    reveal_strlit("presence");
    reveal_strlit("machine_access_revoked");
    reveal_strlit("revoked");
    reveal_strlit("error");
    reveal_strlit("command");
    assert("projection_ack"@[11] == 'a' && "projection_gap"@[11] == 'g');
    assert("hello"@[0] == 'h' && "error"@[0] == 'e');
    assert("revoked"@[0] == 'r' && "command"@[0] == 'c');
}

/// What the frames of the relay mean. A frame of another protocol or of an unknown kind
/// ends the connection, and so does an error.
pub proof fn lemma_frames_have_their_meaning(frame: JsonView)
    ensures
        frame.member("protocol_version"@) != Some(JsonView::Number(NumberView::Unsigned(1))) ==> frame_action(
            Some(frame),
        ) == Err::<FrameAction, Seq<char>>("unsupported relay protocol"@),
        frame_action(None) is Err,
        typed_action("revoked"@, frame) == Ok::<FrameAction, Seq<char>>(FrameAction::Revoked),
        typed_action("hello"@, frame) == Ok::<FrameAction, Seq<char>>(FrameAction::Nothing),
        typed_action("presence"@, frame) == Ok::<FrameAction, Seq<char>>(FrameAction::Nothing),
        typed_action("error"@, frame) is Err,
        typed_action("command"@, frame) matches Ok(action) ==> (
        action matches FrameAction::Command { message_id, payload } && id_at(frame, "message_id"@) == Some(
            message_id,
        ) && frame.member("payload"@) == Some(payload)),
        typed_action("projection_ack"@, frame) matches Ok(action) ==> (
        action matches FrameAction::ProjectionAck { epoch, sequence, status } && parsed_optional_id(
            frame.text_at2("payload"@, "epoch"@),
        ) == Some(epoch) && frame.member2("payload"@, "accepted_sequence"@) is Some && frame.member2(
            "payload"@,
            "accepted_sequence"@,
        )->0.unsigned() == Some(sequence) && frame.text_at2("payload"@, "status"@) == Some(status)),
        typed_action("projection_gap"@, frame) matches Ok(action) ==> (
        action matches FrameAction::ProjectionGap { epoch } && parsed_optional_id(
            frame.text_at2("payload"@, "epoch"@),
        ) == Some(epoch) && frame.member2("payload"@, "full_snapshot_required"@) == Some(JsonView::Bool(true))),
        typed_action("machine_access_revoked"@, frame) == (match parsed_optional_id(
            frame.text_at2("payload"@, "device_id"@),
        ) {
            Some(device_id) => Ok::<FrameAction, Seq<char>>(FrameAction::ForgetDevice { device_id }),
            None => Ok(FrameAction::Nothing),
        }),
{
    lemma_frame_kinds();
}

/// A connection is kept exactly while the plan allows it and remote control is on.
pub proof fn lemma_connections_end_with_the_right(entitled: bool, machine: Option<RemoteMachineRecord>, r: bool)
    requires
        connection_kept(entitled, machine, r),
    ensures
        r <==> entitled && machine is Some && machine->0.enabled,
{
}

/// A gap that is reported is heeded only where it is complete and asks for a new
/// snapshot; an acknowledgement only where it names its place and its status.
pub proof fn lemma_reports_must_be_complete(frame: JsonView, payload: JsonView)
    requires
        payload_object(frame) == Some(payload),
    ensures
        gap_report(frame) is Ok <==> id_at(payload, "epoch"@) is Some && unsigned_at(
            payload,
            "expected_sequence"@,
        ) is Some && unsigned_at(payload, "received_sequence"@) is Some && payload.member(
            "full_snapshot_required"@,
        ) == Some(JsonView::Bool(true)),
        gap_report(frame) matches Ok(action) ==> (action matches FrameAction::ProjectionGap { epoch } && Some(
            epoch,
        ) == id_at(payload, "epoch"@)),
        acknowledgement(frame) is Ok <==> id_at(payload, "epoch"@) is Some && unsigned_at(
            payload,
            "accepted_sequence"@,
        ) is Some && payload.text_at("status"@) is Some,
        acknowledgement(frame) matches Ok(action) ==> (action matches FrameAction::ProjectionAck {
            epoch,
            sequence,
            status,
        } && Some(epoch) == id_at(payload, "epoch"@) && Some(sequence) == unsigned_at(
            payload,
            "accepted_sequence"@,
        ) && Some(status) == payload.text_at("status"@)),
{
}

} // verus!
