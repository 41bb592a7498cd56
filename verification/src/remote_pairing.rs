//! Pairing this machine with devices: the requests to the relay, what its
//! answers stand for, and the connection that follows.

use crate::clock::{is_date, valid_millis};
use crate::ids::{hyphenated, id_text, parsed_optional_id, read_optional_id};
use crate::json::{no_members, Json, JsonView};
use crate::model::{error_of, protocol_error, ErrorView, ProtocolError};
use crate::remote_machine::{signed_at, DeviceView, RemoteDeviceRecord};
use crate::text::{
    copy_text, decimal, decimal_text, signed_decimal, signed_decimal_text, str_of, text_of,
};
use vstd::prelude::*;
use vstd::string::*;

verus! {

/// This machine as the relay knows it.
#[derive(Debug)]
pub struct RemoteMachineRecord {
    pub machine_id: u128,
    pub owner_id: Option<u128>,
    pub name: String,
    pub signing_public_key: String,
    pub agreement_public_key: String,
    pub key_version: u32,
    pub enabled: bool,
    pub projection_epoch: u128,
    pub projection_sequence: u64,
}

impl RemoteMachineRecord {
    /// A record equal to this one.
    pub fn copy(&self) -> (r: RemoteMachineRecord)
        ensures
            r == *self,
    {
        RemoteMachineRecord {
            machine_id: self.machine_id,
            owner_id: self.owner_id,
            name: self.name.clone(),
            signing_public_key: self.signing_public_key.clone(),
            agreement_public_key: self.agreement_public_key.clone(),
            key_version: self.key_version,
            enabled: self.enabled,
            projection_epoch: self.projection_epoch,
            projection_sequence: self.projection_sequence,
        }
    }
}

/// The record of this machine under its present identity: what was agreed with
/// the relay is kept, but the owner only where the identity is the same.
pub fn machine_record(
    existing: Option<&RemoteMachineRecord>,
    machine_id: u128,
    name: &str,
    signing_public_key: &str,
    agreement_public_key: &str,
    fresh_epoch: u128,
) -> (r: RemoteMachineRecord)
    ensures
        r.machine_id == machine_id,
        r.owner_id == (match existing {
            Some(record) => if record.machine_id == machine_id {
                record.owner_id
            } else {
                None
            },
            None => None,
        }),
        r.name@ == name@,
        r.signing_public_key@ == signing_public_key@,
        r.agreement_public_key@ == agreement_public_key@,
        r.key_version == 1,
        r.enabled == (existing is Some && existing->0.enabled),
        r.projection_epoch == (match existing {
            Some(record) => record.projection_epoch,
            None => fresh_epoch,
        }),
        r.projection_sequence == (match existing {
            Some(record) => record.projection_sequence,
            None => 0,
        }),
{
    let (owner_id, enabled, projection_epoch, projection_sequence) = match existing {
        Some(record) => (
            if record.machine_id == machine_id {
                record.owner_id
            } else {
                None
            },
            record.enabled,
            record.projection_epoch,
            record.projection_sequence,
        ),
        None => (None, false, fresh_epoch, 0),
    };
    RemoteMachineRecord {
        machine_id,
        owner_id,
        name: name.to_owned(),
        signing_public_key: signing_public_key.to_owned(),
        agreement_public_key: agreement_public_key.to_owned(),
        key_version: 1,
        enabled,
        projection_epoch,
        projection_sequence,
    }
}

/// The record with the progress of the projection.
pub fn persist_projection_progress(
    machine: Option<RemoteMachineRecord>,
    epoch: u128,
    sequence: u64,
) -> (r: Result<RemoteMachineRecord, &'static str>)
    ensures
        match machine {
            Some(record) => r matches Ok(changed) && changed == (RemoteMachineRecord {
                projection_epoch: epoch,
                projection_sequence: sequence,
                ..record
            }),
            None => r matches Err(message) && message@ == "remote identity unavailable"@,
        },
{
    match machine {
        Some(record) => Ok(
            RemoteMachineRecord {
                projection_epoch: epoch,
                projection_sequence: sequence,
                ..record
            },
        ),
        None => Err("remote identity unavailable"),
    }
}

/// The text that is signed to register a machine.
pub open spec fn registration_text(
    machine_id: u128,
    name: Seq<char>,
    signing: Seq<char>,
    agreement: Seq<char>,
) -> Seq<char> {
    "DITCH-MACHINE-REGISTER-1\n"@ + hyphenated(machine_id) + "\n"@ + name + "\n"@ + signing + "\n"@
        + agreement
}

/// The text that is signed to register a machine.
pub fn registration_proof_text(machine_id: u128, name: &str, signing: &str, agreement: &str) -> (r: String)
    ensures
        r@ == registration_text(machine_id, name@, signing@, agreement@),
{
    let mut text = "DITCH-MACHINE-REGISTER-1\n".to_owned();
    text.append(id_text(machine_id).as_str());
    text.append("\n");
    text.append(name);
    text.append("\n");
    text.append(signing);
    text.append("\n");
    text.append(agreement);
    text
}

/// The request that registers a machine, with the signature of its text.
pub fn registration_body(machine_id: u128, name: &str, signing: &str, agreement: &str, signature: &str) -> (r: Json)
    ensures
        r@ == no_members().with(
            "protocol_version"@,
            JsonView::Number(crate::json::NumberView::Unsigned(1)),
        ).with("machine_id"@, JsonView::Text(hyphenated(machine_id))).with("name"@, JsonView::Text(name@)).with(
            "signing_public_key"@,
            JsonView::Text(signing@),
        ).with("agreement_public_key"@, JsonView::Text(agreement@)).with(
            "proof"@,
            JsonView::Text(signature@),
        ),
{
    Json::object().with("protocol_version", Json::of_unsigned(1)).with(
        "machine_id",
        Json::Text(id_text(machine_id)),
    ).with("name", Json::of_text(name)).with("signing_public_key", Json::of_text(signing)).with(
        "agreement_public_key",
        Json::of_text(agreement),
    ).with("proof", Json::of_text(signature))
}

/// Whether the relay took a registration, by the status of its answer.
pub fn registration_result(status: u16) -> (r: Result<(), String>)
    ensures
        if status == 201 {
            r is Ok
        } else {
            r matches Err(text) && text@ == "registration returned "@ + decimal(status as nat)
        },
{
    if status == 201 {
        Ok(())
    } else {
        let mut text = "registration returned ".to_owned();
        text.append(decimal_text(status as u64).as_str());
        Err(text)
    }
}

/// The character of base 64 for URLs that stands for six bits.
pub open spec fn base64_char(n: int) -> char {
    if n < 26 {
        (('A' as u32 + n) as u32) as char
    } else if n < 52 {
        (('a' as u32 + (n - 26)) as u32) as char
    } else if n < 62 {
        (('0' as u32 + (n - 52)) as u32) as char
    } else if n == 62 {
        '-'
    } else {
        '_'
    }
}

/// Bytes in base 64 for URLs, without padding.
pub open spec fn base64url(bytes: Seq<u8>) -> Seq<char>
    decreases bytes.len(),
{
    if bytes.len() == 0 {
        Seq::empty()
    } else if bytes.len() == 1 {
        seq![base64_char((bytes[0] / 4) as int), base64_char(bytes[0] % 4 * 16)]
    } else if bytes.len() == 2 {
        seq![
            base64_char((bytes[0] / 4) as int),
            base64_char(bytes[0] % 4 * 16 + bytes[1] / 16),
            base64_char(bytes[1] % 16 * 4),
        ]
    } else {
        seq![
            base64_char((bytes[0] / 4) as int),
            base64_char(bytes[0] % 4 * 16 + bytes[1] / 16),
            base64_char(bytes[1] % 16 * 4 + bytes[2] / 64),
            base64_char((bytes[2] % 64) as int),
        ] + base64url(bytes.skip(3))
    }
}

/// `base64::Engine::encode` of the engine for URLs without padding.
#[verifier::external_body]
fn encode_base64(bytes: &[u8]) -> (r: String)
    ensures
        r@ == base64url(bytes@),
{
    base64::Engine::encode(&base64::engine::general_purpose::URL_SAFE_NO_PAD, bytes)
}

/// The text of a nonce.
pub fn nonce_text(nonce: &[u8]) -> (r: String)
    ensures
        r@ == base64url(nonce@),
{
    encode_base64(nonce)
}

/// A header of a request.
#[derive(Debug)]
pub struct Header {
    pub name: &'static str,
    pub value: String,
}

/// The mathematical values of some headers.
pub open spec fn headers_view(list: Seq<Header>) -> Seq<(Seq<char>, Seq<char>)> {
    list.map_values(|header: Header| (header.name@, header.value@))
}

/// The headers of a signed request.
pub open spec fn signed_headers(
    machine_id: u128,
    timestamp: i64,
    nonce: Seq<char>,
    signature: Seq<char>,
    bearer: Option<Seq<char>>,
) -> Seq<(Seq<char>, Seq<char>)> {
    let headers = seq![
        ("X-Ditch-Protocol"@, "1"@),
        ("X-Ditch-Principal-Type"@, "machine"@),
        ("X-Ditch-Principal-Id"@, hyphenated(machine_id)),
        ("X-Ditch-Timestamp"@, signed_decimal(timestamp as int)),
        ("X-Ditch-Nonce"@, nonce),
        ("X-Ditch-Signature"@, signature),
    ];
    match bearer {
        Some(bearer) => headers.push(("X-Ditch-Official-Build"@, bearer)),
        None => headers,
    }
}

/// The headers of a signed request.
pub fn signed_request_headers(
    machine_id: u128,
    timestamp: i64,
    nonce: &str,
    signature: &str,
    bearer: Option<&str>,
) -> (r: Vec<Header>)
    ensures
        headers_view(r@) == signed_headers(machine_id, timestamp, nonce@, signature@, str_of(bearer)),
{
    let mut headers: Vec<Header> = Vec::new();
    headers.push(Header { name: "X-Ditch-Protocol", value: "1".to_owned() });
    headers.push(Header { name: "X-Ditch-Principal-Type", value: "machine".to_owned() });
    headers.push(Header { name: "X-Ditch-Principal-Id", value: id_text(machine_id) });
    headers.push(Header { name: "X-Ditch-Timestamp", value: signed_decimal_text(timestamp) });
    headers.push(Header { name: "X-Ditch-Nonce", value: nonce.to_owned() });
    headers.push(Header { name: "X-Ditch-Signature", value: signature.to_owned() });
    if let Some(bearer) = bearer {
        headers.push(Header { name: "X-Ditch-Official-Build", value: bearer.to_owned() });
    }
    assert(headers_view(headers@) =~= signed_headers(
        machine_id,
        timestamp,
        nonce@,
        signature@,
        str_of(bearer),
    ));
    headers
}

/// What a refusal of the relay is told as: the code of its error, where its
/// answer has one.
pub fn rejection_text(body: Option<&Json>) -> (r: String)
    ensures
        r@ == (match body {
            Some(value) => match value@.text_at2("error"@, "code"@) {
                Some(code) => code,
                None => "relay rejected request"@,
            },
            None => "relay rejected request"@,
        }),
{
    if let Some(value) = body {
        if let Some(code) = value.text_at2("error", "code") {
            return code.to_owned();
        }
    }
    "relay rejected request".to_owned()
}

/// A pairing with a device.
#[derive(Debug)]
pub struct RemotePairing {
    pub pairing_id: u128,
    pub machine_id: u128,
    pub state: String,
    pub expires_at: i64,
    pub qr_payload: Option<String>,
    pub pending_device_name: Option<String>,
    pub pending_device_id: Option<u128>,
}

/// The mathematical value of a pairing.
pub struct PairingView {
    pub pairing_id: u128,
    pub machine_id: u128,
    pub state: Seq<char>,
    pub expires_at: i64,
    pub qr_payload: Option<Seq<char>>,
    pub pending_device_name: Option<Seq<char>>,
    pub pending_device_id: Option<u128>,
}

impl View for RemotePairing {
    type V = PairingView;

    open spec fn view(&self) -> PairingView {
        PairingView {
            pairing_id: self.pairing_id,
            machine_id: self.machine_id,
            state: self.state@,
            expires_at: self.expires_at,
            qr_payload: text_of(self.qr_payload),
            pending_device_name: text_of(self.pending_device_name),
            pending_device_id: self.pending_device_id,
        }
    }
}

impl RemotePairing {
    /// A pairing equal to this one.
    pub fn copy(&self) -> (r: RemotePairing)
        ensures
            r == *self,
    {
        RemotePairing {
            pairing_id: self.pairing_id,
            machine_id: self.machine_id,
            state: self.state.clone(),
            expires_at: self.expires_at,
            qr_payload: copy_text(&self.qr_payload),
            pending_device_name: copy_text(&self.pending_device_name),
            pending_device_id: self.pending_device_id,
        }
    }
}

/// The identifier in a field.
pub open spec fn id_at(value: JsonView, key: Seq<char>) -> Option<u128> {
    parsed_optional_id(value.text_at(key))
}

/// The identifier in a field of an answer.
pub fn uuid_field(value: &Json, key: &str) -> (r: Result<u128, String>)
    ensures
        match id_at(value@, key@) {
            Some(id) => r == Ok::<u128, String>(id),
            None => r matches Err(text) && text@ == "relay omitted "@ + key@,
        },
{
    match read_optional_id(value.text_at(key)) {
        Some(id) => Ok(id),
        None => {
            let mut text = "relay omitted ".to_owned();
            text.append(key);
            Err(text)
        },
    }
}

/// What a device reads from the screen to pair with this machine.
pub open spec fn qr_text(
    origin: Seq<char>,
    pairing_id: u128,
    machine_id: u128,
    secret: Seq<char>,
    expires_at: i64,
) -> Seq<char> {
    "ditch://pair?v=1&relay="@ + origin + "&pairing_id="@ + hyphenated(pairing_id) + "&machine_id="@
        + hyphenated(machine_id) + "&secret="@ + secret + "&expires_at="@ + signed_decimal(
        expires_at as int,
    )
}

/// The pairing that an answer of the relay stands for. Its secret goes into the
/// text for the device only where the pairing has just been made.
pub open spec fn pairing_in(origin: Seq<char>, value: JsonView, include_secret: bool) -> Result<
    PairingView,
    Seq<char>,
> {
    match (id_at(value, "pairing_id"@), id_at(value, "machine_id"@), signed_at(value, "expires_at"@)) {
        (None, _, _) => Err("relay omitted "@ + "pairing_id"@),
        (_, None, _) => Err("relay omitted "@ + "machine_id"@),
        (_, _, None) => Err("relay omitted expires_at"@),
        (Some(pairing_id), Some(machine_id), Some(expires_at)) => if !is_date(expires_at) {
            Err("relay returned invalid expiry"@)
        } else if include_secret && value.text_at("secret"@) is None {
            Err("relay omitted one-time secret"@)
        } else {
            Ok(
                PairingView {
                    pairing_id,
                    machine_id,
                    state: match value.text_at("state"@) {
                        Some(state) => state,
                        None => "pending"@,
                    },
                    expires_at,
                    qr_payload: if include_secret {
                        Some(qr_text(origin, pairing_id, machine_id, value.text_at("secret"@)->0, expires_at))
                    } else {
                        None
                    },
                    pending_device_name: value.text_at("pending_device_name"@),
                    pending_device_id: id_at(value, "pending_device_id"@),
                },
            )
        },
    }
}

/// The pairing that an answer of the relay stands for.
pub fn pairing_from_response(origin: &str, value: &Json, include_secret: bool) -> (r: Result<
    RemotePairing,
    String,
>)
    ensures
        match pairing_in(origin@, value@, include_secret) {
            Ok(view) => r matches Ok(pairing) && pairing@ == view,
            Err(message) => r matches Err(text) && text@ == message,
        },
{
    let pairing_id = match uuid_field(value, "pairing_id") {
        Ok(id) => id,
        Err(text) => {
            return Err(text);
        },
    };
    let machine_id = match uuid_field(value, "machine_id") {
        Ok(id) => id,
        Err(text) => {
            return Err(text);
        },
    };
    let expires_at = match value.get("expires_at") {
        Some(value) => value.as_signed(),
        None => None,
    };
    let expires_at = match expires_at {
        Some(millis) => millis,
        None => {
            return Err("relay omitted expires_at".to_owned());
        },
    };
    if !valid_millis(expires_at) {
        return Err("relay returned invalid expiry".to_owned());
    }
    let qr_payload = if include_secret {
        let secret = match value.text_at("secret") {
            Some(secret) => secret,
            None => {
                return Err("relay omitted one-time secret".to_owned());
            },
        };
        let mut text = "ditch://pair?v=1&relay=".to_owned();
        text.append(origin);
        text.append("&pairing_id=");
        text.append(id_text(pairing_id).as_str());
        text.append("&machine_id=");
        text.append(id_text(machine_id).as_str());
        text.append("&secret=");
        text.append(secret);
        text.append("&expires_at=");
        text.append(signed_decimal_text(expires_at).as_str());
        Some(text)
    } else {
        None
    };
    let state = match value.text_at("state") {
        Some(state) => state.to_owned(),
        None => "pending".to_owned(),
    };
    let pending_device_name = match value.text_at("pending_device_name") {
        Some(name) => Some(name.to_owned()),
        None => None,
    };
    let pending_device_id = read_optional_id(value.text_at("pending_device_id"));
    Ok(
        RemotePairing {
            pairing_id,
            machine_id,
            state,
            expires_at,
            qr_payload,
            pending_device_name,
            pending_device_id,
        },
    )
}

/// A secret leaves only with the pairing that was just made.
pub proof fn lemma_secret_is_shown_once(origin: Seq<char>, value: JsonView)
    ensures
        pairing_in(origin, value, false) matches Ok(pairing) ==> pairing.qr_payload is None,
        pairing_in(origin, value, true) matches Ok(pairing) ==> pairing.qr_payload is Some,
{
}

/// What the confirmation of a pairing makes of this machine's record.
pub open spec fn confirmed_owner(value: JsonView, machine: Option<RemoteMachineRecord>) -> Result<
    (RemoteMachineRecord, u128),
    ErrorView,
> {
    match (id_at(value, "owner_id"@), id_at(value, "device_id"@), machine) {
        (None, _, _) => Err(error_of("remote_pairing_failed"@, "Relay omitted owner_id"@)),
        (_, None, _) => Err(error_of("remote_pairing_failed"@, "Relay omitted device_id"@)),
        (_, _, None) => Err(
            error_of("remote_identity_failed"@, "Local machine identity is missing"@),
        ),
        (Some(owner), Some(device), Some(machine)) => Ok(
            (RemoteMachineRecord { owner_id: Some(owner), enabled: true, ..machine }, device),
        ),
    }
}

/// What the confirmation of a pairing makes of this machine's record, and the
/// identifier of the device.
pub fn confirm_owner(value: &Json, machine: Option<RemoteMachineRecord>) -> (r: Result<
    (RemoteMachineRecord, u128),
    ProtocolError,
>)
    ensures
        match confirmed_owner(value@, machine) {
            Ok(changed) => r matches Ok(pair) && pair == changed,
            Err(error) => r matches Err(e) && e@ == error,
        },
{
    let owner = match read_optional_id(value.text_at("owner_id")) {
        Some(id) => id,
        None => {
            return Err(protocol_error("remote_pairing_failed", "Relay omitted owner_id"));
        },
    };
    let device = match read_optional_id(value.text_at("device_id")) {
        Some(id) => id,
        None => {
            return Err(protocol_error("remote_pairing_failed", "Relay omitted device_id"));
        },
    };
    match machine {
        None => Err(protocol_error("remote_identity_failed", "Local machine identity is missing")),
        Some(machine) => Ok(
            (RemoteMachineRecord { owner_id: Some(owner), enabled: true, ..machine }, device),
        ),
    }
}

/// The text in a field, or another text.
pub open spec fn text_or(value: JsonView, key: Seq<char>, other: Seq<char>) -> Seq<char> {
    match value.text_at(key) {
        Some(text) => text,
        None => other,
    }
}

/// The text in a field, or another text.
fn read_text_or(value: &Json, key: &str, other: &str) -> (r: String)
    ensures
        r@ == text_or(value@, key@, other@),
{
    match value.text_at(key) {
        Some(text) => text.to_owned(),
        None => other.to_owned(),
    }
}

/// The device that was paired: the relay must have told its keys.
pub open spec fn confirmed_device(value: JsonView, device_id: u128, now: i64) -> Result<
    DeviceView,
    ErrorView,
> {
    let signing = text_or(value, "device_signing_public_key"@, Seq::empty());
    let agreement = text_or(value, "device_agreement_public_key"@, Seq::empty());
    if signing.len() == 0 || agreement.len() == 0 {
        Err(error_of("remote_pairing_failed"@, "Relay omitted device public keys"@))
    } else {
        Ok(
            DeviceView {
                device_id,
                name: text_or(value, "device_name"@, "iPhone"@),
                signing_public_key: signing,
                agreement_public_key: agreement,
                key_version: 1,
                state: "active"@,
                last_seen_at: Some(now),
            },
        )
    }
}

/// The device that was paired.
pub fn confirm_device(value: &Json, device_id: u128, now: i64) -> (r: Result<
    RemoteDeviceRecord,
    ProtocolError,
>)
    ensures
        match confirmed_device(value@, device_id, now) {
            Ok(view) => r matches Ok(device) && device@ == view,
            Err(error) => r matches Err(e) && e@ == error,
        },
{
    proof {
        reveal_strlit("");
        assert(""@ =~= Seq::empty());
    }
    let device = RemoteDeviceRecord {
        device_id,
        name: read_text_or(value, "device_name", "iPhone"),
        signing_public_key: read_text_or(value, "device_signing_public_key", ""),
        agreement_public_key: read_text_or(value, "device_agreement_public_key", ""),
        key_version: 1,
        state: "active".to_owned(),
        last_seen_at: Some(now),
    };
    if device.signing_public_key.as_str().is_empty() || device.agreement_public_key.as_str().is_empty() {
        return Err(protocol_error("remote_pairing_failed", "Relay omitted device public keys"));
    }
    Ok(device)
}

/// The pairing once it is confirmed.
pub fn consumed_pairing(pairing_id: u128, machine_id: u128, device: &RemoteDeviceRecord, now: i64) -> (r:
    RemotePairing)
    ensures
        r@ == (PairingView {
            pairing_id,
            machine_id,
            state: "consumed"@,
            expires_at: now,
            qr_payload: None,
            pending_device_name: Some(device.name@),
            pending_device_id: Some(device.device_id),
        }),
{
    RemotePairing {
        pairing_id,
        machine_id,
        state: "consumed".to_owned(),
        expires_at: now,
        qr_payload: None,
        pending_device_name: Some(device.name.clone()),
        pending_device_id: Some(device.device_id),
    }
}

/// The pairings and the connection of this machine.
#[derive(Debug)]
pub struct RemoteController {
    pub relay_origin: Option<String>,
    pub pairings: Vec<(u128, RemotePairing)>,
    pub authenticated_socket_live: bool,
    pub connection_started: bool,
}

/// The place of the pairing that is kept under an identifier.
pub open spec fn pairing_index(list: Seq<(u128, RemotePairing)>, id: u128) -> Option<int>
    decreases list.len(),
{
    if list.len() == 0 {
        None
    } else {
        match pairing_index(list.drop_last(), id) {
            Some(i) => Some(i),
            None => if list.last().0 == id {
                Some(list.len() - 1)
            } else {
                None
            },
        }
    }
}

/// Whether this machine is to be connected to the relay.
pub open spec fn is_enrolled(machine: Option<RemoteMachineRecord>) -> bool {
    machine matches Some(record) && record.enabled && record.owner_id is Some
}

/// Whether this machine is to be connected to the relay.
pub fn should_reconcile(machine: &Option<RemoteMachineRecord>) -> (r: bool)
    ensures
        r == is_enrolled(*machine),
{
    match machine {
        Some(record) => record.enabled && record.owner_id.is_some(),
        None => false,
    }
}

/// A device as it is shown.
#[derive(Debug)]
pub struct RemoteDeviceSummary {
    pub device_id: u128,
    pub name: String,
    pub state: String,
    pub last_seen_at: Option<i64>,
    pub currently_connected: bool,
}

/// Remote control as it is shown.
#[derive(Debug)]
pub struct RemoteControlStatus {
    pub configured: bool,
    pub enabled: bool,
    pub machine_id: Option<u128>,
    pub owner_id: Option<u128>,
    pub machine_name: String,
    pub online: bool,
    pub relay_origin: Option<String>,
    pub devices: Vec<RemoteDeviceSummary>,
}

/// Whether a summary shows a device.
pub open spec fn summarizes(summary: RemoteDeviceSummary, device: RemoteDeviceRecord) -> bool {
    &&& summary.device_id == device.device_id
    &&& summary.name@ == device.name@
    &&& summary.state@ == device.state@
    &&& summary.last_seen_at == device.last_seen_at
    &&& !summary.currently_connected
}

/// What happens when the right to remote control may have changed.
#[derive(Clone, Copy, Debug, PartialEq, Eq, Structural)]
pub enum EntitlementEffect {
    /// The connection is started.
    Start,
    /// The connection is woken, so that it ends.
    Wake,
}

/// What becomes of a wake-up of the connection.
#[derive(Clone, Copy, Debug, PartialEq, Eq, Structural)]
pub enum Wakeup {
    Sent,
    Pending,
    Disconnected,
}

impl RemoteController {
    /// No pairing and no connection.
    pub fn new(relay_origin: Option<String>) -> (r: RemoteController)
        ensures
            r.relay_origin == relay_origin,
            r.pairings@ == Seq::<(u128, RemotePairing)>::empty(),
            !r.authenticated_socket_live,
            !r.connection_started,
    {
        RemoteController {
            relay_origin,
            pairings: Vec::new(),
            authenticated_socket_live: false,
            connection_started: false,
        }
    }

    /// Whether the connection is to be started, and that it has been.
    pub fn start_connection(&mut self, entitled: bool, remote_runtime: bool, machine: &Option<RemoteMachineRecord>) -> (r: bool)
        ensures
            r == (entitled && !remote_runtime && is_enrolled(*machine) && !old(self).connection_started
                && old(self).relay_origin is Some),
            *final(self) == (RemoteController {
                connection_started: old(self).connection_started || r,
                ..*old(self)
            }),
    {
        if !entitled || remote_runtime || !should_reconcile(machine) || self.connection_started
            || self.relay_origin.is_none() {
            return false;
        }
        self.connection_started = true;
        true
    }

    /// What happens when the right to remote control may have changed.
    pub fn entitlement_changed(&mut self, active: bool) -> (r: EntitlementEffect)
        ensures
            r == (if active {
                EntitlementEffect::Start
            } else {
                EntitlementEffect::Wake
            }),
            *final(self) == (RemoteController {
                authenticated_socket_live: old(self).authenticated_socket_live && active,
                ..*old(self)
            }),
    {
        if active {
            EntitlementEffect::Start
        } else {
            self.authenticated_socket_live = false;
            EntitlementEffect::Wake
        }
    }

    /// Whether a change is to be told to the connection.
    pub fn publishes_projection(&self, entitled: bool) -> (r: bool)
        ensures
            r == (entitled && self.authenticated_socket_live),
    {
        entitled && self.authenticated_socket_live
    }

    /// What becomes of the connection when it has been woken.
    pub fn projection_woken(&mut self, wakeup: Wakeup)
        ensures
            *final(self) == (RemoteController {
                authenticated_socket_live: old(self).authenticated_socket_live && wakeup
                    != Wakeup::Disconnected,
                ..*old(self)
            }),
    {
        if matches!(wakeup, Wakeup::Disconnected) {
            self.authenticated_socket_live = false;
        }
    }

    /// The connection has ended for good.
    pub fn connection_ended(&mut self)
        ensures
            *final(self) == (RemoteController {
                authenticated_socket_live: false,
                connection_started: false,
                ..*old(self)
            }),
    {
        self.authenticated_socket_live = false;
        self.connection_started = false;
    }

    /// Keeps a pairing under an identifier, in place of the one kept under it.
    pub fn remember_pairing(&mut self, pairing_id: u128, pairing: RemotePairing)
        ensures
            *final(self) == (RemoteController { pairings: final(self).pairings, ..*old(self) }),
            match pairing_index(old(self).pairings@, pairing_id) {
                Some(i) => final(self).pairings@ == old(self).pairings@.update(i, (pairing_id, pairing)),
                None => final(self).pairings@ == old(self).pairings@.push((pairing_id, pairing)),
            },
    {
        match self.find_pairing(pairing_id) {
            Some(i) => {
                self.pairings.set(i, (pairing_id, pairing));
            },
            None => {
                self.pairings.push((pairing_id, pairing));
            },
        }
    }

    /// The place of the pairing that is kept under an identifier.
    fn find_pairing(&self, pairing_id: u128) -> (r: Option<usize>)
        ensures
            match r {
                Some(i) => i < self.pairings.len() && pairing_index(self.pairings@, pairing_id) == Some(
                    i as int,
                ),
                None => pairing_index(self.pairings@, pairing_id) is None,
            },
    {
        let ghost list = self.pairings@;
        let mut i: usize = 0;
        assert(list.take(0) =~= Seq::empty());
        while i < self.pairings.len()
            invariant
                0 <= i <= self.pairings.len(),
                list == self.pairings@,
                pairing_index(list.take(i as int), pairing_id) is None,
            decreases self.pairings.len() - i,
        {
            assert(list.take(i + 1).drop_last() =~= list.take(i as int));
            if self.pairings[i].0 == pairing_id {
                proof {
                    lemma_first_pairing(list, pairing_id, i + 1);
                }
                return Some(i);
            }
            i += 1;
        }
        assert(list.take(list.len() as int) =~= list);
        None
    }

    /// Forgets a pairing.
    pub fn forget_pairing(&mut self, pairing_id: u128)
        ensures
            *final(self) == (RemoteController { pairings: final(self).pairings, ..*old(self) }),
            match pairing_index(old(self).pairings@, pairing_id) {
                Some(i) => final(self).pairings@ == old(self).pairings@.remove(i),
                None => final(self).pairings@ == old(self).pairings@,
            },
    {
        match self.find_pairing(pairing_id) {
            Some(i) => {
                self.pairings.remove(i);
            },
            None => {},
        }
    }

    /// Remote control as it is shown.
    pub fn status(
        &self,
        machine: &Option<RemoteMachineRecord>,
        devices: &Vec<RemoteDeviceRecord>,
        machine_name: &str,
    ) -> (r: RemoteControlStatus)
        ensures
            r.configured == self.relay_origin is Some,
            r.enabled == (machine is Some && machine->0.enabled),
            r.machine_id == (match machine {
                Some(record) => Some(record.machine_id),
                None => None,
            }),
            r.owner_id == (match machine {
                Some(record) => record.owner_id,
                None => None,
            }),
            r.machine_name@ == (match machine {
                Some(record) => record.name@,
                None => machine_name@,
            }),
            r.online == self.authenticated_socket_live,
            r.relay_origin == self.relay_origin,
            r.devices@.len() == devices@.len(),
            forall|i: int|
                0 <= i < devices@.len() ==> summarizes(#[trigger] r.devices@[i], devices@[i]),
    {
        let mut summaries: Vec<RemoteDeviceSummary> = Vec::new();
        let mut i: usize = 0;
        while i < devices.len()
            invariant
                0 <= i <= devices.len(),
                summaries.len() == i,
                forall|k: int| 0 <= k < i ==> summarizes(#[trigger] summaries@[k], devices@[k]),
            decreases devices.len() - i,
        {
            summaries.push(
                RemoteDeviceSummary {
                    device_id: devices[i].device_id,
                    name: devices[i].name.clone(),
                    state: devices[i].state.clone(),
                    last_seen_at: devices[i].last_seen_at,
                    currently_connected: false,
                },
            );
            i += 1;
        }
        let (enabled, machine_id, owner_id, name) = match machine {
            Some(record) => (record.enabled, Some(record.machine_id), record.owner_id, record.name.clone()),
            None => (false, None, None, machine_name.to_owned()),
        };
        RemoteControlStatus {
            configured: self.relay_origin.is_some(),
            enabled,
            machine_id,
            owner_id,
            machine_name: name,
            online: self.authenticated_socket_live,
            relay_origin: copy_text(&self.relay_origin),
            devices: summaries,
        }
    }
}

proof fn lemma_first_pairing(list: Seq<(u128, RemotePairing)>, id: u128, at: int)
    requires
        0 <= at <= list.len(),
        pairing_index(list.take(at), id) is Some,
    ensures
        pairing_index(list, id) == pairing_index(list.take(at), id),
    decreases list.len() - at,
{
    if at == list.len() {
        assert(list.take(at) =~= list);
    } else {
        assert(list.take(at + 1).drop_last() =~= list.take(at));
        lemma_first_pairing(list, id, at + 1);
    }
}

/// A pairing that is confirmed gives this machine its owner and switches remote control
/// on, and changes nothing else of its record; without an owner, a device or a record
/// nothing is switched on.
pub proof fn lemma_confirmation_switches_remote_control_on(value: JsonView, machine: Option<RemoteMachineRecord>)
    ensures
        confirmed_owner(value, machine) is Ok <==> id_at(value, "owner_id"@) is Some && id_at(value, "device_id"@)
            is Some && machine is Some,
        confirmed_owner(value, machine) matches Ok((record, device)) ==> {
            &&& record.enabled
            &&& record.owner_id == id_at(value, "owner_id"@)
            &&& Some(device) == id_at(value, "device_id"@)
            &&& record.machine_id == machine->0.machine_id
            &&& record.name == machine->0.name
            &&& record.signing_public_key == machine->0.signing_public_key
            &&& record.agreement_public_key == machine->0.agreement_public_key
            &&& record.projection_epoch == machine->0.projection_epoch
            &&& record.projection_sequence == machine->0.projection_sequence
        },
{
}

/// A device is paired only with both of its keys, each kept where it belongs.
pub proof fn lemma_paired_devices_have_their_keys(value: JsonView, device_id: u128, now: i64)
    ensures
        match confirmed_device(value, device_id, now) {
            Ok(device) => {
                &&& device.device_id == device_id
                &&& value.text_at("device_signing_public_key"@) == Some(device.signing_public_key)
                &&& value.text_at("device_agreement_public_key"@) == Some(device.agreement_public_key)
                &&& device.signing_public_key.len() > 0
                &&& device.agreement_public_key.len() > 0
                &&& device.state == "active"@
                &&& device.last_seen_at == Some(now)
                &&& value.text_at("device_name"@) is Some ==> device.name == value.text_at("device_name"@)->0
                &&& value.text_at("device_name"@) is None ==> device.name == "iPhone"@
            },
            Err(error) => error.code == "remote_pairing_failed"@,
        },
{
}

/// A pairing is read as the relay tells it, and only with a date at which it ends.
pub proof fn lemma_pairings_are_read_as_told(origin: Seq<char>, value: JsonView, include_secret: bool)
    ensures
        pairing_in(origin, value, include_secret) matches Ok(pairing) ==> {
            &&& Some(pairing.pairing_id) == id_at(value, "pairing_id"@)
            &&& Some(pairing.machine_id) == id_at(value, "machine_id"@)
            &&& Some(pairing.expires_at) == signed_at(value, "expires_at"@)
            &&& is_date(pairing.expires_at)
            &&& value.text_at("state"@) is Some ==> pairing.state == value.text_at("state"@)->0
            &&& value.text_at("state"@) is None ==> pairing.state == "pending"@
            &&& pairing.pending_device_name == value.text_at("pending_device_name"@)
            &&& pairing.pending_device_id == id_at(value, "pending_device_id"@)
            &&& include_secret ==> value.text_at("secret"@) is Some && pairing.qr_payload == Some(
                "ditch://pair?v=1&relay="@ + origin + "&pairing_id="@ + hyphenated(pairing.pairing_id)
                    + "&machine_id="@ + hyphenated(pairing.machine_id) + "&secret="@ + value.text_at("secret"@)->0
                    + "&expires_at="@ + signed_decimal(pairing.expires_at as int),
            )
        },
{
}

/// A signed request names the machine, the time, the nonce and the signature, each
/// under its own header.
pub proof fn lemma_signed_requests_name_their_signer(
    machine_id: u128,
    timestamp: i64,
    nonce: Seq<char>,
    signature: Seq<char>,
    bearer: Option<Seq<char>>,
)
    ensures
        ({
            let headers = signed_headers(machine_id, timestamp, nonce, signature, bearer);
            &&& headers.contains(("X-Ditch-Principal-Type"@, "machine"@))
            &&& headers.contains(("X-Ditch-Principal-Id"@, hyphenated(machine_id)))
            &&& headers.contains(("X-Ditch-Timestamp"@, signed_decimal(timestamp as int)))
            &&& headers.contains(("X-Ditch-Nonce"@, nonce))
            &&& headers.contains(("X-Ditch-Signature"@, signature))
            &&& headers.contains(("X-Ditch-Protocol"@, "1"@))
            &&& bearer is Some ==> headers.len() == 7 && headers.last() == ("X-Ditch-Official-Build"@, bearer->0)
            &&& bearer is None ==> headers.len() == 6
        }),
{
    let headers = signed_headers(machine_id, timestamp, nonce, signature, bearer);
    assert(headers[0] == ("X-Ditch-Protocol"@, "1"@));
    assert(headers[1] == ("X-Ditch-Principal-Type"@, "machine"@));
    assert(headers[2] == ("X-Ditch-Principal-Id"@, hyphenated(machine_id)));
    assert(headers[3] == ("X-Ditch-Timestamp"@, signed_decimal(timestamp as int)));
    assert(headers[4] == ("X-Ditch-Nonce"@, nonce));
    assert(headers[5] == ("X-Ditch-Signature"@, signature));
}

/// What is signed to register a machine names the machine, its name and both of its
/// keys, in this order.
pub proof fn lemma_registration_names_both_keys(
    machine_id: u128,
    name: Seq<char>,
    signing: Seq<char>,
    agreement: Seq<char>,
)
    ensures
        registration_text(machine_id, name, signing, agreement) == "DITCH-MACHINE-REGISTER-1\n"@ + hyphenated(
            machine_id,
        ) + "\n"@ + name + "\n"@ + signing + "\n"@ + agreement,
{
}

/// A machine is connected to the relay only where remote control is on and it has an
/// owner.
pub proof fn lemma_enrolment_needs_an_owner(machine: Option<RemoteMachineRecord>)
    ensures
        is_enrolled(machine) <==> machine is Some && machine->0.enabled && machine->0.owner_id is Some,
{
}

/// A device is shown under its own name and state, and never as connected.
pub proof fn lemma_devices_are_shown_as_kept(summary: RemoteDeviceSummary, device: RemoteDeviceRecord)
    requires
        summarizes(summary, device),
    ensures
        summary.device_id == device.device_id,
        summary.name@ == device.name@,
        summary.state@ == device.state@,
        summary.last_seen_at == device.last_seen_at,
        !summary.currently_connected,
{
}

/// A pairing is found exactly if it is kept, and at the first place at which it
/// is.
pub proof fn lemma_kept_pairings_are_found(list: Seq<(u128, RemotePairing)>, id: u128)
    ensures
        match pairing_index(list, id) {
            Some(i) => 0 <= i < list.len() && list[i].0 == id && forall|k: int|
                0 <= k < i ==> (#[trigger] list[k]).0 != id,
            None => forall|k: int| 0 <= k < list.len() ==> (#[trigger] list[k]).0 != id,
        },
    decreases list.len(),
{
    if list.len() > 0 {
        let before = list.drop_last();
        lemma_kept_pairings_are_found(before, id);
        assert forall|k: int| 0 <= k < before.len() implies #[trigger] before[k] == list[k] by {}
        match pairing_index(list, id) {
            Some(i) => {
                assert forall|k: int| 0 <= k < i implies (#[trigger] list[k]).0 != id by {
                    assert(before[k].0 != id);
                }
            },
            None => {
                assert forall|k: int| 0 <= k < list.len() implies (#[trigger] list[k]).0 != id by {
                    if k < before.len() {
                        assert(before[k].0 != id);
                    }
                }
            },
        }
    }
}

} // verus!
