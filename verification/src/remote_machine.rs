//! This machine as the relay knows it: the relay's origin, the machine's name
//! and its devices.

use crate::clock::{is_date, valid_millis};
use crate::ids::{hyphenated, id_text, parsed_optional_id, read_optional_id};
use crate::json::{Json, JsonView, NumberView};
use crate::text::{
    byte_count, byte_len, control, first_chars, from_chars, holds_text, is_control, is_white,
    same_text, str_of, text_of, texts_of, to_chars, trim, trimmed, trimmed_end, trimmed_start,
};
use vstd::prelude::*;
use vstd::string::*;

verus! {

/// The parts of an absolute URL.
#[derive(Debug)]
pub struct UrlParts {
    pub scheme: String,
    pub host: Option<String>,
    pub username: String,
    pub has_password: bool,
    pub has_query: bool,
    pub has_fragment: bool,
    pub path: String,
}

/// The mathematical value of the parts of a URL.
pub struct UrlView {
    pub scheme: Seq<char>,
    pub host: Option<Seq<char>>,
    pub username: Seq<char>,
    pub has_password: bool,
    pub has_query: bool,
    pub has_fragment: bool,
    pub path: Seq<char>,
}

impl View for UrlParts {
    type V = UrlView;

    open spec fn view(&self) -> UrlView {
        UrlView {
            scheme: self.scheme@,
            host: text_of(self.host),
            username: self.username@,
            has_password: self.has_password,
            has_query: self.has_query,
            has_fragment: self.has_fragment,
            path: self.path@,
        }
    }
}

/// What `url::Url::parse` makes of a text: the parts of the URL, or nothing where
/// the text is no absolute URL.
pub uninterp spec fn parsed_url(text: Seq<char>) -> Option<UrlView>;

/// `url::Url::parse`, and the parts of the URL that it gives.
#[verifier::external_body]
fn read_url(text: &str) -> (r: Option<UrlParts>)
    ensures
        match r {
            Some(parts) => parsed_url(text@) == Some(parts@),
            None => parsed_url(text@) is None,
        },
{
    url::Url::parse(text).ok().map(|url| UrlParts {
        scheme: url.scheme().to_owned(),
        host: url.host_str().map(|host| host.to_owned()),
        username: url.username().to_owned(),
        has_password: url.password().is_some(),
        has_query: url.query().is_some(),
        has_fragment: url.fragment().is_some(),
        path: url.path().to_owned(),
    })
}

/// What `url::Url::origin` gives for the URL that a text is, as ASCII text.
pub uninterp spec fn url_origin(text: Seq<char>) -> Seq<char>;

/// `url::Url::origin` and its ASCII text, for a URL over HTTP or HTTPS with a
/// host. No other URL is asked: the origin of one over `blob:` is that of the URL
/// in it.
#[verifier::external_body]
fn read_origin(text: &str) -> (r: String)
    requires
        parsed_url(text@) matches Some(url) && (url.scheme == "https"@ || url.scheme == "http"@)
            && url.host is Some,
    ensures
        r@ == url_origin(text@),
{
    url::Url::parse(text).map(|url| url.origin().ascii_serialization()).unwrap_or_default()
}

/// Whether plain HTTP to a host stays on this machine.
pub open spec fn is_local_host(host: Option<Seq<char>>) -> bool {
    host == Some("localhost"@) || host == Some("127.0.0.1"@) || host == Some("::1"@)
}

/// Why a URL is not taken for an origin, where it is not: it has to be one over
/// HTTPS, or over HTTP to this machine, and nothing but an origin.
pub open spec fn origin_fault(url: Option<UrlView>) -> Option<Seq<char>> {
    match url {
        None => Some("expected an absolute URL"@),
        Some(url) => if url.scheme != "https"@ && !(url.scheme == "http"@ && is_local_host(url.host)) {
            Some("expected HTTPS (plain HTTP is allowed only for localhost)"@)
        } else if url.host is None || url.username.len() != 0 || url.has_password || url.has_query
            || url.has_fragment || url.path != "/"@ {
            Some("expected an origin without credentials, path, query, or fragment"@)
        } else {
            None
        },
    }
}

/// The origin that an address gives.
pub open spec fn origin_of(address: Seq<char>) -> Result<Seq<char>, Seq<char>> {
    match origin_fault(parsed_url(address)) {
        Some(message) => Err(message),
        None => Ok(url_origin(address)),
    }
}

/// The address that the relay's origin is read from.
pub open spec fn relay_candidate(override_value: Option<Seq<char>>, compiled: Seq<char>) -> Seq<char> {
    match override_value {
        Some(value) => if trimmed(value).len() > 0 {
            trimmed(value)
        } else {
            compiled
        },
        None => compiled,
    }
}

/// Whether the parts of a URL are those of an origin.
pub fn check_origin(url: Option<UrlParts>) -> (r: Result<(), String>)
    ensures
        match origin_fault(
            match url {
                Some(parts) => Some(parts@),
                None => None,
            },
        ) {
            Some(message) => r matches Err(text) && text@ == message,
            None => r is Ok,
        },
{
    let url = match url {
        Some(url) => url,
        None => {
            return Err("expected an absolute URL".to_owned());
        },
    };
    let local_host = match &url.host {
        Some(host) => same_text(host.as_str(), "localhost") || same_text(host.as_str(), "127.0.0.1")
            || same_text(host.as_str(), "::1"),
        None => false,
    };
    let local_development = same_text(url.scheme.as_str(), "http") && local_host;
    if !same_text(url.scheme.as_str(), "https") && !local_development {
        return Err("expected HTTPS (plain HTTP is allowed only for localhost)".to_owned());
    }
    if url.host.is_none() || !url.username.as_str().is_empty() || url.has_password || url.has_query
        || url.has_fragment || !same_text(url.path.as_str(), "/") {
        return Err("expected an origin without credentials, path, query, or fragment".to_owned());
    }
    Ok(())
}

/// The origin that an address gives.
fn checked_origin(address: &str) -> (r: Result<String, String>)
    ensures
        match origin_of(address@) {
            Ok(origin) => r matches Ok(text) && text@ == origin,
            Err(message) => r matches Err(text) && text@ == message,
        },
{
    match check_origin(read_url(address)) {
        Ok(()) => Ok(read_origin(address)),
        Err(message) => Err(message),
    }
}

/// The relay's origin: that of the override where one is given, else the one
/// that was compiled in.
pub fn configured_relay_origin(override_value: Option<&str>, compiled_origin: &str) -> (r: Result<
    String,
    String,
>)
    ensures
        match origin_of(relay_candidate(str_of(override_value), compiled_origin@)) {
            Ok(origin) => r matches Ok(text) && text@ == origin,
            Err(message) => r matches Err(text) && text@ == message,
        },
{
    if let Some(value) = override_value {
        let value = trim(value);
        if !value.as_str().is_empty() {
            return checked_origin(value.as_str());
        }
    }
    checked_origin(compiled_origin)
}

/// The longest name of a machine, in characters.
pub const MAX_MACHINE_NAME_CHARS: usize = 120;

/// A text without its control characters.
pub open spec fn without_controls(text: Seq<char>) -> Seq<char>
    decreases text.len(),
{
    if text.len() == 0 {
        Seq::empty()
    } else if is_control(text.last()) {
        without_controls(text.drop_last())
    } else {
        without_controls(text.drop_last()).push(text.last())
    }
}

/// The name that a text stands for, where it stands for one.
pub open spec fn normalized_name(text: Seq<char>) -> Option<Seq<char>> {
    let kept = trimmed(first_chars(without_controls(trimmed(text)), MAX_MACHINE_NAME_CHARS as nat));
    if kept.len() == 0 {
        None
    } else {
        Some(kept)
    }
}

/// The name that an optional text stands for, where it stands for one.
pub open spec fn optional_name(text: Option<Seq<char>>) -> Option<Seq<char>> {
    match text {
        Some(text) => normalized_name(text),
        None => None,
    }
}

/// The name of a machine: the one that was chosen, else the system's, else a
/// name that says nothing.
pub open spec fn chosen_name(override_name: Option<Seq<char>>, system_name: Option<Seq<char>>) -> Seq<
    char,
> {
    match optional_name(override_name) {
        Some(name) => name,
        None => match optional_name(system_name) {
            Some(name) => name,
            None => "This Mac"@,
        },
    }
}

proof fn lemma_trimmed_part(text: Seq<char>)
    ensures
        trimmed(text).len() <= text.len(),
        forall|i: int| 0 <= i < trimmed(text).len() ==> text.contains(#[trigger] trimmed(text)[i]),
{
    lemma_trimmed_start_part(text);
    let rest = trimmed_start(text);
    lemma_trimmed_end_part(rest);
    assert forall|i: int| 0 <= i < trimmed(text).len() implies text.contains(#[trigger] trimmed(text)[i]) by {
        assert(rest.contains(trimmed(text)[i]));
        let k = choose|k: int| 0 <= k < rest.len() && rest[k] == trimmed(text)[i];
        assert(text.contains(rest[k]));
    }
}

proof fn lemma_trimmed_start_part(text: Seq<char>)
    ensures
        trimmed_start(text).len() <= text.len(),
        forall|i: int|
            0 <= i < trimmed_start(text).len() ==> text.contains(
                #[trigger] trimmed_start(text)[i],
            ),
    decreases text.len(),
{
    let rest = trimmed_start(text);
    if text.len() > 0 && is_white(text[0]) {
        lemma_trimmed_start_part(text.drop_first());
        assert forall|i: int| 0 <= i < rest.len() implies text.contains(#[trigger] rest[i]) by {
            let k = choose|k: int|
                0 <= k < text.drop_first().len() && text.drop_first()[k] == rest[i];
            assert(text[k + 1] == rest[i]);
        }
    }
}

proof fn lemma_trimmed_end_part(text: Seq<char>)
    ensures
        trimmed_end(text).len() <= text.len(),
        forall|i: int|
            0 <= i < trimmed_end(text).len() ==> text.contains(
                #[trigger] trimmed_end(text)[i],
            ),
    decreases text.len(),
{
    let rest = trimmed_end(text);
    if text.len() > 0 && is_white(text.last()) {
        lemma_trimmed_end_part(text.drop_last());
        assert forall|i: int| 0 <= i < rest.len() implies text.contains(#[trigger] rest[i]) by {
            let k = choose|k: int| 0 <= k < text.drop_last().len() && text.drop_last()[k] == rest[i];
            assert(text[k] == rest[i]);
        }
    }
}

proof fn lemma_without_controls(text: Seq<char>)
    ensures
        forall|i: int|
            0 <= i < without_controls(text).len() ==> !is_control(#[trigger] without_controls(text)[i]),
    decreases text.len(),
{
    if text.len() > 0 {
        lemma_without_controls(text.drop_last());
        let before = without_controls(text.drop_last());
        assert forall|i: int| 0 <= i < without_controls(text).len() implies !is_control(
            #[trigger] without_controls(text)[i],
        ) by {
            if i < before.len() {
                assert(without_controls(text)[i] == before[i]);
            }
        }
    }
}

proof fn lemma_blank_has_no_name(text: Seq<char>)
    requires
        trimmed(text).len() == 0,
    ensures
        normalized_name(text) is None,
{
    let none = without_controls(trimmed(text));
    assert(none.len() == 0);
    lemma_trimmed_part(first_chars(none, MAX_MACHINE_NAME_CHARS as nat));
}

/// A machine always has a name: not an empty one, none longer than the relay
/// takes, and none with control characters.
pub proof fn lemma_machine_name_is_safe(override_name: Option<Seq<char>>, system_name: Option<Seq<char>>)
    ensures
        0 < chosen_name(override_name, system_name).len() <= MAX_MACHINE_NAME_CHARS,
        forall|i: int|
            0 <= i < chosen_name(override_name, system_name).len() ==> !is_control(
                #[trigger] chosen_name(override_name, system_name)[i],
            ),
{
    reveal_strlit("This Mac");
    match override_name {
        Some(text) => {
            lemma_normalized_name(text);
        },
        None => {},
    }
    match system_name {
        Some(text) => {
            lemma_normalized_name(text);
        },
        None => {},
    }
}

proof fn lemma_normalized_name(text: Seq<char>)
    ensures
        normalized_name(text) matches Some(name) ==> 0 < name.len() <= MAX_MACHINE_NAME_CHARS
            && forall|i: int| 0 <= i < name.len() ==> !is_control(#[trigger] name[i]),
{
    let kept = without_controls(trimmed(text));
    let cut = first_chars(kept, MAX_MACHINE_NAME_CHARS as nat);
    lemma_without_controls(trimmed(text));
    lemma_trimmed_part(cut);
    if let Some(name) = normalized_name(text) {
        assert forall|i: int| 0 <= i < name.len() implies !is_control(#[trigger] name[i]) by {
            assert(cut.contains(name[i]));
            let k = choose|k: int| 0 <= k < cut.len() && cut[k] == name[i];
            assert(cut[k] == kept[k]);
        }
    }
}

/// The name that a text stands for, where it stands for one.
pub fn normalize_machine_name(value: &str) -> (r: Option<String>)
    ensures
        text_of(r) == normalized_name(value@),
{
    let value_trimmed = trim(value);
    if value_trimmed.as_str().is_empty() {
        proof {
            lemma_blank_has_no_name(value@);
        }
        return None;
    }
    let chars = to_chars(value_trimmed.as_str());
    let mut kept: Vec<char> = Vec::new();
    let mut i: usize = 0;
    assert(chars@.take(0) =~= Seq::empty());
    while i < chars.len() && kept.len() < MAX_MACHINE_NAME_CHARS
        invariant
            0 <= i <= chars.len(),
            kept@.len() <= MAX_MACHINE_NAME_CHARS,
            kept@ == without_controls(chars@.take(i as int)),
        decreases chars.len() - i,
    {
        assert(chars@.take(i + 1).drop_last() =~= chars@.take(i as int));
        if !control(chars[i]) {
            kept.push(chars[i]);
        }
        i += 1;
    }
    proof {
        lemma_first_kept(chars@, i as int);
        assert(chars@.take(chars@.len() as int) =~= chars@);
        let all = without_controls(chars@);
        assert(first_chars(all, MAX_MACHINE_NAME_CHARS as nat) =~= kept@);
    }
    let kept = from_chars(&kept);
    let name = trim(kept.as_str());
    if name.as_str().is_empty() {
        None
    } else {
        Some(name)
    }
}

proof fn lemma_first_kept(text: Seq<char>, at: int)
    requires
        0 <= at <= text.len(),
    ensures
        without_controls(text).len() >= without_controls(text.take(at)).len(),
        without_controls(text).take(without_controls(text.take(at)).len() as int) == without_controls(
            text.take(at),
        ),
    decreases text.len(),
{
    let part = without_controls(text.take(at));
    if at == text.len() {
        assert(text.take(at) =~= text);
        assert(part.take(part.len() as int) =~= part);
    } else {
        lemma_first_kept(text.drop_last(), at);
        assert(text.drop_last().take(at) =~= text.take(at));
        assert(without_controls(text).take(part.len() as int) =~= part);
    }
}

/// The name of a machine.
pub fn preferred_machine_name(override_name: Option<&str>, system_name: Option<&str>) -> (r: String)
    ensures
        r@ == chosen_name(str_of(override_name), str_of(system_name)),
{
    if let Some(name) = override_name {
        if let Some(name) = normalize_machine_name(name) {
            return name;
        }
    }
    if let Some(name) = system_name {
        if let Some(name) = normalize_machine_name(name) {
            return name;
        }
    }
    "This Mac".to_owned()
}

/// The path of a machine's devices.
pub open spec fn devices_path(machine_id: u128) -> Seq<char> {
    "/v1/machines/"@ + hyphenated(machine_id) + "/devices"@
}

/// The path of one of a machine's devices.
pub open spec fn device_path(machine_id: u128, device_id: u128) -> Seq<char> {
    devices_path(machine_id) + "/"@ + hyphenated(device_id)
}

/// The path of a pairing.
pub open spec fn pairing_path(pairing_id: u128) -> Seq<char> {
    "/v1/pairings/"@ + hyphenated(pairing_id)
}

/// The path of a machine's devices.
pub fn machine_devices_path(machine_id: u128) -> (r: String)
    ensures
        r@ == devices_path(machine_id),
{
    let mut path = "/v1/machines/".to_owned();
    path.append(id_text(machine_id).as_str());
    path.append("/devices");
    path
}

/// The path of one of a machine's devices.
pub fn machine_device_path(machine_id: u128, device_id: u128) -> (r: String)
    ensures
        r@ == device_path(machine_id, device_id),
{
    let mut path = machine_devices_path(machine_id);
    path.append("/");
    path.append(id_text(device_id).as_str());
    path
}

/// The path of a machine.
pub fn machine_path(machine_id: u128) -> (r: String)
    ensures
        r@ == "/v1/machines/"@ + hyphenated(machine_id),
{
    let mut path = "/v1/machines/".to_owned();
    path.append(id_text(machine_id).as_str());
    path
}

/// The path of a pairing.
pub fn path_of_pairing(pairing_id: u128) -> (r: String)
    ensures
        r@ == pairing_path(pairing_id),
{
    let mut path = "/v1/pairings/".to_owned();
    path.append(id_text(pairing_id).as_str());
    path
}

/// The path under which a pairing is confirmed.
pub fn path_of_confirmation(pairing_id: u128) -> (r: String)
    ensures
        r@ == pairing_path(pairing_id) + "/confirm"@,
{
    let mut path = path_of_pairing(pairing_id);
    path.append("/confirm");
    path
}

/// A device that may control this machine.
#[derive(Debug)]
pub struct RemoteDeviceRecord {
    pub device_id: u128,
    pub name: String,
    pub signing_public_key: String,
    pub agreement_public_key: String,
    pub key_version: u32,
    pub state: String,
    pub last_seen_at: Option<i64>,
}

/// The mathematical value of a device.
pub struct DeviceView {
    pub device_id: u128,
    pub name: Seq<char>,
    pub signing_public_key: Seq<char>,
    pub agreement_public_key: Seq<char>,
    pub key_version: u32,
    pub state: Seq<char>,
    pub last_seen_at: Option<i64>,
}

impl View for RemoteDeviceRecord {
    type V = DeviceView;

    open spec fn view(&self) -> DeviceView {
        DeviceView {
            device_id: self.device_id,
            name: self.name@,
            signing_public_key: self.signing_public_key@,
            agreement_public_key: self.agreement_public_key@,
            key_version: self.key_version,
            state: self.state@,
            last_seen_at: self.last_seen_at,
        }
    }
}

/// The mathematical values of some devices.
pub open spec fn devices_view(list: Seq<RemoteDeviceRecord>) -> Seq<DeviceView> {
    list.map_values(|device: RemoteDeviceRecord| device@)
}

/// The public key in a field of a device, where it is among those that are
/// known to be points of the curve.
pub open spec fn key_in(device: JsonView, field: Seq<char>, sound: Seq<Seq<char>>) -> Result<
    Seq<char>,
    Seq<char>,
> {
    match device.text_at(field) {
        None => Err("relay device omitted "@ + field),
        Some(key) => if sound.contains(key) {
            Ok(key)
        } else {
            Err("relay returned invalid "@ + field)
        },
    }
}

/// The public key in a field of a device. `sound` lists the encoded keys that
/// have been found to be points of the curve.
pub fn validated_public_key(device: &Json, field: &str, sound: &Vec<String>) -> (r: Result<
    String,
    String,
>)
    ensures
        match key_in(device@, field@, texts_of(sound@)) {
            Ok(key) => r matches Ok(text) && text@ == key,
            Err(message) => r matches Err(text) && text@ == message,
        },
{
    match device.text_at(field) {
        None => {
            let mut message = "relay device omitted ".to_owned();
            message.append(field);
            Err(message)
        },
        Some(key) => if holds_text(sound, key) {
            Ok(key.to_owned())
        } else {
            let mut message = "relay returned invalid ".to_owned();
            message.append(field);
            Err(message)
        },
    }
}

/// When a device was last seen: never, or at a date.
pub open spec fn last_seen(device: JsonView) -> Option<Option<i64>> {
    match device.member("last_seen_at"@) {
        None => Some(None),
        Some(JsonView::Null) => Some(None),
        Some(value) => match value.signed() {
            Some(millis) => if is_date(millis) {
                Some(Some(millis))
            } else {
                None
            },
            None => None,
        },
    }
}

/// The version of a device's keys: a positive number of 32 bits.
pub open spec fn key_version_in(device: JsonView) -> Option<u32> {
    match device.member("key_version"@) {
        Some(value) => match value.unsigned() {
            Some(n) => if 0 < n <= u32::MAX {
                Some(n as u32)
            } else {
                None
            },
            None => None,
        },
        None => None,
    }
}

/// Whether a text may name a platform.
pub open spec fn is_platform(text: Option<Seq<char>>) -> bool {
    text matches Some(text) && text.len() > 0 && byte_count(text) <= 32
}

/// The integer in a field.
pub open spec fn signed_at(value: JsonView, key: Seq<char>) -> Option<i64> {
    match value.member(key) {
        Some(value) => value.signed(),
        None => None,
    }
}

/// The device that an entry of the relay's roster stands for. Only devices of a
/// supported platform that are active are taken.
pub open spec fn device_in(device: JsonView, sound: Seq<Seq<char>>) -> Result<DeviceView, Seq<char>> {
    let id = parsed_optional_id(device.text_at("id"@));
    let name = device.text_at("name"@);
    let signing = key_in(device, "signing_public_key"@, sound);
    let agreement = key_in(device, "agreement_public_key"@, sound);
    if !is_platform(device.text_at("platform"@)) {
        Err("relay device omitted platform"@)
    } else if device.text_at("platform"@) != Some("ios"@) {
        Err("relay returned an unsupported device platform"@)
    } else if device.text_at("state"@) is None {
        Err("relay device omitted state"@)
    } else if device.text_at("state"@) != Some("active"@) {
        Err("relay returned a non-active device"@)
    } else if signed_at(device, "authorized_at"@) is None {
        Err("relay device omitted authorized_at"@)
    } else if last_seen(device) is None {
        Err("relay returned invalid device last_seen_at"@)
    } else if id is None {
        Err("relay device omitted id"@)
    } else if name is None {
        Err("relay device omitted name"@)
    } else if signing is Err {
        Err(signing->Err_0)
    } else if agreement is Err {
        Err(agreement->Err_0)
    } else if key_version_in(device) is None {
        Err("relay device omitted key_version"@)
    } else {
        Ok(
            DeviceView {
                device_id: id->0,
                name: name->0,
                signing_public_key: signing->Ok_0,
                agreement_public_key: agreement->Ok_0,
                key_version: key_version_in(device)->0,
                state: "active"@,
                last_seen_at: last_seen(device)->0,
            },
        )
    }
}

/// The integer in a field.
fn read_signed(value: &Json, key: &str) -> (r: Option<i64>)
    ensures
        r == signed_at(value@, key@),
{
    match value.get(key) {
        Some(value) => value.as_signed(),
        None => None,
    }
}

/// When a device was last seen.
fn read_last_seen(device: &Json) -> (r: Option<Option<i64>>)
    ensures
        r == last_seen(device@),
{
    match device.get("last_seen_at") {
        None => Some(None),
        Some(Json::Null) => Some(None),
        Some(value) => match value.as_signed() {
            Some(millis) => if valid_millis(millis) {
                Some(Some(millis))
            } else {
                None
            },
            None => None,
        },
    }
}

/// The version of a device's keys.
fn read_key_version(device: &Json) -> (r: Option<u32>)
    ensures
        r == key_version_in(device@),
{
    match device.get("key_version") {
        Some(value) => match value.as_unsigned() {
            Some(n) => if 0 < n && n <= u32::MAX as u64 {
                Some(n as u32)
            } else {
                None
            },
            None => None,
        },
        None => None,
    }
}

/// The device that an entry of the relay's roster stands for.
pub fn read_device(device: &Json, sound: &Vec<String>) -> (r: Result<RemoteDeviceRecord, String>)
    ensures
        match device_in(device@, texts_of(sound@)) {
            Ok(view) => r matches Ok(record) && record@ == view,
            Err(message) => r matches Err(text) && text@ == message,
        },
{
    let platform = match device.text_at("platform") {
        Some(platform) => platform,
        None => {
            return Err("relay device omitted platform".to_owned());
        },
    };
    if platform.is_empty() || byte_len(platform) > 32 {
        return Err("relay device omitted platform".to_owned());
    }
    if !same_text(platform, "ios") {
        return Err("relay returned an unsupported device platform".to_owned());
    }
    let state = match device.text_at("state") {
        Some(state) => state,
        None => {
            return Err("relay device omitted state".to_owned());
        },
    };
    if !same_text(state, "active") {
        return Err("relay returned a non-active device".to_owned());
    }
    if read_signed(device, "authorized_at").is_none() {
        return Err("relay device omitted authorized_at".to_owned());
    }
    let last_seen_at = match read_last_seen(device) {
        Some(at) => at,
        None => {
            return Err("relay returned invalid device last_seen_at".to_owned());
        },
    };
    let device_id = match read_optional_id(device.text_at("id")) {
        Some(id) => id,
        None => {
            return Err("relay device omitted id".to_owned());
        },
    };
    let name = match device.text_at("name") {
        Some(name) => name.to_owned(),
        None => {
            return Err("relay device omitted name".to_owned());
        },
    };
    let signing_public_key = match validated_public_key(device, "signing_public_key", sound) {
        Ok(key) => key,
        Err(message) => {
            return Err(message);
        },
    };
    let agreement_public_key = match validated_public_key(device, "agreement_public_key", sound) {
        Ok(key) => key,
        Err(message) => {
            return Err(message);
        },
    };
    let key_version = match read_key_version(device) {
        Some(version) => version,
        None => {
            return Err("relay device omitted key_version".to_owned());
        },
    };
    Ok(
        RemoteDeviceRecord {
            device_id,
            name,
            signing_public_key,
            agreement_public_key,
            key_version,
            state: state.to_owned(),
            last_seen_at,
        },
    )
}

/// The devices that the entries of a roster stand for, or the first error.
pub open spec fn devices_in(items: Seq<JsonView>, sound: Seq<Seq<char>>) -> Result<
    Seq<DeviceView>,
    Seq<char>,
>
    decreases items.len(),
{
    if items.len() == 0 {
        Ok(Seq::empty())
    } else {
        match devices_in(items.drop_last(), sound) {
            Err(message) => Err(message),
            Ok(before) => match device_in(items.last(), sound) {
                Ok(device) => Ok(before.push(device)),
                Err(message) => Err(message),
            },
        }
    }
}

/// The devices of a roster of the relay.
pub open spec fn roster(value: JsonView, sound: Seq<Seq<char>>) -> Result<Seq<DeviceView>, Seq<char>> {
    if value.member("protocol_version"@) != Some(JsonView::Number(NumberView::Unsigned(1))) {
        Err("relay returned an unsupported device roster"@)
    } else {
        match value.member("devices"@) {
            Some(JsonView::Array(items)) => devices_in(items, sound),
            _ => Err("relay omitted devices"@),
        }
    }
}

proof fn lemma_devices_fail(items: Seq<JsonView>, sound: Seq<Seq<char>>, at: int)
    requires
        0 <= at <= items.len(),
        devices_in(items.take(at), sound) is Err,
    ensures
        devices_in(items, sound) == devices_in(items.take(at), sound),
    decreases items.len() - at,
{
    if at == items.len() {
        assert(items.take(at) =~= items);
    } else {
        assert(items.take(at + 1).drop_last() =~= items.take(at));
        lemma_devices_fail(items, sound, at + 1);
    }
}

/// Whether a field holds the number one.
pub(crate) fn is_version_one(value: &Json) -> (r: bool)
    ensures
        r == (value@.member("protocol_version"@) == Some(JsonView::Number(NumberView::Unsigned(1)))),
{
    match value.get("protocol_version") {
        Some(version) => match version.as_unsigned() {
            Some(n) => n == 1,
            None => false,
        },
        None => false,
    }
}

/// The devices of a roster of the relay. `sound` lists the encoded keys that
/// have been found to be points of the curve.
pub fn active_devices_from_response(value: &Json, sound: &Vec<String>) -> (r: Result<
    Vec<RemoteDeviceRecord>,
    String,
>)
    ensures
        match roster(value@, texts_of(sound@)) {
            Ok(list) => r matches Ok(devices) && devices_view(devices@) == list,
            Err(message) => r matches Err(text) && text@ == message,
        },
{
    if !is_version_one(value) {
        return Err("relay returned an unsupported device roster".to_owned());
    }
    let items = match value.get("devices") {
        Some(value) => match value.as_items() {
            Some(items) => items,
            None => {
                return Err("relay omitted devices".to_owned());
            },
        },
        None => {
            return Err("relay omitted devices".to_owned());
        },
    };
    let ghost views = items@.map_values(|item: Json| item@);
    let mut devices: Vec<RemoteDeviceRecord> = Vec::new();
    let mut i: usize = 0;
    proof {
        assert(views.take(0) =~= Seq::empty());
        assert(devices_view(devices@) =~= Seq::empty());
    }
    while i < items.len()
        invariant
            0 <= i <= items.len(),
            views == items@.map_values(|item: Json| item@),
            roster(value@, texts_of(sound@)) == devices_in(views, texts_of(sound@)),
            devices_in(views.take(i as int), texts_of(sound@)) == Ok::<Seq<DeviceView>, Seq<char>>(
                devices_view(devices@),
            ),
        decreases items.len() - i,
    {
        let ghost before = devices_view(devices@);
        proof {
            assert(views.take(i + 1).drop_last() =~= views.take(i as int));
            assert(views.take(i + 1).last() == items@[i as int]@);
        }
        match read_device(&items[i], sound) {
            Ok(device) => {
                devices.push(device);
                assert(devices_view(devices@) =~= before.push(device@));
            },
            Err(message) => {
                proof {
                    lemma_devices_fail(views, texts_of(sound@), i + 1);
                }
                return Err(message);
            },
        }
        i += 1;
    }
    assert(views.take(items@.len() as int) =~= views);
    Ok(devices)
}

/// Every device of a roster is active, and of a supported platform with sound
/// keys: a revoked device never comes back through the roster.
pub proof fn lemma_roster_is_active(value: JsonView, sound: Seq<Seq<char>>)
    ensures
        roster(value, sound) matches Ok(list) ==> forall|i: int|
            0 <= i < list.len() ==> (#[trigger] list[i]).state == "active"@ && sound.contains(
                list[i].signing_public_key,
            ) && sound.contains(list[i].agreement_public_key) && list[i].key_version > 0,
{
    if roster(value, sound) is Ok {
        lemma_devices_are_active(value.member("devices"@)->0->Array_0, sound);
    }
}

proof fn lemma_devices_are_active(items: Seq<JsonView>, sound: Seq<Seq<char>>)
    ensures
        devices_in(items, sound) matches Ok(list) ==> forall|i: int|
            0 <= i < list.len() ==> (#[trigger] list[i]).state == "active"@ && sound.contains(
                list[i].signing_public_key,
            ) && sound.contains(list[i].agreement_public_key) && list[i].key_version > 0,
    decreases items.len(),
{
    if items.len() > 0 {
        lemma_devices_are_active(items.drop_last(), sound);
    }
}

/// The relay is reached over HTTPS, or over plain HTTP on this machine, and its address
/// is an origin and nothing more.
pub proof fn lemma_relay_is_reached_safely(address: Seq<char>)
    ensures
        origin_of(address) is Ok <==> parsed_url(address) is Some && {
            let url = parsed_url(address)->0;
            &&& url.scheme == "https"@ || (url.scheme == "http"@ && (url.host == Some("localhost"@) || url.host
                == Some("127.0.0.1"@) || url.host == Some("::1"@)))
            &&& url.host is Some
            &&& url.username.len() == 0
            &&& !url.has_password
            &&& !url.has_query
            &&& !url.has_fragment
            &&& url.path == "/"@
        },
        origin_of(address) is Ok ==> origin_of(address)->Ok_0 == url_origin(address),
{
}

/// An override of the relay's address counts wherever it is not blank.
pub proof fn lemma_overrides_come_first(override_value: Option<Seq<char>>, compiled: Seq<char>)
    ensures
        override_value is Some && trimmed(override_value->0).len() > 0 ==> relay_candidate(override_value, compiled)
            == trimmed(override_value->0),
        override_value is None || trimmed(override_value->0).len() == 0 ==> relay_candidate(
            override_value,
            compiled,
        ) == compiled,
{
}

/// The name that was chosen comes before that of the system, and either before one that
/// says nothing.
pub proof fn lemma_chosen_names_come_first(override_name: Option<Seq<char>>, system_name: Option<Seq<char>>)
    ensures
        override_name is Some && normalized_name(override_name->0) is Some ==> chosen_name(
            override_name,
            system_name,
        ) == normalized_name(override_name->0)->0,
        optional_name(override_name) is None && system_name is Some && normalized_name(system_name->0) is Some
            ==> chosen_name(override_name, system_name) == normalized_name(system_name->0)->0,
        optional_name(override_name) is None && optional_name(system_name) is None ==> chosen_name(
            override_name,
            system_name,
        ) == "This Mac"@,
{
}

/// A device of the roster is read as the relay tells it, with each key under its own
/// field.
pub proof fn lemma_devices_are_read_as_told(device: JsonView, sound: Seq<Seq<char>>)
    ensures
        device_in(device, sound) matches Ok(view) ==> {
            &&& parsed_optional_id(device.text_at("id"@)) == Some(view.device_id)
            &&& device.text_at("name"@) == Some(view.name)
            &&& device.text_at("signing_public_key"@) == Some(view.signing_public_key)
            &&& device.text_at("agreement_public_key"@) == Some(view.agreement_public_key)
            &&& device.text_at("platform"@) == Some("ios"@)
            &&& device.text_at("state"@) == Some("active"@)
            &&& view.state == "active"@
            &&& device.member("key_version"@) is Some && device.member("key_version"@)->0.unsigned() == Some(
                view.key_version as u64,
            )
        },
{
}

/// Each path of the relay names the machine, the device or the pairing that it is about.
pub proof fn lemma_paths_name_their_subject(machine_id: u128, device_id: u128, pairing_id: u128)
    ensures
        devices_path(machine_id) == "/v1/machines/"@ + hyphenated(machine_id) + "/devices"@,
        device_path(machine_id, device_id) == "/v1/machines/"@ + hyphenated(machine_id) + "/devices"@ + "/"@
            + hyphenated(device_id),
        pairing_path(pairing_id) == "/v1/pairings/"@ + hyphenated(pairing_id),
{
}

} // verus!
