//! The state behind the webhook server and the decisions its endpoints make:
//! which devices exist, who may drive them, and what each request is answered.
//!
//! Every request but the status and pairing-QR ones must carry an
//! `Authorization: Bearer <pairing_token>` header naming a live session.
use crate::environment::{is_uuid_v4_text, new_uuid_string};
use crate::firebase_auth::AuthError;
use crate::json::{json_get, json_str, json_u64, parse_protocol_messages, protocol_messages, JsonValue};
use crate::session_manager::{
    lemma_created_session_validates, sole_holder, session_added, token_known, with_webhook_url, Session,
    SessionManager,
};
use crate::text::{
    concat3, decimal, has_prefix, lemma_parse_decimal, parse_u32, parsed_u32, strip_prefix,
    u32_to_decimal,
};
use std::collections::HashMap;
use vstd::std_specs::iter::IteratorSpec;
use vstd::prelude::*;

verus! {

broadcast use vstd::std_specs::hash::group_hash_axioms;

/// The port the webhook server listens on.
pub const WEBHOOK_PORT: u16 = 8888;

/// A device the engine has reported.
#[derive(Debug, Clone)]
pub struct DeviceInfo {
    pub device_id: String,
    pub device_index: u32,
    pub device_name: String,
    pub connected: bool,
    pub last_command: Option<String>,
    pub command_status: Option<String>,
}

/// A device as plain values.
pub struct DeviceInfoView {
    pub device_id: Seq<char>,
    pub device_index: u32,
    pub device_name: Seq<char>,
    pub connected: bool,
    pub last_command: Option<Seq<char>>,
    pub command_status: Option<Seq<char>>,
}

pub open spec fn opt_text(o: Option<String>) -> Option<Seq<char>> {
    match o {
        Some(s) => Some(s@),
        None => None,
    }
}

impl View for DeviceInfo {
    type V = DeviceInfoView;

    open spec fn view(&self) -> DeviceInfoView {
        DeviceInfoView {
            device_id: self.device_id@,
            device_index: self.device_index,
            device_name: self.device_name@,
            connected: self.connected,
            last_command: opt_text(self.last_command),
            command_status: opt_text(self.command_status),
        }
    }
}

/// The devices of a device table, as plain values.
pub open spec fn devices_view(m: Map<u32, DeviceInfo>) -> Map<u32, DeviceInfoView> {
    m.map_values(|d: DeviceInfo| d@)
}

/// The id under which a device with engine index `index` is addressed: `device_<index>`.
pub open spec fn device_id_text(index: u32) -> Seq<char> {
    "device_"@ + decimal(index as nat)
}

/// A device just reported by the engine.
pub open spec fn added_device(index: u32, name: Seq<char>) -> DeviceInfoView {
    DeviceInfoView {
        device_id: device_id_text(index),
        device_index: index,
        device_name: name,
        connected: true,
        last_command: None,
        command_status: None,
    }
}

/// `d` marked as no longer connected.
pub open spec fn disconnected(d: DeviceInfoView) -> DeviceInfoView {
    DeviceInfoView { connected: false, ..d }
}

/// What one protocol message does to the devices: `DeviceAdded` with an index and
/// a name stores a connected device under the index (cut to 32 bits);
/// `DeviceRemoved` with an index marks the device stored there, if any, as
/// disconnected; anything else leaves them alone.
pub open spec fn apply_device_message(m: Map<u32, DeviceInfoView>, v: JsonValue) -> Map<
    u32,
    DeviceInfoView,
> {
    match json_get(v, "DeviceAdded"@) {
        Some(added) => match (
            json_u64(json_get(added, "DeviceIndex"@)),
            json_str(json_get(added, "DeviceName"@)),
        ) {
            (Some(i), Some(name)) => m.insert(i as u32, added_device(i as u32, name)),
            _ => m,
        },
        None => match json_get(v, "DeviceRemoved"@) {
            Some(removed) => match json_u64(json_get(removed, "DeviceIndex"@)) {
                Some(i) => if m.contains_key(i as u32) {
                    m.insert(i as u32, disconnected(m[i as u32]))
                } else {
                    m
                },
                None => m,
            },
            None => m,
        },
    }
}

/// `v` is a `DeviceAdded` message with engine index `i` and name `name`.
pub open spec fn is_device_added(v: JsonValue, i: u64, name: Seq<char>) -> bool {
    &&& json_get(v, "DeviceAdded"@) matches Some(added)
    &&& json_u64(json_get(added, "DeviceIndex"@)) == Some(i)
    &&& json_str(json_get(added, "DeviceName"@)) == Some(name)
}

/// After a `DeviceAdded` message with index `i` and name `name`, the device
/// stored under `i` (cut to 32 bits) is `device_<i>`, with index `i` and that
/// name, connected, with no last command and no command status, whatever was
/// stored under `i` before; every other device is as it was.
pub proof fn lemma_device_added_is_fresh(m: Map<u32, DeviceInfoView>, v: JsonValue, i: u64, name: Seq<char>)
    requires
        is_device_added(v, i, name),
    ensures
        apply_device_message(m, v).contains_key(i as u32),
        apply_device_message(m, v)[i as u32].device_id == "device_"@ + decimal((i as u32) as nat),
        apply_device_message(m, v)[i as u32].device_index == i as u32,
        apply_device_message(m, v)[i as u32].device_name == name,
        apply_device_message(m, v)[i as u32].connected,
        apply_device_message(m, v)[i as u32].last_command is None,
        apply_device_message(m, v)[i as u32].command_status is None,
        forall|k: u32|
            k != i as u32 ==> (#[trigger] apply_device_message(m, v).contains_key(k) == m.contains_key(k))
                && (m.contains_key(k) ==> apply_device_message(m, v)[k] == m[k]),
{
}

/// After a `DeviceRemoved` message with index `i`, a device stored under `i` is
/// the same device but no longer connected (its id, index, name, last command
/// and status kept), and no device appears under `i` where there was none;
/// every other device is as it was.
pub proof fn lemma_device_removed_disconnects(m: Map<u32, DeviceInfoView>, v: JsonValue, i: u64)
    requires
        json_get(v, "DeviceAdded"@) is None,
        json_get(v, "DeviceRemoved"@) matches Some(removed) && json_u64(json_get(removed, "DeviceIndex"@)) == Some(i),
    ensures
        apply_device_message(m, v).dom() == m.dom(),
        m.contains_key(i as u32) ==> {
            let d = apply_device_message(m, v)[i as u32];
            &&& !d.connected
            &&& d.device_id == m[i as u32].device_id
            &&& d.device_index == m[i as u32].device_index
            &&& d.device_name == m[i as u32].device_name
            &&& d.last_command == m[i as u32].last_command
            &&& d.command_status == m[i as u32].command_status
        },
        forall|k: u32| k != i as u32 && #[trigger] m.contains_key(k) ==> apply_device_message(m, v)[k] == m[k],
{
    if m.contains_key(i as u32) {
        assert(apply_device_message(m, v).dom() =~= m.dom());
    }
}

/// The messages applied in order.
pub open spec fn apply_device_messages(m: Map<u32, DeviceInfoView>, msgs: Seq<JsonValue>) -> Map<
    u32,
    DeviceInfoView,
>
    decreases msgs.len(),
{
    if msgs.len() == 0 {
        m
    } else {
        apply_device_message(apply_device_messages(m, msgs.drop_last()), msgs.last())
    }
}

/// The number of connected devices.
pub open spec fn connected_count(m: Map<u32, DeviceInfo>) -> nat {
    m.dom().filter(|k: u32| m[k].connected).len()
}

/// The shared state of the webhook server.
pub struct WebhookAppState {
    pub session_manager: SessionManager,
    pub devices: HashMap<u32, DeviceInfo>,
    pub pairing_token: String,
    pub mobile_ip: String,
}

impl WebhookAppState {
    /// No sessions (room for five), no devices, a fresh pairing token, and the
    /// loopback address as the device's address.
    pub fn new() -> (s: Self)
        ensures
            s.session_manager@ == Map::<Seq<char>, Session>::empty(),
            s.session_manager.capacity() == 5,
            s.devices@ == Map::<u32, DeviceInfo>::empty(),
            is_uuid_v4_text(s.pairing_token@),
            s.mobile_ip@ == "127.0.0.1"@,
    {
        WebhookAppState {
            session_manager: SessionManager::new(5),
            devices: HashMap::new(),
            pairing_token: new_uuid_string(),
            mobile_ip: "127.0.0.1".to_owned(),
        }
    }
}

/// Stores the device's current address, for the pairing QR code.
pub fn set_mobile_ip(state: &mut WebhookAppState, ip: String)
    ensures
        final(state).mobile_ip == ip,
        final(state).session_manager == old(state).session_manager,
        final(state).devices == old(state).devices,
        final(state).pairing_token == old(state).pairing_token,
{
    state.mobile_ip = ip;
}

/// Forgets all devices, as when the engine stops.
pub fn clear_device_state(state: &mut WebhookAppState)
    ensures
        final(state).devices@ == Map::<u32, DeviceInfo>::empty(),
        final(state).session_manager == old(state).session_manager,
        final(state).pairing_token == old(state).pairing_token,
        final(state).mobile_ip == old(state).mobile_ip,
{
    state.devices.clear();
}

/// `device_<index>`.
fn device_id_for(index: u32) -> (s: String)
    ensures
        s@ == device_id_text(index),
{
    let digits = u32_to_decimal(index);
    let mut s = "device_".to_owned();
    s.append(digits.as_str());
    s
}

/// Applies one protocol message to the devices.
fn apply_message(devices: &mut HashMap<u32, DeviceInfo>, v: &JsonValue)
    ensures
        devices_view(final(devices)@) == apply_device_message(devices_view(old(devices)@), *v),
        forall|i: u64, name: Seq<char>|
            #[trigger] is_device_added(*v, i, name) ==> final(devices)@.contains_key(i as u32) && {
                let d = final(devices)@[i as u32];
                &&& d.device_id@ == "device_"@ + decimal((i as u32) as nat)
                &&& d.device_index == i as u32
                &&& d.device_name@ == name
                &&& d.connected
                &&& d.last_command is None
                &&& d.command_status is None
            },
{
    let ghost before = devices_view(devices@);
    if let Some(added) = v.get("DeviceAdded") {
        let index = match added.get("DeviceIndex") {
            Some(x) => x.as_u64(),
            None => None,
        };
        let name = match added.get("DeviceName") {
            Some(x) => x.as_str(),
            None => None,
        };
        match (index, name) {
            (Some(i), Some(name)) => {
                let device_index = i as u32;
                let d = DeviceInfo {
                    device_id: device_id_for(device_index),
                    device_index,
                    device_name: name.clone(),
                    connected: true,
                    last_command: None,
                    command_status: None,
                };
                assert(d@ == added_device(device_index, name@));
                devices.insert(device_index, d);
                assert(devices_view(devices@) =~= before.insert(device_index, d@));
                assert forall|j: u64, nm: Seq<char>| #[trigger] is_device_added(*v, j, nm) implies j == i && nm == name@ by {}
            },
            _ => {},
        }
    } else if let Some(removed) = v.get("DeviceRemoved") {
        let index = match removed.get("DeviceIndex") {
            Some(x) => x.as_u64(),
            None => None,
        };
        if let Some(i) = index {
            let device_index = i as u32;
            if let Some(d) = devices.remove(&device_index) {
                let updated = DeviceInfo { connected: false, ..d };
                devices.insert(device_index, updated);
                assert(devices_view(devices@) =~= before.insert(
                    device_index,
                    disconnected(before[device_index]),
                ));
            }
        }
    }
}

/// Keeps the devices in step with one message of the engine, a JSON array of
/// protocol messages: each is applied in order; a text that is not a JSON array
/// changes nothing.
pub fn update_device_state_from_message(state: &mut WebhookAppState, msg: &str)
    ensures
        match protocol_messages(msg@) {
            Some(ms) => devices_view(final(state).devices@) == apply_device_messages(
                devices_view(old(state).devices@),
                ms,
            ),
            None => final(state).devices@ == old(state).devices@,
        },
        final(state).session_manager == old(state).session_manager,
        final(state).pairing_token == old(state).pairing_token,
        final(state).mobile_ip == old(state).mobile_ip,
{
    if let Some(messages) = parse_protocol_messages(msg) {
        apply_protocol_messages(state, &messages);
    }
}

/// Applies the engine's protocol messages, in order, to the devices.
pub fn apply_protocol_messages(state: &mut WebhookAppState, messages: &Vec<JsonValue>)
    ensures
        devices_view(final(state).devices@) == apply_device_messages(
            devices_view(old(state).devices@),
            messages@,
        ),
        final(state).session_manager == old(state).session_manager,
        final(state).pairing_token == old(state).pairing_token,
        final(state).mobile_ip == old(state).mobile_ip,
{
    let ghost start = devices_view(state.devices@);
    let n = messages.len();
    let mut i: usize = 0;
    assert(messages@.take(0) =~= Seq::<JsonValue>::empty());
    while i < n
        invariant
            n == messages@.len(),
            i <= n,
            devices_view(state.devices@) == apply_device_messages(start, messages@.take(i as int)),
            state.session_manager == old(state).session_manager,
            state.pairing_token == old(state).pairing_token,
            state.mobile_ip == old(state).mobile_ip,
        decreases n - i,
    {
        apply_message(&mut state.devices, &messages[i]);
        assert(messages@.take(i + 1).drop_last() =~= messages@.take(i as int));
        i = i + 1;
    }
    assert(messages@.take(n as int) =~= messages@);
}

/// How many devices are connected.
pub fn connected_device_count(devices: &HashMap<u32, DeviceInfo>) -> (n: usize)
    ensures
        n == connected_count(devices@),
{
    let total = devices.len();
    let mut count: usize = 0;
    let ghost mut seen: Set<u32> = Set::empty();
    for kv in it: devices.iter()
        invariant
            it.seq() == devices.iter().remaining(),
            it.seq().no_duplicates(),
            it.seq().len() == total,
            seen.finite(),
            count == seen.len(),
            count <= it.index(),
            forall|k: u32|
                #[trigger] seen.contains(k) <==> exists|j: int|
                    0 <= j < it.index() && *it.seq()[j].0 == k && (*it.seq()[j].1).connected,
    {
        let ghost j = it.index();
        assert(kv == it.seq()[j]);
        if kv.1.connected {
            proof {
                let v = devices.iter().remaining();
                assert(!seen.contains(*kv.0)) by {
                    if seen.contains(*kv.0) {
                        let j2 = choose|j2: int|
                            0 <= j2 < j && *v[j2].0 == *kv.0 && (*v[j2].1).connected;
                        assert(devices@[*v[j2].0] == *v[j2].1);
                        assert(devices@[*v[j].0] == *v[j].1);
                        assert(v[j2] == v[j]);
                    }
                }
                seen = seen.insert(*kv.0);
            }
            count = count + 1;
        }
    }
    proof {
        let v = devices.iter().remaining();
        let f = devices@.dom().filter(|k: u32| devices@[k].connected);
        assert forall|k: u32| #[trigger] seen.contains(k) <==> f.contains(k) by {
            if seen.contains(k) {
                let j = choose|j: int| 0 <= j < v.len() && *v[j].0 == k && (*v[j].1).connected;
                assert(devices@.contains_key(*v[j].0) && devices@[*v[j].0] == *v[j].1);
            }
            if f.contains(k) {
                assert(v.contains((&k, &devices@[k])));
                let j = choose|j: int| 0 <= j < v.len() && v[j] == (&k, &devices@[k]);
            }
        }
        assert(seen =~= f);
    }
    count
}

/// The answer an endpoint gives, as an HTTP status.
#[derive(Debug, Clone, Copy, PartialEq, Eq, Structural)]
pub enum HttpStatus {
    /// 200
    Success,
    /// 204
    NoContent,
    /// 401
    Unauthorized,
    /// 404
    NotFound,
}

/// What a device or scan request is answered, and the protocol message (if
/// any) to hand to the engine.
#[derive(Debug)]
pub struct CommandOutcome {
    pub status: HttpStatus,
    pub backdoor_message: Option<String>,
}

pub open spec fn opt_str(o: Option<&str>) -> Option<Seq<char>> {
    match o {
        Some(s) => Some(s@),
        None => None,
    }
}

/// The pairing token that an `Authorization` header value carries: what follows
/// `Bearer `.
pub open spec fn request_token(authorization: Option<Seq<char>>) -> Option<Seq<char>> {
    match authorization {
        Some(a) => if has_prefix(a, "Bearer "@) {
            Some(a.subrange("Bearer "@.len() as int, a.len() as int))
        } else {
            None
        },
        None => None,
    }
}

/// The request carries the pairing token of a live session.
pub open spec fn authorized(sessions: Map<Seq<char>, Session>, authorization: Option<Seq<char>>) -> bool {
    match request_token(authorization) {
        Some(t) => token_known(sessions, t),
        None => false,
    }
}

/// The index that `device_<n>` names, where `n` parses as a `u32` and a device is
/// stored under it.
pub open spec fn indexed_device(m: Map<u32, DeviceInfo>, device_id: Seq<char>) -> Option<u32> {
    if has_prefix(device_id, "device_"@) {
        match parsed_u32(device_id.subrange("device_"@.len() as int, device_id.len() as int)) {
            Some(i) => if m.contains_key(i) {
                Some(i)
            } else {
                None
            },
            None => None,
        }
    } else {
        None
    }
}

/// `i` is an index that `device_id` may resolve to: the index it names, or, where it
/// names none, the index recorded in a device whose id is `device_id`.
pub open spec fn resolves_to(m: Map<u32, DeviceInfo>, device_id: Seq<char>, i: u32) -> bool {
    match indexed_device(m, device_id) {
        Some(j) => i == j,
        None => exists|k: u32|
            #[trigger] m.contains_key(k) && m[k].device_id@ == device_id && m[k].device_index == i,
    }
}

/// `device_id` resolves to some device.
pub open spec fn resolvable(m: Map<u32, DeviceInfo>, device_id: Seq<char>) -> bool {
    indexed_device(m, device_id) is Some || exists|k: u32|
        #[trigger] m.contains_key(k) && m[k].device_id@ == device_id
}

/// What checking a request's `Authorization` header against `m` may give: the
/// id of a stored session whose pairing token the header carries, or 401
/// exactly when it carries no token that a stored session holds.
pub open spec fn request_validated(
    m: Map<Seq<char>, Session>,
    authorization: Option<Seq<char>>,
    r: Result<String, HttpStatus>,
) -> bool {
    &&& (r is Ok <==> authorized(m, authorization))
    &&& match r {
        Ok(id) => m.contains_key(id@) && request_token(authorization) == Some(m[id@].pairing_token@),
        Err(e) => e == HttpStatus::Unauthorized,
    }
}

/// The id of the session whose pairing token the request carries; 401 where
/// it carries none or one that no session has.
pub fn validate_request(state: &WebhookAppState, authorization: Option<&str>) -> (r: Result<String, HttpStatus>)
    ensures
        request_validated(state.session_manager@, opt_str(authorization), r),
{
    let auth = match authorization {
        Some(a) => a,
        None => return Err(HttpStatus::Unauthorized),
    };
    let token = match strip_prefix(auth, "Bearer ") {
        Some(t) => t,
        None => return Err(HttpStatus::Unauthorized),
    };
    match state.session_manager.validate_pairing_token(token) {
        Some(s) => {
            let id = s.session_id.clone();
            Ok(id)
        },
        None => Err(HttpStatus::Unauthorized),
    }
}

/// The engine index of the device that `device_id` names: `device_<n>` names the
/// device stored under `n`; otherwise a device whose id is `device_id` is looked for.
pub fn resolve_device_id(device_id: &str, state: &WebhookAppState) -> (r: Option<u32>)
    ensures
        r is Some <==> resolvable(state.devices@, device_id@),
        match r {
            Some(i) => resolves_to(state.devices@, device_id@, i),
            None => true,
        },
{
    if let Some(stripped) = strip_prefix(device_id, "device_") {
        if let Some(index) = parse_u32(stripped) {
            if state.devices.contains_key(&index) {
                return Some(index);
            }
        }
    }
    let wanted = device_id.to_owned();
    let devices = &state.devices;
    for kv in it: devices.iter()
        invariant
            it.seq() == devices.iter().remaining(),
            devices@ == state.devices@,
            wanted@ == device_id@,
            indexed_device(devices@, device_id@) is None,
            forall|j: int| 0 <= j < it.index() ==> (#[trigger] it.seq()[j]).1.device_id@ != device_id@,
    {
        assert(kv == it.seq()[it.index()]);
        if kv.1.device_id == wanted {
            proof {
                let v = devices.iter().remaining();
                let k = *v[it.index()].0;
                assert(devices@.contains_key(k) && devices@[k] == *v[it.index()].1);
                assert(devices@[k].device_id@ == device_id@ && devices@[k].device_index == kv.1.device_index);
            }
            return Some(kv.1.device_index);
        }
    }
    proof {
        let v = devices.iter().remaining();
        assert forall|k: u32| #[trigger] devices@.contains_key(k) implies devices@[k].device_id@ != device_id@ by {
            assert(v.contains((&k, &devices@[k])));
            let j = choose|j: int| 0 <= j < v.len() && v[j] == (&k, &devices@[k]);
            assert(v[j].1.device_id@ != device_id@);
        }
    }
    None
}

/// What the status endpoint reports (the server adds its version).
#[derive(Debug)]
pub struct ServerStatus {
    pub running: bool,
    pub device_count: usize,
    pub port: u16,
}

/// The server is running on its port, with this many connected devices.
pub fn get_server_status(state: &WebhookAppState) -> (r: ServerStatus)
    ensures
        r.running,
        r.device_count == connected_count(state.devices@),
        r.port == WEBHOOK_PORT,
{
    ServerStatus { running: true, device_count: connected_device_count(&state.devices), port: WEBHOOK_PORT }
}

/// `r` holds every device of `m`, each once, in some order.
pub open spec fn lists_all_devices(m: Map<u32, DeviceInfo>, r: Seq<&DeviceInfo>) -> bool {
    exists|ks: Seq<u32>|
        {
            &&& ks.len() == r.len()
            &&& ks.no_duplicates()
            &&& forall|k: u32| #[trigger] m.contains_key(k) <==> ks.contains(k)
            &&& forall|j: int| 0 <= j < ks.len() ==> *r[j] == m[#[trigger] ks[j]]
        }
}

/// Every device, each once, for an authorized request; 401 otherwise.
pub fn get_devices<'a>(state: &'a WebhookAppState, authorization: Option<&str>) -> (r: Result<
    Vec<&'a DeviceInfo>,
    HttpStatus,
>)
    ensures
        !authorized(state.session_manager@, opt_str(authorization)) ==> r == Err::<
            Vec<&'a DeviceInfo>,
            HttpStatus,
        >(HttpStatus::Unauthorized),
        authorized(state.session_manager@, opt_str(authorization)) ==> (r matches Ok(list)
            && lists_all_devices(state.devices@, list@)),
{
    if validate_request(state, authorization).is_err() {
        return Err(HttpStatus::Unauthorized);
    }
    Ok(all_devices(state))
}

/// Every device, each once, in no particular order.
fn all_devices(state: &WebhookAppState) -> (r: Vec<&DeviceInfo>)
    ensures
        lists_all_devices(state.devices@, r@),
{
    let devices = &state.devices;
    let mut r: Vec<&DeviceInfo> = Vec::new();
    for kv in it: devices.iter()
        invariant
            it.seq() == devices.iter().remaining(),
            it.seq().no_duplicates(),
            devices@ == state.devices@,
            r@.len() == it.index(),
            forall|j: int| 0 <= j < it.index() ==> r@[j] == (#[trigger] it.seq()[j]).1,
    {
        assert(kv == it.seq()[it.index()]);
        r.push(kv.1);
    }
    proof {
        let v = devices.iter().remaining();
        let ks = v.map_values(|p: (&u32, &DeviceInfo)| *p.0);
        assert forall|j: int| 0 <= j < ks.len() implies *r@[j] == state.devices@[#[trigger] ks[j]] by {
            assert(devices@.contains_key(*v[j].0) && devices@[*v[j].0] == *v[j].1);
        }
        assert forall|k: u32| #[trigger] state.devices@.contains_key(k) <==> ks.contains(k) by {
            if state.devices@.contains_key(k) {
                assert(v.contains((&k, &devices@[k])));
                let j = choose|j: int| 0 <= j < v.len() && v[j] == (&k, &devices@[k]);
                assert(ks[j] == k);
            }
            if ks.contains(k) {
                let j = choose|j: int| 0 <= j < ks.len() && ks[j] == k;
                assert(devices@.contains_key(*v[j].0));
            }
        }
        assert(ks.len() == r@.len());
        assert forall|a: int, b: int| 0 <= a < ks.len() && 0 <= b < ks.len() && a != b implies ks[a] != ks[b] by {
            assert(devices@[*v[a].0] == *v[a].1);
            assert(devices@[*v[b].0] == *v[b].1);
            if ks[a] == ks[b] {
                assert(v[a] == v[b]);
            }
        }
        assert(ks.no_duplicates());
    }
    r
}

/// The protocol message that starts scanning for devices.
pub open spec fn start_scanning_message() -> Seq<char> {
    "[{\"StartScanning\":{\"Id\":1}}]"@
}

/// The protocol message that stops scanning for devices.
pub open spec fn stop_scanning_message() -> Seq<char> {
    "[{\"StopScanning\":{\"Id\":1}}]"@
}

/// The protocol message that stops the device with engine index `index`.
pub open spec fn stop_device_message(index: u32) -> Seq<char> {
    "[{\"StopDeviceCmd\":{\"Id\":1,\"DeviceIndex\":"@ + decimal(index as nat) + "}}]"@
}

/// The outcome of a request that, once authorized, hands `message` to the engine.
pub open spec fn scan_outcome(
    sessions: Map<Seq<char>, Session>,
    authorization: Option<Seq<char>>,
    r: CommandOutcome,
    message: Seq<char>,
) -> bool {
    if authorized(sessions, authorization) {
        r.status == HttpStatus::Success && (r.backdoor_message matches Some(m) && m@ == message)
    } else {
        r.status == HttpStatus::Unauthorized && r.backdoor_message is None
    }
}

/// Start scanning for devices (authorized requests only).
pub fn start_scan(state: &WebhookAppState, authorization: Option<&str>) -> (r: CommandOutcome)
    ensures
        scan_outcome(state.session_manager@, opt_str(authorization), r, start_scanning_message()),
{
    if validate_request(state, authorization).is_err() {
        return CommandOutcome { status: HttpStatus::Unauthorized, backdoor_message: None };
    }
    CommandOutcome {
        status: HttpStatus::Success,
        backdoor_message: Some("[{\"StartScanning\":{\"Id\":1}}]".to_owned()),
    }
}

/// Stop scanning for devices (authorized requests only).
pub fn stop_scan(state: &WebhookAppState, authorization: Option<&str>) -> (r: CommandOutcome)
    ensures
        scan_outcome(state.session_manager@, opt_str(authorization), r, stop_scanning_message()),
{
    if validate_request(state, authorization).is_err() {
        return CommandOutcome { status: HttpStatus::Unauthorized, backdoor_message: None };
    }
    CommandOutcome {
        status: HttpStatus::Success,
        backdoor_message: Some("[{\"StopScanning\":{\"Id\":1}}]".to_owned()),
    }
}

/// The engine index of the device a command request targets: 401 for an
/// unauthorized request, 404 where `device_id` names no device.
pub fn authorize_device_command(
    state: &WebhookAppState,
    authorization: Option<&str>,
    device_id: &str,
) -> (r: Result<u32, HttpStatus>)
    ensures
        !authorized(state.session_manager@, opt_str(authorization)) ==> r == Err::<u32, HttpStatus>(
            HttpStatus::Unauthorized,
        ),
        authorized(state.session_manager@, opt_str(authorization)) && !resolvable(
            state.devices@,
            device_id@,
        ) ==> r == Err::<u32, HttpStatus>(HttpStatus::NotFound),
        authorized(state.session_manager@, opt_str(authorization)) && resolvable(
            state.devices@,
            device_id@,
        ) ==> (r matches Ok(i) && resolves_to(state.devices@, device_id@, i)),
{
    if validate_request(state, authorization).is_err() {
        return Err(HttpStatus::Unauthorized);
    }
    match resolve_device_id(device_id, state) {
        Some(i) => Ok(i),
        None => Err(HttpStatus::NotFound),
    }
}

/// `m` with the command and its status recorded on the device stored under
/// `index`, if there is one.
pub open spec fn command_recorded(
    m: Map<u32, DeviceInfoView>,
    index: u32,
    command: Seq<char>,
    status: Seq<char>,
) -> Map<u32, DeviceInfoView> {
    if m.contains_key(index) {
        m.insert(
            index,
            DeviceInfoView { last_command: Some(command), command_status: Some(status), ..m[index] },
        )
    } else {
        m
    }
}

/// `after` is `before` with a command and its status recorded on the device
/// under `index`, stated field by field: the same devices; that device keeps its
/// id, index, name and connected flag and now has `command` as its last command
/// and `status` as its status; every other device is unchanged.
pub open spec fn command_only_recorded(
    before: Map<u32, DeviceInfo>,
    after: Map<u32, DeviceInfo>,
    index: u32,
    command: Seq<char>,
    status: Seq<char>,
) -> bool {
    &&& after.dom() == before.dom()
    &&& before.contains_key(index) ==> {
        &&& after[index].device_id == before[index].device_id
        &&& after[index].device_index == before[index].device_index
        &&& after[index].device_name == before[index].device_name
        &&& after[index].connected == before[index].connected
        &&& opt_text(after[index].last_command) == Some(command)
        &&& opt_text(after[index].command_status) == Some(status)
    }
    &&& forall|k: u32| k != index && #[trigger] before.contains_key(k) ==> after[k] == before[k]
}

/// Recording a command changes only the device's last command and status: its
/// id, index, name and connected flag stay as they were, and so does every
/// other device.
pub proof fn lemma_command_recorded_fields(m: Map<u32, DeviceInfoView>, index: u32, command: Seq<char>, status: Seq<char>)
    ensures
        command_recorded(m, index, command, status).dom() == m.dom(),
        m.contains_key(index) ==> {
            let d = command_recorded(m, index, command, status)[index];
            &&& d.device_id == m[index].device_id
            &&& d.device_index == m[index].device_index
            &&& d.device_name == m[index].device_name
            &&& d.connected == m[index].connected
            &&& d.last_command == Some(command)
            &&& d.command_status == Some(status)
        },
        forall|k: u32| k != index && #[trigger] m.contains_key(k) ==> command_recorded(m, index, command, status)[k] == m[k],
{
    if m.contains_key(index) {
        assert(command_recorded(m, index, command, status).dom() =~= m.dom());
    }
}

/// Recording a command leaves the number of connected devices as it was.
pub proof fn lemma_recording_keeps_connected_count(
    before: Map<u32, DeviceInfo>,
    after: Map<u32, DeviceInfo>,
    index: u32,
    command: Seq<char>,
    status: Seq<char>,
)
    requires
        command_only_recorded(before, after, index, command, status),
    ensures
        connected_count(after) == connected_count(before),
{
    assert(after.dom().filter(|k: u32| after[k].connected) =~= before.dom().filter(|k: u32| before[k].connected));
}

/// Records on the device stored under `index` (if any) the last command sent
/// to it and its status.
fn record_device_command(
    devices: &mut HashMap<u32, DeviceInfo>,
    index: u32,
    command: &str,
    status: &str,
)
    ensures
        devices_view(final(devices)@) == command_recorded(
            devices_view(old(devices)@),
            index,
            command@,
            status@,
        ),
        command_only_recorded(old(devices)@, final(devices)@, index, command@, status@),
        connected_count(final(devices)@) == connected_count(old(devices)@),
{
    let ghost before = devices_view(devices@);
    if let Some(d) = devices.remove(&index) {
        let updated = DeviceInfo {
            last_command: Some(command.to_owned()),
            command_status: Some(status.to_owned()),
            ..d
        };
        devices.insert(index, updated);
        assert(devices_view(devices@) =~= command_recorded(before, index, command@, status@));
        proof {
            lemma_recording_keeps_connected_count(old(devices)@, devices@, index, command@, status@);
        }
    } else {
        assert(devices_view(devices@) =~= before);
        assert(devices@ =~= old(devices)@);
    }
}

/// A vibrate request: 401 or 404 as `authorize_device_command` decides;
/// otherwise the device is marked as executing a vibrate command and its engine
/// index returned, for the caller to send the vibrate message.
pub fn vibrate_device(state: &mut WebhookAppState, authorization: Option<&str>, device_id: &str) -> (r:
    Result<u32, HttpStatus>)
    ensures
        !authorized(old(state).session_manager@, opt_str(authorization)) ==> r == Err::<
            u32,
            HttpStatus,
        >(HttpStatus::Unauthorized),
        authorized(old(state).session_manager@, opt_str(authorization)) && !resolvable(
            old(state).devices@,
            device_id@,
        ) ==> r == Err::<u32, HttpStatus>(HttpStatus::NotFound),
        authorized(old(state).session_manager@, opt_str(authorization)) && resolvable(
            old(state).devices@,
            device_id@,
        ) ==> (r matches Ok(i) && resolves_to(old(state).devices@, device_id@, i)),
        match r {
            Ok(i) => devices_view(final(state).devices@) == command_recorded(
                devices_view(old(state).devices@),
                i,
                "vibrate"@,
                "executing"@,
            ) && command_only_recorded(old(state).devices@, final(state).devices@, i, "vibrate"@, "executing"@),
            Err(_) => final(state).devices@ == old(state).devices@,
        },
        connected_count(final(state).devices@) == connected_count(old(state).devices@),
        final(state).session_manager == old(state).session_manager,
        final(state).pairing_token == old(state).pairing_token,
        final(state).mobile_ip == old(state).mobile_ip,
{
    let index = authorize_device_command(state, authorization, device_id)?;
    record_device_command(&mut state.devices, index, "vibrate", "executing");
    Ok(index)
}

/// A stop request: 401 or 404 as `authorize_device_command` decides; otherwise
/// 200, the stop message for the device's engine index, and the device marked as
/// having executed a stop command.
pub fn stop_device(state: &mut WebhookAppState, authorization: Option<&str>, device_id: &str) -> (r:
    CommandOutcome)
    ensures
        !authorized(old(state).session_manager@, opt_str(authorization)) ==> r.status
            == HttpStatus::Unauthorized && r.backdoor_message is None && final(state).devices@ == old(state).devices@,
        authorized(old(state).session_manager@, opt_str(authorization)) && !resolvable(
            old(state).devices@,
            device_id@,
        ) ==> r.status == HttpStatus::NotFound && r.backdoor_message is None && final(state).devices@
            == old(state).devices@,
        authorized(old(state).session_manager@, opt_str(authorization)) && resolvable(
            old(state).devices@,
            device_id@,
        ) ==> exists|i: u32|
            {
                &&& resolves_to(old(state).devices@, device_id@, i)
                &&& r.status == HttpStatus::Success
                &&& r.backdoor_message matches Some(m) && m@ == stop_device_message(i)
                &&& devices_view(final(state).devices@) == command_recorded(
                    devices_view(old(state).devices@),
                    i,
                    "stop"@,
                    "executed"@,
                )
                &&& command_only_recorded(old(state).devices@, final(state).devices@, i, "stop"@, "executed"@)
            },
        connected_count(final(state).devices@) == connected_count(old(state).devices@),
        final(state).session_manager == old(state).session_manager,
        final(state).pairing_token == old(state).pairing_token,
        final(state).mobile_ip == old(state).mobile_ip,
{
    let index = match authorize_device_command(state, authorization, device_id) {
        Ok(i) => i,
        Err(status) => return CommandOutcome { status, backdoor_message: None },
    };
    let digits = u32_to_decimal(index);
    let msg = concat3("[{\"StopDeviceCmd\":{\"Id\":1,\"DeviceIndex\":", digits.as_str(), "}}]");
    record_device_command(&mut state.devices, index, "stop", "executed");
    CommandOutcome { status: HttpStatus::Success, backdoor_message: Some(msg) }
}

/// What the pairing QR code holds.
#[derive(Debug)]
pub struct QrCodeData {
    pub mobile_ip: String,
    pub mobile_port: u16,
    pub pairing_token: String,
    pub session_id: String,
    pub version: String,
}

/// The QR code a web application scans to pair: the device's address and port,
/// the server's pairing token, a fresh `session_<uuid>` id, and format version 1.
pub fn get_pairing_qr(state: &WebhookAppState) -> (r: QrCodeData)
    ensures
        r.mobile_ip == state.mobile_ip,
        r.mobile_port == WEBHOOK_PORT,
        r.pairing_token == state.pairing_token,
        r.session_id@.len() == 44,
        r.session_id@.subrange(0, 8) == "session_"@,
        is_uuid_v4_text(r.session_id@.subrange(8, 44)),
        r.version@ == "1"@,
{
    let uuid = new_uuid_string();
    let mut session_id = "session_".to_owned();
    session_id.append(uuid.as_str());
    proof {
        reveal_strlit("session_");
        assert(session_id@.subrange(0, 8) =~= "session_"@);
        assert(session_id@.subrange(8, 44) =~= uuid@);
    }
    QrCodeData {
        mobile_ip: state.mobile_ip.clone(),
        mobile_port: WEBHOOK_PORT,
        pairing_token: state.pairing_token.clone(),
        session_id,
        version: "1".to_owned(),
    }
}

/// The answer to a successful pairing.
#[derive(Debug)]
pub struct ValidatePairingResponse {
    pub session_id: String,
    pub pairing_token: String,
    pub success: bool,
}

/// `after` is `before` with session `s` added (as `session_added` says) and,
/// where there is a webhook URL, that URL set on it.
pub open spec fn pairing_completed(
    before: Map<Seq<char>, Session>,
    after: Map<Seq<char>, Session>,
    capacity: usize,
    s: Session,
    url: Option<String>,
) -> bool {
    match url {
        None => session_added(before, after, capacity, s),
        Some(u) => exists|mid: Map<Seq<char>, Session>|
            session_added(before, mid, capacity, s) && after == #[trigger] mid.insert(
                s.session_id@,
                with_webhook_url(s, u),
            ),
    }
}

/// Completes a pairing request once its Firebase token has been checked: a
/// refused token is answered 401 and changes nothing; otherwise a session is
/// created for the user, given the webhook URL if the request has one, and its
/// id and pairing token are returned.
pub fn validate_pairing(
    state: &mut WebhookAppState,
    verified_uid: Result<String, AuthError>,
    react_webhook_url: Option<String>,
) -> (r: Result<ValidatePairingResponse, HttpStatus>)
    ensures
        final(state).devices == old(state).devices,
        final(state).pairing_token == old(state).pairing_token,
        final(state).mobile_ip == old(state).mobile_ip,
        final(state).session_manager.capacity() == old(state).session_manager.capacity(),
        match verified_uid {
            Err(_) => r == Err::<ValidatePairingResponse, HttpStatus>(HttpStatus::Unauthorized)
                && final(state).session_manager@ == old(state).session_manager@,
            Ok(uid) => r matches Ok(resp) && resp.success && is_uuid_v4_text(resp.session_id@)
                && is_uuid_v4_text(resp.pairing_token@) && exists|s: Session|
                {
                    &&& s.session_id == resp.session_id
                    &&& s.pairing_token == resp.pairing_token
                    &&& s.firebase_uid == uid
                    &&& s.react_webhook_url is None
                    &&& #[trigger] pairing_completed(
                        old(state).session_manager@,
                        final(state).session_manager@,
                        old(state).session_manager.capacity(),
                        s,
                        react_webhook_url,
                    )
                },
        },
{
    let uid = match verified_uid {
        Ok(uid) => uid,
        Err(_) => return Err(HttpStatus::Unauthorized),
    };
    let session = state.session_manager.create_session(uid);
    let ghost after_create = state.session_manager@;
    let ghost url_opt = react_webhook_url;
    proof {
        assert(after_create.contains_key(session.session_id@)) by {
            let mid = choose|mid: Map<Seq<char>, Session>|
                crate::session_manager::made_room(old(state).session_manager@, mid, old(state).session_manager.capacity())
                    && after_create == #[trigger] mid.insert(session.session_id@, session);
        }
    }
    if let Some(url) = react_webhook_url {
        state.session_manager.set_react_webhook_url(session.session_id.as_str(), url);
        proof {
            assert(pairing_completed(
                old(state).session_manager@,
                state.session_manager@,
                old(state).session_manager.capacity(),
                session,
                Some(url),
            ));
        }
    }
    assert(pairing_completed(
        old(state).session_manager@,
        state.session_manager@,
        old(state).session_manager.capacity(),
        session,
        url_opt,
    ));
    Ok(ValidatePairingResponse {
        session_id: session.session_id,
        pairing_token: session.pairing_token,
        success: true,
    })
}

/// A session as the sessions endpoint lists it.
#[derive(Debug)]
pub struct SessionInfo {
    pub session_id: String,
    pub firebase_uid: String,
    pub created_at: u64,
    pub react_webhook_url: Option<String>,
}

/// `info` lists session `s`.
pub open spec fn lists_session(info: SessionInfo, s: Session) -> bool {
    &&& info.session_id == s.session_id
    &&& info.firebase_uid == s.firebase_uid
    &&& info.created_at == s.created_at
    &&& info.react_webhook_url == s.react_webhook_url
}

/// The listing of session `s`.
pub fn session_to_info(s: &Session) -> (r: SessionInfo)
    ensures
        lists_session(r, *s),
{
    SessionInfo {
        session_id: s.session_id.clone(),
        firebase_uid: s.firebase_uid.clone(),
        created_at: s.created_at,
        react_webhook_url: match &s.react_webhook_url {
            Some(u) => Some(u.clone()),
            None => None,
        },
    }
}

/// All sessions, earliest created first, for an authorized request; 401 otherwise.
pub fn get_sessions(state: &WebhookAppState, authorization: Option<&str>) -> (r: Result<
    Vec<SessionInfo>,
    HttpStatus,
>)
    ensures
        !authorized(state.session_manager@, opt_str(authorization)) ==> r == Err::<Vec<SessionInfo>, HttpStatus>(
            HttpStatus::Unauthorized,
        ),
        authorized(state.session_manager@, opt_str(authorization)) ==> (r matches Ok(infos) && {
            &&& infos@.len() == state.session_manager@.len()
            &&& forall|i: int|
                0 <= i < infos@.len() ==> #[trigger] state.session_manager@.contains_key(
                    infos@[i].session_id@,
                ) && lists_session(infos@[i], state.session_manager@[infos@[i].session_id@])
            &&& forall|i: int, j: int|
                0 <= i < j < infos@.len() ==> #[trigger] infos@[i].session_id@
                    != #[trigger] infos@[j].session_id@
            &&& forall|i: int, j: int|
                0 <= i <= j < infos@.len() ==> #[trigger] infos@[i].created_at
                    <= #[trigger] infos@[j].created_at
        }),
{
    if validate_request(state, authorization).is_err() {
        return Err(HttpStatus::Unauthorized);
    }
    let sessions = state.session_manager.list_sessions();
    let mut infos: Vec<SessionInfo> = Vec::new();
    let n = sessions.len();
    let mut i: usize = 0;
    while i < n
        invariant
            n == sessions@.len(),
            i <= n,
            infos@.len() == i,
            forall|j: int| 0 <= j < i ==> lists_session(#[trigger] infos@[j], *sessions@[j]),
        decreases n - i,
    {
        infos.push(session_to_info(sessions[i]));
        i = i + 1;
    }
    proof {
        let m = state.session_manager@;
        assert forall|a: int| 0 <= a < infos@.len() implies #[trigger] m.contains_key(infos@[a].session_id@)
            && lists_session(infos@[a], m[infos@[a].session_id@]) by {
            assert(lists_session(infos@[a], *sessions@[a]));
            assert(m.contains_key(sessions@[a].session_id@));
        }
        assert forall|a: int, b: int| 0 <= a < b < infos@.len() implies #[trigger] infos@[a].session_id@
            != #[trigger] infos@[b].session_id@ by {
            assert(lists_session(infos@[a], *sessions@[a]));
            assert(lists_session(infos@[b], *sessions@[b]));
            assert(sessions@[a].session_id@ != sessions@[b].session_id@);
        }
        assert forall|a: int, b: int| 0 <= a <= b < infos@.len() implies #[trigger] infos@[a].created_at
            <= #[trigger] infos@[b].created_at by {
            assert(lists_session(infos@[a], *sessions@[a]));
            assert(lists_session(infos@[b], *sessions@[b]));
            assert(sessions@[a].created_at <= sessions@[b].created_at);
        }
    }
    Ok(infos)
}

/// Revokes session `session_id` for an authorized request: 204 if there was
/// such a session, 404 if not; 401 (changing nothing) for an unauthorized request.
pub fn revoke_session(state: &mut WebhookAppState, authorization: Option<&str>, session_id: &str) -> (r:
    HttpStatus)
    ensures
        !authorized(old(state).session_manager@, opt_str(authorization)) ==> r
            == HttpStatus::Unauthorized && final(state).session_manager@ == old(state).session_manager@,
        authorized(old(state).session_manager@, opt_str(authorization)) ==> final(state).session_manager@ == old(state).session_manager@.remove(session_id@) && (r
            == if old(state).session_manager@.contains_key(session_id@) {
            HttpStatus::NoContent
        } else {
            HttpStatus::NotFound
        }),
        final(state).session_manager.capacity() == old(state).session_manager.capacity(),
        final(state).devices == old(state).devices,
        final(state).pairing_token == old(state).pairing_token,
        final(state).mobile_ip == old(state).mobile_ip,
{
    if validate_request(state, authorization).is_err() {
        return HttpStatus::Unauthorized;
    }
    if state.session_manager.revoke_session(session_id) {
        HttpStatus::NoContent
    } else {
        HttpStatus::NotFound
    }
}

/// The `Authorization` header value that carries pairing token `token`.
pub open spec fn bearer(token: Seq<char>) -> Seq<char> {
    "Bearer "@ + token
}

/// A header value `Bearer <token>` carries `token`.
pub proof fn lemma_bearer_carries_token(token: Seq<char>)
    ensures
        request_token(Some(bearer(token))) == Some(token),
{
    let a = bearer(token);
    assert(a.subrange(0, "Bearer "@.len() as int) =~= "Bearer "@);
    assert(a.subrange("Bearer "@.len() as int, a.len() as int) =~= token);
}

/// A device stored under engine index `i` is addressed by `device_<i>`.
pub proof fn lemma_device_id_names_index(m: Map<u32, DeviceInfo>, i: u32)
    requires
        m.contains_key(i),
    ensures
        indexed_device(m, device_id_text(i)) == Some(i),
        resolvable(m, device_id_text(i)),
        resolves_to(m, device_id_text(i), i),
{
    let id = device_id_text(i);
    assert(id.subrange(0, "device_"@.len() as int) =~= "device_"@);
    assert(id.subrange("device_"@.len() as int, id.len() as int) =~= decimal(i as nat));
    lemma_parse_decimal(i);
}

/// The pairing token handed out by a completed pairing authorizes requests.
pub proof fn lemma_paired_token_authorizes(
    before: Map<Seq<char>, Session>,
    after: Map<Seq<char>, Session>,
    capacity: usize,
    s: Session,
    url: Option<String>,
)
    requires
        pairing_completed(before, after, capacity, s, url),
    ensures
        authorized(after, Some(bearer(s.pairing_token@))),
{
    lemma_bearer_carries_token(s.pairing_token@);
    match url {
        None => {
            lemma_created_session_validates(before, after, capacity, s);
        },
        Some(u) => {
            let mid = choose|mid: Map<Seq<char>, Session>|
                session_added(before, mid, capacity, s) && after == #[trigger] mid.insert(
                    s.session_id@,
                    with_webhook_url(s, u),
                );
            assert(after.contains_key(s.session_id@));
            assert(after[s.session_id@].pairing_token@ == s.pairing_token@);
        },
    }
}

/// Once the only session holding pairing token `token` is revoked, the token
/// no longer authorizes requests.
pub proof fn lemma_revoked_token_refused(
    m: Map<Seq<char>, Session>,
    session_id: Seq<char>,
    token: Seq<char>,
)
    requires
        forall|k: Seq<char>| #[trigger] m.contains_key(k) && m[k].pairing_token@ == token ==> k == session_id,
    ensures
        !authorized(m.remove(session_id), Some(bearer(token))),
{
    lemma_bearer_carries_token(token);
    let n = m.remove(session_id);
    if token_known(n, token) {
        let k = choose|k: Seq<char>| #[trigger] n.contains_key(k) && n[k].pairing_token@ == token;
        assert(m.contains_key(k) && m[k].pairing_token@ == token);
    }
}

/// After a pairing, a request carrying the pairing token handed out names the
/// new session, as long as no other session holds the same token.
pub proof fn lemma_paired_request_names_session(
    before: Map<Seq<char>, Session>,
    after: Map<Seq<char>, Session>,
    capacity: usize,
    s: Session,
    url: Option<String>,
    r: Result<String, HttpStatus>,
)
    requires
        pairing_completed(before, after, capacity, s, url),
        sole_holder(after, s.session_id@),
        request_validated(after, Some(bearer(s.pairing_token@)), r),
    ensures
        r matches Ok(id) && id@ == s.session_id@,
{
    lemma_paired_token_authorizes(before, after, capacity, s, url);
    lemma_bearer_carries_token(s.pairing_token@);
    match url {
        None => {
            lemma_created_session_validates(before, after, capacity, s);
        },
        Some(u) => {
            let mid = choose|mid: Map<Seq<char>, Session>|
                session_added(before, mid, capacity, s) && after == #[trigger] mid.insert(
                    s.session_id@,
                    with_webhook_url(s, u),
                );
            assert(after[s.session_id@].pairing_token@ == s.pairing_token@);
        },
    }
    match r {
        Ok(id) => {
            assert(after.contains_key(id@) && after[id@].pairing_token@ == after[s.session_id@].pairing_token@);
        },
        Err(_) => {},
    }
}

} // verus!
