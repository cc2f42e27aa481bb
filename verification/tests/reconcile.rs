use std::collections::BTreeMap;

use chirpstack_provisioner::error::{ProvisionError, RequestError};
use chirpstack_provisioner::json::Json;
use chirpstack_provisioner::plan::{
    ApplicationSpec, DeviceProfileSpec, DeviceSpec, GatewaySpec, Plan, ProvisionState, TenantSpec,
};
use chirpstack_provisioner::reconcile::{Action, Reconciler};
use chirpstack_provisioner::registry::Registry;
use chirpstack_provisioner::request::{ApiRequest, Method};

fn s(v: &str) -> String {
    v.to_string()
}

fn field<'a>(j: &'a Json, key: &str) -> Option<&'a Json> {
    match j {
        Json::Object(fields) => fields.iter().find(|(k, _)| k == key).map(|(_, v)| v),
        _ => None,
    }
}

fn text_of(j: &Json, key: &str) -> Option<String> {
    match field(j, key) {
        Some(Json::Str(v)) => Some(v.clone()),
        _ => None,
    }
}

/// A stored profile: tenant, name, description, region and region configuration.
#[derive(Clone, Default)]
struct Profile {
    tenant_id: String,
    name: String,
    description: String,
    region: String,
    region_config_id: String,
}

/// A ChirpStack REST API held in memory.
#[derive(Default)]
struct FakeChirpStack {
    tenants: BTreeMap<String, String>,
    profiles: BTreeMap<String, Profile>,
    applications: BTreeMap<String, (String, String)>,
    gateways: BTreeMap<String, String>,
    devices: BTreeMap<String, (String, Vec<(String, String)>)>,
    keys: BTreeMap<String, String>,
    creates: usize,
    updates: usize,
    calls: Vec<(Method, String)>,
    offsets: Vec<(String, u64)>,
    fail_all: bool,
    fail_status: Option<(u16, &'static str)>,
    fail_prefix: Option<(Method, &'static str)>,
    /// Added to every total count that a listing states: the listing then ends early.
    inflate_total: usize,
    create_reply: CreateReply,
}

#[derive(Clone, Copy, PartialEq)]
enum CreateReply {
    TopLevelId,
    NestedId,
    NoId,
}

impl Default for CreateReply {
    fn default() -> Self {
        CreateReply::TopLevelId
    }
}

fn status_error(code: u16, line: &str, path: &str) -> RequestError {
    RequestError::Api { code, status: s(line), path: s(path), body: s("") }
}

fn not_found(path: &str) -> RequestError {
    status_error(404, "404 Not Found", path)
}

fn query_value<'a>(query: &'a str, key: &str) -> Option<&'a str> {
    query.split('&').find_map(|kv| kv.strip_prefix(key).and_then(|rest| rest.strip_prefix('=')))
}

/// One page of `entries` (id, name), as ChirpStack writes it: the total count as
/// a number read from JSON text, and no `result` where the page is empty.
fn page(entries: Vec<(String, String)>, query: &str, inflate: usize) -> Json {
    let offset: usize = query_value(query, "offset").unwrap().parse().unwrap();
    let limit: usize = query_value(query, "limit").unwrap().parse().unwrap();
    let total = entries.len() + inflate;
    let items: Vec<Json> = entries
        .into_iter()
        .skip(offset)
        .take(limit)
        .map(|(id, name)| Json::Object(vec![(s("id"), Json::Str(id)), (s("name"), Json::Str(name))]))
        .collect();
    let mut fields = vec![(s("totalCount"), Json::Number(total.to_string()))];
    if !items.is_empty() {
        fields.push((s("result"), Json::Array(items)));
    }
    Json::Object(fields)
}

fn tag_pairs(j: &Json) -> Vec<(String, String)> {
    match j {
        Json::Object(fields) => fields
            .iter()
            .map(|(k, v)| (k.clone(), match v { Json::Str(t) => t.clone(), _ => String::new() }))
            .collect(),
        _ => vec![],
    }
}

impl FakeChirpStack {
    fn profile_of(p: &Json) -> Profile {
        Profile {
            tenant_id: text_of(p, "tenant_id").unwrap(),
            name: text_of(p, "name").unwrap(),
            description: text_of(p, "description").unwrap(),
            region: text_of(p, "region").unwrap(),
            region_config_id: text_of(p, "region_config_id").unwrap(),
        }
    }

    fn handle(&mut self, req: &ApiRequest) -> Result<Json, RequestError> {
        self.calls.push((req.method, req.path.clone()));
        let path = req.path.as_str();
        if self.fail_all {
            return Err(RequestError::Transport { message: s("connection refused") });
        }
        if let Some((code, line)) = self.fail_status {
            return Err(status_error(code, line, path));
        }
        if let Some((method, prefix)) = self.fail_prefix {
            if method == req.method && path.starts_with(prefix) {
                return Err(status_error(503, "503 Service Unavailable", path));
            }
        }
        let body = req.body.as_ref();
        let (base, query) = match path.split_once('?') {
            Some((b, q)) => (b, q),
            None => (path, ""),
        };
        let tenant = query_value(query, "tenant_id");
        let parts: Vec<&str> = base.trim_start_matches("/api/").split('/').collect();
        let inner = |wrapper: &str| body.and_then(|b| field(b, wrapper));
        match (req.method, parts.as_slice()) {
            (Method::Get, ["tenants"]) => {
                self.offsets.push((s("Tenant"), query_value(query, "offset").unwrap().parse().unwrap()));
                Ok(page(self.tenants.iter().map(|(i, n)| (i.clone(), n.clone())).collect(), query, self.inflate_total))
            }
            (Method::Get, ["device-profiles"]) => {
                self.offsets.push((s("DeviceProfile"), query_value(query, "offset").unwrap().parse().unwrap()));
                Ok(page(
                    self.profiles
                        .iter()
                        .filter(|(_, p)| Some(p.tenant_id.as_str()) == tenant)
                        .map(|(i, p)| (i.clone(), p.name.clone()))
                        .collect(),
                    query,
                    self.inflate_total,
                ))
            }
            (Method::Get, ["applications"]) => {
                self.offsets.push((s("Application"), query_value(query, "offset").unwrap().parse().unwrap()));
                Ok(page(
                    self.applications
                        .iter()
                        .filter(|(_, (t, _))| Some(t.as_str()) == tenant)
                        .map(|(i, (_, n))| (i.clone(), n.clone()))
                        .collect(),
                    query,
                    self.inflate_total,
                ))
            }
            (Method::Get, ["tenants", id]) => self.tenants.get(*id).map(|_| Json::Object(vec![])).ok_or(not_found(path)),
            (Method::Get, ["device-profiles", id]) => self.profiles.get(*id).map(|_| Json::Object(vec![])).ok_or(not_found(path)),
            (Method::Get, ["applications", id]) => self.applications.get(*id).map(|_| Json::Object(vec![])).ok_or(not_found(path)),
            (Method::Get, ["gateways", id]) => self.gateways.get(*id).map(|_| Json::Object(vec![])).ok_or(not_found(path)),
            (Method::Get, ["devices", id]) => self.devices.get(*id).map(|_| Json::Object(vec![])).ok_or(not_found(path)),
            (Method::Get, ["devices", id, "keys"]) => self.keys.get(*id).map(|_| Json::Object(vec![])).ok_or(not_found(path)),
            (Method::Post, ["tenants"]) => {
                let t = inner("tenant").unwrap();
                let id = format!("tenant-{}", self.tenants.len());
                self.tenants.insert(id.clone(), text_of(t, "name").unwrap());
                self.creates += 1;
                Ok(match self.create_reply {
                    CreateReply::TopLevelId => Json::Object(vec![(s("id"), Json::Str(id))]),
                    CreateReply::NestedId => Json::Object(vec![(s("tenant"), Json::Object(vec![(s("id"), Json::Str(id))]))]),
                    CreateReply::NoId => Json::Object(vec![]),
                })
            }
            (Method::Post, ["device-profiles"]) => {
                let p = inner("device_profile").unwrap();
                let id = format!("profile-{}", self.profiles.len());
                self.profiles.insert(id.clone(), Self::profile_of(p));
                self.creates += 1;
                Ok(Json::Object(vec![(s("id"), Json::Str(id))]))
            }
            (Method::Post, ["applications"]) => {
                let a = inner("application").unwrap();
                let id = format!("application-{}", self.applications.len());
                self.applications.insert(id.clone(), (text_of(a, "tenant_id").unwrap(), text_of(a, "name").unwrap()));
                self.creates += 1;
                Ok(Json::Object(vec![(s("id"), Json::Str(id))]))
            }
            (Method::Post, ["gateways"]) => {
                let g = inner("gateway").unwrap();
                let id = text_of(g, "gateway_id").unwrap();
                assert!(!self.gateways.contains_key(&id), "duplicate create");
                self.gateways.insert(id, text_of(g, "name").unwrap());
                self.creates += 1;
                Ok(Json::Object(vec![]))
            }
            (Method::Post, ["devices"]) => {
                let d = inner("device").unwrap();
                let id = text_of(d, "dev_eui").unwrap();
                assert!(!self.devices.contains_key(&id), "duplicate create");
                self.devices.insert(id, (text_of(d, "name").unwrap(), tag_pairs(field(d, "tags").unwrap())));
                self.creates += 1;
                Ok(Json::Object(vec![]))
            }
            (Method::Post, ["devices", id, "keys"]) => {
                let k = inner("device_keys").unwrap();
                assert!(!self.keys.contains_key(*id), "duplicate create");
                self.keys.insert(s(id), text_of(k, "app_key").unwrap());
                self.creates += 1;
                Ok(Json::Object(vec![]))
            }
            (Method::Put, ["tenants", id]) => {
                let t = inner("tenant").unwrap();
                assert_eq!(text_of(t, "id").as_deref(), Some(*id));
                assert!(self.tenants.contains_key(*id));
                self.tenants.insert(s(id), text_of(t, "name").unwrap());
                self.updates += 1;
                Ok(Json::Object(vec![]))
            }
            (Method::Put, ["device-profiles", id]) => {
                let p = inner("device_profile").unwrap();
                assert_eq!(text_of(p, "id").as_deref(), Some(*id));
                assert!(self.profiles.contains_key(*id));
                self.profiles.insert(s(id), Self::profile_of(p));
                self.updates += 1;
                Ok(Json::Object(vec![]))
            }
            (Method::Put, ["applications", id]) => {
                let a = inner("application").unwrap();
                assert_eq!(text_of(a, "id").as_deref(), Some(*id));
                assert!(self.applications.contains_key(*id));
                self.applications.insert(s(id), (text_of(a, "tenant_id").unwrap(), text_of(a, "name").unwrap()));
                self.updates += 1;
                Ok(Json::Object(vec![]))
            }
            (Method::Put, ["gateways", id]) => {
                let g = inner("gateway").unwrap();
                assert!(self.gateways.contains_key(*id));
                self.gateways.insert(s(id), text_of(g, "name").unwrap());
                self.updates += 1;
                Ok(Json::Object(vec![]))
            }
            (Method::Put, ["devices", id]) => {
                let d = inner("device").unwrap();
                assert!(self.devices.contains_key(*id));
                self.devices.insert(s(id), (text_of(d, "name").unwrap(), tag_pairs(field(d, "tags").unwrap())));
                self.updates += 1;
                Ok(Json::Object(vec![]))
            }
            (Method::Put, ["devices", id, "keys"]) => {
                let k = inner("device_keys").unwrap();
                assert!(self.keys.contains_key(*id));
                self.keys.insert(s(id), text_of(k, "app_key").unwrap());
                self.updates += 1;
                Ok(Json::Object(vec![]))
            }
            (method, _) => panic!("unexpected call {method:?} {path}"),
        }
    }
}

fn tags(entries: &[(&str, &str)]) -> Registry<String> {
    let mut r = Registry::new();
    for (k, v) in entries {
        r.insert(s(k), s(v));
    }
    r
}

fn plan() -> Plan {
    let mut plan = Plan::empty();
    plan.version = s("v1");
    plan.tenant = Some(TenantSpec {
        name: s("DATUM Lab"),
        description: String::new(),
        can_have_gateways: true,
        max_gateway_count: 0,
        max_device_count: 0,
    });
    plan.device_profiles.push(DeviceProfileSpec {
        key: s("radio"),
        name: s("Brazilian lab"),
        description: String::new(),
        region: Some(s("AU915")),
        region_config_id: s("custom_au915"),
        supports_otaa: true,
        supports_class_b: false,
        supports_class_c: false,
        uplink_interval: 60,
        device_status_req_interval: 0,
    });
    plan.applications.push(ApplicationSpec { key: s("app"), name: s("Sensors"), description: String::new() });
    plan.gateways.push(GatewaySpec {
        gateway_id: s("0102030405060708"),
        name: s("Mist gateway"),
        description: String::new(),
        stats_interval: 30,
    });
    plan.devices.push(DeviceSpec {
        dev_eui: s("1122334455667788"),
        name: s("Sensor"),
        application: s("app"),
        device_profile: s("radio"),
        description: String::new(),
        join_eui: Some(s("0000000000000000")),
        app_key_env: None,
        nwk_key_env: None,
        tags: tags(&[("source", "simulator")]),
    });
    plan
}

fn run(
    plan: Plan,
    state: ProvisionState,
    server: &mut FakeChirpStack,
    env: &BTreeMap<String, String>,
) -> (ProvisionState, Result<(), ProvisionError>) {
    let mut machine = Reconciler::new(plan, state);
    let mut action = machine.start();
    loop {
        action = match action {
            Action::Call(request) => {
                assert!(machine.awaiting_reply());
                let reply = server.handle(&request);
                machine.on_reply(reply)
            }
            Action::ReadEnv(name) => {
                assert!(machine.awaiting_env());
                machine.on_env(env.get(&name).cloned())
            }
            Action::Finish(result) => return (machine.into_state(), result),
        };
    }
}

fn registry_get(r: &Registry<String>, key: &str) -> Option<String> {
    r.get(&s(key)).cloned()
}

fn calls_of(server: &FakeChirpStack) -> Vec<String> {
    server.calls.iter().map(|(m, p)| format!("{m:?} {p}")).collect()
}

#[test]
fn grpc_creates_and_updates_full_plan_without_duplicates() {
    let mut server = FakeChirpStack::default();
    let env = BTreeMap::new();
    let mut changed = plan();
    let (state, result) = run(plan(), ProvisionState::new(), &mut server, &env);
    assert!(result.is_ok());
    assert_eq!(server.creates, 5);
    assert_eq!(server.gateways.len(), 1);
    let profile = server.profiles.values().next().unwrap();
    assert_eq!(profile.region, "AU915");
    assert_eq!(profile.region_config_id, "custom_au915");
    let tags = &server.devices.values().next().unwrap().1;
    assert!(tags.contains(&(s("source"), s("simulator"))));

    changed.gateways[0].name = s("Updated gateway");
    changed.devices[0].tags.insert(s("stage"), s("fog"));
    changed.device_profiles[0].description = s("Updated profile");
    let first_tenant = state.tenant_id.clone();
    let first_profiles = registry_get(&state.device_profiles, "radio");
    let first_applications = registry_get(&state.applications, "app");
    let first_gateways = registry_get(&state.gateways, "0102030405060708");
    let (second, result) = run(changed, state, &mut server, &env);
    assert!(result.is_ok());
    assert_eq!(server.creates, 5);
    assert_eq!(server.updates, 5);
    assert_eq!(server.gateways.values().next().unwrap(), "Updated gateway");
    assert!(server.devices.values().next().unwrap().1.contains(&(s("stage"), s("fog"))));
    assert_eq!(server.profiles.values().next().unwrap().description, "Updated profile");
    assert_eq!(second.tenant_id, first_tenant);
    assert_eq!(registry_get(&second.device_profiles, "radio"), first_profiles);
    assert_eq!(registry_get(&second.applications, "app"), first_applications);
    assert_eq!(registry_get(&second.gateways, "0102030405060708"), first_gateways);
    let device = second.devices.get(&s("1122334455667788")).unwrap();
    assert_eq!(device.dev_eui, "1122334455667788");

    // Re-discovery without local state must reuse names and EUIs too.
    let (recovered, result) = run(plan_updated(), ProvisionState::new(), &mut server, &env);
    assert!(result.is_ok());
    assert_eq!(server.creates, 5);
    assert_eq!(recovered.tenant_id, second.tenant_id);
}

fn plan_updated() -> Plan {
    let mut plan = plan();
    plan.gateways[0].name = s("Updated gateway");
    plan.devices[0].tags.insert(s("stage"), s("fog"));
    plan.device_profiles[0].description = s("Updated profile");
    plan
}

#[test]
fn unsupported_region_prevents_all_remote_mutation() {
    let mut server = FakeChirpStack::default();
    let mut plan = plan();
    plan.device_profiles[0].region = Some(s("invalid"));
    let (state, result) = run(plan, ProvisionState::new(), &mut server, &BTreeMap::new());
    assert!(result.is_err());
    assert!(server.calls.is_empty());
    assert!(state.tenant_id.is_none());
}

#[test]
fn grpc_paginates_all_named_collections_and_reuses_last_page() {
    let mut server = FakeChirpStack::default();
    let mut plan = plan();
    plan.gateways.clear();
    plan.devices.clear();
    for n in 0..101 {
        let id = format!("{n:03}");
        let pick = |named: &str| if n == 100 { s(named) } else { id.clone() };
        server.tenants.insert(id.clone(), pick("DATUM Lab"));
        server.applications.insert(id.clone(), (s("100"), pick("Sensors")));
        server.profiles.insert(
            id.clone(),
            Profile { tenant_id: s("100"), name: pick("Brazilian lab"), ..Profile::default() },
        );
    }
    let (state, result) = run(plan, ProvisionState::new(), &mut server, &BTreeMap::new());
    assert!(result.is_ok());
    assert_eq!(state.tenant_id.as_deref(), Some("100"));
    assert_eq!(registry_get(&state.applications, "app").as_deref(), Some("100"));
    assert_eq!(registry_get(&state.device_profiles, "radio").as_deref(), Some("100"));
    assert_eq!(server.creates, 0);
    for service in ["Tenant", "Application", "DeviceProfile"] {
        let offsets: Vec<u64> =
            server.offsets.iter().filter(|(name, _)| name == service).map(|(_, offset)| *offset).collect();
        assert_eq!(offsets, vec![0, 100]);
    }
}

#[test]
fn grpc_errors_do_not_trigger_create() {
    let mut server = FakeChirpStack::default();
    for (code, line) in [(403, "403 Forbidden"), (503, "503 Service Unavailable"), (401, "401 Unauthorized")] {
        server.fail_status = Some((code, line));
        server.calls.clear();
        let (_, result) = run(plan(), ProvisionState::new(), &mut server, &BTreeMap::new());
        assert!(result.is_err());
        assert_eq!(server.creates, 0);
        assert!(!server.calls.iter().any(|(m, _)| *m == Method::Post));
    }
    // A failed probe of a gateway is no absence: nothing is created for it.
    let mut server = FakeChirpStack::default();
    server.fail_prefix = Some((Method::Get, "/api/gateways"));
    let (_, result) = run(plan(), ProvisionState::new(), &mut server, &BTreeMap::new());
    match result {
        Err(e) => assert_eq!(e.message(), "ChirpStack API 503 Service Unavailable /api/gateways/0102030405060708: "),
        Ok(()) => panic!("a failed probe is an error"),
    }
    assert!(!server.calls.iter().any(|(m, p)| *m == Method::Post && p.starts_with("/api/gateways")));
    assert!(server.gateways.is_empty());
}

#[test]
fn failed_listing_creates_nothing() {
    let mut server = FakeChirpStack::default();
    server.fail_all = true;
    let (state, result) = run(plan(), ProvisionState::new(), &mut server, &BTreeMap::new());
    assert_eq!(result.unwrap_err().message(), "connection refused");
    assert_eq!(calls_of(&server), vec!["Get /api/tenants?limit=100&offset=0"]);
    assert!(state.tenant_id.is_none());
    assert!(state.last_reconciled_at.is_none());
}

#[test]
fn reconcile_order_and_first_calls() {
    let mut server = FakeChirpStack::default();
    let (_, result) = run(plan(), ProvisionState::new(), &mut server, &BTreeMap::new());
    assert!(result.is_ok());
    assert_eq!(
        calls_of(&server),
        vec![
            "Get /api/tenants?limit=100&offset=0",
            "Post /api/tenants",
            "Get /api/device-profiles?tenant_id=tenant-0&limit=100&offset=0",
            "Post /api/device-profiles",
            "Get /api/applications?tenant_id=tenant-0&limit=100&offset=0",
            "Post /api/applications",
            "Get /api/gateways/0102030405060708",
            "Post /api/gateways",
            "Get /api/devices/1122334455667788",
            "Post /api/devices",
        ]
    );
}

#[test]
fn recorded_ids_are_confirmed_then_updated_in_place() {
    let mut server = FakeChirpStack::default();
    let env = BTreeMap::new();
    let (state, _) = run(plan(), ProvisionState::new(), &mut server, &env);
    server.calls.clear();
    let (_, result) = run(plan(), state, &mut server, &env);
    assert!(result.is_ok());
    let calls = calls_of(&server);
    assert_eq!(calls[0], "Get /api/tenants/tenant-0");
    assert_eq!(calls[1], "Put /api/tenants/tenant-0");
    assert_eq!(calls[2], "Get /api/device-profiles/profile-0");
    assert_eq!(calls[3], "Put /api/device-profiles/profile-0");
    assert!(server.calls.iter().all(|(m, _)| *m != Method::Post));
}

#[test]
fn stale_recorded_id_falls_back_to_search_by_name() {
    let mut server = FakeChirpStack::default();
    let env = BTreeMap::new();
    let (_, _) = run(plan(), ProvisionState::new(), &mut server, &env);
    let mut stale = ProvisionState::new();
    stale.tenant_id = Some(s("gone"));
    server.calls.clear();
    let (state, result) = run(plan(), stale, &mut server, &env);
    assert!(result.is_ok());
    assert_eq!(state.tenant_id.as_deref(), Some("tenant-0"));
    let calls = calls_of(&server);
    assert_eq!(calls[0], "Get /api/tenants/gone");
    assert_eq!(calls[1], "Get /api/tenants?limit=100&offset=0");
    assert_eq!(calls[2], "Put /api/tenants/tenant-0");
    assert_eq!(server.creates, 5);
}

#[test]
fn unconfirmed_id_falls_back_to_search_by_name() {
    let mut server = FakeChirpStack::default();
    let env = BTreeMap::new();
    let (state, _) = run(plan(), ProvisionState::new(), &mut server, &env);
    server.fail_prefix = Some((Method::Get, "/api/tenants/"));
    server.calls.clear();
    let (after, result) = run(plan(), state, &mut server, &env);
    assert!(result.is_ok());
    let calls = calls_of(&server);
    assert_eq!(calls[0], "Get /api/tenants/tenant-0");
    assert_eq!(calls[1], "Get /api/tenants?limit=100&offset=0");
    assert_eq!(calls[2], "Put /api/tenants/tenant-0");
    assert_eq!(server.creates, 5);
    assert_eq!(after.tenant_id.as_deref(), Some("tenant-0"));
}

#[test]
fn device_keys_are_read_from_the_environment_and_applied() {
    let mut server = FakeChirpStack::default();
    let mut plan_with_keys = plan();
    plan_with_keys.devices[0].app_key_env = Some(s("APP_KEY_VAR"));
    plan_with_keys.devices[0].nwk_key_env = Some(s("NWK_KEY_VAR"));
    let mut env = BTreeMap::new();
    env.insert(s("APP_KEY_VAR"), s("00000000000000000000000000000002"));
    let (state, result) = run(plan_with_keys, ProvisionState::new(), &mut server, &env);
    assert!(result.is_ok());
    assert_eq!(server.creates, 6);
    assert_eq!(server.keys["1122334455667788"], "00000000000000000000000000000002");
    assert!(state.devices.get(&s("1122334455667788")).unwrap().keys_applied);

    // Without keys in the environment the recorded flag stays.
    let (state2, result) = run(plan(), state, &mut server, &BTreeMap::new());
    assert!(result.is_ok());
    assert!(state2.devices.get(&s("1122334455667788")).unwrap().keys_applied);
    assert_eq!(server.creates, 6);
}

#[test]
fn device_keys_are_updated_when_they_exist() {
    let mut server = FakeChirpStack::default();
    let mut with_keys = plan();
    with_keys.devices[0].app_key_env = Some(s("APP"));
    let mut env = BTreeMap::new();
    env.insert(s("APP"), s("00000000000000000000000000000002"));
    let (state, _) = run(with_keys, ProvisionState::new(), &mut server, &env);
    env.insert(s("APP"), s("00000000000000000000000000000003"));
    let mut again = plan();
    again.devices[0].app_key_env = Some(s("APP"));
    let (_, result) = run(again, state, &mut server, &env);
    assert!(result.is_ok());
    assert_eq!(server.keys["1122334455667788"], "00000000000000000000000000000003");
    assert_eq!(server.creates, 6);
}

#[test]
fn key_values_do_not_change_the_recorded_state() {
    let mut with_keys = plan();
    with_keys.devices[0].app_key_env = Some(s("APP"));
    let mut env1 = BTreeMap::new();
    env1.insert(s("APP"), s("00000000000000000000000000000001"));
    let mut env2 = BTreeMap::new();
    env2.insert(s("APP"), s("00000000000000000000000000000009"));
    let mut server1 = FakeChirpStack::default();
    let mut server2 = FakeChirpStack::default();
    let (a, _) = run(with_keys, ProvisionState::new(), &mut server1, &env1);
    let mut again = plan();
    again.devices[0].app_key_env = Some(s("APP"));
    let (b, _) = run(again, ProvisionState::new(), &mut server2, &env2);
    assert_eq!(a.tenant_id, b.tenant_id);
    assert_eq!(calls_of(&server1), calls_of(&server2));
    assert_ne!(server1.keys["1122334455667788"], server2.keys["1122334455667788"]);
    let da = a.devices.get(&s("1122334455667788")).unwrap();
    let db = b.devices.get(&s("1122334455667788")).unwrap();
    assert_eq!(da.application_id, db.application_id);
    assert_eq!(da.device_profile_id, db.device_profile_id);
    assert_eq!(da.keys_applied, db.keys_applied);
}

#[test]
fn invalid_plan_makes_no_call() {
    let mut server = FakeChirpStack::default();
    let mut bad = plan();
    bad.devices[0].application = s("missing");
    let (state, result) = run(bad, ProvisionState::new(), &mut server, &BTreeMap::new());
    assert!(server.calls.is_empty());
    assert!(state.last_reconciled_at.is_none());
    let message = result.unwrap_err().message();
    assert_eq!(message, "device 1122334455667788 references unknown application missing");

    let mut no_tenant = plan();
    no_tenant.tenant = None;
    let (_, result) = run(no_tenant, ProvisionState::new(), &mut server, &BTreeMap::new());
    assert_eq!(result.unwrap_err().message(), "plan requires a tenant");
    assert!(server.calls.is_empty());
}

#[test]
fn failed_write_stops_the_reconciliation() {
    let mut server = FakeChirpStack::default();
    server.fail_prefix = Some((Method::Post, "/api/tenants"));
    let (state, result) = run(plan(), ProvisionState::new(), &mut server, &BTreeMap::new());
    assert_eq!(result.unwrap_err().message(), "ChirpStack API 503 Service Unavailable /api/tenants: ");
    // The listing is complete and does not name the tenant, so it is created;
    // that fails and nothing follows.
    assert_eq!(server.calls.len(), 2);
    assert_eq!(server.calls[1].0, Method::Post);
    assert!(state.tenant_id.is_none());
    assert!(state.last_reconciled_at.is_none());
}

#[test]
fn create_reply_without_id_stops_the_reconciliation() {
    let mut server = FakeChirpStack::default();
    server.create_reply = CreateReply::NoId;
    let (state, result) = run(plan(), ProvisionState::new(), &mut server, &BTreeMap::new());
    assert_eq!(result.unwrap_err().message(), "ChirpStack create tenant response did not contain an id");
    assert!(state.tenant_id.is_none());
    assert_eq!(server.calls.len(), 2);

    let mut server = FakeChirpStack::default();
    server.create_reply = CreateReply::NestedId;
    let (state, result) = run(plan(), ProvisionState::new(), &mut server, &BTreeMap::new());
    assert!(result.is_ok());
    assert_eq!(state.tenant_id.as_deref(), Some("tenant-0"));
}

#[test]
fn recorded_identifiers_are_kept_on_failure() {
    let mut server = FakeChirpStack::default();
    let (state, _) = run(plan(), ProvisionState::new(), &mut server, &BTreeMap::new());
    server.fail_all = true;
    let (after, result) = run(plan(), state, &mut server, &BTreeMap::new());
    assert!(result.is_err());
    assert_eq!(after.tenant_id.as_deref(), Some("tenant-0"));
    assert_eq!(registry_get(&after.applications, "app").as_deref(), Some("application-0"));
    assert!(after.devices.get(&s("1122334455667788")).is_some());
}

#[test]
fn gateways_and_devices_are_recorded_under_their_own_ids() {
    let mut server = FakeChirpStack::default();
    let (state, _) = run(plan(), ProvisionState::new(), &mut server, &BTreeMap::new());
    for (k, v) in state.gateways.entries() {
        assert_eq!(k, v);
    }
    for (k, d) in state.devices.entries() {
        assert_eq!(k, &d.dev_eui);
    }
}

#[test]
fn a_listing_that_ends_early_is_no_absence() {
    let mut server = FakeChirpStack::default();
    server.inflate_total = 1;
    let (state, result) = run(plan(), ProvisionState::new(), &mut server, &BTreeMap::new());
    assert!(matches!(result, Err(ProvisionError::IncompleteListing)));
    assert_eq!(server.creates, 0);
    assert_eq!(calls_of(&server), vec!["Get /api/tenants?limit=100&offset=0"]);
    assert!(state.tenant_id.is_none());
}
