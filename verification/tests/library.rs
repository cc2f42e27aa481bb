use chirpstack_provisioner::config::{
    default_bind, default_timeout, default_token_env, ChirpStackDocument, Config, ConfigDocument,
    RequiredSetting, ServerConfig, ServerDocument,
};
use chirpstack_provisioner::error::{not_found, ApiError, ProvisionError, RequestError, Resource};
use chirpstack_provisioner::json::{created_id, find_result_id, Json};
use chirpstack_provisioner::listing::{append_page, decimal_value_of, page_items_of, page_total_of};
use chirpstack_provisioner::region::{parse_region, region_text, Region};
use chirpstack_provisioner::plan::{
    default_plan_version, default_region, default_true, eq_ignore_ascii_case, validate_plan,
    ApplicationSpec, DeviceProfileSpec, DeviceSpec, Plan, TenantSpec,
};
use chirpstack_provisioner::registry::Registry;
use chirpstack_provisioner::request::{
    blank, decimal_of, device_body_of, device_keys_body_of, device_profile_body_of, endpoint_base,
    health_body_of, interpret_parsed_reply, interpret_reply, request_url, tenant_body_of, tenant_page_of,
    tenant_scoped_page_of,
};

fn s(v: &str) -> String {
    v.to_string()
}

fn device(dev_eui: &str, application: &str, device_profile: &str) -> DeviceSpec {
    DeviceSpec {
        dev_eui: s(dev_eui),
        name: s("dev"),
        application: s(application),
        device_profile: s(device_profile),
        description: String::new(),
        join_eui: None,
        app_key_env: None,
        nwk_key_env: None,
        tags: Registry::new(),
    }
}

fn tenant(name: &str) -> TenantSpec {
    TenantSpec {
        name: s(name),
        description: String::new(),
        can_have_gateways: true,
        max_gateway_count: 0,
        max_device_count: 0,
    }
}

fn profile(key: &str) -> DeviceProfileSpec {
    DeviceProfileSpec {
        key: s(key),
        name: s(key),
        description: String::new(),
        region: Some(s("eu868")),
        region_config_id: default_region(),
        supports_otaa: true,
        supports_class_b: false,
        supports_class_c: false,
        uplink_interval: 0,
        device_status_req_interval: 0,
    }
}

fn application(key: &str) -> ApplicationSpec {
    ApplicationSpec { key: s(key), name: s(key), description: String::new() }
}

#[test]
fn unknown_references_are_rejected_before_device_calls() {
    let mut plan = Plan::empty();
    plan.tenant = Some(TenantSpec {
        name: "tenant".into(),
        description: String::new(),
        can_have_gateways: true,
        max_gateway_count: 0,
        max_device_count: 0,
    });
    plan.devices = vec![DeviceSpec {
        dev_eui: "0102030405060708".into(),
        name: "dev".into(),
        application: "missing".into(),
        device_profile: "missing".into(),
        description: String::new(),
        join_eui: None,
        app_key_env: None,
        nwk_key_env: None,
        tags: Registry::new(),
    }];
    let error = validate_plan(&plan).unwrap_err().message();
    assert!(error.contains("unknown application"));
}

#[test]
fn validation_reports_the_first_fault_in_order() {
    let mut plan = Plan::empty();
    assert_eq!(validate_plan(&plan).unwrap_err().message(), "plan requires a tenant");
    plan.tenant = Some(tenant("t"));
    assert!(validate_plan(&plan).is_ok());
    plan.applications.push(application("app"));
    plan.device_profiles.push(profile("radio"));
    plan.devices.push(device("01", "app", "radio"));
    assert!(validate_plan(&plan).is_ok());
    plan.devices.push(device("02", "app", "other"));
    plan.devices.push(device("03", "nope", "radio"));
    assert_eq!(
        validate_plan(&plan).unwrap_err().message(),
        "device 02 references unknown device profile other"
    );
}

#[test]
fn registering_a_device_replaces_the_same_dev_eui_ignoring_case() {
    let mut plan = Plan::empty();
    plan.devices.push(device("aabbccdd00112233", "a", "p"));
    plan.devices.push(device("0000000000000001", "a", "p"));
    plan.register_device(device("AABBCCDD00112233", "b", "q"));
    assert_eq!(plan.devices.len(), 2);
    assert_eq!(plan.devices[0].dev_eui, "AABBCCDD00112233");
    assert_eq!(plan.devices[0].application, "b");
    plan.register_device(device("0000000000000002", "a", "p"));
    assert_eq!(plan.devices.len(), 3);
    assert_eq!(plan.devices[2].dev_eui, "0000000000000002");
    // Registering the same device again is an update, not a duplicate.
    plan.register_device(device("0000000000000002", "c", "p"));
    assert_eq!(plan.devices.len(), 3);
    assert_eq!(plan.devices[2].application, "c");
}

#[test]
fn ascii_case_is_ignored_but_nothing_else() {
    assert!(eq_ignore_ascii_case(&s("AbC1"), &s("aBc1")));
    assert!(!eq_ignore_ascii_case(&s("abc"), &s("abd")));
    assert!(!eq_ignore_ascii_case(&s("abc"), &s("abcd")));
    assert!(eq_ignore_ascii_case(&s("Ä"), &s("Ä")));
    assert!(!eq_ignore_ascii_case(&s("Ä"), &s("ä")));
    assert!(!eq_ignore_ascii_case(&s("@"), &s("`")));
}

#[test]
fn defaults_match_the_documented_values() {
    assert_eq!(default_bind(), "0.0.0.0:8085");
    assert_eq!(default_token_env(), "CHIRPSTACK_API_TOKEN");
    assert_eq!(default_timeout(), 15);
    assert_eq!(default_plan_version(), "v1");
    assert!(default_true());
    assert_eq!(default_region(), "eu868");
    assert_eq!(ServerConfig::default().bind, "0.0.0.0:8085");
}

fn document() -> ConfigDocument {
    ConfigDocument {
        server: None,
        chirpstack: Some(ChirpStackDocument {
            endpoint: Some(s("http://chirpstack:8090/")),
            api_token_env: None,
            timeout_seconds: None,
        }),
        plan_path: Some(s("/data/desired.yaml")),
        state_path: Some(s("/data/state.json")),
    }
}

#[test]
fn config_takes_defaults_for_missing_settings() {
    let config = Config::load(document()).unwrap();
    assert_eq!(config.server.bind, "0.0.0.0:8085");
    assert_eq!(config.chirpstack.endpoint, "http://chirpstack:8090/");
    assert_eq!(config.chirpstack.api_token_env, "CHIRPSTACK_API_TOKEN");
    assert_eq!(config.chirpstack.timeout_seconds, 15);
    assert_eq!(config.plan_path, "/data/desired.yaml");
    assert_eq!(config.state_path, "/data/state.json");

    let mut doc = document();
    doc.server = Some(ServerDocument { bind: Some(s("127.0.0.1:9000")) });
    doc.chirpstack.as_mut().unwrap().timeout_seconds = Some(3);
    doc.chirpstack.as_mut().unwrap().api_token_env = Some(s("TOKEN"));
    let config = Config::load(doc).unwrap();
    assert_eq!(config.server.bind, "127.0.0.1:9000");
    assert_eq!(config.chirpstack.timeout_seconds, 3);
    assert_eq!(config.chirpstack.api_token_env, "TOKEN");

    let mut doc = document();
    doc.server = Some(ServerDocument { bind: None });
    assert_eq!(Config::load(doc).unwrap().server.bind, "0.0.0.0:8085");
}

#[test]
fn config_requires_chirpstack_endpoint_and_paths() {
    let mut doc = document();
    doc.chirpstack = None;
    let err = Config::load(doc).unwrap_err();
    assert_eq!(err.missing, RequiredSetting::Chirpstack);
    assert_eq!(err.message(), "missing field `chirpstack`");
    let mut doc = document();
    doc.chirpstack.as_mut().unwrap().endpoint = None;
    assert_eq!(Config::load(doc).unwrap_err().missing, RequiredSetting::Endpoint);
    let mut doc = document();
    doc.plan_path = None;
    assert_eq!(Config::load(doc).unwrap_err().message(), "missing field `plan_path`");
    let mut doc = document();
    doc.state_path = None;
    assert_eq!(Config::load(doc).unwrap_err().missing, RequiredSetting::StatePath);
}

#[test]
fn endpoint_loses_trailing_slashes() {
    assert_eq!(endpoint_base(&s("http://cs:8090///")), "http://cs:8090");
    assert_eq!(endpoint_base(&s("http://cs:8090")), "http://cs:8090");
    assert_eq!(endpoint_base(&s("/")), "");
    assert_eq!(request_url(&s("http://cs:8090"), &s("/api/tenants")), "http://cs:8090/api/tenants");
}

#[test]
fn replies_are_interpreted_by_status_and_body() {
    match interpret_reply(404, s("404 Not Found"), s("/api/x"), s("nope")) {
        Err(e) => {
            assert_eq!(e.message(), "ChirpStack API 404 Not Found /api/x: nope");
            assert!(not_found(&e));
        }
        Ok(_) => panic!("an error status is an error"),
    }
    match interpret_reply(503, s("503 Service Unavailable"), s("/api/x"), s("")) {
        Err(e) => assert!(!not_found(&e)),
        Ok(_) => panic!("an error status is an error"),
    }
    match interpret_reply(200, s("200 OK"), s("/api/x"), s(" \n\t")) {
        Ok(Json::Object(fields)) => assert!(fields.is_empty()),
        _ => panic!("a blank body is an empty object"),
    }
    match interpret_reply(200, s("200 OK"), s("/api/x"), s("{oops")) {
        Err(e) => assert_eq!(e.message(), "invalid ChirpStack JSON from /api/x"),
        Ok(_) => panic!("a body that is not JSON is an error"),
    }
    match interpret_reply(201, s("201 Created"), s("/api/x"), s("true")) {
        Ok(Json::Bool(true)) => {}
        _ => panic!("the parsed body is the answer"),
    }
    match interpret_reply(200, s("200 OK"), s("/api/x"), s("{\"totalCount\": 101, \"result\": [{\"id\": \"7\", \"name\": \"a\"}]}")) {
        Ok(reply) => {
            assert!(matches!(inner(&reply, "totalCount"), Json::Number(n) if n == "101"));
            assert_eq!(page_total_of(&reply), Some(101));
            assert_eq!(find_result_id(&reply, &s("a")), Some(s("7")));
        }
        Err(_) => panic!("a JSON body is read"),
    }
    assert!(interpret_reply(300, s("300"), s("/"), s("")).is_err());
    assert!(interpret_reply(199, s("199"), s("/"), s("")).is_err());
}

#[test]
fn parsed_replies_are_interpreted_by_status_and_body() {
    match interpret_parsed_reply(404, s("404 Not Found"), s("/api/x"), s("nope"), None) {
        Err(e) => assert_eq!(e.message(), "ChirpStack API 404 Not Found /api/x: nope"),
        Ok(_) => panic!("an error status is an error"),
    }
    match interpret_parsed_reply(200, s("200 OK"), s("/api/x"), s(" \n\t"), Some(Json::Null)) {
        Ok(Json::Object(fields)) => assert!(fields.is_empty()),
        _ => panic!("a blank body is an empty object"),
    }
    match interpret_parsed_reply(200, s("200 OK"), s("/api/x"), s("{oops"), None) {
        Err(e) => assert_eq!(e.message(), "invalid ChirpStack JSON from /api/x"),
        Ok(_) => panic!("a body that is not JSON is an error"),
    }
    match interpret_parsed_reply(201, s("201 Created"), s("/api/x"), s("true"), Some(Json::Bool(true))) {
        Ok(Json::Bool(true)) => {}
        _ => panic!("the parsed body is the answer"),
    }
    assert!(interpret_parsed_reply(300, s("300"), s("/"), s(""), Some(Json::Null)).is_err());
}

#[test]
fn white_space_is_blank_and_nothing_else() {
    assert!(blank(&s("")));
    assert!(blank(&s(" \t\r\n\u{a0}\u{3000}\u{2028}")));
    assert!(!blank(&s("{}")));
    assert!(!blank(&s(" x ")));
    assert!(!blank(&s("\u{200b}")));
}

fn plan_with_region(region: Option<&str>) -> Plan {
    let mut plan = Plan::empty();
    plan.tenant = Some(tenant("DATUM Lab"));
    let mut radio = profile("radio");
    radio.name = s("Brazilian lab");
    radio.region = region.map(s);
    radio.region_config_id = s("custom_au915");
    radio.uplink_interval = 60;
    plan.device_profiles.push(radio);
    plan.applications.push(ApplicationSpec { key: s("app"), name: s("Sensors"), description: String::new() });
    let mut d = device("1122334455667788", "app", "radio");
    d.name = s("Sensor");
    d.join_eui = Some(s("0000000000000000"));
    d.tags.insert(s("source"), s("simulator"));
    plan.devices.push(d);
    plan
}

#[test]
fn regions_are_explicit_and_invalid_plans_fail_before_rpc() {
    for value in ["eu868", "US915", "us915_0", "au915_7", "AS923_2", "as923-4"] {
        assert!(parse_region(value).is_ok(), "{value}");
    }
    for value in ["unknown", "us915_8", "au915_evil", ""] {
        assert!(parse_region(value).is_err(), "{value}");
    }
    let mut plan = plan_with_region(Some("AU915"));
    plan.device_profiles[0].region = None;
    assert!(validate_plan(&plan).is_err());
    plan.device_profiles[0].region = Some("AU915".into());
    assert!(validate_plan(&plan).is_ok());
}

#[test]
fn region_names_and_sub_bands() {
    assert!(matches!(parse_region("AU915"), Ok(Region::Au915)));
    assert!(matches!(parse_region("au915_0"), Ok(Region::Au915)));
    assert!(matches!(parse_region("as923-4"), Ok(Region::As923_4)));
    assert!(matches!(parse_region("cn470_11"), Ok(Region::Cn470)));
    assert!(matches!(parse_region("ISM2400"), Ok(Region::Ism2400)));
    for value in ["cn470_12", "us915_", "us915_01", "us915__0", "eu868 ", "eu_868", "au915-8"] {
        assert!(parse_region(value).is_err(), "{value}");
    }
    match parse_region("mars") {
        Err(e) => assert_eq!(e.region, "mars"),
        Ok(_) => panic!("no such region"),
    }
    assert_eq!(region_text(Region::As923_2), "AS923_2");
    assert_eq!(region_text(Region::Eu868), "EU868");
}

#[test]
fn region_faults_are_reported_by_profile() {
    assert_eq!(
        validate_plan(&plan_with_region(None)).unwrap_err().message(),
        "device profile radio states no region"
    );
    assert_eq!(
        validate_plan(&plan_with_region(Some("invalid"))).unwrap_err().message(),
        "device profile radio has unsupported region invalid"
    );
    // A profile's region is checked before the devices.
    let mut plan = plan_with_region(Some("invalid"));
    plan.devices[0].application = s("missing");
    assert!(matches!(validate_plan(&plan), Err(ProvisionError::UnsupportedRegion { .. })));
}

#[test]
fn the_profile_body_carries_its_region() {
    let plan = plan_with_region(Some("au915_3"));
    let body = device_profile_body_of(&plan.device_profiles[0], &s("t1"), None);
    let p = inner(&body, "device_profile");
    assert!(matches!(inner(p, "region"), Json::Str(r) if r == "AU915"));
    assert!(matches!(inner(p, "region_config_id"), Json::Str(r) if r == "custom_au915"));
    assert!(matches!(inner(p, "tenant_id"), Json::Str(r) if r == "t1"));
}

#[test]
fn validation_is_monotone_on_an_example() {
    let plan = plan_with_region(Some("eu868"));
    assert!(validate_plan(&plan).is_ok());
    let mut more = plan_with_region(Some("eu868"));
    more.applications.push(application("extra"));
    more.devices.clear();
    assert!(validate_plan(&more).is_ok());
}

#[test]
fn incomplete_pagination_is_not_treated_as_resource_absence() {
    let mut result = vec![Json::Object(vec![(s("id"), Json::Str(s("1")))])];
    assert!(append_page(&mut result, vec![], 2).is_err());
    assert_eq!(result.len(), 1);
    assert!(append_page(&mut result, vec![Json::Object(vec![(s("id"), Json::Str(s("2")))])], 2).unwrap());
    assert_eq!(result.len(), 2);
}

#[test]
fn pages_are_appended_until_the_total() {
    let mut result = Vec::new();
    assert!(!append_page(&mut result, vec![Json::Null, Json::Null], 3).unwrap());
    assert!(append_page(&mut result, vec![Json::Null], 3).unwrap());
    // An empty page once the total is reached is no fault.
    assert!(append_page(&mut result, vec![], 3).unwrap());
    assert!(matches!(append_page(&mut Vec::new(), vec![], 1), Err(ProvisionError::IncompleteListing)));
    assert!(append_page(&mut Vec::new(), vec![], 0).unwrap());
}

#[test]
fn page_totals_and_items_are_read() {
    let page = Json::Object(vec![(s("totalCount"), Json::Str(s("18446744073709551615")))]);
    assert_eq!(page_total_of(&page), Some(u64::MAX));
    let page = Json::Object(vec![(s("totalCount"), Json::Str(s("18446744073709551616")))]);
    assert_eq!(page_total_of(&page), None);
    let page = Json::Object(vec![(s("totalCount"), Json::Number(s("1.5")))]);
    assert_eq!(page_total_of(&page), None);
    assert_eq!(page_total_of(&Json::Object(vec![])), Some(0));
    assert_eq!(page_total_of(&Json::Object(vec![(s("totalCount"), Json::UInt(4))])), Some(4));
    assert_eq!(decimal_value_of(&s("0042")), Some(42));
    assert_eq!(decimal_value_of(&s("")), None);
    assert_eq!(decimal_value_of(&s("-1")), None);

    assert_eq!(page_items_of(Json::Object(vec![])).map(|v| v.len()), Some(0));
    let page = Json::Object(vec![
        (s("totalCount"), Json::UInt(2)),
        (s("result"), Json::Array(vec![Json::Null, Json::Bool(true)])),
    ]);
    assert_eq!(page_items_of(page).map(|v| v.len()), Some(2));
    assert!(page_items_of(Json::Object(vec![(s("result"), Json::Null)])).is_none());
}

#[test]
fn page_paths_carry_limit_and_offset() {
    assert_eq!(decimal_of(0), "0");
    assert_eq!(decimal_of(100), "100");
    assert_eq!(decimal_of(u64::MAX), "18446744073709551615");
    assert_eq!(tenant_page_of(100), "/api/tenants?limit=100&offset=100");
    assert_eq!(
        tenant_scoped_page_of("/api/applications", "t-1", 0),
        "/api/applications?tenant_id=t-1&limit=100&offset=0"
    );
}

fn entry(id: Option<&str>, name: &str) -> Json {
    let mut fields = vec![(s("name"), Json::Str(s(name)))];
    if let Some(id) = id {
        fields.push((s("id"), Json::Str(s(id))));
    }
    Json::Object(fields)
}

#[test]
fn list_replies_are_searched_by_name() {
    let reply = Json::Object(vec![
        (s("totalCount"), Json::UInt(3)),
        (s("result"), Json::Array(vec![entry(Some("1"), "a"), entry(Some("2"), "b"), entry(Some("3"), "b")])),
    ]);
    assert_eq!(find_result_id(&reply, &s("b")), Some(s("2")));
    assert_eq!(find_result_id(&reply, &s("c")), None);
    // The first entry with the name counts, even without an id.
    let reply = Json::Object(vec![(s("result"), Json::Array(vec![entry(None, "b"), entry(Some("3"), "b")]))]);
    assert_eq!(find_result_id(&reply, &s("b")), None);
    assert_eq!(find_result_id(&Json::Array(vec![]), &s("b")), None);
    assert_eq!(find_result_id(&Json::Object(vec![(s("result"), Json::Null)]), &s("b")), None);
}

#[test]
fn create_replies_give_the_id_at_the_top_or_inside() {
    let top = Json::Object(vec![(s("id"), Json::Str(s("x")))]);
    assert_eq!(created_id(&top, &s("tenant")), Some(s("x")));
    let inner = Json::Object(vec![(s("tenant"), Json::Object(vec![(s("id"), Json::Str(s("y")))]))]);
    assert_eq!(created_id(&inner, &s("tenant")), Some(s("y")));
    assert_eq!(created_id(&inner, &s("application")), None);
    let number = Json::Object(vec![(s("id"), Json::UInt(5))]);
    assert_eq!(created_id(&number, &s("tenant")), None);
}

fn keys(j: &Json) -> Vec<String> {
    match j {
        Json::Object(fields) => fields.iter().map(|(k, _)| k.clone()).collect(),
        _ => vec![],
    }
}

fn inner<'a>(j: &'a Json, key: &str) -> &'a Json {
    match j {
        Json::Object(fields) => &fields.iter().find(|(k, _)| k == key).unwrap().1,
        _ => panic!("not an object"),
    }
}

#[test]
fn bodies_carry_the_declared_values() {
    let body = tenant_body_of(&tenant("DATUM Lab"), Some(&s("t1")));
    let t = inner(&body, "tenant");
    assert_eq!(keys(t), vec!["name", "description", "can_have_gateways", "max_gateway_count", "max_device_count", "id"]);
    assert!(matches!(inner(t, "name"), Json::Str(n) if n == "DATUM Lab"));
    assert!(matches!(inner(t, "id"), Json::Str(n) if n == "t1"));
    let body = tenant_body_of(&tenant("x"), None);
    assert_eq!(keys(inner(&body, "tenant")).len(), 5);

    let mut d = device("11", "app", "radio");
    d.join_eui = Some(s("00"));
    d.tags.insert(s("source"), s("simulator"));
    let body = device_body_of(&d, &s("a1"), &s("p1"));
    let dv = inner(&body, "device");
    assert!(matches!(inner(dv, "application_id"), Json::Str(n) if n == "a1"));
    assert!(matches!(inner(dv, "device_profile_id"), Json::Str(n) if n == "p1"));
    assert!(matches!(inner(dv, "is_disabled"), Json::Bool(false)));
    assert!(matches!(inner(dv, "join_eui"), Json::Str(n) if n == "00"));
    assert!(matches!(inner(inner(dv, "tags"), "source"), Json::Str(n) if n == "simulator"));

    let body = device_keys_body_of(&s("11"), &Some(s("AK")), &None);
    let kv = inner(&body, "device_keys");
    assert!(matches!(inner(kv, "app_key"), Json::Str(n) if n == "AK"));
    assert!(matches!(inner(kv, "nwk_key"), Json::Str(n) if n.is_empty()));
}

#[test]
fn health_and_error_answers() {
    let body = health_body_of(true);
    assert!(matches!(inner(&body, "status"), Json::Str(n) if n == "ok"));
    assert!(matches!(inner(&body, "chirpstack_reachable"), Json::Bool(true)));
    let err = ApiError::from_error(&ProvisionError::MissingCreatedId { resource: Resource::DeviceProfile });
    assert_eq!(err.status(), 500);
    assert!(matches!(inner(&err.body(), "error"), Json::Str(m) if m == "ChirpStack create device_profile response did not contain an id"));
    let err = ApiError::new(s("boom"));
    assert!(matches!(inner(&err.body(), "error"), Json::Str(m) if m == "boom"));
}

#[test]
fn error_messages() {
    let cases = vec![
        (ProvisionError::UnknownDeviceProfile { dev_eui: s("d"), device_profile: s("p") }, "device d references unknown device profile p"),
        (ProvisionError::UnknownApplicationReference { application: s("a") }, "unknown application reference: a"),
        (ProvisionError::UnknownDeviceProfileReference { device_profile: s("p") }, "unknown device-profile reference: p"),
        (ProvisionError::MissingCreatedId { resource: Resource::Tenant }, "ChirpStack create tenant response did not contain an id"),
        (ProvisionError::Request(RequestError::Transport { message: s("timeout") }), "timeout"),
        (ProvisionError::Request(RequestError::InvalidJson { path: s("/p") }), "invalid ChirpStack JSON from /p"),
        (ProvisionError::IncompleteListing, "ChirpStack listing ended before its total count"),
        (ProvisionError::UnreadableListing, "ChirpStack listing page has no readable result or totalCount"),
        (
            ProvisionError::Request(RequestError::Api { code: 503, status: s("503 Service Unavailable"), path: s("/p"), body: s("down") }),
            "ChirpStack API 503 Service Unavailable /p: down",
        ),
    ];
    for (e, m) in cases {
        assert_eq!(e.message(), m);
    }
}

#[test]
fn registry_keeps_one_value_per_key() {
    let mut r: Registry<String> = Registry::new();
    assert!(r.get(&s("a")).is_none());
    r.insert(s("a"), s("1"));
    r.insert(s("b"), s("2"));
    r.insert(s("a"), s("3"));
    assert_eq!(r.entries().len(), 2);
    assert_eq!(r.get(&s("a")).map(String::as_str), Some("3"));
    assert_eq!(r.get(&s("b")).map(String::as_str), Some("2"));
}
