use vstd::prelude::*;
use crate::error::RequestError;
use crate::json::{fields_v, json_of_text, json_str, object, opt_json_view, parse_json, text, Json, JsonV};
use crate::plan::{
    opt_view, profile_region, region_is_known, ApplicationSpec, DeviceProfileSpec, DeviceSpec, GatewaySpec, TenantSpec,
};
use crate::region::{parse_region, region_label, region_text, Region};
use crate::registry::Registry;

verus! {

/// The HTTP methods that the provisioner uses.
#[derive(Clone, Copy, Debug, PartialEq, Eq)]
pub enum Method {
    Get,
    Post,
    Put,
}

/// A call of the ChirpStack HTTP API: a method, a path below the endpoint, and a
/// JSON body for writes.
#[derive(Debug)]
pub struct ApiRequest {
    pub method: Method,
    pub path: String,
    pub body: Option<Json>,
}

/// The model of a call.
pub struct RequestV {
    pub method: Method,
    pub path: Seq<char>,
    pub body: Option<JsonV>,
}

impl View for ApiRequest {
    type V = RequestV;

    open spec fn view(&self) -> RequestV {
        RequestV { method: self.method, path: self.path@, body: opt_json_view(self.body) }
    }
}

pub open spec fn get_v(path: Seq<char>) -> RequestV {
    RequestV { method: Method::Get, path, body: None }
}

pub open spec fn post_v(path: Seq<char>, body: JsonV) -> RequestV {
    RequestV { method: Method::Post, path, body: Some(body) }
}

pub open spec fn put_v(path: Seq<char>, body: JsonV) -> RequestV {
    RequestV { method: Method::Put, path, body: Some(body) }
}

/// A read of `path`.
pub fn get_request(path: String) -> (r: ApiRequest)
    ensures
        r@ == get_v(path@),
{
    ApiRequest { method: Method::Get, path, body: None }
}

/// A create at `path`.
pub fn post_request(path: String, body: Json) -> (r: ApiRequest)
    ensures
        r@ == post_v(path@, body@),
{
    ApiRequest { method: Method::Post, path, body: Some(body) }
}

/// A replacement at `path`.
pub fn put_request(path: String, body: Json) -> (r: ApiRequest)
    ensures
        r@ == put_v(path@, body@),
{
    ApiRequest { method: Method::Put, path, body: Some(body) }
}

// ---------------------------------------------------------------------------
// Paths
// ---------------------------------------------------------------------------

/// `a` followed by `b`.
pub fn concat(a: &str, b: &str) -> (r: String)
    ensures
        r@ == a@ + b@,
{
    let mut r = text(a);
    r.append(b);
    r
}

/// The path of the resource `id` in the collection at `base`: `<base>/<id>`.
pub open spec fn item_path(base: Seq<char>, id: Seq<char>) -> Seq<char> {
    base + "/"@ + id
}

/// The path of the resource `id` in the collection at `base`.
pub fn item_path_of(base: &str, id: &str) -> (r: String)
    ensures
        r@ == item_path(base@, id@),
{
    let mut r = text(base);
    r.append("/");
    r.append(id);
    r
}

/// The listing of the collection at `base` restricted to a tenant:
/// `<base>?tenant_id=<tenant>`.
pub open spec fn tenant_listing(base: Seq<char>, tenant_id: Seq<char>) -> Seq<char> {
    base + "?tenant_id="@ + tenant_id
}

pub fn tenant_listing_of(base: &str, tenant_id: &str) -> (r: String)
    ensures
        r@ == tenant_listing(base@, tenant_id@),
{
    let mut r = text(base);
    r.append("?tenant_id=");
    r.append(tenant_id);
    r
}

/// The digit `d` (below ten) as a character.
pub open spec fn digit_char(d: nat) -> char {
    if d == 0 {
        '0'
    } else if d == 1 {
        '1'
    } else if d == 2 {
        '2'
    } else if d == 3 {
        '3'
    } else if d == 4 {
        '4'
    } else if d == 5 {
        '5'
    } else if d == 6 {
        '6'
    } else if d == 7 {
        '7'
    } else if d == 8 {
        '8'
    } else {
        '9'
    }
}

/// The decimal text of `n`, without leading zeros.
pub open spec fn decimal_text(n: nat) -> Seq<char>
    decreases n,
{
    if n < 10 {
        seq![digit_char(n)]
    } else {
        decimal_text(n / 10).push(digit_char(n % 10))
    }
}

fn digit_str(d: u64) -> (r: &'static str)
    requires
        d < 10,
    ensures
        r@ == seq![digit_char(d as nat)],
{
    match d {
        0 => {
            proof { reveal_strlit("0"); }
            "0"
        },
        1 => {
            proof { reveal_strlit("1"); }
            "1"
        },
        2 => {
            proof { reveal_strlit("2"); }
            "2"
        },
        3 => {
            proof { reveal_strlit("3"); }
            "3"
        },
        4 => {
            proof { reveal_strlit("4"); }
            "4"
        },
        5 => {
            proof { reveal_strlit("5"); }
            "5"
        },
        6 => {
            proof { reveal_strlit("6"); }
            "6"
        },
        7 => {
            proof { reveal_strlit("7"); }
            "7"
        },
        8 => {
            proof { reveal_strlit("8"); }
            "8"
        },
        _ => {
            proof { reveal_strlit("9"); }
            "9"
        },
    }
}

/// The decimal text of `n`.
pub fn decimal_of(n: u64) -> (r: String)
    ensures
        r@ == decimal_text(n as nat),
    decreases n,
{
    if n < 10 {
        text(digit_str(n))
    } else {
        let mut r = decimal_of(n / 10);
        r.append(digit_str(n % 10));
        r
    }
}


/// The query of the page of a listing that starts at `offset`.
pub open spec fn page_query(offset: nat) -> Seq<char> {
    "limit=100&offset="@ + decimal_text(offset)
}

/// The page at `offset` of the listing of tenants.
pub open spec fn tenant_page(offset: nat) -> Seq<char> {
    "/api/tenants?"@ + page_query(offset)
}

/// The page at `offset` of the listing of the collection at `base` restricted to a tenant.
pub open spec fn tenant_scoped_page(base: Seq<char>, tenant_id: Seq<char>, offset: nat) -> Seq<char> {
    tenant_listing(base, tenant_id) + "&"@ + page_query(offset)
}

pub fn tenant_page_of(offset: u64) -> (r: String)
    ensures
        r@ == tenant_page(offset as nat),
{
    let mut r = text("/api/tenants?limit=100&offset=");
    r.append(decimal_of(offset).as_str());
    proof {
        reveal_strlit("/api/tenants?limit=100&offset=");
        reveal_strlit("/api/tenants?");
        reveal_strlit("limit=100&offset=");
    }
    assert(r@ =~= tenant_page(offset as nat));
    r
}

pub fn tenant_scoped_page_of(base: &str, tenant_id: &str, offset: u64) -> (r: String)
    ensures
        r@ == tenant_scoped_page(base@, tenant_id@, offset as nat),
{
    let mut r = tenant_listing_of(base, tenant_id);
    r.append("&limit=100&offset=");
    r.append(decimal_of(offset).as_str());
    proof {
        reveal_strlit("&limit=100&offset=");
        reveal_strlit("&");
        reveal_strlit("limit=100&offset=");
    }
    assert(r@ =~= tenant_scoped_page(base@, tenant_id@, offset as nat));
    r
}

/// The path of the keys of the device `dev_eui`.
pub open spec fn device_keys_path(dev_eui: Seq<char>) -> Seq<char> {
    "/api/devices/"@ + dev_eui + "/keys"@
}

pub fn device_keys_path_of(dev_eui: &str) -> (r: String)
    ensures
        r@ == device_keys_path(dev_eui@),
{
    let mut r = text("/api/devices/");
    r.append(dev_eui);
    r.append("/keys");
    r
}

// ---------------------------------------------------------------------------
// Bodies
// ---------------------------------------------------------------------------

/// `{"<wrapper>": {<fields>}}`
pub open spec fn wrapped(wrapper: Seq<char>, fields: Seq<(Seq<char>, JsonV)>) -> JsonV {
    JsonV::Object(seq![(wrapper, JsonV::Object(fields))])
}

/// The `id` field, where there is an identifier.
pub open spec fn id_field(id: Option<Seq<char>>) -> Seq<(Seq<char>, JsonV)> {
    match id {
        Some(id) => seq![("id"@, JsonV::Str(id))],
        None => Seq::empty(),
    }
}

fn wrap(wrapper: &str, fields: Vec<(String, Json)>) -> (j: Json)
    ensures
        j@ == wrapped(wrapper@, fields_v(fields@)),
{
    let inner = object(fields);
    let outer = vec![(text(wrapper), inner)];
    proof {
        assert(fields_v(outer@) =~= seq![(wrapper@, JsonV::Object(fields_v(fields@)))]);
    }
    object(outer)
}

fn push_id(fields: &mut Vec<(String, Json)>, id: Option<&String>)
    ensures
        fields_v(final(fields)@) == fields_v(old(fields)@) + id_field(
            match id {
                Some(s) => Some(s@),
                None => None,
            },
        ),
{
    match id {
        Some(s) => {
            fields.push((text("id"), json_str(s.as_str())));
            assert(fields_v(fields@) =~= fields_v(old(fields)@) + seq![("id"@, JsonV::Str(s@))]);
        },
        None => {
            assert(fields_v(fields@) =~= fields_v(old(fields)@) + Seq::<(Seq<char>, JsonV)>::empty());
        },
    }
}

/// The fields of a tenant.
pub open spec fn tenant_fields(spec: TenantSpec) -> Seq<(Seq<char>, JsonV)> {
    seq![
        ("name"@, JsonV::Str(spec.name@)),
        ("description"@, JsonV::Str(spec.description@)),
        ("can_have_gateways"@, JsonV::Bool(spec.can_have_gateways)),
        ("max_gateway_count"@, JsonV::UInt(spec.max_gateway_count as u64)),
        ("max_device_count"@, JsonV::UInt(spec.max_device_count as u64)),
    ]
}

/// The body that creates or (with its identifier) updates the tenant.
pub open spec fn tenant_body(spec: TenantSpec, id: Option<Seq<char>>) -> JsonV {
    wrapped("tenant"@, tenant_fields(spec) + id_field(id))
}

pub fn tenant_body_of(spec: &TenantSpec, id: Option<&String>) -> (j: Json)
    ensures
        j@ == tenant_body(
            *spec,
            match id {
                Some(s) => Some(s@),
                None => None,
            },
        ),
{
    let mut fields = vec![
        (text("name"), json_str(spec.name.as_str())),
        (text("description"), json_str(spec.description.as_str())),
        (text("can_have_gateways"), Json::Bool(spec.can_have_gateways)),
        (text("max_gateway_count"), Json::UInt(spec.max_gateway_count as u64)),
        (text("max_device_count"), Json::UInt(spec.max_device_count as u64)),
    ];
    assert(fields_v(fields@) =~= tenant_fields(*spec));
    push_id(&mut fields, id);
    wrap("tenant", fields)
}

/// The fields of a device profile of the tenant `tenant_id`.
pub open spec fn device_profile_fields(spec: DeviceProfileSpec, tenant_id: Seq<char>) -> Seq<
    (Seq<char>, JsonV),
> {
    seq![
        ("tenant_id"@, JsonV::Str(tenant_id)),
        ("name"@, JsonV::Str(spec.name@)),
        ("description"@, JsonV::Str(spec.description@)),
        ("region"@, JsonV::Str(region_label(profile_region(spec)))),
        ("region_config_id"@, JsonV::Str(spec.region_config_id@)),
        ("supports_otaa"@, JsonV::Bool(spec.supports_otaa)),
        ("supports_class_b"@, JsonV::Bool(spec.supports_class_b)),
        ("supports_class_c"@, JsonV::Bool(spec.supports_class_c)),
        ("uplink_interval"@, JsonV::UInt(spec.uplink_interval as u64)),
        ("device_status_req_interval"@, JsonV::UInt(spec.device_status_req_interval as u64)),
    ]
}

/// The body that creates or (with its identifier) updates a device profile.
pub open spec fn device_profile_body(
    spec: DeviceProfileSpec,
    tenant_id: Seq<char>,
    id: Option<Seq<char>>,
) -> JsonV {
    wrapped("device_profile"@, device_profile_fields(spec, tenant_id) + id_field(id))
}

pub fn device_profile_body_of(spec: &DeviceProfileSpec, tenant_id: &String, id: Option<&String>) -> (j: Json)
    requires
        region_is_known(*spec),
    ensures
        j@ == device_profile_body(
            *spec,
            tenant_id@,
            match id {
                Some(s) => Some(s@),
                None => None,
            },
        ),
{
    let region = match spec.region.as_ref() {
        Some(r) => match parse_region(r.as_str()) {
            Ok(x) => x,
            Err(_) => Region::Eu868,
        },
        None => Region::Eu868,
    };
    let mut fields = vec![
        (text("tenant_id"), json_str(tenant_id.as_str())),
        (text("name"), json_str(spec.name.as_str())),
        (text("description"), json_str(spec.description.as_str())),
        (text("region"), Json::Str(region_text(region))),
        (text("region_config_id"), json_str(spec.region_config_id.as_str())),
        (text("supports_otaa"), Json::Bool(spec.supports_otaa)),
        (text("supports_class_b"), Json::Bool(spec.supports_class_b)),
        (text("supports_class_c"), Json::Bool(spec.supports_class_c)),
        (text("uplink_interval"), Json::UInt(spec.uplink_interval as u64)),
        (text("device_status_req_interval"), Json::UInt(spec.device_status_req_interval as u64)),
    ];
    assert(fields_v(fields@) =~= device_profile_fields(*spec, tenant_id@));
    push_id(&mut fields, id);
    wrap("device_profile", fields)
}

/// The fields of an application of the tenant `tenant_id`.
pub open spec fn application_fields(spec: ApplicationSpec, tenant_id: Seq<char>) -> Seq<
    (Seq<char>, JsonV),
> {
    seq![
        ("name"@, JsonV::Str(spec.name@)),
        ("description"@, JsonV::Str(spec.description@)),
        ("tenant_id"@, JsonV::Str(tenant_id)),
    ]
}

/// The body that creates or (with its identifier) updates an application.
pub open spec fn application_body(
    spec: ApplicationSpec,
    tenant_id: Seq<char>,
    id: Option<Seq<char>>,
) -> JsonV {
    wrapped("application"@, application_fields(spec, tenant_id) + id_field(id))
}

pub fn application_body_of(spec: &ApplicationSpec, tenant_id: &String, id: Option<&String>) -> (j: Json)
    ensures
        j@ == application_body(
            *spec,
            tenant_id@,
            match id {
                Some(s) => Some(s@),
                None => None,
            },
        ),
{
    let mut fields = vec![
        (text("name"), json_str(spec.name.as_str())),
        (text("description"), json_str(spec.description.as_str())),
        (text("tenant_id"), json_str(tenant_id.as_str())),
    ];
    assert(fields_v(fields@) =~= application_fields(*spec, tenant_id@));
    push_id(&mut fields, id);
    wrap("application", fields)
}

/// The body that creates or updates a gateway of the tenant `tenant_id`.
pub open spec fn gateway_body(spec: GatewaySpec, tenant_id: Seq<char>) -> JsonV {
    wrapped(
        "gateway"@,
        seq![
            ("gateway_id"@, JsonV::Str(spec.gateway_id@)),
            ("name"@, JsonV::Str(spec.name@)),
            ("description"@, JsonV::Str(spec.description@)),
            ("tenant_id"@, JsonV::Str(tenant_id)),
            ("stats_interval"@, JsonV::UInt(spec.stats_interval as u64)),
        ],
    )
}

pub fn gateway_body_of(spec: &GatewaySpec, tenant_id: &String) -> (j: Json)
    ensures
        j@ == gateway_body(*spec, tenant_id@),
{
    let fields = vec![
        (text("gateway_id"), json_str(spec.gateway_id.as_str())),
        (text("name"), json_str(spec.name.as_str())),
        (text("description"), json_str(spec.description.as_str())),
        (text("tenant_id"), json_str(tenant_id.as_str())),
        (text("stats_interval"), Json::UInt(spec.stats_interval as u64)),
    ];
    assert(fields_v(fields@) =~= seq![
        ("gateway_id"@, JsonV::Str(spec.gateway_id@)),
        ("name"@, JsonV::Str(spec.name@)),
        ("description"@, JsonV::Str(spec.description@)),
        ("tenant_id"@, JsonV::Str(tenant_id@)),
        ("stats_interval"@, JsonV::UInt(spec.stats_interval as u64)),
    ]);
    wrap("gateway", fields)
}

/// The tags of a device as a JSON object.
pub open spec fn tags_json(tags: Registry<String>) -> JsonV {
    JsonV::Object(
        Seq::new(
            tags.entry_seq().len(),
            |i: int| (tags.entry_seq()[i].0@, JsonV::Str(tags.entry_seq()[i].1@)),
        ),
    )
}

fn tags_json_of(tags: &Registry<String>) -> (j: Json)
    ensures
        j@ == tags_json(*tags),
{
    let entries = tags.entries();
    let mut fields: Vec<(String, Json)> = Vec::new();
    let mut i: usize = 0;
    while i < entries.len()
        invariant
            i <= entries@.len(),
            entries@ == tags.entry_seq(),
            fields@.len() == i,
            forall|k: int|
                0 <= k < i ==> #[trigger] fields_v(fields@)[k] == (
                    entries@[k].0@,
                    JsonV::Str(entries@[k].1@),
                ),
        decreases entries@.len() - i,
    {
        let ghost before = fields@;
        fields.push((entries[i].0.clone(), json_str(entries[i].1.as_str())));
        proof {
            assert forall|k: int| 0 <= k < i + 1 implies #[trigger] fields_v(fields@)[k] == (
                entries@[k].0@,
                JsonV::Str(entries@[k].1@),
            ) by {
                if k < i {
                    assert(fields@[k] == before[k]);
                    assert(fields_v(before)[k] == (entries@[k].0@, JsonV::Str(entries@[k].1@)));
                }
            }
        }
        i = i + 1;
    }
    let j = object(fields);
    proof {
        if let JsonV::Object(f) = j@ {
            assert(f =~= Seq::new(
                tags.entry_seq().len(),
                |i: int| (tags.entry_seq()[i].0@, JsonV::Str(tags.entry_seq()[i].1@)),
            ));
        }
    }
    j
}

/// The join EUI field, where the device names one.
pub open spec fn join_eui_field(join_eui: Option<String>) -> Seq<(Seq<char>, JsonV)> {
    match join_eui {
        Some(e) => seq![("join_eui"@, JsonV::Str(e@))],
        None => Seq::empty(),
    }
}

/// The fields of a device of the application `application_id` with the profile `profile_id`.
pub open spec fn device_fields(spec: DeviceSpec, application_id: Seq<char>, profile_id: Seq<char>) -> Seq<
    (Seq<char>, JsonV),
> {
    seq![
        ("dev_eui"@, JsonV::Str(spec.dev_eui@)),
        ("name"@, JsonV::Str(spec.name@)),
        ("description"@, JsonV::Str(spec.description@)),
        ("application_id"@, JsonV::Str(application_id)),
        ("device_profile_id"@, JsonV::Str(profile_id)),
        ("is_disabled"@, JsonV::Bool(false)),
        ("skip_fcnt_check"@, JsonV::Bool(false)),
        ("tags"@, tags_json(spec.tags)),
    ] + join_eui_field(spec.join_eui)
}

/// The body that creates or updates a device: enabled, with the frame-counter check on.
pub open spec fn device_body(spec: DeviceSpec, application_id: Seq<char>, profile_id: Seq<char>) -> JsonV {
    wrapped("device"@, device_fields(spec, application_id, profile_id))
}

pub fn device_body_of(spec: &DeviceSpec, application_id: &String, profile_id: &String) -> (j: Json)
    ensures
        j@ == device_body(*spec, application_id@, profile_id@),
{
    let mut fields = vec![
        (text("dev_eui"), json_str(spec.dev_eui.as_str())),
        (text("name"), json_str(spec.name.as_str())),
        (text("description"), json_str(spec.description.as_str())),
        (text("application_id"), json_str(application_id.as_str())),
        (text("device_profile_id"), json_str(profile_id.as_str())),
        (text("is_disabled"), Json::Bool(false)),
        (text("skip_fcnt_check"), Json::Bool(false)),
        (text("tags"), tags_json_of(&spec.tags)),
    ];
    let ghost base = fields@;
    assert(fields_v(base) =~= seq![
        ("dev_eui"@, JsonV::Str(spec.dev_eui@)),
        ("name"@, JsonV::Str(spec.name@)),
        ("description"@, JsonV::Str(spec.description@)),
        ("application_id"@, JsonV::Str(application_id@)),
        ("device_profile_id"@, JsonV::Str(profile_id@)),
        ("is_disabled"@, JsonV::Bool(false)),
        ("skip_fcnt_check"@, JsonV::Bool(false)),
        ("tags"@, tags_json(spec.tags)),
    ]);
    match &spec.join_eui {
        Some(e) => {
            fields.push((text("join_eui"), json_str(e.as_str())));
            assert(fields_v(fields@) =~= fields_v(base) + seq![("join_eui"@, JsonV::Str(e@))]);
        },
        None => {
            assert(fields_v(fields@) =~= fields_v(base) + Seq::<(Seq<char>, JsonV)>::empty());
        },
    }
    wrap("device", fields)
}

/// A key's text, or the empty text where there is none.
pub open spec fn key_text(key: Option<Seq<char>>) -> Seq<char> {
    match key {
        Some(k) => k,
        None => Seq::empty(),
    }
}

/// The body that creates or updates the OTAA keys of a device; a missing key is sent empty.
pub open spec fn device_keys_body(dev_eui: Seq<char>, app_key: Option<Seq<char>>, nwk_key: Option<Seq<char>>) -> JsonV {
    wrapped(
        "device_keys"@,
        seq![
            ("dev_eui"@, JsonV::Str(dev_eui)),
            ("nwk_key"@, JsonV::Str(key_text(nwk_key))),
            ("app_key"@, JsonV::Str(key_text(app_key))),
        ],
    )
}

fn key_json(key: &Option<String>) -> (j: Json)
    ensures
        j@ == JsonV::Str(key_text(opt_view(*key))),
{
    match key {
        Some(k) => json_str(k.as_str()),
        None => Json::Str(String::new()),
    }
}

pub fn device_keys_body_of(dev_eui: &String, app_key: &Option<String>, nwk_key: &Option<String>) -> (j: Json)
    ensures
        j@ == device_keys_body(dev_eui@, opt_view(*app_key), opt_view(*nwk_key)),
{
    let fields = vec![
        (text("dev_eui"), json_str(dev_eui.as_str())),
        (text("nwk_key"), key_json(nwk_key)),
        (text("app_key"), key_json(app_key)),
    ];
    assert(fields_v(fields@) =~= seq![
        ("dev_eui"@, JsonV::Str(dev_eui@)),
        ("nwk_key"@, JsonV::Str(key_text(opt_view(*nwk_key)))),
        ("app_key"@, JsonV::Str(key_text(opt_view(*app_key)))),
    ]);
    wrap("device_keys", fields)
}

/// The body of the health answer: `{"status": "ok", "chirpstack_reachable": <reachable>}`.
pub open spec fn health_body(reachable: bool) -> JsonV {
    JsonV::Object(
        seq![("status"@, JsonV::Str("ok"@)), ("chirpstack_reachable"@, JsonV::Bool(reachable))],
    )
}

pub fn health_body_of(reachable: bool) -> (j: Json)
    ensures
        j@ == health_body(reachable),
{
    let fields = vec![
        (text("status"), json_str("ok")),
        (text("chirpstack_reachable"), Json::Bool(reachable)),
    ];
    assert(fields_v(fields@) =~= seq![
        ("status"@, JsonV::Str("ok"@)),
        ("chirpstack_reachable"@, JsonV::Bool(reachable)),
    ]);
    object(fields)
}

// ---------------------------------------------------------------------------
// Endpoint and replies
// ---------------------------------------------------------------------------

/// A text without the slashes at its end.
pub open spec fn without_trailing_slashes(s: Seq<char>) -> Seq<char>
    decreases s.len(),
{
    if s.len() > 0 && s.last() == '/' {
        without_trailing_slashes(s.drop_last())
    } else {
        s
    }
}

proof fn lemma_without_trailing_slashes(s: Seq<char>, k: int)
    requires
        0 <= k <= s.len(),
        forall|j: int| k <= j < s.len() ==> s[j] == '/',
        k == 0 || s[k - 1] != '/',
    ensures
        without_trailing_slashes(s) == s.subrange(0, k),
    decreases s.len(),
{
    if s.len() > k {
        lemma_without_trailing_slashes(s.drop_last(), k);
        assert(s.drop_last().subrange(0, k) =~= s.subrange(0, k));
    } else {
        assert(s.subrange(0, k) =~= s);
    }
}

/// The base of every request URL: the configured endpoint without the slashes at its end.
pub fn endpoint_base(endpoint: &String) -> (r: String)
    ensures
        r@ == without_trailing_slashes(endpoint@),
{
    let s = endpoint.as_str();
    let mut k = s.unicode_len();
    while k > 0 && s.get_char(k - 1) == '/'
        invariant
            k <= s@.len(),
            forall|j: int| k <= j < s@.len() ==> s@[j] == '/',
        decreases k,
    {
        k = k - 1;
    }
    proof {
        lemma_without_trailing_slashes(s@, k as int);
    }
    s.substring_char(0, k).to_owned()
}

/// The URL of `path`: the base followed by the path.
pub fn request_url(base: &String, path: &String) -> (r: String)
    ensures
        r@ == base@ + path@,
{
    concat(base.as_str(), path.as_str())
}

/// Whether a character is white space in Unicode's sense (it has the
/// `White_Space` property): U+0009 to U+000D, U+0020, U+0085, U+00A0, U+1680,
/// U+2000 to U+200A, U+2028, U+2029, U+202F, U+205F and U+3000.
pub open spec fn white_space(c: char) -> bool {
    let x = c as u32;
    ||| 0x9 <= x <= 0xD
    ||| x == 0x20
    ||| x == 0x85
    ||| x == 0xA0
    ||| x == 0x1680
    ||| 0x2000 <= x <= 0x200A
    ||| x == 0x2028
    ||| x == 0x2029
    ||| x == 0x202F
    ||| x == 0x205F
    ||| x == 0x3000
}

fn is_white_space(c: char) -> (r: bool)
    ensures
        r == white_space(c),
{
    let x = c as u32;
    (0x9 <= x && x <= 0xD) || x == 0x20 || x == 0x85 || x == 0xA0 || x == 0x1680 || (0x2000 <= x
        && x <= 0x200A) || x == 0x2028 || x == 0x2029 || x == 0x202F || x == 0x205F || x == 0x3000
}

/// A text made of white space only (or empty): what trims to nothing.
pub open spec fn is_blank(s: Seq<char>) -> bool {
    forall|i: int| 0 <= i < s.len() ==> white_space(#[trigger] s[i])
}

/// Whether a text is made of white space only.
pub fn blank(s: &String) -> (r: bool)
    ensures
        r == is_blank(s@),
{
    let t = s.as_str();
    let n = t.unicode_len();
    let mut i: usize = 0;
    while i < n
        invariant
            n == t@.len(),
            t@ == s@,
            i <= n,
            forall|j: int| 0 <= j < i ==> white_space(#[trigger] t@[j]),
        decreases n - i,
    {
        if !is_white_space(t.get_char(i)) {
            return false;
        }
        i = i + 1;
    }
    true
}

/// A status in 200..=299.
pub open spec fn is_success(status: u16) -> bool {
    200 <= status <= 299
}

/// What a reply of ChirpStack means: a status outside 200..=299 is an error that
/// carries the status line, the path and the body; a blank body is an empty
/// object; any other body is its JSON document, or an error where it is not JSON.
pub open spec fn reply_outcome(
    status: u16,
    status_line: String,
    path: String,
    body: String,
    parsed: Option<JsonV>,
) -> Result<JsonV, RequestError> {
    if !is_success(status) {
        Err(RequestError::Api { code: status, status: status_line, path, body })
    } else if is_blank(body@) {
        Ok(JsonV::Object(Seq::empty()))
    } else {
        match parsed {
            Some(j) => Ok(j),
            None => Err(RequestError::InvalidJson { path }),
        }
    }
}

/// The model of what a call gave back.
pub open spec fn result_view(r: Result<Json, RequestError>) -> Result<JsonV, RequestError> {
    match r {
        Ok(j) => Ok(j@),
        Err(e) => Err(e),
    }
}

/// Interprets a reply of ChirpStack to the call of `path` from its status code
/// and status line, its body, and the document that the body holds (nothing
/// where it is not JSON).
pub fn interpret_parsed_reply(
    status: u16,
    status_line: String,
    path: String,
    body: String,
    parsed: Option<Json>,
) -> (r: Result<Json, RequestError>)
    ensures
        result_view(r) == reply_outcome(status, status_line, path, body, opt_json_view(parsed)),
{
    if !(200 <= status && status <= 299) {
        return Err(RequestError::Api { code: status, status: status_line, path, body });
    }
    if blank(&body) {
        let j = object(Vec::new());
        assert(fields_v(Seq::<(String, Json)>::empty()) =~= Seq::<(Seq<char>, JsonV)>::empty());
        return Ok(j);
    }
    match parsed {
        Some(j) => Ok(j),
        None => Err(RequestError::InvalidJson { path }),
    }
}

/// Interprets a reply of ChirpStack to the call of `path`: its status code and
/// status line, and its body, read as JSON where the status is a success and the
/// body is not blank.
pub fn interpret_reply(status: u16, status_line: String, path: String, body: String) -> (r: Result<Json, RequestError>)
    ensures
        result_view(r) == reply_outcome(status, status_line, path, body, json_of_text(body@)),
{
    if 200 <= status && status <= 299 && !blank(&body) {
        let parsed = parse_json(&body);
        interpret_parsed_reply(status, status_line, path, body, parsed)
    } else {
        interpret_parsed_reply(status, status_line, path, body, None)
    }
}

} // verus!
