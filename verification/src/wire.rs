//! What each request body carries, stated field by field over the declared
//! resource: a reader of a body finds, under each field's name, the value that the
//! plan declares under the same name.
use vstd::prelude::*;
use crate::json::{field_of, lemma_lookup_at, lemma_lookup_none, lookup, JsonV};
use crate::plan::{ApplicationSpec, DeviceProfileSpec, DeviceSpec, GatewaySpec, TenantSpec};
use crate::region::{region_label, region_of};
use crate::registry::unique_keys;
use crate::request::{
    application_body, device_body, device_keys_body, device_profile_body, gateway_body,
    tenant_body,
};

verus! {

/// The object that `body` wraps under `wrapper` has the field `key`, with `value`.
pub open spec fn carries(body: JsonV, wrapper: Seq<char>, key: Seq<char>, value: JsonV) -> bool {
    match field_of(body, wrapper) {
        Some(inner) => field_of(inner, key) == Some(value),
        None => false,
    }
}

/// The object that `body` wraps under `wrapper` has no field `key`.
pub open spec fn lacks(body: JsonV, wrapper: Seq<char>, key: Seq<char>) -> bool {
    match field_of(body, wrapper) {
        Some(inner) => field_of(inner, key) is None,
        None => false,
    }
}

/// The body carries the identifier `id` under `wrapper`, where there is one, and
/// no identifier where there is none.
pub open spec fn carries_id(body: JsonV, wrapper: Seq<char>, id: Option<Seq<char>>) -> bool {
    match id {
        Some(x) => carries(body, wrapper, "id"@, JsonV::Str(x)),
        None => lacks(body, wrapper, "id"@),
    }
}

/// The body writes the tenant `t` as the plan declares it.
pub open spec fn declares_tenant(body: JsonV, t: TenantSpec) -> bool {
    &&& carries(body, "tenant"@, "name"@, JsonV::Str(t.name@))
    &&& carries(body, "tenant"@, "description"@, JsonV::Str(t.description@))
    &&& carries(body, "tenant"@, "can_have_gateways"@, JsonV::Bool(t.can_have_gateways))
    &&& carries(body, "tenant"@, "max_gateway_count"@, JsonV::UInt(t.max_gateway_count as u64))
    &&& carries(body, "tenant"@, "max_device_count"@, JsonV::UInt(t.max_device_count as u64))
}

/// The body writes the device profile `p` of the tenant `tenant_id` as the plan
/// declares it, with the region that the profile names.
pub open spec fn declares_profile(body: JsonV, p: DeviceProfileSpec, tenant_id: Seq<char>) -> bool {
    &&& carries(body, "device_profile"@, "tenant_id"@, JsonV::Str(tenant_id))
    &&& carries(body, "device_profile"@, "name"@, JsonV::Str(p.name@))
    &&& carries(body, "device_profile"@, "description"@, JsonV::Str(p.description@))
    &&& carries(
        body,
        "device_profile"@,
        "region"@,
        JsonV::Str(region_label(region_of(p.region->0@)->0)),
    )
    &&& carries(body, "device_profile"@, "region_config_id"@, JsonV::Str(p.region_config_id@))
    &&& carries(body, "device_profile"@, "supports_otaa"@, JsonV::Bool(p.supports_otaa))
    &&& carries(body, "device_profile"@, "supports_class_b"@, JsonV::Bool(p.supports_class_b))
    &&& carries(body, "device_profile"@, "supports_class_c"@, JsonV::Bool(p.supports_class_c))
    &&& carries(body, "device_profile"@, "uplink_interval"@, JsonV::UInt(p.uplink_interval as u64))
    &&& carries(
        body,
        "device_profile"@,
        "device_status_req_interval"@,
        JsonV::UInt(p.device_status_req_interval as u64),
    )
}

/// The body writes the application `a` of the tenant `tenant_id` as the plan declares it.
pub open spec fn declares_application(body: JsonV, a: ApplicationSpec, tenant_id: Seq<char>) -> bool {
    &&& carries(body, "application"@, "name"@, JsonV::Str(a.name@))
    &&& carries(body, "application"@, "description"@, JsonV::Str(a.description@))
    &&& carries(body, "application"@, "tenant_id"@, JsonV::Str(tenant_id))
}

/// The body writes the gateway `g` of the tenant `tenant_id` as the plan declares it.
pub open spec fn declares_gateway(body: JsonV, g: GatewaySpec, tenant_id: Seq<char>) -> bool {
    &&& carries(body, "gateway"@, "gateway_id"@, JsonV::Str(g.gateway_id@))
    &&& carries(body, "gateway"@, "name"@, JsonV::Str(g.name@))
    &&& carries(body, "gateway"@, "description"@, JsonV::Str(g.description@))
    &&& carries(body, "gateway"@, "tenant_id"@, JsonV::Str(tenant_id))
    &&& carries(body, "gateway"@, "stats_interval"@, JsonV::UInt(g.stats_interval as u64))
}

/// The body writes the device `d`, of the application `app` and with the profile
/// `profile`, as the plan declares it: enabled, with the frame-counter check on,
/// and with its join EUI where it names one.
pub open spec fn declares_device(body: JsonV, d: DeviceSpec, app: Seq<char>, profile: Seq<char>) -> bool {
    &&& carries(body, "device"@, "dev_eui"@, JsonV::Str(d.dev_eui@))
    &&& carries(body, "device"@, "name"@, JsonV::Str(d.name@))
    &&& carries(body, "device"@, "description"@, JsonV::Str(d.description@))
    &&& carries(body, "device"@, "application_id"@, JsonV::Str(app))
    &&& carries(body, "device"@, "device_profile_id"@, JsonV::Str(profile))
    &&& carries(body, "device"@, "is_disabled"@, JsonV::Bool(false))
    &&& carries(body, "device"@, "skip_fcnt_check"@, JsonV::Bool(false))
    &&& match d.join_eui {
        Some(e) => carries(body, "device"@, "join_eui"@, JsonV::Str(e@)),
        None => lacks(body, "device"@, "join_eui"@),
    }
}

/// A key as it is sent: its value, or the empty text where it is not set.
pub open spec fn sent_key(key: Option<Seq<char>>) -> Seq<char> {
    match key {
        Some(k) => k,
        None => Seq::empty(),
    }
}

/// The body writes the keys of the device `dev_eui`: the application key under
/// `app_key` and the network key under `nwk_key`.
pub open spec fn declares_keys(
    body: JsonV,
    dev_eui: Seq<char>,
    app_key: Option<Seq<char>>,
    nwk_key: Option<Seq<char>>,
) -> bool {
    &&& carries(body, "device_keys"@, "dev_eui"@, JsonV::Str(dev_eui))
    &&& carries(body, "device_keys"@, "app_key"@, JsonV::Str(sent_key(app_key)))
    &&& carries(body, "device_keys"@, "nwk_key"@, JsonV::Str(sent_key(nwk_key)))
}

proof fn lemma_wrapper(w: Seq<char>, inner: JsonV)
    ensures
        field_of(JsonV::Object(seq![(w, inner)]), w) == Some(inner),
{
    lemma_lookup_at(seq![(w, inner)], w, 0);
}

/// The tenant body carries each declared setting of the tenant under the name of
/// that setting, and the identifier exactly where one is given.
pub proof fn law_tenant_body_declares_the_tenant(spec: TenantSpec, id: Option<Seq<char>>)
    ensures
        declares_tenant(tenant_body(spec, id), spec),
        carries_id(tenant_body(spec, id), "tenant"@, id),
{
    reveal_strlit("tenant");
    reveal_strlit("name");
    reveal_strlit("description");
    reveal_strlit("can_have_gateways");
    reveal_strlit("max_gateway_count");
    reveal_strlit("max_device_count");
    reveal_strlit("id");
    let f = crate::request::tenant_fields(spec) + crate::request::id_field(id);
    assert(tenant_body(spec, id) == JsonV::Object(seq![("tenant"@, JsonV::Object(f))]));
    lemma_wrapper("tenant"@, JsonV::Object(f));
    assert("max_gateway_count"@[4] != "max_device_count"@[4]);
    assert(f[0].0 == "name"@ && f[1].0 == "description"@ && f[2].0 == "can_have_gateways"@);
    assert(f[3].0 == "max_gateway_count"@ && f[4].0 == "max_device_count"@);
    assert("name"@.len() == 4 && "description"@.len() == 11 && "can_have_gateways"@.len() == 17);
    assert("max_gateway_count"@.len() == 17 && "max_device_count"@.len() == 16 && "id"@.len() == 2);
    assert("can_have_gateways"@[0] != "max_gateway_count"@[0]);
    lemma_lookup_at(f, "name"@, 0);
    lemma_lookup_at(f, "description"@, 1);
    lemma_lookup_at(f, "can_have_gateways"@, 2);
    lemma_lookup_at(f, "max_gateway_count"@, 3);
    lemma_lookup_at(f, "max_device_count"@, 4);
    match id {
        Some(x) => lemma_lookup_at(f, "id"@, 5),
        None => lemma_lookup_none(f, "id"@),
    }
}


/// The device profile body carries each declared setting of the profile under
/// the name of that setting, the tenant, the region that the profile names, and
/// the identifier exactly where one is given.
pub proof fn law_profile_body_declares_the_profile(spec: DeviceProfileSpec, tenant_id: Seq<char>, id: Option<Seq<char>>)
    ensures
        declares_profile(device_profile_body(spec, tenant_id, id), spec, tenant_id),
        carries_id(device_profile_body(spec, tenant_id, id), "device_profile"@, id),
{
    reveal_strlit("device_profile");
    reveal_strlit("tenant_id");
    reveal_strlit("name");
    reveal_strlit("description");
    reveal_strlit("region");
    reveal_strlit("region_config_id");
    reveal_strlit("supports_otaa");
    reveal_strlit("supports_class_b");
    reveal_strlit("supports_class_c");
    reveal_strlit("uplink_interval");
    reveal_strlit("device_status_req_interval");
    reveal_strlit("id");
    let f = crate::request::device_profile_fields(spec, tenant_id) + crate::request::id_field(id);
    lemma_wrapper("device_profile"@, JsonV::Object(f));
    assert(f[0].0 == "tenant_id"@ && f[1].0 == "name"@ && f[2].0 == "description"@);
    assert(f[3].0 == "region"@ && f[4].0 == "region_config_id"@ && f[5].0 == "supports_otaa"@);
    assert(f[6].0 == "supports_class_b"@ && f[7].0 == "supports_class_c"@);
    assert(f[8].0 == "uplink_interval"@ && f[9].0 == "device_status_req_interval"@);
    assert("tenant_id"@.len() == 9 && "name"@.len() == 4 && "description"@.len() == 11);
    assert("region"@.len() == 6 && "region_config_id"@.len() == 16 && "supports_otaa"@.len() == 13);
    assert("supports_class_b"@.len() == 16 && "supports_class_c"@.len() == 16);
    assert("uplink_interval"@.len() == 15 && "device_status_req_interval"@.len() == 26);
    assert("id"@.len() == 2);
    assert("region_config_id"@[0] != "supports_class_b"@[0]);
    assert("region_config_id"@[0] != "supports_class_c"@[0]);
    assert("supports_class_b"@[15] != "supports_class_c"@[15]);
    lemma_lookup_at(f, "tenant_id"@, 0);
    lemma_lookup_at(f, "name"@, 1);
    lemma_lookup_at(f, "description"@, 2);
    lemma_lookup_at(f, "region"@, 3);
    lemma_lookup_at(f, "region_config_id"@, 4);
    lemma_lookup_at(f, "supports_otaa"@, 5);
    lemma_lookup_at(f, "supports_class_b"@, 6);
    lemma_lookup_at(f, "supports_class_c"@, 7);
    lemma_lookup_at(f, "uplink_interval"@, 8);
    lemma_lookup_at(f, "device_status_req_interval"@, 9);
    match id {
        Some(x) => lemma_lookup_at(f, "id"@, 10),
        None => lemma_lookup_none(f, "id"@),
    }
}

/// The application body carries the declared name and description, the tenant,
/// and the identifier exactly where one is given.
pub proof fn law_application_body_declares_the_application(
    spec: ApplicationSpec,
    tenant_id: Seq<char>,
    id: Option<Seq<char>>,
)
    ensures
        declares_application(application_body(spec, tenant_id, id), spec, tenant_id),
        carries_id(application_body(spec, tenant_id, id), "application"@, id),
{
    reveal_strlit("application");
    reveal_strlit("name");
    reveal_strlit("description");
    reveal_strlit("tenant_id");
    reveal_strlit("id");
    let f = crate::request::application_fields(spec, tenant_id) + crate::request::id_field(id);
    lemma_wrapper("application"@, JsonV::Object(f));
    assert(f[0].0 == "name"@ && f[1].0 == "description"@ && f[2].0 == "tenant_id"@);
    assert("name"@.len() == 4 && "description"@.len() == 11 && "tenant_id"@.len() == 9);
    assert("id"@.len() == 2);
    lemma_lookup_at(f, "name"@, 0);
    lemma_lookup_at(f, "description"@, 1);
    lemma_lookup_at(f, "tenant_id"@, 2);
    match id {
        Some(x) => lemma_lookup_at(f, "id"@, 3),
        None => lemma_lookup_none(f, "id"@),
    }
}

/// The gateway body carries the declared identifier, name, description and
/// statistics interval of the gateway, and the tenant.
pub proof fn law_gateway_body_declares_the_gateway(spec: GatewaySpec, tenant_id: Seq<char>)
    ensures
        declares_gateway(gateway_body(spec, tenant_id), spec, tenant_id),
{
    reveal_strlit("gateway");
    reveal_strlit("gateway_id");
    reveal_strlit("name");
    reveal_strlit("description");
    reveal_strlit("tenant_id");
    reveal_strlit("stats_interval");
    let body = gateway_body(spec, tenant_id);
    let f = body->Object_0[0].1->Object_0;
    assert(body == JsonV::Object(seq![("gateway"@, JsonV::Object(f))]));
    lemma_wrapper("gateway"@, JsonV::Object(f));
    assert(f[0].0 == "gateway_id"@ && f[1].0 == "name"@ && f[2].0 == "description"@);
    assert(f[3].0 == "tenant_id"@ && f[4].0 == "stats_interval"@ && f.len() == 5);
    assert("gateway_id"@.len() == 10 && "name"@.len() == 4 && "description"@.len() == 11);
    assert("tenant_id"@.len() == 9 && "stats_interval"@.len() == 14);
    lemma_lookup_at(f, "gateway_id"@, 0);
    lemma_lookup_at(f, "name"@, 1);
    lemma_lookup_at(f, "description"@, 2);
    lemma_lookup_at(f, "tenant_id"@, 3);
    lemma_lookup_at(f, "stats_interval"@, 4);
}

/// The device body carries the declared DevEUI, name and description of the
/// device, the identifiers of its application and profile, the device enabled
/// with its frame-counter check on, and its join EUI exactly where it names one.
pub proof fn law_device_body_declares_the_device(spec: DeviceSpec, app: Seq<char>, profile: Seq<char>)
    ensures
        declares_device(device_body(spec, app, profile), spec, app, profile),
{
    reveal_strlit("device");
    reveal_strlit("dev_eui");
    reveal_strlit("name");
    reveal_strlit("description");
    reveal_strlit("application_id");
    reveal_strlit("device_profile_id");
    reveal_strlit("is_disabled");
    reveal_strlit("skip_fcnt_check");
    reveal_strlit("tags");
    reveal_strlit("join_eui");
    let f = crate::request::device_fields(spec, app, profile);
    lemma_wrapper("device"@, JsonV::Object(f));
    assert(f[0].0 == "dev_eui"@ && f[1].0 == "name"@ && f[2].0 == "description"@);
    assert(f[3].0 == "application_id"@ && f[4].0 == "device_profile_id"@);
    assert(f[5].0 == "is_disabled"@ && f[6].0 == "skip_fcnt_check"@ && f[7].0 == "tags"@);
    assert("dev_eui"@.len() == 7 && "name"@.len() == 4 && "description"@.len() == 11);
    assert("application_id"@.len() == 14 && "device_profile_id"@.len() == 17);
    assert("is_disabled"@.len() == 11 && "skip_fcnt_check"@.len() == 15 && "tags"@.len() == 4);
    assert("join_eui"@.len() == 8);
    assert("name"@[0] != "tags"@[0]);
    assert("description"@[0] != "is_disabled"@[0]);
    lemma_lookup_at(f, "dev_eui"@, 0);
    lemma_lookup_at(f, "name"@, 1);
    lemma_lookup_at(f, "description"@, 2);
    lemma_lookup_at(f, "application_id"@, 3);
    lemma_lookup_at(f, "device_profile_id"@, 4);
    lemma_lookup_at(f, "is_disabled"@, 5);
    lemma_lookup_at(f, "skip_fcnt_check"@, 6);
    match spec.join_eui {
        Some(e) => {
            assert(f[8].0 == "join_eui"@);
            lemma_lookup_at(f, "join_eui"@, 8);
        },
        None => lemma_lookup_none(f, "join_eui"@),
    }
}

/// The keys body carries the DevEUI, the application key under `app_key` and the
/// network key under `nwk_key`, each as given or empty where it is not set.
pub proof fn law_keys_body_declares_the_keys(dev_eui: Seq<char>, app_key: Option<Seq<char>>, nwk_key: Option<Seq<char>>)
    ensures
        declares_keys(device_keys_body(dev_eui, app_key, nwk_key), dev_eui, app_key, nwk_key),
{
    reveal_strlit("device_keys");
    reveal_strlit("dev_eui");
    reveal_strlit("nwk_key");
    reveal_strlit("app_key");
    let body = device_keys_body(dev_eui, app_key, nwk_key);
    let f = body->Object_0[0].1->Object_0;
    assert(body == JsonV::Object(seq![("device_keys"@, JsonV::Object(f))]));
    lemma_wrapper("device_keys"@, JsonV::Object(f));
    assert(f[0].0 == "dev_eui"@ && f[1].0 == "nwk_key"@ && f[2].0 == "app_key"@ && f.len() == 3);
    assert("dev_eui"@[0] != "nwk_key"@[0] && "dev_eui"@[0] != "app_key"@[0]);
    assert("nwk_key"@[0] != "app_key"@[0]);
    lemma_lookup_at(f, "dev_eui"@, 0);
    lemma_lookup_at(f, "nwk_key"@, 1);
    lemma_lookup_at(f, "app_key"@, 2);
}


/// The tags object holds each tag of the device under its name, with its value,
/// and nothing else.
pub open spec fn declares_tags(tags_object: JsonV, tags: Map<Seq<char>, Seq<char>>) -> bool {
    &&& forall|k: Seq<char>| #[trigger] tags.contains_key(k) ==> field_of(tags_object, k) == Some(JsonV::Str(tags[k]))
    &&& forall|k: Seq<char>| #[trigger] field_of(tags_object, k) is Some ==> tags.contains_key(k)
}

/// The device body carries the device's tags, each under its name with its value.
pub proof fn law_device_body_carries_the_tags(spec: DeviceSpec, app: Seq<char>, profile: Seq<char>)
    requires
        unique_keys(spec.tags.entry_seq()),
    ensures
        carries(
            device_body(spec, app, profile),
            "device"@,
            "tags"@,
            field_of(field_of(device_body(spec, app, profile), "device"@)->0, "tags"@)->0,
        ),
        declares_tags(
            field_of(field_of(device_body(spec, app, profile), "device"@)->0, "tags"@)->0,
            spec.tags@,
        ),
{
    reveal_strlit("device");
    reveal_strlit("dev_eui");
    reveal_strlit("name");
    reveal_strlit("description");
    reveal_strlit("application_id");
    reveal_strlit("device_profile_id");
    reveal_strlit("is_disabled");
    reveal_strlit("skip_fcnt_check");
    reveal_strlit("tags");
    let f = crate::request::device_fields(spec, app, profile);
    lemma_wrapper("device"@, JsonV::Object(f));
    assert(f[0].0 == "dev_eui"@ && f[1].0 == "name"@ && f[2].0 == "description"@);
    assert(f[3].0 == "application_id"@ && f[4].0 == "device_profile_id"@);
    assert(f[5].0 == "is_disabled"@ && f[6].0 == "skip_fcnt_check"@ && f[7].0 == "tags"@);
    assert("dev_eui"@.len() == 7 && "name"@.len() == 4 && "description"@.len() == 11);
    assert("application_id"@.len() == 14 && "device_profile_id"@.len() == 17);
    assert("is_disabled"@.len() == 11 && "skip_fcnt_check"@.len() == 15 && "tags"@.len() == 4);
    assert("name"@[0] != "tags"@[0]);
    lemma_lookup_at(f, "tags"@, 7);
    let t = f[7].1;
    let e = spec.tags.entry_seq();
    let fields = Seq::new(e.len(), |i: int| (e[i].0@, JsonV::Str(e[i].1@)));
    assert(t == JsonV::Object(fields));
    crate::registry::lemma_entries_map(e);
    assert forall|k: Seq<char>| #[trigger] spec.tags@.contains_key(k) implies field_of(t, k) == Some(
        JsonV::Str(spec.tags@[k]),
    ) by {
        let i = choose|i: int| 0 <= i < e.len() && e[i].0@ == k;
        assert(fields[i].0 == k);
        assert forall|j: int| 0 <= j < i implies fields[j].0 != k by {
            assert(e[j].0@ != e[i].0@);
        }
        lemma_lookup_at(fields, k, i);
        assert(spec.tags@[k] == e[i].1@);
    }
    assert forall|k: Seq<char>| #[trigger] field_of(t, k) is Some implies spec.tags@.contains_key(k) by {
        if !spec.tags@.contains_key(k) {
            assert forall|j: int| 0 <= j < fields.len() implies fields[j].0 != k by {
                assert(spec.tags@.contains_key(e[j].0@));
            }
            lemma_lookup_none(fields, k);
        }
    }
}

} // verus!
