//! What holds of every run of the reconciliation, stated over its model.
use vstd::prelude::*;
use crate::error::{is_not_found, ProvisionError, RequestError};
use crate::json::{listed_id, JsonV};
use crate::listing::{page_items, page_step, page_total};
use crate::plan::{
    declares_application, declares_device_profile, device_fault, first_device_fault,
    plan_is_valid, plan_verdict, Plan, ProvisionV,
};
use crate::reconcile::{
    agrees, applications_recorded, awaits_env, awaits_reply, begin_applications, begin_devices,
    begin_gateways, begin_named, begin_profiles, keys_known, known_id, named_base, named_body,
    named_page, named_name, named_ready, named_resource, named_settled, on_env_spec,
    on_reply_spec, profiles_recorded, read_app_key, read_nwk_key, record_named,
    recorded_keys_applied, resolves_references, settle_device, settle_named, start_spec,
    well_formed, with_phase, with_state, fail, search_named, tenant_of, ActionV, DeviceStepV, Named, PhaseV, ReconcileV,
    UpsertStepV, WriteStep,
};
use crate::request::{get_v, item_path, put_v, tenant_page, Method};
use crate::wire::{
    carries_id, declares_device, declares_gateway, declares_keys, declares_profile,
    declares_tenant, law_application_body_declares_the_application,
    law_device_body_declares_the_device, law_gateway_body_declares_the_gateway,
    law_keys_body_declares_the_keys, law_profile_body_declares_the_profile,
    law_tenant_body_declares_the_tenant,
};

verus! {

/// The action reads or ends: it is no write.
pub open spec fn reads_or_ends(a: ActionV) -> bool {
    match a {
        ActionV::Call(req) => req.method == Method::Get,
        _ => true,
    }
}

/// The action is a create (a POST).
pub open spec fn creates(a: ActionV) -> bool {
    match a {
        ActionV::Call(req) => req.method == Method::Post,
        _ => false,
    }
}

/// The action is a replacement (a PUT).
pub open spec fn updates(a: ActionV) -> bool {
    match a {
        ActionV::Call(req) => req.method == Method::Put,
        _ => false,
    }
}

/// The phase waits for the reply to a read of one resource by its identifier.
pub open spec fn probing(p: PhaseV) -> bool {
    match p {
        PhaseV::Upsert(_, UpsertStepV::Confirming(_)) => true,
        PhaseV::Gateway(_, WriteStep::Probing) => true,
        PhaseV::Device(_, _, _, DeviceStepV::Probing) => true,
        PhaseV::Device(_, _, _, DeviceStepV::ProbingKeys(_, _)) => true,
        _ => false,
    }
}

/// The phase waits for the reply to a write.
pub open spec fn writing(p: PhaseV) -> bool {
    match p {
        PhaseV::Upsert(_, UpsertStepV::Updating(_)) => true,
        PhaseV::Upsert(_, UpsertStepV::Creating) => true,
        PhaseV::Gateway(_, WriteStep::Writing) => true,
        PhaseV::Device(_, _, _, DeviceStepV::Writing) => true,
        PhaseV::Device(_, _, _, DeviceStepV::WritingKeys) => true,
        _ => false,
    }
}

/// No recorded key is forgotten from one state to the next.
pub open spec fn keeps_keys(a: ProvisionV, b: ProvisionV) -> bool {
    &&& (a.tenant_id is Some ==> b.tenant_id is Some)
    &&& a.device_profiles.dom().subset_of(b.device_profiles.dom())
    &&& a.applications.dom().subset_of(b.applications.dom())
    &&& a.gateways.dom().subset_of(b.gateways.dom())
    &&& a.devices.dom().subset_of(b.devices.dom())
}

proof fn lemma_begin_devices(r: ReconcileV, i: int)
    ensures
        begin_devices(r, i).0.state == r.state,
        begin_devices(r, i).0.plan == r.plan,
        reads_or_ends(begin_devices(r, i).1),
{
}

proof fn lemma_begin_gateways(r: ReconcileV, i: int)
    ensures
        begin_gateways(r, i).0.state == r.state,
        begin_gateways(r, i).0.plan == r.plan,
        reads_or_ends(begin_gateways(r, i).1),
{
    lemma_begin_devices(r, 0);
}

proof fn lemma_begin_applications(r: ReconcileV, i: int)
    ensures
        begin_applications(r, i).0.state == r.state,
        begin_applications(r, i).0.plan == r.plan,
        reads_or_ends(begin_applications(r, i).1),
{
    lemma_begin_gateways(r, 0);
}

proof fn lemma_begin_profiles(r: ReconcileV, i: int)
    ensures
        begin_profiles(r, i).0.state == r.state,
        begin_profiles(r, i).0.plan == r.plan,
        reads_or_ends(begin_profiles(r, i).1),
{
    lemma_begin_applications(r, 0);
}

proof fn lemma_settle_named(r: ReconcileV, kind: Named, id: Seq<char>)
    ensures
        settle_named(r, kind, id).0.state == record_named(r, kind, id),
        reads_or_ends(settle_named(r, kind, id).1),
{
    let s = with_state(r, record_named(r, kind, id));
    match kind {
        Named::Tenant => lemma_begin_profiles(s, 0),
        Named::DeviceProfile(i) => lemma_begin_profiles(s, i + 1),
        Named::Application(i) => lemma_begin_applications(s, i + 1),
    }
}

proof fn lemma_settle_device(r: ReconcileV, i: int, app: Seq<char>, profile: Seq<char>, applied: bool)
    ensures
        settle_device(r, i, app, profile, applied).0.state.devices == r.state.devices.insert(
            r.plan.devices@[i].dev_eui@,
            crate::plan::DeviceStateV {
                dev_eui: r.plan.devices@[i].dev_eui@,
                application_id: app,
                device_profile_id: profile,
                keys_applied: applied,
            },
        ),
        settle_device(r, i, app, profile, applied).0.state.tenant_id == r.state.tenant_id,
        settle_device(r, i, app, profile, applied).0.state.device_profiles == r.state.device_profiles,
        settle_device(r, i, app, profile, applied).0.state.applications == r.state.applications,
        settle_device(r, i, app, profile, applied).0.state.gateways == r.state.gateways,
        reads_or_ends(settle_device(r, i, app, profile, applied).1),
{
    let eui = r.plan.devices@[i].dev_eui@;
    let state = ProvisionV {
        devices: r.state.devices.insert(
            eui,
            crate::plan::DeviceStateV {
                dev_eui: eui,
                application_id: app,
                device_profile_id: profile,
                keys_applied: applied,
            },
        ),
        ..r.state
    };
    lemma_begin_devices(with_state(r, state), i + 1);
}

proof fn lemma_key_reads(r: ReconcileV, i: int, app: Seq<char>, profile: Seq<char>, app_key: Option<Seq<char>>, nwk_key: Option<Seq<char>>)
    ensures
        keeps_keys(r.state, keys_known(r, i, app, profile, app_key, nwk_key).0.state),
        reads_or_ends(keys_known(r, i, app, profile, app_key, nwk_key).1),
        keeps_keys(r.state, read_nwk_key(r, i, app, profile, app_key).0.state),
        reads_or_ends(read_nwk_key(r, i, app, profile, app_key).1),
        keeps_keys(r.state, read_app_key(r, i, app, profile).0.state),
        reads_or_ends(read_app_key(r, i, app, profile).1),
{
    lemma_settle_device(r, i, app, profile, true);
    lemma_settle_device(r, i, app, profile, false);
    lemma_settle_device(r, i, app, profile, recorded_keys_applied(r, r.plan.devices@[i].dev_eui@));
}

/// A plan that fails validation ends the reconciliation at its start, with the
/// validation error, before any call and with nothing recorded.
pub proof fn law_invalid_plan_makes_no_call(r: ReconcileV)
    requires
        r.phase is Idle,
        !plan_is_valid(r.plan),
    ensures
        start_spec(r).1 == ActionV::Finish(Err(plan_verdict(r.plan)->Err_0)),
        start_spec(r).0.state == r.state,
{
}

/// The first call of a valid plan reads the tenant: under its recorded
/// identifier where there is one, or else in the list of tenants.
pub proof fn law_start_reads_the_tenant(r: ReconcileV)
    requires
        r.phase is Idle,
        plan_is_valid(r.plan),
    ensures
        start_spec(r).1 == ActionV::Call(
            get_v(
                match r.state.tenant_id {
                    Some(id) => item_path("/api/tenants"@, id),
                    None => tenant_page(0),
                },
            ),
        ),
{
}

/// A resource whose recorded identifier is confirmed by ChirpStack is updated in
/// place under that identifier; it is not searched for or created again.
pub proof fn law_confirmed_resource_is_updated_in_place(r: ReconcileV, kind: Named, id: Seq<char>, reply: JsonV)
    requires
        r.phase == PhaseV::Upsert(kind, UpsertStepV::Confirming(id)),
    ensures
        on_reply_spec(r, Ok(reply)).1 == ActionV::Call(
            put_v(item_path(named_base(kind), id), named_body(r, kind, Some(id))),
        ),
{
}

/// A resource that a complete listing names is updated under the listed
/// identifier; it is not created again.
pub proof fn law_resource_found_by_name_is_updated(
    r: ReconcileV,
    kind: Named,
    reply: JsonV,
    items: Seq<JsonV>,
    id: Seq<char>,
)
    requires
        r.phase == PhaseV::Upsert(kind, UpsertStepV::Searching),
        page_step(r.listing, reply) == Ok::<(Seq<JsonV>, bool), ProvisionError>((items, true)),
        listed_id(items, named_name(r.plan, kind)) == Some(id),
    ensures
        on_reply_spec(r, Ok(reply)).1 == ActionV::Call(
            put_v(item_path(named_base(kind), id), named_body(r, kind, Some(id))),
        ),
{
}

/// A listing is read to its end: while the pages read so far hold fewer items
/// than the listing's total count, the next page, at the number of items read
/// so far, is asked for, and nothing is written.
pub proof fn law_listing_is_read_to_its_end(r: ReconcileV, kind: Named, reply: JsonV, items: Seq<JsonV>)
    requires
        r.phase == PhaseV::Upsert(kind, UpsertStepV::Searching),
        page_step(r.listing, reply) == Ok::<(Seq<JsonV>, bool), ProvisionError>((items, false)),
    ensures
        on_reply_spec(r, Ok(reply)).1 == ActionV::Call(get_v(named_page(r, kind, items.len()))),
        on_reply_spec(r, Ok(reply)).0.listing == items,
        on_reply_spec(r, Ok(reply)).0.phase == r.phase,
{
}

/// A listing that ends before its total count (an empty page while fewer items
/// than the total have been read) ends the reconciliation with an error; it is
/// never taken to mean that the resource is missing.
pub proof fn law_incomplete_listing_is_refused(r: ReconcileV, kind: Named, reply: JsonV, total: nat)
    requires
        r.phase == PhaseV::Upsert(kind, UpsertStepV::Searching),
        page_items(reply) == Some(Seq::<JsonV>::empty()),
        page_total(reply) == Some(total),
        r.listing.len() < total,
    ensures
        on_reply_spec(r, Ok(reply)) == fail(r, ProvisionError::IncompleteListing),
{
}

/// A read of a gateway, a device, a device's keys or a listing that fails for
/// any reason but the resource's absence (a 404 answer) ends the reconciliation
/// with that error: nothing is created after it.
pub proof fn law_failed_read_never_creates(r: ReconcileV, e: RequestError)
    requires
        (probing(r.phase) && !(r.phase matches PhaseV::Upsert(_, UpsertStepV::Confirming(_))))
            || (r.phase matches PhaseV::Upsert(_, UpsertStepV::Searching)),
        !is_not_found(e),
    ensures
        on_reply_spec(r, Err(e)) == fail(r, ProvisionError::Request(e)),
        !creates(on_reply_spec(r, Err(e)).1),
{
}

/// A recorded identifier that ChirpStack does not confirm (the read fails,
/// whatever the reason) is not trusted: the collection is searched by name from
/// its first page, and nothing is written.
pub proof fn law_unconfirmed_id_falls_back_to_search(r: ReconcileV, kind: Named, id: Seq<char>, e: RequestError)
    requires
        r.phase == PhaseV::Upsert(kind, UpsertStepV::Confirming(id)),
    ensures
        on_reply_spec(r, Err(e)) == search_named(r, kind),
        on_reply_spec(r, Err(e)).1 == ActionV::Call(get_v(named_page(r, kind, 0))),
{
}

/// A resource that a read shows to exist is updated, never created: every
/// successful read of one resource is followed by a replacement of it.
pub proof fn law_existing_resource_is_updated_not_created(r: ReconcileV, reply: JsonV)
    requires
        well_formed(r),
        probing(r.phase),
    ensures
        updates(on_reply_spec(r, Ok(reply)).1),
{
}

/// A create happens only for a resource found missing: after a read of it that
/// ChirpStack answered with 404, or after a complete listing of its collection
/// that does not name it.
pub proof fn law_create_only_when_missing(r: ReconcileV, reply: Result<JsonV, RequestError>)
    requires
        well_formed(r),
        creates(on_reply_spec(r, reply).1),
    ensures
        match r.phase {
            PhaseV::Upsert(kind, UpsertStepV::Searching) => reply matches Ok(v) && (page_step(
                r.listing,
                v,
            ) matches Ok((items, complete)) && (complete && listed_id(items, named_name(r.plan, kind)) is None)),
            _ => probing(r.phase) && (reply matches Err(e) && is_not_found(e)),
        },
{
    match r.phase {
        PhaseV::Upsert(kind, step) => match step {
            UpsertStepV::Updating(id) => {
                lemma_settle_named(r, kind, id);
            },
            UpsertStepV::Creating => {
                if let Ok(v) = reply {
                    if let Some(id) = crate::json::created_id_of(
                        v,
                        crate::error::wrapper_name(named_resource(kind)),
                    ) {
                        lemma_settle_named(r, kind, id);
                    }
                }
            },
            _ => {},
        },
        PhaseV::Gateway(i, _) => {
            let g = r.plan.gateways@[i as int];
            lemma_begin_gateways(
                with_state(
                    r,
                    ProvisionV {
                        gateways: r.state.gateways.insert(g.gateway_id@, g.gateway_id@),
                        ..r.state
                    },
                ),
                i + 1,
            );
        },
        PhaseV::Device(i, app, profile, _) => {
            lemma_key_reads(r, i as int, app, profile, None, None);
            lemma_settle_device(r, i as int, app, profile, true);
        },
        _ => {},
    }
}

/// Nothing is created before a read: starting, and taking the value of an
/// environment variable, lead only to reads or to the end.
pub proof fn law_reads_come_first(r: ReconcileV, value: Option<Seq<char>>)
    requires
        well_formed(r),
    ensures
        r.phase is Idle ==> reads_or_ends(start_spec(r).1),
        awaits_env(r.phase) ==> reads_or_ends(on_env_spec(r, value).1),
{
    match r.phase {
        PhaseV::Device(i, app, profile, step) => {
            match step {
                DeviceStepV::ReadingAppKey => lemma_key_reads(r, i as int, app, profile, value, None),
                DeviceStepV::ReadingNwkKey(k) => lemma_key_reads(r, i as int, app, profile, k, value),
                _ => {},
            }
        },
        _ => {},
    }
}

/// The identifier under which a named resource was written is the one recorded for it.
pub proof fn law_written_id_is_recorded(r: ReconcileV, kind: Named, id: Seq<char>, reply: JsonV)
    requires
        r.phase == PhaseV::Upsert(kind, UpsertStepV::Updating(id)),
    ensures
        on_reply_spec(r, Ok(reply)).0.state == record_named(r, kind, id),
{
    lemma_settle_named(r, kind, id);
}

/// A failed write ends the reconciliation with the call's error, with nothing
/// more recorded and no further call.
pub proof fn law_failed_write_stops(r: ReconcileV, e: RequestError)
    requires
        writing(r.phase),
    ensures
        on_reply_spec(r, Err(e)) == (
            with_phase(r, PhaseV::Done),
            ActionV::Finish(Err(ProvisionError::Request(e))),
        ),
{
}

/// No step forgets a recorded key: identifiers are only added or replaced.
pub proof fn law_recorded_keys_are_kept(r: ReconcileV, reply: Result<JsonV, RequestError>, value: Option<Seq<char>>)
    requires
        well_formed(r),
    ensures
        keeps_keys(r.state, start_spec(r).0.state),
        keeps_keys(r.state, on_reply_spec(r, reply).0.state),
        keeps_keys(r.state, on_env_spec(r, value).0.state),
{
    lemma_begin_profiles(r, 0);
    match r.phase {
        PhaseV::Upsert(kind, step) => {
            match step {
                UpsertStepV::Updating(id) => lemma_settle_named(r, kind, id),
                UpsertStepV::Creating => {
                    if let Ok(v) = reply {
                        if let Some(id) = crate::json::created_id_of(
                            v,
                            crate::error::wrapper_name(named_resource(kind)),
                        ) {
                            lemma_settle_named(r, kind, id);
                        }
                    }
                },
                _ => {},
            }
        },
        PhaseV::Gateway(i, _) => {
            let g = r.plan.gateways@[i as int];
            lemma_begin_gateways(
                with_state(
                    r,
                    ProvisionV {
                        gateways: r.state.gateways.insert(g.gateway_id@, g.gateway_id@),
                        ..r.state
                    },
                ),
                i + 1,
            );
        },
        PhaseV::Device(i, app, profile, step) => {
            lemma_settle_device(r, i as int, app, profile, true);
            lemma_key_reads(r, i as int, app, profile, None, None);
            match step {
                DeviceStepV::ReadingAppKey => lemma_key_reads(r, i as int, app, profile, value, None),
                DeviceStepV::ReadingNwkKey(k) => lemma_key_reads(r, i as int, app, profile, k, value),
                _ => {},
            }
        },
        _ => {},
    }
}

/// The step leaves a well-formed machine whose phase agrees with the action,
/// and does not fail on an unresolved reference.
pub open spec fn step_ok(step: (ReconcileV, ActionV)) -> bool {
    &&& well_formed(step.0)
    &&& agrees(step.0.phase, step.1)
    &&& resolves_references(step.1)
}

proof fn lemma_no_device_fault(plan: Plan, devices: Seq<crate::plan::DeviceSpec>)
    requires
        first_device_fault(plan, devices) is None,
    ensures
        forall|i: int| 0 <= i < devices.len() ==> device_fault(plan, #[trigger] devices[i]) is None,
    decreases devices.len(),
{
    if devices.len() > 0 {
        let t = devices.drop_first();
        lemma_no_device_fault(plan, t);
        assert forall|i: int| 0 <= i < devices.len() implies device_fault(plan, #[trigger] devices[i]) is None by {
            if i > 0 {
                assert(devices[i] == t[i - 1]);
            }
        }
    }
}

proof fn lemma_device_fault_kinds(plan: Plan, devices: Seq<crate::plan::DeviceSpec>)
    ensures
        match first_device_fault(plan, devices) {
            Some(ProvisionError::UnknownApplication { .. }) => true,
            Some(ProvisionError::UnknownDeviceProfile { .. }) => true,
            None => true,
            _ => false,
        },
    decreases devices.len(),
{
    if devices.len() > 0 {
        lemma_device_fault_kinds(plan, devices.drop_first());
    }
}

proof fn lemma_profile_fault_kinds(profiles: Seq<crate::plan::DeviceProfileSpec>)
    ensures
        match crate::plan::first_profile_fault(profiles) {
            Some(ProvisionError::MissingRegion { .. }) => true,
            Some(ProvisionError::UnsupportedRegion { .. }) => true,
            None => true,
            _ => false,
        },
    decreases profiles.len(),
{
    if profiles.len() > 0 {
        lemma_profile_fault_kinds(profiles.drop_first());
    }
}

/// In a valid plan every device names an application and a device profile that the plan declares.
pub proof fn law_valid_plan_declares_every_reference(plan: Plan, i: int)
    requires
        plan_is_valid(plan),
        0 <= i < plan.devices@.len(),
    ensures
        declares_application(plan, plan.devices@[i].application@),
        declares_device_profile(plan, plan.devices@[i].device_profile@),
{
    lemma_no_device_fault(plan, plan.devices@);
    assert(device_fault(plan, plan.devices@[i]) is None);
}

proof fn lemma_begin_devices_ok(r: ReconcileV, i: int)
    requires
        named_settled(r),
        0 <= i,
    ensures
        step_ok(begin_devices(r, i)),
{
    if i < r.plan.devices@.len() {
        let d = r.plan.devices@[i];
        law_valid_plan_declares_every_reference(r.plan, i);
        let ja = choose|j: int|
            0 <= j < r.plan.applications@.len() && #[trigger] r.plan.applications@[j].key@ == d.application@;
        assert(r.state.applications.contains_key(r.plan.applications@[ja].key@));
        let jp = choose|j: int|
            0 <= j < r.plan.device_profiles@.len() && #[trigger] r.plan.device_profiles@[j].key@
                == d.device_profile@;
        assert(r.state.device_profiles.contains_key(r.plan.device_profiles@[jp].key@));
    }
}

proof fn lemma_begin_gateways_ok(r: ReconcileV, i: int)
    requires
        named_settled(r),
        0 <= i,
    ensures
        step_ok(begin_gateways(r, i)),
{
    lemma_begin_devices_ok(r, 0);
}

proof fn lemma_begin_applications_ok(r: ReconcileV, i: int)
    requires
        plan_is_valid(r.plan),
        r.state.tenant_id is Some,
        profiles_recorded(r, r.plan.device_profiles@.len() as int),
        applications_recorded(r, i),
        0 <= i <= r.plan.applications@.len(),
    ensures
        step_ok(begin_applications(r, i)),
{
    if i < r.plan.applications@.len() {
        lemma_begin_named_ok(r, Named::Application(i as usize));
    } else {
        lemma_begin_gateways_ok(r, 0);
    }
}

proof fn lemma_begin_profiles_ok(r: ReconcileV, i: int)
    requires
        plan_is_valid(r.plan),
        r.state.tenant_id is Some,
        profiles_recorded(r, i),
        0 <= i <= r.plan.device_profiles@.len(),
    ensures
        step_ok(begin_profiles(r, i)),
{
    if i < r.plan.device_profiles@.len() {
        lemma_begin_named_ok(r, Named::DeviceProfile(i as usize));
    } else {
        lemma_begin_applications_ok(r, 0);
    }
}

proof fn lemma_begin_named_ok(r: ReconcileV, kind: Named)
    requires
        named_ready(r, kind),
    ensures
        step_ok(begin_named(r, kind)),
{
}

proof fn lemma_settle_named_ok(r: ReconcileV, kind: Named, id: Seq<char>)
    requires
        named_ready(r, kind),
    ensures
        step_ok(settle_named(r, kind, id)),
{
    let s = with_state(r, record_named(r, kind, id));
    match kind {
        Named::Tenant => {
            lemma_begin_profiles_ok(s, 0);
        },
        Named::DeviceProfile(i) => {
            assert forall|j: int| 0 <= j < i + 1 implies s.state.device_profiles.contains_key(
                #[trigger] s.plan.device_profiles@[j].key@,
            ) by {
                if j < i {
                    assert(r.state.device_profiles.contains_key(r.plan.device_profiles@[j].key@));
                }
            }
            lemma_begin_profiles_ok(s, i + 1);
        },
        Named::Application(i) => {
            assert forall|j: int| 0 <= j < i + 1 implies s.state.applications.contains_key(
                #[trigger] s.plan.applications@[j].key@,
            ) by {
                if j < i {
                    assert(r.state.applications.contains_key(r.plan.applications@[j].key@));
                }
            }
            assert(profiles_recorded(s, s.plan.device_profiles@.len() as int));
            lemma_begin_applications_ok(s, i + 1);
        },
    }
}

proof fn lemma_settle_device_ok(r: ReconcileV, i: int, app: Seq<char>, profile: Seq<char>, applied: bool)
    requires
        named_settled(r),
        0 <= i,
    ensures
        step_ok(settle_device(r, i, app, profile, applied)),
{
    let eui = r.plan.devices@[i].dev_eui@;
    let state = ProvisionV {
        devices: r.state.devices.insert(
            eui,
            crate::plan::DeviceStateV {
                dev_eui: eui,
                application_id: app,
                device_profile_id: profile,
                keys_applied: applied,
            },
        ),
        ..r.state
    };
    let s = with_state(r, state);
    assert(profiles_recorded(s, s.plan.device_profiles@.len() as int));
    assert(applications_recorded(s, s.plan.applications@.len() as int));
    lemma_begin_devices_ok(s, i + 1);
}

proof fn lemma_key_steps_ok(
    r: ReconcileV,
    i: int,
    app: Seq<char>,
    profile: Seq<char>,
    app_key: Option<Seq<char>>,
    nwk_key: Option<Seq<char>>,
)
    requires
        named_settled(r),
        0 <= i < r.plan.devices@.len(),
    ensures
        step_ok(keys_known(r, i, app, profile, app_key, nwk_key)),
        step_ok(read_nwk_key(r, i, app, profile, app_key)),
        step_ok(read_app_key(r, i, app, profile)),
{
    lemma_settle_device_ok(r, i, app, profile, recorded_keys_applied(r, r.plan.devices@[i].dev_eui@));
}

/// Every step keeps the machine well formed and its phase in agreement with
/// the action it asks for; and no step of a reconciliation fails on an
/// unresolved device reference, since validation has made every reference
/// resolvable before the devices come.
pub proof fn law_steps_keep_well_formed(
    r: ReconcileV,
    reply: Result<JsonV, RequestError>,
    value: Option<Seq<char>>,
)
    requires
        well_formed(r),
    ensures
        r.phase is Idle ==> step_ok(start_spec(r)),
        awaits_reply(r.phase) ==> step_ok(on_reply_spec(r, reply)),
        awaits_env(r.phase) ==> step_ok(on_env_spec(r, value)),
{
    match r.phase {
        PhaseV::Idle => {
            if plan_is_valid(r.plan) {
                lemma_begin_named_ok(r, Named::Tenant);
            } else {
                lemma_device_fault_kinds(r.plan, r.plan.devices@);
                lemma_profile_fault_kinds(r.plan.device_profiles@);
            }
        },
        PhaseV::Upsert(kind, step) => {
            match step {
                UpsertStepV::Updating(id) => {
                    lemma_settle_named_ok(r, kind, id);
                },
                UpsertStepV::Creating => {
                    if let Ok(v) = reply {
                        if let Some(id) = crate::json::created_id_of(
                            v,
                            crate::error::wrapper_name(named_resource(kind)),
                        ) {
                            lemma_settle_named_ok(r, kind, id);
                        }
                    }
                },
                _ => {},
            }
        },
        PhaseV::Gateway(i, _) => {
            let g = r.plan.gateways@[i as int];
            let s = with_state(
                r,
                ProvisionV {
                    gateways: r.state.gateways.insert(g.gateway_id@, g.gateway_id@),
                    ..r.state
                },
            );
            assert(profiles_recorded(s, s.plan.device_profiles@.len() as int));
            assert(applications_recorded(s, s.plan.applications@.len() as int));
            lemma_begin_gateways_ok(s, i + 1);
        },
        PhaseV::Device(i, app, profile, step) => {
            lemma_settle_device_ok(r, i as int, app, profile, true);
            lemma_key_steps_ok(r, i as int, app, profile, None, None);
            match step {
                DeviceStepV::ReadingAppKey => lemma_key_steps_ok(r, i as int, app, profile, value, None),
                DeviceStepV::ReadingNwkKey(k) => lemma_key_steps_ok(r, i as int, app, profile, k, value),
                _ => {},
            }
        },
        _ => {},
    }
}


/// A named resource is looked up first under the identifier recorded for it;
/// only without one is its collection listed to find it by name.
pub proof fn law_recorded_id_is_tried_first(r: ReconcileV, kind: Named)
    ensures
        begin_named(r, kind).1 == ActionV::Call(
            get_v(
                match known_id(r, kind) {
                    Some(id) => item_path(named_base(kind), id),
                    None => named_page(r, kind, 0),
                },
            ),
        ),
{
}

/// Every named resource of the plan has an identifier recorded.
pub open spec fn all_named_recorded(r: ReconcileV) -> bool {
    &&& r.state.tenant_id is Some
    &&& profiles_recorded(r, r.plan.device_profiles@.len() as int)
    &&& applications_recorded(r, r.plan.applications@.len() as int)
}

/// The reconciliation runs on recorded identifiers: all are recorded and no
/// named resource is being searched for or created.
pub open spec fn on_recorded_track(r: ReconcileV) -> bool {
    &&& all_named_recorded(r)
    &&& !(r.phase matches PhaseV::Upsert(_, UpsertStepV::Searching))
    &&& !(r.phase matches PhaseV::Upsert(_, UpsertStepV::Creating))
}

proof fn lemma_track_begins(r: ReconcileV, i: int)
    requires
        all_named_recorded(r),
        plan_is_valid(r.plan),
        0 <= i,
    ensures
        on_recorded_track(begin_profiles(r, i).0) && !creates(begin_profiles(r, i).1),
        on_recorded_track(begin_applications(r, i).0) && !creates(begin_applications(r, i).1),
        on_recorded_track(begin_gateways(r, i).0) && !creates(begin_gateways(r, i).1),
        on_recorded_track(begin_devices(r, i).0) && !creates(begin_devices(r, i).1),
{
    if i < r.plan.device_profiles@.len() {
        assert(r.state.device_profiles.contains_key(r.plan.device_profiles@[i].key@));
    }
    if i < r.plan.applications@.len() {
        assert(r.state.applications.contains_key(r.plan.applications@[i].key@));
    }
    if r.plan.device_profiles@.len() > 0 {
        assert(r.state.device_profiles.contains_key(r.plan.device_profiles@[0].key@));
    }
    if r.plan.applications@.len() > 0 {
        assert(r.state.applications.contains_key(r.plan.applications@[0].key@));
    }
}

proof fn lemma_track_record(r: ReconcileV, kind: Named, id: Seq<char>)
    requires
        all_named_recorded(r),
    ensures
        all_named_recorded(with_state(r, record_named(r, kind, id))),
{
    let s = with_state(r, record_named(r, kind, id));
    assert forall|j: int| 0 <= j < r.plan.device_profiles@.len() implies s.state.device_profiles.contains_key(
        #[trigger] s.plan.device_profiles@[j].key@,
    ) by {
        assert(r.state.device_profiles.contains_key(r.plan.device_profiles@[j].key@));
    }
    assert forall|j: int| 0 <= j < r.plan.applications@.len() implies s.state.applications.contains_key(
        #[trigger] s.plan.applications@[j].key@,
    ) by {
        assert(r.state.applications.contains_key(r.plan.applications@[j].key@));
    }
}

proof fn lemma_track_devices(r: ReconcileV, i: int, app: Seq<char>, profile: Seq<char>, ak: Option<Seq<char>>, nk: Option<Seq<char>>, applied: bool)
    requires
        all_named_recorded(r),
        plan_is_valid(r.plan),
        0 <= i,
    ensures
        on_recorded_track(settle_device(r, i, app, profile, applied).0),
        !creates(settle_device(r, i, app, profile, applied).1),
        on_recorded_track(keys_known(r, i, app, profile, ak, nk).0),
        !creates(keys_known(r, i, app, profile, ak, nk).1),
        on_recorded_track(read_nwk_key(r, i, app, profile, ak).0),
        !creates(read_nwk_key(r, i, app, profile, ak).1),
        on_recorded_track(read_app_key(r, i, app, profile).0),
        !creates(read_app_key(r, i, app, profile).1),
{
    let eui = r.plan.devices@[i].dev_eui@;
    let settle = |applied: bool| ProvisionV {
        devices: r.state.devices.insert(
            eui,
            crate::plan::DeviceStateV {
                dev_eui: eui,
                application_id: app,
                device_profile_id: profile,
                keys_applied: applied,
            },
        ),
        ..r.state
    };
    let s1 = with_state(r, settle(applied));
    let s2 = with_state(r, settle(recorded_keys_applied(r, eui)));
    assert(all_named_recorded(s1));
    assert(all_named_recorded(s2));
    lemma_track_begins(s1, i + 1);
    lemma_track_begins(s2, i + 1);
}

/// Once every named resource of the plan has a recorded identifier, and
/// ChirpStack confirms each resource that is read, a reconciliation creates
/// nothing: each step of it stays on the recorded identifiers and is a read or
/// an update. A repeated reconciliation thus updates and does not duplicate.
pub proof fn law_repeated_reconcile_creates_nothing(
    r: ReconcileV,
    reply: Result<JsonV, RequestError>,
    value: Option<Seq<char>>,
)
    requires
        well_formed(r),
        plan_is_valid(r.plan),
        on_recorded_track(r),
        probing(r.phase) ==> reply is Ok,
    ensures
        r.phase is Idle ==> on_recorded_track(start_spec(r).0) && !creates(start_spec(r).1),
        awaits_reply(r.phase) ==> on_recorded_track(on_reply_spec(r, reply).0) && !creates(
            on_reply_spec(r, reply).1,
        ),
        awaits_env(r.phase) ==> on_recorded_track(on_env_spec(r, value).0) && !creates(
            on_env_spec(r, value).1,
        ),
{
    match r.phase {
        PhaseV::Upsert(kind, step) => {
            match step {
                UpsertStepV::Updating(id) => {
                    lemma_track_record(r, kind, id);
                    let s = with_state(r, record_named(r, kind, id));
                    match kind {
                        Named::Tenant => lemma_track_begins(s, 0),
                        Named::DeviceProfile(i) => lemma_track_begins(s, i + 1),
                        Named::Application(i) => lemma_track_begins(s, i + 1),
                    }
                },
                _ => {},
            }
        },
        PhaseV::Gateway(i, _) => {
            let g = r.plan.gateways@[i as int];
            let s = with_state(
                r,
                ProvisionV {
                    gateways: r.state.gateways.insert(g.gateway_id@, g.gateway_id@),
                    ..r.state
                },
            );
            assert(all_named_recorded(s));
            lemma_track_begins(s, i + 1);
        },
        PhaseV::Device(i, app, profile, step) => {
            lemma_track_devices(r, i as int, app, profile, None, None, true);
            match step {
                DeviceStepV::ReadingAppKey => lemma_track_devices(r, i as int, app, profile, value, None, true),
                DeviceStepV::ReadingNwkKey(k) => lemma_track_devices(r, i as int, app, profile, k, value, true),
                _ => {},
            }
        },
        _ => {},
    }
}


/// What the caller hands back to the machine.
pub enum EventV {
    Reply(Result<JsonV, RequestError>),
    Env(Option<Seq<char>>),
}

/// One step of the machine on an event.
pub open spec fn apply(r: ReconcileV, e: EventV) -> (ReconcileV, ActionV) {
    match e {
        EventV::Reply(x) => on_reply_spec(r, x),
        EventV::Env(v) => on_env_spec(r, v),
    }
}

/// The machine after the events, in order, and the actions it asked for on the way.
pub open spec fn run_from(r: ReconcileV, events: Seq<EventV>) -> (ReconcileV, Seq<ActionV>)
    decreases events.len(),
{
    if events.len() == 0 {
        (r, Seq::empty())
    } else {
        let step = apply(r, events[0]);
        let rest = run_from(step.0, events.drop_first());
        (rest.0, seq![step.1] + rest.1)
    }
}

/// The events answer what the machine asks for, in turn (a reply where it waits
/// for one, a value where it waits for one), and every read of one resource is
/// answered with success: ChirpStack holds every resource that is read.
pub open spec fn confirming_events(r: ReconcileV, events: Seq<EventV>) -> bool
    decreases events.len(),
{
    if events.len() == 0 {
        true
    } else {
        &&& match events[0] {
            EventV::Reply(x) => awaits_reply(r.phase) && (probing(r.phase) ==> x is Ok),
            EventV::Env(_) => awaits_env(r.phase),
        }
        &&& confirming_events(apply(r, events[0]).0, events.drop_first())
    }
}

proof fn lemma_step_keeps_plan(r: ReconcileV, e: EventV)
    requires
        well_formed(r),
        plan_is_valid(r.plan),
        on_recorded_track(r),
        match e {
            EventV::Reply(x) => awaits_reply(r.phase) && (probing(r.phase) ==> x is Ok),
            EventV::Env(_) => awaits_env(r.phase),
        },
    ensures
        well_formed(apply(r, e).0),
        apply(r, e).0.plan == r.plan,
        on_recorded_track(apply(r, e).0),
        !creates(apply(r, e).1),
{
    match e {
        EventV::Reply(x) => {
            law_steps_keep_well_formed(r, x, None);
            law_repeated_reconcile_creates_nothing(r, x, None);
            lemma_reply_keeps_plan(r, x);
        },
        EventV::Env(v) => {
            law_steps_keep_well_formed(r, Err(RequestError::Transport { message: arbitrary() }), v);
            law_repeated_reconcile_creates_nothing(r, Err(RequestError::Transport { message: arbitrary() }), v);
            lemma_env_keeps_plan(r, v);
        },
    }
}

proof fn lemma_reply_keeps_plan(r: ReconcileV, x: Result<JsonV, RequestError>)
    ensures
        on_reply_spec(r, x).0.plan == r.plan,
{
    lemma_begin_profiles(r, 0);
    match r.phase {
        PhaseV::Upsert(kind, step) => {
            match step {
                UpsertStepV::Updating(id) => {
                    lemma_settle_named_plan(r, kind, id);
                },
                UpsertStepV::Creating => {
                    if let Ok(v) = x {
                        if let Some(id) = crate::json::created_id_of(
                            v,
                            crate::error::wrapper_name(named_resource(kind)),
                        ) {
                            lemma_settle_named_plan(r, kind, id);
                        }
                    }
                },
                _ => {},
            }
        },
        PhaseV::Gateway(i, _) => {
            let g = r.plan.gateways@[i as int];
            lemma_begin_gateways(
                with_state(
                    r,
                    ProvisionV {
                        gateways: r.state.gateways.insert(g.gateway_id@, g.gateway_id@),
                        ..r.state
                    },
                ),
                i + 1,
            );
        },
        PhaseV::Device(i, app, profile, _) => {
            lemma_settle_device(r, i as int, app, profile, true);
            lemma_key_reads_plan(r, i as int, app, profile, None, None);
        },
        _ => {},
    }
}

proof fn lemma_env_keeps_plan(r: ReconcileV, v: Option<Seq<char>>)
    ensures
        on_env_spec(r, v).0.plan == r.plan,
{
    match r.phase {
        PhaseV::Device(i, app, profile, step) => {
            match step {
                DeviceStepV::ReadingAppKey => lemma_key_reads_plan(r, i as int, app, profile, v, None),
                DeviceStepV::ReadingNwkKey(k) => lemma_key_reads_plan(r, i as int, app, profile, k, v),
                _ => {},
            }
        },
        _ => {},
    }
}

proof fn lemma_settle_named_plan(r: ReconcileV, kind: Named, id: Seq<char>)
    ensures
        settle_named(r, kind, id).0.plan == r.plan,
{
    let s = with_state(r, record_named(r, kind, id));
    match kind {
        Named::Tenant => lemma_begin_profiles(s, 0),
        Named::DeviceProfile(i) => lemma_begin_profiles(s, i + 1),
        Named::Application(i) => lemma_begin_applications(s, i + 1),
    }
}

proof fn lemma_key_reads_plan(r: ReconcileV, i: int, app: Seq<char>, profile: Seq<char>, app_key: Option<Seq<char>>, nwk_key: Option<Seq<char>>)
    ensures
        keys_known(r, i, app, profile, app_key, nwk_key).0.plan == r.plan,
        read_nwk_key(r, i, app, profile, app_key).0.plan == r.plan,
        read_app_key(r, i, app, profile).0.plan == r.plan,
{
    lemma_settle_device(r, i, app, profile, recorded_keys_applied(r, r.plan.devices@[i].dev_eui@));
}

proof fn lemma_run_creates_nothing(r: ReconcileV, events: Seq<EventV>)
    requires
        well_formed(r),
        plan_is_valid(r.plan),
        on_recorded_track(r),
        confirming_events(r, events),
    ensures
        forall|i: int| 0 <= i < run_from(r, events).1.len() ==> !creates(#[trigger] run_from(r, events).1[i]),
    decreases events.len(),
{
    if events.len() > 0 {
        let step = apply(r, events[0]);
        lemma_step_keeps_plan(r, events[0]);
        lemma_run_creates_nothing(step.0, events.drop_first());
        let rest = run_from(step.0, events.drop_first());
        assert forall|i: int| 0 <= i < run_from(r, events).1.len() implies !creates(#[trigger] run_from(r, events).1[i]) by {
            if i > 0 {
                assert(run_from(r, events).1[i] == rest.1[i - 1]);
            }
        }
    }
}

/// A reconciliation that starts with every named resource of the plan
/// recorded, against a ChirpStack that holds every resource it is asked for,
/// creates nothing in any run: it is all reads and updates.
pub proof fn law_rerun_is_all_reads_and_updates(r: ReconcileV, events: Seq<EventV>)
    requires
        r.phase is Idle,
        plan_is_valid(r.plan),
        all_named_recorded(r),
        confirming_events(start_spec(r).0, events),
    ensures
        !creates(start_spec(r).1),
        forall|i: int|
            0 <= i < run_from(start_spec(r).0, events).1.len() ==> !creates(
                #[trigger] run_from(start_spec(r).0, events).1[i],
            ),
{
    law_steps_keep_well_formed(r, Err(RequestError::Transport { message: arbitrary() }), None);
    law_repeated_reconcile_creates_nothing(r, Err(RequestError::Transport { message: arbitrary() }), None);
    lemma_begin_named_ok(r, Named::Tenant);
    lemma_run_creates_nothing(start_spec(r).0, events);
}

} // verus!

verus! {

/// Validation is monotone: a valid plan stays valid when applications are added
/// after its own and devices are taken away (each device of the new plan is one
/// of the old plan's), its tenant and device profiles kept.
pub proof fn law_validation_is_monotone(p: Plan, q: Plan)
    requires
        plan_is_valid(p),
        q.tenant is Some,
        q.device_profiles@ == p.device_profiles@,
        p.applications@.len() <= q.applications@.len(),
        forall|k: int| 0 <= k < p.applications@.len() ==> q.applications@[k] == p.applications@[k],
        forall|i: int|
            0 <= i < q.devices@.len() ==> exists|j: int|
                0 <= j < p.devices@.len() && #[trigger] q.devices@[i] == #[trigger] p.devices@[j],
    ensures
        plan_is_valid(q),
{
    lemma_no_device_fault(p, p.devices@);
    assert forall|i: int| 0 <= i < q.devices@.len() implies device_fault(q, #[trigger] q.devices@[i]) is None by {
        let j = choose|j: int| 0 <= j < p.devices@.len() && q.devices@[i] == #[trigger] p.devices@[j];
        let d = p.devices@[j];
        assert(device_fault(p, d) is None);
        let ka = choose|k: int| 0 <= k < p.applications@.len() && #[trigger] p.applications@[k].key@ == d.application@;
        assert(q.applications@[ka].key@ == d.application@);
        assert(declares_application(q, d.application@));
        let kp = choose|k: int|
            0 <= k < p.device_profiles@.len() && #[trigger] p.device_profiles@[k].key@ == d.device_profile@;
        assert(q.device_profiles@[kp].key@ == d.device_profile@);
        assert(declares_device_profile(q, d.device_profile@));
    }
    crate::plan::lemma_first_device_fault_none(q, q.devices@);
}

/// The tenant is written only at its own paths: it is created at
/// `/api/tenants` and updated at `/api/tenants/<id>`.
pub proof fn law_tenant_is_written_only_at_its_paths(r: ReconcileV, reply: Result<JsonV, RequestError>)
    requires
        r.phase matches PhaseV::Upsert(Named::Tenant, _),
    ensures
        on_reply_spec(r, reply).1 matches ActionV::Call(req) ==> {
            &&& req.method == Method::Post ==> req.path == "/api/tenants"@
            &&& req.method == Method::Put ==> exists|id: Seq<char>| req.path == item_path("/api/tenants"@, id)
        },
{
    let a = on_reply_spec(r, reply).1;
    match r.phase {
        PhaseV::Upsert(kind, step) => match step {
            UpsertStepV::Confirming(id) => {
                if let ActionV::Call(req) = a {
                    if req.method == Method::Put {
                        assert(req.path == item_path("/api/tenants"@, id));
                    }
                }
            },
            UpsertStepV::Searching => {
                if let Ok(v) = reply {
                    if let Ok((items, complete)) = page_step(r.listing, v) {
                        if let Some(id) = listed_id(items, named_name(r.plan, kind)) {
                            if let ActionV::Call(req) = a {
                                if req.method == Method::Put {
                                    assert(req.path == item_path("/api/tenants"@, id));
                                }
                            }
                        }
                    }
                }
            },
            UpsertStepV::Updating(id) => {
                lemma_settle_named(r, kind, id);
            },
            UpsertStepV::Creating => {
                if let Ok(v) = reply {
                    if let Some(id) = crate::json::created_id_of(
                        v,
                        crate::error::wrapper_name(named_resource(kind)),
                    ) {
                        lemma_settle_named(r, kind, id);
                    }
                }
            },
        },
        _ => {},
    }
}

/// Gateways are recorded under their own identifier, and devices under their
/// own DevEUI.
pub open spec fn self_keyed(s: ProvisionV) -> bool {
    &&& forall|k: Seq<char>| #[trigger] s.gateways.contains_key(k) ==> s.gateways[k] == k
    &&& forall|k: Seq<char>| #[trigger] s.devices.contains_key(k) ==> s.devices[k].dev_eui == k
}

proof fn lemma_key_steps_self_keyed(r: ReconcileV, i: int, app: Seq<char>, profile: Seq<char>, ak: Option<Seq<char>>, nk: Option<Seq<char>>)
    requires
        self_keyed(r.state),
    ensures
        self_keyed(keys_known(r, i, app, profile, ak, nk).0.state),
        self_keyed(read_nwk_key(r, i, app, profile, ak).0.state),
        self_keyed(read_app_key(r, i, app, profile).0.state),
        self_keyed(settle_device(r, i, app, profile, true).0.state),
{
    let recorded = recorded_keys_applied(r, r.plan.devices@[i].dev_eui@);
    lemma_settle_device(r, i, app, profile, recorded);
    lemma_settle_device(r, i, app, profile, true);
}

/// One step keeps gateways and devices recorded under their own identifiers.
pub proof fn lemma_step_keeps_self_keyed(r: ReconcileV, e: EventV)
    requires
        self_keyed(r.state),
    ensures
        self_keyed(apply(r, e).0.state),
{
    match e {
        EventV::Reply(x) => {
            lemma_begin_profiles(r, 0);
            match r.phase {
                PhaseV::Upsert(kind, step) => match step {
                    UpsertStepV::Updating(id) => lemma_settle_named(r, kind, id),
                    UpsertStepV::Creating => {
                        if let Ok(v) = x {
                            if let Some(id) = crate::json::created_id_of(
                                v,
                                crate::error::wrapper_name(named_resource(kind)),
                            ) {
                                lemma_settle_named(r, kind, id);
                            }
                        }
                    },
                    _ => {},
                },
                PhaseV::Gateway(i, _) => {
                    let g = r.plan.gateways@[i as int];
                    lemma_begin_gateways(
                        with_state(
                            r,
                            ProvisionV {
                                gateways: r.state.gateways.insert(g.gateway_id@, g.gateway_id@),
                                ..r.state
                            },
                        ),
                        i + 1,
                    );
                },
                PhaseV::Device(i, app, profile, _) => {
                    lemma_key_steps_self_keyed(r, i as int, app, profile, None, None);
                },
                _ => {},
            }
        },
        EventV::Env(v) => {
            match r.phase {
                PhaseV::Device(i, app, profile, step) => match step {
                    DeviceStepV::ReadingAppKey => lemma_key_steps_self_keyed(r, i as int, app, profile, v, None),
                    DeviceStepV::ReadingNwkKey(k) => lemma_key_steps_self_keyed(r, i as int, app, profile, k, v),
                    _ => {},
                },
                _ => {},
            }
        },
    }
}

/// Over any run, whatever ChirpStack answers (and even on events that the machine
/// did not wait for), gateways stay recorded under their own identifier and
/// devices under their own DevEUI, where they were before the run.
pub proof fn law_run_keeps_self_keyed(r: ReconcileV, events: Seq<EventV>)
    requires
        self_keyed(r.state),
    ensures
        self_keyed(run_from(r, events).0.state),
    decreases events.len(),
{
    if events.len() > 0 {
        lemma_step_keeps_self_keyed(r, events[0]);
        law_run_keeps_self_keyed(apply(r, events[0]).0, events.drop_first());
    }
}

/// Starting keeps gateways and devices recorded under their own identifiers.
pub proof fn law_start_keeps_self_keyed(r: ReconcileV)
    requires
        self_keyed(r.state),
    ensures
        self_keyed(start_spec(r).0.state),
{
    lemma_begin_profiles(r, 0);
}


/// ChirpStack holds the resource that a reply concerns: a read of a gateway, a
/// device or a device's keys is not answered 404, and a complete listing names
/// the resource that is searched.
pub open spec fn holds_resource(r: ReconcileV, x: Result<JsonV, RequestError>) -> bool {
    match r.phase {
        PhaseV::Upsert(kind, UpsertStepV::Searching) => match x {
            Ok(v) => match page_step(r.listing, v) {
                Ok((items, complete)) => complete ==> listed_id(items, named_name(r.plan, kind)) is Some,
                Err(_) => true,
            },
            Err(_) => true,
        },
        PhaseV::Upsert(_, _) => true,
        _ => !(x matches Err(e) && is_not_found(e)),
    }
}

/// The events answer what the machine asks for, in turn, from a ChirpStack that
/// holds every resource of the plan (under the recorded identifiers or not).
pub open spec fn holding_events(r: ReconcileV, events: Seq<EventV>) -> bool
    decreases events.len(),
{
    if events.len() == 0 {
        true
    } else {
        &&& match events[0] {
            EventV::Reply(x) => awaits_reply(r.phase) && holds_resource(r, x),
            EventV::Env(_) => awaits_env(r.phase),
        }
        &&& holding_events(apply(r, events[0]).0, events.drop_first())
    }
}

/// The machine is not creating a named resource.
pub open spec fn not_creating(p: PhaseV) -> bool {
    !(p matches PhaseV::Upsert(_, UpsertStepV::Creating))
}

proof fn lemma_begins_not_creating(r: ReconcileV, i: int)
    ensures
        not_creating(begin_profiles(r, i).0.phase),
        not_creating(begin_applications(r, i).0.phase),
        not_creating(begin_gateways(r, i).0.phase),
        not_creating(begin_devices(r, i).0.phase),
{
}

proof fn lemma_key_steps_not_creating(r: ReconcileV, i: int, app: Seq<char>, profile: Seq<char>, ak: Option<Seq<char>>, nk: Option<Seq<char>>)
    ensures
        not_creating(keys_known(r, i, app, profile, ak, nk).0.phase),
        not_creating(read_nwk_key(r, i, app, profile, ak).0.phase),
        not_creating(read_app_key(r, i, app, profile).0.phase),
        not_creating(settle_device(r, i, app, profile, true).0.phase),
{
    let eui = r.plan.devices@[i].dev_eui@;
    let st = |applied: bool| ProvisionV {
        devices: r.state.devices.insert(
            eui,
            crate::plan::DeviceStateV {
                dev_eui: eui,
                application_id: app,
                device_profile_id: profile,
                keys_applied: applied,
            },
        ),
        ..r.state
    };
    lemma_begins_not_creating(with_state(r, st(true)), i + 1);
    lemma_begins_not_creating(with_state(r, st(recorded_keys_applied(r, eui))), i + 1);
}

proof fn lemma_holding_step(r: ReconcileV, e: EventV)
    requires
        well_formed(r),
        not_creating(r.phase),
        match e {
            EventV::Reply(x) => awaits_reply(r.phase) && holds_resource(r, x),
            EventV::Env(_) => awaits_env(r.phase),
        },
    ensures
        well_formed(apply(r, e).0),
        not_creating(apply(r, e).0.phase),
        !creates(apply(r, e).1),
{
    match e {
        EventV::Reply(x) => {
            law_steps_keep_well_formed(r, x, None);
            match r.phase {
                PhaseV::Upsert(kind, step) => match step {
                    UpsertStepV::Updating(id) => {
                        lemma_settle_named(r, kind, id);
                        let s = with_state(r, record_named(r, kind, id));
                        lemma_begins_not_creating(s, 0);
                        match kind {
                            Named::Tenant => {},
                            Named::DeviceProfile(i) => lemma_begins_not_creating(s, i + 1),
                            Named::Application(i) => lemma_begins_not_creating(s, i + 1),
                        }
                    },
                    _ => {},
                },
                PhaseV::Gateway(i, _) => {
                    let g = r.plan.gateways@[i as int];
                    let s = with_state(
                        r,
                        ProvisionV {
                            gateways: r.state.gateways.insert(g.gateway_id@, g.gateway_id@),
                            ..r.state
                        },
                    );
                    lemma_begin_gateways(s, i + 1);
                    lemma_begins_not_creating(s, i + 1);
                },
                PhaseV::Device(i, app, profile, _) => {
                    lemma_key_reads(r, i as int, app, profile, None, None);
                    lemma_settle_device(r, i as int, app, profile, true);
                    lemma_key_steps_not_creating(r, i as int, app, profile, None, None);
                },
                _ => {},
            }
        },
        EventV::Env(v) => {
            law_steps_keep_well_formed(r, Err(RequestError::Transport { message: arbitrary() }), v);
            law_reads_come_first(r, v);
            match r.phase {
                PhaseV::Device(i, app, profile, step) => match step {
                    DeviceStepV::ReadingAppKey => lemma_key_steps_not_creating(r, i as int, app, profile, v, None),
                    DeviceStepV::ReadingNwkKey(k) => lemma_key_steps_not_creating(r, i as int, app, profile, k, v),
                    _ => {},
                },
                _ => {},
            }
        },
    }
}

proof fn lemma_holding_run(r: ReconcileV, events: Seq<EventV>)
    requires
        well_formed(r),
        not_creating(r.phase),
        holding_events(r, events),
    ensures
        forall|i: int| 0 <= i < run_from(r, events).1.len() ==> !creates(#[trigger] run_from(r, events).1[i]),
    decreases events.len(),
{
    if events.len() > 0 {
        let step = apply(r, events[0]);
        lemma_holding_step(r, events[0]);
        lemma_holding_run(step.0, events.drop_first());
        let rest = run_from(step.0, events.drop_first());
        assert forall|i: int| 0 <= i < run_from(r, events).1.len() implies !creates(#[trigger] run_from(r, events).1[i]) by {
            if i > 0 {
                assert(run_from(r, events).1[i] == rest.1[i - 1]);
            }
        }
    }
}

/// Against a ChirpStack that holds every resource of the plan, no reconciliation
/// creates anything, whatever identifiers it starts from (none at all
/// included): the tenant, profiles and applications are found again by name,
/// gateways and devices by their identifiers, and only updated.
pub proof fn law_holding_chirpstack_creates_nothing(r: ReconcileV, events: Seq<EventV>)
    requires
        r.phase is Idle,
        holding_events(start_spec(r).0, events),
    ensures
        !creates(start_spec(r).1),
        forall|i: int|
            0 <= i < run_from(start_spec(r).0, events).1.len() ==> !creates(
                #[trigger] run_from(start_spec(r).0, events).1[i],
            ),
{
    law_steps_keep_well_formed(r, Err(RequestError::Transport { message: arbitrary() }), None);
    law_reads_come_first(r, None);
    lemma_holding_run(start_spec(r).0, events);
}


/// The identifiers of the named resources are those of `s0`, and an identifier
/// that is being confirmed or written is the one recorded.
pub open spec fn keeps_named_ids(r: ReconcileV, s0: ProvisionV) -> bool {
    &&& r.state.tenant_id == s0.tenant_id
    &&& r.state.device_profiles == s0.device_profiles
    &&& r.state.applications == s0.applications
    &&& match r.phase {
        PhaseV::Upsert(kind, UpsertStepV::Confirming(id)) => known_id(r, kind) == Some(id),
        PhaseV::Upsert(kind, UpsertStepV::Updating(id)) => known_id(r, kind) == Some(id),
        _ => true,
    }
}

proof fn lemma_begins_keep_named_ids(r: ReconcileV, s0: ProvisionV, i: int)
    requires
        r.state.tenant_id == s0.tenant_id,
        r.state.device_profiles == s0.device_profiles,
        r.state.applications == s0.applications,
    ensures
        keeps_named_ids(begin_profiles(r, i).0, s0),
        keeps_named_ids(begin_applications(r, i).0, s0),
        keeps_named_ids(begin_gateways(r, i).0, s0),
        keeps_named_ids(begin_devices(r, i).0, s0),
{
    lemma_begin_profiles(r, i);
    lemma_begin_applications(r, i);
    lemma_begin_gateways(r, i);
    lemma_begin_devices(r, i);
}

proof fn lemma_key_steps_keep_named_ids(
    r: ReconcileV,
    s0: ProvisionV,
    i: int,
    app: Seq<char>,
    profile: Seq<char>,
    ak: Option<Seq<char>>,
    nk: Option<Seq<char>>,
)
    requires
        r.state.tenant_id == s0.tenant_id,
        r.state.device_profiles == s0.device_profiles,
        r.state.applications == s0.applications,
    ensures
        keeps_named_ids(keys_known(r, i, app, profile, ak, nk).0, s0),
        keeps_named_ids(read_nwk_key(r, i, app, profile, ak).0, s0),
        keeps_named_ids(read_app_key(r, i, app, profile).0, s0),
        keeps_named_ids(settle_device(r, i, app, profile, true).0, s0),
{
    let eui = r.plan.devices@[i].dev_eui@;
    let st = |applied: bool| ProvisionV {
        devices: r.state.devices.insert(
            eui,
            crate::plan::DeviceStateV {
                dev_eui: eui,
                application_id: app,
                device_profile_id: profile,
                keys_applied: applied,
            },
        ),
        ..r.state
    };
    lemma_begins_keep_named_ids(with_state(r, st(true)), s0, i + 1);
    lemma_begins_keep_named_ids(with_state(r, st(recorded_keys_applied(r, eui))), s0, i + 1);
}

proof fn lemma_rerun_step(r: ReconcileV, s0: ProvisionV, e: EventV)
    requires
        well_formed(r),
        plan_is_valid(r.plan),
        on_recorded_track(r),
        keeps_named_ids(r, s0),
        match e {
            EventV::Reply(x) => awaits_reply(r.phase) && (probing(r.phase) ==> x is Ok),
            EventV::Env(_) => awaits_env(r.phase),
        },
    ensures
        keeps_named_ids(apply(r, e).0, s0),
{
    match e {
        EventV::Reply(x) => {
            match r.phase {
                PhaseV::Upsert(kind, UpsertStepV::Updating(id)) => {
                    let s = with_state(r, record_named(r, kind, id));
                    assert(s.state.device_profiles =~= r.state.device_profiles);
                    assert(s.state.applications =~= r.state.applications);
                    match kind {
                        Named::Tenant => lemma_begins_keep_named_ids(s, s0, 0),
                        Named::DeviceProfile(i) => lemma_begins_keep_named_ids(s, s0, i + 1),
                        Named::Application(i) => lemma_begins_keep_named_ids(s, s0, i + 1),
                    }
                },
                PhaseV::Gateway(i, _) => {
                    let g = r.plan.gateways@[i as int];
                    let s = with_state(
                        r,
                        ProvisionV {
                            gateways: r.state.gateways.insert(g.gateway_id@, g.gateway_id@),
                            ..r.state
                        },
                    );
                    lemma_begins_keep_named_ids(s, s0, i + 1);
                },
                PhaseV::Device(i, app, profile, _) => {
                    lemma_key_steps_keep_named_ids(r, s0, i as int, app, profile, None, None);
                },
                _ => {},
            }
        },
        EventV::Env(v) => {
            match r.phase {
                PhaseV::Device(i, app, profile, step) => match step {
                    DeviceStepV::ReadingAppKey => lemma_key_steps_keep_named_ids(r, s0, i as int, app, profile, v, None),
                    DeviceStepV::ReadingNwkKey(k) => lemma_key_steps_keep_named_ids(r, s0, i as int, app, profile, k, v),
                    _ => {},
                },
                _ => {},
            }
        },
    }
}

proof fn lemma_rerun(r: ReconcileV, s0: ProvisionV, events: Seq<EventV>)
    requires
        well_formed(r),
        plan_is_valid(r.plan),
        on_recorded_track(r),
        keeps_named_ids(r, s0),
        confirming_events(r, events),
    ensures
        keeps_named_ids(run_from(r, events).0, s0),
    decreases events.len(),
{
    if events.len() > 0 {
        lemma_step_keeps_plan(r, events[0]);
        lemma_rerun_step(r, s0, events[0]);
        lemma_rerun(apply(r, events[0]).0, s0, events.drop_first());
    }
}

/// A reconciliation that starts with every named resource of the plan recorded,
/// against a ChirpStack that confirms every resource it is asked for, ends with
/// the same identifiers of the tenant, profiles and applications as it started:
/// a repeated reconciliation keeps the recorded state.
pub proof fn law_confirmed_rerun_keeps_named_ids(r: ReconcileV, events: Seq<EventV>)
    requires
        r.phase is Idle,
        plan_is_valid(r.plan),
        all_named_recorded(r),
        confirming_events(start_spec(r).0, events),
    ensures
        run_from(start_spec(r).0, events).0.state.tenant_id == r.state.tenant_id,
        run_from(start_spec(r).0, events).0.state.device_profiles == r.state.device_profiles,
        run_from(start_spec(r).0, events).0.state.applications == r.state.applications,
{
    law_steps_keep_well_formed(r, Err(RequestError::Transport { message: arbitrary() }), None);
    law_repeated_reconcile_creates_nothing(r, Err(RequestError::Transport { message: arbitrary() }), None);
    lemma_begin_profiles(r, 0);
    lemma_rerun(start_spec(r).0, r.state, events);
}


/// Whether a key was given, with its value forgotten.
pub open spec fn presence(k: Option<Seq<char>>) -> Option<Seq<char>> {
    match k {
        Some(_) => Some(Seq::empty()),
        None => None,
    }
}

/// The phase with the values of the keys that it carries forgotten.
pub open spec fn without_key_values(p: PhaseV) -> PhaseV {
    match p {
        PhaseV::Device(i, a, pr, DeviceStepV::ReadingNwkKey(k)) => PhaseV::Device(
            i,
            a,
            pr,
            DeviceStepV::ReadingNwkKey(presence(k)),
        ),
        PhaseV::Device(i, a, pr, DeviceStepV::ProbingKeys(k, n)) => PhaseV::Device(
            i,
            a,
            pr,
            DeviceStepV::ProbingKeys(presence(k), presence(n)),
        ),
        _ => p,
    }
}

/// Two machines that differ at most in the values of the keys they carry.
pub open spec fn same_but_key_values(r1: ReconcileV, r2: ReconcileV) -> bool {
    &&& r1.plan == r2.plan
    &&& r1.state == r2.state
    &&& r1.listing == r2.listing
    &&& without_key_values(r1.phase) == without_key_values(r2.phase)
}

/// Two events that differ at most in the value of an environment variable, not
/// in whether it is set.
pub open spec fn same_but_values(e1: EventV, e2: EventV) -> bool {
    match (e1, e2) {
        (EventV::Reply(x), EventV::Reply(y)) => x == y,
        (EventV::Env(v), EventV::Env(w)) => presence(v) == presence(w),
        _ => false,
    }
}

/// Two actions that differ at most in the body of a call: the same call (method
/// and path), the same variable read, or the same outcome.
pub open spec fn same_but_bodies(a1: ActionV, a2: ActionV) -> bool {
    match (a1, a2) {
        (ActionV::Call(q1), ActionV::Call(q2)) => q1.method == q2.method && q1.path == q2.path,
        (ActionV::ReadEnv(n1), ActionV::ReadEnv(n2)) => n1 == n2,
        (ActionV::Finish(x), ActionV::Finish(y)) => x == y,
        _ => false,
    }
}

proof fn lemma_key_values_step(r1: ReconcileV, r2: ReconcileV, e1: EventV, e2: EventV)
    requires
        same_but_key_values(r1, r2),
        same_but_values(e1, e2),
    ensures
        same_but_key_values(apply(r1, e1).0, apply(r2, e2).0),
        same_but_bodies(apply(r1, e1).1, apply(r2, e2).1),
{
    if r1.phase == r2.phase {
        assert(r1 == r2);
    }
    match (e1, e2) {
        (EventV::Reply(x), EventV::Reply(_)) => {
            match r1.phase {
                PhaseV::Device(i, app, profile, DeviceStepV::ProbingKeys(_, _)) => {},
                _ => {},
            }
        },
        (EventV::Env(v), EventV::Env(w)) => {
            match r1.phase {
                PhaseV::Device(i, app, profile, DeviceStepV::ReadingAppKey) => {
                    assert(r1 == r2);
                },
                PhaseV::Device(i, app, profile, DeviceStepV::ReadingNwkKey(k)) => {
                    let k2 = r2.phase->Device_3->ReadingNwkKey_0;
                    assert(r2.phase == PhaseV::Device(i, app, profile, DeviceStepV::ReadingNwkKey(k2)));
                    assert(presence(k) == presence(k2));
                    let s1 = with_phase(r1, PhaseV::Idle);
                    let s2 = with_phase(r2, PhaseV::Idle);
                    assert(s1 == s2);
                },
                _ => {},
            }
        },
        _ => {},
    }
}

/// Events that differ at most in the values of environment variables.
pub open spec fn same_events_but_values(e1: Seq<EventV>, e2: Seq<EventV>) -> bool {
    &&& e1.len() == e2.len()
    &&& forall|i: int| 0 <= i < e1.len() ==> same_but_values(#[trigger] e1[i], e2[i])
}

/// The values of the OTAA keys change neither the calls nor the outcome: two
/// runs on events that differ only in the values of the key variables (not in
/// whether they are set) ask for the same calls (the same methods and paths, the
/// keys' values reaching only the body that writes the keys), read the same
/// variables, and end with the same result.
pub proof fn law_key_values_change_no_call_or_outcome(
    r1: ReconcileV,
    r2: ReconcileV,
    e1: Seq<EventV>,
    e2: Seq<EventV>,
)
    requires
        same_but_key_values(r1, r2),
        same_events_but_values(e1, e2),
    ensures
        run_from(r1, e1).1.len() == run_from(r2, e2).1.len(),
        forall|i: int|
            0 <= i < run_from(r1, e1).1.len() ==> same_but_bodies(
                #[trigger] run_from(r1, e1).1[i],
                run_from(r2, e2).1[i],
            ),
    decreases e1.len(),
{
    if e1.len() > 0 {
        lemma_key_values_step(r1, r2, e1[0], e2[0]);
        let t1 = e1.drop_first();
        let t2 = e2.drop_first();
        assert forall|i: int| 0 <= i < t1.len() implies same_but_values(#[trigger] t1[i], t2[i]) by {
            assert(t1[i] == e1[i + 1]);
            assert(t2[i] == e2[i + 1]);
        }
        let n1 = apply(r1, e1[0]).0;
        let n2 = apply(r2, e2[0]).0;
        law_key_values_change_no_call_or_outcome(n1, n2, t1, t2);
        let rest1 = run_from(n1, t1);
        let rest2 = run_from(n2, t2);
        assert forall|i: int| 0 <= i < run_from(r1, e1).1.len() implies same_but_bodies(
            #[trigger] run_from(r1, e1).1[i],
            run_from(r2, e2).1[i],
        ) by {
            if i > 0 {
                assert(run_from(r1, e1).1[i] == rest1.1[i - 1]);
                assert(run_from(r2, e2).1[i] == rest2.1[i - 1]);
            }
        }
    }
}

/// The values of the OTAA keys never reach the recorded state: two runs on
/// events that differ only in the values of the key variables (not in whether
/// they are set) record the same identifiers and the same device states.
pub proof fn law_key_values_never_reach_the_state(r1: ReconcileV, r2: ReconcileV, e1: Seq<EventV>, e2: Seq<EventV>)
    requires
        same_but_key_values(r1, r2),
        same_events_but_values(e1, e2),
    ensures
        same_but_key_values(run_from(r1, e1).0, run_from(r2, e2).0),
        run_from(r1, e1).0.state == run_from(r2, e2).0.state,
    decreases e1.len(),
{
    if e1.len() > 0 {
        lemma_key_values_step(r1, r2, e1[0], e2[0]);
        let t1 = e1.drop_first();
        let t2 = e2.drop_first();
        assert forall|i: int| 0 <= i < t1.len() implies same_but_values(#[trigger] t1[i], t2[i]) by {
            assert(t1[i] == e1[i + 1]);
            assert(t2[i] == e2[i + 1]);
        }
        law_key_values_never_reach_the_state(apply(r1, e1[0]).0, apply(r2, e2[0]).0, t1, t2);
    }
}


/// The action writes: a create or an update.
pub open spec fn writes(a: ActionV) -> bool {
    a matches ActionV::Call(req) && req.method != Method::Get
}

/// The body writes the named resource as the plan declares it.
pub open spec fn declares_named(r: ReconcileV, kind: Named, body: JsonV) -> bool {
    match kind {
        Named::Tenant => declares_tenant(body, r.plan.tenant->0),
        Named::DeviceProfile(i) => declares_profile(body, r.plan.device_profiles@[i as int], tenant_of(r)),
        Named::Application(i) => crate::wire::declares_application(body, r.plan.applications@[i as int], tenant_of(r)),
    }
}

proof fn lemma_named_bodies_declare(r: ReconcileV, kind: Named)
    ensures
        forall|id: Option<Seq<char>>| #[trigger] declares_named(r, kind, named_body(r, kind, id)),
{
    assert forall|id: Option<Seq<char>>| #[trigger] declares_named(r, kind, named_body(r, kind, id)) by {
        match kind {
            Named::Tenant => law_tenant_body_declares_the_tenant(r.plan.tenant->0, id),
            Named::DeviceProfile(i) => law_profile_body_declares_the_profile(
                r.plan.device_profiles@[i as int],
                tenant_of(r),
                id,
            ),
            Named::Application(i) => law_application_body_declares_the_application(
                r.plan.applications@[i as int],
                tenant_of(r),
                id,
            ),
        }
    }
}

/// The collection of a kind of named resource in ChirpStack's API.
pub open spec fn collection(kind: Named) -> Seq<char> {
    match kind {
        Named::Tenant => "/api/tenants"@,
        Named::DeviceProfile(_) => "/api/device-profiles"@,
        Named::Application(_) => "/api/applications"@,
    }
}

/// The name under which a body wraps a kind of named resource.
pub open spec fn wrapper_of(kind: Named) -> Seq<char> {
    match kind {
        Named::Tenant => "tenant"@,
        Named::DeviceProfile(_) => "device_profile"@,
        Named::Application(_) => "application"@,
    }
}

/// A create of a named resource goes to its collection without an identifier;
/// an update goes to the resource's own path and carries the same identifier.
pub open spec fn writes_at_its_place(kind: Named, req: crate::request::RequestV, body: JsonV) -> bool {
    &&& req.method == Method::Post ==> req.path == collection(kind) && carries_id(body, wrapper_of(kind), None)
    &&& req.method == Method::Put ==> exists|id: Seq<char>|
        req.path == collection(kind) + "/"@ + id && #[trigger] carries_id(body, wrapper_of(kind), Some(id))
}

proof fn lemma_named_bodies_carry_ids(r: ReconcileV, kind: Named)
    ensures
        forall|id: Option<Seq<char>>| #[trigger] carries_id(named_body(r, kind, id), wrapper_of(kind), id),
{
    assert forall|id: Option<Seq<char>>| #[trigger] carries_id(named_body(r, kind, id), wrapper_of(kind), id) by {
        match kind {
            Named::Tenant => law_tenant_body_declares_the_tenant(r.plan.tenant->0, id),
            Named::DeviceProfile(i) => law_profile_body_declares_the_profile(
                r.plan.device_profiles@[i as int],
                tenant_of(r),
                id,
            ),
            Named::Application(i) => law_application_body_declares_the_application(
                r.plan.applications@[i as int],
                tenant_of(r),
                id,
            ),
        }
    }
}

/// Every write of a named resource (the tenant, a device profile or an
/// application), whether it creates or updates it, carries the resource as the
/// plan declares it, each declared setting under its own name; a create goes to
/// the collection without an identifier, an update to the resource's own path
/// with that identifier in its body.
pub proof fn law_named_writes_declare_the_resource(r: ReconcileV, kind: Named, reply: Result<JsonV, RequestError>)
    requires
        r.phase matches PhaseV::Upsert(k, _) && k == kind,
    ensures
        writes(on_reply_spec(r, reply).1) ==> (on_reply_spec(r, reply).1 matches ActionV::Call(req)
            && (req.body matches Some(b) && declares_named(r, kind, b) && writes_at_its_place(kind, req, b))),
{
    lemma_named_bodies_declare(r, kind);
    lemma_named_bodies_carry_ids(r, kind);
    reveal_strlit("/api/tenants");
    reveal_strlit("/api/device-profiles");
    reveal_strlit("/api/applications");
    let next_of = |items: Seq<JsonV>| ReconcileV { listing: items, ..r };
    match r.phase {
        PhaseV::Upsert(_, step) => match step {
            UpsertStepV::Searching => {
                if let Ok(v) = reply {
                    if let Ok((items, complete)) = page_step(r.listing, v) {
                        let next = next_of(items);
                        lemma_named_bodies_declare(next, kind);
                        lemma_named_bodies_carry_ids(next, kind);
                        assert forall|id: Option<Seq<char>>| declares_named(next, kind, #[trigger] named_body(next, kind, id))
                            implies declares_named(r, kind, named_body(next, kind, id)) by {}
                        if complete {
                            if let Some(id) = listed_id(items, named_name(r.plan, kind)) {
                                assert(carries_id(named_body(next, kind, Some(id)), wrapper_of(kind), Some(id)));
                                assert(item_path(named_base(kind), id) == collection(kind) + "/"@ + id);
                            }
                            assert(carries_id(named_body(next, kind, None), wrapper_of(kind), None));
                        }
                    }
                }
            },
            UpsertStepV::Confirming(id) => {
                assert(carries_id(named_body(r, kind, Some(id)), wrapper_of(kind), Some(id)));
                assert(item_path(named_base(kind), id) == collection(kind) + "/"@ + id);
            },
            UpsertStepV::Updating(id) => {
                lemma_settle_named(r, kind, id);
            },
            UpsertStepV::Creating => {
                if let Ok(v) = reply {
                    if let Some(id) = crate::json::created_id_of(
                        v,
                        crate::error::wrapper_name(named_resource(kind)),
                    ) {
                        lemma_settle_named(r, kind, id);
                    }
                }
            },
            _ => {},
        },
        _ => {},
    }
}

/// Every write of a gateway, whether it creates or updates it, carries the
/// gateway as the plan declares it.
pub proof fn law_gateway_writes_declare_the_gateway(r: ReconcileV, i: usize, step: WriteStep, reply: Result<JsonV, RequestError>)
    requires
        r.phase == PhaseV::Gateway(i, step),
    ensures
        writes(on_reply_spec(r, reply).1) ==> (on_reply_spec(r, reply).1 matches ActionV::Call(req)
            && (req.body matches Some(b) && declares_gateway(b, r.plan.gateways@[i as int], tenant_of(r)))),
        on_reply_spec(r, reply).1 matches ActionV::Call(req) ==> {
            &&& req.method == Method::Post ==> req.path == "/api/gateways"@
            &&& req.method == Method::Put ==> req.path == "/api/gateways/"@ + r.plan.gateways@[i as int].gateway_id@
        },
{
    law_gateway_body_declares_the_gateway(r.plan.gateways@[i as int], tenant_of(r));
    let g = r.plan.gateways@[i as int];
    lemma_begin_gateways(
        with_state(
            r,
            ProvisionV {
                gateways: r.state.gateways.insert(g.gateway_id@, g.gateway_id@),
                ..r.state
            },
        ),
        i + 1,
    );
}

/// The path of the keys of the device `dev_eui`.
pub open spec fn keys_path(dev_eui: Seq<char>) -> Seq<char> {
    "/api/devices/"@ + dev_eui + "/keys"@
}

/// Every write of a device carries the device as the plan declares it, with the
/// identifiers of its application and profile; every write of its keys goes to
/// the device's keys and carries the keys read from the environment.
pub proof fn law_device_writes_declare_the_device(
    r: ReconcileV,
    i: usize,
    app: Seq<char>,
    profile: Seq<char>,
    step: DeviceStepV,
    reply: Result<JsonV, RequestError>,
)
    requires
        r.phase == PhaseV::Device(i, app, profile, step),
    ensures
        step is Probing && writes(on_reply_spec(r, reply).1) ==> (on_reply_spec(r, reply).1 matches ActionV::Call(req)
            && (req.body matches Some(b) && declares_device(b, r.plan.devices@[i as int], app, profile))
            && (req.method == Method::Post ==> req.path == "/api/devices"@)
            && (req.method == Method::Put ==> req.path == "/api/devices/"@ + r.plan.devices@[i as int].dev_eui@)),
        step is ProbingKeys && writes(on_reply_spec(r, reply).1) ==> (on_reply_spec(r, reply).1 matches ActionV::Call(req)
            && req.path == keys_path(r.plan.devices@[i as int].dev_eui@)
            && (req.body matches Some(b) && declares_keys(
                b,
                r.plan.devices@[i as int].dev_eui@,
                step->ProbingKeys_0,
                step->ProbingKeys_1,
            ))),
        !(step is Probing) && !(step is ProbingKeys) ==> !writes(on_reply_spec(r, reply).1),
{
    let d = r.plan.devices@[i as int];
    law_device_body_declares_the_device(d, app, profile);
    lemma_key_reads(r, i as int, app, profile, None, None);
    lemma_settle_device(r, i as int, app, profile, true);
    if let DeviceStepV::ProbingKeys(ak, nk) = step {
        law_keys_body_declares_the_keys(d.dev_eui@, ak, nk);
    }
}

/// The OTAA keys are written whenever either of them is set: once the network
/// key's variable is read, a set application key or a set network key leads to a
/// read of the device's keys (to write them next); only with neither set is the
/// device recorded without writing keys, with the flag recorded for it before.
pub proof fn law_keys_are_written_when_either_is_set(
    r: ReconcileV,
    i: usize,
    app: Seq<char>,
    profile: Seq<char>,
    app_key: Option<Seq<char>>,
    value: Option<Seq<char>>,
)
    requires
        r.phase == PhaseV::Device(i, app, profile, DeviceStepV::ReadingNwkKey(app_key)),
    ensures
        app_key is Some || value is Some ==> {
            &&& on_env_spec(r, value).1 == ActionV::Call(get_v(keys_path(r.plan.devices@[i as int].dev_eui@)))
            &&& on_env_spec(r, value).0.phase == PhaseV::Device(i, app, profile, DeviceStepV::ProbingKeys(app_key, value))
        },
        app_key is None && value is None ==> {
            let eui = r.plan.devices@[i as int].dev_eui@;
            &&& on_env_spec(r, value).0.state.devices.contains_key(eui)
            &&& on_env_spec(r, value).0.state.devices[eui].keys_applied == (r.state.devices.contains_key(eui)
                && r.state.devices[eui].keys_applied)
        },
{
    lemma_settle_device(r, i as int, app, profile, recorded_keys_applied(r, r.plan.devices@[i as int].dev_eui@));
}

/// Where a device names no variable for its network key, a set application key
/// leads to a read of the device's keys, to write them next; where it names one,
/// that variable is read next.
pub proof fn law_app_key_alone_is_written(
    r: ReconcileV,
    i: usize,
    app: Seq<char>,
    profile: Seq<char>,
    value: Option<Seq<char>>,
)
    requires
        r.phase == PhaseV::Device(i, app, profile, DeviceStepV::ReadingAppKey),
    ensures
        r.plan.devices@[i as int].nwk_key_env matches Some(n) ==> on_env_spec(r, value) == (
            with_phase(r, PhaseV::Device(i, app, profile, DeviceStepV::ReadingNwkKey(value))),
            ActionV::ReadEnv(n@),
        ),
        r.plan.devices@[i as int].nwk_key_env is None && value is Some ==> {
            &&& on_env_spec(r, value).1 == ActionV::Call(get_v(keys_path(r.plan.devices@[i as int].dev_eui@)))
            &&& on_env_spec(r, value).0.phase == PhaseV::Device(i, app, profile, DeviceStepV::ProbingKeys(value, None))
        },
{
}

/// After a device is written, the variables that it names for its keys are read,
/// the application key's first; a device that names neither is recorded without
/// writing keys, with the flag recorded for it before.
pub proof fn law_key_variables_are_read_after_the_device(
    r: ReconcileV,
    i: usize,
    app: Seq<char>,
    profile: Seq<char>,
    reply: JsonV,
)
    requires
        r.phase == PhaseV::Device(i, app, profile, DeviceStepV::Writing),
    ensures
        r.plan.devices@[i as int].app_key_env matches Some(n) ==> on_reply_spec(r, Ok(reply)) == (
            with_phase(r, PhaseV::Device(i, app, profile, DeviceStepV::ReadingAppKey)),
            ActionV::ReadEnv(n@),
        ),
        r.plan.devices@[i as int].app_key_env is None ==> (r.plan.devices@[i as int].nwk_key_env matches Some(n)
            ==> on_reply_spec(r, Ok(reply)) == (
            with_phase(r, PhaseV::Device(i, app, profile, DeviceStepV::ReadingNwkKey(None))),
            ActionV::ReadEnv(n@),
        )),
        r.plan.devices@[i as int].app_key_env is None && r.plan.devices@[i as int].nwk_key_env is None ==> {
            let eui = r.plan.devices@[i as int].dev_eui@;
            &&& !writes(on_reply_spec(r, Ok(reply)).1)
            &&& on_reply_spec(r, Ok(reply)).0.state.devices.contains_key(eui)
            &&& on_reply_spec(r, Ok(reply)).0.state.devices[eui].keys_applied == (r.state.devices.contains_key(eui)
                && r.state.devices[eui].keys_applied)
        },
{
    lemma_settle_device(r, i as int, app, profile, recorded_keys_applied(r, r.plan.devices@[i as int].dev_eui@));
}

/// The keys of a device are updated where ChirpStack holds them and created
/// where it answers 404, at the device's keys.
pub proof fn law_keys_are_updated_or_created(
    r: ReconcileV,
    i: usize,
    app: Seq<char>,
    profile: Seq<char>,
    app_key: Option<Seq<char>>,
    nwk_key: Option<Seq<char>>,
    reply: Result<JsonV, RequestError>,
)
    requires
        r.phase == PhaseV::Device(i, app, profile, DeviceStepV::ProbingKeys(app_key, nwk_key)),
    ensures
        reply is Ok || (reply matches Err(e) && is_not_found(e)) ==> {
            &&& on_reply_spec(r, reply).1 matches ActionV::Call(req)
            &&& req.path == keys_path(r.plan.devices@[i as int].dev_eui@)
            &&& req.method == (if reply is Ok { Method::Put } else { Method::Post })
            &&& on_reply_spec(r, reply).0.phase == PhaseV::Device(i, app, profile, DeviceStepV::WritingKeys)
        },
{
}

/// Once the keys are written, the device is recorded under its DevEUI with its
/// application, its profile and its keys applied.
pub proof fn law_written_keys_are_recorded(r: ReconcileV, i: usize, app: Seq<char>, profile: Seq<char>, reply: JsonV)
    requires
        r.phase == PhaseV::Device(i, app, profile, DeviceStepV::WritingKeys),
    ensures
        ({
            let eui = r.plan.devices@[i as int].dev_eui@;
            &&& on_reply_spec(r, Ok(reply)).0.state.devices.contains_key(eui)
            &&& on_reply_spec(r, Ok(reply)).0.state.devices[eui] == crate::plan::DeviceStateV {
                dev_eui: eui,
                application_id: app,
                device_profile_id: profile,
                keys_applied: true,
            }
        }),
{
    lemma_settle_device(r, i as int, app, profile, true);
}


/// Once a named resource is written under `id`, that identifier is recorded for
/// it: as the tenant's, or under the key that the plan gives the profile or
/// application; the other recorded identifiers stay as they were.
pub proof fn law_written_id_is_recorded_under_its_key(r: ReconcileV, kind: Named, id: Seq<char>, reply: JsonV)
    requires
        r.phase == PhaseV::Upsert(kind, UpsertStepV::Updating(id)),
    ensures
        ({
            let s = on_reply_spec(r, Ok(reply)).0.state;
            match kind {
                Named::Tenant => {
                    &&& s.tenant_id == Some(id)
                    &&& s.device_profiles == r.state.device_profiles
                    &&& s.applications == r.state.applications
                },
                Named::DeviceProfile(i) => {
                    &&& s.tenant_id == r.state.tenant_id
                    &&& s.device_profiles.contains_key(r.plan.device_profiles@[i as int].key@)
                    &&& s.device_profiles[r.plan.device_profiles@[i as int].key@] == id
                    &&& forall|k: Seq<char>| k != r.plan.device_profiles@[i as int].key@ ==> (
                        #[trigger] s.device_profiles.contains_key(k) == r.state.device_profiles.contains_key(k)
                        && s.device_profiles[k] == r.state.device_profiles[k])
                    &&& s.applications == r.state.applications
                },
                Named::Application(i) => {
                    &&& s.tenant_id == r.state.tenant_id
                    &&& s.applications.contains_key(r.plan.applications@[i as int].key@)
                    &&& s.applications[r.plan.applications@[i as int].key@] == id
                    &&& forall|k: Seq<char>| k != r.plan.applications@[i as int].key@ ==> (
                        #[trigger] s.applications.contains_key(k) == r.state.applications.contains_key(k)
                        && s.applications[k] == r.state.applications[k])
                    &&& s.device_profiles == r.state.device_profiles
                },
            }
        }),
{
    lemma_settle_named(r, kind, id);
}

/// Once a gateway is written, it is recorded under its own identifier.
pub proof fn law_written_gateway_is_recorded(r: ReconcileV, i: usize, reply: JsonV)
    requires
        r.phase == PhaseV::Gateway(i, WriteStep::Writing),
    ensures
        on_reply_spec(r, Ok(reply)).0.state.gateways.contains_key(r.plan.gateways@[i as int].gateway_id@),
        on_reply_spec(r, Ok(reply)).0.state.gateways[r.plan.gateways@[i as int].gateway_id@]
            == r.plan.gateways@[i as int].gateway_id@,
{
    let g = r.plan.gateways@[i as int];
    lemma_begin_gateways(
        with_state(
            r,
            ProvisionV {
                gateways: r.state.gateways.insert(g.gateway_id@, g.gateway_id@),
                ..r.state
            },
        ),
        i + 1,
    );
}

} // verus!
