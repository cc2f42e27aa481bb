//! Reconciliation of a plan against ChirpStack, as a state machine: the caller
//! performs each action (an API call or the read of an environment variable)
//! and hands the outcome back, until the machine finishes.
use vstd::prelude::*;
use crate::clock::{now_utc, Timestamp};
use crate::error::{
    is_not_found, not_found, wrapper_name, wrapper_text, ProvisionError, RequestError, Resource,
};
use crate::json::{
    created_id, created_id_of, find_listed_id, items_v, listed_id, text, Json, JsonV,
};
use crate::listing::{append_page, page_items_of, page_step, page_total_of};
use crate::plan::{
    law_valid_plan_states_known_regions, opt_view, plan_is_valid, plan_verdict, validate_plan,
    DeviceState, DeviceStateV, Plan, ProvisionState, ProvisionV,
};
use crate::request::{
    application_body, application_body_of, device_body, device_body_of, device_keys_body,
    device_keys_body_of, device_keys_path, device_keys_path_of, device_profile_body,
    device_profile_body_of, gateway_body, gateway_body_of, get_request, get_v, item_path,
    item_path_of, post_request, post_v, put_request, put_v, tenant_body, tenant_body_of,
    tenant_page, tenant_page_of, tenant_scoped_page, tenant_scoped_page_of, concat, result_view,
    ApiRequest, RequestV,
};

verus! {

// ---------------------------------------------------------------------------
// States, events and actions
// ---------------------------------------------------------------------------

/// A resource that is found by its name: the tenant, or the device profile or
/// application at a position of the plan.
#[derive(Clone, Copy, Debug, PartialEq, Eq)]
pub enum Named {
    Tenant,
    DeviceProfile(usize),
    Application(usize),
}

/// Where the reconciliation of a named resource stands.
#[derive(Debug)]
pub enum UpsertStep {
    /// Reading the resource under the identifier recorded for it; where the read
    /// fails, whatever the reason, the collection is searched by name instead.
    Confirming(String),
    /// Reading the listing of the collection, page by page, to find the resource
    /// by name; the items read so far are kept beside the phase.
    Searching,
    /// Writing the resource under an identifier.
    Updating(String),
    /// Creating the resource.
    Creating,
}

/// Where the reconciliation of a resource known by its own identifier stands.
#[derive(Clone, Copy, Debug, PartialEq, Eq)]
pub enum WriteStep {
    /// Reading the resource to learn whether it exists.
    Probing,
    /// Writing (or creating) the resource.
    Writing,
}

/// Where the reconciliation of a device stands.
#[derive(Debug)]
pub enum DeviceStep {
    Probing,
    Writing,
    /// Reading the variable that holds the application key.
    ReadingAppKey,
    /// Reading the variable that holds the network key; the application key is known.
    ReadingNwkKey(Option<String>),
    /// Reading the device's keys to learn whether they exist; both keys are known.
    ProbingKeys(Option<String>, Option<String>),
    WritingKeys,
}

/// Where the reconciliation stands.
#[derive(Debug)]
pub enum Phase {
    /// Not started.
    Idle,
    Upsert(Named, UpsertStep),
    Gateway(usize, WriteStep),
    /// A device, with the identifiers of its application and device profile.
    Device(usize, String, String, DeviceStep),
    /// Finished, with success or an error.
    Done,
}

/// What the caller is to do next.
#[derive(Debug)]
pub enum Action {
    /// Perform this call and hand back its outcome.
    Call(ApiRequest),
    /// Read this environment variable and hand back its value (nothing where it is unset
    /// or not unicode).
    ReadEnv(String),
    /// The reconciliation has ended with this outcome.
    Finish(Result<(), ProvisionError>),
}

pub enum UpsertStepV {
    Confirming(Seq<char>),
    Searching,
    Updating(Seq<char>),
    Creating,
}

pub enum DeviceStepV {
    Probing,
    Writing,
    ReadingAppKey,
    ReadingNwkKey(Option<Seq<char>>),
    ProbingKeys(Option<Seq<char>>, Option<Seq<char>>),
    WritingKeys,
}

pub enum PhaseV {
    Idle,
    Upsert(Named, UpsertStepV),
    Gateway(usize, WriteStep),
    Device(usize, Seq<char>, Seq<char>, DeviceStepV),
    Done,
}

pub enum ActionV {
    Call(RequestV),
    ReadEnv(Seq<char>),
    Finish(Result<(), ProvisionError>),
}

impl View for UpsertStep {
    type V = UpsertStepV;

    open spec fn view(&self) -> UpsertStepV {
        match self {
            UpsertStep::Confirming(id) => UpsertStepV::Confirming(id@),
            UpsertStep::Searching => UpsertStepV::Searching,
            UpsertStep::Updating(id) => UpsertStepV::Updating(id@),
            UpsertStep::Creating => UpsertStepV::Creating,
        }
    }
}

impl View for DeviceStep {
    type V = DeviceStepV;

    open spec fn view(&self) -> DeviceStepV {
        match self {
            DeviceStep::Probing => DeviceStepV::Probing,
            DeviceStep::Writing => DeviceStepV::Writing,
            DeviceStep::ReadingAppKey => DeviceStepV::ReadingAppKey,
            DeviceStep::ReadingNwkKey(a) => DeviceStepV::ReadingNwkKey(opt_view(*a)),
            DeviceStep::ProbingKeys(a, n) => DeviceStepV::ProbingKeys(opt_view(*a), opt_view(*n)),
            DeviceStep::WritingKeys => DeviceStepV::WritingKeys,
        }
    }
}

impl View for Phase {
    type V = PhaseV;

    open spec fn view(&self) -> PhaseV {
        match self {
            Phase::Idle => PhaseV::Idle,
            Phase::Upsert(k, s) => PhaseV::Upsert(*k, s@),
            Phase::Gateway(i, s) => PhaseV::Gateway(*i, *s),
            Phase::Device(i, a, p, s) => PhaseV::Device(*i, a@, p@, s@),
            Phase::Done => PhaseV::Done,
        }
    }
}

impl View for Action {
    type V = ActionV;

    open spec fn view(&self) -> ActionV {
        match self {
            Action::Call(r) => ActionV::Call(r@),
            Action::ReadEnv(n) => ActionV::ReadEnv(n@),
            Action::Finish(r) => ActionV::Finish(*r),
        }
    }
}

/// The model of a reconciliation: the plan, the identifiers recorded so far,
/// where it stands, and the items of the listing that is being read.
pub struct ReconcileV {
    pub plan: Plan,
    pub state: ProvisionV,
    pub phase: PhaseV,
    pub listing: Seq<JsonV>,
}

// ---------------------------------------------------------------------------
// The model of the named resources
// ---------------------------------------------------------------------------

/// The kind of a named resource.
pub open spec fn named_resource(kind: Named) -> Resource {
    match kind {
        Named::Tenant => Resource::Tenant,
        Named::DeviceProfile(_) => Resource::DeviceProfile,
        Named::Application(_) => Resource::Application,
    }
}

/// The collection of a kind of named resource.
pub open spec fn named_base(kind: Named) -> Seq<char> {
    match kind {
        Named::Tenant => "/api/tenants"@,
        Named::DeviceProfile(_) => "/api/device-profiles"@,
        Named::Application(_) => "/api/applications"@,
    }
}

/// The tenant's identifier, once recorded.
pub open spec fn tenant_of(r: ReconcileV) -> Seq<char> {
    r.state.tenant_id->0
}

/// The page at `offset` of the listing where a named resource is searched: the
/// tenants, or the tenant's profiles or applications.
pub open spec fn named_page(r: ReconcileV, kind: Named, offset: nat) -> Seq<char> {
    match kind {
        Named::Tenant => tenant_page(offset),
        _ => tenant_scoped_page(named_base(kind), tenant_of(r), offset),
    }
}

/// The name by which a named resource is searched.
pub open spec fn named_name(plan: Plan, kind: Named) -> Seq<char> {
    match kind {
        Named::Tenant => plan.tenant->0.name@,
        Named::DeviceProfile(i) => plan.device_profiles@[i as int].name@,
        Named::Application(i) => plan.applications@[i as int].name@,
    }
}

/// The key under which the identifier of a profile or application is recorded.
pub open spec fn named_key(plan: Plan, kind: Named) -> Seq<char> {
    match kind {
        Named::Tenant => Seq::empty(),
        Named::DeviceProfile(i) => plan.device_profiles@[i as int].key@,
        Named::Application(i) => plan.applications@[i as int].key@,
    }
}

/// The body that writes a named resource, with its identifier where it has one.
pub open spec fn named_body(r: ReconcileV, kind: Named, id: Option<Seq<char>>) -> JsonV {
    match kind {
        Named::Tenant => tenant_body(r.plan.tenant->0, id),
        Named::DeviceProfile(i) => device_profile_body(
            r.plan.device_profiles@[i as int],
            tenant_of(r),
            id,
        ),
        Named::Application(i) => application_body(r.plan.applications@[i as int], tenant_of(r), id),
    }
}

/// The identifier recorded for a named resource.
pub open spec fn known_id(r: ReconcileV, kind: Named) -> Option<Seq<char>> {
    match kind {
        Named::Tenant => r.state.tenant_id,
        Named::DeviceProfile(_) => if r.state.device_profiles.contains_key(named_key(r.plan, kind)) {
            Some(r.state.device_profiles[named_key(r.plan, kind)])
        } else {
            None
        },
        Named::Application(_) => if r.state.applications.contains_key(named_key(r.plan, kind)) {
            Some(r.state.applications[named_key(r.plan, kind)])
        } else {
            None
        },
    }
}

/// The recorded identifiers once `id` is recorded for a named resource.
pub open spec fn record_named(r: ReconcileV, kind: Named, id: Seq<char>) -> ProvisionV {
    match kind {
        Named::Tenant => ProvisionV { tenant_id: Some(id), ..r.state },
        Named::DeviceProfile(_) => ProvisionV {
            device_profiles: r.state.device_profiles.insert(named_key(r.plan, kind), id),
            ..r.state
        },
        Named::Application(_) => ProvisionV {
            applications: r.state.applications.insert(named_key(r.plan, kind), id),
            ..r.state
        },
    }
}

pub open spec fn with_phase(r: ReconcileV, phase: PhaseV) -> ReconcileV {
    ReconcileV { phase, ..r }
}

pub open spec fn with_state(r: ReconcileV, state: ProvisionV) -> ReconcileV {
    ReconcileV { state, ..r }
}

/// Ends the reconciliation with an error.
pub open spec fn fail(r: ReconcileV, e: ProvisionError) -> (ReconcileV, ActionV) {
    (with_phase(r, PhaseV::Done), ActionV::Finish(Err(e)))
}

/// Starts the search of a named resource by name: its listing is read from the
/// first page on.
pub open spec fn search_named(r: ReconcileV, kind: Named) -> (ReconcileV, ActionV) {
    (
        ReconcileV { phase: PhaseV::Upsert(kind, UpsertStepV::Searching), listing: Seq::empty(), ..r },
        ActionV::Call(get_v(named_page(r, kind, 0))),
    )
}

/// Updates a named resource under the identifier `id`.
pub open spec fn update_named(r: ReconcileV, kind: Named, id: Seq<char>) -> (ReconcileV, ActionV) {
    (
        with_phase(r, PhaseV::Upsert(kind, UpsertStepV::Updating(id))),
        ActionV::Call(put_v(item_path(named_base(kind), id), named_body(r, kind, Some(id)))),
    )
}

/// Creates a named resource.
pub open spec fn create_named(r: ReconcileV, kind: Named) -> (ReconcileV, ActionV) {
    (
        with_phase(r, PhaseV::Upsert(kind, UpsertStepV::Creating)),
        ActionV::Call(post_v(named_base(kind), named_body(r, kind, None))),
    )
}

/// Goes on with a search after a page of the listing: an unreadable or
/// incomplete listing ends the reconciliation with an error; a listing that is
/// not complete yet is read on from the next page; a complete one decides: the
/// resource it names is updated, and one it does not name is created.
pub open spec fn search_page(r: ReconcileV, kind: Named, reply: JsonV) -> (ReconcileV, ActionV) {
    match page_step(r.listing, reply) {
        Err(e) => fail(r, e),
        Ok((items, complete)) => {
            let next = ReconcileV { listing: items, ..r };
            if !complete {
                (next, ActionV::Call(get_v(named_page(r, kind, items.len()))))
            } else {
                match listed_id(items, named_name(r.plan, kind)) {
                    Some(id) => update_named(next, kind, id),
                    None => create_named(next, kind),
                }
            }
        },
    }
}

// ---------------------------------------------------------------------------
// The transitions
// ---------------------------------------------------------------------------

/// Begins a named resource: a recorded identifier is confirmed first; without
/// one the collection is searched by name.
pub open spec fn begin_named(r: ReconcileV, kind: Named) -> (ReconcileV, ActionV) {
    match known_id(r, kind) {
        Some(id) => (
            with_phase(r, PhaseV::Upsert(kind, UpsertStepV::Confirming(id))),
            ActionV::Call(get_v(item_path(named_base(kind), id))),
        ),
        None => search_named(r, kind),
    }
}

/// Begins the gateways from position `i`; after the last, the devices.
pub open spec fn begin_gateways(r: ReconcileV, i: int) -> (ReconcileV, ActionV) {
    if i < r.plan.gateways@.len() {
        (
            with_phase(r, PhaseV::Gateway(i as usize, WriteStep::Probing)),
            ActionV::Call(get_v("/api/gateways/"@ + r.plan.gateways@[i].gateway_id@)),
        )
    } else {
        begin_devices(r, 0)
    }
}

/// Begins the devices from position `i`: the identifiers of the device's
/// application and profile must have been recorded; after the last device, the
/// reconciliation succeeds.
pub open spec fn begin_devices(r: ReconcileV, i: int) -> (ReconcileV, ActionV) {
    if i < r.plan.devices@.len() {
        let d = r.plan.devices@[i];
        if !r.state.applications.contains_key(d.application@) {
            fail(r, ProvisionError::UnknownApplicationReference { application: d.application })
        } else if !r.state.device_profiles.contains_key(d.device_profile@) {
            fail(
                r,
                ProvisionError::UnknownDeviceProfileReference { device_profile: d.device_profile },
            )
        } else {
            (
                with_phase(
                    r,
                    PhaseV::Device(
                        i as usize,
                        r.state.applications[d.application@],
                        r.state.device_profiles[d.device_profile@],
                        DeviceStepV::Probing,
                    ),
                ),
                ActionV::Call(get_v("/api/devices/"@ + d.dev_eui@)),
            )
        }
    } else {
        (with_phase(r, PhaseV::Done), ActionV::Finish(Ok(())))
    }
}

/// Begins the applications from position `i`; after the last, the gateways.
pub open spec fn begin_applications(r: ReconcileV, i: int) -> (ReconcileV, ActionV) {
    if i < r.plan.applications@.len() {
        begin_named(r, Named::Application(i as usize))
    } else {
        begin_gateways(r, 0)
    }
}

/// Begins the device profiles from position `i`; after the last, the applications.
pub open spec fn begin_profiles(r: ReconcileV, i: int) -> (ReconcileV, ActionV) {
    if i < r.plan.device_profiles@.len() {
        begin_named(r, Named::DeviceProfile(i as usize))
    } else {
        begin_applications(r, 0)
    }
}

/// Goes on after a named resource has its identifier recorded.
pub open spec fn after_named(r: ReconcileV, kind: Named) -> (ReconcileV, ActionV) {
    match kind {
        Named::Tenant => begin_profiles(r, 0),
        Named::DeviceProfile(i) => begin_profiles(r, i + 1),
        Named::Application(i) => begin_applications(r, i + 1),
    }
}

/// Records `id` for a named resource and goes on.
pub open spec fn settle_named(r: ReconcileV, kind: Named, id: Seq<char>) -> (ReconcileV, ActionV) {
    after_named(with_state(r, record_named(r, kind, id)), kind)
}

/// Starts: a plan that fails validation ends the reconciliation before any call;
/// otherwise the tenant comes first.
pub open spec fn start_spec(r: ReconcileV) -> (ReconcileV, ActionV) {
    match plan_verdict(r.plan) {
        Err(e) => fail(r, e),
        Ok(_) => begin_named(r, Named::Tenant),
    }
}

/// The path of the device at position `i`.
pub open spec fn device_path(r: ReconcileV, i: int) -> Seq<char> {
    "/api/devices/"@ + r.plan.devices@[i].dev_eui@
}

/// Whether the keys of a device were applied before, as recorded.
pub open spec fn recorded_keys_applied(r: ReconcileV, dev_eui: Seq<char>) -> bool {
    r.state.devices.contains_key(dev_eui) && r.state.devices[dev_eui].keys_applied
}

/// Records the device at position `i` and goes on with the next one.
pub open spec fn settle_device(r: ReconcileV, i: int, app: Seq<char>, profile: Seq<char>, applied: bool) -> (
    ReconcileV,
    ActionV,
) {
    let eui = r.plan.devices@[i].dev_eui@;
    let state = ProvisionV {
        devices: r.state.devices.insert(
            eui,
            DeviceStateV {
                dev_eui: eui,
                application_id: app,
                device_profile_id: profile,
                keys_applied: applied,
            },
        ),
        ..r.state
    };
    begin_devices(with_state(r, state), i + 1)
}

/// Both keys of the device at position `i` are known: with neither, the keys are
/// left as they were recorded; otherwise they are written.
pub open spec fn keys_known(
    r: ReconcileV,
    i: int,
    app: Seq<char>,
    profile: Seq<char>,
    app_key: Option<Seq<char>>,
    nwk_key: Option<Seq<char>>,
) -> (ReconcileV, ActionV) {
    if app_key is None && nwk_key is None {
        settle_device(r, i, app, profile, recorded_keys_applied(r, r.plan.devices@[i].dev_eui@))
    } else {
        (
            with_phase(
                r,
                PhaseV::Device(i as usize, app, profile, DeviceStepV::ProbingKeys(app_key, nwk_key)),
            ),
            ActionV::Call(get_v(device_keys_path(r.plan.devices@[i].dev_eui@))),
        )
    }
}

/// Reads the network key of the device at position `i`, where it names a variable.
pub open spec fn read_nwk_key(
    r: ReconcileV,
    i: int,
    app: Seq<char>,
    profile: Seq<char>,
    app_key: Option<Seq<char>>,
) -> (ReconcileV, ActionV) {
    match r.plan.devices@[i].nwk_key_env {
        Some(name) => (
            with_phase(r, PhaseV::Device(i as usize, app, profile, DeviceStepV::ReadingNwkKey(app_key))),
            ActionV::ReadEnv(name@),
        ),
        None => keys_known(r, i, app, profile, app_key, None),
    }
}

/// Reads the application key of the device at position `i`, where it names a variable.
pub open spec fn read_app_key(r: ReconcileV, i: int, app: Seq<char>, profile: Seq<char>) -> (
    ReconcileV,
    ActionV,
) {
    match r.plan.devices@[i].app_key_env {
        Some(name) => (
            with_phase(r, PhaseV::Device(i as usize, app, profile, DeviceStepV::ReadingAppKey)),
            ActionV::ReadEnv(name@),
        ),
        None => read_nwk_key(r, i, app, profile, None),
    }
}

/// The next step after the outcome of a call.
pub open spec fn on_reply_spec(r: ReconcileV, reply: Result<JsonV, RequestError>) -> (
    ReconcileV,
    ActionV,
) {
    match r.phase {
        PhaseV::Upsert(kind, step) => match step {
            UpsertStepV::Confirming(id) => match reply {
                Ok(_) => update_named(r, kind, id),
                Err(_) => search_named(r, kind),
            },
            UpsertStepV::Searching => match reply {
                Ok(v) => search_page(r, kind, v),
                Err(e) => fail(r, ProvisionError::Request(e)),
            },
            UpsertStepV::Updating(id) => match reply {
                Ok(_) => settle_named(r, kind, id),
                Err(e) => fail(r, ProvisionError::Request(e)),
            },
            UpsertStepV::Creating => match reply {
                Ok(v) => match created_id_of(v, wrapper_name(named_resource(kind))) {
                    Some(id) => settle_named(r, kind, id),
                    None => fail(
                        r,
                        ProvisionError::MissingCreatedId { resource: named_resource(kind) },
                    ),
                },
                Err(e) => fail(r, ProvisionError::Request(e)),
            },
        },
        PhaseV::Gateway(i, step) => {
            let g = r.plan.gateways@[i as int];
            let body = gateway_body(g, tenant_of(r));
            match step {
                WriteStep::Probing => match reply {
                    Ok(_) => (
                        with_phase(r, PhaseV::Gateway(i, WriteStep::Writing)),
                        ActionV::Call(put_v("/api/gateways/"@ + g.gateway_id@, body)),
                    ),
                    Err(e) => if is_not_found(e) {
                        (
                            with_phase(r, PhaseV::Gateway(i, WriteStep::Writing)),
                            ActionV::Call(post_v("/api/gateways"@, body)),
                        )
                    } else {
                        fail(r, ProvisionError::Request(e))
                    },
                },
                WriteStep::Writing => match reply {
                    Ok(_) => begin_gateways(
                        with_state(
                            r,
                            ProvisionV {
                                gateways: r.state.gateways.insert(g.gateway_id@, g.gateway_id@),
                                ..r.state
                            },
                        ),
                        i + 1,
                    ),
                    Err(e) => fail(r, ProvisionError::Request(e)),
                },
            }
        },
        PhaseV::Device(i, app, profile, step) => {
            let d = r.plan.devices@[i as int];
            match step {
                DeviceStepV::Probing => {
                    let body = device_body(d, app, profile);
                    match reply {
                        Ok(_) => (
                            with_phase(r, PhaseV::Device(i, app, profile, DeviceStepV::Writing)),
                            ActionV::Call(put_v(device_path(r, i as int), body)),
                        ),
                        Err(e) => if is_not_found(e) {
                            (
                                with_phase(r, PhaseV::Device(i, app, profile, DeviceStepV::Writing)),
                                ActionV::Call(post_v("/api/devices"@, body)),
                            )
                        } else {
                            fail(r, ProvisionError::Request(e))
                        },
                    }
                },
                DeviceStepV::Writing => match reply {
                    Ok(_) => read_app_key(r, i as int, app, profile),
                    Err(e) => fail(r, ProvisionError::Request(e)),
                },
                DeviceStepV::ProbingKeys(app_key, nwk_key) => {
                    let body = device_keys_body(d.dev_eui@, app_key, nwk_key);
                    let path = device_keys_path(d.dev_eui@);
                    let next = with_phase(r, PhaseV::Device(i, app, profile, DeviceStepV::WritingKeys));
                    match reply {
                        Ok(_) => (next, ActionV::Call(put_v(path, body))),
                        Err(e) => if is_not_found(e) {
                            (next, ActionV::Call(post_v(path, body)))
                        } else {
                            fail(r, ProvisionError::Request(e))
                        },
                    }
                },
                DeviceStepV::WritingKeys => match reply {
                    Ok(_) => settle_device(r, i as int, app, profile, true),
                    Err(e) => fail(r, ProvisionError::Request(e)),
                },
                _ => (r, ActionV::Finish(Ok(()))),
            }
        },
        _ => (r, ActionV::Finish(Ok(()))),
    }
}

/// The next step after the value of an environment variable.
pub open spec fn on_env_spec(r: ReconcileV, value: Option<Seq<char>>) -> (ReconcileV, ActionV) {
    match r.phase {
        PhaseV::Device(i, app, profile, DeviceStepV::ReadingAppKey) => read_nwk_key(
            r,
            i as int,
            app,
            profile,
            value,
        ),
        PhaseV::Device(i, app, profile, DeviceStepV::ReadingNwkKey(app_key)) => keys_known(
            r,
            i as int,
            app,
            profile,
            app_key,
            value,
        ),
        _ => (r, ActionV::Finish(Ok(()))),
    }
}

/// The phase waits for the outcome of a call.
pub open spec fn awaits_reply(p: PhaseV) -> bool {
    match p {
        PhaseV::Upsert(_, _) => true,
        PhaseV::Gateway(_, _) => true,
        PhaseV::Device(_, _, _, s) => match s {
            DeviceStepV::ReadingAppKey => false,
            DeviceStepV::ReadingNwkKey(_) => false,
            _ => true,
        },
        _ => false,
    }
}

/// The phase waits for the value of an environment variable.
pub open spec fn awaits_env(p: PhaseV) -> bool {
    match p {
        PhaseV::Device(_, _, _, DeviceStepV::ReadingAppKey) => true,
        PhaseV::Device(_, _, _, DeviceStepV::ReadingNwkKey(_)) => true,
        _ => false,
    }
}

/// The phase and the action agree: a call leaves the machine waiting for its
/// outcome, a read for a value, and the end of the reconciliation finishes it.
pub open spec fn agrees(p: PhaseV, a: ActionV) -> bool {
    match a {
        ActionV::Call(_) => awaits_reply(p),
        ActionV::ReadEnv(_) => awaits_env(p),
        ActionV::Finish(_) => p is Done,
    }
}

/// The first `n` device profiles of the plan have identifiers recorded.
pub open spec fn profiles_recorded(r: ReconcileV, n: int) -> bool {
    forall|j: int|
        0 <= j < n ==> r.state.device_profiles.contains_key(#[trigger] r.plan.device_profiles@[j].key@)
}

/// The first `n` applications of the plan have identifiers recorded.
pub open spec fn applications_recorded(r: ReconcileV, n: int) -> bool {
    forall|j: int|
        0 <= j < n ==> r.state.applications.contains_key(#[trigger] r.plan.applications@[j].key@)
}

/// The named resource lies in the plan and everything before it is recorded:
/// past the tenant, the tenant's identifier; for an application, every device
/// profile; and the resources of its kind that come before it.
pub open spec fn named_ready(r: ReconcileV, kind: Named) -> bool {
    &&& plan_is_valid(r.plan)
    &&& match kind {
        Named::Tenant => true,
        Named::DeviceProfile(i) => {
            &&& i < r.plan.device_profiles@.len()
            &&& r.state.tenant_id is Some
            &&& profiles_recorded(r, i as int)
        },
        Named::Application(i) => {
            &&& i < r.plan.applications@.len()
            &&& r.state.tenant_id is Some
            &&& profiles_recorded(r, r.plan.device_profiles@.len() as int)
            &&& applications_recorded(r, i as int)
        },
    }
}

/// The named resources of a valid plan are all recorded.
pub open spec fn named_settled(r: ReconcileV) -> bool {
    &&& plan_is_valid(r.plan)
    &&& r.state.tenant_id is Some
    &&& profiles_recorded(r, r.plan.device_profiles@.len() as int)
    &&& applications_recorded(r, r.plan.applications@.len() as int)
}

/// The reconciliation is well formed: past the start the plan is valid; a
/// resource is handled only once what comes before it is recorded (the tenant,
/// then the device profiles, then the applications); positions lie in the plan.
pub open spec fn well_formed(r: ReconcileV) -> bool {
    match r.phase {
        PhaseV::Idle => true,
        PhaseV::Done => true,
        PhaseV::Upsert(kind, _) => named_ready(r, kind),
        PhaseV::Gateway(i, _) => named_settled(r) && i < r.plan.gateways@.len(),
        PhaseV::Device(i, _, _, _) => named_settled(r) && i < r.plan.devices@.len(),
    }
}

/// The action is no failure for an unresolved reference of a device.
pub open spec fn resolves_references(a: ActionV) -> bool {
    match a {
        ActionV::Finish(Err(ProvisionError::UnknownApplicationReference { .. })) => false,
        ActionV::Finish(Err(ProvisionError::UnknownDeviceProfileReference { .. })) => false,
        _ => true,
    }
}

} // verus!

verus! {

/// What holds of the time of the last reconciliation across a step: it is set
/// (to the clock's time) exactly when the step finishes with success.
pub open spec fn stamped(before: Option<Timestamp>, after: Option<Timestamp>, a: ActionV) -> bool {
    match a {
        ActionV::Finish(Ok(_)) => after is Some,
        _ => after == before,
    }
}

/// A reconciliation in progress.
#[derive(Debug)]
pub struct Reconciler {
    plan: Plan,
    state: ProvisionState,
    phase: Phase,
    listing: Vec<Json>,
}

impl View for Reconciler {
    type V = ReconcileV;

    closed spec fn view(&self) -> ReconcileV {
        ReconcileV {
            plan: self.plan,
            state: self.state@,
            phase: self.phase@,
            listing: items_v(self.listing@),
        }
    }
}

impl Reconciler {
    /// The time of the last reconciliation, as recorded.
    pub closed spec fn last_reconciled(&self) -> Option<Timestamp> {
        self.state.last_reconciled_at
    }

    /// A reconciliation of `plan` that starts from the identifiers recorded in `state`.
    pub fn new(plan: Plan, state: ProvisionState) -> (r: Reconciler)
        ensures
            r@ == (ReconcileV { plan, state: state@, phase: PhaseV::Idle, listing: Seq::empty() }),
            r.last_reconciled() == state.last_reconciled_at,
    {
        let r = Reconciler { plan, state, phase: Phase::Idle, listing: Vec::new() };
        assert(items_v(r.listing@) =~= Seq::<JsonV>::empty());
        r
    }

    /// The identifiers recorded so far.
    pub fn state(&self) -> (r: &ProvisionState)
        ensures
            r@ == self@.state,
            r.last_reconciled_at == self.last_reconciled(),
    {
        &self.state
    }

    /// Ends the machine and gives back the identifiers recorded so far.
    pub fn into_state(self) -> (r: ProvisionState)
        ensures
            r@ == self@.state,
            r.last_reconciled_at == self.last_reconciled(),
    {
        self.state
    }

    /// Whether the machine waits for the outcome of a call.
    pub fn awaiting_reply(&self) -> (r: bool)
        ensures
            r == awaits_reply(self@.phase),
    {
        match &self.phase {
            Phase::Upsert(_, _) => true,
            Phase::Gateway(_, _) => true,
            Phase::Device(_, _, _, s) => match s {
                DeviceStep::ReadingAppKey => false,
                DeviceStep::ReadingNwkKey(_) => false,
                _ => true,
            },
            _ => false,
        }
    }

    /// Whether the machine waits for the value of an environment variable.
    pub fn awaiting_env(&self) -> (r: bool)
        ensures
            r == awaits_env(self@.phase),
    {
        match &self.phase {
            Phase::Device(_, _, _, DeviceStep::ReadingAppKey) => true,
            Phase::Device(_, _, _, DeviceStep::ReadingNwkKey(_)) => true,
            _ => false,
        }
    }

    fn finish_ok(&mut self) -> (a: Action)
        ensures
            final(self)@ == with_phase(old(self)@, PhaseV::Done),
            a@ == ActionV::Finish(Ok(())),
            final(self).last_reconciled() is Some,
    {
        self.state.last_reconciled_at = Some(now_utc());
        self.phase = Phase::Done;
        Action::Finish(Ok(()))
    }

    fn fail(&mut self, e: ProvisionError) -> (a: Action)
        ensures
            (final(self)@, a@) == fail(old(self)@, e),
            final(self).last_reconciled() == old(self).last_reconciled(),
    {
        self.phase = Phase::Done;
        Action::Finish(Err(e))
    }

    fn tenant_id_ref(&self) -> (r: &String)
        requires
            self@.state.tenant_id is Some,
        ensures
            r@ == tenant_of(self@),
    {
        self.state.tenant_id.as_ref().unwrap()
    }
}

/// The named resource lies in the plan, and past the tenant the tenant's identifier is recorded.
pub open spec fn named_in_plan(r: ReconcileV, kind: Named) -> bool {
    &&& plan_is_valid(r.plan)
    &&& match kind {
        Named::Tenant => true,
        Named::DeviceProfile(i) => i < r.plan.device_profiles@.len() && r.state.tenant_id is Some,
        Named::Application(i) => i < r.plan.applications@.len() && r.state.tenant_id is Some,
    }
}

fn named_base_of(kind: Named) -> (r: String)
    ensures
        r@ == named_base(kind),
{
    match kind {
        Named::Tenant => text("/api/tenants"),
        Named::DeviceProfile(_) => text("/api/device-profiles"),
        Named::Application(_) => text("/api/applications"),
    }
}

fn named_resource_of(kind: Named) -> (r: Resource)
    ensures
        r == named_resource(kind),
{
    match kind {
        Named::Tenant => Resource::Tenant,
        Named::DeviceProfile(_) => Resource::DeviceProfile,
        Named::Application(_) => Resource::Application,
    }
}

impl Reconciler {
    fn named_page_of(&self, kind: Named, offset: u64) -> (r: String)
        requires
            named_in_plan(self@, kind),
        ensures
            r@ == named_page(self@, kind, offset as nat),
    {
        match kind {
            Named::Tenant => tenant_page_of(offset),
            _ => {
                let base = named_base_of(kind);
                tenant_scoped_page_of(base.as_str(), self.tenant_id_ref().as_str(), offset)
            },
        }
    }

    fn named_name_of(&self, kind: Named) -> (r: &String)
        requires
            named_in_plan(self@, kind),
        ensures
            r@ == named_name(self@.plan, kind),
    {
        match kind {
            Named::Tenant => &self.plan.tenant.as_ref().unwrap().name,
            Named::DeviceProfile(i) => &self.plan.device_profiles[i].name,
            Named::Application(i) => &self.plan.applications[i].name,
        }
    }

    fn known_id_of(&self, kind: Named) -> (r: Option<String>)
        requires
            named_in_plan(self@, kind),
        ensures
            opt_view(r) == known_id(self@, kind),
    {
        match kind {
            Named::Tenant => match &self.state.tenant_id {
                Some(t) => Some(t.clone()),
                None => None,
            },
            Named::DeviceProfile(i) => match self.state.device_profiles.get(
                &self.plan.device_profiles[i].key,
            ) {
                Some(id) => Some(id.clone()),
                None => None,
            },
            Named::Application(i) => match self.state.applications.get(
                &self.plan.applications[i].key,
            ) {
                Some(id) => Some(id.clone()),
                None => None,
            },
        }
    }

    fn named_body_of(&self, kind: Named, id: Option<&String>) -> (r: Json)
        requires
            named_in_plan(self@, kind),
        ensures
            r@ == named_body(
                self@,
                kind,
                match id {
                    Some(s) => Some(s@),
                    None => None,
                },
            ),
    {
        match kind {
            Named::Tenant => tenant_body_of(self.plan.tenant.as_ref().unwrap(), id),
            Named::DeviceProfile(i) => {
                proof {
                    law_valid_plan_states_known_regions(self.plan, i as int);
                }
                device_profile_body_of(
                &self.plan.device_profiles[i],
                self.tenant_id_ref(),
                id,
            )
            },
            Named::Application(i) => application_body_of(
                &self.plan.applications[i],
                self.tenant_id_ref(),
                id,
            ),
        }
    }

    fn record_named_id(&mut self, kind: Named, id: String)
        requires
            named_in_plan(old(self)@, kind),
        ensures
            final(self)@ == with_state(old(self)@, record_named(old(self)@, kind, id@)),
            final(self).last_reconciled() == old(self).last_reconciled(),
    {
        match kind {
            Named::Tenant => {
                self.state.tenant_id = Some(id);
            },
            Named::DeviceProfile(i) => {
                let key = self.plan.device_profiles[i].key.clone();
                self.state.device_profiles.insert(key, id);
            },
            Named::Application(i) => {
                let key = self.plan.applications[i].key.clone();
                self.state.applications.insert(key, id);
            },
        }
    }

    fn begin_named_exec(&mut self, kind: Named) -> (a: Action)
        requires
            named_in_plan(old(self)@, kind),
        ensures
            (final(self)@, a@) == begin_named(old(self)@, kind),
            final(self).last_reconciled() == old(self).last_reconciled(),
    {
        match self.known_id_of(kind) {
            Some(id) => {
                let path = item_path_of(named_base_of(kind).as_str(), id.as_str());
                self.phase = Phase::Upsert(kind, UpsertStep::Confirming(id));
                Action::Call(get_request(path))
            },
            None => self.search_named_exec(kind),
        }
    }

    fn search_named_exec(&mut self, kind: Named) -> (a: Action)
        requires
            named_in_plan(old(self)@, kind),
        ensures
            (final(self)@, a@) == search_named(old(self)@, kind),
            final(self).last_reconciled() == old(self).last_reconciled(),
    {
        let path = self.named_page_of(kind, 0);
        self.phase = Phase::Upsert(kind, UpsertStep::Searching);
        self.listing = Vec::new();
        assert(items_v(self.listing@) =~= Seq::<JsonV>::empty());
        Action::Call(get_request(path))
    }

    fn update_named_exec(&mut self, kind: Named, id: String) -> (a: Action)
        requires
            named_in_plan(old(self)@, kind),
        ensures
            (final(self)@, a@) == update_named(old(self)@, kind, id@),
            final(self).last_reconciled() == old(self).last_reconciled(),
    {
        let path = item_path_of(named_base_of(kind).as_str(), id.as_str());
        let body = self.named_body_of(kind, Some(&id));
        self.phase = Phase::Upsert(kind, UpsertStep::Updating(id));
        Action::Call(put_request(path, body))
    }

    fn create_named_exec(&mut self, kind: Named) -> (a: Action)
        requires
            named_in_plan(old(self)@, kind),
        ensures
            (final(self)@, a@) == create_named(old(self)@, kind),
            final(self).last_reconciled() == old(self).last_reconciled(),
    {
        let body = self.named_body_of(kind, None);
        self.phase = Phase::Upsert(kind, UpsertStep::Creating);
        Action::Call(post_request(named_base_of(kind), body))
    }

    fn search_page_exec(&mut self, kind: Named, reply: Json) -> (a: Action)
        requires
            named_in_plan(old(self)@, kind),
        ensures
            (final(self)@, a@) == search_page(old(self)@, kind, reply@),
            final(self).last_reconciled() == old(self).last_reconciled(),
    {
        let total = page_total_of(&reply);
        let items = page_items_of(reply);
        match (items, total) {
            (Some(items), Some(total)) => match append_page(&mut self.listing, items, total) {
                Err(e) => self.fail(e),
                Ok(complete) => {
                    if !complete {
                        let path = self.named_page_of(kind, self.listing.len() as u64);
                        Action::Call(get_request(path))
                    } else {
                        match find_listed_id(&self.listing, self.named_name_of(kind)) {
                            Some(id) => self.update_named_exec(kind, id),
                            None => self.create_named_exec(kind),
                        }
                    }
                },
            },
            _ => self.fail(ProvisionError::UnreadableListing),
        }
    }
}

} // verus!

verus! {

/// The devices can be begun from position `i`.
pub open spec fn devices_in_plan(r: ReconcileV, i: int) -> bool {
    &&& plan_is_valid(r.plan)
    &&& r.state.tenant_id is Some
    &&& 0 <= i <= r.plan.devices@.len()
}

/// The device at position `i` is in progress.
pub open spec fn device_in_plan(r: ReconcileV, i: int) -> bool {
    &&& plan_is_valid(r.plan)
    &&& r.state.tenant_id is Some
    &&& 0 <= i < r.plan.devices@.len()
}

impl Reconciler {
    fn begin_devices_exec(&mut self, i: usize) -> (a: Action)
        requires
            devices_in_plan(old(self)@, i as int),
        ensures
            (final(self)@, a@) == begin_devices(old(self)@, i as int),
            stamped(old(self).last_reconciled(), final(self).last_reconciled(), a@),
    {
        if i < self.plan.devices.len() {
            let app = match self.state.applications.get(&self.plan.devices[i].application) {
                Some(x) => x.clone(),
                None => {
                    let e = ProvisionError::UnknownApplicationReference {
                        application: self.plan.devices[i].application.clone(),
                    };
                    return self.fail(e);
                },
            };
            let profile = match self.state.device_profiles.get(
                &self.plan.devices[i].device_profile,
            ) {
                Some(x) => x.clone(),
                None => {
                    let e = ProvisionError::UnknownDeviceProfileReference {
                        device_profile: self.plan.devices[i].device_profile.clone(),
                    };
                    return self.fail(e);
                },
            };
            let path = concat("/api/devices/", self.plan.devices[i].dev_eui.as_str());
            self.phase = Phase::Device(i, app, profile, DeviceStep::Probing);
            Action::Call(get_request(path))
        } else {
            self.finish_ok()
        }
    }

    fn begin_gateways_exec(&mut self, i: usize) -> (a: Action)
        requires
            plan_is_valid(old(self)@.plan),
            old(self)@.state.tenant_id is Some,
            i <= old(self)@.plan.gateways@.len(),
        ensures
            (final(self)@, a@) == begin_gateways(old(self)@, i as int),
            stamped(old(self).last_reconciled(), final(self).last_reconciled(), a@),
    {
        if i < self.plan.gateways.len() {
            let path = concat("/api/gateways/", self.plan.gateways[i].gateway_id.as_str());
            self.phase = Phase::Gateway(i, WriteStep::Probing);
            Action::Call(get_request(path))
        } else {
            self.begin_devices_exec(0)
        }
    }

    fn begin_applications_exec(&mut self, i: usize) -> (a: Action)
        requires
            plan_is_valid(old(self)@.plan),
            old(self)@.state.tenant_id is Some,
            i <= old(self)@.plan.applications@.len(),
        ensures
            (final(self)@, a@) == begin_applications(old(self)@, i as int),
            stamped(old(self).last_reconciled(), final(self).last_reconciled(), a@),
    {
        if i < self.plan.applications.len() {
            self.begin_named_exec(Named::Application(i))
        } else {
            self.begin_gateways_exec(0)
        }
    }

    fn begin_profiles_exec(&mut self, i: usize) -> (a: Action)
        requires
            plan_is_valid(old(self)@.plan),
            old(self)@.state.tenant_id is Some,
            i <= old(self)@.plan.device_profiles@.len(),
        ensures
            (final(self)@, a@) == begin_profiles(old(self)@, i as int),
            stamped(old(self).last_reconciled(), final(self).last_reconciled(), a@),
    {
        if i < self.plan.device_profiles.len() {
            self.begin_named_exec(Named::DeviceProfile(i))
        } else {
            self.begin_applications_exec(0)
        }
    }

    fn settle_named_exec(&mut self, kind: Named, id: String) -> (a: Action)
        requires
            named_in_plan(old(self)@, kind),
        ensures
            (final(self)@, a@) == settle_named(old(self)@, kind, id@),
            stamped(old(self).last_reconciled(), final(self).last_reconciled(), a@),
    {
        self.record_named_id(kind, id);
        match kind {
            Named::Tenant => self.begin_profiles_exec(0),
            Named::DeviceProfile(i) => {
                proof {
                    assert(self.plan.device_profiles@.len() == self.plan.device_profiles.len());
                }
                self.begin_profiles_exec(i + 1)
            },
            Named::Application(i) => {
                proof {
                    assert(self.plan.applications@.len() == self.plan.applications.len());
                }
                self.begin_applications_exec(i + 1)
            },
        }
    }

    fn settle_device_exec(&mut self, i: usize, app: String, profile: String, applied: bool) -> (a: Action)
        requires
            device_in_plan(old(self)@, i as int),
        ensures
            (final(self)@, a@) == settle_device(old(self)@, i as int, app@, profile@, applied),
            stamped(old(self).last_reconciled(), final(self).last_reconciled(), a@),
    {
        let eui = self.plan.devices[i].dev_eui.clone();
        let recorded = DeviceState {
            dev_eui: eui.clone(),
            application_id: app,
            device_profile_id: profile,
            keys_applied: applied,
        };
        self.state.devices.insert(eui, recorded);
        proof {
            assert(self.plan.devices@.len() == self.plan.devices.len());
        }
        self.begin_devices_exec(i + 1)
    }

    fn keys_known_exec(
        &mut self,
        i: usize,
        app: String,
        profile: String,
        app_key: Option<String>,
        nwk_key: Option<String>,
    ) -> (a: Action)
        requires
            device_in_plan(old(self)@, i as int),
        ensures
            (final(self)@, a@) == keys_known(
                old(self)@,
                i as int,
                app@,
                profile@,
                opt_view(app_key),
                opt_view(nwk_key),
            ),
            stamped(old(self).last_reconciled(), final(self).last_reconciled(), a@),
    {
        if app_key.is_none() && nwk_key.is_none() {
            let applied = match self.state.devices.get(&self.plan.devices[i].dev_eui) {
                Some(recorded) => recorded.keys_applied,
                None => false,
            };
            self.settle_device_exec(i, app, profile, applied)
        } else {
            let path = device_keys_path_of(self.plan.devices[i].dev_eui.as_str());
            self.phase = Phase::Device(i, app, profile, DeviceStep::ProbingKeys(app_key, nwk_key));
            Action::Call(get_request(path))
        }
    }

    fn read_nwk_key_exec(&mut self, i: usize, app: String, profile: String, app_key: Option<String>) -> (a: Action)
        requires
            device_in_plan(old(self)@, i as int),
        ensures
            (final(self)@, a@) == read_nwk_key(old(self)@, i as int, app@, profile@, opt_view(app_key)),
            stamped(old(self).last_reconciled(), final(self).last_reconciled(), a@),
    {
        match &self.plan.devices[i].nwk_key_env {
            Some(name) => {
                let name = name.clone();
                self.phase = Phase::Device(i, app, profile, DeviceStep::ReadingNwkKey(app_key));
                Action::ReadEnv(name)
            },
            None => self.keys_known_exec(i, app, profile, app_key, None),
        }
    }

    fn read_app_key_exec(&mut self, i: usize, app: String, profile: String) -> (a: Action)
        requires
            device_in_plan(old(self)@, i as int),
        ensures
            (final(self)@, a@) == read_app_key(old(self)@, i as int, app@, profile@),
            stamped(old(self).last_reconciled(), final(self).last_reconciled(), a@),
    {
        match &self.plan.devices[i].app_key_env {
            Some(name) => {
                let name = name.clone();
                self.phase = Phase::Device(i, app, profile, DeviceStep::ReadingAppKey);
                Action::ReadEnv(name)
            },
            None => self.read_nwk_key_exec(i, app, profile, None),
        }
    }
}

} // verus!

verus! {

impl UpsertStep {
    fn duplicate(&self) -> (r: UpsertStep)
        ensures
            r@ == self@,
    {
        match self {
            UpsertStep::Confirming(id) => UpsertStep::Confirming(id.clone()),
            UpsertStep::Searching => UpsertStep::Searching,
            UpsertStep::Updating(id) => UpsertStep::Updating(id.clone()),
            UpsertStep::Creating => UpsertStep::Creating,
        }
    }
}

impl DeviceStep {
    fn duplicate(&self) -> (r: DeviceStep)
        ensures
            r@ == self@,
    {
        match self {
            DeviceStep::Probing => DeviceStep::Probing,
            DeviceStep::Writing => DeviceStep::Writing,
            DeviceStep::ReadingAppKey => DeviceStep::ReadingAppKey,
            DeviceStep::ReadingNwkKey(a) => DeviceStep::ReadingNwkKey(a.clone()),
            DeviceStep::ProbingKeys(a, n) => DeviceStep::ProbingKeys(a.clone(), n.clone()),
            DeviceStep::WritingKeys => DeviceStep::WritingKeys,
        }
    }
}

impl Reconciler {
    fn upsert_reply(&mut self, kind: Named, step: UpsertStep, reply: Result<Json, RequestError>) -> (a: Action)
        requires
            well_formed(old(self)@),
            old(self)@.phase == PhaseV::Upsert(kind, step@),
        ensures
            (final(self)@, a@) == on_reply_spec(old(self)@, result_view(reply)),
            stamped(old(self).last_reconciled(), final(self).last_reconciled(), a@),
    {
        match step {
            UpsertStep::Confirming(id) => match reply {
                Ok(_) => self.update_named_exec(kind, id),
                Err(_) => self.search_named_exec(kind),
            },
            UpsertStep::Searching => match reply {
                Ok(v) => self.search_page_exec(kind, v),
                Err(e) => self.fail(ProvisionError::Request(e)),
            },
            UpsertStep::Updating(id) => match reply {
                Ok(_) => self.settle_named_exec(kind, id),
                Err(e) => self.fail(ProvisionError::Request(e)),
            },
            UpsertStep::Creating => match reply {
                Ok(v) => {
                    let resource = named_resource_of(kind);
                    match created_id(&v, &wrapper_text(resource)) {
                        Some(id) => self.settle_named_exec(kind, id),
                        None => self.fail(ProvisionError::MissingCreatedId { resource }),
                    }
                },
                Err(e) => self.fail(ProvisionError::Request(e)),
            },
        }
    }

    fn gateway_reply(&mut self, i: usize, step: WriteStep, reply: Result<Json, RequestError>) -> (a: Action)
        requires
            well_formed(old(self)@),
            old(self)@.phase == PhaseV::Gateway(i, step),
        ensures
            (final(self)@, a@) == on_reply_spec(old(self)@, result_view(reply)),
            stamped(old(self).last_reconciled(), final(self).last_reconciled(), a@),
    {
        match step {
            WriteStep::Probing => {
                let body = gateway_body_of(&self.plan.gateways[i], self.tenant_id_ref());
                match reply {
                    Ok(_) => {
                        let path = concat("/api/gateways/", self.plan.gateways[i].gateway_id.as_str());
                        self.phase = Phase::Gateway(i, WriteStep::Writing);
                        Action::Call(put_request(path, body))
                    },
                    Err(e) => if not_found(&e) {
                        self.phase = Phase::Gateway(i, WriteStep::Writing);
                        Action::Call(post_request(text("/api/gateways"), body))
                    } else {
                        self.fail(ProvisionError::Request(e))
                    },
                }
            },
            WriteStep::Writing => match reply {
                Ok(_) => {
                    let id = self.plan.gateways[i].gateway_id.clone();
                    self.state.gateways.insert(id.clone(), id);
                    proof {
                        assert(self.plan.gateways@.len() == self.plan.gateways.len());
                    }
                    self.begin_gateways_exec(i + 1)
                },
                Err(e) => self.fail(ProvisionError::Request(e)),
            },
        }
    }

    fn device_reply(
        &mut self,
        i: usize,
        app: String,
        profile: String,
        step: DeviceStep,
        reply: Result<Json, RequestError>,
    ) -> (a: Action)
        requires
            well_formed(old(self)@),
            old(self)@.phase == PhaseV::Device(i, app@, profile@, step@),
            awaits_reply(old(self)@.phase),
        ensures
            (final(self)@, a@) == on_reply_spec(old(self)@, result_view(reply)),
            stamped(old(self).last_reconciled(), final(self).last_reconciled(), a@),
    {
        match step {
            DeviceStep::Probing => {
                let body = device_body_of(&self.plan.devices[i], &app, &profile);
                match reply {
                    Ok(_) => {
                        let path = concat("/api/devices/", self.plan.devices[i].dev_eui.as_str());
                        self.phase = Phase::Device(i, app, profile, DeviceStep::Writing);
                        Action::Call(put_request(path, body))
                    },
                    Err(e) => if not_found(&e) {
                        self.phase = Phase::Device(i, app, profile, DeviceStep::Writing);
                        Action::Call(post_request(text("/api/devices"), body))
                    } else {
                        self.fail(ProvisionError::Request(e))
                    },
                }
            },
            DeviceStep::Writing => match reply {
                Ok(_) => self.read_app_key_exec(i, app, profile),
                Err(e) => self.fail(ProvisionError::Request(e)),
            },
            DeviceStep::ProbingKeys(app_key, nwk_key) => {
                let body = device_keys_body_of(&self.plan.devices[i].dev_eui, &app_key, &nwk_key);
                let path = device_keys_path_of(self.plan.devices[i].dev_eui.as_str());
                match reply {
                    Ok(_) => {
                        self.phase = Phase::Device(i, app, profile, DeviceStep::WritingKeys);
                        Action::Call(put_request(path, body))
                    },
                    Err(e) => if not_found(&e) {
                        self.phase = Phase::Device(i, app, profile, DeviceStep::WritingKeys);
                        Action::Call(post_request(path, body))
                    } else {
                        self.fail(ProvisionError::Request(e))
                    },
                }
            },
            DeviceStep::WritingKeys => match reply {
                Ok(_) => self.settle_device_exec(i, app, profile, true),
                Err(e) => self.fail(ProvisionError::Request(e)),
            },
            DeviceStep::ReadingAppKey => Action::Finish(Ok(())),
            DeviceStep::ReadingNwkKey(_) => Action::Finish(Ok(())),
        }
    }

    /// Starts the reconciliation. A plan that fails validation ends it at once,
    /// with the validation error and before any call; otherwise the first call
    /// concerns the tenant.
    pub fn start(&mut self) -> (a: Action)
        requires
            old(self)@.phase is Idle,
        ensures
            (final(self)@, a@) == start_spec(old(self)@),
            stamped(old(self).last_reconciled(), final(self).last_reconciled(), a@),
            well_formed(final(self)@),
            agrees(final(self)@.phase, a@),
            resolves_references(a@),
    {
        proof {
            crate::laws::law_steps_keep_well_formed(self@, arbitrary(), None);
        }
        match validate_plan(&self.plan) {
            Err(e) => self.fail(e),
            Ok(()) => self.begin_named_exec(Named::Tenant),
        }
    }

    /// Takes the outcome of the call that the last action asked for and gives the next action.
    pub fn on_reply(&mut self, reply: Result<Json, RequestError>) -> (a: Action)
        requires
            well_formed(old(self)@),
            awaits_reply(old(self)@.phase),
        ensures
            (final(self)@, a@) == on_reply_spec(old(self)@, result_view(reply)),
            stamped(old(self).last_reconciled(), final(self).last_reconciled(), a@),
            well_formed(final(self)@),
            agrees(final(self)@.phase, a@),
            resolves_references(a@),
    {
        proof {
            crate::laws::law_steps_keep_well_formed(self@, result_view(reply), None);
        }
        match &self.phase {
            Phase::Upsert(kind, step) => {
                let kind = *kind;
                let step = step.duplicate();
                self.upsert_reply(kind, step, reply)
            },
            Phase::Gateway(i, step) => {
                let i = *i;
                let step = *step;
                self.gateway_reply(i, step, reply)
            },
            Phase::Device(i, app, profile, step) => {
                let i = *i;
                let app = app.clone();
                let profile = profile.clone();
                let step = step.duplicate();
                self.device_reply(i, app, profile, step, reply)
            },
            _ => Action::Finish(Ok(())),
        }
    }

    /// Takes the value of the environment variable that the last action asked
    /// for (nothing where it is unset) and gives the next action.
    pub fn on_env(&mut self, value: Option<String>) -> (a: Action)
        requires
            well_formed(old(self)@),
            awaits_env(old(self)@.phase),
        ensures
            (final(self)@, a@) == on_env_spec(old(self)@, opt_view(value)),
            stamped(old(self).last_reconciled(), final(self).last_reconciled(), a@),
            well_formed(final(self)@),
            agrees(final(self)@.phase, a@),
            resolves_references(a@),
    {
        proof {
            crate::laws::law_steps_keep_well_formed(self@, arbitrary(), opt_view(value));
        }
        match &self.phase {
            Phase::Device(i, app, profile, DeviceStep::ReadingAppKey) => {
                let i = *i;
                let app = app.clone();
                let profile = profile.clone();
                self.read_nwk_key_exec(i, app, profile, value)
            },
            Phase::Device(i, app, profile, DeviceStep::ReadingNwkKey(app_key)) => {
                let i = *i;
                let app = app.clone();
                let profile = profile.clone();
                let app_key = app_key.clone();
                self.keys_known_exec(i, app, profile, app_key, value)
            },
            _ => Action::Finish(Ok(())),
        }
    }
}

} // verus!
