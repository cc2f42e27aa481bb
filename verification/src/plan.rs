use vstd::prelude::*;
use crate::clock::Timestamp;
use crate::error::ProvisionError;
use crate::json::text;
use crate::region::{parse_region, region_of, Region};
use crate::registry::Registry;

verus! {

/// The tenant that the plan declares.
#[derive(Debug)]
pub struct TenantSpec {
    pub name: String,
    pub description: String,
    pub can_have_gateways: bool,
    pub max_gateway_count: u32,
    pub max_device_count: u32,
}

/// A device profile of the plan; devices name it by `key`.
#[derive(Debug)]
pub struct DeviceProfileSpec {
    pub key: String,
    pub name: String,
    pub description: String,
    /// The LoRaWAN region, as ChirpStack names it (see `parse_region`); a plan
    /// must state one for every profile.
    pub region: Option<String>,
    pub region_config_id: String,
    pub supports_otaa: bool,
    pub supports_class_b: bool,
    pub supports_class_c: bool,
    pub uplink_interval: u32,
    pub device_status_req_interval: u32,
}

/// An application of the plan; devices name it by `key`.
#[derive(Debug)]
pub struct ApplicationSpec {
    pub key: String,
    pub name: String,
    pub description: String,
}

/// A gateway of the plan, known by its gateway id.
#[derive(Debug)]
pub struct GatewaySpec {
    pub gateway_id: String,
    pub name: String,
    pub description: String,
    pub stats_interval: u32,
}

/// A device of the plan, known by its DevEUI. Its OTAA keys are read from the
/// environment variables that `app_key_env` and `nwk_key_env` name.
#[derive(Debug)]
pub struct DeviceSpec {
    pub dev_eui: String,
    pub name: String,
    pub application: String,
    pub device_profile: String,
    pub description: String,
    pub join_eui: Option<String>,
    pub app_key_env: Option<String>,
    pub nwk_key_env: Option<String>,
    pub tags: Registry<String>,
}

/// The declared state of the ChirpStack resources that the provisioner owns.
#[derive(Debug)]
pub struct Plan {
    pub version: String,
    pub tenant: Option<TenantSpec>,
    pub device_profiles: Vec<DeviceProfileSpec>,
    pub applications: Vec<ApplicationSpec>,
    pub gateways: Vec<GatewaySpec>,
    pub devices: Vec<DeviceSpec>,
}

/// The version that a plan has where it states none: `v1`.
pub fn default_plan_version() -> (r: String)
    ensures
        r@ == "v1"@,
{
    text("v1")
}

/// The value of a flag that the plan leaves out where it defaults to on.
pub fn default_true() -> (r: bool)
    ensures
        r,
{
    true
}

/// The region configuration of a device profile that states none: `eu868`.
pub fn default_region() -> (r: String)
    ensures
        r@ == "eu868"@,
{
    text("eu868")
}

impl Plan {
    /// An empty plan: no version text, no tenant and no resources.
    pub fn empty() -> (r: Plan)
        ensures
            r.version@ == Seq::<char>::empty(),
            r.tenant is None,
            r.device_profiles@.len() == 0,
            r.applications@.len() == 0,
            r.gateways@.len() == 0,
            r.devices@.len() == 0,
    {
        Plan {
            version: String::new(),
            tenant: None,
            device_profiles: Vec::new(),
            applications: Vec::new(),
            gateways: Vec::new(),
            devices: Vec::new(),
        }
    }
}

/// The plan declares an application with key `key`.
pub open spec fn declares_application(plan: Plan, key: Seq<char>) -> bool {
    exists|i: int| 0 <= i < plan.applications@.len() && #[trigger] plan.applications@[i].key@ == key
}

/// The plan declares a device profile with key `key`.
pub open spec fn declares_device_profile(plan: Plan, key: Seq<char>) -> bool {
    exists|i: int|
        0 <= i < plan.device_profiles@.len() && #[trigger] plan.device_profiles@[i].key@ == key
}

/// What is wrong with a device of the plan: the application it names is checked
/// before its device profile.
pub open spec fn device_fault(plan: Plan, d: DeviceSpec) -> Option<ProvisionError> {
    if !declares_application(plan, d.application@) {
        Some(ProvisionError::UnknownApplication { dev_eui: d.dev_eui, application: d.application })
    } else if !declares_device_profile(plan, d.device_profile@) {
        Some(
            ProvisionError::UnknownDeviceProfile {
                dev_eui: d.dev_eui,
                device_profile: d.device_profile,
            },
        )
    } else {
        None
    }
}

/// The fault of the first device in `devices` that has one.
pub open spec fn first_device_fault(plan: Plan, devices: Seq<DeviceSpec>) -> Option<ProvisionError>
    decreases devices.len(),
{
    if devices.len() == 0 {
        None
    } else {
        match device_fault(plan, devices[0]) {
            Some(e) => Some(e),
            None => first_device_fault(plan, devices.drop_first()),
        }
    }
}

/// The profile states a region that ChirpStack knows.
pub open spec fn region_is_known(spec: DeviceProfileSpec) -> bool {
    spec.region matches Some(r) && region_of(r@) is Some
}

/// The region of a profile that states a known one.
pub open spec fn profile_region(spec: DeviceProfileSpec) -> Region {
    region_of(spec.region->0@)->0
}

/// What is wrong with a device profile of the plan: it must state a region that
/// ChirpStack knows.
pub open spec fn profile_fault(p: DeviceProfileSpec) -> Option<ProvisionError> {
    match p.region {
        None => Some(ProvisionError::MissingRegion { device_profile: p.key }),
        Some(r) => if region_of(r@) is None {
            Some(ProvisionError::UnsupportedRegion { device_profile: p.key, region: r })
        } else {
            None
        },
    }
}

/// The fault of the first device profile in `profiles` that has one.
pub open spec fn first_profile_fault(profiles: Seq<DeviceProfileSpec>) -> Option<ProvisionError>
    decreases profiles.len(),
{
    if profiles.len() == 0 {
        None
    } else {
        match profile_fault(profiles[0]) {
            Some(e) => Some(e),
            None => first_profile_fault(profiles.drop_first()),
        }
    }
}

/// The verdict on a plan: it needs a tenant; each device profile must state a
/// region that ChirpStack knows; and each device must name an application and a
/// device profile that the plan declares. The first fault is reported: the
/// tenant, then the profiles in their order, then the devices in theirs.
pub open spec fn plan_verdict(plan: Plan) -> Result<(), ProvisionError> {
    if plan.tenant is None {
        Err(ProvisionError::MissingTenant)
    } else {
        match first_profile_fault(plan.device_profiles@) {
            Some(e) => Err(e),
            None => match first_device_fault(plan, plan.devices@) {
                Some(e) => Err(e),
                None => Ok(()),
            },
        }
    }
}

proof fn lemma_first_profile_fault_at(profiles: Seq<DeviceProfileSpec>, i: int)
    requires
        0 <= i < profiles.len(),
        profile_fault(profiles[i]) is Some,
        forall|j: int| 0 <= j < i ==> profile_fault(#[trigger] profiles[j]) is None,
    ensures
        first_profile_fault(profiles) == profile_fault(profiles[i]),
    decreases i,
{
    if i > 0 {
        let t = profiles.drop_first();
        assert forall|j: int| 0 <= j < i - 1 implies profile_fault(#[trigger] t[j]) is None by {
            assert(t[j] == profiles[j + 1]);
        }
        assert(profile_fault(profiles[0]) is None);
        lemma_first_profile_fault_at(t, i - 1);
    }
}

proof fn lemma_first_profile_fault_none(profiles: Seq<DeviceProfileSpec>)
    requires
        forall|j: int| 0 <= j < profiles.len() ==> profile_fault(#[trigger] profiles[j]) is None,
    ensures
        first_profile_fault(profiles) is None,
    decreases profiles.len(),
{
    if profiles.len() > 0 {
        let t = profiles.drop_first();
        assert forall|j: int| 0 <= j < t.len() implies profile_fault(#[trigger] t[j]) is None by {
            assert(t[j] == profiles[j + 1]);
        }
        assert(profile_fault(profiles[0]) is None);
        lemma_first_profile_fault_none(t);
    }
}

/// Where no profile has a fault, each profile has none.
pub proof fn lemma_no_profile_fault(profiles: Seq<DeviceProfileSpec>)
    requires
        first_profile_fault(profiles) is None,
    ensures
        forall|i: int| 0 <= i < profiles.len() ==> profile_fault(#[trigger] profiles[i]) is None,
    decreases profiles.len(),
{
    if profiles.len() > 0 {
        let t = profiles.drop_first();
        lemma_no_profile_fault(t);
        assert forall|i: int| 0 <= i < profiles.len() implies profile_fault(#[trigger] profiles[i]) is None by {
            if i > 0 {
                assert(profiles[i] == t[i - 1]);
            }
        }
    }
}

/// Every device profile of a valid plan states a region that ChirpStack knows.
pub proof fn law_valid_plan_states_known_regions(plan: Plan, i: int)
    requires
        plan_is_valid(plan),
        0 <= i < plan.device_profiles@.len(),
    ensures
        region_is_known(plan.device_profiles@[i]),
{
    lemma_no_profile_fault(plan.device_profiles@);
    assert(profile_fault(plan.device_profiles@[i]) is None);
}

/// A plan that passes validation.
pub open spec fn plan_is_valid(plan: Plan) -> bool {
    plan_verdict(plan) is Ok
}

proof fn lemma_first_device_fault_at(plan: Plan, devices: Seq<DeviceSpec>, i: int)
    requires
        0 <= i < devices.len(),
        device_fault(plan, devices[i]) is Some,
        forall|j: int| 0 <= j < i ==> device_fault(plan, #[trigger] devices[j]) is None,
    ensures
        first_device_fault(plan, devices) == device_fault(plan, devices[i]),
    decreases i,
{
    if i > 0 {
        let t = devices.drop_first();
        assert forall|j: int| 0 <= j < i - 1 implies device_fault(plan, #[trigger] t[j]) is None by {
            assert(t[j] == devices[j + 1]);
        }
        assert(device_fault(plan, devices[0]) is None);
        lemma_first_device_fault_at(plan, t, i - 1);
    }
}

pub proof fn lemma_first_device_fault_none(plan: Plan, devices: Seq<DeviceSpec>)
    requires
        forall|j: int| 0 <= j < devices.len() ==> device_fault(plan, #[trigger] devices[j]) is None,
    ensures
        first_device_fault(plan, devices) is None,
    decreases devices.len(),
{
    if devices.len() > 0 {
        let t = devices.drop_first();
        assert forall|j: int| 0 <= j < t.len() implies device_fault(plan, #[trigger] t[j]) is None by {
            assert(t[j] == devices[j + 1]);
        }
        assert(device_fault(plan, devices[0]) is None);
        lemma_first_device_fault_none(plan, t);
    }
}

/// Whether the plan declares an application with key `key`.
fn has_application(plan: &Plan, key: &String) -> (r: bool)
    ensures
        r == declares_application(*plan, key@),
{
    let mut i: usize = 0;
    while i < plan.applications.len()
        invariant
            i <= plan.applications@.len(),
            forall|j: int| 0 <= j < i ==> plan.applications@[j].key@ != key@,
        decreases plan.applications@.len() - i,
    {
        if plan.applications[i].key == *key {
            return true;
        }
        i = i + 1;
    }
    false
}

/// Whether the plan declares a device profile with key `key`.
fn has_device_profile(plan: &Plan, key: &String) -> (r: bool)
    ensures
        r == declares_device_profile(*plan, key@),
{
    let mut i: usize = 0;
    while i < plan.device_profiles.len()
        invariant
            i <= plan.device_profiles@.len(),
            forall|j: int| 0 <= j < i ==> plan.device_profiles@[j].key@ != key@,
        decreases plan.device_profiles@.len() - i,
    {
        if plan.device_profiles[i].key == *key {
            return true;
        }
        i = i + 1;
    }
    false
}

/// Checks a plan before anything is sent to ChirpStack: it needs a tenant, every
/// device profile must state a region that ChirpStack knows, and every device
/// must name an application and a device profile that the plan declares.
pub fn validate_plan(plan: &Plan) -> (r: Result<(), ProvisionError>)
    ensures
        r == plan_verdict(*plan),
{
    if plan.tenant.is_none() {
        return Err(ProvisionError::MissingTenant);
    }
    let mut k: usize = 0;
    while k < plan.device_profiles.len()
        invariant
            k <= plan.device_profiles@.len(),
            plan.tenant is Some,
            forall|j: int| 0 <= j < k ==> profile_fault(#[trigger] plan.device_profiles@[j]) is None,
        decreases plan.device_profiles@.len() - k,
    {
        let profile = &plan.device_profiles[k];
        match &profile.region {
            None => {
                proof {
                    lemma_first_profile_fault_at(plan.device_profiles@, k as int);
                }
                return Err(ProvisionError::MissingRegion { device_profile: profile.key.clone() });
            },
            Some(region) => {
                if parse_region(region.as_str()).is_err() {
                    proof {
                        lemma_first_profile_fault_at(plan.device_profiles@, k as int);
                    }
                    return Err(
                        ProvisionError::UnsupportedRegion {
                            device_profile: profile.key.clone(),
                            region: region.clone(),
                        },
                    );
                }
            },
        }
        k = k + 1;
    }
    proof {
        lemma_first_profile_fault_none(plan.device_profiles@);
    }
    let mut i: usize = 0;
    while i < plan.devices.len()
        invariant
            i <= plan.devices@.len(),
            plan.tenant is Some,
            first_profile_fault(plan.device_profiles@) is None,
            forall|j: int| 0 <= j < i ==> device_fault(*plan, #[trigger] plan.devices@[j]) is None,
        decreases plan.devices@.len() - i,
    {
        let device = &plan.devices[i];
        if !has_application(plan, &device.application) {
            proof {
                lemma_first_device_fault_at(*plan, plan.devices@, i as int);
            }
            return Err(
                ProvisionError::UnknownApplication {
                    dev_eui: device.dev_eui.clone(),
                    application: device.application.clone(),
                },
            );
        }
        if !has_device_profile(plan, &device.device_profile) {
            proof {
                lemma_first_device_fault_at(*plan, plan.devices@, i as int);
            }
            return Err(
                ProvisionError::UnknownDeviceProfile {
                    dev_eui: device.dev_eui.clone(),
                    device_profile: device.device_profile.clone(),
                },
            );
        }
        i = i + 1;
    }
    proof {
        lemma_first_device_fault_none(*plan, plan.devices@);
    }
    Ok(())
}

/// A character with ASCII upper-case letters taken to lower case, as a code point.
pub open spec fn ascii_folded(c: char) -> u32 {
    if 'A' <= c <= 'Z' {
        (c as u32 + 32) as u32
    } else {
        c as u32
    }
}

/// Two texts are equal once ASCII letters are taken to lower case.
pub open spec fn same_ignoring_ascii_case(a: Seq<char>, b: Seq<char>) -> bool {
    &&& a.len() == b.len()
    &&& forall|i: int| 0 <= i < a.len() ==> ascii_folded(#[trigger] a[i]) == ascii_folded(b[i])
}

fn fold_ascii(c: char) -> (r: u32)
    ensures
        r == ascii_folded(c),
{
    let x = c as u32;
    if 'A' <= c && c <= 'Z' {
        x + 32
    } else {
        x
    }
}

/// Whether two texts are equal once ASCII letters are taken to lower case.
pub fn eq_ignore_ascii_case(a: &String, b: &String) -> (r: bool)
    ensures
        r == same_ignoring_ascii_case(a@, b@),
{
    let n = a.as_str().unicode_len();
    if n != b.as_str().unicode_len() {
        return false;
    }
    let mut i: usize = 0;
    while i < n
        invariant
            n == a@.len(),
            n == b@.len(),
            i <= n,
            forall|j: int| 0 <= j < i ==> ascii_folded(#[trigger] a@[j]) == ascii_folded(b@[j]),
        decreases n - i,
    {
        if fold_ascii(a.as_str().get_char(i)) != fold_ascii(b.as_str().get_char(i)) {
            return false;
        }
        i = i + 1;
    }
    true
}

/// The position of the first device whose DevEUI equals `dev_eui` ignoring ASCII case.
pub open spec fn first_same_device(devices: Seq<DeviceSpec>, dev_eui: Seq<char>) -> Option<int>
    decreases devices.len(),
{
    if devices.len() == 0 {
        None
    } else if same_ignoring_ascii_case(devices.last().dev_eui@, dev_eui) && first_same_device(
        devices.drop_last(),
        dev_eui,
    ) is None {
        Some(devices.len() - 1)
    } else {
        first_same_device(devices.drop_last(), dev_eui)
    }
}

/// The devices after registering `device`: it takes the place of the first device
/// with the same DevEUI (ignoring ASCII case), or else comes last.
pub open spec fn register_devices(devices: Seq<DeviceSpec>, device: DeviceSpec) -> Seq<DeviceSpec> {
    match first_same_device(devices, device.dev_eui@) {
        Some(i) => devices.update(i, device),
        None => devices.push(device),
    }
}

proof fn lemma_first_same_device(devices: Seq<DeviceSpec>, dev_eui: Seq<char>)
    ensures
        match first_same_device(devices, dev_eui) {
            Some(i) => {
                &&& 0 <= i < devices.len()
                &&& same_ignoring_ascii_case(devices[i].dev_eui@, dev_eui)
                &&& forall|j: int|
                    0 <= j < i ==> !same_ignoring_ascii_case(#[trigger] devices[j].dev_eui@, dev_eui)
            },
            None => forall|j: int|
                0 <= j < devices.len() ==> !same_ignoring_ascii_case(
                    #[trigger] devices[j].dev_eui@,
                    dev_eui,
                ),
        },
    decreases devices.len(),
{
    if devices.len() > 0 {
        let t = devices.drop_last();
        lemma_first_same_device(t, dev_eui);
        assert forall|j: int| 0 <= j < t.len() implies devices[j] == #[trigger] t[j] by {}
        let n = devices.len() - 1;
        match first_same_device(t, dev_eui) {
            Some(k) => {
                assert(first_same_device(devices, dev_eui) == Some(k));
                assert(devices[k] == t[k]);
                assert forall|j: int| 0 <= j < k implies !same_ignoring_ascii_case(
                    #[trigger] devices[j].dev_eui@,
                    dev_eui,
                ) by {
                    assert(devices[j] == t[j]);
                }
            },
            None => {
                if same_ignoring_ascii_case(devices[n].dev_eui@, dev_eui) {
                    assert(first_same_device(devices, dev_eui) == Some(n));
                    assert forall|j: int| 0 <= j < n implies !same_ignoring_ascii_case(
                        #[trigger] devices[j].dev_eui@,
                        dev_eui,
                    ) by {
                        assert(devices[j] == t[j]);
                    }
                } else {
                    assert(first_same_device(devices, dev_eui) is None);
                    assert forall|j: int| 0 <= j < devices.len() implies !same_ignoring_ascii_case(
                        #[trigger] devices[j].dev_eui@,
                        dev_eui,
                    ) by {
                        if j < n {
                            assert(devices[j] == t[j]);
                        }
                    }
                }
            },
        }
    }
}

proof fn lemma_first_same_device_is(devices: Seq<DeviceSpec>, dev_eui: Seq<char>, i: int)
    requires
        0 <= i < devices.len(),
        same_ignoring_ascii_case(devices[i].dev_eui@, dev_eui),
        forall|j: int|
            0 <= j < i ==> !same_ignoring_ascii_case(#[trigger] devices[j].dev_eui@, dev_eui),
    ensures
        first_same_device(devices, dev_eui) == Some(i),
{
    lemma_first_same_device(devices, dev_eui);
    match first_same_device(devices, dev_eui) {
        Some(k) => {
            if k < i {
                assert(!same_ignoring_ascii_case(devices[k].dev_eui@, dev_eui));
            }
            if k > i {
                assert(!same_ignoring_ascii_case(devices[i].dev_eui@, dev_eui));
            }
        },
        None => {
            assert(!same_ignoring_ascii_case(devices[i].dev_eui@, dev_eui));
        },
    }
}

/// Registering the same device twice leaves the devices as registering it once:
/// a repeated registration is an update, not a duplicate.
pub proof fn law_register_is_idempotent(devices: Seq<DeviceSpec>, device: DeviceSpec)
    ensures
        register_devices(register_devices(devices, device), device) == register_devices(
            devices,
            device,
        ),
{
    let once = register_devices(devices, device);
    lemma_first_same_device(devices, device.dev_eui@);
    let k = match first_same_device(devices, device.dev_eui@) {
        Some(i) => i,
        None => devices.len() as int,
    };
    assert(once[k] == device);
    assert forall|j: int| 0 <= j < k implies !same_ignoring_ascii_case(
        #[trigger] once[j].dev_eui@,
        device.dev_eui@,
    ) by {
        assert(once[j] == devices[j]);
    }
    lemma_first_same_device_is(once, device.dev_eui@, k);
    assert(once.update(k, device) =~= once);
}

impl Plan {
    /// Registers `device`: it takes the place of the first device of the plan with
    /// the same DevEUI (ignoring ASCII case), or else is added at the end.
    pub fn register_device(&mut self, device: DeviceSpec)
        ensures
            final(self).devices@ == register_devices(old(self).devices@, device),
            final(self).version == old(self).version,
            final(self).tenant == old(self).tenant,
            final(self).device_profiles == old(self).device_profiles,
            final(self).applications == old(self).applications,
            final(self).gateways == old(self).gateways,
    {
        let mut i: usize = 0;
        while i < self.devices.len()
            invariant
                i <= self.devices@.len(),
                *self == *old(self),
                forall|j: int|
                    0 <= j < i ==> !same_ignoring_ascii_case(
                        #[trigger] self.devices@[j].dev_eui@,
                        device.dev_eui@,
                    ),
            decreases self.devices@.len() - i,
        {
            if eq_ignore_ascii_case(&self.devices[i].dev_eui, &device.dev_eui) {
                proof {
                    lemma_first_same_device_is(self.devices@, device.dev_eui@, i as int);
                }
                self.devices.set(i, device);
                return;
            }
            i = i + 1;
        }
        proof {
            lemma_first_same_device(self.devices@, device.dev_eui@);
        }
        self.devices.push(device);
    }
}

/// What the provisioner recorded of a device.
#[derive(Debug)]
pub struct DeviceState {
    pub dev_eui: String,
    pub application_id: String,
    pub device_profile_id: String,
    pub keys_applied: bool,
}

/// The model of a recorded device.
pub struct DeviceStateV {
    pub dev_eui: Seq<char>,
    pub application_id: Seq<char>,
    pub device_profile_id: Seq<char>,
    pub keys_applied: bool,
}

impl View for DeviceState {
    type V = DeviceStateV;

    open spec fn view(&self) -> DeviceStateV {
        DeviceStateV {
            dev_eui: self.dev_eui@,
            application_id: self.application_id@,
            device_profile_id: self.device_profile_id@,
            keys_applied: self.keys_applied,
        }
    }
}

/// The identifiers that ChirpStack gave to the resources of the plan, by the
/// plan's keys, and when the last reconciliation ended.
#[derive(Debug)]
pub struct ProvisionState {
    pub tenant_id: Option<String>,
    pub device_profiles: Registry<String>,
    pub applications: Registry<String>,
    pub gateways: Registry<String>,
    pub devices: Registry<DeviceState>,
    pub last_reconciled_at: Option<Timestamp>,
}

/// The model of the recorded identifiers (the time of the last reconciliation aside).
pub struct ProvisionV {
    pub tenant_id: Option<Seq<char>>,
    pub device_profiles: Map<Seq<char>, Seq<char>>,
    pub applications: Map<Seq<char>, Seq<char>>,
    pub gateways: Map<Seq<char>, Seq<char>>,
    pub devices: Map<Seq<char>, DeviceStateV>,
}

pub open spec fn opt_view(s: Option<String>) -> Option<Seq<char>> {
    match s {
        Some(s) => Some(s@),
        None => None,
    }
}

impl View for ProvisionState {
    type V = ProvisionV;

    open spec fn view(&self) -> ProvisionV {
        ProvisionV {
            tenant_id: opt_view(self.tenant_id),
            device_profiles: self.device_profiles@,
            applications: self.applications@,
            gateways: self.gateways@,
            devices: self.devices@,
        }
    }
}

impl ProvisionState {
    /// Nothing recorded yet.
    pub fn new() -> (r: ProvisionState)
        ensures
            r@.tenant_id is None,
            r@.device_profiles == Map::<Seq<char>, Seq<char>>::empty(),
            r@.applications == Map::<Seq<char>, Seq<char>>::empty(),
            r@.gateways == Map::<Seq<char>, Seq<char>>::empty(),
            r@.devices == Map::<Seq<char>, DeviceStateV>::empty(),
            r.last_reconciled_at is None,
    {
        ProvisionState {
            tenant_id: None,
            device_profiles: Registry::new(),
            applications: Registry::new(),
            gateways: Registry::new(),
            devices: Registry::new(),
            last_reconciled_at: None,
        }
    }
}

} // verus!
