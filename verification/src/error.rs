use vstd::prelude::*;
use crate::json::{text, json_str, object, Json, JsonV};

verus! {

/// The kinds of resource that the provisioner finds by name.
#[derive(Clone, Copy, Debug, PartialEq, Eq)]
pub enum Resource {
    Tenant,
    DeviceProfile,
    Application,
}

/// The name under which ChirpStack wraps a resource of this kind in request and reply bodies.
pub open spec fn wrapper_name(r: Resource) -> Seq<char> {
    match r {
        Resource::Tenant => "tenant"@,
        Resource::DeviceProfile => "device_profile"@,
        Resource::Application => "application"@,
    }
}

/// The name under which ChirpStack wraps a resource of this kind.
pub fn wrapper_text(r: Resource) -> (s: String)
    ensures
        s@ == wrapper_name(r),
{
    match r {
        Resource::Tenant => text("tenant"),
        Resource::DeviceProfile => text("device_profile"),
        Resource::Application => text("application"),
    }
}

/// Why a plan was refused or a reconciliation stopped.
#[derive(Debug)]
pub enum ProvisionError {
    /// The plan names no tenant.
    MissingTenant,
    /// A device of the plan names an application that the plan does not declare.
    UnknownApplication { dev_eui: String, application: String },
    /// A device of the plan names a device profile that the plan does not declare.
    UnknownDeviceProfile { dev_eui: String, device_profile: String },
    /// No identifier is recorded for the application that a device names.
    UnknownApplicationReference { application: String },
    /// No identifier is recorded for the device profile that a device names.
    UnknownDeviceProfileReference { device_profile: String },
    /// ChirpStack answered a create without the new resource's identifier.
    MissingCreatedId { resource: Resource },
    /// A device profile of the plan states no region.
    MissingRegion { device_profile: String },
    /// A device profile of the plan states a region that ChirpStack does not know.
    UnsupportedRegion { device_profile: String, region: String },
    /// A listing of ChirpStack ended (an empty page) before it had given as many
    /// items as its total count.
    IncompleteListing,
    /// A page of a ChirpStack listing had no readable items or total count.
    UnreadableListing,
    /// A call of the ChirpStack API failed.
    Request(RequestError),
}

/// Why a call of the ChirpStack API failed.
#[derive(Debug)]
pub enum RequestError {
    /// ChirpStack answered with a status outside 200..=299: its code, its status
    /// line, the path of the call and the body of the answer.
    Api { code: u16, status: String, path: String, body: String },
    /// ChirpStack answered with a body that is not JSON.
    InvalidJson { path: String },
    /// The request did not get an answer.
    Transport { message: String },
}

/// The text of a failed call.
pub open spec fn request_error_message(e: RequestError) -> Seq<char> {
    match e {
        RequestError::Api { status, path, body, .. } =>
            "ChirpStack API "@ + status@ + " "@ + path@ + ": "@ + body@,
        RequestError::InvalidJson { path } => "invalid ChirpStack JSON from "@ + path@,
        RequestError::Transport { message } => message@,
    }
}

impl RequestError {
    /// The text of the failure.
    pub fn message(&self) -> (r: String)
        ensures
            r@ == request_error_message(*self),
    {
        match self {
            RequestError::Api { status, path, body, .. } => {
                let mut r = text("ChirpStack API ");
                r.append(status.as_str());
                r.append(" ");
                r.append(path.as_str());
                r.append(": ");
                r.append(body.as_str());
                r
            },
            RequestError::InvalidJson { path } => {
                let mut r = text("invalid ChirpStack JSON from ");
                r.append(path.as_str());
                r
            },
            RequestError::Transport { message } => message.clone(),
        }
    }
}

/// The text of an error, as the service reports it.
pub open spec fn error_message(e: ProvisionError) -> Seq<char> {
    match e {
        ProvisionError::MissingTenant => "plan requires a tenant"@,
        ProvisionError::UnknownApplication { dev_eui, application } =>
            "device "@ + dev_eui@ + " references unknown application "@ + application@,
        ProvisionError::UnknownDeviceProfile { dev_eui, device_profile } =>
            "device "@ + dev_eui@ + " references unknown device profile "@ + device_profile@,
        ProvisionError::UnknownApplicationReference { application } =>
            "unknown application reference: "@ + application@,
        ProvisionError::UnknownDeviceProfileReference { device_profile } =>
            "unknown device-profile reference: "@ + device_profile@,
        ProvisionError::MissingCreatedId { resource } =>
            "ChirpStack create "@ + wrapper_name(resource) + " response did not contain an id"@,
        ProvisionError::MissingRegion { device_profile } =>
            "device profile "@ + device_profile@ + " states no region"@,
        ProvisionError::UnsupportedRegion { device_profile, region } =>
            "device profile "@ + device_profile@ + " has unsupported region "@ + region@,
        ProvisionError::IncompleteListing => "ChirpStack listing ended before its total count"@,
        ProvisionError::UnreadableListing => "ChirpStack listing page has no readable result or totalCount"@,
        ProvisionError::Request(e) => request_error_message(e),
    }
}

/// The call was answered with 404: the resource read does not exist.
pub open spec fn is_not_found(e: RequestError) -> bool {
    e matches RequestError::Api { code, .. } && code == 404
}

/// Whether the call was answered with 404, the resource read not existing.
pub fn not_found(e: &RequestError) -> (r: bool)
    ensures
        r == is_not_found(*e),
{
    match e {
        RequestError::Api { code, .. } => *code == 404,
        _ => false,
    }
}

impl ProvisionError {
    /// The text of the error.
    pub fn message(&self) -> (r: String)
        ensures
            r@ == error_message(*self),
    {
        match self {
            ProvisionError::MissingTenant => text("plan requires a tenant"),
            ProvisionError::UnknownApplication { dev_eui, application } => {
                let mut r = text("device ");
                r.append(dev_eui.as_str());
                r.append(" references unknown application ");
                r.append(application.as_str());
                r
            },
            ProvisionError::UnknownDeviceProfile { dev_eui, device_profile } => {
                let mut r = text("device ");
                r.append(dev_eui.as_str());
                r.append(" references unknown device profile ");
                r.append(device_profile.as_str());
                r
            },
            ProvisionError::UnknownApplicationReference { application } => {
                let mut r = text("unknown application reference: ");
                r.append(application.as_str());
                r
            },
            ProvisionError::UnknownDeviceProfileReference { device_profile } => {
                let mut r = text("unknown device-profile reference: ");
                r.append(device_profile.as_str());
                r
            },
            ProvisionError::MissingCreatedId { resource } => {
                let mut r = text("ChirpStack create ");
                r.append(wrapper_text(*resource).as_str());
                r.append(" response did not contain an id");
                r
            },
            ProvisionError::MissingRegion { device_profile } => {
                let mut r = text("device profile ");
                r.append(device_profile.as_str());
                r.append(" states no region");
                r
            },
            ProvisionError::UnsupportedRegion { device_profile, region } => {
                let mut r = text("device profile ");
                r.append(device_profile.as_str());
                r.append(" has unsupported region ");
                r.append(region.as_str());
                r
            },
            ProvisionError::IncompleteListing => text("ChirpStack listing ended before its total count"),
            ProvisionError::UnreadableListing => text("ChirpStack listing page has no readable result or totalCount"),
            ProvisionError::Request(e) => e.message(),
        }
    }
}

/// The answer that the HTTP service gives for a request that failed.
#[derive(Debug)]
pub struct ApiError {
    message: String,
}

impl ApiError {
    /// The text of the failure.
    pub closed spec fn text(&self) -> Seq<char> {
        self.message@
    }

    /// A failure whose text is `message`.
    pub fn new(message: String) -> (r: ApiError)
        ensures
            r.text() == message@,
    {
        ApiError { message }
    }

    /// A failure that reports `error`.
    pub fn from_error(error: &ProvisionError) -> (r: ApiError)
        ensures
            r.text() == error_message(*error),
    {
        ApiError { message: error.message() }
    }

    /// The HTTP status of the answer: 500, internal server error.
    pub fn status(&self) -> (r: u16)
        ensures
            r == 500,
    {
        500
    }

    /// The body of the answer: `{"error": <text>}`.
    pub fn body(&self) -> (r: Json)
        ensures
            r@ == JsonV::Object(seq![("error"@, JsonV::Str(self.text()))]),
    {
        let fields = vec![(text("error"), json_str(self.message.as_str()))];
        proof {
            assert(crate::json::fields_v(fields@) =~= seq![("error"@, JsonV::Str(self.text()))]);
        }
        object(fields)
    }
}

} // verus!
