use vstd::prelude::*;
use crate::json::text;

verus! {

/// Where the HTTP service listens.
#[derive(Debug)]
pub struct ServerConfig {
    pub bind: String,
}

/// How ChirpStack is reached.
#[derive(Debug)]
pub struct ChirpStackConfig {
    pub endpoint: String,
    /// The environment variable that holds the API token.
    pub api_token_env: String,
    pub timeout_seconds: u64,
}

/// The provisioner's configuration.
#[derive(Debug)]
pub struct Config {
    pub server: ServerConfig,
    pub chirpstack: ChirpStackConfig,
    pub plan_path: String,
    pub state_path: String,
}

/// The server section of a configuration file as written: every setting may be missing.
#[derive(Debug)]
pub struct ServerDocument {
    pub bind: Option<String>,
}

/// The ChirpStack section of a configuration file as written.
#[derive(Debug)]
pub struct ChirpStackDocument {
    pub endpoint: Option<String>,
    pub api_token_env: Option<String>,
    pub timeout_seconds: Option<u64>,
}

/// A configuration file as written.
#[derive(Debug)]
pub struct ConfigDocument {
    pub server: Option<ServerDocument>,
    pub chirpstack: Option<ChirpStackDocument>,
    pub plan_path: Option<String>,
    pub state_path: Option<String>,
}

/// The settings that a configuration must state.
#[derive(Clone, Copy, Debug, PartialEq, Eq)]
pub enum RequiredSetting {
    Chirpstack,
    Endpoint,
    PlanPath,
    StatePath,
}

/// Why a configuration was refused: a setting that it must state is missing.
#[derive(Debug)]
pub struct ConfigError {
    pub missing: RequiredSetting,
}

/// The name of a required setting in the configuration file.
pub open spec fn setting_name(s: RequiredSetting) -> Seq<char> {
    match s {
        RequiredSetting::Chirpstack => "chirpstack"@,
        RequiredSetting::Endpoint => "endpoint"@,
        RequiredSetting::PlanPath => "plan_path"@,
        RequiredSetting::StatePath => "state_path"@,
    }
}

impl ConfigError {
    /// The text of the error: "missing field `<name>`".
    pub fn message(&self) -> (r: String)
        ensures
            r@ == "missing field `"@ + setting_name(self.missing) + "`"@,
    {
        let mut r = text("missing field `");
        match self.missing {
            RequiredSetting::Chirpstack => r.append("chirpstack"),
            RequiredSetting::Endpoint => r.append("endpoint"),
            RequiredSetting::PlanPath => r.append("plan_path"),
            RequiredSetting::StatePath => r.append("state_path"),
        }
        r.append("`");
        r
    }
}

/// The address the service listens on where the configuration states none.
pub fn default_bind() -> (r: String)
    ensures
        r@ == "0.0.0.0:8085"@,
{
    text("0.0.0.0:8085")
}

/// The variable that holds the API token where the configuration names none.
pub fn default_token_env() -> (r: String)
    ensures
        r@ == "CHIRPSTACK_API_TOKEN"@,
{
    text("CHIRPSTACK_API_TOKEN")
}

/// The request timeout, in seconds, where the configuration states none.
pub fn default_timeout() -> (r: u64)
    ensures
        r == 15,
{
    15
}

impl Default for ServerConfig {
    fn default() -> (r: ServerConfig)
        ensures
            r.bind@ == "0.0.0.0:8085"@,
    {
        ServerConfig { bind: default_bind() }
    }
}

/// A setting as written, or its default.
pub open spec fn or_default(s: Option<String>, default: Seq<char>) -> Seq<char> {
    match s {
        Some(s) => s@,
        None => default,
    }
}

/// The address that a configuration file gives.
pub open spec fn bind_of(doc: ConfigDocument) -> Seq<char> {
    match doc.server {
        Some(server) => or_default(server.bind, "0.0.0.0:8085"@),
        None => "0.0.0.0:8085"@,
    }
}

/// The first required setting that a configuration file leaves out: the
/// ChirpStack section, its endpoint, the plan path, the state path.
pub open spec fn missing_setting(doc: ConfigDocument) -> Option<RequiredSetting> {
    match doc.chirpstack {
        None => Some(RequiredSetting::Chirpstack),
        Some(cs) => if cs.endpoint is None {
            Some(RequiredSetting::Endpoint)
        } else if doc.plan_path is None {
            Some(RequiredSetting::PlanPath)
        } else if doc.state_path is None {
            Some(RequiredSetting::StatePath)
        } else {
            None
        },
    }
}

fn string_or(s: Option<String>, default: String) -> (r: String)
    ensures
        r@ == or_default(s, default@),
{
    match s {
        Some(s) => s,
        None => default,
    }
}

impl Config {
    /// The configuration that a configuration file gives: the settings it states,
    /// and the defaults for the others (`0.0.0.0:8085`, `CHIRPSTACK_API_TOKEN`, 15
    /// seconds); refused where a required setting is missing.
    pub fn load(doc: ConfigDocument) -> (r: Result<Config, ConfigError>)
        ensures
            match r {
                Ok(c) => {
                    &&& missing_setting(doc) is None
                    &&& c.server.bind@ == bind_of(doc)
                    &&& c.chirpstack.endpoint@ == doc.chirpstack->0.endpoint->0@
                    &&& c.chirpstack.api_token_env@ == or_default(
                        doc.chirpstack->0.api_token_env,
                        "CHIRPSTACK_API_TOKEN"@,
                    )
                    &&& c.chirpstack.timeout_seconds == match doc.chirpstack->0.timeout_seconds {
                        Some(t) => t,
                        None => 15,
                    }
                    &&& c.plan_path@ == doc.plan_path->0@
                    &&& c.state_path@ == doc.state_path->0@
                },
                Err(e) => missing_setting(doc) == Some(e.missing),
            },
    {
        let ConfigDocument { server, chirpstack, plan_path, state_path } = doc;
        let chirpstack = match chirpstack {
            Some(cs) => cs,
            None => return Err(ConfigError { missing: RequiredSetting::Chirpstack }),
        };
        let ChirpStackDocument { endpoint, api_token_env, timeout_seconds } = chirpstack;
        let endpoint = match endpoint {
            Some(e) => e,
            None => return Err(ConfigError { missing: RequiredSetting::Endpoint }),
        };
        let plan_path = match plan_path {
            Some(p) => p,
            None => return Err(ConfigError { missing: RequiredSetting::PlanPath }),
        };
        let state_path = match state_path {
            Some(p) => p,
            None => return Err(ConfigError { missing: RequiredSetting::StatePath }),
        };
        let bind = match server {
            Some(s) => string_or(s.bind, default_bind()),
            None => default_bind(),
        };
        let timeout_seconds = match timeout_seconds {
            Some(t) => t,
            None => default_timeout(),
        };
        Ok(
            Config {
                server: ServerConfig { bind },
                chirpstack: ChirpStackConfig {
                    endpoint,
                    api_token_env: string_or(api_token_env, default_token_env()),
                    timeout_seconds,
                },
                plan_path,
                state_path,
            },
        )
    }
}

} // verus!
