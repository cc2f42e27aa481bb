# chirpstack_provisioner

A small controller that reconciles a declarative plan (one tenant, device
profiles, applications, gateways, devices and their OTAA keys) against the
ChirpStack v4 HTTP API, and keeps the identifiers ChirpStack gives in a local
state file.

Layout:

- `src/` is the verified library.
  - `plan.rs`: the plan, its validation (a tenant, a known region on every device
    profile, resolvable device references), device registration and the recorded state.
  - `region.rs`: ChirpStack's LoRaWAN regions and how a plan names them.
  - `listing.rs`: listings read page by page up to their total count; a listing
    that ends early is an error, never the absence of what was searched.
  - `reconcile.rs`: reconciliation as a state machine. The caller performs each
    action (an API call or the read of an environment variable) and hands the
    outcome back; `ReconcileV` and the `*_spec` functions are its model.
  - `laws.rs`: what holds of every step and every run: validation before any
    call, recorded identifiers tried first, existing resources updated and never
    created again, creates only after a 404 or a complete listing without the
    name, a recorded identifier that is not confirmed searched for by name,
    failed reads of gateways, devices, keys and listings never followed by a
    create, nothing created against a
    ChirpStack that holds the plan's resources, identifiers kept by a repeated
    reconciliation, gateways and devices recorded under their own identifiers,
    key values kept out of the recorded state, the calls' paths and the outcome.
  - `request.rs`: paths, request bodies and the reading of ChirpStack's replies
    (JSON is read by serde_json).
  - `json.rs`, `registry.rs`, `config.rs`, `error.rs`, `clock.rs`: JSON documents,
    keyed identifier maps, configuration with defaults, errors, the clock.
- `app/` is the program around it: the HTTP service (axum), the ChirpStack client
  (reqwest), reading and atomically writing the YAML plan and JSON state, and the
  loop that drives a reconciliation.
- `tests/` exercise the library, including full reconciliations against an
  in-memory ChirpStack.
