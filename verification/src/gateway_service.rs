//! Gateway service level: configuration changes, displayed endpoints, the
//! status report, and the order in which stop and restart act on the
//! listener and the managed public exposure.

use vstd::prelude::*;
use vstd::string::StringExecFns;

use crate::exposure::{normalize_public_origin, public_origin};
use crate::gateway_state::{GatewaySessionInfo, GatewayState};
use crate::net::{host_is_unspecified, is_unspecified, v4_text, v4_text_exec, HostAddr};
use crate::settings::{AppSettings, GatewayConfig};
use crate::text::{
    cat, chars_of, chars_of_string, decimal, decimal_of, ends_with, ends_with_vec, string_of, trim,
    trim_vec,
};

verus! {

pub struct GatewayStatusDto {
    pub state: String,
    pub local_endpoint: String,
    pub public_endpoint: String,
    pub workspace_count: usize,
    pub session_count: usize,
    pub sessions: Vec<GatewaySessionInfo>,
}

/// A started gateway listener, as observed by the caller.
pub struct GatewayProcessView<'a> {
    pub state: &'a GatewayState,
    pub local_endpoint: &'a str,
    /// The listener task has not finished.
    pub running: bool,
}

/// The host shown for a listener address: wildcard addresses are shown as
/// the matching loopback address, IPv6 in brackets.
pub open spec fn display_host(h: HostAddr, raw: Seq<char>) -> Seq<char> {
    match h {
        HostAddr::V4(a, b, c, d) => if is_unspecified(h) {
            "127.0.0.1"@
        } else {
            v4_text(a, b, c, d)
        },
        HostAddr::V6(_, text) => if is_unspecified(h) {
            "[::1]"@
        } else {
            "["@ + text@ + "]"@
        },
        HostAddr::NotIp => raw,
    }
}

pub open spec fn endpoint_url(host: Seq<char>, port: u16) -> Seq<char> {
    "http://"@ + host + ":"@ + decimal(port as nat) + "/mcp"@
}

fn display_host_exec(h: &HostAddr, raw: &[char]) -> (r: Vec<char>)
    ensures
        r@ == display_host(*h, raw@),
{
    match h {
        HostAddr::V4(a, b, c, d) => {
            if host_is_unspecified(h) {
                chars_of("127.0.0.1")
            } else {
                v4_text_exec(*a, *b, *c, *d)
            }
        },
        HostAddr::V6(_, text) => {
            if host_is_unspecified(h) {
                chars_of("[::1]")
            } else {
                let x = cat(&chars_of("["), &chars_of_string(text));
                cat(&x, &chars_of("]"))
            }
        },
        HostAddr::NotIp => crate::text::sub_all(raw),
    }
}

fn endpoint_url_exec(host: &[char], port: u16) -> (r: String)
    ensures
        r@ == endpoint_url(host@, port),
{
    let x = cat(&chars_of("http://"), host);
    let x = cat(&x, &chars_of(":"));
    let x = cat(&x, &decimal_of(port as u64));
    string_of(&cat(&x, &chars_of("/mcp")))
}

/// The local MCP endpoint shown for a configured gateway; `bind` is the
/// trimmed bind host parsed as an IP address.  A blank host shows as
/// `127.0.0.1`.
pub fn local_endpoint(config: &GatewayConfig, bind: &HostAddr) -> (r: String)
    ensures
        r@ == endpoint_url(
            if *bind is NotIp && trim(config.bind_host@).len() == 0 {
                "127.0.0.1"@
            } else {
                display_host(*bind, trim(config.bind_host@))
            },
            config.local_port,
        ),
{
    let raw = trim_vec(&chars_of_string(&config.bind_host));
    let not_ip = match bind {
        HostAddr::NotIp => true,
        _ => false,
    };
    let host = if not_ip && raw.len() == 0 {
        chars_of("127.0.0.1")
    } else {
        display_host_exec(bind, &raw)
    };
    endpoint_url_exec(&host, config.local_port)
}

/// The public MCP endpoint: the canonical origin followed by `/mcp`, or
/// empty when no valid public URL is configured.
pub open spec fn public_endpoint_spec(public_url: Seq<char>) -> Seq<char> {
    let base = match public_origin(public_url) {
        Ok(b) => b,
        Err(_) => Seq::empty(),
    };
    if base.len() == 0 {
        Seq::empty()
    } else if ends_with(base, "/mcp"@) {
        base
    } else {
        base + "/mcp"@
    }
}

pub fn public_endpoint(config: &GatewayConfig) -> (r: String)
    ensures
        r@ == public_endpoint_spec(config.public_url@),
{
    let base = match normalize_public_origin(config.public_url.as_str()) {
        Ok(b) => chars_of_string(&b),
        Err(_) => Vec::new(),
    };
    if base.len() == 0 {
        assert(base@ =~= Seq::<char>::empty());
        String::new()
    } else if ends_with_vec(&base, &chars_of("/mcp")) {
        string_of(&base)
    } else {
        string_of(&cat(&base, &chars_of("/mcp")))
    }
}

/// The gateway status: the running listener when there is one, otherwise
/// the configured endpoints with no sessions.
pub fn gateway_status(
    config: &GatewayConfig,
    bind: &HostAddr,
    registered_workspace_count: usize,
    process: Option<GatewayProcessView>,
) -> (r: GatewayStatusDto)
    requires
        process matches Some(p) ==> p.state.wf(),
    ensures
        r.public_endpoint@ == public_endpoint_spec(config.public_url@),
        match process {
            None => {
                &&& r.state@ == "stopped"@
                &&& r.local_endpoint@ == endpoint_url(
                    if *bind is NotIp && trim(config.bind_host@).len() == 0 {
                        "127.0.0.1"@
                    } else {
                        display_host(*bind, trim(config.bind_host@))
                    },
                    config.local_port,
                )
                &&& r.workspace_count == registered_workspace_count
                &&& r.session_count == 0
                &&& r.sessions@.len() == 0
            },
            Some(p) => {
                &&& r.state@ == (if p.running {
                    "running"@
                } else {
                    "error"@
                })
                &&& r.local_endpoint@ == p.local_endpoint@
                &&& r.workspace_count == p.state.registry().len()
                &&& r.session_count == p.state.bindings().dom().len()
                &&& r.sessions@.len() == r.session_count
                &&& crate::gateway_state::sessions_sorted(r.sessions@)
                &&& forall|i: int, j: int|
                    0 <= i < j < r.sessions@.len() ==> r.sessions@[i].session_key@
                        != r.sessions@[j].session_key@
                &&& forall|i: int|
                    0 <= i < r.sessions@.len() ==> {
                        let k = #[trigger] r.sessions@[i].session_key@;
                        &&& p.state.bindings().contains_key(k)
                        &&& p.state.bindings()[k] == (
                            r.sessions@[i].workspace_id@,
                            r.sessions@[i].selected_at_unix_ms,
                        )
                        &&& crate::gateway_state::has_id(p.state.registry(), r.sessions@[i].workspace_id@)
                        &&& r.sessions@[i].workspace_name@ == crate::gateway_state::info_for(
                            p.state.registry(),
                            r.sessions@[i].workspace_id@,
                        ).name@
                    }
                &&& forall|k: Seq<char>|
                    #[trigger] p.state.bindings().contains_key(k) ==> exists|i: int|
                        0 <= i < r.sessions@.len() && r.sessions@[i].session_key@ == k
            },
        },
{
    match process {
        None => GatewayStatusDto {
            state: String::from_str("stopped"),
            local_endpoint: local_endpoint(config, bind),
            public_endpoint: public_endpoint(config),
            workspace_count: registered_workspace_count,
            session_count: 0,
            sessions: Vec::new(),
        },
        Some(p) => {
            let sessions = p.state.list_sessions();
            proof {
                p.state.law_sessions_bound_to_registry();
            }
            GatewayStatusDto {
                state: if p.running {
                    String::from_str("running")
                } else {
                    String::from_str("error")
                },
                local_endpoint: string_of(&chars_of(p.local_endpoint)),
                public_endpoint: public_endpoint(config),
                workspace_count: p.state.workspace_count(),
                session_count: p.state.session_count(),
                sessions,
            }
        },
    }
}

pub open spec fn gateway_running_message() -> Seq<char> {
    "请先停止全局 Gateway，再修改监听地址、端口或认证配置。"@
}

/// Replaces the gateway settings with `gateway`, its public URL normalised
/// to the canonical origin; refused while the gateway runs or when the
/// public URL is invalid.
pub fn set_gateway_config(
    settings: &mut AppSettings,
    gateway_running: bool,
    gateway: GatewayConfig,
) -> (r: Result<(), String>)
    ensures
        gateway_running ==> (r matches Err(m) && m@ == gateway_running_message()),
        !gateway_running && public_origin(gateway.public_url@) is Err ==> (r matches Err(m) && m@
            == public_origin(gateway.public_url@)->Err_0),
        !gateway_running && public_origin(gateway.public_url@) is Ok ==> r is Ok,
        r is Err ==> *final(settings) == *old(settings),
        r is Ok ==> {
            &&& !gateway_running
            &&& public_origin(gateway.public_url@) is Ok
            &&& final(settings).gateway.public_url@ == public_origin(gateway.public_url@)->Ok_0
            &&& *final(settings) == (AppSettings {
                gateway: GatewayConfig {
                    public_url: final(settings).gateway.public_url,
                    ..gateway
                },
                ..*old(settings)
            })
        },
{
    if gateway_running {
        return Err(string_of(&chars_of("请先停止全局 Gateway，再修改监听地址、端口或认证配置。")));
    }
    let mut gateway = gateway;
    gateway.public_url = normalize_public_origin(gateway.public_url.as_str())?;
    settings.gateway = gateway;
    Ok(())
}

/// A copy of the gateway settings.
pub fn get_gateway_config(settings: &AppSettings) -> (r: GatewayConfig)
    ensures
        r == settings.gateway,
{
    settings.gateway.copy()
}

/// One step the service takes on its listener or its managed exposure.
#[derive(Debug, PartialEq, Eq, Structural)]
pub enum ServiceAction {
    StopExposure,
    StopGateway,
    StartGateway,
    StartExposure,
}

/// Which of the gateway listener and the managed exposure run.
pub struct ServiceState {
    pub gateway: bool,
    pub exposure: bool,
}

/// The state after a step succeeded.
pub open spec fn after_action(s: ServiceState, a: ServiceAction) -> ServiceState {
    match a {
        ServiceAction::StopExposure => ServiceState { exposure: false, ..s },
        ServiceAction::StopGateway => ServiceState { gateway: false, ..s },
        ServiceAction::StartGateway => ServiceState { gateway: true, ..s },
        ServiceAction::StartExposure => ServiceState { exposure: true, ..s },
    }
}

/// The state after all steps succeeded, in order.
pub open spec fn after_actions(s: ServiceState, steps: Seq<ServiceAction>) -> ServiceState
    decreases steps.len(),
{
    if steps.len() == 0 {
        s
    } else {
        after_actions(after_action(s, steps[0]), steps.drop_first())
    }
}

pub open spec fn stop_steps() -> Seq<ServiceAction> {
    seq![ServiceAction::StopExposure, ServiceAction::StopGateway]
}

pub open spec fn restart_steps(exposure_running: bool) -> Seq<ServiceAction> {
    seq![ServiceAction::StopExposure, ServiceAction::StopGateway, ServiceAction::StartGateway]
        + if exposure_running {
        seq![ServiceAction::StartExposure]
    } else {
        Seq::empty()
    }
}

/// Stopping the gateway first stops the managed exposure, then the
/// listener.
pub fn stop_plan() -> (r: Vec<ServiceAction>)
    ensures
        r@ == stop_steps(),
{
    let mut r: Vec<ServiceAction> = Vec::new();
    r.push(ServiceAction::StopExposure);
    r.push(ServiceAction::StopGateway);
    assert(r@ =~= stop_steps());
    r
}

/// Restarting the gateway stops it (and the exposure), starts the listener
/// again, and starts the exposure again when it was running.
pub fn restart_plan(exposure_running: bool) -> (r: Vec<ServiceAction>)
    ensures
        r@ == restart_steps(exposure_running),
{
    let mut r: Vec<ServiceAction> = Vec::new();
    r.push(ServiceAction::StopExposure);
    r.push(ServiceAction::StopGateway);
    r.push(ServiceAction::StartGateway);
    if exposure_running {
        r.push(ServiceAction::StartExposure);
    }
    assert(r@ =~= restart_steps(exposure_running));
    r
}

/// Law: once a stop has run, neither the listener nor the managed exposure
/// runs.
pub proof fn law_stop_stops_exposure(s: ServiceState)
    ensures
        after_actions(s, stop_steps()) == (ServiceState { gateway: false, exposure: false }),
{
    reveal_with_fuel(after_actions, 3);
}

/// Law: a restart that succeeds leaves the listener running and the managed
/// exposure running exactly when it ran before.
pub proof fn law_restart_keeps_exposure(s: ServiceState)
    ensures
        after_actions(s, restart_steps(s.exposure)) == (ServiceState { gateway: true, exposure: s.exposure }),
{
    reveal_with_fuel(after_actions, 5);
    if s.exposure {
        assert(restart_steps(s.exposure) =~= seq![
            ServiceAction::StopExposure,
            ServiceAction::StopGateway,
            ServiceAction::StartGateway,
            ServiceAction::StartExposure,
        ]);
    } else {
        assert(restart_steps(s.exposure) =~= seq![
            ServiceAction::StopExposure,
            ServiceAction::StopGateway,
            ServiceAction::StartGateway,
        ]);
    }
}

} // verus!
