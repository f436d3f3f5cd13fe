//! Decisions of the admin console's JSON-RPC surface: which command a
//! request names, how string arguments and shared-secret keys are checked,
//! and when a secret change restarts the running gateway.

use vstd::prelude::*;

use crate::text::{cat, chars_of, eq_vec, string_of, trim, trim_vec};

verus! {

/// The commands the admin console serves.
#[derive(Debug, PartialEq, Eq, Structural)]
pub enum RpcCommand {
    ListWorkspaces,
    CreateWorkspace,
    UpdateWorkspace,
    DeleteWorkspace,
    GetRuntimeStatus,
    GetActionsRuntimeStatus,
    GetLastWorkspaceId,
    SetLastWorkspace,
    GetGatewayConfig,
    SetGatewayConfig,
    GetGatewayExposure,
    SetGatewayExposure,
    GetGatewayExposureStatus,
    StartGatewayExposure,
    StopGatewayExposure,
    GetGatewayStatus,
    RunGatewayHealthChecks,
    ClearGatewaySession,
    StartGateway,
    StopGateway,
    RestartGateway,
    GetAdminConfig,
    ListFrpProfiles,
    GetSharedSecret,
    SetSharedSecret,
    RegenerateSharedSecret,
}

/// The command name of each command.
pub open spec fn command_name(c: RpcCommand) -> Seq<char> {
    match c {
        RpcCommand::ListWorkspaces => "list_workspaces"@,
        RpcCommand::CreateWorkspace => "create_workspace"@,
        RpcCommand::UpdateWorkspace => "update_workspace"@,
        RpcCommand::DeleteWorkspace => "delete_workspace"@,
        RpcCommand::GetRuntimeStatus => "get_runtime_status"@,
        RpcCommand::GetActionsRuntimeStatus => "get_actions_runtime_status"@,
        RpcCommand::GetLastWorkspaceId => "get_last_workspace_id"@,
        RpcCommand::SetLastWorkspace => "set_last_workspace"@,
        RpcCommand::GetGatewayConfig => "get_gateway_config"@,
        RpcCommand::SetGatewayConfig => "set_gateway_config"@,
        RpcCommand::GetGatewayExposure => "get_gateway_exposure"@,
        RpcCommand::SetGatewayExposure => "set_gateway_exposure"@,
        RpcCommand::GetGatewayExposureStatus => "get_gateway_exposure_status"@,
        RpcCommand::StartGatewayExposure => "start_gateway_exposure"@,
        RpcCommand::StopGatewayExposure => "stop_gateway_exposure"@,
        RpcCommand::GetGatewayStatus => "get_gateway_status"@,
        RpcCommand::RunGatewayHealthChecks => "run_gateway_health_checks"@,
        RpcCommand::ClearGatewaySession => "clear_gateway_session"@,
        RpcCommand::StartGateway => "start_gateway"@,
        RpcCommand::StopGateway => "stop_gateway"@,
        RpcCommand::RestartGateway => "restart_gateway"@,
        RpcCommand::GetAdminConfig => "get_admin_config"@,
        RpcCommand::ListFrpProfiles => "list_frp_profiles"@,
        RpcCommand::GetSharedSecret => "get_shared_secret"@,
        RpcCommand::SetSharedSecret => "set_shared_secret"@,
        RpcCommand::RegenerateSharedSecret => "regenerate_shared_secret"@,
    }
}

pub open spec fn unknown_command_message(name: Seq<char>) -> Seq<char> {
    "Web Admin 尚未迁移命令: "@ + name
}

fn is_lit(v: &[char], lit: &str) -> (r: bool)
    ensures
        r == (v@ == lit@),
{
    eq_vec(v, &chars_of(lit))
}

/// The command a request names; an unknown name is refused.
pub fn parse_rpc_command(command: &str) -> (r: Result<RpcCommand, String>)
    ensures
        match r {
            Ok(c) => command_name(c) == command@,
            Err(e) => (forall|c: RpcCommand| command_name(c) != command@) && e@
                == unknown_command_message(command@),
        },
{
    let v = chars_of(command);
    if is_lit(&v, "list_workspaces") {
        Ok(RpcCommand::ListWorkspaces)
    } else if is_lit(&v, "create_workspace") {
        Ok(RpcCommand::CreateWorkspace)
    } else if is_lit(&v, "update_workspace") {
        Ok(RpcCommand::UpdateWorkspace)
    } else if is_lit(&v, "delete_workspace") {
        Ok(RpcCommand::DeleteWorkspace)
    } else if is_lit(&v, "get_runtime_status") {
        Ok(RpcCommand::GetRuntimeStatus)
    } else if is_lit(&v, "get_actions_runtime_status") {
        Ok(RpcCommand::GetActionsRuntimeStatus)
    } else if is_lit(&v, "get_last_workspace_id") {
        Ok(RpcCommand::GetLastWorkspaceId)
    } else if is_lit(&v, "set_last_workspace") {
        Ok(RpcCommand::SetLastWorkspace)
    } else if is_lit(&v, "get_gateway_config") {
        Ok(RpcCommand::GetGatewayConfig)
    } else if is_lit(&v, "set_gateway_config") {
        Ok(RpcCommand::SetGatewayConfig)
    } else if is_lit(&v, "get_gateway_exposure") {
        Ok(RpcCommand::GetGatewayExposure)
    } else if is_lit(&v, "set_gateway_exposure") {
        Ok(RpcCommand::SetGatewayExposure)
    } else if is_lit(&v, "get_gateway_exposure_status") {
        Ok(RpcCommand::GetGatewayExposureStatus)
    } else if is_lit(&v, "start_gateway_exposure") {
        Ok(RpcCommand::StartGatewayExposure)
    } else if is_lit(&v, "stop_gateway_exposure") {
        Ok(RpcCommand::StopGatewayExposure)
    } else if is_lit(&v, "get_gateway_status") {
        Ok(RpcCommand::GetGatewayStatus)
    } else if is_lit(&v, "run_gateway_health_checks") {
        Ok(RpcCommand::RunGatewayHealthChecks)
    } else if is_lit(&v, "clear_gateway_session") {
        Ok(RpcCommand::ClearGatewaySession)
    } else if is_lit(&v, "start_gateway") {
        Ok(RpcCommand::StartGateway)
    } else if is_lit(&v, "stop_gateway") {
        Ok(RpcCommand::StopGateway)
    } else if is_lit(&v, "restart_gateway") {
        Ok(RpcCommand::RestartGateway)
    } else if is_lit(&v, "get_admin_config") {
        Ok(RpcCommand::GetAdminConfig)
    } else if is_lit(&v, "list_frp_profiles") {
        Ok(RpcCommand::ListFrpProfiles)
    } else if is_lit(&v, "get_shared_secret") {
        Ok(RpcCommand::GetSharedSecret)
    } else if is_lit(&v, "set_shared_secret") {
        Ok(RpcCommand::SetSharedSecret)
    } else if is_lit(&v, "regenerate_shared_secret") {
        Ok(RpcCommand::RegenerateSharedSecret)
    } else {
        proof {
            assert forall|c: RpcCommand| command_name(c) != command@ by {
                match c {
                    _ => {},
                }
            }
        }
        Err(string_of(&cat(&chars_of("Web Admin 尚未迁移命令: "), &v)))
    }
}

/// The secrets shared by all workspaces that the console may read or set.
pub open spec fn shared_keys() -> Seq<Seq<char>> {
    seq![
        "oauth_client_id"@,
        "bearer_token"@,
        "oauth_client_secret"@,
        "oauth_password"@,
        "oauth_token_secret"@,
        "actions_api_key"@,
        "actions_oauth_client_secret"@,
        "actions_oauth_password"@,
        "actions_oauth_token_secret"@,
        "gateway_frp_token"@,
        "gateway_cloudflare_token"@,
    ]
}

/// The shared secrets the running gateway uses; changing one restarts it.
pub open spec fn gateway_shared_keys() -> Seq<Seq<char>> {
    seq![
        "oauth_client_id"@,
        "bearer_token"@,
        "oauth_client_secret"@,
        "oauth_password"@,
        "oauth_token_secret"@,
    ]
}

pub fn is_gateway_shared_key(key: &str) -> (r: bool)
    ensures
        r == gateway_shared_keys().contains(key@),
{
    let v = chars_of(key);
    let r = is_lit(&v, "oauth_client_id") || is_lit(&v, "bearer_token") || is_lit(
        &v,
        "oauth_client_secret",
    ) || is_lit(&v, "oauth_password") || is_lit(&v, "oauth_token_secret");
    proof {
        let ks = gateway_shared_keys();
        if r {
            if v@ == "oauth_client_id"@ {
                assert(ks[0] == v@);
            } else if v@ == "bearer_token"@ {
                assert(ks[1] == v@);
            } else if v@ == "oauth_client_secret"@ {
                assert(ks[2] == v@);
            } else if v@ == "oauth_password"@ {
                assert(ks[3] == v@);
            } else {
                assert(ks[4] == v@);
            }
        }
    }
    r
}

fn is_shared_key(v: &[char]) -> (r: bool)
    ensures
        r == shared_keys().contains(v@),
{
    let ks: [&str; 11] = [
        "oauth_client_id",
        "bearer_token",
        "oauth_client_secret",
        "oauth_password",
        "oauth_token_secret",
        "actions_api_key",
        "actions_oauth_client_secret",
        "actions_oauth_password",
        "actions_oauth_token_secret",
        "gateway_frp_token",
        "gateway_cloudflare_token",
    ];
    assert(ks@.map_values(|k: &str| k@) =~= shared_keys());
    let mut i: usize = 0;
    while i < 11
        invariant
            0 <= i <= 11,
            ks@.map_values(|k: &str| k@) == shared_keys(),
            forall|j: int| 0 <= j < i ==> shared_keys()[j] != v@,
        decreases 11 - i,
    {
        if is_lit(v, ks[i]) {
            assert(shared_keys()[i as int] == v@);
            return true;
        }
        i = i + 1;
    }
    false
}

/// A string argument: present, trimmed, not blank.
pub open spec fn arg_spec(value: Option<Seq<char>>, key: Seq<char>) -> Result<Seq<char>, Seq<char>> {
    match value {
        Some(v) => if trim(v).len() > 0 {
            Ok(trim(v))
        } else {
            Err("缺少参数: "@ + key)
        },
        None => Err("缺少参数: "@ + key),
    }
}

pub open spec fn opt_view(o: Option<&str>) -> Option<Seq<char>> {
    match o {
        Some(s) => Some(s@),
        None => None,
    }
}

pub open spec fn same_result(r: Result<String, String>, s: Result<Seq<char>, Seq<char>>) -> bool {
    match s {
        Ok(v) => r is Ok && r->Ok_0@ == v,
        Err(m) => r is Err && r->Err_0@ == m,
    }
}

/// The string argument `key` (`value` is what the request holds there, if
/// it is a string).
pub fn arg_str(value: Option<&str>, key: &str) -> (r: Result<String, String>)
    ensures
        same_result(r, arg_spec(opt_view(value), key@)),
{
    if let Some(v) = value {
        let t = trim_vec(&chars_of(v));
        if t.len() > 0 {
            return Ok(string_of(&t));
        }
    }
    Err(string_of(&cat(&chars_of("缺少参数: "), &chars_of(key))))
}

/// The `key` argument of the shared-secret commands: a known shared key.
pub open spec fn shared_key_spec(value: Option<Seq<char>>) -> Result<Seq<char>, Seq<char>> {
    match arg_spec(value, "key"@) {
        Ok(k) => if shared_keys().contains(k) {
            Ok(k)
        } else {
            Err("invalid shared key: "@ + k)
        },
        Err(e) => Err(e),
    }
}

pub fn shared_key(value: Option<&str>) -> (r: Result<String, String>)
    ensures
        same_result(r, shared_key_spec(opt_view(value))),
{
    let k = arg_str(value, "key")?;
    let kv = chars_of(k.as_str());
    if is_shared_key(&kv) {
        Ok(k)
    } else {
        Err(string_of(&cat(&chars_of("invalid shared key: "), &kv)))
    }
}

/// Workspace definitions change only while the gateway is stopped.
pub fn ensure_gateway_stopped(gateway_present: bool) -> (r: Result<(), String>)
    ensures
        r is Ok <==> !gateway_present,
        r matches Err(e) ==> e@ == "全局 Gateway 运行时不能修改工作区定义；请先停止 Gateway。"@,
{
    if gateway_present {
        Err(string_of(&chars_of("全局 Gateway 运行时不能修改工作区定义；请先停止 Gateway。")))
    } else {
        Ok(())
    }
}

/// What `set_shared_secret` does: write the value when it differs from the
/// stored one, and restart the gateway when it wrote a gateway key while
/// the gateway runs.
pub struct SecretUpdate {
    pub write: bool,
    pub restart_gateway: bool,
}

pub fn plan_secret_update(current: Option<&str>, value: &str, key: &str, gateway_running: bool) -> (r:
    SecretUpdate)
    ensures
        r.write == (opt_view(current) != Some(value@)),
        r.restart_gateway == (r.write && gateway_shared_keys().contains(key@) && gateway_running),
{
    let write = match current {
        Some(c) => !eq_vec(&chars_of(c), &chars_of(value)),
        None => true,
    };
    let restart_gateway = write && is_gateway_shared_key(key) && gateway_running;
    SecretUpdate { write, restart_gateway }
}

/// `regenerate_shared_secret` always writes a new value; it restarts the
/// gateway for a gateway key while the gateway runs.
pub fn regenerate_restarts_gateway(key: &str, gateway_running: bool) -> (r: bool)
    ensures
        r == (gateway_shared_keys().contains(key@) && gateway_running),
{
    is_gateway_shared_key(key) && gateway_running
}

/// Whether an FRP profile has a usable token: one that is not blank.
pub fn has_token(token: Option<&str>) -> (r: bool)
    ensures
        r == (opt_view(token) is Some && trim(opt_view(token)->0).len() > 0),
{
    match token {
        Some(t) => trim_vec(&chars_of(t)).len() > 0,
        None => false,
    }
}

/// Law: a secret write that changes nothing never restarts the gateway,
/// and only gateway keys ever do.
pub proof fn law_secret_restart_only_on_change(
    current: Option<Seq<char>>,
    value: Seq<char>,
    key: Seq<char>,
    running: bool,
    write: bool,
    restart: bool,
)
    requires
        write == (current != Some(value)),
        restart == (write && gateway_shared_keys().contains(key) && running),
    ensures
        current == Some(value) ==> !restart,
        restart ==> shared_keys().contains(key),
{
    if restart {
        let i = choose|i: int| 0 <= i < gateway_shared_keys().len() && gateway_shared_keys()[i] == key;
        assert(shared_keys()[i] == key);
    }
}

} // verus!
