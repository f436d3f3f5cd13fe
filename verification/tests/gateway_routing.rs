use coding_tools::exposure::{
    gateway_reachable_on_loopback, normalize_public_origin, normalized_mode, set_gateway_exposure_config, validate_mode,
};
use coding_tools::gateway_server::{session_to_inject, GatewayReply, McpRequest, ToolOutcome};
use coding_tools::gateway_service::{restart_plan, set_gateway_config, stop_plan, ServiceAction};
use coding_tools::gateway_state::{normalize_workspace_selector, GatewayState, WorkspaceProfile};
use coding_tools::health::{
    build_health_report, endpoint, plan_health_probes, report_lines, GatewayHealthItem, GatewayHealthReport,
    HealthInputs, HealthProbes,
};
use coding_tools::listener::{
    bearer_authorized, completed_log_line, local_endpoint, normalize_public_url, request_log_line, session_key_from_header,
};
use coding_tools::net::{admin_bind_text, invalid_admin_host_message, HostAddr};
use coding_tools::settings::{AppSettings, GatewayConfig, GatewayExposureConfig};

fn profile(id: &str, name: &str) -> WorkspaceProfile {
    WorkspaceProfile { id: id.into(), name: name.into(), path: format!("/src/{id}") }
}

fn state(profiles: &[WorkspaceProfile]) -> GatewayState {
    let profiles: Vec<WorkspaceProfile> = profiles
        .iter()
        .map(|p| WorkspaceProfile { id: p.id.clone(), name: p.name.clone(), path: p.path.clone() })
        .collect();
    GatewayState::new(&profiles, &Vec::new(), &GatewayConfig::default()).expect("state")
}

fn call(name: &str, workspace: Option<&str>, meta: Option<&str>) -> McpRequest {
    McpRequest {
        method: "tools/call".into(),
        has_id: true,
        tool_name: Some(name.into()),
        workspace_arg: workspace.map(String::from),
        meta_session: meta.map(String::from),
    }
}

#[test]
fn public_url_accepts_base_or_mcp_endpoint() {
    assert_eq!(normalize_public_url("https://example.com/mcp"), "https://example.com");
    assert_eq!(normalize_public_url("https://example.com/"), "https://example.com");
}

#[test]
fn wildcard_bind_still_displays_a_connectable_local_url() {
    assert_eq!(
        local_endpoint("0.0.0.0", &HostAddr::V4(0, 0, 0, 0), 28766),
        "http://127.0.0.1:28766/mcp"
    );
}

#[test]
fn virtual_route_selector_extracts_workspace_id() {
    assert_eq!(normalize_workspace_selector("/w/abc123/mcp"), "abc123");
    assert_eq!(normalize_workspace_selector("w/abc123"), "abc123");
    assert_eq!(normalize_workspace_selector("abc123"), "abc123");
}

#[test]
fn endpoint_joins_origin_and_path() {
    assert_eq!(endpoint("https://mcp.example.com/", "/mcp"), "https://mcp.example.com/mcp");
    assert!(endpoint("", "/mcp").is_empty());
}

#[test]
fn canonical_public_url_accepts_origin_or_mcp_endpoint() {
    assert_eq!(
        normalize_public_origin("https://mcp.example.com/mcp").unwrap(),
        "https://mcp.example.com"
    );
    assert_eq!(
        normalize_public_origin("https://mcp.example.com/").unwrap(),
        "https://mcp.example.com"
    );
}

#[test]
fn canonical_public_url_rejects_extra_paths() {
    assert!(normalize_public_origin("https://example.com/api/mcp").is_err());
}

#[test]
fn managed_exposure_requires_loopback_reachable_bind() {
    assert!(!gateway_reachable_on_loopback(&HostAddr::V4(192, 168, 1, 10)));
    assert!(gateway_reachable_on_loopback(&HostAddr::V4(0, 0, 0, 0)));
}

#[test]
fn public_origin_rejects_other_schemes_and_credentials() {
    assert!(normalize_public_origin("ftp://example.com").is_err());
    assert!(normalize_public_origin("https://user:pw@example.com").is_err());
    assert!(normalize_public_origin("not a url").is_err());
    assert_eq!(normalize_public_origin("").unwrap(), "");
}

#[test]
fn exposure_modes_are_normalised() {
    assert_eq!(normalized_mode("  FRP "), "frp");
    assert_eq!(normalized_mode(""), "local");
    assert!(validate_mode("Cloudflare").is_ok());
    assert!(validate_mode("ngrok").is_err());
}

#[test]
fn injects_transport_session_only_when_openai_session_is_absent() {
    assert_eq!(session_to_inject(&None, Some("transport-session")).as_deref(), Some("transport-session"));
    assert_eq!(session_to_inject(&Some("conversation".into()), Some("transport-session")), None);
    assert_eq!(session_to_inject(&Some("   ".into()), Some("transport-session")).as_deref(), Some("transport-session"));
    assert_eq!(session_to_inject(&None, None), None);
}

#[test]
fn selecting_a_workspace_routes_the_conversation() {
    let mut st = state(&[profile("a1", "Alpha"), profile("b2", "Beta")]);
    match st.handle_request(&call("get_current_workspace", None, Some("conv")), None, None, 1) {
        GatewayReply::Tool(ToolOutcome::Failed { code, .. }) => assert_eq!(code, "workspace_required"),
        _ => panic!("expected workspace_required"),
    }
    match st.handle_request(&call("select_workspace", Some("beta"), Some("conv")), None, None, 2) {
        GatewayReply::Tool(ToolOutcome::Selected(info)) => {
            assert_eq!(info.id, "b2");
            assert_eq!(info.route, "/w/b2/mcp");
        }
        _ => panic!("expected selection"),
    }
    match st.handle_request(&call("read_file", None, Some(" conv ")), None, None, 3) {
        GatewayReply::Tool(ToolOutcome::Forward { workspace_id, inject_session }) => {
            assert_eq!(workspace_id, "b2");
            assert_eq!(inject_session, None);
        }
        _ => panic!("expected forward"),
    }
    match st.handle_request(&call("read_file", None, None), Some("conv"), None, 4) {
        GatewayReply::Tool(ToolOutcome::Forward { workspace_id, inject_session }) => {
            assert_eq!(workspace_id, "b2");
            assert_eq!(inject_session.as_deref(), Some("conv"));
        }
        _ => panic!("expected forward"),
    }
    match st.handle_request(&call("read_file", None, Some("conv")), None, Some("a1"), 5) {
        GatewayReply::Tool(ToolOutcome::Forward { workspace_id, .. }) => assert_eq!(workspace_id, "a1"),
        _ => panic!("expected forward"),
    }
    match st.handle_request(&call("select_workspace", Some("a1"), Some("conv")), None, Some("a1"), 6) {
        GatewayReply::Tool(ToolOutcome::PathLocked) => {}
        _ => panic!("expected path lock"),
    }
    assert_eq!(st.session_count(), 1);
    assert_eq!(st.clear_session("conv"), Ok(true));
    assert_eq!(st.session_count(), 0);
}

#[test]
fn gateway_tools_report_failures() {
    let mut st = state(&[profile("a1", "Alpha"), profile("b2", "alpha")]);
    match st.handle_request(&call("select_workspace", Some("ALPHA"), Some("c")), None, None, 1) {
        GatewayReply::Tool(ToolOutcome::Failed { code, workspaces, .. }) => {
            assert_eq!(code, "workspace_selection_failed");
            assert_eq!(workspaces.len(), 2);
        }
        _ => panic!("expected ambiguity"),
    }
    match st.handle_request(&call("select_workspace", Some("a1"), None), None, None, 1) {
        GatewayReply::Tool(ToolOutcome::Failed { code, .. }) => assert_eq!(code, "session_key_missing"),
        _ => panic!("expected missing session"),
    }
    match st.handle_request(&call("list_workspaces", None, None), None, None, 1) {
        GatewayReply::Tool(ToolOutcome::Workspaces { workspaces, selection_required }) => {
            assert!(selection_required);
            assert_eq!(workspaces[0].id, "a1");
        }
        _ => panic!("expected list"),
    }
}

#[test]
fn json_rpc_methods_are_routed() {
    let mut st = state(&[profile("only", "Only")]);
    let notification = McpRequest {
        method: "notifications/initialized".into(),
        has_id: false,
        tool_name: None,
        workspace_arg: None,
        meta_session: None,
    };
    assert!(matches!(st.handle_request(&notification, None, None, 0), GatewayReply::NoReply));
    let ping = McpRequest { method: "ping".into(), has_id: true, ..notification };
    assert!(matches!(st.handle_request(&ping, None, None, 0), GatewayReply::Pong));
    let unknown = McpRequest { method: "resources/list".into(), ..ping };
    match st.handle_request(&unknown, None, None, 0) {
        GatewayReply::MethodNotFound(m) => assert_eq!(m, "Method not found: resources/list"),
        _ => panic!("expected -32601"),
    }
    let nameless = McpRequest { method: "tools/call".into(), ..unknown };
    match st.handle_request(&nameless, None, None, 0) {
        GatewayReply::InvalidParams(m) => assert_eq!(m, "Missing tool name"),
        _ => panic!("expected -32602"),
    }
}

#[test]
fn transport_session_header_and_log_lines() {
    assert_eq!(session_key_from_header(Some("  abc ")).as_deref(), Some("abc"));
    assert_eq!(session_key_from_header(Some("   ")), None);
    assert_eq!(
        request_log_line("1", "tools/call", "read_file", None),
        "[rpc] request id=1 method=tools/call tool=read_file route=session"
    );
    assert_eq!(completed_log_line("null", "ping", ""), "[rpc] completed id=null method=ping tool=");
}

#[test]
fn bearer_header_must_carry_the_configured_token() {
    assert!(bearer_authorized(Some("Bearer secret-token"), "secret-token"));
    assert!(bearer_authorized(Some("  Bearer secret-token \n"), "secret-token"));
    assert!(!bearer_authorized(Some("Bearer other"), "secret-token"));
    assert!(!bearer_authorized(Some("bearer secret-token"), "secret-token"));
    assert!(!bearer_authorized(Some("Bearer "), ""));
    assert!(!bearer_authorized(None, "secret-token"));
}

#[test]
fn health_text_report_lists_summary_then_each_check() {
    let item = |status: &str, label: &str, detail: &str, hint: &str| GatewayHealthItem {
        key: "k".to_string(),
        layer: "config".to_string(),
        label: label.to_string(),
        status: status.to_string(),
        detail: detail.to_string(),
        hint: hint.to_string(),
    };
    let report = GatewayHealthReport {
        chatgpt_ready: false,
        summary: "not ready".to_string(),
        public_base_url: String::new(),
        items: vec![item("ok", "Workspace 注册", "已注册 1 个工作区", ""), item("fail", "Public MCP", "HTTP 404", "检查 DNS")],
    };
    assert_eq!(
        report_lines(&report),
        vec![
            "not ready".to_string(),
            "[ok] Workspace 注册: 已注册 1 个工作区".to_string(),
            "[fail] Public MCP: HTTP 404 — 检查 DNS".to_string(),
        ]
    );
}

#[test]
fn stop_and_restart_order_listener_and_exposure() {
    assert_eq!(stop_plan(), vec![ServiceAction::StopExposure, ServiceAction::StopGateway]);
    assert_eq!(
        restart_plan(true),
        vec![
            ServiceAction::StopExposure,
            ServiceAction::StopGateway,
            ServiceAction::StartGateway,
            ServiceAction::StartExposure
        ]
    );
    assert_eq!(
        restart_plan(false),
        vec![ServiceAction::StopExposure, ServiceAction::StopGateway, ServiceAction::StartGateway]
    );
}

fn health_inputs(public_url: &str, mode: &str, auth: &str) -> HealthInputs {
    let mut gateway = GatewayConfig::default();
    gateway.public_url = public_url.into();
    gateway.auth_type = auth.into();
    let mut exposure = GatewayExposureConfig::default();
    exposure.mode = mode.into();
    HealthInputs {
        gateway,
        exposure,
        workspace_count: 2,
        oauth_client_id: None,
        oauth_password: None,
        oauth_token_secret: None,
        bearer_token: Some("tok".into()),
        gateway_state: "running".into(),
        gateway_local_endpoint: "http://127.0.0.1:28766/mcp".into(),
        exposure_state: "local".into(),
        exposure_message: String::new(),
        exposure_pid: None,
        exposure_effective_url: String::new(),
    }
}

fn probes(local: bool, public: bool) -> HealthProbes {
    HealthProbes {
        local: (local, "HTTP 405".into()),
        transport: (false, String::new()),
        public: (public, "HTTP 401".into()),
        oauth_authorization: (false, String::new()),
        oauth_protected: (false, String::new()),
    }
}

#[test]
fn health_report_of_a_bearer_gateway_behind_https() {
    let inputs = health_inputs("https://mcp.example.com/mcp", "external", "bearer");
    let report = build_health_report(&inputs, &probes(true, true)).expect("report");
    assert!(report.chatgpt_ready);
    assert_eq!(report.public_base_url, "https://mcp.example.com");
    let keys: Vec<&str> = report.items.iter().map(|i| i.key.as_str()).collect();
    assert_eq!(
        keys,
        vec!["workspace_registry", "public_identity", "auth_config", "gateway_runtime", "local_gateway", "public_provider", "public_mcp", "oauth_metadata"]
    );
    assert_eq!(report.items[4].detail, "http://127.0.0.1:28766/mcp · HTTP 405");
    assert_eq!(report.items[6].detail, "https://mcp.example.com/mcp · HTTP 401");
    assert_eq!(report.items[7].status, "skip");
    assert_eq!(report.items[7].detail, "认证模式为 bearer");
    for item in &report.items {
        assert_eq!(item.hint.is_empty(), item.status == "ok" || item.status == "skip");
    }
}

#[test]
fn health_report_failures_carry_hints() {
    let inputs = health_inputs("", "local", "oauth");
    let report = build_health_report(&inputs, &probes(false, false)).expect("report");
    assert!(!report.chatgpt_ready);
    assert_eq!(report.items[2].status, "fail");
    assert_eq!(report.items[2].detail, "缺少: oauth_client_id, oauth_password, oauth_token_secret");
    assert_eq!(report.items[2].hint, "在共享密钥页面补齐 Gateway OAuth 凭据。");
    assert_eq!(report.items[4].status, "fail");
    assert_eq!(report.items[4].hint, "确认 Gateway 已启动，监听地址/端口未被占用。");
    for item in &report.items {
        assert_eq!(item.hint.is_empty(), item.status == "ok" || item.status == "skip");
    }
}

#[test]
fn health_check_refuses_unknown_exposure_mode() {
    let inputs = health_inputs("", "ngrok", "bearer");
    let expected = "不支持的 Gateway public access mode: ngrok".to_string();
    assert_eq!(build_health_report(&inputs, &probes(true, true)).err(), Some(expected.clone()));
    assert_eq!(plan_health_probes(&inputs).err(), Some(expected));
}

#[test]
fn admin_bind_text_maps_localhost_and_trims() {
    assert_eq!(admin_bind_text(" LocalHost "), "127.0.0.1");
    assert_eq!(admin_bind_text(" 0.0.0.0 "), "0.0.0.0");
    assert_eq!(admin_bind_text("192.168.3.19"), "192.168.3.19");
    assert_eq!(invalid_admin_host_message(" not-an-ip "), "Admin 监听地址无效: not-an-ip");
}

#[test]
fn session_count_and_listing_follow_selection_and_clearing() {
    let mut st = state(&[profile("a", "Alpha"), profile("b", "Beta")]);
    assert!(st.select_workspace_at("s1", "a", 10).is_ok());
    assert!(st.select_workspace_at("s2", "b", 20).is_ok());
    assert_eq!(st.session_count(), 2);
    assert_eq!(st.list_sessions().len(), 2);
    assert_eq!(st.clear_session("s1"), Ok(true));
    assert_eq!(st.clear_session("s1"), Ok(false));
    assert_eq!(st.session_count(), 1);
    assert_eq!(st.list_sessions().len(), 1);
    assert_eq!(st.list_sessions()[0].session_key, "s2");
}

#[test]
fn gateway_state_refuses_the_first_unusable_workspace() {
    let profiles = vec![profile("a", "Alpha"), profile("b", "Beta"), profile("c", "Gamma")];
    let errors = vec![None, Some("路径不存在".to_string()), Some("不是目录".to_string())];
    let err = GatewayState::new(&profiles, &errors, &GatewayConfig::default()).err().expect("refused");
    assert_eq!(err, "工作区“Beta”不可用: 路径不存在");
    let none: Vec<WorkspaceProfile> = Vec::new();
    let err = GatewayState::new(&none, &Vec::new(), &GatewayConfig::default()).err().expect("refused");
    assert_eq!(err, "Gateway 至少需要一个已注册工作区");
    let ok = GatewayState::new(&profiles, &vec![None, None, None], &GatewayConfig::default()).expect("usable");
    assert_eq!(ok.workspace_count(), 3);
    assert_eq!(ok.session_count(), 0);
}

#[test]
fn gateway_settings_are_replaced_when_stopped_and_valid() {
    let mut settings = AppSettings::default();
    let mut gateway = GatewayConfig::default();
    gateway.local_port = 9100;
    gateway.public_url = "https://mcp.example.com/mcp".into();
    assert!(set_gateway_config(&mut settings, false, gateway).is_ok());
    assert_eq!(settings.gateway.local_port, 9100);
    assert_eq!(settings.gateway.public_url, "https://mcp.example.com");

    let mut running = GatewayConfig::default();
    running.local_port = 9200;
    assert_eq!(
        set_gateway_config(&mut settings, true, running).err().expect("refused"),
        "请先停止全局 Gateway，再修改监听地址、端口或认证配置。"
    );
    assert_eq!(settings.gateway.local_port, 9100);

    let mut bad = GatewayConfig::default();
    bad.public_url = "ftp://mcp.example.com".into();
    assert!(set_gateway_config(&mut settings, false, bad).is_err());
    assert_eq!(settings.gateway.public_url, "https://mcp.example.com");
}

#[test]
fn exposure_settings_are_replaced_when_stopped_and_mode_known() {
    let mut settings = AppSettings::default();
    let mut exposure = GatewayExposureConfig::default();
    exposure.mode = " Cloudflare ".into();
    assert!(set_gateway_exposure_config(&mut settings, false, exposure).is_ok());
    assert_eq!(settings.gateway_exposure.mode, " Cloudflare ");

    let mut running = GatewayExposureConfig::default();
    running.mode = "direct".into();
    assert_eq!(
        set_gateway_exposure_config(&mut settings, true, running).err().expect("refused"),
        "请先停止 Gateway 公网暴露，再修改 Public Access 配置。"
    );
    let mut unknown = GatewayExposureConfig::default();
    unknown.mode = "Tor".into();
    assert_eq!(
        set_gateway_exposure_config(&mut settings, false, unknown).err().expect("refused"),
        "不支持的 Gateway public access mode: tor"
    );
    assert_eq!(settings.gateway_exposure.mode, " Cloudflare ");
}

#[test]
fn failed_gateway_tools_list_the_registry_in_name_order() {
    let mut st = state(&[profile("z9", "zeta"), profile("a1", "Alpha"), profile("b2", "beta")]);
    match st.handle_request(&call("select_workspace", Some("nope"), Some("conv")), None, None, 1) {
        GatewayReply::Tool(ToolOutcome::Failed { code, workspaces, .. }) => {
            assert_eq!(code, "workspace_selection_failed");
            let ids: Vec<&str> = workspaces.iter().map(|w| w.id.as_str()).collect();
            assert_eq!(ids, vec!["a1", "b2", "z9"]);
        }
        _ => panic!("expected failure"),
    }
    match st.handle_request(&call("list_workspaces", None, None), None, None, 2) {
        GatewayReply::Tool(ToolOutcome::Workspaces { workspaces, selection_required }) => {
            assert!(selection_required);
            let names: Vec<&str> = workspaces.iter().map(|w| w.name.as_str()).collect();
            assert_eq!(names, vec!["Alpha", "beta", "zeta"]);
        }
        _ => panic!("expected listing"),
    }
    assert_eq!(st.session_count(), 0);
}
