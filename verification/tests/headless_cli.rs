use coding_tools::headless::{
    apply_overrides, check_admin_subcommand, check_config_subcommand, health_json_output,
    parse_service_subcommand, ServiceCommand, check_workspace_subcommand, config_lines,
    effective_mcp_endpoint, monitor_rows, parse_command, parse_terminal_command, redact_session,
    should_start_exposure, truncate, CliCommand, TerminalCommand,
};
use coding_tools::settings::{AdminConfig, AppData, AppSettings, DownloadConfig, GatewayConfig, GatewayExposureConfig, ProxyConfig};
use std::collections::HashMap;

fn args(v: &[&str]) -> Vec<String> {
    v.iter().map(|s| s.to_string()).collect()
}

#[test]
fn commands_are_parsed() {
    assert!(parse_command(&args(&[])).unwrap() == CliCommand::Help);
    assert!(parse_command(&args(&["-h"])).unwrap() == CliCommand::Help);
    assert!(parse_command(&args(&["serve", "--port", "1"])).unwrap() == CliCommand::Serve);
    assert!(parse_command(&args(&["tui"])).unwrap() == CliCommand::Tui);
    assert_eq!(
        parse_command(&args(&["deploy"])).unwrap_err(),
        "未知命令: deploy\n运行 `coding-tools --help` 查看用法"
    );
    assert!(check_workspace_subcommand(&args(&[])).is_ok());
    assert!(check_workspace_subcommand(&args(&["list"])).is_ok());
    assert!(check_workspace_subcommand(&args(&["add"])).is_err());
    assert!(check_config_subcommand(&args(&["show"])).is_ok());
    assert_eq!(check_config_subcommand(&args(&["set"])).unwrap_err(), "未知 config 子命令: set");
}

#[test]
fn overrides_change_settings_in_order() {
    let mut gateway = GatewayConfig::default();
    let mut admin = AdminConfig::default();
    let mut web_root = String::from("./build");
    let r = apply_overrides(
        &mut gateway,
        &mut admin,
        &mut web_root,
        &args(&["--bind", "0.0.0.0", "--port", "+9000", "--auth", "BEARER", "--admin-port", "8080", "--web-root", "/srv/web", "--public-url", "https://x"]),
    );
    assert!(r.is_ok());
    assert_eq!(gateway.bind_host, "0.0.0.0");
    assert_eq!(gateway.local_port, 9000);
    assert_eq!(gateway.auth_type, "bearer");
    assert_eq!(gateway.public_url, "https://x");
    assert_eq!(admin.local_port, 8080);
    assert_eq!(web_root, "/srv/web");
}

#[test]
fn overrides_report_the_first_problem() {
    let mut gateway = GatewayConfig::default();
    let mut admin = AdminConfig::default();
    let mut web_root = String::new();
    assert_eq!(
        apply_overrides(&mut gateway, &mut admin, &mut web_root, &args(&["--port", "70000"])).unwrap_err(),
        "--port 必须是 1-65535 的整数"
    );
    assert_eq!(
        apply_overrides(&mut gateway, &mut admin, &mut web_root, &args(&["--auth", "basic"])).unwrap_err(),
        "--auth 仅支持 oauth、bearer、noauth"
    );
    assert_eq!(
        apply_overrides(&mut gateway, &mut admin, &mut web_root, &args(&["--bind"])).unwrap_err(),
        "--bind 缺少值"
    );
    assert_eq!(
        apply_overrides(&mut gateway, &mut admin, &mut web_root, &args(&["--verbose", "1"])).unwrap_err(),
        "未知参数: --verbose"
    );
    assert_eq!(gateway.local_port, 28766);
}

#[test]
fn terminal_text_helpers() {
    assert_eq!(truncate("abcdef", 4), "abc…");
    assert_eq!(truncate("abc", 4), "abc");
    assert_eq!(redact_session("short-key"), "short-key");
    assert_eq!(redact_session("abcdefghijklmnop"), "abcdef…mnop");
    assert!(matches!(parse_terminal_command(" Q "), TerminalCommand::Quit));
    assert!(matches!(parse_terminal_command("sessions\n"), TerminalCommand::Sessions));
    assert!(matches!(parse_terminal_command(""), TerminalCommand::Refresh));
    match parse_terminal_command("Help") {
        TerminalCommand::Unknown(c) => assert_eq!(c, "help"),
        _ => panic!("expected unknown"),
    }
    let rows = monitor_rows("running", "http://127.0.0.1:28766/mcp", "http://127.0.0.1:28767", 2, 0, "frp", "running");
    assert_eq!(rows.len(), 6);
    assert_eq!(rows[0], format!("│ Gateway    {:<46} │", "running"));
    assert_eq!(rows[5], format!("│ Exposure   {:<46} │", "frp / running"));
    assert!(should_start_exposure(true, " Cloudflare "));
    assert!(!should_start_exposure(false, "frp"));
    assert!(!should_start_exposure(true, "direct"));
    assert_eq!(effective_mcp_endpoint("https://a.example//"), "https://a.example/mcp");
}

#[test]
fn config_show_lists_settings() {
    let data = AppData {
        frp_profiles: Vec::new(),
        last_workspace_id: String::new(),
        download: DownloadConfig::default(),
        proxy: ProxyConfig::default(),
        gateway: GatewayConfig::default(),
        gateway_exposure: GatewayExposureConfig::default(),
        admin: AdminConfig::default(),
        shared_secrets: HashMap::new(),
        workspace_secrets: HashMap::new(),
        app_secrets: HashMap::new(),
    };
    let settings = AppSettings::from_data(&data);
    let lines = config_lines(&settings);
    assert_eq!(lines.len(), 10);
    assert_eq!(lines[0], "gateway.bindHost=127.0.0.1");
    assert_eq!(lines[1], "gateway.localPort=28766");
    assert_eq!(lines[8], "admin.bindHost=0.0.0.0");
    assert_eq!(lines[9], "admin.localPort=28767");
}

#[test]
fn documented_admin_health_and_service_commands_are_recognised() {
    assert!(parse_command(&args(&["admin", "reset"])).unwrap() == CliCommand::Admin);
    assert!(parse_command(&args(&["health", "--json"])).unwrap() == CliCommand::Health);
    assert!(parse_command(&args(&["service", "status"])).unwrap() == CliCommand::Service);
    assert!(parse_command(&args(&["workspace", "list"])).unwrap() == CliCommand::Workspace);
    assert!(parse_command(&args(&["config"])).unwrap() == CliCommand::Config);
}

#[test]
fn admin_subcommand_is_reset_only() {
    assert!(check_admin_subcommand(&args(&["reset"])).is_ok());
    assert_eq!(check_admin_subcommand(&args(&[])).unwrap_err(), "用法: coding-tools admin reset");
    assert_eq!(check_admin_subcommand(&args(&["delete"])).unwrap_err(), "未知 admin 子命令: delete");
}

#[test]
fn health_output_is_text_unless_json_is_asked() {
    assert_eq!(health_json_output(&args(&[])), Ok(false));
    assert_eq!(health_json_output(&args(&["--json"])), Ok(true));
    assert_eq!(health_json_output(&args(&["--yaml"])), Err("未知参数: --yaml".to_string()));
    assert_eq!(health_json_output(&args(&["--json", "x"])), Err("未知参数: x".to_string()));
}

#[test]
fn service_subcommands_install_status_uninstall() {
    assert!(parse_service_subcommand(&args(&["install"])).unwrap() == ServiceCommand::Install);
    assert!(parse_service_subcommand(&args(&["status"])).unwrap() == ServiceCommand::Status);
    assert!(parse_service_subcommand(&args(&["uninstall"])).unwrap() == ServiceCommand::Uninstall);
    assert_eq!(
        parse_service_subcommand(&args(&[])).unwrap_err(),
        "用法: coding-tools service install|status|uninstall"
    );
    assert_eq!(parse_service_subcommand(&args(&["restart"])).unwrap_err(), "未知 service 子命令: restart");
}

#[test]
fn web_console_defaults_to_all_interfaces_on_28767() {
    let admin = AdminConfig::default();
    assert_eq!(admin.bind_host, "0.0.0.0");
    assert_eq!(admin.local_port, 28767);
    assert_eq!(AppSettings::default().admin.bind_host, "0.0.0.0");
}
