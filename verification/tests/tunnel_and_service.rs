use coding_tools::cloudflare::{
    check_downloaded_binary, cloudflare_tunnel_args, cloudflared_release_asset,
    cloudflared_release_url, download_temp_name, extract_trycloudflare_url,
    is_named_tunnel_ready_line, proxy_env_vars, proxy_url_for, resolve_cloudflared,
    tunnel_public_url, TunnelWatch,
};
use coding_tools::platform::{
    config_dir_after_rename, config_dir_start, lookup_candidates, port_busy_message,
    port_wait_step, ConfigDirStep, PortWait,
};
use coding_tools::systemd::{
    build_unit, check_managed_unit, parse_linger, service_path_value, service_paths,
    systemctl_state_text, systemd_arg, systemd_assignment, MANAGED_MARKER,
};

#[test]
fn extracts_trycloudflare_url_from_log_line() {
    let line = "INF | https://abc-def.trycloudflare.com is your tunnel URL";
    assert_eq!(
        extract_trycloudflare_url(line).as_deref(),
        Some("https://abc-def.trycloudflare.com")
    );
}

#[test]
fn ignores_invalid_hosts() {
    let line = "https://bad_host.trycloudflare.com";
    assert!(extract_trycloudflare_url(line).is_none());
}

#[test]
fn named_tunnel_waits_for_registered_edge_connection() {
    assert!(!is_named_tunnel_ready_line("inf starting metrics server on 127.0.0.1:20241/metrics"));
    assert!(is_named_tunnel_ready_line("inf registered tunnel connection connindex=0 protocol=http2"));
}

#[test]
fn maps_supported_cloudflared_release_assets() {
    assert_eq!(cloudflared_release_asset("linux", "x86_64").unwrap(), "cloudflared-linux-amd64");
    assert_eq!(cloudflared_release_asset("linux", "aarch64").unwrap(), "cloudflared-linux-arm64");
    assert_eq!(
        cloudflared_release_asset("windows", "x86_64").unwrap(),
        "cloudflared-windows-amd64.exe"
    );
    assert!(cloudflared_release_asset("macos", "aarch64").is_err());
}

#[test]
fn rejects_empty_cloudflared_download() {
    assert!(check_downloaded_binary(0).is_err());
    assert!(check_downloaded_binary(5).is_ok());
}

#[test]
fn tunnel_url_scan_skips_bad_candidates_and_trailing_slashes() {
    assert_eq!(
        extract_trycloudflare_url("x https://a_b.trycloudflare.com y HTTPS://Good-1.TryCloudflare.com/ z")
            .as_deref(),
        Some("HTTPS://Good-1.TryCloudflare.com")
    );
    assert_eq!(extract_trycloudflare_url("https://.trycloudflare.com"), None);
}

#[test]
fn quick_tunnel_watch_reports_first_url_once() {
    let mut watch = TunnelWatch::new(true, "");
    assert!(watch.on_line("starting").is_none());
    let ready = watch.on_line("see https://q1.trycloudflare.com now").expect("ready");
    assert_eq!(ready.public_url.as_deref(), Some("https://q1.trycloudflare.com"));
    assert!(!ready.named_ready);
    assert!(watch.on_line("https://q2.trycloudflare.com").is_none());
    assert!(watch.on_end().is_none());
    let url = tunnel_public_url(true, ready, "", "/tmp/log").unwrap();
    assert_eq!(url, "https://q1.trycloudflare.com");
}

#[test]
fn named_tunnel_watch_reports_configured_url() {
    let mut watch = TunnelWatch::new(false, "https://mcp.example.com//");
    assert!(watch.on_line("INF Starting tunnel").is_none());
    let ready = watch.on_line("INF Registered tunnel connection connIndex=0").expect("ready");
    assert_eq!(ready.public_url.as_deref(), Some("https://mcp.example.com"));
    assert!(ready.named_ready);
    let mut silent = TunnelWatch::new(true, "");
    let end = silent.on_end().expect("end");
    assert!(tunnel_public_url(true, end, "", "/tmp/cf.log").is_err());
}

#[test]
fn tunnel_command_and_proxy() {
    assert_eq!(cloudflare_tunnel_args(true, 28766, ""), vec!["tunnel", "--url", "http://127.0.0.1:28766"]);
    assert_eq!(
        cloudflare_tunnel_args(false, 1, " tok "),
        vec!["tunnel", "--protocol", "http2", "run", "--token", "tok"]
    );
    assert_eq!(proxy_url_for("manual", " http://p:1 ", None, None, None).as_deref(), Some("http://p:1"));
    assert_eq!(
        proxy_url_for("system", "", Some(String::new()), Some("http://h".into()), Some("http://a".into()))
            .as_deref(),
        Some("http://h")
    );
    assert_eq!(proxy_url_for("none", "http://p", None, None, None), None);
    let vars = proxy_env_vars("http://p");
    assert_eq!(vars.len(), 7);
    assert_eq!(vars[6].0, "TUNNEL_HTTP_PROXY");
    assert_eq!(
        cloudflared_release_url("cloudflared-linux-amd64"),
        "https://github.com/cloudflare/cloudflared/releases/latest/download/cloudflared-linux-amd64"
    );
    let temp = download_temp_name(Some("cloudflared"));
    assert!(temp.starts_with(".cloudflared.download-"));
    assert_eq!(temp.len(), ".cloudflared.download-".len() + 32);
}

#[test]
fn cloudflared_is_found_among_candidates() {
    let candidates = vec![("/usr/bin/cloudflared".to_string(), false), ("/opt/cloudflared".to_string(), true)];
    assert_eq!(resolve_cloudflared(&candidates, None).unwrap(), "/opt/cloudflared");
    let none = vec![("/usr/bin/cloudflared".to_string(), false)];
    assert_eq!(
        resolve_cloudflared(&none, Some(("/cache/cloudflared".to_string(), true))).unwrap(),
        "/cache/cloudflared"
    );
    assert_eq!(resolve_cloudflared(&none, Some(("/cache/cloudflared".to_string(), false))).unwrap_err(), "未找到 cloudflared。");
}

#[test]
fn systemd_arg_escapes_specifiers_and_quotes() {
    assert_eq!(systemd_arg("/tmp/a%b\"c"), "\"/tmp/a%%b\\\"c\"");
}

#[test]
fn unit_uses_restart_and_graceful_sigint() {
    let unit = build_unit("/opt/coding tools/coding-tools", "/opt/web", "/usr/bin:/bin", None, None);
    assert!(unit.contains(MANAGED_MARKER));
    assert!(unit.contains("Restart=on-failure"));
    assert!(unit.contains("KillSignal=SIGINT"));
    assert!(unit.contains("TimeoutStopSec=20s"));
    assert!(unit.contains("serve --web-root"));
    assert!(unit.contains("\"/opt/coding tools/coding-tools\""));
}

#[test]
fn service_path_contains_common_user_and_system_bins() {
    let path = service_path_value(Some("/home/dev"), &vec!["/usr/bin".to_string(), "".to_string(), "/opt/bin".to_string()]);
    assert!(path.contains("/.local/bin"));
    assert!(path.contains("/.cargo/bin"));
    assert!(path.split(':').any(|item| item == "/usr/bin"));
    assert_eq!(
        path,
        "/home/dev/.local/bin:/home/dev/.cargo/bin:/usr/bin:/opt/bin:/usr/local/sbin:/usr/local/bin:/usr/sbin:/sbin:/bin"
    );
}

#[test]
fn unit_carries_environment_and_is_managed() {
    let unit = build_unit("/b", "/w", "/bin", Some("/cfg"), None);
    assert!(unit.contains("Environment=\"PATH=/bin\"\n"));
    assert!(unit.contains("Environment=\"XDG_CONFIG_HOME=/cfg\"\n"));
    assert!(!unit.contains("XDG_DATA_HOME"));
    assert!(unit.starts_with(MANAGED_MARKER));
    assert!(check_managed_unit(&unit, "/u", false).is_ok());
    assert_eq!(
        check_managed_unit("[Unit]", "/u/x.service", true).unwrap_err(),
        "拒绝删除非 Coding Tools 管理的 systemd unit: /u/x.service"
    );
    assert_eq!(systemd_assignment("K", "a\\b"), "\"K=a\\\\b\"");
}

#[test]
fn service_locations_and_systemctl_answers() {
    let paths = service_paths("/home/u/.config", "/home/u/.local/share/");
    assert_eq!(paths.unit, "/home/u/.config/systemd/user/coding-tools.service");
    assert_eq!(paths.binary, "/home/u/.local/share/coding-tools/bin/coding-tools");
    assert_eq!(paths.web_root, "/home/u/.local/share/coding-tools/web");
    assert_eq!(systemctl_state_text(" active\n", true), "active");
    assert_eq!(systemctl_state_text("", true), "ok");
    assert_eq!(systemctl_state_text("  ", false), "unknown");
    assert_eq!(parse_linger(true, "yes\n"), Some(true));
    assert_eq!(parse_linger(true, "no"), Some(false));
    assert_eq!(parse_linger(false, "yes"), None);
    assert_eq!(parse_linger(true, "maybe"), None);
}

#[test]
fn config_dir_defaults_to_canonical_without_legacy_data() {
    match config_dir_start("/cfg", false, false) {
        ConfigDirStep::Done(r) => {
            assert_eq!(r.path, "/cfg/coding-tools-mcp");
            assert!(r.migration_warning.is_none());
        }
        _ => panic!("no rename expected"),
    }
}

#[test]
fn config_dir_renames_legacy_root_to_canonical_root() {
    match config_dir_start("/cfg", false, true) {
        ConfigDirStep::RenameLegacy { from, to } => {
            assert_eq!(from, "/cfg/coding-tools-mcp-desktop");
            assert_eq!(to, "/cfg/coding-tools-mcp");
        }
        _ => panic!("rename expected"),
    }
    let r = config_dir_after_rename("/cfg", None, true);
    assert_eq!(r.path, "/cfg/coding-tools-mcp");
    assert!(r.migration_warning.is_none());
}

#[test]
fn config_dir_prefers_existing_canonical_root_without_merging_legacy() {
    match config_dir_start("/cfg", true, true) {
        ConfigDirStep::Done(r) => {
            assert_eq!(r.path, "/cfg/coding-tools-mcp");
            assert!(r.migration_warning.is_none());
        }
        _ => panic!("rename must not run when canonical root already exists"),
    }
}

#[test]
fn config_dir_falls_back_to_legacy_root_when_rename_fails() {
    let r = config_dir_after_rename("/cfg", Some("blocked for test"), false);
    assert_eq!(r.path, "/cfg/coding-tools-mcp-desktop");
    assert_eq!(
        r.migration_warning.as_deref(),
        Some("配置目录迁移失败（/cfg/coding-tools-mcp-desktop -> /cfg/coding-tools-mcp）：blocked for test；本次继续使用旧目录")
    );
    let raced = config_dir_after_rename("/cfg", Some("exists"), true);
    assert_eq!(raced.path, "/cfg/coding-tools-mcp");
}

#[test]
fn path_lookup_and_port_messages() {
    let dirs = vec!["/usr/bin".to_string(), "/opt/".to_string()];
    assert_eq!(lookup_candidates(&dirs, "frpc", false), vec!["/usr/bin/frpc", "/opt/frpc"]);
    assert_eq!(
        lookup_candidates(&dirs, "frpc", true),
        vec!["/usr/bin/frpc", "/usr/bin/frpc.exe", "/opt/frpc", "/opt/frpc.exe"]
    );
    assert_eq!(lookup_candidates(&dirs, "frpc.exe", true), vec!["/usr/bin/frpc.exe", "/opt/frpc.exe"]);
    assert_eq!(port_busy_message(28766, "Gateway ", 42, None, false), "Gateway 端口 28766 已被占用：pid 42");
    assert_eq!(
        port_busy_message(80, "Admin ", 7, Some("/usr/bin/x"), true),
        "Admin 端口 80 仍被本应用的上一次服务占用（/usr/bin/x），请先停止服务或稍后再试"
    );
    assert!(matches!(port_wait_step(true, None, 1), PortWait::Free));
    assert!(matches!(port_wait_step(true, Some(1), 1), PortWait::Retry));
    assert!(matches!(port_wait_step(true, Some(2), 1), PortWait::Busy));
    assert!(matches!(port_wait_step(false, None, 1), PortWait::Busy));
}
