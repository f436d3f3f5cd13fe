//! Command-line decisions of the headless server: which command runs,
//! how `serve`/`tui` overrides change the settings, and the text shown by
//! `config show` and the terminal monitor.

use vstd::prelude::*;
use vstd::string::StringExecFns;

use crate::settings::{AdminConfig, AppSettings, GatewayConfig};
use crate::text::{
    cat, chars_of, chars_of_string, decimal, decimal_of, eq_vec, lower, lower_vec, parse_u16,
    parse_u16_spec, slice_of, string_of, strip_end, strip_end_vec, trim, trim_vec, CharClass,
};

verus! {

/// The top-level command.
#[derive(Debug, PartialEq, Eq, Structural)]
pub enum CliCommand {
    Help,
    Serve,
    Tui,
    Workspace,
    Config,
    Admin,
    Health,
    Service,
}

pub open spec fn arg_views(args: Seq<String>) -> Seq<Seq<char>> {
    args.map_values(|a: String| a@)
}

pub open spec fn unknown_command_message(c: Seq<char>) -> Seq<char> {
    "未知命令: "@ + c + "\n运行 `coding-tools --help` 查看用法"@
}

/// The command named by the first argument (after the program name).
pub open spec fn command_spec(args: Seq<Seq<char>>) -> Result<CliCommand, Seq<char>> {
    if args.len() == 0 {
        Ok(CliCommand::Help)
    } else {
        let a = args[0];
        if a == "help"@ || a == "--help"@ || a == "-h"@ {
            Ok(CliCommand::Help)
        } else if a == "serve"@ {
            Ok(CliCommand::Serve)
        } else if a == "tui"@ {
            Ok(CliCommand::Tui)
        } else if a == "workspace"@ {
            Ok(CliCommand::Workspace)
        } else if a == "config"@ {
            Ok(CliCommand::Config)
        } else if a == "admin"@ {
            Ok(CliCommand::Admin)
        } else if a == "health"@ {
            Ok(CliCommand::Health)
        } else if a == "service"@ {
            Ok(CliCommand::Service)
        } else {
            Err(unknown_command_message(a))
        }
    }
}

fn is_lit(v: &[char], lit: &str) -> (r: bool)
    ensures
        r == (v@ == lit@),
{
    eq_vec(v, &chars_of(lit))
}

pub fn parse_command(args: &Vec<String>) -> (r: Result<CliCommand, String>)
    ensures
        match r {
            Ok(c) => command_spec(arg_views(args@)) == Ok::<CliCommand, Seq<char>>(c),
            Err(e) => command_spec(arg_views(args@)) == Err::<CliCommand, Seq<char>>(e@),
        },
{
    if args.len() == 0 {
        return Ok(CliCommand::Help);
    }
    let a = chars_of_string(&args[0]);
    assert(a@ == arg_views(args@)[0]);
    if is_lit(&a, "help") || is_lit(&a, "--help") || is_lit(&a, "-h") {
        Ok(CliCommand::Help)
    } else if is_lit(&a, "serve") {
        Ok(CliCommand::Serve)
    } else if is_lit(&a, "tui") {
        Ok(CliCommand::Tui)
    } else if is_lit(&a, "workspace") {
        Ok(CliCommand::Workspace)
    } else if is_lit(&a, "config") {
        Ok(CliCommand::Config)
    } else if is_lit(&a, "admin") {
        Ok(CliCommand::Admin)
    } else if is_lit(&a, "health") {
        Ok(CliCommand::Health)
    } else if is_lit(&a, "service") {
        Ok(CliCommand::Service)
    } else {
        let m = cat(&chars_of("未知命令: "), &a);
        Err(string_of(&cat(&m, &chars_of("\n运行 `coding-tools --help` 查看用法"))))
    }
}

/// The settings a `serve`/`tui` override can change.
pub struct OverrideView {
    pub bind: Seq<char>,
    pub port: u16,
    pub public_url: Seq<char>,
    pub auth: Seq<char>,
    pub admin_bind: Seq<char>,
    pub admin_port: u16,
    pub web_root: Seq<char>,
}

pub open spec fn override_view(g: GatewayConfig, a: AdminConfig, web_root: Seq<char>) -> OverrideView {
    OverrideView {
        bind: g.bind_host@,
        port: g.local_port,
        public_url: g.public_url@,
        auth: g.auth_type@,
        admin_bind: a.bind_host@,
        admin_port: a.local_port,
        web_root,
    }
}

pub open spec fn missing_value_message(name: Seq<char>) -> Seq<char> {
    name + " 缺少值"@
}

pub open spec fn bad_port_message(name: Seq<char>) -> Seq<char> {
    name + " 必须是 1-65535 的整数"@
}

pub open spec fn bad_auth_message() -> Seq<char> {
    "--auth 仅支持 oauth、bearer、noauth"@
}

pub open spec fn unknown_argument_message(a: Seq<char>) -> Seq<char> {
    "未知参数: "@ + a
}

/// A port value: `str::parse::<u16>`.
pub open spec fn port_value(value: Seq<char>, name: Seq<char>) -> Result<u16, Seq<char>> {
    match parse_u16_spec(value) {
        Some(p) => Ok(p),
        None => Err(bad_port_message(name)),
    }
}

/// One `--key value` override applied to the settings.
pub open spec fn override_step(st: OverrideView, key: Seq<char>, value: Option<Seq<char>>) -> Result<
    OverrideView,
    Seq<char>,
> {
    let known = key == "--bind"@ || key == "--port"@ || key == "--public-url"@ || key == "--auth"@
        || key == "--admin-bind"@ || key == "--admin-port"@ || key == "--web-root"@;
    if !known {
        Err(unknown_argument_message(key))
    } else {
        match value {
            None => Err(missing_value_message(key)),
            Some(v) => if key == "--bind"@ {
                Ok(OverrideView { bind: v, ..st })
            } else if key == "--port"@ {
                match port_value(v, key) {
                    Ok(p) => Ok(OverrideView { port: p, ..st }),
                    Err(e) => Err(e),
                }
            } else if key == "--public-url"@ {
                Ok(OverrideView { public_url: v, ..st })
            } else if key == "--auth"@ {
                let auth = lower(v);
                if auth == "oauth"@ || auth == "bearer"@ || auth == "noauth"@ {
                    Ok(OverrideView { auth: auth, ..st })
                } else {
                    Err(bad_auth_message())
                }
            } else if key == "--admin-bind"@ {
                Ok(OverrideView { admin_bind: v, ..st })
            } else if key == "--admin-port"@ {
                match port_value(v, key) {
                    Ok(p) => Ok(OverrideView { admin_port: p, ..st }),
                    Err(e) => Err(e),
                }
            } else {
                Ok(OverrideView { web_root: v, ..st })
            },
        }
    }
}

/// The overrides from position `i` on, pairwise: the settings reached, and
/// the error that stopped them, if any (the settings then are those before
/// the failing pair).
pub open spec fn overrides_from(st: OverrideView, args: Seq<Seq<char>>, i: int) -> (
    OverrideView,
    Option<Seq<char>>,
)
    decreases args.len() - i,
{
    if i < 0 || i >= args.len() {
        (st, None)
    } else {
        let value = if i + 1 < args.len() {
            Some(args[i + 1])
        } else {
            None
        };
        match override_step(st, args[i], value) {
            Ok(next) => overrides_from(next, args, i + 2),
            Err(e) => (st, Some(e)),
        }
    }
}

fn port_value_exec(value: &[char], name: &str) -> (r: Result<u16, String>)
    ensures
        match r {
            Ok(p) => port_value(value@, name@) == Ok::<u16, Seq<char>>(p),
            Err(e) => port_value(value@, name@) == Err::<u16, Seq<char>>(e@),
        },
{
    match parse_u16(value) {
        Some(p) => Ok(p),
        None => Err(string_of(&cat(&chars_of(name), &chars_of(" 必须是 1-65535 的整数")))),
    }
}

/// Applies `--bind`, `--port`, `--public-url`, `--auth`, `--admin-bind`,
/// `--admin-port` and `--web-root` overrides, in order.  Stops at the first
/// unknown flag, missing value, bad port or unsupported auth type.
pub fn apply_overrides(
    gateway: &mut GatewayConfig,
    admin: &mut AdminConfig,
    web_root: &mut String,
    args: &Vec<String>,
) -> (r: Result<(), String>)
    ensures
        ({
            let out = overrides_from(
                override_view(*old(gateway), *old(admin), old(web_root)@),
                arg_views(args@),
                0,
            );
            &&& override_view(*final(gateway), *final(admin), final(web_root)@) == out.0
            &&& match r {
                Ok(_) => out.1 is None,
                Err(e) => out.1 == Some(e@),
            }
        }),
        final(gateway).tool_profile == old(gateway).tool_profile,
        final(gateway).auto_select_single_workspace == old(gateway).auto_select_single_workspace,
{
    let ghost all = arg_views(args@);
    let ghost start = override_view(*gateway, *admin, web_root@);
    let mut index: usize = 0;
    while index < args.len()
        invariant
            all == arg_views(args@),
            start == override_view(*old(gateway), *old(admin), old(web_root)@),
            overrides_from(start, all, 0) == overrides_from(
                override_view(*gateway, *admin, web_root@),
                all,
                index as int,
            ),
            gateway.tool_profile == old(gateway).tool_profile,
            gateway.auto_select_single_workspace == old(gateway).auto_select_single_workspace,
        decreases args.len() - index,
    {
        let key = chars_of_string(&args[index]);
        assert(key@ == all[index as int]);
        let has_value = index + 1 < args.len();
        let value: Vec<char> = if has_value {
            chars_of_string(&args[index + 1])
        } else {
            Vec::new()
        };
        let ghost value_view: Option<Seq<char>> = if has_value {
            Some(all[index + 1])
        } else {
            None
        };
        let ghost st = override_view(*gateway, *admin, web_root@);
        let known = is_lit(&key, "--bind") || is_lit(&key, "--port") || is_lit(&key, "--public-url")
            || is_lit(&key, "--auth") || is_lit(&key, "--admin-bind") || is_lit(&key, "--admin-port")
            || is_lit(&key, "--web-root");
        if !known {
            let e = string_of(&cat(&chars_of("未知参数: "), &key));
            assert(override_step(st, all[index as int], value_view) == Err::<OverrideView, Seq<char>>(
                e@,
            ));
            assert(overrides_from(st, all, index as int) == (st, Some(e@)));
            return Err(e);
        }
        if !has_value {
            return Err(string_of(&cat(&key, &chars_of(" 缺少值"))));
        }
        if is_lit(&key, "--bind") {
            gateway.bind_host = string_of(&value);
        } else if is_lit(&key, "--port") {
            match port_value_exec(&value, "--port") {
                Ok(p) => {
                    gateway.local_port = p;
                },
                Err(e) => {
                    return Err(e);
                },
            }
        } else if is_lit(&key, "--public-url") {
            gateway.public_url = string_of(&value);
        } else if is_lit(&key, "--auth") {
            let auth = lower_vec(&value);
            if is_lit(&auth, "oauth") || is_lit(&auth, "bearer") || is_lit(&auth, "noauth") {
                gateway.auth_type = string_of(&auth);
            } else {
                return Err(String::from_str("--auth 仅支持 oauth、bearer、noauth"));
            }
        } else if is_lit(&key, "--admin-bind") {
            admin.bind_host = string_of(&value);
        } else if is_lit(&key, "--admin-port") {
            match port_value_exec(&value, "--admin-port") {
                Ok(p) => {
                    admin.local_port = p;
                },
                Err(e) => {
                    return Err(e);
                },
            }
        } else {
            *web_root = string_of(&value);
        }
        assert(override_step(st, all[index as int], value_view) == Ok::<OverrideView, Seq<char>>(
            override_view(*gateway, *admin, web_root@),
        ));
        index = index + 2;
    }
    Ok(())
}

/// `value` cut to `max_chars` characters, the last of them `…`, when it is
/// longer.
pub open spec fn truncate_spec(value: Seq<char>, max_chars: nat) -> Seq<char> {
    if value.len() <= max_chars {
        value
    } else {
        value.take(if max_chars == 0 { 0 } else { max_chars - 1 }) + seq!['…']
    }
}

pub fn truncate(value: &str, max_chars: usize) -> (r: String)
    ensures
        r@ == truncate_spec(value@, max_chars as nat),
{
    let v = chars_of(value);
    if v.len() <= max_chars {
        return string_of(&v);
    }
    let keep = max_chars.saturating_sub(1);
    let mut out = slice_of(&v, 0, keep);
    out.push('…');
    string_of(&out)
}

/// Law: a truncated value never takes more than `max_chars` characters
/// (for a positive width) and keeps a prefix of the original.
pub proof fn law_truncate_fits(value: Seq<char>, max_chars: nat)
    requires
        max_chars > 0,
    ensures
        truncate_spec(value, max_chars).len() <= max_chars,
        truncate_spec(value, max_chars).len() == max_chars || truncate_spec(value, max_chars) == value,
        value.len() > max_chars ==> truncate_spec(value, max_chars).take(max_chars - 1) == value.take(
            max_chars - 1,
        ),
{
    if value.len() > max_chars {
        let t = truncate_spec(value, max_chars);
        assert(t.take(max_chars - 1) =~= value.take(max_chars - 1));
    }
}

/// A session key as shown on the terminal: keys longer than 12 characters
/// keep their first 6 and last 4, joined by `…`.
pub open spec fn redact_spec(value: Seq<char>) -> Seq<char> {
    if value.len() <= 12 {
        value
    } else {
        value.take(6) + seq!['…'] + value.subrange(value.len() - 4, value.len() as int)
    }
}

pub fn redact_session(value: &str) -> (r: String)
    ensures
        r@ == redact_spec(value@),
{
    let v = chars_of(value);
    if v.len() <= 12 {
        return string_of(&v);
    }
    let mut out = slice_of(&v, 0, 6);
    out.push('…');
    let out = cat(&out, &slice_of(&v, v.len() - 4, v.len()));
    string_of(&out)
}

/// A line typed at the terminal monitor.
pub enum TerminalCommand {
    Quit,
    Sessions,
    Refresh,
    Unknown(String),
}

pub open spec fn terminal_command_spec(line: Seq<char>) -> TerminalCommandView {
    let c = lower(trim(line));
    if c == "q"@ || c == "quit"@ || c == "exit"@ {
        TerminalCommandView::Quit
    } else if c == "s"@ || c == "sessions"@ {
        TerminalCommandView::Sessions
    } else if c == "r"@ || c.len() == 0 {
        TerminalCommandView::Refresh
    } else {
        TerminalCommandView::Unknown(c)
    }
}

pub enum TerminalCommandView {
    Quit,
    Sessions,
    Refresh,
    Unknown(Seq<char>),
}

pub open spec fn terminal_view(c: TerminalCommand) -> TerminalCommandView {
    match c {
        TerminalCommand::Quit => TerminalCommandView::Quit,
        TerminalCommand::Sessions => TerminalCommandView::Sessions,
        TerminalCommand::Refresh => TerminalCommandView::Refresh,
        TerminalCommand::Unknown(s) => TerminalCommandView::Unknown(s@),
    }
}

/// The monitor command a line names (trimmed, ASCII-lowercased).
pub fn parse_terminal_command(line: &str) -> (r: TerminalCommand)
    ensures
        terminal_view(r) == terminal_command_spec(line@),
{
    let c = lower_vec(&trim_vec(&chars_of(line)));
    if is_lit(&c, "q") || is_lit(&c, "quit") || is_lit(&c, "exit") {
        TerminalCommand::Quit
    } else if is_lit(&c, "s") || is_lit(&c, "sessions") {
        TerminalCommand::Sessions
    } else if is_lit(&c, "r") || c.len() == 0 {
        TerminalCommand::Refresh
    } else {
        TerminalCommand::Unknown(string_of(&c))
    }
}

pub open spec fn workspace_unsupported_message(sub: Seq<char>) -> Seq<char> {
    "当前 CLI 暂不支持 workspace "@ + sub + "；请使用 Web Console 或 `workspace list`。"@
}

/// `workspace` accepts only `list` (the default).
pub fn check_workspace_subcommand(args: &Vec<String>) -> (r: Result<(), String>)
    ensures
        r is Ok <==> (args.len() == 0 || args@[0]@ == "list"@),
        r matches Err(e) ==> e@ == workspace_unsupported_message(args@[0]@),
{
    if args.len() == 0 {
        return Ok(());
    }
    let a = chars_of_string(&args[0]);
    if is_lit(&a, "list") {
        Ok(())
    } else {
        let m = cat(&chars_of("当前 CLI 暂不支持 workspace "), &a);
        Err(string_of(&cat(&m, &chars_of("；请使用 Web Console 或 `workspace list`。"))))
    }
}

/// `config` accepts only `show` (the default).
pub fn check_config_subcommand(args: &Vec<String>) -> (r: Result<(), String>)
    ensures
        r is Ok <==> (args.len() == 0 || args@[0]@ == "show"@),
        r matches Err(e) ==> e@ == "未知 config 子命令: "@ + args@[0]@,
{
    if args.len() == 0 {
        return Ok(());
    }
    let a = chars_of_string(&args[0]);
    if is_lit(&a, "show") {
        Ok(())
    } else {
        Err(string_of(&cat(&chars_of("未知 config 子命令: "), &a)))
    }
}

pub open spec fn admin_usage_message() -> Seq<char> {
    "用法: coding-tools admin reset"@
}

/// `admin` accepts only `reset`.
pub fn check_admin_subcommand(args: &Vec<String>) -> (r: Result<(), String>)
    ensures
        r is Ok <==> (args.len() > 0 && args@[0]@ == "reset"@),
        r matches Err(e) ==> e@ == (if args.len() == 0 {
            admin_usage_message()
        } else {
            "未知 admin 子命令: "@ + args@[0]@
        }),
{
    if args.len() == 0 {
        return Err(string_of(&chars_of("用法: coding-tools admin reset")));
    }
    let a = chars_of_string(&args[0]);
    if is_lit(&a, "reset") {
        Ok(())
    } else {
        Err(string_of(&cat(&chars_of("未知 admin 子命令: "), &a)))
    }
}

/// `health` prints a text report, or JSON with `--json`.
pub open spec fn health_args_spec(args: Seq<Seq<char>>) -> Result<bool, Seq<char>> {
    if args.len() == 0 {
        Ok(false)
    } else if args[0] != "--json"@ {
        Err(unknown_argument_message(args[0]))
    } else if args.len() == 1 {
        Ok(true)
    } else {
        Err(unknown_argument_message(args[1]))
    }
}

/// Whether `health` was asked for JSON output.
pub fn health_json_output(args: &Vec<String>) -> (r: Result<bool, String>)
    ensures
        match r {
            Ok(b) => health_args_spec(arg_views(args@)) == Ok::<bool, Seq<char>>(b),
            Err(e) => health_args_spec(arg_views(args@)) == Err::<bool, Seq<char>>(e@),
        },
{
    if args.len() == 0 {
        return Ok(false);
    }
    let a = chars_of_string(&args[0]);
    assert(a@ == arg_views(args@)[0]);
    if !is_lit(&a, "--json") {
        return Err(string_of(&cat(&chars_of("未知参数: "), &a)));
    }
    if args.len() == 1 {
        return Ok(true);
    }
    let b = chars_of_string(&args[1]);
    assert(b@ == arg_views(args@)[1]);
    Err(string_of(&cat(&chars_of("未知参数: "), &b)))
}

/// The `service` subcommands (user-level systemd unit).
#[derive(Debug, PartialEq, Eq, Structural)]
pub enum ServiceCommand {
    Install,
    Status,
    Uninstall,
}

pub open spec fn service_usage_message() -> Seq<char> {
    "用法: coding-tools service install|status|uninstall"@
}

pub open spec fn service_command_spec(args: Seq<Seq<char>>) -> Result<ServiceCommand, Seq<char>> {
    if args.len() == 0 {
        Err(service_usage_message())
    } else if args[0] == "install"@ {
        Ok(ServiceCommand::Install)
    } else if args[0] == "status"@ {
        Ok(ServiceCommand::Status)
    } else if args[0] == "uninstall"@ {
        Ok(ServiceCommand::Uninstall)
    } else {
        Err("未知 service 子命令: "@ + args[0])
    }
}

pub fn parse_service_subcommand(args: &Vec<String>) -> (r: Result<ServiceCommand, String>)
    ensures
        match r {
            Ok(c) => service_command_spec(arg_views(args@)) == Ok::<ServiceCommand, Seq<char>>(c),
            Err(e) => service_command_spec(arg_views(args@)) == Err::<ServiceCommand, Seq<char>>(e@),
        },
{
    if args.len() == 0 {
        return Err(string_of(&chars_of("用法: coding-tools service install|status|uninstall")));
    }
    let a = chars_of_string(&args[0]);
    assert(a@ == arg_views(args@)[0]);
    if is_lit(&a, "install") {
        Ok(ServiceCommand::Install)
    } else if is_lit(&a, "status") {
        Ok(ServiceCommand::Status)
    } else if is_lit(&a, "uninstall") {
        Ok(ServiceCommand::Uninstall)
    } else {
        Err(string_of(&cat(&chars_of("未知 service 子命令: "), &a)))
    }
}

/// The lines `config show` prints.
pub open spec fn config_lines_spec(s: AppSettings) -> Seq<Seq<char>> {
    seq![
        "gateway.bindHost="@ + s.gateway.bind_host@,
        "gateway.localPort="@ + decimal(s.gateway.local_port as nat),
        "gateway.publicUrl="@ + s.gateway.public_url@,
        "gateway.authType="@ + s.gateway.auth_type@,
        "gateway.exposure.mode="@ + s.gateway_exposure.mode@,
        "gateway.exposure.frpProfileId="@ + s.gateway_exposure.frp_profile_id@,
        "gateway.exposure.frpSubdomain="@ + s.gateway_exposure.frp_subdomain@,
        "gateway.exposure.cloudflareMode="@ + s.gateway_exposure.cloudflare_mode@,
        "admin.bindHost="@ + s.admin.bind_host@,
        "admin.localPort="@ + decimal(s.admin.local_port as nat),
    ]
}

fn line_of(label: &str, value: &[char]) -> (r: String)
    ensures
        r@ == label@ + value@,
{
    string_of(&cat(&chars_of(label), value))
}

pub fn config_lines(s: &AppSettings) -> (r: Vec<String>)
    ensures
        r@.map_values(|l: String| l@) == config_lines_spec(*s),
{
    let mut out: Vec<String> = Vec::new();
    out.push(line_of("gateway.bindHost=", &chars_of_string(&s.gateway.bind_host)));
    out.push(line_of("gateway.localPort=", &decimal_of(s.gateway.local_port as u64)));
    out.push(line_of("gateway.publicUrl=", &chars_of_string(&s.gateway.public_url)));
    out.push(line_of("gateway.authType=", &chars_of_string(&s.gateway.auth_type)));
    out.push(line_of("gateway.exposure.mode=", &chars_of_string(&s.gateway_exposure.mode)));
    out.push(
        line_of("gateway.exposure.frpProfileId=", &chars_of_string(&s.gateway_exposure.frp_profile_id)),
    );
    out.push(
        line_of("gateway.exposure.frpSubdomain=", &chars_of_string(&s.gateway_exposure.frp_subdomain)),
    );
    out.push(
        line_of(
            "gateway.exposure.cloudflareMode=",
            &chars_of_string(&s.gateway_exposure.cloudflare_mode),
        ),
    );
    out.push(line_of("admin.bindHost=", &chars_of_string(&s.admin.bind_host)));
    out.push(line_of("admin.localPort=", &decimal_of(s.admin.local_port as u64)));
    assert(out@.map_values(|l: String| l@) =~= config_lines_spec(*s));
    out
}

/// `serve` starts the public exposure only after the gateway started and
/// when the exposure mode (trimmed, lowercased) is `frp` or `cloudflare`.
pub fn should_start_exposure(gateway_started: bool, mode: &str) -> (r: bool)
    ensures
        r == (gateway_started && (lower(trim(mode@)) == "frp"@ || lower(trim(mode@))
            == "cloudflare"@)),
{
    let m = lower_vec(&trim_vec(&chars_of(mode)));
    gateway_started && (is_lit(&m, "frp") || is_lit(&m, "cloudflare"))
}

/// The MCP endpoint under an effective public URL: trailing `/`s removed,
/// then `/mcp`.
pub fn effective_mcp_endpoint(url: &str) -> (r: String)
    ensures
        r@ == strip_end(url@, CharClass::Is('/')) + "/mcp"@,
{
    string_of(&cat(&strip_end_vec(&chars_of(url), CharClass::Is('/')), &chars_of("/mcp")))
}

/// `format!("{:<width}")`: the text padded with spaces to `width`
/// characters (longer text is left as it is).
pub open spec fn pad_right(s: Seq<char>, width: nat) -> Seq<char> {
    if s.len() >= width {
        s
    } else {
        s + Seq::new((width - s.len()) as nat, |i: int| ' ')
    }
}

fn pad_right_exec(s: &[char], width: usize) -> (r: Vec<char>)
    ensures
        r@ == pad_right(s@, width as nat),
{
    let mut r = slice_of(s, 0, s.len());
    assert(s@.subrange(0, s@.len() as int) =~= s@);
    if s.len() >= width {
        return r;
    }
    let mut k: usize = s.len();
    while k < width
        invariant
            s.len() <= k <= width,
            r@ == s@ + Seq::new((k - s.len()) as nat, |i: int| ' '),
        decreases width - k,
    {
        r.push(' ');
        k = k + 1;
        assert(r@ =~= s@ + Seq::new((k - s.len()) as nat, |i: int| ' '));
    }
    r
}

/// One row of the terminal monitor: `│ <label><value padded to 46> │`.
pub open spec fn monitor_row(label: Seq<char>, value: Seq<char>) -> Seq<char> {
    "│ "@ + label + pad_right(value, 46) + " │"@
}

fn monitor_row_exec(label: &str, value: &[char]) -> (r: String)
    ensures
        r@ == monitor_row(label@, value@),
{
    let x = cat(&chars_of("│ "), &chars_of(label));
    let x = cat(&x, &pad_right_exec(value, 46));
    string_of(&cat(&x, &chars_of(" │")))
}

/// The rows of the terminal monitor between its frame lines.
pub open spec fn monitor_rows_spec(
    state: Seq<char>,
    local_endpoint: Seq<char>,
    admin_endpoint: Seq<char>,
    workspace_count: nat,
    session_count: nat,
    exposure_mode: Seq<char>,
    exposure_state: Seq<char>,
) -> Seq<Seq<char>> {
    seq![
        monitor_row("Gateway    "@, state),
        monitor_row("MCP        "@, truncate_spec(local_endpoint, 46)),
        monitor_row("Web Admin  "@, truncate_spec(admin_endpoint, 46)),
        monitor_row("Workspaces "@, decimal(workspace_count)),
        monitor_row("Sessions   "@, decimal(session_count)),
        monitor_row("Exposure   "@, truncate_spec(exposure_mode + " / "@ + exposure_state, 46)),
    ]
}

pub fn monitor_rows(
    state: &str,
    local_endpoint: &str,
    admin_endpoint: &str,
    workspace_count: usize,
    session_count: usize,
    exposure_mode: &str,
    exposure_state: &str,
) -> (r: Vec<String>)
    ensures
        r@.map_values(|l: String| l@) == monitor_rows_spec(
            state@,
            local_endpoint@,
            admin_endpoint@,
            workspace_count as nat,
            session_count as nat,
            exposure_mode@,
            exposure_state@,
        ),
{
    let mut r: Vec<String> = Vec::new();
    r.push(monitor_row_exec("Gateway    ", &chars_of(state)));
    r.push(monitor_row_exec("MCP        ", &chars_of_string(&truncate(local_endpoint, 46))));
    r.push(monitor_row_exec("Web Admin  ", &chars_of_string(&truncate(admin_endpoint, 46))));
    r.push(monitor_row_exec("Workspaces ", &decimal_of(workspace_count as u64)));
    r.push(monitor_row_exec("Sessions   ", &decimal_of(session_count as u64)));
    let ex = cat(&cat(&chars_of(exposure_mode), &chars_of(" / ")), &chars_of(exposure_state));
    r.push(monitor_row_exec("Exposure   ", &chars_of_string(&truncate(string_of(&ex).as_str(), 46))));
    assert(r@.map_values(|l: String| l@) =~= monitor_rows_spec(
        state@,
        local_endpoint@,
        admin_endpoint@,
        workspace_count as nat,
        session_count as nat,
        exposure_mode@,
        exposure_state@,
    ));
    r
}

} // verus!
