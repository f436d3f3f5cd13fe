//! Public exposure of the gateway: the canonical public origin, exposure
//! modes, the exposure status report and the plan for starting a managed
//! exposure (FRP or Cloudflare).

use vstd::prelude::*;
use vstd::string::StringExecFns;

use crate::net::{host_is_loopback, host_is_unspecified, is_loopback, is_unspecified, HostAddr};
use crate::settings::{AppSettings, GatewayConfig, GatewayExposureConfig};
use crate::text::{
    cat, chars_of, chars_of_string, ends_with, eq_vec, lower, lower_vec, starts_with,
    starts_with_vec, string_of, strip_end, strip_end_vec, strip_suffix_or_keep, strip_suffix_vec,
    trim, trim_vec, CharClass,
};

verus! {

/// A parsed URL: scheme, path, query, fragment, username, password.
pub type UrlView = (
    Seq<char>,
    Seq<char>,
    Option<Seq<char>>,
    Option<Seq<char>>,
    Seq<char>,
    Option<Seq<char>>,
);

/// What `reqwest::Url::parse` (the `url` crate) makes of a string: the
/// components of the URL, or the text of the parse error.
pub uninterp spec fn url_parse(raw: Seq<char>) -> Result<UrlView, Seq<char>>;

/// The components of a parsed URL that origin validation reads.
pub struct UrlParts {
    pub scheme: String,
    pub path: String,
    pub query: Option<String>,
    pub fragment: Option<String>,
    pub username: String,
    pub password: Option<String>,
}

pub open spec fn opt_view(o: Option<String>) -> Option<Seq<char>> {
    match o {
        Some(s) => Some(s@),
        None => None,
    }
}

pub open spec fn parts_view(p: UrlParts) -> UrlView {
    (p.scheme@, p.path@, opt_view(p.query), opt_view(p.fragment), p.username@, opt_view(p.password))
}

pub open spec fn parse_outcome_view(r: Result<UrlParts, String>) -> Result<UrlView, Seq<char>> {
    match r {
        Ok(p) => Ok(parts_view(p)),
        Err(e) => Err(e@),
    }
}

/// Parses `raw` with `reqwest::Url::parse`, returning the URL's scheme,
/// path, query, fragment, username and password, or the parse error's text.
/// The contract only says that the outcome is `url_parse(raw)`, a function
/// of the input alone; what the parser accepts is not stated.
#[verifier::external_body]
fn parse_url(raw: &str) -> (r: Result<UrlParts, String>)
    ensures
        parse_outcome_view(r) == url_parse(raw@),
{
    match reqwest::Url::parse(raw) {
        Ok(url) => Ok(UrlParts {
            scheme: url.scheme().to_string(),
            path: url.path().to_string(),
            query: url.query().map(str::to_string),
            fragment: url.fragment().map(str::to_string),
            username: url.username().to_string(),
            password: url.password().map(str::to_string),
        }),
        Err(error) => Err(error.to_string()),
    }
}

/// The candidate origin: trimmed, without trailing `/`, without one `/mcp`
/// suffix, without trailing `/` again.
pub open spec fn origin_candidate(v: Seq<char>) -> Seq<char> {
    strip_end(
        strip_suffix_or_keep(strip_end(trim(v), CharClass::Is('/')), "/mcp"@),
        CharClass::Is('/'),
    )
}

pub open spec fn invalid_url_message(e: Seq<char>) -> Seq<char> {
    "公网 URL 无效: "@ + e
}

pub open spec fn scheme_message() -> Seq<char> {
    "公网 URL 只支持 http:// 或 https://。"@
}

pub open spec fn origin_only_message() -> Seq<char> {
    "公网 URL 必须是 origin/base URL，例如 https://mcp.example.com；不要包含额外路径、查询参数或片段。"@
}

pub open spec fn credentials_message() -> Seq<char> {
    "公网 URL 不能包含用户名或密码。"@
}

/// Validation of the candidate origin `raw` against its parse.
pub open spec fn origin_check(raw: Seq<char>, parsed: Result<UrlView, Seq<char>>) -> Result<
    Seq<char>,
    Seq<char>,
> {
    match parsed {
        Err(e) => Err(invalid_url_message(e)),
        Ok(u) => if u.0 != "http"@ && u.0 != "https"@ {
            Err(scheme_message())
        } else if u.1 != "/"@ || u.2 is Some || u.3 is Some {
            Err(origin_only_message())
        } else if u.4.len() > 0 || u.5 is Some {
            Err(credentials_message())
        } else {
            Ok(raw)
        },
    }
}

/// The canonical public origin of a configured public URL: empty when
/// blank, otherwise an http(s) origin with no path (beyond one `/mcp`),
/// query, fragment or credentials.
pub open spec fn public_origin(v: Seq<char>) -> Result<Seq<char>, Seq<char>> {
    let raw = origin_candidate(v);
    if raw.len() == 0 {
        Ok(raw)
    } else {
        origin_check(raw, url_parse(raw))
    }
}

pub open spec fn same_result(r: Result<String, String>, s: Result<Seq<char>, Seq<char>>) -> bool {
    match s {
        Ok(v) => r is Ok && r->Ok_0@ == v,
        Err(m) => r is Err && r->Err_0@ == m,
    }
}

fn eq_lit(s: &[char], lit: &str) -> (r: bool)
    ensures
        r == (s@ == lit@),
{
    eq_vec(s, &chars_of(lit))
}

/// Validates a candidate origin against the outcome of parsing it.
pub fn check_public_origin(raw: &str, parsed: Result<UrlParts, String>) -> (r: Result<
    String,
    String,
>)
    ensures
        same_result(r, origin_check(raw@, parse_outcome_view(parsed))),
{
    match parsed {
        Err(e) => Err(string_of(&cat(&chars_of("公网 URL 无效: "), &chars_of_string(&e)))),
        Ok(u) => {
            let scheme = chars_of_string(&u.scheme);
            if !eq_lit(&scheme, "http") && !eq_lit(&scheme, "https") {
                return Err(string_of(&chars_of("公网 URL 只支持 http:// 或 https://。")));
            }
            let path = chars_of_string(&u.path);
            if !eq_lit(&path, "/") || u.query.is_some() || u.fragment.is_some() {
                return Err(
                    string_of(
                        &chars_of(
                            "公网 URL 必须是 origin/base URL，例如 https://mcp.example.com；不要包含额外路径、查询参数或片段。",
                        ),
                    ),
                );
            }
            if chars_of_string(&u.username).len() > 0 || u.password.is_some() {
                return Err(string_of(&chars_of("公网 URL 不能包含用户名或密码。")));
            }
            Ok(string_of(&chars_of(raw)))
        },
    }
}

fn origin_candidate_vec(v: &[char]) -> (r: Vec<char>)
    ensures
        r@ == origin_candidate(v@),
{
    let t = trim_vec(v);
    let a = strip_end_vec(&t, CharClass::Is('/'));
    let b = strip_suffix_vec(&a, &chars_of("/mcp"));
    strip_end_vec(&b, CharClass::Is('/'))
}

/// The canonical public origin of a configured public URL (see
/// `public_origin`).
pub fn normalize_public_origin(value: &str) -> (r: Result<String, String>)
    ensures
        same_result(r, public_origin(value@)),
{
    let raw = origin_candidate_vec(&chars_of(value));
    if raw.len() == 0 {
        assert(raw@ =~= Seq::<char>::empty());
        return Ok(String::new());
    }
    let raw_s = string_of(&raw);
    let parsed = parse_url(raw_s.as_str());
    check_public_origin(raw_s.as_str(), parsed)
}

/// Normalising a canonical origin again gives it back unchanged, provided
/// it neither ends in whitespace nor ends with `/mcp` (the URL parser,
/// which is not modelled, may accept such origins).
pub proof fn law_public_origin_stable(v: Seq<char>)
    requires
        public_origin(v) is Ok,
        !ends_with(public_origin(v)->Ok_0, "/mcp"@),
        public_origin(v)->Ok_0.len() > 0 ==> !crate::text::is_ws(public_origin(v)->Ok_0.last()),
    ensures
        public_origin(public_origin(v)->Ok_0) == public_origin(v),
{
    let s1 = crate::text::strip_start(v, CharClass::Space);
    let t = trim(v);
    let b = strip_end(t, CharClass::Is('/'));
    let c = strip_suffix_or_keep(b, "/mcp"@);
    let raw = strip_end(c, CharClass::Is('/'));
    assert(raw == origin_candidate(v));
    let r = public_origin(v)->Ok_0;
    assert(r == raw);
    crate::text::lemma_strip_start_shape(v, CharClass::Space);
    crate::text::lemma_strip_end_shape(s1, CharClass::Space);
    crate::text::lemma_strip_end_shape(t, CharClass::Is('/'));
    crate::text::lemma_strip_end_shape(c, CharClass::Is('/'));
    if r.len() > 0 {
        assert(c.len() > 0);
        assert(c == b.subrange(0, c.len() as int));
        assert(c[0] == b[0]);
        assert(b[0] == t[0]);
        assert(t[0] == s1[0]);
        assert(!crate::text::is_ws(r[0]));
    }
    crate::text::lemma_strip_start_fixed(r, CharClass::Space);
    crate::text::lemma_strip_end_fixed(r, CharClass::Space);
    assert(trim(r) == r);
    crate::text::lemma_strip_end_fixed(r, CharClass::Is('/'));
    assert(strip_suffix_or_keep(r, "/mcp"@) == r);
    assert(origin_candidate(r) == r);
}

/// `GatewayExposureConfig.mode` lowercased and trimmed; blank means `local`.
pub open spec fn normalized_mode_spec(v: Seq<char>) -> Seq<char> {
    if lower(trim(v)).len() == 0 {
        "local"@
    } else {
        lower(trim(v))
    }
}

pub open spec fn known_mode(m: Seq<char>) -> bool {
    m == "local"@ || m == "direct"@ || m == "external"@ || m == "frp"@ || m == "cloudflare"@
}

pub open spec fn passive_mode(m: Seq<char>) -> bool {
    m == "local"@ || m == "direct"@ || m == "external"@
}

pub fn normalized_mode(value: &str) -> (r: String)
    ensures
        r@ == normalized_mode_spec(value@),
{
    let m = lower_vec(&trim_vec(&chars_of(value)));
    if m.len() == 0 {
        String::from_str("local")
    } else {
        string_of(&m)
    }
}

fn mode_is(m: &[char], lit: &str) -> (r: bool)
    ensures
        r == (m@ == lit@),
{
    eq_lit(m, lit)
}

fn is_known_mode(m: &[char]) -> (r: bool)
    ensures
        r == known_mode(m@),
{
    mode_is(m, "local") || mode_is(m, "direct") || mode_is(m, "external") || mode_is(m, "frp")
        || mode_is(m, "cloudflare")
}

pub open spec fn unsupported_mode_message(m: Seq<char>) -> Seq<char> {
    "不支持的 Gateway public access mode: "@ + m
}

/// Accepts the five exposure modes (after normalisation).
pub fn validate_mode(value: &str) -> (r: Result<(), String>)
    ensures
        known_mode(normalized_mode_spec(value@)) <==> r is Ok,
        r matches Err(m) ==> m@ == unsupported_mode_message(normalized_mode_spec(value@)),
{
    let m = normalized_mode(value);
    let mv = chars_of_string(&m);
    if is_known_mode(&mv) {
        Ok(())
    } else {
        Err(string_of(&cat(&chars_of("不支持的 Gateway public access mode: "), &mv)))
    }
}

pub open spec fn missing_canonical_message(label: Seq<char>) -> Seq<char> {
    label + " 需要先配置 Gateway 公网 URL；该 URL 是 canonical identity，不会从 tunnel 配置自动推导。"@
}

pub open spec fn https_required_message(label: Seq<char>) -> Seq<char> {
    label + " 面向 ChatGPT 时需要 HTTPS 公网 URL。"@
}

/// A managed exposure needs a configured `https://` canonical origin.
pub fn require_https_canonical(canonical: &str, label: &str) -> (r: Result<(), String>)
    ensures
        canonical@.len() == 0 ==> (r matches Err(m) && m@ == missing_canonical_message(label@)),
        canonical@.len() > 0 && !starts_with(lower(canonical@), "https://"@) ==> (r matches Err(
            m,
        ) && m@ == https_required_message(label@)),
        canonical@.len() > 0 && starts_with(lower(canonical@), "https://"@) ==> r is Ok,
{
    let c = chars_of(canonical);
    if c.len() == 0 {
        return Err(
            string_of(
                &cat(
                    &chars_of(label),
                    &chars_of(
                        " 需要先配置 Gateway 公网 URL；该 URL 是 canonical identity，不会从 tunnel 配置自动推导。",
                    ),
                ),
            ),
        );
    }
    if !starts_with_vec(&lower_vec(&c), &chars_of("https://")) {
        return Err(
            string_of(&cat(&chars_of(label), &chars_of(" 面向 ChatGPT 时需要 HTTPS 公网 URL。"))),
        );
    }
    Ok(())
}

/// FRP and Cloudflare connect back to the gateway over loopback, so its
/// bind address must be a loopback or wildcard IP.
pub fn gateway_reachable_on_loopback(bind: &HostAddr) -> (r: bool)
    ensures
        r == (is_loopback(*bind) || is_unspecified(*bind)),
{
    host_is_loopback(bind) || host_is_unspecified(bind)
}

pub struct GatewayExposureStatusDto {
    pub state: String,
    pub mode: String,
    pub managed: bool,
    pub canonical_public_url: String,
    pub effective_public_url: String,
    pub pid: Option<u32>,
    pub message: String,
}

/// A running managed exposure process, as observed by the caller.
pub struct ExposureProcessView {
    pub mode: String,
    pub effective_public_url: String,
    pub pid: Option<u32>,
    /// The child process has not exited.
    pub running: bool,
}

pub open spec fn running_message() -> Seq<char> {
    "Coding Tools 正在管理公网暴露进程。"@
}

pub open spec fn exited_message() -> Seq<char> {
    "公网暴露进程已退出，请检查日志。"@
}

pub open spec fn local_message() -> Seq<char> {
    "仅本机访问，不启动公网暴露进程。"@
}

pub open spec fn direct_message() -> Seq<char> {
    "由 Gateway 监听地址、端口映射或公网网络直接提供访问。"@
}

pub open spec fn external_message() -> Seq<char> {
    "公网路由由外部 Nginx/Caddy/VPS/其他设施管理。"@
}

pub open spec fn managed_idle_message() -> Seq<char> {
    "Managed exposure 尚未启动。"@
}

/// State, managed flag, effective URL and message reported for a mode
/// without a running exposure process.
pub open spec fn idle_status(m: Seq<char>, canonical: Seq<char>) -> (
    Seq<char>,
    bool,
    Seq<char>,
    Seq<char>,
) {
    if m == "local"@ {
        ("local"@, false, Seq::empty(), local_message())
    } else if m == "direct"@ {
        ("configured"@, false, canonical, direct_message())
    } else if m == "external"@ {
        ("configured"@, false, canonical, external_message())
    } else {
        ("stopped"@, true, Seq::empty(), managed_idle_message())
    }
}

/// The exposure status: the running process when there is one, otherwise
/// what the configured mode implies.
pub fn gateway_exposure_status(
    gateway: &GatewayConfig,
    exposure: &GatewayExposureConfig,
    process: Option<&ExposureProcessView>,
) -> (r: Result<GatewayExposureStatusDto, String>)
    requires
        process is Some || known_mode(normalized_mode_spec(exposure.mode@)),
    ensures
        public_origin(gateway.public_url@) matches Err(m) ==> (r matches Err(e) && e@ == m),
        public_origin(gateway.public_url@) matches Ok(canonical) ==> (r matches Ok(d) && {
            &&& d.canonical_public_url@ == canonical
            &&& match process {
                Some(p) => {
                    &&& d.state@ == (if p.running {
                        "running"@
                    } else {
                        "error"@
                    })
                    &&& d.mode == p.mode
                    &&& d.managed
                    &&& d.effective_public_url == p.effective_public_url
                    &&& d.pid == p.pid
                    &&& d.message@ == (if p.running {
                        running_message()
                    } else {
                        exited_message()
                    })
                },
                None => {
                    let m = normalized_mode_spec(exposure.mode@);
                    let (st, managed, effective, message) = idle_status(m, canonical);
                    &&& d.state@ == st
                    &&& d.mode@ == m
                    &&& d.managed == managed
                    &&& d.effective_public_url@ == effective
                    &&& d.pid is None
                    &&& d.message@ == message
                },
            }
        }),
{
    let canonical = normalize_public_origin(gateway.public_url.as_str())?;
    let mode = normalized_mode(exposure.mode.as_str());
    match process {
        Some(p) => {
            let running = p.running;
            Ok(GatewayExposureStatusDto {
                state: if running {
                    String::from_str("running")
                } else {
                    String::from_str("error")
                },
                mode: p.mode.clone(),
                managed: true,
                canonical_public_url: canonical,
                effective_public_url: p.effective_public_url.clone(),
                pid: p.pid,
                message: if running {
                    String::from_str("Coding Tools 正在管理公网暴露进程。")
                } else {
                    String::from_str("公网暴露进程已退出，请检查日志。")
                },
            })
        },
        None => {
            let m = chars_of_string(&mode);
            let (state, managed, effective, message) = if mode_is(&m, "local") {
                (
                    String::from_str("local"),
                    false,
                    String::new(),
                    String::from_str("仅本机访问，不启动公网暴露进程。"),
                )
            } else if mode_is(&m, "direct") {
                (
                    String::from_str("configured"),
                    false,
                    canonical.clone(),
                    String::from_str("由 Gateway 监听地址、端口映射或公网网络直接提供访问。"),
                )
            } else if mode_is(&m, "external") {
                (
                    String::from_str("configured"),
                    false,
                    canonical.clone(),
                    String::from_str("公网路由由外部 Nginx/Caddy/VPS/其他设施管理。"),
                )
            } else {
                (
                    String::from_str("stopped"),
                    true,
                    String::new(),
                    String::from_str("Managed exposure 尚未启动。"),
                )
            };
            Ok(GatewayExposureStatusDto {
                state,
                mode,
                managed,
                canonical_public_url: canonical,
                effective_public_url: effective,
                pid: None,
                message,
            })
        },
    }
}

/// What starting the managed exposure amounts to.
pub enum ExposureStartPlan {
    /// Nothing to start: report the current status.
    ReportStatus,
    /// Start `frpc` for the canonical origin; `shared_token` tells whether
    /// the inline FRP server (and its shared token) is used rather than a
    /// selected FRP profile.
    StartFrp { canonical: String, shared_token: bool },
    /// Start `cloudflared` in `quick` or `named` mode.
    StartCloudflare { cloudflare_mode: String, canonical: String },
}

pub enum PlanView {
    ReportStatus,
    StartFrp(Seq<char>, bool),
    StartCloudflare(Seq<char>, Seq<char>),
}

pub open spec fn plan_view(p: ExposureStartPlan) -> PlanView {
    match p {
        ExposureStartPlan::ReportStatus => PlanView::ReportStatus,
        ExposureStartPlan::StartFrp { canonical, shared_token } => PlanView::StartFrp(
            canonical@,
            shared_token,
        ),
        ExposureStartPlan::StartCloudflare { cloudflare_mode, canonical } => PlanView::StartCloudflare(
            cloudflare_mode@,
            canonical@,
        ),
    }
}

pub open spec fn gateway_not_running_message() -> Seq<char> {
    "请先启动全局 MCP Gateway，再启动 managed public exposure。"@
}

pub open spec fn loopback_message() -> Seq<char> {
    "FRP/Cloudflare 由本机 127.0.0.1 回连 Gateway；请将 Gateway 监听地址设为 127.0.0.1、0.0.0.0、::1 或 ::。"@
}

pub open spec fn frp_subdomain_message() -> Seq<char> {
    "Gateway FRP 需要配置子域名。"@
}

pub open spec fn cloudflare_mode_message() -> Seq<char> {
    "Gateway Cloudflare 模式仅支持 quick 或 named。"@
}

/// `require_https_canonical` as a specification.
pub open spec fn https_check(canonical: Seq<char>, label: Seq<char>) -> Option<Seq<char>> {
    if canonical.len() == 0 {
        Some(missing_canonical_message(label))
    } else if !starts_with(lower(canonical), "https://"@) {
        Some(https_required_message(label))
    } else {
        None
    }
}

/// The decision table of starting a managed exposure.
pub open spec fn start_plan(
    exposure_running: bool,
    gateway_running: bool,
    gateway: GatewayConfig,
    bind: HostAddr,
    exposure: GatewayExposureConfig,
) -> Result<PlanView, Seq<char>> {
    let m = normalized_mode_spec(exposure.mode@);
    if exposure_running {
        Ok(PlanView::ReportStatus)
    } else if !known_mode(m) {
        Err(unsupported_mode_message(m))
    } else if passive_mode(m) {
        Ok(PlanView::ReportStatus)
    } else if !gateway_running {
        Err(gateway_not_running_message())
    } else if !(is_loopback(bind) || is_unspecified(bind)) {
        Err(loopback_message())
    } else {
        match public_origin(gateway.public_url@) {
            Err(e) => Err(e),
            Ok(canonical) => if m == "frp"@ {
                match https_check(canonical, "FRP"@) {
                    Some(e) => Err(e),
                    None => if trim(exposure.frp_subdomain@).len() == 0 {
                        Err(frp_subdomain_message())
                    } else {
                        Ok(PlanView::StartFrp(canonical, trim(exposure.frp_profile_id@).len() == 0))
                    },
                }
            } else {
                let cm = lower(trim(exposure.cloudflare_mode@));
                if cm != "quick"@ && cm != "named"@ {
                    Err(cloudflare_mode_message())
                } else if cm == "named"@ {
                    match https_check(canonical, "Cloudflare named tunnel"@) {
                        Some(e) => Err(e),
                        None => Ok(PlanView::StartCloudflare(cm, canonical)),
                    }
                } else {
                    Ok(PlanView::StartCloudflare(cm, canonical))
                }
            },
        }
    }
}

/// Law: an FRP start uses the shared gateway FRP token exactly when no FRP
/// profile is selected (the profile id is blank after trimming); a
/// selected profile brings its own server and token.  The plan starts FRP
/// only in `frp` mode, for the canonical origin of the gateway's public URL.
pub proof fn law_frp_token_follows_profile(
    exposure_running: bool,
    gateway_running: bool,
    gateway: GatewayConfig,
    bind: HostAddr,
    exposure: GatewayExposureConfig,
)
    ensures
        start_plan(exposure_running, gateway_running, gateway, bind, exposure) matches Ok(
            PlanView::StartFrp(canonical, shared),
        ) ==> {
            &&& shared == (trim(exposure.frp_profile_id@).len() == 0)
            &&& normalized_mode_spec(exposure.mode@) == "frp"@
            &&& public_origin(gateway.public_url@) == Ok::<Seq<char>, Seq<char>>(canonical)
            &&& !exposure_running && gateway_running
        },
{
}

/// Decides how to start the managed public exposure (see `start_plan`).
pub fn plan_gateway_exposure_start(
    exposure_running: bool,
    gateway_running: bool,
    gateway: &GatewayConfig,
    bind: &HostAddr,
    exposure: &GatewayExposureConfig,
) -> (r: Result<ExposureStartPlan, String>)
    ensures
        match start_plan(exposure_running, gateway_running, *gateway, *bind, *exposure) {
            Ok(p) => r matches Ok(q) && plan_view(q) == p,
            Err(m) => r matches Err(e) && e@ == m,
        },
{
    if exposure_running {
        return Ok(ExposureStartPlan::ReportStatus);
    }
    let mode = normalized_mode(exposure.mode.as_str());
    proof {
        lemma_normalized_mode_fixed(exposure.mode@);
    }
    validate_mode(mode.as_str())?;
    let m = chars_of_string(&mode);
    if mode_is(&m, "local") || mode_is(&m, "direct") || mode_is(&m, "external") {
        return Ok(ExposureStartPlan::ReportStatus);
    }
    if !gateway_running {
        return Err(string_of(&chars_of("请先启动全局 MCP Gateway，再启动 managed public exposure。")));
    }
    if !gateway_reachable_on_loopback(bind) {
        return Err(
            string_of(
                &chars_of(
                    "FRP/Cloudflare 由本机 127.0.0.1 回连 Gateway；请将 Gateway 监听地址设为 127.0.0.1、0.0.0.0、::1 或 ::。",
                ),
            ),
        );
    }
    let canonical = normalize_public_origin(gateway.public_url.as_str())?;
    if mode_is(&m, "frp") {
        require_https_canonical(canonical.as_str(), "FRP")?;
        if trim_vec(&chars_of_string(&exposure.frp_subdomain)).len() == 0 {
            return Err(string_of(&chars_of("Gateway FRP 需要配置子域名。")));
        }
        let shared = trim_vec(&chars_of_string(&exposure.frp_profile_id)).len() == 0;
        return Ok(ExposureStartPlan::StartFrp { canonical, shared_token: shared });
    }
    let cm = lower_vec(&trim_vec(&chars_of_string(&exposure.cloudflare_mode)));
    if !mode_is(&cm, "quick") && !mode_is(&cm, "named") {
        return Err(string_of(&chars_of("Gateway Cloudflare 模式仅支持 quick 或 named。")));
    }
    if mode_is(&cm, "named") {
        require_https_canonical(canonical.as_str(), "Cloudflare named tunnel")?;
    }
    Ok(ExposureStartPlan::StartCloudflare { cloudflare_mode: string_of(&cm), canonical })
}

proof fn lemma_lower_idempotent(s: Seq<char>)
    ensures
        lower(lower(s)) == lower(s),
{
    assert(lower(lower(s)) =~= lower(s));
}

/// Normalising a normalised mode changes nothing.
pub proof fn lemma_normalized_mode_fixed(v: Seq<char>)
    ensures
        normalized_mode_spec(normalized_mode_spec(v)) == normalized_mode_spec(v),
{
    reveal_strlit("local");
    let t = trim(v);
    let m = lower(t);
    if m.len() > 0 {
        crate::text::lemma_strip_start_shape(v, CharClass::Space);
        crate::text::lemma_strip_end_shape(crate::text::strip_start(v, CharClass::Space), CharClass::Space);
        let s1 = crate::text::strip_start(v, CharClass::Space);
        assert(t == s1.subrange(0, t.len() as int));
        assert(t[0] == s1[0]);
        assert(!crate::text::is_ws(m[0])) by {
            assert(m[0] == crate::text::lower_char(t[0]));
        }
        assert(!crate::text::is_ws(m.last())) by {
            assert(m.last() == crate::text::lower_char(t.last()));
        }
        crate::text::lemma_strip_start_fixed(m, CharClass::Space);
        crate::text::lemma_strip_end_fixed(m, CharClass::Space);
        lemma_lower_idempotent(t);
    } else {
        assert(trim("local"@) == "local"@) by {
            crate::text::lemma_strip_start_fixed("local"@, CharClass::Space);
            crate::text::lemma_strip_end_fixed("local"@, CharClass::Space);
        }
        assert(lower("local"@) =~= "local"@);
    }
}

pub open spec fn exposure_running_message() -> Seq<char> {
    "请先停止 Gateway 公网暴露，再修改 Public Access 配置。"@
}

/// Replaces the exposure settings, unless an exposure is running or the
/// mode is unknown.
pub fn set_gateway_exposure_config(
    settings: &mut AppSettings,
    exposure_running: bool,
    exposure: GatewayExposureConfig,
) -> (r: Result<(), String>)
    ensures
        exposure_running ==> (r matches Err(m) && m@ == exposure_running_message()),
        !exposure_running && !known_mode(normalized_mode_spec(exposure.mode@)) ==> (r matches Err(
            m,
        ) && m@ == unsupported_mode_message(normalized_mode_spec(exposure.mode@))),
        !exposure_running && known_mode(normalized_mode_spec(exposure.mode@)) ==> r is Ok,
        r is Err ==> *final(settings) == *old(settings),
        r is Ok ==> !exposure_running && known_mode(normalized_mode_spec(exposure.mode@))
            && *final(settings) == (AppSettings { gateway_exposure: exposure, ..*old(settings) }),
{
    if exposure_running {
        return Err(string_of(&chars_of("请先停止 Gateway 公网暴露，再修改 Public Access 配置。")));
    }
    validate_mode(exposure.mode.as_str())?;
    settings.gateway_exposure = exposure;
    Ok(())
}

/// A copy of the exposure settings.
pub fn get_gateway_exposure_config(settings: &AppSettings) -> (r: GatewayExposureConfig)
    ensures
        r == settings.gateway_exposure,
{
    settings.gateway_exposure.copy()
}

} // verus!
