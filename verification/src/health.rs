//! Gateway health checks.
//!
//! A check runs in three steps: `plan_health_probes` decides which URLs to
//! probe, the caller probes them over HTTP (classifying answers with
//! `classify_probe` and the metadata checks), and `build_health_report`
//! turns configuration, runtime status and probe outcomes into the report.

use vstd::prelude::*;
use vstd::string::StringExecFns;

use crate::exposure::{
    known_mode, normalize_public_origin, normalized_mode_spec, public_origin, unsupported_mode_message,
    validate_mode,
};
use crate::settings::{GatewayConfig, GatewayExposureConfig};
use crate::text::{
    cat, chars_of, chars_of_string, contains, contains_vec, decimal, decimal_of, eq_vec, lower,
    lower_vec, starts_with, starts_with_vec, string_of, strip_end, strip_end_vec, trim, trim_vec,
    CharClass,
};

verus! {

pub struct GatewayHealthItem {
    pub key: String,
    pub layer: String,
    pub label: String,
    /// `ok`, `warn`, `fail`, or `skip`.
    pub status: String,
    pub detail: String,
    pub hint: String,
}

pub struct GatewayHealthReport {
    pub chatgpt_ready: bool,
    pub summary: String,
    pub public_base_url: String,
    pub items: Vec<GatewayHealthItem>,
}

/// `base` without trailing `/`, followed by `path`; empty for a blank base.
pub open spec fn endpoint_spec(base: Seq<char>, path: Seq<char>) -> Seq<char> {
    if trim(base).len() == 0 {
        Seq::empty()
    } else {
        strip_end(base, CharClass::Is('/')) + path
    }
}

pub fn endpoint(base: &str, path: &str) -> (r: String)
    ensures
        r@ == endpoint_spec(base@, path@),
{
    let b = chars_of(base);
    if trim_vec(&b).len() == 0 {
        String::new()
    } else {
        string_of(&cat(&strip_end_vec(&b, CharClass::Is('/')), &chars_of(path)))
    }
}

fn lit(s: &str) -> (r: String)
    ensures
        r@ == s@,
{
    String::from_str(s)
}

pub fn item(key: &str, layer: &str, label: &str, status: &str, detail: String, hint: String) -> (r:
    GatewayHealthItem)
    ensures
        r.key@ == key@,
        r.layer@ == layer@,
        r.label@ == label@,
        r.status@ == status@,
        r.detail == detail,
        r.hint == hint,
{
    GatewayHealthItem {
        key: lit(key),
        layer: lit(layer),
        label: lit(label),
        status: lit(status),
        detail,
        hint,
    }
}

pub fn ok_item(key: &str, layer: &str, label: &str, detail: String) -> (r: GatewayHealthItem)
    ensures
        r.key@ == key@,
        r.layer@ == layer@,
        r.label@ == label@,
        r.status@ == "ok"@,
        r.detail == detail,
        r.hint@.len() == 0,
{
    item(key, layer, label, "ok", detail, String::new())
}

pub fn warn_item(key: &str, layer: &str, label: &str, detail: String, hint: &str) -> (r:
    GatewayHealthItem)
    ensures
        r.key@ == key@,
        r.layer@ == layer@,
        r.label@ == label@,
        r.status@ == "warn"@,
        r.detail == detail,
        r.hint@ == hint@,
{
    item(key, layer, label, "warn", detail, lit(hint))
}

pub fn fail_item(key: &str, layer: &str, label: &str, detail: String, hint: &str) -> (r:
    GatewayHealthItem)
    ensures
        r.key@ == key@,
        r.layer@ == layer@,
        r.label@ == label@,
        r.status@ == "fail"@,
        r.detail == detail,
        r.hint@ == hint@,
{
    item(key, layer, label, "fail", detail, lit(hint))
}

pub fn skip_item(key: &str, layer: &str, label: &str, detail: String) -> (r: GatewayHealthItem)
    ensures
        r.key@ == key@,
        r.layer@ == layer@,
        r.label@ == label@,
        r.status@ == "skip"@,
        r.detail == detail,
        r.hint@.len() == 0,
{
    item(key, layer, label, "skip", detail, String::new())
}

/// A probed URL answers like an MCP endpoint: 200, 401 or 405, and not the
/// FRP default 404 page.
pub open spec fn probe_ok(code: u16, body: Seq<char>) -> bool {
    !(contains(lower(body), "powered by"@) && contains(lower(body), "frp"@)) && (code == 200
        || code == 401 || code == 405)
}

pub open spec fn probe_detail(code: u16, body: Seq<char>) -> Seq<char> {
    if contains(lower(body), "powered by"@) && contains(lower(body), "frp"@) {
        "HTTP "@ + decimal(code as nat) + "; FRP 默认 404 页"@
    } else {
        "HTTP "@ + decimal(code as nat)
    }
}

/// Classifies an HTTP answer to a probe of an MCP endpoint.
pub fn classify_probe(code: u16, body: &str) -> (r: (bool, String))
    ensures
        r.0 == probe_ok(code, body@),
        r.1@ == probe_detail(code, body@),
{
    let low = lower_vec(&chars_of(body));
    let head = cat(&chars_of("HTTP "), &decimal_of(code as u64));
    if contains_vec(&low, &chars_of("powered by")) && contains_vec(&low, &chars_of("frp")) {
        return (false, string_of(&cat(&head, &chars_of("; FRP 默认 404 页"))));
    }
    (code == 200 || code == 401 || code == 405, string_of(&head))
}

/// Authorization-server metadata names the expected base as issuer and the
/// gateway's authorize and token endpoints under it.
pub fn check_authorization_metadata(
    issuer: &str,
    authorization_endpoint: &str,
    token_endpoint: &str,
    expected_base: &str,
) -> (r: (bool, String))
    ensures
        ({
            let e = strip_end(expected_base@, CharClass::Is('/'));
            r.0 == (issuer@ == e && authorization_endpoint@ == e + "/oauth/authorize"@
                && token_endpoint@ == e + "/oauth/token"@)
        }),
        r.1@ == "authorization metadata issuer="@ + issuer@,
{
    let e = strip_end_vec(&chars_of(expected_base), CharClass::Is('/'));
    let ok = eq_vec(&chars_of(issuer), &e) && eq_vec(
        &chars_of(authorization_endpoint),
        &cat(&e, &chars_of("/oauth/authorize")),
    ) && eq_vec(&chars_of(token_endpoint), &cat(&e, &chars_of("/oauth/token")));
    (ok, string_of(&cat(&chars_of("authorization metadata issuer="), &chars_of(issuer))))
}

pub open spec fn server_listed(servers: Seq<Option<String>>, e: Seq<char>) -> bool {
    exists|i: int| 0 <= i < servers.len() && servers[i] is Some && servers[i]->0@ == e
}

/// Protected-resource metadata names the expected base as the resource and
/// lists it among the authorization servers.
pub fn check_protected_resource_metadata(
    resource: &str,
    authorization_servers: Option<Vec<Option<String>>>,
    expected_base: &str,
) -> (r: (bool, String))
    ensures
        ({
            let e = strip_end(expected_base@, CharClass::Is('/'));
            r.0 == (resource@ == e && authorization_servers is Some && server_listed(
                authorization_servers->0@,
                e,
            ))
        }),
        r.1@ == "protected resource="@ + resource@,
{
    let e = strip_end_vec(&chars_of(expected_base), CharClass::Is('/'));
    let mut listed = false;
    match &authorization_servers {
        Some(servers) => {
            let mut i: usize = 0;
            while i < servers.len()
                invariant
                    0 <= i <= servers@.len(),
                    listed == exists|j: int|
                        0 <= j < i && servers@[j] is Some && servers@[j]->0@ == e@,
                decreases servers.len() - i,
            {
                match &servers[i] {
                    Some(s) => {
                        if eq_vec(&chars_of_string(s), &e) {
                            listed = true;
                        }
                    },
                    None => {},
                }
                i = i + 1;
            }
        },
        None => {},
    }
    let ok = eq_vec(&chars_of(resource), &e) && listed;
    (ok, string_of(&cat(&chars_of("protected resource="), &chars_of(resource))))
}

/// What a health check reads from configuration and runtime status.
pub struct HealthInputs {
    pub gateway: GatewayConfig,
    pub exposure: GatewayExposureConfig,
    pub workspace_count: usize,
    pub oauth_client_id: Option<String>,
    pub oauth_password: Option<String>,
    pub oauth_token_secret: Option<String>,
    pub bearer_token: Option<String>,
    /// `state` of the gateway status.
    pub gateway_state: String,
    /// `local_endpoint` of the gateway status.
    pub gateway_local_endpoint: String,
    /// `state`, `message`, `pid` and `effective_public_url` of the exposure
    /// status.
    pub exposure_state: String,
    pub exposure_message: String,
    pub exposure_pid: Option<u32>,
    pub exposure_effective_url: String,
}

/// The URLs a health check probes.
pub struct HealthPlan {
    pub canonical: String,
    pub mode: String,
    pub effective: String,
    pub connector_base: String,
    pub provider_required: bool,
    pub local_url: String,
    pub transport_url: Option<String>,
    pub public_url: Option<String>,
    pub oauth_authorization_url: Option<String>,
    pub oauth_protected_url: Option<String>,
}

/// Outcome (success, detail) of each probe; entries the plan does not ask
/// for are ignored.
pub struct HealthProbes {
    pub local: (bool, String),
    pub transport: (bool, String),
    pub public: (bool, String),
    pub oauth_authorization: (bool, String),
    pub oauth_protected: (bool, String),
}

pub open spec fn exposure_mode(i: HealthInputs) -> Seq<char> {
    lower(trim(i.exposure.mode@))
}

pub open spec fn is_managed(m: Seq<char>) -> bool {
    m == "frp"@ || m == "cloudflare"@
}

pub open spec fn is_passive(m: Seq<char>) -> bool {
    m == "local"@ || m == "direct"@ || m == "external"@
}

pub open spec fn effective_url(i: HealthInputs, canonical: Seq<char>) -> Seq<char> {
    if trim(i.exposure_effective_url@).len() > 0 {
        strip_end(i.exposure_effective_url@, CharClass::Is('/'))
    } else {
        canonical
    }
}

/// The base ChatGPT connects to: the canonical origin, else the effective
/// tunnel URL.
pub open spec fn connector_base(canonical: Seq<char>, effective: Seq<char>) -> Seq<char> {
    if canonical.len() == 0 {
        effective
    } else {
        canonical
    }
}

/// A public path is expected: a passive mode with a configured origin, or
/// a managed (or unknown) mode.
pub open spec fn provider_required(m: Seq<char>, canonical: Seq<char>) -> bool {
    if is_passive(m) {
        canonical.len() > 0
    } else {
        true
    }
}

pub open spec fn transport_differs(i: HealthInputs, canonical: Seq<char>) -> bool {
    let effective = effective_url(i, canonical);
    let base = connector_base(canonical, effective);
    provider_required(exposure_mode(i), canonical) && effective.len() > 0 && base.len() > 0
        && effective != base
}

pub open spec fn auth_mode(i: HealthInputs) -> Seq<char> {
    lower(trim(i.gateway.auth_type@))
}

pub open spec fn oauth_probed(i: HealthInputs, canonical: Seq<char>) -> bool {
    let base = connector_base(canonical, effective_url(i, canonical));
    auth_mode(i) == "oauth"@ && provider_required(exposure_mode(i), canonical) && base.len() > 0
}

pub open spec fn opt_view(o: Option<String>) -> Option<Seq<char>> {
    match o {
        Some(s) => Some(s@),
        None => None,
    }
}

/// The plan for inputs whose canonical origin is `canonical`.
pub open spec fn plan_for(i: HealthInputs, canonical: Seq<char>, p: HealthPlan) -> bool {
    let effective = effective_url(i, canonical);
    let base = connector_base(canonical, effective);
    let required = provider_required(exposure_mode(i), canonical);
    &&& p.canonical@ == canonical
    &&& p.mode@ == exposure_mode(i)
    &&& p.effective@ == effective
    &&& p.connector_base@ == base
    &&& p.provider_required == required
    &&& p.local_url == i.gateway_local_endpoint
    &&& opt_view(p.transport_url) == if transport_differs(i, canonical) {
        Some(endpoint_spec(effective, "/mcp"@))
    } else {
        None
    }
    &&& opt_view(p.public_url) == if required && base.len() > 0 {
        Some(endpoint_spec(base, "/mcp"@))
    } else {
        None
    }
    &&& opt_view(p.oauth_authorization_url) == if oauth_probed(i, canonical) {
        Some(endpoint_spec(base, "/.well-known/oauth-authorization-server"@))
    } else {
        None
    }
    &&& opt_view(p.oauth_protected_url) == if oauth_probed(i, canonical) {
        Some(endpoint_spec(base, "/.well-known/oauth-protected-resource"@))
    } else {
        None
    }
}

fn is_lit(v: &[char], s: &str) -> (r: bool)
    ensures
        r == (v@ == s@),
{
    eq_vec(v, &chars_of(s))
}

/// Decides which URLs a health check probes (see `plan_for`); fails when
/// the configured public URL is invalid, then when the exposure mode is not
/// one of the five (after normalisation).
pub fn plan_health_probes(inputs: &HealthInputs) -> (r: Result<HealthPlan, String>)
    ensures
        match public_origin(inputs.gateway.public_url@) {
            Ok(c) => if known_mode(normalized_mode_spec(inputs.exposure.mode@)) {
                r matches Ok(p) && plan_for(*inputs, c, p)
            } else {
                r matches Err(e) && e@ == unsupported_mode_message(normalized_mode_spec(inputs.exposure.mode@))
            },
            Err(m) => (r matches Err(e) && e@ == m),
        },
{
    let canonical = normalize_public_origin(inputs.gateway.public_url.as_str())?;
    validate_mode(inputs.exposure.mode.as_str())?;
    let c = chars_of_string(&canonical);
    let mode = lower_vec(&trim_vec(&chars_of_string(&inputs.exposure.mode)));
    let ee = chars_of_string(&inputs.exposure_effective_url);
    let effective = if trim_vec(&ee).len() > 0 {
        strip_end_vec(&ee, CharClass::Is('/'))
    } else {
        crate::text::sub_all(&c)
    };
    let base = if c.len() == 0 {
        crate::text::sub_all(&effective)
    } else {
        crate::text::sub_all(&c)
    };
    let passive = is_lit(&mode, "local") || is_lit(&mode, "direct") || is_lit(&mode, "external");
    let required = if passive {
        c.len() > 0
    } else {
        true
    };
    let base_s = string_of(&base);
    let effective_s = string_of(&effective);
    let transport_url = if required && effective.len() > 0 && base.len() > 0 && !eq_vec(
        &effective,
        &base,
    ) {
        Some(endpoint(effective_s.as_str(), "/mcp"))
    } else {
        None
    };
    let public_url = if required && base.len() > 0 {
        Some(endpoint(base_s.as_str(), "/mcp"))
    } else {
        None
    };
    let auth = lower_vec(&trim_vec(&chars_of_string(&inputs.gateway.auth_type)));
    let oauth = is_lit(&auth, "oauth") && required && base.len() > 0;
    let (oa, op) = if oauth {
        (
            Some(endpoint(base_s.as_str(), "/.well-known/oauth-authorization-server")),
            Some(endpoint(base_s.as_str(), "/.well-known/oauth-protected-resource")),
        )
    } else {
        (None, None)
    };
    Ok(
        HealthPlan {
            canonical,
            mode: string_of(&mode),
            effective: effective_s,
            connector_base: base_s,
            provider_required: required,
            local_url: inputs.gateway_local_endpoint.clone(),
            transport_url,
            public_url,
            oauth_authorization_url: oa,
            oauth_protected_url: op,
        },
    )
}

pub open spec fn present(o: Option<String>) -> bool {
    o is Some && trim(o->0@).len() > 0
}

/// The credentials the configured authentication mode needs exist.
pub open spec fn auth_ok(i: HealthInputs) -> bool {
    let a = auth_mode(i);
    if a == "oauth"@ {
        present(i.oauth_client_id) && present(i.oauth_password) && present(i.oauth_token_secret)
    } else if a == "bearer"@ {
        present(i.bearer_token)
    } else {
        a == "noauth"@
    }
}

pub open spec fn auth_status(i: HealthInputs) -> Seq<char> {
    let a = auth_mode(i);
    if a == "noauth"@ {
        "warn"@
    } else if auth_ok(i) {
        "ok"@
    } else {
        "fail"@
    }
}

pub open spec fn https_url(u: Seq<char>) -> bool {
    starts_with(lower(u), "https://"@)
}

pub open spec fn identity_status(i: HealthInputs, canonical: Seq<char>) -> Seq<char> {
    let m = exposure_mode(i);
    let effective = effective_url(i, canonical);
    let quick_without_canonical = m == "cloudflare"@ && lower(i.exposure.cloudflare_mode@) == lower(
        "quick"@,
    ) && canonical.len() == 0;
    if !(canonical.len() > 0 || is_managed(m)) {
        "skip"@
    } else if https_url(canonical) {
        "ok"@
    } else if quick_without_canonical && https_url(effective) {
        "warn"@
    } else {
        "fail"@
    }
}

/// (status, provider ok) of the public-provider item.
pub open spec fn provider_status(i: HealthInputs, canonical: Seq<char>) -> (Seq<char>, bool) {
    let m = exposure_mode(i);
    if is_passive(m) {
        if canonical.len() == 0 {
            ("skip"@, true)
        } else {
            ("ok"@, true)
        }
    } else if is_managed(m) {
        if i.exposure_state@ == "running"@ {
            ("ok"@, true)
        } else {
            ("fail"@, false)
        }
    } else {
        ("fail"@, false)
    }
}

pub open spec fn public_ok(i: HealthInputs, canonical: Seq<char>, p: HealthProbes) -> bool {
    let base = connector_base(canonical, effective_url(i, canonical));
    provider_required(exposure_mode(i), canonical) && base.len() > 0 && p.public.0
}

pub open spec fn public_status(i: HealthInputs, canonical: Seq<char>, p: HealthProbes) -> Seq<char> {
    let base = connector_base(canonical, effective_url(i, canonical));
    if !provider_required(exposure_mode(i), canonical) {
        "skip"@
    } else if base.len() == 0 {
        "fail"@
    } else if p.public.0 {
        "ok"@
    } else {
        "fail"@
    }
}

/// (status, ok) of the OAuth metadata item.
pub open spec fn oauth_status(i: HealthInputs, canonical: Seq<char>, p: HealthProbes) -> (
    Seq<char>,
    bool,
) {
    if oauth_probed(i, canonical) {
        if p.oauth_authorization.0 && p.oauth_protected.0 {
            ("ok"@, true)
        } else {
            ("fail"@, false)
        }
    } else if auth_mode(i) == "oauth"@ && provider_required(exposure_mode(i), canonical) {
        ("fail"@, false)
    } else {
        ("skip"@, true)
    }
}

pub open spec fn transport_ok(i: HealthInputs, canonical: Seq<char>, p: HealthProbes) -> bool {
    !transport_differs(i, canonical) || p.transport.0
}

/// Every layer passes: ChatGPT can use the gateway through its public
/// HTTPS entry.
pub open spec fn chatgpt_ready(i: HealthInputs, canonical: Seq<char>, p: HealthProbes) -> bool {
    let base = connector_base(canonical, effective_url(i, canonical));
    &&& i.workspace_count > 0
    &&& auth_ok(i)
    &&& i.gateway_state@ == "running"@
    &&& p.local.0
    &&& provider_required(exposure_mode(i), canonical)
    &&& provider_status(i, canonical).1
    &&& transport_ok(i, canonical, p)
    &&& https_url(base)
    &&& public_ok(i, canonical, p)
    &&& oauth_status(i, canonical, p).1
}

pub open spec fn ready_summary() -> Seq<char> {
    "ChatGPT-ready：本地 Gateway、公网入口和认证检查均通过。"@
}

pub open spec fn local_only_summary() -> Seq<char> {
    "Local-ready，但尚未配置 ChatGPT 所需的公网 HTTPS 入口。"@
}

pub open spec fn not_ready_summary() -> Seq<char> {
    "尚未达到 ChatGPT-ready；请按失败项逐层排查。"@
}

pub open spec fn summary_for(i: HealthInputs, canonical: Seq<char>, p: HealthProbes) -> Seq<char> {
    if chatgpt_ready(i, canonical, p) {
        ready_summary()
    } else if canonical.len() == 0 && !is_managed(exposure_mode(i)) {
        local_only_summary()
    } else {
        not_ready_summary()
    }
}

pub open spec fn ok_or_fail(b: bool) -> Seq<char> {
    if b {
        "ok"@
    } else {
        "fail"@
    }
}

/// (key, status) of every item, in report order.
pub open spec fn item_outline(i: HealthInputs, canonical: Seq<char>, p: HealthProbes) -> Seq<
    (Seq<char>, Seq<char>),
> {
    let head = seq![
        ("workspace_registry"@, ok_or_fail(i.workspace_count > 0)),
        ("public_identity"@, identity_status(i, canonical)),
        ("auth_config"@, auth_status(i)),
        ("gateway_runtime"@, ok_or_fail(i.gateway_state@ == "running"@)),
        ("local_gateway"@, ok_or_fail(p.local.0)),
        ("public_provider"@, provider_status(i, canonical).0),
    ];
    let mid = if transport_differs(i, canonical) {
        head.push(("transport_mcp"@, ok_or_fail(p.transport.0)))
    } else {
        head
    };
    mid.push(("public_mcp"@, public_status(i, canonical, p))).push(
        ("oauth_metadata"@, oauth_status(i, canonical, p).0),
    )
}

/// An item as (key, layer, label, status, detail, hint).
pub type ItemView = (Seq<char>, Seq<char>, Seq<char>, Seq<char>, Seq<char>, Seq<char>);

pub open spec fn item_view(it: GatewayHealthItem) -> ItemView {
    (it.key@, it.layer@, it.label@, it.status@, it.detail@, it.hint@)
}

pub open spec fn workspace_spec(i: HealthInputs) -> ItemView {
    if i.workspace_count > 0 {
        ("workspace_registry"@, "config"@, "Workspace 注册"@, "ok"@,
            "已注册 "@ + decimal(i.workspace_count as nat) + " 个工作区"@, Seq::empty())
    } else {
        ("workspace_registry"@, "config"@, "Workspace 注册"@, "fail"@, "当前没有已注册工作区"@,
            "先在 Web Console 添加至少一个 Workspace。"@)
    }
}

pub open spec fn identity_spec(i: HealthInputs, canonical: Seq<char>) -> ItemView {
    let m = exposure_mode(i);
    let effective = effective_url(i, canonical);
    let quick_without_canonical = m == "cloudflare"@ && lower(i.exposure.cloudflare_mode@) == lower(
        "quick"@,
    ) && canonical.len() == 0;
    let (detail, hint) = if !(canonical.len() > 0 || is_managed(m)) {
        ("Local-only 模式不要求公网 URL"@, Seq::empty())
    } else if https_url(canonical) {
        (canonical, Seq::empty())
    } else if quick_without_canonical && https_url(effective) {
        ("Quick Tunnel 临时身份: "@ + effective,
            "Quick URL 可以临时使用，但长期 ChatGPT 插件建议配置固定 HTTPS canonical URL。"@)
    } else if canonical.len() == 0 {
        ("未配置公网 URL"@, "配置固定的 https:// 公网 origin；不要附加 /mcp 以外的路径。"@)
    } else {
        (canonical, "ChatGPT 公网 MCP 应使用 HTTPS canonical URL。"@)
    };
    ("public_identity"@, "config"@, "Canonical 公网身份"@, identity_status(i, canonical), detail, hint)
}

pub open spec fn add_missing(list: Seq<char>, missing: bool, name: Seq<char>) -> Seq<char> {
    if !missing {
        list
    } else if list.len() == 0 {
        name
    } else {
        list + ", "@ + name
    }
}

/// The OAuth credentials that are missing, comma-separated.
pub open spec fn missing_oauth(i: HealthInputs) -> Seq<char> {
    add_missing(
        add_missing(
            add_missing(Seq::empty(), !present(i.oauth_client_id), "oauth_client_id"@),
            !present(i.oauth_password),
            "oauth_password"@,
        ),
        !present(i.oauth_token_secret),
        "oauth_token_secret"@,
    )
}

pub open spec fn auth_spec(i: HealthInputs) -> ItemView {
    let a = auth_mode(i);
    let (st, detail, hint) = if a == "oauth"@ {
        if auth_ok(i) {
            ("ok"@, "OAuth shared credentials 已就绪"@, Seq::empty())
        } else {
            ("fail"@, "缺少: "@ + missing_oauth(i), "在共享密钥页面补齐 Gateway OAuth 凭据。"@)
        }
    } else if a == "bearer"@ {
        if auth_ok(i) {
            ("ok"@, "Bearer Token 已配置"@, Seq::empty())
        } else {
            ("fail"@, "Bearer Token 为空"@, "在共享密钥页面设置 bearer_token。"@)
        }
    } else if a == "noauth"@ {
        ("warn"@, "noauth：技术上可连接，但公网部署风险高"@, "公网 Gateway 推荐使用 OAuth；至少使用 Bearer Token。"@)
    } else {
        ("fail"@, "未知认证模式: "@ + a, "仅使用 oauth、bearer 或 noauth。"@)
    };
    ("auth_config"@, "config"@, "认证配置"@, st, detail, hint)
}

pub open spec fn runtime_spec(i: HealthInputs) -> ItemView {
    if i.gateway_state@ == "running"@ {
        ("gateway_runtime"@, "local"@, "Gateway Runtime"@, "ok"@,
            "Gateway process is running in the owning service"@, Seq::empty())
    } else {
        ("gateway_runtime"@, "local"@, "Gateway Runtime"@, "fail"@, "state="@ + i.gateway_state@,
            "通过 Web Admin/systemd 启动 Gateway；如果这里只是 CLI 离线检查，优先确认 Admin 是否正在运行。"@)
    }
}

pub open spec fn local_spec(i: HealthInputs, p: HealthProbes) -> ItemView {
    let detail = i.gateway_local_endpoint@ + " · "@ + p.local.1@;
    if p.local.0 {
        ("local_gateway"@, "local"@, "Local Gateway"@, "ok"@, detail, Seq::empty())
    } else {
        ("local_gateway"@, "local"@, "Local Gateway"@, "fail"@, detail, "确认 Gateway 已启动，监听地址/端口未被占用。"@)
    }
}

pub open spec fn pid_suffix(pid: Option<u32>) -> Seq<char> {
    match pid {
        Some(n) => " · pid="@ + decimal(n as nat),
        None => Seq::empty(),
    }
}

pub open spec fn provider_spec(i: HealthInputs, canonical: Seq<char>) -> ItemView {
    let m = exposure_mode(i);
    if is_passive(m) {
        if canonical.len() == 0 {
            ("public_provider"@, "provider"@, "公网传输"@, "skip"@, "未配置公网 URL；按本地模式运行"@, Seq::empty())
        } else {
            ("public_provider"@, "provider"@, "公网传输"@, "ok"@,
                "公网 URL 由用户提供；无需声明 Direct / External 实现方式"@, Seq::empty())
        }
    } else if is_managed(m) {
        if i.exposure_state@ == "running"@ {
            ("public_provider"@, "provider"@, "Public Access Provider"@, "ok"@,
                m + " running"@ + pid_suffix(i.exposure_pid), Seq::empty())
        } else {
            ("public_provider"@, "provider"@, "Public Access Provider"@, "fail"@,
                m + " · "@ + i.exposure_message@, "启动 managed exposure，并检查 provider 日志。"@)
        }
    } else {
        ("public_provider"@, "provider"@, "Public Access Provider"@, "fail"@, "未知模式: "@ + m,
            "修正 Public Access mode。"@)
    }
}

pub open spec fn transport_spec(i: HealthInputs, canonical: Seq<char>, p: HealthProbes) -> ItemView {
    let detail = endpoint_spec(effective_url(i, canonical), "/mcp"@) + " · "@ + p.transport.1@;
    if p.transport.0 {
        ("transport_mcp"@, "provider"@, "Managed Transport MCP"@, "ok"@, detail, Seq::empty())
    } else {
        ("transport_mcp"@, "provider"@, "Managed Transport MCP"@, "fail"@, detail,
            "Managed provider 已启动但其实际 tunnel URL 不可达；检查 provider 日志和出站网络。"@)
    }
}

pub open spec fn public_spec(i: HealthInputs, canonical: Seq<char>, p: HealthProbes) -> ItemView {
    let base = connector_base(canonical, effective_url(i, canonical));
    let detail = endpoint_spec(base, "/mcp"@) + " · "@ + p.public.1@;
    if !provider_required(exposure_mode(i), canonical) {
        ("public_mcp"@, "public"@, "Public MCP"@, "skip"@, "Local-only 模式"@, Seq::empty())
    } else if base.len() == 0 {
        ("public_mcp"@, "public"@, "Public MCP"@, "fail"@, "没有可检查的公网 endpoint"@,
            "配置 canonical URL；Cloudflare Quick 需先启动 managed exposure。"@)
    } else if p.public.0 {
        ("public_mcp"@, "public"@, "Public MCP"@, "ok"@, detail, Seq::empty())
    } else {
        ("public_mcp"@, "public"@, "Public MCP"@, "fail"@, detail, "检查 DNS、TLS、反向代理/隧道路由以及防火墙。"@)
    }
}

pub open spec fn oauth_spec(i: HealthInputs, canonical: Seq<char>, p: HealthProbes) -> ItemView {
    let detail = p.oauth_authorization.1@ + "; "@ + p.oauth_protected.1@;
    if oauth_probed(i, canonical) {
        if p.oauth_authorization.0 && p.oauth_protected.0 {
            ("oauth_metadata"@, "oauth"@, "OAuth Metadata"@, "ok"@, detail, Seq::empty())
        } else {
            ("oauth_metadata"@, "oauth"@, "OAuth Metadata"@, "fail"@, detail,
                "确认 canonical URL 与实际 HTTPS 入口一致，反向代理必须转发 Host/X-Forwarded-*。"@)
        }
    } else if auth_mode(i) == "oauth"@ && provider_required(exposure_mode(i), canonical) {
        ("oauth_metadata"@, "oauth"@, "OAuth Metadata"@, "fail"@, "没有可检查的公网 OAuth base URL"@,
            "先建立公网 endpoint。"@)
    } else if auth_mode(i) == "oauth"@ {
        ("oauth_metadata"@, "oauth"@, "OAuth Metadata"@, "skip"@, "Local-only 模式不执行公网 OAuth 检查"@,
            Seq::empty())
    } else {
        ("oauth_metadata"@, "oauth"@, "OAuth Metadata"@, "skip"@, "认证模式为 "@ + auth_mode(i), Seq::empty())
    }
}

/// Every item of the report, in order.
pub open spec fn items_spec(i: HealthInputs, canonical: Seq<char>, p: HealthProbes) -> Seq<ItemView> {
    let head = seq![
        workspace_spec(i),
        identity_spec(i, canonical),
        auth_spec(i),
        runtime_spec(i),
        local_spec(i, p),
        provider_spec(i, canonical),
    ];
    let mid = if transport_differs(i, canonical) {
        head.push(transport_spec(i, canonical, p))
    } else {
        head
    };
    mid.push(public_spec(i, canonical, p)).push(oauth_spec(i, canonical, p))
}

pub open spec fn outline_of(items: Seq<GatewayHealthItem>) -> Seq<(Seq<char>, Seq<char>)> {
    items.map_values(|it: GatewayHealthItem| (it.key@, it.status@))
}

fn workspace_item(count: usize) -> (r: GatewayHealthItem)
    ensures
        r.key@ == "workspace_registry"@,
        r.status@ == ok_or_fail(count > 0),
        count > 0 ==> r.detail@ == "已注册 "@ + decimal(count as nat) + " 个工作区"@,
        count == 0 ==> r.detail@ == "当前没有已注册工作区"@,
        forall|i: HealthInputs| i.workspace_count == count ==> #[trigger] workspace_spec(i) == item_view(r),
{
    if count > 0 {
        let d = cat(&cat(&chars_of("已注册 "), &decimal_of(count as u64)), &chars_of(" 个工作区"));
        ok_item("workspace_registry", "config", "Workspace 注册", string_of(&d))
    } else {
        fail_item(
            "workspace_registry",
            "config",
            "Workspace 注册",
            lit("当前没有已注册工作区"),
            "先在 Web Console 添加至少一个 Workspace。",
        )
    }
}

fn identity_item(i: &HealthInputs, canonical: &[char], effective: &[char]) -> (r: GatewayHealthItem)
    requires
        effective@ == effective_url(*i, canonical@),
    ensures
        r.key@ == "public_identity"@,
        r.status@ == identity_status(*i, canonical@),
        item_view(r) == identity_spec(*i, canonical@),
{
    proof {
        reveal_strlit("frp");
        reveal_strlit("cloudflare");
    }
    let m = lower_vec(&trim_vec(&chars_of_string(&i.exposure.mode)));
    let managed = is_lit(&m, "frp") || is_lit(&m, "cloudflare");
    let https_prefix = chars_of("https://");
    let canonical_https = starts_with_vec(&lower_vec(canonical), &https_prefix);
    let quick = is_lit(&m, "cloudflare") && eq_vec(
        &lower_vec(&chars_of_string(&i.exposure.cloudflare_mode)),
        &lower_vec(&chars_of("quick")),
    ) && canonical.len() == 0;
    if !(canonical.len() > 0 || managed) {
        skip_item(
            "public_identity",
            "config",
            "Canonical 公网身份",
            lit("Local-only 模式不要求公网 URL"),
        )
    } else if canonical_https {
        ok_item("public_identity", "config", "Canonical 公网身份", string_of(canonical))
    } else if quick && starts_with_vec(&lower_vec(effective), &https_prefix) {
        warn_item(
            "public_identity",
            "config",
            "Canonical 公网身份",
            string_of(&cat(&chars_of("Quick Tunnel 临时身份: "), effective)),
            "Quick URL 可以临时使用，但长期 ChatGPT 插件建议配置固定 HTTPS canonical URL。",
        )
    } else if canonical.len() == 0 {
        fail_item(
            "public_identity",
            "config",
            "Canonical 公网身份",
            lit("未配置公网 URL"),
            "配置固定的 https:// 公网 origin；不要附加 /mcp 以外的路径。",
        )
    } else {
        fail_item(
            "public_identity",
            "config",
            "Canonical 公网身份",
            string_of(canonical),
            "ChatGPT 公网 MCP 应使用 HTTPS canonical URL。",
        )
    }
}

fn present_exec(o: &Option<String>) -> (r: bool)
    ensures
        r == present(*o),
{
    match o {
        Some(v) => trim_vec(&chars_of_string(v)).len() > 0,
        None => false,
    }
}

fn push_missing(list: &mut Vec<char>, name: &str)
    ensures
        old(list)@.len() == 0 ==> final(list)@ == name@,
        old(list)@.len() > 0 ==> final(list)@ == old(list)@ + ", "@ + name@,
{
    if list.len() > 0 {
        crate::text::extend(list, &chars_of(", "));
    }
    let ghost mid = list@;
    crate::text::extend(list, &chars_of(name));
    assert(old(list)@.len() == 0 ==> mid =~= Seq::<char>::empty());
}

fn auth_item(i: &HealthInputs) -> (r: (GatewayHealthItem, bool))
    ensures
        r.0.key@ == "auth_config"@,
        r.0.status@ == auth_status(*i),
        r.1 == auth_ok(*i),
        item_view(r.0) == auth_spec(*i),
{
    proof {
        reveal_strlit("oauth");
        reveal_strlit("bearer");
        reveal_strlit("noauth");
        assert("oauth"@ != "bearer"@ && "oauth"@ != "noauth"@ && "bearer"@ != "noauth"@) by {
            assert("oauth"@.len() == 5);
            assert("bearer"@.len() == 6);
            assert("noauth"@[0] == 'n');
        }
    }
    let a = lower_vec(&trim_vec(&chars_of_string(&i.gateway.auth_type)));
    if is_lit(&a, "oauth") {
        let mut missing: Vec<char> = Vec::new();
        if !present_exec(&i.oauth_client_id) {
            push_missing(&mut missing, "oauth_client_id");
        }
        if !present_exec(&i.oauth_password) {
            push_missing(&mut missing, "oauth_password");
        }
        if !present_exec(&i.oauth_token_secret) {
            push_missing(&mut missing, "oauth_token_secret");
        }
        if present_exec(&i.oauth_client_id) && present_exec(&i.oauth_password) && present_exec(
            &i.oauth_token_secret,
        ) {
            (ok_item("auth_config", "config", "认证配置", lit("OAuth shared credentials 已就绪")), true)
        } else {
            (
                fail_item(
                    "auth_config",
                    "config",
                    "认证配置",
                    string_of(&cat(&chars_of("缺少: "), &missing)),
                    "在共享密钥页面补齐 Gateway OAuth 凭据。",
                ),
                false,
            )
        }
    } else if is_lit(&a, "bearer") {
        if present_exec(&i.bearer_token) {
            (ok_item("auth_config", "config", "认证配置", lit("Bearer Token 已配置")), true)
        } else {
            (
                fail_item(
                    "auth_config",
                    "config",
                    "认证配置",
                    lit("Bearer Token 为空"),
                    "在共享密钥页面设置 bearer_token。",
                ),
                false,
            )
        }
    } else if is_lit(&a, "noauth") {
        (
            warn_item(
                "auth_config",
                "config",
                "认证配置",
                lit("noauth：技术上可连接，但公网部署风险高"),
                "公网 Gateway 推荐使用 OAuth；至少使用 Bearer Token。",
            ),
            true,
        )
    } else {
        (
            fail_item(
                "auth_config",
                "config",
                "认证配置",
                string_of(&cat(&chars_of("未知认证模式: "), &a)),
                "仅使用 oauth、bearer 或 noauth。",
            ),
            false,
        )
    }
}

fn dot_join(a: &[char], b: &String) -> (r: String)
    ensures
        r@ == a@ + " · "@ + b@,
{
    let x = cat(a, &chars_of(" · "));
    string_of(&cat(&x, &chars_of_string(b)))
}

fn runtime_item(i: &HealthInputs) -> (r: GatewayHealthItem)
    ensures
        r.key@ == "gateway_runtime"@,
        r.status@ == ok_or_fail(i.gateway_state@ == "running"@),
        item_view(r) == runtime_spec(*i),
{
    if is_lit(&chars_of_string(&i.gateway_state), "running") {
        ok_item(
            "gateway_runtime",
            "local",
            "Gateway Runtime",
            lit("Gateway process is running in the owning service"),
        )
    } else {
        fail_item(
            "gateway_runtime",
            "local",
            "Gateway Runtime",
            string_of(&cat(&chars_of("state="), &chars_of_string(&i.gateway_state))),
            "通过 Web Admin/systemd 启动 Gateway；如果这里只是 CLI 离线检查，优先确认 Admin 是否正在运行。",
        )
    }
}

fn local_item(i: &HealthInputs, p: &HealthProbes) -> (r: GatewayHealthItem)
    ensures
        r.key@ == "local_gateway"@,
        r.status@ == ok_or_fail(p.local.0),
        r.detail@ == i.gateway_local_endpoint@ + " · "@ + p.local.1@,
        item_view(r) == local_spec(*i, *p),
{
    let detail = dot_join(&chars_of_string(&i.gateway_local_endpoint), &p.local.1);
    if p.local.0 {
        ok_item("local_gateway", "local", "Local Gateway", detail)
    } else {
        fail_item(
            "local_gateway",
            "local",
            "Local Gateway",
            detail,
            "确认 Gateway 已启动，监听地址/端口未被占用。",
        )
    }
}

fn provider_item(i: &HealthInputs, canonical: &[char]) -> (r: (GatewayHealthItem, bool))
    ensures
        r.0.key@ == "public_provider"@,
        (r.0.status@, r.1) == provider_status(*i, canonical@),
        item_view(r.0) == provider_spec(*i, canonical@),
{
    proof {
        reveal_strlit("frp");
        reveal_strlit("cloudflare");
        reveal_strlit("local");
        reveal_strlit("direct");
        reveal_strlit("external");
    }
    let m = lower_vec(&trim_vec(&chars_of_string(&i.exposure.mode)));
    if is_lit(&m, "local") || is_lit(&m, "direct") || is_lit(&m, "external") {
        if canonical.len() == 0 {
            (
                skip_item(
                    "public_provider",
                    "provider",
                    "公网传输",
                    lit("未配置公网 URL；按本地模式运行"),
                ),
                true,
            )
        } else {
            (
                ok_item(
                    "public_provider",
                    "provider",
                    "公网传输",
                    lit("公网 URL 由用户提供；无需声明 Direct / External 实现方式"),
                ),
                true,
            )
        }
    } else if is_lit(&m, "frp") || is_lit(&m, "cloudflare") {
        if is_lit(&chars_of_string(&i.exposure_state), "running") {
            let mut d = cat(&m, &chars_of(" running"));
            match i.exposure_pid {
                Some(pid) => {
                    crate::text::extend(&mut d, &chars_of(" · pid="));
                    crate::text::extend(&mut d, &decimal_of(pid as u64));
                },
                None => {},
            }
            (
                ok_item("public_provider", "provider", "Public Access Provider", string_of(&d)),
                true,
            )
        } else {
            (
                fail_item(
                    "public_provider",
                    "provider",
                    "Public Access Provider",
                    dot_join(&m, &i.exposure_message),
                    "启动 managed exposure，并检查 provider 日志。",
                ),
                false,
            )
        }
    } else {
        (
            fail_item(
                "public_provider",
                "provider",
                "Public Access Provider",
                string_of(&cat(&chars_of("未知模式: "), &m)),
                "修正 Public Access mode。",
            ),
            false,
        )
    }
}

fn public_item(
    i: &HealthInputs,
    canonical: &[char],
    plan: &HealthPlan,
    p: &HealthProbes,
) -> (r: GatewayHealthItem)
    requires
        plan_for(*i, canonical@, *plan),
    ensures
        r.key@ == "public_mcp"@,
        r.status@ == public_status(*i, canonical@, *p),
        item_view(r) == public_spec(*i, canonical@, *p),
{
    if !plan.provider_required {
        skip_item("public_mcp", "public", "Public MCP", lit("Local-only 模式"))
    } else if chars_of_string(&plan.connector_base).len() == 0 {
        fail_item(
            "public_mcp",
            "public",
            "Public MCP",
            lit("没有可检查的公网 endpoint"),
            "配置 canonical URL；Cloudflare Quick 需先启动 managed exposure。",
        )
    } else {
        let url = endpoint(plan.connector_base.as_str(), "/mcp");
        let detail = dot_join(&chars_of_string(&url), &p.public.1);
        if p.public.0 {
            ok_item("public_mcp", "public", "Public MCP", detail)
        } else {
            fail_item(
                "public_mcp",
                "public",
                "Public MCP",
                detail,
                "检查 DNS、TLS、反向代理/隧道路由以及防火墙。",
            )
        }
    }
}

fn oauth_item(
    i: &HealthInputs,
    canonical: &[char],
    plan: &HealthPlan,
    p: &HealthProbes,
) -> (r: (GatewayHealthItem, bool))
    requires
        plan_for(*i, canonical@, *plan),
    ensures
        r.0.key@ == "oauth_metadata"@,
        (r.0.status@, r.1) == oauth_status(*i, canonical@, *p),
        item_view(r.0) == oauth_spec(*i, canonical@, *p),
{
    let a = lower_vec(&trim_vec(&chars_of_string(&i.gateway.auth_type)));
    let oauth = is_lit(&a, "oauth");
    let base_len = chars_of_string(&plan.connector_base).len();
    if oauth && plan.provider_required && base_len > 0 {
        let x = cat(&chars_of_string(&p.oauth_authorization.1), &chars_of("; "));
        let detail = string_of(&cat(&x, &chars_of_string(&p.oauth_protected.1)));
        if p.oauth_authorization.0 && p.oauth_protected.0 {
            (ok_item("oauth_metadata", "oauth", "OAuth Metadata", detail), true)
        } else {
            (
                fail_item(
                    "oauth_metadata",
                    "oauth",
                    "OAuth Metadata",
                    detail,
                    "确认 canonical URL 与实际 HTTPS 入口一致，反向代理必须转发 Host/X-Forwarded-*。",
                ),
                false,
            )
        }
    } else if oauth && plan.provider_required {
        (
            fail_item(
                "oauth_metadata",
                "oauth",
                "OAuth Metadata",
                lit("没有可检查的公网 OAuth base URL"),
                "先建立公网 endpoint。",
            ),
            false,
        )
    } else {
        let detail = if oauth {
            lit("Local-only 模式不执行公网 OAuth 检查")
        } else {
            string_of(&cat(&chars_of("认证模式为 "), &a))
        };
        (skip_item("oauth_metadata", "oauth", "OAuth Metadata", detail), true)
    }
}

/// The health report for the inputs and the outcomes of the planned
/// probes; fails when the configured public URL is invalid, then when the
/// exposure mode is not one of the five (after normalisation).
pub fn build_health_report(inputs: &HealthInputs, probes: &HealthProbes) -> (r: Result<
    GatewayHealthReport,
    String,
>)
    ensures
        match public_origin(inputs.gateway.public_url@) {
            Err(m) => (r matches Err(e) && e@ == m),
            Ok(c) => if !known_mode(normalized_mode_spec(inputs.exposure.mode@)) {
                r matches Err(e) && e@ == unsupported_mode_message(normalized_mode_spec(inputs.exposure.mode@))
            } else { (r matches Ok(rep) && {
                &&& rep.chatgpt_ready == chatgpt_ready(*inputs, c, *probes)
                &&& rep.summary@ == summary_for(*inputs, c, *probes)
                &&& rep.public_base_url@ == connector_base(c, effective_url(*inputs, c))
                &&& outline_of(rep.items@) == item_outline(*inputs, c, *probes)
                &&& rep.items@.map_values(|it: GatewayHealthItem| item_view(it)) == items_spec(
                    *inputs,
                    c,
                    *probes,
                )
                &&& rep.items@[0].detail@ == (if inputs.workspace_count > 0 {
                    "已注册 "@ + decimal(inputs.workspace_count as nat) + " 个工作区"@
                } else {
                    "当前没有已注册工作区"@
                })
            }) },
        },
{
    let plan = plan_health_probes(inputs)?;
    let canonical = chars_of_string(&plan.canonical);
    let effective = chars_of_string(&plan.effective);
    let mut items: Vec<GatewayHealthItem> = Vec::new();
    items.push(workspace_item(inputs.workspace_count));
    items.push(identity_item(inputs, &canonical, &effective));
    let (auth, auth_ok_flag) = auth_item(inputs);
    items.push(auth);
    let runtime_ok = is_lit(&chars_of_string(&inputs.gateway_state), "running");
    items.push(runtime_item(inputs));
    items.push(local_item(inputs, probes));
    let (provider, provider_ok) = provider_item(inputs, &canonical);
    items.push(provider);
    let ghost head = items@;
    let transport_ok_flag = match &plan.transport_url {
        Some(url) => {
            let detail = dot_join(&chars_of_string(url), &probes.transport.1);
            if probes.transport.0 {
                items.push(ok_item("transport_mcp", "provider", "Managed Transport MCP", detail));
            } else {
                items.push(
                    fail_item(
                        "transport_mcp",
                        "provider",
                        "Managed Transport MCP",
                        detail,
                        "Managed provider 已启动但其实际 tunnel URL 不可达；检查 provider 日志和出站网络。",
                    ),
                );
            }
            probes.transport.0
        },
        None => true,
    };
    let ghost mid = items@;
    let base = chars_of_string(&plan.connector_base);
    let public_https = starts_with_vec(&lower_vec(&base), &chars_of("https://"));
    let public_ok_flag = plan.provider_required && base.len() > 0 && probes.public.0;
    items.push(public_item(inputs, &canonical, &plan, probes));
    let (oauth, oauth_ok_flag) = oauth_item(inputs, &canonical, &plan, probes);
    items.push(oauth);
    let ready = inputs.workspace_count > 0 && auth_ok_flag && runtime_ok && probes.local.0
        && plan.provider_required && provider_ok && transport_ok_flag && public_https
        && public_ok_flag && oauth_ok_flag;
    let m = lower_vec(&trim_vec(&chars_of_string(&inputs.exposure.mode)));
    let managed = is_lit(&m, "frp") || is_lit(&m, "cloudflare");
    let summary = if ready {
        lit("ChatGPT-ready：本地 Gateway、公网入口和认证检查均通过。")
    } else if canonical.len() == 0 && !managed {
        lit("Local-ready，但尚未配置 ChatGPT 所需的公网 HTTPS 入口。")
    } else {
        lit("尚未达到 ChatGPT-ready；请按失败项逐层排查。")
    };
    proof {
        let c = canonical@;
        let o = item_outline(*inputs, c, *probes);
        let got = outline_of(items@);
        assert(got.len() == o.len());
        assert forall|k: int| 0 <= k < o.len() implies got[k] == o[k] by {
            assert(got[k] == (items@[k].key@, items@[k].status@));
        }
        assert(got =~= o);
        assert(workspace_spec(*inputs) == item_view(items@[0]));
        let sp = items_spec(*inputs, c, *probes);
        let gv = items@.map_values(|it: GatewayHealthItem| item_view(it));
        assert(gv.len() == sp.len());
        assert forall|k: int| 0 <= k < sp.len() implies gv[k] == sp[k] by {
            assert(gv[k] == item_view(items@[k]));
        }
        assert(gv =~= sp);
    }
    Ok(
        GatewayHealthReport {
            chatgpt_ready: ready,
            summary,
            public_base_url: plan.connector_base,
            items,
        },
    )
}

/// One line of the text report: `[status] label: detail`, then ` — hint`
/// when there is a hint.
pub open spec fn item_line(i: GatewayHealthItem) -> Seq<char> {
    let head = "["@ + i.status@ + "] "@ + i.label@ + ": "@ + i.detail@;
    if i.hint@.len() == 0 {
        head
    } else {
        head + " — "@ + i.hint@
    }
}

/// The text `health` prints: the summary, then one line per check.
pub open spec fn report_lines_spec(rep: GatewayHealthReport) -> Seq<Seq<char>> {
    seq![rep.summary@] + rep.items@.map_values(|i: GatewayHealthItem| item_line(i))
}

fn item_line_exec(i: &GatewayHealthItem) -> (r: String)
    ensures
        r@ == item_line(*i),
{
    let x = cat(&chars_of("["), &chars_of_string(&i.status));
    let x = cat(&x, &chars_of("] "));
    let x = cat(&x, &chars_of_string(&i.label));
    let x = cat(&x, &chars_of(": "));
    let x = cat(&x, &chars_of_string(&i.detail));
    let hint = chars_of_string(&i.hint);
    if hint.len() == 0 {
        string_of(&x)
    } else {
        string_of(&cat(&cat(&x, &chars_of(" — ")), &hint))
    }
}

pub fn report_lines(rep: &GatewayHealthReport) -> (r: Vec<String>)
    ensures
        r@.map_values(|l: String| l@) == report_lines_spec(*rep),
{
    let mut r: Vec<String> = Vec::new();
    r.push(rep.summary.clone());
    let mut i: usize = 0;
    while i < rep.items.len()
        invariant
            0 <= i <= rep.items@.len(),
            r@.map_values(|l: String| l@) == seq![rep.summary@] + rep.items@.subrange(0, i as int).map_values(
                |x: GatewayHealthItem| item_line(x),
            ),
        decreases rep.items.len() - i,
    {
        let line = item_line_exec(&rep.items[i]);
        let ghost prev = r@;
        r.push(line);
        proof {
            let done = rep.items@.subrange(0, i as int);
            let next = rep.items@.subrange(0, i + 1);
            assert(next =~= done.push(rep.items@[i as int]));
            assert(r@.map_values(|l: String| l@) =~= prev.map_values(|l: String| l@).push(line@));
            assert(next.map_values(|x: GatewayHealthItem| item_line(x)) =~= done.map_values(
                |x: GatewayHealthItem| item_line(x),
            ).push(item_line(rep.items@[i as int])));
        }
        i = i + 1;
        assert(r@.map_values(|l: String| l@) =~= seq![rep.summary@] + rep.items@.subrange(0, i as int).map_values(
            |x: GatewayHealthItem| item_line(x),
        ));
    }
    assert(rep.items@.subrange(0, rep.items.len() as int) =~= rep.items@);
    r
}

/// Law: a configured canonical public URL is the identity the health
/// report hands to the connector; an exposure's runtime URL (such as a
/// random quick-tunnel address) never replaces it.
pub proof fn law_canonical_identity_kept(inputs: HealthInputs, canonical: Seq<char>)
    requires
        public_origin(inputs.gateway.public_url@) == Ok::<Seq<char>, Seq<char>>(canonical),
        canonical.len() > 0,
    ensures
        connector_base(canonical, effective_url(inputs, canonical)) == canonical,
{
}

/// An item needs attention: its status is `warn` or `fail`.
pub open spec fn hint_matches_status(v: ItemView) -> bool {
    (v.5.len() == 0) <==> (v.3 == "ok"@ || v.3 == "skip"@)
}

/// Law: every item of the health report carries a hint exactly when it
/// needs attention (status `warn` or `fail`); passing and skipped items
/// carry none.
pub proof fn law_hint_marks_problems(i: HealthInputs, canonical: Seq<char>, p: HealthProbes)
    ensures
        forall|k: int|
            0 <= k < items_spec(i, canonical, p).len() ==> #[trigger] hint_matches_status(
                items_spec(i, canonical, p)[k],
            ),
{
    reveal_strlit("ok");
    reveal_strlit("skip");
    reveal_strlit("warn");
    reveal_strlit("fail");
    assert("ok"@ != "warn"@ && "ok"@ != "fail"@ && "skip"@ != "warn"@ && "skip"@ != "fail"@) by {
        assert("ok"@.len() == 2);
        assert("skip"@.len() == 4);
        assert("warn"@[0] == 'w');
        assert("fail"@[0] == 'f');
        assert("skip"@[0] == 's');
    }
    reveal_strlit("先在 Web Console 添加至少一个 Workspace。");
    assert("先在 Web Console 添加至少一个 Workspace。"@.len() > 0);
    reveal_strlit("Quick URL 可以临时使用，但长期 ChatGPT 插件建议配置固定 HTTPS canonical URL。");
    assert("Quick URL 可以临时使用，但长期 ChatGPT 插件建议配置固定 HTTPS canonical URL。"@.len() > 0);
    reveal_strlit("配置固定的 https:// 公网 origin；不要附加 /mcp 以外的路径。");
    assert("配置固定的 https:// 公网 origin；不要附加 /mcp 以外的路径。"@.len() > 0);
    reveal_strlit("ChatGPT 公网 MCP 应使用 HTTPS canonical URL。");
    assert("ChatGPT 公网 MCP 应使用 HTTPS canonical URL。"@.len() > 0);
    reveal_strlit("在共享密钥页面补齐 Gateway OAuth 凭据。");
    assert("在共享密钥页面补齐 Gateway OAuth 凭据。"@.len() > 0);
    reveal_strlit("在共享密钥页面设置 bearer_token。");
    assert("在共享密钥页面设置 bearer_token。"@.len() > 0);
    reveal_strlit("公网 Gateway 推荐使用 OAuth；至少使用 Bearer Token。");
    assert("公网 Gateway 推荐使用 OAuth；至少使用 Bearer Token。"@.len() > 0);
    reveal_strlit("仅使用 oauth、bearer 或 noauth。");
    assert("仅使用 oauth、bearer 或 noauth。"@.len() > 0);
    reveal_strlit("通过 Web Admin/systemd 启动 Gateway；如果这里只是 CLI 离线检查，优先确认 Admin 是否正在运行。");
    assert("通过 Web Admin/systemd 启动 Gateway；如果这里只是 CLI 离线检查，优先确认 Admin 是否正在运行。"@.len() > 0);
    reveal_strlit("确认 Gateway 已启动，监听地址/端口未被占用。");
    assert("确认 Gateway 已启动，监听地址/端口未被占用。"@.len() > 0);
    reveal_strlit("启动 managed exposure，并检查 provider 日志。");
    assert("启动 managed exposure，并检查 provider 日志。"@.len() > 0);
    reveal_strlit("修正 Public Access mode。");
    assert("修正 Public Access mode。"@.len() > 0);
    reveal_strlit("Managed provider 已启动但其实际 tunnel URL 不可达；检查 provider 日志和出站网络。");
    assert("Managed provider 已启动但其实际 tunnel URL 不可达；检查 provider 日志和出站网络。"@.len() > 0);
    reveal_strlit("配置 canonical URL；Cloudflare Quick 需先启动 managed exposure。");
    assert("配置 canonical URL；Cloudflare Quick 需先启动 managed exposure。"@.len() > 0);
    reveal_strlit("检查 DNS、TLS、反向代理/隧道路由以及防火墙。");
    assert("检查 DNS、TLS、反向代理/隧道路由以及防火墙。"@.len() > 0);
    reveal_strlit("确认 canonical URL 与实际 HTTPS 入口一致，反向代理必须转发 Host/X-Forwarded-*。");
    assert("确认 canonical URL 与实际 HTTPS 入口一致，反向代理必须转发 Host/X-Forwarded-*。"@.len() > 0);
    reveal_strlit("先建立公网 endpoint。");
    assert("先建立公网 endpoint。"@.len() > 0);
    assert(hint_matches_status(workspace_spec(i)));
    assert(hint_matches_status(identity_spec(i, canonical)));
    assert(hint_matches_status(auth_spec(i)));
    assert(hint_matches_status(runtime_spec(i)));
    assert(hint_matches_status(local_spec(i, p)));
    assert(hint_matches_status(provider_spec(i, canonical)));
    assert(hint_matches_status(transport_spec(i, canonical, p)));
    assert(hint_matches_status(public_spec(i, canonical, p)));
    assert(hint_matches_status(oauth_spec(i, canonical, p)));
}

/// Law: a ChatGPT-ready report passes every layer.  When the report is
/// ready, no item but the canonical-identity item fails, and the public MCP
/// item is `ok` (the public probe succeeded); the local gateway and
/// runtime items are `ok` too.
pub proof fn law_ready_means_layers_pass(i: HealthInputs, canonical: Seq<char>, p: HealthProbes)
    requires
        chatgpt_ready(i, canonical, p),
    ensures
        forall|k: int|
            0 <= k < items_spec(i, canonical, p).len() && (#[trigger] items_spec(i, canonical, p)[k]).0
                != "public_identity"@ ==> items_spec(i, canonical, p)[k].3 != "fail"@,
        forall|k: int|
            0 <= k < items_spec(i, canonical, p).len() && (#[trigger] items_spec(i, canonical, p)[k]).0
                == "public_mcp"@ ==> items_spec(i, canonical, p)[k].3 == "ok"@,
        exists|k: int|
            0 <= k < items_spec(i, canonical, p).len() && (#[trigger] items_spec(i, canonical, p)[k]).0
                == "public_mcp"@,
        p.public.0,
        p.local.0,
{
    reveal_strlit("ok");
    reveal_strlit("skip");
    reveal_strlit("warn");
    reveal_strlit("fail");
    reveal_strlit("workspace_registry");
    reveal_strlit("public_identity");
    reveal_strlit("auth_config");
    reveal_strlit("gateway_runtime");
    reveal_strlit("local_gateway");
    reveal_strlit("public_provider");
    reveal_strlit("transport_mcp");
    reveal_strlit("public_mcp");
    reveal_strlit("oauth_metadata");
    assert("ok"@ != "fail"@ && "skip"@ != "fail"@ && "warn"@ != "fail"@) by {
        assert("ok"@.len() == 2);
        assert("warn"@[0] != "fail"@[0]);
        assert("skip"@[0] != "fail"@[0]);
    }
    let items = items_spec(i, canonical, p);
    assert forall|k: int| 0 <= k < items.len() && (#[trigger] items[k]).0 == "public_mcp"@ implies items[k].3
        == "ok"@ by {
        assert(items[k] == public_spec(i, canonical, p) || items[k].0.len() != 10);
    }
    assert(items[items.len() - 2] == public_spec(i, canonical, p));
}

} // verus!
