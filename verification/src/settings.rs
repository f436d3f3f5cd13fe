//! Persisted application settings: gateway, public exposure, admin console,
//! FRP profiles, download and proxy configuration, and shared secrets.

use std::collections::HashMap;
use vstd::prelude::*;
use vstd::string::StringExecFns;

use crate::text::{
    chars_of, chars_of_string, eq_vec, random_uuid_text, remove_char, uuid_text_shape, string_of, trim, trim_vec,
    without_char,
};

verus! {

/// Admin Web Console listener; by default on all IPv4 interfaces, port
/// 28767, behind the administrator login.
pub struct AdminConfig {
    pub bind_host: String,
    pub local_port: u16,
}

/// How the gateway's canonical public URL is exposed.
pub struct GatewayExposureConfig {
    /// `local`, `direct`, `external`, `frp`, or `cloudflare`.
    pub mode: String,
    pub frp_profile_id: String,
    pub frp_server: String,
    pub frp_server_port: u16,
    pub frp_subdomain: String,
    /// `quick` or `named`.
    pub cloudflare_mode: String,
    pub use_proxy: bool,
}

/// The single multi-workspace MCP gateway.
pub struct GatewayConfig {
    pub bind_host: String,
    pub local_port: u16,
    /// Optional externally reachable HTTPS base URL, without a trailing `/mcp`.
    pub public_url: String,
    /// `oauth`, `bearer`, or `noauth`.
    pub auth_type: String,
    pub tool_profile: String,
    /// With exactly one workspace, requests may use it before an explicit
    /// `select_workspace`.
    pub auto_select_single_workspace: bool,
}

pub struct FrpProfile {
    pub id: String,
    pub name: String,
    pub server: String,
    pub server_port: u16,
}

/// Download settings for fetching frpc / cloudflared binaries.
pub struct DownloadConfig {
    pub github_mirror: String,
    /// "none" | "system" | "manual".
    pub proxy_mode: String,
    pub proxy_url: String,
}

/// Global outbound proxy used by network-facing child processes.
pub struct ProxyConfig {
    /// "none" | "system" | "manual".
    pub mode: String,
    pub url: String,
}

pub struct AppSettings {
    pub frp_profiles: Vec<FrpProfile>,
    pub last_workspace_id: String,
    pub download: DownloadConfig,
    pub proxy: ProxyConfig,
    pub gateway: GatewayConfig,
    pub gateway_exposure: GatewayExposureConfig,
    pub admin: AdminConfig,
    pub shared_secrets: HashMap<String, String>,
    pub workspace_secrets: HashMap<String, HashMap<String, String>>,
    pub app_secrets: HashMap<String, HashMap<String, String>>,
}

/// The persisted data record from which the settings view is taken.
pub struct AppData {
    pub frp_profiles: Vec<FrpProfile>,
    pub last_workspace_id: String,
    pub download: DownloadConfig,
    pub proxy: ProxyConfig,
    pub gateway: GatewayConfig,
    pub gateway_exposure: GatewayExposureConfig,
    pub admin: AdminConfig,
    pub shared_secrets: HashMap<String, String>,
    pub workspace_secrets: HashMap<String, HashMap<String, String>>,
    pub app_secrets: HashMap<String, HashMap<String, String>>,
}

pub fn default_frp_server_port() -> (r: u16)
    ensures
        r == 7000,
{
    7000
}

impl AdminConfig {
    pub fn copy(&self) -> (r: Self)
        ensures
            r == *self,
    {
        AdminConfig { bind_host: self.bind_host.clone(), local_port: self.local_port }
    }
}

impl Default for AdminConfig {
    fn default() -> (r: Self)
        ensures
            r.bind_host@ == "0.0.0.0"@,
            r.local_port == 28767,
    {
        AdminConfig { bind_host: String::from_str("0.0.0.0"), local_port: 28767 }
    }
}

impl GatewayExposureConfig {
    pub fn copy(&self) -> (r: Self)
        ensures
            r == *self,
    {
        GatewayExposureConfig {
            mode: self.mode.clone(),
            frp_profile_id: self.frp_profile_id.clone(),
            frp_server: self.frp_server.clone(),
            frp_server_port: self.frp_server_port,
            frp_subdomain: self.frp_subdomain.clone(),
            cloudflare_mode: self.cloudflare_mode.clone(),
            use_proxy: self.use_proxy,
        }
    }
}

impl Default for GatewayExposureConfig {
    fn default() -> (r: Self)
        ensures
            r.mode@ == "local"@,
            r.frp_profile_id@ == Seq::<char>::empty(),
            r.frp_server@ == Seq::<char>::empty(),
            r.frp_server_port == 7000,
            r.frp_subdomain@ == Seq::<char>::empty(),
            r.cloudflare_mode@ == "quick"@,
            r.use_proxy,
    {
        GatewayExposureConfig {
            mode: String::from_str("local"),
            frp_profile_id: String::new(),
            frp_server: String::new(),
            frp_server_port: default_frp_server_port(),
            frp_subdomain: String::new(),
            cloudflare_mode: String::from_str("quick"),
            use_proxy: true,
        }
    }
}

impl GatewayConfig {
    pub fn copy(&self) -> (r: Self)
        ensures
            r == *self,
    {
        GatewayConfig {
            bind_host: self.bind_host.clone(),
            local_port: self.local_port,
            public_url: self.public_url.clone(),
            auth_type: self.auth_type.clone(),
            tool_profile: self.tool_profile.clone(),
            auto_select_single_workspace: self.auto_select_single_workspace,
        }
    }
}

impl Default for GatewayConfig {
    fn default() -> (r: Self)
        ensures
            r.bind_host@ == "127.0.0.1"@,
            r.local_port == 28766,
            r.public_url@ == Seq::<char>::empty(),
            r.auth_type@ == "oauth"@,
            r.tool_profile@ == "core"@,
            r.auto_select_single_workspace,
    {
        GatewayConfig {
            bind_host: String::from_str("127.0.0.1"),
            local_port: 28766,
            public_url: String::new(),
            auth_type: String::from_str("oauth"),
            tool_profile: String::from_str("core"),
            auto_select_single_workspace: true,
        }
    }
}

impl DownloadConfig {
    pub fn copy(&self) -> (r: Self)
        ensures
            r == *self,
    {
        DownloadConfig {
            github_mirror: self.github_mirror.clone(),
            proxy_mode: self.proxy_mode.clone(),
            proxy_url: self.proxy_url.clone(),
        }
    }
}

impl Default for DownloadConfig {
    fn default() -> (r: Self)
        ensures
            r.github_mirror@ == "https://gh-proxy.com"@,
            r.proxy_mode@ == "system"@,
            r.proxy_url@ == Seq::<char>::empty(),
    {
        DownloadConfig {
            github_mirror: String::from_str("https://gh-proxy.com"),
            proxy_mode: String::from_str("system"),
            proxy_url: String::new(),
        }
    }
}

impl ProxyConfig {
    pub fn copy(&self) -> (r: Self)
        ensures
            r == *self,
    {
        ProxyConfig { mode: self.mode.clone(), url: self.url.clone() }
    }
}

impl Default for ProxyConfig {
    fn default() -> (r: Self)
        ensures
            r.mode@ == "system"@,
            r.url@ == Seq::<char>::empty(),
    {
        ProxyConfig { mode: String::from_str("system"), url: String::new() }
    }
}

impl FrpProfile {
    /// A new profile with a fresh random id and the server address trimmed.
    pub fn new(name: String, server: String, server_port: u16) -> (r: Self)
        ensures
            r.name == name,
            r.server@ == trim(server@),
            r.server_port == server_port,
            exists|u: Seq<char>| uuid_text_shape(u) && r.id@ == without_char(u, '-'),
    {
        let uuid = random_uuid_text();
        let id = remove_char(&chars_of_string(&uuid), '-');
        let chars = chars_of_string(&server);
        let trimmed = trim_vec(&chars);
        FrpProfile {
            id: string_of(&id),
            name,
            server: string_of(&trimmed),
            server_port,
        }
    }

    pub fn copy(&self) -> (r: Self)
        ensures
            r == *self,
    {
        FrpProfile {
            id: self.id.clone(),
            name: self.name.clone(),
            server: self.server.clone(),
            server_port: self.server_port,
        }
    }
}

pub fn copy_profiles(v: &Vec<FrpProfile>) -> (r: Vec<FrpProfile>)
    ensures
        r@ == v@,
{
    let mut r: Vec<FrpProfile> = Vec::new();
    let mut i: usize = 0;
    while i < v.len()
        invariant
            0 <= i <= v.len(),
            r@ == v@.subrange(0, i as int),
        decreases v.len() - i,
    {
        r.push(v[i].copy());
        i = i + 1;
        assert(r@ =~= v@.subrange(0, i as int));
    }
    assert(v@.subrange(0, v.len() as int) =~= v@);
    r
}

impl Default for AppSettings {
    fn default() -> (r: Self)
        ensures
            r.frp_profiles@ == Seq::<FrpProfile>::empty(),
            r.last_workspace_id@ == Seq::<char>::empty(),
            r.shared_secrets@ == Map::<String, String>::empty(),
            r.workspace_secrets@ == Map::<String, HashMap<String, String>>::empty(),
            r.app_secrets@ == Map::<String, HashMap<String, String>>::empty(),
            r.gateway.bind_host@ == "127.0.0.1"@,
            r.gateway.local_port == 28766,
            r.gateway.auth_type@ == "oauth"@,
            r.gateway_exposure.mode@ == "local"@,
            r.admin.bind_host@ == "0.0.0.0"@,
            r.admin.local_port == 28767,
    {
        AppSettings {
            frp_profiles: Vec::new(),
            last_workspace_id: String::new(),
            download: DownloadConfig::default(),
            proxy: ProxyConfig::default(),
            gateway: GatewayConfig::default(),
            gateway_exposure: GatewayExposureConfig::default(),
            admin: AdminConfig::default(),
            shared_secrets: HashMap::new(),
            workspace_secrets: HashMap::new(),
            app_secrets: HashMap::new(),
        }
    }
}

/// The settings held by `data`, field by field.
pub open spec fn settings_of(data: AppData, s: AppSettings) -> bool {
    &&& s.frp_profiles@ == data.frp_profiles@
    &&& s.last_workspace_id == data.last_workspace_id
    &&& s.download == data.download
    &&& s.proxy == data.proxy
    &&& s.gateway == data.gateway
    &&& s.gateway_exposure == data.gateway_exposure
    &&& s.admin == data.admin
    &&& s.shared_secrets@ == data.shared_secrets@
    &&& s.workspace_secrets@ == data.workspace_secrets@
    &&& s.app_secrets@ == data.app_secrets@
}

impl AppSettings {
    pub fn from_data(data: &AppData) -> (r: Self)
        ensures
            settings_of(*data, r),
    {
        AppSettings {
            frp_profiles: copy_profiles(&data.frp_profiles),
            last_workspace_id: data.last_workspace_id.clone(),
            download: data.download.copy(),
            proxy: data.proxy.copy(),
            gateway: data.gateway.copy(),
            gateway_exposure: data.gateway_exposure.copy(),
            admin: data.admin.copy(),
            shared_secrets: data.shared_secrets.clone(),
            workspace_secrets: data.workspace_secrets.clone(),
            app_secrets: data.app_secrets.clone(),
        }
    }

    pub fn apply_to(&self, data: &mut AppData)
        ensures
            settings_of(*final(data), *self),
    {
        data.frp_profiles = copy_profiles(&self.frp_profiles);
        data.last_workspace_id = self.last_workspace_id.clone();
        data.download = self.download.copy();
        data.proxy = self.proxy.copy();
        data.gateway = self.gateway.copy();
        data.gateway_exposure = self.gateway_exposure.copy();
        data.admin = self.admin.copy();
        data.shared_secrets = self.shared_secrets.clone();
        data.workspace_secrets = self.workspace_secrets.clone();
        data.app_secrets = self.app_secrets.clone();
    }

    /// The profile whose id is exactly `id`; none for a blank id.
    pub fn find_frp_profile(&self, id: &str) -> (r: Option<&FrpProfile>)
        ensures
            trim(id@).len() == 0 ==> r is None,
            trim(id@).len() > 0 ==> match r {
                Some(p) => exists|i: int|
                    0 <= i < self.frp_profiles@.len() && self.frp_profiles@[i] == *p
                        && p.id@ == id@ && forall|j: int|
                        0 <= j < i ==> self.frp_profiles@[j].id@ != id@,
                None => forall|j: int|
                    0 <= j < self.frp_profiles@.len() ==> self.frp_profiles@[j].id@ != id@,
            },
    {
        let idv = chars_of(id);
        let t = trim_vec(&idv);
        if t.len() == 0 {
            return None;
        }
        let mut i: usize = 0;
        while i < self.frp_profiles.len()
            invariant
                0 <= i <= self.frp_profiles@.len(),
                idv@ == id@,
                trim(id@).len() > 0,
                forall|j: int| 0 <= j < i ==> self.frp_profiles@[j].id@ != id@,
            decreases self.frp_profiles.len() - i,
        {
            let pid = chars_of_string(&self.frp_profiles[i].id);
            if eq_vec(&pid, &idv) {
                return Some(&self.frp_profiles[i]);
            }
            i = i + 1;
        }
        None
    }
}

} // verus!
