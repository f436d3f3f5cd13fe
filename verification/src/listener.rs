//! Decisions of the gateway HTTP listener: the configured public base URL,
//! the displayed local endpoint, the credentials an authentication mode
//! needs, and the transport session key of a request.

use vstd::prelude::*;

use crate::gateway_service::{display_host, endpoint_url};
use crate::net::{host_is_unspecified, v4_text_exec, HostAddr};
use crate::text::{
    cat, chars_of, chars_of_string, decimal_of, eq_vec, lower, lower_vec, string_of, strip_end,
    strip_end_vec, strip_suffix_or_keep, strip_suffix_vec, trim, trim_vec, CharClass,
};

verus! {

/// The configured public URL as an OAuth base: trimmed, without trailing
/// `/`, without one `/mcp` suffix.
pub open spec fn public_base(v: Seq<char>) -> Seq<char> {
    strip_suffix_or_keep(strip_end(trim(v), CharClass::Is('/')), "/mcp"@)
}

pub fn normalize_public_url(value: &str) -> (r: String)
    ensures
        r@ == public_base(value@),
{
    let t = trim_vec(&chars_of(value));
    let a = strip_end_vec(&t, CharClass::Is('/'));
    string_of(&strip_suffix_vec(&a, &chars_of("/mcp")))
}

/// The local endpoint the listener announces; `bind` is `bind_host`
/// parsed as an IP address.
pub fn local_endpoint(bind_host: &str, bind: &HostAddr, port: u16) -> (r: String)
    ensures
        r@ == endpoint_url(display_host(*bind, bind_host@), port),
{
    let raw = chars_of(bind_host);
    let host = match bind {
        HostAddr::V4(a, b, c, d) => {
            if host_is_unspecified(bind) {
                chars_of("127.0.0.1")
            } else {
                v4_text_exec(*a, *b, *c, *d)
            }
        },
        HostAddr::V6(_, text) => {
            if host_is_unspecified(bind) {
                chars_of("[::1]")
            } else {
                cat(&cat(&chars_of("["), &chars_of_string(text)), &chars_of("]"))
            }
        },
        HostAddr::NotIp => raw,
    };
    let x = cat(&chars_of("http://"), &host);
    let x = cat(&x, &chars_of(":"));
    let x = cat(&x, &decimal_of(port as u64));
    string_of(&cat(&x, &chars_of("/mcp")))
}

/// Credentials of the gateway's authentication mode.
pub struct ListenerAuth {
    /// `auth_type`, trimmed and lowercased.
    pub auth_type: String,
    pub bearer_token: Option<String>,
    pub oauth_password: String,
    pub oauth_token_secret: String,
}

pub open spec fn bearer_missing_message() -> Seq<char> {
    "Gateway Bearer 认证已启用，但共享 bearer_token 不存在"@
}

pub open spec fn oauth_missing_message() -> Seq<char> {
    "Gateway OAuth 已启用，但共享 OAuth 凭据尚未初始化"@
}

pub open spec fn some_nonempty(o: Option<String>) -> bool {
    o is Some && o->0@.len() > 0
}

pub open spec fn or_empty(o: Option<String>) -> Seq<char> {
    match o {
        Some(s) => s@,
        None => Seq::empty(),
    }
}

/// Checks that the shared secrets a mode needs exist: `bearer` needs a
/// non-empty bearer token; `oauth` needs a client id (not blank), a
/// password and a token-signing secret.  Secrets of other modes are
/// dropped.
pub fn check_listener_auth(
    auth_type: &str,
    oauth_client_id: &str,
    bearer_token: Option<String>,
    oauth_password: Option<String>,
    oauth_token_secret: Option<String>,
) -> (r: Result<ListenerAuth, String>)
    ensures
        ({
            let mode = lower(trim(auth_type@));
            if mode == "bearer"@ {
                if some_nonempty(bearer_token) {
                    r matches Ok(a) && a.auth_type@ == mode && a.bearer_token == bearer_token
                        && a.oauth_password@.len() == 0 && a.oauth_token_secret@.len() == 0
                } else {
                    r matches Err(m) && m@ == bearer_missing_message()
                }
            } else if mode == "oauth"@ {
                if trim(oauth_client_id@).len() > 0 && or_empty(oauth_password).len() > 0
                    && or_empty(oauth_token_secret).len() > 0 {
                    r matches Ok(a) && a.auth_type@ == mode && a.bearer_token is None
                        && a.oauth_password@ == or_empty(oauth_password) && a.oauth_token_secret@
                        == or_empty(oauth_token_secret)
                } else {
                    r matches Err(m) && m@ == oauth_missing_message()
                }
            } else {
                r matches Ok(a) && a.auth_type@ == mode && a.bearer_token is None
                    && a.oauth_password@.len() == 0 && a.oauth_token_secret@.len() == 0
            }
        }),
{
    proof {
        reveal_strlit("bearer");
        reveal_strlit("oauth");
        assert("bearer"@ != "oauth"@) by {
            assert("bearer"@.len() == 6);
        }
    }
    let mode = lower_vec(&trim_vec(&chars_of(auth_type)));
    let bearer = eq_vec(&mode, &chars_of("bearer"));
    let oauth = eq_vec(&mode, &chars_of("oauth"));
    let token = if bearer {
        match bearer_token {
            Some(t) => if chars_of_string(&t).len() > 0 {
                Some(t)
            } else {
                None
            },
            None => None,
        }
    } else {
        None
    };
    if bearer && token.is_none() {
        return Err(string_of(&chars_of("Gateway Bearer 认证已启用，但共享 bearer_token 不存在")));
    }
    let password = if oauth {
        match oauth_password {
            Some(p) => p,
            None => String::new(),
        }
    } else {
        String::new()
    };
    let secret = if oauth {
        match oauth_token_secret {
            Some(s) => s,
            None => String::new(),
        }
    } else {
        String::new()
    };
    assert(oauth ==> password@ == or_empty(oauth_password));
    assert(oauth ==> secret@ == or_empty(oauth_token_secret));
    if oauth && (trim_vec(&chars_of(oauth_client_id)).len() == 0 || chars_of_string(&password).len()
        == 0 || chars_of_string(&secret).len() == 0) {
        return Err(string_of(&chars_of("Gateway OAuth 已启用，但共享 OAuth 凭据尚未初始化")));
    }
    assert(!oauth ==> password@ =~= Seq::<char>::empty());
    assert(!oauth ==> secret@ =~= Seq::<char>::empty());
    Ok(
        ListenerAuth {
            auth_type: string_of(&mode),
            bearer_token: token,
            oauth_password: password,
            oauth_token_secret: secret,
        },
    )
}

/// The `Mcp-Session-Id` header value as a session key: trimmed, absent
/// when blank.
pub fn session_key_from_header(value: Option<&str>) -> (r: Option<String>)
    ensures
        match value {
            Some(v) => if trim(v@).len() > 0 {
                r matches Some(k) && k@ == trim(v@)
            } else {
                r is None
            },
            None => r is None,
        },
{
    match value {
        Some(v) => {
            let t = trim_vec(&chars_of(v));
            if t.len() > 0 {
                Some(string_of(&t))
            } else {
                None
            }
        },
        None => None,
    }
}

/// The request line written to the gateway's request log.
pub fn request_log_line(request_id: &str, method: &str, tool: &str, forced_workspace: Option<&str>) -> (r:
    String)
    ensures
        r@ == "[rpc] request id="@ + request_id@ + " method="@ + method@ + " tool="@ + tool@
            + " route="@ + (match forced_workspace {
            Some(w) => w@,
            None => "session"@,
        }),
{
    let x = cat(&chars_of("[rpc] request id="), &chars_of(request_id));
    let x = cat(&x, &chars_of(" method="));
    let x = cat(&x, &chars_of(method));
    let x = cat(&x, &chars_of(" tool="));
    let x = cat(&x, &chars_of(tool));
    let x = cat(&x, &chars_of(" route="));
    let route = match forced_workspace {
        Some(w) => chars_of(w),
        None => chars_of("session"),
    };
    string_of(&cat(&x, &route))
}

/// The completion line written to the gateway's request log.
pub fn completed_log_line(request_id: &str, method: &str, tool: &str) -> (r: String)
    ensures
        r@ == "[rpc] completed id="@ + request_id@ + " method="@ + method@ + " tool="@ + tool@,
{
    let x = cat(&chars_of("[rpc] completed id="), &chars_of(request_id));
    let x = cat(&x, &chars_of(" method="));
    let x = cat(&x, &chars_of(method));
    let x = cat(&x, &chars_of(" tool="));
    string_of(&cat(&x, &chars_of(tool)))
}

/// A request passes bearer authentication when its `Authorization` header,
/// trimmed, is `Bearer ` followed by the configured (non-empty) token.
pub fn bearer_authorized(authorization: Option<&str>, token: &str) -> (r: bool)
    ensures
        r == (authorization matches Some(h) && token@.len() > 0 && trim(h@) == "Bearer "@ + token@),
{
    match authorization {
        Some(h) => {
            let t = chars_of(token);
            let expected = cat(&chars_of("Bearer "), &t);
            t.len() > 0 && eq_vec(&trim_vec(&chars_of(h)), &expected)
        },
        None => false,
    }
}

} // verus!
