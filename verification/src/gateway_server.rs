//! JSON-RPC routing of the multi-workspace gateway: which reply a request
//! gets, and what a `tools/call` of a gateway tool does to the session
//! bindings.  Calls of workspace tools are handed on, with the session key
//! mirrored into `_meta.openai/session` when only the transport carried it.

use vstd::prelude::*;

use crate::gateway_state::{
    info_for, opt_view, resolve_id, resolve_request, GatewayState, GatewayWorkspaceInfo, ws_sorted,
};
use crate::text::{chars_of, eq_vec, starts_with, starts_with_vec, string_of, trim, trim_vec};

verus! {

/// What the gateway reads of a JSON-RPC request body.
pub struct McpRequest {
    /// `method`, or empty when absent or not a string.
    pub method: String,
    /// `id` is present and not null.
    pub has_id: bool,
    /// `params.name`, when it is a string.
    pub tool_name: Option<String>,
    /// `params.arguments.workspace`, when it is a string.
    pub workspace_arg: Option<String>,
    /// `params._meta["openai/session"]`, when it is a string.
    pub meta_session: Option<String>,
}

/// The answer to a gateway tool call.
pub enum ToolOutcome {
    /// `list_workspaces`: the registry, sorted; selection is required when
    /// there is more than one.
    Workspaces { workspaces: Vec<GatewayWorkspaceInfo>, selection_required: bool },
    /// `select_workspace` on a `/w/<id>/mcp` route, which fixes the workspace.
    PathLocked,
    /// `select_workspace` bound the session to this workspace.
    Selected(GatewayWorkspaceInfo),
    /// `get_current_workspace`.
    Current(GatewayWorkspaceInfo),
    /// A gateway tool failed with this code and message; the registry is
    /// listed for the client.
    Failed { code: String, message: String, workspaces: Vec<GatewayWorkspaceInfo> },
    /// A workspace tool: dispatch to this workspace, setting
    /// `_meta.openai/session` to `inject_session` first when it is given.
    Forward { workspace_id: String, inject_session: Option<String> },
}

/// The reply to a request.
pub enum GatewayReply {
    /// A notification (no id, `notifications/...`): nothing is sent.
    NoReply,
    Initialize,
    Pong,
    ToolCatalog,
    /// JSON-RPC error -32601 with this message.
    MethodNotFound(String),
    /// JSON-RPC error -32602 with this message.
    InvalidParams(String),
    Tool(ToolOutcome),
}

/// The session key a request carries in `_meta.openai/session`, trimmed,
/// when not blank.
pub open spec fn request_session(meta: Option<Seq<char>>) -> Option<Seq<char>> {
    match meta {
        Some(s) => if trim(s).len() > 0 {
            Some(trim(s))
        } else {
            None
        },
        None => None,
    }
}

/// The request's own session key, else the transport's (`Mcp-Session-Id`).
pub open spec fn effective_session(meta: Option<Seq<char>>, transport: Option<Seq<char>>) -> Option<
    Seq<char>,
> {
    match request_session(meta) {
        Some(s) => Some(s),
        None => transport,
    }
}

pub open spec fn ostr(o: Option<String>) -> Option<Seq<char>> {
    match o {
        Some(s) => Some(s@),
        None => None,
    }
}

/// The session key to write into `_meta.openai/session` before a request
/// is handed to a workspace: the transport's key, when the request has
/// none of its own.
pub open spec fn injected_session(meta: Option<Seq<char>>, transport: Option<Seq<char>>) -> Option<
    Seq<char>,
> {
    match effective_session(meta, transport) {
        Some(k) => if request_session(meta) is None {
            Some(k)
        } else {
            None
        },
        None => None,
    }
}

pub open spec fn session_missing_message() -> Seq<char> {
    "客户端没有提供会话标识；ChatGPT 会话使用 _meta.openai/session，其他 MCP 客户端可使用 Mcp-Session-Id。"@
}

fn request_session_exec(meta: &Option<String>) -> (r: Option<String>)
    ensures
        ostr(r) == request_session(ostr(*meta)),
{
    match meta {
        Some(s) => {
            let t = trim_vec(&chars_of(s.as_str()));
            if t.len() > 0 {
                Some(string_of(&t))
            } else {
                None
            }
        },
        None => None,
    }
}

/// The transport session key to mirror into the request metadata.
pub fn session_to_inject(meta_session: &Option<String>, transport_session_key: Option<&str>) -> (r:
    Option<String>)
    ensures
        ostr(r) == injected_session(ostr(*meta_session), opt_view(transport_session_key)),
{
    match request_session_exec(meta_session) {
        Some(_) => None,
        None => match transport_session_key {
            Some(k) => Some(string_of(&chars_of(k))),
            None => None,
        },
    }
}

fn is_lit(v: &[char], lit: &str) -> (r: bool)
    ensures
        r == (v@ == lit@),
{
    eq_vec(v, &chars_of(lit))
}

/// Whether a reply is owed: requests without an id whose method starts
/// with `notifications/` get none.
pub open spec fn is_notification(req: McpRequest) -> bool {
    !req.has_id && starts_with(req.method@, "notifications/"@)
}

/// `ws` lists the registry `reg`: the same workspaces, ordered by
/// lowercased name, then id.
pub open spec fn lists_registry(ws: Seq<GatewayWorkspaceInfo>, reg: Seq<GatewayWorkspaceInfo>) -> bool {
    ws_sorted(ws) && ws.to_multiset() == reg.to_multiset()
}

/// How a `tools/call` of `name` takes the gateway from `before` to `after`
/// and what it answers, given the `workspace` argument, the
/// `_meta.openai/session` value `meta`, the transport session key, the
/// workspace a `/w/<id>/mcp` route forces, and the time `now`.
pub open spec fn tools_call_post(
    before: GatewayState,
    after: GatewayState,
    name: Seq<char>,
    workspace_arg: Option<Seq<char>>,
    meta: Option<Seq<char>>,
    transport: Option<Seq<char>>,
    forced: Option<Seq<char>>,
    now: u128,
    r: ToolOutcome,
) -> bool {
    &&& after.registry() == before.registry()
    &&& {
        let session = effective_session(meta, transport);
        let selector = match workspace_arg {
            Some(w) => w,
            None => Seq::<char>::empty(),
        };
        if name == "list_workspaces"@ {
            &&& after.bindings() == before.bindings()
            &&& r matches ToolOutcome::Workspaces { workspaces, selection_required }
            &&& lists_registry(workspaces@, before.registry())
            &&& selection_required == (before.registry().len() > 1)
        } else if name == "select_workspace"@ {
            if forced is Some {
                &&& after.bindings() == before.bindings()
                &&& r is PathLocked
            } else if session is None {
                &&& after.bindings() == before.bindings()
                &&& r matches ToolOutcome::Failed { code, message, workspaces }
                &&& lists_registry(workspaces@, before.registry())
                &&& code@ == "session_key_missing"@
                &&& message@ == session_missing_message()
            } else {
                match resolve_id(before.registry(), selector) {
                    Ok(id) => {
                        &&& after.bindings() == before.bindings().insert(
                            session->0,
                            (id, now),
                        )
                        &&& r == ToolOutcome::Selected(info_for(before.registry(), id))
                    },
                    Err(m) => {
                        &&& after.bindings() == before.bindings()
                        &&& r matches ToolOutcome::Failed { code, message, workspaces }
                        &&& lists_registry(workspaces@, before.registry())
                        &&& code@ == "workspace_selection_failed"@
                        &&& message@ == m
                    },
                }
            }
        } else {
            &&& after.bindings() == before.bindings()
            &&& match resolve_request(
                before.registry(),
                before.bindings(),
                before.auto_select(),
                session,
                forced,
            ) {
                Ok(id) => if name == "get_current_workspace"@ {
                    r == ToolOutcome::Current(info_for(before.registry(), id))
                } else {
                    &&& r matches ToolOutcome::Forward { workspace_id, inject_session }
                    &&& workspace_id@ == id
                    &&& ostr(inject_session) == injected_session(
                        meta,
                        transport,
                    )
                },
                Err(m) => {
                    &&& r matches ToolOutcome::Failed { code, message, workspaces }
                    &&& lists_registry(workspaces@, before.registry())
                    &&& code@ == "workspace_required"@
                    &&& message@ == m
                },
            }
        }
    }
}

impl GatewayState {
    /// Answers a `tools/call` of `name`.  `list_workspaces`,
    /// `select_workspace` and `get_current_workspace` are the gateway's own;
    /// any other tool is routed to the workspace of the request.
    pub fn handle_tools_call(
        &mut self,
        name: &str,
        workspace_arg: &Option<String>,
        meta_session: &Option<String>,
        transport_session_key: Option<&str>,
        forced_workspace: Option<&str>,
        now: u128,
    ) -> (r: ToolOutcome)
        requires
            old(self).wf(),
        ensures
            final(self).wf(),
            final(self).registry() == old(self).registry(),
            tools_call_post(
                *old(self),
                *final(self),
                name@,
                ostr(*workspace_arg),
                ostr(*meta_session),
                opt_view(transport_session_key),
                opt_view(forced_workspace),
                now,
                r,
            ),
    {
        let n = chars_of(name);
        let own = request_session_exec(meta_session);
        let session: Option<String> = match own {
            Some(s) => Some(s),
            None => match transport_session_key {
                Some(k) => Some(string_of(&chars_of(k))),
                None => None,
            },
        };
        assert(ostr(session) == effective_session(ostr(*meta_session), opt_view(transport_session_key)));
        if is_lit(&n, "list_workspaces") {
            let workspaces = self.list_workspaces();
            proof {
                workspaces@.to_multiset_ensures();
                self.registry().to_multiset_ensures();
            }
            let selection_required = workspaces.len() > 1;
            return ToolOutcome::Workspaces { workspaces, selection_required };
        }
        if is_lit(&n, "select_workspace") {
            if forced_workspace.is_some() {
                return ToolOutcome::PathLocked;
            }
            let key = match &session {
                Some(k) => k,
                None => {
                    return ToolOutcome::Failed {
                        code: string_of(&chars_of("session_key_missing")),
                        message: string_of(
                            &chars_of(
                                "客户端没有提供会话标识；ChatGPT 会话使用 _meta.openai/session，其他 MCP 客户端可使用 Mcp-Session-Id。",
                            ),
                        ),
                        workspaces: self.list_workspaces(),
                    };
                },
            };
            let selector: &str = match workspace_arg {
                Some(w) => w.as_str(),
                None => "",
            };
            proof {
                reveal_strlit("");
            }
            assert(selector@ == match ostr(*workspace_arg) {
                Some(w) => w,
                None => Seq::<char>::empty(),
            });
            return match self.select_workspace_at(key.as_str(), selector, now) {
                Ok(info) => ToolOutcome::Selected(info),
                Err(message) => ToolOutcome::Failed {
                    code: string_of(&chars_of("workspace_selection_failed")),
                    message,
                    workspaces: self.list_workspaces(),
                },
            };
        }
        let session_ref: Option<&str> = match &session {
            Some(s) => Some(s.as_str()),
            None => None,
        };
        if is_lit(&n, "get_current_workspace") {
            return match self.current_workspace(session_ref, forced_workspace) {
                Ok(info) => ToolOutcome::Current(info),
                Err(message) => ToolOutcome::Failed {
                    code: string_of(&chars_of("workspace_required")),
                    message,
                    workspaces: self.list_workspaces(),
                },
            };
        }
        match self.resolve_workspace_for_request(session_ref, forced_workspace) {
            Ok(id) => ToolOutcome::Forward {
                workspace_id: id,
                inject_session: session_to_inject(meta_session, transport_session_key),
            },
            Err(message) => ToolOutcome::Failed {
                code: string_of(&chars_of("workspace_required")),
                message,
                workspaces: self.list_workspaces(),
            },
        }
    }

    /// The reply to a JSON-RPC request.
    pub fn handle_request(
        &mut self,
        req: &McpRequest,
        transport_session_key: Option<&str>,
        forced_workspace: Option<&str>,
        now: u128,
    ) -> (r: GatewayReply)
        requires
            old(self).wf(),
        ensures
            final(self).wf(),
            final(self).registry() == old(self).registry(),
            is_notification(*req) ==> r is NoReply && final(self).bindings() == old(
                self,
            ).bindings(),
            !is_notification(*req) ==> {
                let m = req.method@;
                if m == "initialize"@ {
                    r is Initialize
                } else if m == "ping"@ {
                    r is Pong
                } else if m == "tools/list"@ {
                    r is ToolCatalog
                } else if m == "tools/call"@ {
                    match req.tool_name {
                        None => r matches GatewayReply::InvalidParams(msg) && msg@
                            == "Missing tool name"@,
                        Some(_) => r is Tool,
                    }
                } else {
                    r matches GatewayReply::MethodNotFound(msg) && msg@ == "Method not found: "@
                        + m
                }
            },
            !(req.method@ == "tools/call"@ && req.tool_name is Some && !is_notification(*req))
                ==> final(self).bindings() == old(self).bindings(),
            !is_notification(*req) && req.method@ == "tools/call"@ && req.tool_name is Some ==> {
                &&& r is Tool
                &&& tools_call_post(
                    *old(self),
                    *final(self),
                    req.tool_name->0@,
                    ostr(req.workspace_arg),
                    ostr(req.meta_session),
                    opt_view(transport_session_key),
                    opt_view(forced_workspace),
                    now,
                    r->Tool_0,
                )
            },
    {
        proof {
            reveal_strlit("initialize");
            reveal_strlit("ping");
            reveal_strlit("tools/list");
            reveal_strlit("tools/call");
            reveal_strlit("notifications/");
            assert("initialize"@[0] != "tools/call"@[0]);
            assert("tools/list"@[6] != "tools/call"@[6]);
        }
        let m = chars_of(req.method.as_str());
        if !req.has_id && starts_with_vec(&m, &chars_of("notifications/")) {
            return GatewayReply::NoReply;
        }
        if is_lit(&m, "initialize") {
            GatewayReply::Initialize
        } else if is_lit(&m, "ping") {
            GatewayReply::Pong
        } else if is_lit(&m, "tools/list") {
            GatewayReply::ToolCatalog
        } else if is_lit(&m, "tools/call") {
            match &req.tool_name {
                None => GatewayReply::InvalidParams(string_of(&chars_of("Missing tool name"))),
                Some(name) => {
                    let o = self.handle_tools_call(
                        name.as_str(),
                        &req.workspace_arg,
                        &req.meta_session,
                        transport_session_key,
                        forced_workspace,
                        now,
                    );
                    assert(name@ == req.tool_name->0@);
                    GatewayReply::Tool(o)
                },
            }
        } else {
            GatewayReply::MethodNotFound(
                string_of(&crate::text::cat(&chars_of("Method not found: "), &m)),
            )
        }
    }
}

} // verus!
