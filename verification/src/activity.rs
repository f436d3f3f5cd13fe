//! The activity log of the admin console: a bounded list of request traces
//! (most recent 1000) and the `exec_command` processes that are still
//! running, with the parent trace of each follow-up call.

use vstd::prelude::*;
use vstd::string::*;

use crate::gateway_state::GatewayWorkspaceInfo;
use crate::table::Table;
use crate::text::{
    chars_of, chars_of_string, contains, contains_vec, eq_vec, lower, lower_vec, random_simple_uuid,
    string_of, trim, trim_vec, cat,
};

verus! {

broadcast use {vstd::string::group_string_axioms, vstd::utf8::group_utf8_lib};

pub const MAX_TRACES: usize = 1000;

pub const MAX_VALUE_BYTES: usize = 16384;

/// A request, response or error payload as kept in a trace: its JSON text,
/// or, when that exceeds `MAX_VALUE_BYTES`, its size and a preview of the
/// first `MAX_VALUE_BYTES / 2` characters.
pub enum Payload {
    Null,
    Full(String),
    Truncated { original_bytes: usize, preview: String },
}

impl Payload {
    pub fn copy(&self) -> (r: Self)
        ensures
            r == *self,
    {
        match self {
            Payload::Null => Payload::Null,
            Payload::Full(t) => Payload::Full(t.clone()),
            Payload::Truncated { original_bytes, preview } => Payload::Truncated {
                original_bytes: *original_bytes,
                preview: preview.clone(),
            },
        }
    }
}

/// Byte length of the UTF-8 encoding.
pub open spec fn byte_len(s: Seq<char>) -> nat {
    vstd::utf8::encode_utf8(s).len()
}

/// How a payload's JSON text is kept.
pub open spec fn limited(p: Payload, json: Seq<char>) -> bool {
    if byte_len(json) <= 16384 {
        p matches Payload::Full(t) && t@ == json
    } else {
        p matches Payload::Truncated { original_bytes, preview } && original_bytes == byte_len(json)
            && preview@ == (if json.len() > 8192 {
            json.take(8192)
        } else {
            json
        })
    }
}

pub fn limit_payload(json: &str) -> (r: Payload)
    requires
        byte_len(json@) <= usize::MAX,
    ensures
        limited(r, json@),
{
    let n = json.len();
    let v = chars_of(json);
    if n <= MAX_VALUE_BYTES {
        Payload::Full(string_of(&v))
    } else {
        let keep = if v.len() < 8192 {
            v.len()
        } else {
            8192
        };
        let preview = crate::text::slice_of(&v, 0, keep);
        assert(preview@ =~= (if json@.len() > 8192 {
            json@.take(8192)
        } else {
            json@
        }));
        Payload::Truncated { original_bytes: n, preview: string_of(&preview) }
    }
}

pub struct ActivityTrace {
    pub trace_id: String,
    pub rpc_id: String,
    pub method: String,
    pub tool: String,
    pub session_id: String,
    pub route: String,
    pub workspace_id: String,
    pub workspace_name: String,
    pub status: String,
    pub started_at_ms: u64,
    pub finished_at_ms: Option<u64>,
    pub duration_ms: Option<u64>,
    pub request: Payload,
    pub response: Payload,
    pub error: Payload,
    pub operation_id: String,
    pub process_session_id: String,
    pub parent_trace_id: String,
}

impl ActivityTrace {
    pub fn copy(&self) -> (r: Self)
        ensures
            r == *self,
    {
        ActivityTrace {
            trace_id: self.trace_id.clone(),
            rpc_id: self.rpc_id.clone(),
            method: self.method.clone(),
            tool: self.tool.clone(),
            session_id: self.session_id.clone(),
            route: self.route.clone(),
            workspace_id: self.workspace_id.clone(),
            workspace_name: self.workspace_name.clone(),
            status: self.status.clone(),
            started_at_ms: self.started_at_ms,
            finished_at_ms: self.finished_at_ms,
            duration_ms: self.duration_ms,
            request: self.request.copy(),
            response: self.response.copy(),
            error: self.error.copy(),
            operation_id: self.operation_id.clone(),
            process_session_id: self.process_session_id.clone(),
            parent_trace_id: self.parent_trace_id.clone(),
        }
    }
}

/// An `exec_command` process that is still running.
pub struct ActivityProcess {
    pub session_id: String,
    pub operation_id: String,
    pub trace_id: String,
    pub workspace_name: String,
    pub command: String,
    pub status: String,
    pub started_at_ms: u64,
    pub updated_at_ms: u64,
    pub exit_code: Option<i64>,
}

impl ActivityProcess {
    pub fn copy(&self) -> (r: Self)
        ensures
            r == *self,
    {
        ActivityProcess {
            session_id: self.session_id.clone(),
            operation_id: self.operation_id.clone(),
            trace_id: self.trace_id.clone(),
            workspace_name: self.workspace_name.clone(),
            command: self.command.clone(),
            status: self.status.clone(),
            started_at_ms: self.started_at_ms,
            updated_at_ms: self.updated_at_ms,
            exit_code: self.exit_code,
        }
    }
}

/// A filter of the activity view: each non-blank field must occur
/// (ASCII-case-insensitively) in the trace's workspace name, session id,
/// tool and status; at most `limit` traces (kept within 1..=500).
pub struct ActivityQuery {
    pub workspace: String,
    pub session: String,
    pub tool: String,
    pub status: String,
    pub limit: usize,
}

impl Default for ActivityQuery {
    fn default() -> (r: Self)
        ensures
            r.workspace@.len() == 0,
            r.session@.len() == 0,
            r.tool@.len() == 0,
            r.status@.len() == 0,
            r.limit == 200,
    {
        ActivityQuery {
            workspace: String::new(),
            session: String::new(),
            tool: String::new(),
            status: String::new(),
            limit: 200,
        }
    }
}

pub struct ActivitySnapshot {
    pub traces: Vec<ActivityTrace>,
    pub active_processes: Vec<ActivityProcess>,
}

/// What the log reads of a request body.
pub struct TraceRequest {
    /// The JSON text of `id`, or empty when there is none.
    pub rpc_id: String,
    /// `method`, or empty.
    pub method: String,
    /// `params.name`, or empty.
    pub tool: String,
    /// `params.arguments.session_id`, when it is a string.
    pub argument_session_id: Option<String>,
    /// The whole body as JSON text.
    pub body_json: String,
}

/// A field of the structured result that may hold something other than a
/// string.
pub enum TextField {
    Absent,
    Text(String),
    Other,
}

/// What the log reads of `result.structuredContent`.
pub struct StructuredContent {
    pub ok: Option<bool>,
    pub command_ok: Option<bool>,
    pub status: Option<String>,
    pub termination_reason: TextField,
    pub session_id: Option<String>,
    pub operation_id: Option<String>,
    pub command: Option<String>,
    pub exit_code: Option<i64>,
}

/// What the log reads of a response.
pub struct TraceResponse {
    /// The whole response as JSON text.
    pub response_json: String,
    /// The `error` member as JSON text, when present.
    pub error_json: Option<String>,
    pub structured: Option<StructuredContent>,
}

pub open spec fn or_empty(o: Option<String>) -> Seq<char> {
    match o {
        Some(s) => s@,
        None => Seq::empty(),
    }
}

/// The process session a call refers to: `arguments.session_id`, trimmed,
/// when not blank.
pub open spec fn related_session(req: TraceRequest) -> Option<Seq<char>> {
    match req.argument_session_id {
        Some(s) => if trim(s@).len() > 0 {
            Some(trim(s@))
        } else {
            None
        },
        None => None,
    }
}

fn related_session_exec(req: &TraceRequest) -> (r: Option<Vec<char>>)
    ensures
        match r {
            Some(v) => related_session(*req) == Some(v@),
            None => related_session(*req) is None,
        },
{
    match &req.argument_session_id {
        Some(s) => {
            let t = trim_vec(&chars_of_string(s));
            if t.len() > 0 {
                Some(t)
            } else {
                None
            }
        },
        None => None,
    }
}

/// A process status as reported: the termination reason when present (a
/// non-string reason gives none), else the status; failure spellings
/// become `failed`.
pub open spec fn process_status_spec(d: StructuredContent) -> Option<Seq<char>> {
    let raw = match d.termination_reason {
        TextField::Text(t) => Some(t@),
        TextField::Other => None,
        TextField::Absent => match d.status {
            Some(s) => Some(s@),
            None => None,
        },
    };
    match raw {
        Some(s) => if s == "spawn_failed"@ || s == "failed"@ || s == "error"@ {
            Some("failed"@)
        } else {
            Some(s)
        },
        None => None,
    }
}

fn process_status(d: &StructuredContent) -> (r: Option<String>)
    ensures
        match r {
            Some(s) => process_status_spec(*d) == Some(s@),
            None => process_status_spec(*d) is None,
        },
{
    let raw: Option<&String> = match &d.termination_reason {
        TextField::Text(t) => Some(t),
        TextField::Other => None,
        TextField::Absent => match &d.status {
            Some(s) => Some(s),
            None => None,
        },
    };
    match raw {
        Some(s) => {
            let v = chars_of_string(s);
            if eq_vec(&v, &chars_of("spawn_failed")) || eq_vec(&v, &chars_of("failed")) || eq_vec(
                &v,
                &chars_of("error"),
            ) {
                Some(string_of(&chars_of("failed")))
            } else {
                Some(string_of(&v))
            }
        },
        None => None,
    }
}

pub open spec fn terminal_status(s: Seq<char>) -> bool {
    s == "exited"@ || s == "failed"@ || s == "killed"@ || s == "timeout"@
}

fn is_terminal(s: &String) -> (r: bool)
    ensures
        r == terminal_status(s@),
{
    let v = chars_of_string(s);
    eq_vec(&v, &chars_of("exited")) || eq_vec(&v, &chars_of("failed")) || eq_vec(
        &v,
        &chars_of("killed"),
    ) || eq_vec(&v, &chars_of("timeout"))
}

/// The call failed: the response has an `error`, or its structured result
/// says `ok: false` or `command_ok: false`.
pub open spec fn failed_spec(resp: TraceResponse) -> bool {
    resp.error_json is Some || (resp.structured matches Some(d) && (d.ok == Some(false)
        || d.command_ok == Some(false)))
}

/// The last (at most) `MAX_TRACES` traces of `s`.
pub open spec fn keep_recent(s: Seq<ActivityTrace>) -> Seq<ActivityTrace> {
    if s.len() > 1000 {
        s.skip(s.len() - 1000)
    } else {
        s
    }
}

pub struct ActivityStore {
    traces: Vec<ActivityTrace>,
    processes: Table<ActivityProcess>,
    process_trace_by_session: Table<String>,
}

/// A new trace of a request: running, started now, with the request kept
/// and the parent trace of the process session it refers to.
pub open spec fn started_trace(
    t: ActivityTrace,
    trace_id: Seq<char>,
    req: TraceRequest,
    session_id: Option<Seq<char>>,
    route: Seq<char>,
    workspace: Option<GatewayWorkspaceInfo>,
    parents: Map<Seq<char>, String>,
    now: u64,
) -> bool {
    &&& t.trace_id@ == trace_id
    &&& t.rpc_id@ == req.rpc_id@
    &&& t.method@ == req.method@
    &&& t.tool@ == req.tool@
    &&& t.session_id@ == (match session_id {
        Some(s) => s,
        None => Seq::empty(),
    })
    &&& t.route@ == route
    &&& t.workspace_id@ == (match workspace {
        Some(w) => w.id@,
        None => Seq::empty(),
    })
    &&& t.workspace_name@ == (match workspace {
        Some(w) => w.name@,
        None => Seq::empty(),
    })
    &&& t.status@ == "running"@
    &&& t.started_at_ms == now
    &&& t.finished_at_ms is None
    &&& t.duration_ms is None
    &&& limited(t.request, req.body_json@)
    &&& t.response is Null
    &&& t.error is Null
    &&& t.operation_id@.len() == 0
    &&& t.process_session_id@ == (match related_session(req) {
        Some(s) => s,
        None => Seq::empty(),
    })
    &&& t.parent_trace_id@ == (match related_session(req) {
        Some(s) => if parents.contains_key(s) {
            parents[s]@
        } else {
            Seq::empty()
        },
        None => Seq::empty(),
    })
}

pub open spec fn ws_view(w: Option<&GatewayWorkspaceInfo>) -> Option<GatewayWorkspaceInfo> {
    match w {
        Some(x) => Some(*x),
        None => None,
    }
}

pub open spec fn sview(o: Option<&str>) -> Option<Seq<char>> {
    match o {
        Some(s) => Some(s@),
        None => None,
    }
}

/// A completed trace: the request's trace with its outcome, times,
/// response and error, the workspace that served it, and the operation and
/// process session its structured result names.
pub open spec fn completed_trace(
    old_t: ActivityTrace,
    t: ActivityTrace,
    resp: TraceResponse,
    workspace: Option<GatewayWorkspaceInfo>,
    now: u64,
) -> bool {
    &&& t.trace_id == old_t.trace_id
    &&& t.rpc_id == old_t.rpc_id
    &&& t.method == old_t.method
    &&& t.tool == old_t.tool
    &&& t.session_id == old_t.session_id
    &&& t.route == old_t.route
    &&& t.started_at_ms == old_t.started_at_ms
    &&& t.request == old_t.request
    &&& t.parent_trace_id == old_t.parent_trace_id
    &&& t.status@ == (if failed_spec(resp) {
        "failed"@
    } else {
        "completed"@
    })
    &&& t.finished_at_ms == Some(now)
    &&& t.duration_ms == Some(
        (if now >= old_t.started_at_ms {
            now - old_t.started_at_ms
        } else {
            0
        }) as u64,
    )
    &&& limited(t.response, resp.response_json@)
    &&& match resp.error_json {
        Some(e) => limited(t.error, e@),
        None => t.error is Null,
    }
    &&& match workspace {
        Some(w) => t.workspace_id@ == w.id@ && t.workspace_name@ == w.name@,
        None => t.workspace_id == old_t.workspace_id && t.workspace_name == old_t.workspace_name,
    }
    &&& match resp.structured {
        Some(d) => {
            &&& t.operation_id@ == or_empty(d.operation_id)
            &&& t.process_session_id@ == (if old_t.process_session_id@.len() == 0 {
                or_empty(d.session_id)
            } else {
                old_t.process_session_id@
            })
        },
        None => t.operation_id == old_t.operation_id && t.process_session_id
            == old_t.process_session_id,
    }
}

/// Position of the first trace with this id.
pub open spec fn first_trace(traces: Seq<ActivityTrace>, id: Seq<char>, i: int) -> bool {
    0 <= i < traces.len() && traces[i].trace_id@ == id && forall|j: int|
        0 <= j < i ==> traces[j].trace_id@ != id
}

/// A new process record of an `exec_command` that is still running.
pub open spec fn new_process(
    p: ActivityProcess,
    d: StructuredContent,
    trace_id: Seq<char>,
    workspace_name: Seq<char>,
    started: u64,
    now: u64,
) -> bool {
    &&& p.session_id@ == or_empty(d.session_id)
    &&& p.operation_id@ == or_empty(d.operation_id)
    &&& p.trace_id@ == trace_id
    &&& p.workspace_name@ == workspace_name
    &&& p.command@ == or_empty(d.command)
    &&& p.status@ == "running"@
    &&& p.started_at_ms == started
    &&& p.updated_at_ms == now
    &&& p.exit_code is None
}

/// A process record after a follow-up call reported on it.
pub open spec fn updated_process(
    old_p: ActivityProcess,
    p: ActivityProcess,
    structured: Option<StructuredContent>,
    now: u64,
) -> bool {
    &&& p.session_id == old_p.session_id
    &&& p.operation_id == old_p.operation_id
    &&& p.trace_id == old_p.trace_id
    &&& p.workspace_name == old_p.workspace_name
    &&& p.command == old_p.command
    &&& p.started_at_ms == old_p.started_at_ms
    &&& p.updated_at_ms == now
    &&& match structured {
        Some(d) => {
            &&& p.status@ == (match process_status_spec(d) {
                Some(s) => s,
                None => old_p.status@,
            })
            &&& p.exit_code == d.exit_code
        },
        None => p.status == old_p.status && p.exit_code == old_p.exit_code,
    }
}

impl Default for ActivityStore {
    fn default() -> (r: Self)
        ensures
            r.wf(),
            r.traces().len() == 0,
    {
        ActivityStore::new()
    }
}

/// A millisecond count truncated to 64 bits (`as u64`).
fn ms_as_u64(ms: u128) -> (r: u64)
    ensures
        r == ms as u64,
{
    #[verifier::truncate]
    (ms as u64)
}

/// Milliseconds since the Unix epoch, truncated to 64 bits (as the
/// clock's `as_millis() as u64`).
fn now_ms() -> u64 {
    ms_as_u64(crate::text::unix_time_ms())
}

impl ActivityStore {
    /// The traces, oldest first.
    pub closed spec fn traces(&self) -> Seq<ActivityTrace> {
        self.traces@
    }

    /// Running processes by session id.
    pub closed spec fn processes(&self) -> Map<Seq<char>, ActivityProcess> {
        self.processes@
    }

    /// The trace that started each running process, by session id.
    pub closed spec fn parents(&self) -> Map<Seq<char>, String> {
        self.process_trace_by_session@
    }

    pub closed spec fn wf(&self) -> bool {
        &&& self.traces@.len() <= 1000
        &&& self.processes.wf()
        &&& self.process_trace_by_session.wf()
        &&& self.processes@.dom() == self.process_trace_by_session@.dom()
    }

    pub fn new() -> (r: Self)
        ensures
            r.wf(),
            r.traces().len() == 0,
            r.processes() == Map::<Seq<char>, ActivityProcess>::empty(),
            r.parents() == Map::<Seq<char>, String>::empty(),
    {
        let r = ActivityStore {
            traces: Vec::new(),
            processes: Table::new(),
            process_trace_by_session: Table::new(),
        };
        assert(r.processes@.dom() =~= r.process_trace_by_session@.dom());
        r
    }

    /// Records the start of a request as trace `trace_id` at time `now`;
    /// the oldest trace is dropped beyond `MAX_TRACES`.  Returns the new
    /// trace.
    pub fn begin_trace_at(
        &mut self,
        trace_id: String,
        req: &TraceRequest,
        session_id: Option<&str>,
        route: &str,
        workspace: Option<&GatewayWorkspaceInfo>,
        now: u64,
    ) -> (r: ActivityTrace)
        requires
            old(self).wf(),
            byte_len(req.body_json@) <= usize::MAX,
        ensures
            final(self).wf(),
            started_trace(
                r,
                trace_id@,
                *req,
                sview(session_id),
                route@,
                ws_view(workspace),
                old(self).parents(),
                now,
            ),
            final(self).traces() == keep_recent(old(self).traces().push(r)),
            final(self).processes() == old(self).processes(),
            final(self).parents() == old(self).parents(),
    {
        let related = related_session_exec(req);
        let process_session_id = match &related {
            Some(s) => string_of(s),
            None => String::new(),
        };
        let parent_trace_id = match &related {
            Some(s) => match self.process_trace_by_session.get(s) {
                Some(p) => p.clone(),
                None => String::new(),
            },
            None => String::new(),
        };
        let t = ActivityTrace {
            trace_id,
            rpc_id: req.rpc_id.clone(),
            method: req.method.clone(),
            tool: req.tool.clone(),
            session_id: match session_id {
                Some(s) => string_of(&chars_of(s)),
                None => String::new(),
            },
            route: string_of(&chars_of(route)),
            workspace_id: match workspace {
                Some(w) => w.id.clone(),
                None => String::new(),
            },
            workspace_name: match workspace {
                Some(w) => w.name.clone(),
                None => String::new(),
            },
            status: string_of(&chars_of("running")),
            started_at_ms: now,
            finished_at_ms: None,
            duration_ms: None,
            request: limit_payload(req.body_json.as_str()),
            response: Payload::Null,
            error: Payload::Null,
            operation_id: String::new(),
            process_session_id,
            parent_trace_id,
        };
        let out = t.copy();
        let ghost pushed = self.traces@.push(t);
        self.traces.push(t);
        if self.traces.len() > MAX_TRACES {
            self.traces.remove(0);
            assert(self.traces@ =~= pushed.skip(1));
        }
        out
    }

    /// Records the start of a request under a fresh trace id
    /// (`trace_` and a random UUID) at the current time.
    pub fn begin_trace(
        &mut self,
        req: &TraceRequest,
        session_id: Option<&str>,
        route: &str,
        workspace: Option<&GatewayWorkspaceInfo>,
    ) -> (r: ActivityTrace)
        requires
            old(self).wf(),
            byte_len(req.body_json@) <= usize::MAX,
        ensures
            final(self).wf(),
            exists|id: Seq<char>, now: u64|
                started_trace(
                    r,
                    id,
                    *req,
                    sview(session_id),
                    route@,
                    ws_view(workspace),
                    old(self).parents(),
                    now,
                ),
            final(self).traces() == keep_recent(old(self).traces().push(r)),
            final(self).processes() == old(self).processes(),
            final(self).parents() == old(self).parents(),
    {
        let id = cat(&chars_of("trace_"), &chars_of_string(&random_simple_uuid()));
        let now = now_ms();
        self.begin_trace_at(string_of(&id), req, session_id, route, workspace, now)
    }

    /// How `complete_trace_at` at time `now` changes the store from
    /// `before` to `after` and what it returns.
    pub open spec fn trace_completed(
        before: ActivityStore,
        after: ActivityStore,
        r: Option<(ActivityTrace, Option<ActivityProcess>)>,
        trace_id: Seq<char>,
        req: TraceRequest,
        resp: TraceResponse,
        workspace: Option<GatewayWorkspaceInfo>,
        now: u64,
    ) -> bool {
        match r {
            None => {
                &&& forall|i: int|
                    0 <= i < before.traces().len() ==> before.traces()[i].trace_id@
                        != trace_id
                &&& after.traces() == before.traces()
                &&& after.processes() == before.processes()
                &&& after.parents() == before.parents()
            },
            Some((t, emitted)) => exists|i: int|
                {
                    &&& #[trigger] first_trace(before.traces(), trace_id, i)
                    &&& after.traces() == before.traces().update(i, t)
                    &&& completed_trace(before.traces()[i], t, resp, workspace, now)
                    &&& {
                        let old_t = before.traces()[i];
                        let wname = match workspace {
                            Some(w) => w.name@,
                            None => old_t.workspace_name@,
                        };
                        if old_t.tool@ == "exec_command"@ {
                            if resp.structured is Some && (resp.structured->0.status matches Some(
                                st,
                            ) && st@ == "running"@) && resp.structured->0.session_id is Some {
                                let d = resp.structured->0;
                                let sid = d.session_id->0@;
                                &&& emitted matches Some(p) && new_process(
                                    p,
                                    d,
                                    trace_id,
                                    wname,
                                    old_t.started_at_ms,
                                    now,
                                )
                                &&& after.processes() == before.processes().insert(
                                    sid,
                                    emitted->0,
                                )
                                &&& after.parents().dom() == before.parents().dom().insert(sid)
                                &&& after.parents()[sid]@ == trace_id
                            } else {
                                &&& emitted is None
                                &&& after.processes() == before.processes()
                                &&& after.parents() == before.parents()
                            }
                        } else {
                            match related_session(req) {
                                Some(sid) => if before.processes().contains_key(sid) {
                                    &&& emitted matches Some(p) && updated_process(
                                        before.processes()[sid],
                                        p,
                                        resp.structured,
                                        now,
                                    )
                                    &&& if terminal_status(emitted->0.status@) {
                                        &&& after.processes() == before.processes().remove(sid)
                                        &&& after.parents() == before.parents().remove(sid)
                                    } else {
                                        &&& after.processes() == before.processes().insert(
                                            sid,
                                            emitted->0,
                                        )
                                        &&& after.parents() == before.parents()
                                    }
                                } else {
                                    &&& emitted is None
                                    &&& after.processes() == before.processes()
                                    &&& after.parents() == before.parents()
                                },
                                None => {
                                    &&& emitted is None
                                    &&& after.processes() == before.processes()
                                    &&& after.parents() == before.parents()
                                },
                            }
                        }
                    }
                },
        }
    }

    /// Records the outcome of trace `trace_id` at time `now`.  A running
    /// `exec_command` registers its process; a later call naming that
    /// process session updates it and drops it once it ended.  Returns the
    /// completed trace and the process it touched, or `None` (and changes
    /// nothing) when the trace is no longer kept.
    pub fn complete_trace_at(
        &mut self,
        trace_id: &str,
        req: &TraceRequest,
        resp: &TraceResponse,
        workspace: Option<&GatewayWorkspaceInfo>,
        now: u64,
    ) -> (r: Option<(ActivityTrace, Option<ActivityProcess>)>)
        requires
            old(self).wf(),
            byte_len(resp.response_json@) <= usize::MAX,
            resp.error_json matches Some(e) ==> byte_len(e@) <= usize::MAX,
        ensures
            final(self).wf(),
            Self::trace_completed(*old(self), *final(self), r, trace_id@, *req, *resp, ws_view(workspace), now),
    {
        let failed = resp.error_json.is_some() || match &resp.structured {
            Some(d) => d.ok == Some(false) || d.command_ok == Some(false),
            None => false,
        };
        let related = related_session_exec(req);
        let id = chars_of(trace_id);
        let mut index: usize = 0;
        while index < self.traces.len() && !eq_vec(&chars_of_string(&self.traces[index].trace_id), &id)
            invariant
                0 <= index <= self.traces.len(),
                id@ == trace_id@,
                forall|j: int| 0 <= j < index ==> self.traces@[j].trace_id@ != trace_id@,
            decreases self.traces.len() - index,
        {
            index = index + 1;
        }
        if index == self.traces.len() {
            return None;
        }
        assert(first_trace(self.traces@, trace_id@, index as int));
        let old_t = self.traces[index].copy();
        let workspace_name = match workspace {
            Some(w) => w.name.clone(),
            None => old_t.workspace_name.clone(),
        };
        let mut emitted: Option<ActivityProcess> = None;
        if eq_vec(&chars_of_string(&old_t.tool), &chars_of("exec_command")) {
            if let Some(d) = &resp.structured {
                let running = match &d.status {
                    Some(s) => eq_vec(&chars_of_string(s), &chars_of("running")),
                    None => false,
                };
                if running {
                    if let Some(raw) = &d.session_id {
                        let process = ActivityProcess {
                            session_id: raw.clone(),
                            operation_id: match &d.operation_id {
                                Some(o) => o.clone(),
                                None => String::new(),
                            },
                            trace_id: string_of(&id),
                            workspace_name: workspace_name.clone(),
                            command: match &d.command {
                                Some(c) => c.clone(),
                                None => String::new(),
                            },
                            status: string_of(&chars_of("running")),
                            started_at_ms: old_t.started_at_ms,
                            updated_at_ms: now,
                            exit_code: None,
                        };
                        self.process_trace_by_session.insert(raw.clone(), string_of(&id));
                        self.processes.insert(raw.clone(), process.copy());
                        emitted = Some(process);
                    }
                }
            }
        } else if let Some(sid) = &related {
            if let Some(current) = self.processes.get(sid) {
                let mut p = current.copy();
                if let Some(d) = &resp.structured {
                    if let Some(status) = process_status(d) {
                        p.status = status;
                    }
                    p.exit_code = d.exit_code;
                }
                p.updated_at_ms = now;
                if is_terminal(&p.status) {
                    self.processes.remove(sid);
                    self.process_trace_by_session.remove(sid);
                } else {
                    self.processes.insert(string_of(sid), p.copy());
                }
                emitted = Some(p);
            }
        }
        let mut t = old_t.copy();
        t.status = if failed {
            string_of(&chars_of("failed"))
        } else {
            string_of(&chars_of("completed"))
        };
        t.finished_at_ms = Some(now);
        t.duration_ms = Some(now.saturating_sub(old_t.started_at_ms));
        t.response = limit_payload(resp.response_json.as_str());
        t.error = match &resp.error_json {
            Some(e) => limit_payload(e.as_str()),
            None => Payload::Null,
        };
        if let Some(w) = workspace {
            t.workspace_id = w.id.clone();
            t.workspace_name = w.name.clone();
        }
        if let Some(d) = &resp.structured {
            t.operation_id = match &d.operation_id {
                Some(o) => o.clone(),
                None => String::new(),
            };
            if old_t.process_session_id.as_str().is_empty() {
                t.process_session_id = match &d.session_id {
                    Some(s) => s.clone(),
                    None => String::new(),
                };
            }
        }
        let out = t.copy();
        self.traces.set(index, t);
        assert(self.processes@.dom() =~= self.process_trace_by_session@.dom());
        Some((out, emitted))
    }
}

/// `needle` (trimmed) is blank or occurs in `value`, ASCII case ignored.
pub open spec fn contains_fold(value: Seq<char>, needle: Seq<char>) -> bool {
    trim(needle).len() == 0 || contains(lower(value), lower(trim(needle)))
}

pub open spec fn matches_query(t: ActivityTrace, q: ActivityQuery) -> bool {
    &&& contains_fold(t.workspace_name@, q.workspace@)
    &&& contains_fold(t.session_id@, q.session@)
    &&& contains_fold(t.tool@, q.tool@)
    &&& contains_fold(t.status@, q.status@)
}

fn contains_fold_exec(value: &String, needle: &String) -> (r: bool)
    ensures
        r == contains_fold(value@, needle@),
{
    let n = trim_vec(&chars_of_string(needle));
    n.len() == 0 || contains_vec(&lower_vec(&chars_of_string(value)), &lower_vec(&n))
}

fn matches_query_exec(t: &ActivityTrace, q: &ActivityQuery) -> (r: bool)
    ensures
        r == matches_query(*t, *q),
{
    contains_fold_exec(&t.workspace_name, &q.workspace) && contains_fold_exec(&t.session_id, &q.session)
        && contains_fold_exec(&t.tool, &q.tool) && contains_fold_exec(&t.status, &q.status)
}

/// The query's limit kept within 1..=500.
pub open spec fn clamped_limit(limit: usize) -> nat {
    if limit < 1 {
        1
    } else if limit > 500 {
        500
    } else {
        limit as nat
    }
}

/// The newest traces that match, newest first, at most `limit`.
pub open spec fn newest_matching(traces: Seq<ActivityTrace>, q: ActivityQuery, limit: nat) -> Seq<
    ActivityTrace,
>
    decreases traces.len(),
{
    if traces.len() == 0 || limit == 0 {
        Seq::empty()
    } else if matches_query(traces.last(), q) {
        seq![traces.last()] + newest_matching(traces.drop_last(), q, (limit - 1) as nat)
    } else {
        newest_matching(traces.drop_last(), q, limit)
    }
}

/// Law: the activity query returns at most `limit` of the stored traces,
/// and every trace it returns matches each query field that is not blank:
/// the trace's workspace name, session id, tool and status each contain
/// the trimmed field, ignoring ASCII case.  When fewer than `limit` come
/// back, every matching trace is among them.
pub proof fn law_query_results_match(traces: Seq<ActivityTrace>, q: ActivityQuery, limit: nat)
    ensures
        newest_matching(traces, q, limit).len() <= limit,
        forall|k: int|
            0 <= k < newest_matching(traces, q, limit).len() ==> {
                let t = #[trigger] newest_matching(traces, q, limit)[k];
                &&& traces.contains(t)
                &&& trim(q.workspace@).len() == 0 || contains(lower(t.workspace_name@), lower(trim(q.workspace@)))
                &&& trim(q.session@).len() == 0 || contains(lower(t.session_id@), lower(trim(q.session@)))
                &&& trim(q.tool@).len() == 0 || contains(lower(t.tool@), lower(trim(q.tool@)))
                &&& trim(q.status@).len() == 0 || contains(lower(t.status@), lower(trim(q.status@)))
            },
        newest_matching(traces, q, limit).len() < limit ==> forall|j: int|
            0 <= j < traces.len() && (trim(q.workspace@).len() == 0 || contains(
                lower(traces[j].workspace_name@),
                lower(trim(q.workspace@)),
            )) && (trim(q.session@).len() == 0 || contains(
                lower(traces[j].session_id@),
                lower(trim(q.session@)),
            )) && (trim(q.tool@).len() == 0 || contains(lower(traces[j].tool@), lower(trim(q.tool@))))
                && (trim(q.status@).len() == 0 || contains(
                lower(traces[j].status@),
                lower(trim(q.status@)),
            )) ==> newest_matching(traces, q, limit).contains(#[trigger] traces[j]),
    decreases traces.len(),
{
    if traces.len() == 0 || limit == 0 {
    } else {
        let rest = traces.drop_last();
        let r = newest_matching(traces, q, limit);
        if matches_query(traces.last(), q) {
            law_query_results_match(rest, q, (limit - 1) as nat);
            let r0 = newest_matching(rest, q, (limit - 1) as nat);
            assert(r == seq![traces.last()] + r0);
            assert forall|k: int| 0 <= k < r.len() implies traces.contains(#[trigger] r[k]) by {
                if k == 0 {
                    assert(traces[traces.len() - 1] == r[0]);
                } else {
                    assert(r[k] == r0[k - 1]);
                    let m = choose|m: int| 0 <= m < rest.len() && rest[m] == r0[k - 1];
                    assert(traces[m] == rest[m]);
                }
            }
            assert forall|k: int| 0 <= k < r.len() implies matches_query(#[trigger] r[k], q) by {
                if k > 0 {
                    assert(r[k] == r0[k - 1]);
                }
            }
            if r.len() < limit {
                assert forall|j: int| 0 <= j < traces.len() && matches_query(traces[j], q) implies r.contains(
                    #[trigger] traces[j],
                ) by {
                    if j == traces.len() - 1 {
                        assert(r[0] == traces[j]);
                    } else {
                        assert(rest[j] == traces[j]);
                        let m = choose|m: int| 0 <= m < r0.len() && r0[m] == rest[j];
                        assert(r[m + 1] == traces[j]);
                    }
                }
            }
        } else {
            law_query_results_match(rest, q, limit);
            assert forall|k: int| 0 <= k < r.len() implies traces.contains(#[trigger] r[k]) by {
                let m = choose|m: int| 0 <= m < rest.len() && rest[m] == r[k];
                assert(traces[m] == rest[m]);
            }
            if r.len() < limit {
                assert forall|j: int| 0 <= j < traces.len() && matches_query(traces[j], q) implies r.contains(
                    #[trigger] traces[j],
                ) by {
                    assert(j != traces.len() - 1);
                    assert(rest[j] == traces[j]);
                }
            }
        }
    }
}

/// Processes listed most recently updated first.
pub open spec fn by_update_desc(s: Seq<ActivityProcess>) -> bool {
    forall|i: int, j: int| 0 <= i < j < s.len() ==> s[i].updated_at_ms >= s[j].updated_at_ms
}

fn insert_by_update(r: &mut Vec<ActivityProcess>, x: ActivityProcess)
    requires
        by_update_desc(old(r)@),
    ensures
        by_update_desc(final(r)@),
        final(r)@.to_multiset() == old(r)@.to_multiset().insert(x),
{
    let mut p: usize = 0;
    while p < r.len() && r[p].updated_at_ms >= x.updated_at_ms
        invariant
            0 <= p <= r@.len(),
            r@ == old(r)@,
            forall|q: int| 0 <= q < p ==> r@[q].updated_at_ms >= x.updated_at_ms,
        decreases r.len() - p,
    {
        p = p + 1;
    }
    let ghost s = r@;
    r.insert(p, x);
    proof {
        let t = r@;
        assert forall|a: int, b: int| 0 <= a < b < t.len() implies t[a].updated_at_ms
            >= t[b].updated_at_ms by {
            if a == p {
                assert(t[b] == s[b - 1]);
                assert(s[p as int].updated_at_ms < x.updated_at_ms);
                assert(s[p as int].updated_at_ms >= s[b - 1].updated_at_ms);
            } else if b == p {
                assert(t[a] == s[a]);
            } else {
                let a2 = if a < p {
                    a
                } else {
                    a - 1
                };
                let b2 = if b < p {
                    b
                } else {
                    b - 1
                };
                assert(t[a] == s[a2]);
                assert(t[b] == s[b2]);
            }
        }
        vstd::seq_lib::to_multiset_insert(s, p as int, x);
    }
}

impl ActivityStore {
    pub closed spec fn process_list(&self) -> Seq<ActivityProcess> {
        self.processes.values()
    }

    /// Law: the running processes reported are exactly the values of the
    /// process table, one entry per session id.
    pub proof fn law_processes_listed(&self)
        requires
            self.wf(),
        ensures
            self.process_list().len() == self.processes().dom().len(),
            forall|p: ActivityProcess| self.process_list().contains(p) <==> exists|k: Seq<char>|
                #[trigger] self.processes().contains_key(k) && self.processes()[k] == p,
    {
        self.processes.lemma_values();
        self.processes.lemma_keys();
        assert forall|p: ActivityProcess| self.process_list().contains(p) implies exists|k: Seq<char>|
            #[trigger] self.processes().contains_key(k) && self.processes()[k] == p by {
            let i = choose|i: int| 0 <= i < self.process_list().len() && self.process_list()[i] == p;
            let k = self.processes.keys()[i];
            assert(self.processes().contains_key(k) && self.processes()[k] == p);
        }
        assert forall|p: ActivityProcess| (exists|k: Seq<char>|
            #[trigger] self.processes().contains_key(k) && self.processes()[k] == p) implies self.process_list().contains(p) by {
            let k = choose|k: Seq<char>| #[trigger] self.processes().contains_key(k) && self.processes()[k] == p;
            assert(self.processes.keys().contains(k));
            let i = choose|i: int| 0 <= i < self.processes.keys().len() && self.processes.keys()[i] == k;
            assert(self.process_list()[i] == p);
        }
    }

    /// The traces that match the query, newest first, and the running
    /// processes, most recently updated first.
    pub fn snapshot(&self, query: &ActivityQuery) -> (r: ActivitySnapshot)
        requires
            self.wf(),
        ensures
            r.traces@ == newest_matching(self.traces(), *query, clamped_limit(query.limit)),
            by_update_desc(r.active_processes@),
            r.active_processes@.to_multiset() == self.process_list().to_multiset(),
            r.active_processes@.len() == self.processes().dom().len(),
    {
        let limit: usize = if query.limit < 1 {
            1
        } else if query.limit > 500 {
            500
        } else {
            query.limit
        };
        let mut traces: Vec<ActivityTrace> = Vec::new();
        let mut end = self.traces.len();
        let mut left = limit;
        assert(self.traces@.take(end as int) =~= self.traces@);
        assert(Seq::<ActivityTrace>::empty() + newest_matching(self.traces@, *query, limit as nat)
            =~= newest_matching(self.traces@, *query, limit as nat));
        while end > 0 && left > 0
            invariant
                end <= self.traces.len(),
                newest_matching(self.traces@, *query, clamped_limit(query.limit)) == traces@
                    + newest_matching(self.traces@.take(end as int), *query, left as nat),
            decreases end,
        {
            let ghost pre = self.traces@.take(end as int);
            assert(pre.drop_last() =~= self.traces@.take(end - 1));
            let ghost before = traces@;
            if matches_query_exec(&self.traces[end - 1], query) {
                traces.push(self.traces[end - 1].copy());
                assert(before.push(pre.last()) + newest_matching(self.traces@.take(end - 1), *query, (left - 1) as nat)
                    =~= before + (seq![pre.last()] + newest_matching(self.traces@.take(end - 1), *query, (left - 1) as nat)));
                left = left - 1;
            }
            end = end - 1;
        }
        assert(newest_matching(self.traces@.take(end as int), *query, left as nat) =~= Seq::<ActivityTrace>::empty());
        let mut active: Vec<ActivityProcess> = Vec::new();
        let mut i: usize = 0;
        proof {
            self.processes.lemma_values();
            assert(self.processes.values().take(0) =~= active@);
        }
        while i < self.processes.len()
            invariant
                0 <= i <= self.processes.keys().len(),
                self.processes.wf(),
                self.processes.values().len() == self.processes.keys().len(),
                by_update_desc(active@),
                active@.to_multiset() == self.processes.values().take(i as int).to_multiset(),
            decreases self.processes.keys().len() - i,
        {
            let x = self.processes.value_at(i).copy();
            insert_by_update(&mut active, x);
            proof {
                let w = self.processes.values();
                assert(w.take(i + 1) =~= w.take(i as int).push(w[i as int]));
                vstd::seq_lib::to_multiset_build(w.take(i as int), w[i as int]);
            }
            i = i + 1;
        }
        assert(self.processes.values().take(i as int) =~= self.processes.values());
        proof {
            self.processes.lemma_keys();
            vstd::seq_lib::to_multiset_len(active@);
            vstd::seq_lib::to_multiset_len(self.processes.values());
        }
        ActivitySnapshot { traces, active_processes: active }
    }

    /// The kept trace with this id (the first, should ids repeat).
    pub fn get(&self, trace_id: &str) -> (r: Option<ActivityTrace>)
        ensures
            match r {
                Some(t) => exists|i: int| #[trigger] first_trace(self.traces(), trace_id@, i) && self.traces()[i] == t,
                None => forall|i: int| 0 <= i < self.traces().len() ==> self.traces()[i].trace_id@ != trace_id@,
            },
    {
        let id = chars_of(trace_id);
        let mut i: usize = 0;
        while i < self.traces.len()
            invariant
                0 <= i <= self.traces.len(),
                id@ == trace_id@,
                forall|j: int| 0 <= j < i ==> self.traces@[j].trace_id@ != trace_id@,
            decreases self.traces.len() - i,
        {
            if eq_vec(&chars_of_string(&self.traces[i].trace_id), &id) {
                assert(first_trace(self.traces@, trace_id@, i as int));
                return Some(self.traces[i].copy());
            }
            i = i + 1;
        }
        None
    }

    /// `complete_trace_at` at the current time.
    pub fn complete_trace(
        &mut self,
        trace_id: &str,
        req: &TraceRequest,
        resp: &TraceResponse,
        workspace: Option<&GatewayWorkspaceInfo>,
    ) -> (r: Option<(ActivityTrace, Option<ActivityProcess>)>)
        requires
            old(self).wf(),
            byte_len(resp.response_json@) <= usize::MAX,
            resp.error_json matches Some(e) ==> byte_len(e@) <= usize::MAX,
        ensures
            final(self).wf(),
            exists|now: u64|
                #[trigger] Self::trace_completed(
                    *old(self),
                    *final(self),
                    r,
                    trace_id@,
                    *req,
                    *resp,
                    ws_view(workspace),
                    now,
                ),
    {
        let now = now_ms();
        self.complete_trace_at(trace_id, req, resp, workspace, now)
    }

    /// Law: the log never keeps more than `MAX_TRACES` traces, and every
    /// running process has the trace that started it.
    pub proof fn law_log_bounded(&self)
        requires
            self.wf(),
        ensures
            self.traces().len() <= 1000,
            self.processes().dom() == self.parents().dom(),
    {
    }
}

/// Law: a follow-up call that names a running process session is recorded
/// under the trace that started that process.
pub proof fn law_follow_up_parent(
    t: ActivityTrace,
    trace_id: Seq<char>,
    req: TraceRequest,
    session_id: Option<Seq<char>>,
    route: Seq<char>,
    workspace: Option<GatewayWorkspaceInfo>,
    parents: Map<Seq<char>, String>,
    now: u64,
    sid: Seq<char>,
)
    requires
        started_trace(t, trace_id, req, session_id, route, workspace, parents, now),
        related_session(req) == Some(sid),
        parents.contains_key(sid),
    ensures
        t.parent_trace_id@ == parents[sid]@,
        t.process_session_id@ == sid,
{
}

} // verus!
