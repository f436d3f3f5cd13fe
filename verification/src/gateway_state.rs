//! Workspace registry and per-conversation workspace binding of the
//! multi-workspace gateway.
//!
//! A conversation (identified by a session key) selects one registered
//! workspace; later requests of that conversation are routed to it.  A path
//! route `/w/<id>/mcp` forces a workspace regardless of the binding.

use vstd::prelude::*;

use crate::settings::GatewayConfig;
use crate::text::{
    chars_of, chars_of_string, compare_chars, eq_vec, lemma_seq_lt_irreflexive,
    lemma_seq_lt_total, lemma_seq_lt_transitive, lower, lower_vec, seq_lt, string_of,
    strip_both, strip_both_vec, strip_prefix_or_keep, strip_prefix_vec, strip_suffix_or_keep,
    strip_suffix_vec, trim, trim_vec, cat, CharClass,
};

verus! {

/// A registered workspace as the gateway needs it.
pub struct WorkspaceProfile {
    pub id: String,
    pub name: String,
    pub path: String,
}

pub struct GatewayWorkspaceInfo {
    pub id: String,
    pub name: String,
    pub path: String,
    pub route: String,
}

pub struct GatewaySessionInfo {
    pub session_key: String,
    pub workspace_id: String,
    pub workspace_name: String,
    pub selected_at_unix_ms: u128,
}

struct SessionBinding {
    workspace_id: String,
    selected_at_unix_ms: u128,
}

struct SessionEntry {
    key: String,
    binding: SessionBinding,
}

pub struct GatewayState {
    workspaces: Vec<GatewayWorkspaceInfo>,
    sessions: Vec<SessionEntry>,
    tool_profile: String,
    auto_select_single_workspace: bool,
}

impl GatewayWorkspaceInfo {
    pub fn copy(&self) -> (r: Self)
        ensures
            r == *self,
    {
        GatewayWorkspaceInfo {
            id: self.id.clone(),
            name: self.name.clone(),
            path: self.path.clone(),
            route: self.route.clone(),
        }
    }
}

// ---------------------------------------------------------------------------
// Workspace registry specification
// ---------------------------------------------------------------------------

pub open spec fn ids_unique(ws: Seq<GatewayWorkspaceInfo>) -> bool {
    forall|i: int, j: int| 0 <= i < ws.len() && 0 <= j < ws.len() && i != j ==> ws[i].id@ != ws[j].id@
}

pub open spec fn has_id(ws: Seq<GatewayWorkspaceInfo>, id: Seq<char>) -> bool {
    exists|i: int| 0 <= i < ws.len() && ws[i].id@ == id
}

/// The registered workspace whose id is `id`.
pub open spec fn info_for(ws: Seq<GatewayWorkspaceInfo>, id: Seq<char>) -> GatewayWorkspaceInfo {
    ws[choose|i: int| 0 <= i < ws.len() && ws[i].id@ == id]
}

/// `eq_ignore_ascii_case`.
pub open spec fn same_ignoring_case(a: Seq<char>, b: Seq<char>) -> bool {
    lower(a) == lower(b)
}

pub open spec fn name_matches(ws: Seq<GatewayWorkspaceInfo>, i: int, sel: Seq<char>) -> bool {
    0 <= i < ws.len() && same_ignoring_case(ws[i].name@, sel)
}

/// Route of a workspace: `/w/<id>/mcp`.
pub open spec fn route_of(id: Seq<char>) -> Seq<char> {
    "/w/"@ + id + "/mcp"@
}

/// Accepts a workspace id, `w/<id>`, `/w/<id>/mcp` or a name: trims
/// whitespace and slashes, then one `w/` prefix and one `/mcp` suffix, then
/// slashes again.
pub open spec fn normalize_selector(s: Seq<char>) -> Seq<char> {
    let a = strip_both(trim(s), CharClass::Is('/'));
    let b = strip_prefix_or_keep(a, "w/"@);
    let c = strip_suffix_or_keep(b, "/mcp"@);
    strip_both(c, CharClass::Is('/'))
}

pub open spec fn not_found_message(sel: Seq<char>) -> Seq<char> {
    "找不到工作区: "@ + sel
}

pub open spec fn ambiguous_message(sel: Seq<char>) -> Seq<char> {
    "存在多个同名工作区“"@ + sel + "”，请使用 workspace id"@
}

pub open spec fn unselected_message() -> Seq<char> {
    "尚未为当前会话选择工作区；先调用 list_workspaces，再调用 select_workspace。"@
}

/// Which workspace a selector designates: an exact id first, otherwise the
/// unique workspace whose name equals the selector ignoring ASCII case.
pub open spec fn resolve_id(ws: Seq<GatewayWorkspaceInfo>, selector: Seq<char>) -> Result<
    Seq<char>,
    Seq<char>,
> {
    let n = normalize_selector(selector);
    if has_id(ws, n) {
        Ok(n)
    } else if exists|i: int, j: int| i != j && name_matches(ws, i, n) && name_matches(ws, j, n) {
        Err(ambiguous_message(n))
    } else if exists|i: int| name_matches(ws, i, n) {
        Ok(ws[choose|i: int| name_matches(ws, i, n)].id@)
    } else {
        Err(not_found_message(n))
    }
}

/// Binding of a session key: the selected workspace id and selection time.
pub type Binding = (Seq<char>, u128);

/// Which workspace a request is routed to.
pub open spec fn resolve_request(
    ws: Seq<GatewayWorkspaceInfo>,
    sessions: Map<Seq<char>, Binding>,
    auto_select: bool,
    session_key: Option<Seq<char>>,
    forced: Option<Seq<char>>,
) -> Result<Seq<char>, Seq<char>> {
    match forced {
        Some(f) => resolve_id(ws, f),
        None => {
            if session_key is Some && trim(session_key->0).len() > 0 && sessions.contains_key(
                session_key->0,
            ) && has_id(ws, sessions[session_key->0].0) {
                Ok(sessions[session_key->0].0)
            } else if auto_select && ws.len() == 1 {
                Ok(ws[0].id@)
            } else {
                Err(unselected_message())
            }
        },
    }
}

/// Workspace order of `list_workspaces`: by ASCII-lowercased name, then id.
pub open spec fn ws_before(a: GatewayWorkspaceInfo, b: GatewayWorkspaceInfo) -> bool {
    seq_lt(lower(a.name@), lower(b.name@)) || (lower(a.name@) == lower(b.name@) && seq_lt(
        a.id@,
        b.id@,
    ))
}

pub open spec fn ws_sorted(s: Seq<GatewayWorkspaceInfo>) -> bool {
    forall|i: int, j: int| 0 <= i < j < s.len() ==> !ws_before(s[j], s[i])
}

/// Insert-or-replace by id: a later profile with the same id replaces the
/// earlier one in place.
pub open spec fn upsert(ws: Seq<GatewayWorkspaceInfo>, x: GatewayWorkspaceInfo) -> Seq<
    GatewayWorkspaceInfo,
> {
    if has_id(ws, x.id@) {
        ws.update(choose|i: int| 0 <= i < ws.len() && ws[i].id@ == x.id@, x)
    } else {
        ws.push(x)
    }
}

pub open spec fn info_matches_profile(w: GatewayWorkspaceInfo, p: WorkspaceProfile) -> bool {
    &&& w.id@ == p.id@
    &&& w.name@ == p.name@
    &&& w.path@ == p.path@
    &&& w.route@ == route_of(p.id@)
}

/// The registry built from profiles in order, later ids replacing earlier.
pub open spec fn registry_of(
    profiles: Seq<WorkspaceProfile>,
    infos: Seq<GatewayWorkspaceInfo>,
) -> bool
    decreases profiles.len(),
{
    if profiles.len() == 0 {
        infos.len() == 0
    } else {
        exists|prev: Seq<GatewayWorkspaceInfo>, x: GatewayWorkspaceInfo|
            registry_of(profiles.drop_last(), prev) && info_matches_profile(x, profiles.last())
                && infos == upsert(prev, x)
    }
}

// ---------------------------------------------------------------------------
// Session table specification
// ---------------------------------------------------------------------------

spec fn keys_unique(s: Seq<SessionEntry>) -> bool {
    forall|i: int, j: int| 0 <= i < s.len() && 0 <= j < s.len() && i != j ==> s[i].key@ != s[j].key@
}

spec fn entry_view(e: SessionEntry) -> Binding {
    (e.binding.workspace_id@, e.binding.selected_at_unix_ms)
}

spec fn key_at(s: Seq<SessionEntry>, k: Seq<char>) -> int {
    choose|i: int| 0 <= i < s.len() && s[i].key@ == k
}

spec fn smap(s: Seq<SessionEntry>) -> Map<Seq<char>, Binding> {
    Map::new(
        |k: Seq<char>| exists|i: int| 0 <= i < s.len() && s[i].key@ == k,
        |k: Seq<char>| entry_view(s[key_at(s, k)]),
    )
}

proof fn lemma_smap_at(s: Seq<SessionEntry>, i: int)
    requires
        keys_unique(s),
        0 <= i < s.len(),
    ensures
        smap(s).contains_key(s[i].key@),
        smap(s)[s[i].key@] == entry_view(s[i]),
{
    let k = s[i].key@;
    assert(smap(s).dom().contains(k));
    let j = key_at(s, k);
    assert(s[j].key@ == k);
}

/// The session table's keys are exactly the keys of the entries: finitely
/// many, one per entry.
proof fn lemma_smap_dom(s: Seq<SessionEntry>)
    requires
        keys_unique(s),
    ensures
        smap(s).dom().finite(),
        smap(s).dom().len() == s.len(),
{
    let keys = s.map_values(|e: SessionEntry| e.key@);
    assert(keys.no_duplicates());
    keys.unique_seq_to_set();
    assert forall|k: Seq<char>| #[trigger] keys.to_set().contains(k) == smap(s).dom().contains(k) by {
        if keys.to_set().contains(k) {
            let i = choose|i: int| 0 <= i < keys.len() && keys[i] == k;
            assert(s[i].key@ == k);
        }
        if smap(s).dom().contains(k) {
            let i = key_at(s, k);
            assert(keys[i] == k);
        }
    }
    assert(keys.to_set() =~= smap(s).dom());
}

proof fn lemma_smap_push(s: Seq<SessionEntry>, e: SessionEntry)
    requires
        keys_unique(s),
        !smap(s).contains_key(e.key@),
    ensures
        keys_unique(s.push(e)),
        smap(s.push(e)) == smap(s).insert(e.key@, entry_view(e)),
{
    let t = s.push(e);
    assert(keys_unique(t)) by {
        assert forall|i: int, j: int|
            0 <= i < t.len() && 0 <= j < t.len() && i != j implies t[i].key@ != t[j].key@ by {
            if i < s.len() && j < s.len() {
            } else if i < s.len() {
                assert(smap(s).dom().contains(s[i].key@));
            } else {
                assert(smap(s).dom().contains(s[j].key@));
            }
        }
    }
    assert forall|k: Seq<char>| #[trigger]
        smap(t).contains_key(k) == smap(s).insert(e.key@, entry_view(e)).contains_key(k) by {
        if smap(s).contains_key(k) {
            let i = key_at(s, k);
            assert(t[i].key@ == k);
        }
        if smap(t).contains_key(k) && k != e.key@ {
            let i = key_at(t, k);
            assert(i < s.len());
            assert(s[i].key@ == k);
        }
        if k == e.key@ {
            assert(t[s.len() as int].key@ == k);
        }
    }
    assert forall|k: Seq<char>| smap(t).contains_key(k) implies #[trigger] smap(t)[k] == smap(
        s,
    ).insert(e.key@, entry_view(e))[k] by {
        if k == e.key@ {
            lemma_smap_at(t, s.len() as int);
        } else {
            let i = key_at(t, k);
            assert(i < s.len());
            lemma_smap_at(t, i);
            lemma_smap_at(s, i);
        }
    }
    assert(smap(t) =~= smap(s).insert(e.key@, entry_view(e)));
}

proof fn lemma_smap_update(s: Seq<SessionEntry>, i: int, e: SessionEntry)
    requires
        keys_unique(s),
        0 <= i < s.len(),
        s[i].key@ == e.key@,
    ensures
        keys_unique(s.update(i, e)),
        smap(s.update(i, e)) == smap(s).insert(e.key@, entry_view(e)),
{
    let t = s.update(i, e);
    assert(keys_unique(t)) by {
        assert forall|a: int, b: int|
            0 <= a < t.len() && 0 <= b < t.len() && a != b implies t[a].key@ != t[b].key@ by {
            assert(t[a].key@ == s[a].key@);
            assert(t[b].key@ == s[b].key@);
        }
    }
    assert forall|k: Seq<char>| #[trigger]
        smap(t).contains_key(k) == smap(s).insert(e.key@, entry_view(e)).contains_key(k) by {
        if smap(s).contains_key(k) {
            let j = key_at(s, k);
            assert(t[j].key@ == k);
        }
        if smap(t).contains_key(k) {
            let j = key_at(t, k);
            assert(s[j].key@ == k);
        }
        if k == e.key@ {
            assert(t[i].key@ == k);
        }
    }
    assert forall|k: Seq<char>| smap(t).contains_key(k) implies #[trigger] smap(t)[k] == smap(
        s,
    ).insert(e.key@, entry_view(e))[k] by {
        let j = key_at(t, k);
        lemma_smap_at(t, j);
        if j != i {
            lemma_smap_at(s, j);
        }
    }
    assert(smap(t) =~= smap(s).insert(e.key@, entry_view(e)));
}

proof fn lemma_smap_remove(s: Seq<SessionEntry>, i: int)
    requires
        keys_unique(s),
        0 <= i < s.len(),
    ensures
        keys_unique(s.remove(i)),
        smap(s.remove(i)) == smap(s).remove(s[i].key@),
{
    let t = s.remove(i);
    let gone = s[i].key@;
    assert(keys_unique(t)) by {
        assert forall|a: int, b: int|
            0 <= a < t.len() && 0 <= b < t.len() && a != b implies t[a].key@ != t[b].key@ by {
            let a2 = if a < i {
                a
            } else {
                a + 1
            };
            let b2 = if b < i {
                b
            } else {
                b + 1
            };
            assert(t[a] == s[a2]);
            assert(t[b] == s[b2]);
        }
    }
    assert forall|k: Seq<char>| #[trigger]
        smap(t).contains_key(k) == smap(s).remove(gone).contains_key(k) by {
        if smap(s).contains_key(k) && k != gone {
            let j = key_at(s, k);
            assert(j != i);
            let j2 = if j < i {
                j
            } else {
                j - 1
            };
            assert(t[j2] == s[j]);
        }
        if smap(t).contains_key(k) {
            let j = key_at(t, k);
            let j2 = if j < i {
                j
            } else {
                j + 1
            };
            assert(t[j] == s[j2]);
            assert(j2 != i);
        }
    }
    assert forall|k: Seq<char>| smap(t).contains_key(k) implies #[trigger] smap(t)[k] == smap(
        s,
    ).remove(gone)[k] by {
        let j = key_at(t, k);
        let j2 = if j < i {
            j
        } else {
            j + 1
        };
        assert(t[j] == s[j2]);
        lemma_smap_at(t, j);
        lemma_smap_at(s, j2);
    }
    assert(smap(t) =~= smap(s).remove(gone));
}

impl GatewayState {
    /// The registered workspaces, in registration order.
    pub closed spec fn registry(&self) -> Seq<GatewayWorkspaceInfo> {
        self.workspaces@
    }

    /// The session table: session key to (workspace id, selection time).
    pub closed spec fn bindings(&self) -> Map<Seq<char>, Binding> {
        smap(self.sessions@)
    }

    /// The tool catalog profile the gateway exposes.
    pub closed spec fn profile(&self) -> String {
        self.tool_profile
    }

    /// Whether a lone workspace is used without an explicit selection.
    pub closed spec fn auto_select(&self) -> bool {
        self.auto_select_single_workspace
    }

    pub fn tool_profile(&self) -> (r: &String)
        ensures
            *r == self.profile(),
    {
        &self.tool_profile
    }

    pub fn auto_select_single_workspace(&self) -> (r: bool)
        ensures
            r == self.auto_select(),
    {
        self.auto_select_single_workspace
    }

    pub closed spec fn wf(&self) -> bool {
        &&& ids_unique(self.workspaces@)
        &&& keys_unique(self.sessions@)
        &&& forall|i: int|
            0 <= i < self.sessions@.len() ==> has_id(
                self.workspaces@,
                #[trigger] self.sessions@[i].binding.workspace_id@,
            )
    }

    /// Law: every state the gateway keeps lists each workspace id once.
    pub proof fn law_registry_ids_unique(&self)
        requires
            self.wf(),
        ensures
            ids_unique(self.registry()),
    {
    }

    /// Law: the session table is finite, and every session is bound to a
    /// registered workspace.
    pub proof fn law_sessions_bound_to_registry(&self)
        requires
            self.wf(),
        ensures
            self.bindings().dom().finite(),
            forall|k: Seq<char>|
                #[trigger] self.bindings().contains_key(k) ==> has_id(self.registry(), self.bindings()[k].0),
    {
        lemma_smap_dom(self.sessions@);
        assert forall|k: Seq<char>|
            #[trigger] self.bindings().contains_key(k) implies has_id(self.registry(), self.bindings()[k].0) by {
            let i = key_at(self.sessions@, k);
            lemma_smap_at(self.sessions@, i);
            assert(has_id(self.workspaces@, self.sessions@[i].binding.workspace_id@));
        }
    }
}

/// `result` carries the same value or message as the specification `spec`.
pub open spec fn same_result(result: Result<String, String>, spec: Result<Seq<char>, Seq<char>>) -> bool {
    match spec {
        Ok(v) => result is Ok && result->Ok_0@ == v,
        Err(m) => result is Err && result->Err_0@ == m,
    }
}

/// `eq_ignore_ascii_case`.
pub fn eq_ignore_ascii_case(a: &[char], b: &[char]) -> (r: bool)
    ensures
        r == same_ignoring_case(a@, b@),
{
    let la = lower_vec(a);
    let lb = lower_vec(b);
    eq_vec(&la, &lb)
}

fn normalize_selector_vec(selector: &[char]) -> (r: Vec<char>)
    ensures
        r@ == normalize_selector(selector@),
{
    let t = trim_vec(selector);
    let a = strip_both_vec(&t, CharClass::Is('/'));
    let wp = chars_of("w/");
    let b = strip_prefix_vec(&a, &wp);
    let mcp = chars_of("/mcp");
    let c = strip_suffix_vec(&b, &mcp);
    strip_both_vec(&c, CharClass::Is('/'))
}

/// Reduces `/w/<id>/mcp`, `w/<id>` or `<id>` (with surrounding whitespace
/// or slashes) to the bare selector.
pub fn normalize_workspace_selector(selector: &str) -> (r: String)
    ensures
        r@ == normalize_selector(selector@),
{
    let v = chars_of(selector);
    string_of(&normalize_selector_vec(&v))
}

fn route_for(id: &[char]) -> (r: Vec<char>)
    ensures
        r@ == route_of(id@),
{
    let a = cat(&chars_of("/w/"), id);
    cat(&a, &chars_of("/mcp"))
}

fn find_id(ws: &Vec<GatewayWorkspaceInfo>, id: &[char]) -> (r: Option<usize>)
    ensures
        match r {
            Some(i) => i < ws@.len() && ws@[i as int].id@ == id@,
            None => !has_id(ws@, id@),
        },
{
    let mut i: usize = 0;
    while i < ws.len()
        invariant
            0 <= i <= ws@.len(),
            forall|j: int| 0 <= j < i ==> ws@[j].id@ != id@,
        decreases ws.len() - i,
    {
        let wid = chars_of_string(&ws[i].id);
        if eq_vec(&wid, id) {
            return Some(i);
        }
        i = i + 1;
    }
    None
}

proof fn lemma_info_for(ws: Seq<GatewayWorkspaceInfo>, i: int)
    requires
        ids_unique(ws),
        0 <= i < ws.len(),
    ensures
        has_id(ws, ws[i].id@),
        info_for(ws, ws[i].id@) == ws[i],
{
    let id = ws[i].id@;
    assert(has_id(ws, id));
    let j = choose|j: int| 0 <= j < ws.len() && ws[j].id@ == id;
    assert(j == i);
}

proof fn lemma_upsert(ws: Seq<GatewayWorkspaceInfo>, x: GatewayWorkspaceInfo, i: int)
    requires
        ids_unique(ws),
        0 <= i < ws.len(),
        ws[i].id@ == x.id@,
    ensures
        upsert(ws, x) == ws.update(i, x),
{
    let j = choose|j: int| 0 <= j < ws.len() && ws[j].id@ == x.id@;
    assert(j == i);
}

proof fn lemma_unique_after_upsert(ws: Seq<GatewayWorkspaceInfo>, x: GatewayWorkspaceInfo)
    requires
        ids_unique(ws),
    ensures
        ids_unique(upsert(ws, x)),
        has_id(upsert(ws, x), x.id@),
{
    if has_id(ws, x.id@) {
        let i = choose|i: int| 0 <= i < ws.len() && ws[i].id@ == x.id@;
        let t = ws.update(i, x);
        assert forall|a: int, b: int|
            0 <= a < t.len() && 0 <= b < t.len() && a != b implies t[a].id@ != t[b].id@ by {
            assert(t[a].id@ == ws[a].id@);
            assert(t[b].id@ == ws[b].id@);
        }
        assert(t[i].id@ == x.id@);
    } else {
        let t = ws.push(x);
        assert forall|a: int, b: int|
            0 <= a < t.len() && 0 <= b < t.len() && a != b implies t[a].id@ != t[b].id@ by {
            if a == ws.len() {
                assert(!(0 <= b < ws.len() && ws[b].id@ == x.id@));
            }
            if b == ws.len() {
                assert(!(0 <= a < ws.len() && ws[a].id@ == x.id@));
            }
        }
        assert(t[ws.len() as int].id@ == x.id@);
    }
}

pub open spec fn empty_registry_message() -> Seq<char> {
    "Gateway 至少需要一个已注册工作区"@
}

/// The outcome of the path check of the profile at position `i`: the
/// refusal text, or `None` when the path is usable or no outcome is given.
pub open spec fn path_error_at(errors: Seq<Option<String>>, i: int) -> Option<Seq<char>> {
    if 0 <= i < errors.len() {
        match errors[i] {
            Some(e) => Some(e@),
            None => None,
        }
    } else {
        None
    }
}

/// The refusal of a workspace whose path is unusable.
pub open spec fn unusable_workspace_message(name: Seq<char>, error: Seq<char>) -> Seq<char> {
    "工作区“"@ + name + "”不可用: "@ + error
}

impl GatewayState {
    /// Builds the registry from the profiles (a later profile replaces an
    /// earlier one with the same id).  `path_errors[i]` is the outcome of
    /// the check of profile `i`'s workspace path (`Some` with the refusal
    /// text when the path is unusable; a profile without an entry counts as
    /// usable).  Fails when there is no profile, and otherwise at the first
    /// profile whose path is unusable.
    pub fn new(
        profiles: &Vec<WorkspaceProfile>,
        path_errors: &Vec<Option<String>>,
        config: &GatewayConfig,
    ) -> (r: Result<GatewayState, String>)
        ensures
            profiles@.len() == 0 ==> (r matches Err(m) && m@ == empty_registry_message()),
            forall|i: int|
                0 <= i < profiles@.len() && #[trigger] path_error_at(path_errors@, i) is Some && (forall|j: int|
                    0 <= j < i ==> path_error_at(path_errors@, j) is None) ==> (r matches Err(m) && m@
                    == unusable_workspace_message(profiles@[i].name@, path_error_at(path_errors@, i)->0)),
            profiles@.len() > 0 && (forall|i: int|
                0 <= i < profiles@.len() ==> #[trigger] path_error_at(path_errors@, i) is None) ==> r is Ok,
            r matches Ok(st) ==> {
                &&& profiles@.len() > 0
                &&& forall|i: int| 0 <= i < profiles@.len() ==> #[trigger] path_error_at(path_errors@, i) is None
                &&& st.wf()
                &&& registry_of(profiles@, st.registry())
                &&& st.bindings() == Map::<Seq<char>, Binding>::empty()
                &&& st.profile() == config.tool_profile
                &&& st.auto_select() == config.auto_select_single_workspace
            },
    {
        if profiles.len() == 0 {
            return Err(string_of(&chars_of("Gateway 至少需要一个已注册工作区")));
        }
        let mut k: usize = 0;
        while k < profiles.len()
            invariant
                0 <= k <= profiles@.len(),
                forall|j: int| 0 <= j < k ==> #[trigger] path_error_at(path_errors@, j) is None,
            decreases profiles.len() - k,
        {
            if k < path_errors.len() {
                match &path_errors[k] {
                    Some(e) => {
                        let m = string_of(
                            &cat(
                                &cat(&cat(&chars_of("工作区“"), &chars_of_string(&profiles[k].name)), &chars_of("”不可用: ")),
                                &chars_of_string(e),
                            ),
                        );
                        proof {
                            assert(path_error_at(path_errors@, k as int) == Some(e@));
                            assert forall|i: int|
                                0 <= i < profiles@.len() && #[trigger] path_error_at(path_errors@, i) is Some && (forall|j: int|
                                    0 <= j < i ==> path_error_at(path_errors@, j) is None) implies i == k by {
                                if i < k {
                                } else if i > k {
                                    assert(path_error_at(path_errors@, k as int) is None);
                                }
                            }
                        }
                        return Err(m);
                    },
                    None => {},
                }
            }
            k = k + 1;
        }
        let mut ws: Vec<GatewayWorkspaceInfo> = Vec::new();
        let mut i: usize = 0;
        assert(profiles@.take(0).len() == 0);
        while i < profiles.len()
            invariant
                0 <= i <= profiles@.len(),
                ids_unique(ws@),
                registry_of(profiles@.take(i as int), ws@),
            decreases profiles.len() - i,
        {
            let p = &profiles[i];
            let idv = chars_of_string(&p.id);
            let x = GatewayWorkspaceInfo {
                id: p.id.clone(),
                name: p.name.clone(),
                path: p.path.clone(),
                route: string_of(&route_for(&idv)),
            };
            let ghost prev = ws@;
            match find_id(&ws, &idv) {
                Some(j) => {
                    proof {
                        lemma_upsert(prev, x, j as int);
                    }
                    ws.set(j, x);
                },
                None => {
                    ws.push(x);
                },
            }
            proof {
                lemma_unique_after_upsert(prev, x);
                let t = profiles@.take(i + 1);
                assert(t.drop_last() =~= profiles@.take(i as int));
                assert(t.last() == profiles@[i as int]);
                assert(info_matches_profile(x, t.last()));
                assert(ws@ == upsert(prev, x));
            }
            i = i + 1;
        }
        assert(profiles@.take(profiles.len() as int) =~= profiles@);
        let st = GatewayState {
            workspaces: ws,
            sessions: Vec::new(),
            tool_profile: config.tool_profile.clone(),
            auto_select_single_workspace: config.auto_select_single_workspace,
        };
        assert(st.bindings() =~= Map::<Seq<char>, Binding>::empty());
        Ok(st)
    }

    pub fn workspace_count(&self) -> (r: usize)
        ensures
            r == self.registry().len(),
    {
        self.workspaces.len()
    }

    pub fn session_count(&self) -> (r: usize)
        requires
            self.wf(),
        ensures
            r == self.bindings().dom().len(),
    {
        proof {
            lemma_smap_dom(self.sessions@);
        }
        self.sessions.len()
    }

    fn find_session(&self, key: &[char]) -> (r: Option<usize>)
        requires
            self.wf(),
        ensures
            match r {
                Some(i) => i < self.sessions@.len() && self.sessions@[i as int].key@ == key@,
                None => !self.bindings().contains_key(key@),
            },
    {
        let mut i: usize = 0;
        while i < self.sessions.len()
            invariant
                0 <= i <= self.sessions@.len(),
                forall|j: int| 0 <= j < i ==> self.sessions@[j].key@ != key@,
            decreases self.sessions.len() - i,
        {
            let k = chars_of_string(&self.sessions[i].key);
            if eq_vec(&k, key) {
                return Some(i);
            }
            i = i + 1;
        }
        None
    }

    /// Forgets the workspace binding of `session_key`; reports whether one
    /// existed.
    pub fn clear_session(&mut self, session_key: &str) -> (r: Result<bool, String>)
        requires
            old(self).wf(),
        ensures
            final(self).wf(),
            r == Ok::<bool, String>(old(self).bindings().contains_key(session_key@)),
            final(self).bindings() == old(self).bindings().remove(session_key@),
            final(self).bindings() == after_binding_call(
                old(self).registry(),
                old(self).bindings(),
                BindingCall::Clear { key: session_key@ },
            ),
            final(self).bindings().dom().len() == old(self).bindings().dom().len() - (if old(
                self,
            ).bindings().contains_key(session_key@) {
                1int
            } else {
                0int
            }),
            final(self).registry() == old(self).registry(),
            final(self).profile() == old(self).profile(),
            final(self).auto_select() == old(self).auto_select(),
    {
        proof {
            lemma_smap_dom(self.sessions@);
        }
        let key = chars_of(session_key);
        match self.find_session(&key) {
            Some(i) => {
                proof {
                    lemma_smap_remove(self.sessions@, i as int);
                    lemma_smap_at(self.sessions@, i as int);
                }
                self.sessions.remove(i);
                Ok(true)
            },
            None => {
                assert(smap(self.sessions@).remove(session_key@) =~= smap(self.sessions@));
                Ok(false)
            },
        }
    }

    /// Which workspace `selector` designates (see `resolve_id`).
    pub fn resolve_workspace_id(&self, selector: &str) -> (r: Result<String, String>)
        requires
            self.wf(),
        ensures
            same_result(r, resolve_id(self.registry(), selector@)),
    {
        let sel = chars_of(selector);
        let n = normalize_selector_vec(&sel);
        let ghost ws = self.workspaces@;
        if let Some(_) = find_id(&self.workspaces, &n) {
            return Ok(string_of(&n));
        }
        let mut first: Option<usize> = None;
        let mut i: usize = 0;
        while i < self.workspaces.len()
            invariant
                0 <= i <= ws.len(),
                ws == self.workspaces@,
                !has_id(ws, n@),
                n@ == normalize_selector(selector@),
                match first {
                    Some(f) => f < i && name_matches(ws, f as int, n@) && forall|j: int|
                        0 <= j < i && j != f ==> !name_matches(ws, j, n@),
                    None => forall|j: int| 0 <= j < i ==> !name_matches(ws, j, n@),
                },
            decreases ws.len() - i,
        {
            let name = chars_of_string(&self.workspaces[i].name);
            if eq_ignore_ascii_case(&name, &n) {
                match first {
                    Some(f) => {
                        assert(name_matches(ws, f as int, n@) && name_matches(ws, i as int, n@));
                        assert(exists|a: int, b: int|
                            a != b && name_matches(ws, a, n@) && name_matches(ws, b, n@));
                        let m = cat(&chars_of("存在多个同名工作区“"), &n);
                        return Err(string_of(&cat(&m, &chars_of("”，请使用 workspace id"))));
                    },
                    None => {
                        first = Some(i);
                    },
                }
            }
            i = i + 1;
        }
        match first {
            Some(f) => {
                assert(exists|a: int| name_matches(ws, a, n@));
                let ghost c = choose|a: int| name_matches(ws, a, n@);
                assert(c == f);
                Ok(self.workspaces[f].id.clone())
            },
            None => {
                Err(string_of(&cat(&chars_of("找不到工作区: "), &n)))
            },
        }
    }
}

pub open spec fn opt_view(o: Option<&str>) -> Option<Seq<char>> {
    match o {
        Some(s) => Some(s@),
        None => None,
    }
}

pub proof fn lemma_resolved_id_registered(ws: Seq<GatewayWorkspaceInfo>, selector: Seq<char>)
    ensures
        resolve_id(ws, selector) matches Ok(id) ==> has_id(ws, id),
{
    let n = normalize_selector(selector);
    if !has_id(ws, n) && !(exists|i: int, j: int|
        i != j && name_matches(ws, i, n) && name_matches(ws, j, n)) && exists|i: int|
        name_matches(ws, i, n) {
        let c = choose|i: int| name_matches(ws, i, n);
        assert(0 <= c < ws.len() && ws[c].id@ == ws[c].id@);
    }
}

pub proof fn lemma_request_id_registered(
    ws: Seq<GatewayWorkspaceInfo>,
    sessions: Map<Seq<char>, Binding>,
    auto_select: bool,
    session_key: Option<Seq<char>>,
    forced: Option<Seq<char>>,
)
    ensures
        resolve_request(ws, sessions, auto_select, session_key, forced) matches Ok(id) ==> has_id(
            ws,
            id,
        ),
{
    match forced {
        Some(f) => lemma_resolved_id_registered(ws, f),
        None => {
            if auto_select && ws.len() == 1 {
                assert(0 <= 0 < ws.len() && ws[0].id@ == ws[0].id@);
            }
        },
    }
}


impl GatewayState {
    /// Binds `session_key` to the workspace `selector` designates, stamped
    /// with `now`.
    pub fn select_workspace_at(&mut self, session_key: &str, selector: &str, now: u128) -> (r:
        Result<GatewayWorkspaceInfo, String>)
        requires
            old(self).wf(),
        ensures
            final(self).wf(),
            final(self).registry() == old(self).registry(),
            final(self).profile() == old(self).profile(),
            final(self).auto_select() == old(self).auto_select(),
            final(self).bindings() == after_binding_call(
                old(self).registry(),
                old(self).bindings(),
                BindingCall::Select { key: session_key@, selector: selector@, now },
            ),
            match resolve_id(old(self).registry(), selector@) {
                Ok(id) => {
                    &&& r == Ok::<GatewayWorkspaceInfo, String>(info_for(old(self).registry(), id))
                    &&& final(self).bindings() == old(self).bindings().insert(
                        session_key@,
                        (id, now),
                    )
                },
                Err(m) => {
                    &&& r is Err
                    &&& r->Err_0@ == m
                    &&& final(self).bindings() == old(self).bindings()
                },
            },
    {
        let resolved = self.resolve_workspace_id(selector);
        proof {
            lemma_resolved_id_registered(self.workspaces@, selector@);
        }
        let id = match resolved {
            Ok(id) => id,
            Err(e) => {
                return Err(e);
            },
        };
        let idv = chars_of_string(&id);
        let idx = match find_id(&self.workspaces, &idv) {
            Some(i) => i,
            None => {
                return Err(string_of(&cat(&chars_of("workspace not found: "), &idv)));
            },
        };
        proof {
            lemma_info_for(self.workspaces@, idx as int);
        }
        let info = self.workspaces[idx].copy();
        let key = chars_of(session_key);
        let entry = SessionEntry {
            key: string_of(&key),
            binding: SessionBinding { workspace_id: id, selected_at_unix_ms: now },
        };
        match self.find_session(&key) {
            Some(i) => {
                proof {
                    lemma_smap_update(self.sessions@, i as int, entry);
                }
                self.sessions.set(i, entry);
            },
            None => {
                proof {
                    lemma_smap_push(self.sessions@, entry);
                }
                self.sessions.push(entry);
            },
        }
        Ok(info)
    }

    /// Binds `session_key` to the workspace `selector` designates, stamped
    /// with the current time.
    pub fn select_workspace(&mut self, session_key: &str, selector: &str) -> (r: Result<
        GatewayWorkspaceInfo,
        String,
    >)
        requires
            old(self).wf(),
        ensures
            final(self).wf(),
            final(self).registry() == old(self).registry(),
            final(self).profile() == old(self).profile(),
            final(self).auto_select() == old(self).auto_select(),
            match resolve_id(old(self).registry(), selector@) {
                Ok(id) => {
                    &&& r == Ok::<GatewayWorkspaceInfo, String>(info_for(old(self).registry(), id))
                    &&& final(self).bindings().dom() == old(self).bindings().dom().insert(
                        session_key@,
                    )
                    &&& final(self).bindings()[session_key@].0 == id
                    &&& forall|k: Seq<char>|
                        k != session_key@ && old(self).bindings().contains_key(k) ==> #[trigger] final(self).bindings()[k] == old(self).bindings()[k]
                },
                Err(m) => {
                    &&& r is Err
                    &&& r->Err_0@ == m
                    &&& final(self).bindings() == old(self).bindings()
                },
            },
    {
        let now = crate::text::unix_time_ms();
        self.select_workspace_at(session_key, selector, now)
    }

    /// The id of the workspace a request is routed to (see `resolve_request`).
    pub fn resolve_workspace_for_request(
        &self,
        session_key: Option<&str>,
        forced_workspace: Option<&str>,
    ) -> (r: Result<String, String>)
        requires
            self.wf(),
        ensures
            same_result(
                r,
                resolve_request(
                    self.registry(),
                    self.bindings(),
                    self.auto_select(),
                    opt_view(session_key),
                    opt_view(forced_workspace),
                ),
            ),
    {
        if let Some(selector) = forced_workspace {
            return self.resolve_workspace_id(selector);
        }
        if let Some(key) = session_key {
            let kv = chars_of(key);
            let t = trim_vec(&kv);
            if t.len() > 0 {
                if let Some(i) = self.find_session(&kv) {
                    proof {
                        lemma_smap_at(self.sessions@, i as int);
                    }
                    let wid = chars_of_string(&self.sessions[i].binding.workspace_id);
                    if let Some(_) = find_id(&self.workspaces, &wid) {
                        return Ok(self.sessions[i].binding.workspace_id.clone());
                    }
                }
            }
        }
        if self.auto_select_single_workspace && self.workspaces.len() == 1 {
            return Ok(self.workspaces[0].id.clone());
        }
        Err(
            string_of(
                &chars_of("尚未为当前会话选择工作区；先调用 list_workspaces，再调用 select_workspace。"),
            ),
        )
    }

    /// The workspace a request is routed to.
    pub fn current_workspace(&self, session_key: Option<&str>, forced_workspace: Option<&str>) -> (r:
        Result<GatewayWorkspaceInfo, String>)
        requires
            self.wf(),
        ensures
            match resolve_request(
                self.registry(),
                self.bindings(),
                self.auto_select(),
                opt_view(session_key),
                opt_view(forced_workspace),
            ) {
                Ok(id) => r == Ok::<GatewayWorkspaceInfo, String>(info_for(self.registry(), id)),
                Err(m) => r is Err && r->Err_0@ == m,
            },
    {
        let id = self.resolve_workspace_for_request(session_key, forced_workspace)?;
        proof {
            lemma_request_id_registered(
                self.workspaces@,
                self.bindings(),
                self.auto_select(),
                opt_view(session_key),
                opt_view(forced_workspace),
            );
        }
        let idv = chars_of_string(&id);
        match find_id(&self.workspaces, &idv) {
            Some(i) => {
                proof {
                    lemma_info_for(self.workspaces@, i as int);
                }
                Ok(self.workspaces[i].copy())
            },
            None => Err(string_of(&cat(&chars_of("workspace not found: "), &idv))),
        }
    }
}

proof fn lemma_ws_before_transitive(a: GatewayWorkspaceInfo, b: GatewayWorkspaceInfo, c: GatewayWorkspaceInfo)
    requires
        ws_before(a, b),
        ws_before(b, c),
    ensures
        ws_before(a, c),
{
    let (la, lb, lc) = (lower(a.name@), lower(b.name@), lower(c.name@));
    if seq_lt(la, lb) && seq_lt(lb, lc) {
        lemma_seq_lt_transitive(la, lb, lc);
    } else if seq_lt(la, lb) {
    } else if seq_lt(lb, lc) {
    } else {
        lemma_seq_lt_transitive(a.id@, b.id@, c.id@);
    }
}

proof fn lemma_ws_before_asymmetric(a: GatewayWorkspaceInfo, b: GatewayWorkspaceInfo)
    requires
        ws_before(a, b),
    ensures
        !ws_before(b, a),
{
    if ws_before(b, a) {
        lemma_ws_before_transitive(a, b, a);
        lemma_seq_lt_irreflexive(lower(a.name@));
        lemma_seq_lt_irreflexive(a.id@);
    }
}

fn ws_before_exec(a: &GatewayWorkspaceInfo, b: &GatewayWorkspaceInfo) -> (r: bool)
    ensures
        r == ws_before(*a, *b),
{
    let la = lower_vec(&chars_of_string(&a.name));
    let lb = lower_vec(&chars_of_string(&b.name));
    let c = compare_chars(&la, &lb);
    if c == -1 {
        true
    } else if c == 1 {
        proof {
            lemma_seq_lt_transitive_guard(la@, lb@);
        }
        false
    } else {
        let ia = chars_of_string(&a.id);
        let ib = chars_of_string(&b.id);
        compare_chars(&ia, &ib) == -1
    }
}

proof fn lemma_seq_lt_transitive_guard(a: Seq<char>, b: Seq<char>)
    requires
        seq_lt(b, a),
    ensures
        !seq_lt(a, b),
        a != b,
{
    if seq_lt(a, b) {
        lemma_seq_lt_transitive(a, b, a);
        lemma_seq_lt_irreflexive(a);
    }
    lemma_seq_lt_irreflexive(a);
}

/// Inserts `x` into the sorted `r` after every element not above it.
fn insert_sorted_ws(r: &mut Vec<GatewayWorkspaceInfo>, x: GatewayWorkspaceInfo)
    requires
        ws_sorted(old(r)@),
    ensures
        ws_sorted(final(r)@),
        final(r)@.to_multiset() == old(r)@.to_multiset().insert(x),
{
    let mut p: usize = 0;
    while p < r.len() && !ws_before_exec(&x, &r[p])
        invariant
            0 <= p <= r@.len(),
            r@ == old(r)@,
            ws_sorted(r@),
            forall|q: int| 0 <= q < p ==> !ws_before(x, r@[q]),
        decreases r.len() - p,
    {
        p = p + 1;
    }
    let ghost s = r@;
    proof {
        if p < s.len() {
            assert(ws_before(x, s[p as int]));
        }
    }
    r.insert(p, x);
    proof {
        let t = r@;
        assert(t == s.insert(p as int, x));
        assert forall|a: int, b: int| 0 <= a < b < t.len() implies !ws_before(t[b], t[a]) by {
            if a == p {
                assert(t[b] == s[b - 1]);
                if ws_before(s[b - 1], x) {
                    if b - 1 == p {
                        lemma_ws_before_asymmetric(x, s[p as int]);
                    } else {
                        lemma_ws_before_transitive(s[b - 1], x, s[p as int]);
                    }
                }
            } else if b == p {
                assert(t[a] == s[a]);
            } else {
                let a2 = if a < p {
                    a
                } else {
                    a - 1
                };
                let b2 = if b < p {
                    b
                } else {
                    b - 1
                };
                assert(t[a] == s[a2]);
                assert(t[b] == s[b2]);
            }
        }
        vstd::seq_lib::to_multiset_insert(s, p as int, x);
    }
}

/// Sessions listed by `list_sessions`: most recently selected first.
pub open spec fn sessions_sorted(s: Seq<GatewaySessionInfo>) -> bool {
    forall|i: int, j: int| 0 <= i < j < s.len() ==> s[i].selected_at_unix_ms >= s[j].selected_at_unix_ms
}

impl GatewayState {
    /// All registered workspaces ordered by lowercased name, then id.
    pub fn list_workspaces(&self) -> (r: Vec<GatewayWorkspaceInfo>)
        ensures
            ws_sorted(r@),
            r@.to_multiset() == self.registry().to_multiset(),
    {
        let mut r: Vec<GatewayWorkspaceInfo> = Vec::new();
        let mut i: usize = 0;
        assert(self.workspaces@.take(0) =~= r@);
        while i < self.workspaces.len()
            invariant
                0 <= i <= self.workspaces@.len(),
                ws_sorted(r@),
                r@.to_multiset() == self.workspaces@.take(i as int).to_multiset(),
            decreases self.workspaces.len() - i,
        {
            let x = self.workspaces[i].copy();
            insert_sorted_ws(&mut r, x);
            proof {
                let w = self.workspaces@;
                assert(w.take(i + 1) =~= w.take(i as int).push(w[i as int]));
                vstd::seq_lib::to_multiset_build(w.take(i as int), w[i as int]);
            }
            i = i + 1;
        }
        assert(self.workspaces@.take(self.workspaces.len() as int) =~= self.workspaces@);
        r
    }
}

/// Inserts `x` into the list sorted by descending selection time, after
/// every entry selected at the same time or later.
fn insert_sorted_session(r: &mut Vec<GatewaySessionInfo>, x: GatewaySessionInfo) -> (p: usize)
    requires
        sessions_sorted(old(r)@),
    ensures
        p <= old(r)@.len(),
        final(r)@ == old(r)@.insert(p as int, x),
        sessions_sorted(final(r)@),
{
    let mut p: usize = 0;
    while p < r.len() && r[p].selected_at_unix_ms >= x.selected_at_unix_ms
        invariant
            0 <= p <= r@.len(),
            r@ == old(r)@,
            forall|q: int| 0 <= q < p ==> r@[q].selected_at_unix_ms >= x.selected_at_unix_ms,
        decreases r.len() - p,
    {
        p = p + 1;
    }
    let ghost s = r@;
    r.insert(p, x);
    proof {
        let t = r@;
        assert forall|a: int, b: int| 0 <= a < b < t.len() implies t[a].selected_at_unix_ms
            >= t[b].selected_at_unix_ms by {
            if a == p {
                assert(t[b] == s[b - 1]);
                assert(s[p as int].selected_at_unix_ms < x.selected_at_unix_ms);
                assert(s[p as int].selected_at_unix_ms >= s[b - 1].selected_at_unix_ms);
            } else if b == p {
                assert(t[a] == s[a]);
            } else {
                let a2 = if a < p {
                    a
                } else {
                    a - 1
                };
                let b2 = if b < p {
                    b
                } else {
                    b - 1
                };
                assert(t[a] == s[a2]);
                assert(t[b] == s[b2]);
            }
        }
    }
    p
}

/// `info` lists entry `e` of the session table against the registry `ws`.
spec fn lists_entry(info: GatewaySessionInfo, e: SessionEntry, ws: Seq<GatewayWorkspaceInfo>) -> bool {
    &&& info.session_key@ == e.key@
    &&& info.workspace_id@ == e.binding.workspace_id@
    &&& info.selected_at_unix_ms == e.binding.selected_at_unix_ms
    &&& has_id(ws, e.binding.workspace_id@)
    &&& info.workspace_name@ == info_for(ws, e.binding.workspace_id@).name@
}

/// `s` lists the sessions of `g`: keys distinct, each with its binding and
/// its workspace's name, every session bound to a registered workspace
/// present, most recently selected first.
pub open spec fn lists_sessions(s: Seq<GatewaySessionInfo>, g: GatewayState) -> bool {
    &&& sessions_sorted(s)
    &&& forall|i: int, j: int| 0 <= i < j < s.len() ==> s[i].session_key@ != s[j].session_key@
    &&& forall|i: int|
        0 <= i < s.len() ==> {
            let k = #[trigger] s[i].session_key@;
            &&& g.bindings().contains_key(k)
            &&& g.bindings()[k] == (s[i].workspace_id@, s[i].selected_at_unix_ms)
            &&& has_id(g.registry(), s[i].workspace_id@)
            &&& s[i].workspace_name@ == info_for(g.registry(), s[i].workspace_id@).name@
        }
    &&& forall|k: Seq<char>|
        #[trigger] g.bindings().contains_key(k) && has_id(g.registry(), g.bindings()[k].0) ==> exists|i: int|
            0 <= i < s.len() && s[i].session_key@ == k
    &&& s.len() == g.bindings().dom().len()
}

impl GatewayState {
    /// Every bound session whose workspace is registered, most recently
    /// selected first.
    pub fn list_sessions(&self) -> (r: Vec<GatewaySessionInfo>)
        requires
            self.wf(),
        ensures
            sessions_sorted(r@),
            forall|i: int, j: int|
                0 <= i < j < r@.len() ==> r@[i].session_key@ != r@[j].session_key@,
            forall|i: int|
                0 <= i < r@.len() ==> {
                    let k = #[trigger] r@[i].session_key@;
                    &&& self.bindings().contains_key(k)
                    &&& self.bindings()[k] == (r@[i].workspace_id@, r@[i].selected_at_unix_ms)
                    &&& has_id(self.registry(), r@[i].workspace_id@)
                    &&& r@[i].workspace_name@ == info_for(
                        self.registry(),
                        r@[i].workspace_id@,
                    ).name@
                },
            forall|k: Seq<char>|
                #[trigger] self.bindings().contains_key(k) && has_id(
                    self.registry(),
                    self.bindings()[k].0,
                ) ==> exists|i: int| 0 <= i < r@.len() && r@[i].session_key@ == k,
            r@.len() == self.bindings().dom().len(),
            lists_sessions(r@, *self),
    {
        proof {
            lemma_smap_dom(self.sessions@);
        }
        let ghost ss = self.sessions@;
        let ghost ws = self.workspaces@;
        let mut r: Vec<GatewaySessionInfo> = Vec::new();
        let mut n: usize = 0;
        while n < self.sessions.len()
            invariant
                0 <= n <= ss.len(),
                ss == self.sessions@,
                ws == self.workspaces@,
                keys_unique(ss),
                ids_unique(ws),
                forall|i: int| 0 <= i < ss.len() ==> has_id(ws, #[trigger] ss[i].binding.workspace_id@),
                r@.len() == n,
                sessions_sorted(r@),
                forall|i: int, j: int|
                    0 <= i < j < r@.len() ==> r@[i].session_key@ != r@[j].session_key@,
                forall|i: int|
                    0 <= i < r@.len() ==> exists|m: int|
                        0 <= m < n && lists_entry(#[trigger] r@[i], ss[m], ws),
                forall|m: int|
                    0 <= m < n && has_id(ws, #[trigger] ss[m].binding.workspace_id@) ==> exists|
                        i: int,
                    | 0 <= i < r@.len() && r@[i].session_key@ == ss[m].key@,
            decreases ss.len() - n,
        {
            let e = &self.sessions[n];
            let wid = chars_of_string(&e.binding.workspace_id);
            match find_id(&self.workspaces, &wid) {
                Some(wi) => {
                    proof {
                        lemma_info_for(ws, wi as int);
                    }
                    let info = GatewaySessionInfo {
                        session_key: e.key.clone(),
                        workspace_id: e.binding.workspace_id.clone(),
                        workspace_name: self.workspaces[wi].name.clone(),
                        selected_at_unix_ms: e.binding.selected_at_unix_ms,
                    };
                    assert(lists_entry(info, ss[n as int], ws));
                    let ghost old_r = r@;
                    let p = insert_sorted_session(&mut r, info);
                    proof {
                        let t = r@;
                        assert forall|i: int|
                            0 <= i < t.len() implies exists|m: int|
                                0 <= m < n + 1 && lists_entry(#[trigger] t[i], ss[m], ws) by {
                            if i == p {
                                assert(lists_entry(t[i], ss[n as int], ws));
                            } else {
                                let i2 = if i < p {
                                    i
                                } else {
                                    i - 1
                                };
                                assert(t[i] == old_r[i2]);
                                let m = choose|m: int|
                                    0 <= m < n && lists_entry(old_r[i2], ss[m], ws);
                                assert(lists_entry(t[i], ss[m], ws));
                            }
                        }
                        assert forall|a: int, b: int|
                            0 <= a < b < t.len() implies t[a].session_key@ != t[b].session_key@ by {
                            if a == p || b == p {
                                let o = if a == p {
                                    b
                                } else {
                                    a
                                };
                                let o2 = if o < p {
                                    o
                                } else {
                                    o - 1
                                };
                                assert(t[o] == old_r[o2]);
                                let m = choose|m: int|
                                    0 <= m < n && lists_entry(old_r[o2], ss[m], ws);
                                assert(ss[m].key@ != ss[n as int].key@);
                            } else {
                                let a2 = if a < p {
                                    a
                                } else {
                                    a - 1
                                };
                                let b2 = if b < p {
                                    b
                                } else {
                                    b - 1
                                };
                                assert(t[a] == old_r[a2]);
                                assert(t[b] == old_r[b2]);
                            }
                        }
                        assert forall|m: int|
                            0 <= m < n + 1 && has_id(
                                ws,
                                #[trigger] ss[m].binding.workspace_id@,
                            ) implies exists|i: int|
                            0 <= i < t.len() && t[i].session_key@ == ss[m].key@ by {
                            if m == n {
                                assert(t[p as int].session_key@ == ss[m].key@);
                            } else {
                                let i = choose|i: int|
                                    0 <= i < old_r.len() && old_r[i].session_key@ == ss[m].key@;
                                let i2 = if i < p {
                                    i
                                } else {
                                    i + 1
                                };
                                assert(t[i2] == old_r[i]);
                            }
                        }
                    }
                },
                None => {
                    proof {
                        assert(has_id(ws, ss[n as int].binding.workspace_id@));
                        assert forall|m: int|
                            0 <= m < n + 1 && has_id(
                                ws,
                                #[trigger] ss[m].binding.workspace_id@,
                            ) implies exists|i: int|
                            0 <= i < r@.len() && r@[i].session_key@ == ss[m].key@ by {
                            if m == n {
                                assert(false);
                            }
                        }
                    }
                },
            }
            n = n + 1;
        }
        proof {
            assert forall|i: int| 0 <= i < r@.len() implies {
                let k = #[trigger] r@[i].session_key@;
                &&& self.bindings().contains_key(k)
                &&& self.bindings()[k] == (r@[i].workspace_id@, r@[i].selected_at_unix_ms)
                &&& has_id(self.registry(), r@[i].workspace_id@)
                &&& r@[i].workspace_name@ == info_for(self.registry(), r@[i].workspace_id@).name@
            } by {
                let m = choose|m: int| 0 <= m < n && lists_entry(r@[i], ss[m], ws);
                lemma_smap_at(ss, m);
            }
            assert forall|k: Seq<char>|
                #[trigger] self.bindings().contains_key(k) && has_id(
                    self.registry(),
                    self.bindings()[k].0,
                ) implies exists|i: int| 0 <= i < r@.len() && r@[i].session_key@ == k by {
                let m = key_at(ss, k);
                lemma_smap_at(ss, m);
                assert(has_id(ws, ss[m].binding.workspace_id@));
            }
        }
        r
    }
}

// ---------------------------------------------------------------------------
// Laws
// ---------------------------------------------------------------------------

/// A conversation that selected a workspace is routed to that workspace by
/// its later requests (without a path route), whatever it was bound to
/// before; a blank session key is never looked up.
pub proof fn law_selection_routes_session(
    ws: Seq<GatewayWorkspaceInfo>,
    sessions: Map<Seq<char>, Binding>,
    auto_select: bool,
    session_key: Seq<char>,
    selector: Seq<char>,
    now: u128,
)
    requires
        trim(session_key).len() > 0,
        resolve_id(ws, selector) is Ok,
    ensures
        resolve_request(
            ws,
            sessions.insert(session_key, (resolve_id(ws, selector)->Ok_0, now)),
            auto_select,
            Some(session_key),
            None,
        ) == resolve_id(ws, selector),
{
    lemma_resolved_id_registered(ws, selector);
}

/// Conversations are routed independently: binding one session key leaves
/// the routing of every other session key unchanged.
pub proof fn law_selection_leaves_other_sessions(
    ws: Seq<GatewayWorkspaceInfo>,
    sessions: Map<Seq<char>, Binding>,
    auto_select: bool,
    session_key: Seq<char>,
    binding: Binding,
    other: Seq<char>,
)
    requires
        other != session_key,
    ensures
        resolve_request(ws, sessions.insert(session_key, binding), auto_select, Some(other), None)
            == resolve_request(ws, sessions, auto_select, Some(other), None),
{
}

/// With two or more workspaces, a request without a path route reaches a
/// workspace only through its session's own selection: an unbound or
/// missing session key is refused, whatever auto-selection says.
pub proof fn law_multiple_workspaces_need_selection(
    ws: Seq<GatewayWorkspaceInfo>,
    sessions: Map<Seq<char>, Binding>,
    auto_select: bool,
    session_key: Option<Seq<char>>,
)
    requires
        ws.len() >= 2,
        session_key matches Some(k) ==> !sessions.contains_key(k),
    ensures
        resolve_request(ws, sessions, auto_select, session_key, None) == Err::<Seq<char>, Seq<char>>(
            unselected_message(),
        ),
{
}

/// A path route (`/w/<id>/mcp`) decides the workspace on its own: the
/// session binding and auto-selection play no part.
pub proof fn law_path_route_wins(
    ws: Seq<GatewayWorkspaceInfo>,
    sessions: Map<Seq<char>, Binding>,
    auto_select: bool,
    session_key: Option<Seq<char>>,
    forced: Seq<char>,
)
    ensures
        resolve_request(ws, sessions, auto_select, session_key, Some(forced)) == resolve_id(
            ws,
            forced,
        ),
{
}

/// After its binding is cleared, a session is routed exactly as a request
/// without a session key.
pub proof fn law_cleared_session_is_unbound(
    ws: Seq<GatewayWorkspaceInfo>,
    sessions: Map<Seq<char>, Binding>,
    auto_select: bool,
    session_key: Seq<char>,
)
    ensures
        resolve_request(ws, sessions.remove(session_key), auto_select, Some(session_key), None)
            == resolve_request(ws, sessions.remove(session_key), auto_select, None, None),
{
}

/// With a single registered workspace and auto-selection on, a request
/// without a path route always reaches that workspace.
pub proof fn law_single_workspace_auto_selected(
    ws: Seq<GatewayWorkspaceInfo>,
    sessions: Map<Seq<char>, Binding>,
    session_key: Option<Seq<char>>,
)
    requires
        ws.len() == 1,
        ids_unique(ws),
    ensures
        resolve_request(ws, sessions, true, session_key, None) == Ok::<Seq<char>, Seq<char>>(
            ws[0].id@,
        ),
{
    if session_key is Some && trim(session_key->0).len() > 0 && sessions.contains_key(
        session_key->0,
    ) && has_id(ws, sessions[session_key->0].0) {
        let i = choose|i: int| 0 <= i < ws.len() && ws[i].id@ == sessions[session_key->0].0;
        assert(i == 0);
    }
}

proof fn lemma_strip_start_stops(s: Seq<char>, k: CharClass)
    requires
        s.len() > 0,
        !crate::text::in_class(k, s[0]),
    ensures
        crate::text::strip_start(s, k) == s,
{
}

proof fn lemma_strip_end_stops(s: Seq<char>, k: CharClass)
    requires
        s.len() > 0,
        !crate::text::in_class(k, s.last()),
    ensures
        crate::text::strip_end(s, k) == s,
{
}

/// The route of a workspace id normalises back to that id, provided the id
/// neither starts nor ends with `/`.
pub proof fn lemma_route_normalizes_to_id(id: Seq<char>)
    requires
        id.len() > 0 ==> id[0] != '/' && id.last() != '/',
    ensures
        normalize_selector(route_of(id)) == id,
{
    reveal_strlit("/w/");
    reveal_strlit("/mcp");
    reveal_strlit("w/");
    let s = route_of(id);
    assert(s.len() == id.len() + 7);
    assert(s[0] == '/');
    assert(s.last() == 'p');
    lemma_strip_start_stops(s, CharClass::Space);
    lemma_strip_end_stops(s, CharClass::Space);
    assert(trim(s) == s);
    let d = s.drop_first();
    assert(d[0] == 'w');
    lemma_strip_start_stops(d, CharClass::Is('/'));
    assert(crate::text::strip_start(s, CharClass::Is('/')) == d);
    assert(d.last() == 'p');
    lemma_strip_end_stops(d, CharClass::Is('/'));
    let a = strip_both(trim(s), CharClass::Is('/'));
    assert(a == d);
    assert(d =~= "w/"@ + (id + "/mcp"@));
    assert(d.subrange(0, 2) =~= "w/"@);
    let b = strip_prefix_or_keep(a, "w/"@);
    assert(b =~= id + "/mcp"@);
    assert(b.subrange(b.len() - 4, b.len() as int) =~= "/mcp"@);
    let c = strip_suffix_or_keep(b, "/mcp"@);
    assert(c =~= id);
    if id.len() > 0 {
        lemma_strip_start_stops(id, CharClass::Is('/'));
        lemma_strip_end_stops(id, CharClass::Is('/'));
    }
}

/// Selecting a registered workspace by its route `/w/<id>/mcp` selects that
/// workspace (for ids without leading or trailing `/`).
pub proof fn law_route_selects_its_workspace(ws: Seq<GatewayWorkspaceInfo>, id: Seq<char>)
    requires
        has_id(ws, id),
        id.len() > 0 ==> id[0] != '/' && id.last() != '/',
    ensures
        resolve_id(ws, route_of(id)) == Ok::<Seq<char>, Seq<char>>(id),
{
    lemma_route_normalizes_to_id(id);
}

proof fn lemma_registry_unique(profiles: Seq<WorkspaceProfile>, infos: Seq<GatewayWorkspaceInfo>)
    requires
        registry_of(profiles, infos),
    ensures
        ids_unique(infos),
    decreases profiles.len(),
{
    if profiles.len() > 0 {
        let (prev, x) = choose|prev: Seq<GatewayWorkspaceInfo>, x: GatewayWorkspaceInfo|
            registry_of(profiles.drop_last(), prev) && info_matches_profile(x, profiles.last())
                && infos == upsert(prev, x);
        lemma_registry_unique(profiles.drop_last(), prev);
        lemma_unique_after_upsert(prev, x);
    }
}

proof fn lemma_upsert_other(ws: Seq<GatewayWorkspaceInfo>, x: GatewayWorkspaceInfo, id: Seq<char>)
    requires
        ids_unique(ws),
        has_id(ws, id),
        id != x.id@,
    ensures
        has_id(upsert(ws, x), id),
        info_for(upsert(ws, x), id) == info_for(ws, id),
{
    let i = choose|i: int| 0 <= i < ws.len() && ws[i].id@ == id;
    lemma_unique_after_upsert(ws, x);
    let t = upsert(ws, x);
    assert(t[i] == ws[i]);
    lemma_info_for(t, i);
    lemma_info_for(ws, i);
}

/// Every registered profile is reachable by its id, and the workspace an id
/// reaches is the last profile registered with that id (name, path and the
/// route `/w/<id>/mcp`).
pub proof fn law_registry_holds_last_profile_per_id(
    profiles: Seq<WorkspaceProfile>,
    infos: Seq<GatewayWorkspaceInfo>,
    i: int,
)
    requires
        registry_of(profiles, infos),
        0 <= i < profiles.len(),
        forall|j: int| i < j < profiles.len() ==> profiles[j].id@ != profiles[i].id@,
    ensures
        has_id(infos, profiles[i].id@),
        info_matches_profile(info_for(infos, profiles[i].id@), profiles[i]),
    decreases profiles.len(),
{
    let (prev, x) = choose|prev: Seq<GatewayWorkspaceInfo>, x: GatewayWorkspaceInfo|
        registry_of(profiles.drop_last(), prev) && info_matches_profile(x, profiles.last())
            && infos == upsert(prev, x);
    lemma_registry_unique(profiles.drop_last(), prev);
    lemma_unique_after_upsert(prev, x);
    if i == profiles.len() - 1 {
        let t = upsert(prev, x);
        let k = choose|k: int| 0 <= k < t.len() && t[k].id@ == x.id@;
        if has_id(prev, x.id@) {
            let c = choose|c: int| 0 <= c < prev.len() && prev[c].id@ == x.id@;
            assert(t[c] == x);
            lemma_info_for(t, c);
        } else {
            assert(t[prev.len() as int] == x);
            lemma_info_for(t, prev.len() as int);
        }
    } else {
        let rest = profiles.drop_last();
        assert(rest[i] == profiles[i]);
        assert forall|j: int| i < j < rest.len() implies rest[j].id@ != rest[i].id@ by {
            assert(rest[j] == profiles[j]);
        }
        law_registry_holds_last_profile_per_id(rest, prev, i);
        assert(profiles.last().id@ != profiles[i].id@);
        lemma_upsert_other(prev, x, profiles[i].id@);
    }
}

/// A call that changes session bindings.
pub enum BindingCall {
    /// `select_workspace_at(key, selector, now)` (and `select_workspace`).
    Select { key: Seq<char>, selector: Seq<char>, now: u128 },
    /// `clear_session(key)`.
    Clear { key: Seq<char> },
}

/// The bindings after one call, over the registry `ws`.
pub open spec fn after_binding_call(
    ws: Seq<GatewayWorkspaceInfo>,
    b: Map<Seq<char>, Binding>,
    c: BindingCall,
) -> Map<Seq<char>, Binding> {
    match c {
        BindingCall::Select { key, selector, now } => match resolve_id(ws, selector) {
            Ok(id) => b.insert(key, (id, now)),
            Err(_) => b,
        },
        BindingCall::Clear { key } => b.remove(key),
    }
}

/// The bindings after a sequence of calls, first to last.
pub open spec fn after_binding_calls(
    ws: Seq<GatewayWorkspaceInfo>,
    b: Map<Seq<char>, Binding>,
    calls: Seq<BindingCall>,
) -> Map<Seq<char>, Binding>
    decreases calls.len(),
{
    if calls.len() == 0 {
        b
    } else {
        after_binding_call(ws, after_binding_calls(ws, b, calls.drop_last()), calls.last())
    }
}

/// The workspace and time of the latest successful selection for `key`
/// that no later `clear_session(key)` undid.
pub open spec fn latest_selection(
    ws: Seq<GatewayWorkspaceInfo>,
    calls: Seq<BindingCall>,
    key: Seq<char>,
) -> Option<Binding>
    decreases calls.len(),
{
    if calls.len() == 0 {
        None
    } else {
        match calls.last() {
            BindingCall::Select { key: k, selector, now } => if k == key && resolve_id(ws, selector) is Ok {
                Some((resolve_id(ws, selector)->Ok_0, now))
            } else {
                latest_selection(ws, calls.drop_last(), key)
            },
            BindingCall::Clear { key: k } => if k == key {
                None
            } else {
                latest_selection(ws, calls.drop_last(), key)
            },
        }
    }
}

proof fn lemma_bindings_follow_calls(ws: Seq<GatewayWorkspaceInfo>, calls: Seq<BindingCall>, key: Seq<char>)
    ensures
        after_binding_calls(ws, Map::empty(), calls).contains_key(key) <==> latest_selection(ws, calls, key) is Some,
        latest_selection(ws, calls, key) is Some ==> after_binding_calls(ws, Map::empty(), calls)[key]
            == latest_selection(ws, calls, key)->0,
    decreases calls.len(),
{
    if calls.len() > 0 {
        lemma_bindings_follow_calls(ws, calls.drop_last(), key);
    }
}

/// Law: for a gateway built by `new` and then changed by any sequence of
/// `select_workspace` and `clear_session` calls, the session listing has one
/// entry per session whose latest successful selection no `clear_session`
/// undid, carrying that selection's workspace (and its name) and time,
/// most recently selected first; its length is the session count.
pub proof fn law_session_listing(g: GatewayState, calls: Seq<BindingCall>, s: Seq<GatewaySessionInfo>)
    requires
        g.wf(),
        g.bindings() == after_binding_calls(g.registry(), Map::empty(), calls),
        lists_sessions(s, g),
    ensures
        forall|i: int|
            0 <= i < s.len() ==> latest_selection(g.registry(), calls, #[trigger] s[i].session_key@)
                == Some((s[i].workspace_id@, s[i].selected_at_unix_ms)) && s[i].workspace_name@
                == info_for(g.registry(), s[i].workspace_id@).name@,
        forall|k: Seq<char>|
            #[trigger] latest_selection(g.registry(), calls, k) is Some ==> exists|i: int|
                0 <= i < s.len() && s[i].session_key@ == k,
        forall|i: int, j: int| 0 <= i < j < s.len() ==> s[i].session_key@ != s[j].session_key@,
        sessions_sorted(s),
        s.len() == g.bindings().dom().len(),
{
    g.law_sessions_bound_to_registry();
    assert forall|i: int| 0 <= i < s.len() implies latest_selection(
        g.registry(),
        calls,
        #[trigger] s[i].session_key@,
    ) == Some((s[i].workspace_id@, s[i].selected_at_unix_ms)) by {
        lemma_bindings_follow_calls(g.registry(), calls, s[i].session_key@);
    }
    assert forall|k: Seq<char>| #[trigger] latest_selection(g.registry(), calls, k) is Some implies exists|i: int|
        0 <= i < s.len() && s[i].session_key@ == k by {
        lemma_bindings_follow_calls(g.registry(), calls, k);
        assert(g.bindings().contains_key(k));
    }
}

} // verus!
