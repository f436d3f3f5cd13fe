//! Where the application keeps its configuration (with the one-time move
//! from the legacy desktop directory), how programs are looked up on
//! `PATH`, and how a busy listener port is reported and waited on.

use vstd::prelude::*;

use crate::text::{cat, chars_of, decimal, decimal_of, join_path, join_path_exec, string_of};

verus! {

pub const APP_CONFIG_DIR_NAME: &'static str = "coding-tools-mcp";

pub const LEGACY_APP_CONFIG_DIR_NAME: &'static str = "coding-tools-mcp-desktop";

/// The configuration directory chosen, and a warning when the legacy
/// directory could not be moved.
pub struct AppConfigDirResolution {
    pub path: String,
    pub migration_warning: Option<String>,
}

/// The first decision: use the canonical directory, or move the legacy
/// one there first.
pub enum ConfigDirStep {
    Done(AppConfigDirResolution),
    RenameLegacy { from: String, to: String },
}

pub open spec fn canonical_dir(base: Seq<char>) -> Seq<char> {
    join_path(base, "coding-tools-mcp"@)
}

pub open spec fn legacy_dir(base: Seq<char>) -> Seq<char> {
    join_path(base, "coding-tools-mcp-desktop"@)
}

/// The canonical directory is used when it exists or when there is no
/// legacy directory; otherwise the legacy directory is to be renamed.
pub fn config_dir_start(base: &str, canonical_exists: bool, legacy_exists: bool) -> (r: ConfigDirStep)
    ensures
        match r {
            ConfigDirStep::Done(res) => (canonical_exists || !legacy_exists) && res.path@
                == canonical_dir(base@) && res.migration_warning is None,
            ConfigDirStep::RenameLegacy { from, to } => !canonical_exists && legacy_exists && from@
                == legacy_dir(base@) && to@ == canonical_dir(base@),
        },
{
    let b = chars_of(base);
    let canonical = join_path_exec(&b, APP_CONFIG_DIR_NAME);
    if canonical_exists || !legacy_exists {
        return ConfigDirStep::Done(
            AppConfigDirResolution { path: string_of(&canonical), migration_warning: None },
        );
    }
    ConfigDirStep::RenameLegacy {
        from: string_of(&join_path_exec(&b, LEGACY_APP_CONFIG_DIR_NAME)),
        to: string_of(&canonical),
    }
}

pub open spec fn migration_warning_text(legacy: Seq<char>, canonical: Seq<char>, error: Seq<char>) -> Seq<
    char,
> {
    "配置目录迁移失败（"@ + legacy + " -> "@ + canonical + "）："@ + error + "；本次继续使用旧目录"@
}

/// After the rename: the canonical directory when it succeeded or the
/// canonical directory exists anyway; otherwise stay on the legacy
/// directory and warn.
pub fn config_dir_after_rename(base: &str, rename_error: Option<&str>, canonical_exists: bool) -> (r:
    AppConfigDirResolution)
    ensures
        match rename_error {
            None => r.path@ == canonical_dir(base@) && r.migration_warning is None,
            Some(e) => if canonical_exists {
                r.path@ == canonical_dir(base@) && r.migration_warning is None
            } else {
                r.path@ == legacy_dir(base@) && (r.migration_warning matches Some(w) && w@
                    == migration_warning_text(legacy_dir(base@), canonical_dir(base@), e@))
            },
        },
{
    let b = chars_of(base);
    let canonical = join_path_exec(&b, APP_CONFIG_DIR_NAME);
    match rename_error {
        None => AppConfigDirResolution { path: string_of(&canonical), migration_warning: None },
        Some(e) => {
            if canonical_exists {
                AppConfigDirResolution { path: string_of(&canonical), migration_warning: None }
            } else {
                let legacy = join_path_exec(&b, LEGACY_APP_CONFIG_DIR_NAME);
                let w = cat(&chars_of("配置目录迁移失败（"), &legacy);
                let w = cat(&w, &chars_of(" -> "));
                let w = cat(&w, &canonical);
                let w = cat(&w, &chars_of("）："));
                let w = cat(&w, &chars_of(e));
                let w = cat(&w, &chars_of("；本次继续使用旧目录"));
                AppConfigDirResolution { path: string_of(&legacy), migration_warning: Some(string_of(&w)) }
            }
        },
    }
}

/// Law: the configuration directory is always the canonical or the legacy
/// one, and the legacy one only after a failed move that left no canonical
/// directory behind.
pub proof fn law_config_dir_is_canonical_unless_move_failed(
    base: Seq<char>,
    rename_error: Option<Seq<char>>,
    canonical_exists: bool,
    path: Seq<char>,
)
    requires
        match rename_error {
            None => path == canonical_dir(base),
            Some(e) => path == if canonical_exists {
                canonical_dir(base)
            } else {
                legacy_dir(base)
            },
        },
    ensures
        path == canonical_dir(base) || path == legacy_dir(base),
        path == legacy_dir(base) && legacy_dir(base) != canonical_dir(base) ==> rename_error is Some
            && !canonical_exists,
{
}

/// Adds a candidate path when it names an existing file.
pub fn append_if_exists(paths: &mut Vec<String>, candidate: &str, is_file: bool)
    ensures
        final(paths)@.len() == old(paths)@.len() + (if is_file {
            1int
        } else {
            0
        }),
        forall|i: int| 0 <= i < old(paths)@.len() ==> final(paths)@[i] == old(paths)@[i],
        is_file ==> final(paths)@.last()@ == candidate@,
{
    if is_file {
        paths.push(string_of(&chars_of(candidate)));
    }
}

/// The paths a program is looked for on `PATH`, in order: in each
/// directory, the name itself (and, on Windows for a name without an
/// extension, `name.exe`).
pub open spec fn lookup_names(name: Seq<char>, windows: bool) -> Seq<Seq<char>> {
    if windows && !crate::web::has_extension(name) {
        seq![name, name + ".exe"@]
    } else {
        seq![name]
    }
}

pub open spec fn lookup_candidates_spec(dirs: Seq<Seq<char>>, names: Seq<Seq<char>>) -> Seq<Seq<char>>
    decreases dirs.len(),
{
    if dirs.len() == 0 {
        Seq::empty()
    } else {
        lookup_candidates_spec(dirs.drop_last(), names) + names.map_values(
            |n: Seq<char>| join_path(dirs.last(), n),
        )
    }
}

pub open spec fn views(v: Seq<String>) -> Seq<Seq<char>> {
    v.map_values(|s: String| s@)
}

pub fn lookup_candidates(dirs: &Vec<String>, name: &str, windows: bool) -> (r: Vec<String>)
    ensures
        views(r@) == lookup_candidates_spec(views(dirs@), lookup_names(name@, windows)),
{
    let nv = chars_of(name);
    let no_extension = !crate::web::has_extension_exec(name);
    let mut names: Vec<Vec<char>> = Vec::new();
    names.push(nv.clone());
    if windows && no_extension {
        names.push(cat(&nv, &chars_of(".exe")));
    }
    let ghost nspec = lookup_names(name@, windows);
    assert(names@.map_values(|v: Vec<char>| v@) =~= nspec);
    let mut out: Vec<String> = Vec::new();
    let mut i: usize = 0;
    while i < dirs.len()
        invariant
            0 <= i <= dirs.len(),
            names@.map_values(|v: Vec<char>| v@) == nspec,
            views(out@) == lookup_candidates_spec(views(dirs@).take(i as int), nspec),
        decreases dirs.len() - i,
    {
        assert(views(dirs@).take(i + 1).drop_last() =~= views(dirs@).take(i as int));
        let d = chars_of(dirs[i].as_str());
        let ghost before = views(out@);
        let mut k: usize = 0;
        while k < names.len()
            invariant
                0 <= k <= names.len(),
                names@.map_values(|v: Vec<char>| v@) == nspec,
                d@ == dirs@[i as int]@,
                views(out@) == before + nspec.take(k as int).map_values(
                    |n: Seq<char>| join_path(d@, n),
                ),
            decreases names.len() - k,
        {
            let ghost prev = views(out@);
            let j = join_path_exec(&d, string_of(&names[k]).as_str());
            out.push(string_of(&j));
            assert(nspec.take(k + 1).map_values(|n: Seq<char>| join_path(d@, n)) =~= nspec.take(
                k as int,
            ).map_values(|n: Seq<char>| join_path(d@, n)).push(join_path(d@, nspec[k as int])));
            assert(views(out@) =~= prev.push(j@));
            k = k + 1;
        }
        assert(nspec.take(names.len() as int) =~= nspec);
        i = i + 1;
    }
    assert(views(dirs@).take(dirs.len() as int) =~= views(dirs@));
    out
}

/// The message for a listener port that is taken: by an earlier server of
/// this application, or by another program (shown by its image path, or
/// `pid N` when that is unknown).
pub open spec fn port_busy_text(port: u16, service_label: Seq<char>, pid: u32, image: Option<Seq<char>>, own: bool) -> Seq<
    char,
> {
    let shown = match image {
        Some(i) => i,
        None => "pid "@ + decimal(pid as nat),
    };
    if own {
        service_label + "端口 "@ + decimal(port as nat) + " 仍被本应用的上一次服务占用（"@ + shown
            + "），请先停止服务或稍后再试"@
    } else {
        service_label + "端口 "@ + decimal(port as nat) + " 已被占用："@ + shown
    }
}

pub fn port_busy_message(port: u16, service_label: &str, pid: u32, image: Option<&str>, own_process: bool) -> (r:
    String)
    ensures
        r@ == port_busy_text(
            port,
            service_label@,
            pid,
            match image {
                Some(i) => Some(i@),
                None => None,
            },
            own_process,
        ),
{
    let shown = match image {
        Some(i) => chars_of(i),
        None => cat(&chars_of("pid "), &decimal_of(pid as u64)),
    };
    let head = cat(&chars_of(service_label), &chars_of("端口 "));
    let head = cat(&head, &decimal_of(port as u64));
    if own_process {
        let m = cat(&head, &chars_of(" 仍被本应用的上一次服务占用（"));
        let m = cat(&m, &shown);
        string_of(&cat(&m, &chars_of("），请先停止服务或稍后再试")))
    } else {
        let m = cat(&head, &chars_of(" 已被占用："));
        string_of(&cat(&m, &shown))
    }
}

/// One probe while waiting for a port to be released.
pub enum PortWait {
    /// Nobody listens: the port is free.
    Free,
    /// This process still listens (a server shutting down): probe again.
    Retry,
    /// Another process listens, or the probe failed: give up.
    Busy,
}

/// What a probe of the listening process means.
pub fn port_wait_step(probe_ok: bool, listener_pid: Option<u32>, own_pid: u32) -> (r: PortWait)
    ensures
        r is Free <==> probe_ok && listener_pid is None,
        r is Retry <==> probe_ok && listener_pid == Some(own_pid),
{
    if !probe_ok {
        return PortWait::Busy;
    }
    match listener_pid {
        None => PortWait::Free,
        Some(pid) => if pid == own_pid {
            PortWait::Retry
        } else {
            PortWait::Busy
        },
    }
}

} // verus!
