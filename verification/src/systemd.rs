//! The user-level systemd service of a headless deployment: quoting of
//! unit-file arguments, the unit text, the service `PATH`, where the
//! bundle is installed, and how `systemctl`/`loginctl` answers are read.

use vstd::prelude::*;

use crate::text::{
    cat, chars_of, chars_of_string, contains, eq_vec, join_path, join_path_exec, string_of, trim,
    trim_vec,
};

verus! {

pub const UNIT_NAME: &'static str = "coding-tools.service";

pub const MANAGED_MARKER: &'static str = "# Managed by Coding Tools Gateway";

/// How one character is written inside a double-quoted unit-file
/// argument: `%` doubles (specifier escape), `\` and `"` get a backslash.
pub open spec fn escape_unit_char(c: char) -> Seq<char> {
    if c == '%' {
        seq!['%', '%']
    } else if c == '\\' {
        seq!['\\', '\\']
    } else if c == '"' {
        seq!['\\', '"']
    } else {
        seq![c]
    }
}

pub open spec fn escape_unit(s: Seq<char>) -> Seq<char>
    decreases s.len(),
{
    if s.len() == 0 {
        Seq::empty()
    } else {
        escape_unit(s.drop_last()) + escape_unit_char(s.last())
    }
}

/// A value quoted as one unit-file argument.
pub open spec fn systemd_arg_text(s: Seq<char>) -> Seq<char> {
    seq!['"'] + escape_unit(s) + seq!['"']
}

/// `KEY=value`, quoted as one argument (an `Environment=` assignment).
pub open spec fn systemd_assignment_text(key: Seq<char>, value: Seq<char>) -> Seq<char> {
    systemd_arg_text(key + seq!['='] + value)
}

fn escape_char_exec(out: &mut Vec<char>, c: char)
    ensures
        final(out)@ == old(out)@ + escape_unit_char(c),
{
    if c == '%' {
        out.push('%');
        out.push('%');
    } else if c == '\\' {
        out.push('\\');
        out.push('\\');
    } else if c == '"' {
        out.push('\\');
        out.push('"');
    } else {
        out.push(c);
    }
    assert(out@ =~= old(out)@ + escape_unit_char(c));
}

fn quote_chars(v: &[char]) -> (r: Vec<char>)
    ensures
        r@ == systemd_arg_text(v@),
{
    let mut out: Vec<char> = Vec::new();
    out.push('"');
    let mut i: usize = 0;
    while i < v.len()
        invariant
            0 <= i <= v.len(),
            out@ == seq!['"'] + escape_unit(v@.subrange(0, i as int)),
        decreases v.len() - i,
    {
        assert(v@.subrange(0, i + 1).drop_last() =~= v@.subrange(0, i as int));
        escape_char_exec(&mut out, v[i]);
        i = i + 1;
        assert(out@ =~= seq!['"'] + escape_unit(v@.subrange(0, i as int)));
    }
    assert(v@.subrange(0, v.len() as int) =~= v@);
    out.push('"');
    out
}

/// Quotes a value as one argument of a unit file.
pub fn systemd_arg(value: &str) -> (r: String)
    ensures
        r@ == systemd_arg_text(value@),
{
    string_of(&quote_chars(&chars_of(value)))
}

pub fn systemd_assignment(key: &str, value: &str) -> (r: String)
    ensures
        r@ == systemd_assignment_text(key@, value@),
{
    let mut kv = chars_of(key);
    kv.push('=');
    let kv = cat(&kv, &chars_of(value));
    assert(kv@ =~= key@ + seq!['='] + value@);
    string_of(&quote_chars(&kv))
}

/// How systemd reads a quoted argument back: `%%` is `%`, a backslash
/// takes the next character literally.
pub open spec fn unescape_unit(t: Seq<char>) -> Seq<char>
    decreases t.len(),
{
    if t.len() >= 2 && t[0] == '%' && t[1] == '%' {
        seq!['%'] + unescape_unit(t.subrange(2, t.len() as int))
    } else if t.len() >= 2 && t[0] == '\\' {
        seq![t[1]] + unescape_unit(t.subrange(2, t.len() as int))
    } else if t.len() == 0 {
        Seq::empty()
    } else {
        seq![t[0]] + unescape_unit(t.subrange(1, t.len() as int))
    }
}

proof fn lemma_escape_front(c: char, s: Seq<char>)
    ensures
        escape_unit(seq![c] + s) == escape_unit_char(c) + escape_unit(s),
    decreases s.len(),
{
    if s.len() == 0 {
        assert((seq![c] + s).drop_last() =~= Seq::<char>::empty());
        assert(escape_unit(Seq::<char>::empty()) =~= Seq::<char>::empty());
        assert(escape_unit_char(c) + escape_unit(s) =~= escape_unit_char(c));
    } else {
        assert((seq![c] + s).drop_last() =~= seq![c] + s.drop_last());
        lemma_escape_front(c, s.drop_last());
        assert(escape_unit_char(c) + escape_unit(s.drop_last()) + escape_unit_char(s.last())
            =~= escape_unit_char(c) + (escape_unit(s.drop_last()) + escape_unit_char(s.last())));
    }
}

/// Law: systemd reads a quoted argument back as the original value, and
/// the quoted text starts and ends with the only unescaped `"`.
pub proof fn law_systemd_arg_round_trip(s: Seq<char>)
    ensures
        unescape_unit(escape_unit(s)) == s,
        systemd_arg_text(s) == seq!['"'] + escape_unit(s) + seq!['"'],
    decreases s.len(),
{
    if s.len() > 0 {
        let c = s[0];
        let rest = s.subrange(1, s.len() as int);
        assert(s =~= seq![c] + rest);
        lemma_escape_front(c, rest);
        law_systemd_arg_round_trip(rest);
        let e = escape_unit(s);
        let er = escape_unit(rest);
        if c == '%' || c == '\\' || c == '"' {
            assert(e.subrange(2, e.len() as int) =~= er);
        } else {
            assert(e.subrange(1, e.len() as int) =~= er);
        }
        assert(unescape_unit(e) =~= s);
    } else {
        assert(escape_unit(s) =~= Seq::<char>::empty());
    }
}

/// Fixed text of the unit before the `ExecStart` binary.
pub open spec fn unit_head() -> Seq<char> {
    "# Managed by Coding Tools Gateway\n[Unit]\nDescription=Coding Tools multi-workspace MCP Gateway\nDocumentation=https://github.com/mybolide/coding-tools-mcp\nWants=network-online.target\nAfter=network-online.target\n\n[Service]\nType=simple\nExecStart="@
}

pub open spec fn unit_serve() -> Seq<char> {
    " serve --web-root "@
}

pub open spec fn unit_service_tail() -> Seq<char> {
    "\nWorkingDirectory=%h\nRestart=on-failure\nRestartSec=3s\nKillSignal=SIGINT\nTimeoutStopSec=20s\nNoNewPrivileges=true\n"@
}

pub open spec fn unit_install() -> Seq<char> {
    "\n[Install]\nWantedBy=default.target\n"@
}

/// One `Environment=` line.
pub open spec fn environment_line(key: Seq<char>, value: Seq<char>) -> Seq<char> {
    "Environment="@ + systemd_assignment_text(key, value) + "\n"@
}

pub open spec fn optional_environment_line(key: Seq<char>, value: Option<Seq<char>>) -> Seq<char> {
    match value {
        Some(v) => environment_line(key, v),
        None => Seq::empty(),
    }
}

pub open spec fn opt_view(o: Option<&str>) -> Option<Seq<char>> {
    match o {
        Some(s) => Some(s@),
        None => None,
    }
}

/// The unit file: `ExecStart` runs `serve` with the installed web root,
/// restarts on failure, stops with SIGINT, and carries `PATH` and (when
/// set) `XDG_CONFIG_HOME` / `XDG_DATA_HOME` of the installing user.
pub open spec fn unit_text(
    binary: Seq<char>,
    web_root: Seq<char>,
    path_env: Seq<char>,
    xdg_config_home: Option<Seq<char>>,
    xdg_data_home: Option<Seq<char>>,
) -> Seq<char> {
    unit_head() + systemd_arg_text(binary) + unit_serve() + systemd_arg_text(web_root)
        + unit_service_tail() + environment_line("PATH"@, path_env) + optional_environment_line(
        "XDG_CONFIG_HOME"@,
        xdg_config_home,
    ) + optional_environment_line("XDG_DATA_HOME"@, xdg_data_home) + unit_install()
}

/// The text inside a double-quoted unit-file word is well formed: `%` only
/// as `%%`, `"` only escaped by `\`, and no `\` left dangling at the end.
pub open spec fn quoted_inner_ok(t: Seq<char>) -> bool
    decreases t.len(),
{
    if t.len() == 0 {
        true
    } else if t[0] == '%' {
        t.len() >= 2 && t[1] == '%' && quoted_inner_ok(t.subrange(2, t.len() as int))
    } else if t[0] == '\\' {
        t.len() >= 2 && quoted_inner_ok(t.subrange(2, t.len() as int))
    } else if t[0] == '"' {
        false
    } else {
        quoted_inner_ok(t.subrange(1, t.len() as int))
    }
}

/// `a` is one double-quoted unit-file argument that systemd reads as
/// `value`.
pub open spec fn quoted_word_of(a: Seq<char>, value: Seq<char>) -> bool {
    &&& a.len() >= 2
    &&& a[0] == '"'
    &&& a.last() == '"'
    &&& quoted_inner_ok(a.subrange(1, a.len() - 1))
    &&& unescape_unit(a.subrange(1, a.len() - 1)) == value
}

proof fn lemma_escape_well_formed(s: Seq<char>)
    ensures
        quoted_inner_ok(escape_unit(s)),
    decreases s.len(),
{
    if s.len() == 0 {
        assert(escape_unit(s) =~= Seq::<char>::empty());
    } else {
        let c = s[0];
        let rest = s.subrange(1, s.len() as int);
        assert(s =~= seq![c] + rest);
        lemma_escape_front(c, rest);
        lemma_escape_well_formed(rest);
        let e = escape_unit(s);
        let er = escape_unit(rest);
        if c == '%' || c == '\\' || c == '"' {
            assert(e.subrange(2, e.len() as int) =~= er);
        } else {
            assert(e.subrange(1, e.len() as int) =~= er);
        }
    }
}

proof fn lemma_arg_is_quoted_word(s: Seq<char>)
    ensures
        quoted_word_of(systemd_arg_text(s), s),
{
    law_systemd_arg_round_trip(s);
    lemma_escape_well_formed(s);
    let a = systemd_arg_text(s);
    assert(a.subrange(1, a.len() - 1) =~= escape_unit(s));
}

/// The unit text splits around its `ExecStart=` line.
pub open spec fn exec_start_split(
    unit: Seq<char>,
    pre: Seq<char>,
    bin_arg: Seq<char>,
    web_arg: Seq<char>,
    post: Seq<char>,
) -> bool {
    &&& unit == pre + "ExecStart="@ + bin_arg + " serve --web-root "@ + web_arg + "\n"@ + post
    &&& pre.len() > 0
    &&& pre.last() == '\n'
}

/// Law: the unit's `ExecStart=` line, which starts a line of its own, runs
/// the binary with `serve --web-root`, the binary and the web root each
/// written as one quoted argument that systemd reads back exactly (spaces,
/// `%`, `\` and `"` included).
pub proof fn law_exec_start_line(
    binary: Seq<char>,
    web_root: Seq<char>,
    path_env: Seq<char>,
    xdg_config_home: Option<Seq<char>>,
    xdg_data_home: Option<Seq<char>>,
)
    ensures
        exists|pre: Seq<char>, bin_arg: Seq<char>, web_arg: Seq<char>, post: Seq<char>|
            #[trigger] exec_start_split(
                unit_text(binary, web_root, path_env, xdg_config_home, xdg_data_home),
                pre,
                bin_arg,
                web_arg,
                post,
            ) && quoted_word_of(bin_arg, binary) && quoted_word_of(web_arg, web_root),
{
    reveal_strlit("# Managed by Coding Tools Gateway\n[Unit]\nDescription=Coding Tools multi-workspace MCP Gateway\nDocumentation=https://github.com/mybolide/coding-tools-mcp\nWants=network-online.target\nAfter=network-online.target\n\n[Service]\nType=simple\nExecStart=");
    reveal_strlit("ExecStart=");
    reveal_strlit(" serve --web-root ");
    reveal_strlit("\n");
    reveal_strlit("\nWorkingDirectory=%h\nRestart=on-failure\nRestartSec=3s\nKillSignal=SIGINT\nTimeoutStopSec=20s\nNoNewPrivileges=true\n");
    let head = unit_head();
    let pre = head.subrange(0, head.len() - 10);
    assert(head.subrange(head.len() - 10, head.len() as int) =~= "ExecStart="@);
    assert(head =~= pre + "ExecStart="@);
    let tail = unit_service_tail();
    let post = tail.subrange(1, tail.len() as int) + environment_line("PATH"@, path_env)
        + optional_environment_line("XDG_CONFIG_HOME"@, xdg_config_home) + optional_environment_line(
        "XDG_DATA_HOME"@,
        xdg_data_home,
    ) + unit_install();
    assert(tail =~= "\n"@ + tail.subrange(1, tail.len() as int));
    let b = systemd_arg_text(binary);
    let w = systemd_arg_text(web_root);
    assert(unit_text(binary, web_root, path_env, xdg_config_home, xdg_data_home) =~= pre
        + "ExecStart="@ + b + " serve --web-root "@ + w + "\n"@ + post);
    assert(pre.last() == '\n');
    lemma_arg_is_quoted_word(binary);
    lemma_arg_is_quoted_word(web_root);
    assert(exec_start_split(
        unit_text(binary, web_root, path_env, xdg_config_home, xdg_data_home),
        pre,
        b,
        w,
        post,
    ));
}

fn environment_line_exec(out: &mut Vec<char>, key: &str, value: &str)
    ensures
        final(out)@ == old(out)@ + environment_line(key@, value@),
{
    let a = cat(out, &chars_of("Environment="));
    let b = cat(&a, &chars_of(&systemd_assignment(key, value)));
    *out = cat(&b, &chars_of("\n"));
    assert(out@ =~= old(out)@ + environment_line(key@, value@));
}

pub fn build_unit(
    binary: &str,
    web_root: &str,
    path_env: &str,
    xdg_config_home: Option<&str>,
    xdg_data_home: Option<&str>,
) -> (r: String)
    ensures
        r@ == unit_text(
            binary@,
            web_root@,
            path_env@,
            opt_view(xdg_config_home),
            opt_view(xdg_data_home),
        ),
{
    let head = chars_of(
        "# Managed by Coding Tools Gateway\n[Unit]\nDescription=Coding Tools multi-workspace MCP Gateway\nDocumentation=https://github.com/mybolide/coding-tools-mcp\nWants=network-online.target\nAfter=network-online.target\n\n[Service]\nType=simple\nExecStart=",
    );
    let mut out = cat(&head, &chars_of(&systemd_arg(binary)));
    out = cat(&out, &chars_of(" serve --web-root "));
    out = cat(&out, &chars_of(&systemd_arg(web_root)));
    out = cat(
        &out,
        &chars_of(
            "\nWorkingDirectory=%h\nRestart=on-failure\nRestartSec=3s\nKillSignal=SIGINT\nTimeoutStopSec=20s\nNoNewPrivileges=true\n",
        ),
    );
    let ghost fixed = out@;
    environment_line_exec(&mut out, "PATH", path_env);
    let ghost with_path = out@;
    if let Some(v) = xdg_config_home {
        environment_line_exec(&mut out, "XDG_CONFIG_HOME", v);
    }
    assert(out@ == with_path + optional_environment_line(
        "XDG_CONFIG_HOME"@,
        opt_view(xdg_config_home),
    ));
    let ghost with_config = out@;
    if let Some(v) = xdg_data_home {
        environment_line_exec(&mut out, "XDG_DATA_HOME", v);
    }
    assert(out@ == with_config + optional_environment_line(
        "XDG_DATA_HOME"@,
        opt_view(xdg_data_home),
    ));
    out = cat(&out, &chars_of("\n[Install]\nWantedBy=default.target\n"));
    string_of(&out)
}

/// Law: every unit this library renders carries the managed marker, so a
/// later install or uninstall accepts it as its own.
pub proof fn law_rendered_unit_is_managed(
    binary: Seq<char>,
    web_root: Seq<char>,
    path_env: Seq<char>,
    xdg_config_home: Option<Seq<char>>,
    xdg_data_home: Option<Seq<char>>,
)
    ensures
        managed_unit_text(unit_text(binary, web_root, path_env, xdg_config_home, xdg_data_home)),
{
    let u = unit_text(binary, web_root, path_env, xdg_config_home, xdg_data_home);
    let m = "# Managed by Coding Tools Gateway"@;
    reveal_strlit("# Managed by Coding Tools Gateway");
    reveal_strlit(
        "# Managed by Coding Tools Gateway\n[Unit]\nDescription=Coding Tools multi-workspace MCP Gateway\nDocumentation=https://github.com/mybolide/coding-tools-mcp\nWants=network-online.target\nAfter=network-online.target\n\n[Service]\nType=simple\nExecStart=",
    );
    assert(u.subrange(0, m.len() as int) =~= m);
    assert(crate::text::occurs_at(u, m, 0));
}

/// A unit file text that this library manages (holds the marker line).
pub open spec fn managed_unit_text(existing: Seq<char>) -> bool {
    contains(existing, "# Managed by Coding Tools Gateway"@)
}

/// Whether an existing unit file may be replaced or removed: only one that
/// carries the managed marker.  `removing` picks the refusal message.
pub fn check_managed_unit(existing: &str, unit_path: &str, removing: bool) -> (r: Result<
    (),
    String,
>)
    ensures
        r is Ok <==> managed_unit_text(existing@),
        r matches Err(m) ==> m@ == (if removing {
            "拒绝删除非 Coding Tools 管理的 systemd unit: "@
        } else {
            "拒绝覆盖非 Coding Tools 管理的 systemd unit: "@
        }) + unit_path@,
{
    if crate::text::contains_vec(&chars_of(existing), &chars_of(MANAGED_MARKER)) {
        Ok(())
    } else if removing {
        Err(string_of(&cat(&chars_of("拒绝删除非 Coding Tools 管理的 systemd unit: "), &chars_of(unit_path))))
    } else {
        Err(string_of(&cat(&chars_of("拒绝覆盖非 Coding Tools 管理的 systemd unit: "), &chars_of(unit_path))))
    }
}

/// Adds a directory to a search path unless it is empty or already there.
pub open spec fn add_unique(acc: Seq<Seq<char>>, v: Seq<char>) -> Seq<Seq<char>> {
    if v.len() == 0 || acc.contains(v) {
        acc
    } else {
        acc.push(v)
    }
}

/// The directories kept from `items`, in order, each once.
pub open spec fn unique_dirs(items: Seq<Seq<char>>) -> Seq<Seq<char>>
    decreases items.len(),
{
    if items.len() == 0 {
        Seq::empty()
    } else {
        add_unique(unique_dirs(items.drop_last()), items.last())
    }
}

/// `parts` joined by `:`.
pub open spec fn join_colon(parts: Seq<Seq<char>>) -> Seq<char>
    decreases parts.len(),
{
    if parts.len() == 0 {
        Seq::empty()
    } else if parts.len() == 1 {
        parts[0]
    } else {
        join_colon(parts.drop_last()) + seq![':'] + parts.last()
    }
}

/// The system directories every service `PATH` ends with.
pub open spec fn system_dirs() -> Seq<Seq<char>> {
    seq![
        "/usr/local/sbin"@,
        "/usr/local/bin"@,
        "/usr/sbin"@,
        "/usr/bin"@,
        "/sbin"@,
        "/bin"@,
    ]
}

/// The directories a service `PATH` is built from: the user's
/// `~/.local/bin` and `~/.cargo/bin`, the installing shell's `PATH`, then
/// the system directories.
pub open spec fn path_candidates(home: Option<Seq<char>>, path_entries: Seq<Seq<char>>) -> Seq<
    Seq<char>,
> {
    let user = match home {
        Some(h) => seq![join_path(h, ".local/bin"@), join_path(h, ".cargo/bin"@)],
        None => Seq::empty(),
    };
    user + path_entries + system_dirs()
}

pub open spec fn service_path_text(home: Option<Seq<char>>, path_entries: Seq<Seq<char>>) -> Seq<
    char,
> {
    join_colon(unique_dirs(path_candidates(home, path_entries)))
}

pub open spec fn views(v: Seq<String>) -> Seq<Seq<char>> {
    v.map_values(|s: String| s@)
}

fn push_unique(acc: &mut Vec<Vec<char>>, v: Vec<char>)
    ensures
        views_of(final(acc)@) == add_unique(views_of(old(acc)@), v@),
{
    if v.len() == 0 {
        return;
    }
    let mut i: usize = 0;
    while i < acc.len()
        invariant
            0 <= i <= acc.len(),
            forall|j: int| 0 <= j < i ==> acc@[j]@ != v@,
        decreases acc.len() - i,
    {
        if eq_vec(&acc[i], &v) {
            assert(views_of(acc@)[i as int] == v@);
            return;
        }
        i = i + 1;
    }
    assert(!views_of(acc@).contains(v@));
    acc.push(v);
    assert(views_of(acc@) =~= views_of(old(acc)@).push(v@));
}

pub open spec fn views_of(v: Seq<Vec<char>>) -> Seq<Seq<char>> {
    v.map_values(|s: Vec<char>| s@)
}

fn join_colon_exec(parts: &Vec<Vec<char>>) -> (r: Vec<char>)
    ensures
        r@ == join_colon(views_of(parts@)),
{
    let mut out: Vec<char> = Vec::new();
    let mut i: usize = 0;
    while i < parts.len()
        invariant
            0 <= i <= parts.len(),
            out@ == join_colon(views_of(parts@).subrange(0, i as int)),
        decreases parts.len() - i,
    {
        let ghost pre = views_of(parts@).subrange(0, i as int);
        let ghost next = views_of(parts@).subrange(0, i + 1);
        assert(next.drop_last() =~= pre);
        if i > 0 {
            out.push(':');
        }
        out = cat(&out, &parts[i]);
        i = i + 1;
        assert(out@ =~= join_colon(next));
    }
    assert(views_of(parts@).subrange(0, parts.len() as int) =~= views_of(parts@));
    out
}

/// The `PATH` written into the unit: the candidate directories, each once,
/// in order, without empty entries, joined by `:`.
pub fn service_path_value(home: Option<&str>, path_entries: &Vec<String>) -> (r: String)
    ensures
        r@ == service_path_text(opt_view(home), views(path_entries@)),
{
    let mut cands: Vec<Vec<char>> = Vec::new();
    if let Some(h) = home {
        let hv = chars_of(h);
        cands.push(join_path_exec(&hv, ".local/bin"));
        cands.push(join_path_exec(&hv, ".cargo/bin"));
    }
    let ghost user = views_of(cands@);
    let mut i: usize = 0;
    while i < path_entries.len()
        invariant
            0 <= i <= path_entries.len(),
            views_of(cands@) == user + views(path_entries@).subrange(0, i as int),
        decreases path_entries.len() - i,
    {
        let c = chars_of_string(&path_entries[i]);
        assert(c@ == views(path_entries@)[i as int]);
        let ghost before = cands@;
        cands.push(c);
        assert(views_of(cands@) =~= views_of(before).push(c@));
        assert(views(path_entries@).subrange(0, i + 1) =~= views(path_entries@).subrange(
            0,
            i as int,
        ).push(c@));
        i = i + 1;
        assert(views_of(cands@) =~= user + views(path_entries@).subrange(0, i as int));
    }
    assert(views(path_entries@).subrange(0, path_entries.len() as int) =~= views(path_entries@));
    let ghost before = cands@;
    let mut sys: Vec<Vec<char>> = Vec::new();
    sys.push(chars_of("/usr/local/sbin"));
    sys.push(chars_of("/usr/local/bin"));
    sys.push(chars_of("/usr/sbin"));
    sys.push(chars_of("/usr/bin"));
    sys.push(chars_of("/sbin"));
    sys.push(chars_of("/bin"));
    assert(views_of(sys@) =~= system_dirs());
    cands.append(&mut sys);
    assert(views_of(cands@) =~= views_of(before) + system_dirs());
    assert(user =~= match opt_view(home) {
        Some(h) => seq![join_path(h, ".local/bin"@), join_path(h, ".cargo/bin"@)],
        None => Seq::<Seq<char>>::empty(),
    });
    assert(views_of(cands@) =~= path_candidates(opt_view(home), views(path_entries@)));
    let mut kept: Vec<Vec<char>> = Vec::new();
    let mut k: usize = 0;
    while k < cands.len()
        invariant
            0 <= k <= cands.len(),
            views_of(kept@) == unique_dirs(views_of(cands@).subrange(0, k as int)),
        decreases cands.len() - k,
    {
        assert(views_of(cands@).subrange(0, k + 1).drop_last() =~= views_of(cands@).subrange(
            0,
            k as int,
        ));
        let c = cat(&cands[k], &[]);
        assert(c@ =~= cands@[k as int]@);
        push_unique(&mut kept, c);
        k = k + 1;
    }
    assert(views_of(cands@).subrange(0, cands.len() as int) =~= views_of(cands@));
    string_of(&join_colon_exec(&kept))
}

/// Law: the service `PATH` lists no directory twice and no empty entry,
/// and keeps every non-empty candidate directory.
pub proof fn law_unique_dirs(items: Seq<Seq<char>>)
    ensures
        unique_dirs(items).no_duplicates(),
        forall|i: int| 0 <= i < unique_dirs(items).len() ==> #[trigger] unique_dirs(items)[i].len() > 0,
        forall|i: int| 0 <= i < items.len() && items[i].len() > 0 ==> unique_dirs(items).contains(#[trigger] items[i]),
        forall|v: Seq<char>| unique_dirs(items).contains(v) ==> items.contains(v),
    decreases items.len(),
{
    if items.len() > 0 {
        let pre = items.drop_last();
        law_unique_dirs(pre);
        let u = unique_dirs(pre);
        let x = items.last();
        assert forall|i: int| 0 <= i < items.len() && items[i].len() > 0 implies unique_dirs(items).contains(#[trigger] items[i]) by {
            if i < items.len() - 1 {
                assert(pre[i] == items[i]);
                assert(u.contains(pre[i]));
                if !(x.len() == 0 || u.contains(x)) {
                    let j = choose|j: int| 0 <= j < u.len() && u[j] == pre[i];
                    assert(u.push(x)[j] == items[i]);
                }
            } else {
                if !(x.len() == 0 || u.contains(x)) {
                    assert(u.push(x)[u.len() as int] == x);
                }
            }
        }
        assert forall|v: Seq<char>| unique_dirs(items).contains(v) implies items.contains(v) by {
            if u.contains(v) {
                assert(pre.contains(v));
                let j = choose|j: int| 0 <= j < pre.len() && pre[j] == v;
                assert(items[j] == v);
            } else {
                assert(items[items.len() - 1] == v);
            }
        }
    }
}

/// Where the service lives: the unit under the XDG config directory, the
/// binary and web bundle under the XDG data directory.
pub struct ServicePaths {
    pub unit: String,
    pub binary: String,
    pub web_root: String,
}

pub fn service_paths(config_dir: &str, data_dir: &str) -> (r: ServicePaths)
    ensures
        r.unit@ == join_path(join_path(config_dir@, "systemd/user"@), "coding-tools.service"@),
        r.binary@ == join_path(join_path(data_dir@, "coding-tools"@), "bin/coding-tools"@),
        r.web_root@ == join_path(join_path(data_dir@, "coding-tools"@), "web"@),
{
    let config = chars_of(config_dir);
    let systemd_dir = join_path_exec(&config, "systemd/user");
    let unit = join_path_exec(&systemd_dir, UNIT_NAME);
    let data = chars_of(data_dir);
    let root = join_path_exec(&data, "coding-tools");
    ServicePaths {
        unit: string_of(&unit),
        binary: string_of(&join_path_exec(&root, "bin/coding-tools")),
        web_root: string_of(&join_path_exec(&root, "web")),
    }
}

/// What `systemctl is-active` / `is-enabled` reported: its trimmed output,
/// or `ok` / `unknown` by the exit status when it printed nothing.
pub open spec fn systemctl_state_spec(stdout: Seq<char>, success: bool) -> Seq<char> {
    if trim(stdout).len() == 0 {
        if success {
            "ok"@
        } else {
            "unknown"@
        }
    } else {
        trim(stdout)
    }
}

pub fn systemctl_state_text(stdout: &str, success: bool) -> (r: String)
    ensures
        r@ == systemctl_state_spec(stdout@, success),
{
    let t = trim_vec(&chars_of(stdout));
    if t.len() == 0 {
        if success {
            string_of(&chars_of("ok"))
        } else {
            string_of(&chars_of("unknown"))
        }
    } else {
        string_of(&t)
    }
}

/// The `Linger` answer of `loginctl show-user`: yes or no when it
/// succeeded, nothing otherwise.
pub open spec fn linger_spec(success: bool, stdout: Seq<char>) -> Option<bool> {
    if !success {
        None
    } else if trim(stdout) == "yes"@ {
        Some(true)
    } else if trim(stdout) == "no"@ {
        Some(false)
    } else {
        None
    }
}

pub fn parse_linger(success: bool, stdout: &str) -> (r: Option<bool>)
    ensures
        r == linger_spec(success, stdout@),
{
    if !success {
        return None;
    }
    let t = trim_vec(&chars_of(stdout));
    if eq_vec(&t, &chars_of("yes")) {
        Some(true)
    } else if eq_vec(&t, &chars_of("no")) {
        Some(false)
    } else {
        None
    }
}

/// What `install` is asked to do.
pub struct InstallOptions {
    pub web_root: String,
    pub dry_run: bool,
    pub start: bool,
}

/// What `install` did (or, on a dry run, would do).
pub struct InstallResult {
    pub unit_path: String,
    pub binary_path: String,
    pub web_root: String,
    pub unit_text: String,
    pub started: bool,
    pub linger_enabled: Option<bool>,
}

/// The installed service as systemd reports it.
pub struct ServiceStatus {
    pub unit_path: String,
    pub binary_path: String,
    pub web_root: String,
    pub installed: bool,
    pub active: String,
    pub enabled: String,
    pub linger_enabled: Option<bool>,
}

/// The service status from what was observed: whether the unit file
/// exists, the `systemctl is-active` / `is-enabled` answers (output and
/// success) and the linger setting.
pub fn status(
    paths: ServicePaths,
    installed: bool,
    active_stdout: &str,
    active_success: bool,
    enabled_stdout: &str,
    enabled_success: bool,
    linger_enabled: Option<bool>,
) -> (r: ServiceStatus)
    ensures
        r.unit_path == paths.unit,
        r.binary_path == paths.binary,
        r.web_root == paths.web_root,
        r.installed == installed,
        r.active@ == systemctl_state_spec(active_stdout@, active_success),
        r.enabled@ == systemctl_state_spec(enabled_stdout@, enabled_success),
        r.linger_enabled == linger_enabled,
{
    ServiceStatus {
        unit_path: paths.unit,
        binary_path: paths.binary,
        web_root: paths.web_root,
        installed,
        active: systemctl_state_text(active_stdout, active_success),
        enabled: systemctl_state_text(enabled_stdout, enabled_success),
        linger_enabled,
    }
}

} // verus!
