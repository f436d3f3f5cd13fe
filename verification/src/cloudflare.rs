//! Cloudflare tunnel logic: recognising the quick-tunnel URL and the
//! named-tunnel readiness line in `cloudflared` output, choosing the release
//! asset to download, the proxy handed to the child process, the command
//! line, and the readiness state machine fed with output lines.

use vstd::prelude::*;
use vstd::string::StringExecFns;

use crate::text::{
    cat, chars_of, chars_of_string, contains, contains_vec, eq_vec, find_from, lower, lower_char, lower_vec,
    occurs_at, random_simple_uuid, string_of, strip_end, strip_end_vec, trim, trim_vec, CharClass,
    decimal, decimal_of,
};

verus! {

pub open spec fn url_prefix() -> Seq<char> {
    "https://"@
}

pub open spec fn url_suffix() -> Seq<char> {
    ".trycloudflare.com"@
}

pub open spec fn host_char(c: char) -> bool {
    ('a' <= c && c <= 'z') || ('A' <= c && c <= 'Z') || ('0' <= c && c <= '9') || c == '-'
}

pub open spec fn valid_host(h: Seq<char>) -> bool {
    h.len() > 0 && forall|i: int| 0 <= i < h.len() ==> host_char(#[trigger] h[i])
}

/// The first position at or after `from` where `p` occurs in `s`.
pub open spec fn first_occurrence(s: Seq<char>, p: Seq<char>, from: int) -> Option<int> {
    if exists|i: int| from <= i && occurs_at(s, p, i) && forall|j: int|
        from <= j < i ==> !occurs_at(s, p, j) {
        Some(
            choose|i: int|
                from <= i && occurs_at(s, p, i) && forall|j: int|
                    from <= j < i ==> !occurs_at(s, p, j),
        )
    } else {
        None
    }
}

/// `line` announces a quick-tunnel URL at `s` (`low` is its ASCII-lowercased
/// form): `https://` starts there, and the nearest `.trycloudflare.com`
/// after it closes a valid host.
pub open spec fn announces_at(line: Seq<char>, low: Seq<char>, s: int) -> bool {
    &&& occurs_at(low, url_prefix(), s)
    &&& first_occurrence(low, url_suffix(), s) is Some
    &&& s + 8 <= first_occurrence(low, url_suffix(), s)->0
    &&& valid_host(line.subrange(s + 8, first_occurrence(low, url_suffix(), s)->0))
}

/// The first position at or after `from` at which `line` announces a URL.
pub open spec fn first_announcement(line: Seq<char>, low: Seq<char>, from: int) -> Option<int> {
    if exists|s: int| from <= s && announces_at(line, low, s) && forall|t: int|
        from <= t < s ==> !announces_at(line, low, t) {
        Some(
            choose|s: int|
                from <= s && announces_at(line, low, s) && forall|t: int|
                    from <= t < s ==> !announces_at(line, low, t),
        )
    } else {
        None
    }
}

/// The `https://<host>.trycloudflare.com` URL announced in a log line: the
/// text from the first announcement (scheme and suffix matched ignoring
/// ASCII case) through the end of its `.trycloudflare.com`.
pub open spec fn quick_url_in(line: Seq<char>) -> Option<Seq<char>> {
    let low = lower(line);
    match first_announcement(line, low, 0) {
        Some(s) => Some(line.subrange(s, first_occurrence(low, url_suffix(), s)->0 + 18)),
        None => None,
    }
}

/// An announcement at `s` with none before it is the first one.
proof fn lemma_first_announcement(line: Seq<char>, low: Seq<char>, from: int, s: int)
    requires
        from <= s,
        announces_at(line, low, s),
        forall|t: int| from <= t < s ==> !announces_at(line, low, t),
    ensures
        first_announcement(line, low, from) == Some(s),
{
    let c = choose|c: int|
        from <= c && announces_at(line, low, c) && forall|t: int|
            from <= t < c ==> !announces_at(line, low, t);
    if c < s {
        assert(!announces_at(line, low, c));
    }
    if c > s {
        assert(!announces_at(line, low, s));
    }
}

fn valid_host_exec(v: &[char], from: usize, to: usize) -> (r: bool)
    requires
        from <= to <= v.len(),
    ensures
        r == valid_host(v@.subrange(from as int, to as int)),
{
    if from == to {
        return false;
    }
    let mut i = from;
    while i < to
        invariant
            from <= i <= to <= v.len(),
            forall|k: int| from <= k < i ==> host_char(#[trigger] v@[k]),
        decreases to - i,
    {
        let c = v[i];
        if !(('a' <= c && c <= 'z') || ('A' <= c && c <= 'Z') || ('0' <= c && c <= '9') || c
            == '-') {
            assert(v@.subrange(from as int, to as int)[i - from] == c);
            return false;
        }
        i = i + 1;
    }
    assert forall|k: int| 0 <= k < to - from implies host_char(
        #[trigger] v@.subrange(from as int, to as int)[k],
    ) by {
        assert(v@.subrange(from as int, to as int)[k] == v@[from + k]);
    }
    true
}

/// `find_from` in the terms of `first_occurrence`.
fn first_from(s: &[char], p: &[char], from: usize) -> (r: Option<usize>)
    ensures
        match r {
            Some(i) => first_occurrence(s@, p@, from as int) == Some(i as int),
            None => first_occurrence(s@, p@, from as int) is None && forall|j: int|
                from <= j ==> !occurs_at(s@, p@, j),
        },
{
    let r = find_from(s, p, from);
    match r {
        Some(i) => {
            proof {
                let pred = |k: int|
                    from <= k && occurs_at(s@, p@, k) && forall|j: int|
                        from <= j < k ==> !occurs_at(s@, p@, j);
                assert(pred(i as int));
                let c = choose|k: int|
                    from <= k && occurs_at(s@, p@, k) && forall|j: int|
                        from <= j < k ==> !occurs_at(s@, p@, j);
                assert(pred(c));
                if c < i {
                    assert(!occurs_at(s@, p@, c));
                }
                if c > i {
                    assert(!occurs_at(s@, p@, i as int));
                }
            }
            r
        },
        None => r,
    }
}

enum ScanStep {
    Done(Option<String>),
    Next(usize),
}

#[verifier::spinoff_prover]
#[verifier::rlimit(40)]
/// One round of the scan: the next `https://` at or after `from` and the
/// nearest suffix after it.
fn scan_step(v: &[char], low: &[char], prefix: &[char], suffix: &[char], from: usize) -> (r:
    ScanStep)
    requires
        from <= v.len(),
        low@ == lower(v@),
        prefix@ == url_prefix(),
        suffix@ == url_suffix(),
        prefix@.len() == 8,
        suffix@.len() == 18,
    ensures
        match r {
            ScanStep::Done(Some(u)) => exists|s: int|
                from <= s && #[trigger] announces_at(v@, low@, s) && (forall|t: int|
                    from <= t < s ==> !announces_at(v@, low@, t)) && u@ == v@.subrange(
                    s,
                    first_occurrence(low@, url_suffix(), s)->0 + 18,
                ),
            ScanStep::Done(None) => forall|t: int| from <= t ==> !#[trigger] announces_at(v@, low@, t),
            ScanStep::Next(n) => from < n <= v.len() && forall|t: int|
                from <= t < n ==> !#[trigger] announces_at(v@, low@, t),
        },
{
    proof {
        reveal_strlit("https://");
        reveal_strlit(".trycloudflare.com");
    }
    let start = match first_from(low, prefix, from) {
        Some(s) => s,
        None => {
            return ScanStep::Done(None);
        },
    };
    proof {
        assert(occurs_at(low@, prefix@, start as int));
    }
    let q = match first_from(low, suffix, start) {
        Some(q) => q,
        None => {
            proof {
                assert forall|t: int| from <= t implies !#[trigger] announces_at(v@, low@, t) by {
                    if t < start {
                        assert(!occurs_at(low@, prefix@, t));
                    } else {
                        assert(first_occurrence(low@, url_suffix(), t) is None);
                    }
                }
            }
            return ScanStep::Done(None);
        },
    };
    proof {
        assert(occurs_at(low@, suffix@, q as int));
        if q < start + 8 {
            assert(low@.subrange(start as int, start + 8)[q - start] == prefix@[q - start]);
            assert(low@.subrange(q as int, q + 18)[0] == suffix@[0]);
            assert(false);
        }
    }
    assert(q + 18 <= v.len());
    assert(first_occurrence(low@, url_suffix(), start as int) == Some(q as int));
    if valid_host_exec(v, start + 8, q) {
        let url = crate::text::slice_of(v, start, q + 18);
        let trimmed = strip_end_vec(&url, CharClass::Is('/'));
        proof {
            assert(announces_at(v@, low@, start as int));
            assert forall|t: int| from <= t < start implies !announces_at(v@, low@, t) by {
                assert(!occurs_at(low@, prefix@, t));
            }
            assert(low@.subrange(q as int, q + 18)[17] == suffix@[17]);
            assert(low@[q + 17] == lower_char(v@[q + 17]));
            assert(url@.last() == v@[q + 17]);
            crate::text::lemma_strip_end_fixed(url@, CharClass::Is('/'));
        }
        return ScanStep::Done(Some(string_of(&trimmed)));
    }
    proof {
        assert forall|t: int| from <= t < start + 8 implies !#[trigger] announces_at(v@, low@, t) by {
            if t < start {
                assert(!occurs_at(low@, prefix@, t));
            } else if t > start && occurs_at(low@, prefix@, t) {
                assert(low@.subrange(start as int, start + 8)[t - start] == prefix@[t - start]);
                assert(low@.subrange(t, t + 8)[0] == prefix@[0]);
                assert(low@[t] == prefix@[0]);
            }
        }
    }
    ScanStep::Next(start + 8)
}

/// The quick-tunnel URL announced in a `cloudflared` log line.
pub fn extract_trycloudflare_url(line: &str) -> (r: Option<String>)
    ensures
        match r {
            Some(u) => quick_url_in(line@) == Some(u@),
            None => quick_url_in(line@) is None,
        },
{
    proof {
        reveal_strlit("https://");
        reveal_strlit(".trycloudflare.com");
    }
    let v = chars_of(line);
    let low = lower_vec(&v);
    let prefix = chars_of("https://");
    let suffix = chars_of(".trycloudflare.com");
    let mut from: usize = 0;
    while from <= v.len()
        invariant
            v@ == line@,
            low@ == lower(line@),
            prefix@ == url_prefix(),
            suffix@ == url_suffix(),
            prefix@.len() == 8,
            suffix@.len() == 18,
            from <= v.len() + 1,
            forall|t: int| 0 <= t < from ==> !#[trigger] announces_at(line@, low@, t),
        decreases v.len() + 1 - from,
    {
        match scan_step(&v, &low, &prefix, &suffix, from) {
            ScanStep::Done(Some(u)) => {
                proof {
                    let s = choose|s: int|
                        from <= s && #[trigger] announces_at(v@, low@, s) && (forall|t: int|
                            from <= t < s ==> !announces_at(v@, low@, t)) && u@ == v@.subrange(
                            s,
                            first_occurrence(low@, url_suffix(), s)->0 + 18,
                        );
                    lemma_first_announcement(line@, low@, 0, s);
                }
                return Some(u);
            },
            ScanStep::Done(None) => {
                proof {
                    assert forall|t: int| 0 <= t implies !#[trigger] announces_at(line@, low@, t) by {
                        if t < from {
                        }
                    }
                    assert(first_announcement(line@, low@, 0) is None);
                }
                return None;
            },
            ScanStep::Next(n) => {
                from = n;
            },
        }
    }
    proof {
        assert forall|t: int| 0 <= t implies !#[trigger] announces_at(line@, low@, t) by {
            if t >= from {
                assert(!occurs_at(low@, url_prefix(), t));
            }
        }
        assert(first_announcement(line@, low@, 0) is None);
    }
    None
}

/// `cloudflared` has registered an edge connection for a named tunnel
/// (`lowered_line` is already ASCII-lowercased).
pub fn is_named_tunnel_ready_line(lowered_line: &str) -> (r: bool)
    ensures
        r == contains(lowered_line@, "registered tunnel connection"@),
{
    let v = chars_of(lowered_line);
    let p = chars_of("registered tunnel connection");
    contains_vec(&v, &p)
}

fn eq_lit(s: &str, lit: &str) -> (r: bool)
    ensures
        r == (s@ == lit@),
{
    let a = chars_of(s);
    let b = chars_of(lit);
    eq_vec(&a, &b)
}

pub open spec fn unsupported_platform_message(os: Seq<char>, arch: Seq<char>) -> Seq<char> {
    "当前平台暂不支持自动下载 cloudflared: "@ + os + "/"@ + arch
}

/// The `cloudflared` release asset for an OS / architecture pair.
pub fn cloudflared_release_asset(os: &str, arch: &str) -> (r: Result<&'static str, String>)
    ensures
        os@ == "linux"@ && arch@ == "x86_64"@ ==> (r matches Ok(a) && a@
            == "cloudflared-linux-amd64"@),
        os@ == "linux"@ && arch@ == "aarch64"@ ==> (r matches Ok(a) && a@
            == "cloudflared-linux-arm64"@),
        os@ == "windows"@ && arch@ == "x86_64"@ ==> (r matches Ok(a) && a@
            == "cloudflared-windows-amd64.exe"@),
        !(os@ == "linux"@ && arch@ == "x86_64"@) && !(os@ == "linux"@ && arch@ == "aarch64"@)
            && !(os@ == "windows"@ && arch@ == "x86_64"@) ==> (r matches Err(m) && m@
            == unsupported_platform_message(os@, arch@)),
{
    proof {
        broadcast use vstd::string::group_string_axioms;

        reveal_strlit("linux");
        reveal_strlit("windows");
        reveal_strlit("x86_64");
        reveal_strlit("aarch64");
        assert("aarch64"@ != "x86_64"@) by {
            assert("aarch64"@.len() == 7);
        }
        assert("windows"@ != "linux"@) by {
            assert("windows"@.len() == 7);
        }
    }
    if eq_lit(os, "linux") && eq_lit(arch, "x86_64") {
        Ok("cloudflared-linux-amd64")
    } else if eq_lit(os, "linux") && eq_lit(arch, "aarch64") {
        Ok("cloudflared-linux-arm64")
    } else if eq_lit(os, "windows") && eq_lit(arch, "x86_64") {
        Ok("cloudflared-windows-amd64.exe")
    } else {
        let a = cat(&chars_of("当前平台暂不支持自动下载 cloudflared: "), &chars_of(os));
        let b = cat(&a, &chars_of("/"));
        Err(string_of(&cat(&b, &chars_of(arch))))
    }
}

/// Name of the `cloudflared` executable on this (Linux) platform.
pub fn cloudflared_binary_name() -> (r: &'static str)
    ensures
        r@ == "cloudflared"@,
{
    "cloudflared"
}

/// The proxy a tunnel child process is given: the trimmed manual URL in
/// `manual` mode (when not blank); in `system` mode the first non-empty of
/// `HTTPS_PROXY`, `HTTP_PROXY`, `ALL_PROXY`; otherwise none.
pub open spec fn proxy_choice(
    mode: Seq<char>,
    url: Seq<char>,
    https_proxy: Option<Seq<char>>,
    http_proxy: Option<Seq<char>>,
    all_proxy: Option<Seq<char>>,
) -> Option<Seq<char>> {
    if mode == "manual"@ && trim(url).len() > 0 {
        Some(trim(url))
    } else if mode == "system"@ {
        if https_proxy is Some && https_proxy->0.len() > 0 {
            https_proxy
        } else if http_proxy is Some && http_proxy->0.len() > 0 {
            http_proxy
        } else if all_proxy is Some && all_proxy->0.len() > 0 {
            all_proxy
        } else {
            None
        }
    } else {
        None
    }
}

pub open spec fn opt_string_view(o: Option<String>) -> Option<Seq<char>> {
    match o {
        Some(s) => Some(s@),
        None => None,
    }
}

fn non_empty(o: &Option<String>) -> (r: bool)
    ensures
        r == (o is Some && o->0@.len() > 0),
{
    match o {
        Some(s) => chars_of_string(s).len() > 0,
        None => false,
    }
}

/// Which proxy URL a tunnel child process is given (see `proxy_choice`);
/// the environment values are passed in by the caller.
pub fn proxy_url_for(
    mode: &str,
    url: &str,
    https_proxy: Option<String>,
    http_proxy: Option<String>,
    all_proxy: Option<String>,
) -> (r: Option<String>)
    ensures
        opt_string_view(r) == proxy_choice(
            mode@,
            url@,
            opt_string_view(https_proxy),
            opt_string_view(http_proxy),
            opt_string_view(all_proxy),
        ),
{
    proof {
        broadcast use vstd::string::group_string_axioms;

        reveal_strlit("manual");
        reveal_strlit("system");
        assert("manual"@ != "system"@) by {
            assert("manual"@[0] == 'm');
        }
    }
    if eq_lit(mode, "manual") {
        let t = trim_vec(&chars_of(url));
        if t.len() > 0 {
            return Some(string_of(&t));
        }
        return None;
    }
    if eq_lit(mode, "system") {
        if non_empty(&https_proxy) {
            return https_proxy;
        }
        if non_empty(&http_proxy) {
            return http_proxy;
        }
        if non_empty(&all_proxy) {
            return all_proxy;
        }
    }
    None
}

pub open spec fn named_token_message() -> Seq<char> {
    "Cloudflare 命名隧道模式需要填写 Tunnel Token。"@
}

pub open spec fn named_url_message() -> Seq<char> {
    "Cloudflare 命名隧道模式需要填写固定公网地址。"@
}

/// Checks a tunnel request; answers whether it is a quick tunnel (every
/// mode but `named`).  A named tunnel needs a token and a public URL.
pub fn check_cloudflare_request(mode: &str, token: &str, named_public_url: &str) -> (r: Result<
    bool,
    String,
>)
    ensures
        mode@ != "named"@ ==> r == Ok::<bool, String>(true),
        mode@ == "named"@ && trim(token@).len() == 0 ==> (r matches Err(m) && m@
            == named_token_message()),
        mode@ == "named"@ && trim(token@).len() > 0 && trim(named_public_url@).len() == 0
            ==> (r matches Err(m) && m@ == named_url_message()),
        mode@ == "named"@ && trim(token@).len() > 0 && trim(named_public_url@).len() > 0
            ==> r == Ok::<bool, String>(false),
{
    if !eq_lit(mode, "named") {
        return Ok(true);
    }
    if trim_vec(&chars_of(token)).len() == 0 {
        return Err(string_of(&chars_of("Cloudflare 命名隧道模式需要填写 Tunnel Token。")));
    }
    if trim_vec(&chars_of(named_public_url)).len() == 0 {
        return Err(string_of(&chars_of("Cloudflare 命名隧道模式需要填写固定公网地址。")));
    }
    Ok(false)
}

pub open spec fn quick_tunnel_target(port: u16) -> Seq<char> {
    "http://127.0.0.1:"@ + decimal(port as nat)
}

/// The `cloudflared` arguments: `tunnel --url http://127.0.0.1:<port>` for
/// a quick tunnel, `tunnel --protocol http2 run --token <token>` otherwise.
pub fn cloudflare_tunnel_args(quick: bool, port: u16, token: &str) -> (r: Vec<String>)
    ensures
        quick ==> r@.len() == 3 && r@[0]@ == "tunnel"@ && r@[1]@ == "--url"@ && r@[2]@
            == quick_tunnel_target(port),
        !quick ==> r@.len() == 6 && r@[0]@ == "tunnel"@ && r@[1]@ == "--protocol"@ && r@[2]@
            == "http2"@ && r@[3]@ == "run"@ && r@[4]@ == "--token"@ && r@[5]@ == trim(token@),
{
    let mut r: Vec<String> = Vec::new();
    r.push(String::from_str("tunnel"));
    if quick {
        r.push(String::from_str("--url"));
        let target = cat(&chars_of("http://127.0.0.1:"), &decimal_of(port as u64));
        r.push(string_of(&target));
    } else {
        r.push(String::from_str("--protocol"));
        r.push(String::from_str("http2"));
        r.push(String::from_str("run"));
        r.push(String::from_str("--token"));
        r.push(string_of(&trim_vec(&chars_of(token))));
    }
    r
}

/// What the output watcher hands to the waiting starter, once.
pub struct TunnelReady {
    pub public_url: Option<String>,
    pub named_ready: bool,
}

/// Watches `cloudflared` output lines until the tunnel is ready.
pub struct TunnelWatch {
    quick: bool,
    named_url: String,
    public_url: Option<String>,
    sent: bool,
}

impl TunnelWatch {
    pub closed spec fn is_quick(&self) -> bool {
        self.quick
    }

    /// The named public URL with trailing `/` removed.
    pub closed spec fn named(&self) -> Seq<char> {
        self.named_url@
    }

    /// The quick-tunnel URL seen so far.
    pub closed spec fn seen_url(&self) -> Option<Seq<char>> {
        opt_string_view(self.public_url)
    }

    /// Whether readiness has been reported.
    pub closed spec fn reported(&self) -> bool {
        self.sent
    }

    pub fn new(quick: bool, named_public_url: &str) -> (r: Self)
        ensures
            r.is_quick() == quick,
            r.named() == strip_end(named_public_url@, CharClass::Is('/')),
            r.seen_url() is None,
            !r.reported(),
    {
        let v = chars_of(named_public_url);
        TunnelWatch {
            quick,
            named_url: string_of(&strip_end_vec(&v, CharClass::Is('/'))),
            public_url: None,
            sent: false,
        }
    }

    fn send(&mut self, url: Option<String>, named_ready: bool) -> (r: Option<TunnelReady>)
        ensures
            final(self).quick == old(self).quick,
            final(self).named_url == old(self).named_url,
            final(self).public_url == old(self).public_url,
            final(self).sent,
            old(self).sent ==> r is None,
            !old(self).sent ==> (r matches Some(t) && t.public_url == url && t.named_ready
                == named_ready),
    {
        if self.sent {
            None
        } else {
            self.sent = true;
            Some(TunnelReady { public_url: url, named_ready })
        }
    }

    /// Feeds one output line.  A quick tunnel reports the first URL found
    /// in the output; a named tunnel reports its configured URL once
    /// `cloudflared` logs a registered tunnel connection.  Readiness is
    /// reported at most once.
    pub fn on_line(&mut self, line: &str) -> (r: Option<TunnelReady>)
        ensures
            final(self).is_quick() == old(self).is_quick(),
            final(self).named() == old(self).named(),
            old(self).reported() ==> r is None,
            r is Some ==> final(self).reported(),
            old(self).reported() ==> final(self).reported(),
            old(self).is_quick() ==> {
                if old(self).seen_url() is None && quick_url_in(line@) is Some {
                    &&& final(self).seen_url() == quick_url_in(line@)
                    &&& !old(self).reported() ==> (r matches Some(t) && opt_string_view(
                        t.public_url,
                    ) == quick_url_in(line@) && !t.named_ready
                )} else {
                    &&& final(self).seen_url() == old(self).seen_url()
                    &&& r is None
                    &&& final(self).reported() == old(self).reported()
                }
            },
            !old(self).is_quick() ==> {
                &&& final(self).seen_url() == old(self).seen_url()
                &&& if contains(lower(line@), "registered tunnel connection"@) {
                    !old(self).reported() ==> (r matches Some(t) && opt_string_view(t.public_url)
                        == Some(old(self).named()) && t.named_ready
                )} else {
                    r is None && final(self).reported() == old(self).reported()
                }
            },
    {
        if self.quick {
            if self.public_url.is_none() {
                if let Some(url) = extract_trycloudflare_url(line) {
                    self.public_url = Some(url.clone());
                    return self.send(Some(url), false);
                }
            }
            None
        } else {
            let lowered = string_of(&lower_vec(&chars_of(line)));
            if is_named_tunnel_ready_line(lowered.as_str()) {
                let url = self.named_url.clone();
                return self.send(Some(url), true);
            }
            None
        }
    }

    /// The output ended: reports (if not yet reported) the URL seen, and
    /// whether this is a named tunnel.
    pub fn on_end(&mut self) -> (r: Option<TunnelReady>)
        ensures
            final(self).reported(),
            old(self).reported() ==> r is None,
            !old(self).reported() ==> (r matches Some(t) && opt_string_view(t.public_url)
                == old(self).seen_url() && t.named_ready == !old(self).is_quick()),
    {
        let url = self.public_url.clone();
        let q = self.quick;
        self.send(url, !q)
    }

    /// The log file could not be opened: reports (if not yet reported) the
    /// named URL for a named tunnel and nothing for a quick one.
    pub fn on_log_unavailable(&mut self) -> (r: Option<TunnelReady>)
        ensures
            final(self).reported(),
            old(self).reported() ==> r is None,
            !old(self).reported() ==> (r matches Some(t) && t.named_ready == !old(self).is_quick()
                && (old(self).is_quick() ==> t.public_url is None) && (!old(self).is_quick()
                ==> opt_string_view(t.public_url) == Some(old(self).named()))),
    {
        let q = self.quick;
        let url = if q {
            None
        } else {
            Some(self.named_url.clone())
        };
        self.send(url, !q)
    }
}

pub open spec fn missing_quick_url_message(log_path: Seq<char>) -> Seq<char> {
    "cloudflared 已启动，但没有解析到 trycloudflare.com 地址。请查看日志："@ + log_path
}

/// The public URL of a started tunnel: the reported quick URL (an error
/// naming the log when none was found), or the named URL without trailing
/// `/`.
pub fn tunnel_public_url(
    quick: bool,
    ready: TunnelReady,
    named_public_url: &str,
    log_path: &str,
) -> (r: Result<String, String>)
    ensures
        quick ==> match ready.public_url {
            Some(u) => r == Ok::<String, String>(u),
            None => r matches Err(m) && m@ == missing_quick_url_message(log_path@),
        },
        !quick ==> (r matches Ok(u) && u@ == strip_end(named_public_url@, CharClass::Is('/'))),
{
    if quick {
        match ready.public_url {
            Some(u) => Ok(u),
            None => Err(
                string_of(
                    &cat(
                        &chars_of("cloudflared 已启动，但没有解析到 trycloudflare.com 地址。请查看日志："),
                        &chars_of(log_path),
                    ),
                ),
            ),
        }
    } else {
        Ok(string_of(&strip_end_vec(&chars_of(named_public_url), CharClass::Is('/'))))
    }
}

/// The installed `cloudflared`: the first platform candidate that is a
/// file, else the cached download when it is a file.
pub open spec fn resolve_spec(candidates: Seq<(String, bool)>, cached: Option<(String, bool)>) -> Option<
    Seq<char>,
>
    decreases candidates.len(),
{
    if candidates.len() > 0 {
        if candidates[0].1 {
            Some(candidates[0].0@)
        } else {
            resolve_spec(candidates.drop_first(), cached)
        }
    } else {
        match cached {
            Some((p, true)) => Some(p@),
            _ => None,
        }
    }
}

/// Picks the `cloudflared` binary from candidate paths, each with whether
/// it is a file.
pub fn resolve_cloudflared(candidates: &Vec<(String, bool)>, cached: Option<(String, bool)>) -> (r:
    Result<String, String>)
    ensures
        match resolve_spec(candidates@, cached) {
            Some(p) => r matches Ok(q) && q@ == p,
            None => r matches Err(e) && e@ == "未找到 cloudflared。"@,
        },
{
    let mut i: usize = 0;
    assert(candidates@.skip(0) =~= candidates@);
    while i < candidates.len()
        invariant
            0 <= i <= candidates.len(),
            resolve_spec(candidates@, cached) == resolve_spec(candidates@.skip(i as int), cached),
        decreases candidates.len() - i,
    {
        assert(candidates@.skip(i as int).drop_first() =~= candidates@.skip(i + 1));
        if candidates[i].1 {
            return Ok(candidates[i].0.clone());
        }
        i = i + 1;
    }
    assert(candidates@.skip(i as int).len() == 0);
    match cached {
        Some((p, true)) => Ok(p),
        _ => Err(string_of(&chars_of("未找到 cloudflared。"))),
    }
}

/// Where a release asset is downloaded from.
pub fn cloudflared_release_url(asset: &str) -> (r: String)
    ensures
        r@ == "https://github.com/cloudflare/cloudflared/releases/latest/download/"@ + asset@,
{
    string_of(
        &cat(&chars_of("https://github.com/cloudflare/cloudflared/releases/latest/download/"), &chars_of(asset)),
    )
}

/// A download with no bytes is refused before anything is written.
pub fn check_downloaded_binary(len: usize) -> (r: Result<(), String>)
    ensures
        r is Ok <==> len > 0,
        r matches Err(e) ==> e@ == "下载的 cloudflared 文件为空。"@,
{
    if len == 0 {
        Err(string_of(&chars_of("下载的 cloudflared 文件为空。")))
    } else {
        Ok(())
    }
}

/// The name of the temporary file a download is written to before it is
/// moved in place: `.<name>.download-<random hex>` (the name defaults to
/// `cloudflared`).
pub fn download_temp_name(file_name: Option<&str>) -> (r: String)
    ensures
        exists|u: Seq<char>|
            u.len() == 32 && r@ == "."@ + (match file_name {
                Some(n) => n@,
                None => "cloudflared"@,
            }) + ".download-"@ + u,
{
    let name = match file_name {
        Some(n) => chars_of(n),
        None => chars_of("cloudflared"),
    };
    let u = random_simple_uuid();
    let x = cat(&chars_of("."), &name);
    let x = cat(&x, &chars_of(".download-"));
    string_of(&cat(&x, &chars_of_string(&u)))
}

/// The environment variables a tunnel child process gets for a proxy.
pub fn proxy_env_vars(url: &str) -> (r: Vec<(String, String)>)
    ensures
        r@.len() == 7,
        forall|i: int| 0 <= i < 7 ==> #[trigger] r@[i].1@ == url@,
        r@[0].0@ == "HTTPS_PROXY"@,
        r@[1].0@ == "HTTP_PROXY"@,
        r@[2].0@ == "https_proxy"@,
        r@[3].0@ == "http_proxy"@,
        r@[4].0@ == "ALL_PROXY"@,
        r@[5].0@ == "all_proxy"@,
        r@[6].0@ == "TUNNEL_HTTP_PROXY"@,
{
    let u = chars_of(url);
    let mut r: Vec<(String, String)> = Vec::new();
    r.push((string_of(&chars_of("HTTPS_PROXY")), string_of(&u)));
    r.push((string_of(&chars_of("HTTP_PROXY")), string_of(&u)));
    r.push((string_of(&chars_of("https_proxy")), string_of(&u)));
    r.push((string_of(&chars_of("http_proxy")), string_of(&u)));
    r.push((string_of(&chars_of("ALL_PROXY")), string_of(&u)));
    r.push((string_of(&chars_of("all_proxy")), string_of(&u)));
    r.push((string_of(&chars_of("TUNNEL_HTTP_PROXY")), string_of(&u)));
    r
}

} // verus!
