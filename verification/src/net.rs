//! Listener addresses as the gateway reasons about them.
//!
//! The textual parse of an address (`str::parse::<IpAddr>`) is done by the
//! caller; the library receives its outcome as a `HostAddr` and decides
//! reachability and the displayed host from it.

use vstd::prelude::*;

use crate::text::{cat, chars_of, decimal, decimal_of, eq_vec, lower, lower_vec, string_of, trim, trim_vec};

verus! {

/// Outcome of parsing a listener host as an IP address.
pub enum HostAddr {
    /// An IPv4 address, by octets.
    V4(u8, u8, u8, u8),
    /// An IPv6 address, by segments, with its canonical text form.
    V6([u16; 8], String),
    /// Not an IP address.
    NotIp,
}

pub open spec fn v6_all_zero(s: [u16; 8]) -> bool {
    forall|i: int| 0 <= i < 8 ==> s@[i] == 0
}

/// `IpAddr::is_unspecified`: `0.0.0.0` or `::`.
pub open spec fn is_unspecified(h: HostAddr) -> bool {
    match h {
        HostAddr::V4(a, b, c, d) => a == 0 && b == 0 && c == 0 && d == 0,
        HostAddr::V6(s, _) => v6_all_zero(s),
        HostAddr::NotIp => false,
    }
}

/// `IpAddr::is_loopback`: `127.0.0.0/8` or `::1`.
pub open spec fn is_loopback(h: HostAddr) -> bool {
    match h {
        HostAddr::V4(a, _, _, _) => a == 127,
        HostAddr::V6(s, _) => (forall|i: int| 0 <= i < 7 ==> s@[i] == 0) && s@[7] == 1,
        HostAddr::NotIp => false,
    }
}

fn v6_zero_prefix(s: &[u16; 8], n: usize) -> (r: bool)
    requires
        n <= 8,
    ensures
        r == forall|i: int| 0 <= i < n ==> s@[i] == 0,
{
    let mut i: usize = 0;
    while i < n
        invariant
            0 <= i <= n <= 8,
            forall|j: int| 0 <= j < i ==> s@[j] == 0,
        decreases n - i,
    {
        if s[i] != 0 {
            return false;
        }
        i = i + 1;
    }
    true
}

pub fn host_is_unspecified(h: &HostAddr) -> (r: bool)
    ensures
        r == is_unspecified(*h),
{
    match h {
        HostAddr::V4(a, b, c, d) => *a == 0 && *b == 0 && *c == 0 && *d == 0,
        HostAddr::V6(s, _) => v6_zero_prefix(s, 8),
        HostAddr::NotIp => false,
    }
}

pub fn host_is_loopback(h: &HostAddr) -> (r: bool)
    ensures
        r == is_loopback(*h),
{
    match h {
        HostAddr::V4(a, _, _, _) => *a == 127,
        HostAddr::V6(s, _) => v6_zero_prefix(s, 7) && s[7] == 1,
        HostAddr::NotIp => false,
    }
}

/// Dotted-quad text of an IPv4 address.
pub open spec fn v4_text(a: u8, b: u8, c: u8, d: u8) -> Seq<char> {
    decimal(a as nat) + "."@ + decimal(b as nat) + "."@ + decimal(c as nat) + "."@ + decimal(
        d as nat,
    )
}

pub fn v4_text_exec(a: u8, b: u8, c: u8, d: u8) -> (r: Vec<char>)
    ensures
        r@ == v4_text(a, b, c, d),
{
    let dot = chars_of(".");
    let x = cat(&decimal_of(a as u64), &dot);
    let x = cat(&x, &decimal_of(b as u64));
    let x = cat(&x, &dot);
    let x = cat(&x, &decimal_of(c as u64));
    let x = cat(&x, &dot);
    cat(&x, &decimal_of(d as u64))
}

/// The text the Web Console's listener address is read from (as an IP
/// address, by the caller): `localhost`, in any case, stands for
/// `127.0.0.1`; any other text is taken trimmed.
pub open spec fn admin_bind_text_spec(value: Seq<char>) -> Seq<char> {
    if lower(trim(value)) == "localhost"@ {
        "127.0.0.1"@
    } else {
        trim(value)
    }
}

pub fn admin_bind_text(value: &str) -> (r: String)
    ensures
        r@ == admin_bind_text_spec(value@),
{
    let t = trim_vec(&chars_of(value));
    if eq_vec(&lower_vec(&t), &chars_of("localhost")) {
        string_of(&chars_of("127.0.0.1"))
    } else {
        string_of(&t)
    }
}

/// The refusal of a Web Console listener address that is not an IP
/// address: `Admin 监听地址无效: ` and the trimmed text.
pub fn invalid_admin_host_message(value: &str) -> (r: String)
    ensures
        r@ == "Admin 监听地址无效: "@ + trim(value@),
{
    string_of(&cat(&chars_of("Admin 监听地址无效: "), &trim_vec(&chars_of(value))))
}

} // verus!
