//! The rules of the per-conversation history archive: session keys and
//! arguments, paging of searches and of archive reads (byte cursors on
//! UTF-8 boundaries), bounded state lists, the latest revision of each
//! turn, references, and the status of the derived files.

use sha2::Digest;
use vstd::prelude::*;
use vstd::string::*;

use crate::text::{cat, chars_of, chars_of_string, decimal, decimal_of, eq_vec, string_of, trim, trim_vec};

verus! {

broadcast use {vstd::string::group_string_axioms, vstd::utf8::group_utf8_lib};

pub const MAX_SESSION_KEY_BYTES: usize = 4096;

pub const STATE_ITEM_LIMIT: usize = 12;

pub const STATE_TEXT_LIMIT: usize = 512;

pub const STATE_REFERENCE_LIMIT: usize = 8;

pub const STATE_FOCUS_LIMIT: usize = 2048;

pub const DEFAULT_SEARCH_LIMIT: usize = 10;

pub const MAX_SEARCH_LIMIT: usize = 50;

/// A read returns 32 KiB per page unless asked otherwise, at most 64 KiB.
pub const DEFAULT_READ_MAX_BYTES: usize = 32768;

pub const MAX_READ_MAX_BYTES: usize = 65536;

/// A value in the details of a history error.
#[derive(Debug)]
pub enum DetailValue {
    Number(u64),
    Text(String),
    Texts(Vec<String>),
}

#[derive(Debug)]
pub struct Detail {
    pub key: String,
    pub value: DetailValue,
}

/// A structured history-tool error.
#[derive(Debug)]
pub struct HistoryError {
    pub code: String,
    pub message: String,
    pub category: String,
    pub retryable: bool,
    pub details: Vec<Detail>,
}

pub open spec fn error_is(e: HistoryError, code: Seq<char>, message: Seq<char>, category: Seq<char>, retryable: bool) -> bool {
    &&& e.code@ == code
    &&& e.message@ == message
    &&& e.category@ == category
    &&& e.retryable == retryable
}

fn history_error(code: &str, message: &str, category: &str, retryable: bool, details: Vec<Detail>) -> (r: HistoryError)
    ensures
        error_is(r, code@, message@, category@, retryable),
        r.details == details,
{
    HistoryError {
        code: string_of(&chars_of(code)),
        message: string_of(&chars_of(message)),
        category: string_of(&chars_of(category)),
        retryable,
        details,
    }
}

fn number_detail(key: &str, value: u64) -> (r: Detail)
    ensures
        r.key@ == key@,
        r.value == DetailValue::Number(value),
{
    Detail { key: string_of(&chars_of(key)), value: DetailValue::Number(value) }
}

fn text_detail(key: &str, value: &str) -> (r: Detail)
    ensures
        r.key@ == key@,
        r.value matches DetailValue::Text(t) && t@ == value@,
{
    Detail { key: string_of(&chars_of(key)), value: DetailValue::Text(string_of(&chars_of(value))) }
}

/// Byte length of the UTF-8 encoding.
pub open spec fn byte_len(s: Seq<char>) -> nat {
    vstd::utf8::encode_utf8(s).len()
}

pub proof fn lemma_encode_concat(a: Seq<char>, b: Seq<char>)
    ensures
        vstd::utf8::encode_utf8(a + b) == vstd::utf8::encode_utf8(a) + vstd::utf8::encode_utf8(b),
    decreases a.len(),
{
    if a.len() == 0 {
        assert(a + b =~= b);
        assert(vstd::utf8::encode_utf8(a) =~= Seq::<u8>::empty());
        assert(vstd::utf8::encode_utf8(a) + vstd::utf8::encode_utf8(b) =~= vstd::utf8::encode_utf8(b));
    } else {
        assert((a + b).drop_first() =~= a.drop_first() + b);
        assert((a + b)[0] == a[0]);
        lemma_encode_concat(a.drop_first(), b);
        assert(vstd::utf8::encode_scalar(a[0] as u32) + (vstd::utf8::encode_utf8(a.drop_first())
            + vstd::utf8::encode_utf8(b)) =~= vstd::utf8::encode_scalar(a[0] as u32)
            + vstd::utf8::encode_utf8(a.drop_first()) + vstd::utf8::encode_utf8(b));
    }
}

/// Bytes of one character in UTF-8.
fn char_width(c: char) -> (w: usize)
    ensures
        w == vstd::utf8::encode_scalar(c as u32).len(),
        1 <= w <= 4,
{
    let u = c as u32;
    if u <= 0x7f {
        1
    } else if u <= 0x7ff {
        2
    } else if u <= 0xffff {
        3
    } else {
        4
    }
}

proof fn lemma_byte_len_step(s: Seq<char>, i: int)
    requires
        0 <= i < s.len(),
    ensures
        byte_len(s.take(i + 1)) == byte_len(s.take(i)) + vstd::utf8::encode_scalar(s[i] as u32).len(),
        byte_len(s.take(i + 1)) <= byte_len(s),
{
    assert(s.take(i + 1) =~= s.take(i) + seq![s[i]]);
    lemma_encode_concat(s.take(i), seq![s[i]]);
    assert(seq![s[i]].drop_first() =~= Seq::<char>::empty());
    assert(vstd::utf8::encode_utf8(Seq::<char>::empty()) =~= Seq::<u8>::empty());
    assert(vstd::utf8::encode_utf8(seq![s[i]]) =~= vstd::utf8::encode_scalar(s[i] as u32));
    assert(s =~= s.take(i + 1) + s.skip(i + 1));
    lemma_encode_concat(s.take(i + 1), s.skip(i + 1));
}

/// `byte_len(v)` when it is at most `cap`, otherwise some value above it.
fn byte_len_capped(v: &[char], cap: usize) -> (r: usize)
    requires
        cap <= 0x10000,
    ensures
        byte_len(v@) <= cap ==> r == byte_len(v@),
        byte_len(v@) > cap ==> r > cap,
{
    let mut total: usize = 0;
    let mut i: usize = 0;
    while i < v.len()
        invariant
            0 <= i <= v.len(),
            total == byte_len(v@.take(i as int)),
            total <= cap,
            cap <= 0x10000,
        decreases v.len() - i,
    {
        proof {
            lemma_byte_len_step(v@, i as int);
        }
        total = total + char_width(v[i]);
        i = i + 1;
        if total > cap {
            return total;
        }
    }
    assert(v@.take(v.len() as int) =~= v@);
    total
}

/// A session key within the supported size (4 KiB of UTF-8), returned
/// with the source it came from.
pub fn validate_session_key(value: &str, source: &'static str) -> (r: Result<
    (String, &'static str),
    HistoryError,
>)
    ensures
        match r {
            Ok((k, s)) => byte_len(value@) <= 4096 && k@ == value@ && s == source,
            Err(e) => byte_len(value@) > 4096 && error_is(
                e,
                "SESSION_ID_INVALID"@,
                "session_key exceeds the supported length limit."@,
                "validation"@,
                false,
            ) && e.details@.len() == 1 && e.details@[0].key@ == "maximum_bytes"@
                && e.details@[0].value == DetailValue::Number(4096),
        },
{
    let v = chars_of(value);
    if byte_len_capped(&v, MAX_SESSION_KEY_BYTES) <= MAX_SESSION_KEY_BYTES {
        return Ok((string_of(&v), source));
    }
    let mut details = Vec::new();
    details.push(number_detail("maximum_bytes", 4096));
    Err(
        history_error(
            "SESSION_ID_INVALID",
            "session_key exceeds the supported length limit.",
            "validation",
            false,
            details,
        ),
    )
}

pub open spec fn opt_view(o: Option<&str>) -> Option<Seq<char>> {
    match o {
        Some(s) => Some(s@),
        None => None,
    }
}

/// A string argument trimmed, when it is not blank.
pub open spec fn present(o: Option<Seq<char>>) -> Option<Seq<char>> {
    match o {
        Some(s) => if trim(s).len() > 0 {
            Some(trim(s))
        } else {
            None
        },
        None => None,
    }
}

fn present_exec(o: Option<&str>) -> (r: Option<String>)
    ensures
        match r {
            Some(s) => present(opt_view(o)) == Some(s@),
            None => present(opt_view(o)) is None,
        },
{
    match o {
        Some(s) => {
            let t = trim_vec(&chars_of(s));
            if t.len() > 0 {
                Some(string_of(&t))
            } else {
                None
            }
        },
        None => None,
    }
}

/// The session key of a history call: the explicit `session_key`
/// argument, else the host's conversation id; each trimmed and checked.
pub fn resolve_session_key(explicit: Option<&str>, host: Option<&str>) -> (r: Result<
    (String, &'static str),
    HistoryError,
>)
    ensures
        match present(opt_view(explicit)) {
            Some(k) => match r {
                Ok((key, source)) => byte_len(k) <= 4096 && key@ == k && source@
                    == "explicit_session_key"@,
                Err(e) => byte_len(k) > 4096 && e.code@ == "SESSION_ID_INVALID"@,
            },
            None => match present(opt_view(host)) {
                Some(k) => match r {
                    Ok((key, source)) => byte_len(k) <= 4096 && key@ == k && source@
                        == "platform_conversation_id"@,
                    Err(e) => byte_len(k) > 4096 && e.code@ == "SESSION_ID_INVALID"@,
                },
                None => r matches Err(e) && error_is(
                    e,
                    "SESSION_ID_UNAVAILABLE"@,
                    "A stable ChatGPT session identifier is required."@,
                    "validation"@,
                    false,
                ) && e.details@.len() == 0,
            },
        },
{
    if let Some(k) = present_exec(explicit) {
        return validate_session_key(k.as_str(), "explicit_session_key");
    }
    if let Some(k) = present_exec(host) {
        return validate_session_key(k.as_str(), "platform_conversation_id");
    }
    Err(
        history_error(
            "SESSION_ID_UNAVAILABLE",
            "A stable ChatGPT session identifier is required.",
            "validation",
            false,
            Vec::new(),
        ),
    )
}

/// A required checkpoint argument (`session_key` or `expected_path`):
/// present and not blank; a session key also within its size limit.
pub fn required_checkpoint_argument(value: Option<&str>, name: &str) -> (r: Result<
    String,
    HistoryError,
>)
    ensures
        match present(opt_view(value)) {
            None => r matches Err(e) && error_is(
                e,
                "CHECKPOINT_TARGET_REQUIRED"@,
                "Pass session_key and expected_path exactly as returned by history_session_bootstrap."@,
                "validation"@,
                false,
            ) && e.details@.len() == 1 && e.details@[0].key@ == "missing_argument"@
                && (e.details@[0].value matches DetailValue::Text(t) && t@ == name@),
            Some(v) => if name@ == "session_key"@ {
                match r {
                    Ok(k) => byte_len(v) <= 4096 && k@ == v,
                    Err(e) => byte_len(v) > 4096 && e.code@ == "SESSION_ID_INVALID"@,
                }
            } else {
                r matches Ok(k) && k@ == v
            },
        },
{
    let v = match present_exec(value) {
        Some(v) => v,
        None => {
            let mut details = Vec::new();
            details.push(text_detail("missing_argument", name));
            return Err(
                history_error(
                    "CHECKPOINT_TARGET_REQUIRED",
                    "Pass session_key and expected_path exactly as returned by history_session_bootstrap.",
                    "validation",
                    false,
                    details,
                ),
            );
        },
    };
    if eq_vec(&chars_of(name), &chars_of("session_key")) {
        return match validate_session_key(v.as_str(), "explicit_session_key") {
            Ok((k, _)) => Ok(k),
            Err(e) => Err(e),
        };
    }
    Ok(v)
}

/// What a request holds for a numeric argument.
pub enum NumberArg {
    Absent,
    /// Present but not an unsigned integer.
    Invalid,
    Value(u64),
}

pub open spec fn bound_message(name: Seq<char>) -> Seq<char> {
    name + " is outside the allowed range."@
}

/// A numeric argument within `0..=maximum` (`limit` and `max_bytes` also
/// above 0), or `default` when absent.
pub open spec fn bounded_spec(arg: NumberArg, name: Seq<char>, default: usize, maximum: usize) -> Option<
    usize,
> {
    match arg {
        NumberArg::Absent => Some(default),
        NumberArg::Invalid => None,
        NumberArg::Value(v) => if v > usize::MAX || v > maximum || ((name == "limit"@ || name
            == "max_bytes"@) && v == 0) {
            None
        } else {
            Some(v as usize)
        },
    }
}

pub fn bounded_usize(arg: &NumberArg, name: &str, default: usize, maximum: usize) -> (r: Result<
    usize,
    HistoryError,
>)
    ensures
        match bounded_spec(*arg, name@, default, maximum) {
            Some(v) => r == Ok::<usize, HistoryError>(v),
            None => r matches Err(e) && error_is(
                e,
                "HISTORY_CURSOR_INVALID"@,
                bound_message(name@),
                "validation"@,
                false,
            ),
        },
{
    let n = chars_of(name);
    let value = match arg {
        NumberArg::Absent => {
            return Ok(default);
        },
        NumberArg::Invalid => {
            return Err(invalid_bound(name, maximum));
        },
        NumberArg::Value(v) => *v,
    };
    if value > usize::MAX as u64 {
        return Err(invalid_bound(name, maximum));
    }
    let value = value as usize;
    let positive_only = eq_vec(&n, &chars_of("limit")) || eq_vec(&n, &chars_of("max_bytes"));
    if value > maximum || (positive_only && value == 0) {
        return Err(invalid_bound(name, maximum));
    }
    Ok(value)
}

fn invalid_bound(name: &str, maximum: usize) -> (r: HistoryError)
    ensures
        error_is(r, "HISTORY_CURSOR_INVALID"@, bound_message(name@), "validation"@, false),
{
    let mut details = Vec::new();
    details.push(text_detail("argument", name));
    details.push(number_detail("maximum", maximum as u64));
    let message = string_of(&cat(&chars_of(name), &chars_of(" is outside the allowed range.")));
    HistoryError {
        code: string_of(&chars_of("HISTORY_CURSOR_INVALID")),
        message,
        category: string_of(&chars_of("validation")),
        retryable: false,
        details,
    }
}

/// `cursor` is a byte offset of `content` at a character boundary.
pub open spec fn valid_cursor(content: &str, cursor: usize) -> bool {
    cursor <= content.spec_bytes().len() && vstd::utf8::is_char_boundary(content.spec_bytes(), cursor as int)
}

pub fn validate_cursor(content: &str, cursor: usize) -> (r: Result<(), HistoryError>)
    requires
        byte_len(content@) <= usize::MAX,
    ensures
        r is Ok <==> valid_cursor(content, cursor),
        r matches Err(e) ==> error_is(
            e,
            "HISTORY_CURSOR_INVALID"@,
            "cursor must be a UTF-8 character boundary inside the archive."@,
            "validation"@,
            false,
        ),
{
    if cursor <= content.len() && content.is_char_boundary(cursor) {
        return Ok(());
    }
    let mut details = Vec::new();
    details.push(number_detail("cursor", cursor as u64));
    details.push(number_detail("total_bytes", content.len() as u64));
    Err(
        history_error(
            "HISTORY_CURSOR_INVALID",
            "cursor must be a UTF-8 character boundary inside the archive.",
            "validation",
            false,
            details,
        ),
    )
}

pub open spec fn boundary(content: &str, i: int) -> bool {
    vstd::utf8::is_char_boundary(content.spec_bytes(), i)
}

/// The end of a read page that starts at the boundary `cursor` and asks for
/// `requested` bytes: the last boundary within the request, or, when no
/// whole character fits, the end of the first character.
pub open spec fn page_end_ok(content: &str, cursor: usize, requested: usize, end: usize) -> bool {
    let len = content.spec_bytes().len();
    let limit = if cursor + requested > len {
        len as int
    } else {
        cursor + requested
    };
    &&& cursor <= end <= len
    &&& boundary(content, end as int)
    &&& (cursor < len ==> cursor < end)
    &&& if exists|b: int| cursor < b <= limit && boundary(content, b) {
        &&& end <= limit
        &&& forall|b: int| end < b <= limit ==> !boundary(content, b)
    } else {
        forall|b: int| cursor < b < end ==> !boundary(content, b)
    }
}

pub fn page_end(content: &str, cursor: usize, requested: usize) -> (end: usize)
    requires
        byte_len(content@) <= usize::MAX,
        valid_cursor(content, cursor),
    ensures
        page_end_ok(content, cursor, requested, end),
{
    let len = content.len();
    proof {
        vstd::utf8::is_char_boundary_start_end_of_seq(content.spec_bytes());
    }
    let mut end = if cursor.saturating_add(requested) < len {
        cursor + requested
    } else {
        len
    };
    let ghost limit = end as int;
    while end > cursor && !content.is_char_boundary(end)
        invariant
            cursor <= end <= limit <= len,
            len == content.spec_bytes().len(),
            valid_cursor(content, cursor),
            forall|b: int| end < b <= limit ==> !boundary(content, b),
        decreases end - cursor,
    {
        end = end - 1;
    }
    if end == cursor && end < len {
        let mut next = cursor + 1;
        while next < len && !content.is_char_boundary(next)
            invariant
                cursor < next <= len,
                len == content.spec_bytes().len(),
                boundary(content, len as int),
                forall|b: int| cursor < b < next ==> !boundary(content, b),
            decreases len - next,
        {
            next = next + 1;
        }
        assert(forall|b: int| cursor < b <= limit ==> !boundary(content, b));
        return next;
    }
    proof {
        if exists|b: int| cursor < b <= limit && boundary(content, b) {
            let b = choose|b: int| cursor < b <= limit && boundary(content, b);
            assert(end >= b);
        }
    }
    end
}

/// Law: reading page after page moves forward: a page that starts before
/// the end is never empty and ends on a boundary, so the next read starts
/// on a valid cursor.
pub proof fn law_pages_progress(content: &str, cursor: usize, requested: usize, end: usize)
    requires
        valid_cursor(content, cursor),
        page_end_ok(content, cursor, requested, end),
    ensures
        valid_cursor(content, end),
        cursor < content.spec_bytes().len() ==> cursor < end,
{
}

/// A page of search results: positions `start..end` of the sorted hits,
/// and where the next page starts, if there is more.
pub struct SearchPage {
    pub start: usize,
    pub end: usize,
    pub next_cursor: Option<usize>,
}

pub fn search_page(total: usize, cursor: usize, limit: usize) -> (r: SearchPage)
    ensures
        ({
            let end = if cursor + limit > total {
                total as int
            } else {
                cursor + limit
            };
            &&& r.end == end
            &&& r.start == (if cursor >= total {
                end
            } else {
                cursor as int
            })
            &&& r.next_cursor == (if end < total {
                Some(end as usize)
            } else {
                None
            })
        }),
{
    let end = if cursor.saturating_add(limit) < total {
        cursor + limit
    } else {
        total
    };
    let start = if cursor >= total {
        end
    } else {
        cursor
    };
    let next_cursor = if end < total {
        Some(end)
    } else {
        None
    };
    SearchPage { start, end, next_cursor }
}

/// Law: successive search pages cover the hits in order without gaps or
/// overlap: a page's next cursor is where it ended, and it moves forward.
pub proof fn law_search_pages_advance(total: usize, cursor: usize, limit: usize, start: usize, end: usize, next: Option<usize>)
    requires
        limit > 0,
        cursor < total,
        end == (if cursor + limit > total { total as int } else { cursor + limit }),
        start == cursor,
        next == (if end < total { Some(end) } else { None }),
    ensures
        start < end <= total,
        end - start <= limit,
        next matches Some(n) ==> n == end && n > cursor,
        next is None ==> end == total,
{
}

/// An optional expected hash must match the archive's current hash.
pub fn verify_expected_hash(expected: Option<&str>, content_hash: &str) -> (r: Result<(), HistoryError>)
    ensures
        r is Ok <==> (expected is None || expected->0@ == content_hash@),
        r matches Err(e) ==> error_is(
            e,
            "HISTORY_ARCHIVE_CHANGED"@,
            "The archive changed since the previous page; restart the read with the new hash."@,
            "conflict"@,
            true,
        ),
{
    let expected = match expected {
        Some(e) => e,
        None => {
            return Ok(());
        },
    };
    if eq_vec(&chars_of(expected), &chars_of(content_hash)) {
        return Ok(());
    }
    let mut details = Vec::new();
    details.push(text_detail("expected_hash", expected));
    details.push(text_detail("content_hash", content_hash));
    Err(
        history_error(
            "HISTORY_ARCHIVE_CHANGED",
            "The archive changed since the previous page; restart the read with the new hash.",
            "conflict",
            true,
            details,
        ),
    )
}

/// An archive file as the history tools see it.
pub struct HistoryDocument {
    pub number: u64,
    pub path: String,
    pub content: String,
}

/// The document a read names: by number when one is given, else by
/// relative path; the first match.
pub open spec fn selected(docs: Seq<HistoryDocument>, number: Option<u64>, path: Option<Seq<char>>, i: int) -> bool {
    match number {
        Some(n) => docs[i].number == n,
        None => match path {
            Some(p) => docs[i].path@ == p,
            None => false,
        },
    }
}

pub fn select_document(docs: &Vec<HistoryDocument>, number: Option<u64>, path: Option<&str>) -> (r:
    Result<usize, HistoryError>)
    ensures
        match r {
            Ok(i) => i < docs.len() && selected(docs@, number, opt_view(path), i as int) && forall|j: int|
                0 <= j < i ==> !selected(docs@, number, opt_view(path), j),
            Err(e) => (forall|j: int| 0 <= j < docs.len() ==> !selected(docs@, number, opt_view(path), j))
                && error_is(
                e,
                "HISTORY_READ_NOT_FOUND"@,
                "Pass an existing archive number or a manifest-returned relative path."@,
                "not_found"@,
                false,
            ),
        },
{
    let pv: Option<Vec<char>> = match path {
        Some(p) => Some(chars_of(p)),
        None => None,
    };
    let mut i: usize = 0;
    while i < docs.len()
        invariant
            0 <= i <= docs.len(),
            match pv {
                Some(v) => opt_view(path) == Some(v@),
                None => path is None,
            },
            forall|j: int| 0 <= j < i ==> !selected(docs@, number, opt_view(path), j),
        decreases docs.len() - i,
    {
        let hit = match number {
            Some(n) => docs[i].number == n,
            None => match &pv {
                Some(v) => eq_vec(&chars_of_string(&docs[i].path), v),
                None => false,
            },
        };
        if hit {
            return Ok(i);
        }
        i = i + 1;
    }
    Err(
        history_error(
            "HISTORY_READ_NOT_FOUND",
            "Pass an existing archive number or a manifest-returned relative path.",
            "not_found",
            false,
            Vec::new(),
        ),
    )
}

/// History with duplicated session keys is ambiguous and refused.
pub fn reject_ambiguous_history(duplicate_session_keys: &Vec<String>) -> (r: Result<(), HistoryError>)
    ensures
        r is Ok <==> duplicate_session_keys.len() == 0,
        r matches Err(e) ==> error_is(
            e,
            "HISTORY_INDEX_CONFLICT"@,
            "Multiple history files declare the same session_key."@,
            "validation"@,
            false,
        ),
{
    if duplicate_session_keys.len() == 0 {
        return Ok(());
    }
    let mut keys: Vec<String> = Vec::new();
    let mut i: usize = 0;
    while i < duplicate_session_keys.len()
        invariant
            0 <= i <= duplicate_session_keys.len(),
        decreases duplicate_session_keys.len() - i,
    {
        keys.push(duplicate_session_keys[i].clone());
        i = i + 1;
    }
    let mut details = Vec::new();
    details.push(Detail { key: string_of(&chars_of("duplicate_session_keys")), value: DetailValue::Texts(keys) });
    Err(
        history_error(
            "HISTORY_INDEX_CONFLICT",
            "Multiple history files declare the same session_key.",
            "validation",
            false,
            details,
        ),
    )
}

/// The error of a checkpoint on a session that was never bootstrapped.
pub fn session_not_bootstrapped() -> (r: HistoryError)
    ensures
        error_is(r, "SESSION_NOT_BOOTSTRAPPED"@, "The session_key has not been bootstrapped."@, "not_found"@, false),
        r.details@.len() == 0,
{
    history_error(
        "SESSION_NOT_BOOTSTRAPPED",
        "The session_key has not been bootstrapped.",
        "not_found",
        false,
        Vec::new(),
    )
}

/// `value` cut to `max_chars` characters followed by `...`, when longer.
pub open spec fn truncate_text_spec(value: Seq<char>, max_chars: nat) -> Seq<char> {
    if value.len() <= max_chars {
        value
    } else {
        value.take(max_chars as int) + "..."@
    }
}

pub fn truncate_text(value: &str, max_chars: usize) -> (r: String)
    ensures
        r@ == truncate_text_spec(value@, max_chars as nat),
{
    let v = chars_of(value);
    if v.len() <= max_chars {
        return string_of(&v);
    }
    string_of(&cat(&crate::text::slice_of(&v, 0, max_chars), &chars_of("...")))
}

/// Adds one value to a bounded state list: trimmed; skipped when blank or
/// already listed; nothing more once the list holds `STATE_ITEM_LIMIT`.
pub open spec fn push_bounded_step(target: Seq<Seq<char>>, value: Seq<char>) -> Seq<Seq<char>> {
    let v = trim(value);
    if v.len() == 0 || target.contains(v) || target.len() >= 12 {
        target
    } else {
        target.push(truncate_text_spec(v, 512))
    }
}

pub open spec fn push_bounded_spec(target: Seq<Seq<char>>, values: Seq<Seq<char>>) -> Seq<Seq<char>>
    decreases values.len(),
{
    if values.len() == 0 {
        target
    } else {
        push_bounded_step(push_bounded_spec(target, values.drop_last()), values.last())
    }
}

pub open spec fn views(v: Seq<String>) -> Seq<Seq<char>> {
    v.map_values(|s: String| s@)
}

fn contains_string(target: &Vec<String>, v: &[char]) -> (r: bool)
    ensures
        r == views(target@).contains(v@),
{
    let mut i: usize = 0;
    while i < target.len()
        invariant
            0 <= i <= target.len(),
            forall|j: int| 0 <= j < i ==> target@[j]@ != v@,
        decreases target.len() - i,
    {
        if eq_vec(&chars_of_string(&target[i]), v) {
            assert(views(target@)[i as int] == v@);
            return true;
        }
        i = i + 1;
    }
    proof {
        if views(target@).contains(v@) {
            let j = choose|j: int| 0 <= j < views(target@).len() && views(target@)[j] == v@;
            assert(target@[j]@ == v@);
        }
    }
    false
}

/// Appends values to a state list, keeping it short, unique and free of
/// blank entries (appending stops at the first value that finds the
/// list full; later values could not be added either).
pub fn push_bounded(target: &mut Vec<String>, values: &Vec<String>)
    ensures
        views(final(target)@) == push_bounded_spec(views(old(target)@), views(values@)),
{
    let ghost start = views(target@);
    let mut i: usize = 0;
    while i < values.len()
        invariant
            0 <= i <= values.len(),
            views(target@) == push_bounded_spec(start, views(values@).subrange(0, i as int)),
        decreases values.len() - i,
    {
        assert(views(values@).subrange(0, i + 1).drop_last() =~= views(values@).subrange(0, i as int));
        let v = trim_vec(&chars_of_string(&values[i]));
        let ghost before = target@;
        if v.len() > 0 && !contains_string(target, &v) && target.len() < 12 {
            let t = truncate_text(string_of(&v).as_str(), 512);
            target.push(t);
            assert(views(target@) =~= views(before).push(t@));
        }
        i = i + 1;
    }
    assert(views(values@).subrange(0, values.len() as int) =~= views(values@));
}

/// Law: a bounded state list never grows past `STATE_ITEM_LIMIT`, holds no
/// blank entry, and, while no value exceeds the text limit (so none is
/// cut), no entry twice.
pub proof fn law_push_bounded_keeps_bounds(target: Seq<Seq<char>>, values: Seq<Seq<char>>)
    requires
        target.len() <= 12,
        forall|i: int| 0 <= i < target.len() ==> #[trigger] target[i].len() > 0,
    ensures
        push_bounded_spec(target, values).len() <= 12,
        forall|i: int|
            0 <= i < push_bounded_spec(target, values).len() ==> #[trigger] push_bounded_spec(
                target,
                values,
            )[i].len() > 0,
        (target.no_duplicates() && forall|i: int|
            0 <= i < values.len() ==> trim(#[trigger] values[i]).len() <= 512)
            ==> push_bounded_spec(target, values).no_duplicates(),
    decreases values.len(),
{
    if values.len() > 0 {
        let pre = values.drop_last();
        law_push_bounded_keeps_bounds(target, pre);
        let t = push_bounded_spec(target, pre);
        let v = trim(values.last());
        if !(v.len() == 0 || t.contains(v) || t.len() >= 12) {
            let w = truncate_text_spec(v, 512);
            assert(w.len() > 0);
            assert(forall|i: int| 0 <= i < t.push(w).len() ==> #[trigger] t.push(w)[i].len() > 0);
            if target.no_duplicates() && forall|i: int|
                0 <= i < values.len() ==> trim(#[trigger] values[i]).len() <= 512 {
                assert forall|i: int| 0 <= i < pre.len() implies trim(#[trigger] pre[i]).len() <= 512 by {
                    assert(pre[i] == values[i]);
                }
                assert(trim(values[values.len() - 1]).len() <= 512);
                assert(w == v);
                assert forall|a: int, b: int|
                    0 <= a < t.push(w).len() && 0 <= b < t.push(w).len() && a != b implies t.push(
                    w,
                )[a] != t.push(w)[b] by {
                    if a == t.len() {
                        assert(t[b] != v);
                    } else if b == t.len() {
                        assert(t[a] != v);
                    }
                }
            }
        }
    }
}

/// Positions of the latest revision of each turn: the records whose turn
/// id does not occur again later, in their original order.
pub open spec fn is_latest(ids: Seq<Seq<char>>, i: int) -> bool {
    0 <= i < ids.len() && forall|j: int| i < j < ids.len() ==> ids[j] != ids[i]
}

pub fn latest_revisions(turn_ids: &Vec<String>) -> (r: Vec<usize>)
    ensures
        forall|k: int| 0 <= k < r.len() ==> is_latest(views(turn_ids@), #[trigger] r@[k] as int),
        forall|a: int, b: int| 0 <= a < b < r.len() ==> r@[a] < r@[b],
        forall|i: int| is_latest(views(turn_ids@), i) ==> r@.contains(i as usize),
{
    let ghost ids = views(turn_ids@);
    let mut r: Vec<usize> = Vec::new();
    let mut i: usize = 0;
    while i < turn_ids.len()
        invariant
            0 <= i <= turn_ids.len(),
            ids == views(turn_ids@),
            forall|k: int| 0 <= k < r.len() ==> is_latest(ids, #[trigger] r@[k] as int) && r@[k] < i,
            forall|a: int, b: int| 0 <= a < b < r.len() ==> r@[a] < r@[b],
            forall|x: int| 0 <= x < i && is_latest(ids, x) ==> r@.contains(x as usize),
        decreases turn_ids.len() - i,
    {
        let id = chars_of_string(&turn_ids[i]);
        let mut j = i + 1;
        while j < turn_ids.len() && !eq_vec(&chars_of_string(&turn_ids[j]), &id)
            invariant
                i < j <= turn_ids.len(),
                ids == views(turn_ids@),
                id@ == ids[i as int],
                forall|t: int| i < t < j ==> ids[t] != ids[i as int],
            decreases turn_ids.len() - j,
        {
            j = j + 1;
        }
        let later = j < turn_ids.len();
        proof {
            if later {
                assert(ids[j as int] == ids[i as int]);
                assert(!is_latest(ids, i as int));
            } else {
                assert(is_latest(ids, i as int));
            }
        }
        let ghost before = r@;
        if !later {
            r.push(i);
            assert(r@[r.len() - 1] == i);
        }
        proof {
            assert forall|x: int| 0 <= x < i + 1 && is_latest(ids, x) implies r@.contains(x as usize) by {
                if x < i {
                    let k = choose|k: int| 0 <= k < before.len() && before[k] == x as usize;
                    assert(r@[k] == x as usize);
                }
            }
        }
        i = i + 1;
    }
    r
}

/// Some picked position holds turn `t`.
pub open spec fn turn_picked(ids: Seq<Seq<char>>, picked: Seq<usize>, t: Seq<char>) -> bool {
    exists|k: int| 0 <= k < picked.len() && ids[#[trigger] picked[k] as int] == t
}

/// Law: the latest revisions name each turn once, and every turn.
pub proof fn law_latest_revisions_one_per_turn(ids: Seq<Seq<char>>, picked: Seq<usize>)
    requires
        ids.len() <= usize::MAX,
        forall|k: int| 0 <= k < picked.len() ==> is_latest(ids, #[trigger] picked[k] as int),
        forall|a: int, b: int| 0 <= a < b < picked.len() ==> picked[a] < picked[b],
        forall|i: int| is_latest(ids, i) ==> picked.contains(i as usize),
    ensures
        forall|a: int, b: int|
            0 <= a < b < picked.len() ==> ids[#[trigger] picked[a] as int] != ids[#[trigger] picked[b] as int],
        forall|i: int| 0 <= i < ids.len() ==> turn_picked(ids, picked, #[trigger] ids[i]),
{
    assert forall|i: int| 0 <= i < ids.len() implies turn_picked(ids, picked, #[trigger] ids[i]) by {
        lemma_latest_of(ids, i);
        let m = choose|m: int| is_latest(ids, m) && ids[m] == ids[i];
        assert(picked.contains(m as usize));
        let k = choose|k: int| 0 <= k < picked.len() && picked[k] == m as usize;
        assert(picked[k] as int == m);
        assert(ids[picked[k] as int] == ids[i]);
    }
}

proof fn lemma_latest_of(ids: Seq<Seq<char>>, i: int)
    requires
        0 <= i < ids.len(),
    ensures
        exists|m: int| is_latest(ids, m) && ids[m] == ids[i],
    decreases ids.len() - i,
{
    if !is_latest(ids, i) {
        let j = choose|j: int| i < j < ids.len() && ids[j] == ids[i];
        lemma_latest_of(ids, j);
    }
}

/// The focus of a checkpoint record: the raw user input when not blank,
/// else the stated intent when not blank.
pub fn record_focus(raw_user_input: &str, user_intent: &str) -> (r: Option<String>)
    ensures
        match r {
            Some(f) => if trim(raw_user_input@).len() > 0 {
                f@ == raw_user_input@
            } else {
                trim(user_intent@).len() > 0 && f@ == user_intent@
            },
            None => trim(raw_user_input@).len() == 0 && trim(user_intent@).len() == 0,
        },
{
    if trim_vec(&chars_of(raw_user_input)).len() > 0 {
        Some(string_of(&chars_of(raw_user_input)))
    } else if trim_vec(&chars_of(user_intent)).len() > 0 {
        Some(string_of(&chars_of(user_intent)))
    } else {
        None
    }
}

/// An archive entry of the manifest (number and relative path).
pub struct ManifestEntry {
    pub number: u64,
    pub path: String,
}

/// A pointer from the state to an archive, with the reason it is listed.
pub struct MemoryReference {
    pub number: u64,
    pub path: String,
    pub reason: String,
}

pub open spec fn current_reason() -> Seq<char> {
    "当前 ChatGPT 会话档案"@
}

pub open spec fn recent_reason() -> Seq<char> {
    "最近历史档案；可按需读取原文"@
}

/// Position `i` holds the first entry numbered `n`.
pub open spec fn first_with_number(entries: Seq<ManifestEntry>, n: u64, i: int) -> bool {
    0 <= i < entries.len() && entries[i].number == n && forall|j: int| 0 <= j < i ==> entries[j].number != n
}

/// The reference to the current conversation's archive: the first entry
/// with its number.
pub open spec fn current_reference_spec(entries: Seq<ManifestEntry>, current: Option<u64>, r: Option<
    MemoryReference,
>) -> bool {
    match r {
        Some(m) => current == Some(m.number) && m.reason@ == current_reason() && exists|i: int|
            #[trigger] first_with_number(entries, m.number, i) && entries[i].path == m.path,
        None => current is None || forall|i: int| 0 <= i < entries.len() ==> entries[i].number != current->0,
    }
}

pub fn current_reference(entries: &Vec<ManifestEntry>, current: Option<u64>) -> (r: Option<MemoryReference>)
    ensures
        current_reference_spec(entries@, current, r),
{
    let n = match current {
        Some(n) => n,
        None => {
            return None;
        },
    };
    let mut i: usize = 0;
    while i < entries.len()
        invariant
            0 <= i <= entries.len(),
            current == Some(n),
            forall|j: int| 0 <= j < i ==> entries@[j].number != n,
        decreases entries.len() - i,
    {
        if entries[i].number == n {
            let path = entries[i].path.clone();
            assert(first_with_number(entries@, n, i as int) && entries@[i as int].path == path);
            return Some(MemoryReference { number: n, path, reason: string_of(&chars_of("当前 ChatGPT 会话档案")) });
        }
        i = i + 1;
    }
    None
}

/// The references to recent archives: newest first, skipping the current
/// one, at most `limit`.
pub open spec fn recent_spec(entries: Seq<ManifestEntry>, current: Option<u64>, limit: nat) -> Seq<
    (u64, String),
>
    decreases entries.len(),
{
    if entries.len() == 0 || limit == 0 {
        Seq::empty()
    } else if current == Some(entries.last().number) {
        recent_spec(entries.drop_last(), current, limit)
    } else {
        seq![(entries.last().number, entries.last().path)] + recent_spec(
            entries.drop_last(),
            current,
            (limit - 1) as nat,
        )
    }
}

pub open spec fn reference_view(m: MemoryReference) -> (u64, String) {
    (m.number, m.path)
}

pub fn recent_references(entries: &Vec<ManifestEntry>, current: Option<u64>) -> (r: Vec<MemoryReference>)
    ensures
        r@.map_values(|m: MemoryReference| reference_view(m)) == recent_spec(entries@, current, 8),
        forall|k: int| 0 <= k < r.len() ==> #[trigger] r@[k].reason@ == recent_reason(),
{
    let mut r: Vec<MemoryReference> = Vec::new();
    let mut end = entries.len();
    let mut left: usize = 8;
    assert(entries@.take(end as int) =~= entries@);
    assert(r@.map_values(|m: MemoryReference| reference_view(m)) =~= Seq::<(u64, String)>::empty());
    assert(Seq::<(u64, String)>::empty() + recent_spec(entries@, current, 8) =~= recent_spec(entries@, current, 8));
    while end > 0 && left > 0
        invariant
            end <= entries.len(),
            left <= 8,
            recent_spec(entries@, current, 8) == r@.map_values(|m: MemoryReference| reference_view(m))
                + recent_spec(entries@.take(end as int), current, left as nat),
            forall|k: int| 0 <= k < r.len() ==> #[trigger] r@[k].reason@ == recent_reason(),
        decreases end,
    {
        let ghost pre = entries@.take(end as int);
        assert(pre.drop_last() =~= entries@.take(end - 1));
        assert(pre.last() == entries@[end - 1]);
        let e = &entries[end - 1];
        let ghost rv = r@.map_values(|m: MemoryReference| reference_view(m));
        if current != Some(e.number) {
            let m = MemoryReference {
                number: e.number,
                path: e.path.clone(),
                reason: string_of(&chars_of("最近历史档案；可按需读取原文")),
            };
            r.push(m);
            assert(r@.map_values(|m: MemoryReference| reference_view(m)) =~= rv.push((e.number, e.path)));
            assert(rv.push((e.number, e.path)) + recent_spec(entries@.take(end - 1), current, (left - 1) as nat)
                =~= rv + (seq![(e.number, e.path)] + recent_spec(entries@.take(end - 1), current, (left - 1) as nat)));
            left = left - 1;
        }
        end = end - 1;
    }
    assert(recent_spec(entries@.take(end as int), current, left as nat) =~= Seq::<(u64, String)>::empty());
    assert(entries@.take(entries.len() as int) =~= entries@);
    r
}

/// A checkpoint record as the bounded state reads it.
pub struct CheckpointRecord {
    pub turn_id: String,
    pub raw_user_input: String,
    pub user_intent: String,
    pub files_changed: Vec<String>,
    pub decisions: Vec<String>,
    pub remaining_issues: Vec<String>,
    pub next_actions: Vec<String>,
}

pub open spec fn turn_ids(recs: Seq<CheckpointRecord>) -> Seq<Seq<char>> {
    recs.map_values(|r: CheckpointRecord| r.turn_id@)
}

/// The two bounded lists of the state: recent changes and open items.
pub type Progress = (Seq<Seq<char>>, Seq<Seq<char>>);

/// A record adds its changed files and decisions to the recent changes,
/// its remaining issues and next actions to the open items.
pub open spec fn record_progress_spec(acc: Progress, r: CheckpointRecord) -> Progress {
    (
        push_bounded_spec(push_bounded_spec(acc.0, views(r.files_changed@)), views(r.decisions@)),
        push_bounded_spec(push_bounded_spec(acc.1, views(r.remaining_issues@)), views(r.next_actions@)),
    )
}

pub fn push_record_progress(record: &CheckpointRecord, recent: &mut Vec<String>, open: &mut Vec<String>)
    ensures
        (views(final(recent)@), views(final(open)@)) == record_progress_spec(
            (views(old(recent)@), views(old(open)@)),
            *record,
        ),
{
    push_bounded(recent, &record.files_changed);
    push_bounded(recent, &record.decisions);
    push_bounded(open, &record.remaining_issues);
    push_bounded(open, &record.next_actions);
}

/// The records of one archive before position `j`, newest first, taking
/// only the latest revision of each turn.
pub open spec fn records_progress(acc: Progress, recs: Seq<CheckpointRecord>, j: int) -> Progress
    decreases j,
{
    if j <= 0 || j > recs.len() {
        acc
    } else {
        let next = if is_latest(turn_ids(recs), j - 1) {
            record_progress_spec(acc, recs[j - 1])
        } else {
            acc
        };
        records_progress(next, recs, j - 1)
    }
}

/// What the bounded state reads of one archive: its number and title, and
/// its parsed checkpoint and initial-input records.
pub struct ArchiveDigest {
    pub number: u64,
    pub title: String,
    pub records: Vec<CheckpointRecord>,
    pub initial_inputs: Vec<InitialInputRecord>,
}

/// The archives before position `i`, newest first.
pub open spec fn docs_progress(acc: Progress, docs: Seq<ArchiveDigest>, i: int) -> Progress
    decreases i,
{
    if i <= 0 || i > docs.len() {
        acc
    } else {
        docs_progress(
            records_progress(acc, docs[i - 1].records@, docs[i - 1].records@.len() as int),
            docs,
            i - 1,
        )
    }
}

/// The recent changes and open items of the bounded state, gathered from
/// the newest archive to the oldest and, within an archive, from the
/// newest latest-revision record to the oldest.
pub open spec fn bounded_progress_spec(docs: Seq<ArchiveDigest>) -> Progress {
    docs_progress((Seq::empty(), Seq::empty()), docs, docs.len() as int)
}

fn is_latest_at(recs: &Vec<CheckpointRecord>, i: usize) -> (r: bool)
    requires
        i < recs.len(),
    ensures
        r == is_latest(turn_ids(recs@), i as int),
{
    let id = chars_of_string(&recs[i].turn_id);
    let mut j = i + 1;
    while j < recs.len()
        invariant
            i < j <= recs.len(),
            id@ == recs@[i as int].turn_id@,
            forall|t: int| i < t < j ==> recs@[t].turn_id@ != id@,
        decreases recs.len() - j,
    {
        if eq_vec(&chars_of_string(&recs[j].turn_id), &id) {
            assert(turn_ids(recs@)[j as int] == turn_ids(recs@)[i as int]);
            return false;
        }
        j = j + 1;
    }
    assert forall|t: int| i < t < turn_ids(recs@).len() implies turn_ids(recs@)[t] != turn_ids(recs@)[i as int] by {
        assert(recs@[t].turn_id@ != id@);
    }
    true
}

pub fn bounded_progress(docs: &Vec<ArchiveDigest>) -> (r: (Vec<String>, Vec<String>))
    ensures
        (views(r.0@), views(r.1@)) == bounded_progress_spec(docs@),
{
    let mut recent: Vec<String> = Vec::new();
    let mut open: Vec<String> = Vec::new();
    let ghost target = bounded_progress_spec(docs@);
    assert(views(recent@) =~= Seq::<Seq<char>>::empty());
    assert(views(open@) =~= Seq::<Seq<char>>::empty());
    let mut i = docs.len();
    while i > 0
        invariant
            i <= docs.len(),
            docs_progress((views(recent@), views(open@)), docs@, i as int) == target,
        decreases i,
    {
        let recs = &docs[i - 1].records;
        let ghost acc0 = (views(recent@), views(open@));
        let mut j = recs.len();
        while j > 0
            invariant
                0 < i <= docs.len(),
                *recs == docs@[i - 1].records,
                j <= recs.len(),
                docs_progress(acc0, docs@, i as int) == target,
                records_progress((views(recent@), views(open@)), recs@, j as int) == records_progress(
                    acc0,
                    recs@,
                    recs@.len() as int,
                ),
            decreases j,
        {
            if is_latest_at(recs, j - 1) {
                push_record_progress(&recs[j - 1], &mut recent, &mut open);
            }
            j = j - 1;
        }
        i = i - 1;
    }
    (recent, open)
}

/// The focus of a checkpoint record (see `record_focus`).
pub open spec fn record_focus_spec(raw: Seq<char>, intent: Seq<char>) -> Option<Seq<char>> {
    if trim(raw).len() > 0 {
        Some(raw)
    } else if trim(intent).len() > 0 {
        Some(intent)
    } else {
        None
    }
}

/// An initial-input record of an archive.
pub struct InitialInputRecord {
    pub revision: u64,
    pub raw_user_input: String,
}

pub open spec fn input_revisions(inputs: Seq<InitialInputRecord>) -> Seq<u64> {
    inputs.map_values(|r: InitialInputRecord| r.revision)
}

/// The focus of an archive: that of its last checkpoint record (always the
/// latest revision of its turn); failing that, the raw input of its
/// highest initial-input revision (the last of equal ones).
pub open spec fn latest_focus_spec(recs: Seq<CheckpointRecord>, inputs: Seq<InitialInputRecord>) -> Option<
    Seq<char>,
> {
    let from_record = if recs.len() > 0 {
        record_focus_spec(recs.last().raw_user_input@, recs.last().user_intent@)
    } else {
        None
    };
    if from_record is Some {
        from_record
    } else if inputs.len() > 0 {
        Some(inputs[max_revision_index(input_revisions(inputs))].raw_user_input@)
    } else {
        None
    }
}

fn last_max_index(revs: &Vec<u64>) -> (r: usize)
    requires
        revs.len() > 0,
    ensures
        r as int == max_revision_index(revs@),
        r < revs.len(),
{
    let mut best: usize = 0;
    let mut i: usize = 1;
    while i < revs.len()
        invariant
            1 <= i <= revs.len(),
            best < i,
            best == max_revision_index(revs@.take(i as int)),
        decreases revs.len() - i,
    {
        assert(revs@.take(i + 1).drop_last() =~= revs@.take(i as int));
        proof {
            lemma_max_revision_index(revs@.take(i as int));
        }
        assert(revs@.take(i + 1).last() == revs@[i as int]);
        assert(revs@.take(i + 1)[best as int] == revs@[best as int]);
        if revs[i] >= revs[best] {
            best = i;
        }
        i = i + 1;
    }
    assert(revs@.take(revs.len() as int) =~= revs@);
    best
}

pub fn latest_user_focus(recs: &Vec<CheckpointRecord>, inputs: &Vec<InitialInputRecord>) -> (r: Option<
    String,
>)
    ensures
        match r {
            Some(f) => latest_focus_spec(recs@, inputs@) == Some(f@),
            None => latest_focus_spec(recs@, inputs@) is None,
        },
{
    if recs.len() > 0 {
        let last = &recs[recs.len() - 1];
        let f = record_focus(last.raw_user_input.as_str(), last.user_intent.as_str());
        if f.is_some() {
            return f;
        }
    }
    if inputs.len() == 0 {
        return None;
    }
    let mut revs: Vec<u64> = Vec::new();
    let mut k: usize = 0;
    while k < inputs.len()
        invariant
            0 <= k <= inputs.len(),
            revs@ == input_revisions(inputs@).take(k as int),
        decreases inputs.len() - k,
    {
        revs.push(inputs[k].revision);
        assert(input_revisions(inputs@).take(k + 1) =~= input_revisions(inputs@).take(k as int).push(
            inputs@[k as int].revision,
        ));
        k = k + 1;
    }
    assert(input_revisions(inputs@).take(inputs.len() as int) =~= input_revisions(inputs@));
    let best = last_max_index(&revs);
    Some(inputs[best].raw_user_input.clone())
}

pub open spec fn no_focus_text() -> Seq<char> {
    "尚未记录当前焦点"@
}

/// The state's focus: the current archive's latest focus, else its title,
/// else a placeholder.
pub open spec fn focus_text_spec(doc: Option<ArchiveDigest>) -> Seq<char> {
    match doc {
        Some(d) => match latest_focus_spec(d.records@, d.initial_inputs@) {
            Some(f) => f,
            None => d.title@,
        },
        None => no_focus_text(),
    }
}

pub fn focus_text(doc: Option<&ArchiveDigest>) -> (r: String)
    ensures
        r@ == focus_text_spec(match doc {
            Some(d) => Some(*d),
            None => None,
        }),
{
    match doc {
        Some(d) => match latest_user_focus(&d.records, &d.initial_inputs) {
            Some(f) => f,
            None => d.title.clone(),
        },
        None => string_of(&chars_of("尚未记录当前焦点")),
    }
}

/// The first archive with the number, if any.
pub open spec fn find_doc(docs: Seq<ArchiveDigest>, n: u64) -> Option<ArchiveDigest>
    decreases docs.len(),
{
    if docs.len() == 0 {
        None
    } else if docs[0].number == n {
        Some(docs[0])
    } else {
        find_doc(docs.drop_first(), n)
    }
}

pub open spec fn current_doc_spec(docs: Seq<ArchiveDigest>, current: Option<u64>) -> Option<ArchiveDigest> {
    match current {
        Some(n) => find_doc(docs, n),
        None => None,
    }
}

/// The position of the current conversation's archive.
pub fn current_document(docs: &Vec<ArchiveDigest>, current: Option<u64>) -> (r: Option<usize>)
    ensures
        match r {
            Some(i) => i < docs.len() && current_doc_spec(docs@, current) == Some(docs@[i as int]),
            None => current_doc_spec(docs@, current) is None,
        },
{
    let n = match current {
        Some(n) => n,
        None => {
            return None;
        },
    };
    let mut i: usize = 0;
    assert(docs@.skip(0) =~= docs@);
    while i < docs.len()
        invariant
            0 <= i <= docs.len(),
            current == Some(n),
            find_doc(docs@, n) == find_doc(docs@.skip(i as int), n),
        decreases docs.len() - i,
    {
        assert(docs@.skip(i as int)[0] == docs@[i as int]);
        if docs[i].number == n {
            return Some(i);
        }
        assert(docs@.skip(i as int).drop_first() =~= docs@.skip(i + 1));
        i = i + 1;
    }
    assert(docs@.skip(i as int).len() == 0);
    None
}

/// The bounded state kept beside the archives.
pub struct MemoryState {
    pub version: u64,
    pub state_revision: u64,
    pub archive_revision: String,
    pub generated_at: String,
    pub current_session: Option<MemoryReference>,
    pub current_focus: String,
    pub recent_changes: Vec<String>,
    pub open_items: Vec<String>,
    pub references: Vec<MemoryReference>,
}

/// The bounded state: the current archive and its focus (cut to
/// `STATE_FOCUS_LIMIT` characters), the bounded progress lists, and the
/// references to recent archives.
pub fn build_state(
    docs: &Vec<ArchiveDigest>,
    entries: &Vec<ManifestEntry>,
    archive_revision: &str,
    current: Option<u64>,
    timestamp: &str,
    state_revision: u64,
) -> (r: MemoryState)
    ensures
        r.version == 2,
        r.state_revision == state_revision,
        r.archive_revision@ == archive_revision@,
        r.generated_at@ == timestamp@,
        current_reference_spec(entries@, current, r.current_session),
        r.current_focus@ == truncate_text_spec(focus_text_spec(current_doc_spec(docs@, current)), 2048),
        (views(r.recent_changes@), views(r.open_items@)) == bounded_progress_spec(docs@),
        r.references@.map_values(|m: MemoryReference| reference_view(m)) == recent_spec(entries@, current, 8),
        forall|k: int| 0 <= k < r.references.len() ==> #[trigger] r.references@[k].reason@ == recent_reason(),
{
    let doc = match current_document(docs, current) {
        Some(i) => Some(&docs[i]),
        None => None,
    };
    let focus = focus_text(doc);
    let (recent_changes, open_items) = bounded_progress(docs);
    MemoryState {
        version: 2,
        state_revision,
        archive_revision: string_of(&chars_of(archive_revision)),
        generated_at: string_of(&chars_of(timestamp)),
        current_session: current_reference(entries, current),
        current_focus: truncate_text(focus.as_str(), STATE_FOCUS_LIMIT),
        recent_changes,
        open_items,
        references: recent_references(entries, current),
    }
}

/// The warnings of a checkpoint.
pub fn checkpoint_warnings(user_input_captured: bool, redacted: bool, host_mismatch: bool) -> (r: Vec<
    String,
>)
    ensures
        views(r@) == (if !user_input_captured {
            seq!["未提供 raw_user_input；服务端无法读取未作为工具参数传入的本轮用户输入。"@]
        } else {
            Seq::<Seq<char>>::empty()
        }) + (if redacted {
            seq!["检测到疑似敏感信息，归档内容已脱敏。"@]
        } else {
            Seq::<Seq<char>>::empty()
        }) + (if host_mismatch {
            seq!["宿主会话标识已变化；本次仍使用 bootstrap 返回的稳定目标，未切换历史文件。"@]
        } else {
            Seq::<Seq<char>>::empty()
        }),
{
    let mut w: Vec<String> = Vec::new();
    if !user_input_captured {
        w.push(string_of(&chars_of("未提供 raw_user_input；服务端无法读取未作为工具参数传入的本轮用户输入。")));
    }
    let ghost a = views(w@);
    if redacted {
        w.push(string_of(&chars_of("检测到疑似敏感信息，归档内容已脱敏。")));
    }
    let ghost b = views(w@);
    if host_mismatch {
        w.push(string_of(&chars_of("宿主会话标识已变化；本次仍使用 bootstrap 返回的稳定目标，未切换历史文件。")));
    }
    assert(views(w@) =~= (if !user_input_captured {
        seq!["未提供 raw_user_input；服务端无法读取未作为工具参数传入的本轮用户输入。"@]
    } else {
        Seq::<Seq<char>>::empty()
    }) + (if redacted {
        seq!["检测到疑似敏感信息，归档内容已脱敏。"@]
    } else {
        Seq::<Seq<char>>::empty()
    }) + (if host_mismatch {
        seq!["宿主会话标识已变化；本次仍使用 bootstrap 返回的稳定目标，未切换历史文件。"@]
    } else {
        Seq::<Seq<char>>::empty()
    }));
    w
}

/// The warnings of `validate`.
pub fn validation_warnings(has_duplicate_session_keys: bool, has_malformed_blocks: bool) -> (r: Vec<String>)
    ensures
        views(r@) == (if has_duplicate_session_keys {
            seq!["存在重复 session_key，相关映射未写入索引。"@]
        } else {
            Seq::<Seq<char>>::empty()
        }) + (if has_malformed_blocks {
            seq!["历史档案包含无法解析的结构化 JSON block；有效记录仍保留，但派生状态可能不完整。"@]
        } else {
            Seq::<Seq<char>>::empty()
        }),
{
    let mut w: Vec<String> = Vec::new();
    if has_duplicate_session_keys {
        w.push(string_of(&chars_of("存在重复 session_key，相关映射未写入索引。")));
    }
    if has_malformed_blocks {
        w.push(string_of(&chars_of("历史档案包含无法解析的结构化 JSON block；有效记录仍保留，但派生状态可能不完整。")));
    }
    assert(views(w@) =~= (if has_duplicate_session_keys {
        seq!["存在重复 session_key，相关映射未写入索引。"@]
    } else {
        Seq::<Seq<char>>::empty()
    }) + (if has_malformed_blocks {
        seq!["历史档案包含无法解析的结构化 JSON block；有效记录仍保留，但派生状态可能不完整。"@]
    } else {
        Seq::<Seq<char>>::empty()
    }));
    w
}

/// How reading a derived file (index, manifest, state, snapshot) went.
#[derive(PartialEq, Eq, Structural, Clone, Copy)]
pub enum DerivedRead {
    Valid,
    Missing,
    Invalid,
}

pub open spec fn derived_status_text(d: DerivedRead) -> Seq<char> {
    match d {
        DerivedRead::Valid => "valid"@,
        DerivedRead::Missing => "missing"@,
        DerivedRead::Invalid => "invalid"@,
    }
}

pub fn derived_status(d: DerivedRead) -> (r: &'static str)
    ensures
        r@ == derived_status_text(d),
{
    match d {
        DerivedRead::Valid => "valid",
        DerivedRead::Missing => "missing",
        DerivedRead::Invalid => "invalid",
    }
}

/// The warning for one derived file that had to be rebuilt.
pub open spec fn derived_warning(label: Seq<char>, d: DerivedRead) -> Seq<Seq<char>> {
    match d {
        DerivedRead::Valid => Seq::empty(),
        DerivedRead::Missing => seq![label + " 缺失，已根据 Markdown 档案重建。"@],
        DerivedRead::Invalid => seq![label + " 损坏，已根据 Markdown 档案重建。"@],
    }
}

pub open spec fn derived_warnings_spec(files: Seq<(String, DerivedRead)>) -> Seq<Seq<char>>
    decreases files.len(),
{
    if files.len() == 0 {
        Seq::empty()
    } else {
        derived_warnings_spec(files.drop_last()) + derived_warning(files.last().0@, files.last().1)
    }
}

pub fn derived_file_warnings(files: &Vec<(String, DerivedRead)>) -> (r: Vec<String>)
    ensures
        views(r@) == derived_warnings_spec(files@),
{
    let mut w: Vec<String> = Vec::new();
    let mut i: usize = 0;
    while i < files.len()
        invariant
            0 <= i <= files.len(),
            views(w@) == derived_warnings_spec(files@.take(i as int)),
        decreases files.len() - i,
    {
        assert(files@.take(i + 1).drop_last() =~= files@.take(i as int));
        let ghost before = views(w@);
        let label = chars_of_string(&files[i].0);
        match files[i].1 {
            DerivedRead::Valid => {},
            DerivedRead::Missing => {
                w.push(string_of(&cat(&label, &chars_of(" 缺失，已根据 Markdown 档案重建。"))));
            },
            DerivedRead::Invalid => {
                w.push(string_of(&cat(&label, &chars_of(" 损坏，已根据 Markdown 档案重建。"))));
            },
        }
        assert(views(w@) =~= before + derived_warning(files@[i as int].0@, files@[i as int].1));
        i = i + 1;
    }
    assert(files@.take(files.len() as int) =~= files@);
    w
}

/// A derived file as read back: its content when it parses, or why not.
pub enum Stored<T> {
    Valid(T),
    Missing,
    Invalid,
}

pub open spec fn read_of<T>(s: Stored<T>) -> DerivedRead {
    match s {
        Stored::Valid(_) => DerivedRead::Valid,
        Stored::Missing => DerivedRead::Missing,
        Stored::Invalid => DerivedRead::Invalid,
    }
}

/// What the freshness checks read of `memory/state.json` or
/// `memory/snapshot.json`.
pub struct StoredRevision {
    pub version: u64,
    pub archive_revision: String,
    pub state_revision: u64,
}

/// The derived files as found, and the archive revision rebuilt from the
/// Markdown archives.  The index is given as whether it equals the rebuilt
/// index, the manifest by its archive revision.
pub struct DerivedObservations {
    pub index: Stored<bool>,
    pub manifest: Stored<String>,
    pub state: Stored<StoredRevision>,
    pub snapshot: Stored<StoredRevision>,
    pub expected_archive_revision: String,
}

pub struct DerivedStatuses {
    pub index: &'static str,
    pub manifest: &'static str,
    pub state: &'static str,
    pub snapshot: &'static str,
    pub index_fresh: bool,
    pub manifest_fresh: bool,
    pub state_fresh: bool,
    pub snapshot_fresh: bool,
    /// `invalid`, `incomplete`, `consistent` or `stale`.
    pub snapshot_consistency: &'static str,
}

pub open spec fn state_fresh_spec(o: DerivedObservations) -> bool {
    match o.state {
        Stored::Valid(st) => st.version >= 3 && st.archive_revision@ == o.expected_archive_revision@,
        _ => false,
    }
}

pub open spec fn snapshot_fresh_spec(o: DerivedObservations) -> bool {
    match (o.snapshot, o.state) {
        (Stored::Valid(sn), Stored::Valid(st)) => sn.version == 1 && sn.archive_revision@
            == o.expected_archive_revision@ && sn.state_revision == st.state_revision
            && state_fresh_spec(o),
        _ => false,
    }
}

fn read_status<T>(s: &Stored<T>) -> (r: DerivedRead)
    ensures
        r == read_of(*s),
{
    match s {
        Stored::Valid(_) => DerivedRead::Valid,
        Stored::Missing => DerivedRead::Missing,
        Stored::Invalid => DerivedRead::Invalid,
    }
}

/// The status of each derived file, whether it is fresh against the
/// archives, and the consistency of the whole set: `invalid` if any file
/// is invalid, else `incomplete` if any is missing, else `consistent` when
/// all are fresh, else `stale`.
pub fn derived_statuses(o: &DerivedObservations) -> (r: DerivedStatuses)
    ensures
        r.index@ == derived_status_text(read_of(o.index)),
        r.manifest@ == derived_status_text(read_of(o.manifest)),
        r.state@ == derived_status_text(read_of(o.state)),
        r.snapshot@ == derived_status_text(read_of(o.snapshot)),
        r.index_fresh == (o.index == Stored::<bool>::Valid(true)),
        r.manifest_fresh == (o.manifest matches Stored::Valid(rev) && rev@ == o.expected_archive_revision@),
        r.state_fresh == state_fresh_spec(*o),
        r.snapshot_fresh == snapshot_fresh_spec(*o),
        ({
            let reads = seq![read_of(o.index), read_of(o.manifest), read_of(o.state), read_of(o.snapshot)];
            r.snapshot_consistency@ == if reads.contains(DerivedRead::Invalid) {
                "invalid"@
            } else if reads.contains(DerivedRead::Missing) {
                "incomplete"@
            } else if r.index_fresh && r.manifest_fresh && r.state_fresh && r.snapshot_fresh {
                "consistent"@
            } else {
                "stale"@
            }
        }),
{
    let index = read_status(&o.index);
    let manifest = read_status(&o.manifest);
    let state = read_status(&o.state);
    let snapshot = read_status(&o.snapshot);
    let expected = chars_of_string(&o.expected_archive_revision);
    let index_fresh = match &o.index {
        Stored::Valid(same) => *same,
        _ => false,
    };
    let manifest_fresh = match &o.manifest {
        Stored::Valid(rev) => eq_vec(&chars_of_string(rev), &expected),
        _ => false,
    };
    let state_fresh = match &o.state {
        Stored::Valid(st) => st.version >= 3 && eq_vec(&chars_of_string(&st.archive_revision), &expected),
        _ => false,
    };
    let snapshot_fresh = match (&o.snapshot, &o.state) {
        (Stored::Valid(sn), Stored::Valid(st)) => sn.version == 1 && eq_vec(
            &chars_of_string(&sn.archive_revision),
            &expected,
        ) && sn.state_revision == st.state_revision && state_fresh,
        _ => false,
    };
    let ghost reads = seq![index, manifest, state, snapshot];
    let any_invalid = index == DerivedRead::Invalid || manifest == DerivedRead::Invalid || state
        == DerivedRead::Invalid || snapshot == DerivedRead::Invalid;
    let any_missing = index == DerivedRead::Missing || manifest == DerivedRead::Missing || state
        == DerivedRead::Missing || snapshot == DerivedRead::Missing;
    assert(any_invalid == reads.contains(DerivedRead::Invalid)) by {
        if reads.contains(DerivedRead::Invalid) {
            let k = choose|k: int| 0 <= k < 4 && reads[k] == DerivedRead::Invalid;
        } else {
            assert(reads[0] != DerivedRead::Invalid);
            assert(reads[1] != DerivedRead::Invalid);
            assert(reads[2] != DerivedRead::Invalid);
            assert(reads[3] != DerivedRead::Invalid);
        }
        if any_invalid {
            if index == DerivedRead::Invalid {
                assert(reads[0] == DerivedRead::Invalid);
            } else if manifest == DerivedRead::Invalid {
                assert(reads[1] == DerivedRead::Invalid);
            } else if state == DerivedRead::Invalid {
                assert(reads[2] == DerivedRead::Invalid);
            } else {
                assert(reads[3] == DerivedRead::Invalid);
            }
        }
    }
    assert(any_missing == reads.contains(DerivedRead::Missing)) by {
        if reads.contains(DerivedRead::Missing) {
            let k = choose|k: int| 0 <= k < 4 && reads[k] == DerivedRead::Missing;
        } else {
            assert(reads[0] != DerivedRead::Missing);
            assert(reads[1] != DerivedRead::Missing);
            assert(reads[2] != DerivedRead::Missing);
            assert(reads[3] != DerivedRead::Missing);
        }
        if any_missing {
            if index == DerivedRead::Missing {
                assert(reads[0] == DerivedRead::Missing);
            } else if manifest == DerivedRead::Missing {
                assert(reads[1] == DerivedRead::Missing);
            } else if state == DerivedRead::Missing {
                assert(reads[2] == DerivedRead::Missing);
            } else {
                assert(reads[3] == DerivedRead::Missing);
            }
        }
    }
    let snapshot_consistency = if any_invalid {
        "invalid"
    } else if any_missing {
        "incomplete"
    } else if index_fresh && manifest_fresh && state_fresh && snapshot_fresh {
        "consistent"
    } else {
        "stale"
    };
    DerivedStatuses {
        index: derived_status(index),
        manifest: derived_status(manifest),
        state: derived_status(state),
        snapshot: derived_status(snapshot),
        index_fresh,
        manifest_fresh,
        state_fresh,
        snapshot_fresh,
        snapshot_consistency,
    }
}

/// Law: the set of derived files is reported consistent only when every
/// file is valid and fresh.
pub proof fn law_consistent_means_all_fresh(o: DerivedObservations, r: DerivedStatuses)
    requires
        r.index_fresh == (o.index == Stored::<bool>::Valid(true)),
        r.state_fresh == state_fresh_spec(o),
        r.snapshot_fresh == snapshot_fresh_spec(o),
        ({
            let reads = seq![read_of(o.index), read_of(o.manifest), read_of(o.state), read_of(o.snapshot)];
            r.snapshot_consistency@ == if reads.contains(DerivedRead::Invalid) {
                "invalid"@
            } else if reads.contains(DerivedRead::Missing) {
                "incomplete"@
            } else if r.index_fresh && r.manifest_fresh && r.state_fresh && r.snapshot_fresh {
                "consistent"@
            } else {
                "stale"@
            }
        }),
        r.snapshot_consistency@ == "consistent"@,
    ensures
        o.index is Valid && o.manifest is Valid && o.state is Valid && o.snapshot is Valid,
        r.index_fresh && r.manifest_fresh && r.state_fresh && r.snapshot_fresh,
{
    reveal_strlit("consistent");
    reveal_strlit("invalid");
    reveal_strlit("incomplete");
    reveal_strlit("stale");
    let reads = seq![read_of(o.index), read_of(o.manifest), read_of(o.state), read_of(o.snapshot)];
    assert("consistent"@.len() == 10 && "invalid"@.len() == 7 && "stale"@.len() == 5);
    assert("consistent"@[1] == 'o' && "incomplete"@[1] == 'n');
    assert("consistent"@ != "invalid"@);
    assert("consistent"@ != "incomplete"@);
    assert("consistent"@ != "stale"@);
    assert(!reads.contains(DerivedRead::Invalid));
    assert(!reads.contains(DerivedRead::Missing));
    assert(reads[0] != DerivedRead::Invalid && reads[0] != DerivedRead::Missing);
    assert(reads[1] != DerivedRead::Invalid && reads[1] != DerivedRead::Missing);
    assert(reads[2] != DerivedRead::Invalid && reads[2] != DerivedRead::Missing);
    assert(reads[3] != DerivedRead::Invalid && reads[3] != DerivedRead::Missing);
}

/// The revision a new checkpoint of a turn gets: one past the latest
/// stored revision of that turn (the last of equal maxima), which it then
/// supersedes; 1 for a new turn.
pub open spec fn max_revision_index(revs: Seq<u64>) -> int
    decreases revs.len(),
{
    if revs.len() <= 1 {
        0
    } else if revs.last() >= revs[max_revision_index(revs.drop_last())] {
        revs.len() - 1
    } else {
        max_revision_index(revs.drop_last())
    }
}

proof fn lemma_max_revision_index(revs: Seq<u64>)
    requires
        revs.len() > 0,
    ensures
        0 <= max_revision_index(revs) < revs.len(),
        forall|i: int| 0 <= i < revs.len() ==> #[trigger] revs[i] <= revs[max_revision_index(revs)],
    decreases revs.len(),
{
    if revs.len() > 1 {
        let pre = revs.drop_last();
        lemma_max_revision_index(pre);
        let m = max_revision_index(pre);
        assert forall|i: int| 0 <= i < revs.len() implies #[trigger] revs[i] <= revs[max_revision_index(revs)] by {
            if i < revs.len() - 1 {
                assert(revs[i] == pre[i]);
                assert(pre[i] <= pre[m]);
                assert(revs[m] == pre[m]);
            }
        }
    }
}

pub fn next_revision(turn_id: &str, existing_revisions: &Vec<u64>) -> (r: (u64, Option<String>))
    requires
        forall|i: int| 0 <= i < existing_revisions.len() ==> existing_revisions@[i] < u64::MAX,
    ensures
        existing_revisions.len() == 0 ==> r.0 == 1 && r.1 is None,
        existing_revisions.len() > 0 ==> {
            let latest = existing_revisions@[max_revision_index(existing_revisions@)];
            &&& r.0 == latest + 1
            &&& r.1 matches Some(s) && s@ == turn_id@ + " revision-"@ + decimal(latest as nat)
        },
{
    if existing_revisions.len() == 0 {
        return (1, None);
    }
    let mut best: usize = 0;
    let mut i: usize = 1;
    while i < existing_revisions.len()
        invariant
            1 <= i <= existing_revisions.len(),
            best < i,
            best == max_revision_index(existing_revisions@.take(i as int)),
        decreases existing_revisions.len() - i,
    {
        assert(existing_revisions@.take(i + 1).drop_last() =~= existing_revisions@.take(i as int));
        proof {
            lemma_max_revision_index(existing_revisions@.take(i as int));
        }
        assert(existing_revisions@.take(i + 1).last() == existing_revisions@[i as int]);
        assert(existing_revisions@.take(i + 1)[best as int] == existing_revisions@[best as int]);
        if existing_revisions[i] >= existing_revisions[best] {
            best = i;
        }
        i = i + 1;
    }
    assert(existing_revisions@.take(existing_revisions.len() as int) =~= existing_revisions@);
    let latest = existing_revisions[best];
    let s = cat(&cat(&chars_of(turn_id), &chars_of(" revision-")), &decimal_of(latest));
    (latest + 1, Some(string_of(&s)))
}

/// A checkpoint whose fingerprint matches a stored revision of the same
/// turn is a duplicate and is not written again.
pub fn is_duplicate(existing_fingerprints: &Vec<String>, fingerprint: &str) -> (r: bool)
    ensures
        r == views(existing_fingerprints@).contains(fingerprint@),
{
    contains_string(existing_fingerprints, &chars_of(fingerprint))
}

/// Who a history call acts for: the session key, where it came from, and
/// whether the host's conversation id names another session.
pub struct BootstrapIdentity {
    pub session_key: String,
    pub source: &'static str,
    pub host_mismatch: bool,
}

pub fn bootstrap_identity(explicit: Option<&str>, host: Option<&str>) -> (r: Result<
    BootstrapIdentity,
    HistoryError,
>)
    ensures
        match r {
            Ok(id) => {
                &&& (match present(opt_view(explicit)) {
                    Some(k) => id.session_key@ == k && id.source@ == "explicit_session_key"@,
                    None => present(opt_view(host)) matches Some(k) && id.session_key@ == k
                        && id.source@ == "platform_conversation_id"@,
                })
                &&& byte_len(id.session_key@) <= 4096
                &&& id.host_mismatch == (present(opt_view(host)) matches Some(h) && h
                    != id.session_key@)
            },
            Err(e) => e.code@ == "SESSION_ID_INVALID"@ || e.code@ == "SESSION_ID_UNAVAILABLE"@,
        },
{
    let (session_key, source) = resolve_session_key(explicit, host)?;
    let host_mismatch = match present_exec(host) {
        Some(h) => !eq_vec(&chars_of_string(&h), &chars_of_string(&session_key)),
        None => false,
    };
    Ok(BootstrapIdentity { session_key, source, host_mismatch })
}

/// A history whose numbering has gaps, or whose files share a session
/// key, is not used to create or resume sessions.
pub fn check_history_sequence(duplicate_session_keys: &Vec<String>, missing_numbers: &Vec<u64>) -> (r:
    Result<(), HistoryError>)
    ensures
        r is Ok <==> duplicate_session_keys.len() == 0 && missing_numbers.len() == 0,
        duplicate_session_keys.len() > 0 ==> (r matches Err(e) && e.code@ == "HISTORY_INDEX_CONFLICT"@),
        duplicate_session_keys.len() == 0 && missing_numbers.len() > 0 ==> (r matches Err(e) && error_is(
            e,
            "HISTORY_SEQUENCE_CONFLICT"@,
            "History numbering contains gaps; run history_session_validate before creating a session."@,
            "validation"@,
            true,
        )),
{
    reject_ambiguous_history(duplicate_session_keys)?;
    if missing_numbers.len() == 0 {
        return Ok(());
    }
    let mut numbers: Vec<String> = Vec::new();
    let mut i: usize = 0;
    while i < missing_numbers.len()
        invariant
            0 <= i <= missing_numbers.len(),
        decreases missing_numbers.len() - i,
    {
        numbers.push(string_of(&decimal_of(missing_numbers[i])));
        i = i + 1;
    }
    let mut details = Vec::new();
    details.push(Detail { key: string_of(&chars_of("missing_numbers")), value: DetailValue::Texts(numbers) });
    Err(
        history_error(
            "HISTORY_SEQUENCE_CONFLICT",
            "History numbering contains gaps; run history_session_validate before creating a session.",
            "validation",
            true,
            details,
        ),
    )
}

/// The warnings of a bootstrap: the rebuilt derived files, then a note when
/// the host's conversation id differs from the explicit session key.
pub fn bootstrap_warnings(derived: &Vec<(String, DerivedRead)>, host_mismatch: bool) -> (r: Vec<String>)
    ensures
        views(r@) == derived_warnings_spec(derived@) + (if host_mismatch {
            seq!["宿主会话标识与显式 session_key 不一致，已使用显式 session_key 保持会话连续。"@]
        } else {
            Seq::<Seq<char>>::empty()
        }),
{
    let mut w = derived_file_warnings(derived);
    let ghost before = views(w@);
    if host_mismatch {
        w.push(string_of(&chars_of("宿主会话标识与显式 session_key 不一致，已使用显式 session_key 保持会话连续。")));
    }
    assert(views(w@) =~= before + (if host_mismatch {
        seq!["宿主会话标识与显式 session_key 不一致，已使用显式 session_key 保持会话连续。"@]
    } else {
        Seq::<Seq<char>>::empty()
    }));
    w
}

/// The first user input a bootstrap records: the argument when it is a
/// non-empty string.
pub fn requested_initial_input(value: Option<&str>) -> (r: Option<String>)
    ensures
        match r {
            Some(s) => value matches Some(v) && v@.len() > 0 && s@ == v@,
            None => value is None || value->0@.len() == 0,
        },
{
    match value {
        Some(v) => {
            let c = chars_of(v);
            if c.len() > 0 {
                Some(string_of(&c))
            } else {
                None
            }
        },
        None => None,
    }
}

/// What resuming an existing session does: record a supplied first input
/// as a new revision; without one, warn when none was ever captured.
pub struct ResumePlan {
    pub append_initial_input: bool,
    pub warn_missing_input: bool,
    pub initial_input_captured: bool,
}

pub fn plan_resume(previously_captured: bool, input_supplied: bool) -> (r: ResumePlan)
    ensures
        r.append_initial_input == input_supplied,
        r.warn_missing_input == (!input_supplied && !previously_captured),
        r.initial_input_captured == (previously_captured || input_supplied),
{
    ResumePlan {
        append_initial_input: input_supplied,
        warn_missing_input: !input_supplied && !previously_captured,
        initial_input_captured: previously_captured || input_supplied,
    }
}

/// A bootstrap may create the session unless `create_if_missing` is false.
pub fn ensure_creation_allowed(create_if_missing: Option<bool>, source: &str) -> (r: Result<(), HistoryError>)
    ensures
        r is Ok <==> create_if_missing != Some(false),
        r matches Err(e) ==> error_is(
            e,
            "SESSION_NOT_BOOTSTRAPPED"@,
            "No history mapping exists for this session_key."@,
            "not_found"@,
            false,
        ),
{
    if create_if_missing != Some(false) {
        return Ok(());
    }
    let mut details = Vec::new();
    details.push(text_detail("session_key_source", source));
    Err(
        history_error(
            "SESSION_NOT_BOOTSTRAPPED",
            "No history mapping exists for this session_key.",
            "not_found",
            false,
            details,
        ),
    )
}

/// A new session takes the number after the latest archive (1 for the
/// first) and lives at `<history dir>/<number>.md`.
pub fn new_session_location(latest_number: Option<u64>, history_dir_display: &str) -> (r: (u64, String))
    requires
        latest_number matches Some(n) ==> n < u64::MAX,
    ensures
        r.0 == (match latest_number {
            Some(n) => n + 1,
            None => 1,
        }),
        r.1@ == history_dir_display@ + "/"@ + decimal(r.0 as nat) + ".md"@,
{
    let number = match latest_number {
        Some(n) => n + 1,
        None => 1,
    };
    let p = cat(&chars_of(history_dir_display), &chars_of("/"));
    let p = cat(&p, &decimal_of(number));
    (number, string_of(&cat(&p, &chars_of(".md"))))
}

/// The title of a new archive: the `title` argument, or `开发会话`.
pub fn document_title_arg(title: Option<&str>) -> (r: String)
    ensures
        r@ == (match title {
            Some(t) => t@,
            None => "开发会话"@,
        }),
{
    match title {
        Some(t) => string_of(&chars_of(t)),
        None => string_of(&chars_of("开发会话")),
    }
}

/// The revision the refreshed state gets: one past the stored state's, or
/// 1 when none could be read.
pub fn next_state_revision(stored: Option<u64>) -> (r: u64)
    requires
        stored matches Some(n) ==> n < u64::MAX,
    ensures
        r == (match stored {
            Some(n) => n + 1,
            None => 1,
        }),
{
    match stored {
        Some(n) => n + 1,
        None => 1,
    }
}

/// A checkpoint names its target; a host conversation id that differs from
/// the checkpoint's session key is reported.
pub struct CheckpointTarget {
    pub session_key: String,
    pub expected_path: String,
    pub host_mismatch: bool,
}

pub fn checkpoint_target(session_key: Option<&str>, expected_path: Option<&str>, host: Option<&str>) -> (r:
    Result<CheckpointTarget, HistoryError>)
    ensures
        match r {
            Ok(t) => present(opt_view(session_key)) == Some(t.session_key@) && byte_len(t.session_key@)
                <= 4096 && present(opt_view(expected_path)) == Some(t.expected_path@) && t.host_mismatch
                == (present(opt_view(host)) matches Some(h) && h != t.session_key@),
            Err(e) => present(opt_view(session_key)) is None || present(opt_view(expected_path)) is None
                || byte_len(present(opt_view(session_key))->0) > 4096,
        },
{
    let session_key = required_checkpoint_argument(session_key, "session_key")?;
    proof {
        reveal_strlit("expected_path");
        reveal_strlit("session_key");
        assert("expected_path"@.len() != "session_key"@.len());
    }
    let expected_path = required_checkpoint_argument(expected_path, "expected_path")?;
    let host_mismatch = match present_exec(host) {
        Some(h) => !eq_vec(&chars_of_string(&h), &chars_of_string(&session_key)),
        None => false,
    };
    Ok(CheckpointTarget { session_key, expected_path, host_mismatch })
}

/// The archive a checkpoint writes to must be the one bootstrap returned.
pub fn check_checkpoint_target(target: &CheckpointTarget, resolved_path: &str) -> (r: Result<(), HistoryError>)
    ensures
        r is Ok <==> resolved_path@ == target.expected_path@,
        r matches Err(e) ==> error_is(
            e,
            "SESSION_TARGET_MISMATCH"@,
            "The checkpoint target does not match the session initialized by bootstrap."@,
            "validation"@,
            false,
        ),
{
    if eq_vec(&chars_of(resolved_path), &chars_of_string(&target.expected_path)) {
        return Ok(());
    }
    let mut details = Vec::new();
    details.push(text_detail("expected_path", target.expected_path.as_str()));
    details.push(text_detail("resolved_path", resolved_path));
    details.push(text_detail("session_key", target.session_key.as_str()));
    Err(
        history_error(
            "SESSION_TARGET_MISMATCH",
            "The checkpoint target does not match the session initialized by bootstrap.",
            "validation",
            false,
            details,
        ),
    )
}

/// The SHA-256 digest of `data` as 64 lower-case hexadecimal digits.
pub uninterp spec fn sha256_hex(data: Seq<u8>) -> Seq<char>;

/// `format!("{:x}", sha2::Sha256::digest(data))`: the digest, named
/// `sha256_hex`, written as 64 lower-case hexadecimal digits.
#[verifier::external_body]
fn sha256_hex_of(data: &[u8]) -> (r: String)
    ensures
        r@ == sha256_hex(data@),
        r@.len() == 64,
        forall|i: int| 0 <= i < 64 ==> crate::text::is_lower_hex(#[trigger] r@[i]),
{
    format!("{:x}", sha2::Sha256::digest(data))
}

/// The hash of an archive's content, as reads and checkpoints report it.
pub fn content_sha256(content: &str) -> (r: String)
    ensures
        r@ == sha256_hex(vstd::utf8::encode_utf8(content@)),
{
    sha256_hex_of(content.as_bytes())
}

/// `u64::to_le_bytes`.
pub open spec fn le_bytes(n: u64) -> Seq<u8> {
    Seq::new(8, |k: int| ((n >> ((8 * k) as u64)) & 0xff) as u8)
}

/// The bytes the archive revision digests: per manifest entry, its number
/// (little-endian) and then its content hash text.
pub open spec fn revision_input(entries: Seq<(u64, String)>) -> Seq<u8>
    decreases entries.len(),
{
    if entries.len() == 0 {
        Seq::empty()
    } else {
        revision_input(entries.drop_last()) + le_bytes(entries.last().0) + vstd::utf8::encode_utf8(
            entries.last().1@,
        )
    }
}

/// The archive revision of a manifest: `sha256:` and the digest of its
/// entries (number and content hash, in order).
pub fn archive_revision(entries: &Vec<(u64, String)>) -> (r: String)
    ensures
        r@ == "sha256:"@ + sha256_hex(revision_input(entries@)),
{
    let mut data: Vec<u8> = Vec::new();
    let mut i: usize = 0;
    while i < entries.len()
        invariant
            0 <= i <= entries.len(),
            data@ == revision_input(entries@.take(i as int)),
        decreases entries.len() - i,
    {
        assert(entries@.take(i + 1).drop_last() =~= entries@.take(i as int));
        let n = entries[i].0;
        let ghost before = data@;
        let mut k: u64 = 0;
        while k < 8
            invariant
                k <= 8,
                data@ == before + le_bytes(n).take(k as int),
            decreases 8 - k,
        {
            let b = ((n >> (8 * k)) & 0xff) as u8;
            data.push(b);
            k = k + 1;
            assert(data@ =~= before + le_bytes(n).take(k as int));
        }
        assert(le_bytes(n).take(8) =~= le_bytes(n));
        let bytes = entries[i].1.as_str().as_bytes();
        let ghost mid = data@;
        let mut j: usize = 0;
        while j < bytes.len()
            invariant
                0 <= j <= bytes@.len(),
                data@ == mid + bytes@.take(j as int),
            decreases bytes.len() - j,
        {
            data.push(bytes[j]);
            j = j + 1;
            assert(data@ =~= mid + bytes@.take(j as int));
        }
        assert(bytes@.take(bytes@.len() as int) =~= bytes@);
        i = i + 1;
    }
    assert(entries@.take(entries.len() as int) =~= entries@);
    let hex = sha256_hex_of(data.as_slice());
    string_of(&cat(&chars_of("sha256:"), &chars_of_string(&hex)))
}

} // verus!
