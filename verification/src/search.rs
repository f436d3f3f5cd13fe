//! Searching the history archives: tokenising a query, scoring an archive
//! against the tokens, choosing the snippet shown for a hit, and the order
//! of hits.
//!
//! Unicode case mapping and the alphanumeric class come from std
//! (`str::to_lowercase`, `char::to_lowercase`, `char::is_alphanumeric`);
//! their results are named below.

use vstd::prelude::*;

use crate::history::truncate_text_spec;
use crate::text::{
    cat, chars_of, chars_of_string, compare_chars, eq_vec, lemma_seq_lt_irreflexive,
    lemma_seq_lt_total, lemma_seq_lt_transitive, occurs_at, occurs_at_exec, seq_lt, slice_of,
    string_of, trim, trim_vec,
};

verus! {

/// `str::to_lowercase` (full Unicode lowercase mapping of a string).
pub uninterp spec fn lowercase(s: Seq<char>) -> Seq<char>;

/// `char::to_lowercase`, collected: the lowercase mapping of one
/// character.
pub uninterp spec fn char_lowercase(c: char) -> Seq<char>;

/// `char::is_alphanumeric`.
pub uninterp spec fn alphanumeric(c: char) -> bool;

/// Lowercases a string with `str::to_lowercase`; the result is named
/// `lowercase`.
#[verifier::external_body]
fn to_lowercase(s: &str) -> (r: String)
    ensures
        r@ == lowercase(s@),
{
    s.to_lowercase()
}

/// The characters of `char::to_lowercase(c)`; the result is named
/// `char_lowercase`.
#[verifier::external_body]
fn char_to_lowercase(c: char) -> (r: Vec<char>)
    ensures
        r@ == char_lowercase(c),
{
    c.to_lowercase().collect()
}

/// `char::is_alphanumeric`; the result is named `alphanumeric`.
#[verifier::external_body]
fn is_alphanumeric(c: char) -> (r: bool)
    ensures
        r == alphanumeric(c),
{
    c.is_alphanumeric()
}

/// The pieces of `s` between characters that are not alphanumeric
/// (`str::split` with that predicate; empty pieces included).
pub open spec fn pieces(s: Seq<char>) -> Seq<Seq<char>>
    decreases s.len(),
{
    if s.len() == 0 {
        seq![Seq::empty()]
    } else {
        let p = pieces(s.drop_last());
        if !alphanumeric(s.last()) {
            p.push(Seq::empty())
        } else {
            p.update(p.len() - 1, p.last().push(s.last()))
        }
    }
}

proof fn lemma_pieces_nonempty(s: Seq<char>)
    ensures
        pieces(s).len() >= 1,
    decreases s.len(),
{
    if s.len() > 0 {
        lemma_pieces_nonempty(s.drop_last());
    }
}

/// The token a piece gives: trimmed and lowercased.
pub open spec fn token_of(p: Seq<char>) -> Seq<char> {
    lowercase(trim(p))
}

/// The tokens of the pieces that have at least two characters.
pub open spec fn candidate_tokens(ps: Seq<Seq<char>>) -> Seq<Seq<char>>
    decreases ps.len(),
{
    if ps.len() == 0 {
        Seq::empty()
    } else if token_of(ps.last()).len() >= 2 {
        candidate_tokens(ps.drop_last()).push(token_of(ps.last()))
    } else {
        candidate_tokens(ps.drop_last())
    }
}

/// Strictly increasing in `str` order (sorted, without repeats).
pub open spec fn strictly_sorted(s: Seq<Seq<char>>) -> bool {
    forall|i: int, j: int| 0 <= i < j < s.len() ==> seq_lt(#[trigger] s[i], #[trigger] s[j])
}

pub open spec fn vviews(v: Seq<Vec<char>>) -> Seq<Seq<char>> {
    v.map_values(|x: Vec<char>| x@)
}

pub open spec fn views(v: Seq<String>) -> Seq<Seq<char>> {
    v.map_values(|x: String| x@)
}

fn insert_unique_sorted(r: &mut Vec<Vec<char>>, x: Vec<char>)
    requires
        strictly_sorted(vviews(old(r)@)),
    ensures
        strictly_sorted(vviews(final(r)@)),
        vviews(final(r)@).to_set() == vviews(old(r)@).to_set().insert(x@),
{
    let mut p: usize = 0;
    while p < r.len() && compare_chars(&r[p], &x) == -1
        invariant
            0 <= p <= r@.len(),
            r@ == old(r)@,
            strictly_sorted(vviews(r@)),
            forall|q: int| 0 <= q < p ==> seq_lt(vviews(r@)[q], x@),
        decreases r.len() - p,
    {
        p = p + 1;
    }
    let ghost s = vviews(r@);
    let c: i8 = if p < r.len() {
        compare_chars(&r[p], &x)
    } else {
        1
    };
    if c == 0 {
        assert(s[p as int] == x@);
        assert(s.to_set().insert(x@) =~= s.to_set());
        return;
    }
    proof {
        if p < s.len() {
            lemma_seq_lt_total(s[p as int], x@);
            assert(seq_lt(x@, s[p as int]));
        }
    }
    r.insert(p, x);
    proof {
        let t = vviews(r@);
        assert(t =~= s.insert(p as int, x@));
        assert forall|a: int, b: int| 0 <= a < b < t.len() implies seq_lt(#[trigger] t[a], #[trigger] t[b]) by {
            if a == p {
                assert(t[b] == s[b - 1]);
                if b - 1 > p {
                    lemma_seq_lt_transitive(x@, s[p as int], s[b - 1]);
                }
            } else if b == p {
                assert(t[a] == s[a]);
            } else {
                let a2 = if a < p {
                    a
                } else {
                    a - 1
                };
                let b2 = if b < p {
                    b
                } else {
                    b - 1
                };
                assert(t[a] == s[a2]);
                assert(t[b] == s[b2]);
            }
        }
        assert forall|y: Seq<char>| t.to_set().contains(y) <==> s.to_set().insert(x@).contains(y) by {
            if t.contains(y) {
                let k = choose|k: int| 0 <= k < t.len() && t[k] == y;
                if k < p {
                    assert(s[k] == y);
                } else if k > p {
                    assert(s[k - 1] == y);
                }
            }
            if s.contains(y) {
                let k = choose|k: int| 0 <= k < s.len() && s[k] == y;
                if k < p {
                    assert(t[k] == y);
                } else {
                    assert(t[k + 1] == y);
                }
            }
            if y == x@ {
                assert(t[p as int] == y);
            }
        }
        assert(t.to_set() =~= s.to_set().insert(x@));
    }
}

proof fn lemma_push_to_set(s: Seq<Seq<char>>, a: Seq<char>)
    ensures
        s.push(a).to_set() == s.to_set().insert(a),
{
    assert forall|y: Seq<char>| s.push(a).to_set().contains(y) <==> s.to_set().insert(a).contains(y) by {
        if s.push(a).contains(y) {
            let k = choose|k: int| 0 <= k < s.push(a).len() && s.push(a)[k] == y;
            if k < s.len() {
                assert(s[k] == y);
            }
        }
        if s.contains(y) {
            let k = choose|k: int| 0 <= k < s.len() && s[k] == y;
            assert(s.push(a)[k] == y);
        }
        if y == a {
            assert(s.push(a)[s.len() as int] == y);
        }
    }
    assert(s.push(a).to_set() =~= s.to_set().insert(a));
}

/// The query tokens: the alphanumeric runs of `value`, trimmed and
/// lowercased, those of at least two characters, sorted, each once.
pub fn tokenize(value: &str) -> (r: Vec<String>)
    ensures
        strictly_sorted(views(r@)),
        views(r@).to_set() == candidate_tokens(pieces(value@)).to_set(),
{
    let v = chars_of(value);
    let mut ps: Vec<Vec<char>> = Vec::new();
    let mut cur: Vec<char> = Vec::new();
    let mut i: usize = 0;
    assert(v@.take(0) =~= Seq::<char>::empty());
    while i < v.len()
        invariant
            0 <= i <= v.len(),
            v@ == value@,
            vviews(ps@).push(cur@) == pieces(v@.take(i as int)),
        decreases v.len() - i,
    {
        let ghost pre = v@.take(i as int);
        assert(v@.take(i + 1).drop_last() =~= pre);
        let c = v[i];
        proof {
            lemma_pieces_nonempty(pre);
        }
        if !is_alphanumeric(c) {
            let done = cur;
            ps.push(done);
            cur = Vec::new();
            assert(vviews(ps@).push(cur@) =~= pieces(pre).push(Seq::empty()));
        } else {
            let ghost before = vviews(ps@);
            cur.push(c);
            assert(vviews(ps@).push(cur@) =~= pieces(pre).update(pieces(pre).len() - 1, pieces(pre).last().push(c)));
        }
        i = i + 1;
    }
    assert(v@.take(v.len() as int) =~= v@);
    ps.push(cur);
    let mut r: Vec<Vec<char>> = Vec::new();
    let mut k: usize = 0;
    while k < ps.len()
        invariant
            0 <= k <= ps.len(),
            vviews(ps@) == pieces(value@),
            strictly_sorted(vviews(r@)),
            vviews(r@).to_set() == candidate_tokens(vviews(ps@).take(k as int)).to_set(),
        decreases ps.len() - k,
    {
        assert(vviews(ps@).take(k + 1).drop_last() =~= vviews(ps@).take(k as int));
        let trimmed = trim_vec(&ps[k]);
        let t = to_lowercase(string_of(&trimmed).as_str());
        let tv = chars_of_string(&t);
        assert(vviews(ps@).take(k + 1).last() == ps@[k as int]@);
        assert(tv@ == token_of(vviews(ps@).take(k + 1).last()));
        if tv.len() >= 2 {
            let ghost prev = candidate_tokens(vviews(ps@).take(k as int));
            assert(candidate_tokens(vviews(ps@).take(k + 1)) == prev.push(tv@));
            proof {
                lemma_push_to_set(prev, tv@);
            }
            insert_unique_sorted(&mut r, tv);
        }
        k = k + 1;
    }
    assert(vviews(ps@).take(ps.len() as int) =~= vviews(ps@));
    let mut out: Vec<String> = Vec::new();
    let mut j: usize = 0;
    while j < r.len()
        invariant
            0 <= j <= r.len(),
            views(out@) == vviews(r@).take(j as int),
        decreases r.len() - j,
    {
        let ghost prev = out@;
        out.push(string_of(&r[j]));
        assert(views(out@) =~= views(prev).push(r@[j as int]@));
        j = j + 1;
        assert(views(out@) =~= vviews(r@).take(j as int));
    }
    assert(vviews(r@).take(r.len() as int) =~= vviews(r@));
    out
}

/// An archive's score for the query tokens: per token, 16 if the title
/// holds it, 10 if the keywords do, 4 if the content does (all
/// lowercased); 1 when there are no tokens.
pub open spec fn score_sum(title: Seq<char>, keywords: Seq<char>, content: Seq<char>, tokens: Seq<Seq<char>>) -> nat
    decreases tokens.len(),
{
    if tokens.len() == 0 {
        0
    } else {
        let t = tokens.last();
        score_sum(title, keywords, content, tokens.drop_last()) + (if crate::text::contains(title, t) {
            16nat
        } else {
            0
        }) + (if crate::text::contains(keywords, t) {
            10nat
        } else {
            0
        }) + (if crate::text::contains(content, t) {
            4nat
        } else {
            0
        })
    }
}

proof fn lemma_score_bound(title: Seq<char>, keywords: Seq<char>, content: Seq<char>, tokens: Seq<Seq<char>>)
    ensures
        score_sum(title, keywords, content, tokens) <= 30 * tokens.len(),
    decreases tokens.len(),
{
    if tokens.len() > 0 {
        lemma_score_bound(title, keywords, content, tokens.drop_last());
    }
}

/// `parts` joined by `sep`.
pub open spec fn join_with(parts: Seq<Seq<char>>, sep: Seq<char>) -> Seq<char>
    decreases parts.len(),
{
    if parts.len() == 0 {
        Seq::empty()
    } else if parts.len() == 1 {
        parts[0]
    } else {
        join_with(parts.drop_last(), sep) + sep + parts.last()
    }
}

fn join_space(parts: &Vec<String>) -> (r: Vec<char>)
    ensures
        r@ == join_with(views(parts@), seq![' ']),
{
    let mut out: Vec<char> = Vec::new();
    let mut i: usize = 0;
    while i < parts.len()
        invariant
            0 <= i <= parts.len(),
            out@ == join_with(views(parts@).take(i as int), seq![' ']),
        decreases parts.len() - i,
    {
        assert(views(parts@).take(i + 1).drop_last() =~= views(parts@).take(i as int));
        if i > 0 {
            out.push(' ');
        }
        out = cat(&out, &chars_of_string(&parts[i]));
        i = i + 1;
        assert(out@ =~= join_with(views(parts@).take(i as int), seq![' ']));
    }
    assert(views(parts@).take(parts.len() as int) =~= views(parts@));
    out
}

pub open spec fn search_score_spec(title: Seq<char>, keywords: Seq<Seq<char>>, content: Seq<char>, tokens: Seq<Seq<char>>) -> nat {
    if tokens.len() == 0 {
        1
    } else {
        score_sum(lowercase(title), lowercase(join_with(keywords, seq![' '])), lowercase(content), tokens)
    }
}

proof fn lemma_score_counts(title: Seq<char>, keywords: Seq<char>, content: Seq<char>, tokens: Seq<Seq<char>>, k: int)
    requires
        0 <= k < tokens.len(),
    ensures
        score_sum(title, keywords, content, tokens) >= (if crate::text::contains(title, tokens[k]) {
            16int
        } else {
            0int
        }) + (if crate::text::contains(keywords, tokens[k]) {
            10int
        } else {
            0int
        }) + (if crate::text::contains(content, tokens[k]) {
            4int
        } else {
            0int
        }),
    decreases tokens.len(),
{
    if k < tokens.len() - 1 {
        assert(tokens.drop_last()[k] == tokens[k]);
        lemma_score_counts(title, keywords, content, tokens.drop_last(), k);
    }
}

proof fn lemma_score_zero(title: Seq<char>, keywords: Seq<char>, content: Seq<char>, tokens: Seq<Seq<char>>)
    requires
        forall|k: int|
            0 <= k < tokens.len() ==> !crate::text::contains(title, #[trigger] tokens[k])
                && !crate::text::contains(keywords, tokens[k]) && !crate::text::contains(content, tokens[k]),
    ensures
        score_sum(title, keywords, content, tokens) == 0,
    decreases tokens.len(),
{
    if tokens.len() > 0 {
        assert forall|k: int| 0 <= k < tokens.drop_last().len() implies !crate::text::contains(
            title,
            #[trigger] tokens.drop_last()[k],
        ) && !crate::text::contains(keywords, tokens.drop_last()[k]) && !crate::text::contains(
            content,
            tokens.drop_last()[k],
        ) by {
            assert(tokens.drop_last()[k] == tokens[k]);
        }
        lemma_score_zero(title, keywords, content, tokens.drop_last());
        assert(tokens.last() == tokens[tokens.len() - 1]);
    }
}

/// Law: matching ignores case.  A query token found in the Unicode-lowercased
/// title adds at least 16 to an archive's score, in the lowercased
/// keywords (joined by spaces) at least 10, in the lowercased content at
/// least 4; so an archive holding a token in any case scores above zero.
/// An archive holding none of the tokens scores zero, and without tokens
/// every archive scores 1.
pub proof fn law_score_ignores_case(
    title: Seq<char>,
    keywords: Seq<Seq<char>>,
    content: Seq<char>,
    tokens: Seq<Seq<char>>,
)
    ensures
        tokens.len() == 0 ==> search_score_spec(title, keywords, content, tokens) == 1,
        forall|k: int|
            0 <= k < tokens.len() && crate::text::contains(lowercase(title), #[trigger] tokens[k])
                ==> search_score_spec(title, keywords, content, tokens) >= 16,
        forall|k: int|
            0 <= k < tokens.len() && crate::text::contains(
                lowercase(join_with(keywords, seq![' '])),
                #[trigger] tokens[k],
            ) ==> search_score_spec(title, keywords, content, tokens) >= 10,
        forall|k: int|
            0 <= k < tokens.len() && crate::text::contains(lowercase(content), #[trigger] tokens[k])
                ==> search_score_spec(title, keywords, content, tokens) >= 4,
        tokens.len() > 0 && (forall|k: int|
            0 <= k < tokens.len() ==> !crate::text::contains(lowercase(title), #[trigger] tokens[k])
                && !crate::text::contains(lowercase(join_with(keywords, seq![' '])), tokens[k])
                && !crate::text::contains(lowercase(content), tokens[k])) ==> search_score_spec(
            title,
            keywords,
            content,
            tokens,
        ) == 0,
{
    let tl = lowercase(title);
    let kl = lowercase(join_with(keywords, seq![' ']));
    let cl = lowercase(content);
    assert forall|k: int| 0 <= k < tokens.len() implies search_score_spec(title, keywords, content, tokens)
        >= (if crate::text::contains(tl, #[trigger] tokens[k]) {
        16int
    } else {
        0int
    }) + (if crate::text::contains(kl, tokens[k]) {
        10int
    } else {
        0int
    }) + (if crate::text::contains(cl, tokens[k]) {
        4int
    } else {
        0int
    }) by {
        lemma_score_counts(tl, kl, cl, tokens, k);
    }
    if tokens.len() > 0 && (forall|k: int|
        0 <= k < tokens.len() ==> !crate::text::contains(tl, #[trigger] tokens[k])
            && !crate::text::contains(kl, tokens[k]) && !crate::text::contains(cl, tokens[k])) {
        lemma_score_zero(tl, kl, cl, tokens);
    }
}

pub fn search_score(title: &str, keywords: &Vec<String>, content: &str, tokens: &Vec<String>) -> (r: u64)
    requires
        tokens.len() < 0x1_0000_0000,
    ensures
        r == search_score_spec(title@, views(keywords@), content@, views(tokens@)),
{
    if tokens.len() == 0 {
        return 1;
    }
    let tl = chars_of_string(&to_lowercase(title));
    let kl = chars_of_string(&to_lowercase(string_of(&join_space(keywords)).as_str()));
    let cl = chars_of_string(&to_lowercase(content));
    let mut score: u64 = 0;
    let mut i: usize = 0;
    while i < tokens.len()
        invariant
            0 <= i <= tokens.len(),
            tokens.len() < 0x1_0000_0000,
            score == score_sum(tl@, kl@, cl@, views(tokens@).take(i as int)),
        decreases tokens.len() - i,
    {
        assert(views(tokens@).take(i + 1).drop_last() =~= views(tokens@).take(i as int));
        proof {
            lemma_score_bound(tl@, kl@, cl@, views(tokens@).take(i as int));
        }
        let t = chars_of_string(&tokens[i]);
        let a: u64 = if crate::text::contains_vec(&tl, &t) {
            16
        } else {
            0
        };
        let b: u64 = if crate::text::contains_vec(&kl, &t) {
            10
        } else {
            0
        };
        let c: u64 = if crate::text::contains_vec(&cl, &t) {
            4
        } else {
            0
        };
        score = score + a + b + c;
        i = i + 1;
    }
    assert(views(tokens@).take(tokens.len() as int) =~= views(tokens@));
    score
}

/// The text searched for a snippet: each character lowercased on its own.
pub open spec fn normalized(s: Seq<char>) -> Seq<char>
    decreases s.len(),
{
    if s.len() == 0 {
        Seq::empty()
    } else {
        normalized(s.drop_last()) + char_lowercase(s.last())
    }
}

/// For each character of `normalized(s)`, the position in `s` of the
/// character it came from.
pub open spec fn origins(s: Seq<char>) -> Seq<int>
    decreases s.len(),
{
    if s.len() == 0 {
        Seq::empty()
    } else {
        origins(s.drop_last()) + Seq::new(char_lowercase(s.last()).len(), |k: int| s.len() - 1)
    }
}

proof fn lemma_origins_len(s: Seq<char>)
    ensures
        origins(s).len() == normalized(s).len(),
        forall|k: int| 0 <= k < origins(s).len() ==> 0 <= #[trigger] origins(s)[k] < s.len(),
    decreases s.len(),
{
    if s.len() > 0 {
        lemma_origins_len(s.drop_last());
    }
}

/// First position at or after `k` where `t` occurs in `hay`.
pub open spec fn first_from(hay: Seq<char>, t: Seq<char>, k: int) -> Option<int>
    decreases hay.len() + 1 - k,
{
    if k < 0 || k > hay.len() {
        None
    } else if occurs_at(hay, t, k) {
        Some(k)
    } else {
        first_from(hay, t, k + 1)
    }
}

/// Where in `s` the first match of token `t` in the normalized text
/// starts (as a character position of `s`).
pub open spec fn match_origin(s: Seq<char>, t: Seq<char>) -> Option<int> {
    match first_from(normalized(s), t, 0) {
        Some(i) => if i < origins(s).len() {
            Some(origins(s)[i])
        } else {
            None
        },
        None => None,
    }
}

/// The earliest match origin over the tokens.
pub open spec fn earliest_match(s: Seq<char>, tokens: Seq<Seq<char>>) -> Option<int>
    decreases tokens.len(),
{
    if tokens.len() == 0 {
        None
    } else {
        let rest = earliest_match(s, tokens.drop_last());
        match match_origin(s, tokens.last()) {
            Some(m) => match rest {
                Some(r) => Some(if m < r {
                    m
                } else {
                    r
                }),
                None => Some(m),
            },
            None => rest,
        }
    }
}

/// The snippet of a hit: the trimmed content (for no tokens), or the
/// content from 81 characters before the earliest match, trimmed; cut to
/// 280 characters.
pub open spec fn snippet_spec(content: Seq<char>, tokens: Seq<Seq<char>>) -> Seq<char> {
    if tokens.len() == 0 {
        truncate_text_spec(trim(content), 280)
    } else {
        let m = match earliest_match(content, tokens) {
            Some(m) => m,
            None => 0,
        };
        let start = if m >= 81 {
            m - 81
        } else {
            0
        };
        truncate_text_spec(trim(content.skip(start)), 280)
    }
}

fn first_from_exec(hay: &[char], t: &[char]) -> (r: Option<usize>)
    ensures
        match r {
            Some(i) => first_from(hay@, t@, 0) == Some(i as int),
            None => first_from(hay@, t@, 0) is None,
        },
{
    let mut k: usize = 0;
    while k < hay.len()
        invariant
            0 <= k <= hay.len(),
            first_from(hay@, t@, 0) == first_from(hay@, t@, k as int),
        decreases hay.len() - k,
    {
        if occurs_at_exec(hay, t, k) {
            return Some(k);
        }
        k = k + 1;
    }
    if occurs_at_exec(hay, t, k) {
        return Some(k);
    }
    assert(first_from(hay@, t@, k + 1) is None);
    None
}

pub fn search_snippet(content: &str, tokens: &Vec<String>) -> (r: String)
    ensures
        r@ == snippet_spec(content@, views(tokens@)),
{
    let c = chars_of(content);
    if tokens.len() == 0 {
        return crate::history::truncate_text(string_of(&trim_vec(&c)).as_str(), 280);
    }
    let mut norm: Vec<char> = Vec::new();
    let mut origin: Vec<usize> = Vec::new();
    let mut i: usize = 0;
    while i < c.len()
        invariant
            0 <= i <= c.len(),
            c@ == content@,
            norm@ == normalized(c@.take(i as int)),
            origin@.map_values(|o: usize| o as int) == origins(c@.take(i as int)),
        decreases c.len() - i,
    {
        assert(c@.take(i + 1).drop_last() =~= c@.take(i as int));
        let low = char_to_lowercase(c[i]);
        let ghost before = origin@.map_values(|o: usize| o as int);
        let mut k: usize = 0;
        while k < low.len()
            invariant
                0 <= k <= low.len(),
                i < c.len(),
                origin@.map_values(|o: usize| o as int) == before + Seq::new(k as nat, |q: int| i as int),
            decreases low.len() - k,
        {
            let ghost prev = origin@;
            origin.push(i);
            assert(origin@.map_values(|o: usize| o as int) =~= prev.map_values(|o: usize| o as int).push(i as int));
            k = k + 1;
            assert(origin@.map_values(|o: usize| o as int) =~= before + Seq::new(k as nat, |q: int| i as int));
        }
        norm = cat(&norm, &low);
        i = i + 1;
        assert(origin@.map_values(|o: usize| o as int) =~= origins(c@.take(i as int)));
    }
    assert(c@.take(c.len() as int) =~= c@);
    let mut best: Option<usize> = None;
    let mut j: usize = 0;
    while j < tokens.len()
        invariant
            0 <= j <= tokens.len(),
            c@ == content@,
            norm@ == normalized(c@),
            origin@.map_values(|o: usize| o as int) == origins(c@),
            match best {
                Some(b) => earliest_match(c@, views(tokens@).take(j as int)) == Some(b as int) && b
                    < c.len(),
                None => earliest_match(c@, views(tokens@).take(j as int)) is None,
            },
        decreases tokens.len() - j,
    {
        assert(views(tokens@).take(j + 1).drop_last() =~= views(tokens@).take(j as int));
        let t = chars_of_string(&tokens[j]);
        assert(t@ == views(tokens@).take(j + 1).last());
        let m: Option<usize> = match first_from_exec(&norm, &t) {
            Some(p) => if p < origin.len() {
                proof {
                    lemma_origins_len(c@);
                    assert(origin@.map_values(|o: usize| o as int)[p as int] == origin@[p as int] as int);
                }
                Some(origin[p])
            } else {
                None
            },
            None => None,
        };
        match m {
            Some(mv) => {
                best = match best {
                    Some(b) => Some(if mv < b {
                        mv
                    } else {
                        b
                    }),
                    None => Some(mv),
                };
            },
            None => {},
        }
        j = j + 1;
    }
    assert(views(tokens@).take(tokens.len() as int) =~= views(tokens@));
    let m: usize = match best {
        Some(b) => b,
        None => 0,
    };
    proof {
        lemma_origins_len(c@);
    }
    let start: usize = if m >= 81 {
        m - 81
    } else {
        0
    };
    let rest = slice_of(&c, start, c.len());
    assert(rest@ =~= c@.skip(start as int));
    crate::history::truncate_text(string_of(&trim_vec(&rest)).as_str(), 280)
}

/// A search result.
pub struct SearchHit {
    pub number: u64,
    pub path: String,
    pub title: String,
    pub updated_at: String,
    pub sha256: String,
    pub score: u64,
    pub snippet: String,
}

/// Hits are listed by score, then by most recent update, then by number,
/// each descending.
pub open spec fn hit_before(a: SearchHit, b: SearchHit) -> bool {
    a.score > b.score || (a.score == b.score && (seq_lt(b.updated_at@, a.updated_at@) || (
    a.updated_at@ == b.updated_at@ && a.number > b.number)))
}

pub open spec fn hits_sorted(s: Seq<SearchHit>) -> bool {
    forall|i: int, j: int| 0 <= i < j < s.len() ==> !hit_before(s[j], s[i])
}

proof fn lemma_hit_before_transitive(a: SearchHit, b: SearchHit, c: SearchHit)
    requires
        hit_before(a, b),
        hit_before(b, c),
    ensures
        hit_before(a, c),
{
    if a.score == b.score && b.score == c.score {
        if seq_lt(b.updated_at@, a.updated_at@) && seq_lt(c.updated_at@, b.updated_at@) {
            lemma_seq_lt_transitive(c.updated_at@, b.updated_at@, a.updated_at@);
        }
    }
}

proof fn lemma_hit_before_asymmetric(a: SearchHit, b: SearchHit)
    requires
        hit_before(a, b),
    ensures
        !hit_before(b, a),
{
    if hit_before(b, a) {
        lemma_hit_before_transitive(a, b, a);
        lemma_seq_lt_irreflexive(a.updated_at@);
    }
}

fn hit_before_exec(a: &SearchHit, b: &SearchHit) -> (r: bool)
    ensures
        r == hit_before(*a, *b),
{
    if a.score != b.score {
        return a.score > b.score;
    }
    let c = compare_chars(&chars_of_string(&b.updated_at), &chars_of_string(&a.updated_at));
    if c == -1 {
        true
    } else if c == 0 {
        a.number > b.number
    } else {
        proof {
            lemma_seq_lt_irreflexive(a.updated_at@);
            if seq_lt(b.updated_at@, a.updated_at@) {
                lemma_seq_lt_transitive(a.updated_at@, b.updated_at@, a.updated_at@);
            }
        }
        false
    }
}

/// The fields hits are ordered by.
pub open spec fn hit_key(h: SearchHit) -> (u64, Seq<char>, u64) {
    (h.score, h.updated_at@, h.number)
}

/// The hits of `s` whose ordering fields are `k`, in order.
pub open spec fn with_key(s: Seq<SearchHit>, k: (u64, Seq<char>, u64)) -> Seq<SearchHit> {
    s.filter(|h: SearchHit| hit_key(h) == k)
}

/// Hits that tie on every ordering field keep their input order (the sort
/// is stable).
pub open spec fn keeps_tie_order(r: Seq<SearchHit>, hits: Seq<SearchHit>) -> bool {
    forall|k: (u64, Seq<char>, u64)| #[trigger] with_key(r, k) == with_key(hits, k)
}

proof fn lemma_hit_before_by_key(a: SearchHit, b: SearchHit, c: SearchHit)
    requires
        hit_key(b) == hit_key(c),
    ensures
        hit_before(a, b) == hit_before(a, c),
{
}

proof fn lemma_hit_before_total(a: SearchHit, b: SearchHit)
    ensures
        hit_before(a, b) || hit_before(b, a) || hit_key(a) == hit_key(b),
{
    lemma_seq_lt_total(a.updated_at@, b.updated_at@);
}

proof fn lemma_hit_before_distinct_keys(a: SearchHit, b: SearchHit)
    requires
        hit_before(a, b),
    ensures
        hit_key(a) != hit_key(b),
{
    lemma_seq_lt_irreflexive(a.updated_at@);
}

proof fn lemma_with_key_none(s: Seq<SearchHit>, k: (u64, Seq<char>, u64))
    requires
        forall|i: int| 0 <= i < s.len() ==> hit_key(#[trigger] s[i]) != k,
    ensures
        with_key(s, k) == Seq::<SearchHit>::empty(),
    decreases s.len(),
{
    if s.len() > 0 {
        let init = s.drop_last();
        assert(init.push(s.last()) =~= s);
        lemma_with_key_none(init, k);
        init.lemma_filter_push(s.last(), |h: SearchHit| hit_key(h) == k);
    } else {
        assert(s.filter(|h: SearchHit| hit_key(h) == k) =~= Seq::<SearchHit>::empty()) by {
            reveal(Seq::filter);
        }
    }
}

fn insert_hit(r: &mut Vec<SearchHit>, x: SearchHit)
    requires
        hits_sorted(old(r)@),
    ensures
        hits_sorted(final(r)@),
        final(r)@.to_multiset() == old(r)@.to_multiset().insert(x),
        forall|k: (u64, Seq<char>, u64)| #[trigger] with_key(final(r)@, k) == if hit_key(x) == k {
            with_key(old(r)@, k).push(x)
        } else {
            with_key(old(r)@, k)
        },
{
    let mut p: usize = 0;
    while p < r.len() && !hit_before_exec(&x, &r[p])
        invariant
            0 <= p <= r@.len(),
            r@ == old(r)@,
            hits_sorted(r@),
            forall|q: int| 0 <= q < p ==> !hit_before(x, r@[q]),
        decreases r.len() - p,
    {
        p = p + 1;
    }
    let ghost s = r@;
    r.insert(p, x);
    proof {
        let t = r@;
        assert(t == s.insert(p as int, x));
        assert forall|a: int, b: int| 0 <= a < b < t.len() implies !hit_before(t[b], t[a]) by {
            if a == p {
                assert(t[b] == s[b - 1]);
                if hit_before(s[b - 1], x) {
                    if b - 1 == p {
                        lemma_hit_before_asymmetric(x, s[p as int]);
                    } else {
                        lemma_hit_before_transitive(s[b - 1], x, s[p as int]);
                    }
                }
            } else if b == p {
                assert(t[a] == s[a]);
            } else {
                let a2 = if a < p {
                    a
                } else {
                    a - 1
                };
                let b2 = if b < p {
                    b
                } else {
                    b - 1
                };
                assert(t[a] == s[a2]);
                assert(t[b] == s[b2]);
            }
        }
        vstd::seq_lib::to_multiset_insert(s, p as int, x);
        let head = s.take(p as int);
        let tail = s.skip(p as int);
        assert(t =~= head + seq![x] + tail);
        assert(s =~= head + tail);
        assert forall|q: int| 0 <= q < tail.len() implies hit_before(x, #[trigger] tail[q]) by {
            assert(tail[q] == s[p + q]);
            assert(hit_before(x, s[p as int]));
            if q > 0 {
                assert(!hit_before(s[p + q], s[p as int]));
                lemma_hit_before_total(s[p as int], s[p + q]);
                if hit_before(s[p as int], s[p + q]) {
                    lemma_hit_before_transitive(x, s[p as int], s[p + q]);
                } else {
                    lemma_hit_before_by_key(x, s[p as int], s[p + q]);
                }
            }
        }
        assert forall|k: (u64, Seq<char>, u64)| #[trigger] with_key(t, k) == if hit_key(x) == k {
            with_key(s, k).push(x)
        } else {
            with_key(s, k)
        } by {
            let pred = |h: SearchHit| hit_key(h) == k;
            Seq::filter_distributes_over_add(head + seq![x], tail, pred);
            Seq::filter_distributes_over_add(head, seq![x], pred);
            Seq::filter_distributes_over_add(head, tail, pred);
            head.lemma_filter_push(x, pred);
            assert(head + seq![x] =~= head.push(x));
            if hit_key(x) == k {
                assert forall|q: int| 0 <= q < tail.len() implies hit_key(#[trigger] tail[q]) != k by {
                    lemma_hit_before_distinct_keys(x, tail[q]);
                }
                lemma_with_key_none(tail, k);
                assert(with_key(t, k) =~= with_key(head, k).push(x));
                assert(with_key(s, k) =~= with_key(head, k));
            } else {
                assert(with_key(t, k) =~= with_key(head, k) + with_key(tail, k));
            }
        }
    }
}

/// Orders hits by score, then update time, then number, all descending.
pub fn sort_hits(hits: Vec<SearchHit>) -> (r: Vec<SearchHit>)
    ensures
        hits_sorted(r@),
        r@.to_multiset() == hits@.to_multiset(),
        keeps_tie_order(r@, hits@),
{
    let mut r: Vec<SearchHit> = Vec::new();
    let mut rest = hits;
    let ghost all = rest@;
    let n = rest.len();
    let mut taken: usize = 0;
    assert(all.skip(0) =~= all);
    assert(all.take(0) =~= r@);
    while rest.len() > 0
        invariant
            rest@ == all.skip(taken as int),
            all.len() == n,
            taken <= all.len(),
            hits_sorted(r@),
            r@.to_multiset() == all.take(taken as int).to_multiset(),
            keeps_tie_order(r@, all.take(taken as int)),
        decreases rest.len(),
    {
        let x = rest.remove(0);
        proof {
            assert(x == all[taken as int]);
            assert(all.take(taken + 1) =~= all.take(taken as int).push(x));
            vstd::seq_lib::to_multiset_build(all.take(taken as int), x);
            assert forall|k: (u64, Seq<char>, u64)| #[trigger] with_key(all.take(taken + 1), k) == if hit_key(x) == k {
                with_key(all.take(taken as int), k).push(x)
            } else {
                with_key(all.take(taken as int), k)
            } by {
                all.take(taken as int).lemma_filter_push(x, |h: SearchHit| hit_key(h) == k);
            }
        }
        insert_hit(&mut r, x);
        taken = taken + 1;
        assert(rest@ =~= all.skip(taken as int));
    }
    assert(all.take(all.len() as int) =~= all);
    r
}

/// A manifest entry as search reads it.
pub struct SearchEntry {
    pub number: u64,
    pub path: String,
    pub title: String,
    pub updated_at: String,
    pub sha256: String,
    pub keywords: Vec<String>,
}

/// The content of the first archive with this number, if any.
pub open spec fn content_of(docs: Seq<crate::history::HistoryDocument>, number: u64) -> Option<Seq<char>>
    decreases docs.len(),
{
    if docs.len() == 0 {
        None
    } else if docs[0].number == number {
        Some(docs[0].content@)
    } else {
        content_of(docs.drop_first(), number)
    }
}

/// The hit an entry gives: those with an archive, and, when there are
/// tokens, a positive score.
pub open spec fn hit_for(e: SearchEntry, docs: Seq<crate::history::HistoryDocument>, tokens: Seq<Seq<char>>, h: SearchHit) -> bool {
    &&& content_of(docs, e.number) is Some
    &&& h.number == e.number
    &&& h.path == e.path
    &&& h.title == e.title
    &&& h.updated_at == e.updated_at
    &&& h.sha256 == e.sha256
    &&& h.score == search_score_spec(e.title@, views(e.keywords@), content_of(docs, e.number)->0, tokens)
    &&& h.snippet@ == snippet_spec(content_of(docs, e.number)->0, tokens)
}

pub open spec fn gives_hit(e: SearchEntry, docs: Seq<crate::history::HistoryDocument>, tokens: Seq<Seq<char>>) -> bool {
    content_of(docs, e.number) is Some && (tokens.len() == 0 || search_score_spec(
        e.title@,
        views(e.keywords@),
        content_of(docs, e.number)->0,
        tokens,
    ) > 0)
}

/// The entries that give hits, in manifest order.
pub open spec fn hit_entries(entries: Seq<SearchEntry>, docs: Seq<crate::history::HistoryDocument>, tokens: Seq<Seq<char>>) -> Seq<SearchEntry>
    decreases entries.len(),
{
    if entries.len() == 0 {
        Seq::empty()
    } else if gives_hit(entries.last(), docs, tokens) {
        hit_entries(entries.drop_last(), docs, tokens).push(entries.last())
    } else {
        hit_entries(entries.drop_last(), docs, tokens)
    }
}

proof fn lemma_hit_entries_keep(
    entries: Seq<SearchEntry>,
    docs: Seq<crate::history::HistoryDocument>,
    tokens: Seq<Seq<char>>,
    j: int,
)
    requires
        0 <= j < entries.len(),
        gives_hit(entries[j], docs, tokens),
    ensures
        hit_entries(entries, docs, tokens).contains(entries[j]),
    decreases entries.len(),
{
    let h = hit_entries(entries, docs, tokens);
    if j == entries.len() - 1 {
        assert(h.last() == entries[j]);
    } else {
        assert(entries.drop_last()[j] == entries[j]);
        lemma_hit_entries_keep(entries.drop_last(), docs, tokens, j);
        let h0 = hit_entries(entries.drop_last(), docs, tokens);
        let i = choose|i: int| 0 <= i < h0.len() && h0[i] == entries[j];
        if gives_hit(entries.last(), docs, tokens) {
            assert(h[i] == entries[j]);
        }
    }
}

/// Law: an entry whose archive is present and whose content holds one of
/// the query tokens in any letter case is among the hits.
pub proof fn law_matching_archive_is_hit(
    entries: Seq<SearchEntry>,
    docs: Seq<crate::history::HistoryDocument>,
    tokens: Seq<Seq<char>>,
    j: int,
    k: int,
)
    requires
        0 <= j < entries.len(),
        0 <= k < tokens.len(),
        content_of(docs, entries[j].number) is Some,
        crate::text::contains(lowercase(content_of(docs, entries[j].number)->0), tokens[k]),
    ensures
        hit_entries(entries, docs, tokens).contains(entries[j]),
{
    let e = entries[j];
    law_score_ignores_case(e.title@, views(e.keywords@), content_of(docs, e.number)->0, tokens);
    assert(search_score_spec(e.title@, views(e.keywords@), content_of(docs, e.number)->0, tokens) >= 4);
    lemma_hit_entries_keep(entries, docs, tokens, j);
}

fn find_content(docs: &Vec<crate::history::HistoryDocument>, number: u64) -> (r: Option<&String>)
    ensures
        match r {
            Some(c) => content_of(docs@, number) == Some(c@),
            None => content_of(docs@, number) is None,
        },
{
    let mut i: usize = 0;
    assert(docs@.skip(0) =~= docs@);
    while i < docs.len()
        invariant
            0 <= i <= docs.len(),
            content_of(docs@, number) == content_of(docs@.skip(i as int), number),
        decreases docs.len() - i,
    {
        assert(docs@.skip(i as int)[0] == docs@[i as int]);
        if docs[i].number == number {
            return Some(&docs[i].content);
        }
        assert(docs@.skip(i as int).drop_first() =~= docs@.skip(i + 1));
        i = i + 1;
    }
    assert(docs@.skip(i as int).len() == 0);
    None
}

pub fn clone_strings(v: &Vec<String>) -> (r: Vec<String>)
    ensures
        r@ == v@,
{
    let mut r: Vec<String> = Vec::new();
    let mut i: usize = 0;
    while i < v.len()
        invariant
            0 <= i <= v.len(),
            r@ == v@.take(i as int),
        decreases v.len() - i,
    {
        r.push(v[i].clone());
        i = i + 1;
        assert(r@ =~= v@.take(i as int));
    }
    assert(v@.take(v.len() as int) =~= v@);
    r
}

/// The hits of a search, in manifest order (see `hit_entries`).
pub fn collect_hits(entries: &Vec<SearchEntry>, docs: &Vec<crate::history::HistoryDocument>, tokens: &Vec<String>) -> (r: Vec<SearchHit>)
    requires
        tokens.len() < 0x1_0000_0000,
    ensures
        r@.len() == hit_entries(entries@, docs@, views(tokens@)).len(),
        forall|k: int| 0 <= k < r@.len() ==> hit_for(hit_entries(entries@, docs@, views(tokens@))[k], docs@, views(tokens@), #[trigger] r@[k]),
{
    let ghost tv = views(tokens@);
    let mut r: Vec<SearchHit> = Vec::new();
    let mut i: usize = 0;
    while i < entries.len()
        invariant
            0 <= i <= entries.len(),
            tokens.len() < 0x1_0000_0000,
            tv == views(tokens@),
            r@.len() == hit_entries(entries@.take(i as int), docs@, tv).len(),
            forall|k: int| 0 <= k < r@.len() ==> hit_for(hit_entries(entries@.take(i as int), docs@, tv)[k], docs@, tv, #[trigger] r@[k]),
        decreases entries.len() - i,
    {
        let ghost pre = entries@.take(i as int);
        assert(entries@.take(i + 1).drop_last() =~= pre);
        assert(entries@.take(i + 1).last() == entries@[i as int]);
        let e = &entries[i];
        match find_content(docs, e.number) {
            Some(content) => {
                let score = search_score(e.title.as_str(), &e.keywords, content.as_str(), tokens);
                if tokens.len() == 0 || score > 0 {
                    let h = SearchHit {
                        number: e.number,
                        path: e.path.clone(),
                        title: e.title.clone(),
                        updated_at: e.updated_at.clone(),
                        sha256: e.sha256.clone(),
                        score,
                        snippet: search_snippet(content.as_str(), tokens),
                    };
                    let ghost before = r@;
                    r.push(h);
                    assert forall|k: int| 0 <= k < r@.len() implies hit_for(hit_entries(entries@.take(i + 1), docs@, tv)[k], docs@, tv, #[trigger] r@[k]) by {
                        if k < before.len() {
                            assert(r@[k] == before[k]);
                        }
                    }
                }
            },
            None => {},
        }
        i = i + 1;
    }
    assert(entries@.take(entries.len() as int) =~= entries@);
    r
}

/// The keywords of an archive: the first 32 tokens (in `str` order) of its
/// title and recorded inputs joined by spaces.
pub fn keywords_of(values: &Vec<String>) -> (r: Vec<String>)
    ensures
        exists|t: Seq<Seq<char>>|
            strictly_sorted(t) && t.to_set() == candidate_tokens(
                pieces(join_with(views(values@), seq![' '])),
            ).to_set() && views(r@) == t.take(if t.len() < 32 {
                t.len() as int
            } else {
                32
            }),
{
    let joined = string_of(&join_space(values));
    let all = tokenize(joined.as_str());
    let n: usize = if all.len() < 32 {
        all.len()
    } else {
        32
    };
    let mut r: Vec<String> = Vec::new();
    let mut i: usize = 0;
    while i < n
        invariant
            0 <= i <= n <= all.len(),
            views(r@) == views(all@).take(i as int),
        decreases n - i,
    {
        let ghost prev = r@;
        r.push(all[i].clone());
        assert(views(r@) =~= views(prev).push(all@[i as int]@));
        i = i + 1;
        assert(views(r@) =~= views(all@).take(i as int));
    }
    assert(views(all@).len() == all.len());
    r
}

} // verus!
